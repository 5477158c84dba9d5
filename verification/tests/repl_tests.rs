use chx::client::{acknowledge, get_request, get_result, parse_response, set_request};
use chx::server::CacheStore;
use chx::repl::{
    classify, join_from, parse_repl_line, react_del, react_get, react_local, react_set, split_whitespace,
    unquote_str, Next, Output, ReplCommand,
};
use chx::ChxError;

#[test]
fn repl_reads_the_commands_of_the_readme() {
    assert!(matches!(parse_repl_line("SET name john"), ReplCommand::Put(ref k, ref v) if k == "name" && v == "john"));
    assert!(matches!(parse_repl_line("SET message \"Hello, world!\""), ReplCommand::Put(ref k, ref v) if k == "message" && v == "Hello, world!"));
    assert!(matches!(parse_repl_line("GET name"), ReplCommand::Get(ref k) if k == "name"));
    assert!(matches!(parse_repl_line("DEL name"), ReplCommand::Del(ref k) if k == "name"));
    assert!(matches!(parse_repl_line("HELP"), ReplCommand::Help));
    assert!(matches!(parse_repl_line("quit"), ReplCommand::Quit));
    assert!(matches!(parse_repl_line("Exit"), ReplCommand::Quit));
}

#[test]
fn repl_usage_unknown_and_blank() {
    assert!(matches!(parse_repl_line("get"), ReplCommand::Usage(ref u) if u == "Usage: GET <key>"));
    assert!(matches!(parse_repl_line("get a b"), ReplCommand::Usage(ref u) if u == "Usage: GET <key>"));
    assert!(matches!(parse_repl_line("set a"), ReplCommand::Usage(ref u) if u == "Usage: SET <key> <value>"));
    assert!(matches!(parse_repl_line("del"), ReplCommand::Usage(ref u) if u == "Usage: DEL <key>"));
    assert!(matches!(parse_repl_line("frobnicate x"), ReplCommand::Unknown(ref w) if w == "frobnicate"));
    assert!(matches!(parse_repl_line("   \t "), ReplCommand::Blank));
    assert!(matches!(parse_repl_line(""), ReplCommand::Blank));
}

#[test]
fn set_value_words_are_joined_by_single_spaces() {
    assert!(matches!(parse_repl_line("  set   k  a \t b   c  "), ReplCommand::Put(ref k, ref v) if k == "k" && v == "a b c"));
}

#[test]
fn words_and_join() {
    let parts = split_whitespace("  a bb\t\nccc  ");
    assert_eq!(parts, vec!["a".to_string(), "bb".to_string(), "ccc".to_string()]);
    assert_eq!(join_from(&parts, 0), "a bb ccc");
    assert_eq!(join_from(&parts, 2), "ccc");
    assert!(split_whitespace(" \u{3000} ").is_empty());
}

#[test]
fn classify_takes_the_lowered_command() {
    let parts = vec!["GeT".to_string(), "k".to_string()];
    assert!(matches!(classify(parts, &"get".to_string()), ReplCommand::Get(ref k) if k == "k"));
    assert!(matches!(classify(Vec::new(), &"get".to_string()), ReplCommand::Blank));
}

#[test]
fn join_of_no_words_is_empty() {
    let parts = vec!["a".to_string()];
    assert_eq!(join_from(&parts, 1), "");
}

#[test]
fn what_a_user_sets_a_later_get_returns() {
    let mut store = CacheStore::new(60);
    let (key, value) = match parse_repl_line("Set greeting  Hello,\tworld! ") {
        ReplCommand::Put(k, v) => (k, v),
        _ => panic!("Expected a SET"),
    };
    assert_eq!(value, "Hello, world!");
    let reply = store.handle_request(set_request(&key, &value).as_bytes(), 0);
    acknowledge(parse_response(reply.as_bytes())).unwrap();
    let key = match parse_repl_line("get greeting") {
        ReplCommand::Get(k) => k,
        _ => panic!("Expected a GET"),
    };
    let reply = store.handle_request(get_request(&key).as_bytes(), 59_000_000_000);
    assert_eq!(get_result(parse_response(reply.as_bytes())).unwrap(), Some(value));
}

#[test]
fn quotes_group_a_value_and_are_dropped() {
    assert_eq!(unquote_str("\"a b\""), "a b");
    assert_eq!(unquote_str("\"\""), "");
    assert_eq!(unquote_str("\""), "\"");
    assert_eq!(unquote_str("\"a"), "\"a");
    assert_eq!(unquote_str("a\""), "a\"");
    assert_eq!(unquote_str("plain"), "plain");
    assert!(matches!(parse_repl_line("set k \"  spaced   out \""), ReplCommand::Put(ref k, ref v) if k == "k" && v == " spaced out "));
    assert!(matches!(parse_repl_line("set k it's \"quoted\" inside"), ReplCommand::Put(_, ref v) if v == "it's \"quoted\" inside"));
}

#[test]
fn command_words_ignore_case() {
    for line in ["help", "HELP", "Help", "hElP"] {
        assert!(matches!(parse_repl_line(line), ReplCommand::Help), "{}", line);
    }
    assert!(matches!(parse_repl_line("DeL k"), ReplCommand::Del(ref k) if k == "k"));
    assert!(matches!(parse_repl_line("HeLpX"), ReplCommand::Unknown(ref w) if w == "HeLpX"));
}

fn lines(r: &[Output]) -> Vec<(bool, String)> {
    r.iter()
        .map(|o| match o {
            Output::Stdout(t) => (true, t.clone()),
            Output::Stderr(t) => (false, t.clone()),
        })
        .collect()
}

#[test]
fn local_commands_print_and_go_on() {
    let r = react_local(&ReplCommand::Quit).unwrap();
    assert_eq!(lines(&r.lines), vec![(true, "Exiting Chx client.".to_string())]);
    assert!(matches!(r.next, Next::Exit));
    let r = react_local(&ReplCommand::Help).unwrap();
    assert_eq!(r.lines.len(), 5);
    assert_eq!(lines(&r.lines)[0], (true, "Available commands:".to_string()));
    assert_eq!(lines(&r.lines)[4], (true, "  quit | exit      - Exit the client".to_string()));
    assert!(matches!(r.next, Next::Continue));
    let r = react_local(&ReplCommand::Usage("Usage: DEL <key>".to_string())).unwrap();
    assert_eq!(lines(&r.lines), vec![(false, "Usage: DEL <key>".to_string())]);
    let r = react_local(&ReplCommand::Unknown("foo".to_string())).unwrap();
    assert_eq!(
        lines(&r.lines),
        vec![(false, "Unknown command: foo".to_string()), (true, "Type 'help' for available commands.".to_string())]
    );
    let r = react_local(&ReplCommand::Blank).unwrap();
    assert!(r.lines.is_empty() && matches!(r.next, Next::Continue));
    assert!(react_local(&ReplCommand::Get("k".to_string())).is_none());
}

#[test]
fn server_commands_print_their_outcome_or_reconnect() {
    let r = react_get(Ok(Some("john".to_string())));
    assert_eq!(lines(&r.lines), vec![(true, "john".to_string())]);
    let r = react_get(Ok(None));
    assert_eq!(lines(&r.lines), vec![(true, "Key not found".to_string())]);
    let r = react_get(Err(ChxError::InvalidResponse));
    assert!(r.lines.is_empty());
    assert!(matches!(r.next, Next::Reconnect(ChxError::Other(ref m)) if m == "Connection error: Invalid server response"));
    let r = react_set(Ok(()));
    assert_eq!(lines(&r.lines), vec![(true, "Key set successfully".to_string())]);
    let r = react_del(Ok(()));
    assert_eq!(lines(&r.lines), vec![(true, "Key deleted successfully".to_string())]);
    let r = react_del(Err(ChxError::IoError("x".to_string())));
    assert!(matches!(r.next, Next::Reconnect(ChxError::Other(ref m)) if m == "Connection error: I/O error: x"));
}

#[test]
fn readme_quoted_message_round_trip() {
    let mut store = CacheStore::new(0);
    let (key, value) = match parse_repl_line("SET message \"Hello, world!\"") {
        ReplCommand::Put(k, v) => (k, v),
        _ => panic!("Expected a SET"),
    };
    let reply = store.handle_request(set_request(&key, &value).as_bytes(), 0);
    assert_eq!(lines(&react_set(acknowledge(parse_response(reply.as_bytes()))).lines), vec![(true, "Key set successfully".to_string())]);
    let key = match parse_repl_line("GET message") {
        ReplCommand::Get(k) => k,
        _ => panic!("Expected a GET"),
    };
    let reply = store.handle_request(get_request(&key).as_bytes(), 0);
    let r = react_get(get_result(parse_response(reply.as_bytes())));
    assert_eq!(lines(&r.lines), vec![(true, "Hello, world!".to_string())]);
}
