use chx::client::{acknowledge, del_request, get_request, get_result, parse_reply, parse_response, set_request};
use chx::ChxError;

#[test]
fn test_parse_response_success() {
    let response = parse_response(b">OK\n").unwrap();
    assert_eq!(response, "OK");
}

#[test]
fn test_parse_response_error() {
    let err = parse_response(b"!eError message\n").unwrap_err();
    if let ChxError::ResponseError(msg) = err {
        assert_eq!(msg, "Error message");
    } else {
        panic!("Expected ResponseError, got {:?}", err);
    }
}

#[test]
fn test_parse_response_acknowledgment() {
    let response = parse_response(b"!\n").unwrap();
    assert_eq!(response, "");
}

#[test]
fn test_parse_response_invalid() {
    let err = parse_response(b"Invalid response\n").unwrap_err();
    if let ChxError::InvalidResponse = err {
        // Expected
    } else {
        panic!("Expected InvalidResponse, got {:?}", err);
    }
}

#[test]
fn test_chx_error_display() {
    let err1 = ChxError::ConnectionError("Failed to connect".to_string());
    assert_eq!(err1.to_string(), "Connection error: Failed to connect");

    let err2 = ChxError::IoError("Broken pipe".to_string());
    assert_eq!(err2.to_string(), "I/O error: Broken pipe");

    let err3 = ChxError::ResponseError("Key not found".to_string());
    assert_eq!(err3.to_string(), "Server response error: Key not found");

    let err4 = ChxError::InvalidResponse;
    assert_eq!(err4.to_string(), "Invalid server response");
}

#[test]
fn test_chx_error_from_io_error() {
    let io_err = std::io::Error::new(std::io::ErrorKind::Other, "Some IO error");
    let chx_err: ChxError = io_err.into();
    if let ChxError::IoError(msg) = chx_err {
        assert_eq!(msg, "Some IO error");
    } else {
        panic!("Expected IoError");
    }
}

#[test]
fn test_client_get_success() {
    assert_eq!(get_request("key"), "G key\n");
    let response = get_result(parse_response(b">value\n")).unwrap();
    assert_eq!(response, Some("value".to_string()));
}

#[test]
fn test_client_get_not_found() {
    assert_eq!(get_request("nonexistent_key"), "G nonexistent_key\n");
    let response = get_result(parse_response(b"!eKey not found\n")).unwrap();
    assert_eq!(response, None);
}

#[test]
fn test_client_set_success() {
    assert_eq!(set_request("key", "value"), "S key value\n");
    acknowledge(parse_response(b"!\n")).unwrap();
}

#[test]
fn test_client_del_success() {
    assert_eq!(del_request("key"), "D key\n");
    acknowledge(parse_response(b"!\n")).unwrap();
}

#[test]
fn other_error_text_and_plain_other_variant() {
    assert_eq!(ChxError::Other("boom".to_string()).to_string(), "Error: boom");
}

#[test]
fn from_readline_error_gives_other() {
    let e: ChxError = rustyline::error::ReadlineError::Eof.into();
    match e {
        ChxError::Other(m) => assert_eq!(m, "EOF"),
        other => panic!("Expected Other, got {:?}", other),
    }
    let e: ChxError = rustyline::error::ReadlineError::Interrupted.into();
    assert!(matches!(e, ChxError::Other(ref m) if m == "Interrupted"));
}

#[test]
fn send_and_read_failures_name_their_step() {
    match ChxError::send_failed("Broken pipe") {
        ChxError::IoError(m) => assert_eq!(m, "Failed to send command: Broken pipe"),
        other => panic!("Expected IoError, got {:?}", other),
    }
    match ChxError::read_failed("reset") {
        ChxError::IoError(m) => assert_eq!(m, "Failed to read response: reset"),
        other => panic!("Expected IoError, got {:?}", other),
    }
}

#[test]
fn connection_lost_wraps_the_cause_text() {
    let e = ChxError::connection_lost(&ChxError::InvalidResponse);
    assert!(matches!(e, ChxError::Other(ref m) if m == "Connection error: Invalid server response"));
}

#[test]
fn reply_parsing_trims_and_keeps_inner_spaces() {
    assert_eq!(parse_reply("  >Hello, world!  \r\n").unwrap(), "Hello, world!");
    assert_eq!(parse_reply(">").unwrap(), "");
    assert_eq!(parse_reply("!anything").unwrap(), "");
    assert!(matches!(parse_reply("!e").unwrap_err(), ChxError::ResponseError(ref m) if m.is_empty()));
    assert!(matches!(parse_reply("").unwrap_err(), ChxError::InvalidResponse));
    assert!(matches!(parse_reply("   \n").unwrap_err(), ChxError::InvalidResponse));
    assert!(matches!(parse_reply("ok").unwrap_err(), ChxError::InvalidResponse));
}

#[test]
fn invalid_utf8_reply_is_decoded_lossily() {
    assert!(matches!(parse_response(&[0xff, b'>']).unwrap_err(), ChxError::InvalidResponse));
    assert_eq!(parse_response(&[b'>', b'a', 0xff]).unwrap(), "a\u{FFFD}");
    assert_eq!(parse_response(">caf\u{e9}".as_bytes()).unwrap(), "caf\u{e9}");
}

#[test]
fn get_result_cases() {
    assert_eq!(get_result(Ok(String::new())).unwrap(), None);
    assert_eq!(get_result(Ok("v".to_string())).unwrap(), Some("v".to_string()));
    assert!(matches!(
        get_result(Err(ChxError::ResponseError("Other problem".to_string()))).unwrap_err(),
        ChxError::ResponseError(ref m) if m == "Other problem"
    ));
    assert!(matches!(get_result(Err(ChxError::InvalidResponse)).unwrap_err(), ChxError::InvalidResponse));
}

#[test]
fn acknowledge_passes_errors_through() {
    assert!(matches!(
        acknowledge(Err(ChxError::ResponseError("Invalid SET command".to_string()))).unwrap_err(),
        ChxError::ResponseError(ref m) if m == "Invalid SET command"
    ));
    assert!(acknowledge(Ok("data".to_string())).is_ok());
}
