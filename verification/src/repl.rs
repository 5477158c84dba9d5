//! How the interactive client reads a line that its user typed.
use vstd::prelude::*;
use crate::client::get_result_view;
use crate::error::{ChxError, ChxErrorView, error_text};
use crate::text::{
    chars_of, concat_str, is_whitespace, push_char, string_of, trim, trim_str, white_space,
};

verus! {

/// The words of `s`: its longest runs of characters that are not white
/// space, in order, as `str::split_whitespace` gives them.
pub open spec fn words(s: Seq<char>) -> Seq<Seq<char>>
    decreases s.len(),
{
    if s.len() == 0 {
        Seq::empty()
    } else if white_space(s.last()) {
        words(s.drop_last())
    } else {
        let init = words(s.drop_last());
        if s.len() > 1 && !white_space(s[s.len() - 2]) {
            init.update(init.len() - 1, init.last().push(s.last()))
        } else {
            init.push(seq![s.last()])
        }
    }
}

/// The pieces of `ws` with `sep` between each two, as `join` gives them.
pub open spec fn join(ws: Seq<Seq<char>>, sep: Seq<char>) -> Seq<char>
    decreases ws.len(),
{
    if ws.len() == 0 {
        Seq::empty()
    } else if ws.len() == 1 {
        ws[0]
    } else {
        join(ws.drop_last(), sep) + sep + ws.last()
    }
}

/// Strings as character sequences.
pub open spec fn strings_view(v: Seq<String>) -> Seq<Seq<char>> {
    v.map_values(|x: String| x@)
}

/// What the lower-case mapping of `s` gives (`str::to_lowercase`).
pub uninterp spec fn lowercase(s: Seq<char>) -> Seq<char>;

/// Every character of `s` is ASCII.
pub open spec fn is_ascii_text(s: Seq<char>) -> bool {
    forall|i: int| 0 <= i < s.len() ==> (s[i] as u32) < 128
}

/// `c` with an ASCII capital letter mapped to its small letter.
pub open spec fn ascii_lower_char(c: char) -> char {
    if 'A' <= c && c <= 'Z' {
        ((c as u32) + 32) as char
    } else {
        c
    }
}

/// `s` with its ASCII capital letters mapped to small letters.
pub open spec fn ascii_lower(s: Seq<char>) -> Seq<char> {
    s.map_values(|c: char| ascii_lower_char(c))
}

/// The lower case of a word: for ASCII text its ASCII lower case, otherwise
/// what `str::to_lowercase` gives.
pub open spec fn lowered(s: Seq<char>) -> Seq<char> {
    if is_ascii_text(s) {
        ascii_lower(s)
    } else {
        lowercase(s)
    }
}

/// Maps text to lower case with `str::to_lowercase`.
/// Trusted: the result is the named lower-case mapping of `s`, which
/// depends on `s` alone (Unicode's case tables, not the locale); on ASCII
/// text it maps `A`..`Z` to `a`..`z` and keeps every other character, as
/// Unicode's lower-case mapping of those characters is.
#[verifier::external_body]
fn to_lowercase(s: &str) -> (out: String)
    ensures
        out@ == lowercase(s@),
        is_ascii_text(s@) ==> out@ == ascii_lower(s@),
{
    s.to_lowercase()
}

/// A typed line as the client reads it.
pub enum ReplCommandView {
    /// Nothing but white space: the line is ignored.
    Blank,
    Get(Seq<char>),
    Put(Seq<char>, Seq<char>),
    Del(Seq<char>),
    /// `quit` or `exit`.
    Quit,
    Help,
    /// A known command with the wrong number of words; the usage line.
    Usage(Seq<char>),
    /// An unknown command word.
    Unknown(Seq<char>),
}

/// A typed line as the client reads it.
pub enum ReplCommand {
    Blank,
    Get(String),
    Put(String, String),
    Del(String),
    Quit,
    Help,
    Usage(String),
    Unknown(String),
}

impl View for ReplCommand {
    type V = ReplCommandView;

    open spec fn view(&self) -> ReplCommandView {
        match self {
            ReplCommand::Blank => ReplCommandView::Blank,
            ReplCommand::Get(k) => ReplCommandView::Get(k@),
            ReplCommand::Put(k, v) => ReplCommandView::Put(k@, v@),
            ReplCommand::Del(k) => ReplCommandView::Del(k@),
            ReplCommand::Quit => ReplCommandView::Quit,
            ReplCommand::Help => ReplCommandView::Help,
            ReplCommand::Usage(u) => ReplCommandView::Usage(u@),
            ReplCommand::Unknown(w) => ReplCommandView::Unknown(w@),
        }
    }
}

/// `t` begins and ends with `"` (two of them at least).
pub open spec fn is_quoted(t: Seq<char>) -> bool {
    t.len() >= 2 && t[0] == '"' && t.last() == '"'
}

/// The text between a leading and a trailing `"` of `t`, or `t` itself
/// where it is not so quoted: quotes group a value and are not part of it.
pub open spec fn unquote(t: Seq<char>) -> Seq<char> {
    if is_quoted(t) {
        t.subrange(1, t.len() - 1)
    } else {
        t
    }
}

/// What a line of words means, `command` being its first word in lower
/// case: `get <key>`, `set <key> <value...>` (the value is the rest of the
/// words joined by single spaces, without the quotes where they begin and
/// end with `"`), `del <key>`, `quit`, `exit` and `help`.
pub open spec fn spec_classify(parts: Seq<Seq<char>>, command: Seq<char>) -> ReplCommandView {
    if parts.len() == 0 {
        ReplCommandView::Blank
    } else if command == "get"@ {
        if parts.len() == 2 {
            ReplCommandView::Get(parts[1])
        } else {
            ReplCommandView::Usage("Usage: GET <key>"@)
        }
    } else if command == "set"@ {
        if parts.len() >= 3 {
            ReplCommandView::Put(parts[1], unquote(join(parts.skip(2), " "@)))
        } else {
            ReplCommandView::Usage("Usage: SET <key> <value>"@)
        }
    } else if command == "del"@ {
        if parts.len() == 2 {
            ReplCommandView::Del(parts[1])
        } else {
            ReplCommandView::Usage("Usage: DEL <key>"@)
        }
    } else if command == "quit"@ || command == "exit"@ {
        ReplCommandView::Quit
    } else if command == "help"@ {
        ReplCommandView::Help
    } else {
        ReplCommandView::Unknown(parts[0])
    }
}

/// How the client reads a typed line: a line of white space is ignored;
/// otherwise its words are classified by the first word in lower case.
pub open spec fn spec_repl_command(line: Seq<char>) -> ReplCommandView {
    let parts = words(trim(line));
    if trim(line).len() == 0 || parts.len() == 0 {
        ReplCommandView::Blank
    } else {
        spec_classify(parts, lowered(parts[0]))
    }
}

/// The words of `s`, as `str::split_whitespace` gives them.
pub fn split_whitespace(s: &str) -> (out: Vec<String>)
    ensures
        strings_view(out@) == words(s@),
{
    let chars = chars_of(s);
    let n = chars.len();
    let mut out: Vec<String> = Vec::new();
    let mut i: usize = 0;
    assert(s@.take(0) =~= Seq::<char>::empty());
    assert(strings_view(out@) =~= Seq::<Seq<char>>::empty());
    while i < n
        invariant
            i <= n == chars.len(),
            chars@ == s@,
            strings_view(out@) == words(s@.take(i as int)),
            i > 0 && !white_space(s@[i - 1]) ==> out.len() > 0,
        decreases n - i,
    {
        let c = chars[i];
        let ghost prev = s@.take(i as int);
        let ghost next = s@.take(i + 1);
        assert(next.drop_last() == prev);
        assert(next.last() == c);
        if is_whitespace(c) {
        } else if i > 0 && !is_whitespace(chars[i - 1]) {
            assert(next[next.len() - 2] == s@[i - 1]);
            let ghost before = strings_view(out@);
            let mut last = out.pop().unwrap();
            push_char(&mut last, c);
            out.push(last);
            assert(strings_view(out@) =~= before.update(before.len() - 1, before.last().push(c)));
        } else {
            let ghost before = strings_view(out@);
            let mut word = String::new();
            push_char(&mut word, c);
            out.push(word);
            assert(strings_view(out@) =~= before.push(seq![c]));
        }
        i = i + 1;
    }
    assert(s@.take(n as int) == s@);
    out
}

/// The words `parts[from..]` with single spaces between them.
pub fn join_from(parts: &Vec<String>, from: usize) -> (out: String)
    requires
        from <= parts.len(),
    ensures
        out@ == join(strings_view(parts@).skip(from as int), " "@),
{
    let ghost all = strings_view(parts@);
    if from == parts.len() {
        assert(all.skip(from as int) =~= Seq::<Seq<char>>::empty());
        return String::new();
    }
    let mut out = parts[from].clone();
    let mut k = from + 1;
    assert(all.skip(from as int).take(1) =~= seq![all[from as int]]);
    while k < parts.len()
        invariant
            from < k <= parts.len(),
            all == strings_view(parts@),
            out@ == join(all.skip(from as int).take(k - from), " "@),
        decreases parts.len() - k,
    {
        let ghost prev = all.skip(from as int).take(k - from);
        let ghost next = all.skip(from as int).take(k - from + 1);
        assert(next.drop_last() =~= prev);
        assert(next.last() == all[k as int]);
        let with_sep = concat_str(out.as_str(), " ");
        out = concat_str(with_sep.as_str(), parts[k].as_str());
        k = k + 1;
    }
    assert(all.skip(from as int).take(parts.len() - from) =~= all.skip(from as int));
    out
}

/// The text between a leading and a trailing `"` of `t`, or `t` itself.
pub fn unquote_str(t: &str) -> (out: String)
    ensures
        out@ == unquote(t@),
{
    let chars = chars_of(t);
    let n = chars.len();
    if n >= 2 && chars[0] == '"' && chars[n - 1] == '"' {
        string_of(&chars, 1, n - 1)
    } else {
        t.to_owned()
    }
}

/// Whether `s` is the text `lit`.
fn same_text(s: &String, lit: &str) -> (b: bool)
    ensures
        b == (s@ == lit@),
{
    let other = lit.to_owned();
    *s == other
}

/// Reads a line of words, `command` being its first word in lower case.
pub fn classify(parts: Vec<String>, command: &String) -> (c: ReplCommand)
    ensures
        c@ == spec_classify(strings_view(parts@), command@),
{
    let ghost ps = strings_view(parts@);
    if parts.len() == 0 {
        ReplCommand::Blank
    } else if same_text(command, "get") {
        if parts.len() == 2 {
            ReplCommand::Get(parts[1].clone())
        } else {
            ReplCommand::Usage("Usage: GET <key>".to_owned())
        }
    } else if same_text(command, "set") {
        if parts.len() >= 3 {
            let joined = join_from(&parts, 2);
            ReplCommand::Put(parts[1].clone(), unquote_str(joined.as_str()))
        } else {
            ReplCommand::Usage("Usage: SET <key> <value>".to_owned())
        }
    } else if same_text(command, "del") {
        if parts.len() == 2 {
            ReplCommand::Del(parts[1].clone())
        } else {
            ReplCommand::Usage("Usage: DEL <key>".to_owned())
        }
    } else if same_text(command, "quit") || same_text(command, "exit") {
        ReplCommand::Quit
    } else if same_text(command, "help") {
        ReplCommand::Help
    } else {
        ReplCommand::Unknown(parts[0].clone())
    }
}

/// Reads a line that the user typed.
pub fn parse_repl_line(line: &str) -> (c: ReplCommand)
    ensures
        c@ == spec_repl_command(line@),
{
    let trimmed = trim_str(line);
    if trimmed.as_str().is_empty() {
        return ReplCommand::Blank;
    }
    let parts = split_whitespace(trimmed.as_str());
    if parts.len() == 0 {
        return ReplCommand::Blank;
    }
    let command = to_lowercase(parts[0].as_str());
    classify(parts, &command)
}

/// A line that the interactive client prints.
pub enum Output {
    Stdout(String),
    Stderr(String),
}

/// A printed line, as characters.
pub enum OutputView {
    Stdout(Seq<char>),
    Stderr(Seq<char>),
}

impl View for Output {
    type V = OutputView;

    open spec fn view(&self) -> OutputView {
        match self {
            Output::Stdout(l) => OutputView::Stdout(l@),
            Output::Stderr(l) => OutputView::Stderr(l@),
        }
    }
}

/// What the interactive client does after a command.
pub enum Next {
    /// Reads the next line.
    Continue,
    /// Ends.
    Exit,
    /// Gives up the connection, for this error, and connects again.
    Reconnect(ChxError),
}

/// What the client does next, with the error as a view.
pub enum NextView {
    Continue,
    Exit,
    Reconnect(ChxErrorView),
}

/// The lines that the client prints after a command, and what it does next.
pub struct Reaction {
    pub lines: Vec<Output>,
    pub next: Next,
}

/// A reaction as views.
pub struct ReactionView {
    pub lines: Seq<OutputView>,
    pub next: NextView,
}

impl View for Reaction {
    type V = ReactionView;

    open spec fn view(&self) -> ReactionView {
        ReactionView {
            lines: self.lines@.map_values(|o: Output| o@),
            next: match self.next {
                Next::Continue => NextView::Continue,
                Next::Exit => NextView::Exit,
                Next::Reconnect(e) => NextView::Reconnect(e@),
            },
        }
    }
}

/// The reaction to a command that needs no server: `None` for GET, SET and
/// DEL. Nothing is printed for a blank line; `quit` says goodbye and ends;
/// `help` lists the commands; a usage line and an unknown command are
/// reported on standard error.
pub open spec fn spec_react_local(c: ReplCommandView) -> Option<ReactionView> {
    match c {
        ReplCommandView::Blank => Some(ReactionView { lines: seq![], next: NextView::Continue }),
        ReplCommandView::Quit => Some(
            ReactionView {
                lines: seq![OutputView::Stdout("Exiting Chx client."@)],
                next: NextView::Exit,
            },
        ),
        ReplCommandView::Help => Some(
            ReactionView {
                lines: seq![
                    OutputView::Stdout("Available commands:"@),
                    OutputView::Stdout("  GET <key>        - Retrieve the value associated with a key"@),
                    OutputView::Stdout("  SET <key> <value> - Set a key-value pair"@),
                    OutputView::Stdout("  DEL <key>        - Delete a key"@),
                    OutputView::Stdout("  quit | exit      - Exit the client"@),
                ],
                next: NextView::Continue,
            },
        ),
        ReplCommandView::Usage(u) => Some(
            ReactionView { lines: seq![OutputView::Stderr(u)], next: NextView::Continue },
        ),
        ReplCommandView::Unknown(w) => Some(
            ReactionView {
                lines: seq![
                    OutputView::Stderr("Unknown command: "@ + w),
                    OutputView::Stdout("Type 'help' for available commands."@),
                ],
                next: NextView::Continue,
            },
        ),
        _ => None,
    }
}

/// The error with which a command gives up its connection.
pub open spec fn lost(e: ChxErrorView) -> ChxErrorView {
    ChxErrorView::Other("Connection error: "@ + error_text(e))
}

/// The reaction to a GET's outcome: the value, or "Key not found"; an error
/// gives up the connection.
pub open spec fn spec_react_get(r: Result<Option<Seq<char>>, ChxErrorView>) -> ReactionView {
    match r {
        Ok(Some(v)) => ReactionView { lines: seq![OutputView::Stdout(v)], next: NextView::Continue },
        Ok(None) => ReactionView {
            lines: seq![OutputView::Stdout("Key not found"@)],
            next: NextView::Continue,
        },
        Err(e) => ReactionView { lines: seq![], next: NextView::Reconnect(lost(e)) },
    }
}

/// The reaction to the outcome of a SET or a DEL: `done` is printed on
/// success; an error gives up the connection.
pub open spec fn spec_react_ack(r: Result<(), ChxErrorView>, done: Seq<char>) -> ReactionView {
    match r {
        Ok(()) => ReactionView { lines: seq![OutputView::Stdout(done)], next: NextView::Continue },
        Err(e) => ReactionView { lines: seq![], next: NextView::Reconnect(lost(e)) },
    }
}

/// A reaction that prints `lines` and then reads the next line.
fn printing(lines: Vec<Output>) -> (r: Reaction)
    ensures
        r@.lines == lines@.map_values(|o: Output| o@),
        r@.next == NextView::Continue,
{
    Reaction { lines, next: Next::Continue }
}

/// The reaction to a command that needs no server, or `None` for GET, SET
/// and DEL.
pub fn react_local(c: &ReplCommand) -> (r: Option<Reaction>)
    ensures
        match r {
            Some(r) => spec_react_local(c@) == Some(r@),
            None => spec_react_local(c@) is None,
        },
{
    match c {
        ReplCommand::Blank => {
            let r = printing(Vec::new());
            assert(r@.lines =~= seq![]);
            Some(r)
        },
        ReplCommand::Quit => {
            let mut lines = Vec::new();
            lines.push(Output::Stdout("Exiting Chx client.".to_owned()));
            let r = Reaction { lines, next: Next::Exit };
            assert(r@.lines =~= seq![OutputView::Stdout("Exiting Chx client."@)]);
            Some(r)
        },
        ReplCommand::Help => {
            let mut lines = Vec::new();
            lines.push(Output::Stdout("Available commands:".to_owned()));
            lines.push(
                Output::Stdout(
                    "  GET <key>        - Retrieve the value associated with a key".to_owned(),
                ),
            );
            lines.push(Output::Stdout("  SET <key> <value> - Set a key-value pair".to_owned()));
            lines.push(Output::Stdout("  DEL <key>        - Delete a key".to_owned()));
            lines.push(Output::Stdout("  quit | exit      - Exit the client".to_owned()));
            let r = printing(lines);
            assert(r@.lines =~= seq![
                OutputView::Stdout("Available commands:"@),
                OutputView::Stdout("  GET <key>        - Retrieve the value associated with a key"@),
                OutputView::Stdout("  SET <key> <value> - Set a key-value pair"@),
                OutputView::Stdout("  DEL <key>        - Delete a key"@),
                OutputView::Stdout("  quit | exit      - Exit the client"@),
            ]);
            Some(r)
        },
        ReplCommand::Usage(u) => {
            let mut lines = Vec::new();
            lines.push(Output::Stderr(u.clone()));
            let r = printing(lines);
            assert(r@.lines =~= seq![OutputView::Stderr(u@)]);
            Some(r)
        },
        ReplCommand::Unknown(w) => {
            let mut lines = Vec::new();
            lines.push(Output::Stderr(concat_str("Unknown command: ", w.as_str())));
            lines.push(Output::Stdout("Type 'help' for available commands.".to_owned()));
            let r = printing(lines);
            assert(r@.lines =~= seq![
                OutputView::Stderr("Unknown command: "@ + w@),
                OutputView::Stdout("Type 'help' for available commands."@),
            ]);
            Some(r)
        },
        _ => None,
    }
}

/// The reaction to a GET's outcome.
pub fn react_get(r: Result<Option<String>, ChxError>) -> (out: Reaction)
    ensures
        out@ == spec_react_get(get_result_view(r)),
{
    match r {
        Ok(Some(v)) => {
            let ghost vv = v@;
            let mut lines = Vec::new();
            lines.push(Output::Stdout(v));
            let out = printing(lines);
            assert(out@.lines =~= seq![OutputView::Stdout(vv)]);
            out
        },
        Ok(None) => {
            let mut lines = Vec::new();
            lines.push(Output::Stdout("Key not found".to_owned()));
            let out = printing(lines);
            assert(out@.lines =~= seq![OutputView::Stdout("Key not found"@)]);
            out
        },
        Err(e) => {
            let out = Reaction { lines: Vec::new(), next: Next::Reconnect(ChxError::connection_lost(&e)) };
            assert(out@.lines =~= seq![]);
            out
        },
    }
}

/// The reaction to the outcome of a SET or a DEL, `done` being the line
/// printed on success.
fn react_ack(r: Result<(), ChxError>, done: &str) -> (out: Reaction)
    ensures
        out@ == spec_react_ack(ack_view(r), done@),
{
    match r {
        Ok(()) => {
            let mut lines = Vec::new();
            lines.push(Output::Stdout(done.to_owned()));
            let out = printing(lines);
            assert(out@.lines =~= seq![OutputView::Stdout(done@)]);
            out
        },
        Err(e) => {
            let out = Reaction { lines: Vec::new(), next: Next::Reconnect(ChxError::connection_lost(&e)) };
            assert(out@.lines =~= seq![]);
            out
        },
    }
}

/// The outcome of a SET or a DEL, as views.
pub open spec fn ack_view(r: Result<(), ChxError>) -> Result<(), ChxErrorView> {
    match r {
        Ok(()) => Ok(()),
        Err(e) => Err(e@),
    }
}

/// The reaction to a SET's outcome: "Key set successfully" on success.
pub fn react_set(r: Result<(), ChxError>) -> (out: Reaction)
    ensures
        out@ == spec_react_ack(ack_view(r), "Key set successfully"@),
{
    react_ack(r, "Key set successfully")
}

/// The reaction to a DEL's outcome: "Key deleted successfully" on success.
pub fn react_del(r: Result<(), ChxError>) -> (out: Reaction)
    ensures
        out@ == spec_react_ack(ack_view(r), "Key deleted successfully"@),
{
    react_ack(r, "Key deleted successfully")
}

impl ChxError {
    /// The error with which a command of the interactive client gives up
    /// its connection, `cause` being what the operation reported.
    pub fn connection_lost(cause: &ChxError) -> (e: ChxError)
        ensures
            e@ == ChxErrorView::Other("Connection error: "@ + error_text(cause@)),
    {
        let text = cause.to_string();
        ChxError::Other(concat_str("Connection error: ", text.as_str()))
    }
}

} // verus!
