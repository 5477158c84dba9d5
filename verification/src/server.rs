//! The server's side of the protocol: how a request line is read, and the
//! store of keys whose entries expire after a global time to live.
//!
//! Times are nanoseconds on a monotonic clock whose origin the caller picks
//! (the server's start); an entry remembers when it was stored.
use vstd::prelude::*;
use vstd::hash_map::StringHashMap;
use vstd::utf8::{decode_utf8, valid_utf8};
use crate::text::{
    chars_of, concat_str, decode_lossy, split_once, split_once_str, trim, trim_str, utf8_lossy,
};

verus! {

/// A request line as the server reads it.
pub enum RequestView {
    Get(Seq<char>),
    Put(Seq<char>, Seq<char>),
    Del(Seq<char>),
    /// `G` with no key.
    EmptyGetKey,
    /// `S` whose key or value is empty.
    EmptySetField,
    /// `S` with no space between key and value.
    MalformedSet,
    /// `D` with no key.
    EmptyDelKey,
    /// Any other command, or a line with no space.
    Unknown,
}

/// A request line as the server reads it.
pub enum Request {
    Get(String),
    Put(String, String),
    Del(String),
    EmptyGetKey,
    EmptySetField,
    MalformedSet,
    EmptyDelKey,
    Unknown,
}

impl View for Request {
    type V = RequestView;

    open spec fn view(&self) -> RequestView {
        match self {
            Request::Get(k) => RequestView::Get(k@),
            Request::Put(k, v) => RequestView::Put(k@, v@),
            Request::Del(k) => RequestView::Del(k@),
            Request::EmptyGetKey => RequestView::EmptyGetKey,
            Request::EmptySetField => RequestView::EmptySetField,
            Request::MalformedSet => RequestView::MalformedSet,
            Request::EmptyDelKey => RequestView::EmptyDelKey,
            Request::Unknown => RequestView::Unknown,
        }
    }
}

/// How the server reads a request line: the line is trimmed and cut at its
/// first space into a command and its arguments; the command is trimmed, and
/// a key or value is the trimmed text that stands for it.
pub open spec fn spec_parse_request(text: Seq<char>) -> RequestView {
    match split_once(trim(text), ' ') {
        None => RequestView::Unknown,
        Some((command, args)) => {
            let command = trim(command);
            if command == seq!['G'] {
                let key = trim(args);
                if key.len() == 0 {
                    RequestView::EmptyGetKey
                } else {
                    RequestView::Get(key)
                }
            } else if command == seq!['S'] {
                match split_once(args, ' ') {
                    None => RequestView::MalformedSet,
                    Some((key, value)) => {
                        let key = trim(key);
                        let value = trim(value);
                        if key.len() == 0 || value.len() == 0 {
                            RequestView::EmptySetField
                        } else {
                            RequestView::Put(key, value)
                        }
                    },
                }
            } else if command == seq!['D'] {
                let key = trim(args);
                if key.len() == 0 {
                    RequestView::EmptyDelKey
                } else {
                    RequestView::Del(key)
                }
            } else {
                RequestView::Unknown
            }
        },
    }
}

/// A stored value and when it was stored.
pub struct Entry {
    pub value: String,
    pub stored_at: u64,
}

/// A stored value, as characters, and when it was stored.
pub struct EntryView {
    pub value: Seq<char>,
    pub stored_at: u64,
}

impl View for Entry {
    type V = EntryView;

    open spec fn view(&self) -> EntryView {
        EntryView { value: self.value@, stored_at: self.stored_at }
    }
}

/// The store: its entries by key, and the time to live in seconds that
/// applies to all of them (0: entries never expire).
pub struct CacheView {
    pub entries: Map<Seq<char>, EntryView>,
    pub expire_time: u64,
}

/// An entry stored at `stored_at` has expired at `now` when a time to live is
/// set and more than that many seconds have passed: the time to live is the
/// longest that an entry stays valid.
pub open spec fn expired(stored_at: u64, now: u64, expire_time: u64) -> bool {
    expire_time > 0 && now > stored_at && now - stored_at > expire_time * 1_000_000_000
}

/// The reply to a request at `now`.
pub open spec fn spec_reply(s: CacheView, req: RequestView, now: u64) -> Seq<char> {
    match req {
        RequestView::Get(key) => if s.entries.contains_key(key) && !expired(
            s.entries[key].stored_at,
            now,
            s.expire_time,
        ) {
            ">"@ + s.entries[key].value
        } else {
            "!"@
        },
        RequestView::Put(_, _) => "!"@,
        RequestView::Del(_) => "!"@,
        RequestView::EmptyGetKey => "!eInvalid GET command (empty key)\n"@,
        RequestView::EmptySetField => "!eInvalid SET command (empty key or value)\n"@,
        RequestView::MalformedSet => "!eInvalid SET command\n"@,
        RequestView::EmptyDelKey => "!eInvalid DEL command (empty key)\n"@,
        RequestView::Unknown => "!eUNKNOWN_COMMAND\n"@,
    }
}

/// The store after a request at `now`: SET stores the value with the time,
/// DEL removes the key, and a GET that finds an expired entry removes it.
pub open spec fn spec_next(s: CacheView, req: RequestView, now: u64) -> CacheView {
    match req {
        RequestView::Get(key) => if s.entries.contains_key(key) && expired(
            s.entries[key].stored_at,
            now,
            s.expire_time,
        ) {
            CacheView { entries: s.entries.remove(key), ..s }
        } else {
            s
        },
        RequestView::Put(key, value) => CacheView {
            entries: s.entries.insert(key, EntryView { value, stored_at: now }),
            ..s
        },
        RequestView::Del(key) => CacheView { entries: s.entries.remove(key), ..s },
        _ => s,
    }
}

/// Whether `s` is the one-character text `c`.
fn is_single(s: &str, c: char) -> (b: bool)
    ensures
        b == (s@ == seq![c]),
{
    let chars = chars_of(s);
    if chars.len() == 1 && chars[0] == c {
        assert(s@ =~= seq![c]);
        true
    } else {
        false
    }
}

/// Whether an entry stored at `stored_at` has expired at `now`.
pub fn is_expired(stored_at: u64, now: u64, expire_time: u64) -> (b: bool)
    ensures
        b == expired(stored_at, now, expire_time),
{
    if expire_time == 0 || now <= stored_at {
        return false;
    }
    ((now - stored_at) as u128) > (expire_time as u128) * 1_000_000_000
}

/// Reads a request line.
pub fn parse_request(text: &str) -> (req: Request)
    ensures
        req@ == spec_parse_request(text@),
{
    let line = trim_str(text);
    match split_once_str(line.as_str(), ' ') {
        None => Request::Unknown,
        Some((command, args)) => {
            let command = trim_str(command.as_str());
            if is_single(command.as_str(), 'G') {
                let key = trim_str(args.as_str());
                if key.as_str().is_empty() {
                    Request::EmptyGetKey
                } else {
                    Request::Get(key)
                }
            } else if is_single(command.as_str(), 'S') {
                match split_once_str(args.as_str(), ' ') {
                    None => Request::MalformedSet,
                    Some((key, value)) => {
                        let key = trim_str(key.as_str());
                        let value = trim_str(value.as_str());
                        if key.as_str().is_empty() || value.as_str().is_empty() {
                            Request::EmptySetField
                        } else {
                            Request::Put(key, value)
                        }
                    },
                }
            } else if is_single(command.as_str(), 'D') {
                let key = trim_str(args.as_str());
                if key.as_str().is_empty() {
                    Request::EmptyDelKey
                } else {
                    Request::Del(key)
                }
            } else {
                Request::Unknown
            }
        },
    }
}

/// The key-value store that the server keeps.
pub struct CacheStore {
    entries: StringHashMap<Entry>,
    expire_time: u64,
}

impl View for CacheStore {
    type V = CacheView;

    closed spec fn view(&self) -> CacheView {
        CacheView {
            entries: self.entries@.map_values(|e: Entry| e@),
            expire_time: self.expire_time,
        }
    }
}

impl CacheStore {
    /// An empty store whose entries live `expire_time` seconds (0: forever).
    pub fn new(expire_time: u64) -> (store: CacheStore)
        ensures
            store@.entries == Map::<Seq<char>, EntryView>::empty(),
            store@.expire_time == expire_time,
    {
        let store = CacheStore { entries: StringHashMap::new(), expire_time };
        assert(store@.entries =~= Map::<Seq<char>, EntryView>::empty());
        store
    }

    /// The time to live, in seconds, of every entry (0: forever).
    pub fn expire_time(&self) -> (t: u64)
        ensures
            t == self@.expire_time,
    {
        self.expire_time
    }

    /// Answers one request read from `req` at `now`, and updates the store.
    pub fn respond(&mut self, req: Request, now: u64) -> (reply: String)
        ensures
            final(self)@ == spec_next(old(self)@, req@, now),
            reply@ == spec_reply(old(self)@, req@, now),
    {
        match req {
            Request::Get(key) => {
                let found = match self.entries.get(key.as_str()) {
                    Some(entry) => Some(
                        (entry.value.clone(), is_expired(entry.stored_at, now, self.expire_time)),
                    ),
                    None => None,
                };
                match found {
                    Some((_, true)) => {
                        self.entries.remove(key.as_str());
                        assert(self@.entries =~= old(self)@.entries.remove(key@));
                        "!".to_owned()
                    },
                    Some((value, false)) => concat_str(">", value.as_str()),
                    None => "!".to_owned(),
                }
            },
            Request::Put(key, value) => {
                let ghost k = key@;
                let ghost v = value@;
                self.entries.insert(key, Entry { value, stored_at: now });
                assert(self@.entries =~= old(self)@.entries.insert(
                    k,
                    EntryView { value: v, stored_at: now },
                ));
                "!".to_owned()
            },
            Request::Del(key) => {
                self.entries.remove(key.as_str());
                assert(self@.entries =~= old(self)@.entries.remove(key@));
                "!".to_owned()
            },
            Request::EmptyGetKey => "!eInvalid GET command (empty key)\n".to_owned(),
            Request::EmptySetField => "!eInvalid SET command (empty key or value)\n".to_owned(),
            Request::MalformedSet => "!eInvalid SET command\n".to_owned(),
            Request::EmptyDelKey => "!eInvalid DEL command (empty key)\n".to_owned(),
            Request::Unknown => "!eUNKNOWN_COMMAND\n".to_owned(),
        }
    }

    /// Answers one request line at `now`.
    pub fn handle_text(&mut self, text: &str, now: u64) -> (reply: String)
        ensures
            final(self)@ == spec_next(old(self)@, spec_parse_request(text@), now),
            reply@ == spec_reply(old(self)@, spec_parse_request(text@), now),
    {
        let req = parse_request(text);
        self.respond(req, now)
    }

    /// Answers the bytes of one request, received at `now`: they are decoded
    /// lossily as UTF-8 and read as a request line.
    pub fn handle_request(&mut self, bytes: &[u8], now: u64) -> (reply: String)
        ensures
            final(self)@ == spec_next(old(self)@, spec_parse_request(utf8_lossy(bytes@)), now),
            reply@ == spec_reply(old(self)@, spec_parse_request(utf8_lossy(bytes@)), now),
            valid_utf8(bytes@) ==> final(self)@ == spec_next(
                old(self)@,
                spec_parse_request(decode_utf8(bytes@)),
                now,
            ),
            valid_utf8(bytes@) ==> reply@ == spec_reply(
                old(self)@,
                spec_parse_request(decode_utf8(bytes@)),
                now,
            ),
    {
        let text = decode_lossy(bytes);
        self.handle_text(text.as_str(), now)
    }
}

} // verus!
