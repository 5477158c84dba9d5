//! What holds of the client and the server together.
use vstd::prelude::*;
use vstd::utf8::{decode_utf8, encode_utf8, encode_utf8_decode_utf8};
use crate::client::{
    spec_acknowledge, spec_del_request, spec_get_request, spec_get_result, spec_parse_reply,
    spec_set_request,
};
use crate::error::ChxErrorView;
use crate::server::{
    expired, spec_next, spec_parse_request, spec_reply, CacheView, EntryView, RequestView,
};
use crate::repl::{
    ascii_lower, is_ascii_text, is_quoted, join, lost, lowered, spec_classify, spec_react_ack,
    spec_react_get, spec_react_local, spec_repl_command, unquote, words, NextView, OutputView,
    ReplCommandView,
};
use crate::text::{
    lemma_split_once_at, lemma_trim_end_push_white, split_once, lemma_trim_unchanged, trim, trim_end,
    trim_start, white_space,
};

verus! {

/// A key that the request lines carry unchanged: not empty, no space in it,
/// and no white space at either end.
pub open spec fn valid_key(k: Seq<char>) -> bool {
    &&& k.len() > 0
    &&& !white_space(k[0])
    &&& !white_space(k.last())
    &&& forall|i: int| 0 <= i < k.len() ==> k[i] != ' '
}

/// A value that a SET carries unchanged: not empty, and no white space at
/// either end.
pub open spec fn valid_value(v: Seq<char>) -> bool {
    &&& v.len() > 0
    &&& !white_space(v[0])
    &&& !white_space(v.last())
}

/// Text sent as UTF-8 bytes and decoded on the other side.
pub open spec fn transported(text: Seq<char>) -> Seq<char> {
    decode_utf8(encode_utf8(text))
}

/// Sending text as UTF-8 and decoding it gives the same text back.
pub proof fn law_transport_is_lossless(text: Seq<char>)
    ensures
        transported(text) == text,
{
    encode_utf8_decode_utf8(text);
}

/// A line `c k` + newline, trimmed, is `c k` with the first space at 1.
proof fn lemma_command_line(c: char, rest: Seq<char>)
    requires
        !white_space(c),
        rest.len() > 0,
        !white_space(rest.last()),
    ensures
        trim(seq![c, ' '] + rest + seq!['\n']) == seq![c, ' '] + rest,
        trim(seq![c]) == seq![c],
{
    let line = seq![c, ' '] + rest;
    assert(seq![c, ' '] + rest + seq!['\n'] == line.push('\n'));
    assert(trim_start(line.push('\n')) == line.push('\n'));
    lemma_trim_end_push_white(line, '\n');
    assert(line.last() == rest.last());
    assert(trim_end(line) == line);
    lemma_trim_unchanged(seq![c]);
}

/// The server reads the line that asks for `key` as a GET of `key`.
pub proof fn law_get_request_read(key: Seq<char>)
    requires
        valid_key(key),
    ensures
        spec_parse_request(spec_get_request(key)) == RequestView::Get(key),
{
    reveal_strlit("G ");
    reveal_strlit("\n");
    assert(spec_get_request(key) == seq!['G', ' '] + key + seq!['\n']);
    lemma_command_line('G', key);
    let line = seq!['G', ' '] + key;
    lemma_split_once_at(line, ' ', 1);
    assert(line.take(1) == seq!['G']);
    assert(line.skip(2) == key);
    lemma_trim_unchanged(key);
}

/// The server reads the line that deletes `key` as a DEL of `key`.
pub proof fn law_del_request_read(key: Seq<char>)
    requires
        valid_key(key),
    ensures
        spec_parse_request(spec_del_request(key)) == RequestView::Del(key),
{
    reveal_strlit("D ");
    reveal_strlit("\n");
    assert(spec_del_request(key) == seq!['D', ' '] + key + seq!['\n']);
    lemma_command_line('D', key);
    let line = seq!['D', ' '] + key;
    lemma_split_once_at(line, ' ', 1);
    assert(line.take(1) == seq!['D']);
    assert(line.skip(2) == key);
    lemma_trim_unchanged(key);
}

/// The server reads the line that stores `value` under `key` as a SET of
/// `key` to `value`; the value may hold spaces.
pub proof fn law_set_request_read(key: Seq<char>, value: Seq<char>)
    requires
        valid_key(key),
        valid_value(value),
    ensures
        spec_parse_request(spec_set_request(key, value)) == RequestView::Put(key, value),
{
    reveal_strlit("S ");
    reveal_strlit(" ");
    reveal_strlit("\n");
    let args = key + seq![' '] + value;
    assert(spec_set_request(key, value) == seq!['S', ' '] + args + seq!['\n']);
    assert(args.last() == value.last());
    lemma_command_line('S', args);
    let line = seq!['S', ' '] + args;
    lemma_split_once_at(line, ' ', 1);
    assert(line.take(1) == seq!['S']);
    assert(line.skip(2) == args);
    lemma_split_once_at(args, ' ', key.len() as int);
    assert(args.take(key.len() as int) == key);
    assert(args.skip(key.len() as int + 1) == value);
    lemma_trim_unchanged(key);
    lemma_trim_unchanged(value);
}

/// The client reads the server's reply with data `v` as that data.
pub proof fn law_data_reply_read(v: Seq<char>)
    requires
        valid_value(v),
    ensures
        spec_parse_reply(">"@ + v) == Ok::<Seq<char>, ChxErrorView>(v),
{
    reveal_strlit(">");
    let r = seq!['>'] + v;
    assert(">"@ + v == r);
    assert(r.last() == v.last());
    lemma_trim_unchanged(r);
    assert(r.skip(1) == v);
}

/// The client reads the server's bare acknowledgement as no data.
pub proof fn law_ack_reply_read()
    ensures
        spec_parse_reply("!"@) == Ok::<Seq<char>, ChxErrorView>(Seq::empty()),
{
    reveal_strlit("!");
    lemma_trim_unchanged(seq!['!']);
}

/// The client reads an error reply `!e` + message + newline as that
/// message from the server.
pub proof fn law_error_reply_read(m: Seq<char>)
    requires
        m.len() > 0,
        !white_space(m.last()),
    ensures
        spec_parse_reply("!e"@ + m + "\n"@) == Err::<Seq<char>, ChxErrorView>(
            ChxErrorView::ResponseError(m),
        ),
{
    reveal_strlit("!e");
    reveal_strlit("\n");
    let r = seq!['!', 'e'] + m;
    assert("!e"@ + m + "\n"@ == r.push('\n'));
    assert(trim_start(r.push('\n')) == r.push('\n'));
    lemma_trim_end_push_white(r, '\n');
    assert(r.last() == m.last());
    assert(trim_end(r) == r);
    assert(r.skip(2) == m);
}

/// Every request that the server refuses reaches the client as the
/// server's error, with the reason, and leaves the store as it was.
pub proof fn law_refusals_reach_client(s: CacheView, req: RequestView, now: u64)
    requires
        !(req is Get || req is Put || req is Del),
    ensures
        spec_next(s, req, now) == s,
        spec_parse_reply(spec_reply(s, req, now)) == Err::<Seq<char>, ChxErrorView>(
            ChxErrorView::ResponseError(
                match req {
                    RequestView::EmptyGetKey => "Invalid GET command (empty key)"@,
                    RequestView::EmptySetField => "Invalid SET command (empty key or value)"@,
                    RequestView::MalformedSet => "Invalid SET command"@,
                    RequestView::EmptyDelKey => "Invalid DEL command (empty key)"@,
                    _ => "UNKNOWN_COMMAND"@,
                },
            ),
        ),
{
    reveal_strlit("!e");
    reveal_strlit("\n");
    match req {
        RequestView::EmptyGetKey => {
            reveal_strlit("Invalid GET command (empty key)");
            reveal_strlit("!eInvalid GET command (empty key)\n");
            let m = "Invalid GET command (empty key)"@;
            assert("!eInvalid GET command (empty key)\n"@ == "!e"@ + m + "\n"@);
            law_error_reply_read(m);
        },
        RequestView::EmptySetField => {
            reveal_strlit("Invalid SET command (empty key or value)");
            reveal_strlit("!eInvalid SET command (empty key or value)\n");
            let m = "Invalid SET command (empty key or value)"@;
            assert("!eInvalid SET command (empty key or value)\n"@ == "!e"@ + m + "\n"@);
            law_error_reply_read(m);
        },
        RequestView::MalformedSet => {
            reveal_strlit("Invalid SET command");
            reveal_strlit("!eInvalid SET command\n");
            let m = "Invalid SET command"@;
            assert("!eInvalid SET command\n"@ == "!e"@ + m + "\n"@);
            law_error_reply_read(m);
        },
        RequestView::EmptyDelKey => {
            reveal_strlit("Invalid DEL command (empty key)");
            reveal_strlit("!eInvalid DEL command (empty key)\n");
            let m = "Invalid DEL command (empty key)"@;
            assert("!eInvalid DEL command (empty key)\n"@ == "!e"@ + m + "\n"@);
            law_error_reply_read(m);
        },
        _ => {
            reveal_strlit("UNKNOWN_COMMAND");
            reveal_strlit("!eUNKNOWN_COMMAND\n");
            let m = "UNKNOWN_COMMAND"@;
            assert("!eUNKNOWN_COMMAND\n"@ == "!e"@ + m + "\n"@);
            law_error_reply_read(m);
        },
    }
}

/// A GET answers with the value that the last SET of its key stored, as
/// long as that entry has not expired; the GET leaves the store unchanged.
pub proof fn law_get_after_set(
    s: CacheView,
    key: Seq<char>,
    value: Seq<char>,
    t_set: u64,
    t_get: u64,
)
    requires
        !expired(t_set, t_get, s.expire_time),
    ensures
        ({
            let s1 = spec_next(s, RequestView::Put(key, value), t_set);
            &&& spec_reply(s1, RequestView::Get(key), t_get) == ">"@ + value
            &&& spec_next(s1, RequestView::Get(key), t_get) == s1
        }),
{
    let s1 = spec_next(s, RequestView::Put(key, value), t_set);
    assert(s1.entries[key] == EntryView { value, stored_at: t_set });
}

/// A GET of a deleted key finds nothing.
pub proof fn law_get_after_del(s: CacheView, key: Seq<char>, t_del: u64, t_get: u64)
    ensures
        ({
            let s1 = spec_next(s, RequestView::Del(key), t_del);
            &&& spec_reply(s1, RequestView::Get(key), t_get) == "!"@
            &&& spec_next(s1, RequestView::Get(key), t_get) == s1
        }),
{
}

/// An expired entry is not returned: the GET finds nothing and drops it.
pub proof fn law_expired_entry_dropped(s: CacheView, key: Seq<char>, now: u64)
    requires
        s.entries.contains_key(key),
        expired(s.entries[key].stored_at, now, s.expire_time),
    ensures
        spec_reply(s, RequestView::Get(key), now) == "!"@,
        spec_next(s, RequestView::Get(key), now).entries == s.entries.remove(key),
{
}

/// With no time to live (0), no entry ever expires.
pub proof fn law_no_ttl_never_expires(stored_at: u64, now: u64)
    ensures
        !expired(stored_at, now, 0),
{
}

/// No request changes the time to live, and a request changes no entry but
/// that of the key it names.
pub proof fn law_other_keys_untouched(
    s: CacheView,
    req: RequestView,
    now: u64,
    other: Seq<char>,
)
    requires
        match req {
            RequestView::Get(k) => k != other,
            RequestView::Put(k, _) => k != other,
            RequestView::Del(k) => k != other,
            _ => true,
        },
    ensures
        spec_next(s, req, now).expire_time == s.expire_time,
        spec_next(s, req, now).entries.contains_key(other) == s.entries.contains_key(other),
        s.entries.contains_key(other) ==> spec_next(s, req, now).entries[other]
            == s.entries[other],
{
}

/// What a read gives back of a write, across the wire: a client that sets
/// `key` to `value` is acknowledged, and a later GET of `key` that comes
/// before the entry expires gives `Some(value)`.
pub proof fn law_read_back_write(
    s: CacheView,
    key: Seq<char>,
    value: Seq<char>,
    t_set: u64,
    t_get: u64,
)
    requires
        valid_key(key),
        valid_value(value),
        !expired(t_set, t_get, s.expire_time),
    ensures
        ({
            let set_req = spec_parse_request(transported(spec_set_request(key, value)));
            let s1 = spec_next(s, set_req, t_set);
            let set_reply = transported(spec_reply(s, set_req, t_set));
            let get_req = spec_parse_request(transported(spec_get_request(key)));
            let get_reply = transported(spec_reply(s1, get_req, t_get));
            &&& spec_acknowledge(spec_parse_reply(set_reply)) == Ok::<(), ChxErrorView>(())
            &&& spec_get_result(spec_parse_reply(get_reply)) == Ok::<
                Option<Seq<char>>,
                ChxErrorView,
            >(Some(value))
        }),
{
    law_transport_is_lossless(spec_set_request(key, value));
    law_transport_is_lossless(spec_get_request(key));
    law_set_request_read(key, value);
    law_get_request_read(key);
    law_transport_is_lossless("!"@);
    law_ack_reply_read();
    law_get_after_set(s, key, value, t_set, t_get);
    law_transport_is_lossless(">"@ + value);
    law_data_reply_read(value);
}

/// Across the wire, a GET that comes after the entry that a client set has
/// expired gives `None`.
pub proof fn law_read_after_expiry(
    s: CacheView,
    key: Seq<char>,
    value: Seq<char>,
    t_set: u64,
    t_get: u64,
)
    requires
        valid_key(key),
        valid_value(value),
        expired(t_set, t_get, s.expire_time),
    ensures
        ({
            let set_req = spec_parse_request(transported(spec_set_request(key, value)));
            let s1 = spec_next(s, set_req, t_set);
            let get_req = spec_parse_request(transported(spec_get_request(key)));
            let get_reply = transported(spec_reply(s1, get_req, t_get));
            &&& spec_get_result(spec_parse_reply(get_reply)) == Ok::<
                Option<Seq<char>>,
                ChxErrorView,
            >(None)
            &&& !spec_next(s1, get_req, t_get).entries.contains_key(key)
        }),
{
    law_transport_is_lossless(spec_set_request(key, value));
    law_transport_is_lossless(spec_get_request(key));
    law_set_request_read(key, value);
    law_get_request_read(key);
    law_transport_is_lossless("!"@);
    law_ack_reply_read();
}

/// Across the wire, a GET of a key that a client deleted gives `None`.
pub proof fn law_read_back_delete(s: CacheView, key: Seq<char>, t_del: u64, t_get: u64)
    requires
        valid_key(key),
    ensures
        ({
            let del_req = spec_parse_request(transported(spec_del_request(key)));
            let s1 = spec_next(s, del_req, t_del);
            let del_reply = transported(spec_reply(s, del_req, t_del));
            let get_req = spec_parse_request(transported(spec_get_request(key)));
            let get_reply = transported(spec_reply(s1, get_req, t_get));
            &&& spec_acknowledge(spec_parse_reply(del_reply)) == Ok::<(), ChxErrorView>(())
            &&& spec_get_result(spec_parse_reply(get_reply)) == Ok::<
                Option<Seq<char>>,
                ChxErrorView,
            >(None)
        }),
{
    law_transport_is_lossless(spec_del_request(key));
    law_transport_is_lossless(spec_get_request(key));
    law_del_request_read(key);
    law_get_request_read(key);
    law_transport_is_lossless("!"@);
    law_ack_reply_read();
    law_get_after_del(s, key, t_del, t_get);
}

/// A word: not empty, and no white space in it.
pub open spec fn is_word(w: Seq<char>) -> bool {
    &&& w.len() > 0
    &&& forall|j: int| 0 <= j < w.len() ==> !white_space(w[j])
}

/// A text that ends in a non-white-space character has a word.
proof fn lemma_words_nonempty(s: Seq<char>)
    requires
        s.len() > 0,
        !white_space(s.last()),
    ensures
        words(s).len() > 0,
    decreases s.len(),
{
    if s.len() > 1 && !white_space(s[s.len() - 2]) {
        assert(s.drop_last().last() == s[s.len() - 2]);
        lemma_words_nonempty(s.drop_last());
    }
}

/// Every word of a text is a word.
pub proof fn lemma_words_are_words(s: Seq<char>)
    ensures
        forall|i: int| 0 <= i < words(s).len() ==> is_word(#[trigger] words(s)[i]),
    decreases s.len(),
{
    if s.len() > 0 {
        lemma_words_are_words(s.drop_last());
        if !white_space(s.last()) && s.len() > 1 && !white_space(s[s.len() - 2]) {
            assert(s.drop_last().last() == s[s.len() - 2]);
            lemma_words_nonempty(s.drop_last());
            let init = words(s.drop_last());
            let w = init.last().push(s.last());
            assert(is_word(init[init.len() - 1]));
            assert forall|j: int| 0 <= j < w.len() implies !white_space(w[j]) by {
                if j < w.len() - 1 {
                    assert(w[j] == init[init.len() - 1][j]);
                }
            }
        }
    }
}

/// Words joined by single spaces neither start nor end with white space.
proof fn lemma_join_of_words(ws: Seq<Seq<char>>)
    requires
        ws.len() > 0,
        forall|i: int| 0 <= i < ws.len() ==> is_word(#[trigger] ws[i]),
    ensures
        join(ws, " "@).len() > 0,
        join(ws, " "@)[0] == ws[0][0],
        join(ws, " "@).last() == ws.last().last(),
    decreases ws.len(),
{
    if ws.len() > 1 {
        assert(is_word(ws[0]));
        assert(is_word(ws.last()));
        lemma_join_of_words(ws.drop_last());
        assert(ws.drop_last()[0] == ws[0]);
        let j = join(ws.drop_last(), " "@);
        assert((j + " "@ + ws.last())[0] == j[0]);
    } else {
        assert(is_word(ws[0]));
    }
}

/// The key that the interactive client takes from a typed GET, SET or DEL
/// travels unchanged in request lines, and so does the value of a typed SET
/// unless it was quoted and the quotes held white space at an end: what a
/// user sets, a later GET before expiry returns (`law_read_back_write`).
pub proof fn law_typed_operands_are_carried(line: Seq<char>)
    ensures
        spec_repl_command(line) matches ReplCommandView::Get(k) ==> valid_key(k),
        spec_repl_command(line) matches ReplCommandView::Del(k) ==> valid_key(k),
        spec_repl_command(line) matches ReplCommandView::Put(k, v) ==> valid_key(k) && (
        valid_value(v) || is_quoted(join(words(trim(line)).skip(2), " "@))),
{
    let parts = words(trim(line));
    lemma_words_are_words(trim(line));
    if parts.len() >= 2 {
        let k = parts[1];
        assert(is_word(k));
        assert(white_space(' '));
        assert forall|i: int| 0 <= i < k.len() implies k[i] != ' ' by {
            assert(!white_space(k[i]));
        }
    }
    if parts.len() >= 3 {
        let rest = parts.skip(2);
        assert forall|i: int| 0 <= i < rest.len() implies is_word(#[trigger] rest[i]) by {
            assert(rest[i] == parts[i + 2]);
        }
        lemma_join_of_words(rest);
        assert(is_word(rest[0]));
        assert(is_word(rest.last()));
    }
}

/// Command words are read without regard to ASCII case: two lines of words
/// whose first words differ only in the case of ASCII letters mean the same
/// command, except that an unknown command keeps its word as typed.
pub proof fn law_commands_ignore_ascii_case(parts: Seq<Seq<char>>, word: Seq<char>)
    requires
        parts.len() > 0,
        is_ascii_text(parts[0]),
        is_ascii_text(word),
        ascii_lower(word) == ascii_lower(parts[0]),
    ensures
        ({
            let typed = spec_classify(parts.update(0, word), lowered(word));
            let other = spec_classify(parts, lowered(parts[0]));
            typed == other || (typed is Unknown && other is Unknown)
        }),
{
    let p2 = parts.update(0, word);
    assert forall|i: int| 1 <= i < parts.len() implies p2[i] == parts[i] by {}
    if parts.len() >= 2 {
        assert(p2.skip(2) =~= parts.skip(2));
    }
}

/// How the text of a refused request decides its reply: a line (after
/// trimming) with no space, or whose first word is not `G`, `S` or `D` once
/// trimmed, is an unknown command; `S` whose arguments hold no space is an
/// invalid SET; `S` whose key or value is empty after trimming is answered so.
/// None of them changes the store.
pub proof fn law_refused_request_text(s: CacheView, text: Seq<char>, now: u64)
    ensures
        ({
            let req = spec_parse_request(text);
            &&& split_once(trim(text), ' ') is None ==> spec_reply(s, req, now)
                == "!eUNKNOWN_COMMAND\n"@ && spec_next(s, req, now) == s
            &&& (split_once(trim(text), ' ') matches Some((c, _)) && trim(c) != seq!['G']
                && trim(c) != seq!['S'] && trim(c) != seq!['D']) ==> spec_reply(s, req, now)
                == "!eUNKNOWN_COMMAND\n"@ && spec_next(s, req, now) == s
            &&& (split_once(trim(text), ' ') matches Some((c, a)) && trim(c) == seq!['S']
                && split_once(a, ' ') is None) ==> spec_reply(s, req, now)
                == "!eInvalid SET command\n"@ && spec_next(s, req, now) == s
            &&& (split_once(trim(text), ' ') matches Some((c, a)) && trim(c) == seq!['S']
                && split_once(a, ' ') is Some && (trim(split_once(a, ' ').unwrap().0).len() == 0
                || trim(split_once(a, ' ').unwrap().1).len() == 0)) ==> spec_reply(s, req, now)
                == "!eInvalid SET command (empty key or value)\n"@ && spec_next(s, req, now) == s
        }),
{
    assert(seq!['S'] != seq!['G']) by {
        assert(seq!['S'][0] != seq!['G'][0]);
    }
}

/// Requests applied in turn, each at its time: by their contracts, this is
/// the store after `CacheStore::respond`, `handle_text` or `handle_request`
/// is called for each in turn.
pub open spec fn run(s: CacheView, reqs: Seq<(RequestView, u64)>) -> CacheView
    decreases reqs.len(),
{
    if reqs.len() == 0 {
        s
    } else {
        run(spec_next(s, reqs[0].0, reqs[0].1), reqs.drop_first())
    }
}

/// `req` neither sets nor deletes `key`.
pub open spec fn leaves_key(req: RequestView, key: Seq<char>) -> bool {
    match req {
        RequestView::Put(k, _) => k != key,
        RequestView::Del(k) => k != key,
        _ => true,
    }
}

/// An entry that no request sets or deletes, and that does not expire before
/// `t`, stays as it is through requests made no later than `t`.
proof fn lemma_entry_survives(
    s: CacheView,
    key: Seq<char>,
    entry: EntryView,
    reqs: Seq<(RequestView, u64)>,
    t: u64,
)
    requires
        s.entries.contains_key(key),
        s.entries[key] == entry,
        !expired(entry.stored_at, t, s.expire_time),
        forall|i: int| 0 <= i < reqs.len() ==> leaves_key(#[trigger] reqs[i].0, key) && reqs[i].1
            <= t,
    ensures
        run(s, reqs).entries.contains_key(key),
        run(s, reqs).entries[key] == entry,
        run(s, reqs).expire_time == s.expire_time,
    decreases reqs.len(),
{
    if reqs.len() > 0 {
        let (req, when) = reqs[0];
        assert(leaves_key(reqs[0].0, key) && reqs[0].1 <= t);
        let s1 = spec_next(s, req, when);
        assert(!expired(entry.stored_at, when, s.expire_time));
        assert(s1.entries.contains_key(key) && s1.entries[key] == entry);
        let rest = reqs.drop_first();
        assert forall|i: int| 0 <= i < rest.len() implies leaves_key(#[trigger] rest[i].0, key)
            && rest[i].1 <= t by {
            assert(rest[i] == reqs[i + 1]);
        }
        lemma_entry_survives(s1, key, entry, rest, t);
    }
}

/// A GET returns what the last SET of its key stored, whatever other
/// requests, on any connection, were handled in between, as long as none of
/// them set or deleted that key, all came no later than the GET, and the
/// entry has not expired by then.
pub proof fn law_get_after_set_across_requests(
    s: CacheView,
    key: Seq<char>,
    value: Seq<char>,
    t_set: u64,
    between: Seq<(RequestView, u64)>,
    t_get: u64,
)
    requires
        !expired(t_set, t_get, s.expire_time),
        forall|i: int| 0 <= i < between.len() ==> leaves_key(#[trigger] between[i].0, key)
            && between[i].1 <= t_get,
    ensures
        ({
            let s1 = run(spec_next(s, RequestView::Put(key, value), t_set), between);
            spec_reply(s1, RequestView::Get(key), t_get) == ">"@ + value
        }),
{
    let s0 = spec_next(s, RequestView::Put(key, value), t_set);
    let entry = EntryView { value, stored_at: t_set };
    assert(s0.entries[key] == entry);
    lemma_entry_survives(s0, key, entry, between, t_get);
}

/// An entry that no request sets or deletes is, through any requests, either
/// still the same entry or gone (a GET that found it expired dropped it):
/// a GET never refreshes when a value was stored.
proof fn lemma_entry_kept_or_gone(
    s: CacheView,
    key: Seq<char>,
    entry: EntryView,
    reqs: Seq<(RequestView, u64)>,
)
    requires
        s.entries.contains_key(key) ==> s.entries[key] == entry,
        forall|i: int| 0 <= i < reqs.len() ==> leaves_key(#[trigger] reqs[i].0, key),
    ensures
        run(s, reqs).entries.contains_key(key) ==> run(s, reqs).entries[key] == entry,
        run(s, reqs).expire_time == s.expire_time,
    decreases reqs.len(),
{
    if reqs.len() > 0 {
        assert(leaves_key(reqs[0].0, key));
        let s1 = spec_next(s, reqs[0].0, reqs[0].1);
        let rest = reqs.drop_first();
        assert forall|i: int| 0 <= i < rest.len() implies leaves_key(#[trigger] rest[i].0, key) by {
            assert(rest[i] == reqs[i + 1]);
        }
        lemma_entry_kept_or_gone(s1, key, entry, rest);
    }
}

/// A GET of a key answers with the value that the last SET of that key
/// stored exactly when the entry has not expired, and `!` once it has,
/// whatever other requests, on any connection, came between, as long as none
/// of them set or deleted that key and none came after the GET. A GET never
/// renews an entry; only a new SET does, from its own time.
pub proof fn law_get_after_set_until_expiry(
    s: CacheView,
    key: Seq<char>,
    value: Seq<char>,
    t_set: u64,
    between: Seq<(RequestView, u64)>,
    t_get: u64,
)
    requires
        forall|i: int| 0 <= i < between.len() ==> leaves_key(#[trigger] between[i].0, key)
            && between[i].1 <= t_get,
    ensures
        ({
            let s1 = run(spec_next(s, RequestView::Put(key, value), t_set), between);
            spec_reply(s1, RequestView::Get(key), t_get) == if expired(
                t_set,
                t_get,
                s.expire_time,
            ) {
                "!"@
            } else {
                ">"@ + value
            }
        }),
{
    let s0 = spec_next(s, RequestView::Put(key, value), t_set);
    let entry = EntryView { value, stored_at: t_set };
    assert(s0.entries[key] == entry);
    if expired(t_set, t_get, s.expire_time) {
        assert forall|i: int| 0 <= i < between.len() implies leaves_key(
            #[trigger] between[i].0,
            key,
        ) by {
            assert(leaves_key(between[i].0, key) && between[i].1 <= t_get);
        }
        lemma_entry_kept_or_gone(s0, key, entry, between);
    } else {
        law_get_after_set_across_requests(s, key, value, t_set, between, t_get);
    }
}

/// Only a SET of a key adds an entry for it.
pub proof fn law_only_set_adds(s: CacheView, req: RequestView, now: u64, key: Seq<char>)
    requires
        !s.entries.contains_key(key),
        !(req matches RequestView::Put(k, _) && k == key),
    ensures
        !spec_next(s, req, now).entries.contains_key(key),
{
}

/// A fresh store (the one `CacheStore::new` makes) answers `!` to every GET
/// of a key until a SET of that key is handled: nothing is kept from before.
pub proof fn law_fresh_store_has_nothing(
    expire_time: u64,
    reqs: Seq<(RequestView, u64)>,
    key: Seq<char>,
    now: u64,
)
    requires
        forall|i: int| 0 <= i < reqs.len() ==> !(#[trigger] reqs[i].0 matches RequestView::Put(
            k,
            _,
        ) && k == key),
    ensures
        ({
            let fresh = CacheView { entries: Map::empty(), expire_time };
            &&& spec_reply(run(fresh, reqs), RequestView::Get(key), now) == "!"@
            &&& !run(fresh, reqs).entries.contains_key(key)
        }),
{
    lemma_absent_stays_absent(CacheView { entries: Map::empty(), expire_time }, reqs, key);
}

/// A key that is absent stays absent through requests none of which sets it.
proof fn lemma_absent_stays_absent(s: CacheView, reqs: Seq<(RequestView, u64)>, key: Seq<char>)
    requires
        !s.entries.contains_key(key),
        forall|i: int| 0 <= i < reqs.len() ==> !(#[trigger] reqs[i].0 matches RequestView::Put(
            k,
            _,
        ) && k == key),
    ensures
        !run(s, reqs).entries.contains_key(key),
    decreases reqs.len(),
{
    if reqs.len() > 0 {
        assert(!(reqs[0].0 matches RequestView::Put(k, _) && k == key));
        law_only_set_adds(s, reqs[0].0, reqs[0].1, key);
        let rest = reqs.drop_first();
        assert forall|i: int| 0 <= i < rest.len() implies !(#[trigger] rest[i].0 matches RequestView::Put(
            k,
            _,
        ) && k == key) by {
            assert(rest[i] == reqs[i + 1]);
        }
        lemma_absent_stays_absent(spec_next(s, reqs[0].0, reqs[0].1), rest, key);
    }
}

/// The time to live counts seconds, whatever its size: an entry stored at
/// `stored_at` has not expired while at most `ttl` seconds have passed (or no
/// time to live is set, or the clock has not moved on), and has expired as
/// soon as more than `ttl` seconds have passed.
pub proof fn law_ttl_counts_seconds(stored_at: u64, now: u64, ttl: u64)
    ensures
        (ttl == 0 || now <= stored_at || now - stored_at <= ttl * 1_000_000_000) ==> !expired(
            stored_at,
            now,
            ttl,
        ),
        (ttl > 0 && now > stored_at && now - stored_at > ttl * 1_000_000_000) ==> expired(
            stored_at,
            now,
            ttl,
        ),
{
}

/// A GET at most the time to live (in seconds) after the SET of a key
/// returns the value stored, and keeps the entry.
pub proof fn law_entry_lives_its_ttl(
    s: CacheView,
    key: Seq<char>,
    value: Seq<char>,
    t_set: u64,
    t_get: u64,
)
    requires
        t_set <= t_get,
        s.expire_time == 0 || t_get - t_set <= s.expire_time * 1_000_000_000,
    ensures
        ({
            let s1 = spec_next(s, RequestView::Put(key, value), t_set);
            &&& spec_reply(s1, RequestView::Get(key), t_get) == ">"@ + value
            &&& spec_next(s1, RequestView::Get(key), t_get) == s1
        }),
{
    law_ttl_counts_seconds(t_set, t_get, s.expire_time);
    law_get_after_set(s, key, value, t_set, t_get);
}

/// A GET more than the time to live (in seconds) after the SET of a key
/// finds nothing, and drops the entry.
pub proof fn law_entry_dies_after_ttl(
    s: CacheView,
    key: Seq<char>,
    value: Seq<char>,
    t_set: u64,
    t_get: u64,
)
    requires
        s.expire_time > 0,
        t_get > t_set,
        t_get - t_set > s.expire_time * 1_000_000_000,
    ensures
        ({
            let s1 = spec_next(s, RequestView::Put(key, value), t_set);
            &&& spec_reply(s1, RequestView::Get(key), t_get) == "!"@
            &&& !spec_next(s1, RequestView::Get(key), t_get).entries.contains_key(key)
        }),
{
    law_ttl_counts_seconds(t_set, t_get, s.expire_time);
    let s1 = spec_next(s, RequestView::Put(key, value), t_set);
    assert(s1.entries[key].stored_at == t_set);
}

/// Only `quit` or `exit` ends the interactive client: every other command
/// answered locally goes on reading lines, and GET, SET and DEL are the ones
/// that need the server.
pub proof fn law_only_quit_ends_the_client(c: ReplCommandView)
    ensures
        spec_react_local(c) is None <==> (c is Get || c is Put || c is Del),
        spec_react_local(c) matches Some(r) ==> (r.next == NextView::Exit <==> c is Quit),
        spec_react_local(c) matches Some(r) ==> (r.next == NextView::Exit || r.next
            == NextView::Continue),
{
}

/// After a GET that the server answered, the client prints one line on
/// standard output (the value, or that the key was not found) and goes on
/// reading lines; after an error it prints nothing and connects again,
/// giving up with the error.
pub proof fn law_get_reaction(r: Result<Option<Seq<char>>, ChxErrorView>)
    ensures
        r is Ok ==> spec_react_get(r).next == NextView::Continue && spec_react_get(r).lines.len()
            == 1 && spec_react_get(r).lines[0] is Stdout,
        r matches Ok(Some(v)) ==> spec_react_get(r).lines[0] == OutputView::Stdout(v),
        r matches Err(e) ==> spec_react_get(r).next == NextView::Reconnect(lost(e))
            && spec_react_get(r).lines.len() == 0,
{
}

/// After a SET or DEL that the server acknowledged, the client prints its
/// line on standard output and goes on reading lines; after an error it
/// prints nothing and connects again.
pub proof fn law_ack_reaction(r: Result<(), ChxErrorView>, done: Seq<char>)
    ensures
        r is Ok ==> spec_react_ack(r, done).next == NextView::Continue && spec_react_ack(
            r,
            done,
        ).lines == seq![OutputView::Stdout(done)],
        r matches Err(e) ==> spec_react_ack(r, done).next == NextView::Reconnect(lost(e))
            && spec_react_ack(r, done).lines.len() == 0,
{
}

/// A typed line of words takes its operands by count: `get` and `del` are
/// operations only with exactly one key, and `set` only with a key and at
/// least one word of value; with any other count the command's usage line is
/// given and nothing is sent to the server.
pub proof fn law_operand_counts(parts: Seq<Seq<char>>, command: Seq<char>)
    requires
        parts.len() > 0,
    ensures
        command == "get"@ && parts.len() == 2 ==> spec_classify(parts, command)
            == ReplCommandView::Get(parts[1]),
        command == "get"@ && parts.len() != 2 ==> spec_classify(parts, command)
            == ReplCommandView::Usage("Usage: GET <key>"@),
        command == "del"@ && parts.len() == 2 ==> spec_classify(parts, command)
            == ReplCommandView::Del(parts[1]),
        command == "del"@ && parts.len() != 2 ==> spec_classify(parts, command)
            == ReplCommandView::Usage("Usage: DEL <key>"@),
        command == "set"@ && parts.len() >= 3 ==> spec_classify(parts, command)
            == ReplCommandView::Put(parts[1], unquote(join(parts.skip(2), " "@))),
        command == "set"@ && parts.len() < 3 ==> spec_classify(parts, command)
            == ReplCommandView::Usage("Usage: SET <key> <value>"@),
{
    reveal_strlit("get");
    reveal_strlit("set");
    reveal_strlit("del");
    assert("get"@ != "set"@ && "get"@ != "del"@ && "set"@ != "del"@) by {
        assert("get"@[0] != "set"@[0]);
        assert("get"@[0] != "del"@[0]);
        assert("set"@[0] != "del"@[0]);
    }
}

/// The same, for a typed line: a line whose first word is `del` in any
/// ASCII case deletes its second word when it has exactly two words, and
/// otherwise only gives the usage line.
pub proof fn law_typed_del_needs_one_key(line: Seq<char>)
    requires
        words(trim(line)).len() > 0,
        lowered(words(trim(line))[0]) == "del"@,
    ensures
        words(trim(line)).len() == 2 ==> spec_repl_command(line) == ReplCommandView::Del(
            words(trim(line))[1],
        ),
        words(trim(line)).len() != 2 ==> spec_repl_command(line) == ReplCommandView::Usage(
            "Usage: DEL <key>"@,
        ),
{
    law_operand_counts(words(trim(line)), lowered(words(trim(line))[0]));
    if trim(line).len() == 0 {
        assert(trim(line) =~= Seq::<char>::empty());
        assert(words(Seq::<char>::empty()).len() == 0);
    }
}

/// Every command answered locally, but a blank line, prints something; a
/// usage line or an unknown command is reported on standard error, naming
/// the word typed, and the other lines go to standard output.
pub proof fn law_local_reactions_print(c: ReplCommandView)
    ensures
        spec_react_local(c) matches Some(r) ==> (r.lines.len() == 0 <==> c is Blank),
        c matches ReplCommandView::Usage(u) ==> spec_react_local(c) == Some(
            crate::repl::ReactionView { lines: seq![OutputView::Stderr(u)], next: NextView::Continue },
        ),
        c matches ReplCommandView::Unknown(w) ==> (spec_react_local(c) matches Some(r)
            && r.lines[0] == OutputView::Stderr("Unknown command: "@ + w)),
        (c is Quit || c is Help) ==> (spec_react_local(c) matches Some(r) && (forall|i: int|
            0 <= i < r.lines.len() ==> #[trigger] r.lines[i] is Stdout)),
{
}

/// What a GET reports of the server's reply: data is the value, no data is
/// an absent key, and so is the server's "Key not found" error; any other
/// error is passed on unchanged.
pub proof fn law_get_result_meaning(r: Result<Seq<char>, ChxErrorView>)
    ensures
        r matches Ok(d) ==> (d.len() == 0 ==> spec_get_result(r) == Ok::<
            Option<Seq<char>>,
            ChxErrorView,
        >(None)) && (d.len() > 0 ==> spec_get_result(r) == Ok::<Option<Seq<char>>, ChxErrorView>(
            Some(d),
        )),
        r == Err::<Seq<char>, ChxErrorView>(ChxErrorView::ResponseError("Key not found"@))
            ==> spec_get_result(r) == Ok::<Option<Seq<char>>, ChxErrorView>(None),
        r matches Err(e) ==> (e != ChxErrorView::ResponseError("Key not found"@)
            ==> spec_get_result(r) == Err::<Option<Seq<char>>, ChxErrorView>(e)),
{
}

} // verus!
