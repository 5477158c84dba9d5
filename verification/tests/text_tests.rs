use chx::server::{is_expired, parse_request, Request};
use chx::server::CacheStore;
use chx::text::{chars_of, concat_str, is_whitespace, split_once_str, string_of, trim_str};

#[test]
fn trim_removes_unicode_white_space_at_both_ends() {
    assert_eq!(trim_str(" \t\r\n ab c \u{85}\u{a0}\u{3000}"), "ab c");
    assert_eq!(trim_str("   "), "");
    assert_eq!(trim_str(""), "");
    assert_eq!(trim_str("x"), "x");
    assert_eq!(trim_str("\u{200b}x"), "\u{200b}x");
}

#[test]
fn whitespace_matches_std() {
    for u in 0u32..0x3100 {
        if let Some(c) = char::from_u32(u) {
            assert_eq!(is_whitespace(c), c.is_whitespace(), "U+{:04X}", u);
        }
    }
}

#[test]
fn split_once_cuts_at_the_first_separator() {
    assert_eq!(split_once_str("a b c", ' '), Some(("a".to_string(), "b c".to_string())));
    assert_eq!(split_once_str(" x", ' '), Some((String::new(), "x".to_string())));
    assert_eq!(split_once_str("abc", ' '), None);
    assert_eq!(split_once_str("ab ", ' '), Some(("ab".to_string(), String::new())));
}

#[test]
fn chars_and_substrings() {
    let chars = chars_of("h\u{e9}llo");
    assert_eq!(chars, vec!['h', '\u{e9}', 'l', 'l', 'o']);
    assert_eq!(string_of(&chars, 1, 3), "\u{e9}l");
    assert_eq!(concat_str("ab", "cd"), "abcd");
}

#[test]
fn lossy_decoding_replaces_invalid_bytes() {
    let mut store = CacheStore::new(0);
    assert_eq!(store.handle_request(&[b'S', b' ', b'k', b' ', 0x61, 0xff, 0x62], 0), "!");
    assert_eq!(store.handle_request(b"G k", 0), ">a\u{FFFD}b");
    assert_eq!(store.handle_request("S k caf\u{e9}".as_bytes(), 0), "!");
    assert_eq!(store.handle_request(b"G k", 0), ">caf\u{e9}");
}

#[test]
fn requests_are_read_like_the_server_reads_them() {
    assert!(matches!(parse_request("G key\n"), Request::Get(ref k) if k == "key"));
    assert!(matches!(parse_request("S key a value\n"), Request::Put(ref k, ref v) if k == "key" && v == "a value"));
    assert!(matches!(parse_request("S key\tv\n"), Request::MalformedSet));
    assert!(matches!(parse_request("D key\n"), Request::Del(ref k) if k == "key"));
    assert!(matches!(parse_request("G"), Request::Unknown));
    assert!(matches!(parse_request("g key"), Request::Unknown));
    assert!(matches!(parse_request("S k  "), Request::MalformedSet));
    assert!(matches!(parse_request("S k  v"), Request::EmptySetField) == false);
    assert!(matches!(parse_request("S k  v"), Request::Put(ref k, ref v) if k == "k" && v == "v"));
}

#[test]
fn expiry_needs_a_time_to_live() {
    assert!(!is_expired(0, u64::MAX, 0));
    assert!(is_expired(0, u64::MAX, 1));
    assert!(!is_expired(0, 1000 * 1_000_000, 1));
    assert!(is_expired(0, 1001 * 1_000_000, 1));
    assert!(is_expired(0, 1_000_000_001, 1));
    assert!(is_expired(7, 1_000_000_008, 1));
    assert!(!is_expired(7, 1_000_000_007, 1));
    assert!(!is_expired(5, 0, 1));
    assert!(!is_expired(0, u64::MAX, u64::MAX));
}
