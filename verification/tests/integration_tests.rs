use chx::client::{acknowledge, del_request, get_request, get_result, parse_response, set_request};
use chx::ChxError;
use chx::server::{CacheStore, Request};

const MS: u64 = 1_000_000;

/// Sends a SET through the server's store at `now` and reads the reply.
fn set(store: &mut CacheStore, key: &str, value: &str, now: u64) -> Result<(), ChxError> {
    let reply = store.handle_request(set_request(key, value).as_bytes(), now);
    acknowledge(parse_response(reply.as_bytes()))
}

/// Sends a GET through the server's store at `now` and reads the reply.
fn get(store: &mut CacheStore, key: &str, now: u64) -> Result<Option<String>, ChxError> {
    let reply = store.handle_request(get_request(key).as_bytes(), now);
    get_result(parse_response(reply.as_bytes()))
}

/// Sends a DEL through the server's store at `now` and reads the reply.
fn del(store: &mut CacheStore, key: &str, now: u64) -> Result<(), ChxError> {
    let reply = store.handle_request(del_request(key).as_bytes(), now);
    acknowledge(parse_response(reply.as_bytes()))
}

#[test]
fn integration_test_set_get_del_flow() {
    let mut store = CacheStore::new(0);

    // SET a key
    set(&mut store, "mykey", "myvalue", 0).unwrap();

    // GET the key
    let value = get(&mut store, "mykey", MS).unwrap();
    assert_eq!(value, Some("myvalue".to_string()));

    // GET a non-existent key
    let value_none = get(&mut store, "nonexistent_key", 2 * MS).unwrap();
    assert_eq!(value_none, None);

    // DEL the key
    del(&mut store, "mykey", 3 * MS).unwrap();

    // GET the deleted key (should be None)
    let value_after_del = get(&mut store, "mykey", 4 * MS).unwrap();
    assert_eq!(value_after_del, None);
}

#[test]
fn integration_test_expiration_handling() {
    let mut store = CacheStore::new(1); // Expire time 1 second

    set(&mut store, "expire_key", "temp_value", 0).unwrap();

    // Attempt to get the key immediately (should still be there)
    let value_before_expire = get(&mut store, "expire_key", 0).unwrap();
    assert_eq!(value_before_expire, Some("temp_value".to_string()));

    // After more than 1 second the key is gone
    let value_after_expire = get(&mut store, "expire_key", 1100 * MS).unwrap();
    assert_eq!(value_after_expire, None);

    // Test for key that does not expire
    let mut store_no_expire = CacheStore::new(0);
    set(&mut store_no_expire, "no_expire_key", "value_persists", 0).unwrap();
    let value_no_expire = get(&mut store_no_expire, "no_expire_key", 200 * MS).unwrap();
    assert_eq!(value_no_expire, Some("value_persists".to_string()));
}

#[test]
fn integration_test_server_error_handling() {
    let mut store = CacheStore::new(0);
    let cases: [(&str, &str, &str); 5] = [
        ("G  \n", "!eUNKNOWN_COMMAND\n", "UNKNOWN_COMMAND"),
        ("X key\n", "!eUNKNOWN_COMMAND\n", "UNKNOWN_COMMAND"),
        ("S key\n", "!eInvalid SET command\n", "Invalid SET command"),
        ("S  key value\n", "!eInvalid SET command (empty key or value)\n", "Invalid SET command (empty key or value)"),
        ("nospace", "!eUNKNOWN_COMMAND\n", "UNKNOWN_COMMAND"),
    ];
    for (request, reply, message) in cases.iter() {
        let got = store.handle_request(request.as_bytes(), 0);
        assert_eq!(got, *reply, "request {:?}", request);
        match parse_response(got.as_bytes()) {
            Err(ChxError::ResponseError(m)) => assert_eq!(m, *message),
            other => panic!("Expected ResponseError, got {:?}", other),
        }
    }
    let refused: [(Request, &str); 3] = [
        (Request::EmptyGetKey, "!eInvalid GET command (empty key)\n"),
        (Request::EmptyDelKey, "!eInvalid DEL command (empty key)\n"),
        (Request::EmptySetField, "!eInvalid SET command (empty key or value)\n"),
    ];
    for (request, reply) in refused {
        assert_eq!(store.respond(request, 0), reply);
    }
    // Refused requests store nothing.
    assert_eq!(get(&mut store, "key", 0).unwrap(), None);
}

#[test]
fn set_overwrites_and_keys_are_separate() {
    let mut store = CacheStore::new(0);
    set(&mut store, "a", "1", 0).unwrap();
    set(&mut store, "b", "2", 0).unwrap();
    set(&mut store, "a", "3", 0).unwrap();
    assert_eq!(get(&mut store, "a", 0).unwrap(), Some("3".to_string()));
    assert_eq!(get(&mut store, "b", 0).unwrap(), Some("2".to_string()));
    del(&mut store, "a", 0).unwrap();
    assert_eq!(get(&mut store, "b", 0).unwrap(), Some("2".to_string()));
}

#[test]
fn value_with_spaces_is_kept_whole() {
    let mut store = CacheStore::new(0);
    set(&mut store, "message", "\"Hello, world!\"", 0).unwrap();
    assert_eq!(get(&mut store, "message", 0).unwrap(), Some("\"Hello, world!\"".to_string()));
}

#[test]
fn server_replies_are_exact() {
    let mut store = CacheStore::new(0);
    assert_eq!(store.handle_text("S k v w", 5), "!");
    assert_eq!(store.handle_text("  G k  ", 5), ">v w");
    assert_eq!(store.handle_text("G missing", 5), "!");
    assert_eq!(store.handle_text("D missing", 5), "!");
    assert_eq!(store.handle_text("D k", 5), "!");
    assert_eq!(store.handle_text("G k", 5), "!");
}

#[test]
fn expiry_boundary_is_strictly_greater() {
    let mut store = CacheStore::new(1);
    assert_eq!(store.handle_text("S k v", 0), "!");
    // exactly the time to live elapsed: still there
    assert_eq!(store.handle_text("G k", 1000 * MS), ">v");
    // one nanosecond more: expired and dropped
    assert_eq!(store.handle_text("G k", 1000 * MS + 1), "!");
    assert_eq!(store.handle_text("S k v", 0), "!");
    assert_eq!(store.handle_text("G k", 1000 * MS + MS / 2), "!");
    // a later SET of the same key starts afresh
    assert_eq!(store.handle_text("S k w", 5000 * MS), "!");
    assert_eq!(store.handle_text("G k", 5500 * MS), ">w");
}

#[test]
fn a_clock_that_goes_back_counts_no_time() {
    let mut store = CacheStore::new(1);
    assert_eq!(store.handle_text("S k v", 10_000 * MS), "!");
    assert_eq!(store.handle_text("G k", 0), ">v");
}

#[test]
fn expire_time_is_kept() {
    assert_eq!(CacheStore::new(2592000).expire_time(), 2592000);
}

#[test]
fn fresh_store_answers_nothing_until_a_set() {
    let mut store = CacheStore::new(0);
    for (i, request) in ["G k", "D k", "S other v", "G other", "X k", "S k", "G k"].iter().enumerate() {
        let reply = store.handle_text(request, i as u64);
        if *request == "G k" {
            assert_eq!(reply, "!");
        }
    }
    assert_eq!(store.handle_text("S k v", 9), "!");
    assert_eq!(store.handle_text("G k", 10), ">v");
}

#[test]
fn expiry_holds_across_other_requests_and_gets_do_not_renew() {
    let mut store = CacheStore::new(1);
    assert_eq!(store.handle_text("S k v", 0), "!");
    assert_eq!(store.handle_text("S other w", 500 * MS), "!");
    assert_eq!(store.handle_text("G k", 900 * MS), ">v");
    assert_eq!(store.handle_text("D other", 950 * MS), "!");
    // the GET at 900 ms did not renew the entry
    assert_eq!(store.handle_text("G k", 1000 * MS + 1), "!");
    assert_eq!(store.handle_text("G k", 1200 * MS), "!");
    // a new SET restarts the time to live from its own time
    assert_eq!(store.handle_text("S k v2", 1300 * MS), "!");
    assert_eq!(store.handle_text("G k", 2300 * MS), ">v2");
    assert_eq!(store.handle_text("G k", 2300 * MS + 1), "!");
}
