use budget_chat::kv_store::{handle_insert, handle_query, route_request, KvStore};

#[test]
fn missing_key_queries_to_empty() {
    let mut kv = KvStore::new();
    assert_eq!(handle_query(&mut kv, String::from("foo")), "");
}

#[test]
fn insert_then_query_round_trips() {
    let mut kv = KvStore::new();
    handle_insert(&mut kv, String::from("foo=bar"));
    assert_eq!(handle_query(&mut kv, String::from("foo")), "foo=bar");
    assert_eq!(handle_query(&mut kv, String::from("bar")), "");
}

#[test]
fn later_insert_overwrites() {
    let mut kv = KvStore::new();
    handle_insert(&mut kv, String::from("foo=bar"));
    handle_insert(&mut kv, String::from("foo=baz"));
    assert_eq!(handle_query(&mut kv, String::from("foo")), "foo=baz");
}

#[test]
fn first_equals_sign_splits() {
    let mut kv = KvStore::new();
    handle_insert(&mut kv, String::from("foo=bar=baz"));
    assert_eq!(handle_query(&mut kv, String::from("foo")), "foo=bar=baz");

    handle_insert(&mut kv, String::from("foo="));
    assert_eq!(handle_query(&mut kv, String::from("foo")), "foo=");

    handle_insert(&mut kv, String::from("=bar"));
    assert_eq!(handle_query(&mut kv, String::from("")), "=bar");
}

#[test]
fn routing_matches_the_service_loop() {
    let mut kv = KvStore::new();
    assert_eq!(route_request(&mut kv, String::from("answer=42")), None);
    assert_eq!(
        route_request(&mut kv, String::from("answer")),
        Some(String::from("answer=42"))
    );
    assert_eq!(
        route_request(&mut kv, String::from("version")),
        Some(String::from("version=cbw's Key-Value Store 1.0"))
    );
    // Even an insert against the reserved key is routed as an insert and
    // draws no reply; the reserved reply itself stays fixed.
    assert_eq!(route_request(&mut kv, String::from("version=hacked")), None);
    assert_eq!(
        route_request(&mut kv, String::from("version")),
        Some(String::from("version=cbw's Key-Value Store 1.0"))
    );
}
