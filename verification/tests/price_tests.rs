use budget_chat::price_history::{
    handle_insert, handle_query, parse_request, InsertRequest, QueryRequest, Request, SessionState,
    Transaction,
};

fn fresh_session() -> SessionState {
    SessionState { session_id: String::from("s1"), client_transactions: Vec::new() }
}

#[test]
fn insert_frames_parse() {
    let frame: [u8; 9] = [73, 0, 0, 48, 57, 0, 0, 0, 101];
    match parse_request(frame) {
        Request::Insert(InsertRequest { timestamp, price }) => {
            assert_eq!(timestamp, 12345);
            assert_eq!(price, 101);
        }
        _ => panic!("an I frame parses as an insert"),
    }
}

#[test]
fn negative_fields_parse_as_twos_complement() {
    let frame: [u8; 9] = [73, 0xFF, 0xFF, 0xFF, 0xFB, 0xFF, 0xFF, 0xFF, 0x9C];
    match parse_request(frame) {
        Request::Insert(InsertRequest { timestamp, price }) => {
            assert_eq!(timestamp, -5);
            assert_eq!(price, -100);
        }
        _ => panic!("an I frame parses as an insert"),
    }
}

#[test]
fn query_frames_parse() {
    let frame: [u8; 9] = [81, 0, 0, 48, 0, 0, 0, 64, 0];
    match parse_request(frame) {
        Request::Query(QueryRequest { mintime, maxtime }) => {
            assert_eq!(mintime, 12288);
            assert_eq!(maxtime, 16384);
        }
        _ => panic!("a Q frame parses as a query"),
    }
}

#[test]
fn unknown_opcodes_are_invalid() {
    let frame: [u8; 9] = [88, 0, 0, 0, 0, 0, 0, 0, 0];
    assert!(matches!(parse_request(frame), Request::Invalid));
}

#[test]
fn inserts_append_to_the_history() {
    let mut session = fresh_session();
    handle_insert(InsertRequest { timestamp: 5, price: 10 }, &mut session);
    handle_insert(InsertRequest { timestamp: 6, price: 20 }, &mut session);
    assert_eq!(
        session.client_transactions,
        vec![
            Transaction { timestamp: 5, price: 10 },
            Transaction { timestamp: 6, price: 20 },
        ]
    );
}

#[test]
fn queries_average_the_window() {
    let mut session = fresh_session();
    for (timestamp, price) in [(12345, 101), (12346, 102), (12347, 100), (40960, 5)] {
        handle_insert(InsertRequest { timestamp, price }, &mut session);
    }
    let reply = handle_query(QueryRequest { mintime: 12288, maxtime: 16384 }, &session);
    assert_eq!(reply, [0, 0, 0, 101]);
}

#[test]
fn empty_windows_answer_zero() {
    let mut session = fresh_session();
    handle_insert(InsertRequest { timestamp: 100, price: 7 }, &mut session);
    let reply = handle_query(QueryRequest { mintime: 200, maxtime: 300 }, &session);
    assert_eq!(reply, [0, 0, 0, 0]);
    // An inverted window matches nothing either.
    let reply = handle_query(QueryRequest { mintime: 300, maxtime: 200 }, &session);
    assert_eq!(reply, [0, 0, 0, 0]);
}

#[test]
fn negative_means_truncate_toward_zero() {
    let mut session = fresh_session();
    handle_insert(InsertRequest { timestamp: 1, price: -5 }, &mut session);
    handle_insert(InsertRequest { timestamp: 2, price: -4 }, &mut session);
    // (-5 + -4) / 2 truncates to -4, written in two's complement.
    let reply = handle_query(QueryRequest { mintime: 0, maxtime: 10 }, &session);
    assert_eq!(reply, [0xFF, 0xFF, 0xFF, 0xFC]);
}
