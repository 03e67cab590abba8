//! The asset-price session: fixed nine-byte frames carrying an insert or a
//! query, a per-session price history, and the windowed mean price a query
//! is answered with.

use vstd::prelude::*;
use vstd::arithmetic::div_mod::{lemma_div_is_ordered, lemma_div_multiples_vanish};

verus! {

/// The frame's first byte for an insert: ASCII `I`.
pub const INSERT_OPCODE: u8 = 73;

/// The frame's first byte for a query: ASCII `Q`.
pub const QUERY_OPCODE: u8 = 81;

#[derive(Clone, Copy, PartialEq, Eq, Debug)]
pub struct InsertRequest {
    pub timestamp: i32,
    pub price: i32,
}

#[derive(Clone, Copy, PartialEq, Eq, Debug)]
pub struct QueryRequest {
    pub mintime: i32,
    pub maxtime: i32,
}

/// One parsed nine-byte frame.
#[derive(Clone, Copy, Debug)]
pub enum Request {
    Invalid,
    Insert(InsertRequest),
    Query(QueryRequest),
}

#[derive(Clone, Copy, PartialEq, Eq, Debug)]
pub struct Transaction {
    pub timestamp: i32,
    pub price: i32,
}

/// One client's session: its opaque identifier and every price it has
/// inserted, in arrival order.
pub struct SessionState {
    pub session_id: String,
    pub client_transactions: Vec<Transaction>,
}

/// The big-endian 32-bit reading of four bytes of `b` starting at `k`.
pub open spec fn spec_be_u32_at(b: Seq<u8>, k: int) -> int {
    (b[k] as int) * 0x1000000 + (b[k + 1] as int) * 0x10000 + (b[k + 2] as int) * 0x100 + (b[k
        + 3] as int)
}

/// The same four bytes read as a big-endian two's-complement 32-bit signed
/// integer.
pub open spec fn spec_be_i32_at(b: Seq<u8>, k: int) -> int {
    let u = spec_be_u32_at(b, k);
    if u >= 0x80000000 {
        u - 0x100000000
    } else {
        u
    }
}

/// Read a big-endian two's-complement 32-bit signed integer.
fn i32_from_be(b0: u8, b1: u8, b2: u8, b3: u8) -> (r: i32)
    ensures
        r as int == spec_be_i32_at(seq![b0, b1, b2, b3], 0),
{
    let u: u32 = (b0 as u32) * 0x1000000 + (b1 as u32) * 0x10000 + (b2 as u32) * 0x100 + (b3
        as u32);
    if u >= 0x80000000u32 {
        let neg: u32 = 0xFFFFFFFFu32 - u;
        let r64: i64 = -(neg as i64) - 1;
        r64 as i32
    } else {
        u as i32
    }
}

/// Parse the eight payload bytes of an insert frame.
pub fn parse_insert_request(raw_bytes: &[u8; 9]) -> (r: Request)
    ensures
        r matches Request::Insert(ir) && ir.timestamp as int == spec_be_i32_at(raw_bytes@, 1)
            && ir.price as int == spec_be_i32_at(raw_bytes@, 5),
{
    let timestamp = i32_from_be(raw_bytes[1], raw_bytes[2], raw_bytes[3], raw_bytes[4]);
    let price = i32_from_be(raw_bytes[5], raw_bytes[6], raw_bytes[7], raw_bytes[8]);
    Request::Insert(InsertRequest { timestamp, price })
}

/// Parse the eight payload bytes of a query frame.
pub fn parse_query_request(raw_bytes: &[u8; 9]) -> (r: Request)
    ensures
        r matches Request::Query(q) && q.mintime as int == spec_be_i32_at(raw_bytes@, 1)
            && q.maxtime as int == spec_be_i32_at(raw_bytes@, 5),
{
    let mintime = i32_from_be(raw_bytes[1], raw_bytes[2], raw_bytes[3], raw_bytes[4]);
    let maxtime = i32_from_be(raw_bytes[5], raw_bytes[6], raw_bytes[7], raw_bytes[8]);
    Request::Query(QueryRequest { mintime, maxtime })
}

/// Parse one nine-byte frame: the first byte picks the operation, the rest
/// is two big-endian 32-bit signed integers; any other first byte is
/// invalid.
pub fn parse_request(raw_bytes: [u8; 9]) -> (r: Request)
    ensures
        raw_bytes@[0] == INSERT_OPCODE ==> (r matches Request::Insert(ir) && ir.timestamp as int
            == spec_be_i32_at(raw_bytes@, 1) && ir.price as int == spec_be_i32_at(raw_bytes@, 5)),
        raw_bytes@[0] == QUERY_OPCODE ==> (r matches Request::Query(q) && q.mintime as int
            == spec_be_i32_at(raw_bytes@, 1) && q.maxtime as int == spec_be_i32_at(raw_bytes@, 5)),
        raw_bytes@[0] != INSERT_OPCODE && raw_bytes@[0] != QUERY_OPCODE ==> r is Invalid,
{
    let op_code = raw_bytes[0];
    if op_code == INSERT_OPCODE {
        parse_insert_request(&raw_bytes)
    } else if op_code == QUERY_OPCODE {
        parse_query_request(&raw_bytes)
    } else {
        Request::Invalid
    }
}

/// Whether a transaction's timestamp falls in the closed query window.
pub open spec fn spec_in_window(t: Transaction, mintime: int, maxtime: int) -> bool {
    mintime <= t.timestamp as int && t.timestamp as int <= maxtime
}

/// The sum of the prices inside the window.
pub open spec fn spec_window_total(txns: Seq<Transaction>, mintime: int, maxtime: int) -> int
    decreases txns.len(),
{
    if txns.len() == 0 {
        0
    } else {
        spec_window_total(txns.drop_last(), mintime, maxtime) + if spec_in_window(
            txns.last(),
            mintime,
            maxtime,
        ) {
            txns.last().price as int
        } else {
            0
        }
    }
}

/// How many transactions fall inside the window.
pub open spec fn spec_window_count(txns: Seq<Transaction>, mintime: int, maxtime: int) -> int
    decreases txns.len(),
{
    if txns.len() == 0 {
        0
    } else {
        spec_window_count(txns.drop_last(), mintime, maxtime) + if spec_in_window(
            txns.last(),
            mintime,
            maxtime,
        ) {
            1int
        } else {
            0int
        }
    }
}

/// Division truncating toward zero, as the machine divides signed integers.
pub open spec fn spec_trunc_div(a: int, b: int) -> int {
    if a >= 0 {
        a / b
    } else {
        -((-a) / b)
    }
}

/// The answer to a query: the window's mean price, truncated toward zero,
/// and zero when the window is empty.
pub open spec fn spec_mean_price(txns: Seq<Transaction>, mintime: int, maxtime: int) -> int {
    let count = spec_window_count(txns, mintime, maxtime);
    if count == 0 {
        0
    } else {
        spec_trunc_div(spec_window_total(txns, mintime, maxtime), count)
    }
}

/// The four big-endian bytes of a 32-bit value.
pub open spec fn spec_u32_be_bytes(u: int) -> Seq<u8> {
    seq![
        ((u / 0x1000000) % 0x100) as u8,
        ((u / 0x10000) % 0x100) as u8,
        ((u / 0x100) % 0x100) as u8,
        (u % 0x100) as u8,
    ]
}

/// The four big-endian two's-complement bytes of a 32-bit signed value.
pub open spec fn spec_i32_be_bytes(v: int) -> Seq<u8> {
    if v >= 0 {
        spec_u32_be_bytes(v)
    } else {
        spec_u32_be_bytes(v + 0x100000000)
    }
}

/// Write a 32-bit signed value as its four big-endian bytes.
fn i32_to_be_bytes(v: i32) -> (r: [u8; 4])
    ensures
        r@ == spec_i32_be_bytes(v as int),
{
    let u: u32 = if v >= 0 {
        v as u32
    } else {
        ((v as i64) + 0x100000000i64) as u32
    };
    let b0 = (u / 0x1000000) as u8;
    let b1 = ((u / 0x10000) % 0x100) as u8;
    let b2 = ((u / 0x100) % 0x100) as u8;
    let b3 = (u % 0x100) as u8;
    let r = [b0, b1, b2, b3];
    proof {
        assert(r@ =~= spec_i32_be_bytes(v as int));
    }
    r
}

/// Record one insert: the transaction is appended to the session's history
/// and nothing else about the session changes.
pub fn handle_insert(insert_request: InsertRequest, session_state: &mut SessionState)
    ensures
        final(session_state).client_transactions@ == old(
            session_state,
        ).client_transactions@.push(
            Transaction { timestamp: insert_request.timestamp, price: insert_request.price },
        ),
        final(session_state).session_id == old(session_state).session_id,
{
    session_state.client_transactions.push(
        Transaction { timestamp: insert_request.timestamp, price: insert_request.price },
    );
}

/// Answer one query: the big-endian bytes of the mean price over the
/// window, truncated toward zero, zero for an empty window.
pub fn handle_query(query_request: QueryRequest, session_state: &SessionState) -> (r: [u8; 4])
    requires
        session_state.client_transactions@.len() <= 0x7FFFFFFF,
    ensures
        r@ == spec_i32_be_bytes(
            spec_mean_price(
                session_state.client_transactions@,
                query_request.mintime as int,
                query_request.maxtime as int,
            ),
        ),
{
    let txns = &session_state.client_transactions;
    let ghost lo = query_request.mintime as int;
    let ghost hi = query_request.maxtime as int;
    let n = txns.len();
    let mut total: i64 = 0;
    let mut txn_count: i64 = 0;
    let mut i: usize = 0;
    while i < n
        invariant
            i <= n,
            n == txns@.len() <= 0x7FFFFFFF,
            total == spec_window_total(txns@.subrange(0, i as int), lo, hi),
            txn_count == spec_window_count(txns@.subrange(0, i as int), lo, hi),
            0 <= txn_count <= i,
            txn_count * (-0x80000000) <= total <= txn_count * 0x7FFFFFFF,
            lo == query_request.mintime as int,
            hi == query_request.maxtime as int,
        decreases n - i,
    {
        let txn = &txns[i];
        let ghost prefix = txns@.subrange(0, i as int);
        let ghost next = txns@.subrange(0, i + 1 as int);
        proof {
            assert(next.drop_last() =~= prefix);
            assert(next.last() == txns@[i as int]);
        }
        if txn.timestamp >= query_request.mintime && txn.timestamp <= query_request.maxtime {
            total = total + txn.price as i64;
            txn_count = txn_count + 1;
        }
        i = i + 1;
    }
    proof {
        assert(txns@.subrange(0, n as int) =~= txns@);
    }
    if txn_count == 0 {
        return i32_to_be_bytes(0);
    }
    let average: i64 = if total >= 0 {
        let q = (total as u64) / (txn_count as u64);
        proof {
            lemma_div_is_ordered(total as int, txn_count * 0x7FFFFFFF, txn_count as int);
            lemma_div_multiples_vanish(0x7FFFFFFF, txn_count as int);
        }
        q as i64
    } else {
        let magnitude = (-total) as u64;
        let q = magnitude / (txn_count as u64);
        proof {
            lemma_div_is_ordered(magnitude as int, txn_count * 0x80000000, txn_count as int);
            lemma_div_multiples_vanish(0x80000000, txn_count as int);
        }
        -(q as i64)
    };
    i32_to_be_bytes(average as i32)
}

} // verus!
