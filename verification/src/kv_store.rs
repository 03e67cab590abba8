//! The key-value request handlers of the datagram store: an insert request
//! is `key=value` (first `=` splits; the key may be empty, the value may
//! hold more `=`), anything else is a query, and the key `version` is
//! reserved for the server's version string.

use vstd::prelude::*;

verus! {

/// The reserved key and the reply it always draws.
pub open spec fn spec_version_reply() -> Seq<char> {
    "version=cbw's Key-Value Store 1.0"@
}

/// The first position of `=` in `s`, or -1 when there is none.
pub open spec fn spec_eq_index(s: Seq<char>) -> int
    decreases s.len(),
{
    if s.len() == 0 {
        -1
    } else if s[0] == '=' {
        0
    } else {
        let rest = spec_eq_index(s.drop_first());
        if rest < 0 {
            -1
        } else {
            rest + 1
        }
    }
}

/// Whether `s` is an insert request: it holds an `=` somewhere.
pub open spec fn spec_has_eq(s: Seq<char>) -> bool {
    exists|i: int| 0 <= i < s.len() && s[i] == '='
}

/// The key of an insert request: everything before the first `=`.
pub open spec fn spec_insert_key(s: Seq<char>) -> Seq<char> {
    s.subrange(0, spec_eq_index(s))
}

/// The value of an insert request: everything after the first `=`.
pub open spec fn spec_insert_value(s: Seq<char>) -> Seq<char> {
    s.subrange(spec_eq_index(s) + 1, s.len() as int)
}

proof fn lemma_eq_index_found(s: Seq<char>, i: int)
    requires
        0 <= i < s.len(),
        s[i] == '=',
        forall|j: int| 0 <= j < i ==> s[j] != '=',
    ensures
        spec_eq_index(s) == i,
    decreases i,
{
    if i > 0 {
        assert(s.drop_first()[i - 1] == s[i]);
        assert(forall|j: int| 0 <= j < i - 1 ==> s.drop_first()[j] == s[j + 1]);
        lemma_eq_index_found(s.drop_first(), i - 1);
    }
}

proof fn lemma_eq_index_props(s: Seq<char>)
    ensures
        spec_has_eq(s) <==> 0 <= spec_eq_index(s) < s.len(),
        spec_has_eq(s) ==> s[spec_eq_index(s)] == '=',
        spec_has_eq(s) ==> forall|j: int| 0 <= j < spec_eq_index(s) ==> s[j] != '=',
    decreases s.len(),
{
    if s.len() > 0 && s[0] != '=' {
        lemma_eq_index_props(s.drop_first());
        assert(forall|j: int| 0 <= j < s.drop_first().len() ==> s.drop_first()[j] == s[j + 1]);
        if spec_has_eq(s) {
            let w = choose|i: int| 0 <= i < s.len() && s[i] == '=';
            assert(s.drop_first()[w - 1] == s[w]);
            assert(spec_has_eq(s.drop_first()));
            let idx = spec_eq_index(s);
            assert forall|j: int| 0 <= j < idx implies s[j] != '=' by {
                if j > 0 {
                    assert(s.drop_first()[j - 1] == s[j]);
                }
            }
        }
    }
}

/// What the store holds, read as a map: entries recorded later win, which
/// is exactly what overwriting an existing key means.
pub open spec fn spec_entries_map(s: Seq<(String, String)>) -> Map<Seq<char>, Seq<char>>
    decreases s.len(),
{
    if s.len() == 0 {
        Map::<Seq<char>, Seq<char>>::empty()
    } else {
        spec_entries_map(s.drop_last()).insert(s.last().0@, s.last().1@)
    }
}

proof fn lemma_entries_map_last_match(s: Seq<(String, String)>, i: int)
    requires
        0 <= i < s.len(),
        forall|j: int| i < j < s.len() ==> s[j].0@ != s[i].0@,
    ensures
        spec_entries_map(s).contains_key(s[i].0@),
        spec_entries_map(s)[s[i].0@] == s[i].1@,
    decreases s.len(),
{
    if i < s.len() - 1 {
        assert(forall|j: int| 0 <= j < s.drop_last().len() ==> s.drop_last()[j] == s[j]);
        lemma_entries_map_last_match(s.drop_last(), i);
        assert(s.last().0@ != s[i].0@);
    }
}

proof fn lemma_entries_map_no_match(s: Seq<(String, String)>, k: Seq<char>)
    requires
        forall|j: int| 0 <= j < s.len() ==> s[j].0@ != k,
    ensures
        !spec_entries_map(s).contains_key(k),
    decreases s.len(),
{
    if s.len() > 0 {
        assert(forall|j: int| 0 <= j < s.drop_last().len() ==> s.drop_last()[j] == s[j]);
        lemma_entries_map_no_match(s.drop_last(), k);
    }
}

/// The store itself: a record of `key=value` insertions, read through the
/// map view in which a later insertion of a key overwrites the earlier one.
pub struct KvStore {
    entries: Vec<(String, String)>,
}

impl View for KvStore {
    type V = Map<Seq<char>, Seq<char>>;

    closed spec fn view(&self) -> Map<Seq<char>, Seq<char>> {
        spec_entries_map(self.entries@)
    }
}

impl KvStore {
    pub fn new() -> (r: Self)
        ensures
            r@ == Map::<Seq<char>, Seq<char>>::empty(),
    {
        KvStore { entries: Vec::new() }
    }
}

/// Record one insert request: the store maps the key to the value from now
/// on, and nothing else changes.
pub fn handle_insert(kv_store: &mut KvStore, request: String)
    requires
        spec_has_eq(request@),
    ensures
        final(kv_store)@ == old(kv_store)@.insert(
            spec_insert_key(request@),
            spec_insert_value(request@),
        ),
{
    let n = request.as_str().unicode_len();
    let ghost e = spec_eq_index(request@);
    proof {
        lemma_eq_index_props(request@);
    }
    let mut i: usize = 0;
    while request.as_str().get_char(i) != '='
        invariant
            0 <= i <= e < n,
            n == request@.len(),
            request@[e] == '=',
            forall|j: int| 0 <= j < i ==> request@[j] != '=',
        decreases e - i,
    {
        i = i + 1;
    }
    proof {
        lemma_eq_index_found(request@, i as int);
    }
    let key = request.as_str().substring_char(0, i).to_owned();
    let value = request.as_str().substring_char(i + 1, n).to_owned();
    kv_store.entries.push((key, value));
    proof {
        assert(kv_store.entries@.drop_last() =~= old(kv_store).entries@);
        assert(kv_store@ =~= old(kv_store)@.insert(
            spec_insert_key(request@),
            spec_insert_value(request@),
        ));
    }
}

/// Answer one query request: `key=value` for a key the store holds, the
/// empty string for one it does not.
pub fn handle_query(kv_store: &mut KvStore, request: String) -> (r: String)
    ensures
        final(kv_store)@ == old(kv_store)@,
        old(kv_store)@.contains_key(request@) ==> r@ == request@ + "="@
            + old(kv_store)@[request@],
        !old(kv_store)@.contains_key(request@) ==> r@ == Seq::<char>::empty(),
{
    let n = kv_store.entries.len();
    let mut i: usize = n;
    while i > 0
        invariant
            i <= n,
            n == kv_store.entries@.len(),
            forall|j: int| i <= j < n ==> kv_store.entries@[j].0@ != request@,
        decreases i,
    {
        let idx = i - 1;
        if kv_store.entries[idx].0 == request {
            proof {
                lemma_entries_map_last_match(kv_store.entries@, idx as int);
            }
            let mut r = request.clone();
            r.append("=");
            r.append(kv_store.entries[idx].1.as_str());
            return r;
        }
        i = idx;
    }
    proof {
        lemma_entries_map_no_match(kv_store.entries@, request@);
    }
    String::new()
}

/// Dispatch one datagram as the store's service loop does: a request with
/// an `=` is an insert and draws no reply; the bare key `version` draws the
/// version string; anything else is a query and draws its answer.
pub fn route_request(kv_store: &mut KvStore, request: String) -> (r: Option<String>)
    ensures
        spec_has_eq(request@) ==> r is None && final(kv_store)@ == old(kv_store)@.insert(
            spec_insert_key(request@),
            spec_insert_value(request@),
        ),
        !spec_has_eq(request@) ==> final(kv_store)@ == old(kv_store)@ && match r {
            Some(reply) => {
                &&& request@ == "version"@ ==> reply@ == spec_version_reply()
                &&& request@ != "version"@ ==> {
                    &&& old(kv_store)@.contains_key(request@) ==> reply@ == request@ + "="@
                        + old(kv_store)@[request@]
                    &&& !old(kv_store)@.contains_key(request@) ==> reply@
                        == Seq::<char>::empty()
                }
            },
            None => false,
        },
{
    let n = request.as_str().unicode_len();
    let mut has_eq = false;
    let mut i: usize = 0;
    while i < n
        invariant
            i <= n,
            n == request@.len(),
            has_eq <==> exists|j: int| 0 <= j < i && request@[j] == '=',
        decreases n - i,
    {
        if request.as_str().get_char(i) == '=' {
            has_eq = true;
        }
        i = i + 1;
    }
    if has_eq {
        handle_insert(kv_store, request);
        None
    } else if request == String::from_str("version") {
        Some(String::from_str("version=cbw's Key-Value Store 1.0"))
    } else {
        Some(handle_query(kv_store, request))
    }
}

} // verus!
