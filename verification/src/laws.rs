//! Room-wide guarantees, proved once over the registry model: what every
//! interleaving of joins, messages and departures must look like to an
//! observer.

use vstd::prelude::*;
use vstd::seq_lib::*;
use crate::registry::{
    contains_session, distinct_sessions, lemma_recipient_membership, lemma_session_index_found,
    lemma_session_index_props, session_index, spec_active_sessions_except, spec_set_status, Member,
    MemberStatus,
};

verus! {

/// A broadcast never returns to its sender: whatever the registry holds,
/// the sender's own session is not among the planned recipients.
pub proof fn lemma_no_self_delivery(s: Seq<Member>, session_id: u128)
    ensures
        !spec_active_sessions_except(s, session_id).contains(session_id),
{
    lemma_recipient_membership(s, session_id, session_id);
}

/// With distinct session identifiers, a fan-out plan lists every recipient
/// exactly once: no member sees the same broadcast twice.
pub proof fn lemma_recipients_no_duplicates(s: Seq<Member>, excluding: u128)
    requires
        distinct_sessions(s),
    ensures
        spec_active_sessions_except(s, excluding).no_duplicates(),
    decreases s.len(),
{
    if s.len() > 0 {
        let prefix = s.drop_last();
        assert(distinct_sessions(prefix)) by {
            assert(forall|i: int| 0 <= i < prefix.len() ==> prefix[i] == s[i]);
        }
        lemma_recipients_no_duplicates(prefix, excluding);
        let init = spec_active_sessions_except(prefix, excluding);
        let m = s.last();
        if m.status is Active && m.session_id != excluding {
            assert(!init.contains(m.session_id)) by {
                lemma_recipient_membership(prefix, excluding, m.session_id);
                if exists|i: int|
                    0 <= i < prefix.len() && prefix[i].session_id == m.session_id
                        && prefix[i].status is Active {
                    let i = choose|i: int|
                        0 <= i < prefix.len() && prefix[i].session_id == m.session_id
                            && prefix[i].status is Active;
                    assert(s[i].session_id == s[s.len() - 1].session_id);
                }
            }
            let full = init.push(m.session_id);
            assert forall|i: int, j: int| 0 <= i < j < full.len() implies full[i] != full[j] by {
                if j < full.len() - 1 {
                    assert(full[i] == init[i] && full[j] == init[j]);
                } else {
                    assert(full[i] == init[i]);
                    assert(init.contains(init[i]));
                }
            }
        }
    }
}

/// Registering and then disconnecting, with nothing sent in between, gives
/// every other member that was active throughout exactly one arrival
/// fan-out and, from the later departure, exactly one farewell fan-out: the
/// observer is on each plan once, and the plans are made in that order.
pub proof fn lemma_join_then_leave(s: Seq<Member>, joiner: Member, observer_sid: u128)
    requires
        distinct_sessions(s),
        !contains_session(s, joiner.session_id),
        contains_session(s, observer_sid),
        s[session_index(s, observer_sid)].status is Active,
        observer_sid != joiner.session_id,
    ensures
        ({
            let s2 = spec_set_status(s.push(joiner), joiner.session_id, MemberStatus::Active);
            let join_recipients = spec_active_sessions_except(s2, joiner.session_id);
            let s3 = s2.remove(session_index(s2, joiner.session_id));
            let leave_recipients = spec_active_sessions_except(s3, joiner.session_id);
            &&& join_recipients.contains(observer_sid)
            &&& join_recipients.no_duplicates()
            &&& leave_recipients.contains(observer_sid)
            &&& leave_recipients.no_duplicates()
        }),
{
    let s1 = s.push(joiner);
    let s2 = spec_set_status(s1, joiner.session_id, MemberStatus::Active);
    let n = s.len() as int;
    lemma_session_index_props(s, observer_sid);
    let oi = session_index(s, observer_sid);
    assert(forall|i: int| 0 <= i < n ==> s[i].session_id != joiner.session_id);
    assert(forall|i: int| 0 <= i < n ==> s1[i] == s[i]);
    assert(forall|i: int| 0 <= i < n ==> s2[i] == s[i]);
    assert(s2[n].session_id == joiner.session_id);
    assert(distinct_sessions(s2));
    assert(s2[oi].session_id == observer_sid && s2[oi].status is Active);
    lemma_recipient_membership(s2, joiner.session_id, observer_sid);
    lemma_recipients_no_duplicates(s2, joiner.session_id);
    lemma_session_index_found(s2, joiner.session_id, n);
    let s3 = s2.remove(n);
    assert(s3 =~= s);
    lemma_recipient_membership(s3, joiner.session_id, observer_sid);
    lemma_recipients_no_duplicates(s3, joiner.session_id);
}

/// A failed write during a fan-out is isolated to its one recipient:
/// marking it inactive touches no other record, and every other recipient
/// of the same fan-out is still there, still active, to take its delivery.
pub proof fn lemma_write_failure_isolated(s: Seq<Member>, sender: u128, failed: u128, other: u128)
    requires
        spec_active_sessions_except(s, sender).contains(other),
        other != failed,
    ensures
        ({
            let marked = spec_set_status(s, failed, MemberStatus::Departed);
            &&& forall|j: int|
                0 <= j < s.len() && s[j].session_id != failed ==> marked[j] == s[j]
            &&& spec_active_sessions_except(marked, sender).contains(other)
        }),
{
    let marked = spec_set_status(s, failed, MemberStatus::Departed);
    lemma_recipient_membership(s, sender, other);
    let i = choose|i: int|
        0 <= i < s.len() && s[i].session_id == other && s[i].status is Active;
    assert(marked[i] == s[i]);
    lemma_recipient_membership(marked, sender, other);
}

/// Registrations from distinct sessions never collide: recording both
/// leaves both present, nothing lost and nothing duplicated.
pub proof fn lemma_concurrent_registrations_distinct(s: Seq<Member>, ma: Member, mb: Member)
    requires
        distinct_sessions(s),
        ma.session_id != mb.session_id,
        !contains_session(s, ma.session_id),
        !contains_session(s, mb.session_id),
    ensures
        ({
            let s2 = s.push(ma).push(mb);
            &&& distinct_sessions(s2)
            &&& contains_session(s2, ma.session_id)
            &&& contains_session(s2, mb.session_id)
            &&& s2.len() == s.len() + 2
        }),
{
    let s2 = s.push(ma).push(mb);
    let n = s.len() as int;
    assert(s2[n] == ma);
    assert(s2[n + 1] == mb);
    assert(forall|i: int| 0 <= i < n ==> s2[i] == s[i]);
}

} // verus!
