//! The membership registry: one record per session, keyed by an opaque
//! session identifier, with the broadcast planning the chat room rests on.
//!
//! The registry itself is sequential; the caller serialises access to it
//! (one lock around every operation) and performs the socket writes that a
//! returned [`Broadcast`] plan calls for.

use vstd::prelude::*;
use crate::messages::{spec_left_message, user_left_message_builder};

verus! {

/// Where a member stands in its lifecycle. `Departed` doubles as the
/// inactive marker set when a write to the member fails: either way the
/// member is skipped by every later fan-out.
#[derive(Clone, Copy, PartialEq, Eq, Structural, Debug)]
pub enum MemberStatus {
    Connecting,
    Active,
    Departed,
}

/// One session's record: its identifier, its registered name, and whether
/// broadcasts should reach it.
pub struct Member {
    pub session_id: u128,
    pub name: String,
    pub status: MemberStatus,
}

/// An invariant violation: the surrounding session plumbing handed in a
/// session identifier it should not have.
#[derive(Clone, Copy, PartialEq, Eq, Structural, Debug)]
pub enum RegistryError {
    DuplicateSessionId,
    UnknownSessionId,
}

/// One fan-out: a line to deliver and the sessions to deliver it to.
#[derive(Debug)]
pub struct Broadcast {
    pub message: String,
    pub recipients: Vec<u128>,
}

/// Whether some record in `s` carries `session_id`.
pub open spec fn contains_session(s: Seq<Member>, session_id: u128) -> bool {
    exists|i: int| 0 <= i < s.len() && s[i].session_id == session_id
}

/// The first position carrying `session_id`, or -1 when there is none.
pub open spec fn session_index(s: Seq<Member>, session_id: u128) -> int
    decreases s.len(),
{
    if s.len() == 0 {
        -1
    } else if s[0].session_id == session_id {
        0
    } else {
        let rest = session_index(s.drop_first(), session_id);
        if rest < 0 {
            -1
        } else {
            rest + 1
        }
    }
}

/// No two records share a session identifier.
pub open spec fn distinct_sessions(s: Seq<Member>) -> bool {
    forall|i: int, j: int|
        0 <= i < j < s.len() ==> s[i].session_id != s[j].session_id
}

/// `s` with the record carrying `session_id` switched to `status`;
/// the identity when no record carries it.
pub open spec fn spec_set_status(s: Seq<Member>, session_id: u128, status: MemberStatus) -> Seq<
    Member,
> {
    Seq::new(
        s.len(),
        |i: int|
            if s[i].session_id == session_id {
                Member { session_id: s[i].session_id, name: s[i].name, status }
            } else {
                s[i]
            },
    )
}

/// The names of the `Active` records other than `excluding`, in registry
/// order.
pub open spec fn spec_active_names_except(s: Seq<Member>, excluding: u128) -> Seq<Seq<char>>
    decreases s.len(),
{
    if s.len() == 0 {
        Seq::<Seq<char>>::empty()
    } else {
        let init = spec_active_names_except(s.drop_last(), excluding);
        let m = s.last();
        if m.status is Active && m.session_id != excluding {
            init.push(m.name@)
        } else {
            init
        }
    }
}

/// The session identifiers of the `Active` records other than `excluding`,
/// in registry order: the recipients of one fan-out.
pub open spec fn spec_active_sessions_except(s: Seq<Member>, excluding: u128) -> Seq<u128>
    decreases s.len(),
{
    if s.len() == 0 {
        Seq::<u128>::empty()
    } else {
        let init = spec_active_sessions_except(s.drop_last(), excluding);
        let m = s.last();
        if m.status is Active && m.session_id != excluding {
            init.push(m.session_id)
        } else {
            init
        }
    }
}

pub proof fn lemma_session_index_found(s: Seq<Member>, session_id: u128, i: int)
    requires
        0 <= i < s.len(),
        s[i].session_id == session_id,
        forall|j: int| 0 <= j < i ==> s[j].session_id != session_id,
    ensures
        session_index(s, session_id) == i,
    decreases i,
{
    if i > 0 {
        assert(s.drop_first()[i - 1] == s[i]);
        assert(forall|j: int| 0 <= j < i - 1 ==> s.drop_first()[j] == s[j + 1]);
        lemma_session_index_found(s.drop_first(), session_id, i - 1);
    }
}

pub proof fn lemma_session_index_props(s: Seq<Member>, session_id: u128)
    ensures
        contains_session(s, session_id) <==> 0 <= session_index(s, session_id) < s.len(),
        contains_session(s, session_id) ==> s[session_index(s, session_id)].session_id
            == session_id,
        contains_session(s, session_id) ==> forall|j: int|
            0 <= j < session_index(s, session_id) ==> s[j].session_id != session_id,
    decreases s.len(),
{
    if s.len() > 0 && s[0].session_id != session_id {
        lemma_session_index_props(s.drop_first(), session_id);
        assert(forall|j: int| 0 <= j < s.drop_first().len() ==> s.drop_first()[j] == s[j + 1]);
        if contains_session(s, session_id) {
            let w = choose|i: int| 0 <= i < s.len() && s[i].session_id == session_id;
            assert(s.drop_first()[w - 1] == s[w]);
            assert(contains_session(s.drop_first(), session_id));
            let idx = session_index(s, session_id);
            assert forall|j: int| 0 <= j < idx implies s[j].session_id != session_id by {
                if j > 0 {
                    assert(s.drop_first()[j - 1] == s[j]);
                }
            }
        }
    }
}

/// A session is a planned recipient exactly when it is someone else's
/// `Active` session: in particular a broadcast never returns to its sender.
pub proof fn lemma_recipient_membership(s: Seq<Member>, excluding: u128, x: u128)
    ensures
        spec_active_sessions_except(s, excluding).contains(x) <==> (x != excluding
            && exists|i: int|
            0 <= i < s.len() && s[i].session_id == x && s[i].status is Active),
    decreases s.len(),
{
    if s.len() > 0 {
        lemma_recipient_membership(s.drop_last(), excluding, x);
        let init = spec_active_sessions_except(s.drop_last(), excluding);
        let m = s.last();
        if m.status is Active && m.session_id != excluding {
            assert(spec_active_sessions_except(s, excluding) == init.push(m.session_id));
            if spec_active_sessions_except(s, excluding).contains(x) {
                if x == m.session_id {
                    assert(s[s.len() - 1].session_id == x && s[s.len() - 1].status is Active);
                } else {
                    assert(init.contains(x)) by {
                        let k = choose|k: int|
                            0 <= k < init.push(m.session_id).len() && init.push(m.session_id)[k]
                                == x;
                        assert(init[k] == x);
                    }
                    let i = choose|i: int|
                        0 <= i < s.drop_last().len() && s.drop_last()[i].session_id == x
                            && s.drop_last()[i].status is Active;
                    assert(s[i].session_id == x && s[i].status is Active);
                }
            }
            if x != excluding && exists|i: int|
                0 <= i < s.len() && s[i].session_id == x && s[i].status is Active {
                let i = choose|i: int|
                    0 <= i < s.len() && s[i].session_id == x && s[i].status is Active;
                if i == s.len() - 1 {
                    assert(init.push(m.session_id)[init.len() as int] == x);
                } else {
                    assert(s.drop_last()[i] == s[i]);
                    assert(init.contains(x));
                    let k = choose|k: int| 0 <= k < init.len() && init[k] == x;
                    assert(init.push(m.session_id)[k] == x);
                }
            }
        } else {
            if spec_active_sessions_except(s, excluding).contains(x) {
                let i = choose|i: int|
                    0 <= i < s.drop_last().len() && s.drop_last()[i].session_id == x
                        && s.drop_last()[i].status is Active;
                assert(s[i].session_id == x && s[i].status is Active);
            }
            if x != excluding && exists|i: int|
                0 <= i < s.len() && s[i].session_id == x && s[i].status is Active {
                let i = choose|i: int|
                    0 <= i < s.len() && s[i].session_id == x && s[i].status is Active;
                assert(i != s.len() - 1);
                assert(s.drop_last()[i] == s[i]);
            }
        }
    }
}

/// What a successful departure does: the record carrying `session_id` is
/// deleted, and exactly when it had been `Active`, a farewell fan-out to the
/// remaining active members is planned.
pub open spec fn spec_departure(
    old_s: Seq<Member>,
    new_s: Seq<Member>,
    session_id: u128,
    plan: Option<Broadcast>,
) -> bool {
    let i = session_index(old_s, session_id);
    &&& 0 <= i < old_s.len()
    &&& old_s[i].session_id == session_id
    &&& new_s == old_s.remove(i)
    &&& match plan {
        Some(b) => old_s[i].status is Active && b.message@ == spec_left_message(old_s[i].name@)
            && b.recipients@ == spec_active_sessions_except(new_s, session_id)
            && !b.recipients@.contains(session_id),
        None => !(old_s[i].status is Active),
    }
}

/// The shared membership mapping: one record per live session, in insertion
/// order, session identifiers pairwise distinct.
pub struct Registry {
    members: Vec<Member>,
}

impl View for Registry {
    type V = Seq<Member>;

    closed spec fn view(&self) -> Seq<Member> {
        self.members@
    }
}

impl Registry {
    #[verifier::type_invariant]
    spec fn wf(self) -> bool {
        distinct_sessions(self.members@)
    }

    pub fn new() -> (r: Self)
        ensures
            r@ == Seq::<Member>::empty(),
    {
        Registry { members: Vec::new() }
    }

    /// The position of the record carrying `session_id`, when there is one.
    fn find_session(&self, session_id: u128) -> (r: Option<usize>)
        ensures
            match r {
                Some(i) => 0 <= i < self@.len() && self@[i as int].session_id == session_id && i
                    as int == session_index(self@, session_id),
                None => !contains_session(self@, session_id),
            },
    {
        let n = self.members.len();
        let mut i: usize = 0;
        while i < n
            invariant
                n == self@.len(),
                i <= n,
                forall|j: int| 0 <= j < i ==> self@[j].session_id != session_id,
            decreases n - i,
        {
            if self.members[i].session_id == session_id {
                proof {
                    lemma_session_index_found(self@, session_id, i as int);
                }
                return Some(i);
            }
            i = i + 1;
        }
        None
    }

    /// Insert a freshly registered record. A duplicate session identifier is
    /// an invariant violation in the caller's session plumbing: the registry
    /// is left untouched and the error reported.
    pub fn add_new_member(&mut self, chat_member: Member) -> (r: Result<(), RegistryError>)
        ensures
            match r {
                Ok(()) => !contains_session(old(self)@, chat_member.session_id) && final(self)@
                    == old(self)@.push(chat_member),
                Err(e) => e == RegistryError::DuplicateSessionId && contains_session(
                    old(self)@,
                    chat_member.session_id,
                ) && final(self)@ == old(self)@,
            },
    {
        proof {
            use_type_invariant(&*self);
        }
        match self.find_session(chat_member.session_id) {
            Some(_) => Err(RegistryError::DuplicateSessionId),
            None => {
                let mut members: Vec<Member> = Vec::new();
                core::mem::swap(&mut members, &mut self.members);
                members.push(chat_member);
                self.members = members;
                Ok(())
            },
        }
    }

    /// Delete and hand back the record carrying `session_id`. Removing an
    /// unknown session is an invariant violation, reported rather than
    /// swallowed.
    pub fn remove_member(&mut self, session_id: u128) -> (r: Result<Member, RegistryError>)
        ensures
            match r {
                Ok(m) => {
                    let i = session_index(old(self)@, session_id);
                    0 <= i < old(self)@.len() && m == old(self)@[i] && m.session_id == session_id
                        && final(self)@ == old(self)@.remove(i)
                },
                Err(e) => e == RegistryError::UnknownSessionId && !contains_session(
                    old(self)@,
                    session_id,
                ) && final(self)@ == old(self)@,
            },
    {
        proof {
            use_type_invariant(&*self);
        }
        match self.find_session(session_id) {
            Some(i) => {
                let mut members: Vec<Member> = Vec::new();
                core::mem::swap(&mut members, &mut self.members);
                let m = members.remove(i);
                self.members = members;
                Ok(m)
            },
            None => Err(RegistryError::UnknownSessionId),
        }
    }

    /// Switch the record carrying `session_id` to `status`; report an
    /// unknown session and change nothing.
    fn set_status(&mut self, session_id: u128, status: MemberStatus) -> (r: Result<
        (),
        RegistryError,
    >)
        ensures
            match r {
                Ok(()) => contains_session(old(self)@, session_id),
                Err(e) => e == RegistryError::UnknownSessionId && !contains_session(
                    old(self)@,
                    session_id,
                ),
            },
            final(self)@ == spec_set_status(old(self)@, session_id, status),
    {
        proof {
            use_type_invariant(&*self);
        }
        match self.find_session(session_id) {
            Some(i) => {
                let mut members: Vec<Member> = Vec::new();
                core::mem::swap(&mut members, &mut self.members);
                let mut m = members.remove(i);
                m.status = status;
                members.insert(i, m);
                self.members = members;
                proof {
                    let s = old(self)@;
                    assert(forall|j: int|
                        0 <= j < s.len() && j != i ==> s[j].session_id != session_id);
                    assert(self@ =~= spec_set_status(s, session_id, status));
                }
                Ok(())
            },
            None => {
                proof {
                    assert(self@ =~= spec_set_status(old(self)@, session_id, status));
                }
                Err(RegistryError::UnknownSessionId)
            },
        }
    }

    /// The member has received its roster, so broadcasts may reach it from
    /// now on.
    pub fn set_active(&mut self, session_id: u128) -> (r: Result<(), RegistryError>)
        ensures
            match r {
                Ok(()) => contains_session(old(self)@, session_id),
                Err(e) => e == RegistryError::UnknownSessionId && !contains_session(
                    old(self)@,
                    session_id,
                ),
            },
            final(self)@ == spec_set_status(old(self)@, session_id, MemberStatus::Active),
    {
        self.set_status(session_id, MemberStatus::Active)
    }

    /// A write to this member failed: mark it inactive so later fan-outs
    /// skip it. Every other record is left exactly as it was, so a failure
    /// never spreads past the one recipient.
    pub fn mark_write_failed(&mut self, session_id: u128)
        ensures
            final(self)@ == spec_set_status(old(self)@, session_id, MemberStatus::Departed),
    {
        let _ = self.set_status(session_id, MemberStatus::Departed);
    }

    /// The roster: names of the `Active` members other than
    /// `excluding_session_id`, in registry order.
    pub fn get_current_member_names(&self, excluding_session_id: u128) -> (r: Vec<String>)
        ensures
            r.deep_view() == spec_active_names_except(self@, excluding_session_id),
    {
        let n = self.members.len();
        let mut names: Vec<String> = Vec::new();
        let mut i: usize = 0;
        while i < n
            invariant
                n == self@.len(),
                i <= n,
                names.deep_view() == spec_active_names_except(
                    self@.subrange(0, i as int),
                    excluding_session_id,
                ),
            decreases n - i,
        {
            let m = &self.members[i];
            let ghost prefix = self@.subrange(0, i as int);
            let ghost next = self@.subrange(0, i + 1 as int);
            proof {
                assert(next.drop_last() =~= prefix);
                assert(next.last() == self@[i as int]);
            }
            match m.status {
                MemberStatus::Active => {
                    if m.session_id != excluding_session_id {
                        names.push(m.name.clone());
                        proof {
                            assert(names.deep_view() =~= spec_active_names_except(
                                next,
                                excluding_session_id,
                            ));
                        }
                    }
                },
                _ => {},
            }
            i = i + 1;
        }
        proof {
            assert(self@.subrange(0, n as int) =~= self@);
        }
        names
    }

    /// The plan of one fan-out: every `Active` session other than
    /// `excluding_session_id`, in registry order. The sender itself is never
    /// among them.
    pub fn broadcast_recipients(&self, excluding_session_id: u128) -> (r: Vec<u128>)
        ensures
            r@ == spec_active_sessions_except(self@, excluding_session_id),
            !r@.contains(excluding_session_id),
    {
        let n = self.members.len();
        let mut recipients: Vec<u128> = Vec::new();
        let mut i: usize = 0;
        while i < n
            invariant
                n == self@.len(),
                i <= n,
                recipients@ == spec_active_sessions_except(
                    self@.subrange(0, i as int),
                    excluding_session_id,
                ),
            decreases n - i,
        {
            let m = &self.members[i];
            let ghost prefix = self@.subrange(0, i as int);
            let ghost next = self@.subrange(0, i + 1 as int);
            proof {
                assert(next.drop_last() =~= prefix);
                assert(next.last() == self@[i as int]);
            }
            match m.status {
                MemberStatus::Active => {
                    if m.session_id != excluding_session_id {
                        recipients.push(m.session_id);
                    }
                },
                _ => {},
            }
            i = i + 1;
        }
        proof {
            assert(self@.subrange(0, n as int) =~= self@);
            lemma_recipient_membership(self@, excluding_session_id, excluding_session_id);
        }
        recipients
    }

    /// The registered name of a session, when the session is known.
    pub fn member_name(&self, session_id: u128) -> (r: Option<String>)
        ensures
            match r {
                Some(name) => contains_session(self@, session_id) && name@ == self@[session_index(
                    self@,
                    session_id,
                )].name@,
                None => !contains_session(self@, session_id),
            },
    {
        match self.find_session(session_id) {
            Some(i) => Some(self.members[i].name.clone()),
            None => None,
        }
    }

    /// A member's session has ended: delete its record and, when it had been
    /// `Active`, plan the departure notice for the remaining members. A
    /// member that never went `Active` departs silently.
    pub fn remove_user_from_chat(&mut self, current_session_id: u128) -> (r: Result<
        Option<Broadcast>,
        RegistryError,
    >)
        ensures
            match r {
                Ok(plan) => spec_departure(old(self)@, final(self)@, current_session_id, plan),
                Err(e) => e == RegistryError::UnknownSessionId && !contains_session(
                    old(self)@,
                    current_session_id,
                ) && final(self)@ == old(self)@,
            },
    {
        let member = match self.remove_member(current_session_id) {
            Ok(m) => m,
            Err(e) => {
                return Err(e);
            },
        };
        match member.status {
            MemberStatus::Active => {
                let message = user_left_message_builder(&member.name);
                let recipients = self.broadcast_recipients(current_session_id);
                Ok(Some(Broadcast { message, recipients }))
            },
            _ => Ok(None),
        }
    }
}

} // verus!
