//! The registration state machine's decisions: trimming and validating the
//! requested name, and the two-phase join.
//!
//! The caller does the transport work in between: it sends the welcome
//! prompt, reads the name line, hands it to [`begin_registration`], sends
//! the roster line it gets back, and only then calls
//! [`complete_registration`] — so nobody hears of the newcomer before the
//! newcomer has its roster. If sending the roster fails, the caller removes
//! the member again and nothing was ever announced.

use vstd::prelude::*;
use crate::messages::{
    room_membership_message_builder, spec_joined_message, spec_room_contains_message,
    user_joined_message_builder,
};
use crate::registry::{
    contains_session, session_index, spec_active_names_except, spec_active_sessions_except,
    spec_set_status, Broadcast, Member, MemberStatus, Registry, RegistryError,
};

verus! {

/// Why a requested name was turned down.
#[derive(Clone, Copy, PartialEq, Eq, Structural, Debug)]
pub enum ValidationError {
    EmptyName,
    NonAlphanumericName,
}

/// Why a registration attempt failed short of any transport trouble.
#[derive(Clone, Copy, PartialEq, Eq, Structural, Debug)]
pub enum RegistrationError {
    EmptyName,
    NonAlphanumericName,
    DuplicateSessionId,
}

/// The characters a name may consist of. The transport is ASCII, so
/// "alphanumeric" means the ASCII letters and digits.
pub open spec fn spec_is_name_char(c: char) -> bool {
    (('a' as u32) <= (c as u32) && (c as u32) <= ('z' as u32)) || (('A' as u32) <= (c as u32) && (c
        as u32) <= ('Z' as u32)) || (('0' as u32) <= (c as u32) && (c as u32) <= ('9' as u32))
}

/// The whitespace stripped from the end of every received line.
pub open spec fn spec_is_line_ws(c: char) -> bool {
    c == ' ' || c == '\t' || c == '\r' || c == '\n'
}

/// `s` with its trailing whitespace and newline removed.
pub open spec fn spec_trim_trailing(s: Seq<char>) -> Seq<char>
    decreases s.len(),
{
    if s.len() == 0 {
        s
    } else if spec_is_line_ws(s.last()) {
        spec_trim_trailing(s.drop_last())
    } else {
        s
    }
}

/// A usable name: non-empty, every character alphanumeric.
pub open spec fn spec_valid_name(s: Seq<char>) -> bool {
    s.len() > 0 && forall|i: int| 0 <= i < s.len() ==> spec_is_name_char(s[i])
}

fn is_name_char(c: char) -> (r: bool)
    ensures
        r == spec_is_name_char(c),
{
    let u = c as u32;
    (97 <= u && u <= 122) || (65 <= u && u <= 90) || (48 <= u && u <= 57)
}

fn is_line_ws(c: char) -> (r: bool)
    ensures
        r == spec_is_line_ws(c),
{
    c == ' ' || c == '\t' || c == '\r' || c == '\n'
}

/// Strip trailing whitespace and the newline delimiter from one received
/// line.
pub fn trim_trailing(line: &str) -> (r: String)
    ensures
        r@ == spec_trim_trailing(line@),
{
    let n = line.unicode_len();
    proof {
        assert(line@.subrange(0, n as int) =~= line@);
    }
    let mut end: usize = n;
    while end > 0 && is_line_ws(line.get_char(end - 1))
        invariant
            end <= n,
            n == line@.len(),
            spec_trim_trailing(line@) == spec_trim_trailing(line@.subrange(0, end as int)),
        decreases end,
    {
        proof {
            let cur = line@.subrange(0, end as int);
            let prev = line@.subrange(0, end - 1);
            assert(cur.drop_last() =~= prev);
            assert(cur.last() == line@[end - 1]);
        }
        end = end - 1;
    }
    proof {
        let cur = line@.subrange(0, end as int);
        if end == 0 {
            assert(cur =~= Seq::<char>::empty());
        } else {
            assert(cur.last() == line@[end - 1]);
        }
    }
    line.substring_char(0, end).to_owned()
}

/// Validate one name line: trim it, and accept exactly the non-empty,
/// all-alphanumeric results. A rejected line leads to the connection being
/// closed with nothing announced and nothing recorded.
pub fn validate_name(line: &str) -> (r: Result<String, ValidationError>)
    ensures
        match r {
            Ok(name) => name@ == spec_trim_trailing(line@) && spec_valid_name(name@),
            Err(ValidationError::EmptyName) => spec_trim_trailing(line@).len() == 0,
            Err(ValidationError::NonAlphanumericName) => spec_trim_trailing(line@).len() > 0
                && !spec_valid_name(spec_trim_trailing(line@)),
        },
{
    let trimmed = trim_trailing(line);
    let n = trimmed.as_str().unicode_len();
    if n == 0 {
        return Err(ValidationError::EmptyName);
    }
    let mut i: usize = 0;
    while i < n
        invariant
            i <= n,
            n == trimmed@.len(),
            trimmed@ == spec_trim_trailing(line@),
            forall|j: int| 0 <= j < i ==> spec_is_name_char(trimmed@[j]),
        decreases n - i,
    {
        if !is_name_char(trimmed.as_str().get_char(i)) {
            proof {
                assert(!spec_is_name_char(trimmed@[i as int]));
            }
            return Err(ValidationError::NonAlphanumericName);
        }
        i = i + 1;
    }
    Ok(trimmed)
}

/// The first half of the join: validate the name line and, when it passes
/// and the session is new, record the member as `Connecting` and build the
/// roster line owed to it — the names `Active` right now, with the joiner
/// itself never among them. On any rejection the registry is
/// exactly as it was, so a rejected name can never appear in anyone's
/// roster or announcements.
pub fn begin_registration(reg: &mut Registry, session_id: u128, line: &str) -> (r: Result<
    String,
    RegistrationError,
>)
    ensures
        match r {
            Ok(roster) => {
                &&& spec_valid_name(spec_trim_trailing(line@))
                &&& !contains_session(old(reg)@, session_id)
                &&& final(reg)@.len() == old(reg)@.len() + 1
                &&& final(reg)@.drop_last() == old(reg)@
                &&& final(reg)@.last().session_id == session_id
                &&& final(reg)@.last().name@ == spec_trim_trailing(line@)
                &&& final(reg)@.last().status is Connecting
                &&& roster@ == spec_room_contains_message(
                    spec_active_names_except(final(reg)@, session_id),
                )
            },
            Err(RegistrationError::EmptyName) => final(reg)@ == old(reg)@ && spec_trim_trailing(
                line@,
            ).len() == 0,
            Err(RegistrationError::NonAlphanumericName) => final(reg)@ == old(reg)@
                && spec_trim_trailing(line@).len() > 0 && !spec_valid_name(
                spec_trim_trailing(line@),
            ),
            Err(RegistrationError::DuplicateSessionId) => final(reg)@ == old(reg)@
                && spec_valid_name(spec_trim_trailing(line@)) && contains_session(
                old(reg)@,
                session_id,
            ),
        },
{
    let name = match validate_name(line) {
        Ok(name) => name,
        Err(ValidationError::EmptyName) => {
            return Err(RegistrationError::EmptyName);
        },
        Err(ValidationError::NonAlphanumericName) => {
            return Err(RegistrationError::NonAlphanumericName);
        },
    };
    let member = Member { session_id, name, status: MemberStatus::Connecting };
    match reg.add_new_member(member) {
        Ok(()) => {},
        Err(_) => {
            return Err(RegistrationError::DuplicateSessionId);
        },
    }
    proof {
        assert(reg@.drop_last() =~= old(reg)@);
    }
    let names = reg.get_current_member_names(session_id);
    let roster = room_membership_message_builder(&names);
    Ok(roster)
}

/// The second half of the join, once the roster has reached the member: it
/// turns `Active` and its arrival is announced to every other active
/// member — never to itself.
pub fn complete_registration(reg: &mut Registry, session_id: u128) -> (r: Result<
    Broadcast,
    RegistryError,
>)
    ensures
        match r {
            Ok(b) => {
                &&& contains_session(old(reg)@, session_id)
                &&& final(reg)@ == spec_set_status(old(reg)@, session_id, MemberStatus::Active)
                &&& b.message@ == spec_joined_message(
                    old(reg)@[session_index(old(reg)@, session_id)].name@,
                )
                &&& b.recipients@ == spec_active_sessions_except(final(reg)@, session_id)
                &&& !b.recipients@.contains(session_id)
            },
            Err(e) => e == RegistryError::UnknownSessionId && !contains_session(
                old(reg)@,
                session_id,
            ) && final(reg)@ == old(reg)@,
        },
{
    let name = match reg.member_name(session_id) {
        Some(name) => name,
        None => {
            return Err(RegistryError::UnknownSessionId);
        },
    };
    match reg.set_active(session_id) {
        Ok(()) => {},
        Err(e) => {
            return Err(e);
        },
    }
    let message = user_joined_message_builder(&name);
    let recipients = reg.broadcast_recipients(session_id);
    Ok(Broadcast { message, recipients })
}

} // verus!
