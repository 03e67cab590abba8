//! The session loop's decisions, once a member is `Active`: each line the
//! caller reads is either chat text to fan out, or — when it trims to
//! nothing, like a failed read — the end of the session.

use vstd::prelude::*;
use crate::messages::{spec_chat_message, user_chat_message_builder};
use crate::registration::{spec_trim_trailing, trim_trailing};
use crate::registry::{
    contains_session, session_index, spec_active_sessions_except, spec_departure, Broadcast,
    Registry, RegistryError,
};

verus! {

/// What one received line amounts to.
pub enum SessionOutcome {
    /// A chat line to deliver to every other active member.
    Message(Broadcast),
    /// The member departed; when it had been `Active`, the farewell fan-out
    /// to deliver.
    Departed(Option<Broadcast>),
}

/// Handle one line read from an active member's connection. A line with
/// text becomes a `[<name>] <text>` fan-out to every other active member —
/// never back to the sender — and the registry is untouched. A line that
/// trims to nothing is a protocol violation: the member departs exactly as
/// on a read failure, its record removed and its farewell planned.
pub fn handle_session_line(reg: &mut Registry, session_id: u128, line: &str) -> (r: Result<
    SessionOutcome,
    RegistryError,
>)
    ensures
        match r {
            Ok(outcome) => match outcome {
                SessionOutcome::Message(b) => {
                    let text = spec_trim_trailing(line@);
                    &&& text.len() > 0
                    &&& final(reg)@ == old(reg)@
                    &&& contains_session(old(reg)@, session_id)
                    &&& b.message@ == spec_chat_message(
                        old(reg)@[session_index(old(reg)@, session_id)].name@,
                        text,
                    )
                    &&& b.recipients@ == spec_active_sessions_except(old(reg)@, session_id)
                    &&& !b.recipients@.contains(session_id)
                },
                SessionOutcome::Departed(plan) => spec_trim_trailing(line@).len() == 0
                    && spec_departure(old(reg)@, final(reg)@, session_id, plan),
            },
            Err(e) => e == RegistryError::UnknownSessionId && !contains_session(
                old(reg)@,
                session_id,
            ) && final(reg)@ == old(reg)@,
        },
{
    let text = trim_trailing(line);
    if text.as_str().unicode_len() == 0 {
        match reg.remove_user_from_chat(session_id) {
            Ok(plan) => Ok(SessionOutcome::Departed(plan)),
            Err(e) => Err(e),
        }
    } else {
        let name = match reg.member_name(session_id) {
            Some(name) => name,
            None => {
                return Err(RegistryError::UnknownSessionId);
            },
        };
        let message = user_chat_message_builder(&name, text);
        let recipients = reg.broadcast_recipients(session_id);
        Ok(SessionOutcome::Message(Broadcast { message, recipients }))
    }
}

} // verus!
