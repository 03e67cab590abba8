//! The literal protocol lines the server sends, built exactly as stated.

use vstd::prelude::*;

verus! {

/// The prompt sent on every new connection, before anything else.
pub open spec fn spec_welcome_message() -> Seq<char> {
    "Welcome to budgetchat! What shall I call you?"@
}

/// The line announcing a newly registered member to the others.
pub open spec fn spec_joined_message(name: Seq<char>) -> Seq<char> {
    "* "@ + name + " has entered the room"@
}

/// The line announcing a departed member to the others.
pub open spec fn spec_left_message(name: Seq<char>) -> Seq<char> {
    "* "@ + name + " has left the room"@
}

/// The line carrying one member's chat text to the others.
pub open spec fn spec_chat_message(name: Seq<char>, message: Seq<char>) -> Seq<char> {
    "["@ + name + "] "@ + message
}

/// Names joined by a comma and a space, in order; empty when there are none.
pub open spec fn spec_comma_join(names: Seq<Seq<char>>) -> Seq<char>
    decreases names.len(),
{
    if names.len() == 0 {
        Seq::<char>::empty()
    } else if names.len() == 1 {
        names[0]
    } else {
        spec_comma_join(names.drop_last()) + ", "@ + names.last()
    }
}

/// The roster line sent to a member right after it registers.
pub open spec fn spec_room_contains_message(names: Seq<Seq<char>>) -> Seq<char> {
    "* The room contains: "@ + spec_comma_join(names)
}

pub fn welcome_message() -> (r: String)
    ensures
        r@ == spec_welcome_message(),
{
    String::from_str("Welcome to budgetchat! What shall I call you?")
}

pub fn user_joined_message_builder(name: &String) -> (r: String)
    ensures
        r@ == spec_joined_message(name@),
{
    let mut r = String::from_str("* ");
    r.append(name.as_str());
    r.append(" has entered the room");
    r
}

pub fn user_left_message_builder(name: &String) -> (r: String)
    ensures
        r@ == spec_left_message(name@),
{
    let mut r = String::from_str("* ");
    r.append(name.as_str());
    r.append(" has left the room");
    r
}

pub fn user_chat_message_builder(current_user_name: &String, message: String) -> (r: String)
    ensures
        r@ == spec_chat_message(current_user_name@, message@),
{
    let mut r = String::from_str("[");
    r.append(current_user_name.as_str());
    r.append("] ");
    r.append(message.as_str());
    r
}

/// The roster line for the given names; the registry has already left the
/// joiner itself out, by session id, so every name given here appears.
pub fn room_membership_message_builder(chat_member_names: &Vec<String>) -> (r: String)
    ensures
        r@ == spec_room_contains_message(chat_member_names.deep_view()),
{
    let ghost all_names: Seq<Seq<char>> = chat_member_names.deep_view();
    let mut joined = String::new();
    let mut i: usize = 0;
    while i < chat_member_names.len()
        invariant
            i <= chat_member_names.len(),
            all_names == chat_member_names.deep_view(),
            joined@ == spec_comma_join(all_names.subrange(0, i as int)),
        decreases chat_member_names.len() - i,
    {
        if i > 0 {
            joined.append(", ");
        }
        joined.append(chat_member_names[i].as_str());
        proof {
            let prefix = all_names.subrange(0, i as int);
            let next = all_names.subrange(0, i + 1 as int);
            assert(next.drop_last() =~= prefix);
            assert(next.last() == all_names[i as int]);
            if i == 0 {
                assert(spec_comma_join(next) == all_names[0]);
            }
        }
        i = i + 1;
    }
    proof {
        assert(all_names.subrange(0, chat_member_names.len() as int) =~= all_names);
    }
    let mut r = String::from_str("* The room contains: ");
    r.append(joined.as_str());
    r
}

} // verus!
