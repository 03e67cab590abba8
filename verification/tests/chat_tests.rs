use budget_chat::messages::{
    room_membership_message_builder, user_chat_message_builder, user_joined_message_builder,
    user_left_message_builder, welcome_message,
};
use budget_chat::registration::{
    begin_registration, complete_registration, validate_name, RegistrationError, ValidationError,
};
use budget_chat::registry::{Member, MemberStatus, Registry, RegistryError};
use budget_chat::session::{handle_session_line, SessionOutcome};

const ALICE: u128 = 1;
const BOB: u128 = 2;
const CAROL: u128 = 3;

/// Register a session fully: name line in, roster out, then activation.
fn register(reg: &mut Registry, sid: u128, line: &str) -> (String, String, Vec<u128>) {
    let roster = begin_registration(reg, sid, line).expect("registration should succeed");
    let join = complete_registration(reg, sid).expect("activation should succeed");
    (roster, join.message, join.recipients)
}

#[test]
fn welcome_prompt_is_exact() {
    assert_eq!(
        welcome_message(),
        "Welcome to budgetchat! What shall I call you?"
    );
}

#[test]
fn message_builders_are_exact() {
    let name = String::from("alice");
    assert_eq!(
        user_joined_message_builder(&name),
        "* alice has entered the room"
    );
    assert_eq!(
        user_left_message_builder(&name),
        "* alice has left the room"
    );
    assert_eq!(
        user_chat_message_builder(&name, String::from("hi")),
        "[alice] hi"
    );
}

#[test]
fn roster_message_joins_names() {
    assert_eq!(room_membership_message_builder(&vec![]), "* The room contains: ");
    assert_eq!(
        room_membership_message_builder(&vec![String::from("alice")]),
        "* The room contains: alice"
    );
    assert_eq!(
        room_membership_message_builder(&vec![String::from("alice"), String::from("bob")]),
        "* The room contains: alice, bob"
    );
}

#[test]
fn valid_names_pass_with_trailing_whitespace_trimmed() {
    assert_eq!(validate_name("alice\n").unwrap(), "alice");
    assert_eq!(validate_name("Bob42\r\n").unwrap(), "Bob42");
    assert_eq!(validate_name("x").unwrap(), "x");
}

#[test]
fn empty_name_is_rejected() {
    assert!(matches!(validate_name(""), Err(ValidationError::EmptyName)));
    assert!(matches!(validate_name(" \n"), Err(ValidationError::EmptyName)));
}

#[test]
fn non_alphanumeric_name_is_rejected() {
    assert!(matches!(
        validate_name("bob!\n"),
        Err(ValidationError::NonAlphanumericName)
    ));
    assert!(matches!(
        validate_name("two words"),
        Err(ValidationError::NonAlphanumericName)
    ));
}

#[test]
fn rejected_name_never_appears_anywhere() {
    let mut reg = Registry::new();
    register(&mut reg, ALICE, "alice\n");
    let (_, join_msg, join_rcpts) = register(&mut reg, BOB, "bob\n");
    assert_eq!(join_msg, "* bob has entered the room");
    assert_eq!(join_rcpts, vec![ALICE]);

    // An invalid name closes the connection with nothing recorded.
    assert!(matches!(
        begin_registration(&mut reg, CAROL, "bob!\n"),
        Err(RegistrationError::NonAlphanumericName)
    ));
    assert!(matches!(
        begin_registration(&mut reg, CAROL, "\n"),
        Err(RegistrationError::EmptyName)
    ));

    // The next joiner's roster shows only the two real members.
    let (roster, _, _) = register(&mut reg, CAROL, "carol\n");
    assert_eq!(roster, "* The room contains: alice, bob");
}

#[test]
fn duplicate_session_id_is_an_invariant_violation() {
    let mut reg = Registry::new();
    register(&mut reg, ALICE, "alice\n");
    assert!(matches!(
        begin_registration(&mut reg, ALICE, "alias\n"),
        Err(RegistrationError::DuplicateSessionId)
    ));
    let err = reg
        .add_new_member(Member {
            session_id: ALICE,
            name: String::from("alias"),
            status: MemberStatus::Connecting,
        })
        .unwrap_err();
    assert_eq!(err, RegistryError::DuplicateSessionId);
}

#[test]
fn removing_an_unknown_session_is_reported() {
    let mut reg = Registry::new();
    assert_eq!(
        reg.remove_user_from_chat(ALICE).unwrap_err(),
        RegistryError::UnknownSessionId
    );
}

#[test]
fn join_then_leave_reaches_each_observer_once_in_order() {
    let mut reg = Registry::new();
    register(&mut reg, ALICE, "alice\n");
    register(&mut reg, CAROL, "carol\n");

    // Bob registers, sends nothing, and disconnects.
    let (_, join_msg, join_rcpts) = register(&mut reg, BOB, "bob\n");
    let farewell = reg
        .remove_user_from_chat(BOB)
        .unwrap()
        .expect("an active member departs loudly");

    assert_eq!(join_msg, "* bob has entered the room");
    assert_eq!(join_rcpts, vec![ALICE, CAROL]);
    assert_eq!(farewell.message, "* bob has left the room");
    assert_eq!(farewell.recipients, vec![ALICE, CAROL]);
}

#[test]
fn a_member_never_receives_its_own_broadcast() {
    let mut reg = Registry::new();
    register(&mut reg, ALICE, "alice\n");
    register(&mut reg, BOB, "bob\n");
    assert!(!reg.broadcast_recipients(ALICE).contains(&ALICE));
    assert!(!reg.broadcast_recipients(BOB).contains(&BOB));
    match handle_session_line(&mut reg, ALICE, "hi\n").unwrap() {
        SessionOutcome::Message(b) => assert!(!b.recipients.contains(&ALICE)),
        SessionOutcome::Departed(_) => panic!("a chat line is not a departure"),
    }
}

#[test]
fn roster_lists_exactly_the_active_members() {
    let mut reg = Registry::new();
    register(&mut reg, ALICE, "alice\n");

    // Bob has begun registering but is not active yet.
    begin_registration(&mut reg, BOB, "bob\n").unwrap();
    let names = reg.get_current_member_names(CAROL);
    assert_eq!(names, vec![String::from("alice")]);

    // Once bob is active he appears; the joiner itself never does.
    complete_registration(&mut reg, BOB).unwrap();
    assert_eq!(
        reg.get_current_member_names(CAROL),
        vec![String::from("alice"), String::from("bob")]
    );
    assert_eq!(reg.get_current_member_names(BOB), vec![String::from("alice")]);
}

#[test]
fn write_failure_is_isolated_to_one_recipient() {
    let mut reg = Registry::new();
    register(&mut reg, ALICE, "alice\n");
    register(&mut reg, BOB, "bob\n");
    register(&mut reg, CAROL, "carol\n");

    // Alice broadcasts; the plan covers bob and carol.
    let recipients = reg.broadcast_recipients(ALICE);
    assert_eq!(recipients, vec![BOB, CAROL]);

    // The write to bob fails mid-fan-out. The plan is unchanged, so carol's
    // delivery still happens, and only bob drops out of later fan-outs.
    reg.mark_write_failed(BOB);
    assert_eq!(recipients, vec![BOB, CAROL]);
    assert_eq!(reg.broadcast_recipients(ALICE), vec![CAROL]);
    assert_eq!(reg.get_current_member_names(ALICE), vec![String::from("carol")]);
}

#[test]
fn distinct_sessions_never_collide() {
    let mut reg = Registry::new();
    let sids: Vec<u128> = (1..=8).collect();
    for sid in &sids {
        let member = Member {
            session_id: *sid,
            name: format!("user{}", sid),
            status: MemberStatus::Active,
        };
        reg.add_new_member(member).unwrap();
    }
    for sid in &sids {
        let name = reg.member_name(*sid).expect("every entry is present");
        assert_eq!(name, format!("user{}", sid));
    }
    assert_eq!(reg.broadcast_recipients(0).len(), sids.len());
}

#[test]
fn empty_line_mid_session_is_a_departure() {
    let mut reg = Registry::new();
    register(&mut reg, ALICE, "alice\n");
    register(&mut reg, BOB, "bob\n");
    match handle_session_line(&mut reg, BOB, "\n").unwrap() {
        SessionOutcome::Departed(Some(farewell)) => {
            assert_eq!(farewell.message, "* bob has left the room");
            assert_eq!(farewell.recipients, vec![ALICE]);
        }
        _ => panic!("an empty line departs an active member loudly"),
    }
    assert!(reg.member_name(BOB).is_none());
}

#[test]
fn failed_roster_send_departs_silently() {
    let mut reg = Registry::new();
    register(&mut reg, ALICE, "alice\n");

    // Bob's roster line cannot be written, so bob is removed before ever
    // turning active: no farewell, and alice never hears of bob.
    begin_registration(&mut reg, BOB, "bob\n").unwrap();
    let plan = reg.remove_user_from_chat(BOB).unwrap();
    assert!(plan.is_none());
    let (roster, _, _) = register(&mut reg, CAROL, "carol\n");
    assert_eq!(roster, "* The room contains: alice");
}

#[test]
fn end_to_end_scenario() {
    let mut reg = Registry::new();

    let (roster_a, _, join_a) = register(&mut reg, ALICE, "alice\n");
    assert_eq!(roster_a, "* The room contains: ");
    assert_eq!(join_a, Vec::<u128>::new());

    let (roster_b, join_msg_b, join_b) = register(&mut reg, BOB, "bob\n");
    assert_eq!(roster_b, "* The room contains: alice");
    assert_eq!(join_msg_b, "* bob has entered the room");
    assert_eq!(join_b, vec![ALICE]);

    let (roster_c, join_msg_c, join_c) = register(&mut reg, CAROL, "carol\n");
    assert_eq!(roster_c, "* The room contains: alice, bob");
    assert_eq!(join_msg_c, "* carol has entered the room");
    assert_eq!(join_c, vec![ALICE, BOB]);

    match handle_session_line(&mut reg, ALICE, "hi\n").unwrap() {
        SessionOutcome::Message(b) => {
            assert_eq!(b.message, "[alice] hi");
            assert_eq!(b.recipients, vec![BOB, CAROL]);
        }
        SessionOutcome::Departed(_) => panic!("a chat line is not a departure"),
    }

    let farewell = reg.remove_user_from_chat(BOB).unwrap().unwrap();
    assert_eq!(farewell.message, "* bob has left the room");
    assert_eq!(farewell.recipients, vec![ALICE, CAROL]);
}
