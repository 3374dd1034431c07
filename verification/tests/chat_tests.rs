use protohackers::budget_chat::{
    clone_message, greeting, process_chat_line, process_name_line, render_message, send_to_room,
    validate_name, FirstLine, Message, MessageContent, NameOutcome, Room,
};

fn joined_room(names: &[&str]) -> Room {
    let mut room = Room::new();
    for n in names {
        assert!(room.join(&n.to_string()));
    }
    room
}

fn rendered_mailbox(room: &mut Room, name: &str) -> Vec<String> {
    room.take_mailbox(&name.to_string())
        .iter()
        .map(render_message)
        .collect()
}

#[test]
fn name_validation() {
    assert!(validate_name("alice"));
    assert!(validate_name("bob99"));
    assert!(validate_name("X"));
    assert!(!validate_name(""));
    assert!(!validate_name("al ice"));
    assert!(!validate_name("alice!"));
    assert!(!validate_name("caf\u{e9}"));
}

#[test]
fn second_join_under_same_name_is_refused() {
    let mut room = Room::new();
    assert!(room.join(&"alice".to_string()));
    assert!(!room.join(&"alice".to_string()));
    assert_eq!(room.len(), 1);
    assert!(room.contains(&"alice".to_string()));
}

#[test]
fn text_reaches_everyone_but_the_sender() {
    let mut room = joined_room(&["alice", "bob", "carol"]);
    // clear the join-time traffic
    rendered_mailbox(&mut room, "alice");
    rendered_mailbox(&mut room, "bob");
    rendered_mailbox(&mut room, "carol");

    send_to_room(
        &mut room,
        Message { from: "bob".to_string(), content: MessageContent::Message("hi".to_string()) },
    );
    assert_eq!(rendered_mailbox(&mut room, "alice"), vec!["[bob] hi\n".to_string()]);
    assert_eq!(rendered_mailbox(&mut room, "carol"), vec!["[bob] hi\n".to_string()]);
    assert_eq!(rendered_mailbox(&mut room, "bob"), Vec::<String>::new());
}

#[test]
fn roster_snapshot_is_taken_at_registration() {
    let mut room = joined_room(&["alice", "bob"]);
    // carol joins after bob: she must not leak into bob's snapshot
    assert!(room.join(&"carol".to_string()));
    let bob_mail = rendered_mailbox(&mut room, "bob");
    assert_eq!(bob_mail[0], "* The room contains: alice\n");
    // bob also heard carol arrive
    assert_eq!(bob_mail[1], "* carol joined\n");
    // the first joiner saw an empty room
    let alice_mail = rendered_mailbox(&mut room, "alice");
    assert_eq!(alice_mail[0], "* The room contains: \n");
    // carol's snapshot lists the two present at her registration
    let carol_mail = rendered_mailbox(&mut room, "carol");
    assert_eq!(carol_mail[0], "* The room contains: alice, bob\n");
}

#[test]
fn departure_announces_and_frees_the_name() {
    let mut room = joined_room(&["alice", "bob"]);
    rendered_mailbox(&mut room, "alice");
    rendered_mailbox(&mut room, "bob");
    room.depart(&"bob".to_string());
    assert!(!room.contains(&"bob".to_string()));
    assert_eq!(rendered_mailbox(&mut room, "alice"), vec!["* bob left\n".to_string()]);
    // the name is immediately available for reuse
    assert!(room.join(&"bob".to_string()));
    assert_eq!(room.len(), 2);
}

#[test]
fn greeting_line() {
    assert_eq!(greeting(), "Name pls:\n");
}

#[test]
fn naming_phase_outcomes() {
    let mut room = Room::new();
    assert!(matches!(process_name_line(&mut room, &FirstLine::NoLine), NameOutcome::Silent));
    match process_name_line(&mut room, &FirstLine::ReadError) {
        NameOutcome::Refused(msg) => assert_eq!(msg, "Shoulda said a name."),
        _ => panic!("a read error must be refused"),
    }
    match process_name_line(&mut room, &FirstLine::Line("not valid!".to_string())) {
        NameOutcome::Refused(msg) => assert_eq!(msg, "Name must be alphanumeric."),
        _ => panic!("a bad name must be refused"),
    }
    match process_name_line(&mut room, &FirstLine::Line("".to_string())) {
        NameOutcome::Refused(msg) => assert_eq!(msg, "Name must be alphanumeric."),
        _ => panic!("an empty name must be refused"),
    }
    assert!(matches!(
        process_name_line(&mut room, &FirstLine::Line("alice".to_string())),
        NameOutcome::Accepted
    ));
    match process_name_line(&mut room, &FirstLine::Line("alice".to_string())) {
        NameOutcome::Refused(msg) => assert_eq!(msg, "Name already taken."),
        _ => panic!("a taken name must be refused"),
    }
    assert_eq!(room.len(), 1);
}

#[test]
fn blank_lines_are_ignored() {
    let mut room = joined_room(&["alice", "bob"]);
    rendered_mailbox(&mut room, "alice");
    rendered_mailbox(&mut room, "bob");
    process_chat_line(&mut room, &"bob".to_string(), "".to_string());
    assert_eq!(rendered_mailbox(&mut room, "alice"), Vec::<String>::new());
    process_chat_line(&mut room, &"bob".to_string(), "hello there".to_string());
    assert_eq!(rendered_mailbox(&mut room, "alice"), vec!["[bob] hello there\n".to_string()]);
}

#[test]
fn rendering_every_message_kind() {
    let joined = Message { from: "dave".to_string(), content: MessageContent::Joined };
    assert_eq!(render_message(&joined), "* dave joined\n");
    let left = Message { from: "dave".to_string(), content: MessageContent::Left };
    assert_eq!(render_message(&left), "* dave left\n");
    let text = Message {
        from: "dave".to_string(),
        content: MessageContent::Message("a line".to_string()),
    };
    assert_eq!(render_message(&text), "[dave] a line\n");
    let roster = Message {
        from: "dave".to_string(),
        content: MessageContent::UserList(vec!["a".to_string(), "b".to_string(), "c".to_string()]),
    };
    assert_eq!(render_message(&roster), "* The room contains: a, b, c\n");
    let copy = clone_message(&text);
    assert_eq!(render_message(&copy), "[dave] a line\n");
}

#[test]
fn delivery_keeps_send_order_per_recipient() {
    let mut room = joined_room(&["alice", "bob"]);
    rendered_mailbox(&mut room, "alice");
    rendered_mailbox(&mut room, "bob");
    process_chat_line(&mut room, &"bob".to_string(), "first".to_string());
    process_chat_line(&mut room, &"bob".to_string(), "second".to_string());
    assert_eq!(
        rendered_mailbox(&mut room, "alice"),
        vec!["[bob] first\n".to_string(), "[bob] second\n".to_string()]
    );
}

#[test]
fn taking_a_mailbox_empties_it() {
    let mut room = joined_room(&["alice"]);
    assert_eq!(room.take_mailbox(&"alice".to_string()).len(), 1);
    assert_eq!(room.take_mailbox(&"alice".to_string()).len(), 0);
    assert_eq!(room.take_mailbox(&"nobody".to_string()).len(), 0);
}
