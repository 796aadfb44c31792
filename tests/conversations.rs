use chat_core::user_context::{ApplicationScope, SequenceError};

fn name(s: &str) -> String {
    s.to_string()
}

#[test]
fn ids_count_both_directions() {
    let mut scope = ApplicationScope::new();
    let a = scope.add_message_at(name("ian"), name("dan"), name("one"), 5);
    let b = scope.add_message_at(name("dan"), name("ian"), name("two"), 6);
    let c = scope.add_message_at(name("ian"), name("dan"), name("three"), 7);
    assert_eq!((a.id, b.id, c.id), (1, 2, 3));
    assert_eq!((a.server_time, b.server_time, c.server_time), (5, 6, 7));
    let other = scope.add_message_at(name("ian"), name("chris"), name("x"), 8);
    assert_eq!(other.id, 1);
}

#[test]
fn conversation_is_found_from_either_partner() {
    let mut scope = ApplicationScope::new();
    scope.add_message_at(name("ian"), name("dan"), name("hello"), 1);
    scope.add_message_at(name("dan"), name("ian"), name("hi"), 2);
    let one = scope.get_private_conversation(&name("ian"), &name("dan")).unwrap();
    let two = scope.get_private_conversation(&name("dan"), &name("ian")).unwrap();
    assert!(std::ptr::eq(one, two));
    assert_eq!(one.messages.len(), 2);
    assert_eq!(one.messages[0].content, "hello");
    assert!(!one.messages[0].is_sender_user1);
    assert!(one.messages[1].is_sender_user1);
    assert!(scope.get_private_conversation(&name("ian"), &name("chris")).is_none());
}

#[test]
fn message_received_now_is_stored() {
    let mut scope = ApplicationScope::new();
    let m = scope.add_message_to_private_conversation(name("ian"), name("dan"), name("hey"));
    assert_eq!(m.id, 1);
    let c = scope.get_private_conversation(&name("dan"), &name("ian")).unwrap();
    assert_eq!(c.messages[0].server_time, m.server_time);
    assert!(m.server_time > 0);
}

#[test]
fn sequence_handshake() {
    let mut scope = ApplicationScope::new();
    let r = scope.get_new_message_sequence(name("ian"), name("dan"));
    assert_eq!(r.sequence_id, 0);
    assert_eq!(r.receiver_username, "dan");
    assert_eq!(scope.approach_message_sequence(name("ian"), name("dan"), 0, 1), Ok(()));
    assert_eq!(
        scope.approach_message_sequence(name("ian"), name("dan"), 0, 1),
        Err(SequenceError::OutOfOrder { expected: 2, got: 1 })
    );
    assert_eq!(
        scope.approach_message_sequence(name("ian"), name("dan"), 0, 3),
        Err(SequenceError::OutOfOrder { expected: 2, got: 3 })
    );
    assert_eq!(scope.approach_message_sequence(name("ian"), name("dan"), 0, 2), Ok(()));
}

#[test]
fn directions_have_their_own_sequences() {
    let mut scope = ApplicationScope::new();
    assert_eq!(scope.get_new_message_sequence(name("ian"), name("dan")).sequence_id, 0);
    assert_eq!(scope.get_new_message_sequence(name("ian"), name("dan")).sequence_id, 1);
    assert_eq!(scope.get_new_message_sequence(name("dan"), name("ian")).sequence_id, 0);
    assert_eq!(
        scope.approach_message_sequence(name("dan"), name("ian"), 1, 1),
        Err(SequenceError::SequenceNotFound)
    );
    assert_eq!(scope.approach_message_sequence(name("ian"), name("dan"), 1, 1), Ok(()));
}

#[test]
fn unknown_sequences_are_not_found() {
    let mut scope = ApplicationScope::new();
    assert_eq!(
        scope.approach_message_sequence(name("ian"), name("dan"), 0, 1),
        Err(SequenceError::SequenceNotFound)
    );
    assert!(scope.get_private_conversation(&name("ian"), &name("dan")).is_none());
    scope.get_new_message_sequence(name("ian"), name("dan"));
    assert_eq!(
        scope.approach_message_sequence(name("ian"), name("dan"), 5, 1),
        Err(SequenceError::SequenceNotFound)
    );
}

#[test]
fn capacity_checks_on_a_fresh_state() {
    let scope = ApplicationScope::new();
    assert!(scope.can_add_message(&name("ian"), &name("dan")));
    assert!(scope.can_open_sequence(&name("ian"), &name("dan")));
}
