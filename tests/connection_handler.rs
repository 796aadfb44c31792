use chat_core::connection_handler::{
    describe_sequence_error, fan_out, handle_connection_command, CommandEffect,
    ConnectionCommand, MessageSequencePosition, CONVERSATION_FULL_NOTICE,
    MAXIMUM_SESSIONS_PER_USER, TOO_MANY_SESSIONS_NOTICE,
};
use chat_core::user_context::{ApplicationScope, SequenceError};

fn name(s: &str) -> String {
    s.to_string()
}

fn assign(scope: &mut ApplicationScope, user: &str, session: u64) -> Vec<CommandEffect> {
    handle_connection_command(
        scope,
        ConnectionCommand::AssignConnectionToUser { username: name(user), messages_sender: session },
        0,
    )
}

fn send(
    scope: &mut ApplicationScope,
    from: &str,
    session: u64,
    to: &str,
    content: &str,
    position: Option<(u32, u32)>,
) -> Vec<CommandEffect> {
    handle_connection_command(
        scope,
        ConnectionCommand::SendMessageToAnotherUser {
            sender_username: name(from),
            receiver_username: name(to),
            content: name(content),
            message_sequence: position.map(|(id, index)| MessageSequencePosition {
                message_sequence_id: id,
                message_sequence_index: index,
            }),
            messages_sender: session,
        },
        1_000,
    )
}

fn json(text: &str) -> serde_json::Value {
    serde_json::from_str(text).unwrap()
}

#[test]
fn message_reaches_the_receivers_session() {
    let mut scope = ApplicationScope::new();
    assert!(assign(&mut scope, "A", 1).is_empty());
    assert!(assign(&mut scope, "B", 2).is_empty());
    let effects = send(&mut scope, "A", 1, "B", "hi", None);
    assert_eq!(effects.len(), 1);
    match &effects[0] {
        CommandEffect::SendText { session, text } => {
            assert_eq!(*session, 2);
            let v = json(text);
            assert_eq!(v["sender_username"], "A");
            assert_eq!(v["content"], "hi");
            assert_eq!(v["id"], 1);
            assert_eq!(v["subject"], "message");
            assert_eq!(v["datetime"], "1970-01-01 00:00:01 UTC");
        }
        _ => panic!("expected a delivery"),
    }
}

#[test]
fn message_to_an_offline_user_is_still_stored() {
    let mut scope = ApplicationScope::new();
    assign(&mut scope, "A", 1);
    let effects = send(&mut scope, "A", 1, "C", "anyone?", None);
    assert_eq!(effects.len(), 1);
    match &effects[0] {
        CommandEffect::ReceiverOffline { receiver_username } => assert_eq!(receiver_username, "C"),
        _ => panic!("expected the receiver to be offline"),
    }
    let c = scope.get_private_conversation(&name("A"), &name("C")).unwrap();
    assert_eq!(c.messages.len(), 1);
    assert_eq!(c.messages[0].content, "anyone?");
}

#[test]
fn message_reaches_every_session_of_the_receiver() {
    let mut scope = ApplicationScope::new();
    assign(&mut scope, "B", 5);
    assign(&mut scope, "B", 6);
    let effects = send(&mut scope, "A", 1, "B", "both", None);
    let sessions: Vec<u64> = effects
        .iter()
        .map(|e| match e {
            CommandEffect::SendText { session, .. } => *session,
            _ => panic!("expected deliveries only"),
        })
        .collect();
    assert_eq!(sessions, vec![5, 6]);
}

#[test]
fn sequenced_messages_arrive_in_order_and_a_repeat_is_refused() {
    let mut scope = ApplicationScope::new();
    assign(&mut scope, "A", 1);
    assign(&mut scope, "B", 2);
    let effects = handle_connection_command(
        &mut scope,
        ConnectionCommand::InitiateNewPrivateMessageSequence {
            sender_username: name("A"),
            receiver_username: name("B"),
            messages_sender: 1,
        },
        0,
    );
    assert_eq!(effects.len(), 1);
    match &effects[0] {
        CommandEffect::SendText { session, text } => {
            assert_eq!(*session, 1);
            assert_eq!(
                text,
                "{\"receiver_username\":\"B\",\"sequence_id\":0,\"subject\":\"new-private-message-sequence\"}"
            );
        }
        _ => panic!("expected the sequence id"),
    }
    let mut delivered = Vec::new();
    for (index, content) in [(1, "hello"), (2, "are you there?")] {
        let effects = send(&mut scope, "A", 1, "B", content, Some((0, index)));
        assert_eq!(effects.len(), 1);
        match &effects[0] {
            CommandEffect::SendText { session: 2, text } => {
                delivered.push(json(text)["content"].as_str().unwrap().to_string())
            }
            _ => panic!("expected a delivery to B"),
        }
    }
    assert_eq!(delivered, vec!["hello", "are you there?"]);
    let effects = send(&mut scope, "A", 1, "B", "are you there?", Some((0, 2)));
    assert_eq!(effects.len(), 1);
    match &effects[0] {
        CommandEffect::SendText { session, text } => {
            assert_eq!(*session, 1);
            assert_eq!(text, "another index for the sequence with id 0 expected: 3, got: 2");
        }
        _ => panic!("expected the refusal to go back to A"),
    }
    let c = scope.get_private_conversation(&name("A"), &name("B")).unwrap();
    assert_eq!(c.messages.len(), 2);
}

#[test]
fn message_on_an_unknown_sequence_is_dropped() {
    let mut scope = ApplicationScope::new();
    assign(&mut scope, "B", 2);
    let effects = send(&mut scope, "A", 1, "B", "lost", Some((4, 1)));
    assert_eq!(effects.len(), 1);
    match &effects[0] {
        CommandEffect::SendText { session, text } => {
            assert_eq!(*session, 1);
            assert_eq!(text, "the sequence with id 4 does not exist");
        }
        _ => panic!("expected the refusal to go back to A"),
    }
    assert!(scope.get_private_conversation(&name("A"), &name("B")).is_none());
}

#[test]
fn session_over_the_cap_is_told_and_closed() {
    let mut scope = ApplicationScope::new();
    assert_eq!(MAXIMUM_SESSIONS_PER_USER, 2);
    assign(&mut scope, "A", 1);
    assign(&mut scope, "A", 2);
    let effects = assign(&mut scope, "A", 3);
    assert_eq!(effects.len(), 2);
    match &effects[0] {
        CommandEffect::SendText { session: 3, text } => assert_eq!(text, TOO_MANY_SESSIONS_NOTICE),
        _ => panic!("expected the notice to the refused session"),
    }
    assert!(matches!(effects[1], CommandEffect::Close { session: 3 }));
    assert_eq!(scope.sessions_of(&name("A")), vec![1, 2]);
}

#[test]
fn unassigned_session_gets_nothing_more() {
    let mut scope = ApplicationScope::new();
    assign(&mut scope, "B", 2);
    let effects = handle_connection_command(
        &mut scope,
        ConnectionCommand::UnassignConnectionFromUser { username: name("B"), messages_sender: 2 },
        0,
    );
    assert!(effects.is_empty());
    let effects = send(&mut scope, "A", 1, "B", "gone?", None);
    assert!(matches!(effects[0], CommandEffect::ReceiverOffline { .. }));
}

#[test]
fn sequence_errors_are_described() {
    assert_eq!(
        describe_sequence_error(7, SequenceError::SequenceNotFound),
        "the sequence with id 7 does not exist"
    );
    assert_eq!(
        describe_sequence_error(0, SequenceError::OutOfOrder { expected: 2, got: 3 }),
        "another index for the sequence with id 0 expected: 2, got: 3"
    );
}

#[test]
fn fan_out_to_nobody_says_offline() {
    let effects = fan_out(&vec![], &name("x"), name("C"));
    assert_eq!(effects.len(), 1);
    assert!(matches!(&effects[0], CommandEffect::ReceiverOffline { receiver_username } if receiver_username == "C"));
    assert!(!CONVERSATION_FULL_NOTICE.is_empty());
}
