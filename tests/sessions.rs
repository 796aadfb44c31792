use chat_core::user_context::{AddSessionResult, ApplicationScope};

fn name(s: &str) -> String {
    s.to_string()
}

#[test]
fn third_session_is_refused_and_handed_back() {
    let mut scope = ApplicationScope::new();
    assert!(matches!(
        scope.add_session_sender_if_not_exceeded(&name("ian"), 10, 2),
        AddSessionResult::Success
    ));
    assert!(matches!(
        scope.add_session_sender_if_not_exceeded(&name("ian"), 11, 2),
        AddSessionResult::Success
    ));
    match scope.add_session_sender_if_not_exceeded(&name("ian"), 12, 2) {
        AddSessionResult::TooManySessions { messages_sender } => assert_eq!(messages_sender, 12),
        AddSessionResult::Success => panic!("the third session was accepted"),
    }
    assert_eq!(scope.sessions_of(&name("ian")), vec![10, 11]);
}

#[test]
fn cap_is_per_user() {
    let mut scope = ApplicationScope::new();
    scope.add_session_sender_if_not_exceeded(&name("ian"), 1, 2);
    scope.add_session_sender_if_not_exceeded(&name("ian"), 2, 2);
    assert!(matches!(
        scope.add_session_sender_if_not_exceeded(&name("dan"), 3, 2),
        AddSessionResult::Success
    ));
    assert_eq!(scope.sessions_of(&name("dan")), vec![3]);
}

#[test]
fn same_session_twice_is_kept_once() {
    let mut scope = ApplicationScope::new();
    scope.add_session_sender_if_not_exceeded(&name("ian"), 7, 2);
    assert!(matches!(
        scope.add_session_sender_if_not_exceeded(&name("ian"), 7, 2),
        AddSessionResult::Success
    ));
    assert_eq!(scope.sessions_of(&name("ian")), vec![7]);
}

#[test]
fn removing_twice_is_the_same_as_once() {
    let mut scope = ApplicationScope::new();
    scope.add_session_sender_if_not_exceeded(&name("ian"), 1, 2);
    scope.add_session_sender_if_not_exceeded(&name("ian"), 2, 2);
    scope.add_session_sender_if_not_exceeded(&name("dan"), 3, 2);
    scope.remove_session_sender(&name("ian"), 1);
    assert_eq!(scope.sessions_of(&name("ian")), vec![2]);
    scope.remove_session_sender(&name("ian"), 1);
    assert_eq!(scope.sessions_of(&name("ian")), vec![2]);
    scope.remove_session_sender(&name("chris"), 1);
    assert_eq!(scope.sessions_of(&name("dan")), vec![3]);
    assert_eq!(scope.sessions_of(&name("chris")), Vec::<u64>::new());
}

#[test]
fn user_without_sessions_can_register_again() {
    let mut scope = ApplicationScope::new();
    scope.add_session_sender_if_not_exceeded(&name("ian"), 1, 2);
    scope.add_session_sender_if_not_exceeded(&name("ian"), 2, 2);
    scope.remove_session_sender(&name("ian"), 1);
    scope.remove_session_sender(&name("ian"), 2);
    assert!(scope.sessions_of(&name("ian")).is_empty());
    scope.add_session_sender_if_not_exceeded(&name("ian"), 3, 2);
    scope.add_session_sender_if_not_exceeded(&name("ian"), 4, 2);
    assert_eq!(scope.sessions_of(&name("ian")), vec![3, 4]);
}
