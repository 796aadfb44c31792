use chat_core::dto::{
    prepare_login_request, prepare_message_request, prepare_sequence_request, LoginCredentials,
    MessageFromSomeone, NewPrivateMessageSequenceRequest,
};
use chat_core::simple_client::{
    AppState, ClientAction, SimpleClient, StateChange, INVALID_USERNAME_PROMPT, PASSWORD_PROMPT,
    RECEIVER_PROMPT, TEXT_PROMPT, USERNAME_AGAIN_PROMPT, WAIT_FOR_AUTHORIZATION,
};

fn line(s: &str) -> StateChange {
    StateChange::NewReadlineMessage { message: s.to_string() }
}

fn from_server(s: &str, sequence_id: Option<u32>) -> StateChange {
    StateChange::NewWebSocketMessage { message: s.to_string(), sequence_id }
}

fn sent(actions: &[ClientAction]) -> Vec<String> {
    actions
        .iter()
        .filter_map(|a| match a {
            ClientAction::SendToServer { text } => Some(text.clone()),
            _ => None,
        })
        .collect()
}

fn prompts(actions: &[ClientAction]) -> Vec<String> {
    actions
        .iter()
        .filter_map(|a| match a {
            ClientAction::Prompt { text } => Some(text.clone()),
            _ => None,
        })
        .collect()
}

#[test]
fn client_dialogue_from_login_to_message() {
    let mut c = SimpleClient::new();
    let a = c.step(line("ian"));
    assert_eq!(prompts(&a), vec![PASSWORD_PROMPT]);
    assert!(matches!(&c.app_state, AppState::WaitingForPassword { username } if username == "ian"));

    let a = c.step(line("secret"));
    assert_eq!(sent(&a), vec!["{\"login\":\"ian\",\"password\":\"secret\",\"subject\":\"authenticate\"}"]);
    assert!(matches!(c.app_state, AppState::WaitingForServerAuthorizationResponse));

    let a = c.step(line("too early"));
    assert!(matches!(&a[..], [ClientAction::Print { text }] if text == WAIT_FOR_AUTHORIZATION));

    let a = c.step(from_server("authentication successful", None));
    assert_eq!(prompts(&a), vec![RECEIVER_PROMPT]);

    let a = c.step(line("dan"));
    assert_eq!(
        sent(&a),
        vec!["{\"receiver_username\":\"dan\",\"subject\":\"new-private-message-sequence\"}"]
    );
    assert!(matches!(c.app_state, AppState::WaitingForMessageSequenceId));

    let a = c.step(from_server("{\"sequence_id\":4}", Some(4)));
    assert_eq!(prompts(&a), vec![TEXT_PROMPT]);
    assert_eq!(c.message_from_someone.message_sequence_index, 1);

    let a = c.step(line("hi"));
    assert_eq!(
        sent(&a),
        vec!["{\"content\":\"hi\",\"message_sequence_id\":4,\"message_sequence_index\":1,\"receiver\":\"dan\",\"subject\":\"new-message\"}"]
    );
    assert_eq!(prompts(&a), vec![RECEIVER_PROMPT]);
    assert!(matches!(c.app_state, AppState::WaitingForReceiverName));
    assert_eq!(c.message_from_someone.message_sequence_index, 0);
    assert_eq!(c.message_from_someone.receiver, "");
}

#[test]
fn client_refused_login_starts_over() {
    let mut c = SimpleClient::new();
    c.step(line("ian"));
    c.step(line("wrong"));
    let a = c.step(from_server("provide correct login and password for authentication", None));
    assert_eq!(prompts(&a), vec![USERNAME_AGAIN_PROMPT]);
    match &a[0] {
        ClientAction::Print { text } => assert_eq!(
            text,
            "We were waiting for \"authentication successful\" but received something else: provide correct login and password for authentication"
        ),
        _ => panic!("expected the server's reply to be shown"),
    }
    assert!(matches!(c.app_state, AppState::WaitingForUsername));
}

#[test]
fn client_asks_again_for_an_invalid_receiver() {
    let mut c = SimpleClient::new();
    c.step(line("ian"));
    c.step(line("ian"));
    c.step(from_server("authentication successful", None));
    let a = c.step(line("not valid!"));
    assert_eq!(prompts(&a), vec![INVALID_USERNAME_PROMPT]);
    assert!(sent(&a).is_empty());
    assert!(matches!(c.app_state, AppState::WaitingForReceiverName));
}

#[test]
fn client_shows_other_server_texts() {
    let mut c = SimpleClient::new();
    let a = c.step(from_server("hello", None));
    match &a[..] {
        [ClientAction::Print { text }] => {
            assert_eq!(text, "we have just received this message from the server: hello")
        }
        _ => panic!("expected the text to be shown"),
    }
    assert!(matches!(c.app_state, AppState::WaitingForUsername));
}

#[test]
fn client_request_texts() {
    assert_eq!(
        prepare_login_request(&LoginCredentials { login: "a\"b".to_string(), password: String::new() }),
        "{\"login\":\"a\\\"b\",\"password\":\"\",\"subject\":\"authenticate\"}"
    );
    assert_eq!(
        prepare_sequence_request(&NewPrivateMessageSequenceRequest { receiver_username: "x".to_string() }),
        "{\"receiver_username\":\"x\",\"subject\":\"new-private-message-sequence\"}"
    );
    assert_eq!(
        prepare_message_request(&MessageFromSomeone {
            message_sequence_id: 7,
            message_sequence_index: 65535,
            content: "t".to_string(),
            receiver: "r".to_string(),
        }),
        "{\"content\":\"t\",\"message_sequence_id\":7,\"message_sequence_index\":65535,\"receiver\":\"r\",\"subject\":\"new-message\"}"
    );
}
