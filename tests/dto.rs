use chat_core::dto::{
    frame_message, frame_sequence_response, prepare_message_for_from_server_to_client,
    prepare_new_sequence_response, MessageToSomeone, NewPrivateMessageSequenceResponse,
};

#[test]
fn delivered_message_text() {
    let text = prepare_message_for_from_server_to_client(MessageToSomeone {
        id: 12,
        content: "hi".to_string(),
        sender_username: "ian".to_string(),
        datetime: "now".to_string(),
    });
    assert_eq!(
        text,
        "{\"content\":\"hi\",\"datetime\":\"now\",\"id\":12,\"sender_username\":\"ian\",\"subject\":\"message\"}"
    );
}

#[test]
fn delivered_message_text_escapes_strings() {
    let text = prepare_message_for_from_server_to_client(MessageToSomeone {
        id: 0,
        content: "say \"hi\"\n".to_string(),
        sender_username: "a\\b".to_string(),
        datetime: String::new(),
    });
    assert_eq!(
        text,
        "{\"content\":\"say \\\"hi\\\"\\n\",\"datetime\":\"\",\"id\":0,\"sender_username\":\"a\\\\b\",\"subject\":\"message\"}"
    );
}

#[test]
fn sequence_response_text() {
    let text = prepare_new_sequence_response(&NewPrivateMessageSequenceResponse {
        receiver_username: "dan".to_string(),
        sequence_id: 4294967295,
    });
    assert_eq!(
        text,
        "{\"receiver_username\":\"dan\",\"sequence_id\":4294967295,\"subject\":\"new-private-message-sequence\"}"
    );
}

#[test]
fn frames_take_field_text_as_given() {
    assert_eq!(
        frame_message(3, "C", "D", "S", "T"),
        "{\"content\":C,\"datetime\":D,\"id\":3,\"sender_username\":S,\"subject\":T}"
    );
    assert_eq!(
        frame_sequence_response("R", 10, "T"),
        "{\"receiver_username\":R,\"sequence_id\":10,\"subject\":T}"
    );
}
