//! The records exchanged with clients, and their JSON text.

use vstd::prelude::*;
use crate::util::{decimal, push_decimal};

verus! {

/// A login request.
#[derive(Debug, Clone)]
pub struct LoginCredentials {
    pub login: String,
    pub password: String,
}

/// A private message as a client submits it.
#[derive(Debug, Clone)]
pub struct MessageFromSomeone {
    pub message_sequence_id: u32,
    pub message_sequence_index: u16,
    pub content: String,
    pub receiver: String,
}

/// A private message as the server delivers it.
#[derive(Debug, Clone)]
pub struct MessageToSomeone {
    pub id: u32,
    pub content: String,
    pub sender_username: String,
    pub datetime: String,
}

/// The discriminator that every client request carries.
#[derive(Debug, Clone)]
pub struct Subject {
    pub subject: String,
}

/// A request for a fresh message sequence toward a receiver.
#[derive(Debug, Clone)]
pub struct NewPrivateMessageSequenceRequest {
    pub receiver_username: String,
}

/// The sequence id issued in answer to a `NewPrivateMessageSequenceRequest`.
#[derive(Debug, Clone)]
pub struct NewPrivateMessageSequenceResponse {
    pub receiver_username: String,
    pub sequence_id: u32,
}

pub const MESSAGE_SUBJECT: &'static str = "message";

pub const AUTHENTICATE_SUBJECT: &'static str = "authenticate";

pub const NEW_MESSAGE_SUBJECT: &'static str = "new-message";

pub const NEW_PRIVATE_MESSAGE_SEQUENCE_SUBJECT: &'static str = "new-private-message-sequence";

/// The text of a JSON string literal that holds `s`, quotes and escapes
/// included, as serde_json writes it.
pub uninterp spec fn json_string_literal(s: Seq<char>) -> Seq<char>;

/// Relies on serde_json's `Display` for `Value::String`: the compact JSON
/// text of the string.
#[verifier::external_body]
pub(crate) fn json_quote(s: &str) -> (r: String)
    ensures
        r@ == json_string_literal(s@),
{
    serde_json::Value::String(s.to_string()).to_string()
}

/// The JSON object of a delivered message, from the JSON text of its string
/// fields, with keys in sorted order.
pub open spec fn message_frame(
    id: u32,
    content_json: Seq<char>,
    datetime_json: Seq<char>,
    sender_json: Seq<char>,
    subject_json: Seq<char>,
) -> Seq<char> {
    "{\"content\":"@ + content_json + ",\"datetime\":"@ + datetime_json + ",\"id\":"@ + decimal(
        id as nat,
    ) + ",\"sender_username\":"@ + sender_json + ",\"subject\":"@ + subject_json + "}"@
}

/// The JSON object of a sequence response, from the JSON text of its string
/// fields, with keys in sorted order.
pub open spec fn sequence_response_frame(
    receiver_json: Seq<char>,
    sequence_id: u32,
    subject_json: Seq<char>,
) -> Seq<char> {
    "{\"receiver_username\":"@ + receiver_json + ",\"sequence_id\":"@ + decimal(sequence_id as nat)
        + ",\"subject\":"@ + subject_json + "}"@
}

/// What the server sends to deliver `m`.
pub open spec fn message_json(m: MessageToSomeone) -> Seq<char> {
    message_frame(
        m.id,
        json_string_literal(m.content@),
        json_string_literal(m.datetime@),
        json_string_literal(m.sender_username@),
        json_string_literal(MESSAGE_SUBJECT@),
    )
}

/// What the server sends in answer to a sequence request.
pub open spec fn sequence_response_json(r: NewPrivateMessageSequenceResponse) -> Seq<char> {
    sequence_response_frame(
        json_string_literal(r.receiver_username@),
        r.sequence_id,
        json_string_literal(NEW_PRIVATE_MESSAGE_SEQUENCE_SUBJECT@),
    )
}

/// Builds the JSON object of a delivered message from the JSON text of its
/// string fields.
pub fn frame_message(
    id: u32,
    content_json: &str,
    datetime_json: &str,
    sender_json: &str,
    subject_json: &str,
) -> (r: String)
    ensures
        r@ == message_frame(id, content_json@, datetime_json@, sender_json@, subject_json@),
{
    let mut s = String::new();
    s.append("{\"content\":");
    s.append(content_json);
    s.append(",\"datetime\":");
    s.append(datetime_json);
    s.append(",\"id\":");
    push_decimal(&mut s, id as u64);
    s.append(",\"sender_username\":");
    s.append(sender_json);
    s.append(",\"subject\":");
    s.append(subject_json);
    s.append("}");
    assert(s@ =~= message_frame(id, content_json@, datetime_json@, sender_json@, subject_json@));
    s
}

/// Builds the JSON object of a sequence response from the JSON text of its
/// string fields.
pub fn frame_sequence_response(receiver_json: &str, sequence_id: u32, subject_json: &str) -> (r:
    String)
    ensures
        r@ == sequence_response_frame(receiver_json@, sequence_id, subject_json@),
{
    let mut s = String::new();
    s.append("{\"receiver_username\":");
    s.append(receiver_json);
    s.append(",\"sequence_id\":");
    push_decimal(&mut s, sequence_id as u64);
    s.append(",\"subject\":");
    s.append(subject_json);
    s.append("}");
    assert(s@ =~= sequence_response_frame(receiver_json@, sequence_id, subject_json@));
    s
}

/// The text that the server sends to a client to deliver a message from
/// another user.
pub fn prepare_message_for_from_server_to_client(message_to_someone: MessageToSomeone) -> (r:
    String)
    ensures
        r@ == message_json(message_to_someone),
{
    let content = json_quote(message_to_someone.content.as_str());
    let datetime = json_quote(message_to_someone.datetime.as_str());
    let sender = json_quote(message_to_someone.sender_username.as_str());
    let subject = json_quote(MESSAGE_SUBJECT);
    frame_message(
        message_to_someone.id,
        content.as_str(),
        datetime.as_str(),
        sender.as_str(),
        subject.as_str(),
    )
}

/// The text that the server sends to answer a sequence request.
pub fn prepare_new_sequence_response(response: &NewPrivateMessageSequenceResponse) -> (r: String)
    ensures
        r@ == sequence_response_json(*response),
{
    let receiver = json_quote(response.receiver_username.as_str());
    let subject = json_quote(NEW_PRIVATE_MESSAGE_SEQUENCE_SUBJECT);
    frame_sequence_response(receiver.as_str(), response.sequence_id, subject.as_str())
}

/// The JSON object of a login request, from the JSON text of its fields.
pub open spec fn login_request_frame(
    login_json: Seq<char>,
    password_json: Seq<char>,
    subject_json: Seq<char>,
) -> Seq<char> {
    "{\"login\":"@ + login_json + ",\"password\":"@ + password_json + ",\"subject\":"@
        + subject_json + "}"@
}

/// The JSON object of a sequence request, from the JSON text of its fields.
pub open spec fn sequence_request_frame(receiver_json: Seq<char>, subject_json: Seq<char>) -> Seq<
    char,
> {
    "{\"receiver_username\":"@ + receiver_json + ",\"subject\":"@ + subject_json + "}"@
}

/// The JSON object of a submitted message, from the JSON text of its string
/// fields.
pub open spec fn message_request_frame(
    content_json: Seq<char>,
    sequence_id: u32,
    sequence_index: u16,
    receiver_json: Seq<char>,
    subject_json: Seq<char>,
) -> Seq<char> {
    "{\"content\":"@ + content_json + ",\"message_sequence_id\":"@ + decimal(sequence_id as nat)
        + ",\"message_sequence_index\":"@ + decimal(sequence_index as nat) + ",\"receiver\":"@
        + receiver_json + ",\"subject\":"@ + subject_json + "}"@
}

/// What a client sends to log in.
pub open spec fn login_request_json(login: Seq<char>, password: Seq<char>) -> Seq<char> {
    login_request_frame(
        json_string_literal(login),
        json_string_literal(password),
        json_string_literal(AUTHENTICATE_SUBJECT@),
    )
}

/// What a client sends to ask for a sequence toward `receiver`.
pub open spec fn sequence_request_json(receiver: Seq<char>) -> Seq<char> {
    sequence_request_frame(
        json_string_literal(receiver),
        json_string_literal(NEW_PRIVATE_MESSAGE_SEQUENCE_SUBJECT@),
    )
}

/// What a client sends to submit a message.
pub open spec fn message_request_json(
    content: Seq<char>,
    sequence_id: u32,
    sequence_index: u16,
    receiver: Seq<char>,
) -> Seq<char> {
    message_request_frame(
        json_string_literal(content),
        sequence_id,
        sequence_index,
        json_string_literal(receiver),
        json_string_literal(NEW_MESSAGE_SUBJECT@),
    )
}

/// Builds the JSON object of a login request from the JSON text of its fields.
pub fn frame_login_request(login_json: &str, password_json: &str, subject_json: &str) -> (r:
    String)
    ensures
        r@ == login_request_frame(login_json@, password_json@, subject_json@),
{
    let mut s = String::new();
    s.append("{\"login\":");
    s.append(login_json);
    s.append(",\"password\":");
    s.append(password_json);
    s.append(",\"subject\":");
    s.append(subject_json);
    s.append("}");
    assert(s@ =~= login_request_frame(login_json@, password_json@, subject_json@));
    s
}

/// Builds the JSON object of a sequence request from the JSON text of its
/// fields.
pub fn frame_sequence_request(receiver_json: &str, subject_json: &str) -> (r: String)
    ensures
        r@ == sequence_request_frame(receiver_json@, subject_json@),
{
    let mut s = String::new();
    s.append("{\"receiver_username\":");
    s.append(receiver_json);
    s.append(",\"subject\":");
    s.append(subject_json);
    s.append("}");
    assert(s@ =~= sequence_request_frame(receiver_json@, subject_json@));
    s
}

/// Builds the JSON object of a submitted message from the JSON text of its
/// string fields.
pub fn frame_message_request(
    content_json: &str,
    sequence_id: u32,
    sequence_index: u16,
    receiver_json: &str,
    subject_json: &str,
) -> (r: String)
    ensures
        r@ == message_request_frame(
            content_json@,
            sequence_id,
            sequence_index,
            receiver_json@,
            subject_json@,
        ),
{
    let mut s = String::new();
    s.append("{\"content\":");
    s.append(content_json);
    s.append(",\"message_sequence_id\":");
    push_decimal(&mut s, sequence_id as u64);
    s.append(",\"message_sequence_index\":");
    push_decimal(&mut s, sequence_index as u64);
    s.append(",\"receiver\":");
    s.append(receiver_json);
    s.append(",\"subject\":");
    s.append(subject_json);
    s.append("}");
    assert(s@ =~= message_request_frame(
        content_json@,
        sequence_id,
        sequence_index,
        receiver_json@,
        subject_json@,
    ));
    s
}

/// The text that a client sends to log in.
pub fn prepare_login_request(credentials: &LoginCredentials) -> (r: String)
    ensures
        r@ == login_request_json(credentials.login@, credentials.password@),
{
    let login = json_quote(credentials.login.as_str());
    let password = json_quote(credentials.password.as_str());
    let subject = json_quote(AUTHENTICATE_SUBJECT);
    frame_login_request(login.as_str(), password.as_str(), subject.as_str())
}

/// The text that a client sends to ask for a message sequence.
pub fn prepare_sequence_request(request: &NewPrivateMessageSequenceRequest) -> (r: String)
    ensures
        r@ == sequence_request_json(request.receiver_username@),
{
    let receiver = json_quote(request.receiver_username.as_str());
    let subject = json_quote(NEW_PRIVATE_MESSAGE_SEQUENCE_SUBJECT);
    frame_sequence_request(receiver.as_str(), subject.as_str())
}

/// The text that a client sends to submit a message.
pub fn prepare_message_request(message: &MessageFromSomeone) -> (r: String)
    ensures
        r@ == message_request_json(
            message.content@,
            message.message_sequence_id,
            message.message_sequence_index,
            message.receiver@,
        ),
{
    let content = json_quote(message.content.as_str());
    let receiver = json_quote(message.receiver.as_str());
    let subject = json_quote(NEW_MESSAGE_SUBJECT);
    frame_message_request(
        content.as_str(),
        message.message_sequence_id,
        message.message_sequence_index,
        receiver.as_str(),
        subject.as_str(),
    )
}

} // verus!
