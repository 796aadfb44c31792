//! The commands that connections send to the chat state, and the one step
//! that applies a command and says what must be sent to which session.

use vstd::prelude::*;
use crate::dto::{
    json_string_literal, message_frame, prepare_message_for_from_server_to_client,
    prepare_new_sequence_response, sequence_response_frame, MessageToSomeone, MESSAGE_SUBJECT,
    NEW_PRIVATE_MESSAGE_SEQUENCE_SUBJECT,
};
use crate::user_context::{
    add_session, advance_sequence, allocate_sequence, append_message, can_allocate, can_append,
    conversation_of, remove_session, session_set, AddSessionResult, ApplicationScope, ScopeView,
    SequenceError, SessionId,
};
use crate::util::{decimal, push_decimal, server_time_text, server_time_to_string};

verus! {

/// The most sessions that one user may have open at once.
pub const MAXIMUM_SESSIONS_PER_USER: i32 = 2;

/// Sent to a session refused for going over the cap, before it is closed.
pub const TOO_MANY_SESSIONS_NOTICE: &'static str = "Exceeded the limit of WebSocket connections";

/// Sent when a conversation has used up its message ids.
pub const CONVERSATION_FULL_NOTICE: &'static str = "the conversation cannot take more messages";

/// Sent when a direction of a conversation has used up its sequence ids.
pub const NO_MORE_SEQUENCES_NOTICE: &'static str =
    "no more message sequences can be opened in this conversation";

/// The place of a message in a sequence that its sender opened.
#[derive(Debug, Clone, Copy, PartialEq, Eq, Structural)]
pub struct MessageSequencePosition {
    pub message_sequence_id: u32,
    pub message_sequence_index: u32,
}

/// What a connection asks of the chat state. `messages_sender` is the
/// session that the command comes from.
pub enum ConnectionCommand {
    AssignConnectionToUser { username: String, messages_sender: SessionId },
    UnassignConnectionFromUser { username: String, messages_sender: SessionId },
    SendMessageToAnotherUser {
        sender_username: String,
        receiver_username: String,
        content: String,
        message_sequence: Option<MessageSequencePosition>,
        messages_sender: SessionId,
    },
    InitiateNewPrivateMessageSequence {
        sender_username: String,
        receiver_username: String,
        messages_sender: SessionId,
    },
}

/// What the transport must do after a command.
pub enum CommandEffect {
    /// Push a text frame to a session.
    SendText { session: SessionId, text: String },
    /// Close a session's connection.
    Close { session: SessionId },
    /// A message was stored for a receiver with no live session.
    ReceiverOffline { receiver_username: String },
}

/// What an effect holds.
pub enum EffectView {
    SendText { session: SessionId, text: Seq<char> },
    Close { session: SessionId },
    ReceiverOffline { receiver_username: Seq<char> },
}

impl View for CommandEffect {
    type V = EffectView;

    open spec fn view(&self) -> EffectView {
        match self {
            CommandEffect::SendText { session, text } => EffectView::SendText {
                session: *session,
                text: text@,
            },
            CommandEffect::Close { session } => EffectView::Close { session: *session },
            CommandEffect::ReceiverOffline { receiver_username } => EffectView::ReceiverOffline {
                receiver_username: receiver_username@,
            },
        }
    }
}

/// The views of a list of effects.
pub open spec fn effects_view(effects: Seq<CommandEffect>) -> Seq<EffectView> {
    effects.map_values(|e: CommandEffect| e@)
}

/// What the sender of a message is told when the sequencing check refuses it.
pub open spec fn sequence_error_text(id: u32, e: SequenceError) -> Seq<char> {
    match e {
        SequenceError::SequenceNotFound => "the sequence with id "@ + decimal(id as nat)
            + " does not exist"@,
        SequenceError::OutOfOrder { expected, got } => "another index for the sequence with id "@
            + decimal(id as nat) + " expected: "@ + decimal(expected as nat) + ", got: "@ + decimal(
            got as nat,
        ),
    }
}

/// The text delivered to the receiver of a stored message.
pub open spec fn delivered_text(
    id: u32,
    sender: Seq<char>,
    content: Seq<char>,
    server_time: i64,
) -> Seq<char> {
    message_frame(
        id,
        json_string_literal(content),
        json_string_literal(server_time_text(server_time)),
        json_string_literal(sender),
        json_string_literal(MESSAGE_SUBJECT@),
    )
}

/// One text to every session of the receiver, in order; a note that the
/// receiver is offline when there is none.
pub open spec fn delivery_effects(
    sessions: Seq<SessionId>,
    text: Seq<char>,
    receiver: Seq<char>,
) -> Seq<EffectView> {
    if sessions.len() == 0 {
        seq![EffectView::ReceiverOffline { receiver_username: receiver }]
    } else {
        sessions.map_values(|s: SessionId| EffectView::SendText { session: s, text })
    }
}

/// The state after a command, and what must be sent.
pub open spec fn command_step(st: ScopeView, command: ConnectionCommand, server_time: i64) -> (
    ScopeView,
    Seq<EffectView>,
) {
    match command {
        ConnectionCommand::AssignConnectionToUser { username, messages_sender } => {
            let (users, accepted) = add_session(
                st.users,
                username@,
                messages_sender,
                MAXIMUM_SESSIONS_PER_USER as int,
            );
            (
                ScopeView { users, conversations: st.conversations },
                if accepted {
                    seq![]
                } else {
                    seq![
                        EffectView::SendText { session: messages_sender, text: TOO_MANY_SESSIONS_NOTICE@ },
                        EffectView::Close { session: messages_sender },
                    ]
                },
            )
        },
        ConnectionCommand::UnassignConnectionFromUser { username, messages_sender } => (
            ScopeView {
                users: remove_session(st.users, username@, messages_sender),
                conversations: st.conversations,
            },
            seq![],
        ),
        ConnectionCommand::InitiateNewPrivateMessageSequence {
            sender_username,
            receiver_username,
            messages_sender,
        } => {
            if can_allocate(st, sender_username@, receiver_username@) {
                let (st2, id) = allocate_sequence(st, sender_username@, receiver_username@);
                (
                    st2,
                    seq![
                        EffectView::SendText {
                            session: messages_sender,
                            text: sequence_response_frame(
                                json_string_literal(receiver_username@),
                                id,
                                json_string_literal(NEW_PRIVATE_MESSAGE_SEQUENCE_SUBJECT@),
                            ),
                        },
                    ],
                )
            } else {
                (st, seq![EffectView::SendText { session: messages_sender, text: NO_MORE_SEQUENCES_NOTICE@ }])
            }
        },
        ConnectionCommand::SendMessageToAnotherUser {
            sender_username,
            receiver_username,
            content,
            message_sequence,
            messages_sender,
        } => {
            if !can_append(st, sender_username@, receiver_username@) {
                (st, seq![EffectView::SendText { session: messages_sender, text: CONVERSATION_FULL_NOTICE@ }])
            } else {
                let (st1, checked) = match message_sequence {
                    None => (st, Ok(())),
                    Some(p) => advance_sequence(
                        st,
                        sender_username@,
                        receiver_username@,
                        p.message_sequence_id,
                        p.message_sequence_index,
                    ),
                };
                match checked {
                    Err(e) => (
                        st1,
                        seq![
                            EffectView::SendText {
                                session: messages_sender,
                                text: sequence_error_text(message_sequence->0.message_sequence_id, e),
                            },
                        ],
                    ),
                    Ok(_) => {
                        let (st2, id) = append_message(
                            st1,
                            sender_username@,
                            receiver_username@,
                            content@,
                            server_time,
                        );
                        (
                            st2,
                            delivery_effects(
                                session_set(st2.users, receiver_username@),
                                delivered_text(id, sender_username@, content@, server_time),
                                receiver_username@,
                            ),
                        )
                    },
                }
            }
        },
    }
}

/// Writes what the sender of a refused message is told.
pub fn describe_sequence_error(id: u32, e: SequenceError) -> (r: String)
    ensures
        r@ == sequence_error_text(id, e),
{
    let mut s = String::new();
    match e {
        SequenceError::SequenceNotFound => {
            s.append("the sequence with id ");
            push_decimal(&mut s, id as u64);
            s.append(" does not exist");
        },
        SequenceError::OutOfOrder { expected, got } => {
            s.append("another index for the sequence with id ");
            push_decimal(&mut s, id as u64);
            s.append(" expected: ");
            push_decimal(&mut s, expected);
            s.append(", got: ");
            push_decimal(&mut s, got as u64);
        },
    }
    assert(s@ =~= sequence_error_text(id, e));
    s
}

/// One `SendText` of `text` to each session, or a `ReceiverOffline` note when
/// there is no session.
pub fn fan_out(sessions: &Vec<SessionId>, text: &String, receiver_username: String) -> (r: Vec<
    CommandEffect,
>)
    ensures
        effects_view(r@) == delivery_effects(sessions@, text@, receiver_username@),
{
    let mut r: Vec<CommandEffect> = Vec::new();
    if sessions.len() == 0 {
        r.push(CommandEffect::ReceiverOffline { receiver_username });
        assert(effects_view(r@) =~= delivery_effects(sessions@, text@, receiver_username@));
        return r;
    }
    let mut i: usize = 0;
    while i < sessions.len()
        invariant
            i <= sessions@.len(),
            r@.len() == i,
            forall|j: int|
                0 <= j < i ==> #[trigger] r@[j]@ == (EffectView::SendText {
                    session: sessions@[j],
                    text: text@,
                }),
        decreases sessions@.len() - i,
    {
        r.push(CommandEffect::SendText { session: sessions[i], text: text.clone() });
        i = i + 1;
    }
    assert(effects_view(r@) =~= delivery_effects(sessions@, text@, receiver_username@));
    r
}

fn single(effect: CommandEffect) -> (r: Vec<CommandEffect>)
    ensures
        effects_view(r@) == seq![effect@],
{
    let mut r: Vec<CommandEffect> = Vec::new();
    r.push(effect);
    assert(effects_view(r@) =~= seq![effect@]);
    r
}

/// Applies one command to the chat state, with `server_time` as the time at
/// which a message is received, and returns what must be sent.
pub fn handle_connection_command(
    application_scope: &mut ApplicationScope,
    command: ConnectionCommand,
    server_time: i64,
) -> (effects: Vec<CommandEffect>)
    requires
        old(application_scope).wf(),
    ensures
        final(application_scope).wf(),
        final(application_scope)@ == command_step(old(application_scope)@, command, server_time).0,
        effects_view(effects@) == command_step(old(application_scope)@, command, server_time).1,
{
    match command {
        ConnectionCommand::AssignConnectionToUser { username, messages_sender } => {
            match application_scope.add_session_sender_if_not_exceeded(
                &username,
                messages_sender,
                MAXIMUM_SESSIONS_PER_USER,
            ) {
                AddSessionResult::Success => {
                    let r: Vec<CommandEffect> = Vec::new();
                    assert(effects_view(r@) =~= seq![]);
                    r
                },
                AddSessionResult::TooManySessions { messages_sender } => {
                    let mut r: Vec<CommandEffect> = Vec::new();
                    r.push(
                        CommandEffect::SendText {
                            session: messages_sender,
                            text: String::from_str(TOO_MANY_SESSIONS_NOTICE),
                        },
                    );
                    r.push(CommandEffect::Close { session: messages_sender });
                    assert(effects_view(r@) =~= seq![
                        EffectView::SendText { session: messages_sender, text: TOO_MANY_SESSIONS_NOTICE@ },
                        EffectView::Close { session: messages_sender },
                    ]);
                    r
                },
            }
        },
        ConnectionCommand::UnassignConnectionFromUser { username, messages_sender } => {
            application_scope.remove_session_sender(&username, messages_sender);
            let r: Vec<CommandEffect> = Vec::new();
            assert(effects_view(r@) =~= seq![]);
            r
        },
        ConnectionCommand::InitiateNewPrivateMessageSequence {
            sender_username,
            receiver_username,
            messages_sender,
        } => {
            if application_scope.can_open_sequence(&sender_username, &receiver_username) {
                let response = application_scope.get_new_message_sequence(
                    sender_username,
                    receiver_username,
                );
                let text = prepare_new_sequence_response(&response);
                single(CommandEffect::SendText { session: messages_sender, text })
            } else {
                single(
                    CommandEffect::SendText {
                        session: messages_sender,
                        text: String::from_str(NO_MORE_SEQUENCES_NOTICE),
                    },
                )
            }
        },
        ConnectionCommand::SendMessageToAnotherUser {
            sender_username,
            receiver_username,
            content,
            message_sequence,
            messages_sender,
        } => {
            if !application_scope.can_add_message(&sender_username, &receiver_username) {
                return single(
                    CommandEffect::SendText {
                        session: messages_sender,
                        text: String::from_str(CONVERSATION_FULL_NOTICE),
                    },
                );
            }
            let ghost st = application_scope@;
            match message_sequence {
                None => {},
                Some(p) => {
                    let checked = application_scope.approach_message_sequence(
                        sender_username.clone(),
                        receiver_username.clone(),
                        p.message_sequence_id,
                        p.message_sequence_index,
                    );
                    match checked {
                        Ok(()) => {},
                        Err(e) => {
                            let text = describe_sequence_error(p.message_sequence_id, e);
                            return single(
                                CommandEffect::SendText { session: messages_sender, text },
                            );
                        },
                    }
                },
            }
            proof {
                assert(conversation_of(application_scope@, sender_username@, receiver_username@).messages
                    == conversation_of(st, sender_username@, receiver_username@).messages);
                assert(conversation_of(application_scope@, sender_username@, receiver_username@).id_offset
                    == conversation_of(st, sender_username@, receiver_username@).id_offset);
            }
            let metadata = application_scope.add_message_at(
                sender_username.clone(),
                receiver_username.clone(),
                content.clone(),
                server_time,
            );
            let message = MessageToSomeone {
                id: metadata.id,
                content,
                sender_username,
                datetime: server_time_to_string(server_time),
            };
            let text = prepare_message_for_from_server_to_client(message);
            let sessions = application_scope.sessions_of(&receiver_username);
            fan_out(&sessions, &text, receiver_username)
        },
    }
}

} // verus!
