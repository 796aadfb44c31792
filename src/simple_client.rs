//! The decisions of an interactive chat client: what to ask the user, what
//! to send to the server, and which state to move to, for each line typed and
//! each message received.

use vstd::prelude::*;
use vstd::string::StrSliceExecFns;
use crate::dto::{
    login_request_json, message_request_json, prepare_login_request, prepare_message_request,
    prepare_sequence_request, sequence_request_json, LoginCredentials, MessageFromSomeone,
    NewPrivateMessageSequenceRequest,
};

verus! {

/// Whether `c` is alphanumeric in the sense of `char::is_alphanumeric`.
pub uninterp spec fn char_is_alphanumeric(c: char) -> bool;

/// Relies on `char::is_alphanumeric`: alphabetic or numeric in Unicode's
/// sense, which takes in the ASCII letters and digits.
#[verifier::external_body]
fn is_alphanumeric(c: char) -> (r: bool)
    ensures
        r == char_is_alphanumeric(c),
        ('a' <= c <= 'z') || ('A' <= c <= 'Z') || ('0' <= c <= '9') ==> r,
{
    c.is_alphanumeric()
}

/// The characters that a username may hold.
pub open spec fn username_char_allowed(c: char) -> bool {
    char_is_alphanumeric(c) || c == '-' || c == '_' || c == '.'
}

/// A username is not empty and holds only allowed characters.
pub open spec fn valid_username(s: Seq<char>) -> bool {
    s.len() > 0 && forall|i: int| 0 <= i < s.len() ==> #[trigger] username_char_allowed(s[i])
}

/// Whether `username` can name a user.
pub fn is_valid_username(username: &str) -> (r: bool)
    ensures
        r == valid_username(username@),
{
    let n = username.unicode_len();
    if n == 0 {
        return false;
    }
    let mut i: usize = 0;
    while i < n
        invariant
            n == username@.len(),
            i <= n,
            forall|j: int| 0 <= j < i ==> #[trigger] username_char_allowed(username@[j]),
        decreases n - i,
    {
        let c = username.get_char(i);
        if !(is_alphanumeric(c) || c == '-' || c == '_' || c == '.') {
            assert(!username_char_allowed(username@[i as int]));
            return false;
        }
        i = i + 1;
    }
    true
}

/// The first thing a client asks.
pub const LOGIN_PROMPT: &'static str = "Please enter your login: ";

pub const PASSWORD_PROMPT: &'static str = "Please enter your password: ";

pub const AUTHORIZATION_SENT: &'static str = "Authorization request sent.";

pub const WAIT_FOR_AUTHORIZATION: &'static str =
    "Please wait until the server sends us a response to our authorization request";

pub const WAIT_FOR_SEQUENCE_ID: &'static str =
    "Please wait until the server sends us a message sequence id";

pub const SEQUENCE_REQUEST_SENT: &'static str =
    "A request to receive a new message sequence id has been sent.";

pub const INVALID_USERNAME_PROMPT: &'static str =
    "Please enter a valid username (only alphanumeric characters): ";

pub const MESSAGE_SENT: &'static str = "The message has been sent.";

pub const RECEIVER_PROMPT: &'static str =
    "Please enter the login of a user to whom you want to send a message: ";

pub const AUTHENTICATION_SUCCESSFUL: &'static str = "authentication successful";

pub const UNEXPECTED_AUTHORIZATION_REPLY: &'static str =
    "We were waiting for \"authentication successful\" but received something else: ";

pub const USERNAME_AGAIN_PROMPT: &'static str = "Please enter the username again: ";

pub const TEXT_PROMPT: &'static str = "Please type the text that you want to send: ";

pub const RECEIVED_FROM_SERVER: &'static str =
    "we have just received this message from the server: ";

/// Where the client is in its dialogue with the user and the server.
pub enum AppState {
    WaitingForUsername,
    WaitingForPassword { username: String },
    WaitingForServerAuthorizationResponse,
    WaitingForReceiverName,
    WaitingForMessageSequenceId,
    WaitingForText,
}

/// What a client state holds.
pub enum StateView {
    WaitingForUsername,
    WaitingForPassword { username: Seq<char> },
    WaitingForServerAuthorizationResponse,
    WaitingForReceiverName,
    WaitingForMessageSequenceId,
    WaitingForText,
}

impl View for AppState {
    type V = StateView;

    open spec fn view(&self) -> StateView {
        match self {
            AppState::WaitingForUsername => StateView::WaitingForUsername,
            AppState::WaitingForPassword { username } => StateView::WaitingForPassword {
                username: username@,
            },
            AppState::WaitingForServerAuthorizationResponse => {
                StateView::WaitingForServerAuthorizationResponse
            },
            AppState::WaitingForReceiverName => StateView::WaitingForReceiverName,
            AppState::WaitingForMessageSequenceId => StateView::WaitingForMessageSequenceId,
            AppState::WaitingForText => StateView::WaitingForText,
        }
    }
}

/// Something that happened to the client: a line typed by the user, or a
/// text from the server, with the sequence id that it carries when it is a
/// sequence response.
pub enum StateChange {
    NewReadlineMessage { message: String },
    NewWebSocketMessage { message: String, sequence_id: Option<u32> },
}

/// What the client must do.
pub enum ClientAction {
    /// Print without a line break, and wait for the user.
    Prompt { text: String },
    /// Print a line.
    Print { text: String },
    /// Send a text frame to the server.
    SendToServer { text: String },
}

/// What a client action holds.
pub enum ActionView {
    Prompt(Seq<char>),
    Print(Seq<char>),
    SendToServer(Seq<char>),
}

impl View for ClientAction {
    type V = ActionView;

    open spec fn view(&self) -> ActionView {
        match self {
            ClientAction::Prompt { text } => ActionView::Prompt(text@),
            ClientAction::Print { text } => ActionView::Print(text@),
            ClientAction::SendToServer { text } => ActionView::SendToServer(text@),
        }
    }
}

/// The views of a list of actions.
pub open spec fn actions_view(actions: Seq<ClientAction>) -> Seq<ActionView> {
    actions.map_values(|a: ClientAction| a@)
}

/// The message being put together: its receiver, then its sequence, then its
/// text.
pub struct DraftView {
    pub message_sequence_id: u32,
    pub message_sequence_index: u16,
    pub content: Seq<char>,
    pub receiver: Seq<char>,
}

/// What a client holds.
pub struct ClientView {
    pub state: StateView,
    pub draft: DraftView,
}

/// A message with no receiver, no sequence and no text.
pub open spec fn empty_draft() -> DraftView {
    DraftView { message_sequence_id: 0, message_sequence_index: 0, content: seq![], receiver: seq![] }
}

/// The client's state and what must be done, after one event.
pub open spec fn client_step(c: ClientView, event: StateChange) -> (ClientView, Seq<ActionView>) {
    let d = c.draft;
    match event {
        StateChange::NewReadlineMessage { message } => match c.state {
            StateView::WaitingForUsername => (
                ClientView { state: StateView::WaitingForPassword { username: message@ }, draft: d },
                seq![ActionView::Prompt(PASSWORD_PROMPT@)],
            ),
            StateView::WaitingForPassword { username } => (
                ClientView { state: StateView::WaitingForServerAuthorizationResponse, draft: d },
                seq![
                    ActionView::SendToServer(login_request_json(username, message@)),
                    ActionView::Print(AUTHORIZATION_SENT@),
                ],
            ),
            StateView::WaitingForServerAuthorizationResponse => (
                c,
                seq![ActionView::Print(WAIT_FOR_AUTHORIZATION@)],
            ),
            StateView::WaitingForMessageSequenceId => (
                c,
                seq![ActionView::Print(WAIT_FOR_SEQUENCE_ID@)],
            ),
            StateView::WaitingForReceiverName => if valid_username(message@) {
                (
                    ClientView {
                        state: StateView::WaitingForMessageSequenceId,
                        draft: DraftView { receiver: message@, ..d },
                    },
                    seq![
                        ActionView::SendToServer(sequence_request_json(message@)),
                        ActionView::Print(SEQUENCE_REQUEST_SENT@),
                    ],
                )
            } else {
                (c, seq![ActionView::Prompt(INVALID_USERNAME_PROMPT@)])
            },
            StateView::WaitingForText => (
                ClientView { state: StateView::WaitingForReceiverName, draft: empty_draft() },
                seq![
                    ActionView::SendToServer(
                        message_request_json(
                            message@,
                            d.message_sequence_id,
                            d.message_sequence_index,
                            d.receiver,
                        ),
                    ),
                    ActionView::Print(MESSAGE_SENT@),
                    ActionView::Prompt(RECEIVER_PROMPT@),
                ],
            ),
        },
        StateChange::NewWebSocketMessage { message, sequence_id } => match c.state {
            StateView::WaitingForServerAuthorizationResponse => if message@
                == AUTHENTICATION_SUCCESSFUL@ {
                (
                    ClientView { state: StateView::WaitingForReceiverName, draft: d },
                    seq![ActionView::Prompt(RECEIVER_PROMPT@)],
                )
            } else {
                (
                    ClientView { state: StateView::WaitingForUsername, draft: d },
                    seq![
                        ActionView::Print(UNEXPECTED_AUTHORIZATION_REPLY@ + message@),
                        ActionView::Prompt(USERNAME_AGAIN_PROMPT@),
                    ],
                )
            },
            StateView::WaitingForMessageSequenceId => match sequence_id {
                Some(id) => (
                    ClientView {
                        state: StateView::WaitingForText,
                        draft: DraftView {
                            message_sequence_id: id,
                            message_sequence_index: (d.message_sequence_index + 1) as u16,
                            ..d
                        },
                    },
                    seq![ActionView::Prompt(TEXT_PROMPT@)],
                ),
                None => (c, seq![ActionView::Print(RECEIVED_FROM_SERVER@ + message@)]),
            },
            _ => (c, seq![ActionView::Print(RECEIVED_FROM_SERVER@ + message@)]),
        },
    }
}

/// An interactive chat client: its state and the message it is putting
/// together.
pub struct SimpleClient {
    pub app_state: AppState,
    pub message_from_someone: MessageFromSomeone,
}

impl View for SimpleClient {
    type V = ClientView;

    open spec fn view(&self) -> ClientView {
        ClientView {
            state: self.app_state@,
            draft: DraftView {
                message_sequence_id: self.message_from_someone.message_sequence_id,
                message_sequence_index: self.message_from_someone.message_sequence_index,
                content: self.message_from_someone.content@,
                receiver: self.message_from_someone.receiver@,
            },
        }
    }
}

fn empty_message() -> (r: MessageFromSomeone)
    ensures
        r.message_sequence_id == 0,
        r.message_sequence_index == 0,
        r.content@ == Seq::<char>::empty(),
        r.receiver@ == Seq::<char>::empty(),
{
    MessageFromSomeone {
        message_sequence_id: 0,
        message_sequence_index: 0,
        content: String::new(),
        receiver: String::new(),
    }
}

fn one(a: ClientAction) -> (r: Vec<ClientAction>)
    ensures
        actions_view(r@) == seq![a@],
{
    let mut r: Vec<ClientAction> = Vec::new();
    r.push(a);
    assert(actions_view(r@) =~= seq![a@]);
    r
}

fn two(a: ClientAction, b: ClientAction) -> (r: Vec<ClientAction>)
    ensures
        actions_view(r@) == seq![a@, b@],
{
    let mut r: Vec<ClientAction> = Vec::new();
    r.push(a);
    r.push(b);
    assert(actions_view(r@) =~= seq![a@, b@]);
    r
}

fn text(s: &str) -> (r: String)
    ensures
        r@ == s@,
{
    String::from_str(s)
}

fn text_then(s: &str, rest: &String) -> (r: String)
    ensures
        r@ == s@ + rest@,
{
    let mut r = String::from_str(s);
    r.append(rest.as_str());
    r
}

impl SimpleClient {
    /// Only a message whose sequence was given can have an index.
    pub open spec fn wf(&self) -> bool {
        !(self.app_state is WaitingForText) ==> self.message_from_someone.message_sequence_index
            == 0
    }

    /// A client that waits for the user's login.
    pub fn new() -> (r: Self)
        ensures
            r.wf(),
            r@ == (ClientView { state: StateView::WaitingForUsername, draft: empty_draft() }),
    {
        let r = SimpleClient { app_state: AppState::WaitingForUsername, message_from_someone: empty_message() };
        assert(r@.draft == empty_draft());
        r
    }

    /// Moves on by one event, and says what must be done.
    pub fn step(&mut self, event: StateChange) -> (actions: Vec<ClientAction>)
        requires
            old(self).wf(),
        ensures
            final(self).wf(),
            (final(self)@, actions_view(actions@)) == client_step(old(self)@, event),
    {
        match event {
            StateChange::NewReadlineMessage { message } => {
                match &self.app_state {
                    AppState::WaitingForUsername => {
                        self.app_state = AppState::WaitingForPassword { username: message };
                        one(ClientAction::Prompt { text: text(PASSWORD_PROMPT) })
                    },
                    AppState::WaitingForPassword { username } => {
                        let credentials = LoginCredentials { login: username.clone(), password: message };
                        let request = prepare_login_request(&credentials);
                        self.app_state = AppState::WaitingForServerAuthorizationResponse;
                        two(
                            ClientAction::SendToServer { text: request },
                            ClientAction::Print { text: text(AUTHORIZATION_SENT) },
                        )
                    },
                    AppState::WaitingForServerAuthorizationResponse => {
                        one(ClientAction::Print { text: text(WAIT_FOR_AUTHORIZATION) })
                    },
                    AppState::WaitingForMessageSequenceId => {
                        one(ClientAction::Print { text: text(WAIT_FOR_SEQUENCE_ID) })
                    },
                    AppState::WaitingForReceiverName => {
                        if is_valid_username(message.as_str()) {
                            let request = prepare_sequence_request(
                                &NewPrivateMessageSequenceRequest { receiver_username: message.clone() },
                            );
                            self.message_from_someone.receiver = message;
                            self.app_state = AppState::WaitingForMessageSequenceId;
                            two(
                                ClientAction::SendToServer { text: request },
                                ClientAction::Print { text: text(SEQUENCE_REQUEST_SENT) },
                            )
                        } else {
                            one(ClientAction::Prompt { text: text(INVALID_USERNAME_PROMPT) })
                        }
                    },
                    AppState::WaitingForText => {
                        self.message_from_someone.content = message;
                        let request = prepare_message_request(&self.message_from_someone);
                        self.message_from_someone = empty_message();
                        self.app_state = AppState::WaitingForReceiverName;
                        let mut r: Vec<ClientAction> = Vec::new();
                        r.push(ClientAction::SendToServer { text: request });
                        r.push(ClientAction::Print { text: text(MESSAGE_SENT) });
                        r.push(ClientAction::Prompt { text: text(RECEIVER_PROMPT) });
                        assert(actions_view(r@) =~= seq![r@[0]@, r@[1]@, r@[2]@]);
                        r
                    },
                }
            },
            StateChange::NewWebSocketMessage { message, sequence_id } => {
                match &self.app_state {
                    AppState::WaitingForServerAuthorizationResponse => {
                        if message == text(AUTHENTICATION_SUCCESSFUL) {
                            self.app_state = AppState::WaitingForReceiverName;
                            one(ClientAction::Prompt { text: text(RECEIVER_PROMPT) })
                        } else {
                            self.app_state = AppState::WaitingForUsername;
                            two(
                                ClientAction::Print {
                                    text: text_then(UNEXPECTED_AUTHORIZATION_REPLY, &message),
                                },
                                ClientAction::Prompt { text: text(USERNAME_AGAIN_PROMPT) },
                            )
                        }
                    },
                    AppState::WaitingForMessageSequenceId => {
                        match sequence_id {
                            Some(id) => {
                                self.message_from_someone.message_sequence_index =
                                    self.message_from_someone.message_sequence_index + 1;
                                self.message_from_someone.message_sequence_id = id;
                                self.app_state = AppState::WaitingForText;
                                one(ClientAction::Prompt { text: text(TEXT_PROMPT) })
                            },
                            None => one(
                                ClientAction::Print { text: text_then(RECEIVED_FROM_SERVER, &message) },
                            ),
                        }
                    },
                    _ => one(ClientAction::Print { text: text_then(RECEIVED_FROM_SERVER, &message) }),
                }
            },
        }
    }
}

} // verus!
