//! The chat state: live sessions per user, and private conversations with
//! their message logs and per-direction sequencing.

use vstd::prelude::*;
use crate::dto::NewPrivateMessageSequenceResponse;
use crate::private_conversation_partners::{
    compare_usernames, lemma_make_key_symmetric, make_key,
    username_lt, PrivateConversationPartnersHashmapKey,
};
use crate::util::now_millis;

verus! {

/// The handle of one live connection's outbound sink. The state compares
/// handles and hands them back; it never looks behind them.
pub type SessionId = u64;

// ---------------------------------------------------------------------------
// Messages

/// What a stored message holds.
pub struct MessageView {
    pub is_sender_user1: bool,
    pub content: Seq<char>,
    pub server_time: i64,
    pub is_deleted: bool,
}

/// Metadata that the server adds to a private message when it stores it.
pub struct PrivateMessageServerMetadata {
    /// The message id: 1-based, shared by both directions of a conversation.
    pub id: u32,
    /// When the server stored the message, in milliseconds since the Unix epoch.
    pub server_time: i64,
}

/// A private message as the server keeps it.
pub struct PrivateMessage {
    /// Whether the author is the lower partner of the conversation's key.
    pub is_sender_user1: bool,
    pub content: String,
    /// When the server received the message, in milliseconds since the Unix epoch.
    pub server_time: i64,
    pub is_deleted: bool,
}

impl View for PrivateMessage {
    type V = MessageView;

    open spec fn view(&self) -> MessageView {
        MessageView {
            is_sender_user1: self.is_sender_user1,
            content: self.content@,
            server_time: self.server_time,
            is_deleted: self.is_deleted,
        }
    }
}

impl PrivateMessage {
    /// A message received now.
    pub fn new(is_sender_user1: bool, content: String) -> (r: Self)
        ensures
            r.is_sender_user1 == is_sender_user1,
            r.content@ == content@,
            !r.is_deleted,
    {
        PrivateMessage { is_sender_user1, content, server_time: now_millis(), is_deleted: false }
    }
}

// ---------------------------------------------------------------------------
// Sequencing of one direction of a conversation

/// The sequencing state of one direction: sequence `id_offset + k` has had
/// `progress[k]` messages accepted.
pub struct DirectionView {
    pub id_offset: u32,
    pub progress: Seq<u32>,
}

/// Why a message was refused by the sequencing check.
#[derive(Debug, Clone, Copy, PartialEq, Eq, Structural)]
pub enum SequenceError {
    /// The sequence id was never issued in this direction.
    SequenceNotFound,
    /// The index is not the next one of the sequence.
    OutOfOrder { expected: u64, got: u32 },
}

/// Whether one more sequence id fits in `u32`.
pub open spec fn can_allocate_in(d: DirectionView) -> bool {
    d.id_offset + d.progress.len() <= u32::MAX
}

/// A new sequence, with no message accepted yet, and its id.
pub open spec fn allocate_in(d: DirectionView) -> (DirectionView, u32) {
    (
        DirectionView { id_offset: d.id_offset, progress: d.progress.push(0) },
        (d.id_offset + d.progress.len()) as u32,
    )
}

/// Accepts `index` in sequence `id` when it is the next index of that sequence.
pub open spec fn advance_in(d: DirectionView, id: u32, index: u32) -> (
    DirectionView,
    Result<(), SequenceError>,
) {
    let pos = id - d.id_offset;
    if pos < 0 || pos >= d.progress.len() {
        (d, Err(SequenceError::SequenceNotFound))
    } else if d.progress[pos] + 1 == index {
        (DirectionView { id_offset: d.id_offset, progress: d.progress.update(pos, index) }, Ok(()))
    } else {
        (d, Err(SequenceError::OutOfOrder { expected: (d.progress[pos] + 1) as u64, got: index }))
    }
}

/// Data of a private conversation that concerns one of the two partners: the
/// message sequences that this partner opened toward the other.
pub struct PrivateConversationOnePartnerSpecificData {
    /// The id of the first sequence in `message_sequence_state`.
    pub message_sequence_id_offset: u32,
    /// For each sequence, how many of its messages were accepted so far.
    pub message_sequence_state: Vec<u32>,
}

impl View for PrivateConversationOnePartnerSpecificData {
    type V = DirectionView;

    open spec fn view(&self) -> DirectionView {
        DirectionView {
            id_offset: self.message_sequence_id_offset,
            progress: self.message_sequence_state@,
        }
    }
}

impl PrivateConversationOnePartnerSpecificData {
    /// No sequence yet.
    pub fn new() -> (r: Self)
        ensures
            r@ == (DirectionView { id_offset: 0, progress: seq![] }),
    {
        PrivateConversationOnePartnerSpecificData {
            message_sequence_id_offset: 0,
            message_sequence_state: Vec::new(),
        }
    }

    /// Opens a sequence and returns its id.
    pub fn open_sequence(&mut self) -> (id: u32)
        requires
            can_allocate_in(old(self)@),
        ensures
            (final(self)@, id) == allocate_in(old(self)@),
    {
        let id = self.message_sequence_id_offset + self.message_sequence_state.len() as u32;
        self.message_sequence_state.push(0);
        id
    }

    /// Accepts message `index` of sequence `id` if it is the next one.
    pub fn approach_sequence(&mut self, id: u32, index: u32) -> (r: Result<(), SequenceError>)
        ensures
            (final(self)@, r) == advance_in(old(self)@, id, index),
    {
        if id < self.message_sequence_id_offset {
            return Err(SequenceError::SequenceNotFound);
        }
        let pos = (id - self.message_sequence_id_offset) as usize;
        if pos >= self.message_sequence_state.len() {
            return Err(SequenceError::SequenceNotFound);
        }
        let have = self.message_sequence_state[pos];
        if have as u64 + 1 == index as u64 {
            self.message_sequence_state.set(pos, index);
            Ok(())
        } else {
            Err(SequenceError::OutOfOrder { expected: have as u64 + 1, got: index })
        }
    }
}

// ---------------------------------------------------------------------------
// Conversations

/// What a conversation holds.
pub struct ConversationView {
    pub id_offset: u32,
    pub messages: Seq<MessageView>,
    /// The sequences opened by the lower partner of the key.
    pub user1: DirectionView,
    /// The sequences opened by the higher partner of the key.
    pub user2: DirectionView,
}

/// A conversation with no message and no sequence.
pub open spec fn empty_conversation() -> ConversationView {
    ConversationView {
        id_offset: 0,
        messages: seq![],
        user1: DirectionView { id_offset: 0, progress: seq![] },
        user2: DirectionView { id_offset: 0, progress: seq![] },
    }
}

/// Data of a private conversation that concerns both partners.
pub struct PrivateConversation {
    /// The id of the first message in `messages`, less one.
    pub id_offset: u32,
    pub messages: Vec<PrivateMessage>,
    pub user1_specific_data: PrivateConversationOnePartnerSpecificData,
    pub user2_specific_data: PrivateConversationOnePartnerSpecificData,
}

impl View for PrivateConversation {
    type V = ConversationView;

    open spec fn view(&self) -> ConversationView {
        ConversationView {
            id_offset: self.id_offset,
            messages: self.messages@.map_values(|m: PrivateMessage| m@),
            user1: self.user1_specific_data@,
            user2: self.user2_specific_data@,
        }
    }
}

impl PrivateConversation {
    /// An empty conversation.
    pub fn new() -> (r: Self)
        ensures
            r@ == empty_conversation(),
    {
        let r = PrivateConversation {
            id_offset: 0,
            messages: Vec::new(),
            user1_specific_data: PrivateConversationOnePartnerSpecificData::new(),
            user2_specific_data: PrivateConversationOnePartnerSpecificData::new(),
        };
        assert(r@.messages =~= seq![]);
        r
    }
}

// ---------------------------------------------------------------------------
// Session registry model

/// The outcome of registering a session.
pub enum AddSessionResult {
    Success,
    /// The user has as many sessions as allowed; the session is handed back
    /// so that the caller can tell it and close it.
    TooManySessions { messages_sender: SessionId },
}

/// `s` with every occurrence of `h` taken out, the rest in order.
pub open spec fn without_handle(s: Seq<SessionId>, h: SessionId) -> Seq<SessionId>
    decreases s.len(),
{
    if s.len() == 0 {
        s
    } else if s.last() == h {
        without_handle(s.drop_last(), h)
    } else {
        without_handle(s.drop_last(), h).push(s.last())
    }
}

/// The sessions of a user: empty for a user with none.
pub open spec fn session_set(users: Map<Seq<char>, Seq<SessionId>>, u: Seq<char>) -> Seq<
    SessionId,
> {
    if users.contains_key(u) {
        users[u]
    } else {
        seq![]
    }
}

/// Every registered user has at least one session, and no session twice.
pub open spec fn registry_valid(users: Map<Seq<char>, Seq<SessionId>>) -> bool {
    forall|u: Seq<char>|
        #![trigger users[u]]
        users.contains_key(u) ==> users[u].len() > 0 && users[u].no_duplicates()
}

/// Registers session `s` of user `u`, unless `u` already has `max` sessions
/// or more; the flag says whether the session is registered.
pub open spec fn add_session(
    users: Map<Seq<char>, Seq<SessionId>>,
    u: Seq<char>,
    s: SessionId,
    max: int,
) -> (Map<Seq<char>, Seq<SessionId>>, bool) {
    if !users.contains_key(u) {
        (users.insert(u, seq![s]), true)
    } else if users[u].len() >= max {
        (users, false)
    } else if users[u].contains(s) {
        (users, true)
    } else {
        (users.insert(u, users[u].push(s)), true)
    }
}

/// Takes session `s` away from user `u`; a user left with no session is
/// taken out of the registry.
pub open spec fn remove_session(
    users: Map<Seq<char>, Seq<SessionId>>,
    u: Seq<char>,
    s: SessionId,
) -> Map<Seq<char>, Seq<SessionId>> {
    if !users.contains_key(u) {
        users
    } else if without_handle(users[u], s).len() == 0 {
        users.remove(u)
    } else {
        users.insert(u, without_handle(users[u], s))
    }
}

/// What `without_handle` keeps.
pub proof fn lemma_without_handle(s: Seq<SessionId>, h: SessionId)
    ensures
        forall|x: SessionId| #[trigger]
            without_handle(s, h).contains(x) <==> (s.contains(x) && x != h),
        without_handle(s, h).len() <= s.len(),
        s.no_duplicates() ==> without_handle(s, h).no_duplicates(),
        !s.contains(h) ==> without_handle(s, h) == s,
    decreases s.len(),
{
    if s.len() > 0 {
        let init = s.drop_last();
        lemma_without_handle(init, h);
        assert(s =~= init.push(s.last()));
        assert forall|x: SessionId|
            #[trigger] s.contains(x) <==> (init.contains(x) || x == s.last()) by {
            if s.contains(x) {
                let k = choose|k: int| 0 <= k < s.len() && s[k] == x;
                if k < s.len() - 1 {
                    assert(init[k] == x);
                }
            }
            if init.contains(x) {
                let k = choose|k: int| 0 <= k < init.len() && init[k] == x;
                assert(s[k] == x);
            }
            if x == s.last() {
                assert(s[s.len() - 1] == x);
            }
        }
        let w = without_handle(init, h);
        if s.last() != h {
            assert forall|x: SessionId|
                #[trigger] w.push(s.last()).contains(x) <==> (w.contains(x) || x == s.last()) by {
                if w.push(s.last()).contains(x) {
                    let k = choose|k: int| 0 <= k < w.len() + 1 && w.push(s.last())[k] == x;
                    if k < w.len() {
                        assert(w[k] == x);
                    }
                }
                if w.contains(x) {
                    let k = choose|k: int| 0 <= k < w.len() && w[k] == x;
                    assert(w.push(s.last())[k] == x);
                }
                if x == s.last() {
                    assert(w.push(s.last())[w.len() as int] == x);
                }
            }
            if s.no_duplicates() {
                assert(!init.contains(s.last())) by {
                    if init.contains(s.last()) {
                        let k = choose|k: int| 0 <= k < init.len() && init[k] == s.last();
                        assert(s[k] == s[s.len() - 1]);
                    }
                }
                assert(init.no_duplicates()) by {
                    assert forall|i: int, j: int|
                        0 <= i < init.len() && 0 <= j < init.len() && i != j implies init[i]
                        != init[j] by {
                        assert(s[i] == init[i] && s[j] == init[j]);
                    }
                }
                assert(!w.contains(s.last()));
                assert forall|i: int, j: int|
                    0 <= i < w.len() + 1 && 0 <= j < w.len() + 1 && i != j implies w.push(
                    s.last(),
                )[i] != w.push(s.last())[j] by {
                    if i == w.len() {
                        assert(w.contains(w[j]));
                    } else if j == w.len() {
                        assert(w.contains(w[i]));
                    }
                }
            }
        } else {
            if s.no_duplicates() {
                assert(init.no_duplicates()) by {
                    assert forall|i: int, j: int|
                        0 <= i < init.len() && 0 <= j < init.len() && i != j implies init[i]
                        != init[j] by {
                        assert(s[i] == init[i] && s[j] == init[j]);
                    }
                }
            }
            assert(s.contains(h));
        }
    }
}

// ---------------------------------------------------------------------------
// The whole state

/// What the chat state holds: the sessions of each connected user, and the
/// conversations under their normalized keys.
pub struct ScopeView {
    pub users: Map<Seq<char>, Seq<SessionId>>,
    pub conversations: Map<(Seq<char>, Seq<char>), ConversationView>,
}

/// The live sessions of one user.
pub struct ChatUser {
    pub opened_sessions_senders: Vec<SessionId>,
}

impl ChatUser {
    /// A user with no session yet.
    pub fn new() -> (r: Self)
        ensures
            r.opened_sessions_senders@ == Seq::<SessionId>::empty(),
    {
        ChatUser { opened_sessions_senders: Vec::new() }
    }
}

struct UserEntry {
    username: String,
    user: ChatUser,
}

struct ConversationEntry {
    partners: PrivateConversationPartnersHashmapKey,
    conversation: PrivateConversation,
}

/// The data about all users and all private conversations.
pub struct ApplicationScope {
    chat_users: Vec<UserEntry>,
    private_conversations: Vec<ConversationEntry>,
    users_model: Ghost<Map<Seq<char>, Seq<SessionId>>>,
    conversations_model: Ghost<Map<(Seq<char>, Seq<char>), ConversationView>>,
}

impl View for ApplicationScope {
    type V = ScopeView;

    closed spec fn view(&self) -> ScopeView {
        ScopeView { users: self.users_model@, conversations: self.conversations_model@ }
    }
}

/// Whether `v` holds one session handle.
fn contains_session(v: &Vec<SessionId>, h: SessionId) -> (r: bool)
    ensures
        r == v@.contains(h),
{
    let mut i: usize = 0;
    while i < v.len()
        invariant
            i <= v.len(),
            forall|j: int| 0 <= j < i ==> v@[j] != h,
        decreases v.len() - i,
    {
        if v[i] == h {
            assert(v@[i as int] == h);
            return true;
        }
        i = i + 1;
    }
    false
}

/// A copy of `v` without handle `h`.
fn copy_without(v: &Vec<SessionId>, h: SessionId) -> (r: Vec<SessionId>)
    ensures
        r@ == without_handle(v@, h),
{
    let mut r: Vec<SessionId> = Vec::new();
    let mut i: usize = 0;
    assert(v@.subrange(0, 0) =~= Seq::<SessionId>::empty());
    while i < v.len()
        invariant
            i <= v.len(),
            r@ == without_handle(v@.subrange(0, i as int), h),
        decreases v.len() - i,
    {
        assert(v@.subrange(0, i as int + 1).drop_last() =~= v@.subrange(0, i as int));
        if v[i] != h {
            r.push(v[i]);
        }
        i = i + 1;
    }
    assert(v@.subrange(0, v@.len() as int) =~= v@);
    r
}

/// Each entry's conversation is the model's under the entry's key, every key
/// of the model has an entry, and no key has two.
spec fn conversations_agree(
    entries: Seq<ConversationEntry>,
    model: Map<(Seq<char>, Seq<char>), ConversationView>,
) -> bool {
    &&& forall|i: int|
        #![trigger entries[i]]
        0 <= i < entries.len() ==> {
            &&& model.contains_key(entries[i].partners@)
            &&& model[entries[i].partners@] == entries[i].conversation@
        }
    &&& forall|k: (Seq<char>, Seq<char>)|
        #![trigger model.contains_key(k)]
        model.contains_key(k) ==> exists|i: int|
            0 <= i < entries.len() && #[trigger] entries[i].partners@ == k
    &&& forall|i: int, j: int|
        0 <= i < entries.len() && 0 <= j < entries.len() && i != j
            ==> #[trigger] entries[i].partners@ != #[trigger] entries[j].partners@
}

proof fn lemma_conversation_added(
    entries: Seq<ConversationEntry>,
    model: Map<(Seq<char>, Seq<char>), ConversationView>,
    e: ConversationEntry,
)
    requires
        conversations_agree(entries, model),
        !model.contains_key(e.partners@),
    ensures
        conversations_agree(entries.push(e), model.insert(e.partners@, e.conversation@)),
{
    let es = entries.push(e);
    let m = model.insert(e.partners@, e.conversation@);
    let n = entries.len() as int;
    assert(es[n] == e);
    assert forall|i: int| #![trigger es[i]] 0 <= i < es.len() implies {
        &&& m.contains_key(es[i].partners@)
        &&& m[es[i].partners@] == es[i].conversation@
    } by {
        if i < n {
            assert(es[i] == entries[i]);
        }
    }
    assert forall|k: (Seq<char>, Seq<char>)| #[trigger] m.contains_key(k) implies exists|i: int|
        0 <= i < es.len() && #[trigger] es[i].partners@ == k by {
        if k != e.partners@ {
            assert(model.contains_key(k));
            let i = choose|i: int| 0 <= i < entries.len() && #[trigger] entries[i].partners@ == k;
            assert(es[i] == entries[i]);
        }
    }
    assert forall|i: int, j: int|
        0 <= i < es.len() && 0 <= j < es.len() && i != j implies #[trigger] es[i].partners@
        != #[trigger] es[j].partners@ by {
        if i < n {
            assert(es[i] == entries[i]);
        }
        if j < n {
            assert(es[j] == entries[j]);
        }
    }
}

proof fn lemma_conversation_replaced(
    entries: Seq<ConversationEntry>,
    model: Map<(Seq<char>, Seq<char>), ConversationView>,
    updated: Seq<ConversationEntry>,
    i: int,
)
    requires
        conversations_agree(entries, model),
        0 <= i < entries.len(),
        updated.len() == entries.len(),
        updated[i].partners@ == entries[i].partners@,
        forall|j: int| 0 <= j < entries.len() && j != i ==> updated[j] == entries[j],
    ensures
        conversations_agree(updated, model.insert(entries[i].partners@, updated[i].conversation@)),
{
    let m = model.insert(entries[i].partners@, updated[i].conversation@);
    assert forall|j: int| #![trigger updated[j]] 0 <= j < updated.len() implies {
        &&& m.contains_key(updated[j].partners@)
        &&& m[updated[j].partners@] == updated[j].conversation@
    } by {
        if j != i {
            assert(updated[j] == entries[j]);
            assert(entries[j].partners@ != entries[i].partners@);
        }
    }
    assert forall|k: (Seq<char>, Seq<char>)| #[trigger] m.contains_key(k) implies exists|j: int|
        0 <= j < updated.len() && #[trigger] updated[j].partners@ == k by {
        if k != entries[i].partners@ {
            let j = choose|j: int| 0 <= j < entries.len() && #[trigger] entries[j].partners@ == k;
            assert(updated[j] == entries[j]);
        } else {
            assert(updated[i].partners@ == k);
        }
    }
    assert forall|a: int, b: int|
        0 <= a < updated.len() && 0 <= b < updated.len() && a != b implies #[trigger] updated[a].partners@
        != #[trigger] updated[b].partners@ by {
        assert(entries[a].partners@ != entries[b].partners@);
        if a != i {
            assert(updated[a] == entries[a]);
        }
        if b != i {
            assert(updated[b] == entries[b]);
        }
    }
}

impl ApplicationScope {
    /// The executable data agrees with the model, and the model is valid.
    pub closed spec fn wf(&self) -> bool {
        &&& forall|i: int|
            #![trigger self.chat_users@[i]]
            0 <= i < self.chat_users@.len() ==> {
                &&& self.users_model@.contains_key(self.chat_users@[i].username@)
                &&& self.users_model@[self.chat_users@[i].username@]
                    == self.chat_users@[i].user.opened_sessions_senders@
            }
        &&& forall|u: Seq<char>|
            #![trigger self.users_model@.contains_key(u)]
            self.users_model@.contains_key(u) ==> exists|i: int|
                0 <= i < self.chat_users@.len() && #[trigger] self.chat_users@[i].username@ == u
        &&& forall|i: int, j: int|
            0 <= i < self.chat_users@.len() && 0 <= j < self.chat_users@.len() && i != j
                ==> #[trigger] self.chat_users@[i].username@
                != #[trigger] self.chat_users@[j].username@
        &&& registry_valid(self.users_model@)
        &&& conversations_agree(self.private_conversations@, self.conversations_model@)
    }

    /// The registry that a well-formed state holds is valid.
    pub proof fn lemma_wf_registry_valid(&self)
        requires
            self.wf(),
        ensures
            registry_valid(self@.users),
    {
    }

    /// No user and no conversation.
    pub fn new() -> (r: Self)
        ensures
            r.wf(),
            r@.users == Map::<Seq<char>, Seq<SessionId>>::empty(),
            r@.conversations == Map::<(Seq<char>, Seq<char>), ConversationView>::empty(),
    {
        ApplicationScope {
            chat_users: Vec::new(),
            private_conversations: Vec::new(),
            users_model: Ghost(Map::empty()),
            conversations_model: Ghost(Map::empty()),
        }
    }

    fn find_user(&self, username: &String) -> (r: Option<usize>)
        requires
            self.wf(),
        ensures
            match r {
                Some(i) => i < self.chat_users@.len() && self.chat_users@[i as int].username@
                    == username@,
                None => !self@.users.contains_key(username@),
            },
    {
        let mut i: usize = 0;
        while i < self.chat_users.len()
            invariant
                i <= self.chat_users@.len(),
                forall|j: int| 0 <= j < i ==> self.chat_users@[j].username@ != username@,
            decreases self.chat_users@.len() - i,
        {
            if self.chat_users[i].username == *username {
                return Some(i);
            }
            i = i + 1;
        }
        None
    }

    /// The live sessions of a user, in the order they were registered; empty
    /// for a user with none.
    pub fn sessions_of(&self, username: &String) -> (r: Vec<SessionId>)
        requires
            self.wf(),
        ensures
            r@ == session_set(self@.users, username@),
    {
        match self.find_user(username) {
            None => Vec::new(),
            Some(i) => self.chat_users[i].user.opened_sessions_senders.clone(),
        }
    }

    fn register_new_user(&mut self, username: &String, messages_sender: SessionId)
        requires
            old(self).wf(),
            !old(self)@.users.contains_key(username@),
        ensures
            final(self).wf(),
            final(self)@.users == old(self)@.users.insert(username@, seq![messages_sender]),
            final(self)@.conversations == old(self)@.conversations,
    {
        let mut sessions: Vec<SessionId> = Vec::new();
        sessions.push(messages_sender);
        let entry = UserEntry {
            username: username.clone(),
            user: ChatUser { opened_sessions_senders: sessions },
        };
        let ghost old_model = self.users_model@;
        let ghost old_entries = self.chat_users@;
        self.chat_users.push(entry);
        self.users_model = Ghost(self.users_model@.insert(username@, seq![messages_sender]));
        proof {
            let n = old_entries.len() as int;
            assert(self.chat_users@[n].username@ == username@);
            assert(self.chat_users@[n].user.opened_sessions_senders@ =~= seq![messages_sender]);
            assert forall|u: Seq<char>| #[trigger]
                self.users_model@.contains_key(u) implies exists|i: int|
                    0 <= i < self.chat_users@.len() && #[trigger] self.chat_users@[i].username@
                        == u by {
                if u != username@ {
                    assert(old_model.contains_key(u));
                    let i = choose|i: int|
                        0 <= i < old_entries.len() && #[trigger] old_entries[i].username@ == u;
                    assert(self.chat_users@[i] == old_entries[i]);
                }
            }
            assert forall|i: int|
                #![trigger self.chat_users@[i]]
                0 <= i < self.chat_users@.len() implies {
                    &&& self.users_model@.contains_key(self.chat_users@[i].username@)
                    &&& self.users_model@[self.chat_users@[i].username@]
                        == self.chat_users@[i].user.opened_sessions_senders@
                } by {
                if i < n {
                    assert(self.chat_users@[i] == old_entries[i]);
                    assert(old_entries[i].username@ != username@);
                }
            }
            assert forall|i: int, j: int|
                0 <= i < self.chat_users@.len() && 0 <= j < self.chat_users@.len() && i
                    != j implies #[trigger] self.chat_users@[i].username@
                != #[trigger] self.chat_users@[j].username@ by {
                if i < n && j < n {
                    assert(self.chat_users@[i] == old_entries[i]);
                    assert(self.chat_users@[j] == old_entries[j]);
                } else if i < n {
                    assert(self.chat_users@[i] == old_entries[i]);
                } else if j < n {
                    assert(self.chat_users@[j] == old_entries[j]);
                }
            }
            assert(seq![messages_sender].no_duplicates());
            assert forall|u: Seq<char>| #[trigger]
                self.users_model@.contains_key(u) implies self.users_model@[u].len() > 0
                    && self.users_model@[u].no_duplicates() by {
                if u != username@ {
                    assert(old_model.contains_key(u));
                    assert(old_model[u].len() > 0);
                }
            }
            assert(registry_valid(self.users_model@));
            assert(self.private_conversations == old(self).private_conversations);
            assert(self.conversations_model == old(self).conversations_model);
        }
    }

    fn push_session(&mut self, i: usize, username: &String, messages_sender: SessionId)
        requires
            old(self).wf(),
            i < old(self).chat_users@.len(),
            old(self).chat_users@[i as int].username@ == username@,
            !old(self)@.users[username@].contains(messages_sender),
        ensures
            final(self).wf(),
            final(self)@.users == old(self)@.users.insert(
                username@,
                old(self)@.users[username@].push(messages_sender),
            ),
            final(self)@.conversations == old(self)@.conversations,
    {
        proof {
            assert(self.users_model@[username@]
                == self.chat_users@[i as int].user.opened_sessions_senders@);
        }
        let ghost old_model = self.users_model@;
        let ghost old_entries = self.chat_users@;
        let ghost old_sessions = old_entries[i as int].user.opened_sessions_senders@;
        self.chat_users[i].user.opened_sessions_senders.push(messages_sender);
        self.users_model = Ghost(
            self.users_model@.insert(username@, old_sessions.push(messages_sender)),
        );
        proof {
            assert(self.chat_users@[i as int].user.opened_sessions_senders@
                == old_sessions.push(messages_sender));
            assert forall|j: int| 0 <= j < self.chat_users@.len() && j != i implies
                #[trigger] self.chat_users@[j] == old_entries[j] by {}
            assert forall|u: Seq<char>| #[trigger]
                self.users_model@.contains_key(u) implies exists|j: int|
                    0 <= j < self.chat_users@.len() && #[trigger] self.chat_users@[j].username@
                        == u by {
                if u != username@ {
                    let j = choose|j: int|
                        0 <= j < old_entries.len() && #[trigger] old_entries[j].username@ == u;
                    assert(self.chat_users@[j] == old_entries[j]);
                } else {
                    assert(self.chat_users@[i as int].username@ == u);
                }
            }
            assert forall|j: int|
                #![trigger self.chat_users@[j]]
                0 <= j < self.chat_users@.len() implies {
                    &&& self.users_model@.contains_key(self.chat_users@[j].username@)
                    &&& self.users_model@[self.chat_users@[j].username@]
                        == self.chat_users@[j].user.opened_sessions_senders@
                } by {
                if j != i {
                    assert(self.chat_users@[j] == old_entries[j]);
                    assert(old_entries[j].username@ != old_entries[i as int].username@);
                }
            }
            assert forall|a: int, b: int|
                0 <= a < self.chat_users@.len() && 0 <= b < self.chat_users@.len()
                    && a != b implies #[trigger] self.chat_users@[a].username@
                != #[trigger] self.chat_users@[b].username@ by {
                assert(old_entries[a].username@ != old_entries[b].username@);
            }
            let p = old_sessions.push(messages_sender);
            assert(old_sessions.no_duplicates());
            assert forall|a: int, b: int|
                0 <= a < p.len() && 0 <= b < p.len() && a != b implies p[a] != p[b] by {
                if a == old_sessions.len() {
                    assert(old_sessions.contains(p[b]));
                } else if b == old_sessions.len() {
                    assert(old_sessions.contains(p[a]));
                }
            }
            assert forall|u: Seq<char>| #[trigger]
                self.users_model@.contains_key(u) implies self.users_model@[u].len() > 0
                    && self.users_model@[u].no_duplicates() by {
                if u != username@ {
                    assert(old_model.contains_key(u));
                    assert(old_model[u].len() > 0);
                }
            }
            assert(registry_valid(self.users_model@));
            assert(self.private_conversations == old(self).private_conversations);
            assert(self.conversations_model == old(self).conversations_model);
        }
    }

    /// Registers a session of `username`, unless the user already has
    /// `maximum_sessions_allowed` sessions; then the session is handed back.
    pub fn add_session_sender_if_not_exceeded(
        &mut self,
        username: &String,
        messages_sender: SessionId,
        maximum_sessions_allowed: i32,
    ) -> (r: AddSessionResult)
        requires
            old(self).wf(),
        ensures
            final(self).wf(),
            (final(self)@.users, r is Success) == add_session(
                old(self)@.users,
                username@,
                messages_sender,
                maximum_sessions_allowed as int,
            ),
            final(self)@.conversations == old(self)@.conversations,
            r matches AddSessionResult::TooManySessions { messages_sender: s } ==> s
                == messages_sender,
    {
        match self.find_user(username) {
            None => {
                self.register_new_user(username, messages_sender);
                AddSessionResult::Success
            },
            Some(i) => {
                let n = self.chat_users[i].user.opened_sessions_senders.len();
                proof {
                    assert(self.users_model@[username@]
                        == self.chat_users@[i as int].user.opened_sessions_senders@);
                }
                if maximum_sessions_allowed <= 0 || n >= maximum_sessions_allowed as usize {
                    AddSessionResult::TooManySessions { messages_sender }
                } else if contains_session(
                    &self.chat_users[i].user.opened_sessions_senders,
                    messages_sender,
                ) {
                    AddSessionResult::Success
                } else {
                    self.push_session(i, username, messages_sender);
                    AddSessionResult::Success
                }
            },
        }
    }

    fn drop_user(&mut self, i: usize, username: &String)
        requires
            old(self).wf(),
            i < old(self).chat_users@.len(),
            old(self).chat_users@[i as int].username@ == username@,
        ensures
            final(self).wf(),
            final(self)@.users == old(self)@.users.remove(username@),
            final(self)@.conversations == old(self)@.conversations,
    {
        let ghost old_model = self.users_model@;
        let ghost old_entries = self.chat_users@;
        self.chat_users.remove(i);
        self.users_model = Ghost(self.users_model@.remove(username@));
        proof {
            let n = old_entries.len() as int;
            assert forall|j: int| 0 <= j < self.chat_users@.len() implies
                #[trigger] self.chat_users@[j] == old_entries[if j < i { j } else { j + 1 }] by {}
            assert forall|u: Seq<char>| #[trigger]
                self.users_model@.contains_key(u) implies exists|j: int|
                    0 <= j < self.chat_users@.len() && #[trigger] self.chat_users@[j].username@
                        == u by {
                let j = choose|j: int|
                    0 <= j < old_entries.len() && #[trigger] old_entries[j].username@ == u;
                assert(j != i);
                if j < i {
                    assert(self.chat_users@[j] == old_entries[j]);
                } else {
                    assert(self.chat_users@[j - 1] == old_entries[j]);
                }
            }
            assert forall|j: int|
                #![trigger self.chat_users@[j]]
                0 <= j < self.chat_users@.len() implies {
                    &&& self.users_model@.contains_key(self.chat_users@[j].username@)
                    &&& self.users_model@[self.chat_users@[j].username@]
                        == self.chat_users@[j].user.opened_sessions_senders@
                } by {
                let k = if j < i { j } else { j + 1 };
                assert(self.chat_users@[j] == old_entries[k]);
                assert(old_entries[k].username@ != old_entries[i as int].username@);
            }
            assert forall|a: int, b: int|
                0 <= a < self.chat_users@.len() && 0 <= b < self.chat_users@.len()
                    && a != b implies #[trigger] self.chat_users@[a].username@
                != #[trigger] self.chat_users@[b].username@ by {
                let ka = if a < i { a } else { a + 1 };
                let kb = if b < i { b } else { b + 1 };
                assert(self.chat_users@[a] == old_entries[ka]);
                assert(self.chat_users@[b] == old_entries[kb]);
                assert(old_entries[ka].username@ != old_entries[kb].username@);
            }
        assert forall|u: Seq<char>| #[trigger]
            self.users_model@.contains_key(u) implies self.users_model@[u].len() > 0
                && self.users_model@[u].no_duplicates() by {
            assert(old_model.contains_key(u));
        }
        assert(registry_valid(self.users_model@));
        assert(self.private_conversations == old(self).private_conversations);
        assert(self.conversations_model == old(self).conversations_model);
        }
    }

    fn replace_sessions(&mut self, i: usize, username: &String, kept: Vec<SessionId>)
        requires
            old(self).wf(),
            i < old(self).chat_users@.len(),
            old(self).chat_users@[i as int].username@ == username@,
            kept@.len() > 0,
            kept@.no_duplicates(),
        ensures
            final(self).wf(),
            final(self)@.users == old(self)@.users.insert(username@, kept@),
            final(self)@.conversations == old(self)@.conversations,
    {
        let ghost old_model = self.users_model@;
        let ghost old_entries = self.chat_users@;
        let ghost kept_view = kept@;
        self.chat_users[i].user.opened_sessions_senders = kept;
        self.users_model = Ghost(
            self.users_model@.insert(username@, kept_view),
        );
        proof {
            assert forall|j: int| 0 <= j < self.chat_users@.len() && j != i implies
                #[trigger] self.chat_users@[j] == old_entries[j] by {}
            assert forall|u: Seq<char>| #[trigger]
                self.users_model@.contains_key(u) implies exists|j: int|
                    0 <= j < self.chat_users@.len() && #[trigger] self.chat_users@[j].username@
                        == u by {
                if u != username@ {
                    let j = choose|j: int|
                        0 <= j < old_entries.len() && #[trigger] old_entries[j].username@ == u;
                    assert(self.chat_users@[j] == old_entries[j]);
                } else {
                    assert(self.chat_users@[i as int].username@ == u);
                }
            }
            assert forall|j: int|
                #![trigger self.chat_users@[j]]
                0 <= j < self.chat_users@.len() implies {
                    &&& self.users_model@.contains_key(self.chat_users@[j].username@)
                    &&& self.users_model@[self.chat_users@[j].username@]
                        == self.chat_users@[j].user.opened_sessions_senders@
                } by {
                if j != i {
                    assert(self.chat_users@[j] == old_entries[j]);
                    assert(old_entries[j].username@ != old_entries[i as int].username@);
                }
            }
            assert forall|a: int, b: int|
                0 <= a < self.chat_users@.len() && 0 <= b < self.chat_users@.len()
                    && a != b implies #[trigger] self.chat_users@[a].username@
                != #[trigger] self.chat_users@[b].username@ by {
                assert(old_entries[a].username@ != old_entries[b].username@);
            }
        assert forall|u: Seq<char>| #[trigger]
            self.users_model@.contains_key(u) implies self.users_model@[u].len() > 0
                && self.users_model@[u].no_duplicates() by {
            if u != username@ {
                assert(old_model.contains_key(u));
            }
        }
        assert(registry_valid(self.users_model@));
        assert(self.private_conversations == old(self).private_conversations);
        assert(self.conversations_model == old(self).conversations_model);
        }
    }

    /// Takes a session away from a user; nothing happens when the user or the
    /// session is not registered.
    pub fn remove_session_sender(&mut self, username: &String, messages_sender: SessionId)
        requires
            old(self).wf(),
        ensures
            final(self).wf(),
            final(self)@.users == remove_session(old(self)@.users, username@, messages_sender),
            final(self)@.conversations == old(self)@.conversations,
    {
        match self.find_user(username) {
            None => {},
            Some(i) => {
                let ghost old_sessions = self.chat_users@[i as int].user.opened_sessions_senders@;
                proof {
                    assert(self.users_model@[username@] == old_sessions);
                    assert(old_sessions.no_duplicates());
                    lemma_without_handle(old_sessions, messages_sender);
                }
                let kept = copy_without(&self.chat_users[i].user.opened_sessions_senders, messages_sender);
                if kept.len() == 0 {
                    self.drop_user(i, username);
                } else {
                    self.replace_sessions(i, username, kept);
                }
            },
        }
    }
}

// ---------------------------------------------------------------------------
// Conversation store model

/// Whether the sender of a message between `sender` and `receiver` is the
/// lower partner of their key.
pub open spec fn sender_is_low(sender: Seq<char>, receiver: Seq<char>) -> bool {
    !username_lt(receiver, sender)
}

/// The conversation between `a` and `b`: empty when none was stored.
pub open spec fn conversation_of(st: ScopeView, a: Seq<char>, b: Seq<char>) -> ConversationView {
    if st.conversations.contains_key(make_key(a, b)) {
        st.conversations[make_key(a, b)]
    } else {
        empty_conversation()
    }
}

/// The sequencing state of the lower (`low`) or the higher partner.
pub open spec fn direction_of(c: ConversationView, low: bool) -> DirectionView {
    if low {
        c.user1
    } else {
        c.user2
    }
}

/// `c` with the sequencing state of one partner replaced.
pub open spec fn with_direction(c: ConversationView, low: bool, d: DirectionView) -> ConversationView {
    if low {
        ConversationView { id_offset: c.id_offset, messages: c.messages, user1: d, user2: c.user2 }
    } else {
        ConversationView { id_offset: c.id_offset, messages: c.messages, user1: c.user1, user2: d }
    }
}

/// Whether one more message id of the conversation fits in `u32`.
pub open spec fn can_append(st: ScopeView, sender: Seq<char>, receiver: Seq<char>) -> bool {
    conversation_of(st, sender, receiver).id_offset + conversation_of(
        st,
        sender,
        receiver,
    ).messages.len() < u32::MAX
}

/// Stores a message from `sender` to `receiver`; the id is the message's
/// 1-based place in the conversation, both directions counted.
pub open spec fn append_message(
    st: ScopeView,
    sender: Seq<char>,
    receiver: Seq<char>,
    content: Seq<char>,
    server_time: i64,
) -> (ScopeView, u32) {
    let c = conversation_of(st, sender, receiver);
    let m = MessageView {
        is_sender_user1: sender_is_low(sender, receiver),
        content,
        server_time,
        is_deleted: false,
    };
    let c2 = ConversationView {
        id_offset: c.id_offset,
        messages: c.messages.push(m),
        user1: c.user1,
        user2: c.user2,
    };
    (
        ScopeView {
            users: st.users,
            conversations: st.conversations.insert(make_key(sender, receiver), c2),
        },
        (c.id_offset + c2.messages.len()) as u32,
    )
}

/// Whether one more sequence id of the sender's direction fits in `u32`.
pub open spec fn can_allocate(st: ScopeView, sender: Seq<char>, receiver: Seq<char>) -> bool {
    can_allocate_in(
        direction_of(conversation_of(st, sender, receiver), sender_is_low(sender, receiver)),
    )
}

/// Opens a sequence in the direction from `sender` to `receiver`.
pub open spec fn allocate_sequence(st: ScopeView, sender: Seq<char>, receiver: Seq<char>) -> (
    ScopeView,
    u32,
) {
    let low = sender_is_low(sender, receiver);
    let c = conversation_of(st, sender, receiver);
    let (d, id) = allocate_in(direction_of(c, low));
    (
        ScopeView {
            users: st.users,
            conversations: st.conversations.insert(make_key(sender, receiver), with_direction(c, low, d)),
        },
        id,
    )
}

/// Accepts message `index` of sequence `id` from `sender` to `receiver` if it
/// is the next one of that sequence.
pub open spec fn advance_sequence(
    st: ScopeView,
    sender: Seq<char>,
    receiver: Seq<char>,
    id: u32,
    index: u32,
) -> (ScopeView, Result<(), SequenceError>) {
    if !st.conversations.contains_key(make_key(sender, receiver)) {
        (st, Err(SequenceError::SequenceNotFound))
    } else {
        let low = sender_is_low(sender, receiver);
        let c = st.conversations[make_key(sender, receiver)];
        let (d, r) = advance_in(direction_of(c, low), id, index);
        (
            ScopeView {
                users: st.users,
                conversations: st.conversations.insert(make_key(sender, receiver), with_direction(c, low, d)),
            },
            r,
        )
    }
}

impl ApplicationScope {
    fn find_conversation(&self, key: &PrivateConversationPartnersHashmapKey) -> (r: Option<usize>)
        requires
            self.wf(),
        ensures
            match r {
                Some(i) => i < self.private_conversations@.len()
                    && self.private_conversations@[i as int].partners@ == key@,
                None => !self@.conversations.contains_key(key@),
            },
    {
        let mut i: usize = 0;
        while i < self.private_conversations.len()
            invariant
                i <= self.private_conversations@.len(),
                forall|j: int|
                    0 <= j < i ==> #[trigger] self.private_conversations@[j].partners@ != key@,
            decreases self.private_conversations@.len() - i,
        {
            let p = &self.private_conversations[i].partners;
            if p.partner1 == key.partner1 && p.partner2 == key.partner2 {
                return Some(i);
            }
            i = i + 1;
        }
        None
    }

    /// The index of the conversation under `key`, stored empty if absent.
    fn conversation_index(&mut self, key: PrivateConversationPartnersHashmapKey) -> (i: usize)
        requires
            old(self).wf(),
        ensures
            final(self).wf(),
            i < final(self).private_conversations@.len(),
            final(self).private_conversations@[i as int].partners@ == key@,
            final(self)@.users == old(self)@.users,
            final(self)@.conversations == if old(self)@.conversations.contains_key(key@) {
                old(self)@.conversations
            } else {
                old(self)@.conversations.insert(key@, empty_conversation())
            },
    {
        match self.find_conversation(&key) {
            Some(i) => i,
            None => {
                let entry = ConversationEntry { partners: key, conversation: PrivateConversation::new() };
                proof {
                    lemma_conversation_added(self.private_conversations@, self.conversations_model@, entry);
                }
                let ghost k = entry.partners@;
                self.private_conversations.push(entry);
                self.conversations_model = Ghost(self.conversations_model@.insert(k, empty_conversation()));
                proof {
                    assert(self.chat_users == old(self).chat_users);
                    assert(self.users_model == old(self).users_model);
                }
                self.private_conversations.len() - 1
            },
        }
    }

    /// The conversation between `a` and `b`, looked up under their key; the
    /// same for either order of the two.
    pub fn get_private_conversation(&self, a: &String, b: &String) -> (r: Option<&PrivateConversation>)
        requires
            self.wf(),
        ensures
            match r {
                Some(c) => self@.conversations.contains_key(make_key(a@, b@))
                    && c@ == self@.conversations[make_key(a@, b@)],
                None => !self@.conversations.contains_key(make_key(a@, b@)),
            },
    {
        let key = PrivateConversationPartnersHashmapKey::new(a.clone(), b.clone());
        match self.find_conversation(&key) {
            Some(i) => Some(&self.private_conversations[i].conversation),
            None => None,
        }
    }

    /// Whether a message between the two fits in the id range.
    pub fn can_add_message(&self, sender: &String, receiver: &String) -> (r: bool)
        requires
            self.wf(),
        ensures
            r == can_append(self@, sender@, receiver@),
    {
        match self.get_private_conversation(sender, receiver) {
            None => true,
            Some(c) => c.messages.len() < (u32::MAX - c.id_offset) as usize,
        }
    }

    /// Whether the sender can open one more sequence toward the receiver.
    pub fn can_open_sequence(&self, sender: &String, receiver: &String) -> (r: bool)
        requires
            self.wf(),
        ensures
            r == can_allocate(self@, sender@, receiver@),
    {
        let low = !compare_usernames(receiver, sender);
        match self.get_private_conversation(sender, receiver) {
            None => true,
            Some(c) => {
                let d = if low { &c.user1_specific_data } else { &c.user2_specific_data };
                d.message_sequence_state.len() <= (u32::MAX - d.message_sequence_id_offset) as usize
            },
        }
    }

    /// Stores a message from `sender` to `receiver` received at `server_time`.
    pub fn add_message_at(
        &mut self,
        sender: String,
        receiver: String,
        content: String,
        server_time: i64,
    ) -> (r: PrivateMessageServerMetadata)
        requires
            old(self).wf(),
            can_append(old(self)@, sender@, receiver@),
        ensures
            final(self).wf(),
            (final(self)@, r.id) == append_message(
                old(self)@,
                sender@,
                receiver@,
                content@,
                server_time,
            ),
            r.server_time == server_time,
    {
        let is_sender_partner1 = !compare_usernames(&receiver, &sender);
        let ghost conversation = conversation_of(old(self)@, sender@, receiver@);
        let key = PrivateConversationPartnersHashmapKey::new(sender, receiver);
        let ghost k = key@;
        let i = self.conversation_index(key);
        let ghost entries = self.private_conversations@;
        let ghost model = self.conversations_model@;
        let ghost users = self.chat_users@;
        let ghost before = entries[i as int].conversation@;
        assert(before == conversation);
        let message = PrivateMessage {
            is_sender_user1: is_sender_partner1,
            content,
            server_time,
            is_deleted: false,
        };
        self.private_conversations[i].conversation.messages.push(message);
        let c = &self.private_conversations[i].conversation;
        let id = c.id_offset + c.messages.len() as u32;
        proof {
            assert(c@.messages =~= before.messages.push(message@));
            lemma_conversation_replaced(entries, model, self.private_conversations@, i as int);
        }
        self.conversations_model = Ghost(
            self.conversations_model@.insert(k, self.private_conversations@[i as int].conversation@),
        );
        proof {
            assert(self.chat_users@ == users);
            assert(self.conversations_model@ =~= old(self)@.conversations.insert(
                k,
                self.private_conversations@[i as int].conversation@,
            ));
        }
        PrivateMessageServerMetadata { id, server_time }
    }

    /// Stores a message from `sender` to `receiver` received now.
    pub fn add_message_to_private_conversation(
        &mut self,
        sender: String,
        receiver: String,
        content: String,
    ) -> (r: PrivateMessageServerMetadata)
        requires
            old(self).wf(),
            can_append(old(self)@, sender@, receiver@),
        ensures
            final(self).wf(),
            (final(self)@, r.id) == append_message(
                old(self)@,
                sender@,
                receiver@,
                content@,
                r.server_time,
            ),
    {
        let now = now_millis();
        self.add_message_at(sender, receiver, content, now)
    }

    /// Opens a message sequence from `sender` toward `receiver` and returns
    /// its id.
    pub fn get_new_message_sequence(&mut self, sender: String, receiver: String) -> (r:
        NewPrivateMessageSequenceResponse)
        requires
            old(self).wf(),
            can_allocate(old(self)@, sender@, receiver@),
        ensures
            final(self).wf(),
            (final(self)@, r.sequence_id) == allocate_sequence(old(self)@, sender@, receiver@),
            r.receiver_username@ == receiver@,
    {
        let is_sender_partner1 = !compare_usernames(&receiver, &sender);
        let ghost conversation = conversation_of(old(self)@, sender@, receiver@);
        let key = PrivateConversationPartnersHashmapKey::new(sender, receiver.clone());
        let ghost k = key@;
        let i = self.conversation_index(key);
        let ghost entries = self.private_conversations@;
        let ghost model = self.conversations_model@;
        let ghost users = self.chat_users@;
        let ghost before = entries[i as int].conversation@;
        assert(before == conversation);
        let sequence_id = if is_sender_partner1 {
            self.private_conversations[i].conversation.user1_specific_data.open_sequence()
        } else {
            self.private_conversations[i].conversation.user2_specific_data.open_sequence()
        };
        proof {
            let after = self.private_conversations@[i as int].conversation@;
            assert(after.messages =~= before.messages);
            lemma_conversation_replaced(entries, model, self.private_conversations@, i as int);
        }
        self.conversations_model = Ghost(
            self.conversations_model@.insert(k, self.private_conversations@[i as int].conversation@),
        );
        proof {
            assert(self.chat_users@ == users);
            assert(self.conversations_model@ =~= old(self)@.conversations.insert(
                k,
                self.private_conversations@[i as int].conversation@,
            ));
        }
        NewPrivateMessageSequenceResponse { receiver_username: receiver, sequence_id }
    }

    /// Accepts message `message_sequence_index` of sequence
    /// `message_sequence_id` from `sender` to `receiver` if it is the next one
    /// of that sequence.
    pub fn approach_message_sequence(
        &mut self,
        sender: String,
        receiver: String,
        message_sequence_id: u32,
        message_sequence_index: u32,
    ) -> (r: Result<(), SequenceError>)
        requires
            old(self).wf(),
        ensures
            final(self).wf(),
            (final(self)@, r) == advance_sequence(
                old(self)@,
                sender@,
                receiver@,
                message_sequence_id,
                message_sequence_index,
            ),
    {
        let is_sender_partner1 = !compare_usernames(&receiver, &sender);
        let key = PrivateConversationPartnersHashmapKey::new(sender, receiver);
        let ghost k = key@;
        match self.find_conversation(&key) {
            None => Err(SequenceError::SequenceNotFound),
            Some(i) => {
                let ghost entries = self.private_conversations@;
                let ghost model = self.conversations_model@;
                let ghost before = entries[i as int].conversation@;
                let r = if is_sender_partner1 {
                    self.private_conversations[i].conversation.user1_specific_data.approach_sequence(
                        message_sequence_id,
                        message_sequence_index,
                    )
                } else {
                    self.private_conversations[i].conversation.user2_specific_data.approach_sequence(
                        message_sequence_id,
                        message_sequence_index,
                    )
                };
                proof {
                    let after = self.private_conversations@[i as int].conversation@;
                    assert(after.messages =~= before.messages);
                    lemma_conversation_replaced(entries, model, self.private_conversations@, i as int);
                }
                self.conversations_model = Ghost(
            self.conversations_model@.insert(k, self.private_conversations@[i as int].conversation@),
        );
                proof {
                    assert(self.chat_users == old(self).chat_users);
                    assert(self.users_model == old(self).users_model);
                }
                r
            },
        }
    }
}

// ---------------------------------------------------------------------------
// Properties of the model

/// A conversation is the same whichever of its two partners it is looked up
/// from.
pub proof fn lemma_conversation_lookup_symmetric(st: ScopeView, a: Seq<char>, b: Seq<char>)
    ensures
        make_key(a, b) == make_key(b, a),
        conversation_of(st, a, b) == conversation_of(st, b, a),
{
    lemma_make_key_symmetric(a, b);
}

/// With a cap of at least one, registering a session never leaves a user
/// with more sessions than the cap; a user who is at the cap has the next
/// registration refused, and nothing changes.
pub proof fn lemma_session_cap(
    users: Map<Seq<char>, Seq<SessionId>>,
    u: Seq<char>,
    s: SessionId,
    max: int,
)
    requires
        max >= 1,
        forall|v: Seq<char>| #[trigger] users.contains_key(v) ==> users[v].len() <= max,
    ensures
        forall|v: Seq<char>| #[trigger]
            add_session(users, u, s, max).0.contains_key(v) ==> add_session(
                users,
                u,
                s,
                max,
            ).0[v].len() <= max,
        users.contains_key(u) && users[u].len() == max ==> add_session(users, u, s, max) == (
            users,
            false,
        ),
{
    let after = add_session(users, u, s, max).0;
    assert forall|v: Seq<char>| #[trigger] after.contains_key(v) implies after[v].len() <= max by {
        if v != u {
            assert(users.contains_key(v));
        }
    }
}

/// Taking a session away twice is the same as once; taking away a session
/// that is not registered changes nothing; no other user is touched.
pub proof fn lemma_remove_session_idempotent(
    users: Map<Seq<char>, Seq<SessionId>>,
    u: Seq<char>,
    s: SessionId,
)
    requires
        registry_valid(users),
    ensures
        remove_session(remove_session(users, u, s), u, s) == remove_session(users, u, s),
        !users.contains_key(u) || !users[u].contains(s) ==> remove_session(users, u, s) == users,
        forall|v: Seq<char>|
            v != u ==> (#[trigger] remove_session(users, u, s).contains_key(v)
                == users.contains_key(v)) && (users.contains_key(v) ==> remove_session(
                users,
                u,
                s,
            )[v] == users[v]),
{
    if users.contains_key(u) {
        let w = without_handle(users[u], s);
        lemma_without_handle(users[u], s);
        lemma_without_handle(w, s);
        assert(!w.contains(s));
        if w.len() == 0 {
            assert(remove_session(users.remove(u), u, s) == users.remove(u));
        } else {
            let once = users.insert(u, w);
            assert(once[u] == w);
            assert(remove_session(once, u, s) == once.insert(u, w));
            assert(once.insert(u, w) =~= once);
        }
        if !users[u].contains(s) {
            assert(users[u].len() > 0);
            assert(users.insert(u, users[u]) =~= users);
        }
    }
}

/// A sequence just opened accepts its first message; the same index again
/// is refused as out of order, and so is an index that skips one.
pub proof fn lemma_sequence_handshake(st: ScopeView, a: Seq<char>, b: Seq<char>)
    requires
        can_allocate(st, a, b),
    ensures
        ({
            let (st1, id) = allocate_sequence(st, a, b);
            let (st2, first) = advance_sequence(st1, a, b, id, 1);
            &&& first == Ok::<(), SequenceError>(())
            &&& advance_sequence(st2, a, b, id, 1).1 == Err::<(), SequenceError>(
                SequenceError::OutOfOrder { expected: 2, got: 1 },
            )
            &&& advance_sequence(st2, a, b, id, 3).1 == Err::<(), SequenceError>(
                SequenceError::OutOfOrder { expected: 2, got: 3 },
            )
        }),
{
    let (st1, id) = allocate_sequence(st, a, b);
    let low = sender_is_low(a, b);
    let k = make_key(a, b);
    let d = direction_of(conversation_of(st, a, b), low);
    assert(st1.conversations.contains_key(k));
    let d1 = direction_of(st1.conversations[k], low);
    assert(d1.progress == d.progress.push(0));
    assert(d1.id_offset == d.id_offset);
    let (st2, first) = advance_sequence(st1, a, b, id, 1);
    assert(st2.conversations.contains_key(k));
    let d2 = direction_of(st2.conversations[k], low);
    assert(d2.id_offset == d.id_offset);
    assert(d2.progress == d1.progress.update(d.progress.len() as int, 1));
    assert(d2.progress[d.progress.len() as int] == 1);
}

/// Message ids count the messages of a conversation in both directions
/// together: the first message gets 1, and a reply gets the next id after
/// the message it follows, as does a second message the same way.
pub proof fn lemma_message_ids_consecutive(
    st: ScopeView,
    a: Seq<char>,
    b: Seq<char>,
    c1: Seq<char>,
    c2: Seq<char>,
    t1: i64,
    t2: i64,
)
    requires
        conversation_of(st, a, b).id_offset + conversation_of(st, a, b).messages.len() + 1
            < u32::MAX,
    ensures
        ({
            let (st1, id1) = append_message(st, a, b, c1, t1);
            &&& !st.conversations.contains_key(make_key(a, b)) ==> id1 == 1
            &&& append_message(st1, b, a, c2, t2).1 == id1 + 1
            &&& append_message(st1, a, b, c2, t2).1 == id1 + 1
        }),
{
    lemma_make_key_symmetric(a, b);
    let (st1, id1) = append_message(st, a, b, c1, t1);
    let c = conversation_of(st, a, b);
    assert(conversation_of(st1, b, a).messages.len() == c.messages.len() + 1);
    assert(conversation_of(st1, b, a).id_offset == c.id_offset);
}

} // verus!
