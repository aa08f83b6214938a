//! A directory that holds its records in memory: identities, chat requests,
//! chats and messages, with the operations that the routing engine asks for.

use crate::calls::{DirectoryCall, DirectoryCallView, DirectoryReply, DirectoryReplyView};
use crate::database::{canonical_user_id, is_user_id_text, parse_user_id, user_from_record};
use crate::database::{chat_request_from_record, ensure_request_allowed, is_new_chat, new_chat};
use crate::database::{new_request, pending_request, request_admission, resolution_result};
use crate::database::{active_chats_of, assemble_active_chats, assemble_messages, copy_strings};
use crate::database::{ensure_may_view, messages_of, new_message, other_participant, participants_of};
use crate::database::{peer_of, seconds_of, whole_seconds, ChatWithPeer, ChatWithPeerView};
use crate::database::{MessageWithSender, MessageWithSenderView};
use crate::records::{ChatRecord, ChatRecordView, DirectoryError, MessageRecord, MessageRecordView};
use crate::records::{RequestRecord, RequestRecordView, RequestStatus, UserRecord, UserRecordView};
use crate::seqs::{any, first_index, first_match, is_first, is_rising, lemma_first_index_is};
use crate::seqs::{lemma_any_insert, lemma_any_update, lemma_filter_map_keeps_rising};
use crate::seqs::{lemma_filter_map_gains_insert, lemma_filter_map_has};
use crate::seqs::{lemma_filter_map_skips_insert, lemma_first_index, lemma_first_index_none};
use crate::seqs::{lemma_insert_keeps_rising, lemma_slot_rising_is, slot_rising};
use crate::types::{views, ActiveChat, ActiveChatView, ChatMessage, ChatMessageView};
use crate::types::{ChatRequest, ChatRequestView, User, UserView};
use vstd::prelude::*;
use vstd::string::StringExecFns;

verus! {

/// The directory as a mathematical value: its four collections, each in
/// the order in which the store holds it.
#[verifier::ext_equal]
pub struct DirectoryView {
    pub users: Seq<UserRecordView>,
    pub requests: Seq<RequestRecordView>,
    pub chats: Seq<ChatRecordView>,
    pub messages: Seq<MessageRecordView>,
}

impl DirectoryView {
    /// At most one pending request relates any two identities.
    pub open spec fn one_pending_per_pair(self) -> bool {
        forall|i: int, j: int|
            0 <= i < j < self.requests.len() && (#[trigger] self.requests[i]).status
                == RequestStatus::Pending ==> !(#[trigger] self.requests[j]).is_pending_between(
                self.requests[i].from_user_id,
                self.requests[i].to_user_id,
            )
    }

    /// Every chat has exactly two participants.
    pub open spec fn chats_of_two(self) -> bool {
        forall|i: int| 0 <= i < self.chats.len() ==> (#[trigger] self.chats[i]).participants.len() == 2
    }

    /// The directory invariant: messages are held in the order of their
    /// timestamps, at most one pending request relates any two identities,
    /// and every chat has exactly two participants.
    pub open spec fn wf(self) -> bool {
        &&& is_rising(self.messages, |m: MessageRecordView| m.timestamp as int)
        &&& self.one_pending_per_pair()
        &&& self.chats_of_two()
    }

    /// Whether `after` keeps every chat of this directory in its place,
    /// under its identifier and with its participants.
    pub open spec fn keeps_chats(self, after: Self) -> bool {
        &&& self.chats.len() <= after.chats.len()
        &&& forall|i: int|
            0 <= i < self.chats.len() ==> (#[trigger] after.chats[i]).chat_id
                == self.chats[i].chat_id && after.chats[i].participants
                == self.chats[i].participants
    }

    /// The directory without any record.
    pub open spec fn empty() -> Self {
        DirectoryView {
            users: Seq::empty(),
            requests: Seq::empty(),
            chats: Seq::empty(),
            messages: Seq::empty(),
        }
    }

    /// The stored identity with the canonical identifier `canonical`.
    pub open spec fn record_by_id(self, canonical: Seq<char>) -> Option<UserRecordView> {
        first_match(self.users, |u: UserRecordView| u.user_id == canonical)
    }

    /// What a lookup by subject identifier returns: the identity is reported
    /// under the identifier as it was given.
    pub open spec fn user_by_id(self, user_id: Seq<char>) -> Result<
        Option<UserView>,
        DirectoryError,
    > {
        if !is_user_id_text(user_id) {
            Err(DirectoryError::InvalidUserId)
        } else {
            Ok(
                match self.record_by_id(canonical_user_id(user_id)) {
                    Some(record) => Some(record.as_user(user_id)),
                    None => None,
                },
            )
        }
    }

    /// What a lookup by display name returns.
    pub open spec fn user_by_username(self, username: Seq<char>) -> Option<UserView> {
        match first_match(self.users, |u: UserRecordView| u.username == username) {
            Some(record) => Some(record.as_user(record.user_id)),
            None => None,
        }
    }

    /// The directory with one more stored identity.
    pub open spec fn with_user(self, record: UserRecordView) -> Self {
        DirectoryView {
            users: self.users.push(record),
            requests: self.requests,
            chats: self.chats,
            messages: self.messages,
        }
    }

    /// The users after the presence of the identity `canonical` has been
    /// recorded at the instant `now`.
    pub open spec fn users_with_presence(self, canonical: Seq<char>, online: bool, now: i64) -> Seq<
        UserRecordView,
    > {
        match first_index(self.users, |u: UserRecordView| u.user_id == canonical) {
            Some(i) => self.users.update(
                i,
                UserRecordView {
                    user_id: self.users[i].user_id,
                    username: self.users[i].username,
                    email: self.users[i].email,
                    online,
                    last_seen: Some(now),
                },
            ),
            None => self.users,
        }
    }

    /// The directory after a presence update: an identifier that is not
    /// well formed changes nothing, nor does one that no identity has.
    pub open spec fn after_presence(self, user_id: Seq<char>, online: bool, now: i64) -> Self {
        if !is_user_id_text(user_id) {
            self
        } else {
            DirectoryView {
                users: self.users_with_presence(canonical_user_id(user_id), online, now),
                requests: self.requests,
                chats: self.chats,
                messages: self.messages,
            }
        }
    }
}

impl DirectoryView {
    /// Whether a pending request relates `a` and `b`, in either direction.
    pub open spec fn has_pending_between(self, a: Seq<char>, b: Seq<char>) -> bool {
        any(self.requests, |r: RequestRecordView| r.is_pending_between(a, b))
    }

    /// Whether a chat relates `a` and `b`.
    pub open spec fn has_chat_between(self, a: Seq<char>, b: Seq<char>) -> bool {
        any(self.chats, |c: ChatRecordView| c.relates(a, b))
    }

    /// Whether a request from `from` to `to` is admitted; if so, the display
    /// name under which the sender is stored.
    pub open spec fn request_outcome(self, from: Seq<char>, to: Seq<char>) -> Result<
        Seq<char>,
        DirectoryError,
    > {
        match request_admission(self.has_pending_between(from, to), self.has_chat_between(from, to)) {
            Err(e) => Err(e),
            Ok(_) => match self.user_by_id(from) {
                Err(e) => Err(e),
                Ok(None) => Err(DirectoryError::SenderNotFound),
                Ok(Some(sender)) => Ok(sender.username),
            },
        }
    }

    /// The directory after a request from `from` to `to` at the instant
    /// `now`: an admitted request is stored as pending; a rejected one
    /// changes nothing.
    pub open spec fn after_request(self, from: Seq<char>, to: Seq<char>, now: i64) -> Self {
        match self.request_outcome(from, to) {
            Ok(from_username) => DirectoryView {
                users: self.users,
                requests: self.requests.push(pending_request(from, to, from_username, now)),
                chats: self.chats,
                messages: self.messages,
            },
            Err(_) => self,
        }
    }

    /// The pending requests addressed to `user_id`, as they are listed.
    pub open spec fn pending_requests_for(self, user_id: Seq<char>) -> Seq<ChatRequestView> {
        self.requests.filter_map(
            |r: RequestRecordView|
                if r.status == RequestStatus::Pending && r.to_user_id == user_id {
                    Some(r.listing())
                } else {
                    None
                },
        )
    }

    /// The position of the pending request from `from` to `to` that a
    /// resolution closes: the first one.
    pub open spec fn pending_index(self, from: Seq<char>, to: Seq<char>) -> Option<int> {
        first_index(self.requests, |r: RequestRecordView| r.is_pending_from_to(from, to))
    }

    /// The requests after the pending request from `from` to `to` has been
    /// closed with `status`; unchanged where there is none.
    pub open spec fn requests_resolved(self, from: Seq<char>, to: Seq<char>, status: RequestStatus) -> Seq<
        RequestRecordView,
    > {
        match self.pending_index(from, to) {
            Some(i) => self.requests.update(i, self.requests[i].with_status(status)),
            None => self.requests,
        }
    }

    /// The directory after the pending request from `from` to `to` has been
    /// declined.
    pub open spec fn after_decline(self, from: Seq<char>, to: Seq<char>) -> Self {
        DirectoryView {
            users: self.users,
            requests: self.requests_resolved(from, to, RequestStatus::Declined),
            chats: self.chats,
            messages: self.messages,
        }
    }

    /// Whether `after` is the directory once the pending request from `from`
    /// to `to` has been accepted at the instant `now` and `chat` created for
    /// it: the request is closed as accepted, and `chat`, with exactly the
    /// two participants, is the one record added.
    pub open spec fn accepted_into(
        self,
        after: Self,
        from: Seq<char>,
        to: Seq<char>,
        now: i64,
        chat: ChatRecordView,
    ) -> bool {
        &&& self.pending_index(from, to) is Some
        &&& is_new_chat(chat, from, to, now)
        &&& after == (DirectoryView {
            users: self.users,
            requests: self.requests_resolved(from, to, RequestStatus::Accepted),
            chats: self.chats.push(chat),
            messages: self.messages,
        })
    }
}


impl DirectoryView {
    /// What the directory knows of the participant that a listing of `chat`
    /// for `user_id` names.
    pub open spec fn peer_record(self, chat: ChatRecordView, user_id: Seq<char>) -> Option<UserView> {
        match self.user_by_id(peer_of(chat.participants, user_id)) {
            Ok(found) => found,
            Err(_) => None,
        }
    }

    /// The chats in which `user_id` takes part, each with its peer.
    pub open spec fn chat_entries_for(self, user_id: Seq<char>) -> Seq<ChatWithPeerView> {
        self.chats.filter_map(
            |c: ChatRecordView|
                if c.has_participant(user_id) {
                    Some(ChatWithPeerView { chat: c, peer: self.peer_record(c, user_id) })
                } else {
                    None
                },
        )
    }

    /// Whether some chat of `user_id` names a peer whose identifier is not
    /// well formed.
    pub open spec fn has_unreadable_peer(self, user_id: Seq<char>) -> bool {
        any(
            self.chats,
            |c: ChatRecordView|
                c.has_participant(user_id) && !is_user_id_text(peer_of(c.participants, user_id)),
        )
    }

    /// What listing the chats of `user_id` returns.
    pub open spec fn active_chats_for(self, user_id: Seq<char>) -> Result<
        Seq<ActiveChatView>,
        DirectoryError,
    > {
        if self.has_unreadable_peer(user_id) {
            Err(DirectoryError::InvalidUserId)
        } else {
            Ok(active_chats_of(self.chat_entries_for(user_id)))
        }
    }

    /// The chats after the first chat named `chat_id` has had a message at
    /// the instant `at`.
    pub open spec fn chats_touched(self, chat_id: Seq<char>, at: i64) -> Seq<ChatRecordView> {
        match first_index(self.chats, |c: ChatRecordView| c.chat_id == chat_id) {
            Some(i) => self.chats.update(i, self.chats[i].touched(at)),
            None => self.chats,
        }
    }

    /// The directory after `record` has been stored: the message stands
    /// behind every message that is not later than it, and its chat counts
    /// the message as its latest activity.
    pub open spec fn after_message(self, record: MessageRecordView) -> Self {
        DirectoryView {
            users: self.users,
            requests: self.requests,
            chats: self.chats_touched(record.chat_id, record.timestamp),
            messages: self.messages.insert(
                slot_rising(
                    self.messages,
                    |m: MessageRecordView| m.timestamp as int,
                    record.timestamp as int,
                ),
                record,
            ),
        }
    }

    /// Whether `user_id` takes part in a chat named `chat_id`.
    pub open spec fn may_view(self, chat_id: Seq<char>, user_id: Seq<char>) -> bool {
        any(self.chats, |c: ChatRecordView| c.chat_id == chat_id && c.has_participant(user_id))
    }

    /// What the directory knows of the sender of a message.
    pub open spec fn sender_record(self, message: MessageRecordView) -> Option<UserView> {
        match self.user_by_id(message.from_user_id) {
            Ok(found) => found,
            Err(_) => None,
        }
    }

    /// The messages of the chat named `chat_id`, in stored order, each with
    /// its sender.
    pub open spec fn message_entries(self, chat_id: Seq<char>) -> Seq<MessageWithSenderView> {
        self.messages.filter_map(
            |m: MessageRecordView|
                if m.chat_id == chat_id {
                    Some(MessageWithSenderView { record: m, sender: self.sender_record(m) })
                } else {
                    None
                },
        )
    }

    /// Whether some message of the chat names a sender whose identifier is
    /// not well formed.
    pub open spec fn has_unreadable_sender(self, chat_id: Seq<char>) -> bool {
        any(
            self.messages,
            |m: MessageRecordView| m.chat_id == chat_id && !is_user_id_text(m.from_user_id),
        )
    }

    /// What listing the messages of a chat to `user_id` returns.
    pub open spec fn chat_messages(self, chat_id: Seq<char>, user_id: Seq<char>) -> Result<
        Seq<ChatMessageView>,
        DirectoryError,
    > {
        if !self.may_view(chat_id, user_id) {
            Err(DirectoryError::NotAuthorized)
        } else if self.has_unreadable_sender(chat_id) {
            Err(DirectoryError::InvalidUserId)
        } else {
            Ok(messages_of(self.message_entries(chat_id)))
        }
    }

    /// The participants of the first chat named `chat_id`.
    pub open spec fn participants(self, chat_id: Seq<char>) -> Result<
        Seq<Seq<char>>,
        DirectoryError,
    > {
        match first_match(self.chats, |c: ChatRecordView| c.chat_id == chat_id) {
            Some(chat) => Ok(chat.participants),
            None => Err(DirectoryError::ChatNotFound),
        }
    }
}


impl DirectoryView {
    /// Whether carrying out `call` at the instant `now` turns this directory
    /// into `after` and is answered with `reply`.
    pub open spec fn performs(
        self,
        after: Self,
        call: DirectoryCallView,
        now: i64,
        reply: DirectoryReplyView,
    ) -> bool {
        match call {
            DirectoryCallView::FindUserById { user_id } => after == self && reply
                == DirectoryReplyView::User(self.user_by_id(user_id)),
            DirectoryCallView::FindUserByUsername { username } => after == self && reply
                == DirectoryReplyView::User(Ok(self.user_by_username(username))),
            DirectoryCallView::UpdateUserOnlineStatus { user_id, online } => after
                == self.after_presence(user_id, online, now) && reply == DirectoryReplyView::Done(
                if is_user_id_text(user_id) {
                    Ok(())
                } else {
                    Err(DirectoryError::InvalidUserId)
                },
            ),
            DirectoryCallView::CreateChatRequest { from_user_id, to_user_id } => after
                == self.after_request(from_user_id, to_user_id, now) && reply
                == DirectoryReplyView::Done(
                match self.request_outcome(from_user_id, to_user_id) {
                    Ok(_) => Ok(()),
                    Err(e) => Err(e),
                },
            ),
            DirectoryCallView::GetChatRequestsForUser { user_id } => after == self && reply
                == DirectoryReplyView::Requests(Ok(self.pending_requests_for(user_id))),
            DirectoryCallView::AcceptChatRequest { from_user_id, to_user_id } => match reply {
                DirectoryReplyView::ChatId(Ok(chat_id)) => after.chats.len() > 0 && chat_id
                    == after.chats.last().chat_id && self.accepted_into(
                    after,
                    from_user_id,
                    to_user_id,
                    now,
                    after.chats.last(),
                ),
                DirectoryReplyView::ChatId(Err(e)) => e == DirectoryError::RequestNotFound
                    && self.pending_index(from_user_id, to_user_id) is None && after == self,
                _ => false,
            },
            DirectoryCallView::DeclineChatRequest { from_user_id, to_user_id } => after
                == self.after_decline(from_user_id, to_user_id) && reply
                == DirectoryReplyView::Done(
                if self.pending_index(from_user_id, to_user_id) is Some {
                    Ok(())
                } else {
                    Err(DirectoryError::RequestNotFound)
                },
            ),
            DirectoryCallView::GetActiveChatsForUser { user_id } => after == self && reply
                == DirectoryReplyView::Chats(self.active_chats_for(user_id)),
            DirectoryCallView::SaveMessage { chat_id, from_user_id, message } => after
                == self.after_message(
                MessageRecordView { chat_id, from_user_id, message, timestamp: now },
            ) && reply == DirectoryReplyView::Timestamp(Ok(whole_seconds(now) as i64)),
            DirectoryCallView::GetChatMessages { chat_id, user_id } => after == self && reply
                == DirectoryReplyView::Messages(self.chat_messages(chat_id, user_id)),
            DirectoryCallView::GetChatParticipants { chat_id } => after == self && reply
                == DirectoryReplyView::Participants(self.participants(chat_id)),
        }
    }
}


/// The directory's records, held in memory.
pub struct Directory {
    users: Vec<UserRecord>,
    requests: Vec<RequestRecord>,
    chats: Vec<ChatRecord>,
    messages: Vec<MessageRecord>,
}

impl View for Directory {
    type V = DirectoryView;

    closed spec fn view(&self) -> DirectoryView {
        DirectoryView {
            users: views(self.users@),
            requests: views(self.requests@),
            chats: views(self.chats@),
            messages: views(self.messages@),
        }
    }
}

impl Directory {
    /// The directory invariant holds of this directory.
    pub open spec fn wf(&self) -> bool {
        self@.wf()
    }

    /// A directory without records.
    pub fn new() -> (r: Self)
        ensures
            r.wf(),
            r@ == DirectoryView::empty(),
    {
        let r = Directory {
            users: Vec::new(),
            requests: Vec::new(),
            chats: Vec::new(),
            messages: Vec::new(),
        };
        proof {
            assert(r@ =~= DirectoryView::empty());
        }
        r
    }

    /// Stores an identity.
    pub fn insert_user(&mut self, record: UserRecord)
        requires
            old(self).wf(),
        ensures
            final(self).wf(),
            final(self)@ == old(self)@.with_user(record@),
    {
        self.users.push(record);
        proof {
            assert(self@ =~= old(self)@.with_user(record@));
        }
    }

    /// The position of the stored identity with a canonical identifier.
    fn position_by_id(&self, canonical: &String) -> (r: Option<usize>)
        ensures
            match r {
                Some(i) => first_index(
                    self@.users,
                    |u: UserRecordView| u.user_id == canonical@,
                ) == Some(i as int) && i < self.users.len(),
                None => first_index(self@.users, |u: UserRecordView| u.user_id == canonical@)
                    is None,
            },
    {
        let ghost p = |u: UserRecordView| u.user_id == canonical@;
        let ghost all = self@.users;
        let mut i: usize = 0;
        while i < self.users.len()
            invariant
                i <= self.users.len(),
                all == views(self.users@),
                p == |u: UserRecordView| u.user_id == canonical@,
                forall|j: int| 0 <= j < i ==> !#[trigger] p(all[j]),
            decreases self.users.len() - i,
        {
            if self.users[i].user_id == *canonical {
                proof {
                    assert(p(all[i as int]));
                    assert(is_first(all, p, i as int));
                    lemma_first_index_is(all, p, i as int);
                }
                return Some(i);
            }
            i += 1;
        }
        proof {
            lemma_first_index_none(all, p);
        }
        None
    }

    /// Looks an identity up by its subject identifier.
    pub fn find_user_by_id(&self, user_id: &str) -> (r: Result<Option<User>, DirectoryError>)
        ensures
            match r {
                Ok(found) => Ok::<Option<UserView>, DirectoryError>(crate::types::view_opt(found))
                    == self@.user_by_id(user_id@),
                Err(e) => Err::<Option<UserView>, DirectoryError>(e) == self@.user_by_id(user_id@),
            },
    {
        let canonical = parse_user_id(user_id)?;
        match self.position_by_id(&canonical) {
            Some(i) => Ok(Some(user_from_record(&self.users[i], String::from_str(user_id)))),
            None => Ok(None),
        }
    }

    /// Looks an identity up by its display name.
    pub fn find_user_by_username(&self, username: &str) -> (r: Result<
        Option<User>,
        DirectoryError,
    >)
        ensures
            r matches Ok(found) && crate::types::view_opt(found) == self@.user_by_username(
                username@,
            ),
    {
        let ghost p = |u: UserRecordView| u.username == username@;
        let ghost all = self@.users;
        let wanted = String::from_str(username);
        let mut i: usize = 0;
        while i < self.users.len()
            invariant
                i <= self.users.len(),
                all == views(self.users@),
                wanted@ == username@,
                p == |u: UserRecordView| u.username == username@,
                forall|j: int| 0 <= j < i ==> !#[trigger] p(all[j]),
            decreases self.users.len() - i,
        {
            if self.users[i].username == wanted {
                proof {
                    assert(p(all[i as int]));
                    assert(is_first(all, p, i as int));
                    lemma_first_index_is(all, p, i as int);
                }
                let user_id = self.users[i].user_id.clone();
                return Ok(Some(user_from_record(&self.users[i], user_id)));
            }
            i += 1;
        }
        proof {
            lemma_first_index_none(all, p);
        }
        Ok(None)
    }

    /// Records whether an identity is online, and the instant `now` as the
    /// time it was last seen.
    pub fn update_user_online_status(&mut self, user_id: &str, online: bool, now: i64) -> (r:
        Result<(), DirectoryError>)
        requires
            old(self).wf(),
        ensures
            final(self).wf(),
            final(self)@ == old(self)@.after_presence(user_id@, online, now),
            r == if is_user_id_text(user_id@) {
                Ok::<(), DirectoryError>(())
            } else {
                Err(DirectoryError::InvalidUserId)
            },
    {
        let canonical = parse_user_id(user_id)?;
        match self.position_by_id(&canonical) {
            Some(i) => {
                let record = UserRecord {
                    user_id: self.users[i].user_id.clone(),
                    username: self.users[i].username.clone(),
                    email: self.users[i].email.clone(),
                    online,
                    last_seen: Some(now),
                };
                self.users.set(i, record);
                proof {
                    assert(self@.users =~= old(self)@.users_with_presence(
                        canonical@,
                        online,
                        now,
                    ));
                    assert(self@ =~= old(self)@.after_presence(user_id@, online, now));
                }
            },
            None => {
                proof {
                    assert(self@ =~= old(self)@.after_presence(user_id@, online, now));
                }
            },
        }
        Ok(())
    }

    /// Whether a pending request relates `a` and `b`, in either direction.
    pub fn pending_between(&self, a: &str, b: &str) -> (r: bool)
        ensures
            r == self@.has_pending_between(a@, b@),
    {
        let ghost p = |r: RequestRecordView| r.is_pending_between(a@, b@);
        let ghost all = self@.requests;
        let first = String::from_str(a);
        let second = String::from_str(b);
        let mut i: usize = 0;
        while i < self.requests.len()
            invariant
                i <= self.requests.len(),
                all == views(self.requests@),
                first@ == a@,
                second@ == b@,
                p == |r: RequestRecordView| r.is_pending_between(a@, b@),
                forall|j: int| 0 <= j < i ==> !#[trigger] p(all[j]),
            decreases self.requests.len() - i,
        {
            let request = &self.requests[i];
            if request.status == RequestStatus::Pending && ((request.from_user_id == first
                && request.to_user_id == second) || (request.from_user_id == second
                && request.to_user_id == first)) {
                proof {
                    assert(p(all[i as int]));
                }
                return true;
            }
            i += 1;
        }
        false
    }

    /// Whether a chat relates `a` and `b`.
    pub fn chat_between(&self, a: &str, b: &str) -> (r: bool)
        ensures
            r == self@.has_chat_between(a@, b@),
    {
        let ghost p = |c: ChatRecordView| c.relates(a@, b@);
        let ghost all = self@.chats;
        let first = String::from_str(a);
        let second = String::from_str(b);
        let mut i: usize = 0;
        while i < self.chats.len()
            invariant
                i <= self.chats.len(),
                all == views(self.chats@),
                first@ == a@,
                second@ == b@,
                p == |c: ChatRecordView| c.relates(a@, b@),
                forall|j: int| 0 <= j < i ==> !#[trigger] p(all[j]),
            decreases self.chats.len() - i,
        {
            if has_participant(&self.chats[i], &first) && has_participant(&self.chats[i], &second) {
                proof {
                    assert(p(all[i as int]));
                }
                return true;
            }
            i += 1;
        }
        false
    }

    /// Stores a pending request from `from` to `to`, unless a pending request
    /// or a chat already relates the two, or the sender is unknown.
    pub fn create_chat_request(&mut self, from_user_id: &str, to_user_id: &str, now: i64) -> (r:
        Result<(), DirectoryError>)
        requires
            old(self).wf(),
        ensures
            final(self).wf(),
            final(self)@ == old(self)@.after_request(from_user_id@, to_user_id@, now),
            r == match old(self)@.request_outcome(from_user_id@, to_user_id@) {
                Ok(_) => Ok::<(), DirectoryError>(()),
                Err(e) => Err(e),
            },
    {
        let pending = self.pending_between(from_user_id, to_user_id);
        let chat = self.chat_between(from_user_id, to_user_id);
        ensure_request_allowed(pending, chat)?;
        let sender = self.find_user_by_id(from_user_id)?;
        let record = new_request(from_user_id, to_user_id, sender, now)?;
        self.requests.push(record);
        proof {
            let before = old(self)@;
            assert(self@ =~= before.after_request(from_user_id@, to_user_id@, now));
            assert forall|i: int, j: int|
                0 <= i < j < self@.requests.len() && (#[trigger] self@.requests[i]).status
                    == RequestStatus::Pending implies !(#[trigger] self@.requests[j]).is_pending_between(
                self@.requests[i].from_user_id,
                self@.requests[i].to_user_id,
            ) by {
                if j == before.requests.len() {
                    let p = |r: RequestRecordView| r.is_pending_between(from_user_id@, to_user_id@);
                    assert(!p(before.requests[i]));
                } else {
                    assert(before.requests[i] == self@.requests[i]);
                    assert(before.requests[j] == self@.requests[j]);
                }
            }
        }
        Ok(())
    }

    /// Lists the pending requests addressed to an identity.
    pub fn get_chat_requests_for_user(&self, user_id: &str) -> (r: Result<
        Vec<ChatRequest>,
        DirectoryError,
    >)
        ensures
            r matches Ok(list) && views(list@) == self@.pending_requests_for(user_id@),
    {
        let ghost f = |r: RequestRecordView|
            if r.status == RequestStatus::Pending && r.to_user_id == user_id@ {
                Some(r.listing())
            } else {
                None
            };
        let ghost src = self@.requests;
        let wanted = String::from_str(user_id);
        let mut out: Vec<ChatRequest> = Vec::new();
        let mut i: usize = 0;
        proof {
            assert(src.take(0).filter_map(f) =~= Seq::<ChatRequestView>::empty());
            assert(views(out@) =~= src.take(0).filter_map(f));
        }
        while i < self.requests.len()
            invariant
                i <= self.requests.len(),
                src == views(self.requests@),
                wanted@ == user_id@,
                f == |r: RequestRecordView|
                    if r.status == RequestStatus::Pending && r.to_user_id == user_id@ {
                        Some(r.listing())
                    } else {
                        None
                    },
                views(out@) == src.take(i as int).filter_map(f),
            decreases self.requests.len() - i,
        {
            let ghost before = views(out@);
            proof {
                src.lemma_filter_map_take_succ(f, i as int);
            }
            let request = &self.requests[i];
            if request.status == RequestStatus::Pending && request.to_user_id == wanted {
                let listing = chat_request_from_record(request);
                out.push(listing);
                proof {
                    assert(f(src[i as int]) == Some(listing@));
                    assert(views(out@) =~= before + seq![listing@]);
                }
            } else {
                proof {
                    assert(f(src[i as int]) is None);
                    assert(src.take(i as int + 1).filter_map(f) =~= before);
                }
            }
            i += 1;
        }
        proof {
            assert(src.take(self.requests.len() as int) =~= src);
        }
        Ok(out)
    }

    /// Closes the first pending request from `from` to `to` with `status`,
    /// and tells how many requests it closed: one or none.
    fn resolve(&mut self, from: &str, to: &str, status: RequestStatus) -> (matched: u64)
        requires
            old(self).wf(),
            status != RequestStatus::Pending,
        ensures
            final(self).wf(),
            final(self)@ == (DirectoryView {
                users: old(self)@.users,
                requests: old(self)@.requests_resolved(from@, to@, status),
                chats: old(self)@.chats,
                messages: old(self)@.messages,
            }),
            matched == if old(self)@.pending_index(from@, to@) is Some {
                1u64
            } else {
                0u64
            },
    {
        let ghost p = |r: RequestRecordView| r.is_pending_from_to(from@, to@);
        let ghost all = self@.requests;
        let sender = String::from_str(from);
        let recipient = String::from_str(to);
        let mut i: usize = 0;
        while i < self.requests.len()
            invariant
                i <= self.requests.len(),
                *self == *old(self),
                old(self).wf(),
                status != RequestStatus::Pending,
                all == views(self.requests@),
                all == self@.requests,
                sender@ == from@,
                recipient@ == to@,
                p == |r: RequestRecordView| r.is_pending_from_to(from@, to@),
                forall|j: int| 0 <= j < i ==> !#[trigger] p(all[j]),
            decreases self.requests.len() - i,
        {
            let request = &self.requests[i];
            if request.status == RequestStatus::Pending && request.from_user_id == sender
                && request.to_user_id == recipient {
                let closed = RequestRecord {
                    from_user_id: request.from_user_id.clone(),
                    to_user_id: request.to_user_id.clone(),
                    from_username: request.from_username.clone(),
                    status,
                    created_at: request.created_at,
                };
                self.requests.set(i, closed);
                proof {
                    let before = old(self)@;
                    assert(p(all[i as int]));
                    assert(is_first(all, p, i as int));
                    lemma_first_index_is(all, p, i as int);
                    assert(self@.requests =~= before.requests_resolved(from@, to@, status));
                    assert(self@ =~= (DirectoryView {
                        users: before.users,
                        requests: before.requests_resolved(from@, to@, status),
                        chats: before.chats,
                        messages: before.messages,
                    }));
                    assert forall|a: int, b: int|
                        0 <= a < b < self@.requests.len() && (#[trigger] self@.requests[a]).status
                            == RequestStatus::Pending implies !(
                        #[trigger] self@.requests[b]).is_pending_between(
                        self@.requests[a].from_user_id,
                        self@.requests[a].to_user_id,
                    ) by {
                        assert(self@.requests[i as int] == before.requests[i as int].with_status(
                            status,
                        ));
                        if a != i && b != i {
                            assert(before.requests[a] == self@.requests[a]);
                            assert(before.requests[b] == self@.requests[b]);
                        }
                    }
                }
                return 1;
            }
            i += 1;
        }
        proof {
            lemma_first_index_none(all, p);
            assert(self@ =~= (DirectoryView {
                users: old(self)@.users,
                requests: old(self)@.requests_resolved(from@, to@, status),
                chats: old(self)@.chats,
                messages: old(self)@.messages,
            }));
        }
        0
    }

    /// Accepts the pending request from `from` to `to` and creates the chat
    /// of the two. Returns the identifier of the new chat.
    pub fn accept_chat_request(&mut self, from_user_id: &str, to_user_id: &str, now: i64) -> (r:
        Result<String, DirectoryError>)
        requires
            old(self).wf(),
        ensures
            final(self).wf(),
            match r {
                Ok(chat_id) => final(self)@.chats.len() > 0 && chat_id@
                    == final(self)@.chats.last().chat_id && old(self)@.accepted_into(
                    final(self)@,
                    from_user_id@,
                    to_user_id@,
                    now,
                    final(self)@.chats.last(),
                ),
                Err(e) => e == DirectoryError::RequestNotFound && old(self)@.pending_index(
                    from_user_id@,
                    to_user_id@,
                ) is None && final(self)@ == old(self)@,
            },
    {
        let matched = self.resolve(from_user_id, to_user_id, RequestStatus::Accepted);
        match resolution_result(matched) {
            Err(e) => {
                proof {
                    assert(self@ =~= old(self)@);
                }
                Err(e)
            },
            Ok(_) => {
                let chat = new_chat(from_user_id, to_user_id, now);
                let chat_id = chat.chat_id.clone();
                let ghost resolved = self@;
                self.chats.push(chat);
                proof {
                    assert(self@.chats =~= resolved.chats.push(chat@));
                    assert(self@ =~= (DirectoryView {
                        users: old(self)@.users,
                        requests: old(self)@.requests_resolved(
                            from_user_id@,
                            to_user_id@,
                            RequestStatus::Accepted,
                        ),
                        chats: old(self)@.chats.push(chat@),
                        messages: old(self)@.messages,
                    }));
                }
                Ok(chat_id)
            },
        }
    }

    /// Declines the pending request from `from` to `to`.
    pub fn decline_chat_request(&mut self, from_user_id: &str, to_user_id: &str) -> (r: Result<
        (),
        DirectoryError,
    >)
        requires
            old(self).wf(),
        ensures
            final(self).wf(),
            final(self)@ == old(self)@.after_decline(from_user_id@, to_user_id@),
            r == if old(self)@.pending_index(from_user_id@, to_user_id@) is Some {
                Ok::<(), DirectoryError>(())
            } else {
                Err(DirectoryError::RequestNotFound)
            },
    {
        let matched = self.resolve(from_user_id, to_user_id, RequestStatus::Declined);
        resolution_result(matched)
    }

    /// The position of the first chat with an identifier.
    fn chat_position(&self, chat_id: &String) -> (r: Option<usize>)
        ensures
            match r {
                Some(i) => first_index(
                    self@.chats,
                    |c: ChatRecordView| c.chat_id == chat_id@,
                ) == Some(i as int) && i < self.chats.len(),
                None => first_index(self@.chats, |c: ChatRecordView| c.chat_id == chat_id@)
                    is None,
            },
    {
        let ghost p = |c: ChatRecordView| c.chat_id == chat_id@;
        let ghost all = self@.chats;
        let mut i: usize = 0;
        while i < self.chats.len()
            invariant
                i <= self.chats.len(),
                all == views(self.chats@),
                p == |c: ChatRecordView| c.chat_id == chat_id@,
                forall|j: int| 0 <= j < i ==> !#[trigger] p(all[j]),
            decreases self.chats.len() - i,
        {
            if self.chats[i].chat_id == *chat_id {
                proof {
                    assert(p(all[i as int]));
                    assert(is_first(all, p, i as int));
                    lemma_first_index_is(all, p, i as int);
                }
                return Some(i);
            }
            i += 1;
        }
        proof {
            lemma_first_index_none(all, p);
        }
        None
    }

    /// Lists the chats of an identity, the most recently active first.
    pub fn get_active_chats_for_user(&self, user_id: &str) -> (r: Result<
        Vec<ActiveChat>,
        DirectoryError,
    >)
        ensures
            match r {
                Ok(list) => Ok::<Seq<ActiveChatView>, DirectoryError>(views(list@))
                    == self@.active_chats_for(user_id@),
                Err(e) => Err::<Seq<ActiveChatView>, DirectoryError>(e) == self@.active_chats_for(
                    user_id@,
                ),
            },
    {
        let ghost view = self@;
        let ghost f = |c: ChatRecordView|
            if c.has_participant(user_id@) {
                Some(ChatWithPeerView { chat: c, peer: view.peer_record(c, user_id@) })
            } else {
                None
            };
        let ghost bad = |c: ChatRecordView|
            c.has_participant(user_id@) && !is_user_id_text(peer_of(c.participants, user_id@));
        let ghost src = self@.chats;
        let own = String::from_str(user_id);
        let mut entries: Vec<ChatWithPeer> = Vec::new();
        let mut i: usize = 0;
        proof {
            assert(src.take(0).filter_map(f) =~= Seq::<ChatWithPeerView>::empty());
            assert(views(entries@) =~= src.take(0).filter_map(f));
        }
        while i < self.chats.len()
            invariant
                i <= self.chats.len(),
                view == self@,
                src == views(self.chats@),
                own@ == user_id@,
                f == |c: ChatRecordView|
                    if c.has_participant(user_id@) {
                        Some(ChatWithPeerView { chat: c, peer: view.peer_record(c, user_id@) })
                    } else {
                        None
                    },
                bad == |c: ChatRecordView|
                    c.has_participant(user_id@) && !is_user_id_text(
                        peer_of(c.participants, user_id@),
                    ),
                forall|j: int| 0 <= j < i ==> !#[trigger] bad(src[j]),
                views(entries@) == src.take(i as int).filter_map(f),
            decreases self.chats.len() - i,
        {
            let ghost before = views(entries@);
            proof {
                src.lemma_filter_map_take_succ(f, i as int);
            }
            let chat = &self.chats[i];
            if has_participant(chat, &own) {
                let peer_id = other_participant(&chat.participants, user_id);
                let peer = match self.find_user_by_id(peer_id.as_str()) {
                    Ok(found) => found,
                    Err(e) => {
                        proof {
                            assert(bad(src[i as int]));
                        }
                        return Err(e);
                    },
                };
                let entry = ChatWithPeer { chat: chat.duplicate(), peer };
                entries.push(entry);
                proof {
                    assert(f(src[i as int]) == Some(entry@));
                    assert(views(entries@) =~= before + seq![entry@]);
                }
            } else {
                proof {
                    assert(f(src[i as int]) is None);
                    assert(src.take(i as int + 1).filter_map(f) =~= before);
                }
            }
            i += 1;
        }
        proof {
            assert(src.take(self.chats.len() as int) =~= src);
        }
        Ok(assemble_active_chats(&entries))
    }

    /// Stores a message at the instant `now` and counts it as the latest
    /// activity of its chat. Returns the time of the message in seconds.
    pub fn save_message(&mut self, chat_id: &str, from_user_id: &str, message: &str, now: i64) -> (r:
        Result<i64, DirectoryError>)
        requires
            old(self).wf(),
        ensures
            final(self).wf(),
            final(self)@ == old(self)@.after_message(
                MessageRecordView {
                    chat_id: chat_id@,
                    from_user_id: from_user_id@,
                    message: message@,
                    timestamp: now,
                },
            ),
            r matches Ok(seconds) && seconds == whole_seconds(now),
    {
        let ghost key = |m: MessageRecordView| m.timestamp as int;
        let ghost all = self@.messages;
        let record = new_message(chat_id, from_user_id, message, now);
        let mut k: usize = 0;
        while k < self.messages.len() && self.messages[k].timestamp <= now
            invariant
                k <= self.messages.len(),
                *self == *old(self),
                all == views(self.messages@),
                key == |m: MessageRecordView| m.timestamp as int,
                forall|j: int| 0 <= j < k ==> key(#[trigger] all[j]) <= now,
            decreases self.messages.len() - k,
        {
            k += 1;
        }
        proof {
            lemma_slot_rising_is(all, key, now as int, k as int);
            lemma_insert_keeps_rising(all, key, record@);
        }
        self.messages.insert(k, record);
        let wanted = String::from_str(chat_id);
        let ghost stored = self@;
        proof {
            assert(stored.messages =~= all.insert(k as int, record@));
        }
        match self.chat_position(&wanted) {
            Some(i) => {
                let chat = &self.chats[i];
                let touched = ChatRecord {
                    chat_id: chat.chat_id.clone(),
                    participants: copy_strings(&chat.participants),
                    created_at: chat.created_at,
                    last_message_at: Some(now),
                };
                self.chats.set(i, touched);
                proof {
                    assert(self@.chats =~= old(self)@.chats_touched(chat_id@, now));
                    assert(self@.messages =~= stored.messages);
                }
            },
            None => {},
        }
        proof {
            assert(self@ =~= old(self)@.after_message(record@));
        }
        Ok(seconds_of(now))
    }

    /// Lists the messages of a chat to one of its participants, in the order
    /// of their timestamps.
    pub fn get_chat_messages(&self, chat_id: &str, user_id: &str) -> (r: Result<
        Vec<ChatMessage>,
        DirectoryError,
    >)
        ensures
            match r {
                Ok(list) => Ok::<Seq<ChatMessageView>, DirectoryError>(views(list@))
                    == self@.chat_messages(chat_id@, user_id@),
                Err(e) => Err::<Seq<ChatMessageView>, DirectoryError>(e) == self@.chat_messages(
                    chat_id@,
                    user_id@,
                ),
            },
    {
        let wanted = String::from_str(chat_id);
        let reader = String::from_str(user_id);
        ensure_may_view(self.holds_chat_with(&wanted, &reader))?;
        let ghost view = self@;
        let ghost f = |m: MessageRecordView|
            if m.chat_id == chat_id@ {
                Some(MessageWithSenderView { record: m, sender: view.sender_record(m) })
            } else {
                None
            };
        let ghost bad = |m: MessageRecordView|
            m.chat_id == chat_id@ && !is_user_id_text(m.from_user_id);
        let ghost src = self@.messages;
        let mut entries: Vec<MessageWithSender> = Vec::new();
        let mut i: usize = 0;
        proof {
            assert(src.take(0).filter_map(f) =~= Seq::<MessageWithSenderView>::empty());
            assert(views(entries@) =~= src.take(0).filter_map(f));
        }
        while i < self.messages.len()
            invariant
                i <= self.messages.len(),
                view == self@,
                view.may_view(chat_id@, user_id@),
                src == views(self.messages@),
                wanted@ == chat_id@,
                f == |m: MessageRecordView|
                    if m.chat_id == chat_id@ {
                        Some(MessageWithSenderView { record: m, sender: view.sender_record(m) })
                    } else {
                        None
                    },
                bad == |m: MessageRecordView|
                    m.chat_id == chat_id@ && !is_user_id_text(m.from_user_id),
                forall|j: int| 0 <= j < i ==> !#[trigger] bad(src[j]),
                views(entries@) == src.take(i as int).filter_map(f),
            decreases self.messages.len() - i,
        {
            let ghost before = views(entries@);
            proof {
                src.lemma_filter_map_take_succ(f, i as int);
            }
            let record = &self.messages[i];
            if record.chat_id == wanted {
                let sender = match self.find_user_by_id(record.from_user_id.as_str()) {
                    Ok(found) => found,
                    Err(e) => {
                        proof {
                            assert(bad(src[i as int]));
                        }
                        return Err(e);
                    },
                };
                let entry = MessageWithSender { record: record.duplicate(), sender };
                entries.push(entry);
                proof {
                    assert(f(src[i as int]) == Some(entry@));
                    assert(views(entries@) =~= before + seq![entry@]);
                }
            } else {
                proof {
                    assert(f(src[i as int]) is None);
                    assert(src.take(i as int + 1).filter_map(f) =~= before);
                }
            }
            i += 1;
        }
        proof {
            assert(src.take(self.messages.len() as int) =~= src);
        }
        Ok(assemble_messages(&entries))
    }

    /// Whether the store holds a chat of that identifier in which the
    /// identity takes part.
    fn holds_chat_with(&self, chat_id: &String, user_id: &String) -> (r: bool)
        ensures
            r == self@.may_view(chat_id@, user_id@),
    {
        let ghost p = |c: ChatRecordView| c.chat_id == chat_id@ && c.has_participant(user_id@);
        let ghost all = self@.chats;
        let mut i: usize = 0;
        while i < self.chats.len()
            invariant
                i <= self.chats.len(),
                all == views(self.chats@),
                p == |c: ChatRecordView| c.chat_id == chat_id@ && c.has_participant(user_id@),
                forall|j: int| 0 <= j < i ==> !#[trigger] p(all[j]),
            decreases self.chats.len() - i,
        {
            if self.chats[i].chat_id == *chat_id && has_participant(&self.chats[i], user_id) {
                proof {
                    assert(p(all[i as int]));
                }
                return true;
            }
            i += 1;
        }
        false
    }

    /// The participants of a chat.
    pub fn get_chat_participants(&self, chat_id: &str) -> (r: Result<Vec<String>, DirectoryError>)
        ensures
            match r {
                Ok(list) => Ok::<Seq<Seq<char>>, DirectoryError>(views(list@))
                    == self@.participants(chat_id@),
                Err(e) => Err::<Seq<Seq<char>>, DirectoryError>(e) == self@.participants(chat_id@),
            },
    {
        let wanted = String::from_str(chat_id);
        match self.chat_position(&wanted) {
            Some(i) => participants_of(Some(&self.chats[i])),
            None => participants_of(None),
        }
    }

    /// Carries out a call of the routing engine at the instant `now`.
    pub fn perform(&mut self, call: DirectoryCall, now: i64) -> (reply: DirectoryReply)
        requires
            old(self).wf(),
        ensures
            final(self).wf(),
            old(self)@.performs(final(self)@, call@, now, reply@),
    {
        match call {
            DirectoryCall::FindUserById { user_id } => DirectoryReply::User(
                self.find_user_by_id(user_id.as_str()),
            ),
            DirectoryCall::FindUserByUsername { username } => DirectoryReply::User(
                self.find_user_by_username(username.as_str()),
            ),
            DirectoryCall::UpdateUserOnlineStatus { user_id, online } => DirectoryReply::Done(
                self.update_user_online_status(user_id.as_str(), online, now),
            ),
            DirectoryCall::CreateChatRequest { from_user_id, to_user_id } => DirectoryReply::Done(
                self.create_chat_request(from_user_id.as_str(), to_user_id.as_str(), now),
            ),
            DirectoryCall::GetChatRequestsForUser { user_id } => DirectoryReply::Requests(
                self.get_chat_requests_for_user(user_id.as_str()),
            ),
            DirectoryCall::AcceptChatRequest { from_user_id, to_user_id } => DirectoryReply::ChatId(
                self.accept_chat_request(from_user_id.as_str(), to_user_id.as_str(), now),
            ),
            DirectoryCall::DeclineChatRequest { from_user_id, to_user_id } => DirectoryReply::Done(
                self.decline_chat_request(from_user_id.as_str(), to_user_id.as_str()),
            ),
            DirectoryCall::GetActiveChatsForUser { user_id } => DirectoryReply::Chats(
                self.get_active_chats_for_user(user_id.as_str()),
            ),
            DirectoryCall::SaveMessage { chat_id, from_user_id, message } => {
                DirectoryReply::Timestamp(
                    self.save_message(
                        chat_id.as_str(),
                        from_user_id.as_str(),
                        message.as_str(),
                        now,
                    ),
                )
            },
            DirectoryCall::GetChatMessages { chat_id, user_id } => DirectoryReply::Messages(
                self.get_chat_messages(chat_id.as_str(), user_id.as_str()),
            ),
            DirectoryCall::GetChatParticipants { chat_id } => DirectoryReply::Participants(
                self.get_chat_participants(chat_id.as_str()),
            ),
        }
    }

    /// The stored identities.
    pub fn users(&self) -> (r: &Vec<UserRecord>)
        ensures
            views(r@) == self@.users,
    {
        &self.users
    }

    /// The stored requests.
    pub fn requests(&self) -> (r: &Vec<RequestRecord>)
        ensures
            views(r@) == self@.requests,
    {
        &self.requests
    }

    /// The stored chats.
    pub fn chats(&self) -> (r: &Vec<ChatRecord>)
        ensures
            views(r@) == self@.chats,
    {
        &self.chats
    }

    /// The stored messages.
    pub fn messages(&self) -> (r: &Vec<MessageRecord>)
        ensures
            views(r@) == self@.messages,
    {
        &self.messages
    }
}

/// Whether an identity takes part in a chat.
pub fn has_participant(chat: &ChatRecord, user_id: &String) -> (r: bool)
    ensures
        r == chat@.has_participant(user_id@),
{
    let ghost all = views(chat.participants@);
    let mut i: usize = 0;
    while i < chat.participants.len()
        invariant
            i <= chat.participants.len(),
            all == views(chat.participants@),
            forall|j: int| 0 <= j < i ==> all[j] != user_id@,
        decreases chat.participants.len() - i,
    {
        if chat.participants[i] == *user_id {
            proof {
                assert(all[i as int] == user_id@);
            }
            return true;
        }
        i += 1;
    }
    false
}

impl DirectoryView {
    /// Whether `after` keeps every request of this directory in its place
    /// and every resolved one exactly as it is.
    pub open spec fn keeps_resolved_requests(self, after: Self) -> bool {
        &&& self.requests.len() <= after.requests.len()
        &&& forall|i: int|
            0 <= i < self.requests.len() && (#[trigger] self.requests[i]).status
                != RequestStatus::Pending ==> after.requests[i] == self.requests[i]
    }
}

/// A request that was refused as a duplicate has changed nothing, and is
/// refused as a duplicate again whenever it is retried.
pub proof fn lemma_duplicate_request_changes_nothing(
    directory: DirectoryView,
    from: Seq<char>,
    to: Seq<char>,
    now: i64,
)
    requires
        directory.request_outcome(from, to) == Err::<Seq<char>, DirectoryError>(
            DirectoryError::DuplicateRequest,
        ),
    ensures
        directory.after_request(from, to, now) == directory,
        directory.after_request(from, to, now).request_outcome(from, to) == Err::<
            Seq<char>,
            DirectoryError,
        >(DirectoryError::DuplicateRequest),
{
}

/// Once a request has been admitted, the same request, and the one in the
/// opposite direction, are refused as duplicates; and whatever is requested,
/// at most one pending request relates any two identities afterwards.
pub proof fn lemma_request_admitted_once(
    directory: DirectoryView,
    from: Seq<char>,
    to: Seq<char>,
    now: i64,
)
    requires
        directory.wf(),
    ensures
        directory.after_request(from, to, now).wf(),
        directory.request_outcome(from, to) is Ok ==> {
            let after = directory.after_request(from, to, now);
            &&& after.requests == directory.requests.push(after.requests.last())
            &&& after.requests.last().is_pending_from_to(from, to)
            &&& after.request_outcome(from, to) == Err::<Seq<char>, DirectoryError>(
                DirectoryError::DuplicateRequest,
            )
            &&& after.request_outcome(to, from) == Err::<Seq<char>, DirectoryError>(
                DirectoryError::DuplicateRequest,
            )
        },
{
    let after = directory.after_request(from, to, now);
    if directory.request_outcome(from, to) is Ok {
        let n = directory.requests.len() as int;
        let forward = |r: RequestRecordView| r.is_pending_between(from, to);
        let backward = |r: RequestRecordView| r.is_pending_between(to, from);
        assert(forward(after.requests[n]));
        assert(backward(after.requests[n]));
        assert forall|i: int, j: int|
            0 <= i < j < after.requests.len() && (#[trigger] after.requests[i]).status
                == RequestStatus::Pending implies !(#[trigger] after.requests[j]).is_pending_between(
            after.requests[i].from_user_id,
            after.requests[i].to_user_id,
        ) by {
            if j == n {
                assert(!forward(directory.requests[i]));
            } else {
                assert(directory.requests[i] == after.requests[i]);
                assert(directory.requests[j] == after.requests[j]);
            }
        }
    }
}

/// Accepting a request creates exactly one chat, whose participants are
/// exactly the requester and the recipient, and closes exactly the request
/// that was pending; no pending request from the one to the other is left.
pub proof fn lemma_accept_creates_one_chat(
    directory: DirectoryView,
    after: DirectoryView,
    from: Seq<char>,
    to: Seq<char>,
    now: i64,
    chat: ChatRecordView,
)
    requires
        directory.wf(),
        directory.accepted_into(after, from, to, now, chat),
    ensures
        after.wf(),
        after.chats == directory.chats.push(chat),
        chat.participants == seq![from, to],
        directory.pending_index(from, to) matches Some(i) && directory.requests[i].is_pending_from_to(
            from,
            to,
        ) && after.requests == directory.requests.update(
            i,
            directory.requests[i].with_status(RequestStatus::Accepted),
        ),
        after.pending_index(from, to) is None,
        directory.keeps_resolved_requests(after),
{
    let p = |r: RequestRecordView| r.is_pending_from_to(from, to);
    lemma_first_index(directory.requests, p);
    let i = directory.pending_index(from, to)->0;
    lemma_resolution_keeps_invariant(directory, from, to, RequestStatus::Accepted);
    assert(after.requests[i] == directory.requests[i].with_status(RequestStatus::Accepted));
    assert forall|j: int| 0 <= j < after.requests.len() implies !#[trigger] p(after.requests[j]) by {
        if j != i {
            assert(after.requests[j] == directory.requests[j]);
            if p(directory.requests[j]) {
                if i < j {
                    assert(directory.requests[j].is_pending_between(
                        directory.requests[i].from_user_id,
                        directory.requests[i].to_user_id,
                    ));
                } else {
                    assert(directory.requests[i].is_pending_between(
                        directory.requests[j].from_user_id,
                        directory.requests[j].to_user_id,
                    ));
                }
            }
        }
    }
    lemma_first_index_none(after.requests, p);
}

/// Closing a pending request keeps the directory invariant and every
/// resolved request as it is.
pub proof fn lemma_resolution_keeps_invariant(
    directory: DirectoryView,
    from: Seq<char>,
    to: Seq<char>,
    status: RequestStatus,
)
    requires
        directory.wf(),
        status != RequestStatus::Pending,
    ensures
        ({
            let resolved = directory.requests_resolved(from, to, status);
            &&& resolved.len() == directory.requests.len()
            &&& (DirectoryView {
                users: directory.users,
                requests: resolved,
                chats: directory.chats,
                messages: directory.messages,
            }).one_pending_per_pair()
            &&& forall|i: int|
                0 <= i < directory.requests.len() && (#[trigger] directory.requests[i]).status
                    != RequestStatus::Pending ==> resolved[i] == directory.requests[i]
        }),
{
    let p = |r: RequestRecordView| r.is_pending_from_to(from, to);
    lemma_first_index(directory.requests, p);
    let resolved = directory.requests_resolved(from, to, status);
    match directory.pending_index(from, to) {
        Some(k) => {
            assert(p(directory.requests[k]));
            assert(resolved[k] == directory.requests[k].with_status(status));
            assert forall|a: int, b: int|
                0 <= a < b < resolved.len() && (#[trigger] resolved[a]).status
                    == RequestStatus::Pending implies !(#[trigger] resolved[b]).is_pending_between(
                resolved[a].from_user_id,
                resolved[a].to_user_id,
            ) by {
                if a != k && b != k {
                    assert(directory.requests[a] == resolved[a]);
                    assert(directory.requests[b] == resolved[b]);
                }
            }
        },
        None => {},
    }
}

/// Declining a request closes it for good and touches nothing else.
pub proof fn lemma_decline_closes_request(directory: DirectoryView, from: Seq<char>, to: Seq<char>)
    requires
        directory.wf(),
    ensures
        directory.after_decline(from, to).wf(),
        directory.keeps_resolved_requests(directory.after_decline(from, to)),
        directory.after_decline(from, to).chats == directory.chats,
{
    lemma_resolution_keeps_invariant(directory, from, to, RequestStatus::Declined);
}

/// The messages of a chat are listed in the order of their timestamps.
pub proof fn lemma_messages_listed_in_time_order(directory: DirectoryView, chat_id: Seq<char>)
    requires
        directory.wf(),
    ensures
        is_rising(
            directory.message_entries(chat_id),
            |e: MessageWithSenderView| e.record.timestamp as int,
        ),
{
    let f = |m: MessageRecordView|
        if m.chat_id == chat_id {
            Some(MessageWithSenderView { record: m, sender: directory.sender_record(m) })
        } else {
            None
        };
    lemma_filter_map_keeps_rising(
        directory.messages,
        f,
        |m: MessageRecordView| m.timestamp as int,
        |e: MessageWithSenderView| e.record.timestamp as int,
    );
}

/// A message stored in one chat leaves the listing of every other chat as
/// it is: the same messages in the same order, and the same answer to
/// every reader.
pub proof fn lemma_message_elsewhere_is_unseen(
    directory: DirectoryView,
    record: MessageRecordView,
    chat_id: Seq<char>,
    user_id: Seq<char>,
)
    requires
        directory.wf(),
        record.chat_id != chat_id,
    ensures
        directory.after_message(record).wf(),
        directory.after_message(record).message_entries(chat_id) == directory.message_entries(
            chat_id,
        ),
        directory.after_message(record).chat_messages(chat_id, user_id) == directory.chat_messages(
            chat_id,
            user_id,
        ),
{
    let after = directory.after_message(record);
    let key = |m: MessageRecordView| m.timestamp as int;
    lemma_insert_keeps_rising(directory.messages, key, record);
    let k = slot_rising(directory.messages, key, record.timestamp as int);
    let f = |m: MessageRecordView|
        if m.chat_id == chat_id {
            Some(MessageWithSenderView { record: m, sender: directory.sender_record(m) })
        } else {
            None
        };
    let g = |m: MessageRecordView|
        if m.chat_id == chat_id {
            Some(MessageWithSenderView { record: m, sender: after.sender_record(m) })
        } else {
            None
        };
    assert(f =~= g);
    lemma_filter_map_skips_insert(directory.messages, f, k, record);
    let bad = |m: MessageRecordView| m.chat_id == chat_id && !is_user_id_text(m.from_user_id);
    lemma_any_insert(directory.messages, bad, k, record);
    let sees = |c: ChatRecordView| c.chat_id == chat_id && c.has_participant(user_id);
    let named = |c: ChatRecordView| c.chat_id == record.chat_id;
    lemma_first_index(directory.chats, named);
    match first_index(directory.chats, named) {
        Some(i) => {
            lemma_any_update(directory.chats, sees, i, directory.chats[i].touched(record.timestamp));
        },
        None => {},
    }
}

/// The participants of a chat are fixed when it is created: whatever is
/// requested, resolved or sent, every chat stays in its place, under its
/// identifier and with its two participants.
pub proof fn lemma_chat_membership_is_fixed(
    directory: DirectoryView,
    from: Seq<char>,
    to: Seq<char>,
    now: i64,
    record: MessageRecordView,
    accepted: DirectoryView,
    chat: ChatRecordView,
)
    requires
        directory.wf(),
    ensures
        directory.keeps_chats(directory.after_request(from, to, now)),
        directory.keeps_chats(directory.after_decline(from, to)),
        directory.keeps_chats(directory.after_message(record)),
        directory.after_message(record).chats.len() == directory.chats.len(),
        directory.accepted_into(accepted, from, to, now, chat) ==> directory.keeps_chats(accepted),
{
    let named = |c: ChatRecordView| c.chat_id == record.chat_id;
    lemma_first_index(directory.chats, named);
}

/// A stored message is in the listing of its chat. Once `record` is
/// stored, the messages of its chat are those of before and the new one,
/// with its sender; whoever could read the chat before can read it now;
/// and a listing that a reader is given holds the message, wherever the
/// directory knows its sender.
pub proof fn lemma_stored_message_is_listed(
    directory: DirectoryView,
    record: MessageRecordView,
    user_id: Seq<char>,
)
    requires
        directory.wf(),
    ensures
        ({
            let after = directory.after_message(record);
            let before = directory.message_entries(record.chat_id);
            let entry = MessageWithSenderView {
                record,
                sender: directory.sender_record(record),
            };
            &&& after.wf()
            &&& after.users == directory.users
            &&& after.message_entries(record.chat_id).contains(entry)
            &&& after.message_entries(record.chat_id).len() == before.len() + 1
            &&& after.message_entries(record.chat_id).to_multiset() == before.to_multiset().insert(
                entry,
            )
            &&& after.may_view(record.chat_id, user_id) == directory.may_view(
                record.chat_id,
                user_id,
            )
            &&& after.chat_messages(record.chat_id, user_id) matches Ok(listing) ==> (
            directory.sender_record(record) matches Some(sender) ==> listing.contains(
                record.listing(sender),
            ))
        }),
{
    let after = directory.after_message(record);
    let chat_id = record.chat_id;
    let key = |m: MessageRecordView| m.timestamp as int;
    lemma_insert_keeps_rising(directory.messages, key, record);
    let k = slot_rising(directory.messages, key, record.timestamp as int);
    let f = |m: MessageRecordView|
        if m.chat_id == chat_id {
            Some(MessageWithSenderView { record: m, sender: directory.sender_record(m) })
        } else {
            None
        };
    let g = |m: MessageRecordView|
        if m.chat_id == chat_id {
            Some(MessageWithSenderView { record: m, sender: after.sender_record(m) })
        } else {
            None
        };
    assert(f =~= g);
    let entry = MessageWithSenderView { record, sender: directory.sender_record(record) };
    let before = directory.message_entries(chat_id);
    lemma_filter_map_gains_insert(directory.messages, f, k, record, entry);
    let p = choose|p: int|
        0 <= p <= before.len() && directory.messages.insert(k, record).filter_map(f)
            == #[trigger] before.insert(p, entry);
    let entries = after.message_entries(chat_id);
    assert(entries == before.insert(p, entry));
    assert(entries[p] == entry);
    vstd::seq_lib::to_multiset_insert(before, p, entry);
    let sees = |c: ChatRecordView| c.chat_id == chat_id && c.has_participant(user_id);
    let named = |c: ChatRecordView| c.chat_id == chat_id;
    lemma_first_index(directory.chats, named);
    match first_index(directory.chats, named) {
        Some(i) => {
            lemma_any_update(directory.chats, sees, i, directory.chats[i].touched(record.timestamp));
        },
        None => {},
    }
    if let Some(sender) = directory.sender_record(record) {
        if after.chat_messages(chat_id, user_id) is Ok {
            lemma_filter_map_has(
                entries,
                |e: MessageWithSenderView| e.listed(),
                entry,
                record.listing(sender),
            );
        }
    }
}

} // verus!
