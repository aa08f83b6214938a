//! The rules of the directory, stated on plain records: which requests are
//! admitted, how records are shown to clients, and in which order listings
//! come out. Whoever holds the records, in memory or in a database, decides
//! by these functions.

use crate::records::{ChatRecord, ChatRecordView, DirectoryError, MessageRecord, MessageRecordView};
use crate::records::{RequestRecord, RequestRecordView, RequestStatus, UserRecord, UserRecordView};
use crate::seqs::{first_match, is_falling, is_first, largest_first, lemma_first_index_is};
use crate::seqs::{lemma_first_index_none, lemma_largest_first, lemma_slot_is};
use crate::types::{view_opt, views, ActiveChat, ActiveChatView, ChatMessage, ChatMessageView};
use crate::types::{ChatRequest, ChatRequestView, User, UserView};
use vstd::prelude::*;
use vstd::string::StringExecFns;

verus! {

/// The RFC 3339 text of the instant `millis` milliseconds after the Unix
/// epoch, in UTC; empty where the instant has no such text.
pub uninterp spec fn rfc3339_text(millis: i64) -> Seq<char>;

/// Trusted: `bson::DateTime::from_millis`, then `try_to_rfc3339_string`,
/// with an empty string in place of its error. The text depends on the
/// number of milliseconds alone.
#[verifier::external_body]
pub(crate) fn rfc3339(millis: i64) -> (r: String)
    ensures
        r@ == rfc3339_text(millis),
{
    bson::DateTime::from_millis(millis).try_to_rfc3339_string().unwrap_or_default()
}

/// A hexadecimal digit, in either case.
pub open spec fn is_hex_digit(c: char) -> bool {
    ('0' <= c && c <= '9') || ('a' <= c && c <= 'f') || ('A' <= c && c <= 'F')
}

/// A lower-case hexadecimal digit.
pub open spec fn is_lower_hex_digit(c: char) -> bool {
    ('0' <= c && c <= '9') || ('a' <= c && c <= 'f')
}

/// A hexadecimal digit in lower case; other characters as they are.
pub open spec fn lower_hex_digit(c: char) -> char {
    if c == 'A' {
        'a'
    } else if c == 'B' {
        'b'
    } else if c == 'C' {
        'c'
    } else if c == 'D' {
        'd'
    } else if c == 'E' {
        'e'
    } else if c == 'F' {
        'f'
    } else {
        c
    }
}

/// Whether `s` writes a subject identifier: twelve bytes as 24 hexadecimal
/// digits.
pub open spec fn is_user_id_text(s: Seq<char>) -> bool {
    s.len() == 24 && forall|i: int| 0 <= i < s.len() ==> is_hex_digit(#[trigger] s[i])
}

/// The canonical form of a subject identifier: its digits in lower case.
pub open spec fn canonical_user_id(s: Seq<char>) -> Seq<char> {
    s.map_values(|c: char| lower_hex_digit(c))
}

/// Trusted: `bson::oid::ObjectId::parse_str`, then `ObjectId::to_hex` on
/// what it parsed. Parsing succeeds exactly on 24 hexadecimal digits of
/// either case, and the twelve bytes come back as lower-case digits.
#[verifier::external_body]
fn object_id_hex(s: &str) -> (r: Option<String>)
    ensures
        r is Some <==> is_user_id_text(s@),
        r matches Some(hex) ==> hex@ == canonical_user_id(s@),
{
    match bson::oid::ObjectId::parse_str(s) {
        Ok(id) => Some(id.to_hex()),
        Err(_) => None,
    }
}

/// The text of a random identifier in hyphenated form: 32 lower-case
/// hexadecimal digits in groups of 8, 4, 4, 4 and 12.
pub open spec fn is_hyphenated_uuid(s: Seq<char>) -> bool {
    &&& s.len() == 36
    &&& forall|i: int|
        0 <= i < 36 ==> if i == 8 || i == 13 || i == 18 || i == 23 {
            #[trigger] s[i] == '-'
        } else {
            is_lower_hex_digit(s[i])
        }
}

/// Trusted: `uuid::Uuid::new_v4`, then its `Display` form. The identifier is
/// random; only its shape is known.
#[verifier::external_body]
fn random_chat_id() -> (r: String)
    ensures
        is_hyphenated_uuid(r@),
{
    uuid::Uuid::new_v4().to_string()
}

/// Checks a subject identifier and returns its canonical form.
pub fn parse_user_id(user_id: &str) -> (r: Result<String, DirectoryError>)
    ensures
        match r {
            Ok(canonical) => is_user_id_text(user_id@) && canonical@ == canonical_user_id(user_id@),
            Err(e) => !is_user_id_text(user_id@) && e == DirectoryError::InvalidUserId,
        },
{
    match object_id_hex(user_id) {
        Some(canonical) => Ok(canonical),
        None => Err(DirectoryError::InvalidUserId),
    }
}

impl UserRecordView {
    /// The record as the directory reports it under the identifier `user_id`.
    pub open spec fn as_user(self, user_id: Seq<char>) -> UserView {
        UserView {
            user_id,
            username: self.username,
            email: self.email,
            online: self.online,
            last_seen: match self.last_seen {
                Some(at) => Some(rfc3339_text(at)),
                None => None,
            },
        }
    }
}

/// Reports a stored identity under the identifier by which it was asked for.
pub fn user_from_record(record: &UserRecord, user_id: String) -> (r: User)
    ensures
        r@ == record@.as_user(user_id@),
{
    User {
        user_id,
        username: record.username.clone(),
        email: record.email.clone(),
        online: record.online,
        last_seen: match record.last_seen {
            Some(at) => Some(rfc3339(at)),
            None => None,
        },
    }
}

/// Whether a new request between two identities is admitted: not while a
/// pending request relates them, and not once a chat does.
pub open spec fn request_admission(pending_exists: bool, chat_exists: bool) -> Result<
    (),
    DirectoryError,
> {
    if pending_exists {
        Err(DirectoryError::DuplicateRequest)
    } else if chat_exists {
        Err(DirectoryError::ChatAlreadyExists)
    } else {
        Ok(())
    }
}

/// Decides whether a new request between two identities is admitted.
pub fn ensure_request_allowed(pending_exists: bool, chat_exists: bool) -> (r: Result<
    (),
    DirectoryError,
>)
    ensures
        r == request_admission(pending_exists, chat_exists),
{
    if pending_exists {
        Err(DirectoryError::DuplicateRequest)
    } else if chat_exists {
        Err(DirectoryError::ChatAlreadyExists)
    } else {
        Ok(())
    }
}

/// The pending request that `from`, known as `from_username`, sends to `to`
/// at the instant `now`.
pub open spec fn pending_request(
    from: Seq<char>,
    to: Seq<char>,
    from_username: Seq<char>,
    now: i64,
) -> RequestRecordView {
    RequestRecordView {
        from_user_id: from,
        to_user_id: to,
        from_username,
        status: RequestStatus::Pending,
        created_at: now,
    }
}

/// Drafts the record of a new request. The sender must be a known identity;
/// its display name is stored with the request.
pub fn new_request(from: &str, to: &str, sender: Option<User>, now: i64) -> (r: Result<
    RequestRecord,
    DirectoryError,
>)
    ensures
        match r {
            Ok(record) => sender matches Some(user) && record@ == pending_request(
                from@,
                to@,
                user@.username,
                now,
            ),
            Err(e) => sender is None && e == DirectoryError::SenderNotFound,
        },
{
    match sender {
        Some(user) => Ok(
            RequestRecord {
                from_user_id: String::from_str(from),
                to_user_id: String::from_str(to),
                from_username: user.username,
                status: RequestStatus::Pending,
                created_at: now,
            },
        ),
        None => Err(DirectoryError::SenderNotFound),
    }
}

/// Judges the resolution of a request by the number of pending requests
/// that it matched.
pub fn resolution_result(matched: u64) -> (r: Result<(), DirectoryError>)
    ensures
        r == if matched == 0 {
            Err::<(), DirectoryError>(DirectoryError::RequestNotFound)
        } else {
            Ok(())
        },
{
    if matched == 0 {
        Err(DirectoryError::RequestNotFound)
    } else {
        Ok(())
    }
}

/// Whether `chat` is a chat that an accepted request from `from` to `to`
/// creates at the instant `now`: it has exactly these two participants, the
/// requester first, and counts its creation as its latest activity.
pub open spec fn is_new_chat(chat: ChatRecordView, from: Seq<char>, to: Seq<char>, now: i64) -> bool {
    &&& is_hyphenated_uuid(chat.chat_id)
    &&& chat.participants == seq![from, to]
    &&& chat.created_at == now
    &&& chat.last_message_at == Some(now)
}

/// Drafts the chat that an accepted request creates, under a fresh random
/// identifier.
pub fn new_chat(from: &str, to: &str, now: i64) -> (r: ChatRecord)
    ensures
        is_new_chat(r@, from@, to@, now),
{
    let mut participants: Vec<String> = Vec::new();
    participants.push(String::from_str(from));
    participants.push(String::from_str(to));
    let chat = ChatRecord {
        chat_id: random_chat_id(),
        participants,
        created_at: now,
        last_message_at: Some(now),
    };
    assert(chat@.participants =~= seq![from@, to@]);
    chat
}

/// The participant of a chat that a listing for `user_id` names: the first
/// one that is not `user_id`, or the word `Unknown` where there is none.
pub open spec fn peer_of(participants: Seq<Seq<char>>, user_id: Seq<char>) -> Seq<char> {
    match first_match(participants, |p: Seq<char>| p != user_id) {
        Some(p) => p,
        None => "Unknown"@,
    }
}

/// Picks the participant that a listing for `user_id` names.
pub fn other_participant(participants: &Vec<String>, user_id: &str) -> (r: String)
    ensures
        r@ == peer_of(views(participants@), user_id@),
{
    let ghost p = |p: Seq<char>| p != user_id@;
    let ghost all = views(participants@);
    let own = String::from_str(user_id);
    let mut i: usize = 0;
    while i < participants.len()
        invariant
            i <= participants.len(),
            all == views(participants@),
            p == |p: Seq<char>| p != user_id@,
            own@ == user_id@,
            forall|j: int| 0 <= j < i ==> !#[trigger] p(all[j]),
        decreases participants.len() - i,
    {
        if participants[i] != own {
            proof {
                assert(p(all[i as int]));
                assert(is_first(all, p, i as int));
                lemma_first_index_is(all, p, i as int);
            }
            return participants[i].clone();
        }
        i += 1;
    }
    proof {
        lemma_first_index_none(all, p);
    }
    String::from_str("Unknown")
}

impl RequestRecordView {
    /// The request as it is listed to its recipient.
    pub open spec fn listing(self) -> ChatRequestView {
        ChatRequestView {
            from_user_id: self.from_user_id,
            from_username: self.from_username,
            to_user_id: self.to_user_id,
            created_at: rfc3339_text(self.created_at),
        }
    }
}

/// Lists a stored request.
pub fn chat_request_from_record(record: &RequestRecord) -> (r: ChatRequest)
    ensures
        r@ == record@.listing(),
{
    ChatRequest {
        from_user_id: record.from_user_id.clone(),
        from_username: record.from_username.clone(),
        to_user_id: record.to_user_id.clone(),
        created_at: rfc3339(record.created_at),
    }
}

impl ChatRecordView {
    /// The chat as it is listed to the participant whose peer is `peer`.
    pub open spec fn listing(self, peer: UserView) -> ActiveChatView {
        ActiveChatView {
            chat_id: self.chat_id,
            with_user: peer.username,
            with_user_id: peer.user_id,
            online: peer.online,
            last_message_at: rfc3339_text(self.activity()),
        }
    }
}

/// The time of a chat's most recent activity.
pub fn activity_of(chat: &ChatRecord) -> (r: i64)
    ensures
        r == chat@.activity(),
{
    match chat.last_message_at {
        Some(at) => at,
        None => chat.created_at,
    }
}

/// Lists a chat to the participant whose peer is `peer`.
pub fn active_chat(chat: &ChatRecord, peer: &User) -> (r: ActiveChat)
    ensures
        r@ == chat@.listing(peer@),
{
    ActiveChat {
        chat_id: chat.chat_id.clone(),
        with_user: peer.username.clone(),
        with_user_id: peer.user_id.clone(),
        online: peer.online,
        last_message_at: rfc3339(activity_of(chat)),
    }
}

/// A chat of a listing, with the directory's record of the peer if it has one.
#[derive(Debug)]
pub struct ChatWithPeer {
    pub chat: ChatRecord,
    pub peer: Option<User>,
}

pub struct ChatWithPeerView {
    pub chat: ChatRecordView,
    pub peer: Option<UserView>,
}

impl View for ChatWithPeer {
    type V = ChatWithPeerView;

    open spec fn view(&self) -> ChatWithPeerView {
        ChatWithPeerView { chat: self.chat@, peer: view_opt(self.peer) }
    }
}

/// A listed chat together with the time by which it is ranked.
pub struct RankedChat {
    pub at: int,
    pub listing: ActiveChatView,
}

impl ChatWithPeerView {
    /// The chat as it enters a listing; a chat whose peer the directory does
    /// not know is left out.
    pub open spec fn ranked(self) -> Option<RankedChat> {
        match self.peer {
            Some(peer) => Some(
                RankedChat { at: self.chat.activity() as int, listing: self.chat.listing(peer) },
            ),
            None => None,
        }
    }
}

/// The listing of a participant's chats: those whose peer is known, the
/// most recently active first; chats of equal activity keep their order.
pub open spec fn active_chats_of(entries: Seq<ChatWithPeerView>) -> Seq<ActiveChatView> {
    largest_first(
        entries.filter_map(|e: ChatWithPeerView| e.ranked()),
        |r: RankedChat| r.at,
    ).map_values(|r: RankedChat| r.listing)
}

spec fn ranked_views(v: Seq<(i64, ActiveChat)>) -> Seq<RankedChat> {
    Seq::new(v.len(), |i: int| RankedChat { at: v[i].0 as int, listing: v[i].1@ })
}

fn copy_active_chat(chat: &ActiveChat) -> (r: ActiveChat)
    ensures
        r@ == chat@,
{
    ActiveChat {
        chat_id: chat.chat_id.clone(),
        with_user: chat.with_user.clone(),
        with_user_id: chat.with_user_id.clone(),
        online: chat.online,
        last_message_at: chat.last_message_at.clone(),
    }
}

/// Lists a participant's chats, the most recently active first.
pub fn assemble_active_chats(entries: &Vec<ChatWithPeer>) -> (r: Vec<ActiveChat>)
    ensures
        views(r@) == active_chats_of(views(entries@)),
{
    let ghost src = views(entries@);
    let ghost f = |e: ChatWithPeerView| e.ranked();
    let ghost key = |r: RankedChat| r.at;
    let mut ranked: Vec<(i64, ActiveChat)> = Vec::new();
    let mut i: usize = 0;
    proof {
        assert(src.take(0).filter_map(f) =~= Seq::<RankedChat>::empty());
        assert(ranked_views(ranked@) =~= largest_first(src.take(0).filter_map(f), key));
    }
    while i < entries.len()
        invariant
            i <= entries.len(),
            src == views(entries@),
            f == |e: ChatWithPeerView| e.ranked(),
            key == |r: RankedChat| r.at,
            ranked_views(ranked@) == largest_first(src.take(i as int).filter_map(f), key),
        decreases entries.len() - i,
    {
        let ghost before = src.take(i as int).filter_map(f);
        proof {
            src.lemma_filter_map_take_succ(f, i as int);
        }
        match &entries[i].peer {
            Some(peer) => {
                let at = activity_of(&entries[i].chat);
                let listing = active_chat(&entries[i].chat, peer);
                let ghost x = RankedChat { at: at as int, listing: listing@ };
                let ghost rv = ranked_views(ranked@);
                let mut k: usize = 0;
                while k < ranked.len() && ranked[k].0 >= at
                    invariant
                        k <= ranked.len(),
                        rv == ranked_views(ranked@),
                        key == |r: RankedChat| r.at,
                        forall|j: int| 0 <= j < k ==> key(#[trigger] rv[j]) >= at,
                    decreases ranked.len() - k,
                {
                    k += 1;
                }
                proof {
                    lemma_slot_is(rv, key, at as int, k as int);
                }
                ranked.insert(k, (at, listing));
                proof {
                    assert(f(src[i as int]) == Some(x));
                    let after = src.take(i as int + 1).filter_map(f);
                    assert(after =~= before + seq![x]);
                    assert(after.drop_last() =~= before);
                    assert(after.last() == x);
                    assert(ranked_views(ranked@) =~= rv.insert(k as int, x));
                }
            },
            None => {
                proof {
                    assert(f(src[i as int]) is None);
                    assert(src.take(i as int + 1).filter_map(f) =~= before);
                }
            },
        }
        i += 1;
    }
    proof {
        assert(src.take(entries.len() as int) =~= src);
    }
    let mut out: Vec<ActiveChat> = Vec::new();
    let mut j: usize = 0;
    while j < ranked.len()
        invariant
            j <= ranked.len(),
            out.len() == j,
            forall|n: int| 0 <= n < j ==> (#[trigger] out[n])@ == ranked[n].1@,
        decreases ranked.len() - j,
    {
        out.push(copy_active_chat(&ranked[j].1));
        j += 1;
    }
    proof {
        assert(views(out@) =~= ranked_views(ranked@).map_values(|r: RankedChat| r.listing));
    }
    out
}

/// A stored message, with the directory's record of its sender if it has one.
#[derive(Debug)]
pub struct MessageWithSender {
    pub record: MessageRecord,
    pub sender: Option<User>,
}

pub struct MessageWithSenderView {
    pub record: MessageRecordView,
    pub sender: Option<UserView>,
}

impl View for MessageWithSender {
    type V = MessageWithSenderView;

    open spec fn view(&self) -> MessageWithSenderView {
        MessageWithSenderView { record: self.record@, sender: view_opt(self.sender) }
    }
}

impl MessageRecordView {
    /// The message as it is listed, under its sender's display name.
    pub open spec fn listing(self, sender: UserView) -> ChatMessageView {
        ChatMessageView {
            from_user_id: self.from_user_id,
            from_username: sender.username,
            message: self.message,
            timestamp: rfc3339_text(self.timestamp),
        }
    }
}

impl MessageWithSenderView {
    /// The message as it enters a listing; a message whose sender the
    /// directory does not know is left out.
    pub open spec fn listed(self) -> Option<ChatMessageView> {
        match self.sender {
            Some(sender) => Some(self.record.listing(sender)),
            None => None,
        }
    }
}

/// The listing of a chat's messages: those whose sender is known, in the
/// order in which the store holds them.
pub open spec fn messages_of(entries: Seq<MessageWithSenderView>) -> Seq<ChatMessageView> {
    entries.filter_map(|e: MessageWithSenderView| e.listed())
}

/// Lists a stored message under its sender's display name.
pub fn chat_message(record: &MessageRecord, sender: &User) -> (r: ChatMessage)
    ensures
        r@ == record@.listing(sender@),
{
    ChatMessage {
        from_user_id: record.from_user_id.clone(),
        from_username: sender.username.clone(),
        message: record.message.clone(),
        timestamp: rfc3339(record.timestamp),
    }
}

/// Lists the messages of a chat in stored order.
pub fn assemble_messages(entries: &Vec<MessageWithSender>) -> (r: Vec<ChatMessage>)
    ensures
        views(r@) == messages_of(views(entries@)),
{
    let ghost src = views(entries@);
    let ghost f = |e: MessageWithSenderView| e.listed();
    let mut out: Vec<ChatMessage> = Vec::new();
    let mut i: usize = 0;
    proof {
        assert(src.take(0).filter_map(f) =~= Seq::<ChatMessageView>::empty());
        assert(views(out@) =~= src.take(0).filter_map(f));
    }
    while i < entries.len()
        invariant
            i <= entries.len(),
            src == views(entries@),
            f == |e: MessageWithSenderView| e.listed(),
            views(out@) == src.take(i as int).filter_map(f),
        decreases entries.len() - i,
    {
        let ghost before = views(out@);
        proof {
            src.lemma_filter_map_take_succ(f, i as int);
        }
        match &entries[i].sender {
            Some(sender) => {
                let listing = chat_message(&entries[i].record, sender);
                out.push(listing);
                proof {
                    assert(f(src[i as int]) == Some(listing@));
                    assert(views(out@) =~= before + seq![listing@]);
                }
            },
            None => {
                proof {
                    assert(f(src[i as int]) is None);
                    assert(src.take(i as int + 1).filter_map(f) =~= before);
                }
            },
        }
        i += 1;
    }
    proof {
        assert(src.take(entries.len() as int) =~= src);
    }
    out
}

/// The record of a message that `from` sends to a chat at the instant `now`.
pub fn new_message(chat_id: &str, from: &str, message: &str, now: i64) -> (r: MessageRecord)
    ensures
        r@ == (MessageRecordView {
            chat_id: chat_id@,
            from_user_id: from@,
            message: message@,
            timestamp: now,
        }),
{
    MessageRecord {
        chat_id: String::from_str(chat_id),
        from_user_id: String::from_str(from),
        message: String::from_str(message),
        timestamp: now,
    }
}

/// Whole seconds of a time in milliseconds, rounded toward the epoch.
pub open spec fn whole_seconds(millis: i64) -> int {
    if millis >= 0 {
        millis / 1000
    } else {
        -((-millis) / 1000)
    }
}

/// The time of a message in whole seconds, as clients are told it.
pub fn seconds_of(millis: i64) -> (r: i64)
    ensures
        r == whole_seconds(millis),
{
    millis / 1000
}

/// Whether a chat may be read, given whether the store holds a chat of
/// that identifier in which the reader takes part.
pub fn ensure_may_view(chat_found: bool) -> (r: Result<(), DirectoryError>)
    ensures
        r == if chat_found {
            Ok::<(), DirectoryError>(())
        } else {
            Err(DirectoryError::NotAuthorized)
        },
{
    if chat_found {
        Ok(())
    } else {
        Err(DirectoryError::NotAuthorized)
    }
}

/// The participants of the chat that the store found, if it found one.
pub fn participants_of(chat: Option<&ChatRecord>) -> (r: Result<Vec<String>, DirectoryError>)
    ensures
        match r {
            Ok(participants) => chat matches Some(found) && views(participants@)
                == found@.participants,
            Err(e) => chat is None && e == DirectoryError::ChatNotFound,
        },
{
    match chat {
        Some(found) => Ok(copy_strings(&found.participants)),
        None => Err(DirectoryError::ChatNotFound),
    }
}

/// A copy of a list of strings.
pub fn copy_strings(list: &Vec<String>) -> (r: Vec<String>)
    ensures
        views(r@) == views(list@),
{
    let mut out: Vec<String> = Vec::new();
    let mut i: usize = 0;
    while i < list.len()
        invariant
            i <= list.len(),
            out.len() == i,
            forall|j: int| 0 <= j < i ==> (#[trigger] out[j])@ == list[j]@,
        decreases list.len() - i,
    {
        out.push(list[i].clone());
        i += 1;
    }
    proof {
        assert(views(out@) =~= views(list@));
    }
    out
}

/// The chats of a listing whose peer is known, ranked: the most recently
/// active first, chats of equal activity in the order of the entries.
pub open spec fn ranked_chats(entries: Seq<ChatWithPeerView>) -> Seq<RankedChat> {
    largest_first(entries.filter_map(|e: ChatWithPeerView| e.ranked()), |r: RankedChat| r.at)
}

/// A listing of chats shows each chat whose peer is known exactly once,
/// and no chat before a more recently active one.
pub proof fn lemma_active_chats_most_recent_first(entries: Seq<ChatWithPeerView>)
    ensures
        active_chats_of(entries) == ranked_chats(entries).map_values(|r: RankedChat| r.listing),
        is_falling(ranked_chats(entries), |r: RankedChat| r.at),
        ranked_chats(entries).to_multiset() == entries.filter_map(
            |e: ChatWithPeerView| e.ranked(),
        ).to_multiset(),
        active_chats_of(entries).len() == entries.filter_map(
            |e: ChatWithPeerView| e.ranked(),
        ).len(),
{
    lemma_largest_first(
        entries.filter_map(|e: ChatWithPeerView| e.ranked()),
        |r: RankedChat| r.at,
    );
}

} // verus!
