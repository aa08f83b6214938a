//! The durable records behind the directory, as plain values, and the
//! failures that a directory operation can report.

use crate::types::views;
use vstd::prelude::*;
use vstd::string::StringExecFns;

verus! {

/// Why a directory operation failed.
#[derive(Debug, Clone, Copy, PartialEq, Eq, Structural)]
pub enum DirectoryError {
    /// A subject identifier is not a 24-digit hexadecimal string.
    InvalidUserId,
    /// A pending request already relates the two identities.
    DuplicateRequest,
    /// A chat already relates the two identities.
    ChatAlreadyExists,
    /// The identity that sends a request is not in the directory.
    SenderNotFound,
    /// No pending request from the one identity to the other exists.
    RequestNotFound,
    /// The identity is not a participant of the chat.
    NotAuthorized,
    /// No chat has the given identifier.
    ChatNotFound,
    /// The durable store failed.
    Store,
}

impl DirectoryError {
    /// The wording of each failure.
    pub open spec fn text(self) -> Seq<char> {
        match self {
            DirectoryError::InvalidUserId => "Invalid user ID format"@,
            DirectoryError::DuplicateRequest => "Chat request already exists"@,
            DirectoryError::ChatAlreadyExists => "Chat already exists"@,
            DirectoryError::SenderNotFound => "Sender user not found"@,
            DirectoryError::RequestNotFound => "Chat request not found"@,
            DirectoryError::NotAuthorized => "User not authorized to view this chat"@,
            DirectoryError::ChatNotFound => "Chat not found"@,
            DirectoryError::Store => "Database error"@,
        }
    }

    /// The failure in words.
    pub fn message(&self) -> (r: String)
        ensures
            r@ == self.text(),
    {
        match self {
            DirectoryError::InvalidUserId => String::from_str("Invalid user ID format"),
            DirectoryError::DuplicateRequest => String::from_str("Chat request already exists"),
            DirectoryError::ChatAlreadyExists => String::from_str("Chat already exists"),
            DirectoryError::SenderNotFound => String::from_str("Sender user not found"),
            DirectoryError::RequestNotFound => String::from_str("Chat request not found"),
            DirectoryError::NotAuthorized => String::from_str(
                "User not authorized to view this chat",
            ),
            DirectoryError::ChatNotFound => String::from_str("Chat not found"),
            DirectoryError::Store => String::from_str("Database error"),
        }
    }
}

/// A stored identity. Times are milliseconds since the Unix epoch.
#[derive(Debug, Clone)]
pub struct UserRecord {
    pub user_id: String,
    pub username: String,
    pub email: String,
    pub online: bool,
    pub last_seen: Option<i64>,
}

pub struct UserRecordView {
    pub user_id: Seq<char>,
    pub username: Seq<char>,
    pub email: Seq<char>,
    pub online: bool,
    pub last_seen: Option<i64>,
}

impl View for UserRecord {
    type V = UserRecordView;

    open spec fn view(&self) -> UserRecordView {
        UserRecordView {
            user_id: self.user_id@,
            username: self.username@,
            email: self.email@,
            online: self.online,
            last_seen: self.last_seen,
        }
    }
}

/// Where a chat request stands. A request starts pending and is resolved
/// once, to accepted or to declined.
#[derive(Debug, Clone, Copy, PartialEq, Eq, Structural)]
pub enum RequestStatus {
    Pending,
    Accepted,
    Declined,
}

/// A stored chat request.
#[derive(Debug, Clone)]
pub struct RequestRecord {
    pub from_user_id: String,
    pub to_user_id: String,
    pub from_username: String,
    pub status: RequestStatus,
    pub created_at: i64,
}

pub struct RequestRecordView {
    pub from_user_id: Seq<char>,
    pub to_user_id: Seq<char>,
    pub from_username: Seq<char>,
    pub status: RequestStatus,
    pub created_at: i64,
}

impl View for RequestRecord {
    type V = RequestRecordView;

    open spec fn view(&self) -> RequestRecordView {
        RequestRecordView {
            from_user_id: self.from_user_id@,
            to_user_id: self.to_user_id@,
            from_username: self.from_username@,
            status: self.status,
            created_at: self.created_at,
        }
    }
}

impl RequestRecordView {
    /// A pending request from `from` to `to`.
    pub open spec fn is_pending_from_to(self, from: Seq<char>, to: Seq<char>) -> bool {
        self.status == RequestStatus::Pending && self.from_user_id == from && self.to_user_id == to
    }

    /// A pending request between `a` and `b`, in either direction.
    pub open spec fn is_pending_between(self, a: Seq<char>, b: Seq<char>) -> bool {
        self.is_pending_from_to(a, b) || self.is_pending_from_to(b, a)
    }

    /// The same request with another status.
    pub open spec fn with_status(self, status: RequestStatus) -> Self {
        RequestRecordView {
            from_user_id: self.from_user_id,
            to_user_id: self.to_user_id,
            from_username: self.from_username,
            status,
            created_at: self.created_at,
        }
    }
}

/// A stored chat.
#[derive(Debug, Clone)]
pub struct ChatRecord {
    pub chat_id: String,
    pub participants: Vec<String>,
    pub created_at: i64,
    pub last_message_at: Option<i64>,
}

pub struct ChatRecordView {
    pub chat_id: Seq<char>,
    pub participants: Seq<Seq<char>>,
    pub created_at: i64,
    pub last_message_at: Option<i64>,
}

impl View for ChatRecord {
    type V = ChatRecordView;

    open spec fn view(&self) -> ChatRecordView {
        ChatRecordView {
            chat_id: self.chat_id@,
            participants: views(self.participants@),
            created_at: self.created_at,
            last_message_at: self.last_message_at,
        }
    }
}

impl ChatRecordView {
    /// Whether `user_id` takes part in the chat.
    pub open spec fn has_participant(self, user_id: Seq<char>) -> bool {
        self.participants.contains(user_id)
    }

    /// Whether the chat relates `a` and `b`.
    pub open spec fn relates(self, a: Seq<char>, b: Seq<char>) -> bool {
        self.has_participant(a) && self.has_participant(b)
    }

    /// The time of the most recent activity: that of the last message, or
    /// that of the chat's creation where it has no message yet.
    pub open spec fn activity(self) -> i64 {
        match self.last_message_at {
            Some(at) => at,
            None => self.created_at,
        }
    }

    /// The same chat with its last message at `at`.
    pub open spec fn touched(self, at: i64) -> Self {
        ChatRecordView {
            chat_id: self.chat_id,
            participants: self.participants,
            created_at: self.created_at,
            last_message_at: Some(at),
        }
    }
}

/// A stored message.
#[derive(Debug, Clone)]
pub struct MessageRecord {
    pub chat_id: String,
    pub from_user_id: String,
    pub message: String,
    pub timestamp: i64,
}

pub struct MessageRecordView {
    pub chat_id: Seq<char>,
    pub from_user_id: Seq<char>,
    pub message: Seq<char>,
    pub timestamp: i64,
}

impl View for MessageRecord {
    type V = MessageRecordView;

    open spec fn view(&self) -> MessageRecordView {
        MessageRecordView {
            chat_id: self.chat_id@,
            from_user_id: self.from_user_id@,
            message: self.message@,
            timestamp: self.timestamp,
        }
    }
}

impl ChatRecord {
    /// A copy of the record.
    pub fn duplicate(&self) -> (r: Self)
        ensures
            r@ == self@,
    {
        let mut participants: Vec<String> = Vec::new();
        let mut i: usize = 0;
        while i < self.participants.len()
            invariant
                i <= self.participants.len(),
                participants.len() == i,
                forall|j: int| 0 <= j < i ==> (#[trigger] participants[j])@ == self.participants[j]@,
            decreases self.participants.len() - i,
        {
            participants.push(self.participants[i].clone());
            i += 1;
        }
        proof {
            assert(views(participants@) =~= views(self.participants@));
        }
        ChatRecord {
            chat_id: self.chat_id.clone(),
            participants,
            created_at: self.created_at,
            last_message_at: self.last_message_at,
        }
    }
}

impl MessageRecord {
    /// A copy of the record.
    pub fn duplicate(&self) -> (r: Self)
        ensures
            r@ == self@,
    {
        MessageRecord {
            chat_id: self.chat_id.clone(),
            from_user_id: self.from_user_id.clone(),
            message: self.message.clone(),
            timestamp: self.timestamp,
        }
    }
}

} // verus!
