//! What the routing engine hands back to its caller: events to deliver,
//! or a directory call together with the state in which to continue.

use crate::calls::{DirectoryCall, DirectoryCallView};
use crate::records::DirectoryError;
use crate::types::{views, OutgoingMessage, OutgoingMessageView};
use vstd::prelude::*;
use vstd::string::StringExecFns;

verus! {

/// Why the engine refuses an event or gives a flow up. Each refusal
/// reaches the originating connection as an error event.
#[derive(Debug, Clone, Copy, PartialEq, Eq, Structural)]
pub enum RoutingError {
    /// The connection carries no identity yet.
    Unauthenticated,
    /// The connection carries an identity already.
    AlreadyAuthenticated,
    /// The connection is not, or no longer, registered.
    UnknownConnection,
    /// The credential was not accepted.
    InvalidCredential,
    /// The directory knows no such identity.
    UserNotFound,
    /// The directory failed.
    Store,
    /// A request was addressed to its own sender.
    SelfTarget,
    /// The request could not be accepted.
    AcceptFailed,
    /// The request could not be declined.
    DeclineFailed,
    /// The message is empty once trimmed.
    EmptyMessage,
    /// The sender takes no part in the chat.
    NotAParticipant,
    /// The chat could not be found.
    ChatNotFound,
    /// The message could not be stored.
    SendFailed,
    /// The pending requests could not be listed.
    ListRequestsFailed,
    /// The chats could not be listed.
    ListChatsFailed,
    /// The messages could not be listed.
    ListMessagesFailed,
    /// The directory refused a new request.
    Directory(DirectoryError),
}

impl RoutingError {
    /// The wording of each refusal.
    pub open spec fn text(self) -> Seq<char> {
        match self {
            RoutingError::Unauthenticated => "Client not authenticated"@,
            RoutingError::AlreadyAuthenticated => "Already authenticated"@,
            RoutingError::UnknownConnection => "Unknown connection"@,
            RoutingError::InvalidCredential => "Invalid token"@,
            RoutingError::UserNotFound => "User not found"@,
            RoutingError::Store => "Database error"@,
            RoutingError::SelfTarget => "Cannot send request to yourself"@,
            RoutingError::AcceptFailed => "Failed to accept chat request"@,
            RoutingError::DeclineFailed => "Failed to decline chat request"@,
            RoutingError::EmptyMessage => "Message cannot be empty"@,
            RoutingError::NotAParticipant => "Not authorized to send messages to this chat"@,
            RoutingError::ChatNotFound => "Chat not found"@,
            RoutingError::SendFailed => "Failed to send message"@,
            RoutingError::ListRequestsFailed => "Failed to get chat requests"@,
            RoutingError::ListChatsFailed => "Failed to get active chats"@,
            RoutingError::ListMessagesFailed => "Failed to get chat messages"@,
            RoutingError::Directory(e) => e.text(),
        }
    }

    /// The refusal in words.
    pub fn message(&self) -> (r: String)
        ensures
            r@ == self.text(),
    {
        match self {
            RoutingError::Unauthenticated => String::from_str("Client not authenticated"),
            RoutingError::AlreadyAuthenticated => String::from_str("Already authenticated"),
            RoutingError::UnknownConnection => String::from_str("Unknown connection"),
            RoutingError::InvalidCredential => String::from_str("Invalid token"),
            RoutingError::UserNotFound => String::from_str("User not found"),
            RoutingError::Store => String::from_str("Database error"),
            RoutingError::SelfTarget => String::from_str("Cannot send request to yourself"),
            RoutingError::AcceptFailed => String::from_str("Failed to accept chat request"),
            RoutingError::DeclineFailed => String::from_str("Failed to decline chat request"),
            RoutingError::EmptyMessage => String::from_str("Message cannot be empty"),
            RoutingError::NotAParticipant => String::from_str(
                "Not authorized to send messages to this chat",
            ),
            RoutingError::ChatNotFound => String::from_str("Chat not found"),
            RoutingError::SendFailed => String::from_str("Failed to send message"),
            RoutingError::ListRequestsFailed => String::from_str("Failed to get chat requests"),
            RoutingError::ListChatsFailed => String::from_str("Failed to get active chats"),
            RoutingError::ListMessagesFailed => String::from_str("Failed to get chat messages"),
            RoutingError::Directory(e) => e.message(),
        }
    }
}

/// One outbound event for one connection.
#[derive(Debug)]
pub struct Delivery {
    pub client_id: usize,
    pub message: OutgoingMessage,
}

pub struct DeliveryView {
    pub client_id: usize,
    pub message: OutgoingMessageView,
}

impl View for Delivery {
    type V = DeliveryView;

    open spec fn view(&self) -> DeliveryView {
        DeliveryView { client_id: self.client_id, message: self.message@ }
    }
}

/// Where a flow stands while the directory is being asked: what the engine
/// needs in order to continue once the answer is there.
#[derive(Debug)]
pub enum Pending {
    /// Authentication: the identity of the credential is being looked up.
    AuthLookup { client_id: usize, user_id: String },
    /// Authentication: the identity is bound and its presence being recorded.
    AuthPresence { client_id: usize, user_id: String, username: String },
    /// A chat request: its target is being resolved by display name.
    RequestTarget {
        client_id: usize,
        from_user_id: String,
        from_username: String,
        to_username: String,
    },
    /// A chat request: the request is being stored.
    RequestCreate {
        client_id: usize,
        from_user_id: String,
        from_username: String,
        to_username: String,
        to_user_id: String,
    },
    /// An acceptance: the request is being closed and the chat created.
    AcceptResolve { client_id: usize, from_user_id: String, to_user_id: String, to_username: String },
    /// An acceptance: the requester is being looked up for the notices.
    AcceptNotify {
        client_id: usize,
        chat_id: String,
        from_user_id: String,
        to_user_id: String,
        to_username: String,
    },
    /// A refusal of a request: the request is being closed.
    Decline { client_id: usize, from_user_id: String, to_username: String },
    /// A message: the participants of its chat are being fetched.
    MessageParticipants {
        client_id: usize,
        chat_id: String,
        from_user_id: String,
        from_username: String,
        message: String,
    },
    /// A message: the message is being stored.
    MessageSave {
        client_id: usize,
        chat_id: String,
        from_user_id: String,
        from_username: String,
        message: String,
        participants: Vec<String>,
    },
    /// The pending requests of the sender are being listed.
    ListRequests { client_id: usize },
    /// The chats of the sender are being listed.
    ListChats { client_id: usize },
    /// The messages of a chat are being listed.
    ListMessages { client_id: usize, chat_id: String },
}

pub enum PendingView {
    AuthLookup { client_id: usize, user_id: Seq<char> },
    AuthPresence { client_id: usize, user_id: Seq<char>, username: Seq<char> },
    RequestTarget {
        client_id: usize,
        from_user_id: Seq<char>,
        from_username: Seq<char>,
        to_username: Seq<char>,
    },
    RequestCreate {
        client_id: usize,
        from_user_id: Seq<char>,
        from_username: Seq<char>,
        to_username: Seq<char>,
        to_user_id: Seq<char>,
    },
    AcceptResolve {
        client_id: usize,
        from_user_id: Seq<char>,
        to_user_id: Seq<char>,
        to_username: Seq<char>,
    },
    AcceptNotify {
        client_id: usize,
        chat_id: Seq<char>,
        from_user_id: Seq<char>,
        to_user_id: Seq<char>,
        to_username: Seq<char>,
    },
    Decline { client_id: usize, from_user_id: Seq<char>, to_username: Seq<char> },
    MessageParticipants {
        client_id: usize,
        chat_id: Seq<char>,
        from_user_id: Seq<char>,
        from_username: Seq<char>,
        message: Seq<char>,
    },
    MessageSave {
        client_id: usize,
        chat_id: Seq<char>,
        from_user_id: Seq<char>,
        from_username: Seq<char>,
        message: Seq<char>,
        participants: Seq<Seq<char>>,
    },
    ListRequests { client_id: usize },
    ListChats { client_id: usize },
    ListMessages { client_id: usize, chat_id: Seq<char> },
}

impl View for Pending {
    type V = PendingView;

    open spec fn view(&self) -> PendingView {
        match self {
            Pending::AuthLookup { client_id, user_id } => PendingView::AuthLookup {
                client_id: *client_id,
                user_id: user_id@,
            },
            Pending::AuthPresence { client_id, user_id, username } => PendingView::AuthPresence {
                client_id: *client_id,
                user_id: user_id@,
                username: username@,
            },
            Pending::RequestTarget { client_id, from_user_id, from_username, to_username } => {
                PendingView::RequestTarget {
                    client_id: *client_id,
                    from_user_id: from_user_id@,
                    from_username: from_username@,
                    to_username: to_username@,
                }
            },
            Pending::RequestCreate {
                client_id,
                from_user_id,
                from_username,
                to_username,
                to_user_id,
            } => PendingView::RequestCreate {
                client_id: *client_id,
                from_user_id: from_user_id@,
                from_username: from_username@,
                to_username: to_username@,
                to_user_id: to_user_id@,
            },
            Pending::AcceptResolve { client_id, from_user_id, to_user_id, to_username } => {
                PendingView::AcceptResolve {
                    client_id: *client_id,
                    from_user_id: from_user_id@,
                    to_user_id: to_user_id@,
                    to_username: to_username@,
                }
            },
            Pending::AcceptNotify { client_id, chat_id, from_user_id, to_user_id, to_username } => {
                PendingView::AcceptNotify {
                    client_id: *client_id,
                    chat_id: chat_id@,
                    from_user_id: from_user_id@,
                    to_user_id: to_user_id@,
                    to_username: to_username@,
                }
            },
            Pending::Decline { client_id, from_user_id, to_username } => PendingView::Decline {
                client_id: *client_id,
                from_user_id: from_user_id@,
                to_username: to_username@,
            },
            Pending::MessageParticipants {
                client_id,
                chat_id,
                from_user_id,
                from_username,
                message,
            } => PendingView::MessageParticipants {
                client_id: *client_id,
                chat_id: chat_id@,
                from_user_id: from_user_id@,
                from_username: from_username@,
                message: message@,
            },
            Pending::MessageSave {
                client_id,
                chat_id,
                from_user_id,
                from_username,
                message,
                participants,
            } => PendingView::MessageSave {
                client_id: *client_id,
                chat_id: chat_id@,
                from_user_id: from_user_id@,
                from_username: from_username@,
                message: message@,
                participants: views(participants@),
            },
            Pending::ListRequests { client_id } => PendingView::ListRequests {
                client_id: *client_id,
            },
            Pending::ListChats { client_id } => PendingView::ListChats { client_id: *client_id },
            Pending::ListMessages { client_id, chat_id } => PendingView::ListMessages {
                client_id: *client_id,
                chat_id: chat_id@,
            },
        }
    }
}

/// What the caller of the engine does next.
#[derive(Debug)]
pub enum Step {
    /// The flow has ended: deliver these events, in this order, each to
    /// its connection.
    Done { deliveries: Vec<Delivery> },
    /// Carry out the call, then resume the flow with the directory's answer.
    Ask { call: DirectoryCall, pending: Pending },
}

pub enum StepView {
    Done { deliveries: Seq<DeliveryView> },
    Ask { call: DirectoryCallView, pending: PendingView },
}

impl View for Step {
    type V = StepView;

    open spec fn view(&self) -> StepView {
        match self {
            Step::Done { deliveries } => StepView::Done { deliveries: views(deliveries@) },
            Step::Ask { call, pending } => StepView::Ask { call: call@, pending: pending@ },
        }
    }
}

} // verus!
