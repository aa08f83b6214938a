//! Event vocabulary exchanged with clients, and the records shown to them.
//!
//! Every executable type has a view in which strings are sequences of
//! characters and vectors are sequences; contracts are stated over views.

use vstd::prelude::*;

verus! {

/// The views of the elements of a sequence, in order.
pub open spec fn views<T: View>(s: Seq<T>) -> Seq<T::V> {
    Seq::new(s.len(), |i: int| s[i]@)
}

/// The view of an optional value.
pub open spec fn view_opt<T: View>(o: Option<T>) -> Option<T::V> {
    match o {
        Some(t) => Some(t@),
        None => None,
    }
}

/// One live connection as the registry sees it: the identity bound to it, if
/// any, and the handle through which the transport delivers outbound events.
#[derive(Debug, Clone)]
pub struct ClientInfo<H> {
    pub user_id: Option<String>,
    pub username: Option<String>,
    pub sender: H,
}

/// A subject identifier together with its display name.
pub struct Identity {
    pub user_id: Seq<char>,
    pub username: Seq<char>,
}

impl<H> ClientInfo<H> {
    /// The identity bound to the connection: present once both the subject
    /// identifier and the display name are set.
    pub open spec fn identity(&self) -> Option<Identity> {
        match (self.user_id, self.username) {
            (Some(id), Some(name)) => Some(Identity { user_id: id@, username: name@ }),
            _ => None,
        }
    }
}

/// An event received from a client.
#[derive(Debug)]
pub enum IncomingMessage {
    Auth { token: String },
    SendChatRequest { to_username: String },
    AcceptChatRequest { from_user_id: String },
    DeclineChatRequest { from_user_id: String },
    SendMessage { chat_id: String, message: String },
    GetChatRequests,
    GetActiveChats,
    GetChatMessages { chat_id: String },
}

pub enum IncomingMessageView {
    Auth { token: Seq<char> },
    SendChatRequest { to_username: Seq<char> },
    AcceptChatRequest { from_user_id: Seq<char> },
    DeclineChatRequest { from_user_id: Seq<char> },
    SendMessage { chat_id: Seq<char>, message: Seq<char> },
    GetChatRequests,
    GetActiveChats,
    GetChatMessages { chat_id: Seq<char> },
}

impl View for IncomingMessage {
    type V = IncomingMessageView;

    open spec fn view(&self) -> IncomingMessageView {
        match self {
            IncomingMessage::Auth { token } => IncomingMessageView::Auth { token: token@ },
            IncomingMessage::SendChatRequest { to_username } => IncomingMessageView::SendChatRequest {
                to_username: to_username@,
            },
            IncomingMessage::AcceptChatRequest { from_user_id } => {
                IncomingMessageView::AcceptChatRequest { from_user_id: from_user_id@ }
            },
            IncomingMessage::DeclineChatRequest { from_user_id } => {
                IncomingMessageView::DeclineChatRequest { from_user_id: from_user_id@ }
            },
            IncomingMessage::SendMessage { chat_id, message } => IncomingMessageView::SendMessage {
                chat_id: chat_id@,
                message: message@,
            },
            IncomingMessage::GetChatRequests => IncomingMessageView::GetChatRequests,
            IncomingMessage::GetActiveChats => IncomingMessageView::GetActiveChats,
            IncomingMessage::GetChatMessages { chat_id } => IncomingMessageView::GetChatMessages {
                chat_id: chat_id@,
            },
        }
    }
}

/// A pending chat request as listed to its recipient.
#[derive(Debug, Clone)]
pub struct ChatRequest {
    pub from_user_id: String,
    pub from_username: String,
    pub to_user_id: String,
    pub created_at: String,
}

pub struct ChatRequestView {
    pub from_user_id: Seq<char>,
    pub from_username: Seq<char>,
    pub to_user_id: Seq<char>,
    pub created_at: Seq<char>,
}

impl View for ChatRequest {
    type V = ChatRequestView;

    open spec fn view(&self) -> ChatRequestView {
        ChatRequestView {
            from_user_id: self.from_user_id@,
            from_username: self.from_username@,
            to_user_id: self.to_user_id@,
            created_at: self.created_at@,
        }
    }
}

/// A chat as listed to one of its participants, naming the other one.
#[derive(Debug, Clone)]
pub struct ActiveChat {
    pub chat_id: String,
    pub with_user: String,
    pub with_user_id: String,
    pub online: bool,
    pub last_message_at: String,
}

pub struct ActiveChatView {
    pub chat_id: Seq<char>,
    pub with_user: Seq<char>,
    pub with_user_id: Seq<char>,
    pub online: bool,
    pub last_message_at: Seq<char>,
}

impl View for ActiveChat {
    type V = ActiveChatView;

    open spec fn view(&self) -> ActiveChatView {
        ActiveChatView {
            chat_id: self.chat_id@,
            with_user: self.with_user@,
            with_user_id: self.with_user_id@,
            online: self.online,
            last_message_at: self.last_message_at@,
        }
    }
}

/// A stored message as listed to a participant of its chat.
#[derive(Debug, Clone)]
pub struct ChatMessage {
    pub from_user_id: String,
    pub from_username: String,
    pub message: String,
    pub timestamp: String,
}

pub struct ChatMessageView {
    pub from_user_id: Seq<char>,
    pub from_username: Seq<char>,
    pub message: Seq<char>,
    pub timestamp: Seq<char>,
}

impl View for ChatMessage {
    type V = ChatMessageView;

    open spec fn view(&self) -> ChatMessageView {
        ChatMessageView {
            from_user_id: self.from_user_id@,
            from_username: self.from_username@,
            message: self.message@,
            timestamp: self.timestamp@,
        }
    }
}

/// A durable identity as the directory reports it.
#[derive(Debug)]
pub struct User {
    pub user_id: String,
    pub username: String,
    pub email: String,
    pub online: bool,
    pub last_seen: Option<String>,
}

pub struct UserView {
    pub user_id: Seq<char>,
    pub username: Seq<char>,
    pub email: Seq<char>,
    pub online: bool,
    pub last_seen: Option<Seq<char>>,
}

impl View for User {
    type V = UserView;

    open spec fn view(&self) -> UserView {
        UserView {
            user_id: self.user_id@,
            username: self.username@,
            email: self.email@,
            online: self.online,
            last_seen: view_opt(self.last_seen),
        }
    }
}

/// An event sent to a client.
#[derive(Debug, Clone)]
pub enum OutgoingMessage {
    AuthSuccess { user_id: String, username: String },
    Error { message: String },
    ChatRequests { requests: Vec<ChatRequest> },
    ActiveChats { chats: Vec<ActiveChat> },
    ChatMessages { chat_id: String, messages: Vec<ChatMessage> },
    NewChatRequest { from_user_id: String, from_username: String },
    ChatRequestSent { to_username: String },
    ChatAccepted { chat_id: String, with_user: String, with_user_id: String },
    ChatDeclined { by_user: String },
    NewMessage {
        chat_id: String,
        from_user_id: String,
        from_username: String,
        message: String,
        timestamp: i64,
    },
}

pub enum OutgoingMessageView {
    AuthSuccess { user_id: Seq<char>, username: Seq<char> },
    Error { message: Seq<char> },
    ChatRequests { requests: Seq<ChatRequestView> },
    ActiveChats { chats: Seq<ActiveChatView> },
    ChatMessages { chat_id: Seq<char>, messages: Seq<ChatMessageView> },
    NewChatRequest { from_user_id: Seq<char>, from_username: Seq<char> },
    ChatRequestSent { to_username: Seq<char> },
    ChatAccepted { chat_id: Seq<char>, with_user: Seq<char>, with_user_id: Seq<char> },
    ChatDeclined { by_user: Seq<char> },
    NewMessage {
        chat_id: Seq<char>,
        from_user_id: Seq<char>,
        from_username: Seq<char>,
        message: Seq<char>,
        timestamp: i64,
    },
}

impl View for OutgoingMessage {
    type V = OutgoingMessageView;

    open spec fn view(&self) -> OutgoingMessageView {
        match self {
            OutgoingMessage::AuthSuccess { user_id, username } => OutgoingMessageView::AuthSuccess {
                user_id: user_id@,
                username: username@,
            },
            OutgoingMessage::Error { message } => OutgoingMessageView::Error { message: message@ },
            OutgoingMessage::ChatRequests { requests } => OutgoingMessageView::ChatRequests {
                requests: views(requests@),
            },
            OutgoingMessage::ActiveChats { chats } => OutgoingMessageView::ActiveChats {
                chats: views(chats@),
            },
            OutgoingMessage::ChatMessages { chat_id, messages } => OutgoingMessageView::ChatMessages {
                chat_id: chat_id@,
                messages: views(messages@),
            },
            OutgoingMessage::NewChatRequest { from_user_id, from_username } => {
                OutgoingMessageView::NewChatRequest {
                    from_user_id: from_user_id@,
                    from_username: from_username@,
                }
            },
            OutgoingMessage::ChatRequestSent { to_username } => OutgoingMessageView::ChatRequestSent {
                to_username: to_username@,
            },
            OutgoingMessage::ChatAccepted { chat_id, with_user, with_user_id } => {
                OutgoingMessageView::ChatAccepted {
                    chat_id: chat_id@,
                    with_user: with_user@,
                    with_user_id: with_user_id@,
                }
            },
            OutgoingMessage::ChatDeclined { by_user } => OutgoingMessageView::ChatDeclined {
                by_user: by_user@,
            },
            OutgoingMessage::NewMessage { chat_id, from_user_id, from_username, message, timestamp } => {
                OutgoingMessageView::NewMessage {
                    chat_id: chat_id@,
                    from_user_id: from_user_id@,
                    from_username: from_username@,
                    message: message@,
                    timestamp: *timestamp,
                }
            },
        }
    }
}

} // verus!
