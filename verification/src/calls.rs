//! What the routing engine asks of the directory, and what it is told.
//!
//! The engine performs no input or output. Where an event needs the
//! directory, the engine hands its caller a `DirectoryCall` to carry out
//! and continues once it is given the `DirectoryReply`.

use crate::records::DirectoryError;
use crate::types::{view_opt, views, ActiveChat, ActiveChatView, ChatMessage, ChatMessageView};
use crate::types::{ChatRequest, ChatRequestView, User, UserView};
use vstd::prelude::*;

verus! {

/// One operation of the directory, with its arguments.
#[derive(Debug)]
pub enum DirectoryCall {
    FindUserById { user_id: String },
    FindUserByUsername { username: String },
    UpdateUserOnlineStatus { user_id: String, online: bool },
    CreateChatRequest { from_user_id: String, to_user_id: String },
    GetChatRequestsForUser { user_id: String },
    AcceptChatRequest { from_user_id: String, to_user_id: String },
    DeclineChatRequest { from_user_id: String, to_user_id: String },
    GetActiveChatsForUser { user_id: String },
    SaveMessage { chat_id: String, from_user_id: String, message: String },
    GetChatMessages { chat_id: String, user_id: String },
    GetChatParticipants { chat_id: String },
}

pub enum DirectoryCallView {
    FindUserById { user_id: Seq<char> },
    FindUserByUsername { username: Seq<char> },
    UpdateUserOnlineStatus { user_id: Seq<char>, online: bool },
    CreateChatRequest { from_user_id: Seq<char>, to_user_id: Seq<char> },
    GetChatRequestsForUser { user_id: Seq<char> },
    AcceptChatRequest { from_user_id: Seq<char>, to_user_id: Seq<char> },
    DeclineChatRequest { from_user_id: Seq<char>, to_user_id: Seq<char> },
    GetActiveChatsForUser { user_id: Seq<char> },
    SaveMessage { chat_id: Seq<char>, from_user_id: Seq<char>, message: Seq<char> },
    GetChatMessages { chat_id: Seq<char>, user_id: Seq<char> },
    GetChatParticipants { chat_id: Seq<char> },
}

impl View for DirectoryCall {
    type V = DirectoryCallView;

    open spec fn view(&self) -> DirectoryCallView {
        match self {
            DirectoryCall::FindUserById { user_id } => DirectoryCallView::FindUserById {
                user_id: user_id@,
            },
            DirectoryCall::FindUserByUsername { username } => DirectoryCallView::FindUserByUsername {
                username: username@,
            },
            DirectoryCall::UpdateUserOnlineStatus { user_id, online } => {
                DirectoryCallView::UpdateUserOnlineStatus { user_id: user_id@, online: *online }
            },
            DirectoryCall::CreateChatRequest { from_user_id, to_user_id } => {
                DirectoryCallView::CreateChatRequest {
                    from_user_id: from_user_id@,
                    to_user_id: to_user_id@,
                }
            },
            DirectoryCall::GetChatRequestsForUser { user_id } => {
                DirectoryCallView::GetChatRequestsForUser { user_id: user_id@ }
            },
            DirectoryCall::AcceptChatRequest { from_user_id, to_user_id } => {
                DirectoryCallView::AcceptChatRequest {
                    from_user_id: from_user_id@,
                    to_user_id: to_user_id@,
                }
            },
            DirectoryCall::DeclineChatRequest { from_user_id, to_user_id } => {
                DirectoryCallView::DeclineChatRequest {
                    from_user_id: from_user_id@,
                    to_user_id: to_user_id@,
                }
            },
            DirectoryCall::GetActiveChatsForUser { user_id } => {
                DirectoryCallView::GetActiveChatsForUser { user_id: user_id@ }
            },
            DirectoryCall::SaveMessage { chat_id, from_user_id, message } => {
                DirectoryCallView::SaveMessage {
                    chat_id: chat_id@,
                    from_user_id: from_user_id@,
                    message: message@,
                }
            },
            DirectoryCall::GetChatMessages { chat_id, user_id } => DirectoryCallView::GetChatMessages {
                chat_id: chat_id@,
                user_id: user_id@,
            },
            DirectoryCall::GetChatParticipants { chat_id } => DirectoryCallView::GetChatParticipants {
                chat_id: chat_id@,
            },
        }
    }
}

/// What the directory answered. Each kind of answer belongs to the calls
/// that return it.
#[derive(Debug)]
pub enum DirectoryReply {
    /// To `FindUserById` and `FindUserByUsername`.
    User(Result<Option<User>, DirectoryError>),
    /// To `UpdateUserOnlineStatus`, `CreateChatRequest` and
    /// `DeclineChatRequest`.
    Done(Result<(), DirectoryError>),
    /// To `AcceptChatRequest`: the identifier of the new chat.
    ChatId(Result<String, DirectoryError>),
    /// To `GetChatRequestsForUser`.
    Requests(Result<Vec<ChatRequest>, DirectoryError>),
    /// To `GetActiveChatsForUser`.
    Chats(Result<Vec<ActiveChat>, DirectoryError>),
    /// To `SaveMessage`: the time of the message in seconds.
    Timestamp(Result<i64, DirectoryError>),
    /// To `GetChatMessages`.
    Messages(Result<Vec<ChatMessage>, DirectoryError>),
    /// To `GetChatParticipants`.
    Participants(Result<Vec<String>, DirectoryError>),
}

pub enum DirectoryReplyView {
    User(Result<Option<UserView>, DirectoryError>),
    Done(Result<(), DirectoryError>),
    ChatId(Result<Seq<char>, DirectoryError>),
    Requests(Result<Seq<ChatRequestView>, DirectoryError>),
    Chats(Result<Seq<ActiveChatView>, DirectoryError>),
    Timestamp(Result<i64, DirectoryError>),
    Messages(Result<Seq<ChatMessageView>, DirectoryError>),
    Participants(Result<Seq<Seq<char>>, DirectoryError>),
}

impl View for DirectoryReply {
    type V = DirectoryReplyView;

    open spec fn view(&self) -> DirectoryReplyView {
        match self {
            DirectoryReply::User(Ok(found)) => DirectoryReplyView::User(Ok(view_opt(*found))),
            DirectoryReply::User(Err(e)) => DirectoryReplyView::User(Err(*e)),
            DirectoryReply::Done(r) => DirectoryReplyView::Done(*r),
            DirectoryReply::ChatId(Ok(chat_id)) => DirectoryReplyView::ChatId(Ok(chat_id@)),
            DirectoryReply::ChatId(Err(e)) => DirectoryReplyView::ChatId(Err(*e)),
            DirectoryReply::Requests(Ok(list)) => DirectoryReplyView::Requests(Ok(views(list@))),
            DirectoryReply::Requests(Err(e)) => DirectoryReplyView::Requests(Err(*e)),
            DirectoryReply::Chats(Ok(list)) => DirectoryReplyView::Chats(Ok(views(list@))),
            DirectoryReply::Chats(Err(e)) => DirectoryReplyView::Chats(Err(*e)),
            DirectoryReply::Timestamp(r) => DirectoryReplyView::Timestamp(*r),
            DirectoryReply::Messages(Ok(list)) => DirectoryReplyView::Messages(Ok(views(list@))),
            DirectoryReply::Messages(Err(e)) => DirectoryReplyView::Messages(Err(*e)),
            DirectoryReply::Participants(Ok(list)) => DirectoryReplyView::Participants(
                Ok(views(list@)),
            ),
            DirectoryReply::Participants(Err(e)) => DirectoryReplyView::Participants(Err(*e)),
        }
    }
}

} // verus!
