//! The routing engine: for each event of a connection it decides what the
//! directory is asked and which connections are told what.
//!
//! The engine owns the connection registry and performs no input or
//! output. An event starts a flow with `handle_message`; while a flow needs
//! the directory it yields a call, and `resume` continues it with the
//! answer. Recipients are looked up in the registry at the moment the
//! deliveries are computed.

use crate::auth::{has_three_parts, Claims, ClaimsView, InvalidCredential, JwtValidator};
use crate::calls::{DirectoryCall, DirectoryCallView, DirectoryReply, DirectoryReplyView};
use crate::registry::{BindError, ConnectionRegistry, RegistryView};
use crate::steps::{Delivery, DeliveryView, Pending, PendingView, RoutingError, Step, StepView};
use crate::text::{blank, is_blank};
use crate::types::{view_opt, views, Identity, IncomingMessage, IncomingMessageView};
use crate::types::{OutgoingMessage, OutgoingMessageView};
use vstd::prelude::*;

verus! {

/// The end of a flow with a single error event for the originating
/// connection.
pub open spec fn refusal(client_id: usize, error: RoutingError) -> StepView {
    StepView::Done {
        deliveries: seq![
            DeliveryView {
                client_id,
                message: OutgoingMessageView::Error { message: error.text() },
            },
        ],
    }
}

/// The end of a flow with a single event for the originating connection.
pub open spec fn answer(client_id: usize, message: OutgoingMessageView) -> StepView {
    StepView::Done { deliveries: seq![DeliveryView { client_id, message }] }
}

/// The delivery of an event to an identity: one delivery to the connection
/// that serves the identity, if it is reachable, and none if it is not.
pub open spec fn to_identity<H>(
    registry: RegistryView<H>,
    user_id: Seq<char>,
    message: OutgoingMessageView,
) -> Seq<DeliveryView> {
    match registry.lookup(user_id) {
        Some(client_id) => seq![DeliveryView { client_id, message }],
        None => Seq::empty(),
    }
}

/// The delivery of one event to each of the given identities that is
/// reachable, in the order in which they are given.
pub open spec fn fan_out<H>(
    registry: RegistryView<H>,
    participants: Seq<Seq<char>>,
    message: OutgoingMessageView,
) -> Seq<DeliveryView> {
    participants.filter_map(
        |user_id: Seq<char>|
            match registry.lookup(user_id) {
                Some(client_id) => Some(DeliveryView { client_id, message }),
                None => None,
            },
    )
}

/// How authentication starts on a connection that carries no identity,
/// given what the verifier made of the credential.
pub open spec fn auth_step(client_id: usize, verdict: Option<ClaimsView>) -> StepView {
    match verdict {
        Some(claims) => StepView::Ask {
            call: DirectoryCallView::FindUserById { user_id: claims.user_id },
            pending: PendingView::AuthLookup { client_id, user_id: claims.user_id },
        },
        None => refusal(client_id, RoutingError::InvalidCredential),
    }
}

/// How the flow of an event starts for the identity `me` that the
/// connection carries.
pub open spec fn begin_as(client_id: usize, me: Identity, event: IncomingMessageView) -> StepView {
    match event {
        IncomingMessageView::Auth { token } => refusal(
            client_id,
            RoutingError::AlreadyAuthenticated,
        ),
        IncomingMessageView::SendChatRequest { to_username } => StepView::Ask {
            call: DirectoryCallView::FindUserByUsername { username: to_username },
            pending: PendingView::RequestTarget {
                client_id,
                from_user_id: me.user_id,
                from_username: me.username,
                to_username,
            },
        },
        IncomingMessageView::AcceptChatRequest { from_user_id } => StepView::Ask {
            call: DirectoryCallView::AcceptChatRequest { from_user_id, to_user_id: me.user_id },
            pending: PendingView::AcceptResolve {
                client_id,
                from_user_id,
                to_user_id: me.user_id,
                to_username: me.username,
            },
        },
        IncomingMessageView::DeclineChatRequest { from_user_id } => StepView::Ask {
            call: DirectoryCallView::DeclineChatRequest { from_user_id, to_user_id: me.user_id },
            pending: PendingView::Decline { client_id, from_user_id, to_username: me.username },
        },
        IncomingMessageView::SendMessage { chat_id, message } => if is_blank(message) {
            refusal(client_id, RoutingError::EmptyMessage)
        } else {
            StepView::Ask {
                call: DirectoryCallView::GetChatParticipants { chat_id },
                pending: PendingView::MessageParticipants {
                    client_id,
                    chat_id,
                    from_user_id: me.user_id,
                    from_username: me.username,
                    message,
                },
            }
        },
        IncomingMessageView::GetChatRequests => StepView::Ask {
            call: DirectoryCallView::GetChatRequestsForUser { user_id: me.user_id },
            pending: PendingView::ListRequests { client_id },
        },
        IncomingMessageView::GetActiveChats => StepView::Ask {
            call: DirectoryCallView::GetActiveChatsForUser { user_id: me.user_id },
            pending: PendingView::ListChats { client_id },
        },
        IncomingMessageView::GetChatMessages { chat_id } => StepView::Ask {
            call: DirectoryCallView::GetChatMessages { chat_id, user_id: me.user_id },
            pending: PendingView::ListMessages { client_id, chat_id },
        },
    }
}

/// Whether `step` is a first step of the flow that `event` starts on the
/// connection `client_id`. A connection without an identity can only
/// authenticate, and every other event of it is refused. A credential
/// that two dots do not split into three parts is rejected; what becomes
/// of any other is for the verifier to say. A connection with an identity
/// starts the flow of its event.
pub open spec fn is_first_step<H>(
    registry: RegistryView<H>,
    client_id: usize,
    event: IncomingMessageView,
    step: StepView,
) -> bool {
    match registry.identity_of(client_id) {
        Some(me) => step == begin_as(client_id, me, event),
        None => match event {
            IncomingMessageView::Auth { token } => if has_three_parts(token) {
                step == auth_step(client_id, None) || exists|claims: ClaimsView|
                    step == auth_step(client_id, Some(claims))
            } else {
                step == auth_step(client_id, None)
            },
            _ => step == refusal(client_id, RoutingError::Unauthenticated),
        },
    }
}

/// The registry after a flow has been resumed. Only one answer changes it:
/// the identity of a credential was found, and the connection can take it.
pub open spec fn next_registry<H>(
    registry: RegistryView<H>,
    pending: PendingView,
    reply: DirectoryReplyView,
) -> RegistryView<H> {
    match (pending, reply) {
        (
            PendingView::AuthLookup { client_id, user_id },
            DirectoryReplyView::User(Ok(Some(user))),
        ) => if registry.bind_outcome(client_id) is Ok {
            registry.bind(client_id, Identity { user_id, username: user.username })
        } else {
            registry
        },
        _ => registry,
    }
}

/// How a flow continues with the directory's answer. An answer of a kind
/// that does not belong to the call counts as a failure of the directory.
pub open spec fn next_step<H>(
    registry: RegistryView<H>,
    pending: PendingView,
    reply: DirectoryReplyView,
) -> StepView {
    match pending {
        PendingView::AuthLookup { client_id, user_id } => match reply {
            DirectoryReplyView::User(Ok(Some(user))) => match registry.bind_outcome(client_id) {
                Ok(_) => StepView::Ask {
                    call: DirectoryCallView::UpdateUserOnlineStatus { user_id, online: true },
                    pending: PendingView::AuthPresence { client_id, user_id, username: user.username },
                },
                Err(BindError::AlreadyBound) => refusal(client_id, RoutingError::AlreadyAuthenticated),
                Err(BindError::UnknownConnection) => refusal(
                    client_id,
                    RoutingError::UnknownConnection,
                ),
            },
            DirectoryReplyView::User(Ok(None)) => refusal(client_id, RoutingError::UserNotFound),
            _ => refusal(client_id, RoutingError::Store),
        },
        PendingView::AuthPresence { client_id, user_id, username } => answer(
            client_id,
            OutgoingMessageView::AuthSuccess { user_id, username },
        ),
        PendingView::RequestTarget { client_id, from_user_id, from_username, to_username } => {
            match reply {
                DirectoryReplyView::User(Ok(Some(target))) => if target.user_id == from_user_id {
                    refusal(client_id, RoutingError::SelfTarget)
                } else {
                    StepView::Ask {
                        call: DirectoryCallView::CreateChatRequest {
                            from_user_id,
                            to_user_id: target.user_id,
                        },
                        pending: PendingView::RequestCreate {
                            client_id,
                            from_user_id,
                            from_username,
                            to_username,
                            to_user_id: target.user_id,
                        },
                    }
                },
                DirectoryReplyView::User(Ok(None)) => refusal(client_id, RoutingError::UserNotFound),
                _ => refusal(client_id, RoutingError::Store),
            }
        },
        PendingView::RequestCreate {
            client_id,
            from_user_id,
            from_username,
            to_username,
            to_user_id,
        } => match reply {
            DirectoryReplyView::Done(Ok(_)) => StepView::Done {
                deliveries: seq![
                    DeliveryView {
                        client_id,
                        message: OutgoingMessageView::ChatRequestSent { to_username },
                    },
                ] + to_identity(
                    registry,
                    to_user_id,
                    OutgoingMessageView::NewChatRequest { from_user_id, from_username },
                ),
            },
            DirectoryReplyView::Done(Err(e)) => refusal(client_id, RoutingError::Directory(e)),
            _ => refusal(client_id, RoutingError::Store),
        },
        PendingView::AcceptResolve { client_id, from_user_id, to_user_id, to_username } => {
            match reply {
                DirectoryReplyView::ChatId(Ok(chat_id)) => StepView::Ask {
                    call: DirectoryCallView::FindUserById { user_id: from_user_id },
                    pending: PendingView::AcceptNotify {
                        client_id,
                        chat_id,
                        from_user_id,
                        to_user_id,
                        to_username,
                    },
                },
                _ => refusal(client_id, RoutingError::AcceptFailed),
            }
        },
        PendingView::AcceptNotify { client_id, chat_id, from_user_id, to_user_id, to_username } => {
            match reply {
                DirectoryReplyView::User(Ok(Some(requester))) => StepView::Done {
                    deliveries: to_identity(
                        registry,
                        from_user_id,
                        OutgoingMessageView::ChatAccepted {
                            chat_id,
                            with_user: to_username,
                            with_user_id: to_user_id,
                        },
                    ) + to_identity(
                        registry,
                        to_user_id,
                        OutgoingMessageView::ChatAccepted {
                            chat_id,
                            with_user: requester.username,
                            with_user_id: from_user_id,
                        },
                    ),
                },
                DirectoryReplyView::User(Ok(None)) => StepView::Done { deliveries: Seq::empty() },
                _ => refusal(client_id, RoutingError::Store),
            }
        },
        PendingView::Decline { client_id, from_user_id, to_username } => match reply {
            DirectoryReplyView::Done(Ok(_)) => StepView::Done {
                deliveries: to_identity(
                    registry,
                    from_user_id,
                    OutgoingMessageView::ChatDeclined { by_user: to_username },
                ),
            },
            _ => refusal(client_id, RoutingError::DeclineFailed),
        },
        PendingView::MessageParticipants {
            client_id,
            chat_id,
            from_user_id,
            from_username,
            message,
        } => match reply {
            DirectoryReplyView::Participants(Ok(participants)) => if participants.contains(
                from_user_id,
            ) {
                StepView::Ask {
                    call: DirectoryCallView::SaveMessage { chat_id, from_user_id, message },
                    pending: PendingView::MessageSave {
                        client_id,
                        chat_id,
                        from_user_id,
                        from_username,
                        message,
                        participants,
                    },
                }
            } else {
                refusal(client_id, RoutingError::NotAParticipant)
            },
            _ => refusal(client_id, RoutingError::ChatNotFound),
        },
        PendingView::MessageSave {
            client_id,
            chat_id,
            from_user_id,
            from_username,
            message,
            participants,
        } => match reply {
            DirectoryReplyView::Timestamp(Ok(timestamp)) => StepView::Done {
                deliveries: fan_out(
                    registry,
                    participants,
                    OutgoingMessageView::NewMessage {
                        chat_id,
                        from_user_id,
                        from_username,
                        message,
                        timestamp,
                    },
                ),
            },
            _ => refusal(client_id, RoutingError::SendFailed),
        },
        PendingView::ListRequests { client_id } => match reply {
            DirectoryReplyView::Requests(Ok(requests)) => answer(
                client_id,
                OutgoingMessageView::ChatRequests { requests },
            ),
            _ => refusal(client_id, RoutingError::ListRequestsFailed),
        },
        PendingView::ListChats { client_id } => match reply {
            DirectoryReplyView::Chats(Ok(chats)) => answer(
                client_id,
                OutgoingMessageView::ActiveChats { chats },
            ),
            _ => refusal(client_id, RoutingError::ListChatsFailed),
        },
        PendingView::ListMessages { client_id, chat_id } => match reply {
            DirectoryReplyView::Messages(Ok(messages)) => answer(
                client_id,
                OutgoingMessageView::ChatMessages { chat_id, messages },
            ),
            _ => refusal(client_id, RoutingError::ListMessagesFailed),
        },
    }
}

/// Whether a list of strings holds a given one.
fn contains_text(list: &Vec<String>, wanted: &String) -> (r: bool)
    ensures
        r == views(list@).contains(wanted@),
{
    let ghost all = views(list@);
    let mut i: usize = 0;
    while i < list.len()
        invariant
            i <= list.len(),
            all == views(list@),
            forall|j: int| 0 <= j < i ==> all[j] != wanted@,
        decreases list.len() - i,
    {
        if list[i] == *wanted {
            proof {
                assert(all[i as int] == wanted@);
            }
            return true;
        }
        i += 1;
    }
    false
}

/// The routing engine, with the registry of the connections it serves.
pub struct MessageHandler<H> {
    registry: ConnectionRegistry<H>,
    jwt_validator: JwtValidator,
}

impl<H> View for MessageHandler<H> {
    type V = RegistryView<H>;

    closed spec fn view(&self) -> RegistryView<H> {
        self.registry@
    }
}

impl<H> MessageHandler<H> {
    /// The invariant of the engine: that of its registry.
    pub closed spec fn wf(&self) -> bool {
        self.registry.wf()
    }

    /// A well-formed engine has a well-formed registry.
    pub proof fn lemma_wf(&self)
        requires
            self.wf(),
        ensures
            self@.wf(),
    {
        self.registry.lemma_wf();
    }

    /// The secret with which the engine's verifier checks credentials.
    pub closed spec fn secret(&self) -> Seq<char> {
        self.jwt_validator.secret()
    }

    /// An engine without connections that verifies credentials with
    /// `jwt_validator`.
    pub fn new(jwt_validator: JwtValidator) -> (r: Self)
        ensures
            r.wf(),
            r@ == RegistryView::<H>::empty(),
            r.secret() == jwt_validator.secret(),
    {
        MessageHandler { registry: ConnectionRegistry::new(), jwt_validator }
    }

    /// The registry of the engine.
    pub fn registry(&self) -> (r: &ConnectionRegistry<H>)
        ensures
            r@ == self@,
            r.wf() == self.wf(),
    {
        &self.registry
    }

    /// Whether another connection can still be registered.
    pub fn has_capacity(&self) -> (r: bool)
        ensures
            r == (self@.next_id < usize::MAX),
    {
        self.registry.has_capacity()
    }

    /// The number of live connections.
    pub fn get_active_connection_count(&self) -> (r: usize)
        ensures
            r == self@.connections.len(),
    {
        self.registry.connection_count()
    }

    /// The number of live connections that carry an identity.
    pub fn get_authenticated_connection_count(&self) -> (r: usize)
        requires
            self.wf(),
        ensures
            r == self@.bound_connections().len(),
    {
        self.registry.bound_count()
    }

    /// Registers a new connection, which starts without an identity, and
    /// returns its identifier.
    pub fn add_client(&mut self, sender: H) -> (client_id: usize)
        requires
            old(self).wf(),
            old(self)@.next_id < usize::MAX,
        ensures
            final(self).wf(),
            final(self).secret() == old(self).secret(),
            client_id == old(self)@.next_id,
            final(self)@ == old(self)@.register(sender),
    {
        self.registry.register(sender)
    }

    /// Removes a connection. Where it carried an identity, the caller is
    /// handed the directory call that records the identity as offline.
    pub fn remove_client(&mut self, client_id: usize) -> (r: Option<DirectoryCall>)
        requires
            old(self).wf(),
        ensures
            final(self).wf(),
            final(self).secret() == old(self).secret(),
            final(self)@ == old(self)@.unbind(client_id),
            view_opt(r) == match old(self)@.identity_of(client_id) {
                Some(identity) => Some(
                    DirectoryCallView::UpdateUserOnlineStatus {
                        user_id: identity.user_id,
                        online: false,
                    },
                ),
                None => None,
            },
    {
        match self.registry.unbind(client_id) {
            Some(user_id) => Some(DirectoryCall::UpdateUserOnlineStatus { user_id, online: false }),
            None => None,
        }
    }

    /// The handle of a live connection together with the event that is to
    /// go out through it; nothing where the connection is gone.
    pub fn send_to_client(&self, client_id: usize, message: OutgoingMessage) -> (r: Option<
        (&H, OutgoingMessage),
    >)
        ensures
            match r {
                Some((handle, event)) => self@.handles.contains_key(client_id) && *handle
                    == self@.handles[client_id] && event == message,
                None => !self@.handles.contains_key(client_id),
            },
    {
        match self.registry.sender_of(client_id) {
            Some(handle) => Some((handle, message)),
            None => None,
        }
    }

    /// Starts the flow of an event for the connection it came from.
    pub fn handle_message(&mut self, client_id: usize, message: IncomingMessage) -> (step: Step)
        requires
            old(self).wf(),
        ensures
            final(self).wf(),
            final(self).secret() == old(self).secret(),
            final(self)@ == old(self)@,
            is_first_step(old(self)@, client_id, message@, step@),
    {
        if !self.is_client_authenticated(client_id) {
            return match message {
                IncomingMessage::Auth { token } => self.handle_auth(client_id, token),
                _ => Self::send_error(client_id, RoutingError::Unauthenticated),
            };
        }
        let user_id = match self.get_client_user_id(client_id) {
            Ok(user_id) => user_id,
            Err(e) => { return Self::send_error(client_id, e); },
        };
        let username = match self.get_client_username(client_id) {
            Ok(username) => username,
            Err(e) => { return Self::send_error(client_id, e); },
        };
        match message {
            IncomingMessage::Auth { token } => Self::send_error(
                client_id,
                RoutingError::AlreadyAuthenticated,
            ),
            IncomingMessage::SendChatRequest { to_username } => Self::handle_send_chat_request(
                client_id,
                user_id,
                username,
                to_username,
            ),
            IncomingMessage::AcceptChatRequest { from_user_id } => Self::handle_accept_chat_request(
                client_id,
                user_id,
                username,
                from_user_id,
            ),
            IncomingMessage::DeclineChatRequest { from_user_id } => {
                Self::handle_decline_chat_request(client_id, user_id, username, from_user_id)
            },
            IncomingMessage::SendMessage { chat_id, message } => Self::handle_send_message(
                client_id,
                user_id,
                username,
                chat_id,
                message,
            ),
            IncomingMessage::GetChatRequests => Self::handle_get_chat_requests(client_id, user_id),
            IncomingMessage::GetActiveChats => Self::handle_get_active_chats(client_id, user_id),
            IncomingMessage::GetChatMessages { chat_id } => Self::handle_get_chat_messages(
                client_id,
                user_id,
                chat_id,
            ),
        }
    }

    /// Starts authentication on a connection that carries no identity: the
    /// credential goes to the verifier, and its verdict decides.
    fn handle_auth(&self, client_id: usize, token: String) -> (step: Step)
        ensures
            step@ == auth_step(client_id, None) || exists|claims: ClaimsView|
                step@ == auth_step(client_id, Some(claims)),
            !has_three_parts(token@) ==> step@ == auth_step(client_id, None),
    {
        let verdict = self.jwt_validator.validate_token(token.as_str());
        let ghost seen = verdict;
        let step = Self::begin_auth(client_id, verdict);
        proof {
            if let Ok(claims) = seen {
                assert(step@ == auth_step(client_id, Some(claims@)));
            }
        }
        step
    }

    /// Starts authentication with the verifier's verdict on the credential:
    /// accepted claims lead to the lookup of their identity, a rejected
    /// credential to a refusal.
    pub fn begin_auth(client_id: usize, verdict: Result<Claims, InvalidCredential>) -> (step: Step)
        ensures
            step@ == auth_step(
                client_id,
                match verdict {
                    Ok(claims) => Some(claims@),
                    Err(_) => None,
                },
            ),
    {
        match verdict {
            Ok(claims) => {
                let user_id = claims.user_id;
                Step::Ask {
                    call: DirectoryCall::FindUserById { user_id: user_id.clone() },
                    pending: Pending::AuthLookup { client_id, user_id },
                }
            },
            Err(_) => Self::send_error(client_id, RoutingError::InvalidCredential),
        }
    }

    /// Whether the connection carries an identity.
    fn is_client_authenticated(&self, client_id: usize) -> (r: bool)
        requires
            self.wf(),
        ensures
            r == self@.is_bound(client_id),
            r == self@.identity_of(client_id) is Some,
    {
        self.registry.is_bound(client_id)
    }

    /// The subject identifier that the connection carries.
    fn get_client_user_id(&self, client_id: usize) -> (r: Result<String, RoutingError>)
        requires
            self.wf(),
        ensures
            match r {
                Ok(user_id) => self@.identity_of(client_id) matches Some(me) && me.user_id
                    == user_id@,
                Err(e) => self@.identity_of(client_id) is None && e
                    == RoutingError::Unauthenticated,
            },
    {
        match self.registry.user_id_of(client_id) {
            Some(user_id) => Ok(user_id),
            None => Err(RoutingError::Unauthenticated),
        }
    }

    /// The display name that the connection carries.
    fn get_client_username(&self, client_id: usize) -> (r: Result<String, RoutingError>)
        requires
            self.wf(),
        ensures
            match r {
                Ok(username) => self@.identity_of(client_id) matches Some(me) && me.username
                    == username@,
                Err(e) => self@.identity_of(client_id) is None && e
                    == RoutingError::Unauthenticated,
            },
    {
        match self.registry.username_of(client_id) {
            Some(username) => Ok(username),
            None => Err(RoutingError::Unauthenticated),
        }
    }

    /// Ends a flow with an error event for the originating connection.
    fn send_error(client_id: usize, error: RoutingError) -> (step: Step)
        ensures
            step@ == refusal(client_id, error),
    {
        Self::send_one(client_id, OutgoingMessage::Error { message: error.message() })
    }

    /// Ends a flow with one event for the originating connection.
    fn send_one(client_id: usize, message: OutgoingMessage) -> (step: Step)
        ensures
            step@ == answer(client_id, message@),
    {
        let mut deliveries: Vec<Delivery> = Vec::new();
        deliveries.push(Delivery { client_id, message });
        proof {
            assert(views(deliveries@) =~= seq![DeliveryView { client_id, message: message@ }]);
        }
        Step::Done { deliveries }
    }

    /// Adds the delivery of an event to an identity, if it is reachable.
    fn deliver_to_identity(&self, user_id: &str, message: OutgoingMessage, deliveries: &mut Vec<Delivery>)
        ensures
            views(final(deliveries)@) == views(old(deliveries)@) + to_identity(
                self@,
                user_id@,
                message@,
            ),
    {
        match self.registry.lookup_connection_for_identity(user_id) {
            Some(client_id) => {
                deliveries.push(Delivery { client_id, message });
                proof {
                    assert(views(deliveries@) =~= views(old(deliveries)@) + seq![
                        DeliveryView { client_id, message: message@ },
                    ]);
                }
            },
            None => {
                proof {
                    assert(views(deliveries@) =~= views(old(deliveries)@) + Seq::<
                        DeliveryView,
                    >::empty());
                }
            },
        }
    }

    /// A chat request: its target is resolved by display name first.
    fn handle_send_chat_request(
        client_id: usize,
        from_user_id: String,
        from_username: String,
        to_username: String,
    ) -> (step: Step)
        ensures
            step@ == begin_as(
                client_id,
                Identity { user_id: from_user_id@, username: from_username@ },
                IncomingMessageView::SendChatRequest { to_username: to_username@ },
            ),
    {
        Step::Ask {
            call: DirectoryCall::FindUserByUsername { username: to_username.clone() },
            pending: Pending::RequestTarget { client_id, from_user_id, from_username, to_username },
        }
    }

    /// An acceptance: the directory closes the request and creates the chat.
    fn handle_accept_chat_request(
        client_id: usize,
        to_user_id: String,
        to_username: String,
        from_user_id: String,
    ) -> (step: Step)
        ensures
            step@ == begin_as(
                client_id,
                Identity { user_id: to_user_id@, username: to_username@ },
                IncomingMessageView::AcceptChatRequest { from_user_id: from_user_id@ },
            ),
    {
        Step::Ask {
            call: DirectoryCall::AcceptChatRequest {
                from_user_id: from_user_id.clone(),
                to_user_id: to_user_id.clone(),
            },
            pending: Pending::AcceptResolve { client_id, from_user_id, to_user_id, to_username },
        }
    }

    /// A refusal of a request: the directory closes the request.
    fn handle_decline_chat_request(
        client_id: usize,
        to_user_id: String,
        to_username: String,
        from_user_id: String,
    ) -> (step: Step)
        ensures
            step@ == begin_as(
                client_id,
                Identity { user_id: to_user_id@, username: to_username@ },
                IncomingMessageView::DeclineChatRequest { from_user_id: from_user_id@ },
            ),
    {
        Step::Ask {
            call: DirectoryCall::DeclineChatRequest {
                from_user_id: from_user_id.clone(),
                to_user_id,
            },
            pending: Pending::Decline { client_id, from_user_id, to_username },
        }
    }

    /// A message: refused where it is empty once trimmed; otherwise the
    /// participants of its chat are fetched first.
    fn handle_send_message(
        client_id: usize,
        from_user_id: String,
        from_username: String,
        chat_id: String,
        message: String,
    ) -> (step: Step)
        ensures
            step@ == begin_as(
                client_id,
                Identity { user_id: from_user_id@, username: from_username@ },
                IncomingMessageView::SendMessage { chat_id: chat_id@, message: message@ },
            ),
    {
        if blank(message.as_str()) {
            return Self::send_error(client_id, RoutingError::EmptyMessage);
        }
        Step::Ask {
            call: DirectoryCall::GetChatParticipants { chat_id: chat_id.clone() },
            pending: Pending::MessageParticipants {
                client_id,
                chat_id,
                from_user_id,
                from_username,
                message,
            },
        }
    }

    /// The pending requests of the sender are listed.
    fn handle_get_chat_requests(client_id: usize, user_id: String) -> (step: Step)
        ensures
            step@ == (StepView::Ask {
                call: DirectoryCallView::GetChatRequestsForUser { user_id: user_id@ },
                pending: PendingView::ListRequests { client_id },
            }),
    {
        Step::Ask {
            call: DirectoryCall::GetChatRequestsForUser { user_id },
            pending: Pending::ListRequests { client_id },
        }
    }

    /// The chats of the sender are listed.
    fn handle_get_active_chats(client_id: usize, user_id: String) -> (step: Step)
        ensures
            step@ == (StepView::Ask {
                call: DirectoryCallView::GetActiveChatsForUser { user_id: user_id@ },
                pending: PendingView::ListChats { client_id },
            }),
    {
        Step::Ask {
            call: DirectoryCall::GetActiveChatsForUser { user_id },
            pending: Pending::ListChats { client_id },
        }
    }

    /// The messages of a chat are listed.
    fn handle_get_chat_messages(client_id: usize, user_id: String, chat_id: String) -> (step: Step)
        ensures
            step@ == (StepView::Ask {
                call: DirectoryCallView::GetChatMessages { chat_id: chat_id@, user_id: user_id@ },
                pending: PendingView::ListMessages { client_id, chat_id: chat_id@ },
            }),
    {
        Step::Ask {
            call: DirectoryCall::GetChatMessages { chat_id: chat_id.clone(), user_id },
            pending: Pending::ListMessages { client_id, chat_id },
        }
    }

    /// Continues a flow with the directory's answer to the call that the
    /// flow yielded.
    pub fn resume(&mut self, pending: Pending, reply: DirectoryReply) -> (step: Step)
        requires
            old(self).wf(),
        ensures
            final(self).wf(),
            final(self).secret() == old(self).secret(),
            final(self)@ == next_registry(old(self)@, pending@, reply@),
            step@ == next_step(old(self)@, pending@, reply@),
    {
        match pending {
            Pending::AuthLookup { client_id, user_id } => self.continue_auth(
                client_id,
                user_id,
                reply,
            ),
            Pending::AuthPresence { client_id, user_id, username } => Self::send_one(
                client_id,
                OutgoingMessage::AuthSuccess { user_id, username },
            ),
            Pending::RequestTarget { client_id, from_user_id, from_username, to_username } => {
                Self::continue_send_chat_request(
                    client_id,
                    from_user_id,
                    from_username,
                    to_username,
                    reply,
                )
            },
            Pending::RequestCreate {
                client_id,
                from_user_id,
                from_username,
                to_username,
                to_user_id,
            } => self.finish_send_chat_request(
                client_id,
                from_user_id,
                from_username,
                to_username,
                to_user_id,
                reply,
            ),
            Pending::AcceptResolve { client_id, from_user_id, to_user_id, to_username } => {
                Self::continue_accept_chat_request(
                    client_id,
                    from_user_id,
                    to_user_id,
                    to_username,
                    reply,
                )
            },
            Pending::AcceptNotify { client_id, chat_id, from_user_id, to_user_id, to_username } => {
                self.finish_accept_chat_request(
                    client_id,
                    chat_id,
                    from_user_id,
                    to_user_id,
                    to_username,
                    reply,
                )
            },
            Pending::Decline { client_id, from_user_id, to_username } => {
                self.finish_decline_chat_request(client_id, from_user_id, to_username, reply)
            },
            Pending::MessageParticipants {
                client_id,
                chat_id,
                from_user_id,
                from_username,
                message,
            } => Self::continue_send_message(
                client_id,
                chat_id,
                from_user_id,
                from_username,
                message,
                reply,
            ),
            Pending::MessageSave {
                client_id,
                chat_id,
                from_user_id,
                from_username,
                message,
                participants,
            } => self.finish_send_message(
                client_id,
                chat_id,
                from_user_id,
                from_username,
                message,
                participants,
                reply,
            ),
            Pending::ListRequests { client_id } => match reply {
                DirectoryReply::Requests(Ok(requests)) => Self::send_one(
                    client_id,
                    OutgoingMessage::ChatRequests { requests },
                ),
                _ => Self::send_error(client_id, RoutingError::ListRequestsFailed),
            },
            Pending::ListChats { client_id } => match reply {
                DirectoryReply::Chats(Ok(chats)) => Self::send_one(
                    client_id,
                    OutgoingMessage::ActiveChats { chats },
                ),
                _ => Self::send_error(client_id, RoutingError::ListChatsFailed),
            },
            Pending::ListMessages { client_id, chat_id } => match reply {
                DirectoryReply::Messages(Ok(messages)) => Self::send_one(
                    client_id,
                    OutgoingMessage::ChatMessages { chat_id, messages },
                ),
                _ => Self::send_error(client_id, RoutingError::ListMessagesFailed),
            },
        }
    }

    /// Authentication, once the directory has looked the identity up: a
    /// known identity is bound to the connection and its presence recorded.
    fn continue_auth(&mut self, client_id: usize, user_id: String, reply: DirectoryReply) -> (step:
        Step)
        requires
            old(self).wf(),
        ensures
            final(self).wf(),
            final(self).secret() == old(self).secret(),
            final(self)@ == next_registry(
                old(self)@,
                PendingView::AuthLookup { client_id, user_id: user_id@ },
                reply@,
            ),
            step@ == next_step(
                old(self)@,
                PendingView::AuthLookup { client_id, user_id: user_id@ },
                reply@,
            ),
    {
        match reply {
            DirectoryReply::User(Ok(Some(user))) => {
                let username = user.username;
                match self.registry.bind(client_id, user_id.clone(), username.clone()) {
                    Ok(_) => Step::Ask {
                        call: DirectoryCall::UpdateUserOnlineStatus {
                            user_id: user_id.clone(),
                            online: true,
                        },
                        pending: Pending::AuthPresence { client_id, user_id, username },
                    },
                    Err(BindError::AlreadyBound) => Self::send_error(
                        client_id,
                        RoutingError::AlreadyAuthenticated,
                    ),
                    Err(BindError::UnknownConnection) => Self::send_error(
                        client_id,
                        RoutingError::UnknownConnection,
                    ),
                }
            },
            DirectoryReply::User(Ok(None)) => Self::send_error(client_id, RoutingError::UserNotFound),
            _ => Self::send_error(client_id, RoutingError::Store),
        }
    }

    /// A chat request, once its target has been resolved: a request to
    /// oneself is refused, any other is handed to the directory.
    fn continue_send_chat_request(
        client_id: usize,
        from_user_id: String,
        from_username: String,
        to_username: String,
        reply: DirectoryReply,
    ) -> (step: Step)
        ensures
            forall|registry: RegistryView<H>|
                step@ == #[trigger] next_step(
                    registry,
                    PendingView::RequestTarget {
                        client_id,
                        from_user_id: from_user_id@,
                        from_username: from_username@,
                        to_username: to_username@,
                    },
                    reply@,
                ),
    {
        match reply {
            DirectoryReply::User(Ok(Some(target))) => {
                let to_user_id = target.user_id;
                if to_user_id == from_user_id {
                    Self::send_error(client_id, RoutingError::SelfTarget)
                } else {
                    Step::Ask {
                        call: DirectoryCall::CreateChatRequest {
                            from_user_id: from_user_id.clone(),
                            to_user_id: to_user_id.clone(),
                        },
                        pending: Pending::RequestCreate {
                            client_id,
                            from_user_id,
                            from_username,
                            to_username,
                            to_user_id,
                        },
                    }
                }
            },
            DirectoryReply::User(Ok(None)) => Self::send_error(client_id, RoutingError::UserNotFound),
            _ => Self::send_error(client_id, RoutingError::Store),
        }
    }

    /// A chat request, once it has been stored: the sender is told so, and
    /// the target is told of the request if it is reachable.
    fn finish_send_chat_request(
        &self,
        client_id: usize,
        from_user_id: String,
        from_username: String,
        to_username: String,
        to_user_id: String,
        reply: DirectoryReply,
    ) -> (step: Step)
        ensures
            step@ == next_step(
                self@,
                PendingView::RequestCreate {
                    client_id,
                    from_user_id: from_user_id@,
                    from_username: from_username@,
                    to_username: to_username@,
                    to_user_id: to_user_id@,
                },
                reply@,
            ),
    {
        match reply {
            DirectoryReply::Done(Ok(_)) => {
                let mut deliveries: Vec<Delivery> = Vec::new();
                let sent = OutgoingMessage::ChatRequestSent { to_username };
                deliveries.push(Delivery { client_id, message: sent });
                proof {
                    assert(views(deliveries@) =~= seq![
                        DeliveryView { client_id, message: sent@ },
                    ]);
                }
                self.deliver_to_identity(
                    to_user_id.as_str(),
                    OutgoingMessage::NewChatRequest { from_user_id, from_username },
                    &mut deliveries,
                );
                Step::Done { deliveries }
            },
            DirectoryReply::Done(Err(e)) => Self::send_error(client_id, RoutingError::Directory(e)),
            _ => Self::send_error(client_id, RoutingError::Store),
        }
    }

    /// An acceptance, once the chat exists: the requester is looked up for
    /// the notices.
    fn continue_accept_chat_request(
        client_id: usize,
        from_user_id: String,
        to_user_id: String,
        to_username: String,
        reply: DirectoryReply,
    ) -> (step: Step)
        ensures
            forall|registry: RegistryView<H>|
                step@ == #[trigger] next_step(
                    registry,
                    PendingView::AcceptResolve {
                        client_id,
                        from_user_id: from_user_id@,
                        to_user_id: to_user_id@,
                        to_username: to_username@,
                    },
                    reply@,
                ),
    {
        match reply {
            DirectoryReply::ChatId(Ok(chat_id)) => Step::Ask {
                call: DirectoryCall::FindUserById { user_id: from_user_id.clone() },
                pending: Pending::AcceptNotify {
                    client_id,
                    chat_id,
                    from_user_id,
                    to_user_id,
                    to_username,
                },
            },
            _ => Self::send_error(client_id, RoutingError::AcceptFailed),
        }
    }

    /// An acceptance, once the requester is known: each of the two
    /// participants is told of the chat and of the other, if reachable. Where
    /// the directory no longer knows the requester, nobody is told.
    fn finish_accept_chat_request(
        &self,
        client_id: usize,
        chat_id: String,
        from_user_id: String,
        to_user_id: String,
        to_username: String,
        reply: DirectoryReply,
    ) -> (step: Step)
        ensures
            step@ == next_step(
                self@,
                PendingView::AcceptNotify {
                    client_id,
                    chat_id: chat_id@,
                    from_user_id: from_user_id@,
                    to_user_id: to_user_id@,
                    to_username: to_username@,
                },
                reply@,
            ),
    {
        let mut deliveries: Vec<Delivery> = Vec::new();
        proof {
            assert(views(deliveries@) =~= Seq::<DeliveryView>::empty());
        }
        match reply {
            DirectoryReply::User(Ok(Some(requester))) => {
                let for_requester = OutgoingMessage::ChatAccepted {
                    chat_id: chat_id.clone(),
                    with_user: to_username,
                    with_user_id: to_user_id.clone(),
                };
                let for_recipient = OutgoingMessage::ChatAccepted {
                    chat_id,
                    with_user: requester.username,
                    with_user_id: from_user_id.clone(),
                };
                self.deliver_to_identity(from_user_id.as_str(), for_requester, &mut deliveries);
                self.deliver_to_identity(to_user_id.as_str(), for_recipient, &mut deliveries);
                proof {
                    assert(views(deliveries@) =~= to_identity(
                        self@,
                        from_user_id@,
                        for_requester@,
                    ) + to_identity(self@, to_user_id@, for_recipient@));
                }
                Step::Done { deliveries }
            },
            DirectoryReply::User(Ok(None)) => Step::Done { deliveries },
            _ => Self::send_error(client_id, RoutingError::Store),
        }
    }

    /// A refusal of a request, once the request is closed: the requester
    /// is told, if reachable.
    fn finish_decline_chat_request(
        &self,
        client_id: usize,
        from_user_id: String,
        to_username: String,
        reply: DirectoryReply,
    ) -> (step: Step)
        ensures
            step@ == next_step(
                self@,
                PendingView::Decline {
                    client_id,
                    from_user_id: from_user_id@,
                    to_username: to_username@,
                },
                reply@,
            ),
    {
        match reply {
            DirectoryReply::Done(Ok(_)) => {
                let mut deliveries: Vec<Delivery> = Vec::new();
                let declined = OutgoingMessage::ChatDeclined { by_user: to_username };
                self.deliver_to_identity(from_user_id.as_str(), declined, &mut deliveries);
                proof {
                    assert(views(deliveries@) =~= to_identity(self@, from_user_id@, declined@));
                }
                Step::Done { deliveries }
            },
            _ => Self::send_error(client_id, RoutingError::DeclineFailed),
        }
    }

    /// A message, once the participants of its chat are known: only a
    /// participant may have it stored.
    fn continue_send_message(
        client_id: usize,
        chat_id: String,
        from_user_id: String,
        from_username: String,
        message: String,
        reply: DirectoryReply,
    ) -> (step: Step)
        ensures
            forall|registry: RegistryView<H>|
                step@ == #[trigger] next_step(
                    registry,
                    PendingView::MessageParticipants {
                        client_id,
                        chat_id: chat_id@,
                        from_user_id: from_user_id@,
                        from_username: from_username@,
                        message: message@,
                    },
                    reply@,
                ),
    {
        match reply {
            DirectoryReply::Participants(Ok(participants)) => {
                if !contains_text(&participants, &from_user_id) {
                    return Self::send_error(client_id, RoutingError::NotAParticipant);
                }
                Step::Ask {
                    call: DirectoryCall::SaveMessage {
                        chat_id: chat_id.clone(),
                        from_user_id: from_user_id.clone(),
                        message: message.clone(),
                    },
                    pending: Pending::MessageSave {
                        client_id,
                        chat_id,
                        from_user_id,
                        from_username,
                        message,
                        participants,
                    },
                }
            },
            _ => Self::send_error(client_id, RoutingError::ChatNotFound),
        }
    }

    /// A message, once it is stored: every participant that is reachable is
    /// sent it, the sender among them.
    fn finish_send_message(
        &self,
        client_id: usize,
        chat_id: String,
        from_user_id: String,
        from_username: String,
        message: String,
        participants: Vec<String>,
        reply: DirectoryReply,
    ) -> (step: Step)
        ensures
            step@ == next_step(
                self@,
                PendingView::MessageSave {
                    client_id,
                    chat_id: chat_id@,
                    from_user_id: from_user_id@,
                    from_username: from_username@,
                    message: message@,
                    participants: views(participants@),
                },
                reply@,
            ),
    {
        let timestamp = match reply {
            DirectoryReply::Timestamp(Ok(timestamp)) => timestamp,
            _ => { return Self::send_error(client_id, RoutingError::SendFailed); },
        };
        let ghost event = OutgoingMessageView::NewMessage {
            chat_id: chat_id@,
            from_user_id: from_user_id@,
            from_username: from_username@,
            message: message@,
            timestamp,
        };
        let ghost registry = self@;
        let ghost f = |user_id: Seq<char>|
            match registry.lookup(user_id) {
                Some(client_id) => Some(DeliveryView { client_id, message: event }),
                None => None,
            };
        let ghost src = views(participants@);
        let mut deliveries: Vec<Delivery> = Vec::new();
        let mut i: usize = 0;
        proof {
            assert(src.take(0).filter_map(f) =~= Seq::<DeliveryView>::empty());
            assert(views(deliveries@) =~= src.take(0).filter_map(f));
        }
        while i < participants.len()
            invariant
                i <= participants.len(),
                registry == self@,
                src == views(participants@),
                event == (OutgoingMessageView::NewMessage {
                    chat_id: chat_id@,
                    from_user_id: from_user_id@,
                    from_username: from_username@,
                    message: message@,
                    timestamp,
                }),
                f == |user_id: Seq<char>|
                    match registry.lookup(user_id) {
                        Some(client_id) => Some(DeliveryView { client_id, message: event }),
                        None => None,
                    },
                views(deliveries@) == src.take(i as int).filter_map(f),
            decreases participants.len() - i,
        {
            let ghost before = views(deliveries@);
            proof {
                src.lemma_filter_map_take_succ(f, i as int);
            }
            match self.registry.lookup_connection_for_identity(participants[i].as_str()) {
                Some(recipient) => {
                    let copy = OutgoingMessage::NewMessage {
                        chat_id: chat_id.clone(),
                        from_user_id: from_user_id.clone(),
                        from_username: from_username.clone(),
                        message: message.clone(),
                        timestamp,
                    };
                    deliveries.push(Delivery { client_id: recipient, message: copy });
                    proof {
                        let sent = DeliveryView { client_id: recipient, message: event };
                        assert(f(src[i as int]) == Some(sent));
                        assert(views(deliveries@) =~= before + seq![sent]);
                    }
                },
                None => {
                    proof {
                        assert(f(src[i as int]) is None);
                        assert(src.take(i as int + 1).filter_map(f) =~= before);
                    }
                },
            }
            i += 1;
        }
        proof {
            assert(src.take(participants.len() as int) =~= src);
        }
        Step::Done { deliveries }
    }
}

/// Before a connection is authenticated, every event of it but an
/// authentication is refused, and no flow is started for it.
pub proof fn lemma_unauthenticated_events_are_refused<H>(
    registry: RegistryView<H>,
    client_id: usize,
    event: IncomingMessageView,
    step: StepView,
)
    requires
        !registry.is_bound(client_id),
        !(event is Auth),
        is_first_step(registry, client_id, event, step),
    ensures
        step == refusal(client_id, RoutingError::Unauthenticated),
{
}

/// A connection comes to carry an identity in one way only: the flow of
/// its own authentication is resumed with the identity that the directory
/// found, and the flow goes on to record the identity's presence.
pub proof fn lemma_only_authentication_binds<H>(
    registry: RegistryView<H>,
    pending: PendingView,
    reply: DirectoryReplyView,
    client_id: usize,
)
    requires
        !registry.is_bound(client_id),
        next_registry(registry, pending, reply).is_bound(client_id),
    ensures
        ({
            &&& pending matches PendingView::AuthLookup { client_id: bound, user_id }
            &&& bound == client_id
            &&& reply matches DirectoryReplyView::User(Ok(Some(user)))
            &&& next_registry(registry, pending, reply).identity_of(client_id) == Some(
                Identity { user_id, username: user.username },
            )
        }),
        next_step(registry, pending, reply) is Ask,
{
}

/// An authentication that fails leaves the registry as it is: the
/// connection stays without an identity, and the next credential it sends
/// is put to the verifier like the first.
pub proof fn lemma_failed_authentication_can_be_retried<H>(
    registry: RegistryView<H>,
    client_id: usize,
    user_id: Seq<char>,
    reply: DirectoryReplyView,
    token: Seq<char>,
    verdict: Option<ClaimsView>,
)
    requires
        !registry.is_bound(client_id),
        !(reply matches DirectoryReplyView::User(Ok(Some(_)))),
        has_three_parts(token) || verdict is None,
    ensures
        next_registry(registry, PendingView::AuthLookup { client_id, user_id }, reply) == registry,
        next_step(registry, PendingView::AuthLookup { client_id, user_id }, reply) is Done,
        is_first_step(
            next_registry(registry, PendingView::AuthLookup { client_id, user_id }, reply),
            client_id,
            IncomingMessageView::Auth { token },
            auth_step(client_id, verdict),
        ),
{
    if let Some(claims) = verdict {
        assert(auth_step(client_id, verdict) == auth_step(client_id, Some(claims)));
    }
}

/// Resuming a flow keeps the registry well formed, and removes no
/// connection and no route.
pub proof fn lemma_resume_keeps_registry<H>(
    registry: RegistryView<H>,
    pending: PendingView,
    reply: DirectoryReplyView,
)
    requires
        registry.wf(),
    ensures
        next_registry(registry, pending, reply).wf(),
        next_registry(registry, pending, reply).connections.dom() == registry.connections.dom(),
        registry.routes.dom().subset_of(next_registry(registry, pending, reply).routes.dom()),
{
    let after = next_registry(registry, pending, reply);
    if after != registry {
        assert(after.connections.dom() =~= registry.connections.dom());
        assert forall|id: Seq<char>| #[trigger] after.routes.contains_key(id) implies after.serves(
            after.routes[id],
            id,
        ) by {
            if registry.routes.contains_key(id) {
                assert(registry.serves(registry.routes[id], id));
            }
        }
    }
}

/// How many directory calls a flow may still make once the call it waits
/// for is answered, plus one.
pub open spec fn calls_left(pending: PendingView) -> nat {
    match pending {
        PendingView::AuthLookup { .. } => 2,
        PendingView::RequestTarget { .. } => 2,
        PendingView::AcceptResolve { .. } => 2,
        PendingView::MessageParticipants { .. } => 2,
        _ => 1,
    }
}

/// Every flow ends: a flow that asks the directory again has fewer calls
/// left than before, so that no event leads to more than two calls.
pub proof fn lemma_flows_end<H>(
    registry: RegistryView<H>,
    pending: PendingView,
    reply: DirectoryReplyView,
)
    ensures
        next_step(registry, pending, reply) matches StepView::Ask { pending: next, .. }
            ==> calls_left(next) < calls_left(pending),
        calls_left(pending) <= 2,
{
}

/// An identity is only ever reached through a live connection that is
/// bound to it: every delivery to an identity, alone or among the
/// participants of a chat, goes to such a connection, and none goes to a
/// connection that has been removed.
pub proof fn lemma_deliveries_reach_live_connections<H>(
    registry: RegistryView<H>,
    participants: Seq<Seq<char>>,
    user_id: Seq<char>,
    message: OutgoingMessageView,
    i: int,
)
    requires
        registry.wf(),
    ensures
        to_identity(registry, user_id, message).len() <= 1,
        to_identity(registry, user_id, message).len() == 1 ==> registry.serves(
            to_identity(registry, user_id, message)[0].client_id,
            user_id,
        ),
        0 <= i < fan_out(registry, participants, message).len() ==> registry.is_bound(
            fan_out(registry, participants, message)[i].client_id,
        ) && fan_out(registry, participants, message)[i].message == message,
        fan_out(registry, participants, message).len() <= participants.len(),
{
    if registry.routes.contains_key(user_id) {
        assert(registry.serves(registry.routes[user_id], user_id));
    }
    let f = |user_id: Seq<char>|
        match registry.lookup(user_id) {
            Some(client_id) => Some(DeliveryView { client_id, message }),
            None => None,
        };
    let sent = fan_out(registry, participants, message);
    lemma_selection_is_no_longer(participants, f);
    if 0 <= i < sent.len() {
        assert(sent.contains(sent[i]));
        participants.lemma_filter_map_contains(f, sent[i]);
        let p = choose|p: Seq<char>| #[trigger] participants.contains(p) && f(p) == Some(sent[i]);
        assert(registry.routes.contains_key(p));
        assert(registry.serves(registry.routes[p], p));
    }
}

proof fn lemma_selection_is_no_longer<A, B>(s: Seq<A>, f: spec_fn(A) -> Option<B>)
    ensures
        s.filter_map(f).len() <= s.len(),
    decreases s.len(),
{
    if s.len() > 0 {
        lemma_selection_is_no_longer(s.drop_last(), f);
    }
}

/// Only a participant has a message stored: the directory is asked to
/// store a message only by the flow of that message, once the directory
/// has named the sender among the participants of the chat, and only a
/// message that is not blank.
pub proof fn lemma_only_participants_store_messages<H>(
    registry: RegistryView<H>,
    client_id: usize,
    me: Identity,
    event: IncomingMessageView,
    pending: PendingView,
    reply: DirectoryReplyView,
)
    ensures
        !(begin_as(client_id, me, event) matches StepView::Ask {
            call: DirectoryCallView::SaveMessage { .. },
            ..
        }),
        begin_as(client_id, me, event) matches StepView::Ask {
            pending: PendingView::MessageParticipants { message, from_user_id, .. },
            ..
        } ==> !is_blank(message) && from_user_id == me.user_id,
        next_step(registry, pending, reply) matches StepView::Ask {
            call: DirectoryCallView::SaveMessage { chat_id, from_user_id, message },
            ..
        } ==> {
            &&& pending matches PendingView::MessageParticipants {
                chat_id: asked,
                from_user_id: sender,
                message: body,
                ..
            }
            &&& reply matches DirectoryReplyView::Participants(Ok(participants))
            &&& participants.contains(from_user_id)
            &&& asked == chat_id
            &&& sender == from_user_id
            &&& body == message
        },
{
}

} // verus!
