//! The flows of the routing engine against a directory, from the event to
//! the deliveries: what each event leads to when every call that the
//! engine yields is carried out as the directory's contract says.
//!
//! The laws here speak of every directory that answers as `performs`
//! describes, and of every instant.

use crate::auth::ClaimsView;
use crate::calls::{DirectoryCallView, DirectoryReplyView};
use crate::database::{pending_request, whole_seconds};
use crate::directory::{lemma_request_admitted_once, lemma_stored_message_is_listed, DirectoryView};
use crate::handlers::{answer, auth_step, begin_as, fan_out, lemma_resume_keeps_registry};
use crate::handlers::{next_registry, next_step, refusal, to_identity};
use crate::records::{DirectoryError, MessageRecordView, RequestRecordView, RequestStatus};
use crate::registry::{BindError, RegistryView};
use crate::seqs::{any, lemma_first_index};
use crate::steps::{DeliveryView, PendingView, RoutingError, StepView};
use crate::text::is_blank;
use crate::types::{Identity, IncomingMessageView, OutgoingMessageView};
use vstd::prelude::*;

verus! {

/// Where the flow of a chat request stands while its target is resolved.
pub open spec fn request_target(client_id: usize, me: Identity, to_username: Seq<char>) -> PendingView {
    PendingView::RequestTarget {
        client_id,
        from_user_id: me.user_id,
        from_username: me.username,
        to_username,
    }
}

/// Where the flow of a chat request stands while the request is stored.
pub open spec fn request_create(
    client_id: usize,
    me: Identity,
    to_username: Seq<char>,
    to_user_id: Seq<char>,
) -> PendingView {
    PendingView::RequestCreate {
        client_id,
        from_user_id: me.user_id,
        from_username: me.username,
        to_username,
        to_user_id,
    }
}

/// What a chat request that the directory admits leads to: the sender is
/// told that the request is sent, and the target, if reachable, is told of
/// the request; nobody else is told anything.
pub open spec fn request_deliveries<H>(
    registry: RegistryView<H>,
    client_id: usize,
    me: Identity,
    to_username: Seq<char>,
    to_user_id: Seq<char>,
) -> Seq<DeliveryView> {
    seq![
        DeliveryView { client_id, message: OutgoingMessageView::ChatRequestSent { to_username } },
    ] + to_identity(
        registry,
        to_user_id,
        OutgoingMessageView::NewChatRequest {
            from_user_id: me.user_id,
            from_username: me.username,
        },
    )
}

/// The flow of a chat request. The target is resolved by display name; a
/// target that is unknown or is the sender ends the flow with a refusal
/// and without a request. Otherwise the directory is asked once to store
/// the request from the sender to the target. Where it admits the request,
/// one pending request is stored and the sender and the target are told;
/// where it refuses, the sender alone is sent the directory's refusal,
/// and nothing is stored. The registry is as before throughout.
pub proof fn lemma_chat_request_flow<H>(
    registry: RegistryView<H>,
    directory: DirectoryView,
    client_id: usize,
    me: Identity,
    to_username: Seq<char>,
    now: i64,
    looked: DirectoryView,
    found: DirectoryReplyView,
    after: DirectoryView,
    stored: DirectoryReplyView,
)
    requires
        directory.wf(),
        directory.performs(
            looked,
            DirectoryCallView::FindUserByUsername { username: to_username },
            now,
            found,
        ),
        next_step(registry, request_target(client_id, me, to_username), found) matches StepView::Ask {
            call,
            ..
        } ==> looked.performs(after, call, now, stored),
    ensures
        begin_as(client_id, me, IncomingMessageView::SendChatRequest { to_username })
            == (StepView::Ask {
            call: DirectoryCallView::FindUserByUsername { username: to_username },
            pending: request_target(client_id, me, to_username),
        }),
        looked == directory,
        next_registry(registry, request_target(client_id, me, to_username), found) == registry,
        match directory.user_by_username(to_username) {
            None => next_step(registry, request_target(client_id, me, to_username), found)
                == refusal(client_id, RoutingError::UserNotFound),
            Some(target) => if target.user_id == me.user_id {
                next_step(registry, request_target(client_id, me, to_username), found) == refusal(
                    client_id,
                    RoutingError::SelfTarget,
                )
            } else {
                let create = request_create(client_id, me, to_username, target.user_id);
                &&& next_step(registry, request_target(client_id, me, to_username), found)
                    == (StepView::Ask {
                    call: DirectoryCallView::CreateChatRequest {
                        from_user_id: me.user_id,
                        to_user_id: target.user_id,
                    },
                    pending: create,
                })
                &&& next_registry(registry, create, stored) == registry
                &&& after.wf()
                &&& match directory.request_outcome(me.user_id, target.user_id) {
                    Ok(from_username) => {
                        &&& after.requests == directory.requests.push(
                            pending_request(me.user_id, target.user_id, from_username, now),
                        )
                        &&& next_step(registry, create, stored) == (StepView::Done {
                            deliveries: request_deliveries(
                                registry,
                                client_id,
                                me,
                                to_username,
                                target.user_id,
                            ),
                        })
                    },
                    Err(e) => {
                        &&& after == directory
                        &&& next_step(registry, create, stored) == refusal(
                            client_id,
                            RoutingError::Directory(e),
                        )
                    },
                }
            },
        },
{
    match directory.user_by_username(to_username) {
        Some(target) => {
            if target.user_id != me.user_id {
                lemma_request_admitted_once(directory, me.user_id, target.user_id, now);
            }
        },
        None => {},
    }
}

/// A request that is repeated while it is unresolved is refused as a
/// duplicate, however often. Once a request from the sender to the target
/// has been admitted, or refused as a duplicate, the directory holds
/// exactly one pending request between the two; the target is resolved as
/// before; and the flow of the same request ends with the one error event
/// for the sender that words the duplicate: no notice to the target, no
/// second request, the directory and the registry as they were.
pub proof fn lemma_repeated_request_is_refused<H>(
    registry: RegistryView<H>,
    directory: DirectoryView,
    client_id: usize,
    me: Identity,
    to_username: Seq<char>,
    to_user_id: Seq<char>,
    now: i64,
    later: i64,
)
    requires
        directory.wf(),
        directory.request_outcome(me.user_id, to_user_id) is Ok || directory.request_outcome(
            me.user_id,
            to_user_id,
        ) == Err::<Seq<char>, DirectoryError>(DirectoryError::DuplicateRequest),
    ensures
        ({
            let once = directory.after_request(me.user_id, to_user_id, now);
            let create = request_create(client_id, me, to_username, to_user_id);
            let refused = DirectoryReplyView::Done(Err(DirectoryError::DuplicateRequest));
            &&& once.wf()
            &&& once.user_by_username(to_username) == directory.user_by_username(to_username)
            &&& once.request_outcome(me.user_id, to_user_id) == Err::<Seq<char>, DirectoryError>(
                DirectoryError::DuplicateRequest,
            )
            &&& once.performs(
                once,
                DirectoryCallView::CreateChatRequest {
                    from_user_id: me.user_id,
                    to_user_id,
                },
                later,
                refused,
            )
            &&& once.after_request(me.user_id, to_user_id, later) == once
            &&& next_step(registry, create, refused) == refusal(
                client_id,
                RoutingError::Directory(DirectoryError::DuplicateRequest),
            )
            &&& next_registry(registry, create, refused) == registry
            &&& exists|i: int|
                0 <= i < once.requests.len() && (#[trigger] once.requests[i]).is_pending_between(
                    me.user_id,
                    to_user_id,
                ) && forall|j: int|
                    0 <= j < once.requests.len() && j != i ==> !(
                    #[trigger] once.requests[j]).is_pending_between(me.user_id, to_user_id)
        }),
{
    let once = directory.after_request(me.user_id, to_user_id, now);
    lemma_request_admitted_once(directory, me.user_id, to_user_id, now);
    let between = |r: RequestRecordView| r.is_pending_between(me.user_id, to_user_id);
    assert(any(once.requests, between));
    let i = choose|i: int| 0 <= i < once.requests.len() && #[trigger] between(once.requests[i]);
    assert(once.requests[i].is_pending_between(me.user_id, to_user_id));
    assert forall|j: int| 0 <= j < once.requests.len() && j != i implies !(
    #[trigger] once.requests[j]).is_pending_between(me.user_id, to_user_id) by {
        if once.requests[j].is_pending_between(me.user_id, to_user_id) {
            if i < j {
                assert(once.requests[j].is_pending_between(
                    once.requests[i].from_user_id,
                    once.requests[i].to_user_id,
                ));
            } else {
                assert(once.requests[i].is_pending_between(
                    once.requests[j].from_user_id,
                    once.requests[j].to_user_id,
                ));
            }
        }
    }
}

/// Where the flow of an acceptance stands while the request is closed.
pub open spec fn accept_resolve(client_id: usize, me: Identity, from_user_id: Seq<char>) -> PendingView {
    PendingView::AcceptResolve {
        client_id,
        from_user_id,
        to_user_id: me.user_id,
        to_username: me.username,
    }
}

/// Where the flow of an acceptance stands while the requester is looked up.
pub open spec fn accept_notify(
    client_id: usize,
    me: Identity,
    from_user_id: Seq<char>,
    chat_id: Seq<char>,
) -> PendingView {
    PendingView::AcceptNotify {
        client_id,
        chat_id,
        from_user_id,
        to_user_id: me.user_id,
        to_username: me.username,
    }
}

/// What an acceptance leads to: each of the two participants, if
/// reachable, is told of the one chat and of the other participant, the
/// requester first; nobody else is told anything.
pub open spec fn accept_deliveries<H>(
    registry: RegistryView<H>,
    me: Identity,
    from_user_id: Seq<char>,
    from_username: Seq<char>,
    chat_id: Seq<char>,
) -> Seq<DeliveryView> {
    to_identity(
        registry,
        from_user_id,
        OutgoingMessageView::ChatAccepted {
            chat_id,
            with_user: me.username,
            with_user_id: me.user_id,
        },
    ) + to_identity(
        registry,
        me.user_id,
        OutgoingMessageView::ChatAccepted {
            chat_id,
            with_user: from_username,
            with_user_id: from_user_id,
        },
    )
}

/// The flow of an acceptance. The directory is asked once to accept the
/// request from the requester to the sender. Where no such request is
/// pending, the sender alone is sent a refusal and nothing changes. Where
/// one is, it is closed as accepted and one chat of exactly the two is
/// created; the requester is looked up, and each of the two is told of the
/// chat under the identifier that the directory gave it.
pub proof fn lemma_accept_flow<H>(
    registry: RegistryView<H>,
    directory: DirectoryView,
    client_id: usize,
    me: Identity,
    from_user_id: Seq<char>,
    now: i64,
    resolved: DirectoryView,
    created: DirectoryReplyView,
    looked: DirectoryView,
    found: DirectoryReplyView,
)
    requires
        directory.wf(),
        directory.performs(
            resolved,
            DirectoryCallView::AcceptChatRequest { from_user_id, to_user_id: me.user_id },
            now,
            created,
        ),
        next_step(registry, accept_resolve(client_id, me, from_user_id), created) matches StepView::Ask {
            call,
            ..
        } ==> resolved.performs(looked, call, now, found),
    ensures
        begin_as(client_id, me, IncomingMessageView::AcceptChatRequest { from_user_id })
            == (StepView::Ask {
            call: DirectoryCallView::AcceptChatRequest { from_user_id, to_user_id: me.user_id },
            pending: accept_resolve(client_id, me, from_user_id),
        }),
        next_registry(registry, accept_resolve(client_id, me, from_user_id), created) == registry,
        match directory.pending_index(from_user_id, me.user_id) {
            None => {
                &&& resolved == directory
                &&& next_step(registry, accept_resolve(client_id, me, from_user_id), created)
                    == refusal(client_id, RoutingError::AcceptFailed)
            },
            Some(i) => {
                &&& created matches DirectoryReplyView::ChatId(Ok(chat_id))
                &&& resolved.chats == directory.chats.push(resolved.chats.last())
                &&& resolved.chats.last().chat_id == chat_id
                &&& resolved.chats.last().participants == seq![from_user_id, me.user_id]
                &&& resolved.requests == directory.requests.update(
                    i,
                    directory.requests[i].with_status(RequestStatus::Accepted),
                )
                &&& next_step(registry, accept_resolve(client_id, me, from_user_id), created)
                    == (StepView::Ask {
                    call: DirectoryCallView::FindUserById { user_id: from_user_id },
                    pending: accept_notify(client_id, me, from_user_id, chat_id),
                })
                &&& looked == resolved
                &&& next_registry(
                    registry,
                    accept_notify(client_id, me, from_user_id, chat_id),
                    found,
                ) == registry
                &&& next_step(registry, accept_notify(client_id, me, from_user_id, chat_id), found)
                    == match directory.user_by_id(from_user_id) {
                    Ok(Some(requester)) => StepView::Done {
                        deliveries: accept_deliveries(
                            registry,
                            me,
                            from_user_id,
                            requester.username,
                            chat_id,
                        ),
                    },
                    Ok(None) => StepView::Done { deliveries: Seq::empty() },
                    Err(_) => refusal(client_id, RoutingError::Store),
                }
            },
        },
{
    lemma_first_index(
        directory.requests,
        |r: RequestRecordView| r.is_pending_from_to(from_user_id, me.user_id),
    );
    if directory.pending_index(from_user_id, me.user_id) is Some {
        assert(resolved.users == directory.users);
        assert(resolved.user_by_id(from_user_id) == directory.user_by_id(from_user_id));
    }
}

/// Where the flow of a message stands while the participants are fetched.
pub open spec fn message_participants(
    client_id: usize,
    me: Identity,
    chat_id: Seq<char>,
    message: Seq<char>,
) -> PendingView {
    PendingView::MessageParticipants {
        client_id,
        chat_id,
        from_user_id: me.user_id,
        from_username: me.username,
        message,
    }
}

/// Where the flow of a message stands while the message is stored.
pub open spec fn message_save(
    client_id: usize,
    me: Identity,
    chat_id: Seq<char>,
    message: Seq<char>,
    participants: Seq<Seq<char>>,
) -> PendingView {
    PendingView::MessageSave {
        client_id,
        chat_id,
        from_user_id: me.user_id,
        from_username: me.username,
        message,
        participants,
    }
}

/// The flow of a message. A message that is blank is refused before the
/// directory is asked anything. Otherwise the participants of the chat are
/// fetched; a chat that is not found, or in which the sender takes no
/// part, ends the flow with a refusal and without a message. Otherwise
/// the message is stored once, at the given instant, and every
/// participant that is reachable is sent it with the time in seconds;
/// a participant that is not reachable is sent nothing.
pub proof fn lemma_message_flow<H>(
    registry: RegistryView<H>,
    directory: DirectoryView,
    client_id: usize,
    me: Identity,
    chat_id: Seq<char>,
    message: Seq<char>,
    now: i64,
    looked: DirectoryView,
    named: DirectoryReplyView,
    after: DirectoryView,
    stored: DirectoryReplyView,
)
    requires
        directory.wf(),
        directory.performs(
            looked,
            DirectoryCallView::GetChatParticipants { chat_id },
            now,
            named,
        ),
        next_step(registry, message_participants(client_id, me, chat_id, message), named) matches StepView::Ask {
            call,
            ..
        } ==> looked.performs(after, call, now, stored),
    ensures
        begin_as(client_id, me, IncomingMessageView::SendMessage { chat_id, message })
            == if is_blank(message) {
            refusal(client_id, RoutingError::EmptyMessage)
        } else {
            StepView::Ask {
                call: DirectoryCallView::GetChatParticipants { chat_id },
                pending: message_participants(client_id, me, chat_id, message),
            }
        },
        looked == directory,
        next_registry(registry, message_participants(client_id, me, chat_id, message), named)
            == registry,
        match directory.participants(chat_id) {
            Err(_) => next_step(
                registry,
                message_participants(client_id, me, chat_id, message),
                named,
            ) == refusal(client_id, RoutingError::ChatNotFound),
            Ok(participants) => if !participants.contains(me.user_id) {
                next_step(registry, message_participants(client_id, me, chat_id, message), named)
                    == refusal(client_id, RoutingError::NotAParticipant)
            } else {
                let save = message_save(client_id, me, chat_id, message, participants);
                &&& next_step(
                    registry,
                    message_participants(client_id, me, chat_id, message),
                    named,
                ) == (StepView::Ask {
                    call: DirectoryCallView::SaveMessage {
                        chat_id,
                        from_user_id: me.user_id,
                        message,
                    },
                    pending: save,
                })
                &&& after == directory.after_message(
                    MessageRecordView {
                        chat_id,
                        from_user_id: me.user_id,
                        message,
                        timestamp: now,
                    },
                )
                &&& after.wf()
                &&& next_registry(registry, save, stored) == registry
                &&& next_step(registry, save, stored) == (StepView::Done {
                    deliveries: fan_out(
                        registry,
                        participants,
                        OutgoingMessageView::NewMessage {
                            chat_id,
                            from_user_id: me.user_id,
                            from_username: me.username,
                            message,
                            timestamp: whole_seconds(now) as i64,
                        },
                    ),
                })
            },
        },
{
    match directory.participants(chat_id) {
        Ok(participants) => {
            if participants.contains(me.user_id) {
                lemma_stored_message_is_listed(
                    directory,
                    MessageRecordView { chat_id, from_user_id: me.user_id, message, timestamp: now },
                    me.user_id,
                );
            }
        },
        Err(_) => {},
    }
}

/// The flow of a listing of messages. The directory is asked once, and
/// changes nothing; its listing goes to the asking connection alone, under
/// the identifier of the chat, and a failure becomes a refusal to that
/// connection. The registry is as before.
pub proof fn lemma_list_messages_flow<H>(
    registry: RegistryView<H>,
    directory: DirectoryView,
    client_id: usize,
    me: Identity,
    chat_id: Seq<char>,
    now: i64,
    after: DirectoryView,
    listed: DirectoryReplyView,
)
    requires
        directory.performs(
            after,
            DirectoryCallView::GetChatMessages { chat_id, user_id: me.user_id },
            now,
            listed,
        ),
    ensures
        begin_as(client_id, me, IncomingMessageView::GetChatMessages { chat_id })
            == (StepView::Ask {
            call: DirectoryCallView::GetChatMessages { chat_id, user_id: me.user_id },
            pending: PendingView::ListMessages { client_id, chat_id },
        }),
        after == directory,
        next_registry(registry, PendingView::ListMessages { client_id, chat_id }, listed)
            == registry,
        next_step(registry, PendingView::ListMessages { client_id, chat_id }, listed)
            == match directory.chat_messages(chat_id, me.user_id) {
            Ok(messages) => answer(
                client_id,
                OutgoingMessageView::ChatMessages { chat_id, messages },
            ),
            Err(_) => refusal(client_id, RoutingError::ListMessagesFailed),
        },
{
}

/// A message that was stored while a participant was away is read by that
/// participant later. Once `record` is stored, a participant of its chat
/// who asks for the messages of the chat, from whatever connection, is
/// answered on that connection alone; and the listing it is given holds
/// the message under its sender's name, wherever the directory knows the
/// sender.
pub proof fn lemma_stored_message_is_read_later<H>(
    registry: RegistryView<H>,
    directory: DirectoryView,
    record: MessageRecordView,
    client_id: usize,
    me: Identity,
    now: i64,
    after: DirectoryView,
    listed: DirectoryReplyView,
)
    requires
        directory.wf(),
        directory.after_message(record).performs(
            after,
            DirectoryCallView::GetChatMessages { chat_id: record.chat_id, user_id: me.user_id },
            now,
            listed,
        ),
    ensures
        after == directory.after_message(record),
        listed matches DirectoryReplyView::Messages(Ok(messages)) ==> {
            &&& next_step(
                registry,
                PendingView::ListMessages { client_id, chat_id: record.chat_id },
                listed,
            ) == answer(
                client_id,
                OutgoingMessageView::ChatMessages { chat_id: record.chat_id, messages },
            )
            &&& directory.sender_record(record) matches Some(sender) ==> messages.contains(
                record.listing(sender),
            )
        },
{
    lemma_stored_message_is_listed(directory, record, me.user_id);
}

/// The flow of an authentication whose credential the verifier accepted.
/// The identity of the claims is looked up. Where the directory knows it
/// and the connection is live and without an identity, the connection is
/// bound to it under the name that the directory holds, the identity is
/// routed to the connection and recorded as present, and the connection
/// alone is told of the success. In every other case the connection
/// alone is sent a refusal, and the registry is as before.
pub proof fn lemma_authentication_flow<H>(
    registry: RegistryView<H>,
    directory: DirectoryView,
    client_id: usize,
    claims: ClaimsView,
    now: i64,
    looked: DirectoryView,
    found: DirectoryReplyView,
    after: DirectoryView,
    recorded: DirectoryReplyView,
)
    requires
        registry.wf(),
        directory.wf(),
        directory.performs(
            looked,
            DirectoryCallView::FindUserById { user_id: claims.user_id },
            now,
            found,
        ),
        next_step(
            registry,
            PendingView::AuthLookup { client_id, user_id: claims.user_id },
            found,
        ) matches StepView::Ask { call, .. } ==> looked.performs(after, call, now, recorded),
    ensures
        auth_step(client_id, Some(claims)) == (StepView::Ask {
            call: DirectoryCallView::FindUserById { user_id: claims.user_id },
            pending: PendingView::AuthLookup { client_id, user_id: claims.user_id },
        }),
        looked == directory,
        ({
            let lookup = PendingView::AuthLookup { client_id, user_id: claims.user_id };
            let bound = next_registry(registry, lookup, found);
            match directory.user_by_id(claims.user_id) {
                Ok(Some(user)) => match registry.bind_outcome(client_id) {
                    Ok(_) => {
                        let presence = PendingView::AuthPresence {
                            client_id,
                            user_id: claims.user_id,
                            username: user.username,
                        };
                        &&& bound == registry.bind(
                            client_id,
                            Identity { user_id: claims.user_id, username: user.username },
                        )
                        &&& bound.wf()
                        &&& bound.is_bound(client_id)
                        &&& bound.lookup(claims.user_id) == Some(client_id)
                        &&& next_step(registry, lookup, found) == (StepView::Ask {
                            call: DirectoryCallView::UpdateUserOnlineStatus {
                                user_id: claims.user_id,
                                online: true,
                            },
                            pending: presence,
                        })
                        &&& after == directory.after_presence(claims.user_id, true, now)
                        &&& next_registry(bound, presence, recorded) == bound
                        &&& next_step(bound, presence, recorded) == answer(
                            client_id,
                            OutgoingMessageView::AuthSuccess {
                                user_id: claims.user_id,
                                username: user.username,
                            },
                        )
                    },
                    Err(BindError::AlreadyBound) => bound == registry && next_step(
                        registry,
                        lookup,
                        found,
                    ) == refusal(client_id, RoutingError::AlreadyAuthenticated),
                    Err(BindError::UnknownConnection) => bound == registry && next_step(
                        registry,
                        lookup,
                        found,
                    ) == refusal(client_id, RoutingError::UnknownConnection),
                },
                Ok(None) => bound == registry && next_step(registry, lookup, found) == refusal(
                    client_id,
                    RoutingError::UserNotFound,
                ),
                Err(_) => bound == registry && next_step(registry, lookup, found) == refusal(
                    client_id,
                    RoutingError::Store,
                ),
            }
        }),
{
    lemma_resume_keeps_registry(
        registry,
        PendingView::AuthLookup { client_id, user_id: claims.user_id },
        found,
    );
}

} // verus!
