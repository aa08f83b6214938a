use notebud_websocket::auth::{Claims, InvalidCredential, JwtValidator};
use notebud_websocket::calls::{DirectoryCall, DirectoryReply};
use notebud_websocket::directory::Directory;
use notebud_websocket::handlers::MessageHandler;
use notebud_websocket::records::{DirectoryError, RequestStatus, UserRecord};
use notebud_websocket::steps::{Delivery, Pending, RoutingError, Step};
use notebud_websocket::types::{IncomingMessage, OutgoingMessage, User};

const SECRET: &str = "a-shared-secret";
const ALICE: &str = "507f1f77bcf86cd799439011";
const BOB: &str = "507f1f77bcf86cd799439012";
const CAROL: &str = "507f1f77bcf86cd799439013";

fn now_seconds() -> u64 {
    std::time::SystemTime::now().duration_since(std::time::UNIX_EPOCH).unwrap().as_secs()
}

fn token(user_id: &str, secret: &str) -> String {
    let mut claims = serde_json::Map::new();
    claims.insert("user_id".to_string(), serde_json::Value::from(user_id));
    claims.insert("exp".to_string(), serde_json::Value::from(now_seconds() + 3600));
    claims.insert("iat".to_string(), serde_json::Value::from(now_seconds()));
    jsonwebtoken::encode(
        &jsonwebtoken::Header::default(),
        &serde_json::Value::Object(claims),
        &jsonwebtoken::EncodingKey::from_secret(secret.as_bytes()),
    )
    .unwrap()
}

fn record(id: &str, name: &str) -> UserRecord {
    UserRecord {
        user_id: id.to_string(),
        username: name.to_string(),
        email: String::new(),
        online: false,
        last_seen: None,
    }
}

fn world() -> (MessageHandler<&'static str>, Directory) {
    let mut directory = Directory::new();
    directory.insert_user(record(ALICE, "alice"));
    directory.insert_user(record(BOB, "bob"));
    directory.insert_user(record(CAROL, "carol"));
    (MessageHandler::new(JwtValidator::new(SECRET.to_string())), directory)
}

fn drive(
    handler: &mut MessageHandler<&'static str>,
    directory: &mut Directory,
    client_id: usize,
    message: IncomingMessage,
    now: i64,
) -> Vec<Delivery> {
    let mut step = handler.handle_message(client_id, message);
    loop {
        match step {
            Step::Done { deliveries } => return deliveries,
            Step::Ask { call, pending } => {
                let reply = directory.perform(call, now);
                step = handler.resume(pending, reply);
            }
        }
    }
}

fn connect(
    handler: &mut MessageHandler<&'static str>,
    directory: &mut Directory,
    user_id: &str,
) -> usize {
    let client_id = handler.add_client("handle");
    let sent = drive(
        handler,
        directory,
        client_id,
        IncomingMessage::Auth { token: token(user_id, SECRET) },
        1_000,
    );
    assert_eq!(sent.len(), 1);
    assert!(matches!(sent[0].message, OutgoingMessage::AuthSuccess { .. }));
    client_id
}

fn error_text(delivery: &Delivery) -> &str {
    match &delivery.message {
        OutgoingMessage::Error { message } => message.as_str(),
        other => panic!("not an error: {:?}", other),
    }
}

fn chat_between_alice_and_bob(
    handler: &mut MessageHandler<&'static str>,
    directory: &mut Directory,
    a: usize,
    b: usize,
) -> String {
    drive(
        handler,
        directory,
        a,
        IncomingMessage::SendChatRequest { to_username: "bob".to_string() },
        2_000,
    );
    let sent = drive(
        handler,
        directory,
        b,
        IncomingMessage::AcceptChatRequest { from_user_id: ALICE.to_string() },
        3_000,
    );
    match &sent[0].message {
        OutgoingMessage::ChatAccepted { chat_id, .. } => chat_id.clone(),
        other => panic!("not an acceptance: {:?}", other),
    }
}

#[test]
fn authentication_binds_the_connection() {
    let (mut handler, mut directory) = world();
    let a = handler.add_client("a");
    let sent = drive(
        &mut handler,
        &mut directory,
        a,
        IncomingMessage::Auth { token: token(ALICE, SECRET) },
        5_000,
    );
    assert_eq!(sent.len(), 1);
    assert_eq!(sent[0].client_id, a);
    match &sent[0].message {
        OutgoingMessage::AuthSuccess { user_id, username } => {
            assert_eq!(user_id, ALICE);
            assert_eq!(username, "alice");
        }
        other => panic!("unexpected {:?}", other),
    }
    assert!(handler.registry().is_bound(a));
    assert_eq!(handler.registry().lookup_connection_for_identity(ALICE), Some(a));
    assert_eq!(handler.get_active_connection_count(), 1);
    assert_eq!(handler.get_authenticated_connection_count(), 1);
    let alice = directory.find_user_by_id(ALICE).unwrap().unwrap();
    assert!(alice.online);
    assert_eq!(alice.last_seen, Some("1970-01-01T00:00:05Z".to_string()));
}

#[test]
fn events_before_authentication_are_refused() {
    let (mut handler, mut directory) = world();
    let a = handler.add_client("a");
    let events = vec![
        IncomingMessage::SendChatRequest { to_username: "bob".to_string() },
        IncomingMessage::AcceptChatRequest { from_user_id: BOB.to_string() },
        IncomingMessage::DeclineChatRequest { from_user_id: BOB.to_string() },
        IncomingMessage::SendMessage { chat_id: "c".to_string(), message: "hi".to_string() },
        IncomingMessage::GetChatRequests,
        IncomingMessage::GetActiveChats,
        IncomingMessage::GetChatMessages { chat_id: "c".to_string() },
    ];
    for event in events {
        let step = handler.handle_message(a, event);
        match step {
            Step::Done { deliveries } => {
                assert_eq!(deliveries.len(), 1);
                assert_eq!(deliveries[0].client_id, a);
                assert_eq!(error_text(&deliveries[0]), "Client not authenticated");
            }
            Step::Ask { .. } => panic!("the directory must not be asked"),
        }
    }
    assert!(!handler.registry().is_bound(a));
    assert!(directory.requests().is_empty());
    let sent = drive(
        &mut handler,
        &mut directory,
        a,
        IncomingMessage::Auth { token: token(ALICE, SECRET) },
        1,
    );
    assert!(matches!(sent[0].message, OutgoingMessage::AuthSuccess { .. }));
}

#[test]
fn an_event_of_an_unknown_connection_is_refused() {
    let (mut handler, mut directory) = world();
    let sent = drive(&mut handler, &mut directory, 42, IncomingMessage::GetActiveChats, 1);
    assert_eq!(sent.len(), 1);
    assert_eq!(sent[0].client_id, 42);
    assert_eq!(error_text(&sent[0]), "Client not authenticated");
    assert!(handler.send_to_client(42, OutgoingMessage::ChatDeclined { by_user: String::new() }).is_none());
}

#[test]
fn a_rejected_credential_leaves_the_connection_unauthenticated() {
    let (mut handler, mut directory) = world();
    let a = handler.add_client("a");
    let sent = drive(
        &mut handler,
        &mut directory,
        a,
        IncomingMessage::Auth { token: token(ALICE, "another-secret") },
        1,
    );
    assert_eq!(sent.len(), 1);
    assert_eq!(sent[0].client_id, a);
    assert_eq!(error_text(&sent[0]), "Invalid token");
    assert!(!handler.registry().is_bound(a));
    let sent = drive(
        &mut handler,
        &mut directory,
        a,
        IncomingMessage::Auth { token: "garbage".to_string() },
        1,
    );
    assert_eq!(error_text(&sent[0]), "Invalid token");
    let sent = drive(
        &mut handler,
        &mut directory,
        a,
        IncomingMessage::Auth { token: token(ALICE, SECRET) },
        1,
    );
    assert!(matches!(sent[0].message, OutgoingMessage::AuthSuccess { .. }));
    assert!(handler.registry().is_bound(a));
}

#[test]
fn a_credential_of_an_unknown_identity_is_refused() {
    let (mut handler, mut directory) = world();
    let a = handler.add_client("a");
    let sent = drive(
        &mut handler,
        &mut directory,
        a,
        IncomingMessage::Auth { token: token("507f1f77bcf86cd799439099", SECRET) },
        1,
    );
    assert_eq!(error_text(&sent[0]), "User not found");
    assert!(!handler.registry().is_bound(a));
    let sent = drive(
        &mut handler,
        &mut directory,
        a,
        IncomingMessage::Auth { token: token("not-an-object-id", SECRET) },
        1,
    );
    assert_eq!(error_text(&sent[0]), "Database error");
    assert!(!handler.registry().is_bound(a));
}

#[test]
fn a_second_authentication_is_refused() {
    let (mut handler, mut directory) = world();
    let a = connect(&mut handler, &mut directory, ALICE);
    let sent = drive(
        &mut handler,
        &mut directory,
        a,
        IncomingMessage::Auth { token: token(BOB, SECRET) },
        1,
    );
    assert_eq!(error_text(&sent[0]), "Already authenticated");
    assert_eq!(handler.registry().user_id_of(a), Some(ALICE.to_string()));
    assert_eq!(handler.registry().lookup_connection_for_identity(BOB), None);
}

#[test]
fn begin_auth_follows_the_verdict() {
    let claims = Claims {
        user_id: ALICE.to_string(),
        username: String::new(),
        session_id: String::new(),
        permanent: false,
        exp: 2,
        iat: 1,
    };
    match MessageHandler::<u8>::begin_auth(3, Ok(claims)) {
        Step::Ask {
            call: DirectoryCall::FindUserById { user_id },
            pending: Pending::AuthLookup { client_id, user_id: kept },
        } => {
            assert_eq!(user_id, ALICE);
            assert_eq!(kept, ALICE);
            assert_eq!(client_id, 3);
        }
        other => panic!("unexpected {:?}", other),
    }
    match MessageHandler::<u8>::begin_auth(3, Err(InvalidCredential)) {
        Step::Done { deliveries } => {
            assert_eq!(deliveries.len(), 1);
            assert_eq!(deliveries[0].client_id, 3);
            assert_eq!(error_text(&deliveries[0]), "Invalid token");
        }
        other => panic!("unexpected {:?}", other),
    }
}

#[test]
fn authentication_on_a_removed_connection_binds_nothing() {
    let (mut handler, mut directory) = world();
    let a = handler.add_client("a");
    let step = handler.handle_message(a, IncomingMessage::Auth { token: token(ALICE, SECRET) });
    let (call, pending) = match step {
        Step::Ask { call, pending } => (call, pending),
        other => panic!("unexpected {:?}", other),
    };
    assert!(handler.remove_client(a).is_none());
    let reply = directory.perform(call, 1);
    match handler.resume(pending, reply) {
        Step::Done { deliveries } => assert_eq!(error_text(&deliveries[0]), "Unknown connection"),
        other => panic!("unexpected {:?}", other),
    }
    assert_eq!(handler.registry().lookup_connection_for_identity(ALICE), None);
    assert_eq!(handler.get_authenticated_connection_count(), 0);
}

#[test]
fn request_and_acceptance_reach_both_sides() {
    let (mut handler, mut directory) = world();
    let a = connect(&mut handler, &mut directory, ALICE);
    let b = connect(&mut handler, &mut directory, BOB);
    let sent = drive(
        &mut handler,
        &mut directory,
        a,
        IncomingMessage::SendChatRequest { to_username: "bob".to_string() },
        2_000,
    );
    assert_eq!(sent.len(), 2);
    assert_eq!(sent[0].client_id, a);
    match &sent[0].message {
        OutgoingMessage::ChatRequestSent { to_username } => assert_eq!(to_username, "bob"),
        other => panic!("unexpected {:?}", other),
    }
    assert_eq!(sent[1].client_id, b);
    match &sent[1].message {
        OutgoingMessage::NewChatRequest { from_user_id, from_username } => {
            assert_eq!(from_user_id, ALICE);
            assert_eq!(from_username, "alice");
        }
        other => panic!("unexpected {:?}", other),
    }
    let sent = drive(
        &mut handler,
        &mut directory,
        b,
        IncomingMessage::AcceptChatRequest { from_user_id: ALICE.to_string() },
        3_000,
    );
    assert_eq!(sent.len(), 2);
    assert_eq!(sent[0].client_id, a);
    assert_eq!(sent[1].client_id, b);
    let (for_alice, for_bob) = match (&sent[0].message, &sent[1].message) {
        (
            OutgoingMessage::ChatAccepted { chat_id: first, with_user: u1, with_user_id: i1 },
            OutgoingMessage::ChatAccepted { chat_id: second, with_user: u2, with_user_id: i2 },
        ) => {
            assert_eq!(u1, "bob");
            assert_eq!(i1, BOB);
            assert_eq!(u2, "alice");
            assert_eq!(i2, ALICE);
            (first.clone(), second.clone())
        }
        other => panic!("unexpected {:?}", other),
    };
    assert_eq!(for_alice, for_bob);
    assert_eq!(directory.chats().len(), 1);
    assert_eq!(directory.chats()[0].chat_id, for_alice);
    assert_eq!(directory.chats()[0].participants, vec![ALICE.to_string(), BOB.to_string()]);
    assert_eq!(directory.requests()[0].status, RequestStatus::Accepted);
}

#[test]
fn a_message_to_a_disconnected_peer_is_stored_not_delivered() {
    let (mut handler, mut directory) = world();
    let a = connect(&mut handler, &mut directory, ALICE);
    let b = connect(&mut handler, &mut directory, BOB);
    let chat_id = chat_between_alice_and_bob(&mut handler, &mut directory, a, b);
    let offline = handler.remove_client(b);
    match offline {
        Some(DirectoryCall::UpdateUserOnlineStatus { user_id, online }) => {
            assert_eq!(user_id, BOB);
            assert!(!online);
            directory.update_user_online_status(&user_id, online, 4_000).unwrap();
        }
        other => panic!("unexpected {:?}", other),
    }
    let sent = drive(
        &mut handler,
        &mut directory,
        a,
        IncomingMessage::SendMessage { chat_id: chat_id.clone(), message: "hi".to_string() },
        5_000,
    );
    assert_eq!(sent.len(), 1);
    assert_eq!(sent[0].client_id, a);
    match &sent[0].message {
        OutgoingMessage::NewMessage { chat_id: c, from_user_id, from_username, message, timestamp } => {
            assert_eq!(c, &chat_id);
            assert_eq!(from_user_id, ALICE);
            assert_eq!(from_username, "alice");
            assert_eq!(message, "hi");
            assert_eq!(*timestamp, 5);
        }
        other => panic!("unexpected {:?}", other),
    }
    assert_eq!(directory.messages().len(), 1);
    let b2 = connect(&mut handler, &mut directory, BOB);
    assert_ne!(b2, b);
    let sent = drive(
        &mut handler,
        &mut directory,
        b2,
        IncomingMessage::GetChatMessages { chat_id: chat_id.clone() },
        6_000,
    );
    assert_eq!(sent.len(), 1);
    assert_eq!(sent[0].client_id, b2);
    match &sent[0].message {
        OutgoingMessage::ChatMessages { chat_id: c, messages } => {
            assert_eq!(c, &chat_id);
            assert_eq!(messages.len(), 1);
            assert_eq!(messages[0].message, "hi");
            assert_eq!(messages[0].from_user_id, ALICE);
            assert_eq!(messages[0].from_username, "alice");
            assert_eq!(messages[0].timestamp, "1970-01-01T00:00:05Z");
        }
        other => panic!("unexpected {:?}", other),
    }
}

#[test]
fn a_repeated_request_is_a_duplicate() {
    let (mut handler, mut directory) = world();
    let a = connect(&mut handler, &mut directory, ALICE);
    let b = connect(&mut handler, &mut directory, BOB);
    let first = drive(
        &mut handler,
        &mut directory,
        a,
        IncomingMessage::SendChatRequest { to_username: "bob".to_string() },
        2_000,
    );
    assert_eq!(first.len(), 2);
    for _ in 0..2 {
        let again = drive(
            &mut handler,
            &mut directory,
            a,
            IncomingMessage::SendChatRequest { to_username: "bob".to_string() },
            2_500,
        );
        assert_eq!(again.len(), 1);
        assert_eq!(again[0].client_id, a);
        assert_eq!(error_text(&again[0]), "Chat request already exists");
    }
    let pending =
        directory.requests().iter().filter(|r| r.status == RequestStatus::Pending).count();
    assert_eq!(pending, 1);
    assert_eq!(directory.requests().len(), 1);
    let crossed = drive(
        &mut handler,
        &mut directory,
        b,
        IncomingMessage::SendChatRequest { to_username: "alice".to_string() },
        2_600,
    );
    assert_eq!(error_text(&crossed[0]), "Chat request already exists");
}

#[test]
fn a_blank_message_is_refused() {
    let (mut handler, mut directory) = world();
    let a = connect(&mut handler, &mut directory, ALICE);
    let b = connect(&mut handler, &mut directory, BOB);
    let chat_id = chat_between_alice_and_bob(&mut handler, &mut directory, a, b);
    for body in ["   ", "", "\t\n \u{a0}\u{3000}"] {
        let step = handler.handle_message(
            a,
            IncomingMessage::SendMessage { chat_id: chat_id.clone(), message: body.to_string() },
        );
        match step {
            Step::Done { deliveries } => {
                assert_eq!(deliveries.len(), 1);
                assert_eq!(deliveries[0].client_id, a);
                assert_eq!(error_text(&deliveries[0]), "Message cannot be empty");
            }
            Step::Ask { .. } => panic!("the directory must not be asked"),
        }
    }
    assert!(directory.messages().is_empty());
}

#[test]
fn a_message_reaches_every_reachable_participant() {
    let (mut handler, mut directory) = world();
    let a = connect(&mut handler, &mut directory, ALICE);
    let b = connect(&mut handler, &mut directory, BOB);
    let chat_id = chat_between_alice_and_bob(&mut handler, &mut directory, a, b);
    let sent = drive(
        &mut handler,
        &mut directory,
        b,
        IncomingMessage::SendMessage { chat_id: chat_id.clone(), message: " hello ".to_string() },
        9_999,
    );
    assert_eq!(sent.len(), 2);
    assert_eq!(sent[0].client_id, a);
    assert_eq!(sent[1].client_id, b);
    for delivery in &sent {
        match &delivery.message {
            OutgoingMessage::NewMessage { from_user_id, from_username, message, timestamp, .. } => {
                assert_eq!(from_user_id, BOB);
                assert_eq!(from_username, "bob");
                assert_eq!(message, " hello ");
                assert_eq!(*timestamp, 9);
            }
            other => panic!("unexpected {:?}", other),
        }
    }
    assert_eq!(directory.chats()[0].last_message_at, Some(9_999));
}

#[test]
fn a_message_of_a_stranger_is_refused() {
    let (mut handler, mut directory) = world();
    let a = connect(&mut handler, &mut directory, ALICE);
    let b = connect(&mut handler, &mut directory, BOB);
    let c = connect(&mut handler, &mut directory, CAROL);
    let chat_id = chat_between_alice_and_bob(&mut handler, &mut directory, a, b);
    let sent = drive(
        &mut handler,
        &mut directory,
        c,
        IncomingMessage::SendMessage { chat_id: chat_id.clone(), message: "let me in".to_string() },
        1,
    );
    assert_eq!(sent.len(), 1);
    assert_eq!(sent[0].client_id, c);
    assert_eq!(error_text(&sent[0]), "Not authorized to send messages to this chat");
    let sent = drive(
        &mut handler,
        &mut directory,
        c,
        IncomingMessage::SendMessage { chat_id: "no-such-chat".to_string(), message: "x".to_string() },
        1,
    );
    assert_eq!(error_text(&sent[0]), "Chat not found");
    assert!(directory.messages().is_empty());
    let sent = drive(
        &mut handler,
        &mut directory,
        c,
        IncomingMessage::GetChatMessages { chat_id },
        1,
    );
    assert_eq!(error_text(&sent[0]), "Failed to get chat messages");
}

#[test]
fn a_request_to_oneself_or_a_stranger_is_refused() {
    let (mut handler, mut directory) = world();
    let a = connect(&mut handler, &mut directory, ALICE);
    let sent = drive(
        &mut handler,
        &mut directory,
        a,
        IncomingMessage::SendChatRequest { to_username: "alice".to_string() },
        1,
    );
    assert_eq!(sent.len(), 1);
    assert_eq!(error_text(&sent[0]), "Cannot send request to yourself");
    let sent = drive(
        &mut handler,
        &mut directory,
        a,
        IncomingMessage::SendChatRequest { to_username: "nobody".to_string() },
        1,
    );
    assert_eq!(error_text(&sent[0]), "User not found");
    assert!(directory.requests().is_empty());
}

#[test]
fn a_request_to_an_offline_target_is_only_acknowledged() {
    let (mut handler, mut directory) = world();
    let a = connect(&mut handler, &mut directory, ALICE);
    let sent = drive(
        &mut handler,
        &mut directory,
        a,
        IncomingMessage::SendChatRequest { to_username: "bob".to_string() },
        1,
    );
    assert_eq!(sent.len(), 1);
    assert_eq!(sent[0].client_id, a);
    assert!(matches!(sent[0].message, OutgoingMessage::ChatRequestSent { .. }));
    let b = connect(&mut handler, &mut directory, BOB);
    let sent = drive(&mut handler, &mut directory, b, IncomingMessage::GetChatRequests, 2);
    match &sent[0].message {
        OutgoingMessage::ChatRequests { requests } => {
            assert_eq!(requests.len(), 1);
            assert_eq!(requests[0].from_username, "alice");
        }
        other => panic!("unexpected {:?}", other),
    }
}

#[test]
fn a_request_after_acceptance_finds_the_chat() {
    let (mut handler, mut directory) = world();
    let a = connect(&mut handler, &mut directory, ALICE);
    let b = connect(&mut handler, &mut directory, BOB);
    chat_between_alice_and_bob(&mut handler, &mut directory, a, b);
    let sent = drive(
        &mut handler,
        &mut directory,
        a,
        IncomingMessage::SendChatRequest { to_username: "bob".to_string() },
        1,
    );
    assert_eq!(error_text(&sent[0]), "Chat already exists");
}

#[test]
fn declining_tells_the_requester() {
    let (mut handler, mut directory) = world();
    let a = connect(&mut handler, &mut directory, ALICE);
    let b = connect(&mut handler, &mut directory, BOB);
    drive(
        &mut handler,
        &mut directory,
        a,
        IncomingMessage::SendChatRequest { to_username: "bob".to_string() },
        1,
    );
    let sent = drive(
        &mut handler,
        &mut directory,
        b,
        IncomingMessage::DeclineChatRequest { from_user_id: ALICE.to_string() },
        2,
    );
    assert_eq!(sent.len(), 1);
    assert_eq!(sent[0].client_id, a);
    match &sent[0].message {
        OutgoingMessage::ChatDeclined { by_user } => assert_eq!(by_user, "bob"),
        other => panic!("unexpected {:?}", other),
    }
    assert_eq!(directory.requests()[0].status, RequestStatus::Declined);
    let sent = drive(
        &mut handler,
        &mut directory,
        b,
        IncomingMessage::DeclineChatRequest { from_user_id: ALICE.to_string() },
        3,
    );
    assert_eq!(sent[0].client_id, b);
    assert_eq!(error_text(&sent[0]), "Failed to decline chat request");
    let sent = drive(
        &mut handler,
        &mut directory,
        b,
        IncomingMessage::AcceptChatRequest { from_user_id: ALICE.to_string() },
        4,
    );
    assert_eq!(error_text(&sent[0]), "Failed to accept chat request");
}

#[test]
fn a_newer_connection_takes_over_the_deliveries() {
    let (mut handler, mut directory) = world();
    let a = connect(&mut handler, &mut directory, ALICE);
    let old_b = connect(&mut handler, &mut directory, BOB);
    let new_b = connect(&mut handler, &mut directory, BOB);
    let sent = drive(
        &mut handler,
        &mut directory,
        a,
        IncomingMessage::SendChatRequest { to_username: "bob".to_string() },
        1,
    );
    assert_eq!(sent[1].client_id, new_b);
    assert!(handler.remove_client(old_b).is_some());
    assert_eq!(handler.registry().lookup_connection_for_identity(BOB), Some(new_b));
    let sent = drive(
        &mut handler,
        &mut directory,
        new_b,
        IncomingMessage::AcceptChatRequest { from_user_id: ALICE.to_string() },
        2,
    );
    assert_eq!(sent.len(), 2);
    assert_eq!(sent[0].client_id, a);
    assert_eq!(sent[1].client_id, new_b);
}

#[test]
fn active_chats_are_listed_to_the_sender() {
    let (mut handler, mut directory) = world();
    let a = connect(&mut handler, &mut directory, ALICE);
    let b = connect(&mut handler, &mut directory, BOB);
    let chat_id = chat_between_alice_and_bob(&mut handler, &mut directory, a, b);
    let sent = drive(&mut handler, &mut directory, a, IncomingMessage::GetActiveChats, 4_000);
    assert_eq!(sent.len(), 1);
    assert_eq!(sent[0].client_id, a);
    match &sent[0].message {
        OutgoingMessage::ActiveChats { chats } => {
            assert_eq!(chats.len(), 1);
            assert_eq!(chats[0].chat_id, chat_id);
            assert_eq!(chats[0].with_user, "bob");
            assert_eq!(chats[0].with_user_id, BOB);
            assert!(chats[0].online);
            assert_eq!(chats[0].last_message_at, "1970-01-01T00:00:03Z");
        }
        other => panic!("unexpected {:?}", other),
    }
}

#[test]
fn a_failing_directory_becomes_an_error_event() {
    let mut handler: MessageHandler<u8> = MessageHandler::new(JwtValidator::new(SECRET.to_string()));
    let a = handler.add_client(0);
    let lookup = Pending::AuthLookup { client_id: a, user_id: ALICE.to_string() };
    match handler.resume(lookup, DirectoryReply::User(Err(DirectoryError::Store))) {
        Step::Done { deliveries } => assert_eq!(error_text(&deliveries[0]), "Database error"),
        other => panic!("unexpected {:?}", other),
    }
    assert!(!handler.registry().is_bound(a));
    let found = User {
        user_id: ALICE.to_string(),
        username: "alice".to_string(),
        email: String::new(),
        online: false,
        last_seen: None,
    };
    let lookup = Pending::AuthLookup { client_id: a, user_id: ALICE.to_string() };
    let presence = match handler.resume(lookup, DirectoryReply::User(Ok(Some(found)))) {
        Step::Ask { call: DirectoryCall::UpdateUserOnlineStatus { user_id, online }, pending } => {
            assert_eq!(user_id, ALICE);
            assert!(online);
            pending
        }
        other => panic!("unexpected {:?}", other),
    };
    match handler.resume(presence, DirectoryReply::Done(Err(DirectoryError::Store))) {
        Step::Done { deliveries } => {
            assert!(matches!(deliveries[0].message, OutgoingMessage::AuthSuccess { .. }))
        }
        other => panic!("unexpected {:?}", other),
    }
    let cases: Vec<(Pending, DirectoryReply, &str)> = vec![
        (
            Pending::RequestTarget {
                client_id: a,
                from_user_id: ALICE.to_string(),
                from_username: "alice".to_string(),
                to_username: "bob".to_string(),
            },
            DirectoryReply::User(Err(DirectoryError::Store)),
            "Database error",
        ),
        (
            Pending::RequestCreate {
                client_id: a,
                from_user_id: ALICE.to_string(),
                from_username: "alice".to_string(),
                to_username: "bob".to_string(),
                to_user_id: BOB.to_string(),
            },
            DirectoryReply::Done(Err(DirectoryError::Store)),
            "Database error",
        ),
        (
            Pending::RequestCreate {
                client_id: a,
                from_user_id: ALICE.to_string(),
                from_username: "alice".to_string(),
                to_username: "bob".to_string(),
                to_user_id: BOB.to_string(),
            },
            DirectoryReply::Done(Err(DirectoryError::SenderNotFound)),
            "Sender user not found",
        ),
        (
            Pending::AcceptResolve {
                client_id: a,
                from_user_id: BOB.to_string(),
                to_user_id: ALICE.to_string(),
                to_username: "alice".to_string(),
            },
            DirectoryReply::ChatId(Err(DirectoryError::Store)),
            "Failed to accept chat request",
        ),
        (
            Pending::Decline {
                client_id: a,
                from_user_id: BOB.to_string(),
                to_username: "alice".to_string(),
            },
            DirectoryReply::Done(Err(DirectoryError::Store)),
            "Failed to decline chat request",
        ),
        (
            Pending::MessageParticipants {
                client_id: a,
                chat_id: "c".to_string(),
                from_user_id: ALICE.to_string(),
                from_username: "alice".to_string(),
                message: "hi".to_string(),
            },
            DirectoryReply::Participants(Err(DirectoryError::Store)),
            "Chat not found",
        ),
        (
            Pending::MessageSave {
                client_id: a,
                chat_id: "c".to_string(),
                from_user_id: ALICE.to_string(),
                from_username: "alice".to_string(),
                message: "hi".to_string(),
                participants: vec![ALICE.to_string(), BOB.to_string()],
            },
            DirectoryReply::Timestamp(Err(DirectoryError::Store)),
            "Failed to send message",
        ),
        (
            Pending::ListRequests { client_id: a },
            DirectoryReply::Requests(Err(DirectoryError::Store)),
            "Failed to get chat requests",
        ),
        (
            Pending::ListChats { client_id: a },
            DirectoryReply::Chats(Err(DirectoryError::Store)),
            "Failed to get active chats",
        ),
        (
            Pending::ListMessages { client_id: a, chat_id: "c".to_string() },
            DirectoryReply::Messages(Err(DirectoryError::NotAuthorized)),
            "Failed to get chat messages",
        ),
        (
            Pending::ListChats { client_id: a },
            DirectoryReply::Done(Ok(())),
            "Failed to get active chats",
        ),
    ];
    for (pending, reply, expected) in cases {
        match handler.resume(pending, reply) {
            Step::Done { deliveries } => {
                assert_eq!(deliveries.len(), 1);
                assert_eq!(deliveries[0].client_id, a);
                assert_eq!(error_text(&deliveries[0]), expected);
            }
            other => panic!("unexpected {:?}", other),
        }
    }
    assert_eq!(handler.registry().user_id_of(a), Some(ALICE.to_string()));
}

#[test]
fn an_acceptance_without_the_requester_tells_nobody() {
    let mut handler: MessageHandler<u8> = MessageHandler::new(JwtValidator::new(SECRET.to_string()));
    let a = handler.add_client(0);
    let notify = Pending::AcceptNotify {
        client_id: a,
        chat_id: "c".to_string(),
        from_user_id: BOB.to_string(),
        to_user_id: ALICE.to_string(),
        to_username: "alice".to_string(),
    };
    match handler.resume(notify, DirectoryReply::User(Ok(None))) {
        Step::Done { deliveries } => assert!(deliveries.is_empty()),
        other => panic!("unexpected {:?}", other),
    }
    let notify = Pending::AcceptNotify {
        client_id: a,
        chat_id: "c".to_string(),
        from_user_id: BOB.to_string(),
        to_user_id: ALICE.to_string(),
        to_username: "alice".to_string(),
    };
    match handler.resume(notify, DirectoryReply::User(Err(DirectoryError::Store))) {
        Step::Done { deliveries } => {
            assert_eq!(deliveries.len(), 1);
            assert_eq!(deliveries[0].client_id, a);
            assert_eq!(error_text(&deliveries[0]), "Database error");
        }
        other => panic!("unexpected {:?}", other),
    }
}

#[test]
fn send_to_client_hands_out_the_handle() {
    let mut handler: MessageHandler<&str> = MessageHandler::new(JwtValidator::new(SECRET.to_string()));
    let a = handler.add_client("first");
    let b = handler.add_client("second");
    let (handle, event) = handler
        .send_to_client(b, OutgoingMessage::ChatDeclined { by_user: "x".to_string() })
        .unwrap();
    assert_eq!(*handle, "second");
    assert!(matches!(event, OutgoingMessage::ChatDeclined { .. }));
    assert!(handler.remove_client(a).is_none());
    assert!(handler
        .send_to_client(a, OutgoingMessage::ChatDeclined { by_user: "x".to_string() })
        .is_none());
    assert!(handler.has_capacity());
}

#[test]
fn routing_errors_in_words() {
    assert_eq!(RoutingError::Unauthenticated.message(), "Client not authenticated");
    assert_eq!(RoutingError::AlreadyAuthenticated.message(), "Already authenticated");
    assert_eq!(RoutingError::UnknownConnection.message(), "Unknown connection");
    assert_eq!(RoutingError::InvalidCredential.message(), "Invalid token");
    assert_eq!(RoutingError::UserNotFound.message(), "User not found");
    assert_eq!(RoutingError::Store.message(), "Database error");
    assert_eq!(RoutingError::SelfTarget.message(), "Cannot send request to yourself");
    assert_eq!(RoutingError::AcceptFailed.message(), "Failed to accept chat request");
    assert_eq!(RoutingError::DeclineFailed.message(), "Failed to decline chat request");
    assert_eq!(RoutingError::EmptyMessage.message(), "Message cannot be empty");
    assert_eq!(
        RoutingError::NotAParticipant.message(),
        "Not authorized to send messages to this chat"
    );
    assert_eq!(RoutingError::ChatNotFound.message(), "Chat not found");
    assert_eq!(RoutingError::SendFailed.message(), "Failed to send message");
    assert_eq!(RoutingError::ListRequestsFailed.message(), "Failed to get chat requests");
    assert_eq!(RoutingError::ListChatsFailed.message(), "Failed to get active chats");
    assert_eq!(RoutingError::ListMessagesFailed.message(), "Failed to get chat messages");
    assert_eq!(
        RoutingError::Directory(DirectoryError::DuplicateRequest).message(),
        "Chat request already exists"
    );
}

#[test]
fn a_text_without_three_parts_is_rejected_without_asking_the_directory() {
    let (mut handler, _directory) = world();
    let a = handler.add_client("a");
    for text in ["not-a-jwt", "", "one.dot"] {
        match handler.handle_message(a, IncomingMessage::Auth { token: text.to_string() }) {
            Step::Done { deliveries } => {
                assert_eq!(deliveries.len(), 1);
                assert_eq!(deliveries[0].client_id, a);
                assert_eq!(error_text(&deliveries[0]), "Invalid token");
            }
            Step::Ask { .. } => panic!("the directory must not be asked"),
        }
    }
    assert!(!handler.registry().is_bound(a));
}
