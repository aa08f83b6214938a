use notebud_websocket::calls::{DirectoryCall, DirectoryReply};
use notebud_websocket::directory::{has_participant, Directory};
use notebud_websocket::records::{ChatRecord, DirectoryError, RequestStatus, UserRecord};

const ALICE: &str = "507f1f77bcf86cd799439011";
const BOB: &str = "507f1f77bcf86cd799439012";
const CAROL: &str = "507f1f77bcf86cd799439013";

fn record(id: &str, name: &str) -> UserRecord {
    UserRecord {
        user_id: id.to_string(),
        username: name.to_string(),
        email: format!("{}@example.org", name),
        online: false,
        last_seen: None,
    }
}

fn directory_of_three() -> Directory {
    let mut directory = Directory::new();
    directory.insert_user(record(ALICE, "alice"));
    directory.insert_user(record(BOB, "bob"));
    directory.insert_user(record(CAROL, "carol"));
    directory
}

fn pending_count(directory: &Directory) -> usize {
    directory.requests().iter().filter(|r| r.status == RequestStatus::Pending).count()
}

#[test]
fn a_new_directory_is_empty() {
    let directory = Directory::new();
    assert!(directory.users().is_empty());
    assert!(directory.requests().is_empty());
    assert!(directory.chats().is_empty());
    assert!(directory.messages().is_empty());
}

#[test]
fn find_user_by_id_reports_under_the_given_identifier() {
    let directory = directory_of_three();
    let found = directory.find_user_by_id(ALICE).unwrap().unwrap();
    assert_eq!(found.user_id, ALICE);
    assert_eq!(found.username, "alice");
    let upper = ALICE.to_uppercase();
    let found = directory.find_user_by_id(&upper).unwrap().unwrap();
    assert_eq!(found.user_id, upper);
    assert_eq!(found.username, "alice");
}

#[test]
fn find_user_by_id_of_a_stranger() {
    let directory = directory_of_three();
    assert!(directory.find_user_by_id("507f1f77bcf86cd799439099").unwrap().is_none());
}

#[test]
fn find_user_by_id_rejects_a_malformed_identifier() {
    let directory = directory_of_three();
    assert_eq!(directory.find_user_by_id("alice").err(), Some(DirectoryError::InvalidUserId));
}

#[test]
fn find_user_by_username_reports_the_stored_identifier() {
    let directory = directory_of_three();
    let found = directory.find_user_by_username("bob").unwrap().unwrap();
    assert_eq!(found.user_id, BOB);
    assert_eq!(found.email, "bob@example.org");
    assert!(directory.find_user_by_username("nobody").unwrap().is_none());
}

#[test]
fn presence_is_recorded_with_the_time() {
    let mut directory = directory_of_three();
    assert_eq!(directory.update_user_online_status(ALICE, true, 1_000), Ok(()));
    let alice = directory.find_user_by_id(ALICE).unwrap().unwrap();
    assert!(alice.online);
    assert_eq!(alice.last_seen, Some("1970-01-01T00:00:01Z".to_string()));
    let bob = directory.find_user_by_id(BOB).unwrap().unwrap();
    assert!(!bob.online);
    assert_eq!(bob.last_seen, None);
    assert_eq!(directory.update_user_online_status(ALICE, false, 2_000), Ok(()));
    assert!(!directory.find_user_by_id(ALICE).unwrap().unwrap().online);
}

#[test]
fn presence_of_a_malformed_identifier_is_refused() {
    let mut directory = directory_of_three();
    assert_eq!(
        directory.update_user_online_status("nope", true, 1),
        Err(DirectoryError::InvalidUserId)
    );
    assert_eq!(directory.update_user_online_status("507f1f77bcf86cd799439099", true, 1), Ok(()));
    assert!(directory.users().iter().all(|u| !u.online));
}

#[test]
fn a_request_is_stored_as_pending() {
    let mut directory = directory_of_three();
    assert_eq!(directory.create_chat_request(ALICE, BOB, 5), Ok(()));
    assert_eq!(directory.requests().len(), 1);
    let stored = &directory.requests()[0];
    assert_eq!(stored.from_user_id, ALICE);
    assert_eq!(stored.to_user_id, BOB);
    assert_eq!(stored.from_username, "alice");
    assert_eq!(stored.status, RequestStatus::Pending);
    assert_eq!(stored.created_at, 5);
    assert!(directory.pending_between(ALICE, BOB));
    assert!(directory.pending_between(BOB, ALICE));
    assert!(!directory.pending_between(ALICE, CAROL));
}

#[test]
fn a_second_request_is_a_duplicate() {
    let mut directory = directory_of_three();
    assert_eq!(directory.create_chat_request(ALICE, BOB, 5), Ok(()));
    assert_eq!(
        directory.create_chat_request(ALICE, BOB, 6),
        Err(DirectoryError::DuplicateRequest)
    );
    assert_eq!(
        directory.create_chat_request(ALICE, BOB, 7),
        Err(DirectoryError::DuplicateRequest)
    );
    assert_eq!(directory.requests().len(), 1);
    assert_eq!(pending_count(&directory), 1);
}

#[test]
fn a_request_in_the_opposite_direction_is_a_duplicate() {
    let mut directory = directory_of_three();
    assert_eq!(directory.create_chat_request(ALICE, BOB, 5), Ok(()));
    assert_eq!(
        directory.create_chat_request(BOB, ALICE, 6),
        Err(DirectoryError::DuplicateRequest)
    );
    assert_eq!(directory.create_chat_request(ALICE, CAROL, 7), Ok(()));
    assert_eq!(pending_count(&directory), 2);
}

#[test]
fn a_request_between_chat_partners_is_refused() {
    let mut directory = directory_of_three();
    directory.create_chat_request(ALICE, BOB, 5).unwrap();
    directory.accept_chat_request(ALICE, BOB, 6).unwrap();
    assert_eq!(
        directory.create_chat_request(ALICE, BOB, 7),
        Err(DirectoryError::ChatAlreadyExists)
    );
    assert_eq!(
        directory.create_chat_request(BOB, ALICE, 8),
        Err(DirectoryError::ChatAlreadyExists)
    );
    assert_eq!(directory.requests().len(), 1);
}

#[test]
fn a_request_of_an_unknown_sender_is_refused() {
    let mut directory = directory_of_three();
    assert_eq!(
        directory.create_chat_request("507f1f77bcf86cd799439099", BOB, 5),
        Err(DirectoryError::SenderNotFound)
    );
    assert_eq!(
        directory.create_chat_request("someone", BOB, 5),
        Err(DirectoryError::InvalidUserId)
    );
    assert!(directory.requests().is_empty());
}

#[test]
fn pending_requests_are_listed_to_their_recipient() {
    let mut directory = directory_of_three();
    directory.create_chat_request(ALICE, BOB, 1_000).unwrap();
    directory.create_chat_request(CAROL, BOB, 2_000).unwrap();
    directory.create_chat_request(ALICE, CAROL, 3_000).unwrap();
    let listed = directory.get_chat_requests_for_user(BOB).unwrap();
    assert_eq!(listed.len(), 2);
    assert_eq!(listed[0].from_user_id, ALICE);
    assert_eq!(listed[0].from_username, "alice");
    assert_eq!(listed[0].to_user_id, BOB);
    assert_eq!(listed[0].created_at, "1970-01-01T00:00:01Z");
    assert_eq!(listed[1].from_username, "carol");
    assert!(directory.get_chat_requests_for_user(ALICE).unwrap().is_empty());
    directory.decline_chat_request(ALICE, BOB).unwrap();
    assert_eq!(directory.get_chat_requests_for_user(BOB).unwrap().len(), 1);
}

#[test]
fn accepting_creates_one_chat_of_the_two() {
    let mut directory = directory_of_three();
    directory.create_chat_request(ALICE, BOB, 5).unwrap();
    let chat_id = directory.accept_chat_request(ALICE, BOB, 9).unwrap();
    assert_eq!(directory.chats().len(), 1);
    let chat = &directory.chats()[0];
    assert_eq!(chat.chat_id, chat_id);
    assert_eq!(chat.participants, vec![ALICE.to_string(), BOB.to_string()]);
    assert_eq!(chat.created_at, 9);
    assert_eq!(chat.last_message_at, Some(9));
    assert_eq!(directory.requests()[0].status, RequestStatus::Accepted);
    assert!(directory.chat_between(ALICE, BOB));
    assert!(directory.chat_between(BOB, ALICE));
    assert!(!directory.chat_between(ALICE, CAROL));
}

#[test]
fn an_accepted_request_cannot_be_resolved_again() {
    let mut directory = directory_of_three();
    directory.create_chat_request(ALICE, BOB, 5).unwrap();
    directory.accept_chat_request(ALICE, BOB, 9).unwrap();
    assert_eq!(
        directory.accept_chat_request(ALICE, BOB, 10).err(),
        Some(DirectoryError::RequestNotFound)
    );
    assert_eq!(directory.decline_chat_request(ALICE, BOB), Err(DirectoryError::RequestNotFound));
    assert_eq!(directory.chats().len(), 1);
    assert_eq!(directory.requests()[0].status, RequestStatus::Accepted);
}

#[test]
fn accepting_needs_a_request_in_that_direction() {
    let mut directory = directory_of_three();
    directory.create_chat_request(ALICE, BOB, 5).unwrap();
    assert_eq!(
        directory.accept_chat_request(BOB, ALICE, 9).err(),
        Some(DirectoryError::RequestNotFound)
    );
    assert!(directory.chats().is_empty());
    assert_eq!(directory.requests()[0].status, RequestStatus::Pending);
}

#[test]
fn declining_closes_the_request_without_a_chat() {
    let mut directory = directory_of_three();
    directory.create_chat_request(ALICE, BOB, 5).unwrap();
    assert_eq!(directory.decline_chat_request(ALICE, BOB), Ok(()));
    assert_eq!(directory.requests()[0].status, RequestStatus::Declined);
    assert!(directory.chats().is_empty());
    assert_eq!(directory.decline_chat_request(ALICE, BOB), Err(DirectoryError::RequestNotFound));
    assert_eq!(directory.create_chat_request(ALICE, BOB, 6), Ok(()));
    assert_eq!(directory.requests().len(), 2);
    assert_eq!(directory.requests()[0].status, RequestStatus::Declined);
}

#[test]
fn participants_of_a_chat() {
    let mut directory = directory_of_three();
    directory.create_chat_request(ALICE, BOB, 5).unwrap();
    let chat_id = directory.accept_chat_request(ALICE, BOB, 9).unwrap();
    assert_eq!(
        directory.get_chat_participants(&chat_id),
        Ok(vec![ALICE.to_string(), BOB.to_string()])
    );
    assert_eq!(directory.get_chat_participants("no-chat"), Err(DirectoryError::ChatNotFound));
}

#[test]
fn has_participant_tells_members_from_strangers() {
    let chat = ChatRecord {
        chat_id: "c".to_string(),
        participants: vec![ALICE.to_string(), BOB.to_string()],
        created_at: 0,
        last_message_at: None,
    };
    assert!(has_participant(&chat, &ALICE.to_string()));
    assert!(has_participant(&chat, &BOB.to_string()));
    assert!(!has_participant(&chat, &CAROL.to_string()));
}

#[test]
fn a_saved_message_touches_its_chat() {
    let mut directory = directory_of_three();
    directory.create_chat_request(ALICE, BOB, 5).unwrap();
    let chat_id = directory.accept_chat_request(ALICE, BOB, 9).unwrap();
    assert_eq!(directory.save_message(&chat_id, ALICE, "hi", 12_345), Ok(12));
    assert_eq!(directory.messages().len(), 1);
    assert_eq!(directory.messages()[0].message, "hi");
    assert_eq!(directory.messages()[0].timestamp, 12_345);
    assert_eq!(directory.chats()[0].last_message_at, Some(12_345));
    assert_eq!(directory.chats()[0].participants, vec![ALICE.to_string(), BOB.to_string()]);
}

#[test]
fn messages_are_listed_in_the_order_of_their_timestamps() {
    let mut directory = directory_of_three();
    directory.create_chat_request(ALICE, BOB, 5).unwrap();
    let chat_id = directory.accept_chat_request(ALICE, BOB, 9).unwrap();
    directory.save_message(&chat_id, ALICE, "third", 3_000).unwrap();
    directory.save_message(&chat_id, BOB, "first", 1_000).unwrap();
    directory.save_message(&chat_id, ALICE, "second", 2_000).unwrap();
    directory.save_message(&chat_id, BOB, "second again", 2_000).unwrap();
    let listed = directory.get_chat_messages(&chat_id, BOB).unwrap();
    let bodies: Vec<&str> = listed.iter().map(|m| m.message.as_str()).collect();
    assert_eq!(bodies, vec!["first", "second", "second again", "third"]);
    assert_eq!(listed[0].from_username, "bob");
    assert_eq!(listed[0].from_user_id, BOB);
    assert_eq!(listed[0].timestamp, "1970-01-01T00:00:01Z");
    assert_eq!(listed[3].from_username, "alice");
}

#[test]
fn messages_of_other_chats_do_not_show() {
    let mut directory = directory_of_three();
    directory.create_chat_request(ALICE, BOB, 1).unwrap();
    let with_bob = directory.accept_chat_request(ALICE, BOB, 2).unwrap();
    directory.create_chat_request(ALICE, CAROL, 3).unwrap();
    let with_carol = directory.accept_chat_request(ALICE, CAROL, 4).unwrap();
    directory.save_message(&with_bob, ALICE, "to bob", 10).unwrap();
    let before: Vec<String> = directory
        .get_chat_messages(&with_bob, BOB)
        .unwrap()
        .into_iter()
        .map(|m| m.message)
        .collect();
    directory.save_message(&with_carol, ALICE, "to carol", 5).unwrap();
    directory.save_message(&with_carol, CAROL, "from carol", 20).unwrap();
    let after: Vec<String> = directory
        .get_chat_messages(&with_bob, BOB)
        .unwrap()
        .into_iter()
        .map(|m| m.message)
        .collect();
    assert_eq!(before, vec!["to bob".to_string()]);
    assert_eq!(after, before);
    assert_eq!(directory.get_chat_messages(&with_carol, CAROL).unwrap().len(), 2);
}

#[test]
fn messages_are_shown_to_participants_only() {
    let mut directory = directory_of_three();
    directory.create_chat_request(ALICE, BOB, 1).unwrap();
    let chat_id = directory.accept_chat_request(ALICE, BOB, 2).unwrap();
    directory.save_message(&chat_id, ALICE, "hi", 10).unwrap();
    assert_eq!(
        directory.get_chat_messages(&chat_id, CAROL).err(),
        Some(DirectoryError::NotAuthorized)
    );
    assert_eq!(
        directory.get_chat_messages("no-chat", ALICE).err(),
        Some(DirectoryError::NotAuthorized)
    );
}

#[test]
fn a_message_of_an_unknown_sender_is_left_out() {
    let mut directory = directory_of_three();
    directory.create_chat_request(ALICE, BOB, 1).unwrap();
    let chat_id = directory.accept_chat_request(ALICE, BOB, 2).unwrap();
    directory.save_message(&chat_id, "507f1f77bcf86cd799439099", "ghost", 10).unwrap();
    directory.save_message(&chat_id, ALICE, "real", 11).unwrap();
    let listed = directory.get_chat_messages(&chat_id, ALICE).unwrap();
    assert_eq!(listed.len(), 1);
    assert_eq!(listed[0].message, "real");
}

#[test]
fn a_message_with_a_malformed_sender_fails_the_listing() {
    let mut directory = directory_of_three();
    directory.create_chat_request(ALICE, BOB, 1).unwrap();
    let chat_id = directory.accept_chat_request(ALICE, BOB, 2).unwrap();
    directory.save_message(&chat_id, "not-an-id", "odd", 10).unwrap();
    assert_eq!(
        directory.get_chat_messages(&chat_id, ALICE).err(),
        Some(DirectoryError::InvalidUserId)
    );
}

#[test]
fn chats_are_listed_most_recent_first() {
    let mut directory = directory_of_three();
    directory.create_chat_request(ALICE, BOB, 1).unwrap();
    let with_bob = directory.accept_chat_request(ALICE, BOB, 1_000).unwrap();
    directory.create_chat_request(ALICE, CAROL, 3).unwrap();
    let with_carol = directory.accept_chat_request(ALICE, CAROL, 2_000).unwrap();
    directory.update_user_online_status(CAROL, true, 2_500).unwrap();
    let listed = directory.get_active_chats_for_user(ALICE).unwrap();
    assert_eq!(listed.len(), 2);
    assert_eq!(listed[0].chat_id, with_carol);
    assert_eq!(listed[0].with_user, "carol");
    assert_eq!(listed[0].with_user_id, CAROL);
    assert!(listed[0].online);
    assert_eq!(listed[0].last_message_at, "1970-01-01T00:00:02Z");
    assert_eq!(listed[1].chat_id, with_bob);
    assert!(!listed[1].online);
    directory.save_message(&with_bob, BOB, "hello", 3_000).unwrap();
    let listed = directory.get_active_chats_for_user(ALICE).unwrap();
    assert_eq!(listed[0].chat_id, with_bob);
    assert_eq!(listed[0].last_message_at, "1970-01-01T00:00:03Z");
    assert_eq!(listed[1].chat_id, with_carol);
    let for_bob = directory.get_active_chats_for_user(BOB).unwrap();
    assert_eq!(for_bob.len(), 1);
    assert_eq!(for_bob[0].with_user, "alice");
    assert!(directory.get_active_chats_for_user("507f1f77bcf86cd799439099").unwrap().is_empty());
}

#[test]
fn perform_answers_each_call_in_its_kind() {
    let mut directory = directory_of_three();
    let reply = directory.perform(
        DirectoryCall::FindUserByUsername { username: "alice".to_string() },
        1,
    );
    assert!(matches!(reply, DirectoryReply::User(Ok(Some(ref u))) if u.user_id == ALICE));
    let reply = directory.perform(
        DirectoryCall::CreateChatRequest {
            from_user_id: ALICE.to_string(),
            to_user_id: BOB.to_string(),
        },
        2,
    );
    assert!(matches!(reply, DirectoryReply::Done(Ok(()))));
    let reply = directory.perform(
        DirectoryCall::CreateChatRequest {
            from_user_id: ALICE.to_string(),
            to_user_id: BOB.to_string(),
        },
        3,
    );
    assert!(matches!(reply, DirectoryReply::Done(Err(DirectoryError::DuplicateRequest))));
    let reply = directory.perform(
        DirectoryCall::GetChatRequestsForUser { user_id: BOB.to_string() },
        4,
    );
    assert!(matches!(reply, DirectoryReply::Requests(Ok(ref list)) if list.len() == 1));
    let reply = directory.perform(
        DirectoryCall::AcceptChatRequest {
            from_user_id: ALICE.to_string(),
            to_user_id: BOB.to_string(),
        },
        5,
    );
    let chat_id = match reply {
        DirectoryReply::ChatId(Ok(id)) => id,
        other => panic!("unexpected reply {:?}", other),
    };
    let reply = directory.perform(
        DirectoryCall::GetChatParticipants { chat_id: chat_id.clone() },
        6,
    );
    assert!(matches!(reply, DirectoryReply::Participants(Ok(ref list)) if list.len() == 2));
    let reply = directory.perform(
        DirectoryCall::SaveMessage {
            chat_id: chat_id.clone(),
            from_user_id: ALICE.to_string(),
            message: "hi".to_string(),
        },
        7_500,
    );
    assert!(matches!(reply, DirectoryReply::Timestamp(Ok(7))));
    let reply = directory.perform(
        DirectoryCall::GetChatMessages { chat_id: chat_id.clone(), user_id: BOB.to_string() },
        8,
    );
    assert!(matches!(reply, DirectoryReply::Messages(Ok(ref list)) if list.len() == 1));
    let reply = directory.perform(
        DirectoryCall::GetActiveChatsForUser { user_id: BOB.to_string() },
        9,
    );
    assert!(matches!(reply, DirectoryReply::Chats(Ok(ref list)) if list.len() == 1));
    let reply = directory.perform(
        DirectoryCall::UpdateUserOnlineStatus { user_id: BOB.to_string(), online: true },
        10,
    );
    assert!(matches!(reply, DirectoryReply::Done(Ok(()))));
    let reply = directory.perform(DirectoryCall::FindUserById { user_id: BOB.to_string() }, 11);
    assert!(matches!(reply, DirectoryReply::User(Ok(Some(ref u))) if u.online));
    let reply = directory.perform(
        DirectoryCall::DeclineChatRequest {
            from_user_id: ALICE.to_string(),
            to_user_id: BOB.to_string(),
        },
        12,
    );
    assert!(matches!(reply, DirectoryReply::Done(Err(DirectoryError::RequestNotFound))));
}
