use notebud_websocket::database::{
    active_chat, activity_of, assemble_active_chats, assemble_messages, chat_message,
    chat_request_from_record, copy_strings, ensure_may_view, ensure_request_allowed, new_chat,
    new_message, new_request, other_participant, parse_user_id, participants_of,
    resolution_result, seconds_of, user_from_record, ChatWithPeer, MessageWithSender,
};
use notebud_websocket::records::{
    ChatRecord, DirectoryError, MessageRecord, RequestRecord, RequestStatus, UserRecord,
};
use notebud_websocket::types::User;

fn user(id: &str, name: &str, online: bool) -> User {
    User {
        user_id: id.to_string(),
        username: name.to_string(),
        email: format!("{}@example.org", name),
        online,
        last_seen: None,
    }
}

fn chat(id: &str, a: &str, b: &str, created_at: i64, last_message_at: Option<i64>) -> ChatRecord {
    ChatRecord {
        chat_id: id.to_string(),
        participants: vec![a.to_string(), b.to_string()],
        created_at,
        last_message_at,
    }
}

#[test]
fn parse_user_id_accepts_24_hex_digits() {
    assert_eq!(
        parse_user_id("507f1f77bcf86cd799439011"),
        Ok("507f1f77bcf86cd799439011".to_string())
    );
}

#[test]
fn parse_user_id_lowers_upper_case_digits() {
    assert_eq!(
        parse_user_id("507F1F77BCF86CD799439011"),
        Ok("507f1f77bcf86cd799439011".to_string())
    );
}

#[test]
fn parse_user_id_rejects_other_texts() {
    assert_eq!(parse_user_id(""), Err(DirectoryError::InvalidUserId));
    assert_eq!(parse_user_id("Unknown"), Err(DirectoryError::InvalidUserId));
    assert_eq!(parse_user_id("507f1f77bcf86cd79943901"), Err(DirectoryError::InvalidUserId));
    assert_eq!(parse_user_id("507f1f77bcf86cd7994390111"), Err(DirectoryError::InvalidUserId));
    assert_eq!(parse_user_id("507f1f77bcf86cd79943901g"), Err(DirectoryError::InvalidUserId));
    assert_eq!(parse_user_id("507f1f77bcf86cd79943901é"), Err(DirectoryError::InvalidUserId));
}

#[test]
fn user_from_record_formats_last_seen() {
    let record = UserRecord {
        user_id: "507f1f77bcf86cd799439011".to_string(),
        username: "alice".to_string(),
        email: "alice@example.org".to_string(),
        online: true,
        last_seen: Some(0),
    };
    let shown = user_from_record(&record, "507F1F77BCF86CD799439011".to_string());
    assert_eq!(shown.user_id, "507F1F77BCF86CD799439011");
    assert_eq!(shown.username, "alice");
    assert_eq!(shown.email, "alice@example.org");
    assert!(shown.online);
    assert_eq!(shown.last_seen, Some("1970-01-01T00:00:00Z".to_string()));
}

#[test]
fn user_from_record_without_last_seen() {
    let record = UserRecord {
        user_id: "507f1f77bcf86cd799439011".to_string(),
        username: "alice".to_string(),
        email: String::new(),
        online: false,
        last_seen: None,
    };
    let shown = user_from_record(&record, "507f1f77bcf86cd799439011".to_string());
    assert_eq!(shown.last_seen, None);
    assert!(!shown.online);
}

#[test]
fn timestamps_are_written_in_rfc3339() {
    let record = RequestRecord {
        from_user_id: "a".to_string(),
        to_user_id: "b".to_string(),
        from_username: "alice".to_string(),
        status: RequestStatus::Pending,
        created_at: 1_700_000_000_123,
    };
    let listed = chat_request_from_record(&record);
    assert_eq!(listed.from_user_id, "a");
    assert_eq!(listed.from_username, "alice");
    assert_eq!(listed.to_user_id, "b");
    assert_eq!(listed.created_at, "2023-11-14T22:13:20.123Z");
}

#[test]
fn request_admission_rules() {
    assert_eq!(ensure_request_allowed(false, false), Ok(()));
    assert_eq!(ensure_request_allowed(true, false), Err(DirectoryError::DuplicateRequest));
    assert_eq!(ensure_request_allowed(false, true), Err(DirectoryError::ChatAlreadyExists));
    assert_eq!(ensure_request_allowed(true, true), Err(DirectoryError::DuplicateRequest));
}

#[test]
fn new_request_needs_a_known_sender() {
    let drafted = new_request("a", "b", Some(user("a", "alice", true)), 42).unwrap();
    assert_eq!(drafted.from_user_id, "a");
    assert_eq!(drafted.to_user_id, "b");
    assert_eq!(drafted.from_username, "alice");
    assert_eq!(drafted.status, RequestStatus::Pending);
    assert_eq!(drafted.created_at, 42);
    assert_eq!(new_request("a", "b", None, 42).err(), Some(DirectoryError::SenderNotFound));
}

#[test]
fn resolution_needs_a_match() {
    assert_eq!(resolution_result(0), Err(DirectoryError::RequestNotFound));
    assert_eq!(resolution_result(1), Ok(()));
    assert_eq!(resolution_result(5), Ok(()));
}

#[test]
fn new_chat_has_two_participants_and_a_hyphenated_identifier() {
    let created = new_chat("a", "b", 99);
    assert_eq!(created.participants, vec!["a".to_string(), "b".to_string()]);
    assert_eq!(created.created_at, 99);
    assert_eq!(created.last_message_at, Some(99));
    let id: Vec<char> = created.chat_id.chars().collect();
    assert_eq!(id.len(), 36);
    for (i, c) in id.iter().enumerate() {
        if i == 8 || i == 13 || i == 18 || i == 23 {
            assert_eq!(*c, '-');
        } else {
            assert!(c.is_ascii_digit() || ('a'..='f').contains(c));
        }
    }
    assert_ne!(new_chat("a", "b", 99).chat_id, created.chat_id);
}

#[test]
fn other_participant_is_the_first_that_differs() {
    let both = vec!["a".to_string(), "b".to_string()];
    assert_eq!(other_participant(&both, "a"), "b");
    assert_eq!(other_participant(&both, "b"), "a");
    assert_eq!(other_participant(&both, "c"), "a");
}

#[test]
fn other_participant_of_a_chat_with_oneself_is_unknown() {
    let same = vec!["a".to_string(), "a".to_string()];
    assert_eq!(other_participant(&same, "a"), "Unknown");
    assert_eq!(other_participant(&Vec::new(), "a"), "Unknown");
}

#[test]
fn activity_is_last_message_or_creation() {
    assert_eq!(activity_of(&chat("c", "a", "b", 10, None)), 10);
    assert_eq!(activity_of(&chat("c", "a", "b", 10, Some(20))), 20);
}

#[test]
fn active_chat_names_the_peer() {
    let listed = active_chat(&chat("c1", "a", "b", 0, Some(1000)), &user("b", "bob", true));
    assert_eq!(listed.chat_id, "c1");
    assert_eq!(listed.with_user, "bob");
    assert_eq!(listed.with_user_id, "b");
    assert!(listed.online);
    assert_eq!(listed.last_message_at, "1970-01-01T00:00:01Z");
}

#[test]
fn active_chats_come_most_recent_first() {
    let entries = vec![
        ChatWithPeer { chat: chat("old", "a", "b", 0, Some(1_000)), peer: Some(user("b", "bob", false)) },
        ChatWithPeer { chat: chat("new", "a", "c", 0, Some(3_000)), peer: Some(user("c", "carol", true)) },
        ChatWithPeer { chat: chat("mid", "a", "d", 2_000, None), peer: Some(user("d", "dave", false)) },
    ];
    let listed = assemble_active_chats(&entries);
    let order: Vec<&str> = listed.iter().map(|c| c.chat_id.as_str()).collect();
    assert_eq!(order, vec!["new", "mid", "old"]);
    assert_eq!(listed[1].last_message_at, "1970-01-01T00:00:02Z");
}

#[test]
fn active_chats_of_equal_activity_keep_their_order() {
    let entries = vec![
        ChatWithPeer { chat: chat("first", "a", "b", 0, Some(5_000)), peer: Some(user("b", "bob", false)) },
        ChatWithPeer { chat: chat("second", "a", "c", 5_000, None), peer: Some(user("c", "carol", false)) },
        ChatWithPeer { chat: chat("third", "a", "d", 0, Some(5_000)), peer: Some(user("d", "dave", false)) },
    ];
    let listed = assemble_active_chats(&entries);
    let order: Vec<&str> = listed.iter().map(|c| c.chat_id.as_str()).collect();
    assert_eq!(order, vec!["first", "second", "third"]);
}

#[test]
fn active_chats_are_ordered_by_time_below_the_second() {
    let entries = vec![
        ChatWithPeer { chat: chat("whole", "a", "b", 0, Some(1_000)), peer: Some(user("b", "bob", false)) },
        ChatWithPeer { chat: chat("later", "a", "c", 0, Some(1_500)), peer: Some(user("c", "carol", false)) },
    ];
    let listed = assemble_active_chats(&entries);
    let order: Vec<&str> = listed.iter().map(|c| c.chat_id.as_str()).collect();
    assert_eq!(order, vec!["later", "whole"]);
}

#[test]
fn active_chats_leave_out_unknown_peers() {
    let entries = vec![
        ChatWithPeer { chat: chat("ghost", "a", "b", 0, Some(9_000)), peer: None },
        ChatWithPeer { chat: chat("known", "a", "c", 0, Some(1_000)), peer: Some(user("c", "carol", true)) },
    ];
    let listed = assemble_active_chats(&entries);
    assert_eq!(listed.len(), 1);
    assert_eq!(listed[0].chat_id, "known");
    assert!(assemble_active_chats(&Vec::new()).is_empty());
}

#[test]
fn chat_message_names_the_sender() {
    let record = MessageRecord {
        chat_id: "c".to_string(),
        from_user_id: "a".to_string(),
        message: "hi".to_string(),
        timestamp: 60_000,
    };
    let listed = chat_message(&record, &user("a", "alice", true));
    assert_eq!(listed.from_user_id, "a");
    assert_eq!(listed.from_username, "alice");
    assert_eq!(listed.message, "hi");
    assert_eq!(listed.timestamp, "1970-01-01T00:01:00Z");
}

#[test]
fn messages_are_listed_in_stored_order_without_unknown_senders() {
    let entries = vec![
        MessageWithSender { record: new_message("c", "a", "one", 1), sender: Some(user("a", "alice", true)) },
        MessageWithSender { record: new_message("c", "x", "two", 2), sender: None },
        MessageWithSender { record: new_message("c", "b", "three", 3), sender: Some(user("b", "bob", true)) },
    ];
    let listed = assemble_messages(&entries);
    let bodies: Vec<&str> = listed.iter().map(|m| m.message.as_str()).collect();
    assert_eq!(bodies, vec!["one", "three"]);
    assert_eq!(listed[1].from_username, "bob");
}

#[test]
fn new_message_holds_its_arguments() {
    let record = new_message("chat", "sender", "body", 7);
    assert_eq!(record.chat_id, "chat");
    assert_eq!(record.from_user_id, "sender");
    assert_eq!(record.message, "body");
    assert_eq!(record.timestamp, 7);
}

#[test]
fn seconds_round_toward_the_epoch() {
    assert_eq!(seconds_of(0), 0);
    assert_eq!(seconds_of(999), 0);
    assert_eq!(seconds_of(1_000), 1);
    assert_eq!(seconds_of(1_700_000_000_123), 1_700_000_000);
    assert_eq!(seconds_of(-1), 0);
    assert_eq!(seconds_of(-1_000), -1);
    assert_eq!(seconds_of(-1_999), -1);
}

#[test]
fn viewing_needs_a_chat_with_the_reader() {
    assert_eq!(ensure_may_view(true), Ok(()));
    assert_eq!(ensure_may_view(false), Err(DirectoryError::NotAuthorized));
}

#[test]
fn participants_of_a_found_chat() {
    let found = chat("c", "a", "b", 0, None);
    assert_eq!(participants_of(Some(&found)), Ok(vec!["a".to_string(), "b".to_string()]));
    assert_eq!(participants_of(None), Err(DirectoryError::ChatNotFound));
}

#[test]
fn copy_strings_copies() {
    let list = vec!["x".to_string(), "y".to_string()];
    assert_eq!(copy_strings(&list), list);
}

#[test]
fn directory_errors_in_words() {
    assert_eq!(DirectoryError::InvalidUserId.message(), "Invalid user ID format");
    assert_eq!(DirectoryError::DuplicateRequest.message(), "Chat request already exists");
    assert_eq!(DirectoryError::ChatAlreadyExists.message(), "Chat already exists");
    assert_eq!(DirectoryError::SenderNotFound.message(), "Sender user not found");
    assert_eq!(DirectoryError::RequestNotFound.message(), "Chat request not found");
    assert_eq!(DirectoryError::NotAuthorized.message(), "User not authorized to view this chat");
    assert_eq!(DirectoryError::ChatNotFound.message(), "Chat not found");
    assert_eq!(DirectoryError::Store.message(), "Database error");
}
