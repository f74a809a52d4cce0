use signal_tui::app::{App, DbOp, DisplayMessage};
use signal_tui::signal::types::{Contact, Group, MessageStatus, SignalEvent, SignalMessage};

fn test_app() -> App {
    let mut app = App::new("+10000000000".to_string());
    app.set_connected();
    app
}

fn now_ms() -> i64 {
    chrono::Utc::now().timestamp_millis()
}

fn incoming(source: &str, source_name: Option<&str>, body: &str) -> SignalMessage {
    SignalMessage {
        source: source.to_string(),
        source_name: source_name.map(|s| s.to_string()),
        timestamp: now_ms(),
        body: Some(body.to_string()),
        attachments: vec![],
        group_id: None,
        group_name: None,
        is_outgoing: false,
        destination: None,
    }
}

fn own_message(status: MessageStatus, timestamp_ms: i64) -> DisplayMessage {
    DisplayMessage {
        sender: "you".to_string(),
        timestamp: now_ms(),
        body: "hello".to_string(),
        is_system: false,
        image_path: None,
        status: Some(status),
        timestamp_ms,
        reactions: Vec::new(),
    }
}

fn push_message(app: &mut App, conv_id: &str, message: DisplayMessage) {
    let index = app.core.conversations.find(conv_id).unwrap();
    app.core.conversations.entries[index].1.messages.push(message);
}

fn name_of(app: &App, conv_id: &str) -> String {
    app.core.conversations.get(conv_id).unwrap().name.clone()
}

fn status_of(app: &App, conv_id: &str, index: usize) -> Option<MessageStatus> {
    app.core.conversations.get(conv_id).unwrap().messages[index].status
}

#[test]
fn contact_list_does_not_create_conversations() {
    let mut app = test_app();
    assert!(app.core.conversations.is_empty());

    app.handle_signal_event(SignalEvent::ContactList(vec![
        Contact { number: "+1".to_string(), name: Some("Alice".to_string()) },
        Contact { number: "+2".to_string(), name: Some("Bob".to_string()) },
    ]));

    assert!(app.core.conversations.is_empty());
    assert!(app.core.conversation_order.is_empty());
    assert_eq!(app.core.contact_names.get("+1").unwrap(), "Alice");
    assert_eq!(app.core.contact_names.get("+2").unwrap(), "Bob");
}

#[test]
fn group_list_creates_conversations() {
    let mut app = test_app();

    app.handle_signal_event(SignalEvent::GroupList(vec![
        Group { id: "g1".to_string(), name: "Family".to_string(), members: vec![] },
        Group { id: "g2".to_string(), name: "Work".to_string(), members: vec![] },
    ]));

    assert_eq!(app.core.conversations.len(), 2);
    assert_eq!(name_of(&app, "g1"), "Family");
    assert_eq!(name_of(&app, "g2"), "Work");
    assert!(app.core.conversations.get("g1").unwrap().is_group);
    assert_eq!(app.core.contact_names.get("g1").unwrap(), "Family");
}

#[test]
fn contact_name_updates_existing_conversation() {
    let mut app = test_app();

    app.handle_signal_event(SignalEvent::MessageReceived(incoming("+15551234567", None, "hey")));
    assert_eq!(name_of(&app, "+15551234567"), "+15551234567");

    app.handle_signal_event(SignalEvent::ContactList(vec![Contact {
        number: "+15551234567".to_string(),
        name: Some("Alice".to_string()),
    }]));

    assert_eq!(name_of(&app, "+15551234567"), "Alice");
}

#[test]
fn contact_without_name_does_not_overwrite_existing_name() {
    let mut app = test_app();

    app.handle_signal_event(SignalEvent::MessageReceived(incoming("+1", Some("Alice"), "hi")));
    assert_eq!(name_of(&app, "+1"), "Alice");

    app.handle_signal_event(SignalEvent::ContactList(vec![Contact {
        number: "+1".to_string(),
        name: None,
    }]));

    assert_eq!(name_of(&app, "+1"), "Alice");
}

#[test]
fn message_uses_contact_name_lookup() {
    let mut app = test_app();

    app.handle_signal_event(SignalEvent::ContactList(vec![Contact {
        number: "+1".to_string(),
        name: Some("Alice".to_string()),
    }]));
    assert!(app.core.conversations.is_empty());

    app.handle_signal_event(SignalEvent::MessageReceived(incoming("+1", None, "hello!")));

    assert_eq!(app.core.conversations.len(), 1);
    assert_eq!(name_of(&app, "+1"), "Alice");
    assert_eq!(app.core.conversations.get("+1").unwrap().messages[0].sender, "Alice");
}

#[test]
fn message_in_known_group_uses_name_lookup() {
    let mut app = test_app();

    app.handle_signal_event(SignalEvent::GroupList(vec![Group {
        id: "g1".to_string(),
        name: "Family".to_string(),
        members: vec![],
    }]));
    assert_eq!(app.core.conversations.len(), 1);

    let msg = SignalMessage {
        source: "+1".to_string(),
        source_name: Some("Alice".to_string()),
        timestamp: now_ms(),
        body: Some("hey family".to_string()),
        attachments: vec![],
        group_id: Some("g1".to_string()),
        group_name: None,
        is_outgoing: false,
        destination: None,
    };
    app.handle_signal_event(SignalEvent::MessageReceived(msg));

    assert_eq!(app.core.conversations.len(), 1);
    assert_eq!(name_of(&app, "g1"), "Family");
    assert_eq!(app.core.conversations.get("g1").unwrap().messages.len(), 1);
}

#[test]
fn no_duplicate_on_repeated_messages() {
    let mut app = test_app();

    app.handle_signal_event(SignalEvent::ContactList(vec![Contact {
        number: "+1".to_string(),
        name: Some("Alice".to_string()),
    }]));

    for _ in 0..3 {
        app.handle_signal_event(SignalEvent::MessageReceived(incoming("+1", Some("Alice"), "msg")));
    }

    assert_eq!(app.core.conversations.len(), 1);
    assert_eq!(app.core.conversation_order.len(), 1);
    assert_eq!(app.core.conversations.get("+1").unwrap().messages.len(), 3);
}

#[test]
fn receipt_upgrades_outgoing_message_status() {
    let mut app = test_app();

    let conv_id = "+1";
    app.core.get_or_create_conversation(conv_id, "Alice", false);
    let ts_ms = 1700000000000_i64;
    push_message(&mut app, conv_id, own_message(MessageStatus::Sent, ts_ms));

    app.handle_signal_event(SignalEvent::ReceiptReceived {
        sender: conv_id.to_string(),
        receipt_type: "DELIVERY".to_string(),
        timestamps: vec![ts_ms],
    });
    assert_eq!(status_of(&app, conv_id, 0), Some(MessageStatus::Delivered));

    app.handle_signal_event(SignalEvent::ReceiptReceived {
        sender: conv_id.to_string(),
        receipt_type: "READ".to_string(),
        timestamps: vec![ts_ms],
    });
    assert_eq!(status_of(&app, conv_id, 0), Some(MessageStatus::Read));
}

#[test]
fn receipt_does_not_downgrade_status() {
    let mut app = test_app();

    let conv_id = "+1";
    app.core.get_or_create_conversation(conv_id, "Alice", false);
    let ts_ms = 1700000000000_i64;
    push_message(&mut app, conv_id, own_message(MessageStatus::Read, ts_ms));

    app.handle_signal_event(SignalEvent::ReceiptReceived {
        sender: conv_id.to_string(),
        receipt_type: "DELIVERY".to_string(),
        timestamps: vec![ts_ms],
    });
    assert_eq!(status_of(&app, conv_id, 0), Some(MessageStatus::Read));
}

#[test]
fn send_timestamp_upgrades_sending_to_sent() {
    let mut app = test_app();

    let conv_id = "+1";
    app.core.get_or_create_conversation(conv_id, "Alice", false);
    let local_ts = 1700000000000_i64;
    let server_ts = 1700000000123_i64;
    push_message(&mut app, conv_id, own_message(MessageStatus::Sending, local_ts));

    app.core.pending_sends.insert("rpc-1".to_string(), (conv_id.to_string(), local_ts));

    app.handle_signal_event(SignalEvent::SendTimestamp { rpc_id: "rpc-1".to_string(), server_ts });

    let msg = &app.core.conversations.get(conv_id).unwrap().messages[0];
    assert_eq!(msg.status, Some(MessageStatus::Sent));
    assert_eq!(msg.timestamp_ms, server_ts);
}

#[test]
fn send_failed_sets_failed_status() {
    let mut app = test_app();

    let conv_id = "+1";
    app.core.get_or_create_conversation(conv_id, "Alice", false);
    let local_ts = 1700000000000_i64;
    push_message(&mut app, conv_id, own_message(MessageStatus::Sending, local_ts));

    app.core.pending_sends.insert("rpc-1".to_string(), (conv_id.to_string(), local_ts));

    app.handle_signal_event(SignalEvent::SendFailed { rpc_id: "rpc-1".to_string() });

    assert_eq!(status_of(&app, conv_id, 0), Some(MessageStatus::Failed));
}

#[test]
fn incoming_messages_have_no_status() {
    let mut app = test_app();

    app.handle_signal_event(SignalEvent::MessageReceived(incoming("+1", Some("Alice"), "hello")));

    assert_eq!(status_of(&app, "+1", 0), None);
}

#[test]
fn receipt_before_send_timestamp_is_buffered_and_replayed() {
    let mut app = test_app();

    let conv_id = "+1";
    app.core.get_or_create_conversation(conv_id, "Alice", false);
    let local_ts = 1700000000000_i64;
    let server_ts = 1700000000123_i64;
    push_message(&mut app, conv_id, own_message(MessageStatus::Sending, local_ts));

    app.core.pending_sends.insert("rpc-1".to_string(), (conv_id.to_string(), local_ts));

    app.handle_signal_event(SignalEvent::ReceiptReceived {
        sender: conv_id.to_string(),
        receipt_type: "DELIVERY".to_string(),
        timestamps: vec![server_ts],
    });

    assert_eq!(status_of(&app, conv_id, 0), Some(MessageStatus::Sending));
    assert_eq!(app.core.pending_receipts.len(), 1);

    app.handle_signal_event(SignalEvent::SendTimestamp { rpc_id: "rpc-1".to_string(), server_ts });

    assert_eq!(status_of(&app, conv_id, 0), Some(MessageStatus::Delivered));
    assert!(app.core.pending_receipts.is_empty());
}

fn reaction(emoji: &str, sender: &str, sender_name: Option<&str>, author: &str, ts: i64, is_remove: bool) -> SignalEvent {
    SignalEvent::ReactionReceived {
        conv_id: "+1".to_string(),
        emoji: emoji.to_string(),
        sender: sender.to_string(),
        sender_name: sender_name.map(|s| s.to_string()),
        target_author: author.to_string(),
        target_timestamp: ts,
        is_remove,
    }
}

#[test]
fn handle_reaction_adds_to_message() {
    let mut app = test_app();
    app.handle_signal_event(SignalEvent::MessageReceived(incoming("+1", Some("Alice"), "hello")));
    let ts_ms = app.core.conversations.get("+1").unwrap().messages[0].timestamp_ms;

    app.handle_signal_event(reaction("\u{1f44d}", "+2", Some("Bob"), "+1", ts_ms, false));

    let reactions = &app.core.conversations.get("+1").unwrap().messages[0].reactions;
    assert_eq!(reactions.len(), 1);
    assert_eq!(reactions[0].emoji, "\u{1f44d}");
    assert_eq!(reactions[0].sender, "Bob");
}

#[test]
fn handle_reaction_replaces_existing_from_same_sender() {
    let mut app = test_app();
    app.handle_signal_event(SignalEvent::MessageReceived(incoming("+1", Some("Alice"), "hello")));
    let ts_ms = app.core.conversations.get("+1").unwrap().messages[0].timestamp_ms;

    app.handle_signal_event(reaction("\u{1f44d}", "+2", Some("Bob"), "+1", ts_ms, false));
    app.handle_signal_event(reaction("\u{2764}\u{fe0f}", "+2", Some("Bob"), "+1", ts_ms, false));

    let reactions = &app.core.conversations.get("+1").unwrap().messages[0].reactions;
    assert_eq!(reactions.len(), 1);
    assert_eq!(reactions[0].emoji, "\u{2764}\u{fe0f}");
}

#[test]
fn handle_reaction_remove() {
    let mut app = test_app();
    app.handle_signal_event(SignalEvent::MessageReceived(incoming("+1", Some("Alice"), "hello")));
    let ts_ms = app.core.conversations.get("+1").unwrap().messages[0].timestamp_ms;

    app.handle_signal_event(reaction("\u{1f44d}", "+2", Some("Bob"), "+1", ts_ms, false));
    assert_eq!(app.core.conversations.get("+1").unwrap().messages[0].reactions.len(), 1);

    app.handle_signal_event(reaction("\u{1f44d}", "+2", Some("Bob"), "+1", ts_ms, true));
    assert_eq!(app.core.conversations.get("+1").unwrap().messages[0].reactions.len(), 0);
}

#[test]
fn handle_reaction_on_own_message() {
    let mut app = test_app();
    let conv_id = "+1";
    app.core.get_or_create_conversation(conv_id, "Alice", false);
    let ts_ms = 1700000000000_i64;
    push_message(&mut app, conv_id, own_message(MessageStatus::Sent, ts_ms));

    app.handle_signal_event(reaction("\u{1f44d}", "+1", Some("Alice"), "+10000000000", ts_ms, false));

    let reactions = &app.core.conversations.get(conv_id).unwrap().messages[0].reactions;
    assert_eq!(reactions.len(), 1);
    assert_eq!(reactions[0].sender, "Alice");
}

#[test]
fn handle_reaction_unknown_message_persists_to_db() {
    let mut app = test_app();
    app.core.get_or_create_conversation("+1", "Alice", false);
    app.core.db_ops.clear();

    app.handle_signal_event(reaction("\u{1f44d}", "+2", None, "+1", 9999999999999, false));

    assert!(app.core.conversations.get("+1").unwrap().messages.is_empty());
    assert_eq!(app.core.db_ops.len(), 1);
    assert_eq!(
        app.core.db_ops[0],
        DbOp::UpsertReaction {
            conv_id: "+1".to_string(),
            target_ts_ms: 9999999999999,
            target_author: "+1".to_string(),
            sender: "+2".to_string(),
            emoji: "\u{1f44d}".to_string(),
        }
    );
}
