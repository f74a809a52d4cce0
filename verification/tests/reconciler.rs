use signal_tui::app::messages::{
    attachment_text, file_uri_to_path, image_path_in_body, path_to_file_uri,
    resolve_conversation_key, short_name,
};
use signal_tui::app::reactions::{attach_reactions, merge_reaction};
use signal_tui::app::receipts::receipt_kind_status;
use signal_tui::app::{App, Conversation, DbOp, DisplayMessage, Reconciler};
use signal_tui::signal::types::{
    Attachment, Contact, Group, MessageStatus, Reaction, SignalEvent, SignalMessage,
};

fn own(status: Option<MessageStatus>, timestamp_ms: i64) -> DisplayMessage {
    DisplayMessage {
        sender: "you".to_string(),
        timestamp: 1,
        body: "hello".to_string(),
        is_system: false,
        image_path: None,
        status,
        timestamp_ms,
        reactions: Vec::new(),
    }
}

fn from(sender: &str, timestamp_ms: i64) -> DisplayMessage {
    DisplayMessage { sender: sender.to_string(), status: None, ..own(None, timestamp_ms) }
}

fn with_conversation(core: &mut Reconciler, id: &str, is_group: bool, messages: Vec<DisplayMessage>) {
    let index = core.get_or_create_conversation(id, id, is_group);
    core.conversations.entries[index].1.messages = messages;
}

fn message(source: &str, body: Option<&str>) -> SignalMessage {
    SignalMessage {
        source: source.to_string(),
        source_name: None,
        timestamp: 1000,
        body: body.map(|b| b.to_string()),
        attachments: vec![],
        group_id: None,
        group_name: None,
        is_outgoing: false,
        destination: None,
    }
}

fn receipt(sender: &str, kind: &str, timestamps: Vec<i64>) -> SignalEvent {
    SignalEvent::ReceiptReceived {
        sender: sender.to_string(),
        receipt_type: kind.to_string(),
        timestamps,
    }
}

fn status_at(core: &Reconciler, id: &str, index: usize) -> Option<MessageStatus> {
    core.conversations.get(id).unwrap().messages[index].status
}

#[test]
fn receipt_kinds() {
    assert_eq!(receipt_kind_status("DELIVERY"), Some(MessageStatus::Delivered));
    assert_eq!(receipt_kind_status("READ"), Some(MessageStatus::Read));
    assert_eq!(receipt_kind_status("VIEWED"), Some(MessageStatus::Viewed));
    assert_eq!(receipt_kind_status("delivery"), None);
    assert_eq!(receipt_kind_status(""), None);
}

#[test]
fn receipt_replay_with_lower_case_kind() {
    let mut core = Reconciler::new("+10".to_string());
    with_conversation(&mut core, "C", false, vec![own(Some(MessageStatus::Sending), 1000)]);
    core.register_send("rpc".to_string(), "C".to_string(), 1000);

    core.handle_signal_event_at(receipt("C", "delivery", vec![2000]), 0);
    assert_eq!(core.pending_receipts, vec![("C".to_string(), "delivery".to_string(), vec![2000])]);
    assert_eq!(status_at(&core, "C", 0), Some(MessageStatus::Sending));

    core.handle_signal_event_at(
        SignalEvent::SendTimestamp { rpc_id: "rpc".to_string(), server_ts: 2000 },
        0,
    );
    let m = &core.conversations.get("C").unwrap().messages[0];
    assert_eq!(m.status, Some(MessageStatus::Delivered));
    assert_eq!(m.timestamp_ms, 2000);
    assert!(core.pending_receipts.is_empty());
    assert!(core.pending_sends.is_empty());
}

#[test]
fn unmatched_timestamps_are_buffered_one_by_one() {
    let mut core = Reconciler::new("+10".to_string());
    with_conversation(&mut core, "C", false, vec![own(Some(MessageStatus::Sent), 1)]);
    core.handle_receipt("C", "READ", &[1, 7, 8]);
    assert_eq!(status_at(&core, "C", 0), Some(MessageStatus::Read));
    assert_eq!(
        core.pending_receipts,
        vec![
            ("C".to_string(), "READ".to_string(), vec![7]),
            ("C".to_string(), "READ".to_string(), vec![8]),
        ]
    );
    core.handle_receipt("C", "SEEN", &[9]);
    assert_eq!(core.pending_receipts.len(), 2);
    core.handle_receipt("C", "READ", &[]);
    assert_eq!(core.pending_receipts.len(), 2);
}

#[test]
fn replay_buffers_anew_what_still_matches_nothing() {
    let mut core = Reconciler::new("+10".to_string());
    with_conversation(&mut core, "C", false, vec![own(Some(MessageStatus::Sending), 1000)]);
    core.register_send("rpc".to_string(), "C".to_string(), 1000);
    core.handle_receipt("C", "DELIVERY", &[2000, 3000]);
    core.handle_send_timestamp("rpc", 2000);
    assert_eq!(status_at(&core, "C", 0), Some(MessageStatus::Delivered));
    assert_eq!(core.pending_receipts, vec![("C".to_string(), "DELIVERY".to_string(), vec![3000])]);
}

#[test]
fn group_receipt_finds_the_message_in_another_conversation() {
    let mut core = Reconciler::new("+10".to_string());
    with_conversation(&mut core, "member", false, vec![own(Some(MessageStatus::Sent), 5)]);
    with_conversation(
        &mut core,
        "g1",
        true,
        vec![own(Some(MessageStatus::Sent), 9), from("member", 9), own(Some(MessageStatus::Sent), 9)],
    );
    with_conversation(&mut core, "g2", true, vec![own(Some(MessageStatus::Sent), 9)]);
    core.db_ops.clear();

    core.handle_receipt("member", "READ", &[9]);

    assert_eq!(status_at(&core, "member", 0), Some(MessageStatus::Sent));
    assert_eq!(status_at(&core, "g1", 0), Some(MessageStatus::Sent));
    assert_eq!(status_at(&core, "g1", 1), None);
    assert_eq!(status_at(&core, "g1", 2), Some(MessageStatus::Read));
    assert_eq!(status_at(&core, "g2", 0), Some(MessageStatus::Sent));
    assert!(core.pending_receipts.is_empty());
    assert_eq!(
        core.db_ops,
        vec![DbOp::UpdateMessageStatus { conv_id: "g1".to_string(), timestamp_ms: 9, status: 5 }]
    );
}

#[test]
fn sender_conversation_is_searched_first() {
    let mut core = Reconciler::new("+10".to_string());
    with_conversation(&mut core, "g1", true, vec![own(Some(MessageStatus::Sent), 9)]);
    with_conversation(&mut core, "+2", false, vec![own(Some(MessageStatus::Sent), 9)]);
    core.handle_receipt("+2", "DELIVERY", &[9]);
    assert_eq!(status_at(&core, "g1", 0), Some(MessageStatus::Sent));
    assert_eq!(status_at(&core, "+2", 0), Some(MessageStatus::Delivered));
}

#[test]
fn receipt_on_a_message_without_state_changes_nothing_and_is_not_buffered() {
    let mut core = Reconciler::new("+10".to_string());
    with_conversation(&mut core, "C", false, vec![own(None, 1)]);
    core.db_ops.clear();
    core.handle_receipt("C", "READ", &[1]);
    assert_eq!(status_at(&core, "C", 0), None);
    assert!(core.pending_receipts.is_empty());
    assert!(core.db_ops.is_empty());
}

#[test]
fn status_is_never_lowered_by_receipts_and_confirmations() {
    let mut core = Reconciler::new("+10".to_string());
    with_conversation(&mut core, "C", false, vec![own(Some(MessageStatus::Viewed), 1)]);
    core.register_send("rpc".to_string(), "C".to_string(), 1);
    core.db_ops.clear();
    core.handle_receipt("C", "READ", &[1]);
    core.handle_receipt("C", "DELIVERY", &[1]);
    assert_eq!(status_at(&core, "C", 0), Some(MessageStatus::Viewed));
    assert!(core.db_ops.is_empty());
    core.handle_send_timestamp("rpc", 0);
    let m = &core.conversations.get("C").unwrap().messages[0];
    assert_eq!(m.status, Some(MessageStatus::Viewed));
    assert_eq!(m.timestamp_ms, 1);
    assert_eq!(
        core.db_ops,
        vec![DbOp::UpdateMessageTimestampMs { conv_id: "C".to_string(), old_ts: 1, new_ts: 1, status: 6 }]
    );
}

#[test]
fn failure_overrides_any_state() {
    let mut core = Reconciler::new("+10".to_string());
    with_conversation(&mut core, "C", false, vec![own(Some(MessageStatus::Read), 1)]);
    core.register_send("rpc".to_string(), "C".to_string(), 1);
    core.db_ops.clear();
    core.handle_signal_event_at(SignalEvent::SendFailed { rpc_id: "rpc".to_string() }, 0);
    assert_eq!(status_at(&core, "C", 0), Some(MessageStatus::Failed));
    assert_eq!(core.status_message, "send failed");
    assert!(core.pending_sends.is_empty());
    assert_eq!(
        core.db_ops,
        vec![DbOp::UpdateMessageStatus { conv_id: "C".to_string(), timestamp_ms: 1, status: 1 }]
    );
    core.handle_signal_event_at(SignalEvent::SendFailed { rpc_id: "rpc".to_string() }, 0);
    assert_eq!(core.db_ops.len(), 1);
}

#[test]
fn confirmation_for_unknown_request_changes_nothing() {
    let mut core = Reconciler::new("+10".to_string());
    with_conversation(&mut core, "C", false, vec![own(Some(MessageStatus::Sending), 1)]);
    core.handle_receipt("C", "READ", &[5]);
    core.db_ops.clear();
    core.handle_send_timestamp("nobody", 5);
    assert_eq!(status_at(&core, "C", 0), Some(MessageStatus::Sending));
    assert_eq!(core.pending_receipts.len(), 1);
    assert!(core.db_ops.is_empty());
}

#[test]
fn group_list_and_contact_list_creation() {
    let mut core = Reconciler::new("+10".to_string());
    core.handle_group_list(vec![Group { id: "g1".to_string(), name: "".to_string(), members: vec![] }]);
    assert_eq!(core.conversations.len(), 1);
    let conv = core.conversations.get("g1").unwrap();
    assert!(conv.is_group);
    assert_eq!(conv.name, "");
    assert_eq!(core.contact_names.get("g1"), None);
    assert_eq!(core.conversation_order, vec!["g1".to_string()]);

    core.handle_group_list(vec![
        Group { id: "g1".to_string(), name: "Family".to_string(), members: vec![] },
        Group { id: "g1".to_string(), name: "".to_string(), members: vec![] },
    ]);
    assert_eq!(core.conversations.len(), 1);
    assert_eq!(core.conversations.get("g1").unwrap().name, "Family");

    core.handle_contact_list(vec![
        Contact { number: "+1".to_string(), name: Some("Alice".to_string()) },
        Contact { number: "g1".to_string(), name: Some("".to_string()) },
    ]);
    assert_eq!(core.conversations.len(), 1);
    assert_eq!(core.conversations.get("g1").unwrap().name, "Family");
    assert_eq!(
        core.db_ops,
        vec![
            DbOp::UpsertConversation { id: "g1".to_string(), name: "".to_string(), is_group: true },
            DbOp::UpsertConversation { id: "g1".to_string(), name: "Family".to_string(), is_group: true },
        ]
    );
}

#[test]
fn conversation_keys() {
    let mut m = message("+1", Some("x"));
    assert_eq!(resolve_conversation_key(&m).as_deref(), Some("+1"));
    m.is_outgoing = true;
    assert_eq!(resolve_conversation_key(&m), None);
    m.destination = Some("+2".to_string());
    assert_eq!(resolve_conversation_key(&m).as_deref(), Some("+2"));
    m.group_id = Some("g".to_string());
    assert_eq!(resolve_conversation_key(&m).as_deref(), Some("g"));
}

#[test]
fn outgoing_sync_without_destination_is_dropped() {
    let mut core = Reconciler::new("+10".to_string());
    let mut m = message("+10", Some("x"));
    m.is_outgoing = true;
    core.handle_message(m);
    assert!(core.conversations.is_empty());
    assert!(core.db_ops.is_empty());
}

#[test]
fn outgoing_sync_is_sent_and_not_unread() {
    let mut core = Reconciler::new("+10".to_string());
    let mut m = message("+10", Some("x"));
    m.is_outgoing = true;
    m.source_name = Some("Me".to_string());
    m.destination = Some("+2".to_string());
    core.handle_message(m);
    let conv = core.conversations.get("+2").unwrap();
    assert_eq!(conv.name, "Me");
    assert_eq!(conv.unread, 0);
    assert_eq!(conv.messages[0].sender, "you");
    assert_eq!(conv.messages[0].status, Some(MessageStatus::Sent));
    assert_eq!(conv.messages[0].timestamp_ms, 1000);
    assert!(!core.pending_bell);
    assert_eq!(core.contact_names.get("+10"), None);
}

#[test]
fn names_become_more_specific_only() {
    let mut core = Reconciler::new("+10".to_string());
    core.handle_message(message("+15551234567", Some("a")));
    let conv = core.conversations.get("+15551234567").unwrap();
    assert_eq!(conv.name, "+15551234567");
    assert_eq!(conv.messages[0].sender, "+1***4567");

    let mut named = message("+15551234567", Some("b"));
    named.source_name = Some("Alice".to_string());
    core.handle_message(named);
    assert_eq!(core.conversations.get("+15551234567").unwrap().name, "Alice");

    core.contact_names.entries.clear();
    core.handle_message(message("+15551234567", Some("c")));
    let conv = core.conversations.get("+15551234567").unwrap();
    assert_eq!(conv.name, "Alice");
    assert_eq!(conv.messages.len(), 3);
    assert_eq!(conv.unread, 3);

    let mut in_group = message("+15551234567", Some("d"));
    in_group.group_id = Some("g".to_string());
    in_group.source_name = Some("Alice".to_string());
    core.handle_message(in_group);
    assert_eq!(core.conversations.get("g").unwrap().name, "g");
    assert!(core.conversations.get("g").unwrap().is_group);

    let mut group_named = message("+15551234567", Some("e"));
    group_named.group_id = Some("g".to_string());
    group_named.group_name = Some("Family".to_string());
    core.handle_message(group_named);
    assert_eq!(core.conversations.get("g").unwrap().name, "Family");
    assert_eq!(core.conversations.len(), 2);
}

#[test]
fn unread_and_bell() {
    let mut core = Reconciler::new("+10".to_string());
    core.handle_message(message("+1", Some("a")));
    assert_eq!(core.conversations.get("+1").unwrap().unread, 1);
    assert!(core.pending_bell);

    core.pending_bell = false;
    core.active_conversation = Some("+1".to_string());
    core.handle_message(message("+1", Some("b")));
    assert_eq!(core.conversations.get("+1").unwrap().unread, 1);
    assert!(!core.pending_bell);

    core.active_conversation = None;
    core.muted_conversations.push("+1".to_string());
    core.handle_message(message("+1", Some("c")));
    assert_eq!(core.conversations.get("+1").unwrap().unread, 2);
    assert!(!core.pending_bell);

    core.muted_conversations.clear();
    core.notify_direct = false;
    core.handle_message(message("+1", Some("d")));
    assert!(!core.pending_bell);

    let mut in_group = message("+1", Some("e"));
    in_group.group_id = Some("g".to_string());
    core.handle_message(in_group);
    assert!(core.pending_bell);
}

#[test]
fn attachments_enter_the_timeline_after_the_text() {
    let mut core = Reconciler::new("+10".to_string());
    let mut m = message("+1", Some("see"));
    m.attachments = vec![
        Attachment {
            id: "1".to_string(),
            content_type: "image/png".to_string(),
            filename: Some("a.png".to_string()),
            local_path: Some("/home/me/a.png".to_string()),
        },
        Attachment {
            id: "2".to_string(),
            content_type: "application/pdf".to_string(),
            filename: None,
            local_path: Some("C:\\docs\\b.pdf".to_string()),
        },
        Attachment {
            id: "3".to_string(),
            content_type: "image/gif".to_string(),
            filename: Some("c.gif".to_string()),
            local_path: None,
        },
    ];
    core.handle_message(m);
    let messages = &core.conversations.get("+1").unwrap().messages;
    assert_eq!(messages.len(), 4);
    assert_eq!(messages[0].body, "see");
    assert_eq!(messages[1].body, "[image: a.png](file:///home/me/a.png)");
    assert_eq!(messages[1].image_path.as_deref(), Some("/home/me/a.png"));
    assert_eq!(messages[2].body, "[attachment: application/pdf](file:///C:/docs/b.pdf)");
    assert_eq!(messages[2].image_path, None);
    assert_eq!(messages[3].body, "[image: c.gif]");
    assert_eq!(messages[3].image_path, None);
    assert_eq!(core.conversations.get("+1").unwrap().unread, 1);
    assert_eq!(core.db_ops.len(), 5);
    assert_eq!(
        core.db_ops[4],
        DbOp::InsertMessage {
            conv_id: "+1".to_string(),
            sender: "+1".to_string(),
            timestamp: 1000,
            body: "[image: c.gif]".to_string(),
            is_system: false,
            status: None,
            timestamp_ms: 1000,
        }
    );
}

#[test]
fn display_helpers() {
    assert_eq!(short_name("+15551234567"), "+1***4567");
    assert_eq!(short_name("+12345"), "+12345");
    assert_eq!(short_name("1234567"), "12***4567");
    assert_eq!(short_name("\u{e9}\u{e9}\u{e9}\u{e9}"), "\u{e9}***\u{e9}\u{e9}");
    assert_eq!(short_name("a\u{e9}bcdef"), "a\u{e9}bcdef");
    assert_eq!(path_to_file_uri("/tmp/a b.png"), "file:///tmp/a b.png");
    assert_eq!(path_to_file_uri("C:\\x\\y.png"), "file:///C:/x/y.png");
    assert_eq!(path_to_file_uri(""), "file:///");
    assert_eq!(file_uri_to_path(" file:///tmp/a.png "), "tmp/a.png");
    assert_eq!(file_uri_to_path("file://host/a"), "host/a");
    assert_eq!(file_uri_to_path("/plain/path"), "/plain/path");
    assert_eq!(image_path_in_body("[image: a.png](file:///tmp/a.png)").as_deref(), Some("tmp/a.png"));
    assert_eq!(image_path_in_body("[image: a.png -> /tmp/a.png]").as_deref(), Some("/tmp/a.png"));
    assert_eq!(image_path_in_body("[image: a.png]"), None);
    assert_eq!(image_path_in_body("see file:///tmp/a.png"), None);
    let att = Attachment {
        id: "1".to_string(),
        content_type: "image/webp".to_string(),
        filename: None,
        local_path: None,
    };
    assert_eq!(attachment_text(&att), "[image: image/webp]");
}

#[test]
fn reaction_merge_rules() {
    let mut reactions: Vec<Reaction> = Vec::new();
    merge_reaction(&mut reactions, "Bob", "a", false);
    merge_reaction(&mut reactions, "Eve", "b", false);
    merge_reaction(&mut reactions, "Bob", "c", false);
    assert_eq!(
        reactions,
        vec![
            Reaction { emoji: "c".to_string(), sender: "Bob".to_string() },
            Reaction { emoji: "b".to_string(), sender: "Eve".to_string() },
        ]
    );
    merge_reaction(&mut reactions, "Bob", "ignored", true);
    assert_eq!(reactions, vec![Reaction { emoji: "b".to_string(), sender: "Eve".to_string() }]);
    merge_reaction(&mut reactions, "Bob", "", true);
    assert_eq!(reactions.len(), 1);
}

#[test]
fn reaction_targets_newest_message_of_the_author() {
    let mut core = Reconciler::new("+10".to_string());
    core.contact_names.insert("+1".to_string(), "Alice".to_string());
    with_conversation(
        &mut core,
        "+1",
        false,
        vec![from("Alice", 5), from("+1", 5), own(Some(MessageStatus::Sent), 5), from("Bob", 5)],
    );
    core.handle_reaction("+1", "x", "+10", "+1", 5, false);
    let messages = &core.conversations.get("+1").unwrap().messages;
    assert!(messages[0].reactions.is_empty());
    assert_eq!(messages[1].reactions, vec![Reaction { emoji: "x".to_string(), sender: "you".to_string() }]);
    assert!(messages[2].reactions.is_empty());

    core.handle_reaction("+1", "y", "+1", "+10", 5, false);
    let messages = &core.conversations.get("+1").unwrap().messages;
    assert_eq!(messages[2].reactions, vec![Reaction { emoji: "y".to_string(), sender: "Alice".to_string() }]);

    core.handle_reaction("+1", "z", "+3", "+1", 6, true);
    core.handle_reaction("nowhere", "z", "+3", "+1", 5, true);
    assert_eq!(
        core.db_ops[core.db_ops.len() - 1],
        DbOp::RemoveReaction {
            conv_id: "nowhere".to_string(),
            target_ts_ms: 5,
            target_author: "+1".to_string(),
            sender: "+3".to_string(),
        }
    );
}

#[test]
fn stored_reactions_attach_to_the_first_message_with_the_timestamp() {
    let mut messages = vec![from("a", 1), from("b", 2), from("c", 2)];
    let rows = vec![
        (2, "b".to_string(), "x".to_string(), "Bob".to_string()),
        (9, "b".to_string(), "x".to_string(), "Bob".to_string()),
        (2, "b".to_string(), "y".to_string(), "Bob".to_string()),
        (1, "a".to_string(), "z".to_string(), "Eve".to_string()),
    ];
    attach_reactions(&mut messages, &rows);
    assert_eq!(messages[0].reactions, vec![Reaction { emoji: "z".to_string(), sender: "Eve".to_string() }]);
    assert_eq!(messages[1].reactions, vec![Reaction { emoji: "y".to_string(), sender: "Bob".to_string() }]);
    assert!(messages[2].reactions.is_empty());
}

#[test]
fn typing_indicators_expire_after_five_seconds() {
    let mut core = Reconciler::new("+10".to_string());
    let typing = |sender: &str, on: bool| SignalEvent::TypingIndicator {
        sender: sender.to_string(),
        sender_name: Some("N".to_string()),
        is_typing: on,
    };
    core.handle_signal_event_at(typing("+1", true), 1000);
    core.handle_signal_event_at(typing("+2", true), 3000);
    core.handle_signal_event_at(typing("+3", true), 9000);
    core.handle_signal_event_at(typing("+4", true), 4000);
    core.handle_signal_event_at(typing("+4", false), 4500);
    assert_eq!(core.contact_names.get("+4").map(|s| s.as_str()), Some("N"));
    core.cleanup_typing_at(5999);
    assert_eq!(core.typing_indicators.len(), 3);
    core.cleanup_typing_at(6000);
    assert_eq!(core.typing_indicators.find("+1"), None);
    assert_eq!(core.typing_indicators.get("+2"), Some(&3000));
    assert_eq!(core.typing_indicators.get("+3"), Some(&9000));
}

#[test]
fn error_event_shows_in_the_status_bar() {
    let mut app = App::new("+10".to_string());
    app.handle_signal_event(SignalEvent::Error("broken".to_string()));
    assert_eq!(app.core.status_message, "error: broken");
}

#[test]
fn reload_promotes_sending_to_sent() {
    let mut app = App::new("+10".to_string());
    let stored = vec![
        Conversation {
            name: "Alice".to_string(),
            id: "+1".to_string(),
            messages: vec![
                own(Some(MessageStatus::Sending), 1),
                own(Some(MessageStatus::Failed), 2),
                from("Alice", 3),
                own(Some(MessageStatus::Read), 4),
            ],
            unread: 1,
            is_group: false,
        },
        Conversation { name: "Empty".to_string(), id: "g".to_string(), messages: vec![], unread: 0, is_group: true },
    ];
    app.load_from_db(stored, vec!["g".to_string(), "+1".to_string()], vec!["g".to_string()]);
    let messages = &app.core.conversations.get("+1").unwrap().messages;
    assert_eq!(messages[0].status, Some(MessageStatus::Sent));
    assert_eq!(messages[1].status, Some(MessageStatus::Failed));
    assert_eq!(messages[2].status, None);
    assert_eq!(messages[3].status, Some(MessageStatus::Read));
    assert_eq!(app.screen.last_read_index.get("+1"), Some(&3));
    assert_eq!(app.screen.last_read_index.get("g"), None);
    assert_eq!(app.core.conversation_order, vec!["g".to_string(), "+1".to_string()]);
    assert_eq!(app.core.muted_conversations, vec!["g".to_string()]);
    assert!(app.core.db_ops.is_empty());
    assert_eq!(app.total_unread(), 1);
}
