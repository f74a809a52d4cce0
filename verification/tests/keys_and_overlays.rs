use signal_tui::app::overlays::{quick_reaction, setting_label};
use signal_tui::app::{App, DbOp, DisplayMessage, InputMode, Key, KeyMods, SendRequest};
use signal_tui::config::Config;
use signal_tui::signal::types::{MessageStatus, Reaction};

fn app_with(conversations: &[(&str, &str, bool)]) -> App {
    let mut app = App::new("+10".to_string());
    app.set_connected();
    for (id, name, is_group) in conversations {
        app.core.get_or_create_conversation(id, name, *is_group);
    }
    app.core.db_ops.clear();
    app
}

fn entry(sender: &str, timestamp_ms: i64, is_system: bool) -> DisplayMessage {
    DisplayMessage {
        sender: sender.to_string(),
        timestamp: 0,
        body: format!("body {}", timestamp_ms),
        is_system,
        image_path: None,
        status: None,
        timestamp_ms,
        reactions: Vec::new(),
    }
}

fn push(app: &mut App, id: &str, message: DisplayMessage) {
    let index = app.core.conversations.find(id).unwrap();
    app.core.conversations.entries[index].1.messages.push(message);
}

fn type_line(app: &mut App, line: &str) {
    app.input.buffer = line.to_string();
    app.input.cursor = line.chars().count();
}

#[test]
fn sending_text_issues_a_message_that_is_sending() {
    let mut app = app_with(&[("+1", "Alice", false), ("g", "Family", true)]);
    app.core.active_conversation = Some("g".to_string());
    app.screen.scroll_offset = 7;
    type_line(&mut app, "  hi all  ");
    match app.handle_input_at(1234) {
        Some(SendRequest::Message { recipient, body, is_group, local_ts_ms }) => {
            assert_eq!(recipient, "g");
            assert_eq!(body, "hi all");
            assert!(is_group);
            assert_eq!(local_ts_ms, 1234);
        }
        other => panic!("unexpected {:?}", other),
    }
    let message = &app.core.conversations.get("g").unwrap().messages[0];
    assert_eq!(message.sender, "you");
    assert_eq!(message.status, Some(MessageStatus::Sending));
    assert_eq!(message.timestamp_ms, 1234);
    assert_eq!(app.screen.scroll_offset, 0);
    assert_eq!(app.input.buffer, "");
    assert_eq!(app.input.cursor, 0);
    assert_eq!(
        app.core.db_ops,
        vec![DbOp::InsertMessage {
            conv_id: "g".to_string(),
            sender: "you".to_string(),
            timestamp: 1234,
            body: "hi all".to_string(),
            is_system: false,
            status: Some(MessageStatus::Sending),
            timestamp_ms: 1234,
        }]
    );
    app.core.register_send("rpc".to_string(), "g".to_string(), 1234);
    app.core.handle_send_timestamp("rpc", 5678);
    let message = &app.core.conversations.get("g").unwrap().messages[0];
    assert_eq!(message.status, Some(MessageStatus::Sent));
    assert_eq!(message.timestamp_ms, 5678);
}

#[test]
fn sending_without_conversation_says_so() {
    let mut app = app_with(&[]);
    type_line(&mut app, "hello");
    assert!(app.handle_input_at(1).is_none());
    assert_eq!(app.core.status_message, "No active conversation. Use /join <name> first.");
}

#[test]
fn join_by_key_name_and_number() {
    let mut app = app_with(&[("+1", "Alice", false), ("g", "The Family", true)]);
    let index = app.core.conversations.find("g").unwrap();
    app.core.conversations.entries[index].1.unread = 4;

    type_line(&mut app, "/join fam");
    assert!(app.handle_input_at(1).is_none());
    assert_eq!(app.core.active_conversation.as_deref(), Some("g"));
    assert_eq!(app.core.conversations.get("g").unwrap().unread, 0);
    assert_eq!(app.core.status_message, "connected | #The Family");

    push(&mut app, "g", entry("x", 1, false));
    type_line(&mut app, "/j +1");
    app.handle_input_at(1);
    assert_eq!(app.core.active_conversation.as_deref(), Some("+1"));
    assert_eq!(app.core.status_message, "connected | Alice");
    assert_eq!(app.screen.last_read_index.get("g"), Some(&1));
    assert_eq!(app.core.db_ops, vec![DbOp::SaveReadMarker { conv_id: "g".to_string() }]);

    type_line(&mut app, "/join +49");
    app.handle_input_at(1);
    assert_eq!(app.core.active_conversation.as_deref(), Some("+49"));
    assert_eq!(app.core.conversations.len(), 3);
    assert_eq!(app.core.status_message, "connected | +49");

    type_line(&mut app, "/join nobody");
    app.handle_input_at(1);
    assert_eq!(app.core.active_conversation.as_deref(), Some("+49"));
    assert_eq!(app.core.status_message, "Conversation not found: nobody");

    type_line(&mut app, "/part");
    app.handle_input_at(1);
    assert_eq!(app.core.active_conversation, None);
    assert_eq!(app.core.status_message, "connected | no conversation selected");
}

#[test]
fn commands_toggle_things() {
    let mut app = app_with(&[("+1", "Alice", false)]);
    type_line(&mut app, "/sidebar");
    app.handle_input_at(1);
    assert!(!app.screen.sidebar_visible);

    type_line(&mut app, "/bell");
    app.handle_input_at(1);
    assert!(!app.core.notify_direct && !app.core.notify_group);
    assert_eq!(app.core.status_message, "notifications off");
    type_line(&mut app, "/bell dm");
    app.handle_input_at(1);
    assert!(app.core.notify_direct && !app.core.notify_group);
    assert_eq!(app.core.status_message, "direct notifications on");
    type_line(&mut app, "/bell");
    app.handle_input_at(1);
    assert!(app.core.notify_direct && app.core.notify_group);
    assert_eq!(app.core.status_message, "notifications on");
    type_line(&mut app, "/notify groups");
    app.handle_input_at(1);
    assert!(!app.core.notify_group);
    assert_eq!(app.core.status_message, "group notifications off");
    type_line(&mut app, "/bell loud");
    app.handle_input_at(1);
    assert_eq!(app.core.status_message, "unknown bell type: loud (use direct or group)");

    type_line(&mut app, "/mute");
    app.handle_input_at(1);
    assert_eq!(app.core.status_message, "no active conversation to mute");
    app.core.active_conversation = Some("+1".to_string());
    type_line(&mut app, "/mute");
    app.handle_input_at(1);
    assert_eq!(app.core.muted_conversations, vec!["+1".to_string()]);
    assert_eq!(app.core.status_message, "muted Alice");
    type_line(&mut app, "/mute");
    app.handle_input_at(1);
    assert!(app.core.muted_conversations.is_empty());
    assert_eq!(app.core.status_message, "unmuted Alice");
    assert_eq!(
        app.core.db_ops,
        vec![
            DbOp::SetMuted { conv_id: "+1".to_string(), muted: true },
            DbOp::SetMuted { conv_id: "+1".to_string(), muted: false },
        ]
    );

    type_line(&mut app, "/help");
    app.handle_input_at(1);
    assert!(app.overlays.show_help);
    type_line(&mut app, "/settings");
    app.handle_input_at(1);
    assert!(app.overlays.show_settings);
    type_line(&mut app, "/nope");
    app.handle_input_at(1);
    assert_eq!(app.core.status_message, "Unknown command: /nope");
    type_line(&mut app, "/quit");
    app.handle_input_at(1);
    assert!(app.should_quit);
}

#[test]
fn switching_conversations_goes_around() {
    let mut app = app_with(&[("a", "A", false), ("b", "B", false), ("c", "C", false)]);
    app.next_conversation();
    assert_eq!(app.core.active_conversation.as_deref(), Some("a"));
    app.next_conversation();
    assert_eq!(app.core.active_conversation.as_deref(), Some("b"));
    assert!(app.handle_global_key(KeyMods::Plain, Key::Tab));
    assert_eq!(app.core.active_conversation.as_deref(), Some("c"));
    app.next_conversation();
    assert_eq!(app.core.active_conversation.as_deref(), Some("a"));
    app.prev_conversation();
    assert_eq!(app.core.active_conversation.as_deref(), Some("c"));
    assert!(app.handle_global_key(KeyMods::Shift, Key::BackTab));
    assert_eq!(app.core.active_conversation.as_deref(), Some("b"));
    app.core.active_conversation = Some("gone".to_string());
    app.prev_conversation();
    assert_eq!(app.core.active_conversation.as_deref(), Some("a"));
    let mut empty = app_with(&[]);
    empty.next_conversation();
    assert_eq!(empty.core.active_conversation, None);
}

#[test]
fn global_keys() {
    let mut app = app_with(&[]);
    assert!(!app.handle_global_key(KeyMods::Plain, Key::Char('c')));
    assert!(!app.handle_global_key(KeyMods::Control, Key::Tab));
    assert!(!app.handle_global_key(KeyMods::Plain, Key::Left));
    assert!(app.handle_global_key(KeyMods::Control, Key::Left));
    assert_eq!(app.screen.sidebar_width, 20);
    for _ in 0..5 {
        app.handle_global_key(KeyMods::Control, Key::Left);
    }
    assert_eq!(app.screen.sidebar_width, 14);
    app.resize_sidebar(100);
    assert_eq!(app.screen.sidebar_width, 40);
    app.resize_sidebar(-3);
    assert_eq!(app.screen.sidebar_width, 37);
    assert!(app.handle_global_key(KeyMods::Other, Key::PageUp));
    assert_eq!(app.screen.scroll_offset, 5);
    assert!(app.handle_global_key(KeyMods::Plain, Key::PageDown));
    assert!(app.handle_global_key(KeyMods::Plain, Key::PageDown));
    assert_eq!(app.screen.scroll_offset, 0);
    assert!(app.handle_global_key(KeyMods::Control, Key::Char('c')));
    assert!(app.should_quit);
}

#[test]
fn normal_mode_keys() {
    let mut app = app_with(&[("+1", "Alice", false)]);
    app.input.mode = InputMode::Normal;
    type_line(&mut app, "one two  three");
    app.handle_normal_key(KeyMods::Plain, Key::Char('0'));
    assert_eq!(app.input.cursor, 0);
    app.handle_normal_key(KeyMods::Plain, Key::Char('w'));
    assert_eq!(app.input.cursor, 4);
    app.handle_normal_key(KeyMods::Plain, Key::Char('w'));
    assert_eq!(app.input.cursor, 9);
    app.handle_normal_key(KeyMods::Plain, Key::Char('w'));
    assert_eq!(app.input.cursor, 14);
    app.handle_normal_key(KeyMods::Plain, Key::Char('b'));
    assert_eq!(app.input.cursor, 9);
    app.handle_normal_key(KeyMods::Plain, Key::Char('b'));
    assert_eq!(app.input.cursor, 4);
    app.handle_normal_key(KeyMods::Plain, Key::Char('h'));
    assert_eq!(app.input.cursor, 3);
    app.handle_normal_key(KeyMods::Plain, Key::Char('l'));
    app.handle_normal_key(KeyMods::Plain, Key::Char('x'));
    assert_eq!(app.input.buffer, "one wo  three");
    app.handle_normal_key(KeyMods::Plain, Key::Char('D'));
    assert_eq!(app.input.buffer, "one ");
    assert_eq!(app.input.cursor, 4);
    app.handle_normal_key(KeyMods::Plain, Key::Char('$'));
    app.handle_normal_key(KeyMods::Plain, Key::Char('h'));
    app.handle_normal_key(KeyMods::Plain, Key::Char('x'));
    assert_eq!(app.input.buffer, "one");
    assert_eq!(app.input.cursor, 2);
    assert_eq!(app.input.mode, InputMode::Normal);
    app.handle_normal_key(KeyMods::Plain, Key::Char('a'));
    assert_eq!(app.input.cursor, 3);
    assert_eq!(app.input.mode, InputMode::Insert);
    app.input.mode = InputMode::Normal;
    app.handle_normal_key(KeyMods::Plain, Key::Char('I'));
    assert_eq!((app.input.cursor, app.input.mode), (0, InputMode::Insert));
    app.handle_normal_key(KeyMods::Plain, Key::Char('A'));
    assert_eq!(app.input.cursor, 3);
    app.handle_normal_key(KeyMods::Plain, Key::Esc);
    assert_eq!(app.input.buffer, "");
    assert_eq!(app.input.cursor, 0);
    type_line(&mut app, "x");
    app.handle_normal_key(KeyMods::Plain, Key::Char('o'));
    assert_eq!(app.input.buffer, "");

    app.handle_normal_key(KeyMods::Plain, Key::Char('k'));
    app.handle_normal_key(KeyMods::Control, Key::Char('u'));
    assert_eq!(app.screen.scroll_offset, 11);
    app.handle_normal_key(KeyMods::Plain, Key::Char('u'));
    assert_eq!(app.screen.scroll_offset, 11);
    app.handle_normal_key(KeyMods::Plain, Key::Char('j'));
    app.handle_normal_key(KeyMods::Control, Key::Char('d'));
    assert_eq!(app.screen.scroll_offset, 0);
    app.core.active_conversation = Some("+1".to_string());
    push(&mut app, "+1", entry("a", 1, false));
    push(&mut app, "+1", entry("b", 2, true));
    app.handle_normal_key(KeyMods::Plain, Key::Char('g'));
    assert_eq!(app.screen.scroll_offset, 2);
    app.handle_normal_key(KeyMods::Plain, Key::Char('G'));
    assert_eq!(app.screen.scroll_offset, 0);

    app.handle_normal_key(KeyMods::Plain, Key::Char('r'));
    assert!(!app.overlays.show_reaction_picker);
    app.screen.scroll_offset = 1;
    app.handle_normal_key(KeyMods::Plain, Key::Char('r'));
    assert!(app.overlays.show_reaction_picker);
    app.handle_normal_key(KeyMods::Plain, Key::Char('y'));
    assert_eq!(app.overlays.pending_copy, Some(false));
    app.handle_normal_key(KeyMods::Plain, Key::Char('Y'));
    assert_eq!(app.overlays.pending_copy, Some(true));
    assert_eq!(app.selected_text(true, "12:34").as_deref(), Some("[12:34] <a> body 1"));
    assert_eq!(app.selected_text(false, "12:34").as_deref(), Some("body 1"));
    app.screen.scroll_offset = 0;
    assert_eq!(app.selected_text(true, "12:34").as_deref(), Some("body 2"));
    app.copy_finished(Some(Ok(())));
    assert_eq!(app.core.status_message, "Copied to clipboard");
    assert_eq!(app.overlays.pending_copy, None);
    app.copy_finished(Some(Err("denied".to_string())));
    assert_eq!(app.core.status_message, "Clipboard error: denied");
    app.copy_finished(None);
    assert_eq!(app.core.status_message, "No message to copy");

    app.handle_normal_key(KeyMods::Plain, Key::Char('/'));
    assert_eq!(app.input.buffer, "/");
    assert_eq!(app.input.cursor, 1);
    assert_eq!(app.input.mode, InputMode::Insert);
    assert!(app.input.autocomplete_visible);
    assert_eq!(app.input.autocomplete_candidates.len(), 9);
}

#[test]
fn insert_mode_and_completion_keys() {
    let mut app = app_with(&[]);
    assert!(app.handle_insert_key_at(KeyMods::Plain, Key::Char('/'), 1).is_none());
    assert!(app.input.autocomplete_visible);
    app.handle_insert_key_at(KeyMods::Plain, Key::Char('S'), 1);
    assert_eq!(app.input.autocomplete_candidates, vec![2, 6]);
    let (taken, sent) = app.handle_overlay_key_at(Key::Down, 1);
    assert!(taken && sent.is_none());
    assert_eq!(app.input.autocomplete_index, 1);
    app.handle_overlay_key_at(Key::Down, 1);
    assert_eq!(app.input.autocomplete_index, 0);
    app.handle_overlay_key_at(Key::Up, 1);
    assert_eq!(app.input.autocomplete_index, 1);
    app.handle_overlay_key_at(Key::Tab, 1);
    assert_eq!(app.input.buffer, "/settings");
    assert!(!app.input.autocomplete_visible);

    app.input.clear();
    app.handle_insert_key_at(KeyMods::Plain, Key::Char('/'), 1);
    app.handle_insert_key_at(KeyMods::Plain, Key::Char('h'), 1);
    let (taken, sent) = app.handle_overlay_key_at(Key::Enter, 1);
    assert!(taken && sent.is_none());
    assert!(app.overlays.show_help);
    assert_eq!(app.input.buffer, "");
    assert_eq!(app.input.history, vec!["/help".to_string()]);
    assert_eq!(app.handle_overlay_key_at(Key::Char('x'), 1), (true, None));
    assert!(!app.overlays.show_help);
    assert_eq!(app.handle_overlay_key_at(Key::Char('x'), 1), (false, None));

    app.handle_insert_key_at(KeyMods::Plain, Key::Char('/'), 1);
    app.handle_overlay_key_at(Key::Esc, 1);
    assert!(!app.input.autocomplete_visible);
    assert_eq!(app.input.buffer, "/");
    app.handle_insert_key_at(KeyMods::Plain, Key::Backspace, 1);
    assert_eq!(app.input.buffer, "");
    app.handle_insert_key_at(KeyMods::Plain, Key::Esc, 1);
    assert_eq!(app.input.mode, InputMode::Normal);
}

#[test]
fn settings_overlay() {
    let mut app = app_with(&[]);
    app.overlays.show_settings = true;
    assert_eq!(setting_label(0), "Direct message notifications");
    assert_eq!(setting_label(8), "Verbose reactions");
    assert_eq!(setting_label(9), "");
    let defaults = [true, true, true, true, false, true, true, false, false];
    for (index, expected) in defaults.iter().enumerate() {
        assert_eq!(app.setting_value(index), *expected);
    }
    assert!(!app.setting_value(9));
    for index in 0..9 {
        app.toggle_setting(index);
        assert_eq!(app.setting_value(index), !defaults[index]);
        for other in 0..9 {
            if other > index {
                assert_eq!(app.setting_value(other), defaults[other]);
            }
        }
    }
    app.toggle_setting(9);
    app.handle_overlay_key_at(Key::Char('k'), 1);
    assert_eq!(app.overlays.settings_index, 0);
    for _ in 0..12 {
        app.handle_overlay_key_at(Key::Down, 1);
    }
    assert_eq!(app.overlays.settings_index, 8);
    app.handle_overlay_key_at(Key::Char(' '), 1);
    assert!(!app.setting_value(8));
    app.handle_overlay_key_at(Key::Up, 1);
    app.handle_overlay_key_at(Key::Enter, 1);
    assert!(!app.setting_value(7));
    app.handle_overlay_key_at(Key::Char('q'), 1);
    assert!(!app.overlays.show_settings);
    assert!(app.overlays.pending_settings_save);
    let mut config = Config::with_download_dir("/d".to_string());
    app.save_settings(&mut config);
    assert_eq!(config.account, "+10");
    assert!(!config.notify_direct && !config.notify_group && !config.inline_images);
    assert!(config.native_images && !config.show_receipts && !config.color_receipts);
    assert!(!config.nerd_fonts && !config.reaction_verbose);
    assert_eq!(config.download_dir, "/d");
}

#[test]
fn contacts_overlay_lists_sorted_and_filtered() {
    let mut app = app_with(&[]);
    for (number, name) in [("+3", "carol"), ("+1", "Bob"), ("+4", ""), ("+2", "alice"), ("+5", "Bo")] {
        app.core.contact_names.insert(number.to_string(), name.to_string());
    }
    app.input.buffer = "/contacts".to_string();
    app.handle_input_at(1);
    assert!(app.overlays.show_contacts);
    let listed: Vec<&str> = app.overlays.contacts_filtered.iter().map(|c| c.1.as_str()).collect();
    assert_eq!(listed, vec!["alice", "Bo", "Bob", "carol"]);

    app.handle_overlay_key_at(Key::Char('j'), 1);
    app.handle_overlay_key_at(Key::Down, 1);
    app.handle_overlay_key_at(Key::Down, 1);
    app.handle_overlay_key_at(Key::Down, 1);
    assert_eq!(app.overlays.contacts_index, 3);
    app.handle_overlay_key_at(Key::Char('B'), 1);
    assert_eq!(app.overlays.contacts_filter, "B");
    let listed: Vec<&str> = app.overlays.contacts_filtered.iter().map(|c| c.1.as_str()).collect();
    assert_eq!(listed, vec!["Bo", "Bob"]);
    assert_eq!(app.overlays.contacts_index, 1);
    app.handle_overlay_key_at(Key::Char('3'), 1);
    assert!(app.overlays.contacts_filtered.is_empty());
    assert_eq!(app.overlays.contacts_index, 0);
    app.handle_overlay_key_at(Key::Backspace, 1);
    app.handle_overlay_key_at(Key::Backspace, 1);
    app.handle_overlay_key_at(Key::Backspace, 1);
    assert_eq!(app.overlays.contacts_filter, "");
    app.handle_overlay_key_at(Key::Char('+'), 1);
    app.handle_overlay_key_at(Key::Char('3'), 1);
    let listed: Vec<&str> = app.overlays.contacts_filtered.iter().map(|c| c.0.as_str()).collect();
    assert_eq!(listed, vec!["+3"]);
    app.handle_overlay_key_at(Key::Enter, 1);
    assert!(!app.overlays.show_contacts);
    assert_eq!(app.overlays.contacts_filter, "");
    assert_eq!(app.core.active_conversation.as_deref(), Some("+3"));
    assert_eq!(app.core.conversations.get("+3").unwrap().name, "+3");
    app.open_contacts();
    app.handle_overlay_key_at(Key::Esc, 1);
    assert!(!app.overlays.show_contacts);
}

#[test]
fn reaction_picker_sends_the_picked_emoji() {
    let mut app = app_with(&[("+1", "Alice", false)]);
    app.core.contact_names.insert("+1".to_string(), "Alice".to_string());
    app.core.active_conversation = Some("+1".to_string());
    push(&mut app, "+1", entry("Alice", 11, false));
    push(&mut app, "+1", entry("you", 22, false));
    assert_eq!(quick_reaction(0), Some("\u{1f44d}"));
    assert_eq!(quick_reaction(7), Some("\u{1f525}"));
    assert_eq!(quick_reaction(8), None);

    app.overlays.show_reaction_picker = true;
    app.handle_overlay_key_at(Key::Char('h'), 1);
    assert_eq!(app.overlays.reaction_picker_index, 0);
    for _ in 0..9 {
        app.handle_overlay_key_at(Key::Right, 1);
    }
    assert_eq!(app.overlays.reaction_picker_index, 7);
    app.handle_overlay_key_at(Key::Left, 1);
    let (taken, sent) = app.handle_overlay_key_at(Key::Enter, 1);
    assert!(taken);
    match sent {
        Some(SendRequest::Reaction { conv_id, emoji, is_group, target_author, target_timestamp, remove }) => {
            assert_eq!(conv_id, "+1");
            assert_eq!(emoji, "\u{1f64f}");
            assert!(!is_group);
            assert_eq!(target_author, "+10");
            assert_eq!(target_timestamp, 22);
            assert!(!remove);
        }
        other => panic!("unexpected {:?}", other),
    }
    assert!(!app.overlays.show_reaction_picker);

    app.screen.scroll_offset = 1;
    app.overlays.show_reaction_picker = true;
    let (_, sent) = app.handle_overlay_key_at(Key::Char('3'), 1);
    match sent {
        Some(SendRequest::Reaction { emoji, target_author, target_timestamp, .. }) => {
            assert_eq!(emoji, "\u{2764}\u{fe0f}");
            assert_eq!(target_author, "+1");
            assert_eq!(target_timestamp, 11);
        }
        other => panic!("unexpected {:?}", other),
    }
    assert_eq!(app.overlays.reaction_picker_index, 2);
    app.overlays.show_reaction_picker = true;
    app.handle_overlay_key_at(Key::Char('1'), 1);
    let messages = &app.core.conversations.get("+1").unwrap().messages;
    assert_eq!(
        messages[0].reactions,
        vec![Reaction { emoji: "\u{1f44d}".to_string(), sender: "you".to_string() }]
    );
    assert_eq!(
        app.core.db_ops[2],
        DbOp::UpsertReaction {
            conv_id: "+1".to_string(),
            target_ts_ms: 11,
            target_author: "+1".to_string(),
            sender: "you".to_string(),
            emoji: "\u{1f44d}".to_string(),
        }
    );
    app.overlays.show_reaction_picker = true;
    app.handle_overlay_key_at(Key::Esc, 1);
    assert!(!app.overlays.show_reaction_picker);
    app.core.active_conversation = None;
    assert!(app.prepare_reaction_send().is_none());
}
