use signal_tui::app::{App, Conversation, DbOp, DisplayMessage, InputMode, Key, KeyMods, SendRequest};
use signal_tui::cli::{parse_args, usage, CliOptions, CliOutcome};
use signal_tui::config::Config;
use signal_tui::link::linking_uri;
use signal_tui::setup::{LinkOutcome, Step, TextField, Wizard};
use signal_tui::signal::client::PendingRequests;
use signal_tui::signal::types::{MessageStatus, Reaction, SignalEvent};
use signal_tui::text::decimal;
use signal_tui::ui::{group_reactions, ReactionGroup};

fn entry(sender: &str, timestamp_ms: i64) -> DisplayMessage {
    DisplayMessage {
        sender: sender.to_string(),
        timestamp: 0,
        body: "b".to_string(),
        is_system: false,
        image_path: None,
        status: None,
        timestamp_ms,
        reactions: Vec::new(),
    }
}

fn reaction(emoji: &str, sender: &str) -> Reaction {
    Reaction { emoji: emoji.to_string(), sender: sender.to_string() }
}

fn press(wizard: &mut Wizard, key: Key) -> bool {
    wizard.handle_key(KeyMods::Plain, key)
}

fn type_text(wizard: &mut Wizard, text: &str) {
    for c in text.chars() {
        assert!(press(wizard, Key::Char(c)));
    }
}

#[test]
fn decimal_digits() {
    assert_eq!(decimal(0), "0");
    assert_eq!(decimal(7), "7");
    assert_eq!(decimal(10), "10");
    assert_eq!(decimal(1234567890), "1234567890");
    assert_eq!(decimal(usize::MAX), usize::MAX.to_string());
}

#[test]
fn window_title_counts_unread() {
    let mut app = App::new("+10".to_string());
    assert_eq!(app.window_title(), "signal-tui");
    for (id, unread) in [("a", 3usize), ("b", 0), ("c", 9)] {
        let index = app.core.get_or_create_conversation(id, id, false);
        app.core.conversations.entries[index].1.unread = unread;
    }
    assert_eq!(app.total_unread(), 12);
    assert_eq!(app.window_title(), "signal-tui (12)");
    app.core.conversations.entries[0].1.unread = usize::MAX;
    assert_eq!(app.total_unread(), usize::MAX);
}

#[test]
fn queues_are_handed_out_once() {
    let mut app = App::new("+10".to_string());
    app.core.get_or_create_conversation("a", "A", false);
    app.core.pending_bell = true;
    let ops = app.take_db_ops();
    assert_eq!(
        ops,
        vec![DbOp::UpsertConversation { id: "a".to_string(), name: "A".to_string(), is_group: false }]
    );
    assert!(app.take_db_ops().is_empty());
    assert!(app.take_bell());
    assert!(!app.take_bell());
    app.set_connected();
    app.set_disconnected("gone".to_string());
    app.set_disconnected("again".to_string());
    assert!(!app.connected);
    assert_eq!(app.connection_error.as_deref(), Some("gone"));
}

#[test]
fn validity_checks() {
    let mut app = App::new("+10".to_string());
    assert!(app.is_wf());
    app.input.cursor = 1;
    assert!(!app.is_wf());
    app.input.buffer = "\u{e9}".to_string();
    assert!(app.is_wf());
    app.input.history_index = Some(0);
    assert!(!app.is_wf());
    app.input.history.push("x".to_string());
    assert!(app.is_wf());

    let index = app.core.get_or_create_conversation("a", "A", false);
    let mut message = entry("x", 1);
    message.reactions = vec![reaction("1", "Bob"), reaction("2", "Eve")];
    app.core.conversations.entries[index].1.messages.push(message);
    assert!(app.is_wf());
    app.core.conversations.entries[index].1.messages[0].reactions.push(reaction("3", "Bob"));
    assert!(!app.core.conversations.entries[index].1.is_wf());
    assert!(!app.is_wf());
    app.core.conversations.entries[index].1.messages[0].reactions.pop();

    let double = Conversation {
        name: "B".to_string(),
        id: "a".to_string(),
        messages: vec![],
        unread: 0,
        is_group: false,
    };
    app.core.conversations.entries.push(("a".to_string(), double));
    assert!(!app.core.conversations.is_wf());
    assert!(!app.is_wf());
    app.core.conversations.entries.pop();
    app.screen.last_read_index.entries.push(("k".to_string(), 1));
    app.screen.last_read_index.entries.push(("k".to_string(), 2));
    assert!(!app.is_wf());

    let mut pending = PendingRequests::new();
    assert!(pending.is_wf());
    pending.methods.entries.push(("i".to_string(), "send".to_string()));
    pending.methods.entries.push(("i".to_string(), "send".to_string()));
    assert!(!pending.is_wf());
}

#[test]
fn reactions_are_grouped_by_emoji_in_order() {
    let reactions = vec![
        reaction("\u{2764}", "Bob"),
        reaction("\u{1f44d}", "Eve"),
        reaction("\u{2764}", "Ann"),
        reaction("!", "Joe"),
        reaction("\u{1f44d}", "Bob2"),
    ];
    assert_eq!(
        group_reactions(&reactions),
        vec![
            ReactionGroup { emoji: "!".to_string(), senders: vec!["Joe".to_string()] },
            ReactionGroup {
                emoji: "\u{2764}".to_string(),
                senders: vec!["Bob".to_string(), "Ann".to_string()]
            },
            ReactionGroup {
                emoji: "\u{1f44d}".to_string(),
                senders: vec!["Eve".to_string(), "Bob2".to_string()]
            },
        ]
    );
    assert!(group_reactions(&vec![]).is_empty());
    let mut sorted: Vec<String> = reactions.iter().map(|r| r.emoji.clone()).collect();
    sorted.sort();
    sorted.dedup();
    let grouped: Vec<String> = group_reactions(&reactions).into_iter().map(|g| g.emoji).collect();
    assert_eq!(grouped, sorted);
}

#[test]
fn linking_uris() {
    assert_eq!(linking_uri("  tsdevice:/?uuid=1 \n").as_deref(), Some("tsdevice:/?uuid=1"));
    assert_eq!(linking_uri("sgnl://linkdevice?x").as_deref(), Some("sgnl://linkdevice?x"));
    assert_eq!(linking_uri("INFO tsdevice:/"), None);
    assert_eq!(linking_uri(""), None);
}

#[test]
fn text_field_editing() {
    let mut field = TextField::new();
    for key in [Key::Char('a'), Key::Char('c'), Key::Left, Key::Char('b')] {
        field.edit(key);
    }
    assert_eq!((field.text.as_str(), field.cursor), ("abc", 2));
    field.edit(Key::Right);
    field.edit(Key::Right);
    assert_eq!(field.cursor, 3);
    field.edit(Key::Backspace);
    assert_eq!((field.text.as_str(), field.cursor), ("ab", 2));
    field.edit(Key::Left);
    field.edit(Key::Left);
    field.edit(Key::Left);
    field.edit(Key::Backspace);
    field.edit(Key::Enter);
    assert_eq!((field.text.as_str(), field.cursor), ("ab", 0));
}

#[test]
fn wizard_walks_through_the_steps() {
    let mut wizard = Wizard::new(Config::with_download_dir("/d".to_string()));
    assert_eq!(wizard.step, Step::SignalCli);
    assert!(!wizard.advance_from_cli());

    wizard.cli_checked(false, String::new());
    assert!(press(&mut wizard, Key::Char('p')));
    assert!(wizard.custom_path_mode);
    assert!(press(&mut wizard, Key::Enter));
    assert!(wizard.custom_path_mode);
    type_text(&mut wizard, "/opt/cli");
    assert!(press(&mut wizard, Key::Esc));
    assert!(!wizard.custom_path_mode);
    assert!(press(&mut wizard, Key::Char('p')));
    assert_eq!(wizard.custom_path.text, "");
    type_text(&mut wizard, "/opt/signal-cli");
    assert!(press(&mut wizard, Key::Enter));
    assert_eq!(wizard.signal_cli_path, "/opt/signal-cli");
    assert!(!wizard.custom_path_mode && !wizard.signal_cli_found);

    wizard.cli_checked(true, "/opt/signal-cli (1.0)".to_string());
    assert!(press(&mut wizard, Key::Enter));
    assert!(!wizard.signal_cli_found);
    wizard.cli_checked(true, "/opt/signal-cli (1.0)".to_string());
    assert!(wizard.advance_from_cli());
    assert_eq!(wizard.step, Step::Account);
    assert_eq!(wizard.config.signal_cli_path, "/opt/signal-cli");

    assert!(press(&mut wizard, Key::Enter));
    assert_eq!(wizard.phone_error.as_deref(), Some("Phone number cannot be empty"));
    type_text(&mut wizard, "+1555");
    assert_eq!(wizard.phone_error, None);
    assert!(press(&mut wizard, Key::Enter));
    assert_eq!(wizard.phone_error.as_deref(), Some("Phone number too short"));
    assert!(press(&mut wizard, Key::Left));
    assert_eq!(wizard.phone_error.as_deref(), Some("Phone number too short"));
    assert!(press(&mut wizard, Key::Right));
    type_text(&mut wizard, "1234567");
    assert!(press(&mut wizard, Key::Enter));
    assert_eq!(wizard.step, Step::Linking);
    assert_eq!(wizard.config.account, "+15551234567");

    assert!(wizard.handle_key(KeyMods::Control, Key::Char('c')));
    wizard.linking_finished(LinkOutcome::FailedRetry);
    assert_eq!(wizard.step, Step::Linking);
    wizard.linking_finished(LinkOutcome::Cancelled);
    assert_eq!(wizard.step, Step::Account);
    wizard.linking_finished(LinkOutcome::Linked);
    assert_eq!(wizard.step, Step::Account);
    assert!(press(&mut wizard, Key::Enter));
    wizard.linking_finished(LinkOutcome::FailedBack);
    assert_eq!(wizard.step, Step::Account);
    assert!(press(&mut wizard, Key::Enter));
    wizard.linking_finished(LinkOutcome::Registered);
    assert_eq!(wizard.step, Step::Preferences);

    assert!(press(&mut wizard, Key::Char('1')));
    assert!(press(&mut wizard, Key::Char('2')));
    assert!(press(&mut wizard, Key::Char('2')));
    assert!(!wizard.config.notify_direct && wizard.config.notify_group);
    assert!(press(&mut wizard, Key::Esc));
    assert_eq!(wizard.step, Step::Linking);
    wizard.linking_finished(LinkOutcome::Linked);
    assert!(press(&mut wizard, Key::Enter));
    assert_eq!(wizard.step, Step::Done);
    assert!(press(&mut wizard, Key::Esc));
    assert_eq!(wizard.step, Step::Done);
}

#[test]
fn wizard_cancels() {
    let config = || Config::with_download_dir("/d".to_string());
    let mut wizard = Wizard::new(config());
    assert!(!press(&mut wizard, Key::Esc));
    assert!(!wizard.handle_key(KeyMods::Control, Key::Char('c')));
    assert!(press(&mut wizard, Key::Char('p')));
    assert!(!wizard.handle_key(KeyMods::Control, Key::Char('c')));
    assert!(wizard.handle_key(KeyMods::Shift, Key::Char('c')));
    assert_eq!(wizard.custom_path.text, "c");

    let mut wizard = Wizard::new(config());
    wizard.cli_checked(true, "x".to_string());
    wizard.advance_from_cli();
    assert!(!wizard.handle_key(KeyMods::Control, Key::Char('c')));
    assert!(press(&mut wizard, Key::Esc));
    assert_eq!(wizard.step, Step::SignalCli);
    assert!(!wizard.signal_cli_found);
}

#[test]
fn keys_go_to_globals_then_overlays_then_the_mode() {
    let mut app = App::new("+10".to_string());
    app.core.get_or_create_conversation("a", "A", false);
    app.overlays.show_help = true;
    assert!(app.handle_key_at(KeyMods::Plain, Key::Tab, 1).is_none());
    assert_eq!(app.core.active_conversation.as_deref(), Some("a"));
    assert!(app.overlays.show_help);
    assert!(app.handle_key_at(KeyMods::Plain, Key::Char('x'), 1).is_none());
    assert!(!app.overlays.show_help);
    assert_eq!(app.input.buffer, "");
    assert!(app.handle_key_at(KeyMods::Plain, Key::Char('h'), 1).is_none());
    assert!(app.handle_key_at(KeyMods::Shift, Key::Char('i'), 1).is_none());
    assert_eq!(app.input.buffer, "hi");
    match app.handle_key_at(KeyMods::Plain, Key::Enter, 42) {
        Some(SendRequest::Message { recipient, body, local_ts_ms, .. }) => {
            assert_eq!((recipient.as_str(), body.as_str(), local_ts_ms), ("a", "hi", 42));
        }
        other => panic!("unexpected {:?}", other),
    }
    assert!(app.handle_key_at(KeyMods::Plain, Key::Esc, 1).is_none());
    assert_eq!(app.input.mode, InputMode::Normal);
    assert!(app.handle_key_at(KeyMods::Plain, Key::Char('k'), 1).is_none());
    assert_eq!(app.screen.scroll_offset, 1);
    assert_eq!(app.input.buffer, "");
}

#[test]
fn handlers_that_read_the_clock() {
    let before = chrono::Utc::now().timestamp_millis();
    let mut app = App::new("+10".to_string());
    app.core.get_or_create_conversation("a", "A", false);
    app.core.active_conversation = Some("a".to_string());

    app.input.buffer = "one".to_string();
    let sent = app.handle_input();
    app.input.buffer = "two".to_string();
    app.input.cursor = 3;
    let second = app.handle_insert_key(KeyMods::Plain, Key::Enter);
    app.input.buffer = "three".to_string();
    app.input.cursor = 5;
    let third = app.handle_key(KeyMods::Plain, Key::Enter);
    let after = chrono::Utc::now().timestamp_millis();
    for request in [sent, second, third] {
        match request {
            Some(SendRequest::Message { local_ts_ms, .. }) => {
                assert!(before <= local_ts_ms && local_ts_ms <= after);
            }
            other => panic!("unexpected {:?}", other),
        }
    }
    let stamps: Vec<i64> =
        app.core.conversations.get("a").unwrap().messages.iter().map(|m| m.timestamp_ms).collect();
    assert_eq!(stamps.len(), 3);
    assert!(stamps.iter().all(|t| before <= *t && *t <= after));
    assert!(app
        .core
        .conversations
        .get("a")
        .unwrap()
        .messages
        .iter()
        .all(|m| m.status == Some(MessageStatus::Sending)));

    app.input.buffer = "/h".to_string();
    app.input.cursor = 2;
    app.update_autocomplete();
    let (taken, sent) = app.handle_overlay_key(Key::Enter);
    assert!(taken && sent.is_none());
    assert!(app.overlays.show_help);
    app.overlays.show_help = false;
    app.input.buffer = "/".to_string();
    app.input.cursor = 1;
    app.update_autocomplete();
    assert!(app.handle_autocomplete_key(Key::Char('q')).is_none());
    assert_eq!(app.input.autocomplete_candidates, vec![8]);

    let typing = |sender: &str| SignalEvent::TypingIndicator {
        sender: sender.to_string(),
        sender_name: None,
        is_typing: true,
    };
    app.handle_signal_event_at(typing("old"), before - 6000);
    app.handle_signal_event(typing("new"));
    let stamp = *app.core.typing_indicators.get("new").unwrap();
    assert!(before <= stamp && stamp <= chrono::Utc::now().timestamp_millis());
    app.cleanup_typing();
    assert_eq!(app.core.typing_indicators.find("old"), None);
    assert!(app.core.typing_indicators.contains_key("new"));
}

fn command_line(args: &[&str]) -> CliOutcome {
    let mut all = vec!["signal-tui".to_string()];
    all.extend(args.iter().map(|a| a.to_string()));
    parse_args(&all)
}

#[test]
fn command_lines() {
    let none = CliOptions {
        config_path: None,
        account: None,
        force_setup: false,
        demo_mode: false,
        incognito: false,
        debug: false,
    };
    assert_eq!(command_line(&[]), CliOutcome::Run(none.clone()));
    assert_eq!(parse_args(&vec![]), CliOutcome::Run(none.clone()));
    assert_eq!(
        command_line(&["-a", "+1", "--config", "c.toml", "--setup", "--account", "+2"]),
        CliOutcome::Run(CliOptions {
            config_path: Some("c.toml".to_string()),
            account: Some("+2".to_string()),
            force_setup: true,
            ..none.clone()
        })
    );
    assert_eq!(
        command_line(&["--demo", "--incognito", "--debug"]),
        CliOutcome::Run(CliOptions { demo_mode: true, incognito: true, debug: true, ..none.clone() })
    );
    assert_eq!(
        command_line(&["-c", "--help"]),
        CliOutcome::Run(CliOptions { config_path: Some("--help".to_string()), ..none })
    );
    assert_eq!(command_line(&["--demo", "--help", "--bogus"]), CliOutcome::Help);
    assert_eq!(
        command_line(&["--bogus", "--help"]),
        CliOutcome::Error("Unknown argument: --bogus".to_string())
    );
    assert_eq!(
        command_line(&["--setup", "-c"]),
        CliOutcome::Error("--config requires a path argument".to_string())
    );
    assert_eq!(
        command_line(&["-a"]),
        CliOutcome::Error("--account requires a phone number".to_string())
    );
    assert_eq!(usage().len(), 12);
    assert_eq!(usage()[2], "Usage: signal-tui [OPTIONS]");
}
