use signal_tui::app::{App, Key};
use signal_tui::input::commands;

fn test_app() -> App {
    let mut app = App::new("+10000000000".to_string());
    app.set_connected();
    app
}

#[test]
fn autocomplete_slash_prefix() {
    let mut app = test_app();
    app.input.buffer = "/".to_string();
    app.update_autocomplete();
    assert!(app.input.autocomplete_visible);
    assert!(!app.input.autocomplete_candidates.is_empty());
}

#[test]
fn autocomplete_prefix_filtering() {
    let mut app = test_app();
    app.input.buffer = "/jo".to_string();
    app.update_autocomplete();
    assert!(app.input.autocomplete_visible);
    assert_eq!(app.input.autocomplete_candidates.len(), 1);
    assert_eq!(commands()[app.input.autocomplete_candidates[0]].name, "/join");
}

#[test]
fn autocomplete_non_slash_hidden() {
    let mut app = test_app();
    app.input.buffer = "hello".to_string();
    app.update_autocomplete();
    assert!(!app.input.autocomplete_visible);
    assert!(app.input.autocomplete_candidates.is_empty());
}

#[test]
fn autocomplete_space_hides() {
    let mut app = test_app();
    app.input.buffer = "/join ".to_string();
    app.update_autocomplete();
    assert!(!app.input.autocomplete_visible);
}

#[test]
fn autocomplete_no_match() {
    let mut app = test_app();
    app.input.buffer = "/zzz".to_string();
    app.update_autocomplete();
    assert!(!app.input.autocomplete_visible);
    assert!(app.input.autocomplete_candidates.is_empty());
}

#[test]
fn apply_autocomplete_trailing_space_for_arg_command() {
    let mut app = test_app();
    app.input.buffer = "/jo".to_string();
    app.update_autocomplete();
    app.apply_autocomplete();
    assert_eq!(app.input.buffer, "/join ");
    assert_eq!(app.input.cursor, 6);
}

#[test]
fn apply_autocomplete_no_space_for_no_arg_command() {
    let mut app = test_app();
    app.input.buffer = "/pa".to_string();
    app.update_autocomplete();
    app.apply_autocomplete();
    assert_eq!(app.input.buffer, "/part");
    assert_eq!(app.input.cursor, 5);
}

#[test]
fn apply_autocomplete_index_clamped() {
    let mut app = test_app();
    app.input.buffer = "/".to_string();
    app.update_autocomplete();
    let len = app.input.autocomplete_candidates.len();
    app.input.autocomplete_index = len + 5;
    app.update_autocomplete();
    assert!(app.input.autocomplete_index < app.input.autocomplete_candidates.len());
}

#[test]
fn input_edit_char_insert() {
    let mut app = test_app();
    assert!(app.apply_input_edit(Key::Char('a')));
    assert!(app.apply_input_edit(Key::Char('b')));
    assert_eq!(app.input.buffer, "ab");
    assert_eq!(app.input.cursor, 2);
}

#[test]
fn input_edit_backspace() {
    let mut app = test_app();
    app.input.buffer = "abc".to_string();
    app.input.cursor = 3;
    assert!(app.apply_input_edit(Key::Backspace));
    assert_eq!(app.input.buffer, "ab");
    assert_eq!(app.input.cursor, 2);
}

#[test]
fn input_edit_delete() {
    let mut app = test_app();
    app.input.buffer = "abc".to_string();
    app.input.cursor = 1;
    assert!(app.apply_input_edit(Key::Delete));
    assert_eq!(app.input.buffer, "ac");
    assert_eq!(app.input.cursor, 1);
}

#[test]
fn input_edit_left_right() {
    let mut app = test_app();
    app.input.buffer = "abc".to_string();
    app.input.cursor = 2;
    assert!(app.apply_input_edit(Key::Left));
    assert_eq!(app.input.cursor, 1);
    assert!(app.apply_input_edit(Key::Right));
    assert_eq!(app.input.cursor, 2);
}

#[test]
fn input_edit_home_end() {
    let mut app = test_app();
    app.input.buffer = "abc".to_string();
    app.input.cursor = 1;
    assert!(app.apply_input_edit(Key::Home));
    assert_eq!(app.input.cursor, 0);
    assert!(app.apply_input_edit(Key::End));
    assert_eq!(app.input.cursor, 3);
}

#[test]
fn input_edit_unhandled_key() {
    let mut app = test_app();
    assert!(!app.apply_input_edit(Key::F(1)));
}

#[test]
fn history_up_empty_is_noop() {
    let mut app = test_app();
    app.input.buffer = "draft".to_string();
    app.history_up();
    assert_eq!(app.input.buffer, "draft");
    assert_eq!(app.input.history_index, None);
}

#[test]
fn history_down_without_browsing_is_noop() {
    let mut app = test_app();
    app.input.buffer = "draft".to_string();
    app.history_down();
    assert_eq!(app.input.buffer, "draft");
    assert_eq!(app.input.history_index, None);
}

#[test]
fn history_up_recalls_last_entry() {
    let mut app = test_app();
    app.input.history = vec!["hello".to_string(), "world".to_string()];
    app.input.buffer = "draft".to_string();
    app.input.cursor = 5;

    app.history_up();
    assert_eq!(app.input.buffer, "world");
    assert_eq!(app.input.history_index, Some(1));
    assert_eq!(app.input.history_draft, "draft");
    assert_eq!(app.input.cursor, 5);
}

#[test]
fn history_up_walks_to_oldest() {
    let mut app = test_app();
    app.input.history = vec!["first".to_string(), "second".to_string(), "third".to_string()];
    app.input.buffer = String::new();

    app.history_up();
    assert_eq!(app.input.buffer, "third");
    assert_eq!(app.input.history_index, Some(2));

    app.history_up();
    assert_eq!(app.input.buffer, "second");
    assert_eq!(app.input.history_index, Some(1));

    app.history_up();
    assert_eq!(app.input.buffer, "first");
    assert_eq!(app.input.history_index, Some(0));

    app.history_up();
    assert_eq!(app.input.buffer, "first");
    assert_eq!(app.input.history_index, Some(0));
}

#[test]
fn history_down_walks_forward_and_restores_draft() {
    let mut app = test_app();
    app.input.history = vec!["aaa".to_string(), "bbb".to_string()];
    app.input.buffer = "my draft".to_string();

    app.history_up();
    app.history_up();
    assert_eq!(app.input.buffer, "aaa");
    assert_eq!(app.input.history_index, Some(0));

    app.history_down();
    assert_eq!(app.input.buffer, "bbb");
    assert_eq!(app.input.history_index, Some(1));

    app.history_down();
    assert_eq!(app.input.buffer, "my draft");
    assert_eq!(app.input.history_index, None);
}

#[test]
fn history_cursor_moves_to_end() {
    let mut app = test_app();
    app.input.history = vec!["short".to_string(), "a longer entry".to_string()];
    app.input.buffer = String::new();
    app.input.cursor = 0;

    app.history_up();
    assert_eq!(app.input.cursor, 14);

    app.history_up();
    assert_eq!(app.input.cursor, 5);

    app.history_down();
    assert_eq!(app.input.cursor, 14);

    app.history_down();
    assert_eq!(app.input.cursor, 0);
}

#[test]
fn handle_input_saves_to_history() {
    let mut app = test_app();
    app.core.get_or_create_conversation("+1", "Alice", false);
    app.core.active_conversation = Some("+1".to_string());

    app.input.buffer = "hello".to_string();
    app.input.cursor = 5;
    app.handle_input();
    assert_eq!(app.input.history, vec!["hello".to_string()]);
    assert_eq!(app.input.history_index, None);

    app.input.buffer = "world".to_string();
    app.input.cursor = 5;
    app.handle_input();
    assert_eq!(app.input.history, vec!["hello".to_string(), "world".to_string()]);
}

#[test]
fn handle_input_trims_and_skips_empty() {
    let mut app = test_app();
    app.core.get_or_create_conversation("+1", "Alice", false);
    app.core.active_conversation = Some("+1".to_string());

    app.input.buffer = "   ".to_string();
    app.handle_input();
    assert!(app.input.history.is_empty());

    app.input.buffer = "  hello  ".to_string();
    app.input.cursor = 9;
    app.handle_input();
    assert_eq!(app.input.history, vec!["hello".to_string()]);
}

#[test]
fn handle_input_resets_history_index() {
    let mut app = test_app();
    app.core.get_or_create_conversation("+1", "Alice", false);
    app.core.active_conversation = Some("+1".to_string());

    app.input.history = vec!["old".to_string()];
    app.input.history_index = Some(0);
    app.input.buffer = "new".to_string();
    app.input.cursor = 3;
    app.handle_input();

    assert_eq!(app.input.history_index, None);
}

#[test]
fn apply_input_edit_up_down_routes_to_history() {
    let mut app = test_app();
    app.input.history = vec!["recalled".to_string()];
    app.input.buffer = "draft".to_string();

    assert!(app.apply_input_edit(Key::Up));
    assert_eq!(app.input.buffer, "recalled");

    assert!(app.apply_input_edit(Key::Down));
    assert_eq!(app.input.buffer, "draft");
}
