use signal_tui::config::{default_signal_cli_path, Config};
use signal_tui::image_render::{choose_protocol, ImageProtocol};
use signal_tui::signal::json::Json;
use signal_tui::signal::types::MessageStatus;
use signal_tui::strmap::StrMap;
use signal_tui::text;

#[test]
fn status_numbers_round_trip() {
    let all = [
        (MessageStatus::Failed, 1),
        (MessageStatus::Sending, 2),
        (MessageStatus::Sent, 3),
        (MessageStatus::Delivered, 4),
        (MessageStatus::Read, 5),
        (MessageStatus::Viewed, 6),
    ];
    for (status, number) in all {
        assert_eq!(status.to_i32(), number);
        assert_eq!(MessageStatus::from_i32(number), Some(status));
    }
    assert_eq!(MessageStatus::from_i32(0), None);
    assert_eq!(MessageStatus::from_i32(7), None);
    assert_eq!(MessageStatus::from_i32(-1), None);
}

#[test]
fn status_order_and_raise() {
    assert!(MessageStatus::Failed < MessageStatus::Sending);
    assert!(MessageStatus::Sending < MessageStatus::Sent);
    assert!(MessageStatus::Sent < MessageStatus::Delivered);
    assert!(MessageStatus::Delivered < MessageStatus::Read);
    assert!(MessageStatus::Read < MessageStatus::Viewed);
    assert_eq!(MessageStatus::Sent.raise(MessageStatus::Read), MessageStatus::Read);
    assert_eq!(MessageStatus::Read.raise(MessageStatus::Delivered), MessageStatus::Read);
    assert_eq!(MessageStatus::Read.raise(MessageStatus::Read), MessageStatus::Read);
    assert_eq!(MessageStatus::Failed.raise(MessageStatus::Sending), MessageStatus::Sending);
}

#[test]
fn trimming() {
    assert_eq!(text::trim("  a b \n"), "a b");
    assert_eq!(text::trim("\u{a0}x\u{2003}"), "x");
    assert_eq!(text::trim(""), "");
    assert_eq!(text::trim(" \t "), "");
    assert_eq!(text::trim("x"), "x");
}

#[test]
fn searching() {
    assert!(text::contains_exec("hello world", "lo w"));
    assert!(text::contains_exec("hello", ""));
    assert!(text::contains_exec("", ""));
    assert!(!text::contains_exec("hello", "world"));
    assert!(!text::contains_exec("ab", "abc"));
    assert!(text::starts_with("/join x", "/join"));
    assert!(!text::starts_with("/jo", "/join"));
    assert!(text::ends_with("photo.jpg", ".jpg"));
    assert!(!text::ends_with("jpg", ".jpg"));
    let v: Vec<char> = "a.b.c".chars().collect();
    assert_eq!(text::find_char_exec(&v, '.'), 1);
    assert_eq!(text::find_char_exec(&v, 'z'), 5);
    assert_eq!(text::rfind_char_exec(&v, '.'), Some(3));
    assert_eq!(text::rfind_char_exec(&v, 'z'), None);
    let pat: Vec<char> = "b.".chars().collect();
    assert_eq!(text::find_from_exec(&v, &pat, 0), 2);
    assert_eq!(text::find_from_exec(&v, &pat, 3), 5);
}

#[test]
fn characters_and_pieces() {
    let v = text::chars("h\u{e9}llo");
    assert_eq!(v, vec!['h', '\u{e9}', 'l', 'l', 'o']);
    assert_eq!(text::from_chars(&v, 1, 3), "\u{e9}l");
    assert_eq!(text::sub(&v, 3, 5), vec!['l', 'o']);
    assert_eq!(text::concat("ab", "cd"), "abcd");
    assert_eq!(text::concat3("a", "", "c"), "ac");
    let words: Vec<char> = "ab  cd".chars().collect();
    assert_eq!(text::forward_over_exec(&words, 0, false), 2);
    assert_eq!(text::forward_over_exec(&words, 2, true), 4);
    assert_eq!(text::back_over_exec(&words, 4, true), 2);
    assert_eq!(text::back_over_exec(&words, 2, false), 0);
}

#[test]
fn json_accessors() {
    let value = Json::Object(vec![
        ("a".to_string(), Json::Int(1)),
        ("b".to_string(), Json::Text("x".to_string())),
        ("a".to_string(), Json::Int(2)),
        ("n".to_string(), Json::Null),
    ]);
    assert_eq!(value.get("a"), Some(&Json::Int(1)));
    assert_eq!(value.get("n"), Some(&Json::Null));
    assert_eq!(value.get("z"), None);
    assert_eq!(value.get_i64("a"), Some(1));
    assert_eq!(value.get_i64("b"), None);
    assert_eq!(value.get_str("b"), Some("x"));
    assert_eq!(value.get_str("a"), None);
    assert_eq!(Json::Int(3).get("a"), None);
    assert_eq!(Json::Number.as_i64(), None);
    assert_eq!(Json::Bool(true).as_str(), None);
    assert_eq!(Json::Array(vec![Json::Null]).as_array().map(|a| a.len()), Some(1));
    assert!(Json::Text("x".to_string()).as_array().is_none());
    assert_eq!(value.as_object().map(|m| m.len()), Some(4));
}

#[test]
fn string_map_keeps_order_and_single_keys() {
    let mut map: StrMap<u32> = StrMap::new();
    assert_eq!(map.insert("b".to_string(), 1), None);
    assert_eq!(map.insert("a".to_string(), 2), None);
    assert_eq!(map.insert("b".to_string(), 3), Some(1));
    assert_eq!(map.len(), 2);
    assert_eq!(map.find("b"), Some(0));
    assert_eq!(map.find("a"), Some(1));
    assert_eq!(map.get("b"), Some(&3));
    assert!(map.contains_key("a"));
    assert_eq!(map.remove("b"), Some(3));
    assert_eq!(map.remove("b"), None);
    assert_eq!(map.find("a"), Some(0));
    assert!(!map.is_empty());
}

#[test]
fn config_defaults() {
    assert_eq!(default_signal_cli_path(), "signal-cli");
    let mut config = Config::with_download_dir("/tmp/downloads".to_string());
    assert!(config.needs_setup());
    assert_eq!(config.signal_cli_path, "signal-cli");
    assert_eq!(config.download_dir, "/tmp/downloads");
    assert!(config.notify_direct && config.notify_group && config.inline_images);
    config.account = "+1".to_string();
    assert!(!config.needs_setup());
}

#[test]
fn image_protocols() {
    assert_eq!(choose_protocol(true, Some("iTerm.app")), ImageProtocol::Kitty);
    assert_eq!(choose_protocol(false, Some("ghostty")), ImageProtocol::Kitty);
    assert_eq!(choose_protocol(false, Some("iTerm.app")), ImageProtocol::Iterm2);
    assert_eq!(choose_protocol(false, Some("WezTerm")), ImageProtocol::Iterm2);
    assert_eq!(choose_protocol(false, Some("xterm")), ImageProtocol::Halfblock);
    assert_eq!(choose_protocol(false, None), ImageProtocol::Halfblock);
}
