use signal_tui::input::{parse_input, InputAction};


#[test]
fn plain_text() {
    let InputAction::SendText(s) = parse_input("hello world") else { panic!("expected SendText") };
    assert_eq!(s, "hello world");
}

#[test]
fn empty_input() {
    let InputAction::SendText(s) = parse_input("") else { panic!("expected SendText") };
    assert!(s.is_empty());
}

#[test]
fn whitespace_only() {
    let InputAction::SendText(s) = parse_input("   ") else { panic!("expected SendText") };
    assert!(s.is_empty());
}

#[test]
fn trimmed_text() {
    let InputAction::SendText(s) = parse_input("  hello  ") else { panic!("expected SendText") };
    assert_eq!(s, "hello");
}

#[test]
fn join_with_arg() {
    let InputAction::Join(s) = parse_input("/join Alice") else { panic!("expected Join") };
    assert_eq!(s, "Alice");
}

#[test]
fn join_alias() {
    let InputAction::Join(s) = parse_input("/j +1234567890") else { panic!("expected Join") };
    assert_eq!(s, "+1234567890");
}

#[test]
fn join_without_arg() {
    let InputAction::Unknown(s) = parse_input("/join") else { panic!("expected Unknown") };
    assert!(s.contains("requires"));
}

#[test]
fn part_command() {
    assert!(matches!(parse_input("/part"), InputAction::Part));
}

#[test]
fn part_alias() {
    assert!(matches!(parse_input("/p"), InputAction::Part));
}

#[test]
fn quit_command() {
    assert!(matches!(parse_input("/quit"), InputAction::Quit));
}

#[test]
fn quit_alias() {
    assert!(matches!(parse_input("/q"), InputAction::Quit));
}

#[test]
fn sidebar_command() {
    assert!(matches!(parse_input("/sidebar"), InputAction::ToggleSidebar));
}

#[test]
fn sidebar_alias() {
    assert!(matches!(parse_input("/sb"), InputAction::ToggleSidebar));
}

#[test]
fn bell_no_arg() {
    let InputAction::ToggleBell(None) = parse_input("/bell") else { panic!("expected ToggleBell(None)") };
}

#[test]
fn bell_with_arg() {
    let InputAction::ToggleBell(Some(s)) = parse_input("/bell direct") else { panic!("expected ToggleBell(Some)") };
    assert_eq!(s, "direct");
}

#[test]
fn notify_alias() {
    let InputAction::ToggleBell(Some(s)) = parse_input("/notify group") else { panic!("expected ToggleBell(Some)") };
    assert_eq!(s, "group");
}

#[test]
fn mute_command() {
    assert!(matches!(parse_input("/mute"), InputAction::ToggleMute));
}

#[test]
fn settings_command() {
    assert!(matches!(parse_input("/settings"), InputAction::Settings));
}

#[test]
fn contacts_command() {
    assert!(matches!(parse_input("/contacts"), InputAction::Contacts));
}

#[test]
fn contacts_alias() {
    assert!(matches!(parse_input("/c"), InputAction::Contacts));
}

#[test]
fn help_command() {
    assert!(matches!(parse_input("/help"), InputAction::Help));
}

#[test]
fn help_alias() {
    assert!(matches!(parse_input("/h"), InputAction::Help));
}

#[test]
fn unknown_command() {
    let InputAction::Unknown(s) = parse_input("/foo") else { panic!("expected Unknown") };
    assert!(s.contains("/foo"));
}
