//! The input line: slash commands and plain text.

use vstd::prelude::*;
use crate::model::opt_view;
use crate::text;

verus! {

/// Metadata for a slash command (used for autocomplete and help).
#[derive(Debug, Clone, Copy)]
pub struct CommandInfo {
    pub name: &'static str,
    pub alias: &'static str,
    pub args: &'static str,
    pub description: &'static str,
}

/// The slash commands, in the order in which help and autocomplete show
/// them.
pub open spec fn command_table() -> Seq<CommandInfo> {
    seq![
        CommandInfo {
            name: "/join",
            alias: "/j",
            args: "<name>",
            description: "Switch to a conversation",
        },
        CommandInfo {
            name: "/part",
            alias: "/p",
            args: "",
            description: "Leave current conversation",
        },
        CommandInfo { name: "/sidebar", alias: "/sb", args: "", description: "Toggle sidebar" },
        CommandInfo {
            name: "/bell",
            alias: "",
            args: "[type]",
            description: "Toggle notifications (direct/group)",
        },
        CommandInfo { name: "/mute", alias: "", args: "", description: "Mute/unmute current chat" },
        CommandInfo { name: "/contacts", alias: "/c", args: "", description: "Browse contacts" },
        CommandInfo { name: "/settings", alias: "", args: "", description: "Open settings" },
        CommandInfo { name: "/help", alias: "/h", args: "", description: "Show help" },
        CommandInfo { name: "/quit", alias: "/q", args: "", description: "Exit signal-tui" },
    ]
}

/// The slash commands, in the order in which help and autocomplete show
/// them.
pub fn commands() -> (r: Vec<CommandInfo>)
    ensures
        r@ == command_table(),
{
    let mut r: Vec<CommandInfo> = Vec::new();
    r.push(
        CommandInfo {
            name: "/join",
            alias: "/j",
            args: "<name>",
            description: "Switch to a conversation",
        },
    );
    r.push(
        CommandInfo {
            name: "/part",
            alias: "/p",
            args: "",
            description: "Leave current conversation",
        },
    );
    r.push(CommandInfo { name: "/sidebar", alias: "/sb", args: "", description: "Toggle sidebar" });
    r.push(
        CommandInfo {
            name: "/bell",
            alias: "",
            args: "[type]",
            description: "Toggle notifications (direct/group)",
        },
    );
    r.push(
        CommandInfo { name: "/mute", alias: "", args: "", description: "Mute/unmute current chat" },
    );
    r.push(CommandInfo { name: "/contacts", alias: "/c", args: "", description: "Browse contacts" });
    r.push(CommandInfo { name: "/settings", alias: "", args: "", description: "Open settings" });
    r.push(CommandInfo { name: "/help", alias: "/h", args: "", description: "Show help" });
    r.push(CommandInfo { name: "/quit", alias: "/q", args: "", description: "Exit signal-tui" });
    proof {
        assert(r@ =~= command_table());
    }
    r
}

/// Parsed user input: either a command or plain text to send.
#[derive(Debug)]
pub enum InputAction {
    /// Send text to the current conversation.
    SendText(String),
    /// Switch to a conversation by name or number.
    Join(String),
    /// Leave the current conversation.
    Part,
    /// Quit the application.
    Quit,
    /// Toggle sidebar visibility.
    ToggleSidebar,
    /// Toggle terminal bell notifications (`None`: both kinds, `Some`: one kind).
    ToggleBell(Option<String>),
    /// Mute or unmute the current conversation.
    ToggleMute,
    /// Show help text.
    Help,
    /// Open the settings overlay.
    Settings,
    /// Open the contacts overlay.
    Contacts,
    /// Unknown command, with the message to show.
    Unknown(String),
}

/// What an [`InputAction`] holds.
pub enum InputActionView {
    SendText(Seq<char>),
    Join(Seq<char>),
    Part,
    Quit,
    ToggleSidebar,
    ToggleBell(Option<Seq<char>>),
    ToggleMute,
    Help,
    Settings,
    Contacts,
    Unknown(Seq<char>),
}

impl View for InputAction {
    type V = InputActionView;

    open spec fn view(&self) -> InputActionView {
        match *self {
            InputAction::SendText(s) => InputActionView::SendText(s@),
            InputAction::Join(s) => InputActionView::Join(s@),
            InputAction::Part => InputActionView::Part,
            InputAction::Quit => InputActionView::Quit,
            InputAction::ToggleSidebar => InputActionView::ToggleSidebar,
            InputAction::ToggleBell(o) => InputActionView::ToggleBell(opt_view(o)),
            InputAction::ToggleMute => InputActionView::ToggleMute,
            InputAction::Help => InputActionView::Help,
            InputAction::Settings => InputActionView::Settings,
            InputAction::Contacts => InputActionView::Contacts,
            InputAction::Unknown(s) => InputActionView::Unknown(s@),
        }
    }
}

/// The command word of a line: what stands before the first space.
pub open spec fn command_word(line: Seq<char>) -> Seq<char> {
    line.take(text::find_char(line, ' '))
}

/// The argument of a line: what stands after the first space, without the
/// whitespace around it; empty where the line has no space.
pub open spec fn command_arg(line: Seq<char>) -> Seq<char> {
    let space = text::find_char(line, ' ');
    if space < line.len() {
        text::trimmed(line.skip(space + 1))
    } else {
        Seq::empty()
    }
}

/// The action for a command word and its argument.
pub open spec fn command_action(cmd: Seq<char>, arg: Seq<char>) -> InputActionView {
    if cmd == "/join"@ || cmd == "/j"@ {
        if arg.len() == 0 {
            InputActionView::Unknown("/join requires a contact or group name"@)
        } else {
            InputActionView::Join(arg)
        }
    } else if cmd == "/part"@ || cmd == "/p"@ {
        InputActionView::Part
    } else if cmd == "/quit"@ || cmd == "/q"@ {
        InputActionView::Quit
    } else if cmd == "/sidebar"@ || cmd == "/sb"@ {
        InputActionView::ToggleSidebar
    } else if cmd == "/bell"@ || cmd == "/notify"@ {
        if arg.len() == 0 {
            InputActionView::ToggleBell(None)
        } else {
            InputActionView::ToggleBell(Some(arg))
        }
    } else if cmd == "/mute"@ {
        InputActionView::ToggleMute
    } else if cmd == "/contacts"@ || cmd == "/c"@ {
        InputActionView::Contacts
    } else if cmd == "/settings"@ {
        InputActionView::Settings
    } else if cmd == "/help"@ || cmd == "/h"@ {
        InputActionView::Help
    } else {
        InputActionView::Unknown("Unknown command: "@ + cmd)
    }
}

/// The action for a line of input.
///
/// The line is taken without the whitespace around it. A line that does
/// not begin with `/` is text to send (an empty line is empty text). Any
/// other line is a command: its word ends at the first space, and the rest
/// is its argument.
pub open spec fn parsed_input(input: Seq<char>) -> InputActionView {
    let line = text::trimmed(input);
    if line.len() == 0 {
        InputActionView::SendText(Seq::empty())
    } else if line[0] != '/' {
        InputActionView::SendText(line)
    } else {
        command_action(command_word(line), command_arg(line))
    }
}

/// Parse a line of input into an action.
pub fn parse_input(input: &str) -> (r: InputAction)
    ensures
        r@ == parsed_input(input@),
{
    let trimmed = text::trim(input);
    let line = text::chars(trimmed.as_str());
    if line.len() == 0 {
        return InputAction::SendText(String::new());
    }
    if line[0] != '/' {
        return InputAction::SendText(trimmed);
    }
    let space = text::find_char_exec(&line, ' ');
    let cmd_string = text::from_chars(&line, 0, space);
    proof {
        assert(line@.take(space as int) =~= line@.subrange(0, space as int));
    }
    let arg: String = if space < line.len() {
        let rest = text::sub(&line, space + 1, line.len());
        proof {
            assert(line@.skip(space + 1) =~= line@.subrange(space + 1, line@.len() as int));
        }
        text::trim_chars(&rest)
    } else {
        String::new()
    };
    let cmd = cmd_string.as_str();
    if cmd.eq("/join") || cmd.eq("/j") {
        if arg.as_str().is_empty() {
            InputAction::Unknown(String::from_str("/join requires a contact or group name"))
        } else {
            InputAction::Join(arg)
        }
    } else if cmd.eq("/part") || cmd.eq("/p") {
        InputAction::Part
    } else if cmd.eq("/quit") || cmd.eq("/q") {
        InputAction::Quit
    } else if cmd.eq("/sidebar") || cmd.eq("/sb") {
        InputAction::ToggleSidebar
    } else if cmd.eq("/bell") || cmd.eq("/notify") {
        if arg.as_str().is_empty() {
            InputAction::ToggleBell(None)
        } else {
            InputAction::ToggleBell(Some(arg))
        }
    } else if cmd.eq("/mute") {
        InputAction::ToggleMute
    } else if cmd.eq("/contacts") || cmd.eq("/c") {
        InputAction::Contacts
    } else if cmd.eq("/settings") {
        InputAction::Settings
    } else if cmd.eq("/help") || cmd.eq("/h") {
        InputAction::Help
    } else {
        InputAction::Unknown(text::concat("Unknown command: ", cmd))
    }
}

} // verus!
