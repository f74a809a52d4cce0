//! What the user configured.

use vstd::prelude::*;

verus! {

/// The configuration of the client.
#[derive(Debug, Clone)]
pub struct Config {
    /// Phone number in E.164 format (e.g. `+15551234567`).
    pub account: String,
    /// Path to the backend's binary.
    pub signal_cli_path: String,
    /// Directory for downloaded attachments.
    pub download_dir: String,
    /// Terminal bell for 1:1 messages in background conversations.
    pub notify_direct: bool,
    /// Terminal bell for group messages in background conversations.
    pub notify_group: bool,
    /// Show inline image previews in chat.
    pub inline_images: bool,
    /// Use the terminal's own image protocol where it has one.
    pub native_images: bool,
    /// Show delivery and read states on outgoing messages.
    pub show_receipts: bool,
    /// Use colors for delivery and read states.
    pub color_receipts: bool,
    /// Use Nerd Font glyphs for delivery and read states.
    pub nerd_fonts: bool,
    /// Show who reacted instead of how many.
    pub reaction_verbose: bool,
}

/// The name under which the backend's binary is looked up where none is
/// configured.
pub fn default_signal_cli_path() -> (r: String)
    ensures
        r@ == "signal-cli"@,
{
    String::from_str("signal-cli")
}

impl Config {
    /// The configuration of a first start: no account, the backend's binary
    /// under its default name, downloads in `download_dir`, and every
    /// preference at its default.
    pub fn with_download_dir(download_dir: String) -> (r: Self)
        ensures
            r.account@.len() == 0,
            r.signal_cli_path@ == "signal-cli"@,
            r.download_dir == download_dir,
            r.notify_direct && r.notify_group && r.inline_images && r.show_receipts
                && r.color_receipts,
            !r.native_images && !r.nerd_fonts && !r.reaction_verbose,
            r.needs_setup_spec(),
    {
        Config {
            account: String::new(),
            signal_cli_path: default_signal_cli_path(),
            download_dir,
            notify_direct: true,
            notify_group: true,
            inline_images: true,
            native_images: false,
            show_receipts: true,
            color_receipts: true,
            nerd_fonts: false,
            reaction_verbose: false,
        }
    }

    /// Whether the account is empty.
    pub open spec fn needs_setup_spec(&self) -> bool {
        self.account@.len() == 0
    }

    /// Returns true if the account is empty and setup is needed.
    #[verifier::when_used_as_spec(needs_setup_spec)]
    pub fn needs_setup(&self) -> (r: bool)
        ensures
            r == self.needs_setup_spec(),
    {
        self.account.as_str().is_empty()
    }
}

} // verus!
