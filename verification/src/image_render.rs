//! How images reach the terminal.

use vstd::prelude::*;
use crate::model::opt_str_view;

verus! {

/// Terminal image display protocol.
#[derive(Debug, Clone, Copy, PartialEq, Eq, Structural)]
pub enum ImageProtocol {
    /// Kitty Graphics Protocol (Kitty, Ghostty).
    Kitty,
    /// iTerm2 Inline Images Protocol (iTerm2, WezTerm).
    Iterm2,
    /// Unicode half blocks (universal).
    Halfblock,
}

/// The protocol for a terminal that announces itself in this way.
pub open spec fn protocol_of(kitty_window: bool, term_program: Option<Seq<char>>) -> ImageProtocol {
    if kitty_window {
        ImageProtocol::Kitty
    } else if term_program == Some("ghostty"@) {
        ImageProtocol::Kitty
    } else if term_program == Some("iTerm.app"@) || term_program == Some("WezTerm"@) {
        ImageProtocol::Iterm2
    } else {
        ImageProtocol::Halfblock
    }
}

/// The best image protocol of a terminal, from what its environment says:
/// whether a Kitty window id is set, and the name of the terminal program.
pub fn choose_protocol(kitty_window: bool, term_program: Option<&str>) -> (r: ImageProtocol)
    ensures
        r == protocol_of(kitty_window, opt_str_view(term_program)),
{
    if kitty_window {
        return ImageProtocol::Kitty;
    }
    match term_program {
        Some(term) => {
            if term.eq("ghostty") {
                ImageProtocol::Kitty
            } else if term.eq("iTerm.app") || term.eq("WezTerm") {
                ImageProtocol::Iterm2
            } else {
                ImageProtocol::Halfblock
            }
        },
        None => ImageProtocol::Halfblock,
    }
}

} // verus!
