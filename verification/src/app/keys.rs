//! What the keyboard does to the application.

use vstd::prelude::*;
use crate::text;
use crate::app::{App, InputMode, Key, KeyMods, Overlays, Reconciler, Screen, SendRequest};
use crate::app::actions::input_handled;
use crate::app::editing::{
    autocomplete_applied, autocomplete_updated, candidates_among, commands_spec,
    completion_applies, edit_applied, history_went_down, history_went_up, is_edit_key, normal_edit,
    InputLine,
};
use crate::app::navigation::{read_noted, resized, scrolled_down, scrolled_up};
use crate::app::overlays::{
    contacts_key_handled, picker_key_handled, selected_at, settings_key_handled,
};
use crate::app::timeline::{activated, active_length, marked_read, next_place, prev_place};
use crate::strmap::lemma_index_in;

verus! {

/// What a key that works in every mode does.
///
/// Control-C asks to quit; Tab and Shift-BackTab switch to the next and the
/// previous conversation; Control-Left and Control-Right make the sidebar
/// narrower and wider by two columns; PageUp and PageDown scroll by five
/// messages.
pub open spec fn global_key_handled(before: App, after: App, mods: KeyMods, key: Key) -> bool {
    match key {
        Key::Char(_) => after == (App { should_quit: true, ..before }),
        Key::Left => after == (App {
            screen: Screen {
                sidebar_width: resized(before.screen.sidebar_width, (-2) as i16),
                ..before.screen
            },
            ..before
        }),
        Key::Right => after == (App {
            screen: Screen {
                sidebar_width: resized(before.screen.sidebar_width, 2i16),
                ..before.screen
            },
            ..before
        }),
        Key::PageUp => after == (App {
            screen: Screen {
                scroll_offset: scrolled_up(before.screen.scroll_offset, 5),
                ..before.screen
            },
            ..before
        }),
        Key::PageDown => after == (App {
            screen: Screen {
                scroll_offset: scrolled_down(before.screen.scroll_offset, 5),
                ..before.screen
            },
            ..before
        }),
        Key::Tab | Key::BackTab => if before.core.conversation_order@.len() == 0 {
            after == before
        } else {
            let place = if key is Tab {
                next_place(before.core@)
            } else {
                prev_place(before.core@)
            };
            &&& 0 <= place < before.core@.order.len()
            &&& after.core@ == activated(marked_read(before.core@), before.core@.order[place])
            &&& read_noted(
                before.screen.last_read_index,
                after.screen.last_read_index,
                before.core@.active,
                active_length(before.core@),
            )
            &&& after.screen == (Screen {
                last_read_index: after.screen.last_read_index,
                scroll_offset: 0,
                ..before.screen
            })
            &&& after == (App { core: after.core, screen: after.screen, ..before })
        },
        _ => after == before,
    }
}

/// Whether a key is one that works in every mode.
pub open spec fn is_global_key(mods: KeyMods, key: Key) -> bool {
    ||| mods == KeyMods::Control && key == Key::Char('c')
    ||| mods == KeyMods::Plain && key == Key::Tab
    ||| mods == KeyMods::Shift && key == Key::BackTab
    ||| mods == KeyMods::Control && key == Key::Left
    ||| mods == KeyMods::Control && key == Key::Right
    ||| key == Key::PageUp
    ||| key == Key::PageDown
}

impl App {
    /// Update the completion candidates; see
    /// [`InputLine::update_autocomplete`].
    pub fn update_autocomplete(&mut self)
        ensures
            final(self).input.wf() == old(self).input.wf(),
            final(self).input == (InputLine {
                autocomplete_visible: final(self).input.autocomplete_visible,
                autocomplete_candidates: final(self).input.autocomplete_candidates,
                autocomplete_index: final(self).input.autocomplete_index,
                ..old(self).input
            }),
            autocomplete_updated(old(self).input, final(self).input),
            *final(self) == (App { input: final(self).input, ..*old(self) }),
    {
        self.input.update_autocomplete();
    }

    /// Accept the selected completion; see [`InputLine::apply_autocomplete`].
    pub fn apply_autocomplete(&mut self)
        requires
            old(self).wf(),
        ensures
            final(self).wf(),
            autocomplete_applied(old(self).input, final(self).input),
            *final(self) == (App { input: final(self).input, ..*old(self) }),
    {
        self.input.apply_autocomplete();
    }

    /// Navigate up through input history; see [`InputLine::history_up`].
    pub fn history_up(&mut self)
        requires
            old(self).wf(),
        ensures
            final(self).wf(),
            history_went_up(old(self).input, final(self).input),
            *final(self) == (App { input: final(self).input, ..*old(self) }),
    {
        self.input.history_up();
    }

    /// Navigate down through input history; see
    /// [`InputLine::history_down`].
    pub fn history_down(&mut self)
        requires
            old(self).wf(),
        ensures
            final(self).wf(),
            history_went_down(old(self).input, final(self).input),
            *final(self) == (App { input: final(self).input, ..*old(self) }),
    {
        self.input.history_down();
    }

    /// Handle basic cursor and editing keys; see
    /// [`InputLine::apply_input_edit`].
    pub fn apply_input_edit(&mut self, key: Key) -> (handled: bool)
        requires
            old(self).wf(),
        ensures
            final(self).wf(),
            edit_applied(old(self).input, final(self).input, key, handled),
            *final(self) == (App { input: final(self).input, ..*old(self) }),
    {
        self.input.apply_input_edit(key)
    }

    /// Handle global keys that work in both normal and insert mode.
    /// Returns whether the key was one of them.
    ///
    /// Control-C asks to quit; Tab and Shift-BackTab switch to the next and
    /// the previous conversation; Control-Left and Control-Right make the
    /// sidebar narrower and wider by two columns; PageUp and PageDown scroll
    /// by five messages.
    pub fn handle_global_key(&mut self, mods: KeyMods, key: Key) -> (consumed: bool)
        requires
            old(self).wf(),
        ensures
            final(self).wf(),
            consumed == is_global_key(mods, key),
            if consumed {
                global_key_handled(*old(self), *final(self), mods, key)
            } else {
                *final(self) == *old(self)
            },
    {
        match key {
            Key::Char(c) => {
                if c == 'c' && mods == KeyMods::Control {
                    self.should_quit = true;
                    true
                } else {
                    false
                }
            },
            Key::Tab => {
                if mods == KeyMods::Plain {
                    self.next_conversation();
                    true
                } else {
                    false
                }
            },
            Key::BackTab => {
                if mods == KeyMods::Shift {
                    self.prev_conversation();
                    true
                } else {
                    false
                }
            },
            Key::Left => {
                if mods == KeyMods::Control {
                    self.resize_sidebar(-2);
                    true
                } else {
                    false
                }
            },
            Key::Right => {
                if mods == KeyMods::Control {
                    self.resize_sidebar(2);
                    true
                } else {
                    false
                }
            },
            Key::PageUp => {
                self.screen.scroll_up(5);
                true
            },
            Key::PageDown => {
                self.screen.scroll_down(5);
                true
            },
            _ => false,
        }
    }
}

/// Whether the selected message can be reacted to: there is one, and it is
/// no system message.
pub open spec fn can_react(core: Reconciler, scroll_offset: usize) -> bool {
    match selected_at(core@, scroll_offset) {
        Some(at) => !core@.ledger.convs[at.0].messages[at.1].is_system,
        None => false,
    }
}

/// What a key does in normal mode.
///
/// `j` and `k` scroll by one message, Control-D and Control-U by ten; `g`
/// scrolls to the oldest message and `G` to the newest. `y` and `Y` ask for
/// the selected message to be copied, as its text and as a full line. `r`
/// opens the reaction picker on a message that can be reacted to. `/`
/// starts a command. Esc empties the input line. Every other character
/// edits the input line as [`normal_edit`] says.
pub open spec fn normal_key_handled(
    core: Reconciler,
    input: InputLine,
    overlays: Overlays,
    screen: Screen,
    mods: KeyMods,
    key: Key,
    input_after: InputLine,
    overlays_after: Overlays,
    screen_after: Screen,
) -> bool {
    match key {
        Key::Char(c) => if c == 'j' || c == 'k' || (mods == KeyMods::Control && (c == 'd' || c
            == 'u')) || c == 'g' || c == 'G' {
            &&& input_after == input
            &&& overlays_after == overlays
            &&& screen_after == (Screen {
                scroll_offset: if c == 'j' {
                    scrolled_down(screen.scroll_offset, 1)
                } else if c == 'k' {
                    scrolled_up(screen.scroll_offset, 1)
                } else if c == 'd' {
                    scrolled_down(screen.scroll_offset, 10)
                } else if c == 'u' {
                    scrolled_up(screen.scroll_offset, 10)
                } else if c == 'g' {
                    match active_length(core@) {
                        Some(n) => n,
                        None => screen.scroll_offset,
                    }
                } else {
                    0
                },
                ..screen
            })
        } else if c == 'y' || c == 'Y' {
            &&& input_after == input
            &&& screen_after == screen
            &&& overlays_after == (Overlays { pending_copy: Some(c == 'Y'), ..overlays })
        } else if c == 'r' {
            &&& input_after == input
            &&& screen_after == screen
            &&& overlays_after == if can_react(core, screen.scroll_offset) {
                Overlays { show_reaction_picker: true, reaction_picker_index: 0, ..overlays }
            } else {
                overlays
            }
        } else if c == '/' {
            &&& screen_after == screen
            &&& overlays_after == overlays
            &&& input_after.buffer@ == "/"@
            &&& input_after.cursor == 1
            &&& input_after.mode == InputMode::Insert
            &&& autocomplete_updated(
                InputLine {
                    buffer: input_after.buffer,
                    cursor: 1,
                    mode: InputMode::Insert,
                    ..input
                },
                input_after,
            )
            &&& input_after == (InputLine {
                buffer: input_after.buffer,
                cursor: 1,
                mode: InputMode::Insert,
                autocomplete_visible: input_after.autocomplete_visible,
                autocomplete_candidates: input_after.autocomplete_candidates,
                autocomplete_index: input_after.autocomplete_index,
                ..input
            })
        } else {
            let edit = normal_edit(input.buffer@, input.cursor as int, c);
            &&& screen_after == screen
            &&& overlays_after == overlays
            &&& input_after.buffer@ == edit.0
            &&& input_after.cursor == edit.1
            &&& input_after.mode == if edit.2 {
                InputMode::Insert
            } else {
                input.mode
            }
            &&& input_after == (InputLine {
                buffer: input_after.buffer,
                cursor: input_after.cursor,
                mode: input_after.mode,
                ..input
            })
        },
        Key::Esc => {
            &&& screen_after == screen
            &&& overlays_after == overlays
            &&& input_after.buffer@.len() == 0
            &&& input_after.cursor == if input.buffer@.len() > 0 {
                0
            } else {
                input.cursor
            }
            &&& input_after == (InputLine {
                buffer: input_after.buffer,
                cursor: input_after.cursor,
                ..input
            })
        },
        _ => input_after == input && overlays_after == overlays && screen_after == screen,
    }
}

impl InputLine {
    /// Starts a command: the buffer holds `/`, the line is in insert mode,
    /// and completion is offered.
    pub fn start_command(&mut self)
        requires
            old(self).wf(),
        ensures
            final(self).wf(),
            final(self).buffer@ == "/"@,
            final(self).cursor == 1,
            final(self).mode == InputMode::Insert,
            autocomplete_updated(
                InputLine {
                    buffer: final(self).buffer,
                    cursor: 1,
                    mode: InputMode::Insert,
                    ..*old(self)
                },
                *final(self),
            ),
            *final(self) == (InputLine {
                buffer: final(self).buffer,
                cursor: 1,
                mode: InputMode::Insert,
                autocomplete_visible: final(self).autocomplete_visible,
                autocomplete_candidates: final(self).autocomplete_candidates,
                autocomplete_index: final(self).autocomplete_index,
                ..*old(self)
            }),
    {
        proof {
            reveal_strlit("/");
        }
        self.set_buffer(String::from_str("/"));
        self.mode = InputMode::Insert;
        self.update_autocomplete();
    }

    /// Empties the input line, unless it is empty.
    pub fn escape(&mut self)
        requires
            old(self).wf(),
        ensures
            final(self).wf(),
            final(self).buffer@.len() == 0,
            final(self).cursor == if old(self).buffer@.len() > 0 {
                0
            } else {
                old(self).cursor
            },
            *final(self) == (InputLine {
                buffer: final(self).buffer,
                cursor: final(self).cursor,
                ..*old(self)
            }),
    {
        if !self.buffer.as_str().is_empty() {
            self.clear();
        }
    }
}

impl App {
    /// Scrolls to the oldest message of the active conversation.
    fn scroll_to_top(&mut self)
        requires
            old(self).wf(),
        ensures
            final(self).screen == (Screen {
                scroll_offset: match active_length(old(self).core@) {
                    Some(n) => n,
                    None => old(self).screen.scroll_offset,
                },
                ..old(self).screen
            }),
            *final(self) == (App { screen: final(self).screen, ..*old(self) }),
    {
        let length = match &self.core.active_conversation {
            Some(id) => {
                proof {
                    lemma_index_in(self.core@.ledger.keys, id@);
                }
                match self.core.conversations.find(id.as_str()) {
                    Some(p) => Some(self.core.conversations.entries[p].1.messages.len()),
                    None => None,
                }
            },
            None => None,
        };
        match length {
            Some(n) => {
                self.screen.scroll_offset = n;
            },
            None => {},
        }
    }

    /// Opens the reaction picker where the selected message can be reacted
    /// to.
    fn offer_reactions(&mut self)
        requires
            old(self).wf(),
        ensures
            final(self).overlays == if can_react(old(self).core, old(self).screen.scroll_offset) {
                Overlays {
                    show_reaction_picker: true,
                    reaction_picker_index: 0,
                    ..old(self).overlays
                }
            } else {
                old(self).overlays
            },
            *final(self) == (App { overlays: final(self).overlays, ..*old(self) }),
    {
        let reactable = match self.selected_message() {
            Some(m) => !m.is_system,
            None => false,
        };
        if reactable {
            self.overlays.show_reaction_picker = true;
            self.overlays.reaction_picker_index = 0;
        }
    }

    /// Asks for the selected message to be copied.
    fn ask_copy(&mut self, full_line: bool)
        ensures
            final(self).overlays == (Overlays { pending_copy: Some(full_line), ..old(self).overlays }),
            *final(self) == (App { overlays: final(self).overlays, ..*old(self) }),
    {
        self.overlays.pending_copy = Some(full_line);
    }

    /// Handles a character that scrolls in normal mode.
    fn normal_scroll(&mut self, mods: KeyMods, c: char)
        requires
            old(self).wf(),
            c == 'j' || c == 'k' || (mods == KeyMods::Control && (c == 'd' || c == 'u')) || c == 'g'
                || c == 'G',
        ensures
            final(self).wf(),
            normal_key_handled(
                old(self).core,
                old(self).input,
                old(self).overlays,
                old(self).screen,
                mods,
                Key::Char(c),
                final(self).input,
                final(self).overlays,
                final(self).screen,
            ),
            *final(self) == (App {
                input: final(self).input,
                overlays: final(self).overlays,
                screen: final(self).screen,
                ..*old(self)
            }),
    {
        if c == 'j' {
            self.screen.scroll_down(1);
        } else if c == 'k' {
            self.screen.scroll_up(1);
        } else if c == 'd' {
            self.screen.scroll_down(10);
        } else if c == 'u' {
            self.screen.scroll_up(10);
        } else if c == 'g' {
            self.scroll_to_top();
        } else {
            self.screen.scroll_down(usize::MAX);
        }
    }

    /// Handles a character that does not scroll in normal mode.
    fn normal_other(&mut self, mods: KeyMods, c: char)
        requires
            old(self).wf(),
            !(c == 'j' || c == 'k' || (mods == KeyMods::Control && (c == 'd' || c == 'u')) || c
                == 'g' || c == 'G'),
        ensures
            final(self).wf(),
            normal_key_handled(
                old(self).core,
                old(self).input,
                old(self).overlays,
                old(self).screen,
                mods,
                Key::Char(c),
                final(self).input,
                final(self).overlays,
                final(self).screen,
            ),
            *final(self) == (App {
                input: final(self).input,
                overlays: final(self).overlays,
                screen: final(self).screen,
                ..*old(self)
            }),
    {
        if c == 'y' {
            self.ask_copy(false);
        } else if c == 'Y' {
            self.ask_copy(true);
        } else if c == 'r' {
            self.offer_reactions();
        } else if c == '/' {
            self.input.start_command();
        } else {
            self.input.normal_char(c);
        }
    }

    /// Handles Esc in normal mode.
    fn normal_escape(&mut self, mods: KeyMods)
        requires
            old(self).wf(),
        ensures
            final(self).wf(),
            normal_key_handled(
                old(self).core,
                old(self).input,
                old(self).overlays,
                old(self).screen,
                mods,
                Key::Esc,
                final(self).input,
                final(self).overlays,
                final(self).screen,
            ),
            *final(self) == (App {
                input: final(self).input,
                overlays: final(self).overlays,
                screen: final(self).screen,
                ..*old(self)
            }),
    {
        self.input.escape();
    }

    /// Handle a key in normal mode; see [`normal_key_handled`].
    pub fn handle_normal_key(&mut self, mods: KeyMods, key: Key)
        requires
            old(self).wf(),
        ensures
            final(self).wf(),
            normal_key_handled(
                old(self).core,
                old(self).input,
                old(self).overlays,
                old(self).screen,
                mods,
                key,
                final(self).input,
                final(self).overlays,
                final(self).screen,
            ),
            *final(self) == (App {
                input: final(self).input,
                overlays: final(self).overlays,
                screen: final(self).screen,
                ..*old(self)
            }),
    {
        match key {
            Key::Char(c) => {
                if c == 'j' || c == 'k' || (mods == KeyMods::Control && (c == 'd' || c == 'u')) || c
                    == 'g' || c == 'G' {
                    self.normal_scroll(mods, c);
                } else {
                    self.normal_other(mods, c);
                }
            },
            Key::Esc => self.normal_escape(mods),
            _ => {},
        }
    }
}

/// The input line of `after` with the completion popup of `before`.
pub open spec fn with_popup_of(after: InputLine, before: InputLine) -> InputLine {
    InputLine {
        autocomplete_visible: before.autocomplete_visible,
        autocomplete_candidates: before.autocomplete_candidates,
        autocomplete_index: before.autocomplete_index,
        ..after
    }
}

/// Whether a key changes what is typed, so that the completion has to
/// follow.
pub open spec fn changes_text(key: Key) -> bool {
    key is Backspace || key is Delete || key is Char
}

/// What holds of the input line after an editing key, with the completion
/// following the text where `follow` says so.
pub open spec fn edited(before: InputLine, after: InputLine, key: Key, follow: bool) -> bool {
    let mid = with_popup_of(after, before);
    &&& edit_applied(before, mid, key, is_edit_key(key))
    &&& if follow {
        autocomplete_updated(mid, after)
    } else {
        after == mid
    }
}

/// What a key does in insert mode at `now`, and what it asks to be sent.
///
/// Esc goes to normal mode and closes the completion popup. Enter submits
/// the line; see [`input_handled`]. Every other key edits the line, and
/// the completion follows where the text changed.
pub open spec fn insert_key_handled(
    before: App,
    after: App,
    key: Key,
    now: i64,
    r: Option<SendRequest>,
) -> bool {
    match key {
        Key::Esc => r.is_none() && after == (App {
            input: InputLine {
                mode: InputMode::Normal,
                autocomplete_visible: false,
                ..before.input
            },
            ..before
        }),
        Key::Enter => input_handled(before, after, now, r),
        _ => {
            &&& r.is_none()
            &&& edited(before.input, after.input, key, changes_text(key))
            &&& after == (App { input: after.input, ..before })
        },
    }
}

/// The selection of the completion popup after going up from `index` among
/// `len` candidates, around the beginning.
pub open spec fn popup_up(index: usize, len: int) -> usize {
    if len == 0 {
        index
    } else if index == 0 {
        (len - 1) as usize
    } else {
        (index - 1) as usize
    }
}

/// The selection of the completion popup after going down from `index`
/// among `len` candidates, around the end.
pub open spec fn popup_down(index: usize, len: int) -> usize {
    if len == 0 {
        index
    } else {
        ((index + 1) % len) as usize
    }
}

/// What a key does while the completion popup is open, at `now`.
///
/// Up and Down move the selection, around the ends. Tab accepts the
/// selected completion. Esc closes the popup. Enter accepts the selected
/// completion and submits the line. Every other key edits the line, and the
/// completion follows.
pub open spec fn autocomplete_key_handled(
    before: App,
    after: App,
    key: Key,
    now: i64,
    r: Option<SendRequest>,
) -> bool {
    match key {
        Key::Up => r.is_none() && after == (App {
            input: InputLine {
                autocomplete_index: popup_up(
                    before.input.autocomplete_index,
                    before.input.autocomplete_candidates@.len() as int,
                ),
                ..before.input
            },
            ..before
        }),
        Key::Down => r.is_none() && after == (App {
            input: InputLine {
                autocomplete_index: popup_down(
                    before.input.autocomplete_index,
                    before.input.autocomplete_candidates@.len() as int,
                ),
                ..before.input
            },
            ..before
        }),
        Key::Tab => {
            &&& r.is_none()
            &&& autocomplete_applied(before.input, after.input)
            &&& after == (App { input: after.input, ..before })
        },
        Key::Esc => {
            &&& r.is_none()
            &&& after.input.autocomplete_candidates@.len() == 0
            &&& after == (App {
                input: InputLine {
                    autocomplete_visible: false,
                    autocomplete_candidates: after.input.autocomplete_candidates,
                    autocomplete_index: 0,
                    ..before.input
                },
                ..before
            })
        },
        Key::Enter => exists|mid: App|
            {
                &&& mid.wf()
                &&& autocomplete_applied(before.input, mid.input)
                &&& mid == (App { input: mid.input, ..before })
                &&& #[trigger] input_handled(mid, after, now, r)
            },
        _ => {
            &&& r.is_none()
            &&& edited(before.input, after.input, key, true)
            &&& after == (App { input: after.input, ..before })
        },
    }
}

/// What a key does to the overlays at `now`: whether one of them took the
/// key, and what it asks to be sent.
///
/// The overlays are asked in this order: the reaction picker, help (which
/// any key closes), contacts, settings, and the completion popup.
pub open spec fn overlay_key_handled(
    before: App,
    after: App,
    key: Key,
    now: i64,
    result: (bool, Option<SendRequest>),
) -> bool {
    if before.overlays.show_reaction_picker {
        &&& result.0
        &&& picker_key_handled(
            before.core,
            before.overlays,
            before.screen.scroll_offset,
            key,
            after.core,
            after.overlays,
            result.1,
        )
        &&& after == (App { core: after.core, overlays: after.overlays, ..before })
    } else if before.overlays.show_help {
        &&& result.0
        &&& result.1.is_none()
        &&& after == (App { overlays: Overlays { show_help: false, ..before.overlays }, ..before })
    } else if before.overlays.show_contacts {
        &&& result.0
        &&& result.1.is_none()
        &&& contacts_key_handled(before, after, key)
    } else if before.overlays.show_settings {
        &&& result.0
        &&& result.1.is_none()
        &&& settings_key_handled(before, after, key)
    } else if before.input.autocomplete_visible {
        &&& result.0
        &&& autocomplete_key_handled(before, after, key, now, result.1)
    } else {
        !result.0 && result.1.is_none() && after == before
    }
}

impl InputLine {
    /// Moves the selection of the completion popup up, around the
    /// beginning.
    pub fn popup_select_up(&mut self)
        ensures
            *final(self) == (InputLine {
                autocomplete_index: popup_up(
                    old(self).autocomplete_index,
                    old(self).autocomplete_candidates@.len() as int,
                ),
                ..*old(self)
            }),
    {
        let len = self.autocomplete_candidates.len();
        if len > 0 {
            self.autocomplete_index = if self.autocomplete_index == 0 {
                len - 1
            } else {
                self.autocomplete_index - 1
            };
        }
    }

    /// Moves the selection of the completion popup down, around the end.
    pub fn popup_select_down(&mut self)
        ensures
            *final(self) == (InputLine {
                autocomplete_index: popup_down(
                    old(self).autocomplete_index,
                    old(self).autocomplete_candidates@.len() as int,
                ),
                ..*old(self)
            }),
    {
        let len = self.autocomplete_candidates.len();
        if len > 0 {
            let next: u128 = (self.autocomplete_index as u128 + 1) % (len as u128);
            self.autocomplete_index = next as usize;
        }
    }

    /// Handles an editing key, with the completion following the text
    /// where `follow` says so.
    pub fn edit(&mut self, key: Key, follow: bool)
        requires
            old(self).wf(),
        ensures
            final(self).wf(),
            edited(*old(self), *final(self), key, follow),
    {
        self.apply_input_edit(key);
        let ghost mid = *self;
        if follow {
            self.update_autocomplete();
        }
        proof {
            assert(with_popup_of(*self, *old(self)) == mid);
        }
    }

    /// Goes to normal mode and closes the completion popup.
    pub fn leave_insert(&mut self)
        ensures
            *final(self) == (InputLine {
                mode: InputMode::Normal,
                autocomplete_visible: false,
                ..*old(self)
            }),
    {
        self.mode = InputMode::Normal;
        self.autocomplete_visible = false;
    }
}

impl App {
    /// Handle a key in insert mode at `now`; see [`insert_key_handled`].
    pub fn handle_insert_key_at(&mut self, mods: KeyMods, key: Key, now: i64) -> (r: Option<
        SendRequest,
    >)
        requires
            old(self).wf(),
        ensures
            final(self).wf(),
            insert_key_handled(*old(self), *final(self), key, now, r),
    {
        match key {
            Key::Esc => {
                self.input.leave_insert();
                None
            },
            Key::Enter => self.handle_input_at(now),
            _ => {
                let follow = match key {
                    Key::Backspace | Key::Delete | Key::Char(_) => true,
                    _ => false,
                };
                self.input.edit(key, follow);
                None
            },
        }
    }

    /// Handle a key in insert mode, pressed now.
    pub fn handle_insert_key(&mut self, mods: KeyMods, key: Key) -> (r: Option<SendRequest>)
        requires
            old(self).wf(),
        ensures
            final(self).wf(),
            exists|now: i64| insert_key_handled(*old(self), *final(self), key, now, r),
    {
        let now = crate::clock::now_millis();
        let r = self.handle_insert_key_at(mods, key, now);
        proof {
            assert(insert_key_handled(*old(self), *self, key, now, r));
        }
        r
    }

    /// Handle a key while the completion popup is visible, at `now`; see
    /// [`autocomplete_key_handled`].
    pub fn handle_autocomplete_key_at(&mut self, key: Key, now: i64) -> (r: Option<SendRequest>)
        requires
            old(self).wf(),
        ensures
            final(self).wf(),
            autocomplete_key_handled(*old(self), *final(self), key, now, r),
    {
        match key {
            Key::Up => {
                self.input.popup_select_up();
                None
            },
            Key::Down => {
                self.input.popup_select_down();
                None
            },
            Key::Tab => {
                self.input.apply_autocomplete();
                None
            },
            Key::Esc => {
                self.input.hide_autocomplete();
                None
            },
            Key::Enter => {
                self.input.apply_autocomplete();
                let ghost mid = *self;
                let r = self.handle_input_at(now);
                proof {
                    assert(input_handled(mid, *self, now, r));
                }
                r
            },
            _ => {
                self.input.edit(key, true);
                None
            },
        }
    }

    /// Handle a key while the completion popup is visible, pressed now.
    pub fn handle_autocomplete_key(&mut self, key: Key) -> (r: Option<SendRequest>)
        requires
            old(self).wf(),
        ensures
            final(self).wf(),
            exists|now: i64| autocomplete_key_handled(*old(self), *final(self), key, now, r),
    {
        let now = crate::clock::now_millis();
        let r = self.handle_autocomplete_key_at(key, now);
        proof {
            assert(autocomplete_key_handled(*old(self), *self, key, now, r));
        }
        r
    }

    /// Closes the help overlay.
    fn close_help(&mut self)
        ensures
            *final(self) == (App {
                overlays: Overlays { show_help: false, ..old(self).overlays },
                ..*old(self)
            }),
    {
        self.overlays.show_help = false;
    }

    /// Handle a key for the overlays at `now`; see [`overlay_key_handled`].
    /// Returns whether an overlay took the key, and what is to be sent.
    pub fn handle_overlay_key_at(&mut self, key: Key, now: i64) -> (result: (
        bool,
        Option<SendRequest>,
    ))
        requires
            old(self).wf(),
        ensures
            final(self).wf(),
            overlay_key_handled(*old(self), *final(self), key, now, result),
    {
        if self.overlays.show_reaction_picker {
            let send = self.handle_reaction_picker_key(key);
            return (true, send);
        }
        if self.overlays.show_help {
            self.close_help();
            return (true, None);
        }
        if self.overlays.show_contacts {
            self.handle_contacts_key(key);
            return (true, None);
        }
        if self.overlays.show_settings {
            self.handle_settings_key(key);
            return (true, None);
        }
        if self.input.autocomplete_visible {
            let send = self.handle_autocomplete_key_at(key, now);
            return (true, send);
        }
        (false, None)
    }

    /// Handle a key for the overlays, pressed now.
    pub fn handle_overlay_key(&mut self, key: Key) -> (result: (bool, Option<SendRequest>))
        requires
            old(self).wf(),
        ensures
            final(self).wf(),
            exists|now: i64| overlay_key_handled(*old(self), *final(self), key, now, result),
    {
        let now = crate::clock::now_millis();
        let result = self.handle_overlay_key_at(key, now);
        proof {
            assert(overlay_key_handled(*old(self), *self, key, now, result));
        }
        result
    }
}

/// What a key does to the application at `now`, and what it asks to be
/// sent.
///
/// A key that works in every mode is handled as such. Any other key goes to
/// the overlay that is open, if one is; else it is handled in the mode that
/// the input line is in.
pub open spec fn key_handled(
    before: App,
    after: App,
    mods: KeyMods,
    key: Key,
    now: i64,
    r: Option<SendRequest>,
) -> bool {
    if is_global_key(mods, key) {
        &&& r.is_none()
        &&& global_key_handled(before, after, mods, key)
    } else if before.overlays.show_reaction_picker || before.overlays.show_help
        || before.overlays.show_contacts || before.overlays.show_settings
        || before.input.autocomplete_visible {
        overlay_key_handled(before, after, key, now, (true, r))
    } else if before.input.mode == InputMode::Normal {
        &&& r.is_none()
        &&& normal_key_handled(
            before.core,
            before.input,
            before.overlays,
            before.screen,
            mods,
            key,
            after.input,
            after.overlays,
            after.screen,
        )
        &&& after == (App {
            input: after.input,
            overlays: after.overlays,
            screen: after.screen,
            ..before
        })
    } else {
        insert_key_handled(before, after, key, now, r)
    }
}

impl App {
    /// Handle a key at `now`; see [`key_handled`]. Returns what is to be
    /// sent to the backend, if anything.
    pub fn handle_key_at(&mut self, mods: KeyMods, key: Key, now: i64) -> (r: Option<SendRequest>)
        requires
            old(self).wf(),
        ensures
            final(self).wf(),
            key_handled(*old(self), *final(self), mods, key, now, r),
    {
        if self.handle_global_key(mods, key) {
            return None;
        }
        let (consumed, send) = self.handle_overlay_key_at(key, now);
        if consumed {
            return send;
        }
        match self.input.mode {
            InputMode::Normal => {
                self.handle_normal_key(mods, key);
                None
            },
            InputMode::Insert => self.handle_insert_key_at(mods, key, now),
        }
    }

    /// Handle a key that is pressed now.
    pub fn handle_key(&mut self, mods: KeyMods, key: Key) -> (r: Option<SendRequest>)
        requires
            old(self).wf(),
        ensures
            final(self).wf(),
            exists|now: i64| key_handled(*old(self), *final(self), mods, key, now, r),
    {
        let now = crate::clock::now_millis();
        let r = self.handle_key_at(mods, key, now);
        proof {
            assert(key_handled(*old(self), *self, mods, key, now, r));
        }
        r
    }
}

} // verus!
