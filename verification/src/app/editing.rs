//! The input line: editing, history, and completion of slash commands.
//!
//! The cursor counts characters, not bytes, so that it is always between
//! two characters of the buffer.

use vstd::prelude::*;
use crate::text;
use crate::app::{InputMode, Key};
use crate::input::{command_table, commands, CommandInfo};
use crate::model::{lemma_views_push, views};

verus! {

/// What the user is typing, what was typed before, and what could complete
/// it.
#[derive(Debug)]
pub struct InputLine {
    /// Text input buffer.
    pub buffer: String,
    /// Cursor position in the buffer, counted in characters.
    pub cursor: usize,
    /// Previously submitted inputs for Up/Down recall.
    pub history: Vec<String>,
    /// Current position in history (`None`: not browsing).
    pub history_index: Option<usize>,
    /// Saves in-progress input when browsing history.
    pub history_draft: String,
    /// Current input mode.
    pub mode: InputMode,
    /// Autocomplete popup visible.
    pub autocomplete_visible: bool,
    /// Indices into the command table for the current matches.
    pub autocomplete_candidates: Vec<usize>,
    /// Selected item in the autocomplete popup.
    pub autocomplete_index: usize,
}

/// What a character typed in normal mode does to the input line: the
/// buffer, the cursor, and whether the line goes to insert mode.
///
/// `i`, `a`, `I`, `A` and `o` go to insert mode: at the cursor, behind it,
/// at the beginning, at the end, and on an emptied line. `h`, `l`, `0` and
/// `$` move the cursor; `w` moves it to the beginning of the next word and
/// `b` to that of the word before. `x` removes the character at the cursor
/// and `D` what follows the cursor.
pub open spec fn normal_edit(buffer: Seq<char>, cursor: int, c: char) -> (Seq<char>, int, bool) {
    let len = buffer.len() as int;
    let right = if cursor < len {
        cursor + 1
    } else {
        cursor
    };
    if c == 'i' {
        (buffer, cursor, true)
    } else if c == 'a' {
        (buffer, right, true)
    } else if c == 'I' {
        (buffer, 0, true)
    } else if c == 'A' {
        (buffer, len, true)
    } else if c == 'o' {
        (Seq::empty(), 0, true)
    } else if c == 'h' {
        (
            buffer,
            if cursor > 0 {
                cursor - 1
            } else {
                0
            },
            false,
        )
    } else if c == 'l' {
        (buffer, right, false)
    } else if c == '0' {
        (buffer, 0, false)
    } else if c == '$' {
        (buffer, len, false)
    } else if c == 'w' {
        (buffer, text::forward_over(buffer, text::forward_over(buffer, cursor, false), true), false)
    } else if c == 'b' {
        (buffer, text::back_over(buffer, text::back_over(buffer, cursor, true), false), false)
    } else if c == 'x' {
        if cursor < len {
            (
                buffer.remove(cursor),
                if cursor > 0 && cursor >= len - 1 {
                    if len - 2 > 0 {
                        len - 2
                    } else {
                        0
                    }
                } else {
                    cursor
                },
                false,
            )
        } else {
            (buffer, cursor, false)
        }
    } else if c == 'D' {
        (buffer.take(cursor), cursor, false)
    } else {
        (buffer, cursor, false)
    }
}

/// Whether a command completes what was typed: its name or, where it has
/// one, its alias begins with it.
pub open spec fn completes(name: Seq<char>, alias: Seq<char>, prefix: Seq<char>) -> bool {
    text::has_prefix(name, prefix) || (alias.len() > 0 && text::has_prefix(alias, prefix))
}

/// The indices of the first `n` commands that complete `prefix`.
pub open spec fn candidates_among(table: Seq<CommandInfo>, prefix: Seq<char>, n: int) -> Seq<usize>
    decreases n,
{
    if n <= 0 || n > table.len() {
        Seq::empty()
    } else {
        let rest = candidates_among(table, prefix, n - 1);
        if completes(table[n - 1].name@, table[n - 1].alias@, prefix) {
            rest.push((n - 1) as usize)
        } else {
            rest
        }
    }
}

/// Whether completion is offered for what was typed: it begins with `/`
/// and holds no space yet.
pub open spec fn completion_applies(buffer: Seq<char>) -> bool {
    buffer.len() > 0 && buffer[0] == '/' && text::find_char(buffer, ' ') == buffer.len()
}

impl InputLine {
    /// The cursor is within the buffer, and the place in history exists.
    pub open spec fn wf(&self) -> bool {
        &&& self.cursor <= self.buffer@.len()
        &&& (self.history_index matches Some(i) ==> i < self.history@.len())
    }

    /// An empty line in insert mode, without history.
    pub fn new() -> (r: Self)
        ensures
            r.wf(),
            r.buffer@.len() == 0,
            r.cursor == 0,
            r.history@.len() == 0,
            r.history_index.is_none(),
            r.history_draft@.len() == 0,
            r.mode == InputMode::Insert,
            !r.autocomplete_visible,
            r.autocomplete_candidates@.len() == 0,
            r.autocomplete_index == 0,
    {
        InputLine {
            buffer: String::new(),
            cursor: 0,
            history: Vec::new(),
            history_index: None,
            history_draft: String::new(),
            mode: InputMode::Insert,
            autocomplete_visible: false,
            autocomplete_candidates: Vec::new(),
            autocomplete_index: 0,
        }
    }

    /// Replaces the buffer and puts the cursor at its end.
    pub fn set_buffer(&mut self, text: String)
        requires
            old(self).wf(),
        ensures
            final(self).wf(),
            final(self).buffer == text,
            final(self).cursor == text@.len(),
            *final(self) == (InputLine {
                buffer: final(self).buffer,
                cursor: final(self).cursor,
                ..*old(self)
            }),
    {
        self.cursor = text.as_str().unicode_len();
        self.buffer = text;
    }

    /// Empties the buffer.
    pub fn clear(&mut self)
        requires
            old(self).wf(),
        ensures
            final(self).wf(),
            final(self).buffer@.len() == 0,
            final(self).cursor == 0,
            *final(self) == (InputLine {
                buffer: final(self).buffer,
                cursor: final(self).cursor,
                ..*old(self)
            }),
    {
        self.buffer = String::new();
        self.cursor = 0;
    }

    /// Inserts a character at the cursor and moves the cursor behind it.
    pub fn insert_char(&mut self, c: char)
        requires
            old(self).wf(),
        ensures
            final(self).wf(),
            final(self).buffer@ == old(self).buffer@.insert(old(self).cursor as int, c),
            final(self).cursor == old(self).cursor + 1,
            *final(self) == (InputLine {
                buffer: final(self).buffer,
                cursor: final(self).cursor,
                ..*old(self)
            }),
    {
        let mut v = text::chars(self.buffer.as_str());
        v.insert(self.cursor, c);
        self.buffer = text::from_chars(&v, 0, v.len());
        proof {
            assert(v@.subrange(0, v@.len() as int) =~= v@);
        }
        self.cursor = self.cursor + 1;
    }

    /// Removes the character at position `at`.
    pub fn remove_char(&mut self, at: usize)
        requires
            old(self).wf(),
            at < old(self).buffer@.len(),
            old(self).cursor < old(self).buffer@.len(),
        ensures
            final(self).wf(),
            final(self).buffer@ == old(self).buffer@.remove(at as int),
            *final(self) == (InputLine { buffer: final(self).buffer, ..*old(self) }),
    {
        let mut v = text::chars(self.buffer.as_str());
        v.remove(at);
        self.buffer = text::from_chars(&v, 0, v.len());
        proof {
            assert(v@.subrange(0, v@.len() as int) =~= v@);
        }
    }

    /// Cuts the buffer off at the cursor.
    pub fn truncate_at_cursor(&mut self)
        requires
            old(self).wf(),
        ensures
            final(self).wf(),
            final(self).buffer@ == old(self).buffer@.take(old(self).cursor as int),
            *final(self) == (InputLine { buffer: final(self).buffer, ..*old(self) }),
    {
        let v = text::chars(self.buffer.as_str());
        self.buffer = text::from_chars(&v, 0, self.cursor);
        proof {
            assert(v@.subrange(0, self.cursor as int) =~= v@.take(self.cursor as int));
        }
    }

    /// Navigate up through input history (older entries).
    ///
    /// The first step saves what was typed and recalls the newest entry;
    /// each further step recalls the entry before. At the oldest entry, and
    /// without history, nothing changes.
    pub fn history_up(&mut self)
        requires
            old(self).wf(),
        ensures
            final(self).wf(),
            history_went_up(*old(self), *final(self)),
    {
        if self.history.len() == 0 {
            return ;
        }
        let index = match self.history_index {
            None => {
                self.history_draft = self.buffer.clone();
                self.history.len() - 1
            },
            Some(idx) => {
                if idx > 0 {
                    idx - 1
                } else {
                    return ;
                }
            },
        };
        self.history_index = Some(index);
        let recalled = self.history[index].clone();
        self.set_buffer(recalled);
    }

    /// Navigate down through input history (newer entries).
    ///
    /// Each step recalls the next newer entry; the step past the newest
    /// entry restores what was typed before browsing. Without browsing
    /// nothing changes.
    pub fn history_down(&mut self)
        requires
            old(self).wf(),
        ensures
            final(self).wf(),
            history_went_down(*old(self), *final(self)),
    {
        let idx = match self.history_index {
            Some(idx) => idx,
            None => {
                return ;
            },
        };
        if idx < self.history.len() - 1 {
            self.history_index = Some(idx + 1);
            let recalled = self.history[idx + 1].clone();
            self.set_buffer(recalled);
        } else {
            self.history_index = None;
            let draft = self.history_draft.clone();
            self.set_buffer(draft);
        }
    }

    /// Handle basic cursor and editing keys. Returns whether the key was
    /// one of them.
    ///
    /// Backspace removes the character before the cursor, Delete the one at
    /// it; Left, Right, Home and End move the cursor within the buffer; Up
    /// and Down walk the history; a character is inserted at the cursor.
    pub fn apply_input_edit(&mut self, key: Key) -> (handled: bool)
        requires
            old(self).wf(),
        ensures
            final(self).wf(),
            edit_applied(*old(self), *final(self), key, handled),
    {
        match key {
            Key::Backspace => {
                if self.cursor > 0 {
                    self.cursor = self.cursor - 1;
                    self.remove_char(self.cursor);
                }
                true
            },
            Key::Delete => {
                if self.cursor < self.buffer.as_str().unicode_len() {
                    self.remove_char(self.cursor);
                }
                true
            },
            Key::Left => {
                if self.cursor > 0 {
                    self.cursor = self.cursor - 1;
                }
                true
            },
            Key::Right => {
                if self.cursor < self.buffer.as_str().unicode_len() {
                    self.cursor = self.cursor + 1;
                }
                true
            },
            Key::Home => {
                self.cursor = 0;
                true
            },
            Key::End => {
                self.cursor = self.buffer.as_str().unicode_len();
                true
            },
            Key::Up => {
                self.history_up();
                true
            },
            Key::Down => {
                self.history_down();
                true
            },
            Key::Char(c) => {
                self.insert_char(c);
                true
            },
            _ => false,
        }
    }

    /// Handles a character typed in normal mode, as far as it concerns the
    /// input line; see [`normal_edit`].
    pub fn normal_char(&mut self, c: char)
        requires
            old(self).wf(),
        ensures
            final(self).wf(),
            ({
                let edit = normal_edit(old(self).buffer@, old(self).cursor as int, c);
                &&& final(self).buffer@ == edit.0
                &&& final(self).cursor == edit.1
                &&& final(self).mode == if edit.2 {
                    InputMode::Insert
                } else {
                    old(self).mode
                }
            }),
            *final(self) == (InputLine {
                buffer: final(self).buffer,
                cursor: final(self).cursor,
                mode: final(self).mode,
                ..*old(self)
            }),
    {
        let v = text::chars(self.buffer.as_str());
        let len = v.len();
        if c == 'i' {
            self.mode = InputMode::Insert;
        } else if c == 'a' {
            if self.cursor < len {
                self.cursor = self.cursor + 1;
            }
            self.mode = InputMode::Insert;
        } else if c == 'I' {
            self.cursor = 0;
            self.mode = InputMode::Insert;
        } else if c == 'A' {
            self.cursor = len;
            self.mode = InputMode::Insert;
        } else if c == 'o' {
            self.clear();
            self.mode = InputMode::Insert;
        } else if c == 'h' {
            if self.cursor > 0 {
                self.cursor = self.cursor - 1;
            }
        } else if c == 'l' {
            if self.cursor < len {
                self.cursor = self.cursor + 1;
            }
        } else if c == '0' {
            self.cursor = 0;
        } else if c == '$' {
            self.cursor = len;
        } else if c == 'w' {
            let word_end = text::forward_over_exec(&v, self.cursor, false);
            self.cursor = text::forward_over_exec(&v, word_end, true);
        } else if c == 'b' {
            let space_start = text::back_over_exec(&v, self.cursor, true);
            self.cursor = text::back_over_exec(&v, space_start, false);
        } else if c == 'x' {
            if self.cursor < len {
                self.remove_char(self.cursor);
                if self.cursor > 0 && self.cursor >= len - 1 {
                    self.cursor = if len >= 2 {
                        len - 2
                    } else {
                        0
                    };
                }
            }
        } else if c == 'D' {
            self.truncate_at_cursor();
        }
    }

    /// Takes what was typed: the buffer is handed out and emptied, what was
    /// typed enters the history without the whitespace around it, unless
    /// nothing is left of it then, and browsing the history ends.
    pub fn submit(&mut self) -> (typed: String)
        requires
            old(self).wf(),
        ensures
            final(self).wf(),
            typed == old(self).buffer,
            final(self).buffer@.len() == 0,
            final(self).cursor == 0,
            final(self).history_index.is_none(),
            views(final(self).history@) == if text::trimmed(old(self).buffer@).len() > 0 {
                views(old(self).history@).push(text::trimmed(old(self).buffer@))
            } else {
                views(old(self).history@)
            },
            *final(self) == (InputLine {
                buffer: final(self).buffer,
                cursor: 0,
                history: final(self).history,
                history_index: None,
                ..*old(self)
            }),
    {
        let trimmed = text::trim(self.buffer.as_str());
        if !trimmed.as_str().is_empty() {
            proof {
                lemma_views_push(self.history@, trimmed);
            }
            self.history.push(trimmed);
        }
        self.history_index = None;
        self.cursor = 0;
        let mut typed = String::new();
        core::mem::swap(&mut self.buffer, &mut typed);
        typed
    }

    /// Hides the completion popup and forgets its candidates.
    pub fn hide_autocomplete(&mut self)
        ensures
            !final(self).autocomplete_visible,
            final(self).autocomplete_candidates@.len() == 0,
            final(self).autocomplete_index == 0,
            *final(self) == (InputLine {
                autocomplete_visible: false,
                autocomplete_candidates: final(self).autocomplete_candidates,
                autocomplete_index: 0,
                ..*old(self)
            }),
    {
        self.autocomplete_visible = false;
        self.autocomplete_candidates = Vec::new();
        self.autocomplete_index = 0;
    }

    /// Update the completion candidates for what is in the buffer.
    ///
    /// Completion is offered while the buffer begins with `/` and holds no
    /// space. The candidates are the commands whose name or alias begins
    /// with the buffer in lower case, in the order of the command table.
    /// Without candidates the popup is hidden; with candidates it is shown,
    /// and a selection that is out of range goes back to the first.
    pub fn update_autocomplete(&mut self)
        ensures
            autocomplete_updated(*old(self), *final(self)),
            *final(self) == (InputLine {
                autocomplete_visible: final(self).autocomplete_visible,
                autocomplete_candidates: final(self).autocomplete_candidates,
                autocomplete_index: final(self).autocomplete_index,
                ..*old(self)
            }),
    {
        let v = text::chars(self.buffer.as_str());
        if v.len() == 0 || v[0] != '/' || text::find_char_exec(&v, ' ') < v.len() {
            self.hide_autocomplete();
            return ;
        }
        let prefix = self.buffer.as_str().to_lowercase();
        let pv = text::chars(prefix.as_str());
        let table = commands();
        let mut found: Vec<usize> = Vec::new();
        let mut i: usize = 0;
        while i < table.len()
            invariant
                i <= table@.len(),
                table@ == commands_spec(),
                pv@ == text::lowercase(self.buffer@),
                found@ == candidates_among(table@, pv@, i as int),
            decreases table@.len() - i,
        {
            let name = text::chars(table[i].name);
            let alias = text::chars(table[i].alias);
            if text::occurs_at_exec(&name, &pv, 0) || (alias.len() > 0 && text::occurs_at_exec(
                &alias,
                &pv,
                0,
            )) {
                found.push(i);
            }
            i += 1;
        }
        if found.len() == 0 {
            self.hide_autocomplete();
        } else {
            if self.autocomplete_index >= found.len() {
                self.autocomplete_index = 0;
            }
            self.autocomplete_visible = true;
            self.autocomplete_candidates = found;
        }
    }

    /// Accept the currently selected completion: the buffer becomes the
    /// command's name, followed by a space where the command takes an
    /// argument, and the popup closes. Without a selected candidate nothing
    /// changes.
    pub fn apply_autocomplete(&mut self)
        requires
            old(self).wf(),
        ensures
            final(self).wf(),
            autocomplete_applied(*old(self), *final(self)),
    {
        if self.autocomplete_index >= self.autocomplete_candidates.len() {
            return ;
        }
        let cmd_idx = self.autocomplete_candidates[self.autocomplete_index];
        let table = commands();
        if cmd_idx >= table.len() {
            return ;
        }
        let cmd = table[cmd_idx];
        let completed = if cmd.args.is_empty() {
            String::from_str(cmd.name)
        } else {
            text::concat(cmd.name, " ")
        };
        self.set_buffer(completed);
        self.hide_autocomplete();
    }
}

/// What [`InputLine::update_autocomplete`] does.
pub open spec fn autocomplete_updated(before: InputLine, after: InputLine) -> bool {
    let found = candidates_among(
        commands_spec(),
        text::lowercase(before.buffer@),
        commands_spec().len() as int,
    );
    if completion_applies(before.buffer@) && found.len() > 0 {
        &&& after.autocomplete_visible
        &&& after.autocomplete_candidates@ == found
        &&& after.autocomplete_index == if before.autocomplete_index >= found.len() {
            0
        } else {
            before.autocomplete_index
        }
    } else {
        &&& !after.autocomplete_visible
        &&& after.autocomplete_candidates@.len() == 0
        &&& after.autocomplete_index == 0
    }
}

/// What [`InputLine::apply_autocomplete`] does.
pub open spec fn autocomplete_applied(before: InputLine, after: InputLine) -> bool {
    let table = commands_spec();
    let index = before.autocomplete_index as int;
    let candidates = before.autocomplete_candidates@;
    if index < candidates.len() && candidates[index] < table.len() {
        let cmd = table[candidates[index] as int];
        &&& after.buffer@ == if cmd.args@.len() == 0 {
            cmd.name@
        } else {
            cmd.name@ + " "@
        }
        &&& after.cursor == after.buffer@.len()
        &&& !after.autocomplete_visible
        &&& after.autocomplete_candidates@.len() == 0
        &&& after.autocomplete_index == 0
        &&& after == (InputLine {
            buffer: after.buffer,
            cursor: after.cursor,
            autocomplete_visible: false,
            autocomplete_candidates: after.autocomplete_candidates,
            autocomplete_index: 0,
            ..before
        })
    } else {
        after == before
    }
}

/// What [`InputLine::history_up`] does.
pub open spec fn history_went_up(before: InputLine, after: InputLine) -> bool {
    &&& match before.history_index {
        None => if before.history@.len() == 0 {
            after == before
        } else {
            &&& after.history_index == Some((before.history@.len() - 1) as usize)
            &&& after.history_draft@ == before.buffer@
            &&& after.buffer@ == before.history@[before.history@.len() - 1]@
            &&& after.cursor == after.buffer@.len()
        },
        Some(idx) => if idx == 0 {
            after == before
        } else {
            &&& after.history_index == Some((idx - 1) as usize)
            &&& after.history_draft == before.history_draft
            &&& after.buffer@ == before.history@[idx - 1]@
            &&& after.cursor == after.buffer@.len()
        },
    }
    &&& after == (InputLine {
        buffer: after.buffer,
        cursor: after.cursor,
        history_index: after.history_index,
        history_draft: after.history_draft,
        ..before
    })
}

/// What [`InputLine::history_down`] does.
pub open spec fn history_went_down(before: InputLine, after: InputLine) -> bool {
    &&& match before.history_index {
        None => after == before,
        Some(idx) => if idx + 1 < before.history@.len() {
            &&& after.history_index == Some((idx + 1) as usize)
            &&& after.buffer@ == before.history@[idx + 1]@
            &&& after.cursor == after.buffer@.len()
        } else {
            &&& after.history_index.is_none()
            &&& after.buffer@ == before.history_draft@
            &&& after.cursor == after.buffer@.len()
        },
    }
    &&& after == (InputLine {
        buffer: after.buffer,
        cursor: after.cursor,
        history_index: after.history_index,
        ..before
    })
}

/// Whether a key is a cursor or editing key.
pub open spec fn is_edit_key(key: Key) -> bool {
    key is Backspace || key is Delete || key is Left || key is Right || key is Home || key is End
        || key is Up || key is Down || key is Char
}

/// What [`InputLine::apply_input_edit`] does.
pub open spec fn edit_applied(before: InputLine, after: InputLine, key: Key, handled: bool) -> bool {
    &&& handled == is_edit_key(key)
    &&& match key {
        Key::Backspace => if before.cursor > 0 {
            &&& after.cursor == before.cursor - 1
            &&& after.buffer@ == before.buffer@.remove(before.cursor - 1)
        } else {
            after == before
        },
        Key::Delete => if before.cursor < before.buffer@.len() {
            &&& after.cursor == before.cursor
            &&& after.buffer@ == before.buffer@.remove(before.cursor as int)
        } else {
            after == before
        },
        Key::Left => {
            &&& after.buffer == before.buffer
            &&& after.cursor == if before.cursor > 0 {
                before.cursor - 1
            } else {
                0
            }
        },
        Key::Right => {
            &&& after.buffer == before.buffer
            &&& after.cursor == if before.cursor < before.buffer@.len() {
                before.cursor + 1
            } else {
                before.cursor as int
            }
        },
        Key::Home => after.buffer == before.buffer && after.cursor == 0,
        Key::End => after.buffer == before.buffer && after.cursor == before.buffer@.len(),
        Key::Char(c) => {
            &&& after.buffer@ == before.buffer@.insert(before.cursor as int, c)
            &&& after.cursor == before.cursor + 1
        },
        Key::Up => history_went_up(before, after),
        Key::Down => history_went_down(before, after),
        _ => after == before,
    }
    &&& !(key is Up || key is Down) ==> after == (InputLine {
        buffer: after.buffer,
        cursor: after.cursor,
        ..before
    })
}

/// The command table as a value of specifications: what
/// [`commands`] returns.
pub open spec fn commands_spec() -> Seq<CommandInfo> {
    command_table()
}

} // verus!
