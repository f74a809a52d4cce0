//! The first-run setup: its steps and what it checks.

use vstd::prelude::*;
use crate::app::{Key, KeyMods};
use crate::config::Config;
use crate::text;

verus! {

/// How the setup ended.
#[derive(Debug)]
pub enum SetupResult {
    /// Wizard finished successfully, use this config.
    Completed(Config),
    /// User had a valid config, no setup needed.
    Skipped,
    /// User cancelled during setup.
    Cancelled,
}

/// The steps of the setup, in order.
#[derive(Debug, Clone, Copy, PartialEq, Eq, Structural)]
pub enum Step {
    SignalCli,
    Account,
    Linking,
    Preferences,
    Done,
}

/// The label of a step.
pub open spec fn step_label_of(current: Step) -> Seq<char> {
    match current {
        Step::SignalCli => "Step 1 of 4"@,
        Step::Account => "Step 2 of 4"@,
        Step::Linking => "Step 3 of 4"@,
        Step::Preferences => "Step 4 of 4"@,
        Step::Done => "Complete"@,
    }
}

/// The label of a step.
pub fn step_label(current: Step) -> (r: &'static str)
    ensures
        r@ == step_label_of(current),
{
    match current {
        Step::SignalCli => "Step 1 of 4",
        Step::Account => "Step 2 of 4",
        Step::Linking => "Step 3 of 4",
        Step::Preferences => "Step 4 of 4",
        Step::Done => "Complete",
    }
}

/// Whether a character is one of the digits `0` to `9`.
pub open spec fn is_digit(c: char) -> bool {
    '0' <= c <= '9'
}

/// What is wrong with a phone number, if anything. The number is taken
/// without the whitespace around it; it is to begin with `+`, to have
/// eight bytes or more, and to hold nothing but digits after the `+`.
pub open spec fn phone_error(input: Seq<char>) -> Option<Seq<char>> {
    let t = text::trimmed(input);
    if t.len() == 0 {
        Some("Phone number cannot be empty"@)
    } else if t[0] != '+' {
        Some("Must start with + (E.164 format)"@)
    } else if vstd::utf8::encode_utf8(t).len() < 8 {
        Some("Phone number too short"@)
    } else if exists|i: int| 1 <= i < t.len() && !is_digit(#[trigger] t[i]) {
        Some("Only digits allowed after +"@)
    } else {
        None
    }
}

/// Checks a phone number in E.164 format; see [`phone_error`] for what is
/// asked of it.
pub fn validate_phone(input: &str) -> (r: Result<(), String>)
    ensures
        match r {
            Ok(_) => phone_error(input@).is_none(),
            Err(e) => phone_error(input@) == Some(e@),
        },
{
    let trimmed = text::trim(input);
    let v = text::chars(trimmed.as_str());
    if v.len() == 0 {
        return Err(String::from_str("Phone number cannot be empty"));
    }
    if v[0] != '+' {
        return Err(String::from_str("Must start with + (E.164 format)"));
    }
    if trimmed.as_str().as_bytes().len() < 8 {
        return Err(String::from_str("Phone number too short"));
    }
    let mut i: usize = 1;
    while i < v.len()
        invariant
            1 <= i <= v.len(),
            v@ == text::trimmed(input@),
            v@[0] == '+',
            vstd::utf8::encode_utf8(v@).len() >= 8,
            forall|j: int| 1 <= j < i ==> is_digit(#[trigger] v@[j]),
        decreases v.len() - i,
    {
        if !(v[i] >= '0' && v[i] <= '9') {
            proof {
                let t = text::trimmed(input@);
                assert(1 <= i < t.len() && !is_digit(t[i as int]));
            }
            return Err(String::from_str("Only digits allowed after +"));
        }
        i += 1;
    }
    Ok(())
}

/// A line of text that is being typed, with its cursor, which counts
/// characters.
#[derive(Debug)]
pub struct TextField {
    pub text: String,
    pub cursor: usize,
}

/// What an editing key does to a line of text and its cursor: Backspace
/// removes the character before the cursor, Left and Right move the cursor
/// within the text, a character is inserted at the cursor. Every other key
/// leaves both as they are.
pub open spec fn field_edited(text: Seq<char>, cursor: int, key: Key) -> (Seq<char>, int) {
    match key {
        Key::Backspace => if 0 < cursor <= text.len() {
            (text.remove(cursor - 1), cursor - 1)
        } else {
            (text, cursor)
        },
        Key::Left => (
            text,
            if cursor > 0 {
                cursor - 1
            } else {
                0
            },
        ),
        Key::Right => (
            text,
            if cursor < text.len() {
                cursor + 1
            } else {
                cursor
            },
        ),
        Key::Char(c) => if 0 <= cursor <= text.len() {
            (text.insert(cursor, c), cursor + 1)
        } else {
            (text, cursor)
        },
        _ => (text, cursor),
    }
}

impl TextField {
    /// The cursor is within the text.
    pub open spec fn wf(&self) -> bool {
        self.cursor <= self.text@.len()
    }

    /// An empty line.
    pub fn new() -> (r: Self)
        ensures
            r.wf(),
            r.text@.len() == 0,
            r.cursor == 0,
    {
        TextField { text: String::new(), cursor: 0 }
    }

    /// Handles an editing key; see [`field_edited`].
    pub fn edit(&mut self, key: Key)
        requires
            old(self).wf(),
        ensures
            final(self).wf(),
            final(self).text@ == field_edited(old(self).text@, old(self).cursor as int, key).0,
            final(self).cursor == field_edited(old(self).text@, old(self).cursor as int, key).1,
    {
        match key {
            Key::Backspace => {
                if self.cursor > 0 {
                    let mut v = text::chars(self.text.as_str());
                    self.cursor = self.cursor - 1;
                    v.remove(self.cursor);
                    self.text = text::from_chars(&v, 0, v.len());
                    proof {
                        assert(v@.subrange(0, v@.len() as int) =~= v@);
                    }
                }
            },
            Key::Left => {
                if self.cursor > 0 {
                    self.cursor = self.cursor - 1;
                }
            },
            Key::Right => {
                if self.cursor < self.text.as_str().unicode_len() {
                    self.cursor = self.cursor + 1;
                }
            },
            Key::Char(c) => {
                let mut v = text::chars(self.text.as_str());
                v.insert(self.cursor, c);
                self.text = text::from_chars(&v, 0, v.len());
                proof {
                    assert(v@.subrange(0, v@.len() as int) =~= v@);
                }
                self.cursor = self.cursor + 1;
            },
            _ => {},
        }
    }
}

/// How an attempt to link the device ended.
#[derive(Debug, Clone, Copy, PartialEq, Eq, Structural)]
pub enum LinkOutcome {
    /// The account is registered already.
    Registered,
    /// The device was linked.
    Linked,
    /// The user gave up.
    Cancelled,
    /// Linking failed, and the user wants to try again.
    FailedRetry,
    /// Linking failed, and the user wants to go back.
    FailedBack,
}

/// The state of the setup: the step, what was entered so far, and what was
/// found out about the backend.
#[derive(Debug)]
pub struct Wizard {
    pub step: Step,
    /// The configuration that the setup is building.
    pub config: Config,
    /// Where the backend is looked for.
    pub signal_cli_path: String,
    /// Whether the backend was found there. While it is not, the caller
    /// looks for it and reports with [`Wizard::cli_checked`].
    pub signal_cli_found: bool,
    pub signal_cli_location: String,
    /// A path to the backend is being typed.
    pub custom_path_mode: bool,
    pub custom_path: TextField,
    pub phone: TextField,
    pub phone_error: Option<String>,
}

/// What the wizard looks like after a key in the first step, where the
/// backend is looked for.
///
/// While a path is being typed, Esc stops that, Enter takes a path that is
/// not empty and has it looked for, and the other keys edit the path.
/// Otherwise Enter has the backend looked for again and `p` starts the
/// typing of a path.
pub open spec fn cli_step_key(before: Wizard, after: Wizard, key: Key) -> bool {
    if before.custom_path_mode {
        match key {
            Key::Esc => after == (Wizard { custom_path_mode: false, ..before }),
            Key::Enter => if before.custom_path.text@.len() > 0 {
                &&& after.signal_cli_path@ == before.custom_path.text@
                &&& after == (Wizard {
                    signal_cli_path: after.signal_cli_path,
                    signal_cli_found: false,
                    custom_path_mode: false,
                    ..before
                })
            } else {
                after == before
            },
            _ => {
                &&& after.custom_path.text@ == field_edited(
                    before.custom_path.text@,
                    before.custom_path.cursor as int,
                    key,
                ).0
                &&& after.custom_path.cursor == field_edited(
                    before.custom_path.text@,
                    before.custom_path.cursor as int,
                    key,
                ).1
                &&& after == (Wizard { custom_path: after.custom_path, ..before })
            },
        }
    } else {
        match key {
            Key::Enter => after == (Wizard { signal_cli_found: false, ..before }),
            Key::Char('p') => {
                &&& after.custom_path.text@.len() == 0
                &&& after.custom_path.cursor == 0
                &&& after == (Wizard {
                    custom_path_mode: true,
                    custom_path: after.custom_path,
                    ..before
                })
            },
            _ => after == before,
        }
    }
}

/// What the wizard looks like after a key in the second step, where the
/// phone number is typed.
///
/// Esc goes back to the first step. Enter takes a number that passes
/// [`validate_phone`] and goes on to linking, or shows what is wrong with
/// the number. The other keys edit the number; Backspace and characters
/// also take the complaint away.
pub open spec fn account_step_key(before: Wizard, after: Wizard, key: Key) -> bool {
    match key {
        Key::Esc => after == (Wizard {
            step: Step::SignalCli,
            signal_cli_found: false,
            custom_path_mode: false,
            ..before
        }),
        Key::Enter => match phone_error(before.phone.text@) {
            None => {
                &&& after.config.account@ == before.phone.text@
                &&& after.config == (Config { account: after.config.account, ..before.config })
                &&& after == (Wizard {
                    step: Step::Linking,
                    config: after.config,
                    phone_error: None,
                    ..before
                })
            },
            Some(complaint) => {
                &&& after.phone_error matches Some(e) && e@ == complaint
                &&& after == (Wizard { phone_error: after.phone_error, ..before })
            },
        },
        _ => {
            &&& after.phone.text@ == field_edited(
                before.phone.text@,
                before.phone.cursor as int,
                key,
            ).0
            &&& after.phone.cursor == field_edited(
                before.phone.text@,
                before.phone.cursor as int,
                key,
            ).1
            &&& after == (Wizard {
                phone: after.phone,
                phone_error: if key is Backspace || key is Char {
                    None
                } else {
                    before.phone_error
                },
                ..before
            })
        },
    }
}

/// What the wizard looks like after a key in the fourth step, where the
/// preferences are set: `1` and `2` switch the bell for 1:1 chats and for
/// groups, Enter finishes, Esc goes back to linking.
pub open spec fn preferences_step_key(before: Wizard, after: Wizard, key: Key) -> bool {
    match key {
        Key::Char('1') => after == (Wizard {
            config: Config { notify_direct: !before.config.notify_direct, ..before.config },
            ..before
        }),
        Key::Char('2') => after == (Wizard {
            config: Config { notify_group: !before.config.notify_group, ..before.config },
            ..before
        }),
        Key::Enter => after == (Wizard { step: Step::Done, ..before }),
        Key::Esc => after == (Wizard { step: Step::Linking, ..before }),
        _ => after == before,
    }
}

/// Whether a key ends the setup without a result: Control-C in the steps
/// that take keys, and Esc in the first step unless a path is being typed.
pub open spec fn cancels(w: Wizard, mods: KeyMods, key: Key) -> bool {
    let takes_keys = w.step == Step::SignalCli || w.step == Step::Account || w.step
        == Step::Preferences;
    takes_keys && ((mods == KeyMods::Control && key == Key::Char('c')) || (w.step
        == Step::SignalCli && key == Key::Esc && !w.custom_path_mode))
}

impl Wizard {
    /// The cursors are within their texts.
    pub open spec fn wf(&self) -> bool {
        self.custom_path.wf() && self.phone.wf()
    }

    /// The wizard at its first step, for a configuration to start from.
    pub fn new(config: Config) -> (r: Self)
        ensures
            r.wf(),
            r.step == Step::SignalCli,
            r.config == config,
            r.signal_cli_path@ == config.signal_cli_path@,
            !r.signal_cli_found && !r.custom_path_mode,
            r.phone.text@.len() == 0 && r.custom_path.text@.len() == 0,
            r.phone_error.is_none(),
    {
        let signal_cli_path = config.signal_cli_path.clone();
        Wizard {
            step: Step::SignalCli,
            config,
            signal_cli_path,
            signal_cli_found: false,
            signal_cli_location: String::new(),
            custom_path_mode: false,
            custom_path: TextField::new(),
            phone: TextField::new(),
            phone_error: None,
        }
    }

    /// Notes what looking for the backend gave.
    pub fn cli_checked(&mut self, found: bool, location: String)
        ensures
            *final(self) == (Wizard {
                signal_cli_found: found,
                signal_cli_location: location,
                ..*old(self)
            }),
    {
        self.signal_cli_found = found;
        self.signal_cli_location = location;
    }

    /// Goes on from the first step once the backend was found and no path
    /// is being typed: the path enters the configuration, and the second
    /// step begins. Returns whether it went on.
    pub fn advance_from_cli(&mut self) -> (advanced: bool)
        ensures
            advanced == (old(self).step == Step::SignalCli && old(self).signal_cli_found && !old(
                self,
            ).custom_path_mode),
            if advanced {
                &&& final(self).config.signal_cli_path@ == old(self).signal_cli_path@
                &&& final(self).config == (Config {
                    signal_cli_path: final(self).config.signal_cli_path,
                    ..old(self).config
                })
                &&& *final(self) == (Wizard {
                    step: Step::Account,
                    config: final(self).config,
                    ..*old(self)
                })
            } else {
                *final(self) == *old(self)
            },
    {
        let ready = match self.step {
            Step::SignalCli => self.signal_cli_found && !self.custom_path_mode,
            _ => false,
        };
        if ready {
            self.config.signal_cli_path = self.signal_cli_path.clone();
            self.step = Step::Account;
        }
        ready
    }

    /// Goes on from the third step with the outcome of linking: to the
    /// preferences once the account is registered or the device linked,
    /// back to the phone number where the user gave up or wants to go back,
    /// and nowhere where the user wants to try again.
    pub fn linking_finished(&mut self, outcome: LinkOutcome)
        ensures
            *final(self) == (Wizard {
                step: if old(self).step != Step::Linking {
                    old(self).step
                } else {
                    match outcome {
                        LinkOutcome::Registered | LinkOutcome::Linked => Step::Preferences,
                        LinkOutcome::Cancelled | LinkOutcome::FailedBack => Step::Account,
                        LinkOutcome::FailedRetry => Step::Linking,
                    }
                },
                ..*old(self)
            }),
    {
        match self.step {
            Step::Linking => match outcome {
                LinkOutcome::Registered | LinkOutcome::Linked => {
                    self.step = Step::Preferences;
                },
                LinkOutcome::Cancelled | LinkOutcome::FailedBack => {
                    self.step = Step::Account;
                },
                LinkOutcome::FailedRetry => {},
            },
            _ => {},
        }
    }

    /// Handles a key in the first step.
    fn cli_key(&mut self, key: Key)
        requires
            old(self).wf(),
        ensures
            final(self).wf(),
            cli_step_key(*old(self), *final(self), key),
    {
        if self.custom_path_mode {
            match key {
                Key::Esc => {
                    self.custom_path_mode = false;
                },
                Key::Enter => {
                    if !self.custom_path.text.as_str().is_empty() {
                        self.signal_cli_path = self.custom_path.text.clone();
                        self.signal_cli_found = false;
                        self.custom_path_mode = false;
                    }
                },
                _ => self.custom_path.edit(key),
            }
        } else {
            match key {
                Key::Enter => {
                    self.signal_cli_found = false;
                },
                Key::Char(c) => {
                    if c == 'p' {
                        self.custom_path_mode = true;
                        self.custom_path = TextField::new();
                    }
                },
                _ => {},
            }
        }
    }

    /// Handles a key in the second step.
    fn account_key(&mut self, key: Key)
        requires
            old(self).wf(),
        ensures
            final(self).wf(),
            account_step_key(*old(self), *final(self), key),
    {
        match key {
            Key::Esc => {
                self.step = Step::SignalCli;
                self.signal_cli_found = false;
                self.custom_path_mode = false;
            },
            Key::Enter => {
                match validate_phone(self.phone.text.as_str()) {
                    Ok(_) => {
                        self.config.account = self.phone.text.clone();
                        self.phone_error = None;
                        self.step = Step::Linking;
                    },
                    Err(complaint) => {
                        self.phone_error = Some(complaint);
                    },
                }
            },
            _ => {
                self.phone.edit(key);
                match key {
                    Key::Backspace | Key::Char(_) => {
                        self.phone_error = None;
                    },
                    _ => {},
                }
            },
        }
    }

    /// Handles a key in the fourth step.
    fn preferences_key(&mut self, key: Key)
        ensures
            preferences_step_key(*old(self), *final(self), key),
    {
        match key {
            Key::Char(c) => {
                if c == '1' {
                    self.config.notify_direct = !self.config.notify_direct;
                } else if c == '2' {
                    self.config.notify_group = !self.config.notify_group;
                }
            },
            Key::Enter => {
                self.step = Step::Done;
            },
            Key::Esc => {
                self.step = Step::Linking;
            },
            _ => {},
        }
    }

    /// Handles a key and returns whether the setup goes on; `false` means
    /// that the user cancelled it.
    ///
    /// What a key does depends on the step; see [`cli_step_key`],
    /// [`account_step_key`] and [`preferences_step_key`]. The steps in which
    /// the application works by itself, linking and the end, take no keys.
    pub fn handle_key(&mut self, mods: KeyMods, key: Key) -> (goes_on: bool)
        requires
            old(self).wf(),
        ensures
            final(self).wf(),
            goes_on == !cancels(*old(self), mods, key),
            if !goes_on {
                *final(self) == *old(self)
            } else {
                match old(self).step {
                    Step::SignalCli => cli_step_key(*old(self), *final(self), key),
                    Step::Account => account_step_key(*old(self), *final(self), key),
                    Step::Preferences => preferences_step_key(*old(self), *final(self), key),
                    Step::Linking | Step::Done => *final(self) == *old(self),
                }
            },
    {
        let control_c = match key {
            Key::Char(c) => c == 'c' && mods == KeyMods::Control,
            _ => false,
        };
        match self.step {
            Step::SignalCli => {
                let escapes = match key {
                    Key::Esc => !self.custom_path_mode,
                    _ => false,
                };
                if control_c || escapes {
                    return false;
                }
                self.cli_key(key);
            },
            Step::Account => {
                if control_c {
                    return false;
                }
                self.account_key(key);
            },
            Step::Preferences => {
                if control_c {
                    return false;
                }
                self.preferences_key(key);
            },
            Step::Linking | Step::Done => {},
        }
        true
    }
}

} // verus!
