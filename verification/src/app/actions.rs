//! What the user asks for by submitting the input line.

use vstd::prelude::*;
use crate::text;
use crate::app::{App, Overlays, Reconciler, Screen, SendRequest};
use crate::app::editing::InputLine;
use crate::app::navigation::{read_noted, scroll_after_join};
use crate::app::overlays::{contact_views, listed_contacts, sorted_by_name};
use crate::app::timeline::{
    active_length, bell_toggled, joined, marked_read, mute_toggled, status_updated, text_sent,
    ReconcilerView,
};
use crate::input::{parse_input, parsed_input, InputAction, InputActionView};
use crate::model::{opt_view, views};
use crate::strmap::index_in;

verus! {

/// What a [`SendRequest`] holds.
pub enum SendRequestView {
    Message { recipient: Seq<char>, body: Seq<char>, is_group: bool, local_ts_ms: i64 },
    Reaction {
        conv_id: Seq<char>,
        emoji: Seq<char>,
        is_group: bool,
        target_author: Seq<char>,
        target_timestamp: i64,
        remove: bool,
    },
}

impl View for SendRequest {
    type V = SendRequestView;

    open spec fn view(&self) -> SendRequestView {
        match *self {
            SendRequest::Message { recipient, body, is_group, local_ts_ms } => {
                SendRequestView::Message { recipient: recipient@, body: body@, is_group, local_ts_ms }
            },
            SendRequest::Reaction {
                conv_id,
                emoji,
                is_group,
                target_author,
                target_timestamp,
                remove,
            } => SendRequestView::Reaction {
                conv_id: conv_id@,
                emoji: emoji@,
                is_group,
                target_author: target_author@,
                target_timestamp,
                remove,
            },
        }
    }
}

/// Whether conversation `id` of the state is a group.
pub open spec fn is_group_of(w: ReconcilerView, id: Seq<char>) -> bool {
    let p = index_in(w.ledger.keys, id);
    0 <= p < w.ledger.convs.len() && w.ledger.convs[p].is_group
}

/// What an action of the user does to the application at `now`, and what
/// it asks to be sent.
///
/// - Text goes to the active conversation as a message that is `Sending`,
///   and the view scrolls to the bottom; without an active conversation the
///   status bar says so. Empty text does nothing.
/// - `/join` switches conversations, `/part` leaves the active one.
/// - `/quit`, `/sidebar`, `/bell`, `/mute`, `/settings`, `/contacts` and
///   `/help` do what their names say.
/// - An unknown command shows its message in the status bar.
pub open spec fn acted(
    core: Reconciler,
    overlays: Overlays,
    screen: Screen,
    should_quit: bool,
    action: InputActionView,
    now: i64,
    core_after: Reconciler,
    overlays_after: Overlays,
    screen_after: Screen,
    should_quit_after: bool,
    r: Option<SendRequest>,
) -> bool {
    match action {
        InputActionView::SendText(text) => {
            &&& overlays_after == overlays
            &&& should_quit_after == should_quit
            &&& if text.len() == 0 {
                r.is_none() && core_after == core && screen_after == screen
            } else {
                match core@.active {
                    Some(id) => {
                        &&& core_after@ == text_sent(core@, id, text, now)
                        &&& screen_after == (Screen { scroll_offset: 0, ..screen })
                        &&& r matches Some(req) && req@ == (SendRequestView::Message {
                            recipient: id,
                            body: text,
                            is_group: is_group_of(core@, id),
                            local_ts_ms: now,
                        })
                    },
                    None => {
                        &&& r.is_none()
                        &&& screen_after == screen
                        &&& core_after@ == (ReconcilerView {
                            status_message: "No active conversation. Use /join <name> first."@,
                            ..core@
                        })
                    },
                }
            }
        },
        InputActionView::Join(target) => {
            &&& r.is_none()
            &&& overlays_after == overlays
            &&& should_quit_after == should_quit
            &&& core_after@ == joined(marked_read(core@), target)
            &&& read_noted(
                screen.last_read_index,
                screen_after.last_read_index,
                core@.active,
                active_length(core@),
            )
            &&& screen_after == (Screen {
                last_read_index: screen_after.last_read_index,
                scroll_offset: scroll_after_join(core@, target, screen.scroll_offset),
                ..screen
            })
        },
        InputActionView::Part => {
            &&& r.is_none()
            &&& overlays_after == overlays
            &&& should_quit_after == should_quit
            &&& core_after@ == status_updated(ReconcilerView { active: None, ..core@ })
            &&& screen_after == (Screen { scroll_offset: 0, ..screen })
        },
        InputActionView::Quit => {
            &&& r.is_none()
            &&& should_quit_after
            &&& core_after == core
            &&& overlays_after == overlays
            &&& screen_after == screen
        },
        InputActionView::ToggleSidebar => {
            &&& r.is_none()
            &&& should_quit_after == should_quit
            &&& core_after == core
            &&& overlays_after == overlays
            &&& screen_after == (Screen { sidebar_visible: !screen.sidebar_visible, ..screen })
        },
        InputActionView::ToggleBell(kind) => {
            &&& r.is_none()
            &&& should_quit_after == should_quit
            &&& core_after@ == bell_toggled(core@, kind)
            &&& overlays_after == overlays
            &&& screen_after == screen
        },
        InputActionView::ToggleMute => {
            &&& r.is_none()
            &&& should_quit_after == should_quit
            &&& core_after@ == mute_toggled(core@)
            &&& overlays_after == overlays
            &&& screen_after == screen
        },
        InputActionView::Help => {
            &&& r.is_none()
            &&& should_quit_after == should_quit
            &&& core_after == core
            &&& overlays_after == (Overlays { show_help: true, ..overlays })
            &&& screen_after == screen
        },
        InputActionView::Settings => {
            &&& r.is_none()
            &&& should_quit_after == should_quit
            &&& core_after == core
            &&& overlays_after == (Overlays { show_settings: true, settings_index: 0, ..overlays })
            &&& screen_after == screen
        },
        InputActionView::Contacts => {
            &&& r.is_none()
            &&& should_quit_after == should_quit
            &&& core_after == core
            &&& screen_after == screen
            &&& overlays_after.show_contacts
            &&& overlays_after.contacts_index == 0
            &&& overlays_after.contacts_filter@.len() == 0
            &&& sorted_by_name(
                contact_views(overlays_after.contacts_filtered@),
            )
            &&& contact_views(
                overlays_after.contacts_filtered@,
            ).to_multiset() == listed_contacts(
                core.contact_names.entries@,
                text::lowercase(Seq::empty()),
            ).to_multiset()
            &&& overlays_after == (Overlays {
                show_contacts: true,
                contacts_index: 0,
                contacts_filter: overlays_after.contacts_filter,
                contacts_filtered: overlays_after.contacts_filtered,
                ..overlays
            })
        },
        InputActionView::Unknown(message) => {
            &&& r.is_none()
            &&& should_quit_after == should_quit
            &&& core_after@ == (ReconcilerView { status_message: message, ..core@ })
            &&& overlays_after == overlays
            &&& screen_after == screen
        },
    }
}

/// What holds after the line in the input buffer was submitted at `now`.
pub open spec fn input_handled(before: App, after: App, now: i64, r: Option<SendRequest>) -> bool {
    &&& after.input == (InputLine {
        buffer: after.input.buffer,
        cursor: 0,
        history: after.input.history,
        history_index: None,
        ..before.input
    })
    &&& after.input.buffer@.len() == 0
    &&& views(after.input.history@) == if text::trimmed(before.input.buffer@).len() > 0 {
        views(before.input.history@).push(text::trimmed(before.input.buffer@))
    } else {
        views(before.input.history@)
    }
    &&& acted(
        before.core,
        before.overlays,
        before.screen,
        before.should_quit,
        parsed_input(before.input.buffer@),
        now,
        after.core,
        after.overlays,
        after.screen,
        after.should_quit,
        r,
    )
    &&& after.connected == before.connected
    &&& after.connection_error == before.connection_error
    &&& after.incognito == before.incognito
}

impl Reconciler {
    /// Shows a message in the status bar.
    pub fn set_status(&mut self, message: String)
        requires
            old(self).wf(),
        ensures
            final(self).wf(),
            final(self)@ == (ReconcilerView { status_message: message@, ..old(self)@ }),
            *final(self) == (Reconciler { status_message: message, ..*old(self) }),
    {
        self.status_message = message;
    }

    /// Leaves the active conversation.
    pub fn part(&mut self)
        requires
            old(self).wf(),
        ensures
            final(self).wf(),
            final(self)@ == status_updated(ReconcilerView { active: None, ..old(self)@ }),
            *final(self) == (Reconciler {
                active_conversation: None,
                status_message: final(self).status_message,
                ..*old(self)
            }),
    {
        self.active_conversation = None;
        self.update_status();
    }
}

impl App {
    /// Sends text to the active conversation at `now`.
    fn act_send(&mut self, text: String, now: i64) -> (r: Option<SendRequest>)
        requires
            old(self).wf(),
        ensures
            final(self).wf(),
            acted(
                old(self).core,
                old(self).overlays,
                old(self).screen,
                old(self).should_quit,
                InputActionView::SendText(text@),
                now,
                final(self).core,
                final(self).overlays,
                final(self).screen,
                final(self).should_quit,
                r,
            ),
            *final(self) == (App { core: final(self).core, screen: final(self).screen, ..*old(self) }),
    {
        if text.as_str().is_empty() {
            return None;
        }
        let id: String = match &self.core.active_conversation {
            Some(id) => id.clone(),
            None => {
                self.core.set_status(
                    String::from_str("No active conversation. Use /join <name> first."),
                );
                return None;
            },
        };
        let is_group = self.core.send_text(id.as_str(), text.as_str(), now);
        self.screen.scroll_offset = 0;
        Some(SendRequest::Message { recipient: id, body: text, is_group, local_ts_ms: now })
    }

    /// Switches to the conversation that the user asked for.
    fn act_join(&mut self, target: String, now: i64) -> (r: Option<SendRequest>)
        requires
            old(self).wf(),
        ensures
            final(self).wf(),
            acted(
                old(self).core,
                old(self).overlays,
                old(self).screen,
                old(self).should_quit,
                InputActionView::Join(target@),
                now,
                final(self).core,
                final(self).overlays,
                final(self).screen,
                final(self).should_quit,
                r,
            ),
            *final(self) == (App {
                core: final(self).core,
                overlays: final(self).overlays,
                screen: final(self).screen,
                should_quit: final(self).should_quit,
                ..*old(self)
            }),
    {
        self.join_conversation(target.as_str());
        None
    }

    /// Leaves the active conversation and scrolls to the bottom.
    fn act_part(&mut self, now: i64) -> (r: Option<SendRequest>)
        requires
            old(self).wf(),
        ensures
            final(self).wf(),
            acted(
                old(self).core,
                old(self).overlays,
                old(self).screen,
                old(self).should_quit,
                InputActionView::Part,
                now,
                final(self).core,
                final(self).overlays,
                final(self).screen,
                final(self).should_quit,
                r,
            ),
            *final(self) == (App {
                core: final(self).core,
                overlays: final(self).overlays,
                screen: final(self).screen,
                should_quit: final(self).should_quit,
                ..*old(self)
            }),
    {
        self.core.part();
        self.screen.scroll_offset = 0;
        None
    }

    /// Asks the application to quit.
    fn act_quit(&mut self, now: i64) -> (r: Option<SendRequest>)
        requires
            old(self).wf(),
        ensures
            final(self).wf(),
            acted(
                old(self).core,
                old(self).overlays,
                old(self).screen,
                old(self).should_quit,
                InputActionView::Quit,
                now,
                final(self).core,
                final(self).overlays,
                final(self).screen,
                final(self).should_quit,
                r,
            ),
            *final(self) == (App {
                core: final(self).core,
                overlays: final(self).overlays,
                screen: final(self).screen,
                should_quit: final(self).should_quit,
                ..*old(self)
            }),
    {
        self.should_quit = true;
        None
    }

    /// Shows or hides the sidebar.
    fn act_sidebar(&mut self, now: i64) -> (r: Option<SendRequest>)
        requires
            old(self).wf(),
        ensures
            final(self).wf(),
            acted(
                old(self).core,
                old(self).overlays,
                old(self).screen,
                old(self).should_quit,
                InputActionView::ToggleSidebar,
                now,
                final(self).core,
                final(self).overlays,
                final(self).screen,
                final(self).should_quit,
                r,
            ),
            *final(self) == (App {
                core: final(self).core,
                overlays: final(self).overlays,
                screen: final(self).screen,
                should_quit: final(self).should_quit,
                ..*old(self)
            }),
    {
        self.screen.sidebar_visible = !self.screen.sidebar_visible;
        None
    }

    /// Toggles the bell.
    fn act_bell(&mut self, kind: Option<String>, now: i64) -> (r: Option<SendRequest>)
        requires
            old(self).wf(),
        ensures
            final(self).wf(),
            acted(
                old(self).core,
                old(self).overlays,
                old(self).screen,
                old(self).should_quit,
                InputActionView::ToggleBell(opt_view(kind)),
                now,
                final(self).core,
                final(self).overlays,
                final(self).screen,
                final(self).should_quit,
                r,
            ),
            *final(self) == (App {
                core: final(self).core,
                overlays: final(self).overlays,
                screen: final(self).screen,
                should_quit: final(self).should_quit,
                ..*old(self)
            }),
    {
        match &kind {
            Some(k) => self.core.toggle_bell(Some(k.as_str())),
            None => self.core.toggle_bell(None),
        }
        None
    }

    /// Mutes or unmutes the active conversation.
    fn act_mute(&mut self, now: i64) -> (r: Option<SendRequest>)
        requires
            old(self).wf(),
        ensures
            final(self).wf(),
            acted(
                old(self).core,
                old(self).overlays,
                old(self).screen,
                old(self).should_quit,
                InputActionView::ToggleMute,
                now,
                final(self).core,
                final(self).overlays,
                final(self).screen,
                final(self).should_quit,
                r,
            ),
            *final(self) == (App {
                core: final(self).core,
                overlays: final(self).overlays,
                screen: final(self).screen,
                should_quit: final(self).should_quit,
                ..*old(self)
            }),
    {
        self.core.toggle_mute();
        None
    }

    /// Opens the help overlay.
    fn act_help(&mut self, now: i64) -> (r: Option<SendRequest>)
        requires
            old(self).wf(),
        ensures
            final(self).wf(),
            acted(
                old(self).core,
                old(self).overlays,
                old(self).screen,
                old(self).should_quit,
                InputActionView::Help,
                now,
                final(self).core,
                final(self).overlays,
                final(self).screen,
                final(self).should_quit,
                r,
            ),
            *final(self) == (App {
                core: final(self).core,
                overlays: final(self).overlays,
                screen: final(self).screen,
                should_quit: final(self).should_quit,
                ..*old(self)
            }),
    {
        self.overlays.show_help = true;
        None
    }

    /// Opens the settings overlay with the cursor on the first setting.
    fn act_settings(&mut self, now: i64) -> (r: Option<SendRequest>)
        requires
            old(self).wf(),
        ensures
            final(self).wf(),
            acted(
                old(self).core,
                old(self).overlays,
                old(self).screen,
                old(self).should_quit,
                InputActionView::Settings,
                now,
                final(self).core,
                final(self).overlays,
                final(self).screen,
                final(self).should_quit,
                r,
            ),
            *final(self) == (App {
                core: final(self).core,
                overlays: final(self).overlays,
                screen: final(self).screen,
                should_quit: final(self).should_quit,
                ..*old(self)
            }),
    {
        self.overlays.show_settings = true;
        self.overlays.settings_index = 0;
        None
    }

    /// Opens the contacts overlay.
    fn act_contacts(&mut self, now: i64) -> (r: Option<SendRequest>)
        requires
            old(self).wf(),
        ensures
            final(self).wf(),
            acted(
                old(self).core,
                old(self).overlays,
                old(self).screen,
                old(self).should_quit,
                InputActionView::Contacts,
                now,
                final(self).core,
                final(self).overlays,
                final(self).screen,
                final(self).should_quit,
                r,
            ),
            *final(self) == (App {
                core: final(self).core,
                overlays: final(self).overlays,
                screen: final(self).screen,
                should_quit: final(self).should_quit,
                ..*old(self)
            }),
    {
        self.open_contacts();
        None
    }

    /// Shows the message of an unknown command in the status bar.
    fn act_unknown(&mut self, message: String, now: i64) -> (r: Option<SendRequest>)
        requires
            old(self).wf(),
        ensures
            final(self).wf(),
            acted(
                old(self).core,
                old(self).overlays,
                old(self).screen,
                old(self).should_quit,
                InputActionView::Unknown(message@),
                now,
                final(self).core,
                final(self).overlays,
                final(self).screen,
                final(self).should_quit,
                r,
            ),
            *final(self) == (App {
                core: final(self).core,
                overlays: final(self).overlays,
                screen: final(self).screen,
                should_quit: final(self).should_quit,
                ..*old(self)
            }),
    {
        self.core.set_status(message);
        None
    }

    /// Does what an action of the user asks for; see [`acted`].
    pub fn act(&mut self, action: InputAction, now: i64) -> (r: Option<SendRequest>)
        requires
            old(self).wf(),
        ensures
            final(self).wf(),
            acted(
                old(self).core,
                old(self).overlays,
                old(self).screen,
                old(self).should_quit,
                action@,
                now,
                final(self).core,
                final(self).overlays,
                final(self).screen,
                final(self).should_quit,
                r,
            ),
            *final(self) == (App {
                core: final(self).core,
                overlays: final(self).overlays,
                screen: final(self).screen,
                should_quit: final(self).should_quit,
                ..*old(self)
            }),
    {
        match action {
            InputAction::SendText(text) => self.act_send(text, now),
            InputAction::Join(target) => self.act_join(target, now),
            InputAction::Part => self.act_part(now),
            InputAction::Quit => self.act_quit(now),
            InputAction::ToggleSidebar => self.act_sidebar(now),
            InputAction::ToggleBell(kind) => self.act_bell(kind, now),
            InputAction::ToggleMute => self.act_mute(now),
            InputAction::Help => self.act_help(now),
            InputAction::Settings => self.act_settings(now),
            InputAction::Contacts => self.act_contacts(now),
            InputAction::Unknown(message) => self.act_unknown(message, now),
        }
    }

    /// Handle the line in the input buffer, submitted at `now`. Returns
    /// what is to be sent to the backend, if anything.
    ///
    /// The line enters the history and the buffer is emptied; then the line
    /// is parsed and acted upon. See [`input_handled`].
    pub fn handle_input_at(&mut self, now: i64) -> (r: Option<SendRequest>)
        requires
            old(self).wf(),
        ensures
            final(self).wf(),
            input_handled(*old(self), *final(self), now, r),
    {
        let typed = self.input.submit();
        let action = parse_input(typed.as_str());
        self.act(action, now)
    }

    /// Handle the line in the input buffer, submitted now.
    pub fn handle_input(&mut self) -> (r: Option<SendRequest>)
        requires
            old(self).wf(),
        ensures
            final(self).wf(),
            exists|now: i64| input_handled(*old(self), *final(self), now, r),
    {
        let now = crate::clock::now_millis();
        let r = self.handle_input_at(now);
        proof {
            assert(input_handled(*old(self), *self, now, r));
        }
        r
    }
}

} // verus!
