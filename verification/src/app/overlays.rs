//! The overlays: settings, contacts, and the reaction picker.

use vstd::prelude::*;
use crate::text;
use crate::app::{App, DbOp, DisplayMessage, Key, Overlays, Reconciler, Screen, SendRequest};
use crate::app::actions::SendRequestView;
use crate::app::reactions::merge_reaction;
use crate::app::timeline::{
    conversation_wf, joined, lemma_reactions_merged_wf, marked_read, message_wf, reaction_op,
    reactions_merged, with_message, with_reactions, Ledger, ReconcilerView,
};
use crate::config::Config;
use crate::model::lemma_views_push;
use crate::strmap::{index_in, lemma_index_in};

verus! {

/// The number of settings that the settings overlay lists.
pub const SETTINGS_COUNT: usize = 9;

/// The number of emojis that the reaction picker offers.
pub const QUICK_REACTION_COUNT: usize = 8;

/// The label of a setting; empty for an index that names none.
pub open spec fn setting_label_of(index: int) -> Seq<char> {
    if index == 0 {
        "Direct message notifications"@
    } else if index == 1 {
        "Group message notifications"@
    } else if index == 2 {
        "Sidebar visible"@
    } else if index == 3 {
        "Inline image previews"@
    } else if index == 4 {
        "Native images (experimental)"@
    } else if index == 5 {
        "Read receipts"@
    } else if index == 6 {
        "Receipt colors"@
    } else if index == 7 {
        "Nerd Font icons"@
    } else if index == 8 {
        "Verbose reactions"@
    } else {
        ""@
    }
}

/// The label of a setting; empty for an index that names none.
pub fn setting_label(index: usize) -> (r: &'static str)
    ensures
        r@ == setting_label_of(index as int),
{
    if index == 0 {
        "Direct message notifications"
    } else if index == 1 {
        "Group message notifications"
    } else if index == 2 {
        "Sidebar visible"
    } else if index == 3 {
        "Inline image previews"
    } else if index == 4 {
        "Native images (experimental)"
    } else if index == 5 {
        "Read receipts"
    } else if index == 6 {
        "Receipt colors"
    } else if index == 7 {
        "Nerd Font icons"
    } else if index == 8 {
        "Verbose reactions"
    } else {
        ""
    }
}

/// The emoji at a place of the reaction picker.
pub fn quick_reaction(index: usize) -> (r: Option<&'static str>)
    ensures
        r.is_some() == (index < QUICK_REACTION_COUNT),
        r matches Some(e) ==> e@ == quick_reaction_of(index as int),
{
    if index == 0 {
        Some("\u{1f44d}")
    } else if index == 1 {
        Some("\u{1f44e}")
    } else if index == 2 {
        Some("\u{2764}\u{fe0f}")
    } else if index == 3 {
        Some("\u{1f602}")
    } else if index == 4 {
        Some("\u{1f62e}")
    } else if index == 5 {
        Some("\u{1f622}")
    } else if index == 6 {
        Some("\u{1f64f}")
    } else if index == 7 {
        Some("\u{1f525}")
    } else {
        None
    }
}

/// The emoji at a place of the reaction picker: thumbs up, thumbs down,
/// heart, joy, surprise, tear, folded hands, fire.
pub open spec fn quick_reaction_of(index: int) -> Seq<char> {
    if index == 0 {
        "\u{1f44d}"@
    } else if index == 1 {
        "\u{1f44e}"@
    } else if index == 2 {
        "\u{2764}\u{fe0f}"@
    } else if index == 3 {
        "\u{1f602}"@
    } else if index == 4 {
        "\u{1f62e}"@
    } else if index == 5 {
        "\u{1f622}"@
    } else if index == 6 {
        "\u{1f64f}"@
    } else {
        "\u{1f525}"@
    }
}

/// Whether a contact is listed under a filter, which is in lower case: it
/// has a name, and the filter is empty or part of the name or of the
/// number, whatever their case.
pub open spec fn contact_listed(number: Seq<char>, name: Seq<char>, filter: Seq<char>) -> bool {
    name.len() > 0 && (filter.len() == 0 || text::contains(text::lowercase(name), filter)
        || text::contains(text::lowercase(number), filter))
}

/// The contacts listed under a filter, in the order of the table.
pub open spec fn listed_contacts(entries: Seq<(String, String)>, filter: Seq<char>) -> Seq<
    (Seq<char>, Seq<char>),
>
    decreases entries.len(),
{
    if entries.len() == 0 {
        Seq::empty()
    } else {
        let rest = listed_contacts(entries.drop_last(), filter);
        if contact_listed(entries.last().0@, entries.last().1@, filter) {
            rest.push((entries.last().0@, entries.last().1@))
        } else {
            rest
        }
    }
}

/// What a list of contacts holds.
pub open spec fn contact_views(list: Seq<(String, String)>) -> Seq<(Seq<char>, Seq<char>)> {
    Seq::new(list.len(), |i: int| (list[i].0@, list[i].1@))
}

/// Whether the contacts are in the order of their names in lower case.
pub open spec fn sorted_by_name(list: Seq<(Seq<char>, Seq<char>)>) -> bool {
    forall|i: int|
        0 <= i && i + 1 < list.len() ==> text::lex_le(
            text::lowercase((#[trigger] list[i]).1),
            text::lowercase(list[i + 1].1),
        )
}

/// The index within the list of contacts after the list changed: the last
/// place where it was behind the end.
pub open spec fn clamped_index(index: usize, len: int) -> usize {
    if len == 0 {
        0
    } else if index >= len {
        (len - 1) as usize
    } else {
        index
    }
}

/// What a key does while the settings overlay is open.
///
/// `j` and Down move the cursor down, `k` and Up move it up, within the
/// list; Space, Enter and Tab switch the setting at the cursor over; Esc
/// and `q` close the overlay and ask for the settings to be written.
pub open spec fn settings_key_handled(before: App, after: App, key: Key) -> bool {
    let down = key == Key::Down || key == Key::Char('j');
    let up = key == Key::Up || key == Key::Char('k');
    let toggles = key == Key::Enter || key == Key::Tab || key == Key::Char(' ');
    let closes = key == Key::Esc || key == Key::Char('q');
    if down {
        after == (App {
            overlays: Overlays {
                settings_index: if before.overlays.settings_index < SETTINGS_COUNT - 1 {
                    (before.overlays.settings_index + 1) as usize
                } else {
                    before.overlays.settings_index
                },
                ..before.overlays
            },
            ..before
        })
    } else if up {
        after == (App {
            overlays: Overlays {
                settings_index: if before.overlays.settings_index > 0 {
                    (before.overlays.settings_index - 1) as usize
                } else {
                    0
                },
                ..before.overlays
            },
            ..before
        })
    } else if toggles {
        &&& setting_toggled(before, after, before.overlays.settings_index as int)
        &&& after.core == (Reconciler {
            notify_direct: after.core.notify_direct,
            notify_group: after.core.notify_group,
            ..before.core
        })
        &&& after.screen == (Screen {
            sidebar_visible: after.screen.sidebar_visible,
            inline_images: after.screen.inline_images,
            native_images: after.screen.native_images,
            show_receipts: after.screen.show_receipts,
            color_receipts: after.screen.color_receipts,
            nerd_fonts: after.screen.nerd_fonts,
            reaction_verbose: after.screen.reaction_verbose,
            ..before.screen
        })
        &&& after == (App { core: after.core, screen: after.screen, ..before })
    } else if closes {
        after == (App {
            overlays: Overlays {
                show_settings: false,
                pending_settings_save: true,
                ..before.overlays
            },
            ..before
        })
    } else {
        after == before
    }
}

/// What a key does while the contacts overlay is open.
///
/// `j` and Down move the cursor down, `k` and Up move it up, within the
/// list. Enter closes the overlay and switches to the conversation with
/// the contact at the cursor. Esc closes the overlay. Backspace removes the
/// last character of the filter, any other character is added to it; the
/// list follows the filter.
pub open spec fn contacts_key_handled(before: App, after: App, key: Key) -> bool {
    let down = key == Key::Down || key == Key::Char('j');
    let up = key == Key::Up || key == Key::Char('k');
    let index = before.overlays.contacts_index;
    let listed = before.overlays.contacts_filtered@;
    if down {
        after == (App {
            overlays: Overlays {
                contacts_index: if index + 1 < listed.len() {
                    (index + 1) as usize
                } else {
                    index
                },
                ..before.overlays
            },
            ..before
        })
    } else if up {
        after == (App {
            overlays: Overlays {
                contacts_index: if index > 0 {
                    (index - 1) as usize
                } else {
                    0
                },
                ..before.overlays
            },
            ..before
        })
    } else {
        match key {
            Key::Enter => if index < listed.len() {
                &&& after.overlays.contacts_filter@.len() == 0
                &&& after.overlays == (Overlays {
                    show_contacts: false,
                    contacts_filter: after.overlays.contacts_filter,
                    ..before.overlays
                })
                &&& after.core@ == joined(
                    marked_read(before.core@),
                    listed[index as int].0@,
                )
                &&& crate::app::navigation::read_noted(
                    before.screen.last_read_index,
                    after.screen.last_read_index,
                    before.core@.active,
                    crate::app::timeline::active_length(before.core@),
                )
                &&& after.screen == (Screen {
                    last_read_index: after.screen.last_read_index,
                    scroll_offset: crate::app::navigation::scroll_after_join(
                        before.core@,
                        listed[index as int].0@,
                        before.screen.scroll_offset,
                    ),
                    ..before.screen
                })
                &&& after == (App {
                    core: after.core,
                    overlays: after.overlays,
                    screen: after.screen,
                    ..before
                })
            } else {
                after == before
            },
            Key::Esc => {
                &&& after.overlays.contacts_filter@.len() == 0
                &&& after == (App {
                    overlays: Overlays {
                        show_contacts: false,
                        contacts_filter: after.overlays.contacts_filter,
                        ..before.overlays
                    },
                    ..before
                })
            },
            Key::Backspace => filter_changed(
                before,
                after,
                if before.overlays.contacts_filter@.len() > 0 {
                    before.overlays.contacts_filter@.drop_last()
                } else {
                    Seq::empty()
                },
            ),
            Key::Char(c) => filter_changed(before, after, before.overlays.contacts_filter@.push(c)),
            _ => after == before,
        }
    }
}

/// What holds after the filter of the contacts overlay became `filter`:
/// the list holds the contacts that the filter lists, in the order of their
/// names, and the cursor is within the list.
pub open spec fn filter_changed(before: App, after: App, filter: Seq<char>) -> bool {
    &&& after.overlays.contacts_filter@ == filter
    &&& contact_views(after.overlays.contacts_filtered@).to_multiset() == listed_contacts(
        before.core.contact_names.entries@,
        text::lowercase(filter),
    ).to_multiset()
    &&& sorted_by_name(contact_views(after.overlays.contacts_filtered@))
    &&& after.overlays.contacts_index == clamped_index(
        before.overlays.contacts_index,
        after.overlays.contacts_filtered@.len() as int,
    )
    &&& after == (App {
        overlays: Overlays {
            contacts_filter: after.overlays.contacts_filter,
            contacts_filtered: after.overlays.contacts_filtered,
            contacts_index: after.overlays.contacts_index,
            ..before.overlays
        },
        ..before
    })
}

/// Whether `after` has the settings of `before` but for the one at `index`,
/// which it has the other way round.
pub open spec fn setting_toggled(before: App, after: App, index: int) -> bool {
    &&& after.core.notify_direct == (before.core.notify_direct != (index == 0))
    &&& after.core.notify_group == (before.core.notify_group != (index == 1))
    &&& after.screen.sidebar_visible == (before.screen.sidebar_visible != (index == 2))
    &&& after.screen.inline_images == (before.screen.inline_images != (index == 3))
    &&& after.screen.native_images == (before.screen.native_images != (index == 4))
    &&& after.screen.show_receipts == (before.screen.show_receipts != (index == 5))
    &&& after.screen.color_receipts == (before.screen.color_receipts != (index == 6))
    &&& after.screen.nerd_fonts == (before.screen.nerd_fonts != (index == 7))
    &&& after.screen.reaction_verbose == (before.screen.reaction_verbose != (index == 8))
}

impl Screen {
    /// Switches the display setting at `index` of the settings list over.
    pub fn toggle(&mut self, index: usize)
        ensures
            final(self).sidebar_visible == (if index == 2 {
                !old(self).sidebar_visible
            } else {
                old(self).sidebar_visible
            }),
            final(self).inline_images == (if index == 3 {
                !old(self).inline_images
            } else {
                old(self).inline_images
            }),
            final(self).native_images == (if index == 4 {
                !old(self).native_images
            } else {
                old(self).native_images
            }),
            final(self).show_receipts == (if index == 5 {
                !old(self).show_receipts
            } else {
                old(self).show_receipts
            }),
            final(self).color_receipts == (if index == 6 {
                !old(self).color_receipts
            } else {
                old(self).color_receipts
            }),
            final(self).nerd_fonts == (if index == 7 {
                !old(self).nerd_fonts
            } else {
                old(self).nerd_fonts
            }),
            final(self).reaction_verbose == (if index == 8 {
                !old(self).reaction_verbose
            } else {
                old(self).reaction_verbose
            }),
            *final(self) == (Screen {
                sidebar_visible: final(self).sidebar_visible,
                inline_images: final(self).inline_images,
                native_images: final(self).native_images,
                show_receipts: final(self).show_receipts,
                color_receipts: final(self).color_receipts,
                nerd_fonts: final(self).nerd_fonts,
                reaction_verbose: final(self).reaction_verbose,
                ..*old(self)
            }),
    {
        if index == 2 {
            self.sidebar_visible = !self.sidebar_visible;
        } else if index == 3 {
            self.inline_images = !self.inline_images;
        } else if index == 4 {
            self.native_images = !self.native_images;
        } else if index == 5 {
            self.show_receipts = !self.show_receipts;
        } else if index == 6 {
            self.color_receipts = !self.color_receipts;
        } else if index == 7 {
            self.nerd_fonts = !self.nerd_fonts;
        } else if index == 8 {
            self.reaction_verbose = !self.reaction_verbose;
        }
    }
}

impl App {
    /// Whether the setting at `index` is on; `false` for an index that
    /// names none.
    pub open spec fn setting_of(&self, index: int) -> bool {
        if index == 0 {
            self.core.notify_direct
        } else if index == 1 {
            self.core.notify_group
        } else if index == 2 {
            self.screen.sidebar_visible
        } else if index == 3 {
            self.screen.inline_images
        } else if index == 4 {
            self.screen.native_images
        } else if index == 5 {
            self.screen.show_receipts
        } else if index == 6 {
            self.screen.color_receipts
        } else if index == 7 {
            self.screen.nerd_fonts
        } else if index == 8 {
            self.screen.reaction_verbose
        } else {
            false
        }
    }

    /// Whether the setting at `index` is on.
    pub fn setting_value(&self, index: usize) -> (r: bool)
        ensures
            r == self.setting_of(index as int),
    {
        if index == 0 {
            self.core.notify_direct
        } else if index == 1 {
            self.core.notify_group
        } else if index == 2 {
            self.screen.sidebar_visible
        } else if index == 3 {
            self.screen.inline_images
        } else if index == 4 {
            self.screen.native_images
        } else if index == 5 {
            self.screen.show_receipts
        } else if index == 6 {
            self.screen.color_receipts
        } else if index == 7 {
            self.screen.nerd_fonts
        } else if index == 8 {
            self.screen.reaction_verbose
        } else {
            false
        }
    }

    /// Switches the setting at `index` over. Every other setting stays, and
    /// an index that names no setting changes nothing.
    pub fn toggle_setting(&mut self, index: usize)
        ensures
            setting_toggled(*old(self), *final(self), index as int),
            final(self).core == (Reconciler {
                notify_direct: final(self).core.notify_direct,
                notify_group: final(self).core.notify_group,
                ..old(self).core
            }),
            final(self).screen == (Screen {
                sidebar_visible: final(self).screen.sidebar_visible,
                inline_images: final(self).screen.inline_images,
                native_images: final(self).screen.native_images,
                show_receipts: final(self).screen.show_receipts,
                color_receipts: final(self).screen.color_receipts,
                nerd_fonts: final(self).screen.nerd_fonts,
                reaction_verbose: final(self).screen.reaction_verbose,
                ..old(self).screen
            }),
            *final(self) == (App { core: final(self).core, screen: final(self).screen, ..*old(self) }),
    {
        if index == 0 {
            self.core.notify_direct = !self.core.notify_direct;
        } else if index == 1 {
            self.core.notify_group = !self.core.notify_group;
        } else {
            self.screen.toggle(index);
        }
    }

    /// Puts the account and the settings that are kept between runs into a
    /// configuration. The visibility of the sidebar is not kept.
    pub fn save_settings(&self, config: &mut Config)
        ensures
            final(config).account == self.core.account,
            final(config).notify_direct == self.core.notify_direct,
            final(config).notify_group == self.core.notify_group,
            final(config).inline_images == self.screen.inline_images,
            final(config).native_images == self.screen.native_images,
            final(config).show_receipts == self.screen.show_receipts,
            final(config).color_receipts == self.screen.color_receipts,
            final(config).nerd_fonts == self.screen.nerd_fonts,
            final(config).reaction_verbose == self.screen.reaction_verbose,
            final(config).signal_cli_path == old(config).signal_cli_path,
            final(config).download_dir == old(config).download_dir,
    {
        config.account = self.core.account.clone();
        config.notify_direct = self.core.notify_direct;
        config.notify_group = self.core.notify_group;
        config.inline_images = self.screen.inline_images;
        config.native_images = self.screen.native_images;
        config.show_receipts = self.screen.show_receipts;
        config.color_receipts = self.screen.color_receipts;
        config.nerd_fonts = self.screen.nerd_fonts;
        config.reaction_verbose = self.screen.reaction_verbose;
    }

    /// Handle a key press while the settings overlay is open.
    ///
    /// `j` and Down move the cursor down, `k` and Up move it up, within the
    /// list; Space, Enter and Tab switch the setting at the cursor over; Esc
    /// and `q` close the overlay and ask for the settings to be written.
    pub fn handle_settings_key(&mut self, key: Key)
        ensures
            settings_key_handled(*old(self), *final(self), key),
    {
        match key {
            Key::Down => self.settings_down(),
            Key::Up => self.settings_up(),
            Key::Enter | Key::Tab => self.toggle_setting(self.overlays.settings_index),
            Key::Esc => self.close_settings(),
            Key::Char(c) => {
                if c == 'j' {
                    self.settings_down();
                } else if c == 'k' {
                    self.settings_up();
                } else if c == ' ' {
                    self.toggle_setting(self.overlays.settings_index);
                } else if c == 'q' {
                    self.close_settings();
                }
            },
            _ => {},
        }
    }

    /// Moves the cursor of the settings list down, within the list.
    fn settings_down(&mut self)
        ensures
            final(self).overlays == (Overlays {
                settings_index: if old(self).overlays.settings_index < SETTINGS_COUNT - 1 {
                    (old(self).overlays.settings_index + 1) as usize
                } else {
                    old(self).overlays.settings_index
                },
                ..old(self).overlays
            }),
            *final(self) == (App { overlays: final(self).overlays, ..*old(self) }),
    {
        if self.overlays.settings_index < SETTINGS_COUNT - 1 {
            self.overlays.settings_index += 1;
        }
    }

    /// Moves the cursor of the settings list up, within the list.
    fn settings_up(&mut self)
        ensures
            final(self).overlays == (Overlays {
                settings_index: if old(self).overlays.settings_index > 0 {
                    (old(self).overlays.settings_index - 1) as usize
                } else {
                    0
                },
                ..old(self).overlays
            }),
            *final(self) == (App { overlays: final(self).overlays, ..*old(self) }),
    {
        if self.overlays.settings_index > 0 {
            self.overlays.settings_index -= 1;
        }
    }

    /// Closes the settings overlay and asks for the settings to be written.
    fn close_settings(&mut self)
        ensures
            final(self).overlays == (Overlays {
                show_settings: false,
                pending_settings_save: true,
                ..old(self).overlays
            }),
            *final(self) == (App { overlays: final(self).overlays, ..*old(self) }),
    {
        self.overlays.show_settings = false;
        self.overlays.pending_settings_save = true;
    }
}

/// Puts a contact into a list that is in the order of the names, behind
/// the contacts that do not come after it, so that the list stays in that
/// order.
pub fn insert_by_name(sorted: &mut Vec<(String, String)>, contact: (String, String))
    requires
        sorted_by_name(contact_views(old(sorted)@)),
    ensures
        sorted_by_name(contact_views(final(sorted)@)),
        contact_views(final(sorted)@).to_multiset() == contact_views(
            old(sorted)@,
        ).to_multiset().insert((contact.0@, contact.1@)),
        final(sorted)@.len() == old(sorted)@.len() + 1,
{
    let ghost before = contact_views(sorted@);
    let ghost added = (contact.0@, contact.1@);
    let key = text::chars(contact.1.as_str().to_lowercase().as_str());
    let mut j: usize = 0;
    let mut found = false;
    while j < sorted.len() && !found
        invariant
            j <= sorted@.len(),
            sorted@ == old(sorted)@,
            before == contact_views(sorted@),
            key@ == text::lowercase(contact.1@),
            forall|k: int| 0 <= k < j ==> text::lex_le(text::lowercase((#[trigger] before[k]).1), key@),
            found ==> j < sorted@.len() && text::lex_le(key@, text::lowercase(before[j as int].1)),
        decreases sorted@.len() - j + if found { 0int } else { 1int },
    {
        let other = text::chars(sorted[j].1.as_str().to_lowercase().as_str());
        if text::lex_le_exec(&other, &key) {
            assert(text::lex_le(text::lowercase(before[j as int].1), key@));
            j += 1;
        } else {
            proof {
                text::lemma_lex_total(other@, key@);
            }
            found = true;
        }
    }
    sorted.insert(j, contact);
    proof {
        let after = contact_views(sorted@);
        assert(after =~= before.insert(j as int, added));
        assert forall|i: int| 0 <= i && i + 1 < after.len() implies text::lex_le(
            text::lowercase((#[trigger] after[i]).1),
            text::lowercase(after[i + 1].1),
        ) by {
            if i + 1 < j {
                assert(after[i] == before[i]);
                assert(after[i + 1] == before[i + 1]);
            } else if i + 1 == j {
                assert(after[i] == before[i]);
            } else if i == j {
                assert(after[i + 1] == before[j as int]);
            } else {
                assert(after[i] == before[i - 1]);
                assert(after[i + 1] == before[i]);
            }
        }
        assert(after.remove(j as int) =~= before);
        after.to_multiset_ensures();
        assert(after.contains(added)) by {
            assert(after[j as int] == added);
        }
        assert(before.to_multiset() =~= after.to_multiset().remove(added));
        assert(after.to_multiset() =~= before.to_multiset().insert(added));
    }
}

/// The number under which a display name is known: that of the first
/// contact with this name.
pub open spec fn number_for_name(entries: Seq<(String, String)>, name: Seq<char>) -> Option<Seq<char>>
    decreases entries.len(),
{
    if entries.len() == 0 {
        None
    } else {
        match number_for_name(entries.drop_last(), name) {
            Some(n) => Some(n),
            None => if entries.last().1@ == name {
                Some(entries.last().0@)
            } else {
                None
            },
        }
    }
}

/// The index of the selected message in a timeline of `len` messages: the
/// newest one for a scroll offset of 0, older ones for higher offsets, the
/// oldest for an offset beyond the beginning.
pub open spec fn selected_index(len: int, scroll_offset: usize) -> int {
    if len - 1 - scroll_offset > 0 {
        len - 1 - scroll_offset
    } else {
        0
    }
}

impl Reconciler {
    /// The number under which a display name is known.
    pub fn find_number_for(&self, name: &str) -> (r: Option<&String>)
        ensures
            match r {
                Some(n) => number_for_name(self.contact_names.entries@, name@) == Some(n@),
                None => number_for_name(self.contact_names.entries@, name@).is_none(),
            },
    {
        let mut i: usize = 0;
        let ghost all = self.contact_names.entries@;
        proof {
            assert(all.take(0) =~= Seq::<(String, String)>::empty());
        }
        while i < self.contact_names.entries.len()
            invariant
                i <= all.len(),
                all == self.contact_names.entries@,
                number_for_name(all.take(i as int), name@).is_none(),
            decreases all.len() - i,
        {
            proof {
                assert(all.take(i + 1).drop_last() =~= all.take(i as int));
                assert(all.take(i + 1).last() == all[i as int]);
            }
            if self.contact_names.entries[i].1.as_str().eq(name) {
                proof {
                    lemma_number_found(all, name@, i as int + 1);
                }
                return Some(&self.contact_names.entries[i].0);
            }
            i += 1;
        }
        proof {
            assert(all.take(all.len() as int) =~= all);
        }
        None
    }
}

/// A number that is found among the first contacts is found among all.
proof fn lemma_number_found(entries: Seq<(String, String)>, name: Seq<char>, n: int)
    requires
        0 <= n <= entries.len(),
        number_for_name(entries.take(n), name).is_some(),
    ensures
        number_for_name(entries, name) == number_for_name(entries.take(n), name),
    decreases entries.len() - n,
{
    if n < entries.len() {
        assert(entries.take(n + 1).drop_last() =~= entries.take(n));
        lemma_number_found(entries, name, n + 1);
    } else {
        assert(entries.take(n) =~= entries);
    }
}

impl App {
    /// Build the filtered contacts list from the known names and the
    /// filter.
    ///
    /// The list holds the contacts that have a name and whose name or number
    /// holds the filter, whatever the case, in the order of their names in
    /// lower case. The cursor stays within the list.
    pub fn refresh_contacts_filter(&mut self)
        ensures
            contact_views(final(self).overlays.contacts_filtered@).to_multiset() == listed_contacts(
                old(self).core.contact_names.entries@,
                text::lowercase(old(self).overlays.contacts_filter@),
            ).to_multiset(),
            sorted_by_name(contact_views(final(self).overlays.contacts_filtered@)),
            final(self).overlays.contacts_index == clamped_index(
                old(self).overlays.contacts_index,
                final(self).overlays.contacts_filtered@.len() as int,
            ),
            final(self).overlays == (Overlays {
                contacts_filtered: final(self).overlays.contacts_filtered,
                contacts_index: final(self).overlays.contacts_index,
                ..old(self).overlays
            }),
            *final(self) == (App { overlays: final(self).overlays, ..*old(self) }),
    {
        let filter = self.overlays.contacts_filter.as_str().to_lowercase();
        let mut sorted: Vec<(String, String)> = Vec::new();
        let ghost all = self.core.contact_names.entries@;
        let mut i: usize = 0;
        proof {
            assert(all.take(0) =~= Seq::<(String, String)>::empty());
            assert(contact_views(sorted@) =~= Seq::empty());
        }
        while i < self.core.contact_names.entries.len()
            invariant
                i <= all.len(),
                all == self.core.contact_names.entries@,
                filter@ == text::lowercase(self.overlays.contacts_filter@),
                sorted_by_name(contact_views(sorted@)),
                contact_views(sorted@).to_multiset() == listed_contacts(
                    all.take(i as int),
                    filter@,
                ).to_multiset(),
                *self == *old(self),
            decreases all.len() - i,
        {
            proof {
                assert(all.take(i + 1).drop_last() =~= all.take(i as int));
                assert(all.take(i + 1).last() == all[i as int]);
            }
            let number = &self.core.contact_names.entries[i].0;
            let name = &self.core.contact_names.entries[i].1;
            let listed = !name.as_str().is_empty() && (filter.as_str().is_empty()
                || text::contains_exec(name.as_str().to_lowercase().as_str(), filter.as_str())
                || text::contains_exec(number.as_str().to_lowercase().as_str(), filter.as_str()));
            if listed {
                proof {
                    listed_contacts(all.take(i as int), filter@).to_multiset_ensures();
                }
                insert_by_name(&mut sorted, (number.clone(), name.clone()));
            }
            i += 1;
        }
        proof {
            assert(all.take(all.len() as int) =~= all);
        }
        if sorted.len() == 0 {
            self.overlays.contacts_index = 0;
        } else if self.overlays.contacts_index >= sorted.len() {
            self.overlays.contacts_index = sorted.len() - 1;
        }
        self.overlays.contacts_filtered = sorted;
    }

    /// Closes the contacts overlay and empties its filter.
    fn close_contacts(&mut self)
        ensures
            !final(self).overlays.show_contacts,
            final(self).overlays.contacts_filter@.len() == 0,
            final(self).overlays == (Overlays {
                show_contacts: false,
                contacts_filter: final(self).overlays.contacts_filter,
                ..old(self).overlays
            }),
            *final(self) == (App { overlays: final(self).overlays, ..*old(self) }),
    {
        self.overlays.show_contacts = false;
        self.overlays.contacts_filter = String::new();
    }

    /// Opens the contacts overlay with an empty filter and the cursor on
    /// the first contact.
    pub fn open_contacts(&mut self)
        ensures
            final(self).overlays.show_contacts,
            final(self).overlays.contacts_index == 0,
            final(self).overlays.contacts_filter@.len() == 0,
            contact_views(final(self).overlays.contacts_filtered@).to_multiset() == listed_contacts(
                old(self).core.contact_names.entries@,
                text::lowercase(Seq::empty()),
            ).to_multiset(),
            sorted_by_name(contact_views(final(self).overlays.contacts_filtered@)),
            final(self).overlays == (Overlays {
                show_contacts: true,
                contacts_index: 0,
                contacts_filter: final(self).overlays.contacts_filter,
                contacts_filtered: final(self).overlays.contacts_filtered,
                ..old(self).overlays
            }),
            *final(self) == (App { overlays: final(self).overlays, ..*old(self) }),
    {
        self.overlays.show_contacts = true;
        self.overlays.contacts_index = 0;
        self.overlays.contacts_filter = String::new();
        self.refresh_contacts_filter();
    }

    /// Changes the filter of the contacts overlay and builds the list anew.
    fn set_contacts_filter(&mut self, filter: String)
        ensures
            final(self).core.wf() == old(self).core.wf(),
            filter_changed(*old(self), *final(self), filter@),
    {
        self.overlays.contacts_filter = filter;
        self.refresh_contacts_filter();
    }

    /// Switches to the conversation with the contact at the cursor.
    fn contacts_enter(&mut self)
        requires
            old(self).wf(),
        ensures
            final(self).wf(),
            contacts_key_handled(*old(self), *final(self), Key::Enter),
    {
        if self.overlays.contacts_index < self.overlays.contacts_filtered.len() {
            let number = self.overlays.contacts_filtered[self.overlays.contacts_index].0.clone();
            self.close_contacts();
            self.join_conversation(number.as_str());
        }
    }

    /// Removes the last character of the filter.
    fn contacts_backspace(&mut self)
        requires
            old(self).wf(),
        ensures
            final(self).wf(),
            contacts_key_handled(*old(self), *final(self), Key::Backspace),
    {
        let v = text::chars(self.overlays.contacts_filter.as_str());
        let shorter = if v.len() > 0 {
            proof {
                assert(v@.subrange(0, v@.len() - 1) =~= v@.drop_last());
            }
            text::from_chars(&v, 0, v.len() - 1)
        } else {
            String::new()
        };
        self.set_contacts_filter(shorter);
    }

    /// Handles a character: `j` and `k` move the cursor, any other
    /// character is added to the filter.
    fn contacts_char(&mut self, c: char)
        requires
            old(self).wf(),
        ensures
            final(self).wf(),
            contacts_key_handled(*old(self), *final(self), Key::Char(c)),
    {
        if c == 'j' {
            self.contacts_down();
        } else if c == 'k' {
            self.contacts_up();
        } else {
            let mut longer = self.overlays.contacts_filter.clone();
            longer.push(c);
            self.set_contacts_filter(longer);
        }
    }

    /// Handle a key press while the contacts overlay is open; see
    /// [`contacts_key_handled`].
    pub fn handle_contacts_key(&mut self, key: Key)
        requires
            old(self).wf(),
        ensures
            final(self).wf(),
            contacts_key_handled(*old(self), *final(self), key),
    {
        match key {
            Key::Down => self.contacts_down(),
            Key::Up => self.contacts_up(),
            Key::Enter => self.contacts_enter(),
            Key::Esc => self.close_contacts(),
            Key::Backspace => self.contacts_backspace(),
            Key::Char(c) => self.contacts_char(c),
            _ => {},
        }
    }

    /// Moves the cursor of the contacts list down, within the list.
    fn contacts_down(&mut self)
        ensures
            final(self).overlays == (Overlays {
                contacts_index: if old(self).overlays.contacts_index + 1 < old(
                    self,
                ).overlays.contacts_filtered@.len() {
                    (old(self).overlays.contacts_index + 1) as usize
                } else {
                    old(self).overlays.contacts_index
                },
                ..old(self).overlays
            }),
            *final(self) == (App { overlays: final(self).overlays, ..*old(self) }),
    {
        let len = self.overlays.contacts_filtered.len();
        if len > 0 && self.overlays.contacts_index < len - 1 {
            self.overlays.contacts_index += 1;
        }
    }

    /// Moves the cursor of the contacts list up, within the list.
    fn contacts_up(&mut self)
        ensures
            final(self).overlays == (Overlays {
                contacts_index: if old(self).overlays.contacts_index > 0 {
                    (old(self).overlays.contacts_index - 1) as usize
                } else {
                    0
                },
                ..old(self).overlays
            }),
            *final(self) == (App { overlays: final(self).overlays, ..*old(self) }),
    {
        if self.overlays.contacts_index > 0 {
            self.overlays.contacts_index -= 1;
        }
    }
}

/// The place of the selected message: the index of the active conversation
/// in the table and the index of the message in its timeline. None where no
/// conversation is active, or the active one is not in the table or has no
/// messages.
pub open spec fn selected_at(w: ReconcilerView, scroll_offset: usize) -> Option<(int, int)> {
    match w.active {
        Some(id) => {
            let p = index_in(w.ledger.keys, id);
            if 0 <= p < w.ledger.convs.len() && w.ledger.convs[p].messages.len() > 0 {
                Some((p, selected_index(w.ledger.convs[p].messages.len() as int, scroll_offset)))
            } else {
                None
            }
        },
        None => None,
    }
}

/// The author that a reaction to a message names: the account for the
/// user's own messages, else the number under which the sender's name is
/// known, else the sender as shown.
pub open spec fn reaction_author(
    sender: Seq<char>,
    account: Seq<char>,
    number: Option<Seq<char>>,
) -> Seq<char> {
    if sender == "you"@ {
        account
    } else {
        match number {
            Some(n) => n,
            None => sender,
        }
    }
}

/// The state after the user reacted to message `i` of conversation `p`: the
/// user's reaction is merged into the message's reactions and queued for
/// writing.
pub open spec fn own_reaction_added(
    w: ReconcilerView,
    p: int,
    i: int,
    emoji: Seq<char>,
    author: Seq<char>,
) -> ReconcilerView {
    let l = w.ledger;
    let m = l.convs[p].messages[i];
    ReconcilerView {
        ledger: Ledger {
            convs: l.convs.update(
                p,
                with_message(
                    l.convs[p],
                    i,
                    with_reactions(m, reactions_merged(m.reactions, "you"@, emoji, false)),
                ),
            ),
            ops: l.ops.push(reaction_op(l.keys[p], emoji, "you"@, author, m.timestamp_ms, false)),
            ..l
        },
        ..w
    }
}

impl Reconciler {
    /// The place of the selected message.
    pub fn selected_place(&self, scroll_offset: usize) -> (r: Option<(usize, usize)>)
        ensures
            match r {
                Some(at) => selected_at(self@, scroll_offset) == Some((at.0 as int, at.1 as int))
                    && at.0 < self.conversations.entries@.len() && at.1
                    < self.conversations.entries@[at.0 as int].1.messages@.len(),
                None => selected_at(self@, scroll_offset).is_none(),
            },
    {
        let id = match &self.active_conversation {
            Some(id) => id,
            None => {
                return None;
            },
        };
        proof {
            lemma_index_in(self@.ledger.keys, id@);
        }
        match self.conversations.find(id.as_str()) {
            Some(p) => {
                let total = self.conversations.entries[p].1.messages.len();
                if total == 0 {
                    None
                } else if total - 1 > scroll_offset {
                    Some((p, total - 1 - scroll_offset))
                } else {
                    Some((p, 0))
                }
            },
            None => None,
        }
    }

    /// Reacts to message `i` of conversation `p` in the user's name, and
    /// returns what is to be sent to the backend.
    pub fn react_with(&mut self, p: usize, i: usize, emoji: &str) -> (r: SendRequest)
        requires
            old(self).wf(),
            p < old(self).conversations.entries@.len(),
            i < old(self).conversations.entries@[p as int].1.messages@.len(),
        ensures
            final(self).wf(),
            ({
                let m = old(self)@.ledger.convs[p as int].messages[i as int];
                let author = reaction_author(
                    m.sender,
                    old(self)@.account,
                    number_for_name(old(self).contact_names.entries@, m.sender),
                );
                &&& final(self)@ == own_reaction_added(old(self)@, p as int, i as int, emoji@, author)
                &&& r@ == (SendRequestView::Reaction {
                    conv_id: old(self)@.ledger.keys[p as int],
                    emoji: emoji@,
                    is_group: old(self)@.ledger.convs[p as int].is_group,
                    target_author: author,
                    target_timestamp: m.timestamp_ms,
                    remove: false,
                })
            }),
            *final(self) == (Reconciler {
                conversations: final(self).conversations,
                db_ops: final(self).db_ops,
                ..*old(self)
            }),
    {
        let ghost w = self@;
        let ghost conv_before = self.conversations.entries@[p as int].1@;
        let ghost m = conv_before.messages[i as int];
        let conv_id = self.conversations.entries[p].0.clone();
        let is_group = self.conversations.entries[p].1.is_group;
        let target_timestamp = self.conversations.entries[p].1.messages[i].timestamp_ms;
        let target_author: String = {
            let sender = &self.conversations.entries[p].1.messages[i].sender;
            if sender.as_str().eq("you") {
                self.account.clone()
            } else {
                match self.find_number_for(sender.as_str()) {
                    Some(n) => n.clone(),
                    None => sender.clone(),
                }
            }
        };
        merge_reaction(
            &mut self.conversations.entries[p].1.messages[i].reactions,
            "you",
            emoji,
            false,
        );
        let op = DbOp::UpsertReaction {
            conv_id: conv_id.clone(),
            target_ts_ms: target_timestamp,
            target_author: target_author.clone(),
            sender: String::from_str("you"),
            emoji: String::from_str(emoji),
        };
        proof {
            lemma_views_push(self.db_ops@, op);
        }
        self.db_ops.push(op);
        proof {
            let merged = reactions_merged(m.reactions, "you"@, emoji@, false);
            let conv_after = self.conversations.entries@[p as int].1@;
            assert(conversation_wf(conv_before));
            assert(message_wf(m));
            lemma_reactions_merged_wf(m.reactions, "you"@, emoji@, false);
            assert(conv_after.messages =~= conv_before.messages.update(
                i as int,
                with_reactions(m, merged),
            ));
            assert(conversation_wf(conv_after)) by {
                assert forall|k: int| 0 <= k < conv_after.messages.len() implies message_wf(
                    #[trigger] conv_after.messages[k],
                ) by {
                    if k != i {
                        assert(conv_after.messages[k] == conv_before.messages[k]);
                    }
                }
            }
            assert(self@.ledger.keys =~= w.ledger.keys);
            assert(self@.ledger.convs =~= w.ledger.convs.update(
                p as int,
                with_message(w.ledger.convs[p as int], i as int, with_reactions(m, merged)),
            ));
        }
        SendRequest::Reaction {
            conv_id,
            emoji: String::from_str(emoji),
            is_group,
            target_author,
            target_timestamp,
            remove: false,
        }
    }
}

/// What holds after the reaction at place `picked` of the picker was sent
/// to the message that is selected at `scroll_offset`.
pub open spec fn reaction_prepared(
    before: Reconciler,
    scroll_offset: usize,
    picked: usize,
    after: Reconciler,
    r: Option<SendRequest>,
) -> bool {
    match selected_at(before@, scroll_offset) {
        Some(at) => if picked < QUICK_REACTION_COUNT {
            let m = before@.ledger.convs[at.0].messages[at.1];
            let author = reaction_author(
                m.sender,
                before@.account,
                number_for_name(before.contact_names.entries@, m.sender),
            );
            &&& after@ == own_reaction_added(
                before@,
                at.0,
                at.1,
                quick_reaction_of(picked as int),
                author,
            )
            &&& r matches Some(req) && req@ == (SendRequestView::Reaction {
                conv_id: before@.ledger.keys[at.0],
                emoji: quick_reaction_of(picked as int),
                is_group: before@.ledger.convs[at.0].is_group,
                target_author: author,
                target_timestamp: m.timestamp_ms,
                remove: false,
            })
        } else {
            r.is_none() && after == before
        },
        None => r.is_none() && after == before,
    }
}

/// What a key does while the reaction picker is open.
pub open spec fn picker_key_handled(
    core: Reconciler,
    overlays: Overlays,
    scroll_offset: usize,
    key: Key,
    core_after: Reconciler,
    overlays_after: Overlays,
    r: Option<SendRequest>,
) -> bool {
    let moves_left = key == Key::Left || key == Key::Char('h');
    let moves_right = key == Key::Right || key == Key::Char('l');
    let picks_here = key == Key::Enter || key == Key::Char(' ');
    let picks_place = key matches Key::Char(c) && '1' <= c <= '8';
    if moves_left {
        &&& r.is_none()
        &&& core_after == core
        &&& overlays_after == (Overlays {
            reaction_picker_index: if overlays.reaction_picker_index > 0 {
                (overlays.reaction_picker_index - 1) as usize
            } else {
                0
            },
            ..overlays
        })
    } else if moves_right {
        &&& r.is_none()
        &&& core_after == core
        &&& overlays_after == (Overlays {
            reaction_picker_index: if overlays.reaction_picker_index < QUICK_REACTION_COUNT - 1 {
                (overlays.reaction_picker_index + 1) as usize
            } else {
                overlays.reaction_picker_index
            },
            ..overlays
        })
    } else if picks_here || picks_place {
        let place = match key {
            Key::Char(c) => if c == ' ' {
                overlays.reaction_picker_index
            } else {
                (c as u32 - '1' as u32) as usize
            },
            _ => overlays.reaction_picker_index,
        };
        &&& overlays_after == (Overlays {
            reaction_picker_index: place,
            show_reaction_picker: false,
            ..overlays
        })
        &&& reaction_prepared(core, scroll_offset, place, core_after, r)
    } else if key == Key::Esc {
        &&& r.is_none()
        &&& core_after == core
        &&& overlays_after == (Overlays { show_reaction_picker: false, ..overlays })
    } else {
        r.is_none() && core_after == core && overlays_after == overlays
    }
}

impl App {
    /// Get the message at the current scroll position: the newest one for
    /// a scroll offset of 0, older ones for higher offsets.
    pub fn selected_message(&self) -> (r: Option<&DisplayMessage>)
        ensures
            match r {
                Some(m) => selected_at(self.core@, self.screen.scroll_offset) matches Some(at)
                    && m@ == self.core@.ledger.convs[at.0].messages[at.1],
                None => selected_at(self.core@, self.screen.scroll_offset).is_none(),
            },
    {
        match self.core.selected_place(self.screen.scroll_offset) {
            Some((p, i)) => Some(&self.core.conversations.entries[p].1.messages[i]),
            None => None,
        }
    }

    /// The text that copying the selected message puts on the clipboard:
    /// its body, or, for `full_line`, the line `[time] <sender> body` with
    /// the time as the caller formats it. A system message is always copied
    /// as its body. None where no message is selected.
    pub fn selected_text(&self, full_line: bool, time: &str) -> (r: Option<String>)
        ensures
            match r {
                Some(t) => selected_at(self.core@, self.screen.scroll_offset) matches Some(at) && ({
                    let m = self.core@.ledger.convs[at.0].messages[at.1];
                    t@ == if full_line && !m.is_system {
                        "["@ + time@ + "] <"@ + m.sender + "> "@ + m.body
                    } else {
                        m.body
                    }
                }),
                None => selected_at(self.core@, self.screen.scroll_offset).is_none(),
            },
    {
        match self.selected_message() {
            Some(m) => {
                if full_line && !m.is_system {
                    let mut line = text::concat3("[", time, "] <");
                    line.append(m.sender.as_str());
                    line.append("> ");
                    line.append(m.body.as_str());
                    Some(line)
                } else {
                    Some(m.body.clone())
                }
            },
            None => None,
        }
    }

    /// Notes how copying to the clipboard went: `None` where there was no
    /// message to copy, else whether the clipboard took the text, with the
    /// reason where it did not.
    pub fn copy_finished(&mut self, outcome: Option<Result<(), String>>)
        ensures
            final(self).core.status_message@ == (match outcome {
                Some(Ok(_)) => "Copied to clipboard"@,
                Some(Err(e)) => "Clipboard error: "@ + e@,
                None => "No message to copy"@,
            }),
            final(self).overlays == (Overlays { pending_copy: None, ..old(self).overlays }),
            final(self).core == (Reconciler {
                status_message: final(self).core.status_message,
                ..old(self).core
            }),
            *final(self) == (App {
                core: final(self).core,
                overlays: final(self).overlays,
                ..*old(self)
            }),
    {
        self.overlays.pending_copy = None;
        self.core.status_message = match outcome {
            Some(Ok(_)) => String::from_str("Copied to clipboard"),
            Some(Err(e)) => text::concat("Clipboard error: ", e.as_str()),
            None => String::from_str("No message to copy"),
        };
    }

    /// Sends the reaction at the cursor of the picker to the selected
    /// message: the reaction shows at once, is queued for writing, and is
    /// returned for the backend. Nothing happens where no message is
    /// selected.
    pub fn prepare_reaction_send(&mut self) -> (r: Option<SendRequest>)
        requires
            old(self).wf(),
        ensures
            final(self).wf(),
            reaction_prepared(
                old(self).core,
                old(self).screen.scroll_offset,
                old(self).overlays.reaction_picker_index,
                final(self).core,
                r,
            ),
            *final(self) == (App { core: final(self).core, ..*old(self) }),
    {
        let emoji = match quick_reaction(self.overlays.reaction_picker_index) {
            Some(e) => e,
            None => {
                return None;
            },
        };
        match self.core.selected_place(self.screen.scroll_offset) {
            Some((p, i)) => Some(self.core.react_with(p, i, emoji)),
            None => None,
        }
    }

    /// Picks the emoji at `place` of the picker, or the one at the cursor
    /// where no place is given; the picker closes and the reaction is sent.
    fn pick_reaction(&mut self, place: Option<usize>) -> (r: Option<SendRequest>)
        requires
            old(self).wf(),
        ensures
            final(self).wf(),
            final(self).overlays == (Overlays {
                reaction_picker_index: match place {
                    Some(i) => i,
                    None => old(self).overlays.reaction_picker_index,
                },
                show_reaction_picker: false,
                ..old(self).overlays
            }),
            reaction_prepared(
                old(self).core,
                old(self).screen.scroll_offset,
                final(self).overlays.reaction_picker_index,
                final(self).core,
                r,
            ),
            *final(self) == (App {
                core: final(self).core,
                overlays: final(self).overlays,
                ..*old(self)
            }),
    {
        match place {
            Some(i) => {
                self.overlays.reaction_picker_index = i;
            },
            None => {},
        }
        self.overlays.show_reaction_picker = false;
        self.prepare_reaction_send()
    }

    /// Closes the reaction picker.
    fn close_picker(&mut self)
        ensures
            final(self).overlays == (Overlays { show_reaction_picker: false, ..old(self).overlays }),
            *final(self) == (App { overlays: final(self).overlays, ..*old(self) }),
    {
        self.overlays.show_reaction_picker = false;
    }

    /// Handle a key press while the reaction picker overlay is open.
    ///
    /// `h` and Left move the cursor left, `l` and Right move it right,
    /// within the picker. A digit from 1 to 8 picks the emoji at that place;
    /// Enter and Space pick the one at the cursor; a pick closes the picker
    /// and sends the reaction. Esc closes the picker.
    pub fn handle_reaction_picker_key(&mut self, key: Key) -> (r: Option<SendRequest>)
        requires
            old(self).wf(),
        ensures
            final(self).wf(),
            picker_key_handled(
                old(self).core,
                old(self).overlays,
                old(self).screen.scroll_offset,
                key,
                final(self).core,
                final(self).overlays,
                r,
            ),
            *final(self) == (App {
                core: final(self).core,
                overlays: final(self).overlays,
                ..*old(self)
            }),
    {
        match key {
            Key::Left => {
                self.picker_left();
                None
            },
            Key::Right => {
                self.picker_right();
                None
            },
            Key::Enter => self.pick_reaction(None),
            Key::Esc => {
                self.close_picker();
                None
            },
            Key::Char(c) => {
                if c == 'h' {
                    self.picker_left();
                    None
                } else if c == 'l' {
                    self.picker_right();
                    None
                } else if c == ' ' {
                    self.pick_reaction(None)
                } else if c >= '1' && c <= '8' {
                    self.pick_reaction(Some((c as u32 - '1' as u32) as usize))
                } else {
                    None
                }
            },
            _ => None,
        }
    }

    /// Moves the cursor of the reaction picker left, within the picker.
    fn picker_left(&mut self)
        ensures
            final(self).overlays == (Overlays {
                reaction_picker_index: if old(self).overlays.reaction_picker_index > 0 {
                    (old(self).overlays.reaction_picker_index - 1) as usize
                } else {
                    0
                },
                ..old(self).overlays
            }),
            *final(self) == (App { overlays: final(self).overlays, ..*old(self) }),
    {
        if self.overlays.reaction_picker_index > 0 {
            self.overlays.reaction_picker_index -= 1;
        }
    }

    /// Moves the cursor of the reaction picker right, within the picker.
    fn picker_right(&mut self)
        ensures
            final(self).overlays == (Overlays {
                reaction_picker_index: if old(self).overlays.reaction_picker_index
                    < QUICK_REACTION_COUNT - 1 {
                    (old(self).overlays.reaction_picker_index + 1) as usize
                } else {
                    old(self).overlays.reaction_picker_index
                },
                ..old(self).overlays
            }),
            *final(self) == (App { overlays: final(self).overlays, ..*old(self) }),
    {
        if self.overlays.reaction_picker_index < QUICK_REACTION_COUNT - 1 {
            self.overlays.reaction_picker_index += 1;
        }
    }
}

} // verus!
