//! Moving between conversations, and within one.

use vstd::prelude::*;
use crate::app::messages::position_str;
use crate::app::timeline::{
    activated, active_length, join_finds, joined, marked_read, next_place, prev_place,
    ReconcilerView,
};
use crate::app::{App, Reconciler, Screen};
use crate::strmap::{lemma_index_in, StrMap};

verus! {

/// The read marks after the active conversation was marked as read: the
/// conversation is read up to its length; every other mark is as before.
pub open spec fn read_noted(
    before: StrMap<usize>,
    after: StrMap<usize>,
    active: Option<Seq<char>>,
    length: Option<usize>,
) -> bool {
    match (active, length) {
        (Some(id), Some(n)) => {
            &&& after.value_of(id) == Some(n)
            &&& forall|k: Seq<char>| k != id ==> after.value_of(k) == before.value_of(k)
        },
        _ => after == before,
    }
}

/// The width of the sidebar after a resize by `delta`: between 14 and 40.
pub open spec fn resized(width: u16, delta: i16) -> u16 {
    let wanted = width + delta;
    if wanted < 14 {
        14
    } else if wanted > 40 {
        40
    } else {
        wanted as u16
    }
}

impl Reconciler {
    /// The place in the sidebar after the active conversation's.
    pub fn place_after_active(&self) -> (place: usize)
        requires
            self.conversation_order@.len() > 0,
        ensures
            place == next_place(self@),
            place < self.conversation_order@.len(),
    {
        let len = self.conversation_order.len();
        match &self.active_conversation {
            Some(id) => {
                proof {
                    lemma_index_in(self@.order, id@);
                }
                match position_str(&self.conversation_order, id.as_str()) {
                    Some(i) => if i + 1 == len {
                        0
                    } else {
                        i + 1
                    },
                    None => 0,
                }
            },
            None => 0,
        }
    }

    /// The place in the sidebar before the active conversation's.
    pub fn place_before_active(&self) -> (place: usize)
        requires
            self.conversation_order@.len() > 0,
        ensures
            place == prev_place(self@),
            place < self.conversation_order@.len(),
    {
        let len = self.conversation_order.len();
        match &self.active_conversation {
            Some(id) => {
                proof {
                    lemma_index_in(self@.order, id@);
                }
                match position_str(&self.conversation_order, id.as_str()) {
                    Some(i) => if i == 0 {
                        len - 1
                    } else {
                        i - 1
                    },
                    None => 0,
                }
            },
            None => 0,
        }
    }
}

impl App {
    /// Resize the sidebar by `delta`, clamped between 14 and 40.
    pub fn resize_sidebar(&mut self, delta: i16)
        ensures
            final(self).screen.sidebar_width == resized(old(self).screen.sidebar_width, delta),
            final(self).screen == (Screen {
                sidebar_width: final(self).screen.sidebar_width,
                ..old(self).screen
            }),
            *final(self) == (App { screen: final(self).screen, ..*old(self) }),
    {
        let wanted: i32 = self.screen.sidebar_width as i32 + delta as i32;
        self.screen.sidebar_width = if wanted < 14 {
            14
        } else if wanted > 40 {
            40
        } else {
            wanted as u16
        };
    }

    /// Mark the current conversation as fully read: the unread marker moves
    /// behind its last message, and the read marker is queued for writing.
    pub fn mark_read(&mut self)
        requires
            old(self).wf(),
        ensures
            final(self).wf(),
            final(self).core@ == marked_read(old(self).core@),
            read_noted(
                old(self).screen.last_read_index,
                final(self).screen.last_read_index,
                old(self).core@.active,
                active_length(old(self).core@),
            ),
            final(self).core == (Reconciler { db_ops: final(self).core.db_ops, ..old(self).core }),
            final(self).screen == (Screen {
                last_read_index: final(self).screen.last_read_index,
                ..old(self).screen
            }),
            *final(self) == (App { core: final(self).core, screen: final(self).screen, ..*old(self) }),
    {
        let id: Option<String> = match &self.core.active_conversation {
            Some(id) => Some(id.clone()),
            None => None,
        };
        let length = self.core.mark_read();
        match id {
            Some(id) => match length {
                Some(n) => {
                    self.screen.last_read_index.insert(id, n);
                },
                None => {},
            },
            None => {},
        }
    }

    /// Makes the conversation at place `place` of the sidebar the active
    /// one, after the one that was active was marked as read.
    fn switch_to_place(&mut self, place: usize)
        requires
            old(self).wf(),
            place < old(self).core.conversation_order@.len(),
        ensures
            final(self).wf(),
            final(self).core@ == activated(
                marked_read(old(self).core@),
                old(self).core@.order[place as int],
            ),
            read_noted(
                old(self).screen.last_read_index,
                final(self).screen.last_read_index,
                old(self).core@.active,
                active_length(old(self).core@),
            ),
            final(self).screen == (Screen {
                last_read_index: final(self).screen.last_read_index,
                scroll_offset: 0,
                ..old(self).screen
            }),
            *final(self) == (App { core: final(self).core, screen: final(self).screen, ..*old(self) }),
    {
        self.mark_read();
        let id = self.core.conversation_order[place].clone();
        self.core.activate(id.as_str());
        self.screen.scroll_offset = 0;
    }

    /// Switches to the next conversation of the sidebar, around the end; to
    /// the first where no conversation of the sidebar is active. The
    /// conversation that was active is marked as read. Without
    /// conversations nothing changes.
    pub fn next_conversation(&mut self)
        requires
            old(self).wf(),
        ensures
            final(self).wf(),
            if old(self).core.conversation_order@.len() == 0 {
                *final(self) == *old(self)
            } else {
                &&& 0 <= next_place(old(self).core@) < old(self).core@.order.len()
                &&& final(self).core@ == activated(
                    marked_read(old(self).core@),
                    old(self).core@.order[next_place(old(self).core@)],
                )
                &&& read_noted(
                    old(self).screen.last_read_index,
                    final(self).screen.last_read_index,
                    old(self).core@.active,
                    active_length(old(self).core@),
                )
                &&& final(self).screen == (Screen {
                    last_read_index: final(self).screen.last_read_index,
                    scroll_offset: 0,
                    ..old(self).screen
                })
            },
            *final(self) == (App { core: final(self).core, screen: final(self).screen, ..*old(self) }),
    {
        if self.core.conversation_order.len() == 0 {
            return ;
        }
        let place = self.core.place_after_active();
        self.switch_to_place(place);
    }

    /// Switches to the previous conversation of the sidebar, around the
    /// beginning; to the first where no conversation of the sidebar is
    /// active. The conversation that was active is marked as read. Without
    /// conversations nothing changes.
    pub fn prev_conversation(&mut self)
        requires
            old(self).wf(),
        ensures
            final(self).wf(),
            if old(self).core.conversation_order@.len() == 0 {
                *final(self) == *old(self)
            } else {
                &&& 0 <= prev_place(old(self).core@) < old(self).core@.order.len()
                &&& final(self).core@ == activated(
                    marked_read(old(self).core@),
                    old(self).core@.order[prev_place(old(self).core@)],
                )
                &&& read_noted(
                    old(self).screen.last_read_index,
                    final(self).screen.last_read_index,
                    old(self).core@.active,
                    active_length(old(self).core@),
                )
                &&& final(self).screen == (Screen {
                    last_read_index: final(self).screen.last_read_index,
                    scroll_offset: 0,
                    ..old(self).screen
                })
            },
            *final(self) == (App { core: final(self).core, screen: final(self).screen, ..*old(self) }),
    {
        if self.core.conversation_order.len() == 0 {
            return ;
        }
        let place = self.core.place_before_active();
        self.switch_to_place(place);
    }

    /// Switches to the conversation that the user asked for, after the one
    /// that was active was marked as read; see
    /// [`Reconciler::join_conversation`].
    pub fn join_conversation(&mut self, target: &str)
        requires
            old(self).wf(),
        ensures
            final(self).wf(),
            final(self).core@ == joined(marked_read(old(self).core@), target@),
            read_noted(
                old(self).screen.last_read_index,
                final(self).screen.last_read_index,
                old(self).core@.active,
                active_length(old(self).core@),
            ),
            final(self).screen == (Screen {
                last_read_index: final(self).screen.last_read_index,
                scroll_offset: scroll_after_join(
                    old(self).core@,
                    target@,
                    old(self).screen.scroll_offset,
                ),
                ..old(self).screen
            }),
            *final(self) == (App { core: final(self).core, screen: final(self).screen, ..*old(self) }),
    {
        self.mark_read();
        if self.core.join_conversation(target) {
            self.screen.scroll_offset = 0;
        }
    }
}

/// The scroll offset after the user asked for the conversation `target`:
/// the bottom where there is such a conversation now, else what it was.
pub open spec fn scroll_after_join(w: ReconcilerView, target: Seq<char>, offset: usize) -> usize {
    if join_finds(w, target) {
        0
    } else {
        offset
    }
}

/// The scroll offset after going `by` messages towards older ones; it
/// stops at the largest number it can hold.
pub open spec fn scrolled_up(offset: usize, by: usize) -> usize {
    if offset + by > usize::MAX {
        usize::MAX
    } else {
        (offset + by) as usize
    }
}

/// The scroll offset after going `by` messages towards newer ones; it stops
/// at the newest.
pub open spec fn scrolled_down(offset: usize, by: usize) -> usize {
    if offset >= by {
        (offset - by) as usize
    } else {
        0
    }
}

impl Screen {
    /// Scrolls towards older messages.
    pub fn scroll_up(&mut self, by: usize)
        ensures
            *final(self) == (Screen {
                scroll_offset: scrolled_up(old(self).scroll_offset, by),
                ..*old(self)
            }),
    {
        self.scroll_offset = if by > usize::MAX - self.scroll_offset {
            usize::MAX
        } else {
            self.scroll_offset + by
        };
    }

    /// Scrolls towards newer messages.
    pub fn scroll_down(&mut self, by: usize)
        ensures
            *final(self) == (Screen {
                scroll_offset: scrolled_down(old(self).scroll_offset, by),
                ..*old(self)
            }),
    {
        self.scroll_offset = if self.scroll_offset >= by {
            self.scroll_offset - by
        } else {
            0
        };
    }
}

} // verus!
