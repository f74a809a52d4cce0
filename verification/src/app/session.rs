//! The application between the store, the backend and the screen: what is
//! loaded at the start, what is handed out to be written, rung or shown.

use vstd::prelude::*;
use crate::text;
use crate::app::{App, Conversation, DbOp, Reconciler, Screen};
use crate::app::commands::{fresh_indicators, unread_sum};
use crate::app::timeline::{
    conversation_loaded, conversation_wf, conversations_loaded, read_mark, read_marks_loaded,
    Ledger,
};
use crate::model::views;
use crate::strmap::lemma_inserted_view;

verus! {

impl App {
    /// Removes the typing indicators that are five seconds old or older at
    /// `now`.
    pub fn cleanup_typing_at(&mut self, now: i64)
        requires
            old(self).wf(),
        ensures
            final(self).wf(),
            final(self).core.typing_indicators.entries@
                == fresh_indicators(
                old(self).core.typing_indicators.entries@,
                now,
            ),
            final(self).core == (Reconciler {
                typing_indicators: final(self).core.typing_indicators,
                ..old(self).core
            }),
            *final(self) == (App { core: final(self).core, ..*old(self) }),
    {
        self.core.cleanup_typing_at(now);
    }

    /// Removes the typing indicators that are five seconds old or older
    /// now.
    pub fn cleanup_typing(&mut self)
        requires
            old(self).wf(),
        ensures
            final(self).wf(),
            exists|now: i64|
                final(self).core.typing_indicators.entries@
                    == #[trigger] fresh_indicators(
                    old(self).core.typing_indicators.entries@,
                    now,
                ),
            *final(self) == (App { core: final(self).core, ..*old(self) }),
    {
        let now = crate::clock::now_millis();
        self.cleanup_typing_at(now);
    }

    /// Total unread count across all conversations.
    pub fn total_unread(&self) -> (r: usize)
        ensures
            r == if unread_sum(self.core.conv_views()) > usize::MAX {
                usize::MAX as nat
            } else {
                unread_sum(self.core.conv_views())
            },
    {
        self.core.total_unread()
    }
}

/// Every stored conversation is well formed.
pub open spec fn stored_wf(stored: Seq<Conversation>) -> bool {
    forall|i: int| 0 <= i < stored.len() ==> conversation_wf(
        (#[trigger] stored[i])@,
    )
}

impl App {
    /// Takes one stored conversation into the state.
    fn load_one(&mut self, conv: Conversation)
        requires
            old(self).wf(),
            conversation_wf(conv@),
        ensures
            final(self).wf(),
            final(self).core@.ledger == conversation_loaded(
                old(self).core@.ledger,
                conv@,
            ),
            final(self).screen.last_read_index.map_view() == (if conv@.messages.len() > 0 {
                old(self).screen.last_read_index.map_view().insert(
                    conv@.id,
                    read_mark(conv@),
                )
            } else {
                old(self).screen.last_read_index.map_view()
            }),
            final(self).core == (Reconciler {
                conversations: final(self).core.conversations,
                ..old(self).core
            }),
            final(self).screen == (Screen {
                last_read_index: final(self).screen.last_read_index,
                ..old(self).screen
            }),
            *final(self) == (App { core: final(self).core, screen: final(self).screen, ..*old(self) }),
    {
        let count = conv.messages.len();
        let unread = conv.unread;
        let id = conv.id.clone();
        self.core.load_conversation(conv);
        if count > 0 {
            let mark = if count >= unread {
                count - unread
            } else {
                0
            };
            let ghost before = self.screen.last_read_index;
            self.screen.last_read_index.insert(id, mark);
            proof {
                lemma_inserted_view(
                    before,
                    self.screen.last_read_index,
                    conv@.id,
                    mark,
                );
            }
        }
    }

    /// Load conversations and messages from the store on startup.
    ///
    /// Each stored conversation enters the table; a message that was still
    /// `Sending` when it was stored is `Sent` now. The unread marker of a
    /// conversation with messages stands behind those that are not counted
    /// as unread. The sidebar shows the conversations in the stored order,
    /// and the stored mutes apply.
    pub fn load_from_db(
        &mut self,
        conv_data: Vec<Conversation>,
        order: Vec<String>,
        muted: Vec<String>,
    )
        requires
            old(self).wf(),
            stored_wf(conv_data@),
        ensures
            final(self).wf(),
            final(self).core@.ledger == conversations_loaded(
                old(self).core@.ledger,
                views(conv_data@),
            ),
            final(self).screen.last_read_index.map_view()
                == read_marks_loaded(
                old(self).screen.last_read_index.map_view(),
                views(conv_data@),
            ),
            final(self).core == (Reconciler {
                conversations: final(self).core.conversations,
                conversation_order: order,
                muted_conversations: muted,
                ..old(self).core
            }),
            final(self).screen == (Screen {
                last_read_index: final(self).screen.last_read_index,
                ..old(self).screen
            }),
            *final(self) == (App { core: final(self).core, screen: final(self).screen, ..*old(self) }),
    {
        let ghost start = *self;
        let ghost all = conv_data@;
        let ghost all_views = views(conv_data@);
        let mut rest = conv_data;
        let ghost mut k: int = 0;
        proof {
            assert(all_views.take(0) =~= Seq::empty());
            assert(all.skip(0) =~= all);
        }
        while rest.len() > 0
            invariant
                0 <= k <= all.len(),
                rest@ == all.skip(k),
                all_views == views(all),
                stored_wf(all),
                self.wf(),
                self.core@.ledger == conversations_loaded(
                    start.core@.ledger,
                    all_views.take(k),
                ),
                self.screen.last_read_index.map_view() == read_marks_loaded(
                    start.screen.last_read_index.map_view(),
                    all_views.take(k),
                ),
                self.core == (Reconciler { conversations: self.core.conversations, ..start.core }),
                self.screen == (Screen {
                    last_read_index: self.screen.last_read_index,
                    ..start.screen
                }),
                *self == (App { core: self.core, screen: self.screen, ..start }),
            decreases rest@.len(),
        {
            let conv = rest.remove(0);
            proof {
                assert(conv == all[k]);
                assert(rest@ =~= all.skip(k + 1));
                assert(all_views.take(k + 1).drop_last() =~= all_views.take(k));
                assert(all_views.take(k + 1).last() == conv@);
                assert(conversation_wf(all[k]@));
            }
            self.load_one(conv);
            proof {
                k = k + 1;
            }
        }
        proof {
            assert(all_views.take(all_views.len() as int) =~= all_views);
        }
        self.core.conversation_order = order;
        self.core.muted_conversations = muted;
    }
}

impl App {
    /// Whether the state meets its invariant, [`App::wf`]. The handlers
    /// keep the invariant; a state whose fields were set by other means has
    /// to pass this check before it is handed to them.
    pub fn is_wf(&self) -> (r: bool)
        ensures
            r == self.wf(),
    {
        let in_history = match self.input.history_index {
            Some(i) => i < self.input.history.len(),
            None => true,
        };
        self.core.is_wf() && self.screen.last_read_index.is_wf() && in_history
            && self.input.cursor <= self.input.buffer.as_str().unicode_len()
    }
}

/// The title of the terminal window: the name of the program, with the
/// number of unread messages where there are any.
pub open spec fn title_of(unread: usize) -> Seq<char> {
    if unread > 0 {
        "signal-tui ("@ + text::decimal_of(unread as nat) + ")"@
    } else {
        "signal-tui"@
    }
}

impl App {
    /// The title of the terminal window.
    pub fn window_title(&self) -> (r: String)
        ensures
            r@ == title_of(self.total_unread_spec()),
    {
        let unread = self.total_unread();
        if unread > 0 {
            text::concat3("signal-tui (", text::decimal(unread).as_str(), ")")
        } else {
            String::from_str("signal-tui")
        }
    }

    /// The number of unread messages in all conversations; the largest
    /// number that fits where their sum does not.
    pub open spec fn total_unread_spec(&self) -> usize {
        let sum = unread_sum(self.core.conv_views());
        if sum > usize::MAX {
            usize::MAX
        } else {
            sum as usize
        }
    }

    /// Takes what waits to be written to the store, oldest first, and
    /// leaves the queue empty.
    pub fn take_db_ops(&mut self) -> (ops: Vec<DbOp>)
        ensures
            ops == old(self).core.db_ops,
            final(self).core.db_ops@.len() == 0,
            final(self).core == (Reconciler {
                db_ops: final(self).core.db_ops,
                ..old(self).core
            }),
            final(self).core@.ledger == (Ledger {
                ops: Seq::empty(),
                ..old(self).core@.ledger
            }),
            final(self).core.wf() == old(self).core.wf(),
            *final(self) == (App { core: final(self).core, ..*old(self) }),
    {
        let mut ops: Vec<DbOp> = Vec::new();
        core::mem::swap(&mut self.core.db_ops, &mut ops);
        proof {
            assert(views(self.core.db_ops@) =~= Seq::empty());
        }
        ops
    }

    /// Takes the pending bell: whether it is to ring, after which it is
    /// not pending any more.
    pub fn take_bell(&mut self) -> (rings: bool)
        ensures
            rings == old(self).core.pending_bell,
            final(self).core == (Reconciler { pending_bell: false, ..old(self).core }),
            *final(self) == (App { core: final(self).core, ..*old(self) }),
    {
        let rings = self.core.pending_bell;
        self.core.pending_bell = false;
        rings
    }

    /// Notes that the backend went away: the error stays on display, and
    /// the application counts as disconnected. A second report changes
    /// nothing.
    pub fn set_disconnected(&mut self, reason: String)
        ensures
            match old(self).connection_error {
                Some(_) => *final(self) == *old(self),
                None => *final(self) == (App {
                    connection_error: Some(reason),
                    connected: false,
                    ..*old(self)
                }),
            },
    {
        if self.connection_error.is_none() {
            self.connection_error = Some(reason);
            self.connected = false;
        }
    }
}

} // verus!
