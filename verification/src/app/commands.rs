//! What the user asks of the reconciler: switching conversations, sending
//! text, muting, and the bell.

use vstd::prelude::*;
use crate::text;
use crate::app::{DbOp, DisplayMessage, Reconciler};
use crate::app::messages::contains_str;
use crate::app::timeline::{join_finds, 
    activated, active_length, bell_toggled, conversation_wf, first_named, joined,
    lemma_first_named, listed, marked_read, message_wf, mute_toggled, outgoing_entry,
    send_registered, status_updated, text_sent, without_key, ConversationView, Ledger,
    ReconcilerView,
};
use crate::model::{lemma_views_push, opt_str_view, views};
use crate::signal::types::MessageStatus;
use crate::strmap::{distinct_keys, index_in, lemma_index_in, lemma_inserted_view};

verus! {

/// The typing indicators that are younger than five seconds at `now`. An
/// indicator from the future counts as just set.
pub open spec fn fresh_indicators(entries: Seq<(String, i64)>, now: i64) -> Seq<(String, i64)>
    decreases entries.len(),
{
    if entries.len() == 0 {
        Seq::empty()
    } else {
        let rest = fresh_indicators(entries.drop_last(), now);
        if now - entries.last().1 < 5000 {
            rest.push(entries.last())
        } else {
            rest
        }
    }
}

/// Every key among the fresh indicators is a key among all of them.
proof fn lemma_fresh_keys(entries: Seq<(String, i64)>, now: i64, key: Seq<char>)
    requires
        forall|j: int| 0 <= j < entries.len() ==> (#[trigger] entries[j]).0@ != key,
    ensures
        forall|k: int|
            0 <= k < fresh_indicators(entries, now).len() ==> (#[trigger] fresh_indicators(
                entries,
                now,
            )[k]).0@ != key,
    decreases entries.len(),
{
    if entries.len() > 0 {
        let front = entries.drop_last();
        assert forall|j: int| 0 <= j < front.len() implies (#[trigger] front[j]).0@ != key by {
            assert(front[j] == entries[j]);
        }
        lemma_fresh_keys(front, now, key);
        let rest = fresh_indicators(front, now);
        let all = fresh_indicators(entries, now);
        assert(entries.last() == entries[entries.len() - 1]);
        assert forall|k: int| 0 <= k < all.len() implies (#[trigger] all[k]).0@ != key by {
            if k < rest.len() {
                assert(all[k] == rest[k]);
            }
        }
    }
}

/// The fresh indicators of a table without double keys have no double
/// keys.
proof fn lemma_fresh_distinct(entries: Seq<(String, i64)>, now: i64)
    requires
        distinct_keys(entries),
    ensures
        distinct_keys(fresh_indicators(entries, now)),
    decreases entries.len(),
{
    if entries.len() > 0 {
        let front = entries.drop_last();
        assert(distinct_keys(front)) by {
            assert forall|i: int, j: int| 0 <= i < j < front.len() implies front[i].0@
                != front[j].0@ by {
                assert(front[i] == entries[i]);
                assert(front[j] == entries[j]);
            }
        }
        lemma_fresh_distinct(front, now);
        let last = entries.last();
        assert forall|j: int| 0 <= j < front.len() implies (#[trigger] front[j]).0@ != last.0@ by {
            assert(front[j] == entries[j]);
        }
        lemma_fresh_keys(front, now, last.0@);
        let rest = fresh_indicators(front, now);
        let all = fresh_indicators(entries, now);
        assert forall|i: int, j: int| 0 <= i < j < all.len() implies all[i].0@ != all[j].0@ by {
            if j < rest.len() {
                assert(all[i] == rest[i]);
                assert(all[j] == rest[j]);
            } else {
                assert(all[i] == rest[i]);
            }
        }
    }
}

/// The sum of the unread counts.
pub open spec fn unread_sum(convs: Seq<ConversationView>) -> nat
    decreases convs.len(),
{
    if convs.len() == 0 {
        0
    } else {
        unread_sum(convs.drop_last()) + convs.last().unread as nat
    }
}

impl Reconciler {
    /// Brings the status bar up to date with the active conversation.
    pub fn update_status(&mut self)
        requires
            old(self).wf(),
        ensures
            final(self).wf(),
            final(self)@ == status_updated(old(self)@),
            *final(self) == (Reconciler { status_message: final(self).status_message, ..*old(self) }),
    {
        proof {
            if self.active_conversation.is_some() {
                lemma_index_in(self@.ledger.keys, self.active_conversation.unwrap()@);
            }
        }
        let line: Option<String> = match &self.active_conversation {
            Some(id) => match self.conversations.find(id.as_str()) {
                Some(p) => {
                    let conv = &self.conversations.entries[p].1;
                    let prefix = if conv.is_group {
                        "#"
                    } else {
                        ""
                    };
                    Some(text::concat3("connected | ", prefix, conv.name.as_str()))
                },
                None => None,
            },
            None => Some(String::from_str("connected | no conversation selected")),
        };
        match line {
            Some(l) => {
                self.status_message = l;
            },
            None => {},
        }
    }

    /// Sets the unread count of conversation `index`.
    pub fn set_unread(&mut self, index: usize, unread: usize)
        requires
            old(self).wf(),
            index < old(self).conversations.entries@.len(),
        ensures
            final(self).wf(),
            final(self)@ == (ReconcilerView {
                ledger: Ledger {
                    convs: old(self)@.ledger.convs.update(
                        index as int,
                        ConversationView { unread, ..old(self)@.ledger.convs[index as int] },
                    ),
                    ..old(self)@.ledger
                },
                ..old(self)@
            }),
            *final(self) == (Reconciler { conversations: final(self).conversations, ..*old(self) }),
    {
        let ghost before = self@;
        let ghost conv_before = self.conversations.entries@[index as int].1@;
        self.conversations.entries[index].1.unread = unread;
        proof {
            let conv_after = self.conversations.entries@[index as int].1@;
            assert(conv_after.messages == conv_before.messages);
            assert(self@.ledger.keys =~= before.ledger.keys);
            assert(self@.ledger.convs =~= before.ledger.convs.update(
                index as int,
                ConversationView { unread, ..conv_before },
            ));
        }
    }

    /// Makes conversation `id` the active one: nothing in it is unread any
    /// more, and the status bar names it.
    pub fn activate(&mut self, id: &str)
        requires
            old(self).wf(),
        ensures
            final(self).wf(),
            final(self)@ == activated(old(self)@, id@),
            *final(self) == (Reconciler {
                conversations: final(self).conversations,
                active_conversation: final(self).active_conversation,
                status_message: final(self).status_message,
                ..*old(self)
            }),
    {
        proof {
            lemma_index_in(self@.ledger.keys, id@);
        }
        self.active_conversation = Some(String::from_str(id));
        match self.conversations.find(id) {
            Some(p) => {
                self.set_unread(p, 0);
            },
            None => {},
        }
        self.update_status();
    }

    /// The index of the first conversation whose name holds `needle`, which
    /// is in lower case, whatever the case of the name.
    fn find_by_name(&self, needle: &str) -> (r: Option<usize>)
        ensures
            match r {
                Some(i) => i == first_named(self.conv_views(), needle@) && i
                    < self.conversations.entries@.len(),
                None => first_named(self.conv_views(), needle@) == -1,
            },
    {
        let mut i: usize = 0;
        while i < self.conversations.entries.len()
            invariant
                i <= self.conversations.entries@.len(),
                forall|j: int|
                    0 <= j < i ==> !text::contains(
                        text::lowercase((#[trigger] self.conv_views()[j]).name),
                        needle@,
                    ),
            decreases self.conversations.entries@.len() - i,
        {
            let lower = self.conversations.entries[i].1.name.as_str().to_lowercase();
            if text::contains_exec(lower.as_str(), needle) {
                proof {
                    lemma_first_named(self.conv_views(), needle@);
                    assert(text::contains(
                        text::lowercase(self.conv_views()[i as int].name),
                        needle@,
                    ));
                }
                return Some(i);
            }
            assert(!text::contains(text::lowercase(self.conv_views()[i as int].name), needle@));
            i += 1;
        }
        proof {
            lemma_first_named(self.conv_views(), needle@);
        }
        None
    }

    /// Switches to the conversation that the user asked for, and returns
    /// whether there is one.
    ///
    /// `target` is tried as a key, then as part of a name whatever the
    /// case; a target that begins with `+` and matches nothing becomes a new
    /// 1:1 conversation. Otherwise the status bar says that there is no such
    /// conversation.
    pub fn join_conversation(&mut self, target: &str) -> (found: bool)
        requires
            old(self).wf(),
        ensures
            final(self).wf(),
            final(self)@ == joined(old(self)@, target@),
            found == join_finds(old(self)@, target@),
            *final(self) == (Reconciler {
                conversations: final(self).conversations,
                conversation_order: final(self).conversation_order,
                active_conversation: final(self).active_conversation,
                status_message: final(self).status_message,
                db_ops: final(self).db_ops,
                ..*old(self)
            }),
    {
        proof {
            lemma_index_in(self@.ledger.keys, target@);
            lemma_first_named(self@.ledger.convs, text::lowercase(target@));
        }
        if self.conversations.contains_key(target) {
            self.activate(target);
            return true;
        }
        let lower = target.to_lowercase();
        match self.find_by_name(lower.as_str()) {
            Some(i) => {
                let id = self.conversations.entries[i].0.clone();
                proof {
                    assert(self@.ledger.keys[i as int] == id@);
                }
                self.activate(id.as_str());
                return true;
            },
            None => {},
        }
        let tv = text::chars(target);
        if tv.len() > 0 && tv[0] == '+' {
            self.get_or_create_conversation(target, target, false);
            self.active_conversation = Some(String::from_str(target));
            self.update_status();
            true
        } else {
            self.status_message = text::concat("Conversation not found: ", target);
            false
        }
    }

    /// Marks the active conversation as read: the marker is queued for
    /// writing. Returns the number of messages of the active conversation,
    /// where it is in the table.
    pub fn mark_read(&mut self) -> (r: Option<usize>)
        requires
            old(self).wf(),
        ensures
            final(self).wf(),
            final(self)@ == marked_read(old(self)@),
            r == active_length(old(self)@),
            *final(self) == (Reconciler { db_ops: final(self).db_ops, ..*old(self) }),
    {
        let id: String = match &self.active_conversation {
            Some(id) => id.clone(),
            None => {
                return None;
            },
        };
        proof {
            lemma_index_in(self@.ledger.keys, id@);
        }
        let length = match self.conversations.find(id.as_str()) {
            Some(p) => Some(self.conversations.entries[p].1.messages.len()),
            None => None,
        };
        let op = DbOp::SaveReadMarker { conv_id: id };
        proof {
            lemma_views_push(self.db_ops@, op);
        }
        self.db_ops.push(op);
        length
    }

    /// Puts a text that the user sends at `now` into the timeline of
    /// conversation `id`, as `Sending` under the local timestamp, and queues
    /// it for writing. Returns whether the conversation is a group.
    pub fn send_text(&mut self, id: &str, text: &str, now: i64) -> (is_group: bool)
        requires
            old(self).wf(),
        ensures
            final(self).wf(),
            final(self)@ == text_sent(old(self)@, id@, text@, now),
            is_group == (0 <= index_in(old(self)@.ledger.keys, id@) < old(self)@.ledger.convs.len()
                && old(self)@.ledger.convs[index_in(old(self)@.ledger.keys, id@)].is_group),
            *final(self) == (Reconciler {
                conversations: final(self).conversations,
                db_ops: final(self).db_ops,
                ..*old(self)
            }),
    {
        let ghost before = self@;
        proof {
            lemma_index_in(before.ledger.keys, id@);
        }
        let op = DbOp::InsertMessage {
            conv_id: String::from_str(id),
            sender: String::from_str("you"),
            timestamp: now,
            body: String::from_str(text),
            is_system: false,
            status: Some(MessageStatus::Sending),
            timestamp_ms: now,
        };
        proof {
            lemma_views_push(self.db_ops@, op);
        }
        self.db_ops.push(op);
        match self.conversations.find(id) {
            Some(p) => {
                let entry = DisplayMessage {
                    sender: String::from_str("you"),
                    timestamp: now,
                    body: String::from_str(text),
                    is_system: false,
                    image_path: None,
                    status: Some(MessageStatus::Sending),
                    timestamp_ms: now,
                    reactions: Vec::new(),
                };
                let ghost conv_before = self.conversations.entries@[p as int].1@;
                proof {
                    assert(entry@.reactions =~= Seq::empty());
                    assert(entry@ == outgoing_entry(text@, now));
                    lemma_views_push(self.conversations.entries@[p as int].1.messages@, entry);
                }
                self.conversations.entries[p].1.messages.push(entry);
                proof {
                    let conv_after = self.conversations.entries@[p as int].1@;
                    assert(conversation_wf(conv_after)) by {
                        assert forall|k: int|
                            0 <= k < conv_after.messages.len() implies message_wf(
                            #[trigger] conv_after.messages[k],
                        ) by {
                            if k < conv_before.messages.len() {
                                assert(conv_after.messages[k] == conv_before.messages[k]);
                            }
                        }
                    }
                    assert(self@.ledger.keys =~= before.ledger.keys);
                    assert(self@.ledger.convs =~= before.ledger.convs.update(
                        p as int,
                        ConversationView {
                            messages: conv_before.messages.push(outgoing_entry(text@, now)),
                            ..conv_before
                        },
                    ));
                }
                self.conversations.entries[p].1.is_group
            },
            None => false,
        }
    }

    /// Records that the send of the message with the local timestamp
    /// `local_ts` in conversation `conv_id` went to the backend under
    /// `rpc_id`. The confirmation or failure that arrives for `rpc_id`
    /// finds the message by this entry.
    pub fn register_send(&mut self, rpc_id: String, conv_id: String, local_ts: i64)
        requires
            old(self).wf(),
        ensures
            final(self).wf(),
            final(self)@ == send_registered(old(self)@, rpc_id@, conv_id@, local_ts),
            *final(self) == (Reconciler { pending_sends: final(self).pending_sends, ..*old(self) }),
    {
        let ghost before = self.pending_sends;
        let ghost key = rpc_id@;
        let value = (conv_id, local_ts);
        self.pending_sends.insert(rpc_id, value);
        proof {
            lemma_inserted_view(before, self.pending_sends, key, value);
        }
    }

    /// Mutes the active conversation, or unmutes it where it is muted; the
    /// change is queued for writing and shown in the status bar.
    pub fn toggle_mute(&mut self)
        requires
            old(self).wf(),
        ensures
            final(self).wf(),
            final(self)@ == mute_toggled(old(self)@),
            *final(self) == (Reconciler {
                muted_conversations: final(self).muted_conversations,
                status_message: final(self).status_message,
                db_ops: final(self).db_ops,
                ..*old(self)
            }),
    {
        let id: String = match &self.active_conversation {
            Some(id) => id.clone(),
            None => {
                self.status_message = String::from_str("no active conversation to mute");
                return ;
            },
        };
        proof {
            lemma_index_in(self@.ledger.keys, id@);
        }
        let name: String = match self.conversations.find(id.as_str()) {
            Some(p) => self.conversations.entries[p].1.name.clone(),
            None => id.clone(),
        };
        let was_muted = contains_str(&self.muted_conversations, id.as_str());
        if was_muted {
            let mut kept: Vec<String> = Vec::new();
            let mut i: usize = 0;
            let ghost all = views(self.muted_conversations@);
            proof {
                assert(all.take(0) =~= Seq::<Seq<char>>::empty());
                assert(views(kept@) =~= Seq::<Seq<char>>::empty());
            }
            while i < self.muted_conversations.len()
                invariant
                    i <= self.muted_conversations@.len(),
                    all == views(self.muted_conversations@),
                    views(kept@) == without_key(all.take(i as int), id@),
                decreases self.muted_conversations@.len() - i,
            {
                proof {
                    assert(all.take(i + 1).drop_last() =~= all.take(i as int));
                    assert(all.take(i + 1).last() == self.muted_conversations@[i as int]@);
                }
                if !self.muted_conversations[i].as_str().eq(id.as_str()) {
                    let k = self.muted_conversations[i].clone();
                    proof {
                        lemma_views_push(kept@, k);
                    }
                    kept.push(k);
                }
                i += 1;
            }
            proof {
                assert(all.take(all.len() as int) =~= all);
            }
            self.muted_conversations = kept;
            self.status_message = text::concat("unmuted ", name.as_str());
        } else {
            let k = id.clone();
            proof {
                lemma_views_push(self.muted_conversations@, k);
            }
            self.muted_conversations.push(k);
            self.status_message = text::concat("muted ", name.as_str());
        }
        let op = DbOp::SetMuted { conv_id: id, muted: !was_muted };
        proof {
            lemma_views_push(self.db_ops@, op);
        }
        self.db_ops.push(op);
    }

    /// Toggles the bell: for both kinds of conversation where no kind is
    /// named, else for the kind named.
    pub fn toggle_bell(&mut self, kind: Option<&str>)
        requires
            old(self).wf(),
        ensures
            final(self).wf(),
            final(self)@ == bell_toggled(old(self)@, opt_str_view(kind)),
            *final(self) == (Reconciler {
                notify_direct: final(self).notify_direct,
                notify_group: final(self).notify_group,
                status_message: final(self).status_message,
                ..*old(self)
            }),
    {
        match kind {
            None => {
                let on = !(self.notify_direct && self.notify_group);
                self.notify_direct = on;
                self.notify_group = on;
                self.status_message = text::concat(
                    "notifications ",
                    if on {
                        "on"
                    } else {
                        "off"
                    },
                );
            },
            Some(k) => {
                if k.eq("direct") || k.eq("dm") || k.eq("1:1") {
                    self.notify_direct = !self.notify_direct;
                    self.status_message = text::concat(
                        "direct notifications ",
                        if self.notify_direct {
                            "on"
                        } else {
                            "off"
                        },
                    );
                } else if k.eq("group") || k.eq("groups") {
                    self.notify_group = !self.notify_group;
                    self.status_message = text::concat(
                        "group notifications ",
                        if self.notify_group {
                            "on"
                        } else {
                            "off"
                        },
                    );
                } else {
                    self.status_message = text::concat3(
                        "unknown bell type: ",
                        k,
                        " (use direct or group)",
                    );
                }
            },
        }
    }

    /// Removes the typing indicators that are five seconds old or older at
    /// `now`.
    pub fn cleanup_typing_at(&mut self, now: i64)
        requires
            old(self).wf(),
        ensures
            final(self).wf(),
            final(self).typing_indicators.entries@ == fresh_indicators(
                old(self).typing_indicators.entries@,
                now,
            ),
            *final(self) == (Reconciler {
                typing_indicators: final(self).typing_indicators,
                ..*old(self)
            }),
    {
        let mut kept: Vec<(String, i64)> = Vec::new();
        let mut i: usize = 0;
        let ghost all = self.typing_indicators.entries@;
        proof {
            assert(all.take(0) =~= Seq::<(String, i64)>::empty());
        }
        while i < self.typing_indicators.entries.len()
            invariant
                i <= all.len(),
                all == self.typing_indicators.entries@,
                kept@ == fresh_indicators(all.take(i as int), now),
            decreases all.len() - i,
        {
            proof {
                assert(all.take(i + 1).drop_last() =~= all.take(i as int));
                assert(all.take(i + 1).last() == all[i as int]);
            }
            let since = self.typing_indicators.entries[i].1;
            let fresh = if since > now {
                true
            } else {
                (now as i128) - (since as i128) < 5000
            };
            if fresh {
                kept.push((self.typing_indicators.entries[i].0.clone(), since));
            }
            i += 1;
        }
        proof {
            assert(all.take(all.len() as int) =~= all);
            lemma_fresh_distinct(all, now);
        }
        self.typing_indicators.entries = kept;
    }

    /// Total unread count across all conversations; the largest number
    /// that fits where the sum does not.
    pub fn total_unread(&self) -> (r: usize)
        ensures
            r == if unread_sum(self.conv_views()) > usize::MAX {
                usize::MAX as nat
            } else {
                unread_sum(self.conv_views())
            },
    {
        let mut sum: usize = 0;
        let mut i: usize = 0;
        let ghost all = self.conv_views();
        proof {
            assert(all.take(0) =~= Seq::<ConversationView>::empty());
        }
        while i < self.conversations.entries.len()
            invariant
                i <= all.len(),
                all == self.conv_views(),
                all.len() == self.conversations.entries@.len(),
                sum == if unread_sum(all.take(i as int)) > usize::MAX {
                    usize::MAX as nat
                } else {
                    unread_sum(all.take(i as int))
                },
            decreases all.len() - i,
        {
            proof {
                assert(all.take(i + 1).drop_last() =~= all.take(i as int));
                assert(all.take(i + 1).last() == all[i as int]);
            }
            let unread = self.conversations.entries[i].1.unread;
            sum = if unread > usize::MAX - sum {
                usize::MAX
            } else {
                sum + unread
            };
            i += 1;
        }
        proof {
            assert(all.take(all.len() as int) =~= all);
        }
        sum
    }
}

} // verus!
