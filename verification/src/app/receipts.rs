//! Sends and receipts: the state machine of an outgoing message.
//!
//! A message starts as `Sending` under the local clock's timestamp. The
//! server's confirmation gives it the server's timestamp and raises it to
//! `Sent`; a failure makes it `Failed`. Receipts raise it further. A receipt
//! may arrive before the confirmation and name a timestamp that no message
//! carries yet: it is buffered, and handled again after each confirmation.

use vstd::prelude::*;
use crate::app::{receipt_view, receipt_views, Conversation, DbOp, Reconciler};
use crate::app::timeline::{
    conv_receipt, conv_receipt_raises, conversation_wf, first_with_own, has_own, is_own,
    kind_status, last_own, lemma_first_with_own, lemma_last_own, message_confirmed, message_wf,
    raised, receipt_handled, receipt_step, receipts_applied, replayed, send_confirmed, send_failed,
    send_marked, with_message, with_status, ConversationView, DbOpView, Ledger, MessageView,
    ReceiptView,
};
use crate::model::{lemma_views_push, views};
use crate::signal::types::MessageStatus;
use crate::strmap::lemma_index_in;

verus! {

impl Conversation {
    /// The index of the newest of the user's own messages with the
    /// timestamp.
    pub fn find_last_own(&self, ts: i64) -> (r: Option<usize>)
        ensures
            match r {
                Some(i) => i == last_own(self@.messages, ts) && i < self.messages@.len(),
                None => last_own(self@.messages, ts) == -1,
            },
    {
        let mut i: usize = self.messages.len();
        while i > 0
            invariant
                i <= self.messages@.len(),
                forall|j: int| i <= j < self.messages@.len() ==> !is_own(self.messages@[j]@, ts),
            decreases i,
        {
            i -= 1;
            if self.messages[i].sender.as_str().eq("you") && self.messages[i].timestamp_ms == ts {
                proof {
                    lemma_last_own(self@.messages, ts);
                    assert(self@.messages[i as int] == self.messages@[i as int]@);
                    let r = last_own(self@.messages, ts);
                    if r > i {
                        assert(self@.messages[r] == self.messages@[r]@);
                    }
                }
                return Some(i);
            }
        }
        proof {
            lemma_last_own(self@.messages, ts);
            let r = last_own(self@.messages, ts);
            if r >= 0 {
                assert(self@.messages[r] == self.messages@[r]@);
            }
        }
        None
    }

    /// Replaces the delivery state of message `i`.
    pub fn set_message_status(&mut self, i: usize, status: Option<MessageStatus>)
        requires
            i < old(self).messages@.len(),
        ensures
            final(self)@ == with_message(
                old(self)@,
                i as int,
                with_status(old(self)@.messages[i as int], status),
            ),
    {
        self.messages[i].status = status;
        proof {
            assert(self@.messages =~= old(self)@.messages.update(
                i as int,
                with_status(old(self)@.messages[i as int], status),
            ));
        }
    }
}

/// Replacing a message by one with the same reactions keeps a conversation
/// well formed.
pub proof fn lemma_with_message_wf(c: ConversationView, i: int, m: MessageView)
    requires
        conversation_wf(c),
        0 <= i < c.messages.len(),
        m.reactions == c.messages[i].reactions,
    ensures
        conversation_wf(with_message(c, i, m)),
{
    let d = with_message(c, i, m);
    assert forall|k: int| 0 <= k < d.messages.len() implies message_wf(
        #[trigger] d.messages[k],
    ) by {
        if k != i {
            assert(d.messages[k] == c.messages[k]);
        } else {
            assert(message_wf(c.messages[i]));
        }
    }
}

/// A receipt keeps a conversation well formed.
pub proof fn lemma_conv_receipt_wf(c: ConversationView, ts: i64, target: MessageStatus)
    requires
        conversation_wf(c),
    ensures
        conversation_wf(conv_receipt(c, ts, target)),
{
    lemma_last_own(c.messages, ts);
    let i = last_own(c.messages, ts);
    if i >= 0 {
        lemma_with_message_wf(c, i, with_status(c.messages[i], raised(c.messages[i].status, target)));
    }
}

/// The state that a receipt kind in upper case stands for: `DELIVERY`,
/// `READ` or `VIEWED`; any other kind stands for none.
pub fn receipt_kind_status(upper: &str) -> (r: Option<MessageStatus>)
    ensures
        r == kind_status(upper@),
{
    if upper.eq("DELIVERY") {
        Some(MessageStatus::Delivered)
    } else if upper.eq("READ") {
        Some(MessageStatus::Read)
    } else if upper.eq("VIEWED") {
        Some(MessageStatus::Viewed)
    } else {
        None
    }
}

impl Reconciler {
    /// Raises the state of the newest own message with timestamp `ts` in one
    /// conversation, and queues the new state for writing where it differs
    /// from the old one. Returns whether the conversation holds such a
    /// message.
    ///
    /// The state is never lowered: a `Delivery` receipt for a message that is
    /// `Read` leaves it `Read`.
    pub fn try_upgrade_receipt(
        conv_id: &str,
        conv: &mut Conversation,
        ts: i64,
        new_status: MessageStatus,
        ops: &mut Vec<DbOp>,
    ) -> (found: bool)
        ensures
            found == has_own(old(conv)@, ts),
            final(conv)@ == conv_receipt(old(conv)@, ts, new_status),
            views(final(ops)@) == (if conv_receipt_raises(old(conv)@, ts, new_status) {
                views(old(ops)@).push(
                    DbOpView::UpdateMessageStatus {
                        conv_id: conv_id@,
                        timestamp_ms: ts,
                        status: new_status.rank() as i32,
                    },
                )
            } else {
                views(old(ops)@)
            }),
    {
        match conv.find_last_own(ts) {
            Some(i) => {
                match conv.messages[i].status {
                    Some(current) => {
                        if new_status.to_i32() > current.to_i32() {
                            conv.set_message_status(i, Some(new_status));
                            let op = DbOp::UpdateMessageStatus {
                                conv_id: String::from_str(conv_id),
                                timestamp_ms: ts,
                                status: new_status.to_i32(),
                            };
                            proof {
                                lemma_views_push(ops@, op);
                            }
                            ops.push(op);
                        } else {
                            proof {
                                let c = old(conv)@;
                                assert(c.messages.update(i as int, c.messages[i as int])
                                    =~= c.messages);
                            }
                        }
                    },
                    None => {
                        proof {
                            let c = old(conv)@;
                            assert(c.messages.update(i as int, c.messages[i as int])
                                =~= c.messages);
                        }
                    },
                }
                true
            },
            None => false,
        }
    }

    /// The index of the first conversation that holds an own message with
    /// the timestamp.
    fn first_conversation_with(&self, ts: i64) -> (r: Option<usize>)
        ensures
            match r {
                Some(i) => i == first_with_own(self.conv_views(), ts) && i
                    < self.conversations.entries@.len(),
                None => first_with_own(self.conv_views(), ts) == -1,
            },
    {
        let mut i: usize = 0;
        while i < self.conversations.entries.len()
            invariant
                i <= self.conversations.entries@.len(),
                forall|j: int| 0 <= j < i ==> !has_own(#[trigger] self.conv_views()[j], ts),
            decreases self.conversations.entries@.len() - i,
        {
            if self.conversations.entries[i].1.find_last_own(ts).is_some() {
                proof {
                    lemma_first_with_own(self.conv_views(), ts);
                    assert(has_own(self.conv_views()[i as int], ts));
                }
                return Some(i);
            }
            assert(!has_own(self.conv_views()[i as int], ts));
            i += 1;
        }
        proof {
            lemma_first_with_own(self.conv_views(), ts);
        }
        None
    }

    /// Handles one timestamp of a receipt from `sender` that stands for
    /// `target`.
    ///
    /// The conversation keyed by the sender is searched first (the 1:1
    /// case), then all conversations in order (a group, where the sender is
    /// a member). Where no message is found, the timestamp is buffered
    /// together with the sender and the kind as they were received.
    pub fn apply_receipt_timestamp(
        &mut self,
        sender: &str,
        receipt_type: &str,
        target: MessageStatus,
        ts: i64,
    )
        requires
            old(self).wf(),
        ensures
            final(self).wf(),
            final(self).ledger() == receipt_step(
                old(self).ledger(),
                sender@,
                receipt_type@,
                target,
                ts,
            ),
            *final(self) == (Reconciler {
                conversations: final(self).conversations,
                pending_receipts: final(self).pending_receipts,
                db_ops: final(self).db_ops,
                ..*old(self)
            }),
    {
        let at_sender = match self.conversations.find(sender) {
            Some(p) => {
                if self.conversations.entries[p].1.find_last_own(ts).is_some() {
                    Some(p)
                } else {
                    None
                }
            },
            None => None,
        };
        let target_index = match at_sender {
            Some(p) => Some(p),
            None => self.first_conversation_with(ts),
        };
        let ghost before = self.ledger();
        proof {
            lemma_index_in(before.keys, sender@);
            lemma_first_with_own(before.convs, ts);
        }
        match target_index {
            Some(i) => {
                let key = self.conversations.entries[i].0.clone();
                let ghost conv_before = self.conversations.entries@[i as int].1@;
                Reconciler::try_upgrade_receipt(
                    key.as_str(),
                    &mut self.conversations.entries[i].1,
                    ts,
                    target,
                    &mut self.db_ops,
                );
                proof {
                    lemma_conv_receipt_wf(conv_before, ts, target);
                    assert(self.ledger().keys =~= before.keys);
                    assert(self.ledger().convs =~= before.convs.update(
                        i as int,
                        conv_receipt(before.convs[i as int], ts, target),
                    ));
                    assert(self.ledger().pending_receipts =~= before.pending_receipts);
                    assert(before.keys[i as int] == key@);
                }
            },
            None => {
                let mut one: Vec<i64> = Vec::new();
                one.push(ts);
                self.pending_receipts.push(
                    (String::from_str(sender), String::from_str(receipt_type), one),
                );
                proof {
                    assert(one@ =~= seq![ts]);
                    assert(self.ledger().pending_receipts =~= before.pending_receipts.push(
                        ReceiptView { sender: sender@, kind: receipt_type@, timestamps: seq![ts] },
                    ));
                }
            },
        }
    }

    /// Handles a receipt that stands for `target`, one timestamp after the
    /// other.
    pub fn apply_receipt(
        &mut self,
        sender: &str,
        receipt_type: &str,
        target: MessageStatus,
        timestamps: &[i64],
    )
        requires
            old(self).wf(),
        ensures
            final(self).wf(),
            final(self).ledger() == receipts_applied(
                old(self).ledger(),
                sender@,
                receipt_type@,
                target,
                timestamps@,
            ),
            *final(self) == (Reconciler {
                conversations: final(self).conversations,
                pending_receipts: final(self).pending_receipts,
                db_ops: final(self).db_ops,
                ..*old(self)
            }),
    {
        let ghost start = *self;
        let mut k: usize = 0;
        proof {
            assert(timestamps@.take(0) =~= Seq::<i64>::empty());
        }
        while k < timestamps.len()
            invariant
                k <= timestamps@.len(),
                self.wf(),
                self.ledger() == receipts_applied(
                    start.ledger(),
                    sender@,
                    receipt_type@,
                    target,
                    timestamps@.take(k as int),
                ),
                *self == (Reconciler {
                    conversations: self.conversations,
                    pending_receipts: self.pending_receipts,
                    db_ops: self.db_ops,
                    ..start
                }),
            decreases timestamps@.len() - k,
        {
            proof {
                assert(timestamps@.take(k + 1).drop_last() =~= timestamps@.take(k as int));
                assert(timestamps@.take(k + 1).last() == timestamps@[k as int]);
            }
            self.apply_receipt_timestamp(sender, receipt_type, target, timestamps[k]);
            k += 1;
        }
        proof {
            assert(timestamps@.take(timestamps@.len() as int) =~= timestamps@);
        }
    }

    /// Handles a delivery, read or viewed receipt.
    ///
    /// The kind is compared without regard to case. Each timestamp raises the
    /// state of the message it names to the state that the kind stands for,
    /// or is buffered where it names no message yet. A receipt of another
    /// kind is ignored.
    pub fn handle_receipt(&mut self, sender: &str, receipt_type: &str, timestamps: &[i64])
        requires
            old(self).wf(),
        ensures
            final(self).wf(),
            final(self).ledger() == receipt_handled(
                old(self).ledger(),
                sender@,
                receipt_type@,
                timestamps@,
            ),
            *final(self) == (Reconciler {
                conversations: final(self).conversations,
                pending_receipts: final(self).pending_receipts,
                db_ops: final(self).db_ops,
                ..*old(self)
            }),
    {
        let upper = receipt_type.to_uppercase();
        match receipt_kind_status(upper.as_str()) {
            Some(target) => self.apply_receipt(sender, receipt_type, target, timestamps),
            None => {},
        }
    }

    /// Handles the buffered receipts again, oldest first. Those that still
    /// name no message are buffered anew.
    pub fn replay_receipts(&mut self)
        requires
            old(self).wf(),
        ensures
            final(self).wf(),
            final(self).ledger() == replayed(
                Ledger { pending_receipts: Seq::empty(), ..old(self).ledger() },
                old(self).ledger().pending_receipts,
            ),
            *final(self) == (Reconciler {
                conversations: final(self).conversations,
                pending_receipts: final(self).pending_receipts,
                db_ops: final(self).db_ops,
                ..*old(self)
            }),
    {
        let ghost start = *self;
        let mut buffered: Vec<(String, String, Vec<i64>)> = Vec::new();
        core::mem::swap(&mut self.pending_receipts, &mut buffered);
        let ghost emptied = Ledger { pending_receipts: Seq::empty(), ..start.ledger() };
        proof {
            assert(self.ledger().pending_receipts =~= Seq::<ReceiptView>::empty());
            assert(receipt_views(buffered@.take(0)) =~= Seq::<ReceiptView>::empty());
        }
        let mut i: usize = 0;
        while i < buffered.len()
            invariant
                i <= buffered@.len(),
                self.wf(),
                buffered@ == start.pending_receipts@,
                self.ledger() == replayed(emptied, receipt_views(buffered@.take(i as int))),
                *self == (Reconciler {
                    conversations: self.conversations,
                    pending_receipts: self.pending_receipts,
                    db_ops: self.db_ops,
                    ..start
                }),
            decreases buffered@.len() - i,
        {
            proof {
                let upto = receipt_views(buffered@.take(i + 1));
                assert(upto.drop_last() =~= receipt_views(buffered@.take(i as int)));
                assert(upto.last() == receipt_view(buffered@[i as int]));
            }
            self.handle_receipt(
                buffered[i].0.as_str(),
                buffered[i].1.as_str(),
                buffered[i].2.as_slice(),
            );
            i += 1;
        }
        proof {
            assert(buffered@.take(buffered@.len() as int) =~= buffered@);
        }
    }

    /// Marks the message of a confirmed send: it gets the server's timestamp
    /// (it keeps the local one where the server sent 0) and is at least
    /// `Sent`; the change is queued for writing.
    fn mark_sent(&mut self, conv_id: &str, local_ts: i64, server_ts: i64)
        requires
            old(self).wf(),
        ensures
            final(self).wf(),
            final(self).ledger() == send_marked(old(self).ledger(), conv_id@, local_ts, server_ts),
            *final(self) == (Reconciler {
                conversations: final(self).conversations,
                db_ops: final(self).db_ops,
                ..*old(self)
            }),
    {
        let ghost before = self.ledger();
        proof {
            lemma_index_in(before.keys, conv_id@);
        }
        match self.conversations.find(conv_id) {
            Some(p) => {
                match self.conversations.entries[p].1.find_last_own(local_ts) {
                    Some(i) => {
                        let effective = if server_ts != 0 {
                            server_ts
                        } else {
                            local_ts
                        };
                        let status = match self.conversations.entries[p].1.messages[i].status {
                            Some(s) => s.raise(MessageStatus::Sent),
                            None => MessageStatus::Sent,
                        };
                        let ghost conv_before = self.conversations.entries@[p as int].1@;
                        let ghost m = conv_before.messages[i as int];
                        self.conversations.entries[p].1.messages[i].timestamp_ms = effective;
                        self.conversations.entries[p].1.messages[i].status = Some(status);
                        let op = DbOp::UpdateMessageTimestampMs {
                            conv_id: String::from_str(conv_id),
                            old_ts: local_ts,
                            new_ts: effective,
                            status: status.to_i32(),
                        };
                        proof {
                            lemma_views_push(self.db_ops@, op);
                        }
                        self.db_ops.push(op);
                        proof {
                            let conv_after = self.conversations.entries@[p as int].1@;
                            assert(conv_after.messages =~= conv_before.messages.update(
                                i as int,
                                message_confirmed(m, local_ts, server_ts),
                            ));
                            lemma_with_message_wf(
                                conv_before,
                                i as int,
                                message_confirmed(m, local_ts, server_ts),
                            );
                            assert(self.ledger().keys =~= before.keys);
                            assert(self.ledger().convs =~= before.convs.update(
                                p as int,
                                with_message(
                                    before.convs[p as int],
                                    i as int,
                                    message_confirmed(m, local_ts, server_ts),
                                ),
                            ));
                        }
                    },
                    None => {},
                }
            },
            None => {},
        }
    }

    /// Handles the confirmation of a send.
    ///
    /// The pending send for `rpc_id` leaves the table. Its message gets the
    /// server's timestamp and is at least `Sent`; then the buffered receipts
    /// are handled again, which settles a receipt that arrived before the
    /// client knew the server's timestamp. A confirmation for an id that is
    /// not pending changes nothing.
    pub fn handle_send_timestamp(&mut self, rpc_id: &str, server_ts: i64)
        requires
            old(self).wf(),
        ensures
            final(self).wf(),
            match old(self).pending_sends.value_of(rpc_id@) {
                Some(pending) => final(self).ledger() == send_confirmed(
                    old(self).ledger(),
                    pending.0@,
                    pending.1,
                    server_ts,
                ),
                None => final(self).ledger() == old(self).ledger(),
            },
            !final(self).pending_sends.has(rpc_id@),
            forall|k: Seq<char>|
                k != rpc_id@ ==> final(self).pending_sends.value_of(k) == old(
                    self,
                ).pending_sends.value_of(k),
            *final(self) == (Reconciler {
                conversations: final(self).conversations,
                pending_receipts: final(self).pending_receipts,
                pending_sends: final(self).pending_sends,
                db_ops: final(self).db_ops,
                ..*old(self)
            }),
    {
        match self.pending_sends.remove(rpc_id) {
            Some((conv_id, local_ts)) => {
                self.mark_sent(conv_id.as_str(), local_ts, server_ts);
                self.replay_receipts();
            },
            None => {
                proof {
                    assert(self.ledger() == old(self).ledger());
                }
            },
        }
    }

    /// Handles the failure of a send: the pending send for `rpc_id` leaves
    /// the table and its message becomes `Failed`, whatever its state was.
    /// A failure for an id that is not pending changes nothing.
    pub fn handle_send_failed(&mut self, rpc_id: &str)
        requires
            old(self).wf(),
        ensures
            final(self).wf(),
            match old(self).pending_sends.value_of(rpc_id@) {
                Some(pending) => final(self).ledger() == send_failed(
                    old(self).ledger(),
                    pending.0@,
                    pending.1,
                ),
                None => final(self).ledger() == old(self).ledger(),
            },
            !final(self).pending_sends.has(rpc_id@),
            forall|k: Seq<char>|
                k != rpc_id@ ==> final(self).pending_sends.value_of(k) == old(
                    self,
                ).pending_sends.value_of(k),
            *final(self) == (Reconciler {
                conversations: final(self).conversations,
                pending_sends: final(self).pending_sends,
                db_ops: final(self).db_ops,
                ..*old(self)
            }),
    {
        let ghost before = self.ledger();
        match self.pending_sends.remove(rpc_id) {
            Some((conv_id, local_ts)) => {
                proof {
                    lemma_index_in(before.keys, conv_id@);
                }
                match self.conversations.find(conv_id.as_str()) {
                    Some(p) => {
                        match self.conversations.entries[p].1.find_last_own(local_ts) {
                            Some(i) => {
                                let ghost conv_before = self.conversations.entries@[p as int].1@;
                                self.conversations.entries[p].1.set_message_status(
                                    i,
                                    Some(MessageStatus::Failed),
                                );
                                let op = DbOp::UpdateMessageStatus {
                                    conv_id: conv_id,
                                    timestamp_ms: local_ts,
                                    status: MessageStatus::Failed.to_i32(),
                                };
                                proof {
                                    lemma_views_push(self.db_ops@, op);
                                }
                                self.db_ops.push(op);
                                proof {
                                    lemma_with_message_wf(
                                        conv_before,
                                        i as int,
                                        with_status(
                                            conv_before.messages[i as int],
                                            Some(MessageStatus::Failed),
                                        ),
                                    );
                                    assert(self.ledger().keys =~= before.keys);
                                    assert(self.ledger().convs =~= before.convs.update(
                                        p as int,
                                        with_message(
                                            before.convs[p as int],
                                            i as int,
                                            with_status(
                                                before.convs[p as int].messages[i as int],
                                                Some(MessageStatus::Failed),
                                            ),
                                        ),
                                    ));
                                }
                            },
                            None => {},
                        }
                    },
                    None => {},
                }
            },
            None => {},
        }
    }
}

} // verus!
