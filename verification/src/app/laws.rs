//! What holds of the reconciler whatever the backend sends.
//!
//! The laws are stated over the rules of [`crate::app::timeline`], which
//! the handlers are proved to compute.

use vstd::prelude::*;
use crate::app::timeline::{message_reloaded, outgoing_entry, text_sent, 
    confirmed_status, contact_step, contacts_handled, conv_receipt, conversation_ensured,
    entries_appended, event_handled, group_step, groups_handled, has_own, is_own, last_own,
    learned, lemma_first_with_own, lemma_last_own, lemma_reaction_index, lemma_reaction_target,
    lemma_reactions_merged_wf, lemma_without_sender, listed, message_confirmed, message_handled,
    message_key, name_candidate, one_more, raised, reaction_handled, reaction_index,
    reaction_target, reactions_merged, reactor_display, receipt_handled, receipt_status,
    receipt_step, receipt_target, receipts_applied, renamed, replayed, resolved_name,
    send_confirmed, send_failed, send_marked, sender_display, timeline_entries, with_message,
    with_reactions, with_status, without_sender, ConversationView, Ledger, MessageView,
    ReceiptView, ReconcilerView,
};
use crate::signal::types::{
    ContactView, GroupView, MessageStatus, ReactionView, SignalEventView, SignalMessageView,
};
use crate::strmap::{index_in, lemma_index_in, lookup};

verus! {

/// The position of a delivery state in the order; 0 for a message that has
/// none.
pub open spec fn rank_of(status: Option<MessageStatus>) -> int {
    match status {
        Some(s) => s.rank(),
        None => 0,
    }
}

/// Whether conversation `p` of the ledger has a message `i`.
pub open spec fn has_message(l: Ledger, p: int, i: int) -> bool {
    0 <= p < l.convs.len() && 0 <= i < l.convs[p].messages.len()
}

/// The delivery state of message `i` of conversation `p`.
pub open spec fn status_at(l: Ledger, p: int, i: int) -> Option<MessageStatus> {
    l.convs[p].messages[i].status
}

/// Every message of `a` is still there in `b`, at its place, and its state
/// is not lower.
pub open spec fn never_lowered(a: Ledger, b: Ledger) -> bool {
    forall|p: int, i: int| #[trigger]
        has_message(a, p, i) ==> has_message(b, p, i) && rank_of(status_at(b, p, i)) >= rank_of(
            status_at(a, p, i),
        )
}

/// Every message of `a` is still there in `b`, at its place, and its state
/// is not lower, unless it is `Failed`.
pub open spec fn lowered_to_failed_only(a: Ledger, b: Ledger) -> bool {
    forall|p: int, i: int| #[trigger]
        has_message(a, p, i) ==> has_message(b, p, i) && (rank_of(status_at(b, p, i)) >= rank_of(
            status_at(a, p, i),
        ) || status_at(b, p, i) == Some(MessageStatus::Failed))
}

/// Ledgers with the same conversations.
proof fn lemma_same_convs(a: Ledger, b: Ledger)
    requires
        a.convs == b.convs,
    ensures
        never_lowered(a, b),
{
    assert forall|p: int, i: int| #[trigger] has_message(a, p, i) implies has_message(b, p, i)
        && rank_of(status_at(b, p, i)) >= rank_of(status_at(a, p, i)) by {}
}

/// What was never lowered on the way from `a` to `b` and from `b` to `c`
/// was never lowered from `a` to `c`.
proof fn lemma_never_lowered_trans(a: Ledger, b: Ledger, c: Ledger)
    requires
        never_lowered(a, b),
        never_lowered(b, c),
    ensures
        never_lowered(a, c),
{
    assert forall|p: int, i: int| #[trigger] has_message(a, p, i) implies has_message(c, p, i)
        && rank_of(status_at(c, p, i)) >= rank_of(status_at(a, p, i)) by {
        assert(has_message(b, p, i));
    }
}

/// Replacing one conversation by one that has all its messages, none of
/// them lowered, lowers nothing.
proof fn lemma_update_conv(l: Ledger, t: int, c: ConversationView, after: Ledger)
    requires
        0 <= t < l.convs.len(),
        after.convs == l.convs.update(t, c),
        l.convs[t].messages.len() <= c.messages.len(),
        forall|i: int|
            0 <= i < l.convs[t].messages.len() ==> rank_of((#[trigger] c.messages[i]).status)
                >= rank_of(l.convs[t].messages[i].status),
    ensures
        never_lowered(l, after),
{
    assert forall|p: int, i: int| #[trigger] has_message(l, p, i) implies has_message(after, p, i)
        && rank_of(status_at(after, p, i)) >= rank_of(status_at(l, p, i)) by {
        if p == t {
            assert(after.convs[p] == c);
            assert(rank_of(c.messages[i].status) >= rank_of(l.convs[t].messages[i].status));
        } else {
            assert(after.convs[p] == l.convs[p]);
        }
    }
}

/// Replacing one message of a conversation by one whose state is not lower
/// lowers nothing.
proof fn lemma_update_message(l: Ledger, t: int, i: int, m: MessageView, after: Ledger)
    requires
        has_message(l, t, i),
        after.convs == l.convs.update(t, with_message(l.convs[t], i, m)),
        rank_of(m.status) >= rank_of(l.convs[t].messages[i].status),
    ensures
        never_lowered(l, after),
{
    let c = with_message(l.convs[t], i, m);
    assert forall|k: int| 0 <= k < l.convs[t].messages.len() implies rank_of(
        (#[trigger] c.messages[k]).status,
    ) >= rank_of(l.convs[t].messages[k].status) by {
        if k != i {
            assert(c.messages[k] == l.convs[t].messages[k]);
        }
    }
    lemma_update_conv(l, t, c, after);
}

/// One timestamp of a receipt lowers nothing.
proof fn lemma_receipt_step(
    l: Ledger,
    sender: Seq<char>,
    kind: Seq<char>,
    target: MessageStatus,
    ts: i64,
)
    ensures
        never_lowered(l, receipt_step(l, sender, kind, target, ts)),
{
    let after = receipt_step(l, sender, kind, target, ts);
    let t = receipt_target(l, sender, ts);
    lemma_first_with_own(l.convs, ts);
    if t >= 0 {
        lemma_last_own(l.convs[t].messages, ts);
        let i = last_own(l.convs[t].messages, ts);
        let m = l.convs[t].messages[i];
        lemma_update_message(l, t, i, with_status(m, raised(m.status, target)), after);
    } else {
        lemma_same_convs(l, after);
    }
}

/// A receipt lowers nothing.
proof fn lemma_receipts_applied(
    l: Ledger,
    sender: Seq<char>,
    kind: Seq<char>,
    target: MessageStatus,
    timestamps: Seq<i64>,
)
    ensures
        never_lowered(l, receipts_applied(l, sender, kind, target, timestamps)),
    decreases timestamps.len(),
{
    if timestamps.len() == 0 {
        lemma_same_convs(l, l);
    } else {
        let mid = receipts_applied(l, sender, kind, target, timestamps.drop_last());
        lemma_receipts_applied(l, sender, kind, target, timestamps.drop_last());
        lemma_receipt_step(mid, sender, kind, target, timestamps.last());
        lemma_never_lowered_trans(
            l,
            mid,
            receipt_step(mid, sender, kind, target, timestamps.last()),
        );
    }
}

/// A receipt of any kind lowers nothing.
proof fn lemma_receipt_handled(l: Ledger, sender: Seq<char>, kind: Seq<char>, timestamps: Seq<i64>)
    ensures
        never_lowered(l, receipt_handled(l, sender, kind, timestamps)),
{
    match receipt_status(kind) {
        Some(target) => lemma_receipts_applied(l, sender, kind, target, timestamps),
        None => lemma_same_convs(l, l),
    }
}

/// Replaying buffered receipts lowers nothing.
proof fn lemma_replayed(l: Ledger, buffered: Seq<ReceiptView>)
    ensures
        never_lowered(l, replayed(l, buffered)),
    decreases buffered.len(),
{
    if buffered.len() == 0 {
        lemma_same_convs(l, l);
    } else {
        let mid = replayed(l, buffered.drop_last());
        let r = buffered.last();
        lemma_replayed(l, buffered.drop_last());
        lemma_receipt_handled(mid, r.sender, r.kind, r.timestamps);
        lemma_never_lowered_trans(l, mid, receipt_handled(mid, r.sender, r.kind, r.timestamps));
    }
}

/// A confirmed send lowers nothing.
proof fn lemma_send_confirmed(l: Ledger, conv_id: Seq<char>, local_ts: i64, server_ts: i64)
    ensures
        never_lowered(l, send_confirmed(l, conv_id, local_ts, server_ts)),
{
    let marked = send_marked(l, conv_id, local_ts, server_ts);
    let p = index_in(l.keys, conv_id);
    if 0 <= p < l.convs.len() && has_own(l.convs[p], local_ts) {
        lemma_last_own(l.convs[p].messages, local_ts);
        let i = last_own(l.convs[p].messages, local_ts);
        let m = l.convs[p].messages[i];
        lemma_update_message(l, p, i, message_confirmed(m, local_ts, server_ts), marked);
    } else {
        lemma_same_convs(l, marked);
    }
    let emptied = Ledger { pending_receipts: Seq::empty(), ..marked };
    lemma_same_convs(marked, emptied);
    lemma_replayed(emptied, marked.pending_receipts);
    lemma_never_lowered_trans(l, marked, emptied);
    lemma_never_lowered_trans(l, emptied, replayed(emptied, marked.pending_receipts));
}

/// A failed send lowers no state, except that of its own message to
/// `Failed`.
proof fn lemma_send_failed(l: Ledger, conv_id: Seq<char>, local_ts: i64)
    ensures
        lowered_to_failed_only(l, send_failed(l, conv_id, local_ts)),
{
    let after = send_failed(l, conv_id, local_ts);
    let t = index_in(l.keys, conv_id);
    if 0 <= t < l.convs.len() && has_own(l.convs[t], local_ts) {
        lemma_last_own(l.convs[t].messages, local_ts);
        let k = last_own(l.convs[t].messages, local_ts);
        assert forall|p: int, i: int| #[trigger] has_message(l, p, i) implies has_message(
            after,
            p,
            i,
        ) && (rank_of(status_at(after, p, i)) >= rank_of(status_at(l, p, i)) || status_at(
            after,
            p,
            i,
        ) == Some(MessageStatus::Failed)) by {
            if p == t {
                if i != k {
                    assert(after.convs[p].messages[i] == l.convs[p].messages[i]);
                }
            } else {
                assert(after.convs[p] == l.convs[p]);
            }
        }
    } else {
        assert forall|p: int, i: int| #[trigger] has_message(l, p, i) implies has_message(
            after,
            p,
            i,
        ) && (rank_of(status_at(after, p, i)) >= rank_of(status_at(l, p, i)) || status_at(
            after,
            p,
            i,
        ) == Some(MessageStatus::Failed)) by {}
    }
}

/// Making sure that a conversation exists lowers nothing.
proof fn lemma_conversation_ensured(w: ReconcilerView, id: Seq<char>, name: Seq<char>, is_group: bool)
    ensures
        never_lowered(w.ledger, conversation_ensured(w, id, name, is_group).ledger),
{
    let l = w.ledger;
    let after = conversation_ensured(w, id, name, is_group).ledger;
    let p = index_in(l.keys, id);
    if 0 <= p < l.convs.len() {
        if name.len() > 0 && l.convs[p].name != name {
            lemma_update_conv(l, p, ConversationView { name, ..l.convs[p] }, after);
        } else {
            lemma_same_convs(l, after);
        }
    } else {
        assert forall|q: int, i: int| #[trigger] has_message(l, q, i) implies has_message(
            after,
            q,
            i,
        ) && rank_of(status_at(after, q, i)) >= rank_of(status_at(l, q, i)) by {
            assert(after.convs[q] == l.convs[q]);
        }
    }
}

/// A message from the backend lowers nothing.
proof fn lemma_message_handled(w: ReconcilerView, m: SignalMessageView)
    requires
        w.ledger.keys.len() == w.ledger.convs.len(),
    ensures
        never_lowered(w.ledger, message_handled(w, m).ledger),
{
    match message_key(m) {
        None => lemma_same_convs(w.ledger, w.ledger),
        Some(key) => {
            let names = if m.is_outgoing {
                w.names
            } else {
                learned(w.names, m.source, m.source_name)
            };
            let is_group = m.group_id.is_some();
            let name = resolved_name(
                w.ledger,
                key,
                name_candidate(m, lookup(names, key)),
            );
            let w0 = ReconcilerView { names, ..w };
            let w1 = conversation_ensured(w0, key, name, is_group);
            lemma_conversation_ensured(w0, key, name, is_group);
            lemma_ensured_is_listed(w0, key, name, is_group);
            let p = index_in(w1.ledger.keys, key);
            let entries = timeline_entries(
                m,
                sender_display(m, names),
            );
            let w2 = entries_appended(w1, p, key, entries);
            let conv = w1.ledger.convs[p];
            lemma_update_conv(
                w1.ledger,
                p,
                ConversationView { messages: conv.messages + entries, ..conv },
                w2.ledger,
            );
            let w3 = message_handled(w, m);
            let conv2 = w2.ledger.convs[p];
            let counts = w.active != Some(key) && !m.is_outgoing;
            lemma_update_conv(
                w2.ledger,
                p,
                ConversationView {
                    unread: if counts {
                        one_more(conv2.unread)
                    } else {
                        conv2.unread
                    },
                    ..conv2
                },
                w3.ledger,
            );
            lemma_never_lowered_trans(w.ledger, w1.ledger, w2.ledger);
            lemma_never_lowered_trans(w.ledger, w2.ledger, w3.ledger);
        },
    }
}

/// After a conversation was ensured its key is in the table, at an index
/// that holds a conversation, and table and conversations still have the
/// same length.
pub proof fn lemma_ensured_is_listed(w: ReconcilerView, id: Seq<char>, name: Seq<char>, is_group: bool)
    requires
        w.ledger.keys.len() == w.ledger.convs.len(),
    ensures
        0 <= index_in(conversation_ensured(w, id, name, is_group).ledger.keys, id)
            < conversation_ensured(w, id, name, is_group).ledger.convs.len(),
        conversation_ensured(w, id, name, is_group).ledger.keys.len() == conversation_ensured(
            w,
            id,
            name,
            is_group,
        ).ledger.convs.len(),
{
    let l = w.ledger;
    lemma_index_in(l.keys, id);
    let after = conversation_ensured(w, id, name, is_group).ledger;
    lemma_index_in(after.keys, id);
    if index_in(l.keys, id) < 0 {
        assert(after.keys[l.keys.len() as int] == id);
    }
}

/// One entry of the contact list lowers nothing and creates nothing.
proof fn lemma_contact_step(w: ReconcilerView, c: ContactView)
    ensures
        never_lowered(w.ledger, contact_step(w, c).ledger),
        contact_step(w, c).ledger.keys == w.ledger.keys,
        contact_step(w, c).ledger.convs.len() == w.ledger.convs.len(),
{
    let l = w.ledger;
    let after = contact_step(w, c).ledger;
    match c.name {
        Some(name) => {
            let p = index_in(l.keys, c.number);
            if name.len() > 0 && 0 <= p < l.convs.len() && l.convs[p].name != name {
                lemma_update_conv(l, p, ConversationView { name, ..l.convs[p] }, after);
            } else {
                lemma_same_convs(l, after);
            }
        },
        None => lemma_same_convs(l, after),
    }
}

/// The contact list lowers nothing and creates nothing.
proof fn lemma_contacts_handled(w: ReconcilerView, contacts: Seq<ContactView>)
    ensures
        never_lowered(w.ledger, contacts_handled(w, contacts).ledger),
        contacts_handled(w, contacts).ledger.keys == w.ledger.keys,
        contacts_handled(w, contacts).ledger.convs.len() == w.ledger.convs.len(),
    decreases contacts.len(),
{
    if contacts.len() == 0 {
        lemma_same_convs(w.ledger, w.ledger);
    } else {
        let mid = contacts_handled(w, contacts.drop_last());
        lemma_contacts_handled(w, contacts.drop_last());
        lemma_contact_step(mid, contacts.last());
        lemma_never_lowered_trans(w.ledger, mid.ledger, contact_step(mid, contacts.last()).ledger);
    }
}

/// The group list lowers nothing.
proof fn lemma_groups_handled(w: ReconcilerView, groups: Seq<GroupView>)
    ensures
        never_lowered(w.ledger, groups_handled(w, groups).ledger),
    decreases groups.len(),
{
    if groups.len() == 0 {
        lemma_same_convs(w.ledger, w.ledger);
    } else {
        let mid = groups_handled(w, groups.drop_last());
        let g = groups.last();
        lemma_groups_handled(w, groups.drop_last());
        lemma_conversation_ensured(
            ReconcilerView { names: renamed(mid.names, g.id, g.name), ..mid },
            g.id,
            g.name,
            true,
        );
        lemma_never_lowered_trans(w.ledger, mid.ledger, group_step(mid, g).ledger);
    }
}

/// A reaction lowers nothing.
proof fn lemma_reaction_handled(
    w: ReconcilerView,
    conv_id: Seq<char>,
    emoji: Seq<char>,
    sender: Seq<char>,
    target_author: Seq<char>,
    ts: i64,
    is_remove: bool,
)
    ensures
        never_lowered(
            w.ledger,
            reaction_handled(w, conv_id, emoji, sender, target_author, ts, is_remove).ledger,
        ),
{
    let l = w.ledger;
    let after = reaction_handled(w, conv_id, emoji, sender, target_author, ts, is_remove).ledger;
    let display = lookup(w.names, target_author);
    let who = reactor_display(w.names, w.account, sender);
    let p = index_in(l.keys, conv_id);
    if 0 <= p < l.convs.len() && reaction_target(
        l.convs[p].messages,
        ts,
        target_author,
        w.account,
        display,
    ) >= 0 {
        lemma_reaction_target(l.convs[p].messages, ts, target_author, w.account, display);
        let i = reaction_target(l.convs[p].messages, ts, target_author, w.account, display);
        let m = l.convs[p].messages[i];
        lemma_update_message(
            l,
            p,
            i,
            with_reactions(m, reactions_merged(m.reactions, who, emoji, is_remove)),
            after,
        );
    } else {
        lemma_same_convs(l, after);
    }
}

/// Monotonic status: whatever the backend reports, every message stays in
/// its place and its delivery state is never lowered. The one exception is
/// the failure of a send, which may make a message `Failed` whatever it
/// was.
pub proof fn law_status_never_lowered(w: ReconcilerView, e: SignalEventView, now: i64)
    requires
        w.ledger.keys.len() == w.ledger.convs.len(),
    ensures
        !(e is SendFailed) ==> never_lowered(w.ledger, event_handled(w, e, now).ledger),
        lowered_to_failed_only(w.ledger, event_handled(w, e, now).ledger),
{
    let after = event_handled(w, e, now).ledger;
    match e {
        SignalEventView::MessageReceived(m) => lemma_message_handled(w, m),
        SignalEventView::ReceiptReceived { sender, receipt_type, timestamps } => {
            lemma_receipt_handled(w.ledger, sender, receipt_type, timestamps)
        },
        SignalEventView::SendTimestamp { rpc_id, server_ts } => match lookup(
            w.pending_sends,
            rpc_id,
        ) {
            Some(pending) => lemma_send_confirmed(w.ledger, pending.0, pending.1, server_ts),
            None => lemma_same_convs(w.ledger, after),
        },
        SignalEventView::SendFailed { rpc_id } => match lookup(w.pending_sends, rpc_id) {
            Some(pending) => lemma_send_failed(w.ledger, pending.0, pending.1),
            None => lemma_same_convs(w.ledger, after),
        },
        SignalEventView::TypingIndicator { sender, sender_name, is_typing } => lemma_same_convs(
            w.ledger,
            after,
        ),
        SignalEventView::ReactionReceived {
            conv_id,
            emoji,
            sender,
            sender_name,
            target_author,
            target_timestamp,
            is_remove,
        } => lemma_reaction_handled(
            ReconcilerView { names: learned(w.names, sender, sender_name), ..w },
            conv_id,
            emoji,
            sender,
            target_author,
            target_timestamp,
            is_remove,
        ),
        SignalEventView::ContactList(contacts) => lemma_contacts_handled(w, contacts),
        SignalEventView::GroupList(groups) => lemma_groups_handled(w, groups),
        SignalEventView::Error(text) => lemma_same_convs(w.ledger, after),
    }
    if !(e is SendFailed) {
        assert forall|p: int, i: int| #[trigger] has_message(w.ledger, p, i) implies has_message(
            after,
            p,
            i,
        ) && (rank_of(status_at(after, p, i)) >= rank_of(status_at(w.ledger, p, i)) || status_at(
            after,
            p,
            i,
        ) == Some(MessageStatus::Failed)) by {}
    }
}

/// No downgrade: a receipt for a state that is not above what an earlier
/// receipt stood for changes nothing. `Read`, then `Delivery`, leaves a
/// message `Read`.
pub proof fn law_no_downgrade(
    c: ConversationView,
    ts: i64,
    earlier: MessageStatus,
    later: MessageStatus,
)
    requires
        later.rank() <= earlier.rank(),
    ensures
        conv_receipt(conv_receipt(c, ts, earlier), ts, later) == conv_receipt(c, ts, earlier),
        raised(raised(Some(MessageStatus::Sent), MessageStatus::Read), MessageStatus::Delivered)
            == Some(MessageStatus::Read),
{
    lemma_last_own(c.messages, ts);
    let once = conv_receipt(c, ts, earlier);
    let i = last_own(c.messages, ts);
    if i >= 0 {
        lemma_last_own(once.messages, ts);
        let j = last_own(once.messages, ts);
        assert(once.messages[i].sender == c.messages[i].sender);
        assert forall|k: int| i < k < c.messages.len() implies once.messages[k]
            == c.messages[k] by {}
        assert(j == i) by {
            if j > i {
                assert(once.messages[j] == c.messages[j]);
            }
        }
        let twice = conv_receipt(once, ts, later);
        assert(twice.messages =~= once.messages);
    } else {
        assert(once == c);
    }
}

/// At most one conversation per key: a message whose key has a conversation
/// creates none.
pub proof fn law_message_for_known_key_creates_none(w: ReconcilerView, m: SignalMessageView)
    requires
        w.ledger.keys.len() == w.ledger.convs.len(),
        match message_key(m) {
            Some(key) => listed(w.ledger.keys, key),
            None => true,
        },
    ensures
        message_handled(w, m).ledger.keys == w.ledger.keys,
        message_handled(w, m).ledger.convs.len() == w.ledger.convs.len(),
        message_handled(w, m).order == w.order,
{
    match message_key(m) {
        Some(key) => {
            lemma_index_in(w.ledger.keys, key);
        },
        None => {},
    }
}

/// At most one conversation per key: handling a message a second time
/// creates no conversation.
pub proof fn law_repeated_message_creates_none(w: ReconcilerView, m: SignalMessageView)
    requires
        w.ledger.keys.len() == w.ledger.convs.len(),
    ensures
        message_handled(message_handled(w, m), m).ledger.keys == message_handled(w, m).ledger.keys,
        message_handled(message_handled(w, m), m).ledger.convs.len() == message_handled(
            w,
            m,
        ).ledger.convs.len(),
{
    let once = message_handled(w, m);
    match message_key(m) {
        Some(key) => {
            let names = if m.is_outgoing {
                w.names
            } else {
                learned(w.names, m.source, m.source_name)
            };
            let name = resolved_name(
                w.ledger,
                key,
                name_candidate(m, lookup(names, key)),
            );
            lemma_ensured_is_listed(ReconcilerView { names, ..w }, key, name, m.group_id.is_some());
            assert(listed(once.ledger.keys, key));
            assert(once.ledger.keys.len() == once.ledger.convs.len());
            law_message_for_known_key_creates_none(once, m);
        },
        None => {},
    }
}

/// Contacts create no conversations: after a contact list the table holds
/// the same keys as before, in the same order.
pub proof fn law_contact_list_creates_none(w: ReconcilerView, contacts: Seq<ContactView>)
    ensures
        contacts_handled(w, contacts).ledger.keys == w.ledger.keys,
        contacts_handled(w, contacts).ledger.convs.len() == w.ledger.convs.len(),
        contacts_handled(w, contacts).order == w.order,
    decreases contacts.len(),
{
    lemma_contacts_handled(w, contacts);
    if contacts.len() > 0 {
        law_contact_list_creates_none(w, contacts.drop_last());
    }
}

/// A listed group gets exactly one conversation: a group that has none
/// gets one, marked as a group, at the end of the table; a group that has
/// one gets no second.
pub proof fn law_group_gets_one_conversation(w: ReconcilerView, g: GroupView)
    requires
        w.ledger.keys.len() == w.ledger.convs.len(),
    ensures
        listed(w.ledger.keys, g.id) ==> group_step(w, g).ledger.keys == w.ledger.keys,
        !listed(w.ledger.keys, g.id) ==> {
            &&& group_step(w, g).ledger.keys == w.ledger.keys.push(g.id)
            &&& group_step(w, g).ledger.convs.len() == w.ledger.convs.len() + 1
            &&& group_step(w, g).ledger.convs.last().is_group
            &&& group_step(w, g).ledger.convs.last().id == g.id
            &&& group_step(w, g).ledger.convs.last().name == g.name
        },
        groups_handled(w, seq![g]) == group_step(w, g),
        listed(group_step(w, g).ledger.keys, g.id),
{
    lemma_index_in(w.ledger.keys, g.id);
    let w0 = ReconcilerView { names: renamed(w.names, g.id, g.name), ..w };
    lemma_ensured_is_listed(w0, g.id, g.name, true);
    assert(seq![g].drop_last() =~= Seq::<GroupView>::empty());
    assert(groups_handled(w, seq![g].drop_last()) == w);
}

/// At most one conversation per key: a group list whose groups all have a
/// conversation creates none.
pub proof fn law_group_list_for_known_keys_creates_none(w: ReconcilerView, groups: Seq<GroupView>)
    requires
        w.ledger.keys.len() == w.ledger.convs.len(),
        forall|k: int| 0 <= k < groups.len() ==> listed(w.ledger.keys, (#[trigger] groups[k]).id),
    ensures
        groups_handled(w, groups).ledger.keys == w.ledger.keys,
        groups_handled(w, groups).ledger.convs.len() == w.ledger.convs.len(),
    decreases groups.len(),
{
    if groups.len() > 0 {
        let front = groups.drop_last();
        assert forall|k: int| 0 <= k < front.len() implies listed(
            w.ledger.keys,
            (#[trigger] front[k]).id,
        ) by {
            assert(front[k] == groups[k]);
        }
        law_group_list_for_known_keys_creates_none(w, front);
        let mid = groups_handled(w, front);
        assert(listed(mid.ledger.keys, groups.last().id)) by {
            assert(groups.last() == groups[groups.len() - 1]);
        }
        law_group_gets_one_conversation(mid, groups.last());
        lemma_index_in(mid.ledger.keys, groups.last().id);
    }
}

/// Whether no sender has two of the reactions.
pub open spec fn one_per_sender(rs: Seq<ReactionView>) -> bool {
    forall|i: int, j: int| 0 <= i < j < rs.len() ==> rs[i].sender != rs[j].sender
}

/// The number of reactions from `who`.
pub open spec fn count_from(rs: Seq<ReactionView>, who: Seq<char>) -> nat
    decreases rs.len(),
{
    if rs.len() == 0 {
        0
    } else {
        count_from(rs.drop_last(), who) + if rs.last().sender == who {
            1nat
        } else {
            0nat
        }
    }
}

/// Where no sender has two reactions, `who` has one if it has any.
proof fn lemma_count_from(rs: Seq<ReactionView>, who: Seq<char>)
    requires
        one_per_sender(rs),
    ensures
        count_from(rs, who) == if reaction_index(rs, who) >= 0 {
            1nat
        } else {
            0nat
        },
    decreases rs.len(),
{
    if rs.len() > 0 {
        let front = rs.drop_last();
        assert forall|i: int, j: int| 0 <= i < j < front.len() implies front[i].sender
            != front[j].sender by {
            assert(front[i] == rs[i]);
            assert(front[j] == rs[j]);
        }
        lemma_count_from(front, who);
        lemma_reaction_index(front, who);
        lemma_reaction_index(rs, who);
        if reaction_index(front, who) >= 0 {
            let k = reaction_index(front, who);
            assert(front[k] == rs[k]);
            assert(rs.last() == rs[rs.len() - 1]);
        }
    }
}

/// Reaction replace: after two reactions from the same sender on the same
/// message, which differ in the emoji only, the message holds exactly one
/// reaction from that sender, with the second emoji; and every other
/// sender's reaction is as it was after the first.
pub proof fn law_reaction_replace(
    rs: Seq<ReactionView>,
    who: Seq<char>,
    first: Seq<char>,
    second: Seq<char>,
)
    requires
        one_per_sender(rs),
    ensures
        ({
            let once = reactions_merged(rs, who, first, false);
            let twice = reactions_merged(once, who, second, false);
            let at = reaction_index(twice, who);
            &&& one_per_sender(twice)
            &&& count_from(twice, who) == 1
            &&& 0 <= at < twice.len()
            &&& twice[at].emoji == second
            &&& twice.len() == once.len()
            &&& forall|k: int| 0 <= k < twice.len() && k != at ==> twice[k] == once[k]
        }),
{
    let once = reactions_merged(rs, who, first, false);
    let twice = reactions_merged(once, who, second, false);
    lemma_reaction_index(rs, who);
    lemma_reactions_merged_wf(rs, who, first, false);
    lemma_reaction_index(once, who);
    if reaction_index(rs, who) < 0 {
        assert(once[rs.len() as int].sender == who);
    } else {
        assert(once[reaction_index(rs, who)].sender == who);
    }
    lemma_reactions_merged_wf(once, who, second, false);
    lemma_reaction_index(twice, who);
    let i = reaction_index(once, who);
    assert(twice[i].sender == who);
    lemma_count_from(twice, who);
}

/// Reaction remove: after a reaction from a sender and its removal, the
/// message holds no reaction from that sender; where it held none from that
/// sender before, it holds what it held before.
pub proof fn law_reaction_remove(
    rs: Seq<ReactionView>,
    who: Seq<char>,
    emoji: Seq<char>,
    removed_emoji: Seq<char>,
)
    requires
        one_per_sender(rs),
    ensures
        ({
            let added = reactions_merged(rs, who, emoji, false);
            let removed = reactions_merged(added, who, removed_emoji, true);
            &&& count_from(removed, who) == 0
            &&& one_per_sender(removed)
            &&& reaction_index(rs, who) < 0 ==> removed == rs
            &&& rs.len() == 0 ==> removed.len() == 0
        }),
{
    let added = reactions_merged(rs, who, emoji, false);
    let removed = reactions_merged(added, who, removed_emoji, true);
    lemma_reaction_index(rs, who);
    lemma_reactions_merged_wf(rs, who, emoji, false);
    lemma_without_sender(added, who);
    lemma_reaction_index(removed, who);
    lemma_count_from(removed, who);
    if reaction_index(rs, who) < 0 {
        assert(added.drop_last() =~= rs);
        lemma_without_sender_keeps(rs, who);
    }
}

/// Dropping the reactions of a sender that has none changes nothing.
proof fn lemma_without_sender_keeps(rs: Seq<ReactionView>, who: Seq<char>)
    requires
        forall|j: int| 0 <= j < rs.len() ==> (#[trigger] rs[j]).sender != who,
    ensures
        without_sender(rs, who) == rs,
    decreases rs.len(),
{
    if rs.len() > 0 {
        let front = rs.drop_last();
        assert forall|j: int| 0 <= j < front.len() implies (#[trigger] front[j]).sender != who by {
            assert(front[j] == rs[j]);
        }
        lemma_without_sender_keeps(front, who);
        assert(rs.last() == rs[rs.len() - 1]);
        assert(front.push(rs.last()) =~= rs);
    } else {
        assert(without_sender(rs, who) =~= rs);
    }
}

/// An unmatched receipt is buffered, not lost: a timestamp that names no
/// message of the user in any conversation leaves every conversation as it
/// is and adds exactly one entry to the buffer, which holds the sender, the
/// kind and the timestamp.
pub proof fn law_unmatched_receipt_is_buffered(
    l: Ledger,
    sender: Seq<char>,
    kind: Seq<char>,
    ts: i64,
)
    requires
        receipt_status(kind).is_some(),
        forall|p: int| 0 <= p < l.convs.len() ==> !has_own(#[trigger] l.convs[p], ts),
    ensures
        ({
            let after = receipt_handled(l, sender, kind, seq![ts]);
            &&& after.keys == l.keys
            &&& after.convs == l.convs
            &&& after.ops == l.ops
            &&& after.pending_receipts.len() == l.pending_receipts.len() + 1
            &&& after.pending_receipts == l.pending_receipts.push(
                ReceiptView { sender, kind, timestamps: seq![ts] },
            )
        }),
{
    let target = receipt_status(kind).unwrap();
    lemma_first_with_own(l.convs, ts);
    assert(seq![ts].drop_last() =~= Seq::<i64>::empty());
    assert(receipts_applied(l, sender, kind, target, seq![ts].drop_last()) == l);
    assert(seq![ts].last() == ts);
}

/// A buffered receipt is drained by the confirmation it waited for: where
/// the buffer holds one receipt for one timestamp, and the confirmed send
/// gives that timestamp to a message, the buffer is empty afterwards and the
/// message has the state that the receipt stands for, or a higher one.
pub proof fn law_confirmation_drains_buffer(
    l: Ledger,
    conv_id: Seq<char>,
    local_ts: i64,
    server_ts: i64,
    sender: Seq<char>,
    kind: Seq<char>,
)
    requires
        l.keys.len() == l.convs.len(),
        server_ts != 0,
        l.pending_receipts == seq![ReceiptView { sender, kind, timestamps: seq![server_ts] }],
        receipt_status(kind).is_some(),
        0 <= index_in(l.keys, conv_id),
        has_own(l.convs[index_in(l.keys, conv_id)], local_ts),
    ensures
        ({
            let after = send_confirmed(l, conv_id, local_ts, server_ts);
            &&& after.pending_receipts.len() == 0
            &&& after.convs.len() == l.convs.len()
        }),
{
    let target = receipt_status(kind).unwrap();
    let p = index_in(l.keys, conv_id);
    lemma_index_in(l.keys, conv_id);
    lemma_last_own(l.convs[p].messages, local_ts);
    let i = last_own(l.convs[p].messages, local_ts);
    let marked = send_marked(l, conv_id, local_ts, server_ts);
    let emptied = Ledger { pending_receipts: Seq::empty(), ..marked };
    let r = ReceiptView { sender, kind, timestamps: seq![server_ts] };
    assert(marked.pending_receipts =~= seq![r]);
    assert(seq![r].drop_last() =~= Seq::<ReceiptView>::empty());
    assert(replayed(emptied, seq![r].drop_last()) == emptied);
    assert(seq![r].last() == r);
    assert(seq![server_ts].drop_last() =~= Seq::<i64>::empty());
    assert(receipts_applied(emptied, sender, kind, target, seq![server_ts].drop_last())
        == emptied);
    assert(seq![server_ts].last() == server_ts);
    // the confirmed message carries the server's timestamp
    let confirmed = emptied.convs[p].messages[i];
    assert(confirmed.timestamp_ms == server_ts);
    assert(confirmed.sender == "you"@);
    lemma_last_own(emptied.convs[p].messages, server_ts);
    assert(has_own(emptied.convs[p], server_ts)) by {
        if last_own(emptied.convs[p].messages, server_ts) < i {
            assert(is_own(emptied.convs[p].messages[i], server_ts));
        }
    }
    lemma_first_with_own(emptied.convs, server_ts);
    lemma_index_in(emptied.keys, sender);
    assert(receipt_target(emptied, sender, server_ts) >= 0);
}

/// Receipt replay: a receipt that arrived before the confirmation of the
/// send it is about takes effect when the confirmation arrives.
///
/// Let a send be pending for a message with the local timestamp
/// `local_ts`, let the buffer hold one receipt for the server's timestamp
/// `server_ts`, which no message carried when it arrived. After the
/// confirmation with `server_ts` the message carries `server_ts`, its state
/// is the one that the receipt stands for raised over `Sent` (for a message
/// that was `Sending` and a delivery receipt: `Delivered`), and the buffer
/// is empty.
pub proof fn law_receipt_replay(
    l: Ledger,
    conv_id: Seq<char>,
    local_ts: i64,
    server_ts: i64,
    sender: Seq<char>,
    kind: Seq<char>,
)
    requires
        l.keys.len() == l.convs.len(),
        server_ts != 0,
        l.pending_receipts == seq![ReceiptView { sender, kind, timestamps: seq![server_ts] }],
        receipt_status(kind).is_some(),
        0 <= index_in(l.keys, conv_id),
        has_own(l.convs[index_in(l.keys, conv_id)], local_ts),
        forall|q: int| 0 <= q < l.convs.len() ==> !has_own(#[trigger] l.convs[q], server_ts),
    ensures
        ({
            let after = send_confirmed(l, conv_id, local_ts, server_ts);
            let p = index_in(l.keys, conv_id);
            let i = last_own(l.convs[p].messages, local_ts);
            let before = l.convs[p].messages[i];
            let target = receipt_status(kind).unwrap();
            &&& after.pending_receipts.len() == 0
            &&& has_message(after, p, i)
            &&& after.convs[p].messages[i].timestamp_ms == server_ts
            &&& after.convs[p].messages[i].status == Some(
                confirmed_status(before.status).raised_to(target),
            )
            &&& before.status == Some(MessageStatus::Sending) && target
                == MessageStatus::Delivered ==> after.convs[p].messages[i].status == Some(
                MessageStatus::Delivered,
            )
        }),
{
    let target = receipt_status(kind).unwrap();
    let p = index_in(l.keys, conv_id);
    lemma_index_in(l.keys, conv_id);
    lemma_last_own(l.convs[p].messages, local_ts);
    let i = last_own(l.convs[p].messages, local_ts);
    let marked = send_marked(l, conv_id, local_ts, server_ts);
    let emptied = Ledger { pending_receipts: Seq::empty(), ..marked };
    let r = ReceiptView { sender, kind, timestamps: seq![server_ts] };
    assert(marked.pending_receipts =~= seq![r]);
    assert(seq![r].drop_last() =~= Seq::<ReceiptView>::empty());
    assert(replayed(emptied, seq![r].drop_last()) == emptied);
    assert(seq![r].last() == r);
    assert(seq![server_ts].drop_last() =~= Seq::<i64>::empty());
    assert(receipts_applied(emptied, sender, kind, target, seq![server_ts].drop_last())
        == emptied);
    assert(seq![server_ts].last() == server_ts);
    let msgs = emptied.convs[p].messages;
    // within the conversation, only the confirmed message carries the timestamp
    assert(!has_own(l.convs[p], server_ts));
    lemma_last_own(l.convs[p].messages, server_ts);
    lemma_last_own(msgs, server_ts);
    assert(is_own(msgs[i], server_ts));
    assert(last_own(msgs, server_ts) == i) by {
        let j = last_own(msgs, server_ts);
        if j != i && j >= 0 {
            assert(msgs[j] == l.convs[p].messages[j]);
            assert(!is_own(l.convs[p].messages[j], server_ts));
        }
    }
    // among the conversations, only this one holds such a message
    assert forall|q: int| 0 <= q < emptied.convs.len() && q != p implies !has_own(
        #[trigger] emptied.convs[q],
        server_ts,
    ) by {
        assert(emptied.convs[q] == l.convs[q]);
    }
    lemma_first_with_own(emptied.convs, server_ts);
    lemma_index_in(emptied.keys, sender);
    assert(receipt_target(emptied, sender, server_ts) == p);
}

/// The event for a reaction.
pub open spec fn reaction_event(
    conv_id: Seq<char>,
    emoji: Seq<char>,
    sender: Seq<char>,
    sender_name: Option<Seq<char>>,
    target_author: Seq<char>,
    target_timestamp: i64,
    is_remove: bool,
) -> SignalEventView {
    SignalEventView::ReactionReceived {
        conv_id,
        emoji,
        sender,
        sender_name,
        target_author,
        target_timestamp,
        is_remove,
    }
}

/// The place of the message that a reaction event targets in a state: the
/// index of the conversation and that of the message; none where the
/// conversation or the message is not there.
pub open spec fn reaction_place(
    w: ReconcilerView,
    conv_id: Seq<char>,
    sender: Seq<char>,
    sender_name: Option<Seq<char>>,
    target_author: Seq<char>,
    ts: i64,
) -> Option<(int, int)> {
    let names = learned(w.names, sender, sender_name);
    let p = index_in(w.ledger.keys, conv_id);
    if 0 <= p < w.ledger.convs.len() {
        let i = reaction_target(
            w.ledger.convs[p].messages,
            ts,
            target_author,
            w.account,
            lookup(names, target_author),
        );
        if i >= 0 {
            Some((p, i))
        } else {
            None
        }
    } else {
        None
    }
}

/// Messages that differ in their reactions only are targeted alike.
proof fn lemma_same_target(
    a: Seq<MessageView>,
    b: Seq<MessageView>,
    ts: i64,
    target_author: Seq<char>,
    account: Seq<char>,
    display: Option<Seq<char>>,
)
    requires
        a.len() == b.len(),
        forall|k: int|
            0 <= k < a.len() ==> (#[trigger] a[k]).sender == b[k].sender && a[k].timestamp_ms
                == b[k].timestamp_ms,
    ensures
        reaction_target(a, ts, target_author, account, display) == reaction_target(
            b,
            ts,
            target_author,
            account,
            display,
        ),
    decreases a.len(),
{
    if a.len() > 0 {
        assert(a.last() == a[a.len() - 1]);
        assert(b.last() == b[b.len() - 1]);
        assert forall|k: int| 0 <= k < a.drop_last().len() implies (#[trigger] a.drop_last()[k]).sender
            == b.drop_last()[k].sender && a.drop_last()[k].timestamp_ms
            == b.drop_last()[k].timestamp_ms by {
            assert(a.drop_last()[k] == a[k]);
            assert(b.drop_last()[k] == b[k]);
        }
        lemma_same_target(a.drop_last(), b.drop_last(), ts, target_author, account, display);
    }
}

/// What two reaction events from one sender on one target come to: the
/// target holds its reactions with both merged in, one after the other.
proof fn lemma_two_reactions(
    w: ReconcilerView,
    conv_id: Seq<char>,
    first: Seq<char>,
    first_removes: bool,
    second: Seq<char>,
    second_removes: bool,
    sender: Seq<char>,
    sender_name: Option<Seq<char>>,
    target_author: Seq<char>,
    ts: i64,
    now: i64,
)
    requires
        w.ledger.keys.len() == w.ledger.convs.len(),
        reaction_place(w, conv_id, sender, sender_name, target_author, ts).is_some(),
    ensures
        ({
            let at = reaction_place(w, conv_id, sender, sender_name, target_author, ts).unwrap();
            let who = reactor_display(
                learned(w.names, sender, sender_name),
                w.account,
                sender,
            );
            let once = event_handled(
                w,
                reaction_event(conv_id, first, sender, sender_name, target_author, ts, first_removes),
                now,
            );
            let twice = event_handled(
                once,
                reaction_event(
                    conv_id,
                    second,
                    sender,
                    sender_name,
                    target_author,
                    ts,
                    second_removes,
                ),
                now,
            );
            &&& has_message(twice.ledger, at.0, at.1)
            &&& twice.ledger.convs[at.0].messages[at.1].reactions == reactions_merged(
                reactions_merged(
                    w.ledger.convs[at.0].messages[at.1].reactions,
                    who,
                    first,
                    first_removes,
                ),
                who,
                second,
                second_removes,
            )
        }),
{
    let names = learned(w.names, sender, sender_name);
    let l = w.ledger;
    let p = index_in(l.keys, conv_id);
    let display = lookup(names, target_author);
    lemma_reaction_target(l.convs[p].messages, ts, target_author, w.account, display);
    let i = reaction_target(l.convs[p].messages, ts, target_author, w.account, display);
    let once = event_handled(
        w,
        reaction_event(conv_id, first, sender, sender_name, target_author, ts, first_removes),
        now,
    );
    // the first event leaves the keys, the account and what is known of the sender
    assert(once.ledger.keys == l.keys);
    assert(once.names == names);
    assert(learned(once.names, sender, sender_name) == names);
    // and of the messages it changes reactions only
    let before = l.convs[p].messages;
    let after = once.ledger.convs[p].messages;
    assert forall|k: int| 0 <= k < before.len() implies (#[trigger] before[k]).sender
        == after[k].sender && before[k].timestamp_ms == after[k].timestamp_ms by {}
    lemma_same_target(before, after, ts, target_author, w.account, display);
}

/// Reaction replace: two reaction events from the same sender on the same
/// target, which differ in the emoji only, leave exactly one reaction of
/// that sender on the target, with the second emoji.
pub proof fn law_reaction_events_replace(
    w: ReconcilerView,
    conv_id: Seq<char>,
    first: Seq<char>,
    second: Seq<char>,
    sender: Seq<char>,
    sender_name: Option<Seq<char>>,
    target_author: Seq<char>,
    ts: i64,
    now: i64,
)
    requires
        w.ledger.keys.len() == w.ledger.convs.len(),
        reaction_place(w, conv_id, sender, sender_name, target_author, ts) matches Some(at)
            && one_per_sender(w.ledger.convs[at.0].messages[at.1].reactions),
    ensures
        ({
            let at = reaction_place(w, conv_id, sender, sender_name, target_author, ts).unwrap();
            let who = reactor_display(
                learned(w.names, sender, sender_name),
                w.account,
                sender,
            );
            let twice = event_handled(
                event_handled(
                    w,
                    reaction_event(conv_id, first, sender, sender_name, target_author, ts, false),
                    now,
                ),
                reaction_event(conv_id, second, sender, sender_name, target_author, ts, false),
                now,
            );
            let reactions = twice.ledger.convs[at.0].messages[at.1].reactions;
            &&& count_from(reactions, who) == 1
            &&& 0 <= reaction_index(reactions, who) < reactions.len()
            &&& reactions[reaction_index(reactions, who)].emoji == second
        }),
{
    let at = reaction_place(w, conv_id, sender, sender_name, target_author, ts).unwrap();
    let who = reactor_display(
        learned(w.names, sender, sender_name),
        w.account,
        sender,
    );
    lemma_two_reactions(
        w,
        conv_id,
        first,
        false,
        second,
        false,
        sender,
        sender_name,
        target_author,
        ts,
        now,
    );
    law_reaction_replace(w.ledger.convs[at.0].messages[at.1].reactions, who, first, second);
}

/// Reaction remove: a reaction event and then the removal from the same
/// sender on the same target leave no reaction of that sender on the
/// target; a target that had no reactions has none again.
pub proof fn law_reaction_events_remove(
    w: ReconcilerView,
    conv_id: Seq<char>,
    emoji: Seq<char>,
    removed_emoji: Seq<char>,
    sender: Seq<char>,
    sender_name: Option<Seq<char>>,
    target_author: Seq<char>,
    ts: i64,
    now: i64,
)
    requires
        w.ledger.keys.len() == w.ledger.convs.len(),
        reaction_place(w, conv_id, sender, sender_name, target_author, ts) matches Some(at)
            && one_per_sender(w.ledger.convs[at.0].messages[at.1].reactions),
    ensures
        ({
            let at = reaction_place(w, conv_id, sender, sender_name, target_author, ts).unwrap();
            let who = reactor_display(
                learned(w.names, sender, sender_name),
                w.account,
                sender,
            );
            let twice = event_handled(
                event_handled(
                    w,
                    reaction_event(conv_id, emoji, sender, sender_name, target_author, ts, false),
                    now,
                ),
                reaction_event(
                    conv_id,
                    removed_emoji,
                    sender,
                    sender_name,
                    target_author,
                    ts,
                    true,
                ),
                now,
            );
            let reactions = twice.ledger.convs[at.0].messages[at.1].reactions;
            &&& count_from(reactions, who) == 0
            &&& w.ledger.convs[at.0].messages[at.1].reactions.len() == 0 ==> reactions.len() == 0
        }),
{
    let at = reaction_place(w, conv_id, sender, sender_name, target_author, ts).unwrap();
    let who = reactor_display(
        learned(w.names, sender, sender_name),
        w.account,
        sender,
    );
    lemma_two_reactions(
        w,
        conv_id,
        emoji,
        false,
        removed_emoji,
        true,
        sender,
        sender_name,
        target_author,
        ts,
        now,
    );
    law_reaction_remove(w.ledger.convs[at.0].messages[at.1].reactions, who, emoji, removed_emoji);
}

/// A receipt that arrives before the confirmation of the send it is about
/// is buffered, and takes effect when the confirmation arrives.
///
/// Let a send be pending under `rpc_id` for a message of conversation
/// `conv_id` with the local timestamp `local_ts`, let the buffer be empty,
/// and let no message carry the server's timestamp `server_ts` yet. After a
/// receipt for `server_ts` the buffer holds exactly one entry, and no
/// message has changed. After the confirmation of the send with `server_ts`
/// the buffer is empty again, the send is no longer pending, and the message
/// carries `server_ts` and the state that the receipt stands for, raised
/// over `Sent`: `Delivered` for a message that was `Sending` and a delivery
/// receipt.
pub proof fn law_receipt_then_confirmation(
    w: ReconcilerView,
    rpc_id: Seq<char>,
    conv_id: Seq<char>,
    local_ts: i64,
    server_ts: i64,
    sender: Seq<char>,
    kind: Seq<char>,
    now: i64,
)
    requires
        w.ledger.keys.len() == w.ledger.convs.len(),
        w.ledger.pending_receipts.len() == 0,
        lookup(w.pending_sends, rpc_id) == Some((conv_id, local_ts)),
        0 <= index_in(w.ledger.keys, conv_id),
        has_own(w.ledger.convs[index_in(w.ledger.keys, conv_id)], local_ts),
        forall|q: int|
            0 <= q < w.ledger.convs.len() ==> !has_own(#[trigger] w.ledger.convs[q], server_ts),
        server_ts != 0,
        receipt_status(kind).is_some(),
    ensures
        ({
            let p = index_in(w.ledger.keys, conv_id);
            let i = last_own(w.ledger.convs[p].messages, local_ts);
            let target = receipt_status(kind).unwrap();
            let buffered = event_handled(
                w,
                SignalEventView::ReceiptReceived {
                    sender,
                    receipt_type: kind,
                    timestamps: seq![server_ts],
                },
                now,
            );
            let confirmed = event_handled(
                buffered,
                SignalEventView::SendTimestamp { rpc_id, server_ts },
                now,
            );
            &&& buffered.ledger.pending_receipts.len() == 1
            &&& buffered.ledger.convs == w.ledger.convs
            &&& confirmed.ledger.pending_receipts.len() == 0
            &&& lookup(confirmed.pending_sends, rpc_id).is_none()
            &&& has_message(confirmed.ledger, p, i)
            &&& confirmed.ledger.convs[p].messages[i].timestamp_ms == server_ts
            &&& confirmed.ledger.convs[p].messages[i].status == Some(
                confirmed_status(w.ledger.convs[p].messages[i].status).raised_to(target),
            )
            &&& w.ledger.convs[p].messages[i].status == Some(MessageStatus::Sending) && target
                == MessageStatus::Delivered ==> confirmed.ledger.convs[p].messages[i].status
                == Some(MessageStatus::Delivered)
        }),
{
    law_unmatched_receipt_is_buffered(w.ledger, sender, kind, server_ts);
    lemma_index_in(w.ledger.keys, conv_id);
    let buffered = event_handled(
        w,
        SignalEventView::ReceiptReceived { sender, receipt_type: kind, timestamps: seq![server_ts] },
        now,
    );
    assert(w.ledger.pending_receipts =~= Seq::<ReceiptView>::empty());
    assert(buffered.ledger.pending_receipts =~= seq![
        ReceiptView { sender, kind, timestamps: seq![server_ts] },
    ]);
    law_receipt_replay(buffered.ledger, conv_id, local_ts, server_ts, sender, kind);
}

/// A key that is in the table is still there, at its place, with one more
/// key behind the others.
proof fn lemma_listed_after_push(keys: Seq<Seq<char>>, added: Seq<char>, key: Seq<char>)
    requires
        listed(keys, key),
    ensures
        index_in(keys.push(added), key) == index_in(keys, key),
{
    assert(keys.push(added).drop_last() =~= keys);
}

/// One entry of the group list keeps every conversation that is in the
/// table, and table and conversations at the same length.
proof fn lemma_group_step_keeps(w: ReconcilerView, g: GroupView, key: Seq<char>)
    requires
        w.ledger.keys.len() == w.ledger.convs.len(),
    ensures
        group_step(w, g).ledger.keys.len() == group_step(w, g).ledger.convs.len(),
        listed(w.ledger.keys, key) ==> listed(group_step(w, g).ledger.keys, key),
        listed(group_step(w, g).ledger.keys, g.id),
{
    law_group_gets_one_conversation(w, g);
    lemma_index_in(w.ledger.keys, g.id);
    if listed(w.ledger.keys, key) && !listed(w.ledger.keys, g.id) {
        lemma_listed_after_push(w.ledger.keys, g.id, key);
    }
}

/// After the group list every listed group has a conversation.
proof fn lemma_groups_all_listed(w: ReconcilerView, groups: Seq<GroupView>, key: Seq<char>)
    requires
        w.ledger.keys.len() == w.ledger.convs.len(),
    ensures
        groups_handled(w, groups).ledger.keys.len() == groups_handled(
            w,
            groups,
        ).ledger.convs.len(),
        listed(w.ledger.keys, key) ==> listed(groups_handled(w, groups).ledger.keys, key),
        forall|k: int|
            0 <= k < groups.len() ==> listed(
                groups_handled(w, groups).ledger.keys,
                (#[trigger] groups[k]).id,
            ),
    decreases groups.len(),
{
    if groups.len() > 0 {
        let front = groups.drop_last();
        let mid = groups_handled(w, front);
        lemma_groups_all_listed(w, front, key);
        lemma_group_step_keeps(mid, groups.last(), key);
        assert forall|k: int| 0 <= k < groups.len() implies listed(
            groups_handled(w, groups).ledger.keys,
            (#[trigger] groups[k]).id,
        ) by {
            if k < front.len() {
                assert(front[k] == groups[k]);
                lemma_groups_all_listed(w, front, groups[k].id);
                lemma_group_step_keeps(mid, groups.last(), groups[k].id);
            } else {
                assert(groups[k] == groups.last());
            }
        }
    }
}

/// At most one conversation per key: a group list that is handled a second
/// time creates no conversation.
pub proof fn law_repeated_group_list_creates_none(w: ReconcilerView, groups: Seq<GroupView>)
    requires
        w.ledger.keys.len() == w.ledger.convs.len(),
    ensures
        groups_handled(groups_handled(w, groups), groups).ledger.keys == groups_handled(
            w,
            groups,
        ).ledger.keys,
        groups_handled(groups_handled(w, groups), groups).ledger.convs.len() == groups_handled(
            w,
            groups,
        ).ledger.convs.len(),
{
    lemma_groups_all_listed(w, groups, Seq::empty());
    law_group_list_for_known_keys_creates_none(groups_handled(w, groups), groups);
}

/// Monotonic status across restarts: a message that is loaded from the
/// store has the state it was stored with, or a higher one. A message that
/// was stored as `Sending` is `Sent`.
pub proof fn law_reload_never_lowers(m: MessageView)
    ensures
        rank_of(message_reloaded(m).status) >= rank_of(m.status),
        m.status == Some(MessageStatus::Sending) ==> message_reloaded(m).status == Some(
            MessageStatus::Sent,
        ),
        m.status != Some(MessageStatus::Sending) ==> message_reloaded(m) == m,
{
}

/// Monotonic status when the user sends: the messages that are there keep
/// their places and states, and the new message is `Sending`.
pub proof fn law_sending_never_lowers(w: ReconcilerView, id: Seq<char>, text: Seq<char>, now: i64)
    requires
        w.ledger.keys.len() == w.ledger.convs.len(),
    ensures
        never_lowered(w.ledger, text_sent(w, id, text, now).ledger),
        listed(w.ledger.keys, id) ==> text_sent(w, id, text, now).ledger.convs[index_in(
            w.ledger.keys,
            id,
        )].messages.last().status == Some(MessageStatus::Sending),
{
    let l = w.ledger;
    let after = text_sent(w, id, text, now).ledger;
    let p = index_in(l.keys, id);
    lemma_index_in(l.keys, id);
    if 0 <= p < l.convs.len() {
        let c = l.convs[p];
        let d = ConversationView { messages: c.messages.push(outgoing_entry(text, now)), ..c };
        assert forall|i: int| 0 <= i < c.messages.len() implies rank_of(
            (#[trigger] d.messages[i]).status,
        ) >= rank_of(c.messages[i].status) by {}
        lemma_update_conv(l, p, d, after);
    } else {
        lemma_same_convs(l, after);
    }
}

} // verus!
