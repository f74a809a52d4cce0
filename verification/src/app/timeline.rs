//! The reconciler's rules, stated over plain values.
//!
//! A [`Ledger`] is what sends, receipts and reactions read and change: the
//! conversations with their messages, the receipts that wait for a message,
//! and the queue of things to make durable. Each rule is a function from a
//! ledger to the next one; the handlers of [`crate::app::App`] are proved to
//! compute exactly these functions.

use vstd::prelude::*;
use vstd::utf8::{encode_utf8, is_char_boundary};
use crate::signal::client::{head_bytes, tail_bytes};
use crate::signal::types::{
    AttachmentView, ContactView, GroupView, MessageStatus, ReactionView, SignalEventView,
    SignalMessageView,
};
use crate::strmap::{index_in, lookup};
use crate::text::{replace_char, uppercase};

verus! {

/// What a displayed message holds.
pub struct MessageView {
    pub sender: Seq<char>,
    pub timestamp: i64,
    pub body: Seq<char>,
    pub is_system: bool,
    pub image_path: Option<Seq<char>>,
    pub status: Option<MessageStatus>,
    pub timestamp_ms: i64,
    pub reactions: Seq<ReactionView>,
}

/// What a conversation holds.
pub struct ConversationView {
    pub name: Seq<char>,
    pub id: Seq<char>,
    pub messages: Seq<MessageView>,
    pub unread: usize,
    pub is_group: bool,
}

/// A receipt that waits for its message.
pub struct ReceiptView {
    pub sender: Seq<char>,
    pub kind: Seq<char>,
    pub timestamps: Seq<i64>,
}

/// What a queued write holds.
pub enum DbOpView {
    UpsertConversation { id: Seq<char>, name: Seq<char>, is_group: bool },
    InsertMessage {
        conv_id: Seq<char>,
        sender: Seq<char>,
        timestamp: i64,
        body: Seq<char>,
        is_system: bool,
        status: Option<MessageStatus>,
        timestamp_ms: i64,
    },
    UpdateMessageStatus { conv_id: Seq<char>, timestamp_ms: i64, status: i32 },
    UpdateMessageTimestampMs { conv_id: Seq<char>, old_ts: i64, new_ts: i64, status: i32 },
    SaveReadMarker { conv_id: Seq<char> },
    UpsertReaction {
        conv_id: Seq<char>,
        target_ts_ms: i64,
        target_author: Seq<char>,
        sender: Seq<char>,
        emoji: Seq<char>,
    },
    RemoveReaction {
        conv_id: Seq<char>,
        target_ts_ms: i64,
        target_author: Seq<char>,
        sender: Seq<char>,
    },
    SetMuted { conv_id: Seq<char>, muted: bool },
}

/// The conversations by key, the receipts that wait, and the queued writes.
pub struct Ledger {
    /// The key of each conversation; `keys[i]` belongs to `convs[i]`.
    pub keys: Seq<Seq<char>>,
    pub convs: Seq<ConversationView>,
    pub pending_receipts: Seq<ReceiptView>,
    pub ops: Seq<DbOpView>,
}

/// No sender has two reactions on the message.
pub open spec fn message_wf(m: MessageView) -> bool {
    forall|i: int, j: int|
        0 <= i < j < m.reactions.len() ==> m.reactions[i].sender != m.reactions[j].sender
}

/// Every message of the conversation is well formed.
pub open spec fn conversation_wf(c: ConversationView) -> bool {
    forall|i: int| 0 <= i < c.messages.len() ==> message_wf(#[trigger] c.messages[i])
}

/// Whether the message is the user's own and carries the timestamp.
pub open spec fn is_own(m: MessageView, ts: i64) -> bool {
    m.sender == "you"@ && m.timestamp_ms == ts
}

/// The index of the newest of the user's own messages with the timestamp, or
/// `-1` where there is none.
pub open spec fn last_own(msgs: Seq<MessageView>, ts: i64) -> int
    decreases msgs.len(),
{
    if msgs.len() == 0 {
        -1
    } else if is_own(msgs.last(), ts) {
        msgs.len() - 1
    } else {
        last_own(msgs.drop_last(), ts)
    }
}

/// What [`last_own`] returns: the index of an own message with the
/// timestamp, with none after it; or `-1`, with none at all.
pub proof fn lemma_last_own(msgs: Seq<MessageView>, ts: i64)
    ensures
        -1 <= last_own(msgs, ts) < msgs.len(),
        last_own(msgs, ts) >= 0 ==> is_own(msgs[last_own(msgs, ts)], ts),
        forall|j: int| last_own(msgs, ts) < j < msgs.len() ==> !is_own(#[trigger] msgs[j], ts),
    decreases msgs.len(),
{
    if msgs.len() > 0 && !is_own(msgs.last(), ts) {
        lemma_last_own(msgs.drop_last(), ts);
        assert forall|j: int| last_own(msgs, ts) < j < msgs.len() implies !is_own(
            #[trigger] msgs[j],
            ts,
        ) by {
            if j < msgs.len() - 1 {
                assert(msgs[j] == msgs.drop_last()[j]);
            }
        }
    }
}

/// Whether the conversation holds an own message with the timestamp.
pub open spec fn has_own(c: ConversationView, ts: i64) -> bool {
    last_own(c.messages, ts) >= 0
}

/// The state after a receipt for `target`: never lower than before, and
/// still none where the message has no state.
pub open spec fn raised(status: Option<MessageStatus>, target: MessageStatus) -> Option<
    MessageStatus,
> {
    match status {
        Some(s) => Some(s.raised_to(target)),
        None => None,
    }
}

/// The message with another delivery state.
pub open spec fn with_status(m: MessageView, status: Option<MessageStatus>) -> MessageView {
    MessageView { status, ..m }
}

/// The conversation with message `i` replaced.
pub open spec fn with_message(c: ConversationView, i: int, m: MessageView) -> ConversationView {
    ConversationView { messages: c.messages.update(i, m), ..c }
}

/// The conversation after a receipt for `ts`: its newest own message with
/// that timestamp has its state raised to `target`.
pub open spec fn conv_receipt(c: ConversationView, ts: i64, target: MessageStatus) -> ConversationView {
    let i = last_own(c.messages, ts);
    if i >= 0 {
        with_message(c, i, with_status(c.messages[i], raised(c.messages[i].status, target)))
    } else {
        c
    }
}

/// Whether a receipt for `ts` moves the state of a message of the
/// conversation.
pub open spec fn conv_receipt_raises(c: ConversationView, ts: i64, target: MessageStatus) -> bool {
    let i = last_own(c.messages, ts);
    i >= 0 && match c.messages[i].status {
        Some(s) => target.rank() > s.rank(),
        None => false,
    }
}

/// The index of the first conversation that holds an own message with the
/// timestamp, or `-1`.
pub open spec fn first_with_own(convs: Seq<ConversationView>, ts: i64) -> int
    decreases convs.len(),
{
    if convs.len() == 0 {
        -1
    } else {
        let before = first_with_own(convs.drop_last(), ts);
        if before >= 0 {
            before
        } else if has_own(convs.last(), ts) {
            convs.len() - 1
        } else {
            -1
        }
    }
}

/// What [`first_with_own`] returns.
pub proof fn lemma_first_with_own(convs: Seq<ConversationView>, ts: i64)
    ensures
        -1 <= first_with_own(convs, ts) < convs.len(),
        first_with_own(convs, ts) >= 0 ==> has_own(convs[first_with_own(convs, ts)], ts),
        forall|j: int| 0 <= j < first_with_own(convs, ts) ==> !has_own(#[trigger] convs[j], ts),
        first_with_own(convs, ts) == -1 ==> forall|j: int|
            0 <= j < convs.len() ==> !has_own(#[trigger] convs[j], ts),
    decreases convs.len(),
{
    if convs.len() > 0 {
        lemma_first_with_own(convs.drop_last(), ts);
        assert forall|j: int| 0 <= j < convs.len() - 1 implies convs[j] == convs.drop_last()[j] by {}
    }
}

/// The conversation that a receipt from `sender` for `ts` is applied to: the
/// one keyed by the sender where it holds the message (a 1:1 chat), else the
/// first of all conversations that does (a group, where the sender is a
/// member); `-1` where none does.
pub open spec fn receipt_target(l: Ledger, sender: Seq<char>, ts: i64) -> int {
    let p = index_in(l.keys, sender);
    if 0 <= p < l.convs.len() && has_own(l.convs[p], ts) {
        p
    } else {
        first_with_own(l.convs, ts)
    }
}

/// The ledger after one timestamp of a receipt. Where a message is found its
/// state is raised, and the new state is queued for writing if it differs;
/// where none is found the timestamp is buffered with the receipt's sender
/// and kind.
pub open spec fn receipt_step(
    l: Ledger,
    sender: Seq<char>,
    kind: Seq<char>,
    target: MessageStatus,
    ts: i64,
) -> Ledger {
    let i = receipt_target(l, sender, ts);
    if i >= 0 {
        Ledger {
            convs: l.convs.update(i, conv_receipt(l.convs[i], ts, target)),
            ops: if conv_receipt_raises(l.convs[i], ts, target) {
                l.ops.push(
                    DbOpView::UpdateMessageStatus {
                        conv_id: l.keys[i],
                        timestamp_ms: ts,
                        status: target.rank() as i32,
                    },
                )
            } else {
                l.ops
            },
            ..l
        }
    } else {
        Ledger {
            pending_receipts: l.pending_receipts.push(
                ReceiptView { sender, kind, timestamps: seq![ts] },
            ),
            ..l
        }
    }
}

/// The ledger after a receipt for the timestamps, taken one by one in order.
pub open spec fn receipts_applied(
    l: Ledger,
    sender: Seq<char>,
    kind: Seq<char>,
    target: MessageStatus,
    timestamps: Seq<i64>,
) -> Ledger
    decreases timestamps.len(),
{
    if timestamps.len() == 0 {
        l
    } else {
        receipt_step(
            receipts_applied(l, sender, kind, target, timestamps.drop_last()),
            sender,
            kind,
            target,
            timestamps.last(),
        )
    }
}

/// The state that a receipt kind in upper case stands for.
pub open spec fn kind_status(upper: Seq<char>) -> Option<MessageStatus> {
    if upper == "DELIVERY"@ {
        Some(MessageStatus::Delivered)
    } else if upper == "READ"@ {
        Some(MessageStatus::Read)
    } else if upper == "VIEWED"@ {
        Some(MessageStatus::Viewed)
    } else {
        None
    }
}

/// The state that a receipt kind stands for, whatever its case.
pub open spec fn receipt_status(kind: Seq<char>) -> Option<MessageStatus> {
    kind_status(uppercase(kind))
}

/// The ledger after a receipt. A receipt of an unknown kind changes nothing.
pub open spec fn receipt_handled(
    l: Ledger,
    sender: Seq<char>,
    kind: Seq<char>,
    timestamps: Seq<i64>,
) -> Ledger {
    match receipt_status(kind) {
        Some(target) => receipts_applied(l, sender, kind, target, timestamps),
        None => l,
    }
}

/// The ledger after the buffered receipts were handled again, oldest first.
pub open spec fn replayed(l: Ledger, buffered: Seq<ReceiptView>) -> Ledger
    decreases buffered.len(),
{
    if buffered.len() == 0 {
        l
    } else {
        let r = buffered.last();
        receipt_handled(replayed(l, buffered.drop_last()), r.sender, r.kind, r.timestamps)
    }
}

/// The state of a message whose send the server confirmed: at least `Sent`.
pub open spec fn confirmed_status(status: Option<MessageStatus>) -> MessageStatus {
    match status {
        Some(s) => s.raised_to(MessageStatus::Sent),
        None => MessageStatus::Sent,
    }
}

/// The timestamp of a message after its send was confirmed: the server's,
/// or the local one where the server gave none.
pub open spec fn effective_ts(local_ts: i64, server_ts: i64) -> i64 {
    if server_ts != 0 {
        server_ts
    } else {
        local_ts
    }
}

/// The message after its send was confirmed.
pub open spec fn message_confirmed(m: MessageView, local_ts: i64, server_ts: i64) -> MessageView {
    MessageView {
        timestamp_ms: effective_ts(local_ts, server_ts),
        status: Some(confirmed_status(m.status)),
        ..m
    }
}

/// The ledger after the message of a pending send was marked as confirmed,
/// before the buffered receipts are replayed. Nothing changes where the
/// conversation or the message is gone.
pub open spec fn send_marked(l: Ledger, conv_id: Seq<char>, local_ts: i64, server_ts: i64) -> Ledger {
    let p = index_in(l.keys, conv_id);
    if 0 <= p < l.convs.len() && has_own(l.convs[p], local_ts) {
        let i = last_own(l.convs[p].messages, local_ts);
        let m = l.convs[p].messages[i];
        Ledger {
            convs: l.convs.update(
                p,
                with_message(l.convs[p], i, message_confirmed(m, local_ts, server_ts)),
            ),
            ops: l.ops.push(
                DbOpView::UpdateMessageTimestampMs {
                    conv_id,
                    old_ts: local_ts,
                    new_ts: effective_ts(local_ts, server_ts),
                    status: confirmed_status(m.status).rank() as i32,
                },
            ),
            ..l
        }
    } else {
        l
    }
}

/// The ledger after a confirmed send: the message carries the server's
/// timestamp and is at least `Sent`, and every buffered receipt was handled
/// again against the new timestamps.
pub open spec fn send_confirmed(l: Ledger, conv_id: Seq<char>, local_ts: i64, server_ts: i64) -> Ledger {
    let marked = send_marked(l, conv_id, local_ts, server_ts);
    replayed(Ledger { pending_receipts: Seq::empty(), ..marked }, marked.pending_receipts)
}

/// The ledger after a failed send: the message is `Failed`, whatever it was.
pub open spec fn send_failed(l: Ledger, conv_id: Seq<char>, local_ts: i64) -> Ledger {
    let p = index_in(l.keys, conv_id);
    if 0 <= p < l.convs.len() && has_own(l.convs[p], local_ts) {
        let i = last_own(l.convs[p].messages, local_ts);
        Ledger {
            convs: l.convs.update(
                p,
                with_message(
                    l.convs[p],
                    i,
                    with_status(l.convs[p].messages[i], Some(MessageStatus::Failed)),
                ),
            ),
            ops: l.ops.push(
                DbOpView::UpdateMessageStatus {
                    conv_id,
                    timestamp_ms: local_ts,
                    status: MessageStatus::Failed.rank() as i32,
                },
            ),
            ..l
        }
    } else {
        l
    }
}

/// What the handlers of the backend's events read and change.
pub struct ReconcilerView {
    pub ledger: Ledger,
    /// The conversation ids in sidebar order.
    pub order: Seq<Seq<char>>,
    pub active: Option<Seq<char>>,
    /// The display names known for numbers and group ids.
    pub names: Map<Seq<char>, Seq<char>>,
    /// When each sender started typing.
    pub typing: Map<Seq<char>, i64>,
    /// For each request id of a send, the conversation and the local
    /// timestamp of its message.
    pub pending_sends: Map<Seq<char>, (Seq<char>, i64)>,
    pub muted: Seq<Seq<char>>,
    pub notify_direct: bool,
    pub notify_group: bool,
    pub pending_bell: bool,
    pub status_message: Seq<char>,
    pub account: Seq<char>,
}

/// The names with `name` for `key`, unless the key has a name already or
/// there is none to learn.
pub open spec fn learned(
    names: Map<Seq<char>, Seq<char>>,
    key: Seq<char>,
    name: Option<Seq<char>>,
) -> Map<Seq<char>, Seq<char>> {
    match name {
        Some(n) => if names.dom().contains(key) {
            names
        } else {
            names.insert(key, n)
        },
        None => names,
    }
}

/// The names with `name` for `key`, unless the name is empty.
pub open spec fn renamed(
    names: Map<Seq<char>, Seq<char>>,
    key: Seq<char>,
    name: Seq<char>,
) -> Map<Seq<char>, Seq<char>> {
    if name.len() > 0 {
        names.insert(key, name)
    } else {
        names
    }
}

/// A conversation without messages.
pub open spec fn fresh_conversation(id: Seq<char>, name: Seq<char>, is_group: bool) -> ConversationView {
    ConversationView { name, id, messages: Seq::empty(), unread: 0, is_group }
}

/// The state with a conversation for `id`.
///
/// A conversation that is there stays, and only its name may change: to
/// `name`, where that is not empty and differs. A conversation that is not
/// there is created with `name`, at the end of the table and of the sidebar.
/// A creation or a change of name is queued for writing.
pub open spec fn conversation_ensured(
    w: ReconcilerView,
    id: Seq<char>,
    name: Seq<char>,
    is_group: bool,
) -> ReconcilerView {
    let l = w.ledger;
    let p = index_in(l.keys, id);
    let op = DbOpView::UpsertConversation { id, name, is_group };
    if 0 <= p < l.convs.len() {
        if name.len() > 0 && l.convs[p].name != name {
            ReconcilerView {
                ledger: Ledger {
                    convs: l.convs.update(p, ConversationView { name, ..l.convs[p] }),
                    ops: l.ops.push(op),
                    ..l
                },
                ..w
            }
        } else {
            w
        }
    } else {
        ReconcilerView {
            ledger: Ledger {
                keys: l.keys.push(id),
                convs: l.convs.push(fresh_conversation(id, name, is_group)),
                ops: l.ops.push(op),
                ..l
            },
            order: w.order.push(id),
            ..w
        }
    }
}

/// The key of the conversation that a message belongs to: the group id
/// where there is one; else, for a message that the user sent from another
/// device, its destination, and none where that is missing; else the sender.
pub open spec fn message_key(m: SignalMessageView) -> Option<Seq<char>> {
    match m.group_id {
        Some(g) => Some(g),
        None => if m.is_outgoing {
            m.destination
        } else {
            Some(m.source)
        },
    }
}

/// The display name that a message suggests for its conversation: the
/// group's name for a group, the sender's name for a 1:1 chat (in a group
/// the sender's name is that of a member), else the name known for the key.
pub open spec fn name_candidate(m: SignalMessageView, known: Option<Seq<char>>) -> Option<Seq<char>> {
    if m.group_id.is_some() && m.group_name.is_some() {
        m.group_name
    } else if m.group_id.is_none() && m.source_name.is_some() {
        m.source_name
    } else {
        known
    }
}

/// The name that a conversation for `key` gets from a message: the
/// suggested one; without a suggestion, the name it has, or the key itself
/// for a new conversation.
pub open spec fn resolved_name(
    l: Ledger,
    key: Seq<char>,
    candidate: Option<Seq<char>>,
) -> Seq<char> {
    match candidate {
        Some(n) => n,
        None => {
            let p = index_in(l.keys, key);
            if 0 <= p < l.convs.len() {
                l.convs[p].name
            } else {
                key
            }
        },
    }
}

/// A phone number shortened for display, `+15551234567` to `+1***4567`: the
/// first two and the last four bytes of a number of more than six bytes. A
/// number that cannot be cut there without cutting a character is left as
/// it is.
pub open spec fn short_name_of(number: Seq<char>) -> Seq<char> {
    let bytes = encode_utf8(number);
    if bytes.len() > 6 && is_char_boundary(bytes, 2) && is_char_boundary(bytes, bytes.len() - 4) {
        head_bytes(number, 2) + "***"@ + tail_bytes(number, 4)
    } else {
        number
    }
}

/// The sender shown for a message: `you` for the user's own, else the name
/// the message carries, else the name known for the number, else the number
/// shortened.
pub open spec fn sender_display(m: SignalMessageView, names: Map<Seq<char>, Seq<char>>) -> Seq<char> {
    if m.is_outgoing {
        "you"@
    } else {
        match m.source_name {
            Some(n) => n,
            None => match lookup(names, m.source) {
                Some(n) => n,
                None => short_name_of(m.source),
            },
        }
    }
}

/// A local path as a `file://` URI with forward slashes.
pub open spec fn file_uri(path: Seq<char>) -> Seq<char> {
    let normalized = replace_char(path, '\\', '/');
    if normalized.len() > 0 && normalized[0] == '/' {
        "file://"@ + normalized
    } else {
        "file:///"@ + normalized
    }
}

/// Whether the MIME type is one of the image types that are shown inline.
pub open spec fn is_image_type(content_type: Seq<char>) -> bool {
    ||| content_type == "image/jpeg"@
    ||| content_type == "image/png"@
    ||| content_type == "image/gif"@
    ||| content_type == "image/webp"@
}

/// The text that stands for an attachment in the timeline.
pub open spec fn attachment_notice(a: AttachmentView) -> Seq<char> {
    let label = match a.filename {
        Some(f) => f,
        None => a.content_type,
    };
    let path_info = match a.local_path {
        Some(p) => "("@ + file_uri(p) + ")"@,
        None => Seq::empty(),
    };
    if is_image_type(a.content_type) {
        "[image: "@ + label + "]"@ + path_info
    } else {
        "[attachment: "@ + label + "]"@ + path_info
    }
}

/// The state with which a message enters the timeline: `Sent` for one that
/// the user sent from another device (the server has it already), none for
/// an incoming one.
pub open spec fn arrival_status(m: SignalMessageView) -> Option<MessageStatus> {
    if m.is_outgoing {
        Some(MessageStatus::Sent)
    } else {
        None
    }
}

/// A timeline entry of a message from the backend.
pub open spec fn timeline_entry(
    m: SignalMessageView,
    sender: Seq<char>,
    body: Seq<char>,
    image_path: Option<Seq<char>>,
) -> MessageView {
    MessageView {
        sender,
        timestamp: m.timestamp,
        body,
        is_system: false,
        image_path,
        status: arrival_status(m),
        timestamp_ms: m.timestamp,
        reactions: Seq::empty(),
    }
}

/// The timeline entry for an attachment.
pub open spec fn attachment_entry(m: SignalMessageView, sender: Seq<char>, a: AttachmentView) -> MessageView {
    timeline_entry(
        m,
        sender,
        attachment_notice(a),
        if is_image_type(a.content_type) {
            a.local_path
        } else {
            None
        },
    )
}

/// The timeline entries for the first `n` attachments of a message.
pub open spec fn attachment_entries(m: SignalMessageView, sender: Seq<char>, n: int) -> Seq<MessageView>
    decreases n,
{
    if n <= 0 || n > m.attachments.len() {
        Seq::empty()
    } else {
        attachment_entries(m, sender, n - 1).push(attachment_entry(m, sender, m.attachments[n - 1]))
    }
}

/// The timeline entries of a message: its text, if it has one, then one
/// entry per attachment.
pub open spec fn timeline_entries(m: SignalMessageView, sender: Seq<char>) -> Seq<MessageView> {
    let text = match m.body {
        Some(b) => seq![timeline_entry(m, sender, b, None)],
        None => Seq::empty(),
    };
    text + attachment_entries(m, sender, m.attachments.len() as int)
}

/// The write that stores a timeline entry.
pub open spec fn insert_op(conv_id: Seq<char>, m: MessageView) -> DbOpView {
    DbOpView::InsertMessage {
        conv_id,
        sender: m.sender,
        timestamp: m.timestamp,
        body: m.body,
        is_system: m.is_system,
        status: m.status,
        timestamp_ms: m.timestamp_ms,
    }
}

/// The writes that store timeline entries, in order.
pub open spec fn insert_ops(conv_id: Seq<char>, entries: Seq<MessageView>) -> Seq<DbOpView> {
    Seq::new(entries.len(), |i: int| insert_op(conv_id, entries[i]))
}

/// One more unread message; the count stops at the largest number it can
/// hold.
pub open spec fn one_more(unread: usize) -> usize {
    if unread < usize::MAX {
        (unread + 1) as usize
    } else {
        unread
    }
}

/// Whether `key` is among the keys.
pub open spec fn listed(keys: Seq<Seq<char>>, key: Seq<char>) -> bool {
    index_in(keys, key) >= 0
}

/// The state with timeline entries appended to conversation `p`, and
/// queued for writing under `key`.
pub open spec fn entries_appended(
    w: ReconcilerView,
    p: int,
    key: Seq<char>,
    entries: Seq<MessageView>,
) -> ReconcilerView {
    let conv = w.ledger.convs[p];
    ReconcilerView {
        ledger: Ledger {
            convs: w.ledger.convs.update(
                p,
                ConversationView { messages: conv.messages + entries, ..conv },
            ),
            ops: w.ledger.ops + insert_ops(key, entries),
            ..w.ledger
        },
        ..w
    }
}

/// The state after an arrival in conversation `p` was taken note of: where
/// it `counts`, the conversation has one more unread message; where it
/// `rings`, the bell is pending.
pub open spec fn arrival_noted(w: ReconcilerView, p: int, counts: bool, rings: bool) -> ReconcilerView {
    let conv = w.ledger.convs[p];
    ReconcilerView {
        ledger: Ledger {
            convs: w.ledger.convs.update(
                p,
                ConversationView {
                    unread: if counts {
                        one_more(conv.unread)
                    } else {
                        conv.unread
                    },
                    ..conv
                },
            ),
            ..w.ledger
        },
        pending_bell: w.pending_bell || rings,
        ..w
    }
}

/// The state after a message from the backend.
///
/// A message without key is dropped. Otherwise the sender's name is
/// remembered, the conversation is created if it is new (an existing one
/// may get a more specific name), the entries are appended and queued for
/// writing, and, for an incoming message in a conversation that is not the
/// active one, the unread count goes up and the bell rings unless that kind
/// of conversation or this conversation is silenced.
pub open spec fn message_handled(w: ReconcilerView, m: SignalMessageView) -> ReconcilerView {
    match message_key(m) {
        None => w,
        Some(key) => {
            let names = if m.is_outgoing {
                w.names
            } else {
                learned(w.names, m.source, m.source_name)
            };
            let is_group = m.group_id.is_some();
            let name = resolved_name(w.ledger, key, name_candidate(m, lookup(names, key)));
            let w1 = conversation_ensured(ReconcilerView { names, ..w }, key, name, is_group);
            let p = index_in(w1.ledger.keys, key);
            let counts = w.active != Some(key) && !m.is_outgoing;
            let rings = counts && (if is_group {
                w.notify_group
            } else {
                w.notify_direct
            }) && !listed(w.muted, key);
            arrival_noted(
                entries_appended(w1, p, key, timeline_entries(m, sender_display(m, names))),
                p,
                counts,
                rings,
            )
        },
    }
}

/// The state after one entry of the contact list: a name that is not empty
/// is remembered, and becomes the name of the contact's conversation if
/// there is one and it differs. No conversation is created.
pub open spec fn contact_step(w: ReconcilerView, c: ContactView) -> ReconcilerView {
    match c.name {
        Some(name) => if name.len() > 0 {
            let l = w.ledger;
            let p = index_in(l.keys, c.number);
            ReconcilerView {
                names: w.names.insert(c.number, name),
                ledger: if 0 <= p < l.convs.len() && l.convs[p].name != name {
                    Ledger {
                        convs: l.convs.update(p, ConversationView { name, ..l.convs[p] }),
                        ops: l.ops.push(
                            DbOpView::UpsertConversation {
                                id: c.number,
                                name,
                                is_group: false,
                            },
                        ),
                        ..l
                    }
                } else {
                    l
                },
                ..w
            }
        } else {
            w
        },
        None => w,
    }
}

/// The state after the contact list, entry by entry.
pub open spec fn contacts_handled(w: ReconcilerView, contacts: Seq<ContactView>) -> ReconcilerView
    decreases contacts.len(),
{
    if contacts.len() == 0 {
        w
    } else {
        contact_step(contacts_handled(w, contacts.drop_last()), contacts.last())
    }
}

/// The state after one entry of the group list: a name that is not empty is
/// remembered, and there is a conversation for the group afterwards (the
/// user is a member of every group that the backend lists).
pub open spec fn group_step(w: ReconcilerView, g: GroupView) -> ReconcilerView {
    conversation_ensured(ReconcilerView { names: renamed(w.names, g.id, g.name), ..w }, g.id, g.name, true)
}

/// The state after the group list, entry by entry.
pub open spec fn groups_handled(w: ReconcilerView, groups: Seq<GroupView>) -> ReconcilerView
    decreases groups.len(),
{
    if groups.len() == 0 {
        w
    } else {
        group_step(groups_handled(w, groups.drop_last()), groups.last())
    }
}

/// The state after a typing indicator: the sender's name is remembered, and
/// the sender is typing since `now`, or no longer.
pub open spec fn typing_handled(
    w: ReconcilerView,
    sender: Seq<char>,
    sender_name: Option<Seq<char>>,
    is_typing: bool,
    now: i64,
) -> ReconcilerView {
    ReconcilerView {
        names: learned(w.names, sender, sender_name),
        typing: if is_typing {
            w.typing.insert(sender, now)
        } else {
            w.typing.remove(sender)
        },
        ..w
    }
}

/// Whether the message was written by `target_author`: the user's own
/// messages by the account, any other by the sender's number or by the
/// display name known for that number (a timeline entry may hold only the
/// display name).
pub open spec fn authored_by(
    m: MessageView,
    target_author: Seq<char>,
    account: Seq<char>,
    target_display: Option<Seq<char>>,
) -> bool {
    if m.sender == "you"@ {
        target_author == account
    } else {
        m.sender == target_author || target_display == Some(m.sender)
    }
}

/// Whether a reaction to the message of `target_author` with timestamp `ts`
/// is a reaction to `m`.
pub open spec fn is_reaction_target(
    m: MessageView,
    ts: i64,
    target_author: Seq<char>,
    account: Seq<char>,
    target_display: Option<Seq<char>>,
) -> bool {
    m.timestamp_ms == ts && authored_by(m, target_author, account, target_display)
}

/// The index of the newest message that a reaction targets, or `-1`.
pub open spec fn reaction_target(
    msgs: Seq<MessageView>,
    ts: i64,
    target_author: Seq<char>,
    account: Seq<char>,
    target_display: Option<Seq<char>>,
) -> int
    decreases msgs.len(),
{
    if msgs.len() == 0 {
        -1
    } else if is_reaction_target(msgs.last(), ts, target_author, account, target_display) {
        msgs.len() - 1
    } else {
        reaction_target(msgs.drop_last(), ts, target_author, account, target_display)
    }
}

/// What [`reaction_target`] returns.
pub proof fn lemma_reaction_target(
    msgs: Seq<MessageView>,
    ts: i64,
    target_author: Seq<char>,
    account: Seq<char>,
    target_display: Option<Seq<char>>,
)
    ensures
        -1 <= reaction_target(msgs, ts, target_author, account, target_display) < msgs.len(),
        reaction_target(msgs, ts, target_author, account, target_display) >= 0
            ==> is_reaction_target(
            msgs[reaction_target(msgs, ts, target_author, account, target_display)],
            ts,
            target_author,
            account,
            target_display,
        ),
        forall|j: int|
            reaction_target(msgs, ts, target_author, account, target_display) < j < msgs.len()
                ==> !is_reaction_target(
                #[trigger] msgs[j],
                ts,
                target_author,
                account,
                target_display,
            ),
    decreases msgs.len(),
{
    if msgs.len() > 0 && !is_reaction_target(
        msgs.last(),
        ts,
        target_author,
        account,
        target_display,
    ) {
        lemma_reaction_target(msgs.drop_last(), ts, target_author, account, target_display);
        assert forall|j: int|
            reaction_target(msgs, ts, target_author, account, target_display) < j
                < msgs.len() implies !is_reaction_target(
            #[trigger] msgs[j],
            ts,
            target_author,
            account,
            target_display,
        ) by {
            if j < msgs.len() - 1 {
                assert(msgs[j] == msgs.drop_last()[j]);
            }
        }
    }
}

/// The sender under which a reaction is shown: `you` for the account's own,
/// else the name known for the number, else the number.
pub open spec fn reactor_display(
    names: Map<Seq<char>, Seq<char>>,
    account: Seq<char>,
    sender: Seq<char>,
) -> Seq<char> {
    if sender == account {
        "you"@
    } else {
        match lookup(names, sender) {
            Some(n) => n,
            None => sender,
        }
    }
}

/// The index of the first reaction from `who`, or `-1`.
pub open spec fn reaction_index(rs: Seq<ReactionView>, who: Seq<char>) -> int
    decreases rs.len(),
{
    if rs.len() == 0 {
        -1
    } else {
        let before = reaction_index(rs.drop_last(), who);
        if before >= 0 {
            before
        } else if rs.last().sender == who {
            rs.len() - 1
        } else {
            -1
        }
    }
}

/// What [`reaction_index`] returns.
pub proof fn lemma_reaction_index(rs: Seq<ReactionView>, who: Seq<char>)
    ensures
        -1 <= reaction_index(rs, who) < rs.len(),
        reaction_index(rs, who) >= 0 ==> rs[reaction_index(rs, who)].sender == who,
        forall|j: int| 0 <= j < reaction_index(rs, who) ==> (#[trigger] rs[j]).sender != who,
        reaction_index(rs, who) == -1 ==> forall|j: int|
            0 <= j < rs.len() ==> (#[trigger] rs[j]).sender != who,
    decreases rs.len(),
{
    if rs.len() > 0 {
        lemma_reaction_index(rs.drop_last(), who);
        assert forall|j: int| 0 <= j < rs.len() - 1 implies rs[j] == rs.drop_last()[j] by {}
    }
}

/// The reactions without those from `who`.
pub open spec fn without_sender(rs: Seq<ReactionView>, who: Seq<char>) -> Seq<ReactionView>
    decreases rs.len(),
{
    if rs.len() == 0 {
        Seq::empty()
    } else {
        let rest = without_sender(rs.drop_last(), who);
        if rs.last().sender == who {
            rest
        } else {
            rest.push(rs.last())
        }
    }
}

/// The reactions of a message after one more reaction event from `who`: a
/// removal drops what `who` reacted with; anything else replaces the emoji
/// of the reaction from `who`, or adds a reaction where there is none.
pub open spec fn reactions_merged(
    rs: Seq<ReactionView>,
    who: Seq<char>,
    emoji: Seq<char>,
    is_remove: bool,
) -> Seq<ReactionView> {
    if is_remove {
        without_sender(rs, who)
    } else {
        let i = reaction_index(rs, who);
        if i >= 0 {
            rs.update(i, ReactionView { emoji, sender: rs[i].sender })
        } else {
            rs.push(ReactionView { emoji, sender: who })
        }
    }
}

/// A sender that has no reaction before has none after other senders'
/// reactions were dropped.
pub proof fn lemma_without_sender_absent(rs: Seq<ReactionView>, who: Seq<char>, x: Seq<char>)
    requires
        forall|j: int| 0 <= j < rs.len() ==> (#[trigger] rs[j]).sender != x,
    ensures
        forall|k: int|
            0 <= k < without_sender(rs, who).len() ==> (#[trigger] without_sender(
                rs,
                who,
            )[k]).sender != x,
    decreases rs.len(),
{
    if rs.len() > 0 {
        assert forall|j: int| 0 <= j < rs.len() - 1 implies (#[trigger] rs.drop_last()[j]).sender
            != x by {
            assert(rs.drop_last()[j] == rs[j]);
        }
        lemma_without_sender_absent(rs.drop_last(), who, x);
        let rest = without_sender(rs.drop_last(), who);
        let all = without_sender(rs, who);
        assert(rs.last() == rs[rs.len() - 1]);
        assert forall|k: int| 0 <= k < all.len() implies (#[trigger] all[k]).sender != x by {
            if k < rest.len() {
                assert(all[k] == rest[k]);
            }
        }
    }
}

/// After a removal no reaction from `who` is left, and no sender has two.
pub proof fn lemma_without_sender(rs: Seq<ReactionView>, who: Seq<char>)
    requires
        forall|i: int, j: int| 0 <= i < j < rs.len() ==> rs[i].sender != rs[j].sender,
    ensures
        forall|k: int|
            0 <= k < without_sender(rs, who).len() ==> (#[trigger] without_sender(
                rs,
                who,
            )[k]).sender != who,
        forall|i: int, j: int|
            0 <= i < j < without_sender(rs, who).len() ==> without_sender(rs, who)[i].sender
                != without_sender(rs, who)[j].sender,
        without_sender(rs, who).len() <= rs.len(),
    decreases rs.len(),
{
    if rs.len() > 0 {
        let front = rs.drop_last();
        assert forall|i: int, j: int| 0 <= i < j < front.len() implies front[i].sender
            != front[j].sender by {
            assert(front[i] == rs[i]);
            assert(front[j] == rs[j]);
        }
        lemma_without_sender(front, who);
        if rs.last().sender != who {
            assert forall|j: int| 0 <= j < front.len() implies (#[trigger] front[j]).sender
                != rs.last().sender by {
                assert(front[j] == rs[j]);
            }
            lemma_without_sender_absent(front, who, rs.last().sender);
        }
    }
}

/// Merging a reaction keeps a message well formed.
pub proof fn lemma_reactions_merged_wf(
    rs: Seq<ReactionView>,
    who: Seq<char>,
    emoji: Seq<char>,
    is_remove: bool,
)
    requires
        forall|i: int, j: int| 0 <= i < j < rs.len() ==> rs[i].sender != rs[j].sender,
    ensures
        forall|i: int, j: int|
            0 <= i < j < reactions_merged(rs, who, emoji, is_remove).len() ==> reactions_merged(
                rs,
                who,
                emoji,
                is_remove,
            )[i].sender != reactions_merged(rs, who, emoji, is_remove)[j].sender,
{
    lemma_reaction_index(rs, who);
    if is_remove {
        lemma_without_sender(rs, who);
    }
}

/// The message with other reactions.
pub open spec fn with_reactions(m: MessageView, reactions: Seq<ReactionView>) -> MessageView {
    MessageView { reactions, ..m }
}

/// The write that makes a reaction event durable.
pub open spec fn reaction_op(
    conv_id: Seq<char>,
    emoji: Seq<char>,
    sender: Seq<char>,
    target_author: Seq<char>,
    ts: i64,
    is_remove: bool,
) -> DbOpView {
    if is_remove {
        DbOpView::RemoveReaction { conv_id, target_ts_ms: ts, target_author, sender }
    } else {
        DbOpView::UpsertReaction { conv_id, target_ts_ms: ts, target_author, sender, emoji }
    }
}

/// The state after a reaction.
///
/// The newest message of the conversation with the target's timestamp and
/// author gets the reaction merged in. The reaction is queued for writing
/// whether or not such a message is in memory.
pub open spec fn reaction_handled(
    w: ReconcilerView,
    conv_id: Seq<char>,
    emoji: Seq<char>,
    sender: Seq<char>,
    target_author: Seq<char>,
    ts: i64,
    is_remove: bool,
) -> ReconcilerView {
    let l = w.ledger;
    let display = lookup(w.names, target_author);
    let who = reactor_display(w.names, w.account, sender);
    let p = index_in(l.keys, conv_id);
    let op = reaction_op(conv_id, emoji, sender, target_author, ts, is_remove);
    let found = 0 <= p < l.convs.len() && reaction_target(
        l.convs[p].messages,
        ts,
        target_author,
        w.account,
        display,
    ) >= 0;
    ReconcilerView {
        ledger: Ledger {
            convs: if found {
                let i = reaction_target(l.convs[p].messages, ts, target_author, w.account, display);
                let m = l.convs[p].messages[i];
                l.convs.update(
                    p,
                    with_message(
                        l.convs[p],
                        i,
                        with_reactions(m, reactions_merged(m.reactions, who, emoji, is_remove)),
                    ),
                )
            } else {
                l.convs
            },
            ops: l.ops.push(op),
            ..l
        },
        ..w
    }
}

/// The state after an event of the backend that arrived at `now`.
pub open spec fn event_handled(w: ReconcilerView, e: SignalEventView, now: i64) -> ReconcilerView {
    match e {
        SignalEventView::MessageReceived(m) => message_handled(w, m),
        SignalEventView::ReceiptReceived { sender, receipt_type, timestamps } => ReconcilerView {
            ledger: receipt_handled(w.ledger, sender, receipt_type, timestamps),
            ..w
        },
        SignalEventView::SendTimestamp { rpc_id, server_ts } => match lookup(
            w.pending_sends,
            rpc_id,
        ) {
            Some(pending) => ReconcilerView {
                ledger: send_confirmed(w.ledger, pending.0, pending.1, server_ts),
                pending_sends: w.pending_sends.remove(rpc_id),
                ..w
            },
            None => w,
        },
        SignalEventView::SendFailed { rpc_id } => {
            let marked = ReconcilerView { status_message: "send failed"@, ..w };
            match lookup(w.pending_sends, rpc_id) {
                Some(pending) => ReconcilerView {
                    ledger: send_failed(w.ledger, pending.0, pending.1),
                    pending_sends: w.pending_sends.remove(rpc_id),
                    ..marked
                },
                None => marked,
            }
        },
        SignalEventView::TypingIndicator { sender, sender_name, is_typing } => typing_handled(
            w,
            sender,
            sender_name,
            is_typing,
            now,
        ),
        SignalEventView::ReactionReceived {
            conv_id,
            emoji,
            sender,
            sender_name,
            target_author,
            target_timestamp,
            is_remove,
        } => reaction_handled(
            ReconcilerView { names: learned(w.names, sender, sender_name), ..w },
            conv_id,
            emoji,
            sender,
            target_author,
            target_timestamp,
            is_remove,
        ),
        SignalEventView::ContactList(contacts) => contacts_handled(w, contacts),
        SignalEventView::GroupList(groups) => groups_handled(w, groups),
        SignalEventView::Error(text) => ReconcilerView { status_message: "error: "@ + text, ..w },
    }
}

/// The line that the status bar shows for the active conversation; none
/// where the active conversation is not in the table.
pub open spec fn status_line(w: ReconcilerView) -> Option<Seq<char>> {
    match w.active {
        Some(id) => {
            let p = index_in(w.ledger.keys, id);
            if 0 <= p < w.ledger.convs.len() {
                let conv = w.ledger.convs[p];
                Some(
                    "connected | "@ + (if conv.is_group {
                        "#"@
                    } else {
                        ""@
                    }) + conv.name,
                )
            } else {
                None
            }
        },
        None => Some("connected | no conversation selected"@),
    }
}

/// The state with the status bar brought up to date.
pub open spec fn status_updated(w: ReconcilerView) -> ReconcilerView {
    match status_line(w) {
        Some(line) => ReconcilerView { status_message: line, ..w },
        None => w,
    }
}

/// The state after the active conversation was marked as read: the marker
/// is queued for writing.
pub open spec fn marked_read(w: ReconcilerView) -> ReconcilerView {
    match w.active {
        Some(id) => ReconcilerView {
            ledger: Ledger {
                ops: w.ledger.ops.push(DbOpView::SaveReadMarker { conv_id: id }),
                ..w.ledger
            },
            ..w
        },
        None => w,
    }
}

/// The number of messages of the active conversation, where it is in the
/// table.
pub open spec fn active_length(w: ReconcilerView) -> Option<usize> {
    match w.active {
        Some(id) => {
            let p = index_in(w.ledger.keys, id);
            if 0 <= p < w.ledger.convs.len() {
                Some(w.ledger.convs[p].messages.len() as usize)
            } else {
                None
            }
        },
        None => None,
    }
}

/// The state with conversation `id` as the active one: nothing in it is
/// unread any more, and the status bar names it.
pub open spec fn activated(w: ReconcilerView, id: Seq<char>) -> ReconcilerView {
    let p = index_in(w.ledger.keys, id);
    status_updated(
        ReconcilerView {
            active: Some(id),
            ledger: if 0 <= p < w.ledger.convs.len() {
                Ledger {
                    convs: w.ledger.convs.update(
                        p,
                        ConversationView { unread: 0, ..w.ledger.convs[p] },
                    ),
                    ..w.ledger
                }
            } else {
                w.ledger
            },
            ..w
        },
    )
}

/// The place in the sidebar after the active conversation's, around the
/// end; the first place where no conversation of the sidebar is active.
pub open spec fn next_place(w: ReconcilerView) -> int {
    match w.active {
        Some(id) => {
            let i = index_in(w.order, id);
            if i >= 0 && i + 1 < w.order.len() {
                i + 1
            } else {
                0
            }
        },
        None => 0,
    }
}

/// The place in the sidebar before the active conversation's, around the
/// beginning; the first place where no conversation of the sidebar is
/// active.
pub open spec fn prev_place(w: ReconcilerView) -> int {
    match w.active {
        Some(id) => {
            let i = index_in(w.order, id);
            if i > 0 {
                i - 1
            } else if i == 0 {
                w.order.len() - 1
            } else {
                0
            }
        },
        None => 0,
    }
}

/// The index of the first conversation whose name holds `needle`, both
/// taken in lower case; `-1` where there is none.
pub open spec fn first_named(convs: Seq<ConversationView>, needle: Seq<char>) -> int
    decreases convs.len(),
{
    if convs.len() == 0 {
        -1
    } else {
        let before = first_named(convs.drop_last(), needle);
        if before >= 0 {
            before
        } else if crate::text::contains(crate::text::lowercase(convs.last().name), needle) {
            convs.len() - 1
        } else {
            -1
        }
    }
}

/// What [`first_named`] returns.
pub proof fn lemma_first_named(convs: Seq<ConversationView>, needle: Seq<char>)
    ensures
        -1 <= first_named(convs, needle) < convs.len(),
        first_named(convs, needle) >= 0 ==> crate::text::contains(
            crate::text::lowercase(convs[first_named(convs, needle)].name),
            needle,
        ),
        forall|j: int|
            0 <= j < first_named(convs, needle) ==> !crate::text::contains(
                crate::text::lowercase((#[trigger] convs[j]).name),
                needle,
            ),
        first_named(convs, needle) == -1 ==> forall|j: int|
            0 <= j < convs.len() ==> !crate::text::contains(
                crate::text::lowercase((#[trigger] convs[j]).name),
                needle,
            ),
    decreases convs.len(),
{
    if convs.len() > 0 {
        lemma_first_named(convs.drop_last(), needle);
        assert forall|j: int| 0 <= j < convs.len() - 1 implies convs[j] == convs.drop_last()[j] by {}
    }
}

/// The state after the user asked for the conversation `target`.
///
/// The conversation with that key becomes active; else the first one whose
/// name holds `target`, whatever the case; else, where `target` looks like
/// a phone number, a new conversation with that number; else the status
/// bar says that there is no such conversation.
pub open spec fn joined(w: ReconcilerView, target: Seq<char>) -> ReconcilerView {
    let l = w.ledger;
    if listed(l.keys, target) {
        activated(w, target)
    } else {
        let named = first_named(l.convs, crate::text::lowercase(target));
        if 0 <= named < l.keys.len() {
            activated(w, l.keys[named])
        } else if target.len() > 0 && target[0] == '+' {
            status_updated(
                ReconcilerView { active: Some(target), ..conversation_ensured(w, target, target, false) },
            )
        } else {
            ReconcilerView { status_message: "Conversation not found: "@ + target, ..w }
        }
    }
}

/// Whether asking for the conversation `target` finds or makes one: a
/// conversation with that key or with a name that holds it, or a target
/// that looks like a phone number.
pub open spec fn join_finds(w: ReconcilerView, target: Seq<char>) -> bool {
    ||| listed(w.ledger.keys, target)
    ||| first_named(w.ledger.convs, crate::text::lowercase(target)) >= 0
    ||| (target.len() > 0 && target[0] == '+')
}

/// The timeline entry for a text that the user sends at `now`: it is
/// `Sending` under the local clock's timestamp.
pub open spec fn outgoing_entry(text: Seq<char>, now: i64) -> MessageView {
    MessageView {
        sender: "you"@,
        timestamp: now,
        body: text,
        is_system: false,
        image_path: None,
        status: Some(MessageStatus::Sending),
        timestamp_ms: now,
        reactions: Seq::empty(),
    }
}

/// The state after the user sent `text` to conversation `id` at `now`: the
/// entry is in the timeline, where the conversation is in the table, and
/// queued for writing.
pub open spec fn text_sent(w: ReconcilerView, id: Seq<char>, text: Seq<char>, now: i64) -> ReconcilerView {
    let l = w.ledger;
    let p = index_in(l.keys, id);
    let entry = outgoing_entry(text, now);
    ReconcilerView {
        ledger: Ledger {
            convs: if 0 <= p < l.convs.len() {
                l.convs.update(
                    p,
                    ConversationView { messages: l.convs[p].messages.push(entry), ..l.convs[p] },
                )
            } else {
                l.convs
            },
            ops: l.ops.push(insert_op(id, entry)),
            ..l
        },
        ..w
    }
}

/// The state after a send was handed to the backend under `rpc_id`: the
/// send is pending.
pub open spec fn send_registered(
    w: ReconcilerView,
    rpc_id: Seq<char>,
    conv_id: Seq<char>,
    local_ts: i64,
) -> ReconcilerView {
    ReconcilerView { pending_sends: w.pending_sends.insert(rpc_id, (conv_id, local_ts)), ..w }
}

/// The keys without `key`.
pub open spec fn without_key(keys: Seq<Seq<char>>, key: Seq<char>) -> Seq<Seq<char>>
    decreases keys.len(),
{
    if keys.len() == 0 {
        Seq::empty()
    } else {
        let rest = without_key(keys.drop_last(), key);
        if keys.last() == key {
            rest
        } else {
            rest.push(keys.last())
        }
    }
}

/// The state after the mute of the active conversation was toggled.
pub open spec fn mute_toggled(w: ReconcilerView) -> ReconcilerView {
    match w.active {
        Some(id) => {
            let p = index_in(w.ledger.keys, id);
            let name = if 0 <= p < w.ledger.convs.len() {
                w.ledger.convs[p].name
            } else {
                id
            };
            let was_muted = listed(w.muted, id);
            ReconcilerView {
                muted: if was_muted {
                    without_key(w.muted, id)
                } else {
                    w.muted.push(id)
                },
                status_message: if was_muted {
                    "unmuted "@ + name
                } else {
                    "muted "@ + name
                },
                ledger: Ledger {
                    ops: w.ledger.ops.push(DbOpView::SetMuted { conv_id: id, muted: !was_muted }),
                    ..w.ledger
                },
                ..w
            }
        },
        None => ReconcilerView { status_message: "no active conversation to mute"@, ..w },
    }
}

/// The word for a switch.
pub open spec fn on_off(on: bool) -> Seq<char> {
    if on {
        "on"@
    } else {
        "off"@
    }
}

/// The state after the bell was toggled for `kind`: for both kinds of
/// conversation where none is named; for 1:1 chats (`direct`, `dm`, `1:1`);
/// for groups (`group`, `groups`). Any other kind only changes the status
/// bar.
pub open spec fn bell_toggled(w: ReconcilerView, kind: Option<Seq<char>>) -> ReconcilerView {
    match kind {
        None => {
            let on = !(w.notify_direct && w.notify_group);
            ReconcilerView {
                notify_direct: on,
                notify_group: on,
                status_message: "notifications "@ + on_off(on),
                ..w
            }
        },
        Some(k) => if k == "direct"@ || k == "dm"@ || k == "1:1"@ {
            ReconcilerView {
                notify_direct: !w.notify_direct,
                status_message: "direct notifications "@ + on_off(!w.notify_direct),
                ..w
            }
        } else if k == "group"@ || k == "groups"@ {
            ReconcilerView {
                notify_group: !w.notify_group,
                status_message: "group notifications "@ + on_off(!w.notify_group),
                ..w
            }
        } else {
            ReconcilerView {
                status_message: "unknown bell type: "@ + k + " (use direct or group)"@,
                ..w
            }
        },
    }
}

/// The message as it is after a restart: one that was still `Sending` is
/// `Sent`, for a message that reached the store was handed to the backend,
/// whether or not the confirmation was seen.
pub open spec fn message_reloaded(m: MessageView) -> MessageView {
    if m.status == Some(MessageStatus::Sending) {
        with_status(m, Some(MessageStatus::Sent))
    } else {
        m
    }
}

/// The conversation as it is after a restart.
pub open spec fn conversation_reloaded(c: ConversationView) -> ConversationView {
    ConversationView {
        messages: Seq::new(c.messages.len(), |i: int| message_reloaded(c.messages[i])),
        ..c
    }
}

/// The ledger with a stored conversation: it takes the place of a
/// conversation with the same id, or goes to the end of the table.
pub open spec fn conversation_loaded(l: Ledger, c: ConversationView) -> Ledger {
    let p = index_in(l.keys, c.id);
    if 0 <= p < l.convs.len() {
        Ledger { convs: l.convs.update(p, conversation_reloaded(c)), ..l }
    } else {
        Ledger {
            keys: l.keys.push(c.id),
            convs: l.convs.push(conversation_reloaded(c)),
            ..l
        }
    }
}

/// The ledger with the stored conversations, one after the other.
pub open spec fn conversations_loaded(l: Ledger, stored: Seq<ConversationView>) -> Ledger
    decreases stored.len(),
{
    if stored.len() == 0 {
        l
    } else {
        conversation_loaded(conversations_loaded(l, stored.drop_last()), stored.last())
    }
}

/// The index of the first unread message of a stored conversation: behind
/// the messages that are not counted as unread.
pub open spec fn read_mark(c: ConversationView) -> usize {
    if c.messages.len() >= c.unread {
        (c.messages.len() - c.unread) as usize
    } else {
        0
    }
}

/// The read marks with those of the stored conversations that have
/// messages.
pub open spec fn read_marks_loaded(
    marks: Map<Seq<char>, usize>,
    stored: Seq<ConversationView>,
) -> Map<Seq<char>, usize>
    decreases stored.len(),
{
    if stored.len() == 0 {
        marks
    } else {
        let before = read_marks_loaded(marks, stored.drop_last());
        if stored.last().messages.len() > 0 {
            before.insert(stored.last().id, read_mark(stored.last()))
        } else {
            before
        }
    }
}

/// The path of the image that a stored timeline entry shows, as far as the
/// entry's text tells: what follows `file:///` up to the closing brackets,
/// or, in entries of an older form, what follows ` -> ` up to the closing
/// square brackets. None for an entry that is no image notice.
pub open spec fn stored_image_path(body: Seq<char>) -> Option<Seq<char>> {
    if !crate::text::has_prefix(body, "[image:"@) {
        None
    } else {
        let uri = crate::text::find_from(body, "file:///"@, 0);
        let arrow = crate::text::find_from(body, " -> "@, 0);
        if uri < body.len() {
            Some(uri_path(strip_trailing(body.skip(uri), ')')))
        } else if arrow < body.len() {
            Some(strip_trailing(body.skip(arrow + 4), ']'))
        } else {
            None
        }
    }
}

/// The characters without the `c`s at their end.
pub open spec fn strip_trailing(s: Seq<char>, c: char) -> Seq<char>
    decreases s.len(),
{
    if s.len() > 0 && s.last() == c {
        strip_trailing(s.drop_last(), c)
    } else {
        s
    }
}

/// The local path in a `file://` URI: the URI without the whitespace
/// around it and without its scheme, `file:///` or else `file://`; a string
/// that is no such URI as it is.
pub open spec fn uri_path(uri: Seq<char>) -> Seq<char> {
    let t = crate::text::trimmed(uri);
    if crate::text::has_prefix(t, "file:///"@) {
        t.skip(8)
    } else if crate::text::has_prefix(t, "file://"@) {
        t.skip(7)
    } else {
        t
    }
}

/// The index of the first message with the timestamp, or `-1`.
pub open spec fn first_at(msgs: Seq<MessageView>, ts: i64) -> int
    decreases msgs.len(),
{
    if msgs.len() == 0 {
        -1
    } else {
        let before = first_at(msgs.drop_last(), ts);
        if before >= 0 {
            before
        } else if msgs.last().timestamp_ms == ts {
            msgs.len() - 1
        } else {
            -1
        }
    }
}

/// What [`first_at`] returns.
pub proof fn lemma_first_at(msgs: Seq<MessageView>, ts: i64)
    ensures
        -1 <= first_at(msgs, ts) < msgs.len(),
        first_at(msgs, ts) >= 0 ==> msgs[first_at(msgs, ts)].timestamp_ms == ts,
        forall|j: int| 0 <= j < first_at(msgs, ts) ==> (#[trigger] msgs[j]).timestamp_ms != ts,
        first_at(msgs, ts) == -1 ==> forall|j: int|
            0 <= j < msgs.len() ==> (#[trigger] msgs[j]).timestamp_ms != ts,
    decreases msgs.len(),
{
    if msgs.len() > 0 {
        lemma_first_at(msgs.drop_last(), ts);
        assert forall|j: int| 0 <= j < msgs.len() - 1 implies msgs[j] == msgs.drop_last()[j] by {}
    }
}

/// The timeline with a stored reaction attached: the first message with
/// the reaction's timestamp gets it merged in; without such a message the
/// timeline stays as it is.
pub open spec fn stored_reaction_attached(
    msgs: Seq<MessageView>,
    ts: i64,
    emoji: Seq<char>,
    sender: Seq<char>,
) -> Seq<MessageView> {
    let i = first_at(msgs, ts);
    if i >= 0 {
        msgs.update(
            i,
            with_reactions(msgs[i], reactions_merged(msgs[i].reactions, sender, emoji, false)),
        )
    } else {
        msgs
    }
}

/// What a stored reaction holds: the timestamp and the author of its
/// target, the emoji, and the sender.
pub struct StoredReactionView {
    pub target_ts: i64,
    pub target_author: Seq<char>,
    pub emoji: Seq<char>,
    pub sender: Seq<char>,
}

/// The timeline with the stored reactions attached, one after the other.
pub open spec fn stored_reactions_attached(
    msgs: Seq<MessageView>,
    rows: Seq<StoredReactionView>,
) -> Seq<MessageView>
    decreases rows.len(),
{
    if rows.len() == 0 {
        msgs
    } else {
        stored_reaction_attached(
            stored_reactions_attached(msgs, rows.drop_last()),
            rows.last().target_ts,
            rows.last().emoji,
            rows.last().sender,
        )
    }
}

} // verus!
