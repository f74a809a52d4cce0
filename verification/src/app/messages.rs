//! Conversation identity and incoming messages.
//!
//! A message is filed under a key derived from the event alone; the
//! conversation for a key exists at most once; and its display name only
//! ever moves towards a more specific one.

use vstd::prelude::*;
use crate::text;
use crate::app::{Conversation, DbOp, DisplayMessage, Reconciler};
use crate::app::timeline::{
    arrival_noted, arrival_status, attachment_entries, attachment_entry, attachment_notice,
    contact_step, contacts_handled, conversation_ensured, conversation_loaded,
    conversation_reloaded, conversation_wf, entries_appended, file_uri, fresh_conversation,
    group_step, groups_handled, insert_op, insert_ops, is_image_type, learned, listed,
    message_handled, message_key, message_reloaded, message_wf, name_candidate, one_more, renamed,
    resolved_name, sender_display, short_name_of, stored_image_path, strip_trailing,
    timeline_entries, timeline_entry, typing_handled, uri_path, ConversationView, MessageView,
    ReconcilerView,
};
use crate::model::{lemma_views_push, opt_view, views};
use crate::signal::client::{head_of, tail_of};
use crate::signal::types::{
    Attachment, Contact, ContactView, Group, GroupView, MessageStatus, SignalMessage,
};
use crate::strmap::{
    index_in, lemma_index_in, lemma_inserted_view, lemma_lookup_view, lemma_removed_view, lookup,
};

verus! {

/// Shorten a phone number for display: `+15551234567` gives `+1***4567`.
pub fn short_name(number: &str) -> (r: String)
    ensures
        r@ == short_name_of(number@),
{
    if number.as_bytes().len() > 6 {
        match head_of(number, 2) {
            Some(head) => match tail_of(number, 4) {
                Some(tail) => text::concat3(head, "***", tail),
                None => String::from_str(number),
            },
            None => String::from_str(number),
        }
    } else {
        String::from_str(number)
    }
}

/// Convert a local file path to a `file:///` URI with forward slashes.
pub fn path_to_file_uri(path: &str) -> (r: String)
    ensures
        r@ == file_uri(path@),
{
    let v = text::chars(path);
    let mut normalized: Vec<char> = Vec::new();
    let mut i: usize = 0;
    while i < v.len()
        invariant
            i <= v.len(),
            normalized@ == text::replace_char(v@.take(i as int), '\\', '/'),
        decreases v.len() - i,
    {
        let c = if v[i] == '\\' {
            '/'
        } else {
            v[i]
        };
        normalized.push(c);
        proof {
            assert(normalized@ =~= text::replace_char(v@.take(i + 1), '\\', '/'));
        }
        i += 1;
    }
    proof {
        assert(v@.take(v@.len() as int) =~= v@);
    }
    let tail = text::from_chars(&normalized, 0, normalized.len());
    proof {
        assert(normalized@.subrange(0, normalized@.len() as int) =~= normalized@);
    }
    if normalized.len() > 0 && normalized[0] == '/' {
        text::concat("file://", tail.as_str())
    } else {
        text::concat("file:///", tail.as_str())
    }
}

/// Extract a local file path from a `file:///` URI string.
pub fn file_uri_to_path(uri: &str) -> (r: String)
    ensures
        r@ == uri_path(uri@),
{
    let trimmed = text::trim(uri);
    let v = text::chars(trimmed.as_str());
    let long = text::chars("file:///");
    let short = text::chars("file://");
    proof {
        reveal_strlit("file:///");
        reveal_strlit("file://");
    }
    if text::occurs_at_exec(&v, &long, 0) {
        proof {
            assert(v@.skip(8) =~= v@.subrange(8, v@.len() as int));
        }
        text::from_chars(&v, 8, v.len())
    } else if text::occurs_at_exec(&v, &short, 0) {
        proof {
            assert(v@.skip(7) =~= v@.subrange(7, v@.len() as int));
        }
        text::from_chars(&v, 7, v.len())
    } else {
        trimmed
    }
}

/// The characters `v[from..]` without the `c`s at their end, as a string.
fn strip_trailing_from(v: &Vec<char>, from: usize, c: char) -> (r: String)
    requires
        from <= v.len(),
    ensures
        r@ == strip_trailing(v@.skip(from as int), c),
{
    let mut end: usize = v.len();
    proof {
        assert(v@.skip(from as int) =~= v@.subrange(from as int, end as int));
    }
    while end > from && v[end - 1] == c
        invariant
            from <= end <= v.len(),
            strip_trailing(v@.skip(from as int), c)
                == strip_trailing(v@.subrange(from as int, end as int), c),
        decreases end,
    {
        proof {
            let part = v@.subrange(from as int, end as int);
            assert(part.last() == v@[end - 1]);
            assert(part.drop_last() =~= v@.subrange(from as int, end - 1));
        }
        end -= 1;
    }
    proof {
        let part = v@.subrange(from as int, end as int);
        if end > from {
            assert(part.last() == v@[end - 1]);
        }
    }
    text::from_chars(v, from, end)
}

/// The path of the image that a stored timeline entry shows, as far as the
/// entry's text tells. Whether the file is still there is for the caller
/// to find out.
pub fn image_path_in_body(body: &str) -> (r: Option<String>)
    ensures
        opt_view(r) == stored_image_path(body@),
{
    let v = text::chars(body);
    let marker = text::chars("[image:");
    if !text::occurs_at_exec(&v, &marker, 0) {
        return None;
    }
    let scheme = text::chars("file:///");
    let arrow = text::chars(" -> ");
    proof {
        reveal_strlit(" -> ");
    }
    let at_uri = text::find_from_exec(&v, &scheme, 0);
    if at_uri < v.len() {
        let uri = strip_trailing_from(&v, at_uri, ')');
        return Some(file_uri_to_path(uri.as_str()));
    }
    let at_arrow = text::find_from_exec(&v, &arrow, 0);
    if at_arrow < v.len() {
        proof {
            text::lemma_find_from(v@, arrow@, 0);
        }
        return Some(strip_trailing_from(&v, at_arrow + 4, ']'));
    }
    None
}

/// Whether `key` is among the strings.
pub fn contains_str(list: &Vec<String>, key: &str) -> (r: bool)
    ensures
        r == listed(views(list@), key@),
{
    let mut i: usize = 0;
    while i < list.len()
        invariant
            i <= list.len(),
            forall|j: int| 0 <= j < i ==> views(list@)[j] != key@,
        decreases list.len() - i,
    {
        if list[i].as_str().eq(key) {
            proof {
                lemma_index_in(views(list@), key@);
                assert(views(list@)[i as int] == key@);
            }
            return true;
        }
        i += 1;
    }
    proof {
        lemma_index_in(views(list@), key@);
    }
    false
}

/// The index of the first string that equals `key`.
pub fn position_str(list: &Vec<String>, key: &str) -> (r: Option<usize>)
    ensures
        match r {
            Some(i) => i == index_in(views(list@), key@) && i < list@.len(),
            None => index_in(views(list@), key@) == -1,
        },
{
    let mut i: usize = 0;
    while i < list.len()
        invariant
            i <= list.len(),
            forall|j: int| 0 <= j < i ==> views(list@)[j] != key@,
        decreases list.len() - i,
    {
        if list[i].as_str().eq(key) {
            proof {
                lemma_index_in(views(list@), key@);
                assert(views(list@)[i as int] == key@);
            }
            return Some(i);
        }
        i += 1;
    }
    proof {
        lemma_index_in(views(list@), key@);
    }
    None
}

/// Whether the MIME type is one of the image types that are shown inline.
pub fn is_image(content_type: &str) -> (r: bool)
    ensures
        r == is_image_type(content_type@),
{
    content_type.eq("image/jpeg") || content_type.eq("image/png") || content_type.eq("image/gif")
        || content_type.eq("image/webp")
}

/// The key of the conversation that a message belongs to.
///
/// In order: the group id; for a message that the user sent from another
/// device, the destination (without one the message has no key and is
/// dropped); the sender.
pub fn resolve_conversation_key(msg: &SignalMessage) -> (r: Option<String>)
    ensures
        opt_view(r) == message_key(msg@),
{
    match &msg.group_id {
        Some(g) => Some(g.clone()),
        None => {
            if msg.is_outgoing {
                match &msg.destination {
                    Some(d) => Some(d.clone()),
                    None => None,
                }
            } else {
                Some(msg.source.clone())
            }
        },
    }
}

impl Reconciler {
    /// Remembers `name` for `key`, unless a name is known already.
    pub fn learn_name(&mut self, key: &str, name: &Option<String>)
        requires
            old(self).wf(),
        ensures
            final(self).wf(),
            final(self)@ == (ReconcilerView {
                names: learned(old(self)@.names, key@, opt_view(*name)),
                ..old(self)@
            }),
            *final(self) == (Reconciler { contact_names: final(self).contact_names, ..*old(self) }),
    {
        match name {
            Some(n) => {
                if !self.contact_names.contains_key(key) {
                    let ghost before = self.contact_names;
                    let value = n.clone();
                    self.contact_names.insert(String::from_str(key), value);
                    proof {
                        lemma_inserted_view(before, self.contact_names, key@, value);
                    }
                }
            },
            None => {},
        }
    }

    /// The display name known for a number or group id.
    pub fn known_name(&self, key: &str) -> (r: Option<&String>)
        ensures
            opt_view(match r {
                Some(s) => Some(*s),
                None => None,
            }) == lookup(self@.names, key@),
    {
        proof {
            lemma_lookup_view(self.contact_names, key@);
        }
        self.contact_names.get(key)
    }

    /// Makes sure that there is a conversation for `id`, and returns its
    /// index in the table.
    ///
    /// A second conversation for a key is never created. An existing
    /// conversation keeps everything but its name, which becomes `name`
    /// where that is not empty and differs from the current one. A new
    /// conversation starts without messages, at the end of the sidebar.
    pub fn get_or_create_conversation(&mut self, id: &str, name: &str, is_group: bool) -> (r: usize)
        requires
            old(self).wf(),
        ensures
            final(self).wf(),
            final(self)@ == conversation_ensured(old(self)@, id@, name@, is_group),
            r == index_in(final(self)@.ledger.keys, id@),
            r < final(self).conversations.entries@.len(),
            *final(self) == (Reconciler {
                conversations: final(self).conversations,
                conversation_order: final(self).conversation_order,
                db_ops: final(self).db_ops,
                ..*old(self)
            }),
    {
        let ghost before = self@;
        proof {
            lemma_index_in(before.ledger.keys, id@);
        }
        match self.conversations.find(id) {
            Some(p) => {
                if !name.is_empty() && !self.conversations.entries[p].1.name.as_str().eq(name) {
                    self.conversations.entries[p].1.name = String::from_str(name);
                    let op = DbOp::UpsertConversation {
                        id: String::from_str(id),
                        name: String::from_str(name),
                        is_group,
                    };
                    proof {
                        lemma_views_push(self.db_ops@, op);
                    }
                    self.db_ops.push(op);
                    proof {
                        let l = before.ledger;
                        assert(self@.ledger.keys =~= l.keys);
                        assert(self@.ledger.convs =~= l.convs.update(
                            p as int,
                            ConversationView { name: name@, ..l.convs[p as int] },
                        ));
                        assert(conversation_wf(self.conversations.entries@[p as int].1@)) by {
                            assert(self.conversations.entries@[p as int].1@.messages
                                == old(self).conversations.entries@[p as int].1@.messages);
                            assert(conversation_wf(old(self).conversations.entries@[p as int].1@));
                        }
                    }
                }
                p
            },
            None => {
                let conv = Conversation {
                    name: String::from_str(name),
                    id: String::from_str(id),
                    messages: Vec::new(),
                    unread: 0,
                    is_group,
                };
                proof {
                    assert(conv@.messages =~= Seq::<MessageView>::empty());
                    assert(conv@ == fresh_conversation(id@, name@, is_group));
                }
                let key = String::from_str(id);
                self.conversations.insert(key, conv);
                let in_order = String::from_str(id);
                proof {
                    lemma_views_push(self.conversation_order@, in_order);
                }
                self.conversation_order.push(in_order);
                let op = DbOp::UpsertConversation {
                    id: String::from_str(id),
                    name: String::from_str(name),
                    is_group,
                };
                proof {
                    lemma_views_push(self.db_ops@, op);
                }
                self.db_ops.push(op);
                proof {
                    let l = before.ledger;
                    assert(self@.ledger.keys =~= l.keys.push(id@));
                    assert(self@.ledger.convs =~= l.convs.push(
                        fresh_conversation(id@, name@, is_group),
                    ));
                    lemma_index_in(self@.ledger.keys, id@);
                }
                self.conversations.entries.len() - 1
            },
        }
    }
}

/// The text that stands for an attachment in the timeline:
/// `[image: name](uri)` for an image, `[attachment: name](uri)` for any
/// other file, without the URI where the file is not on this machine.
pub fn attachment_text(att: &Attachment) -> (r: String)
    ensures
        r@ == attachment_notice(att@),
{
    let label: &str = match &att.filename {
        Some(f) => f.as_str(),
        None => att.content_type.as_str(),
    };
    let mut out = if is_image(att.content_type.as_str()) {
        text::concat3("[image: ", label, "]")
    } else {
        text::concat3("[attachment: ", label, "]")
    };
    match &att.local_path {
        Some(p) => {
            let uri = path_to_file_uri(p.as_str());
            let info = text::concat3("(", uri.as_str(), ")");
            out.append(info.as_str());
        },
        None => {
            proof {
                assert(out@ + Seq::<char>::empty() =~= out@);
            }
        },
    }
    out
}

impl Reconciler {
    /// Appends an entry to the timeline of conversation `index` and queues
    /// it for writing under `key`.
    fn push_entry(&mut self, index: usize, key: &str, entry: DisplayMessage)
        requires
            old(self).wf(),
            index < old(self).conversations.entries@.len(),
            message_wf(entry@),
        ensures
            final(self).wf(),
            final(self)@ == entries_appended(old(self)@, index as int, key@, seq![entry@]),
            final(self).conversations.entries@.len() == old(self).conversations.entries@.len(),
            *final(self) == (Reconciler {
                conversations: final(self).conversations,
                db_ops: final(self).db_ops,
                ..*old(self)
            }),
    {
        let ghost before = self@;
        let ghost conv_before = self.conversations.entries@[index as int].1@;
        let op = DbOp::InsertMessage {
            conv_id: String::from_str(key),
            sender: entry.sender.clone(),
            timestamp: entry.timestamp,
            body: entry.body.clone(),
            is_system: entry.is_system,
            status: entry.status,
            timestamp_ms: entry.timestamp_ms,
        };
        proof {
            lemma_views_push(self.db_ops@, op);
            lemma_views_push(self.conversations.entries@[index as int].1.messages@, entry);
        }
        self.db_ops.push(op);
        self.conversations.entries[index].1.messages.push(entry);
        proof {
            let conv_after = self.conversations.entries@[index as int].1@;
            assert(conv_after.messages =~= conv_before.messages + seq![entry@]);
            assert(conversation_wf(conv_after)) by {
                assert forall|k: int| 0 <= k < conv_after.messages.len() implies message_wf(
                    #[trigger] conv_after.messages[k],
                ) by {
                    if k < conv_before.messages.len() {
                        assert(conv_after.messages[k] == conv_before.messages[k]);
                    }
                }
            }
            assert(self@.ledger.keys =~= before.ledger.keys);
            assert(self@.ledger.convs =~= before.ledger.convs.update(
                index as int,
                ConversationView { messages: conv_before.messages + seq![entry@], ..conv_before },
            ));
            assert(insert_ops(key@, seq![entry@]) =~= seq![insert_op(key@, entry@)]);
            assert(self@.ledger.ops =~= before.ledger.ops + insert_ops(key@, seq![entry@]));
        }
    }

    /// Takes note of an arrival in conversation `index`.
    fn note_arrival(&mut self, index: usize, counts: bool, rings: bool)
        requires
            old(self).wf(),
            index < old(self).conversations.entries@.len(),
        ensures
            final(self).wf(),
            final(self)@ == arrival_noted(old(self)@, index as int, counts, rings),
            *final(self) == (Reconciler {
                conversations: final(self).conversations,
                pending_bell: final(self).pending_bell,
                ..*old(self)
            }),
    {
        let ghost before = self@;
        let ghost conv_before = self.conversations.entries@[index as int].1@;
        if counts {
            if self.conversations.entries[index].1.unread < usize::MAX {
                self.conversations.entries[index].1.unread += 1;
            }
        }
        if rings {
            self.pending_bell = true;
        }
        proof {
            let conv_after = self.conversations.entries@[index as int].1@;
            assert(conv_after.messages == conv_before.messages);
            assert(self@.ledger.keys =~= before.ledger.keys);
            assert(self@.ledger.convs =~= before.ledger.convs.update(
                index as int,
                ConversationView {
                    unread: if counts {
                        one_more(conv_before.unread)
                    } else {
                        conv_before.unread
                    },
                    ..conv_before
                },
            ));
        }
    }

    /// Handles a message from the backend: an incoming one, or one that the
    /// user sent from another device.
    ///
    /// The message is filed under its key (see [`resolve_conversation_key`])
    /// and dropped where it has none. The conversation is created if it is
    /// new. Its name is, in order, the group's name for a group, the
    /// sender's name for a 1:1 chat, the name known for the key, the key
    /// itself; an existing conversation is never renamed to the bare key.
    /// The text and one notice per attachment enter the timeline and are
    /// queued for writing. An incoming message in a conversation that is not
    /// the active one counts as unread and rings the bell, unless
    /// notifications are off for that kind of conversation or the
    /// conversation is muted.
    pub fn handle_message(&mut self, msg: SignalMessage)
        requires
            old(self).wf(),
        ensures
            final(self).wf(),
            final(self)@ == message_handled(old(self)@, msg@),
            *final(self) == (Reconciler {
                conversations: final(self).conversations,
                conversation_order: final(self).conversation_order,
                contact_names: final(self).contact_names,
                pending_bell: final(self).pending_bell,
                db_ops: final(self).db_ops,
                ..*old(self)
            }),
    {
        let ghost w = self@;
        let ghost m = msg@;
        let conv_id = match resolve_conversation_key(&msg) {
            Some(k) => k,
            None => {
                return ;
            },
        };
        if !msg.is_outgoing {
            self.learn_name(msg.source.as_str(), &msg.source_name);
        }
        let ghost names = self@.names;
        let is_group = msg.group_id.is_some();
        let conv_name: String = if is_group && msg.group_name.is_some() {
            match &msg.group_name {
                Some(n) => n.clone(),
                None => String::new(),
            }
        } else if !is_group && msg.source_name.is_some() {
            match &msg.source_name {
                Some(n) => n.clone(),
                None => String::new(),
            }
        } else {
            match self.known_name(conv_id.as_str()) {
                Some(n) => n.clone(),
                None => match self.conversations.find(conv_id.as_str()) {
                    Some(p) => self.conversations.entries[p].1.name.clone(),
                    None => conv_id.clone(),
                },
            }
        };
        proof {
            lemma_index_in(w.ledger.keys, conv_id@);
            assert(conv_name@ == resolved_name(
                w.ledger,
                conv_id@,
                name_candidate(m, lookup(names, conv_id@)),
            ));
        }
        let sender: String = if msg.is_outgoing {
            String::from_str("you")
        } else {
            match &msg.source_name {
                Some(n) => n.clone(),
                None => match self.known_name(msg.source.as_str()) {
                    Some(n) => n.clone(),
                    None => short_name(msg.source.as_str()),
                },
            }
        };
        assert(sender@ == sender_display(m, names));
        let is_active = match &self.active_conversation {
            Some(a) => a.as_str().eq(conv_id.as_str()),
            None => false,
        };
        let counts = !is_active && !msg.is_outgoing;
        let type_enabled = if is_group {
            self.notify_group
        } else {
            self.notify_direct
        };
        let rings = counts && type_enabled && !contains_str(
            &self.muted_conversations,
            conv_id.as_str(),
        );
        let index = self.get_or_create_conversation(conv_id.as_str(), conv_name.as_str(), is_group);
        let ghost w1 = self@;
        let status = if msg.is_outgoing {
            Some(MessageStatus::Sent)
        } else {
            None
        };
        let ghost mut done: Seq<MessageView> = Seq::empty();
        proof {
            assert(entries_appended(w1, index as int, conv_id@, done) == w1) by {
                let conv = w1.ledger.convs[index as int];
                assert(conv.messages + done =~= conv.messages);
                assert(w1.ledger.convs.update(
                    index as int,
                    ConversationView { messages: conv.messages + done, ..conv },
                ) =~= w1.ledger.convs);
                assert(w1.ledger.ops + insert_ops(conv_id@, done) =~= w1.ledger.ops);
            }
        }
        match &msg.body {
            Some(body) => {
                let entry = DisplayMessage {
                    sender: sender.clone(),
                    timestamp: msg.timestamp,
                    body: body.clone(),
                    is_system: false,
                    image_path: None,
                    status,
                    timestamp_ms: msg.timestamp,
                    reactions: Vec::new(),
                };
                proof {
                    assert(entry@.reactions =~= Seq::empty());
                    assert(entry@ == timeline_entry(m, sender@, body@, None));
                    lemma_entries_appended_push(w1, index as int, conv_id@, done, entry@);
                    done = done.push(entry@);
                }
                self.push_entry(index, conv_id.as_str(), entry);
            },
            None => {},
        }
        let ghost text_part = done;
        let mut k: usize = 0;
        proof {
            assert(text_part + attachment_entries(m, sender@, 0) =~= text_part);
        }
        while k < msg.attachments.len()
            invariant
                k <= msg.attachments@.len(),
                m == msg@,
                self.wf(),
                index < self.conversations.entries@.len(),
                index < w1.ledger.convs.len(),
                done == text_part + attachment_entries(m, sender@, k as int),
                self@ == entries_appended(w1, index as int, conv_id@, done),
                status == arrival_status(m),
                *self == (Reconciler {
                    conversations: self.conversations,
                    conversation_order: self.conversation_order,
                    contact_names: self.contact_names,
                    pending_bell: self.pending_bell,
                    db_ops: self.db_ops,
                    ..*old(self)
                }),
            decreases msg.attachments@.len() - k,
        {
            let att = &msg.attachments[k];
            let body = attachment_text(att);
            let image_path = if is_image(att.content_type.as_str()) {
                match &att.local_path {
                    Some(p) => Some(p.clone()),
                    None => None,
                }
            } else {
                None
            };
            let entry = DisplayMessage {
                sender: sender.clone(),
                timestamp: msg.timestamp,
                body,
                is_system: false,
                image_path,
                status,
                timestamp_ms: msg.timestamp,
                reactions: Vec::new(),
            };
            proof {
                assert(m.attachments[k as int] == att@);
                assert(entry@.reactions =~= Seq::empty());
                assert(entry@ == attachment_entry(m, sender@, att@));
                lemma_entries_appended_push(w1, index as int, conv_id@, done, entry@);
                assert(text_part + attachment_entries(m, sender@, k + 1) =~= done.push(entry@));
                done = done.push(entry@);
            }
            self.push_entry(index, conv_id.as_str(), entry);
            k += 1;
        }
        proof {
            assert(done == timeline_entries(m, sender@));
        }
        self.note_arrival(index, counts, rings);
    }
}

/// Appending one more entry is appending to what was appended before.
pub proof fn lemma_entries_appended_push(
    w: ReconcilerView,
    p: int,
    key: Seq<char>,
    entries: Seq<MessageView>,
    entry: MessageView,
)
    requires
        0 <= p < w.ledger.convs.len(),
    ensures
        entries_appended(entries_appended(w, p, key, entries), p, key, seq![entry])
            == entries_appended(w, p, key, entries.push(entry)),
{
    let conv = w.ledger.convs[p];
    let mid = entries_appended(w, p, key, entries);
    let lhs = entries_appended(mid, p, key, seq![entry]);
    let rhs = entries_appended(w, p, key, entries.push(entry));
    assert((conv.messages + entries) + seq![entry] =~= conv.messages + entries.push(entry));
    assert(lhs.ledger.convs =~= rhs.ledger.convs);
    assert(insert_ops(key, entries.push(entry)) =~= insert_ops(key, entries) + insert_ops(
        key,
        seq![entry],
    ));
    assert(lhs.ledger.ops =~= rhs.ledger.ops);
}

impl Reconciler {
    /// Handles one entry of the contact list.
    fn apply_contact(&mut self, contact: &Contact)
        requires
            old(self).wf(),
        ensures
            final(self).wf(),
            final(self)@ == contact_step(old(self)@, contact@),
            *final(self) == (Reconciler {
                conversations: final(self).conversations,
                contact_names: final(self).contact_names,
                db_ops: final(self).db_ops,
                ..*old(self)
            }),
    {
        let ghost w = self@;
        let name = match &contact.name {
            Some(n) => n,
            None => {
                return ;
            },
        };
        if name.as_str().is_empty() {
            return ;
        }
        let ghost names_before = self.contact_names;
        let value = name.clone();
        self.contact_names.insert(contact.number.clone(), value);
        proof {
            lemma_inserted_view(names_before, self.contact_names, contact.number@, value);
            lemma_index_in(w.ledger.keys, contact.number@);
        }
        match self.conversations.find(contact.number.as_str()) {
            Some(p) => {
                if !self.conversations.entries[p].1.name.as_str().eq(name.as_str()) {
                    self.conversations.entries[p].1.name = name.clone();
                    let op = DbOp::UpsertConversation {
                        id: contact.number.clone(),
                        name: name.clone(),
                        is_group: false,
                    };
                    proof {
                        lemma_views_push(self.db_ops@, op);
                    }
                    self.db_ops.push(op);
                    proof {
                        let l = w.ledger;
                        assert(self@.ledger.keys =~= l.keys);
                        assert(self@.ledger.convs =~= l.convs.update(
                            p as int,
                            ConversationView { name: name@, ..l.convs[p as int] },
                        ));
                        assert(conversation_wf(self.conversations.entries@[p as int].1@)) by {
                            assert(self.conversations.entries@[p as int].1@.messages
                                == old(self).conversations.entries@[p as int].1@.messages);
                            assert(conversation_wf(old(self).conversations.entries@[p as int].1@));
                        }
                    }
                }
            },
            None => {},
        }
    }

    /// Handles the list of contacts.
    ///
    /// Each name that is not empty is remembered, and becomes the name of
    /// the contact's conversation where there is one and it differs. A
    /// contact never gets a conversation by being listed: only messages
    /// create those.
    pub fn handle_contact_list(&mut self, contacts: Vec<Contact>)
        requires
            old(self).wf(),
        ensures
            final(self).wf(),
            final(self)@ == contacts_handled(old(self)@, views(contacts@)),
            *final(self) == (Reconciler {
                conversations: final(self).conversations,
                contact_names: final(self).contact_names,
                db_ops: final(self).db_ops,
                ..*old(self)
            }),
    {
        let ghost start = *self;
        let ghost all = views(contacts@);
        let mut k: usize = 0;
        proof {
            assert(all.take(0) =~= Seq::<ContactView>::empty());
        }
        while k < contacts.len()
            invariant
                k <= contacts@.len(),
                all == views(contacts@),
                self.wf(),
                self@ == contacts_handled(start@, all.take(k as int)),
                *self == (Reconciler {
                    conversations: self.conversations,
                    contact_names: self.contact_names,
                    db_ops: self.db_ops,
                    ..start
                }),
            decreases contacts@.len() - k,
        {
            proof {
                assert(all.take(k + 1).drop_last() =~= all.take(k as int));
                assert(all.take(k + 1).last() == contacts@[k as int]@);
            }
            self.apply_contact(&contacts[k]);
            k += 1;
        }
        proof {
            assert(all.take(all.len() as int) =~= all);
        }
    }

    /// Handles one entry of the group list.
    fn apply_group(&mut self, group: &Group)
        requires
            old(self).wf(),
        ensures
            final(self).wf(),
            final(self)@ == group_step(old(self)@, group@),
            *final(self) == (Reconciler {
                conversations: final(self).conversations,
                conversation_order: final(self).conversation_order,
                contact_names: final(self).contact_names,
                db_ops: final(self).db_ops,
                ..*old(self)
            }),
    {
        if !group.name.as_str().is_empty() {
            let ghost names_before = self.contact_names;
            let value = group.name.clone();
            self.contact_names.insert(group.id.clone(), value);
            proof {
                lemma_inserted_view(names_before, self.contact_names, group.id@, value);
            }
        }
        self.get_or_create_conversation(group.id.as_str(), group.name.as_str(), true);
    }

    /// Handles the list of groups.
    ///
    /// Each name that is not empty is remembered. Every listed group has a
    /// conversation afterwards: one that existed keeps its messages and gets
    /// the listed name where that is not empty and differs; one that did not
    /// exist is created.
    pub fn handle_group_list(&mut self, groups: Vec<Group>)
        requires
            old(self).wf(),
        ensures
            final(self).wf(),
            final(self)@ == groups_handled(old(self)@, views(groups@)),
            *final(self) == (Reconciler {
                conversations: final(self).conversations,
                conversation_order: final(self).conversation_order,
                contact_names: final(self).contact_names,
                db_ops: final(self).db_ops,
                ..*old(self)
            }),
    {
        let ghost start = *self;
        let ghost all = views(groups@);
        let mut k: usize = 0;
        proof {
            assert(all.take(0) =~= Seq::<GroupView>::empty());
        }
        while k < groups.len()
            invariant
                k <= groups@.len(),
                all == views(groups@),
                self.wf(),
                self@ == groups_handled(start@, all.take(k as int)),
                *self == (Reconciler {
                    conversations: self.conversations,
                    conversation_order: self.conversation_order,
                    contact_names: self.contact_names,
                    db_ops: self.db_ops,
                    ..start
                }),
            decreases groups@.len() - k,
        {
            proof {
                assert(all.take(k + 1).drop_last() =~= all.take(k as int));
                assert(all.take(k + 1).last() == groups@[k as int]@);
            }
            self.apply_group(&groups[k]);
            k += 1;
        }
        proof {
            assert(all.take(all.len() as int) =~= all);
        }
    }

    /// Handles a typing indicator that arrived at `now`: the sender's name
    /// is remembered, and the sender is typing since `now`, or no longer.
    pub fn handle_typing(
        &mut self,
        sender: &str,
        sender_name: &Option<String>,
        is_typing: bool,
        now: i64,
    )
        requires
            old(self).wf(),
        ensures
            final(self).wf(),
            final(self)@ == typing_handled(old(self)@, sender@, opt_view(*sender_name), is_typing, now),
            *final(self) == (Reconciler {
                contact_names: final(self).contact_names,
                typing_indicators: final(self).typing_indicators,
                ..*old(self)
            }),
    {
        self.learn_name(sender, sender_name);
        let ghost before = self.typing_indicators;
        if is_typing {
            self.typing_indicators.insert(String::from_str(sender), now);
            proof {
                lemma_inserted_view(before, self.typing_indicators, sender@, now);
            }
        } else {
            self.typing_indicators.remove(sender);
            proof {
                lemma_removed_view(before, self.typing_indicators, sender@);
            }
        }
    }
}

impl Conversation {
    /// Brings a stored conversation up to date after a restart: a message
    /// that was still `Sending` becomes `Sent`.
    pub fn promote_stale(&mut self)
        ensures
            final(self)@ == conversation_reloaded(old(self)@),
    {
        let mut i: usize = 0;
        let ghost start = self@;
        while i < self.messages.len()
            invariant
                i <= self.messages@.len(),
                self.messages@.len() == start.messages.len(),
                self@ == (ConversationView { messages: self@.messages, ..start }),
                forall|k: int|
                    0 <= k < i ==> self@.messages[k] == message_reloaded(
                        start.messages[k],
                    ),
                forall|k: int| i <= k < start.messages.len() ==> self@.messages[k] == start.messages[k],
            decreases self.messages@.len() - i,
        {
            let ghost before = self.messages@;
            let ghost before_view = self@.messages;
            let stale = match self.messages[i].status {
                Some(s) => s.to_i32() == MessageStatus::Sending.to_i32(),
                None => false,
            };
            if stale {
                self.messages[i].status = Some(MessageStatus::Sent);
            }
            proof {
                assert(before[i as int]@ == start.messages[i as int]);
                assert(self.messages@[i as int]@ == message_reloaded(
                    start.messages[i as int],
                ));
                assert forall|k: int| 0 <= k < self.messages@.len() && k != i implies self.messages@[k]
                    == before[k] by {}
                assert forall|k: int| 0 <= k < i implies self@.messages[k]
                    == message_reloaded(start.messages[k]) by {
                    assert(self.messages@[k] == before[k]);
                    assert(self@.messages[k] == before_view[k]);
                }
                assert forall|k: int| i < k < start.messages.len() implies self@.messages[k]
                    == start.messages[k] by {
                    assert(self.messages@[k] == before[k]);
                    assert(self@.messages[k] == before_view[k]);
                }
            }
            i += 1;
        }
        proof {
            assert(self@.messages =~= conversation_reloaded(start).messages);
        }
    }
}

/// A stored conversation is well formed after a restart as it was before.
pub proof fn lemma_reloaded_wf(c: ConversationView)
    requires
        conversation_wf(c),
    ensures
        conversation_wf(conversation_reloaded(c)),
{
    let d = conversation_reloaded(c);
    assert forall|k: int| 0 <= k < d.messages.len() implies message_wf(
        #[trigger] d.messages[k],
    ) by {
        assert(message_wf(c.messages[k]));
    }
}

impl Reconciler {
    /// Takes a stored conversation into the table, in place of one with
    /// the same id or at the end; see
    /// [`conversation_loaded`].
    pub fn load_conversation(&mut self, conv: Conversation)
        requires
            old(self).wf(),
            conversation_wf(conv@),
        ensures
            final(self).wf(),
            final(self)@.ledger == conversation_loaded(
                old(self)@.ledger,
                conv@,
            ),
            *final(self) == (Reconciler { conversations: final(self).conversations, ..*old(self) }),
    {
        let ghost before = self@.ledger;
        let ghost stored = conv@;
        let mut conv = conv;
        conv.promote_stale();
        proof {
            lemma_reloaded_wf(stored);
            lemma_index_in(before.keys, stored.id);
        }
        let key = conv.id.clone();
        let ghost old_entries = self.conversations.entries@;
        self.conversations.insert(key, conv);
        proof {
            let p = index_in(before.keys, stored.id);
            if 0 <= p {
                assert(self@.ledger.keys =~= before.keys);
                assert(self@.ledger.convs =~= before.convs.update(
                    p,
                    conversation_reloaded(stored),
                ));
            } else {
                assert(self@.ledger.keys =~= before.keys.push(stored.id));
                assert(self@.ledger.convs =~= before.convs.push(
                    conversation_reloaded(stored),
                ));
            }
            assert forall|i: int|
                0 <= i < self.conversations.entries@.len() implies conversation_wf(
                #[trigger] self.conversations.entries@[i].1@,
            ) by {
                if 0 <= p {
                    if i != p {
                        assert(self.conversations.entries@[i] == old_entries[i]);
                    }
                } else {
                    if i < old_entries.len() {
                        assert(self.conversations.entries@[i] == old_entries[i]);
                    }
                }
            }
        }
    }
}

} // verus!
