//! The event normalizer: from a reply or a notification of the backend to one
//! domain event, or none.
//!
//! Every function here is a total function of the JSON it is given. What the
//! backend leaves out is filled with the documented default; what it sends in
//! a shape that is not understood is dropped or surfaces as an
//! [`SignalEvent::Error`], and never stops the reader.

use vstd::prelude::*;
use vstd::utf8::{decode_utf8, encode_utf8, is_char_boundary};
use crate::text;
use crate::model::{lemma_views_push, opt_str_view, opt_view, views};
use crate::signal::json::{lookup, Json};
use crate::signal::types::{
    Attachment, AttachmentView, Contact, ContactView, Group, GroupView, JsonRpcRequest,
    JsonRpcResponse, SignalEvent, SignalEventView, SignalMessage, SignalMessageView,
};
use crate::strmap::{lemma_position, StrMap};

verus! {

/// Whether `DateTime::from_timestamp_millis` of `chrono` accepts this number
/// of milliseconds, that is, whether the instant is within the range of dates
/// that `chrono` represents.
pub uninterp spec fn millis_representable(ms: i64) -> bool;

/// The timestamp that a message carries for a number of milliseconds on the
/// wire: the number itself where it names a representable instant, and the
/// epoch where it does not.
pub open spec fn wire_millis(ms: i64) -> i64 {
    if millis_representable(ms) {
        ms
    } else {
        0
    }
}

/// `DateTime::from_timestamp_millis`, `unwrap_or_default` and
/// `DateTime::timestamp_millis` of `chrono`: a number of milliseconds that
/// names an instant in range comes back unchanged (the two conversions round
/// trip), any other gives the default instant, the Unix epoch, which is 0.
#[verifier::external_body]
fn normalize_millis(ms: i64) -> (r: i64)
    ensures
        r == (if millis_representable(ms) {
            ms
        } else {
            0
        }),
{
    chrono::DateTime::from_timestamp_millis(ms).unwrap_or_default().timestamp_millis()
}

/// The file extension for a MIME type; `bin` for one that is not known.
pub open spec fn mime_ext(mime: Seq<char>) -> Seq<char> {
    if mime == "image/jpeg"@ {
        "jpg"@
    } else if mime == "image/png"@ {
        "png"@
    } else if mime == "image/gif"@ {
        "gif"@
    } else if mime == "image/webp"@ {
        "webp"@
    } else if mime == "video/mp4"@ {
        "mp4"@
    } else if mime == "video/quicktime"@ {
        "mov"@
    } else if mime == "audio/mpeg"@ {
        "mp3"@
    } else if mime == "audio/ogg"@ {
        "ogg"@
    } else if mime == "audio/aac"@ {
        "aac"@
    } else if mime == "application/pdf"@ {
        "pdf"@
    } else if mime == "text/plain"@ {
        "txt"@
    } else {
        "bin"@
    }
}

/// Map common MIME types to file extensions.
pub fn mime_to_ext(mime: &str) -> (r: &'static str)
    ensures
        r@ == mime_ext(mime@),
{
    if mime.eq("image/jpeg") {
        "jpg"
    } else if mime.eq("image/png") {
        "png"
    } else if mime.eq("image/gif") {
        "gif"
    } else if mime.eq("image/webp") {
        "webp"
    } else if mime.eq("video/mp4") {
        "mp4"
    } else if mime.eq("video/quicktime") {
        "mov"
    } else if mime.eq("audio/mpeg") {
        "mp3"
    } else if mime.eq("audio/ogg") {
        "ogg"
    } else if mime.eq("audio/aac") {
        "aac"
    } else if mime.eq("application/pdf") {
        "pdf"
    } else if mime.eq("text/plain") {
        "txt"
    } else {
        "bin"
    }
}

/// The characters whose UTF-8 encoding is the last `n` bytes of the encoding
/// of `s`.
pub open spec fn tail_bytes(s: Seq<char>, n: int) -> Seq<char> {
    let bytes = encode_utf8(s);
    decode_utf8(bytes.subrange(bytes.len() - n, bytes.len() as int))
}

/// The characters whose UTF-8 encoding is the first `n` bytes of the encoding
/// of `s`.
pub open spec fn head_bytes(s: Seq<char>, n: int) -> Seq<char> {
    decode_utf8(encode_utf8(s).subrange(0, n))
}

/// Whether the encoding of `s` has more than `n` bytes and can be cut `n`
/// bytes before its end without cutting a character.
pub open spec fn has_tail(s: Seq<char>, n: int) -> bool {
    let bytes = encode_utf8(s);
    bytes.len() > n && is_char_boundary(bytes, bytes.len() - n)
}

/// The last `n` bytes of `s` as a string, where `s` is longer than that and
/// the cut does not fall inside a character.
pub fn tail_of(s: &str, n: usize) -> (r: Option<&str>)
    ensures
        r.is_some() == has_tail(s@, n as int),
        r matches Some(t) ==> t@ == tail_bytes(s@, n as int),
{
    let len = s.as_bytes().len();
    if len > n && s.is_char_boundary(len - n) {
        let (_, tail) = s.split_at(len - n);
        proof {
            vstd::utf8::encode_utf8_decode_utf8(tail@);
        }
        Some(tail)
    } else {
        None
    }
}

/// The first `n` bytes of `s` as a string, where `s` is at least that long
/// and the cut does not fall inside a character.
pub fn head_of(s: &str, n: usize) -> (r: Option<&str>)
    ensures
        r.is_some() == (encode_utf8(s@).len() >= n && is_char_boundary(encode_utf8(s@), n as int)),
        r matches Some(t) ==> t@ == head_bytes(s@, n as int),
{
    if s.as_bytes().len() >= n && s.is_char_boundary(n) {
        let (head, _) = s.split_at(n);
        proof {
            vstd::utf8::encode_utf8_decode_utf8(head@);
        }
        Some(head)
    } else {
        None
    }
}

/// The last eight bytes of an attachment's identifier, or all of it where it
/// is no longer than that or where the cut would fall inside a character.
pub open spec fn short_id(id: Seq<char>) -> Seq<char> {
    if has_tail(id, 8) {
        tail_bytes(id, 8)
    } else {
        id
    }
}

/// The name without its extension where the extension is doubled
/// (`photo.jpg.jpg` gives `photo.jpg`); the name itself otherwise.
pub open spec fn strip_doubled_extension(name: Seq<char>) -> Seq<char> {
    let dot = text::rfind_char(name, '.');
    if dot >= 0 && text::has_suffix(name.take(dot), name.skip(dot)) {
        name.take(dot)
    } else {
        name
    }
}

/// The name under which an attachment is stored: the one the backend gave,
/// or one made of the identifier's tail and the extension for its type;
/// either without a doubled extension.
pub open spec fn effective_name(
    id: Seq<char>,
    content_type: Seq<char>,
    filename: Option<Seq<char>>,
) -> Seq<char> {
    strip_doubled_extension(
        match filename {
            Some(name) => name,
            None => short_id(id) + "."@ + mime_ext(content_type),
        },
    )
}

/// The attachment that a JSON value describes; none where it has no `id`.
pub open spec fn attachment_of(value: Json) -> Option<AttachmentView> {
    match value.text_field("id"@) {
        None => None,
        Some(id) => {
            let content_type = match value.text_field("contentType"@) {
                Some(t) => t,
                None => "application/octet-stream"@,
            };
            Some(
                AttachmentView {
                    id,
                    content_type,
                    filename: Some(
                        effective_name(id, content_type, value.text_field("filename"@)),
                    ),
                    local_path: value.text_field("file"@),
                },
            )
        },
    }
}

/// The attachments that the elements of an array describe, in order, leaving
/// out the elements that describe none.
pub open spec fn attachments_of(items: Seq<Json>) -> Seq<AttachmentView>
    decreases items.len(),
{
    if items.len() == 0 {
        Seq::empty()
    } else {
        let rest = attachments_of(items.drop_last());
        match attachment_of(items.last()) {
            Some(a) => rest.push(a),
            None => rest,
        }
    }
}

/// The attachments listed under `attachments`; none where the member is
/// missing or no array.
pub open spec fn attachments_field(value: Json) -> Seq<AttachmentView> {
    match value.field("attachments"@) {
        Some(list) => match list.items() {
            Some(items) => attachments_of(items),
            None => Seq::empty(),
        },
        None => Seq::empty(),
    }
}

/// The integers among the elements of an array, in order.
pub open spec fn integers_of(items: Seq<Json>) -> Seq<i64>
    decreases items.len(),
{
    if items.len() == 0 {
        Seq::empty()
    } else {
        let rest = integers_of(items.drop_last());
        match items.last().integer() {
            Some(n) => rest.push(n),
            None => rest,
        }
    }
}

/// The strings among the elements of an array, in order.
pub open spec fn texts_of(items: Seq<Json>) -> Seq<Seq<char>>
    decreases items.len(),
{
    if items.len() == 0 {
        Seq::empty()
    } else {
        let rest = texts_of(items.drop_last());
        match items.last().text() {
            Some(s) => rest.push(s),
            None => rest,
        }
    }
}

/// The string member `key`, or `default` where it is missing or no string.
pub open spec fn text_or(value: Json, key: Seq<char>, default: Seq<char>) -> Seq<char> {
    match value.text_field(key) {
        Some(s) => s,
        None => default,
    }
}

/// The string member `key` of the member `outer`.
pub open spec fn nested_text(value: Json, outer: Seq<char>, key: Seq<char>) -> Option<Seq<char>> {
    match value.field(outer) {
        Some(inner) => inner.text_field(key),
        None => None,
    }
}

/// `s`, unless it is empty.
pub open spec fn non_empty(s: Option<Seq<char>>) -> Option<Seq<char>> {
    match s {
        Some(t) => if t.len() == 0 {
            None
        } else {
            Some(t)
        },
        None => None,
    }
}

/// The name of a contact: the first of `profileName`, `contactName` and
/// `name` that is a string, unless that string is empty.
pub open spec fn contact_name(entry: Json) -> Option<Seq<char>> {
    non_empty(
        match entry.text_field("profileName"@) {
            Some(s) => Some(s),
            None => match entry.text_field("contactName"@) {
                Some(s) => Some(s),
                None => entry.text_field("name"@),
            },
        },
    )
}

/// The contact that an entry of the contact list describes; none where it has
/// no `number`.
pub open spec fn contact_of(entry: Json) -> Option<ContactView> {
    match entry.text_field("number"@) {
        Some(number) => Some(ContactView { number, name: contact_name(entry) }),
        None => None,
    }
}

/// The contacts that the entries of a list describe, in order, leaving out
/// the entries that describe none.
pub open spec fn contacts_of(items: Seq<Json>) -> Seq<ContactView>
    decreases items.len(),
{
    if items.len() == 0 {
        Seq::empty()
    } else {
        let rest = contacts_of(items.drop_last());
        match contact_of(items.last()) {
            Some(c) => rest.push(c),
            None => rest,
        }
    }
}

/// The group that an entry of the group list describes; none where it has no
/// `id`.
pub open spec fn group_of(entry: Json) -> Option<GroupView> {
    match entry.text_field("id"@) {
        Some(id) => Some(
            GroupView {
                id,
                name: text_or(entry, "name"@, ""@),
                members: match entry.field("members"@) {
                    Some(list) => match list.items() {
                        Some(items) => texts_of(items),
                        None => Seq::empty(),
                    },
                    None => Seq::empty(),
                },
            },
        ),
        None => None,
    }
}

/// The groups that the entries of a list describe, in order, leaving out the
/// entries that describe none.
pub open spec fn groups_of(items: Seq<Json>) -> Seq<GroupView>
    decreases items.len(),
{
    if items.len() == 0 {
        Seq::empty()
    } else {
        let rest = groups_of(items.drop_last());
        match group_of(items.last()) {
            Some(g) => rest.push(g),
            None => rest,
        }
    }
}

/// The server's timestamp in the reply to a send: the integer member
/// `timestamp`, else the result itself where it is an integer, else 0.
pub open spec fn send_result_timestamp(result: Json) -> i64 {
    match result.int_field("timestamp"@) {
        Some(ts) => ts,
        None => match result.integer() {
            Some(ts) => ts,
            None => 0,
        },
    }
}

/// The event for the result of a request that was issued for `method`.
pub open spec fn rpc_result_event(
    method: Seq<char>,
    result: Json,
    rpc_id: Option<Seq<char>>,
) -> Option<SignalEventView> {
    if method == "send"@ {
        match rpc_id {
            Some(id) => Some(
                SignalEventView::SendTimestamp {
                    rpc_id: id,
                    server_ts: send_result_timestamp(result),
                },
            ),
            None => None,
        }
    } else if method == "listContacts"@ {
        match result.items() {
            Some(items) => Some(SignalEventView::ContactList(contacts_of(items))),
            None => None,
        }
    } else if method == "listGroups"@ {
        match result.items() {
            Some(items) => Some(SignalEventView::GroupList(groups_of(items))),
            None => None,
        }
    } else {
        None
    }
}

/// The sender of an envelope: its `sourceNumber`, or `unknown`.
pub open spec fn envelope_source(envelope: Json) -> Seq<char> {
    text_or(envelope, "sourceNumber"@, "unknown"@)
}

/// The event for an envelope that carries a typing message.
pub open spec fn typing_event(envelope: Json, typing: Json) -> SignalEventView {
    SignalEventView::TypingIndicator {
        sender: envelope_source(envelope),
        sender_name: non_empty(envelope.text_field("sourceName"@)),
        is_typing: typing.text_field("action"@) == Some("STARTED"@),
    }
}

/// The event for an envelope that carries a receipt.
pub open spec fn receipt_event(envelope: Json, receipt: Json) -> SignalEventView {
    SignalEventView::ReceiptReceived {
        sender: envelope_source(envelope),
        receipt_type: text_or(receipt, "type"@, ""@),
        timestamps: match receipt.field("timestamps"@) {
            Some(list) => match list.items() {
                Some(items) => integers_of(items),
                None => Seq::empty(),
            },
            None => Seq::empty(),
        },
    }
}

/// The message in the body `data` of an envelope: a data message, or the
/// sent message of a sync.
pub open spec fn message_of(
    envelope: Json,
    data: Json,
    source_name: Option<Seq<char>>,
    is_outgoing: bool,
    destination: Option<Seq<char>>,
) -> SignalMessageView {
    SignalMessageView {
        source: envelope_source(envelope),
        source_name,
        timestamp: wire_millis(
            match data.int_field("timestamp"@) {
                Some(ts) => ts,
                None => 0,
            },
        ),
        body: data.text_field("message"@),
        attachments: attachments_field(data),
        group_id: nested_text(data, "groupInfo"@, "groupId"@),
        group_name: nested_text(data, "groupInfo"@, "groupName"@),
        is_outgoing,
        destination,
    }
}

/// The recipient of a synced sent message: the member `destinationNumber`
/// where there is one, else the member `destination`; its string.
pub open spec fn sent_destination(sent: Json) -> Option<Seq<char>> {
    match sent.field("destinationNumber"@) {
        Some(v) => v.text(),
        None => sent.text_field("destination"@),
    }
}

/// The event for a message that the user sent from another device.
pub open spec fn sent_sync_event(envelope: Json, sent: Json) -> SignalEventView {
    SignalEventView::MessageReceived(
        message_of(envelope, sent, None, true, sent_destination(sent)),
    )
}

/// The event for a plain data message.
pub open spec fn data_message_event(envelope: Json, data: Json) -> SignalEventView {
    SignalEventView::MessageReceived(
        message_of(envelope, data, envelope.text_field("sourceName"@), false, None),
    )
}

/// Whether a member of an envelope is routing metadata, which says nothing
/// of what the envelope carries.
pub open spec fn is_routing_key(key: Seq<char>) -> bool {
    ||| key == "source"@
    ||| key == "sourceNumber"@
    ||| key == "sourceName"@
    ||| key == "sourceUuid"@
    ||| key == "sourceDevice"@
    ||| key == "timestamp"@
    ||| key == "serverReceivedTimestamp"@
    ||| key == "serverDeliveredTimestamp"@
    ||| key == "relay"@
}

/// The names of the members that are no routing metadata, in order.
pub open spec fn substantive_keys(members: Seq<(String, Json)>) -> Seq<Seq<char>>
    decreases members.len(),
{
    if members.len() == 0 {
        Seq::empty()
    } else {
        let rest = substantive_keys(members.drop_last());
        if is_routing_key(members.last().0@) {
            rest
        } else {
            rest.push(members.last().0@)
        }
    }
}

/// The parts, with `sep` between each two.
pub open spec fn joined(parts: Seq<Seq<char>>, sep: Seq<char>) -> Seq<char>
    decreases parts.len(),
{
    if parts.len() == 0 {
        Seq::empty()
    } else if parts.len() == 1 {
        parts[0]
    } else {
        joined(parts.drop_last(), sep) + sep + parts.last()
    }
}

/// The event for an envelope of a kind that is not handled: a diagnostic
/// that names its members, unless all of them are routing metadata.
pub open spec fn unhandled_envelope_event(envelope: Json) -> Option<SignalEventView> {
    let keys = match envelope.members() {
        Some(members) => substantive_keys(members),
        None => Seq::empty(),
    };
    if keys.len() > 0 {
        Some(SignalEventView::Error("unhandled envelope type: "@ + joined(keys, ", "@)))
    } else {
        None
    }
}

/// The event for an exception that the backend reports in place of an
/// envelope: a diagnostic, unless it is the known complaint about a sync
/// message without destination.
pub open spec fn exception_event(exception: Json) -> Option<SignalEventView> {
    let msg = text_or(exception, "message"@, "unknown error"@);
    if text::contains(msg, "SyncMessage missing destination"@) {
        None
    } else {
        Some(SignalEventView::Error("signal-cli: "@ + msg))
    }
}

/// The event for the parameters of a `receive` notification.
///
/// The shapes are tried in a fixed order: an exception, then an envelope
/// with a typing message, a receipt, a sync message, a data message; an
/// envelope with none of these gives a diagnostic or nothing.
pub open spec fn receive_event(params: Json) -> Option<SignalEventView> {
    match params.field("exception"@) {
        Some(exception) => exception_event(exception),
        None => match params.field("envelope"@) {
            None => None,
            Some(envelope) => match envelope.field("typingMessage"@) {
                Some(typing) => Some(typing_event(envelope, typing)),
                None => match envelope.field("receiptMessage"@) {
                    Some(receipt) => Some(receipt_event(envelope, receipt)),
                    None => match envelope.field("syncMessage"@) {
                        Some(sync) => match sync.field("sentMessage"@) {
                            Some(sent) => Some(sent_sync_event(envelope, sent)),
                            None => None,
                        },
                        None => match envelope.field("dataMessage"@) {
                            Some(data) => Some(data_message_event(envelope, data)),
                            None => unhandled_envelope_event(envelope),
                        },
                    },
                },
            },
        },
    }
}

/// The event for a notification: that of its parameters where the method is
/// `receive`, none for any other method and where method or parameters are
/// missing.
pub open spec fn notification_event(
    method: Option<Seq<char>>,
    params: Option<Json>,
) -> Option<SignalEventView> {
    match (method, params) {
        (Some(m), Some(p)) => if m == "receive"@ {
            receive_event(p)
        } else {
            None
        },
        _ => None,
    }
}

/// An owned copy of a string member, or of the default.
fn owned_text_or(value: &Json, key: &str, default: &str) -> (r: String)
    ensures
        r@ == text_or(*value, key@, default@),
{
    match value.get_str(key) {
        Some(s) => String::from_str(s),
        None => String::from_str(default),
    }
}

/// An owned copy of a string member.
fn owned_text(value: &Json, key: &str) -> (r: Option<String>)
    ensures
        opt_view(r) == value.text_field(key@),
{
    match value.get_str(key) {
        Some(s) => Some(String::from_str(s)),
        None => None,
    }
}

/// An owned copy of a string member of a member.
fn owned_nested_text(value: &Json, outer: &str, key: &str) -> (r: Option<String>)
    ensures
        opt_view(r) == nested_text(*value, outer@, key@),
{
    match value.get(outer) {
        Some(inner) => owned_text(inner, key),
        None => None,
    }
}

/// The name without a doubled extension.
fn strip_doubled(name: String) -> (r: String)
    ensures
        r@ == strip_doubled_extension(name@),
{
    let v = text::chars(name.as_str());
    match text::rfind_char_exec(&v, '.') {
        Some(dot) => {
            let base = text::sub(&v, 0, dot);
            let ext = text::sub(&v, dot, v.len());
            proof {
                assert(v@.take(dot as int) =~= v@.subrange(0, dot as int));
                assert(v@.skip(dot as int) =~= v@.subrange(dot as int, v@.len() as int));
            }
            if text::has_suffix_exec(&base, &ext) {
                text::from_chars(&v, 0, dot)
            } else {
                name
            }
        },
        None => name,
    }
}

/// The attachment that a JSON value describes; none where it has no `id`.
///
/// The file name is the one the backend gave, or one made of the last eight
/// bytes of the identifier and the extension for the type, in both cases
/// without a doubled extension. `local_path` is the backend's `file` member.
pub fn parse_attachment(value: &Json) -> (r: Option<Attachment>)
    ensures
        opt_view(r) == attachment_of(*value),
{
    let id = match value.get_str("id") {
        Some(s) => String::from_str(s),
        None => {
            return None;
        },
    };
    let content_type = owned_text_or(value, "contentType", "application/octet-stream");
    let name = match value.get_str("filename") {
        Some(s) => String::from_str(s),
        None => {
            let ext = mime_to_ext(content_type.as_str());
            let short = match tail_of(id.as_str(), 8) {
                Some(t) => t,
                None => id.as_str(),
            };
            text::concat3(short, ".", ext)
        },
    };
    let local_path = owned_text(value, "file");
    Some(Attachment { id, content_type, filename: Some(strip_doubled(name)), local_path })
}

/// The attachments listed under `attachments`.
fn parse_attachments(value: &Json) -> (r: Vec<Attachment>)
    ensures
        views(r@) == attachments_field(*value),
{
    let mut out: Vec<Attachment> = Vec::new();
    let items = match value.get("attachments") {
        Some(list) => match list.as_array() {
            Some(items) => items,
            None => {
                assert(views(out@) =~= Seq::<AttachmentView>::empty());
                return out;
            },
        },
        None => {
            assert(views(out@) =~= Seq::<AttachmentView>::empty());
            return out;
        },
    };
    let mut i: usize = 0;
    assert(views(out@) =~= attachments_of(items@.take(0)));
    while i < items.len()
        invariant
            i <= items.len(),
            views(out@) == attachments_of(items@.take(i as int)),
        decreases items.len() - i,
    {
        proof {
            assert(items@.take(i + 1).drop_last() =~= items@.take(i as int));
            assert(items@.take(i + 1).last() == items@[i as int]);
        }
        match parse_attachment(&items[i]) {
            Some(a) => {
                proof {
                    lemma_views_push(out@, a);
                }
                out.push(a);
            },
            None => {},
        }
        i += 1;
    }
    proof {
        assert(items@.take(items@.len() as int) =~= items@);
    }
    out
}

/// The integers among the elements of the array under `key`.
fn parse_integers(value: &Json, key: &str) -> (r: Vec<i64>)
    ensures
        r@ == match value.field(key@) {
            Some(list) => match list.items() {
                Some(items) => integers_of(items),
                None => Seq::empty(),
            },
            None => Seq::empty(),
        },
{
    let mut out: Vec<i64> = Vec::new();
    let items = match value.get(key) {
        Some(list) => match list.as_array() {
            Some(items) => items,
            None => {
                return out;
            },
        },
        None => {
            return out;
        },
    };
    let mut i: usize = 0;
    assert(out@ =~= integers_of(items@.take(0)));
    while i < items.len()
        invariant
            i <= items.len(),
            out@ == integers_of(items@.take(i as int)),
        decreases items.len() - i,
    {
        proof {
            assert(items@.take(i + 1).drop_last() =~= items@.take(i as int));
            assert(items@.take(i + 1).last() == items@[i as int]);
        }
        match items[i].as_i64() {
            Some(n) => {
                out.push(n);
            },
            None => {},
        }
        i += 1;
    }
    proof {
        assert(items@.take(items@.len() as int) =~= items@);
    }
    out
}

/// The strings among the elements of the array under `key`.
fn parse_texts(value: &Json, key: &str) -> (r: Vec<String>)
    ensures
        views(r@) == match value.field(key@) {
            Some(list) => match list.items() {
                Some(items) => texts_of(items),
                None => Seq::empty(),
            },
            None => Seq::empty(),
        },
{
    let mut out: Vec<String> = Vec::new();
    let items = match value.get(key) {
        Some(list) => match list.as_array() {
            Some(items) => items,
            None => {
                assert(views(out@) =~= Seq::<Seq<char>>::empty());
                return out;
            },
        },
        None => {
            assert(views(out@) =~= Seq::<Seq<char>>::empty());
            return out;
        },
    };
    let mut i: usize = 0;
    assert(views(out@) =~= texts_of(items@.take(0)));
    while i < items.len()
        invariant
            i <= items.len(),
            views(out@) == texts_of(items@.take(i as int)),
        decreases items.len() - i,
    {
        proof {
            assert(items@.take(i + 1).drop_last() =~= items@.take(i as int));
            assert(items@.take(i + 1).last() == items@[i as int]);
        }
        match items[i].as_str() {
            Some(s) => {
                let owned = String::from_str(s);
                proof {
                    lemma_views_push(out@, owned);
                }
                out.push(owned);
            },
            None => {},
        }
        i += 1;
    }
    proof {
        assert(items@.take(items@.len() as int) =~= items@);
    }
    out
}

/// The message in the body `data` of an envelope.
fn parse_message(
    envelope: &Json,
    data: &Json,
    source_name: Option<String>,
    is_outgoing: bool,
    destination: Option<String>,
) -> (r: SignalMessage)
    ensures
        r@ == message_of(
            *envelope,
            *data,
            opt_view(source_name),
            is_outgoing,
            opt_view(destination),
        ),
{
    let source = owned_text_or(envelope, "sourceNumber", "unknown");
    let raw_ts = match data.get_i64("timestamp") {
        Some(ts) => ts,
        None => 0,
    };
    SignalMessage {
        source,
        source_name,
        timestamp: normalize_millis(raw_ts),
        body: owned_text(data, "message"),
        attachments: parse_attachments(data),
        group_id: owned_nested_text(data, "groupInfo", "groupId"),
        group_name: owned_nested_text(data, "groupInfo", "groupName"),
        is_outgoing,
        destination,
    }
}

/// The event for a message that the user sent from another device: an
/// outgoing message whose sender and group are those of the sent message
/// inside the sync wrapper and whose destination is the wrapper's.
pub fn parse_sent_sync(envelope: &Json, sent: &Json) -> (r: Option<SignalEvent>)
    ensures
        opt_view(r) == Some(sent_sync_event(*envelope, *sent)),
{
    let destination = match sent.get("destinationNumber") {
        Some(v) => match v.as_str() {
            Some(s) => Some(String::from_str(s)),
            None => None,
        },
        None => owned_text(sent, "destination"),
    };
    Some(SignalEvent::MessageReceived(parse_message(envelope, sent, None, true, destination)))
}

/// Whether a member of an envelope is routing metadata.
fn is_routing(key: &str) -> (r: bool)
    ensures
        r == is_routing_key(key@),
{
    key.eq("source") || key.eq("sourceNumber") || key.eq("sourceName") || key.eq("sourceUuid")
        || key.eq("sourceDevice") || key.eq("timestamp") || key.eq("serverReceivedTimestamp")
        || key.eq("serverDeliveredTimestamp") || key.eq("relay")
}

/// The diagnostic for an envelope of a kind that is not handled.
fn parse_unhandled(envelope: &Json) -> (r: Option<SignalEvent>)
    ensures
        opt_view(r) == unhandled_envelope_event(*envelope),
{
    let members = match envelope.as_object() {
        Some(m) => m,
        None => {
            return None;
        },
    };
    let mut list = String::new();
    let mut count: usize = 0;
    let mut i: usize = 0;
    assert(members@.take(0) =~= Seq::<(String, Json)>::empty());
    while i < members.len()
        invariant
            i <= members.len(),
            count == substantive_keys(members@.take(i as int)).len(),
            count <= i,
            list@ == joined(substantive_keys(members@.take(i as int)), ", "@),
        decreases members.len() - i,
    {
        proof {
            assert(members@.take(i + 1).drop_last() =~= members@.take(i as int));
            assert(members@.take(i + 1).last() == members@[i as int]);
        }
        if !is_routing(members[i].0.as_str()) {
            let ghost before = substantive_keys(members@.take(i as int));
            if count > 0 {
                list.append(", ");
            }
            list.append(members[i].0.as_str());
            proof {
                let after = before.push(members@[i as int].0@);
                assert(after.drop_last() =~= before);
                if count == 0 {
                    assert(before =~= Seq::<Seq<char>>::empty());
                    assert(list@ =~= after[0]);
                }
            }
            count += 1;
        }
        i += 1;
    }
    proof {
        assert(members@.take(members@.len() as int) =~= members@);
    }
    if count > 0 {
        Some(SignalEvent::Error(text::concat("unhandled envelope type: ", list.as_str())))
    } else {
        None
    }
}

/// The event for the parameters of a `receive` notification; see
/// [`receive_event`] for the order in which the shapes are tried.
pub fn parse_receive_event(params: &Json) -> (r: Option<SignalEvent>)
    ensures
        opt_view(r) == receive_event(*params),
{
    if let Some(exception) = params.get("exception") {
        let msg = owned_text_or(exception, "message", "unknown error");
        if text::contains_exec(msg.as_str(), "SyncMessage missing destination") {
            return None;
        }
        return Some(SignalEvent::Error(text::concat("signal-cli: ", msg.as_str())));
    }
    let envelope = match params.get("envelope") {
        Some(e) => e,
        None => {
            return None;
        },
    };
    if let Some(typing) = envelope.get("typingMessage") {
        let sender = owned_text_or(envelope, "sourceNumber", "unknown");
        let sender_name = match envelope.get_str("sourceName") {
            Some(s) => if s.is_empty() {
                None
            } else {
                Some(String::from_str(s))
            },
            None => None,
        };
        let is_typing = match typing.get_str("action") {
            Some(a) => a.eq("STARTED"),
            None => false,
        };
        return Some(SignalEvent::TypingIndicator { sender, sender_name, is_typing });
    }
    if let Some(receipt) = envelope.get("receiptMessage") {
        let sender = owned_text_or(envelope, "sourceNumber", "unknown");
        let receipt_type = owned_text_or(receipt, "type", "");
        let timestamps = parse_integers(receipt, "timestamps");
        return Some(SignalEvent::ReceiptReceived { sender, receipt_type, timestamps });
    }
    if let Some(sync) = envelope.get("syncMessage") {
        if let Some(sent) = sync.get("sentMessage") {
            return parse_sent_sync(envelope, sent);
        }
        return None;
    }
    let data = match envelope.get("dataMessage") {
        Some(d) => d,
        None => {
            return parse_unhandled(envelope);
        },
    };
    let source_name = owned_text(envelope, "sourceName");
    Some(SignalEvent::MessageReceived(parse_message(envelope, data, source_name, false, None)))
}

/// The event for a notification of the backend: a line that answers none of
/// the pending requests.
pub fn parse_signal_event(resp: &JsonRpcResponse) -> (r: Option<SignalEvent>)
    ensures
        opt_view(r) == notification_event(opt_view(resp.method), resp.params),
{
    let method = match &resp.method {
        Some(m) => m,
        None => {
            return None;
        },
    };
    let params = match &resp.params {
        Some(p) => p,
        None => {
            return None;
        },
    };
    if method.as_str().eq("receive") {
        parse_receive_event(params)
    } else {
        None
    }
}

/// The contact that an entry of the contact list describes.
fn parse_contact(entry: &Json) -> (r: Option<Contact>)
    ensures
        opt_view(r) == contact_of(*entry),
{
    let number = match entry.get_str("number") {
        Some(s) => String::from_str(s),
        None => {
            return None;
        },
    };
    let raw = match entry.get_str("profileName") {
        Some(s) => Some(s),
        None => match entry.get_str("contactName") {
            Some(s) => Some(s),
            None => entry.get_str("name"),
        },
    };
    let name = match raw {
        Some(s) => if s.is_empty() {
            None
        } else {
            Some(String::from_str(s))
        },
        None => None,
    };
    Some(Contact { number, name })
}

/// The group that an entry of the group list describes.
fn parse_group(entry: &Json) -> (r: Option<Group>)
    ensures
        opt_view(r) == group_of(*entry),
{
    let id = match entry.get_str("id") {
        Some(s) => String::from_str(s),
        None => {
            return None;
        },
    };
    let name = owned_text_or(entry, "name", "");
    let members = parse_texts(entry, "members");
    Some(Group { id, name, members })
}

/// The contacts that the entries of a list describe.
fn parse_contacts(items: &Vec<Json>) -> (r: Vec<Contact>)
    ensures
        views(r@) == contacts_of(items@),
{
    let mut out: Vec<Contact> = Vec::new();
    let mut i: usize = 0;
    assert(views(out@) =~= contacts_of(items@.take(0)));
    while i < items.len()
        invariant
            i <= items.len(),
            views(out@) == contacts_of(items@.take(i as int)),
        decreases items.len() - i,
    {
        proof {
            assert(items@.take(i + 1).drop_last() =~= items@.take(i as int));
            assert(items@.take(i + 1).last() == items@[i as int]);
        }
        match parse_contact(&items[i]) {
            Some(c) => {
                proof {
                    lemma_views_push(out@, c);
                }
                out.push(c);
            },
            None => {},
        }
        i += 1;
    }
    proof {
        assert(items@.take(items@.len() as int) =~= items@);
    }
    out
}

/// The groups that the entries of a list describe.
fn parse_groups(items: &Vec<Json>) -> (r: Vec<Group>)
    ensures
        views(r@) == groups_of(items@),
{
    let mut out: Vec<Group> = Vec::new();
    let mut i: usize = 0;
    assert(views(out@) =~= groups_of(items@.take(0)));
    while i < items.len()
        invariant
            i <= items.len(),
            views(out@) == groups_of(items@.take(i as int)),
        decreases items.len() - i,
    {
        proof {
            assert(items@.take(i + 1).drop_last() =~= items@.take(i as int));
            assert(items@.take(i + 1).last() == items@[i as int]);
        }
        match parse_group(&items[i]) {
            Some(g) => {
                proof {
                    lemma_views_push(out@, g);
                }
                out.push(g);
            },
            None => {},
        }
        i += 1;
    }
    proof {
        assert(items@.take(items@.len() as int) =~= items@);
    }
    out
}

/// The event for the result of a request that was issued for `method`.
///
/// - `send`: the confirmation with the server's timestamp, which is 0 where
///   the reply holds none; nothing without the request's id.
/// - `listContacts`, `listGroups`: the list, without the entries that lack
///   their identifier; nothing where the result is no array.
/// - any other method: nothing.
pub fn parse_rpc_result(method: &str, result: &Json, rpc_id: Option<&str>) -> (r: Option<
    SignalEvent,
>)
    ensures
        opt_view(r) == rpc_result_event(method@, *result, opt_str_view(rpc_id)),
{
    if method.eq("send") {
        let id = match rpc_id {
            Some(id) => String::from_str(id),
            None => {
                return None;
            },
        };
        let server_ts = match result.get_i64("timestamp") {
            Some(ts) => ts,
            None => match result.as_i64() {
                Some(ts) => ts,
                None => 0,
            },
        };
        Some(SignalEvent::SendTimestamp { rpc_id: id, server_ts })
    } else if method.eq("listContacts") {
        match result.as_array() {
            Some(items) => Some(SignalEvent::ContactList(parse_contacts(items))),
            None => None,
        }
    } else if method.eq("listGroups") {
        match result.as_array() {
            Some(items) => Some(SignalEvent::GroupList(parse_groups(items))),
            None => None,
        }
    } else {
        None
    }
}

/// The event for one line of the backend.
///
/// With `resolved` the method of the pending request that the line answers:
/// a reply with an error is a failed send where the request was a send and
/// is dropped otherwise; a reply without error gives the event of its
/// result. Without `resolved` the line is a notification.
pub open spec fn normalized(resp: JsonRpcResponse, resolved: Option<Seq<char>>) -> Option<
    SignalEventView,
> {
    match resolved {
        Some(method) => if resp.error.is_some() {
            if method == "send"@ {
                match resp.id {
                    Some(id) => Some(SignalEventView::SendFailed { rpc_id: id@ }),
                    None => None,
                }
            } else {
                None
            }
        } else {
            match resp.result {
                Some(result) => rpc_result_event(method, result, opt_view(resp.id)),
                None => None,
            }
        },
        None => notification_event(opt_view(resp.method), resp.params),
    }
}

/// Reduces one line of the backend to a domain event, or to none.
///
/// `resolved_method` is what the correlator found for the line's id: the
/// method of the request that the line answers, or `None` for a
/// notification.
pub fn normalize(resp: &JsonRpcResponse, resolved_method: Option<&str>) -> (r: Option<SignalEvent>)
    ensures
        opt_view(r) == normalized(*resp, opt_str_view(resolved_method)),
{
    match resolved_method {
        Some(method) => {
            if resp.error.is_some() {
                if method.eq("send") {
                    match &resp.id {
                        Some(id) => Some(SignalEvent::SendFailed { rpc_id: id.clone() }),
                        None => None,
                    }
                } else {
                    None
                }
            } else {
                let rpc_id = match &resp.id {
                    Some(id) => Some(id.as_str()),
                    None => None,
                };
                match &resp.result {
                    Some(result) => parse_rpc_result(method, result, rpc_id),
                    None => None,
                }
            }
        },
        None => parse_signal_event(resp),
    }
}

/// The diagnostic for a line that is no well-formed message.
pub fn parse_error_event(reason: &str) -> (r: SignalEvent)
    ensures
        r@ == SignalEventView::Error("JSON parse error: "@ + reason@),
{
    SignalEvent::Error(text::concat("JSON parse error: ", reason))
}

/// Whether a line holds nothing but whitespace; such a line is skipped.
pub fn is_blank(line: &str) -> (r: bool)
    ensures
        r == (text::trimmed(line@).len() == 0),
{
    text::trim(line).as_str().is_empty()
}

/// The table of pending requests: for the id of each request that was issued
/// and not yet answered, the method it was issued for.
///
/// A line whose id is in the table is a reply; the entry leaves the table
/// then, so that a second line with the same id is a notification.
#[derive(Debug)]
pub struct PendingRequests {
    pub methods: StrMap<String>,
}

impl PendingRequests {
    /// The table's invariant: no id occurs twice.
    pub open spec fn wf(&self) -> bool {
        self.methods.wf()
    }

    /// The method recorded for `id`.
    pub open spec fn method_of(&self, id: Seq<char>) -> Option<Seq<char>> {
        opt_view(self.methods.value_of(id))
    }

    /// Whether the table meets its invariant.
    pub fn is_wf(&self) -> (r: bool)
        ensures
            r == self.wf(),
    {
        self.methods.is_wf()
    }

    /// An empty table.
    pub fn new() -> (r: Self)
        ensures
            r.wf(),
            forall|id: Seq<char>| r.method_of(id).is_none(),
    {
        let r = PendingRequests { methods: StrMap::new() };
        proof {
            assert forall|id: Seq<char>| r.method_of(id).is_none() by {
                lemma_position(r.methods.entries@, id);
            }
        }
        r
    }

    /// Records that the request `id` was issued for `method`.
    pub fn register(&mut self, id: String, method: String)
        requires
            old(self).wf(),
        ensures
            final(self).wf(),
            final(self).method_of(id@) == Some(method@),
            forall|other: Seq<char>|
                other != id@ ==> final(self).method_of(other) == old(self).method_of(other),
    {
        self.methods.insert(id, method);
    }

    /// Looks up and removes the entry for `id`: the method that the request
    /// was issued for, or `None` where no request with that id is pending.
    pub fn resolve(&mut self, id: &str) -> (r: Option<String>)
        requires
            old(self).wf(),
        ensures
            final(self).wf(),
            opt_view(r) == old(self).method_of(id@),
            final(self).method_of(id@).is_none(),
            forall|other: Seq<char>|
                other != id@ ==> final(self).method_of(other) == old(self).method_of(other),
    {
        self.methods.remove(id)
    }

    /// The method that a line answers: that of the pending request with the
    /// line's id. A line without id, or with an id that is not pending,
    /// answers none.
    pub open spec fn answered(&self, resp: JsonRpcResponse) -> Option<Seq<char>> {
        match resp.id {
            Some(id) => self.method_of(id@),
            None => None,
        }
    }

    /// Classifies a line as reply or notification and reduces it to its
    /// event. The request that the line answers is no longer pending
    /// afterwards; every other entry stays.
    pub fn on_response(&mut self, resp: &JsonRpcResponse) -> (r: Option<SignalEvent>)
        requires
            old(self).wf(),
        ensures
            final(self).wf(),
            opt_view(r) == normalized(*resp, old(self).answered(*resp)),
            final(self).answered(*resp).is_none(),
            forall|other: Seq<char>|
                opt_view(resp.id) != Some(other) ==> final(self).method_of(other) == old(
                    self,
                ).method_of(other),
    {
        let method = match &resp.id {
            Some(id) => self.resolve(id.as_str()),
            None => None,
        };
        match &method {
            Some(m) => normalize(resp, Some(m.as_str())),
            None => normalize(resp, None),
        }
    }
}

/// `Uuid::new_v4` and `Uuid::to_string` of `uuid`: a random identifier in
/// its usual written form. Nothing is promised of it: it is random.
#[verifier::external_body]
fn new_request_id() -> (r: String) {
    uuid::Uuid::new_v4().to_string()
}

/// The parameters of a `send` request: the recipient (the group's id for a
/// group, else a list of the one number), the message and the account.
pub open spec fn is_send_params(
    params: Json,
    account: Seq<char>,
    recipient: Seq<char>,
    body: Seq<char>,
    is_group: bool,
) -> bool {
    &&& params.members() matches Some(members) && members.len() == 3
    &&& params.text_field("message"@) == Some(body)
    &&& params.text_field("account"@) == Some(account)
    &&& if is_group {
        params.text_field("groupId"@) == Some(recipient)
    } else {
        params.field("recipient"@) matches Some(list) && list.items() matches Some(items)
            && items.len() == 1 && items[0].text() == Some(recipient)
    }
}

/// The parameters of a request that names the account only.
pub open spec fn is_account_params(params: Json, account: Seq<char>) -> bool {
    &&& params.members() matches Some(members) && members.len() == 1
    &&& params.text_field("account"@) == Some(account)
}

/// A request in the form that the backend reads.
fn request(method: &str, id: String, params: Json) -> (r: JsonRpcRequest)
    ensures
        r.jsonrpc@ == "2.0"@,
        r.method@ == method@,
        r.id == id,
        r.params == Some(params),
{
    JsonRpcRequest {
        jsonrpc: String::from_str("2.0"),
        method: String::from_str(method),
        id,
        params: Some(params),
    }
}

/// The parameters of a request that names the account only.
fn account_params(account: &str) -> (r: Json)
    ensures
        is_account_params(r, account@),
{
    let mut members: Vec<(String, Json)> = Vec::new();
    members.push((String::from_str("account"), Json::Text(String::from_str(account))));
    let r = Json::Object(members);
    proof {
        reveal_with_fuel(lookup, 2);
        assert(members@.drop_first() =~= Seq::empty());
    }
    r
}

/// The parameters of a `send` request.
fn send_params(account: &str, recipient: &str, body: &str, is_group: bool) -> (r: Json)
    ensures
        is_send_params(r, account@, recipient@, body@, is_group),
{
    let mut members: Vec<(String, Json)> = Vec::new();
    if is_group {
        members.push((String::from_str("groupId"), Json::Text(String::from_str(recipient))));
    } else {
        let mut list: Vec<Json> = Vec::new();
        list.push(Json::Text(String::from_str(recipient)));
        members.push((String::from_str("recipient"), Json::Array(list)));
    }
    members.push((String::from_str("message"), Json::Text(String::from_str(body))));
    members.push((String::from_str("account"), Json::Text(String::from_str(account))));
    let r = Json::Object(members);
    proof {
        reveal_with_fuel(lookup, 4);
        reveal_strlit("groupId");
        reveal_strlit("recipient");
        reveal_strlit("message");
        reveal_strlit("account");
        let m = members@;
        assert(m.drop_first()[0] == m[1]);
        assert(m.drop_first().drop_first()[0] == m[2]);
        assert(m.drop_first().drop_first().drop_first() =~= Seq::empty());
        assert(m[0].0@ != "message"@) by {
            if is_group {
                assert("groupId"@[0] != "message"@[0]);
            } else {
                assert("recipient"@[0] != "message"@[0]);
            }
        }
        assert(m[0].0@ != "account"@) by {
            if is_group {
                assert("groupId"@[0] != "account"@[0]);
            } else {
                assert("recipient"@[0] != "account"@[0]);
            }
        }
        assert(m[1].0@ != "account"@) by {
            assert("message"@[0] != "account"@[0]);
        }
    }
    r
}

impl PendingRequests {
    /// The request that sends `body` to `recipient` under `id`; the request
    /// is pending afterwards, so that its reply is known as the
    /// confirmation or the failure of this send.
    pub fn send_request(
        &mut self,
        id: String,
        account: &str,
        recipient: &str,
        body: &str,
        is_group: bool,
    ) -> (r: JsonRpcRequest)
        requires
            old(self).wf(),
        ensures
            final(self).wf(),
            r.jsonrpc@ == "2.0"@,
            r.method@ == "send"@,
            r.id@ == id@,
            r.params matches Some(params) && is_send_params(
                params,
                account@,
                recipient@,
                body@,
                is_group,
            ),
            final(self).method_of(id@) == Some("send"@),
            forall|other: Seq<char>|
                other != id@ ==> final(self).method_of(other) == old(self).method_of(other),
    {
        self.register(id.clone(), String::from_str("send"));
        request("send", id, send_params(account, recipient, body, is_group))
    }

    /// The request that asks for the list of groups under `id`; the request
    /// is pending afterwards.
    pub fn list_groups_request(&mut self, id: String, account: &str) -> (r: JsonRpcRequest)
        requires
            old(self).wf(),
        ensures
            final(self).wf(),
            r.jsonrpc@ == "2.0"@,
            r.method@ == "listGroups"@,
            r.id@ == id@,
            r.params matches Some(params) && is_account_params(params, account@),
            final(self).method_of(id@) == Some("listGroups"@),
            forall|other: Seq<char>|
                other != id@ ==> final(self).method_of(other) == old(self).method_of(other),
    {
        self.register(id.clone(), String::from_str("listGroups"));
        request("listGroups", id, account_params(account))
    }

    /// The request that asks for the list of contacts under `id`; the
    /// request is pending afterwards.
    pub fn list_contacts_request(&mut self, id: String, account: &str) -> (r: JsonRpcRequest)
        requires
            old(self).wf(),
        ensures
            final(self).wf(),
            r.jsonrpc@ == "2.0"@,
            r.method@ == "listContacts"@,
            r.id@ == id@,
            r.params matches Some(params) && is_account_params(params, account@),
            final(self).method_of(id@) == Some("listContacts"@),
            forall|other: Seq<char>|
                other != id@ ==> final(self).method_of(other) == old(self).method_of(other),
    {
        self.register(id.clone(), String::from_str("listContacts"));
        request("listContacts", id, account_params(account))
    }

    /// The request that sends `body` to `recipient` under a fresh random
    /// id. Whatever the id is, the request carries it and is pending under
    /// it afterwards.
    pub fn send_message(&mut self, account: &str, recipient: &str, body: &str, is_group: bool) -> (r:
        JsonRpcRequest)
        requires
            old(self).wf(),
        ensures
            final(self).wf(),
            r.jsonrpc@ == "2.0"@,
            r.method@ == "send"@,
            r.params matches Some(params) && is_send_params(
                params,
                account@,
                recipient@,
                body@,
                is_group,
            ),
            final(self).method_of(r.id@) == Some("send"@),
            forall|other: Seq<char>|
                other != r.id@ ==> final(self).method_of(other) == old(self).method_of(other),
    {
        self.send_request(new_request_id(), account, recipient, body, is_group)
    }

    /// The request that asks for the list of groups under a fresh random
    /// id.
    pub fn list_groups(&mut self, account: &str) -> (r: JsonRpcRequest)
        requires
            old(self).wf(),
        ensures
            final(self).wf(),
            r.method@ == "listGroups"@,
            r.params matches Some(params) && is_account_params(params, account@),
            final(self).method_of(r.id@) == Some("listGroups"@),
            forall|other: Seq<char>|
                other != r.id@ ==> final(self).method_of(other) == old(self).method_of(other),
    {
        self.list_groups_request(new_request_id(), account)
    }

    /// The request that asks for the list of contacts under a fresh random
    /// id.
    pub fn list_contacts(&mut self, account: &str) -> (r: JsonRpcRequest)
        requires
            old(self).wf(),
        ensures
            final(self).wf(),
            r.method@ == "listContacts"@,
            r.params matches Some(params) && is_account_params(params, account@),
            final(self).method_of(r.id@) == Some("listContacts"@),
            forall|other: Seq<char>|
                other != r.id@ ==> final(self).method_of(other) == old(self).method_of(other),
    {
        self.list_contacts_request(new_request_id(), account)
    }
}

/// The request that asks the primary device to send its contacts and
/// groups, under a fresh random id. Its reply is not waited for.
pub fn send_sync_request(account: &str) -> (r: JsonRpcRequest)
    ensures
        r.jsonrpc@ == "2.0"@,
        r.method@ == "sendSyncRequest"@,
        r.params matches Some(params) && is_account_params(params, account@),
{
    request("sendSyncRequest", new_request_id(), account_params(account))
}

} // verus!
