//! The data that crosses the boundary with the messaging backend, and the
//! domain events that the normalizer reduces it to.

use vstd::prelude::*;
use crate::model::{opt_view, views};
use crate::signal::json::Json;

verus! {

/// Delivery state of an outgoing message.
///
/// The states are ordered `Failed < Sending < Sent < Delivered < Read < Viewed`;
/// [`MessageStatus::rank`] gives the position in that order.
#[derive(Debug, Clone, Copy, PartialEq, Eq, Structural, PartialOrd, Ord)]
pub enum MessageStatus {
    /// The send was rejected.
    Failed,
    /// In transit to the server.
    Sending,
    /// Confirmed by the server.
    Sent,
    /// On the recipient's device.
    Delivered,
    /// Read by the recipient.
    Read,
    /// Viewed (voice or media).
    Viewed,
}

impl MessageStatus {
    /// The position of the state in the order, from 1 for `Failed` to 6 for
    /// `Viewed`. It is also the number under which the state is stored.
    pub open spec fn rank(self) -> int {
        match self {
            MessageStatus::Failed => 1,
            MessageStatus::Sending => 2,
            MessageStatus::Sent => 3,
            MessageStatus::Delivered => 4,
            MessageStatus::Read => 5,
            MessageStatus::Viewed => 6,
        }
    }

    /// The state stored under a number; none for 0, which marks a message
    /// without a state, and for every other number out of range.
    pub open spec fn of_rank(v: int) -> Option<MessageStatus> {
        if v == 1 {
            Some(MessageStatus::Failed)
        } else if v == 2 {
            Some(MessageStatus::Sending)
        } else if v == 3 {
            Some(MessageStatus::Sent)
        } else if v == 4 {
            Some(MessageStatus::Delivered)
        } else if v == 5 {
            Some(MessageStatus::Read)
        } else if v == 6 {
            Some(MessageStatus::Viewed)
        } else {
            None
        }
    }

    /// The greater of the two states.
    pub open spec fn raised_to(self, target: MessageStatus) -> MessageStatus {
        if target.rank() > self.rank() {
            target
        } else {
            self
        }
    }

    /// The number under which the state is stored.
    pub fn to_i32(self) -> (r: i32)
        ensures
            r == self.rank(),
    {
        match self {
            MessageStatus::Failed => 1,
            MessageStatus::Sending => 2,
            MessageStatus::Sent => 3,
            MessageStatus::Delivered => 4,
            MessageStatus::Read => 5,
            MessageStatus::Viewed => 6,
        }
    }

    /// The state stored under a number. Returns `None` for 0 (an incoming
    /// message has no state) and for any number that names no state.
    pub fn from_i32(v: i32) -> (r: Option<MessageStatus>)
        ensures
            r == MessageStatus::of_rank(v as int),
    {
        match v {
            1 => Some(MessageStatus::Failed),
            2 => Some(MessageStatus::Sending),
            3 => Some(MessageStatus::Sent),
            4 => Some(MessageStatus::Delivered),
            5 => Some(MessageStatus::Read),
            6 => Some(MessageStatus::Viewed),
            _ => None,
        }
    }

    /// The greater of the two states: a state is only ever replaced by one
    /// further along.
    pub fn raise(self, target: MessageStatus) -> (r: MessageStatus)
        ensures
            r == self.raised_to(target),
    {
        if target.to_i32() > self.to_i32() {
            target
        } else {
            self
        }
    }
}

/// Storing a state and reading it back gives the state again.
pub proof fn law_status_round_trip(s: MessageStatus)
    ensures
        MessageStatus::of_rank(s.rank()) == Some(s),
{
}

/// Two states with the same rank are the same state.
pub proof fn law_rank_injective(a: MessageStatus, b: MessageStatus)
    requires
        a.rank() == b.rank(),
    ensures
        a == b,
{
}

/// Raising gives the least state that is at least both: the result is one of
/// the two, and neither is above it.
pub proof fn law_raise_is_max(a: MessageStatus, b: MessageStatus)
    ensures
        a.raised_to(b).rank() >= a.rank(),
        a.raised_to(b).rank() >= b.rank(),
        a.raised_to(b) == a || a.raised_to(b) == b,
{
}

/// A single emoji reaction on a message.
#[derive(Debug, Clone, PartialEq, Eq)]
pub struct Reaction {
    pub emoji: String,
    pub sender: String,
}

/// What a [`Reaction`] holds.
pub struct ReactionView {
    pub emoji: Seq<char>,
    pub sender: Seq<char>,
}

impl View for Reaction {
    type V = ReactionView;

    open spec fn view(&self) -> ReactionView {
        ReactionView { emoji: self.emoji@, sender: self.sender@ }
    }
}

/// An attachment on a message.
#[derive(Debug, Clone)]
pub struct Attachment {
    pub id: String,
    pub content_type: String,
    pub filename: Option<String>,
    /// Where the file is on this machine. The normalizer puts here the
    /// location that the backend reported, if any; whoever stores the file
    /// replaces it with the place where it ended up.
    pub local_path: Option<String>,
}

/// What an [`Attachment`] holds.
pub struct AttachmentView {
    pub id: Seq<char>,
    pub content_type: Seq<char>,
    pub filename: Option<Seq<char>>,
    pub local_path: Option<Seq<char>>,
}

impl View for Attachment {
    type V = AttachmentView;

    open spec fn view(&self) -> AttachmentView {
        AttachmentView {
            id: self.id@,
            content_type: self.content_type@,
            filename: opt_view(self.filename),
            local_path: opt_view(self.local_path),
        }
    }
}

/// A message from the backend.
#[derive(Debug, Clone)]
pub struct SignalMessage {
    pub source: String,
    pub source_name: Option<String>,
    /// Milliseconds since the Unix epoch.
    pub timestamp: i64,
    pub body: Option<String>,
    pub attachments: Vec<Attachment>,
    pub group_id: Option<String>,
    pub group_name: Option<String>,
    pub is_outgoing: bool,
    /// For outgoing 1:1 messages (sync), the recipient number.
    pub destination: Option<String>,
}

/// What a [`SignalMessage`] holds.
pub struct SignalMessageView {
    pub source: Seq<char>,
    pub source_name: Option<Seq<char>>,
    pub timestamp: i64,
    pub body: Option<Seq<char>>,
    pub attachments: Seq<AttachmentView>,
    pub group_id: Option<Seq<char>>,
    pub group_name: Option<Seq<char>>,
    pub is_outgoing: bool,
    pub destination: Option<Seq<char>>,
}

impl View for SignalMessage {
    type V = SignalMessageView;

    open spec fn view(&self) -> SignalMessageView {
        SignalMessageView {
            source: self.source@,
            source_name: opt_view(self.source_name),
            timestamp: self.timestamp,
            body: opt_view(self.body),
            attachments: views(self.attachments@),
            group_id: opt_view(self.group_id),
            group_name: opt_view(self.group_name),
            is_outgoing: self.is_outgoing,
            destination: opt_view(self.destination),
        }
    }
}

/// Contact info from the backend.
#[derive(Debug, Clone)]
pub struct Contact {
    pub number: String,
    pub name: Option<String>,
}

/// What a [`Contact`] holds.
pub struct ContactView {
    pub number: Seq<char>,
    pub name: Option<Seq<char>>,
}

impl View for Contact {
    type V = ContactView;

    open spec fn view(&self) -> ContactView {
        ContactView { number: self.number@, name: opt_view(self.name) }
    }
}

/// Group info from the backend.
#[derive(Debug, Clone)]
pub struct Group {
    pub id: String,
    pub name: String,
    pub members: Vec<String>,
}

/// What a [`Group`] holds.
pub struct GroupView {
    pub id: Seq<char>,
    pub name: Seq<char>,
    pub members: Seq<Seq<char>>,
}

impl View for Group {
    type V = GroupView;

    open spec fn view(&self) -> GroupView {
        GroupView { id: self.id@, name: self.name@, members: views(self.members@) }
    }
}

/// Events received from the backend.
#[derive(Debug, Clone)]
pub enum SignalEvent {
    MessageReceived(SignalMessage),
    ReceiptReceived { sender: String, receipt_type: String, timestamps: Vec<i64> },
    SendTimestamp { rpc_id: String, server_ts: i64 },
    SendFailed { rpc_id: String },
    TypingIndicator { sender: String, sender_name: Option<String>, is_typing: bool },
    ReactionReceived {
        conv_id: String,
        emoji: String,
        sender: String,
        sender_name: Option<String>,
        target_author: String,
        target_timestamp: i64,
        is_remove: bool,
    },
    ContactList(Vec<Contact>),
    GroupList(Vec<Group>),
    Error(String),
}

/// What a [`SignalEvent`] holds.
pub enum SignalEventView {
    MessageReceived(SignalMessageView),
    ReceiptReceived { sender: Seq<char>, receipt_type: Seq<char>, timestamps: Seq<i64> },
    SendTimestamp { rpc_id: Seq<char>, server_ts: i64 },
    SendFailed { rpc_id: Seq<char> },
    TypingIndicator { sender: Seq<char>, sender_name: Option<Seq<char>>, is_typing: bool },
    ReactionReceived {
        conv_id: Seq<char>,
        emoji: Seq<char>,
        sender: Seq<char>,
        sender_name: Option<Seq<char>>,
        target_author: Seq<char>,
        target_timestamp: i64,
        is_remove: bool,
    },
    ContactList(Seq<ContactView>),
    GroupList(Seq<GroupView>),
    Error(Seq<char>),
}

impl View for SignalEvent {
    type V = SignalEventView;

    open spec fn view(&self) -> SignalEventView {
        match *self {
            SignalEvent::MessageReceived(m) => SignalEventView::MessageReceived(m@),
            SignalEvent::ReceiptReceived { sender, receipt_type, timestamps } => {
                SignalEventView::ReceiptReceived {
                    sender: sender@,
                    receipt_type: receipt_type@,
                    timestamps: timestamps@,
                }
            },
            SignalEvent::SendTimestamp { rpc_id, server_ts } => SignalEventView::SendTimestamp {
                rpc_id: rpc_id@,
                server_ts,
            },
            SignalEvent::SendFailed { rpc_id } => SignalEventView::SendFailed { rpc_id: rpc_id@ },
            SignalEvent::TypingIndicator { sender, sender_name, is_typing } => {
                SignalEventView::TypingIndicator {
                    sender: sender@,
                    sender_name: opt_view(sender_name),
                    is_typing,
                }
            },
            SignalEvent::ReactionReceived {
                conv_id,
                emoji,
                sender,
                sender_name,
                target_author,
                target_timestamp,
                is_remove,
            } => SignalEventView::ReactionReceived {
                conv_id: conv_id@,
                emoji: emoji@,
                sender: sender@,
                sender_name: opt_view(sender_name),
                target_author: target_author@,
                target_timestamp,
                is_remove,
            },
            SignalEvent::ContactList(contacts) => SignalEventView::ContactList(views(contacts@)),
            SignalEvent::GroupList(groups) => SignalEventView::GroupList(views(groups@)),
            SignalEvent::Error(text) => SignalEventView::Error(text@),
        }
    }
}

/// A request to the backend.
#[derive(Debug)]
pub struct JsonRpcRequest {
    pub jsonrpc: String,
    pub method: String,
    pub id: String,
    pub params: Option<Json>,
}

/// A line from the backend: the reply to a request, or a notification.
#[derive(Debug)]
pub struct JsonRpcResponse {
    pub jsonrpc: String,
    pub id: Option<String>,
    pub result: Option<Json>,
    pub error: Option<JsonRpcError>,
    pub method: Option<String>,
    pub params: Option<Json>,
}

/// The error member of a reply.
#[derive(Debug)]
pub struct JsonRpcError {
    pub code: i64,
    pub message: String,
}

} // verus!
