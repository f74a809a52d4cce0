//! The application state: conversations, what is pending between client and
//! backend, and what the user is typing.
//!
//! The state is one value, [`Reconciler`], that each handler takes by reference.
//! Nothing here touches a terminal, a socket or a disk: what has to be made
//! durable is queued in [`Reconciler::db_ops`] for the caller to write, and a failed
//! write never undoes what the handlers did in memory.

pub mod actions;
pub mod commands;
pub mod editing;
pub mod keys;
pub mod laws;
pub mod messages;
pub mod navigation;
pub mod overlays;
pub mod reactions;
pub mod receipts;
pub mod session;
pub mod timeline;

use vstd::prelude::*;
use crate::app::timeline::{
    conversation_wf, ReconcilerView, ConversationView, DbOpView, Ledger, MessageView, ReceiptView,
};
use crate::app::editing::InputLine;
use crate::app::timeline::event_handled;
use crate::image_render::ImageProtocol;
use crate::model::{opt_view, views};
use crate::signal::types::{MessageStatus, Reaction, SignalEvent};
use crate::ui::LinkRegion;
use crate::strmap::{lemma_lookup_view, lemma_removed_view, StrMap};

verus! {

/// A key of the keyboard, as far as the application tells keys apart.
#[derive(Debug, Clone, Copy, PartialEq, Eq, Structural)]
pub enum Key {
    Backspace,
    Enter,
    Left,
    Right,
    Up,
    Down,
    Home,
    End,
    PageUp,
    PageDown,
    Tab,
    BackTab,
    Delete,
    Esc,
    Char(char),
    /// A function key.
    F(u8),
    /// Any other key.
    Other,
}

/// The modifier keys held with a key, as far as the application tells them
/// apart.
#[derive(Debug, Clone, Copy, PartialEq, Eq, Structural)]
pub enum KeyMods {
    /// No modifier.
    Plain,
    /// Shift and nothing else.
    Shift,
    /// Control and nothing else.
    Control,
    /// Any other modifier or combination.
    Other,
}

/// An image visible on screen, for native protocol overlay rendering.
#[derive(Debug)]
pub struct VisibleImage {
    pub x: u16,
    pub y: u16,
    pub width: u16,
    pub height: u16,
    pub path: String,
}

/// Whether keys edit the input line or move around.
#[derive(Debug, Clone, Copy, PartialEq, Eq, Structural)]
pub enum InputMode {
    Normal,
    Insert,
}

/// A single displayed message in a conversation.
#[derive(Debug, Clone)]
pub struct DisplayMessage {
    pub sender: String,
    /// When the message was written, in milliseconds since the Unix epoch.
    pub timestamp: i64,
    pub body: String,
    pub is_system: bool,
    /// Local filesystem path of the image that the message shows.
    pub image_path: Option<String>,
    /// Delivery state (`Some` for outgoing, `None` for incoming).
    pub status: Option<MessageStatus>,
    /// The timestamp by which receipts and reactions find the message: the
    /// local clock's until the server confirms the send, the server's after.
    pub timestamp_ms: i64,
    /// Emoji reactions on this message, at most one per sender.
    pub reactions: Vec<Reaction>,
}

impl View for DisplayMessage {
    type V = MessageView;

    open spec fn view(&self) -> MessageView {
        MessageView {
            sender: self.sender@,
            timestamp: self.timestamp,
            body: self.body@,
            is_system: self.is_system,
            image_path: opt_view(self.image_path),
            status: self.status,
            timestamp_ms: self.timestamp_ms,
            reactions: views(self.reactions@),
        }
    }
}

/// A conversation (1:1 or group).
#[derive(Debug, Clone)]
pub struct Conversation {
    /// Display name (contact name or number, or group name).
    pub name: String,
    /// Unique key: phone number for 1:1, group id for groups.
    pub id: String,
    pub messages: Vec<DisplayMessage>,
    pub unread: usize,
    pub is_group: bool,
}

impl View for Conversation {
    type V = ConversationView;

    open spec fn view(&self) -> ConversationView {
        ConversationView {
            name: self.name@,
            id: self.id@,
            messages: views(self.messages@),
            unread: self.unread,
            is_group: self.is_group,
        }
    }
}

/// A request from the UI to the main loop to send something.
#[derive(Debug, Clone, PartialEq, Eq)]
pub enum SendRequest {
    Message { recipient: String, body: String, is_group: bool, local_ts_ms: i64 },
    Reaction {
        conv_id: String,
        emoji: String,
        is_group: bool,
        target_author: String,
        target_timestamp: i64,
        remove: bool,
    },
}

/// Something to make durable. The handlers queue these in the order in which
/// the events ask for them; the caller writes them, best effort.
#[derive(Debug, Clone, PartialEq, Eq)]
pub enum DbOp {
    /// Insert the conversation, or set its name where it is stored already.
    UpsertConversation { id: String, name: String, is_group: bool },
    InsertMessage {
        conv_id: String,
        sender: String,
        timestamp: i64,
        body: String,
        is_system: bool,
        status: Option<MessageStatus>,
        timestamp_ms: i64,
    },
    /// Raise the stored state of the user's message with this timestamp; the
    /// store itself refuses to lower it.
    UpdateMessageStatus { conv_id: String, timestamp_ms: i64, status: i32 },
    /// Replace the local timestamp of the user's message by the server's.
    UpdateMessageTimestampMs { conv_id: String, old_ts: i64, new_ts: i64, status: i32 },
    /// Mark everything stored for the conversation as read.
    SaveReadMarker { conv_id: String },
    UpsertReaction {
        conv_id: String,
        target_ts_ms: i64,
        target_author: String,
        sender: String,
        emoji: String,
    },
    RemoveReaction { conv_id: String, target_ts_ms: i64, target_author: String, sender: String },
    SetMuted { conv_id: String, muted: bool },
}

impl View for DbOp {
    type V = DbOpView;

    open spec fn view(&self) -> DbOpView {
        match *self {
            DbOp::UpsertConversation { id, name, is_group } => DbOpView::UpsertConversation {
                id: id@,
                name: name@,
                is_group,
            },
            DbOp::InsertMessage {
                conv_id,
                sender,
                timestamp,
                body,
                is_system,
                status,
                timestamp_ms,
            } => DbOpView::InsertMessage {
                conv_id: conv_id@,
                sender: sender@,
                timestamp,
                body: body@,
                is_system,
                status,
                timestamp_ms,
            },
            DbOp::UpdateMessageStatus { conv_id, timestamp_ms, status } => {
                DbOpView::UpdateMessageStatus { conv_id: conv_id@, timestamp_ms, status }
            },
            DbOp::UpdateMessageTimestampMs { conv_id, old_ts, new_ts, status } => {
                DbOpView::UpdateMessageTimestampMs { conv_id: conv_id@, old_ts, new_ts, status }
            },
            DbOp::SaveReadMarker { conv_id } => DbOpView::SaveReadMarker { conv_id: conv_id@ },
            DbOp::UpsertReaction { conv_id, target_ts_ms, target_author, sender, emoji } => {
                DbOpView::UpsertReaction {
                    conv_id: conv_id@,
                    target_ts_ms,
                    target_author: target_author@,
                    sender: sender@,
                    emoji: emoji@,
                }
            },
            DbOp::RemoveReaction { conv_id, target_ts_ms, target_author, sender } => {
                DbOpView::RemoveReaction {
                    conv_id: conv_id@,
                    target_ts_ms,
                    target_author: target_author@,
                    sender: sender@,
                }
            },
            DbOp::SetMuted { conv_id, muted } => DbOpView::SetMuted { conv_id: conv_id@, muted },
        }
    }
}

/// Application state.
#[derive(Debug)]
pub struct Reconciler {
    /// The conversations by id, in the order in which they were created.
    pub conversations: StrMap<Conversation>,
    /// Ordered list of conversation ids for sidebar display.
    pub conversation_order: Vec<String>,
    /// Currently selected conversation id.
    pub active_conversation: Option<String>,
    /// Status bar message.
    pub status_message: String,
    /// Our own account number, for identifying reactions to our messages.
    pub account: String,
    /// Contact and group names by number or id, for name resolution.
    pub contact_names: StrMap<String>,
    /// Per-conversation typing indicators: when each started, in
    /// milliseconds on the caller's clock.
    pub typing_indicators: StrMap<i64>,
    /// Bell pending: set when a message arrives, cleared by the main loop.
    pub pending_bell: bool,
    /// Terminal bell for 1:1 messages in background conversations.
    pub notify_direct: bool,
    /// Terminal bell for group messages in background conversations.
    pub notify_group: bool,
    /// Conversations muted from notifications.
    pub muted_conversations: Vec<String>,
    /// Pending sends: request id to conversation id and local timestamp.
    pub pending_sends: StrMap<(String, i64)>,
    /// Receipts that named a timestamp which no message carried yet: sender,
    /// kind, timestamps. They are tried again after each confirmed send.
    pub pending_receipts: Vec<(String, String, Vec<i64>)>,
    /// What the caller has to make durable, oldest first.
    pub db_ops: Vec<DbOp>,
}

impl View for Reconciler {
    type V = ReconcilerView;

    open spec fn view(&self) -> ReconcilerView {
        ReconcilerView {
            ledger: self.ledger(),
            order: self.order_view(),
            active: opt_view(self.active_conversation),
            names: self.contact_names.map_view(),
            typing: self.typing_indicators.map_view(),
            pending_sends: self.pending_sends.map_view(),
            muted: self.muted_view(),
            notify_direct: self.notify_direct,
            notify_group: self.notify_group,
            pending_bell: self.pending_bell,
            status_message: self.status_message@,
            account: self.account@,
        }
    }
}

/// What a buffered receipt holds.
pub open spec fn receipt_view(r: (String, String, Vec<i64>)) -> ReceiptView {
    ReceiptView { sender: r.0@, kind: r.1@, timestamps: r.2@ }
}

/// What the buffered receipts hold, in order.
pub open spec fn receipt_views(rs: Seq<(String, String, Vec<i64>)>) -> Seq<ReceiptView> {
    Seq::new(rs.len(), |i: int| receipt_view(rs[i]))
}

impl Reconciler {
    /// The conversations as the reconciler sees them.
    pub open spec fn conv_views(&self) -> Seq<ConversationView> {
        Seq::new(self.conversations.entries@.len(), |i: int| self.conversations.entries@[i].1@)
    }

    /// The part of the state that sends, receipts and reactions work on.
    pub open spec fn ledger(&self) -> Ledger {
        Ledger {
            keys: self.conversations.keys(),
            convs: self.conv_views(),
            pending_receipts: receipt_views(self.pending_receipts@),
            ops: views(self.db_ops@),
        }
    }

    /// The sidebar order, as characters.
    pub open spec fn order_view(&self) -> Seq<Seq<char>> {
        views(self.conversation_order@)
    }

    /// The muted conversations, as characters.
    pub open spec fn muted_view(&self) -> Seq<Seq<char>> {
        views(self.muted_conversations@)
    }

    /// The state's invariant: each table holds a key once, and each message
    /// holds at most one reaction per sender.
    pub open spec fn wf(&self) -> bool {
        &&& self.conversations.wf()
        &&& self.contact_names.wf()
        &&& self.typing_indicators.wf()
        &&& self.pending_sends.wf()
        &&& forall|i: int|
            0 <= i < self.conversations.entries@.len() ==> conversation_wf(
                #[trigger] self.conversations.entries@[i].1@,
            )
    }

    /// The state of a client that has not heard from the backend yet.
    pub fn new(account: String) -> (r: Self)
        ensures
            r.wf(),
            r.account == account,
            r.conversations.entries@.len() == 0,
            r.conversation_order@.len() == 0,
            r.active_conversation.is_none(),
            r.contact_names.entries@.len() == 0,
            r.typing_indicators.entries@.len() == 0,
            r.pending_sends.entries@.len() == 0,
            r.pending_receipts@.len() == 0,
            r.db_ops@.len() == 0,
            r.muted_conversations@.len() == 0,
            !r.pending_bell,
            r.notify_direct,
            r.notify_group,
            r.status_message@ == "connecting..."@,
    {
        Reconciler {
            conversations: StrMap::new(),
            conversation_order: Vec::new(),
            active_conversation: None,
            status_message: String::from_str("connecting..."),
            account,
            contact_names: StrMap::new(),
            typing_indicators: StrMap::new(),
            pending_bell: false,
            notify_direct: true,
            notify_group: true,
            muted_conversations: Vec::new(),
            pending_sends: StrMap::new(),
            pending_receipts: Vec::new(),
            db_ops: Vec::new(),
        }
    }
}

impl Reconciler {
    /// Handles an event of the backend that arrived at `now`, a number of
    /// milliseconds on the caller's clock.
    ///
    /// This is the one entry point for what the backend reports; what each
    /// kind of event does is stated by [`event_handled`]. The clock is read
    /// for typing indicators only.
    pub fn handle_signal_event_at(&mut self, event: SignalEvent, now: i64)
        requires
            old(self).wf(),
        ensures
            final(self).wf(),
            final(self)@ == event_handled(old(self)@, event@, now),
            *final(self) == (Reconciler {
                conversations: final(self).conversations,
                conversation_order: final(self).conversation_order,
                status_message: final(self).status_message,
                contact_names: final(self).contact_names,
                typing_indicators: final(self).typing_indicators,
                pending_bell: final(self).pending_bell,
                pending_sends: final(self).pending_sends,
                pending_receipts: final(self).pending_receipts,
                db_ops: final(self).db_ops,
                ..*old(self)
            }),
    {
        let ghost w = self@;
        match event {
            SignalEvent::MessageReceived(msg) => self.handle_message(msg),
            SignalEvent::ReceiptReceived { sender, receipt_type, timestamps } => {
                self.handle_receipt(sender.as_str(), receipt_type.as_str(), timestamps.as_slice());
            },
            SignalEvent::SendTimestamp { rpc_id, server_ts } => {
                let ghost sends = self.pending_sends;
                proof {
                    lemma_lookup_view(sends, rpc_id@);
                }
                self.handle_send_timestamp(rpc_id.as_str(), server_ts);
                proof {
                    if sends.has(rpc_id@) {
                        lemma_removed_view(sends, self.pending_sends, rpc_id@);
                    } else {
                        lemma_removed_view(sends, self.pending_sends, rpc_id@);
                        assert(sends.map_view().remove(rpc_id@) =~= sends.map_view());
                    }
                }
            },
            SignalEvent::SendFailed { rpc_id } => {
                self.status_message = String::from_str("send failed");
                let ghost sends = self.pending_sends;
                proof {
                    lemma_lookup_view(sends, rpc_id@);
                }
                self.handle_send_failed(rpc_id.as_str());
                proof {
                    lemma_removed_view(sends, self.pending_sends, rpc_id@);
                    if !sends.has(rpc_id@) {
                        assert(sends.map_view().remove(rpc_id@) =~= sends.map_view());
                    }
                }
            },
            SignalEvent::TypingIndicator { sender, sender_name, is_typing } => {
                self.handle_typing(sender.as_str(), &sender_name, is_typing, now);
            },
            SignalEvent::ReactionReceived {
                conv_id,
                emoji,
                sender,
                sender_name,
                target_author,
                target_timestamp,
                is_remove,
            } => {
                self.learn_name(sender.as_str(), &sender_name);
                self.handle_reaction(
                    conv_id.as_str(),
                    emoji.as_str(),
                    sender.as_str(),
                    target_author.as_str(),
                    target_timestamp,
                    is_remove,
                );
            },
            SignalEvent::ContactList(contacts) => self.handle_contact_list(contacts),
            SignalEvent::GroupList(groups) => self.handle_group_list(groups),
            SignalEvent::Error(err) => {
                self.status_message = crate::text::concat("error: ", err.as_str());
            },
        }
    }

    /// Handles an event of the backend that arrives now.
    ///
    /// The state afterwards is that of [`Reconciler::handle_signal_event_at`] for
    /// the time that the clock shows.
    pub fn handle_signal_event(&mut self, event: SignalEvent)
        requires
            old(self).wf(),
        ensures
            final(self).wf(),
            exists|now: i64| final(self)@ == event_handled(old(self)@, event@, now),
    {
        let now = crate::clock::now_millis();
        self.handle_signal_event_at(event, now);
    }
}

/// The overlays that can cover the chat, and what is selected in each.
#[derive(Debug)]
pub struct Overlays {
    /// Settings overlay visible.
    pub show_settings: bool,
    /// Cursor position in the settings list.
    pub settings_index: usize,
    /// Settings were changed and wait to be written: set when the settings
    /// overlay closes, cleared by the main loop.
    pub pending_settings_save: bool,
    /// Help overlay visible.
    pub show_help: bool,
    /// Contacts overlay visible.
    pub show_contacts: bool,
    /// Cursor position in the contacts list.
    pub contacts_index: usize,
    /// Type-to-filter text for the contacts overlay.
    pub contacts_filter: String,
    /// Filtered list of (number, display name) for the contacts overlay.
    pub contacts_filtered: Vec<(String, String)>,
    /// Reaction picker overlay visible.
    pub show_reaction_picker: bool,
    /// Selected index in the reaction picker.
    pub reaction_picker_index: usize,
    /// The selected message waits to be copied to the clipboard, as a full
    /// line (`Some(true)`) or as its text (`Some(false)`): set by a key,
    /// taken by the main loop.
    pub pending_copy: Option<bool>,
}

/// How the chat is laid out and drawn.
#[derive(Debug)]
pub struct Screen {
    /// Whether the sidebar is visible.
    pub sidebar_visible: bool,
    /// Resizable sidebar width (14 to 40).
    pub sidebar_width: u16,
    /// Scroll offset for messages (0: bottom).
    pub scroll_offset: usize,
    /// Last-read message index per conversation (for the unread marker).
    pub last_read_index: StrMap<usize>,
    /// Show inline image previews in chat.
    pub inline_images: bool,
    /// Use the terminal's own image protocol instead of half blocks.
    pub native_images: bool,
    /// Detected terminal image protocol.
    pub image_protocol: ImageProtocol,
    /// Show delivery and read states on outgoing messages.
    pub show_receipts: bool,
    /// Use colored state symbols.
    pub color_receipts: bool,
    /// Use Nerd Font glyphs for state symbols.
    pub nerd_fonts: bool,
    /// Show who reacted instead of how many.
    pub reaction_verbose: bool,
    /// Link regions detected in the last rendered frame.
    pub link_regions: Vec<LinkRegion>,
    /// Images visible on screen for native protocol overlay.
    pub visible_images: Vec<VisibleImage>,
    /// Timestamp of the message at the scroll cursor, in milliseconds.
    pub focused_message_time: Option<i64>,
    /// Previous active conversation id, for detecting chat switches.
    pub prev_active_conversation: Option<String>,
}

/// Application state.
#[derive(Debug)]
pub struct App {
    /// Conversations, and what is pending between client and backend.
    pub core: Reconciler,
    /// The input line.
    pub input: InputLine,
    /// The overlays.
    pub overlays: Overlays,
    /// Layout and drawing preferences.
    pub screen: Screen,
    /// Whether the app should quit.
    pub should_quit: bool,
    /// Whether we are connected to the backend.
    pub connected: bool,
    /// Persistent error from a connection failure.
    pub connection_error: Option<String>,
    /// Incognito mode: nothing is stored locally.
    pub incognito: bool,
}

impl App {
    /// The state's invariant: that of its parts.
    pub open spec fn wf(&self) -> bool {
        &&& self.core.wf()
        &&& self.input.wf()
        &&& self.screen.last_read_index.wf()
    }

    /// The state of a client that has not heard from the backend yet.
    pub fn new(account: String) -> (r: Self)
        ensures
            r.wf(),
            r.core.account == account,
            r.core@.ledger.convs.len() == 0,
            r.core.conversation_order@.len() == 0,
            r.core.active_conversation.is_none(),
            r.core.pending_receipts@.len() == 0,
            r.core.db_ops@.len() == 0,
            r.input.buffer@.len() == 0 && r.input.cursor == 0,
            r.input.mode == InputMode::Insert,
            r.screen.sidebar_visible && r.screen.sidebar_width == 22 && r.screen.scroll_offset == 0,
            r.screen.inline_images && r.screen.show_receipts && r.screen.color_receipts,
            !r.screen.native_images && !r.screen.nerd_fonts && !r.screen.reaction_verbose,
            r.screen.image_protocol == ImageProtocol::Halfblock,
            !r.overlays.show_settings && !r.overlays.show_help && !r.overlays.show_contacts
                && !r.overlays.show_reaction_picker,
            !r.should_quit && !r.connected && !r.incognito,
            r.connection_error.is_none(),
            r.input.history@.len() == 0 && r.input.history_index.is_none(),
            r.input.history_draft@.len() == 0,
            !r.input.autocomplete_visible && r.input.autocomplete_candidates@.len() == 0,
            r.input.autocomplete_index == 0,
            r.overlays.settings_index == 0 && r.overlays.contacts_index == 0
                && r.overlays.reaction_picker_index == 0,
            r.overlays.contacts_filter@.len() == 0 && r.overlays.contacts_filtered@.len() == 0,
            !r.overlays.pending_settings_save && r.overlays.pending_copy.is_none(),
            r.screen.last_read_index.entries@.len() == 0,
            r.screen.link_regions@.len() == 0 && r.screen.visible_images@.len() == 0,
            r.screen.focused_message_time.is_none(),
            r.screen.prev_active_conversation.is_none(),
            r.core.contact_names.entries@.len() == 0,
            r.core.typing_indicators.entries@.len() == 0,
            r.core.pending_sends.entries@.len() == 0,
            r.core.muted_conversations@.len() == 0,
            !r.core.pending_bell && r.core.notify_direct && r.core.notify_group,
            r.core.status_message@ == "connecting..."@,
    {
        App {
            core: Reconciler::new(account),
            input: InputLine::new(),
            overlays: Overlays {
                show_settings: false,
                settings_index: 0,
                pending_settings_save: false,
                show_help: false,
                show_contacts: false,
                contacts_index: 0,
                contacts_filter: String::new(),
                contacts_filtered: Vec::new(),
                show_reaction_picker: false,
                reaction_picker_index: 0,
                pending_copy: None,
            },
            screen: Screen {
                sidebar_visible: true,
                sidebar_width: 22,
                scroll_offset: 0,
                last_read_index: StrMap::new(),
                inline_images: true,
                native_images: false,
                image_protocol: ImageProtocol::Halfblock,
                show_receipts: true,
                color_receipts: true,
                nerd_fonts: false,
                reaction_verbose: false,
                link_regions: Vec::new(),
                visible_images: Vec::new(),
                focused_message_time: None,
                prev_active_conversation: None,
            },
            should_quit: false,
            connected: false,
            connection_error: None,
            incognito: false,
        }
    }

    /// Notes that the backend is connected.
    pub fn set_connected(&mut self)
        ensures
            final(self).connected,
            final(self).core.status_message@ == "connected | no conversation selected"@,
            final(self).core == (Reconciler {
                status_message: final(self).core.status_message,
                ..old(self).core
            }),
            *final(self) == (App { core: final(self).core, connected: true, ..*old(self) }),
    {
        self.connected = true;
        self.core.status_message = String::from_str("connected | no conversation selected");
    }

    /// Handles an event of the backend that arrived at `now`; see
    /// [`Reconciler::handle_signal_event_at`].
    pub fn handle_signal_event_at(&mut self, event: SignalEvent, now: i64)
        requires
            old(self).wf(),
        ensures
            final(self).wf(),
            final(self).core@ == event_handled(old(self).core@, event@, now),
            *final(self) == (App { core: final(self).core, ..*old(self) }),
    {
        self.core.handle_signal_event_at(event, now);
    }

    /// Handles an event of the backend that arrives now.
    pub fn handle_signal_event(&mut self, event: SignalEvent)
        requires
            old(self).wf(),
        ensures
            final(self).wf(),
            exists|now: i64| final(self).core@ == event_handled(old(self).core@, event@, now),
            *final(self) == (App { core: final(self).core, ..*old(self) }),
    {
        self.core.handle_signal_event(event);
    }
}

} // verus!
