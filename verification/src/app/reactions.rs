//! Reactions: at most one per sender on a message.

use vstd::prelude::*;
use crate::app::{Conversation, DbOp, DisplayMessage, Reconciler};
use crate::app::timeline::{
    conversation_wf, is_reaction_target, lemma_first_at, lemma_reaction_index,
    lemma_reaction_target, lemma_reactions_merged_wf, message_wf, reaction_handled, reaction_op,
    reaction_target, reactions_merged, reactor_display, stored_reaction_attached,
    stored_reactions_attached, with_message, with_reactions, without_sender, MessageView,
    StoredReactionView,
};
use crate::model::{lemma_views_push, opt_str_view, views};
use crate::signal::types::{Reaction, ReactionView};
use crate::strmap::lemma_index_in;

verus! {

/// The reactions without those from `who`.
pub fn remove_reactions_of(reactions: &Vec<Reaction>, who: &str) -> (r: Vec<Reaction>)
    ensures
        views(r@) == without_sender(views(reactions@), who@),
{
    let mut out: Vec<Reaction> = Vec::new();
    let mut i: usize = 0;
    proof {
        assert(views(reactions@).take(0) =~= Seq::<ReactionView>::empty());
        assert(views(out@) =~= Seq::<ReactionView>::empty());
    }
    while i < reactions.len()
        invariant
            i <= reactions.len(),
            views(out@) == without_sender(views(reactions@).take(i as int), who@),
        decreases reactions.len() - i,
    {
        proof {
            let upto = views(reactions@).take(i + 1);
            assert(upto.drop_last() =~= views(reactions@).take(i as int));
            assert(upto.last() == reactions@[i as int]@);
        }
        if !reactions[i].sender.as_str().eq(who) {
            let kept = Reaction {
                emoji: reactions[i].emoji.clone(),
                sender: reactions[i].sender.clone(),
            };
            proof {
                lemma_views_push(out@, kept);
            }
            out.push(kept);
        }
        i += 1;
    }
    proof {
        assert(views(reactions@).take(reactions@.len() as int) =~= views(reactions@));
    }
    out
}

/// Merges one reaction event from `who` into the reactions of a message.
///
/// A removal drops what `who` reacted with. Anything else replaces the
/// emoji of the reaction from `who`, or adds a reaction where there is none:
/// a sender never has two reactions on a message.
pub fn merge_reaction(reactions: &mut Vec<Reaction>, who: &str, emoji: &str, is_remove: bool)
    ensures
        views(final(reactions)@) == reactions_merged(
            views(old(reactions)@),
            who@,
            emoji@,
            is_remove,
        ),
{
    if is_remove {
        let kept = remove_reactions_of(reactions, who);
        *reactions = kept;
        return ;
    }
    let ghost before = views(reactions@);
    let mut i: usize = 0;
    while i < reactions.len()
        invariant
            i <= reactions.len(),
            !is_remove,
            reactions@ == old(reactions)@,
            before == views(reactions@),
            forall|j: int| 0 <= j < i ==> (#[trigger] before[j]).sender != who@,
        decreases reactions.len() - i,
    {
        if reactions[i].sender.as_str().eq(who) {
            proof {
                lemma_reaction_index(before, who@);
                assert(before[i as int].sender == who@);
            }
            reactions[i].emoji = String::from_str(emoji);
            proof {
                assert(views(reactions@) =~= before.update(
                    i as int,
                    ReactionView { emoji: emoji@, sender: before[i as int].sender },
                ));
            }
            return ;
        }
        assert(before[i as int].sender != who@);
        i += 1;
    }
    proof {
        lemma_reaction_index(before, who@);
    }
    let added = Reaction { emoji: String::from_str(emoji), sender: String::from_str(who) };
    proof {
        lemma_views_push(reactions@, added);
    }
    reactions.push(added);
}

impl Conversation {
    /// The index of the newest message that a reaction to the message of
    /// `target_author` with timestamp `ts` targets.
    pub fn find_reaction_target(
        &self,
        ts: i64,
        target_author: &str,
        account: &str,
        target_display: Option<&str>,
    ) -> (r: Option<usize>)
        ensures
            match r {
                Some(i) => i == reaction_target(
                    self@.messages,
                    ts,
                    target_author@,
                    account@,
                    opt_str_view(target_display),
                ) && i < self.messages@.len(),
                None => reaction_target(
                    self@.messages,
                    ts,
                    target_author@,
                    account@,
                    opt_str_view(target_display),
                ) == -1,
            },
    {
        let ghost display = opt_str_view(target_display);
        let mut i: usize = self.messages.len();
        while i > 0
            invariant
                i <= self.messages@.len(),
                display == opt_str_view(target_display),
                forall|j: int|
                    i <= j < self.messages@.len() ==> !is_reaction_target(
                        self.messages@[j]@,
                        ts,
                        target_author@,
                        account@,
                        display,
                    ),
            decreases i,
        {
            i -= 1;
            let m = &self.messages[i];
            let hit = m.timestamp_ms == ts && if m.sender.as_str().eq("you") {
                target_author.eq(account)
            } else {
                m.sender.as_str().eq(target_author) || match target_display {
                    Some(d) => d.eq(m.sender.as_str()),
                    None => false,
                }
            };
            if hit {
                proof {
                    lemma_reaction_target(self@.messages, ts, target_author@, account@, display);
                    assert(self@.messages[i as int] == self.messages@[i as int]@);
                    let r = reaction_target(
                        self@.messages,
                        ts,
                        target_author@,
                        account@,
                        display,
                    );
                    if r > i {
                        assert(self@.messages[r] == self.messages@[r]@);
                    }
                }
                return Some(i);
            }
        }
        proof {
            lemma_reaction_target(self@.messages, ts, target_author@, account@, display);
            let r = reaction_target(self@.messages, ts, target_author@, account@, display);
            if r >= 0 {
                assert(self@.messages[r] == self.messages@[r]@);
            }
        }
        None
    }
}

impl Reconciler {
    /// The sender under which a reaction from `sender` is shown.
    pub fn reaction_sender(&self, sender: &str) -> (r: String)
        ensures
            r@ == reactor_display(self@.names, self@.account, sender@),
    {
        if sender.eq(self.account.as_str()) {
            String::from_str("you")
        } else {
            match self.known_name(sender) {
                Some(n) => n.clone(),
                None => String::from_str(sender),
            }
        }
    }

    /// Handles a reaction to a message.
    ///
    /// The target is the newest message of the conversation with the
    /// target's timestamp whose author matches: the user's own messages
    /// match the account, any other matches by the sender's number or by the
    /// name known for it. On a match the reaction is merged into the
    /// message's reactions (see [`merge_reaction`]). The reaction is queued
    /// for writing in every case, so that it can attach once the message
    /// itself is loaded.
    pub fn handle_reaction(
        &mut self,
        conv_id: &str,
        emoji: &str,
        sender: &str,
        target_author: &str,
        target_timestamp: i64,
        is_remove: bool,
    )
        requires
            old(self).wf(),
        ensures
            final(self).wf(),
            final(self)@ == reaction_handled(
                old(self)@,
                conv_id@,
                emoji@,
                sender@,
                target_author@,
                target_timestamp,
                is_remove,
            ),
            *final(self) == (Reconciler {
                conversations: final(self).conversations,
                db_ops: final(self).db_ops,
                ..*old(self)
            }),
    {
        let ghost w = self@;
        let who = self.reaction_sender(sender);
        proof {
            lemma_index_in(w.ledger.keys, conv_id@);
        }
        match self.conversations.find(conv_id) {
            Some(p) => {
                let found = {
                    let target_display: Option<&str> = match self.known_name(target_author) {
                        Some(n) => Some(n.as_str()),
                        None => None,
                    };
                    self.conversations.entries[p].1.find_reaction_target(
                        target_timestamp,
                        target_author,
                        self.account.as_str(),
                        target_display,
                    )
                };
                match found {
                    Some(i) => {
                        let ghost conv_before = self.conversations.entries@[p as int].1@;
                        let ghost m = conv_before.messages[i as int];
                        merge_reaction(
                            &mut self.conversations.entries[p].1.messages[i].reactions,
                            who.as_str(),
                            emoji,
                            is_remove,
                        );
                        proof {
                            let merged = reactions_merged(m.reactions, who@, emoji@, is_remove);
                            let conv_after = self.conversations.entries@[p as int].1@;
                            assert(message_wf(m));
                            lemma_reactions_merged_wf(m.reactions, who@, emoji@, is_remove);
                            assert(conv_after.messages =~= conv_before.messages.update(
                                i as int,
                                with_reactions(m, merged),
                            ));
                            assert(conversation_wf(conv_after)) by {
                                assert forall|k: int|
                                    0 <= k < conv_after.messages.len() implies message_wf(
                                    #[trigger] conv_after.messages[k],
                                ) by {
                                    if k != i {
                                        assert(conv_after.messages[k] == conv_before.messages[k]);
                                    }
                                }
                            }
                            assert(self@.ledger.keys =~= w.ledger.keys);
                            assert(self@.ledger.convs =~= w.ledger.convs.update(
                                p as int,
                                with_message(
                                    w.ledger.convs[p as int],
                                    i as int,
                                    with_reactions(m, merged),
                                ),
                            ));
                        }
                    },
                    None => {},
                }
            },
            None => {},
        }
        let op = if is_remove {
            DbOp::RemoveReaction {
                conv_id: String::from_str(conv_id),
                target_ts_ms: target_timestamp,
                target_author: String::from_str(target_author),
                sender: String::from_str(sender),
            }
        } else {
            DbOp::UpsertReaction {
                conv_id: String::from_str(conv_id),
                target_ts_ms: target_timestamp,
                target_author: String::from_str(target_author),
                sender: String::from_str(sender),
                emoji: String::from_str(emoji),
            }
        };
        proof {
            lemma_views_push(self.db_ops@, op);
            assert(op@ == reaction_op(
                conv_id@,
                emoji@,
                sender@,
                target_author@,
                target_timestamp,
                is_remove,
            ));
        }
        self.db_ops.push(op);
    }
}

/// What a stored reaction holds.
pub open spec fn stored_reaction_view(row: (i64, String, String, String)) -> StoredReactionView {
    StoredReactionView {
        target_ts: row.0,
        target_author: row.1@,
        emoji: row.2@,
        sender: row.3@,
    }
}

/// What stored reactions hold, in order.
pub open spec fn stored_reaction_views(rows: Seq<(i64, String, String, String)>) -> Seq<
    StoredReactionView,
> {
    Seq::new(rows.len(), |i: int| stored_reaction_view(rows[i]))
}

/// Every message is well formed.
pub open spec fn messages_wf(msgs: Seq<MessageView>) -> bool {
    forall|i: int| 0 <= i < msgs.len() ==> message_wf(#[trigger] msgs[i])
}

/// Attaches a stored reaction to the first message with its timestamp.
fn attach_reaction(messages: &mut Vec<DisplayMessage>, ts: i64, emoji: &str, sender: &str)
    requires
        messages_wf(views(old(messages)@)),
    ensures
        messages_wf(views(final(messages)@)),
        views(final(messages)@) == stored_reaction_attached(
            views(old(messages)@),
            ts,
            emoji@,
            sender@,
        ),
{
    let ghost before = views(messages@);
    let mut i: usize = 0;
    while i < messages.len()
        invariant
            i <= messages@.len(),
            messages@ == old(messages)@,
            before == views(messages@),
            messages_wf(before),
            forall|j: int| 0 <= j < i ==> (#[trigger] before[j]).timestamp_ms != ts,
        decreases messages@.len() - i,
    {
        if messages[i].timestamp_ms == ts {
            proof {
                lemma_first_at(before, ts);
                assert(before[i as int].timestamp_ms == ts);
            }
            merge_reaction(&mut messages[i].reactions, sender, emoji, false);
            proof {
                let m = before[i as int];
                let merged = reactions_merged(m.reactions, sender@, emoji@, false);
                assert(message_wf(m));
                lemma_reactions_merged_wf(m.reactions, sender@, emoji@, false);
                let after = views(messages@);
                assert(after =~= before.update(i as int, with_reactions(m, merged)));
                assert forall|k: int| 0 <= k < after.len() implies message_wf(
                    #[trigger] after[k],
                ) by {
                    if k != i {
                        assert(after[k] == before[k]);
                    }
                }
            }
            return ;
        }
        assert(before[i as int].timestamp_ms != ts);
        i += 1;
    }
    proof {
        lemma_first_at(before, ts);
    }
}

/// Attaches stored reactions to the messages of a stored conversation:
/// each reaction goes to the first message with its timestamp, where it
/// replaces what its sender reacted with before. Reactions to messages that
/// are not among these are left out.
pub fn attach_reactions(
    messages: &mut Vec<DisplayMessage>,
    rows: &Vec<(i64, String, String, String)>,
)
    requires
        messages_wf(views(old(messages)@)),
    ensures
        messages_wf(views(final(messages)@)),
        views(final(messages)@) == stored_reactions_attached(
            views(old(messages)@),
            stored_reaction_views(rows@),
        ),
{
    let ghost all = stored_reaction_views(rows@);
    let mut k: usize = 0;
    proof {
        assert(all.take(0) =~= Seq::empty());
    }
    while k < rows.len()
        invariant
            k <= rows@.len(),
            all == stored_reaction_views(rows@),
            messages_wf(views(messages@)),
            views(messages@) == stored_reactions_attached(
                views(old(messages)@),
                all.take(k as int),
            ),
        decreases rows@.len() - k,
    {
        proof {
            assert(all.take(k + 1).drop_last() =~= all.take(k as int));
            assert(all.take(k + 1).last() == stored_reaction_view(rows@[k as int]));
        }
        attach_reaction(messages, rows[k].0, rows[k].2.as_str(), rows[k].3.as_str());
        k += 1;
    }
    proof {
        assert(all.take(all.len() as int) =~= all);
    }
}

/// Whether no sender has two of the reactions.
pub fn reactions_valid(reactions: &Vec<Reaction>) -> (r: bool)
    ensures
        r == (forall|i: int, j: int|
            0 <= i < j < reactions@.len() ==> reactions@[i].sender@ != reactions@[j].sender@),
{
    let mut j: usize = 0;
    while j < reactions.len()
        invariant
            j <= reactions@.len(),
            forall|a: int, b: int|
                0 <= a < b < j ==> reactions@[a].sender@ != reactions@[b].sender@,
        decreases reactions@.len() - j,
    {
        let mut i: usize = 0;
        while i < j
            invariant
                i <= j < reactions@.len(),
                forall|a: int| 0 <= a < i ==> reactions@[a].sender@ != reactions@[j as int].sender@,
            decreases j - i,
        {
            if reactions[i].sender.as_str().eq(reactions[j].sender.as_str()) {
                return false;
            }
            i += 1;
        }
        j += 1;
    }
    true
}

impl Conversation {
    /// Whether every message holds at most one reaction per sender.
    pub fn is_wf(&self) -> (r: bool)
        ensures
            r == conversation_wf(self@),
    {
        let mut k: usize = 0;
        while k < self.messages.len()
            invariant
                k <= self.messages@.len(),
                forall|m: int| 0 <= m < k ==> message_wf(#[trigger] self@.messages[m]),
            decreases self.messages@.len() - k,
        {
            let ok = reactions_valid(&self.messages[k].reactions);
            proof {
                let m = self@.messages[k as int];
                let rs = self.messages@[k as int].reactions@;
                assert(m.reactions == views(rs));
                if ok {
                    assert forall|i: int, j: int| 0 <= i < j < m.reactions.len() implies m.reactions[i].sender
                        != m.reactions[j].sender by {
                        assert(m.reactions[i] == rs[i]@);
                        assert(m.reactions[j] == rs[j]@);
                    }
                } else {
                    let (i, j) = choose|i: int, j: int|
                        0 <= i < j < rs.len() && rs[i].sender@ == rs[j].sender@;
                    assert(m.reactions[i] == rs[i]@);
                    assert(m.reactions[j] == rs[j]@);
                    assert(!message_wf(m));
                }
            }
            if !ok {
                return false;
            }
            k += 1;
        }
        true
    }
}

impl Reconciler {
    /// Whether the state meets its invariant, [`Reconciler::wf`]. The
    /// handlers keep the invariant; a state that was put together by other
    /// means has to pass this check before it is handed to them.
    pub fn is_wf(&self) -> (r: bool)
        ensures
            r == self.wf(),
    {
        if !(self.conversations.is_wf() && self.contact_names.is_wf()
            && self.typing_indicators.is_wf() && self.pending_sends.is_wf()) {
            return false;
        }
        let mut i: usize = 0;
        while i < self.conversations.entries.len()
            invariant
                i <= self.conversations.entries@.len(),
                forall|c: int|
                    0 <= c < i ==> conversation_wf(#[trigger] self.conversations.entries@[c].1@),
            decreases self.conversations.entries@.len() - i,
        {
            if !self.conversations.entries[i].1.is_wf() {
                return false;
            }
            i += 1;
        }
        true
    }
}

} // verus!
