//! Reactions to a message.

use vstd::prelude::*;
use crate::chat_events::ChatEvents;
use crate::events::MessageInternal;
use crate::lifecycle::{edited_at, lemma_edit_keeps};
use crate::message::ReactionEntry;
use crate::seq_util::{
    contains_id, first_index_of, first_match, lemma_first_match_at, lemma_first_match_none, position_of,
};
use crate::types::{EventIndex, MessageId, MessageIndex, TimestampMillis, UserId};

verus! {

/// A reaction given to, or taken back from, a message.
#[derive(Debug)]
pub struct AddRemoveReactionArgs {
    pub user_id: UserId,
    pub min_visible_event_index: EventIndex,
    pub thread_root_message_index: Option<MessageIndex>,
    pub message_id: MessageId,
    pub reaction: String,
    pub now: TimestampMillis,
}

/// How giving or taking back a reaction ended, as far as the log is
/// concerned.
#[derive(Clone, Copy, Debug, PartialEq, Eq, Structural)]
pub enum ReactionOutcome {
    Success,
    NoChange,
    MessageNotFound,
}

/// The entries for the given reaction.
pub open spec fn is_reaction(reaction: Seq<char>) -> spec_fn(ReactionEntry) -> bool {
    |e: ReactionEntry| e.reaction@ == reaction
}

/// Position of the entry for a reaction, or the number of entries if the
/// reaction has not been given.
pub open spec fn reaction_position(reactions: Seq<ReactionEntry>, reaction: Seq<char>) -> int {
    first_match(reactions, is_reaction(reaction))
}

/// Whether the user has given the reaction.
pub open spec fn has_reacted(reactions: Seq<ReactionEntry>, user_id: UserId, reaction: Seq<char>) -> bool {
    reaction_position(reactions, reaction) < reactions.len() && reactions[reaction_position(
        reactions,
        reaction,
    )].users@.contains(user_id)
}

/// The reactions after a user gave one: the user joins the entry for the
/// reaction, which is created at the end if need be.
pub open spec fn reaction_added(
    before: Seq<ReactionEntry>,
    after: Seq<ReactionEntry>,
    user_id: UserId,
    reaction: String,
) -> bool {
    let p = reaction_position(before, reaction@);
    if p < before.len() {
        &&& after == before.update(p, after[p])
        &&& after.len() == before.len()
        &&& after[p].reaction == before[p].reaction
        &&& after[p].users@ == before[p].users@.push(user_id)
    } else {
        &&& after.len() == before.len() + 1
        &&& after.drop_last() == before
        &&& after.last().reaction == reaction
        &&& after.last().users@ == seq![user_id]
    }
}

/// The reactions after a user took one back: the user leaves the entry
/// for the reaction, and the entry goes if nobody is left in it.
pub open spec fn reaction_removed(
    before: Seq<ReactionEntry>,
    after: Seq<ReactionEntry>,
    user_id: UserId,
    reaction: Seq<char>,
) -> bool {
    let p = reaction_position(before, reaction);
    let users = before[p].users@;
    if users.len() == 1 {
        after == before.remove(p)
    } else {
        &&& after == before.update(p, after[p])
        &&& after.len() == before.len()
        &&& after[p].reaction == before[p].reaction
        &&& after[p].users@ == users.remove(first_index_of(users, user_id))
    }
}

/// Position of the entry for a reaction.
fn find_reaction(reactions: &Vec<ReactionEntry>, reaction: &String) -> (r: Option<usize>)
    ensures
        match r {
            Some(p) => p == reaction_position(reactions@, reaction@) && p < reactions@.len(),
            None => reaction_position(reactions@, reaction@) >= reactions@.len(),
        },
{
    let ghost pred = is_reaction(reaction@);
    let mut i: usize = 0;
    while i < reactions.len()
        invariant
            i <= reactions@.len(),
            pred == is_reaction(reaction@),
            forall|j: int| 0 <= j < i ==> !pred(#[trigger] reactions@[j]),
        decreases reactions@.len() - i,
    {
        if reactions[i].reaction == *reaction {
            proof {
                lemma_first_match_at(reactions@, pred, i as int);
            }
            return Some(i);
        }
        i += 1;
    }
    proof {
        lemma_first_match_none(reactions@, pred);
    }
    None
}

    /// Whether the user has given the reaction.
impl MessageInternal {
    pub fn user_has_reacted(&self, user_id: UserId, reaction: &String) -> (r: bool)
        ensures
            r == has_reacted(self.reactions@, user_id, reaction@),
    {
        match find_reaction(&self.reactions, reaction) {
            Some(p) => contains_id(&self.reactions[p].users, user_id),
            None => false,
        }
    }

    /// Adds the reaction of a user who has not given it yet.
    pub fn add_reaction(&mut self, user_id: UserId, reaction: String)
        requires
            !has_reacted(old(self).reactions@, user_id, reaction@),
        ensures
            reaction_added(old(self).reactions@, final(self).reactions@, user_id, reaction),
            *final(self) == (MessageInternal { reactions: final(self).reactions, ..*old(self) }),
    {
        match find_reaction(&self.reactions, &reaction) {
            Some(p) => {
                self.reactions[p].users.push(user_id);
            },
            None => {
                let mut users: Vec<UserId> = Vec::new();
                users.push(user_id);
                self.reactions.push(ReactionEntry { reaction, users });
                assert(self.reactions@.drop_last() == old(self).reactions@);
            },
        }
    }

    /// Takes back the reaction of a user who has given it.
    pub fn remove_reaction(&mut self, user_id: UserId, reaction: &String)
        requires
            has_reacted(old(self).reactions@, user_id, reaction@),
        ensures
            reaction_removed(old(self).reactions@, final(self).reactions@, user_id, reaction@),
            *final(self) == (MessageInternal { reactions: final(self).reactions, ..*old(self) }),
    {
        match find_reaction(&self.reactions, reaction) {
            Some(p) => {
                if self.reactions[p].users.len() == 1 {
                    self.reactions.remove(p);
                } else {
                    match position_of(&self.reactions[p].users, user_id) {
                        Some(q) => {
                            self.reactions[p].users.remove(q);
                        },
                        None => {},
                    }
                }
            },
            None => {},
        }
    }
}

impl ChatEvents {
    /// The outcome of giving or taking back a reaction: the message must
    /// be one that the user may see, and the user must not have given the
    /// reaction yet (or, to take it back, must have given it).
    pub open spec fn reaction_verdict(&self, args: AddRemoveReactionArgs, adding: bool) -> ReactionOutcome {
        match self.target(args.min_visible_event_index, args.thread_root_message_index, args.message_id) {
            None => ReactionOutcome::MessageNotFound,
            Some(p) => if has_reacted(
                self.log(args.thread_root_message_index).events@[p].message().reactions@,
                args.user_id,
                args.reaction@,
            ) == adding {
                ReactionOutcome::NoChange
            } else {
                ReactionOutcome::Success
            },
        }
    }

    /// Records a reaction to a message.
    pub fn add_reaction(&mut self, args: AddRemoveReactionArgs) -> (r: ReactionOutcome)
        requires
            old(self).wf(),
        ensures
            final(self).wf(),
            reaction_post(*old(self), args, true, *final(self), r),
    {
        let thread_root = args.thread_root_message_index;
        let now = args.now;
        let p = match self.find_target(args.min_visible_event_index, thread_root, args.message_id) {
            Some(p) => p,
            None => {
                return ReactionOutcome::MessageNotFound;
            },
        };
        let w = self.event_at(thread_root, p);
        let event_index = w.index;
        let reacted = match w.as_message() {
            Some(m) => m.user_has_reacted(args.user_id, &args.reaction),
            None => vstd::pervasive::unreached(),
        };
        if reacted {
            return ReactionOutcome::NoChange;
        }
        let m = self.message_mut(thread_root, p);
        m.add_reaction(args.user_id, args.reaction);
        m.last_updated = Some(now);
        proof {
            lemma_edit_keeps(*old(self), *self, thread_root, p as int);
            assert(self.thread_position(thread_root->Some_0) == old(self).thread_position(thread_root->Some_0));
        }
        self.mark_updated(thread_root, event_index, now);
        ReactionOutcome::Success
    }

    /// Takes back a reaction to a message.
    pub fn remove_reaction(&mut self, args: AddRemoveReactionArgs) -> (r: ReactionOutcome)
        requires
            old(self).wf(),
        ensures
            final(self).wf(),
            reaction_post(*old(self), args, false, *final(self), r),
    {
        let thread_root = args.thread_root_message_index;
        let now = args.now;
        let p = match self.find_target(args.min_visible_event_index, thread_root, args.message_id) {
            Some(p) => p,
            None => {
                return ReactionOutcome::MessageNotFound;
            },
        };
        let w = self.event_at(thread_root, p);
        let event_index = w.index;
        let reacted = match w.as_message() {
            Some(m) => m.user_has_reacted(args.user_id, &args.reaction),
            None => vstd::pervasive::unreached(),
        };
        if !reacted {
            return ReactionOutcome::NoChange;
        }
        let m = self.message_mut(thread_root, p);
        m.remove_reaction(args.user_id, &args.reaction);
        m.last_updated = Some(now);
        proof {
            lemma_edit_keeps(*old(self), *self, thread_root, p as int);
            assert(self.thread_position(thread_root->Some_0) == old(self).thread_position(thread_root->Some_0));
        }
        self.mark_updated(thread_root, event_index, now);
        ReactionOutcome::Success
    }
}

/// What giving (`adding`) or taking back a reaction does: on success the
/// reactions of the message change accordingly and the message is marked
/// as updated; otherwise nothing changes.
pub open spec fn reaction_post(
    pre: ChatEvents,
    args: AddRemoveReactionArgs,
    adding: bool,
    post: ChatEvents,
    r: ReactionOutcome,
) -> bool {
    &&& r == pre.reaction_verdict(args, adding)
    &&& if r is Success {
        let root = args.thread_root_message_index;
        let p = pre.target(args.min_visible_event_index, root, args.message_id)->Some_0;
        let before = pre.log(root).events@[p].message();
        let after = post.log(root).events@[p].message();
        &&& edited_at(pre, post, root, p, args.now)
        &&& if adding {
            reaction_added(before.reactions@, after.reactions@, args.user_id, args.reaction)
        } else {
            reaction_removed(before.reactions@, after.reactions@, args.user_id, args.reaction@)
        }
        &&& after == (MessageInternal { reactions: after.reactions, last_updated: Some(args.now), ..before })
    } else {
        post == pre
    }
}

} // verus!
