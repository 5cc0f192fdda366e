//! What a recorded message means for the members: who is mentioned, who
//! starts to follow the thread, and who is to be notified.

use vstd::prelude::*;
use std::collections::HashSet;
use crate::group::{accepted_by_now, in_time};
use crate::members::{
    distinct_users, lemma_same_roles, lemma_same_users, with_mention, GroupMemberInternal, GroupMembers, Mention,
};
use crate::seq_util::{contains_id, contains_index};
use crate::thread_summary::lemma_push_contains;
use crate::types::{MessageIndex, TimestampMillis, Timestamped, UserId, Version};

verus! {

broadcast use vstd::std_specs::hash::group_hash_axioms;

/// A recorded message as far as the members are concerned.
#[derive(Debug)]
pub struct Delivery {
    pub sender: UserId,
    pub thread_root: Option<MessageIndex>,
    pub message_index: MessageIndex,
    pub now: TimestampMillis,
    /// The users whom the sender mentioned.
    pub mentioned: HashSet<UserId>,
    /// The author of the message that this one replies to.
    pub replied_to: Option<UserId>,
    /// The author of the thread's root message, for a message in a thread.
    pub root_sender: Option<UserId>,
    /// Whether this is the first reply in its thread.
    pub first_reply: bool,
    /// The followers of the thread, for a message in a thread.
    pub followers: Option<Vec<UserId>>,
    /// Whether the message mentions everyone and the sender may do so.
    pub everyone_mentioned: bool,
    /// Whether mentions count for nothing.
    pub mentions_disabled: bool,
    /// The version of the rules that the sender accepts with this message.
    pub accepted_version: Option<Version>,
}

/// A recorded message as far as the members are concerned, in
/// mathematical terms.
pub struct DeliveryView {
    pub sender: UserId,
    pub thread_root: Option<MessageIndex>,
    pub message_index: MessageIndex,
    pub now: TimestampMillis,
    pub mentioned: Set<UserId>,
    pub replied_to: Option<UserId>,
    pub root_sender: Option<UserId>,
    pub first_reply: bool,
    pub followers: Option<Set<UserId>>,
    pub everyone_mentioned: bool,
    pub mentions_disabled: bool,
    pub accepted_version: Option<Version>,
}

impl View for Delivery {
    type V = DeliveryView;

    open spec fn view(&self) -> DeliveryView {
        DeliveryView {
            sender: self.sender,
            thread_root: self.thread_root,
            message_index: self.message_index,
            now: self.now,
            mentioned: self.mentioned@,
            replied_to: self.replied_to,
            root_sender: self.root_sender,
            first_reply: self.first_reply,
            followers: match self.followers {
                Some(f) => Some(f@.to_set()),
                None => None,
            },
            everyone_mentioned: self.everyone_mentioned,
            mentions_disabled: self.mentions_disabled,
            accepted_version: self.accepted_version,
        }
    }
}

/// The version that counts as accepted where a member says to have
/// accepted `version` while `in_force` is the version of the rules: a
/// version yet to come counts as the one in force.
pub open spec fn no_later(version: Option<Version>, in_force: Version) -> Option<Version> {
    match version {
        Some(v) => Some(if v > in_force {
            in_force
        } else {
            v
        }),
        None => None,
    }
}

/// The acceptance on record after a member accepted `version` at `now`: a
/// later version replaces an earlier one, never the other way round.
pub open spec fn acceptance_after(
    on_record: Option<Timestamped<Version>>,
    version: Option<Version>,
    now: TimestampMillis,
) -> Option<Timestamped<Version>> {
    match version {
        Some(v) => if on_record matches Some(a) && a.value >= v {
            on_record
        } else {
            Some(Timestamped { value: v, timestamp: now })
        },
        None => on_record,
    }
}

impl DeliveryView {
    /// The mention set: the users whom the sender mentioned, the author of
    /// the message replied to, and, for the first reply in a thread, the
    /// author of the root.
    pub open spec fn in_mention_set(&self, user_id: UserId) -> bool {
        ||| self.mentioned.contains(user_id)
        ||| self.replied_to == Some(user_id)
        ||| (self.thread_root is Some && self.first_reply && self.root_sender == Some(user_id))
    }

    /// The users who take part in the thread through this message: the
    /// sender and the mention set.
    pub open spec fn takes_part(&self, user_id: UserId) -> bool {
        self.thread_root is Some && (self.in_mention_set(user_id) || user_id == self.sender)
    }

    /// Whether the message counts as a mention of the member: the member
    /// is not suspended and not the sender, mentions are not disabled, and
    /// everyone is mentioned or the member is in the mention set.
    pub open spec fn mentions_member(&self, member: GroupMemberInternal) -> bool {
        !member.suspended.value && member.user_id != self.sender && !self.mentions_disabled && (
        self.everyone_mentioned || self.in_mention_set(member.user_id))
    }

    /// Whether the member hears of the message without being mentioned: of
    /// a message in a thread as a follower of the thread, muted or not; of
    /// a top-level message unless the member has muted notifications.
    pub open spec fn hears_unmentioned(&self, member: GroupMemberInternal) -> bool {
        match self.followers {
            Some(f) => f.contains(member.user_id),
            None => !member.notifications_muted.value,
        }
    }

    /// Whether the member is to be notified: the member is not suspended
    /// and not the sender, and is mentioned, or follows the thread, or, for
    /// a top-level message, has not muted notifications.
    pub open spec fn notifies_member(&self, member: GroupMemberInternal) -> bool {
        !member.suspended.value && member.user_id != self.sender && (self.mentions_member(member)
            || self.hears_unmentioned(member))
    }

    /// Whether the author of the thread's root is to be notified as such:
    /// always, unless they sent the message themselves.
    pub open spec fn notifies_root_sender(&self, user_id: UserId) -> bool {
        self.thread_root is Some && self.root_sender == Some(user_id) && user_id != self.sender
    }

    /// Whether `user_id` is to be notified, given the roster.
    pub open spec fn notifies(&self, members: Seq<GroupMemberInternal>, user_id: UserId) -> bool {
        self.notifies_root_sender(user_id) || exists|i: int|
            0 <= i < members.len() && (#[trigger] members[i]).user_id == user_id && self.notifies_member(members[i])
    }

    /// The record of a member after the message: a mention is added to the
    /// index of a mentioned member; the thread is added to those that a
    /// participant follows, unless they follow it already or have
    /// unfollowed it; the sender's acceptance of the rules is recorded.
    pub open spec fn member_after(&self, before: GroupMemberInternal, after: GroupMemberInternal) -> bool {
        &&& after.mentions@ == if self.mentions_member(before) {
            with_mention(
                before.mentions@,
                Mention {
                    thread_root_message_index: self.thread_root,
                    message_index: self.message_index,
                    timestamp: self.now,
                },
            )
        } else {
            before.mentions@
        }
        &&& after.threads@ == if self.takes_part(before.user_id) && !before.has_unfollowed(self.thread_root->Some_0)
            && !before.follows_thread(self.thread_root->Some_0) {
            before.threads@.push(self.thread_root->Some_0)
        } else {
            before.threads@
        }
        &&& after.rules_accepted == if before.user_id == self.sender {
            acceptance_after(before.rules_accepted, self.accepted_version, self.now)
        } else {
            before.rules_accepted
        }
        &&& after == (GroupMemberInternal {
            mentions: after.mentions,
            threads: after.threads,
            rules_accepted: after.rules_accepted,
            ..before
        })
    }

    /// The roster after the message: every member's record is brought up
    /// to date, nobody joins or leaves, and the block list stays.
    pub open spec fn roster_after(&self, pre: GroupMembers, post: GroupMembers) -> bool {
        &&& post.blocked == pre.blocked
        &&& post.members@.len() == pre.members@.len()
        &&& forall|i: int|
            0 <= i < pre.members@.len() ==> self.member_after(pre.members@[i], #[trigger] post.members@[i])
    }

}

/// A message whose sender accepts no version of the rules later than the
/// one in force leaves no member with such an acceptance on record.
pub proof fn lemma_delivery_in_time(delivery: DeliveryView, pre: GroupMembers, post: GroupMembers, version: Version)
    requires
        delivery.roster_after(pre, post),
        in_time(pre.members@, version),
        delivery.accepted_version matches Some(v) ==> v <= version,
    ensures
        in_time(post.members@, version),
{
    assert forall|i: int| 0 <= i < post.members@.len() implies accepted_by_now(
        (#[trigger] post.members@[i]).rules_accepted,
        version,
    ) by {
        assert(delivery.member_after(pre.members@[i], post.members@[i]));
        assert(accepted_by_now(pre.members@[i].rules_accepted, version));
    }
}

impl Delivery {
    /// Whether the user is in the mention set.
    fn in_mentions(&self, user_id: UserId) -> (r: bool)
        ensures
            r == self@.in_mention_set(user_id),
    {
        if self.mentioned.contains(&user_id) {
            return true;
        }
        match self.replied_to {
            Some(u) => {
                if u == user_id {
                    return true;
                }
            },
            None => {},
        }
        if self.thread_root.is_some() && self.first_reply {
            match self.root_sender {
                Some(u) => u == user_id,
                None => false,
            }
        } else {
            false
        }
    }

    /// Brings the roster up to date with the message and returns the users
    /// to notify, each once.
    pub fn apply(&self, members: &mut GroupMembers) -> (r: Vec<UserId>)
        requires
            old(members).wf(),
        ensures
            final(members).wf(),
            final(members).spec_owner_count() == old(members).spec_owner_count(),
            forall|u: UserId| final(members).position(u) == old(members).position(u),
            self@.roster_after(*old(members), *final(members)),
            forall|u: UserId| r@.contains(u) <==> self@.notifies(old(members).members@, u),
            r@.no_duplicates(),
    {
        let mut out: Vec<UserId> = Vec::new();
        match (self.thread_root, self.root_sender) {
            (Some(_), Some(root_sender)) => {
                if root_sender != self.sender {
                    out.push(root_sender);
                    assert(out@ == seq![root_sender]);
                    proof {
                        lemma_push_contains(Seq::<UserId>::empty(), root_sender);
                        assert(Seq::<UserId>::empty().push(root_sender) == out@);
                    }
                }
            },
            _ => {},
        }
        let ghost before = members.members@;
        let n = members.members.len();
        let mut i: usize = 0;
        assert forall|u: UserId| out@.contains(u) <==> self@.notifies_root_sender(u) by {
            if out@.len() == 0 {
                assert(!out@.contains(u));
            }
        }
        while i < n
            invariant
                0 <= i <= n,
                n == before.len(),
                before == old(members).members@,
                distinct_users(before),
                members.blocked == old(members).blocked,
                members.members@.len() == n,
                forall|j: int| 0 <= j < i ==> self@.member_after(before[j], #[trigger] members.members@[j]),
                forall|j: int| i <= j < n ==> #[trigger] members.members@[j] == before[j],
                out@.no_duplicates(),
                forall|u: UserId|
                    #[trigger] out@.contains(u) <==> self@.notifies_root_sender(u) || exists|j: int|
                        0 <= j < i && (#[trigger] before[j]).user_id == u && self@.notifies_member(before[j]),
            decreases n - i,
        {
            let user_id = members.members[i].user_id;
            let suspended = members.members[i].suspended.value;
            let muted = members.members[i].notifications_muted.value;
            let in_set = self.in_mentions(user_id);
            let mentioned = !suspended && user_id != self.sender && !self.mentions_disabled && (
            self.everyone_mentioned || in_set);
            let ghost m0 = members.members@[i as int];
            assert(m0 == before[i as int]);
            match self.thread_root {
                Some(root) => {
                    if (in_set || user_id == self.sender) && !contains_index(
                        &members.members[i].unfollowed_threads,
                        root,
                    ) && !contains_index(&members.members[i].threads, root) {
                        members.members[i].threads.push(root);
                    }
                },
                None => {},
            }
            if mentioned {
                members.members[i].add_mention(self.thread_root, self.message_index, self.now);
            }
            if user_id == self.sender {
                match self.accepted_version {
                    Some(v) => {
                        members.members[i].accept_rules(v, self.now);
                    },
                    None => {},
                }
            }
            assert(self@.member_after(m0, members.members@[i as int]));
            let hears = match &self.followers {
                Some(f) => contains_id(f, user_id),
                None => !muted,
            };
            let notify = !suspended && user_id != self.sender && (mentioned || hears);
            assert(notify == self@.notifies_member(m0));
            let ghost prev = out@;
            if notify && !contains_id(&out, user_id) {
                out.push(user_id);
            }
            proof {
                lemma_push_contains(prev, user_id);
                assert forall|u: UserId|
                    #[trigger] out@.contains(u) <==> self@.notifies_root_sender(u) || exists|j: int|
                        0 <= j < i + 1 && (#[trigger] before[j]).user_id == u && self@.notifies_member(
                            before[j],
                        ) by {
                    let here = before[i as int].user_id == u && self@.notifies_member(before[i as int]);
                    let earlier = exists|j: int|
                        0 <= j < i && (#[trigger] before[j]).user_id == u && self@.notifies_member(before[j]);
                    let upto = exists|j: int|
                        0 <= j < i + 1 && (#[trigger] before[j]).user_id == u && self@.notifies_member(before[j]);
                    if upto {
                        let j = choose|j: int|
                            0 <= j < i + 1 && (#[trigger] before[j]).user_id == u && self@.notifies_member(
                                before[j],
                            );
                        if j < i {
                            assert(earlier);
                        } else {
                            assert(here);
                        }
                    }
                    if earlier {
                        let j = choose|j: int|
                            0 <= j < i && (#[trigger] before[j]).user_id == u && self@.notifies_member(before[j]);
                        assert(before[j].user_id == u);
                        assert(upto);
                    }
                    if here {
                        assert(before[i as int].user_id == u);
                        assert(upto);
                    }
                    assert(prev.contains(u) <==> self@.notifies_root_sender(u) || earlier);
                    assert(prev.push(user_id).contains(u) <==> prev.contains(u) || u == user_id);
                }
            }
            i += 1;
        }
        proof {
            let after = members.members@;
            assert forall|j: int| 0 <= j < n implies (#[trigger] after[j]).user_id == before[j].user_id && after[j].role
                == before[j].role by {
                assert(self@.member_after(before[j], after[j]));
            }
            lemma_same_users(before, after);
            lemma_same_roles(before, after);
            assert forall|u: UserId| out@.contains(u) <==> self@.notifies(before, u) by {}
        }
        out
    }
}

} // verus!
