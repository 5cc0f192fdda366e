//! The roster of a group: who is a member, in what role, and who is blocked.

use vstd::prelude::*;
use crate::roles::{may_change_roles, role_rank};
use crate::seq_util::{contains_id, contains_index, first_match, lemma_first_match, lemma_first_match_at, lemma_first_match_none, position_of};
use crate::types::{
    EventIndex, GroupPermissions, GroupRole, MessageIndex, TimestampMillis, Timestamped, UserId, Version,
};

verus! {

/// Most mentions that a member's index keeps; beyond it the oldest goes.
pub const MAX_RETAINED_MENTIONS: usize = 50;

/// A place at which a member was mentioned.
#[derive(Clone, Copy, Debug, PartialEq, Eq, Structural)]
pub struct Mention {
    pub thread_root_message_index: Option<MessageIndex>,
    pub message_index: MessageIndex,
    pub timestamp: TimestampMillis,
}

/// The votes that a member cast on proposals at one moment.
#[derive(Debug)]
pub struct ProposalVotes {
    pub timestamp: TimestampMillis,
    pub message_indexes: Vec<MessageIndex>,
}

/// A member of the group.
#[derive(Debug)]
pub struct GroupMemberInternal {
    pub user_id: UserId,
    pub date_added: TimestampMillis,
    pub role: GroupRole,
    pub min_visible_event_index: EventIndex,
    pub min_visible_message_index: MessageIndex,
    pub notifications_muted: Timestamped<bool>,
    pub mentions: Vec<Mention>,
    pub threads: Vec<MessageIndex>,
    pub unfollowed_threads: Vec<MessageIndex>,
    pub proposal_votes: Vec<ProposalVotes>,
    pub suspended: Timestamped<bool>,
    pub rules_accepted: Option<Timestamped<Version>>,
    pub is_bot: bool,
}

/// The mentions index after one more mention: the new one comes last, and
/// the oldest is dropped once the index is over its limit.
pub open spec fn with_mention(mentions: Seq<Mention>, mention: Mention) -> Seq<Mention> {
    if mentions.len() >= MAX_RETAINED_MENTIONS {
        mentions.skip(1).push(mention)
    } else {
        mentions.push(mention)
    }
}

impl GroupMemberInternal {
    pub fn min_visible_event_index(&self) -> (r: EventIndex)
        ensures
            r == self.min_visible_event_index,
    {
        self.min_visible_event_index
    }

    /// Records that the member accepted the rules at the given version.
    /// An acceptance of an earlier version than the one on record changes
    /// nothing.
    pub fn accept_rules(&mut self, version: Version, now: TimestampMillis)
        ensures
            final(self).rules_accepted == if old(self).rules_accepted matches Some(a) && a.value >= version {
                old(self).rules_accepted
            } else {
                Some(Timestamped { value: version, timestamp: now })
            },
            *final(self) == (GroupMemberInternal { rules_accepted: final(self).rules_accepted, ..*old(self) }),
    {
        let newer = match &self.rules_accepted {
            Some(a) => a.value < version,
            None => true,
        };
        if newer {
            self.rules_accepted = Some(Timestamped::new(version, now));
        }
    }

    /// Adds a mention to the member's index.
    pub fn add_mention(&mut self, thread_root: Option<MessageIndex>, message_index: MessageIndex, now: TimestampMillis)
        ensures
            final(self).mentions@ == with_mention(
                old(self).mentions@,
                Mention { thread_root_message_index: thread_root, message_index, timestamp: now },
            ),
            *final(self) == (GroupMemberInternal { mentions: final(self).mentions, ..*old(self) }),
    {
        if self.mentions.len() >= MAX_RETAINED_MENTIONS {
            self.mentions.remove(0);
            assert(self.mentions@ == old(self).mentions@.skip(1));
        }
        self.mentions.push(Mention { thread_root_message_index: thread_root, message_index, timestamp: now });
    }

    /// Whether the member follows the thread rooted at `root`.
    pub open spec fn follows_thread(&self, root: MessageIndex) -> bool {
        self.threads@.contains(root)
    }

    /// Whether the member has explicitly unfollowed the thread rooted at `root`.
    pub open spec fn has_unfollowed(&self, root: MessageIndex) -> bool {
        self.unfollowed_threads@.contains(root)
    }
}

/// The members whose identity is `user_id`.
pub open spec fn is_user(user_id: UserId) -> spec_fn(GroupMemberInternal) -> bool {
    |m: GroupMemberInternal| m.user_id == user_id
}

/// The number of owners among the members.
pub open spec fn owners_in(members: Seq<GroupMemberInternal>) -> nat
    decreases members.len(),
{
    if members.len() == 0 {
        0
    } else {
        owners_in(members.drop_last()) + if members.last().role == GroupRole::Owner {
            1nat
        } else {
            0nat
        }
    }
}

/// No two members share an identity.
pub open spec fn distinct_users(members: Seq<GroupMemberInternal>) -> bool {
    forall|i: int, j: int|
        0 <= i < j < members.len() ==> (#[trigger] members[i]).user_id != (#[trigger] members[j]).user_id
}

/// Whether the votes are held in the order of their times, no time twice.
pub open spec fn votes_ascend(votes: Seq<ProposalVotes>) -> bool {
    forall|i: int, j: int|
        0 <= i < j < votes.len() ==> (#[trigger] votes[i]).timestamp < (#[trigger] votes[j]).timestamp
}

/// Whether the votes are held in the order of their times.
pub fn votes_in_order(votes: &Vec<ProposalVotes>) -> (r: bool)
    ensures
        r == votes_ascend(votes@),
{
    let mut i: usize = 1;
    while i < votes.len()
        invariant
            1 <= i,
            forall|a: int, b: int|
                0 <= a < b < i && b < votes@.len() ==> (#[trigger] votes@[a]).timestamp < (
                #[trigger] votes@[b]).timestamp,
        decreases votes@.len() - i,
    {
        if votes[i - 1].timestamp >= votes[i].timestamp {
            assert(!(votes@[i - 1].timestamp < votes@[i as int].timestamp));
            return false;
        }
        assert forall|a: int, b: int| 0 <= a < b < i + 1 && b < votes@.len() implies (
        #[trigger] votes@[a]).timestamp < (#[trigger] votes@[b]).timestamp by {
            if b == i && a < i - 1 {
                assert(votes@[a].timestamp < votes@[i - 1].timestamp);
            }
        }
        i += 1;
    }
    true
}

/// The roster and the block list.
#[derive(Debug)]
pub struct GroupMembers {
    pub members: Vec<GroupMemberInternal>,
    pub blocked: Vec<UserId>,
}

/// How an attempt to add a member ended.
#[derive(Clone, Copy, Debug, PartialEq, Eq, Structural)]
pub enum AddResult {
    Success,
    AlreadyInGroup,
    Blocked,
}

/// How an attempt to change a member's role ended.
#[derive(Clone, Copy, Debug, PartialEq, Eq, Structural)]
pub enum ChangeRoleResult {
    Success(ChangeRoleSuccess),
    UserNotInGroup,
    NotAuthorized,
    TargetUserNotInGroup,
    Unchanged,
    Invalid,
    UserSuspended,
}

/// The role that a member had before a successful change.
#[derive(Clone, Copy, Debug, PartialEq, Eq, Structural)]
pub struct ChangeRoleSuccess {
    pub caller_id: UserId,
    pub prev_role: GroupRole,
}

/// The record of the user who created the group: its owner from the
/// start, who sees everything and has accepted the rules as they were.
pub open spec fn founder(m: GroupMemberInternal, user_id: UserId, is_bot: bool, now: TimestampMillis) -> bool {
    &&& m.user_id == user_id
    &&& m.date_added == now
    &&& m.role == GroupRole::Owner
    &&& m.min_visible_event_index == 0
    &&& m.min_visible_message_index == 0
    &&& m.notifications_muted == (Timestamped { value: false, timestamp: now })
    &&& m.mentions@.len() == 0
    &&& m.threads@.len() == 0
    &&& m.unfollowed_threads@.len() == 0
    &&& m.proposal_votes@.len() == 0
    &&& m.suspended == (Timestamped { value: false, timestamp: 0 })
    &&& m.rules_accepted == Some(Timestamped { value: 0u32, timestamp: now })
    &&& m.is_bot == is_bot
}

/// The record of a user who has just joined: a plain participant who
/// follows no thread and has been mentioned nowhere.
pub open spec fn newly_joined(
    m: GroupMemberInternal,
    user_id: UserId,
    now: TimestampMillis,
    min_visible_event_index: EventIndex,
    min_visible_message_index: MessageIndex,
    notifications_muted: bool,
    is_bot: bool,
) -> bool {
    &&& m.user_id == user_id
    &&& m.date_added == now
    &&& m.role == GroupRole::Participant
    &&& m.min_visible_event_index == min_visible_event_index
    &&& m.min_visible_message_index == min_visible_message_index
    &&& m.notifications_muted == (Timestamped { value: notifications_muted, timestamp: now })
    &&& m.mentions@.len() == 0
    &&& m.threads@.len() == 0
    &&& m.unfollowed_threads@.len() == 0
    &&& m.proposal_votes@.len() == 0
    &&& m.suspended == (Timestamped { value: false, timestamp: 0 })
    &&& m.rules_accepted is None
    &&& m.is_bot == is_bot
}

impl GroupMembers {
    /// No identity occurs twice on the roster, nobody is both a member and
    /// blocked, and each member's proposal votes are held in the order of
    /// their times.
    pub open spec fn wf(&self) -> bool {
        &&& distinct_users(self.members@)
        &&& self.blocked@.no_duplicates()
        &&& forall|i: int| 0 <= i < self.members@.len() ==> !self.blocked@.contains((#[trigger] self.members@[i]).user_id)
        &&& forall|i: int| 0 <= i < self.members@.len() ==> votes_ascend((#[trigger] self.members@[i]).proposal_votes@)
    }

    /// Whether the roster and the block list are well formed, by a walk
    /// over both.
    pub fn is_well_formed(&self) -> (r: bool)
        ensures
            r == self.wf(),
    {
        let mut i: usize = 0;
        while i < self.blocked.len()
            invariant
                0 <= i <= self.blocked@.len(),
                forall|a: int, b: int| 0 <= a < b < i ==> self.blocked@[a] != self.blocked@[b],
            decreases self.blocked@.len() - i,
        {
            let mut j: usize = 0;
            while j < i
                invariant
                    0 <= j <= i < self.blocked@.len(),
                    forall|a: int| 0 <= a < j ==> self.blocked@[a] != self.blocked@[i as int],
                decreases i - j,
            {
                if self.blocked[j] == self.blocked[i] {
                    return false;
                }
                j += 1;
            }
            i += 1;
        }
        let mut i: usize = 0;
        while i < self.members.len()
            invariant
                0 <= i <= self.members@.len(),
                self.blocked@.no_duplicates(),
                distinct_users(self.members@.take(i as int)),
                forall|k: int| 0 <= k < i ==> !self.blocked@.contains((#[trigger] self.members@[k]).user_id),
                forall|k: int| 0 <= k < i ==> votes_ascend((#[trigger] self.members@[k]).proposal_votes@),
            decreases self.members@.len() - i,
        {
            let ghost before = self.members@.take(i as int);
            let ghost after = self.members@.take(i as int + 1);
            let member = &self.members[i];
            if contains_id(&self.blocked, member.user_id) {
                return false;
            }
            if !votes_in_order(&member.proposal_votes) {
                return false;
            }
            let mut j: usize = 0;
            while j < i
                invariant
                    0 <= j <= i < self.members@.len(),
                    member.user_id == self.members@[i as int].user_id,
                    forall|a: int| 0 <= a < j ==> (#[trigger] self.members@[a]).user_id != member.user_id,
                decreases i - j,
            {
                if self.members[j].user_id == member.user_id {
                    assert(!(self.members@[j as int].user_id != self.members@[i as int].user_id));
                    return false;
                }
                j += 1;
            }
            assert forall|a: int, b: int| 0 <= a < b < after.len() implies (#[trigger] after[a]).user_id != (
            #[trigger] after[b]).user_id by {
                if b < i {
                    assert(before[a].user_id != before[b].user_id);
                } else {
                    assert(self.members@[a].user_id != member.user_id);
                }
            }
            i += 1;
        }
        assert(self.members@.take(self.members@.len() as int) == self.members@);
        true
    }

    /// Position of `user_id` on the roster, or the size of the roster if
    /// the user is not on it.
    pub open spec fn position(&self, user_id: UserId) -> int {
        first_match(self.members@, is_user(user_id))
    }

    pub open spec fn contains(&self, user_id: UserId) -> bool {
        self.position(user_id) < self.members@.len()
    }

    /// The member with the given identity. Meaningful only for a user on
    /// the roster.
    pub open spec fn member(&self, user_id: UserId) -> GroupMemberInternal {
        self.members@[self.position(user_id)]
    }

    pub open spec fn is_blocked(&self, user_id: UserId) -> bool {
        self.blocked@.contains(user_id)
    }

    pub open spec fn spec_owner_count(&self) -> nat {
        owners_in(self.members@)
    }

    /// A roster that holds the creator of the group as its only member
    /// and owner.
    pub fn new(creator_user_id: UserId, is_bot: bool, now: TimestampMillis) -> (r: Self)
        ensures
            r.wf(),
            r.members@.len() == 1,
            r.blocked@.len() == 0,
            r.spec_owner_count() == 1,
            r.contains(creator_user_id),
            founder(r.members@[0], creator_user_id, is_bot, now),
    {
        let member = GroupMemberInternal {
            user_id: creator_user_id,
            date_added: now,
            role: GroupRole::Owner,
            min_visible_event_index: 0,
            min_visible_message_index: 0,
            notifications_muted: Timestamped::new(false, now),
            mentions: Vec::new(),
            threads: Vec::new(),
            unfollowed_threads: Vec::new(),
            proposal_votes: Vec::new(),
            suspended: Timestamped::new(false, 0),
            rules_accepted: Some(Timestamped::new(0, now)),
            is_bot,
        };
        let mut members: Vec<GroupMemberInternal> = Vec::new();
        members.push(member);
        proof {
            lemma_first_match_at(members@, is_user(creator_user_id), 0);
            assert(members@.drop_last().len() == 0);
            reveal_with_fuel(owners_in, 2);
        }
        GroupMembers { members, blocked: Vec::new() }
    }

    /// Position of `user_id` on the roster, if the user is a member.
    pub fn find(&self, user_id: UserId) -> (r: Option<usize>)
        ensures
            match r {
                Some(i) => self.contains(user_id) && i == self.position(user_id) && i < self.members@.len()
                    && self.members@[i as int].user_id == user_id,
                None => !self.contains(user_id),
            },
    {
        let ghost p = is_user(user_id);
        let mut i: usize = 0;
        while i < self.members.len()
            invariant
                0 <= i <= self.members@.len(),
                p == is_user(user_id),
                forall|j: int| 0 <= j < i ==> !p(#[trigger] self.members@[j]),
            decreases self.members@.len() - i,
        {
            if self.members[i].user_id == user_id {
                proof {
                    lemma_first_match_at(self.members@, p, i as int);
                }
                return Some(i);
            }
            i += 1;
        }
        proof {
            lemma_first_match_none(self.members@, p);
        }
        None
    }

    /// The member with the given identity, if there is one.
    pub fn get(&self, user_id: UserId) -> (r: Option<&GroupMemberInternal>)
        ensures
            match r {
                Some(m) => self.contains(user_id) && *m == self.member(user_id) && m.user_id == user_id,
                None => !self.contains(user_id),
            },
    {
        match self.find(user_id) {
            Some(i) => Some(&self.members[i]),
            None => None,
        }
    }

    pub fn len(&self) -> (r: usize)
        ensures
            r == self.members@.len(),
    {
        self.members.len()
    }

    pub fn user_is_blocked(&self, user_id: UserId) -> (r: bool)
        ensures
            r == self.is_blocked(user_id),
    {
        contains_id(&self.blocked, user_id)
    }

    /// The number of owners on the roster.
    pub fn owner_count(&self) -> (r: usize)
        ensures
            r == self.spec_owner_count(),
    {
        let mut count: usize = 0;
        let mut i: usize = 0;
        while i < self.members.len()
            invariant
                0 <= i <= self.members@.len(),
                count == owners_in(self.members@.take(i as int)),
                count <= i,
            decreases self.members@.len() - i,
        {
            assert(self.members@.take(i as int + 1).drop_last() == self.members@.take(i as int));
            if self.members[i].role.is_owner() {
                count += 1;
            }
            i += 1;
        }
        assert(self.members@.take(self.members@.len() as int) == self.members@);
        count
    }

    /// Adds a user to the roster unless the user is blocked or already a
    /// member.
    pub fn add(
        &mut self,
        user_id: UserId,
        now: TimestampMillis,
        min_visible_event_index: EventIndex,
        min_visible_message_index: MessageIndex,
        notifications_muted: bool,
        is_bot: bool,
    ) -> (r: AddResult)
        requires
            old(self).wf(),
        ensures
            final(self).wf(),
            r == if old(self).is_blocked(user_id) {
                AddResult::Blocked
            } else if old(self).contains(user_id) {
                AddResult::AlreadyInGroup
            } else {
                AddResult::Success
            },
            r != AddResult::Success ==> *final(self) == *old(self),
            r == AddResult::Success ==> {
                &&& final(self).blocked == old(self).blocked
                &&& final(self).members@.len() == old(self).members@.len() + 1
                &&& final(self).members@.drop_last() == old(self).members@
                &&& final(self).contains(user_id)
                &&& final(self).spec_owner_count() == old(self).spec_owner_count()
                &&& newly_joined(
                    final(self).members@.last(),
                    user_id,
                    now,
                    min_visible_event_index,
                    min_visible_message_index,
                    notifications_muted,
                    is_bot,
                )
            },
            forall|other: UserId| other != user_id ==> final(self).contains(other) == old(self).contains(other),
    {
        if contains_id(&self.blocked, user_id) {
            return AddResult::Blocked;
        }
        if self.find(user_id).is_some() {
            return AddResult::AlreadyInGroup;
        }
        let member = GroupMemberInternal {
            user_id,
            date_added: now,
            role: GroupRole::Participant,
            min_visible_event_index,
            min_visible_message_index,
            notifications_muted: Timestamped::new(notifications_muted, now),
            mentions: Vec::new(),
            threads: Vec::new(),
            unfollowed_threads: Vec::new(),
            proposal_votes: Vec::new(),
            suspended: Timestamped::new(false, 0),
            rules_accepted: None,
            is_bot,
        };
        proof {
            lemma_first_match(self.members@, is_user(user_id));
        }
        self.members.push(member);
        proof {
            let before = old(self).members@;
            let after = self.members@;
            assert(after.drop_last() == before);
            assert forall|i: int| 0 <= i < before.len() implies !is_user(user_id)(#[trigger] after[i]) by {
                assert(!is_user(user_id)(before[i]));
            }
            lemma_first_match_at(after, is_user(user_id), before.len() as int);
            assert forall|other: UserId| other != user_id implies self.contains(other) == old(self).contains(other) by {
                crate::seq_util::lemma_first_match_push(before, after.last(), is_user(other));
                assert(after == before.push(after.last()));
            }
        }
        AddResult::Success
    }

    /// Takes a user off the roster and hands the member back.
    pub fn remove(&mut self, user_id: UserId) -> (r: Option<GroupMemberInternal>)
        requires
            old(self).wf(),
        ensures
            final(self).wf(),
            final(self).blocked == old(self).blocked,
            !final(self).contains(user_id),
            match r {
                Some(m) => {
                    &&& old(self).contains(user_id)
                    &&& m == old(self).member(user_id)
                    &&& final(self).members@ == old(self).members@.remove(old(self).position(user_id))
                    &&& final(self).spec_owner_count() + (if m.role == GroupRole::Owner {
                        1nat
                    } else {
                        0nat
                    }) == old(self).spec_owner_count()
                },
                None => !old(self).contains(user_id) && *final(self) == *old(self),
            },
            forall|other: UserId|
                other != user_id ==> final(self).contains(other) == old(self).contains(other) && (old(self).contains(
                    other,
                ) ==> final(self).member(other) == old(self).member(other)),
    {
        match self.find(user_id) {
            Some(i) => {
                let member = self.members.remove(i);
                proof {
                    let before = old(self).members@;
                    let after = self.members@;
                    lemma_owners_remove(before, i as int);
                    assert forall|k: int| 0 <= k < after.len() implies !is_user(user_id)(#[trigger] after[k]) by {
                        if k < i {
                            assert(after[k] == before[k]);
                        } else {
                            assert(after[k] == before[k + 1]);
                        }
                    }
                    lemma_first_match_none(after, is_user(user_id));
                    assert forall|other: UserId| other != user_id implies self.contains(other) == old(self).contains(
                        other,
                    ) && (old(self).contains(other) ==> self.member(other) == old(self).member(other)) by {
                        lemma_remove_other(before, i as int, other);
                    }
                    assert(distinct_users(after)) by {
                        assert forall|a: int, b: int| 0 <= a < b < after.len() implies (#[trigger] after[a]).user_id != (
                        #[trigger] after[b]).user_id by {
                            let a0 = if a < i { a } else { a + 1 };
                            let b0 = if b < i { b } else { b + 1 };
                            assert(after[a] == before[a0]);
                            assert(after[b] == before[b0]);
                        }
                    }
                    assert forall|k: int| 0 <= k < after.len() implies !self.blocked@.contains(
                        (#[trigger] after[k]).user_id,
                    ) by {
                        let k0 = if k < i { k } else { k + 1 };
                        assert(after[k] == before[k0]);
                    }
                }
                Some(member)
            },
            None => {
                assert forall|other: UserId| other != user_id implies self.contains(other) == old(self).contains(other) by {}
                None
            },
        }
    }

    /// Puts a user on the block list. Returns whether the user was not on
    /// it before. The user must not be a member.
    pub fn block(&mut self, user_id: UserId) -> (r: bool)
        requires
            old(self).wf(),
            !old(self).contains(user_id),
        ensures
            final(self).wf(),
            r == !old(self).is_blocked(user_id),
            final(self).members == old(self).members,
            final(self).is_blocked(user_id),
            final(self).blocked@ == if r {
                old(self).blocked@.push(user_id)
            } else {
                old(self).blocked@
            },
    {
        if contains_id(&self.blocked, user_id) {
            return false;
        }
        proof {
            crate::thread_summary::lemma_push_contains(self.blocked@, user_id);
            assert forall|i: int| 0 <= i < self.members@.len() implies (#[trigger] self.members@[i]).user_id
                != user_id by {
                lemma_first_match(self.members@, is_user(user_id));
                assert(!is_user(user_id)(self.members@[i]));
            }
        }
        self.blocked.push(user_id);
        true
    }

    /// Takes a user off the block list. Returns whether the user was on it.
    pub fn unblock(&mut self, user_id: UserId) -> (r: bool)
        requires
            old(self).wf(),
        ensures
            final(self).wf(),
            r == old(self).is_blocked(user_id),
            final(self).members == old(self).members,
            !final(self).is_blocked(user_id),
            !r ==> final(self).blocked == old(self).blocked,
            r ==> final(self).blocked@ == old(self).blocked@.remove(old(self).blocked@.index_of(user_id)),
            forall|other: UserId| other != user_id ==> final(self).is_blocked(other) == old(self).is_blocked(other),
    {
        match position_of(&self.blocked, user_id) {
            Some(p) => {
                self.blocked.remove(p);
                proof {
                    let before = old(self).blocked@;
                    let after = self.blocked@;
                    let q = before.index_of(user_id);
                    assert(before[q] == user_id && 0 <= q < before.len());
                    assert(q == p);
                    assert forall|other: UserId| after.contains(other) implies before.contains(other) && other
                        != user_id by {
                        let k = choose|k: int| 0 <= k < after.len() && after[k] == other;
                        let k0 = if k < p { k } else { k + 1 };
                        assert(before[k0] == other);
                    }
                    assert forall|other: UserId| other != user_id && before.contains(other) implies after.contains(
                        other,
                    ) by {
                        let k = choose|k: int| 0 <= k < before.len() && before[k] == other;
                        let k1 = if k < p { k } else { k - 1 };
                        assert(after[k1] == other);
                    }
                    assert forall|a: int, b: int| 0 <= a < after.len() && 0 <= b < after.len() && a != b implies after[a]
                        != after[b] by {
                        let a0 = if a < p { a } else { a + 1 };
                        let b0 = if b < p { b } else { b + 1 };
                        assert(after[a] == before[a0]);
                        assert(after[b] == before[b0]);
                    }
                }
                true
            },
            None => false,
        }
    }

    /// Lets the member follow the thread rooted at `root` by taking part
    /// in it, unless the member has explicitly unfollowed that thread or
    /// follows it already. A user who is not a member is passed over.
    pub fn add_thread(&mut self, user_id: UserId, root: MessageIndex)
        requires
            old(self).wf(),
        ensures
            final(self).wf(),
            add_thread_post(*old(self), user_id, root, *final(self)),
    {
        match self.find(user_id) {
            Some(i) => {
                if !contains_index(&self.members[i].unfollowed_threads, root) && !contains_index(
                    &self.members[i].threads,
                    root,
                ) {
                    self.members[i].threads.push(root);
                    proof {
                        lemma_same_users(old(self).members@, self.members@);
                    }
                }
            },
            None => {},
        }
    }

    /// Decides whether `caller_id` may give `user_id` the role `new_role`,
    /// and does it.
    pub fn change_role(
        &mut self,
        caller_id: UserId,
        user_id: UserId,
        new_role: GroupRole,
        permissions: &GroupPermissions,
        is_caller_platform_moderator: bool,
        is_user_platform_moderator: bool,
    ) -> (r: ChangeRoleResult)
        requires
            old(self).wf(),
        ensures
            final(self).wf(),
            r == old(self).change_role_verdict(
                caller_id,
                user_id,
                new_role,
                *permissions,
                is_caller_platform_moderator,
                is_user_platform_moderator,
            ),
            !(r is Success) ==> *final(self) == *old(self),
            r is Success ==> {
                let i = old(self).position(user_id);
                &&& final(self).blocked == old(self).blocked
                &&& final(self).members@ == old(self).members@.update(i, final(self).members@[i])
                &&& final(self).members@[i] == (GroupMemberInternal { role: new_role, ..old(self).members@[i] })
                &&& final(self).spec_owner_count() + (if old(self).members@[i].role == GroupRole::Owner {
                    1nat
                } else {
                    0nat
                }) == old(self).spec_owner_count() + (if new_role == GroupRole::Owner {
                    1nat
                } else {
                    0nat
                })
            },
            old(self).spec_owner_count() >= 1 ==> final(self).spec_owner_count() >= 1,
            forall|u: UserId| final(self).contains(u) == old(self).contains(u),
    {
        let caller_role = match self.get(caller_id) {
            Some(c) => {
                if c.suspended.value {
                    return ChangeRoleResult::UserSuspended;
                }
                if !(c.role.can_change_roles(new_role, permissions) || is_caller_platform_moderator) {
                    return ChangeRoleResult::NotAuthorized;
                }
                c.role
            },
            None => {
                return ChangeRoleResult::UserNotInGroup;
            },
        };
        let i = match self.find(user_id) {
            Some(i) => i,
            None => {
                return ChangeRoleResult::TargetUserNotInGroup;
            },
        };
        let prev_role = self.members[i].role;
        let caller_is_owner = caller_role.is_owner();
        if prev_role.is_owner() && !caller_is_owner && !is_caller_platform_moderator {
            return ChangeRoleResult::NotAuthorized;
        }
        if is_user_platform_moderator && prev_role.is_owner() && user_id != caller_id {
            return ChangeRoleResult::NotAuthorized;
        }
        if !caller_role.is_same_or_senior(new_role) && !is_caller_platform_moderator {
            return ChangeRoleResult::NotAuthorized;
        }
        let owners = self.owner_count();
        if prev_role.is_owner() && owners <= 1 {
            return ChangeRoleResult::Invalid;
        }
        if prev_role == new_role {
            return ChangeRoleResult::Unchanged;
        }
        self.members[i].role = new_role;
        proof {
            let before = old(self).members@;
            let after = self.members@;
            assert(after == before.update(i as int, after[i as int]));
            lemma_same_users(before, after);
            lemma_owners_update(before, i as int, after[i as int]);
        }
        ChangeRoleResult::Success(ChangeRoleSuccess { caller_id, prev_role })
    }

    /// The outcome of a request by `caller_id` to give `user_id` the role
    /// `new_role`, first failure first.
    ///
    /// The caller must be a member and not suspended, and must be allowed
    /// to hand out `new_role` by the permission matrix or be a platform
    /// moderator. The target must be a member. An owner is demoted only by
    /// an owner or a platform moderator, and an owner who is a platform
    /// moderator only by themselves. Nobody but a platform moderator hands
    /// out a role above their own. The last owner keeps the role.
    pub open spec fn change_role_verdict(
        &self,
        caller_id: UserId,
        user_id: UserId,
        new_role: GroupRole,
        permissions: GroupPermissions,
        is_caller_platform_moderator: bool,
        is_user_platform_moderator: bool,
    ) -> ChangeRoleResult {
        if !self.contains(caller_id) {
            ChangeRoleResult::UserNotInGroup
        } else if self.member(caller_id).suspended.value {
            ChangeRoleResult::UserSuspended
        } else if !(may_change_roles(self.member(caller_id).role, new_role, permissions)
            || is_caller_platform_moderator) {
            ChangeRoleResult::NotAuthorized
        } else if !self.contains(user_id) {
            ChangeRoleResult::TargetUserNotInGroup
        } else if self.member(user_id).role == GroupRole::Owner && self.member(caller_id).role != GroupRole::Owner
            && !is_caller_platform_moderator {
            ChangeRoleResult::NotAuthorized
        } else if is_user_platform_moderator && self.member(user_id).role == GroupRole::Owner && user_id
            != caller_id {
            ChangeRoleResult::NotAuthorized
        } else if role_rank(self.member(caller_id).role) < role_rank(new_role) && !is_caller_platform_moderator {
            ChangeRoleResult::NotAuthorized
        } else if self.member(user_id).role == GroupRole::Owner && self.spec_owner_count() <= 1 {
            ChangeRoleResult::Invalid
        } else if self.member(user_id).role == new_role {
            ChangeRoleResult::Unchanged
        } else {
            ChangeRoleResult::Success(
                ChangeRoleSuccess { caller_id, prev_role: self.member(user_id).role },
            )
        }
    }
}

/// What taking part in a thread does to the roster: the member, if there
/// is one and they neither follow nor have unfollowed the thread, gets the
/// thread added to those they follow; nothing else changes.
pub open spec fn add_thread_post(pre: GroupMembers, user_id: UserId, root: MessageIndex, post: GroupMembers) -> bool {
    if pre.contains(user_id) && !pre.member(user_id).has_unfollowed(root) && !pre.member(user_id).follows_thread(
        root,
    ) {
        let i = pre.position(user_id);
        &&& post.blocked == pre.blocked
        &&& post.members@ == pre.members@.update(i, post.members@[i])
        &&& post.members@[i].threads@ == pre.members@[i].threads@.push(root)
        &&& post.members@[i] == (GroupMemberInternal { threads: post.members@[i].threads, ..pre.members@[i] })
    } else {
        post == pre
    }
}

/// Two rosters that hold the same roles at the same places have the same
/// number of owners.
pub proof fn lemma_same_roles(before: Seq<GroupMemberInternal>, after: Seq<GroupMemberInternal>)
    requires
        after.len() == before.len(),
        forall|i: int| 0 <= i < before.len() ==> (#[trigger] after[i]).role == before[i].role,
    ensures
        owners_in(after) == owners_in(before),
    decreases before.len(),
{
    if before.len() > 0 {
        lemma_same_roles(before.drop_last(), after.drop_last());
    }
}

/// Two rosters that hold the same users at the same places agree on who
/// is a member and where, and both are free of duplicates if one is.
pub proof fn lemma_same_users(before: Seq<GroupMemberInternal>, after: Seq<GroupMemberInternal>)
    requires
        after.len() == before.len(),
        forall|i: int| 0 <= i < before.len() ==> (#[trigger] after[i]).user_id == before[i].user_id,
    ensures
        forall|u: UserId| #[trigger] first_match(after, is_user(u)) == first_match(before, is_user(u)),
        distinct_users(before) ==> distinct_users(after),
{
    assert forall|u: UserId| #[trigger] first_match(after, is_user(u)) == first_match(before, is_user(u)) by {
        let p = is_user(u);
        lemma_first_match(before, p);
        let k = first_match(before, p);
        if k < before.len() {
            assert forall|i: int| 0 <= i < k implies !p(#[trigger] after[i]) by {
                assert(!p(before[i]));
            }
            lemma_first_match_at(after, p, k);
        } else {
            assert forall|i: int| 0 <= i < after.len() implies !p(#[trigger] after[i]) by {
                assert(!p(before[i]));
            }
            lemma_first_match_none(after, p);
        }
    }
    if distinct_users(before) {
        assert forall|i: int, j: int| 0 <= i < j < after.len() implies (#[trigger] after[i]).user_id != (
        #[trigger] after[j]).user_id by {
            assert(before[i].user_id != before[j].user_id);
        }
    }
}

/// Taking a member off the roster lowers the number of owners by one if
/// that member was an owner, and not at all otherwise.
pub proof fn lemma_owners_remove(members: Seq<GroupMemberInternal>, i: int)
    requires
        0 <= i < members.len(),
    ensures
        owners_in(members.remove(i)) + (if members[i].role == GroupRole::Owner {
            1nat
        } else {
            0nat
        }) == owners_in(members),
    decreases members.len(),
{
    if i == members.len() - 1 {
        assert(members.remove(i) == members.drop_last());
    } else {
        let rest = members.drop_last();
        lemma_owners_remove(rest, i);
        assert(members.remove(i).drop_last() == rest.remove(i));
        assert(members.remove(i).last() == members.last());
    }
}

/// Replacing a member changes the number of owners by the difference
/// between the new member's being an owner and the old one's.
pub proof fn lemma_owners_update(members: Seq<GroupMemberInternal>, i: int, m: GroupMemberInternal)
    requires
        0 <= i < members.len(),
    ensures
        owners_in(members.update(i, m)) + (if members[i].role == GroupRole::Owner {
            1nat
        } else {
            0nat
        }) == owners_in(members) + (if m.role == GroupRole::Owner {
            1nat
        } else {
            0nat
        }),
    decreases members.len(),
{
    if i == members.len() - 1 {
        assert(members.update(i, m).drop_last() == members.drop_last());
    } else {
        let rest = members.drop_last();
        lemma_owners_update(rest, i, m);
        assert(members.update(i, m).drop_last() == rest.update(i, m));
        assert(members.update(i, m).last() == members.last());
    }
}

/// A roster with an owner on it has a positive number of owners.
pub proof fn lemma_owner_counted(members: Seq<GroupMemberInternal>, i: int)
    requires
        0 <= i < members.len(),
        members[i].role == GroupRole::Owner,
    ensures
        owners_in(members) >= 1,
    decreases members.len(),
{
    if i < members.len() - 1 {
        lemma_owner_counted(members.drop_last(), i);
    }
}

/// Taking one member off the roster leaves every other user where they
/// were, member or not.
pub proof fn lemma_remove_other(members: Seq<GroupMemberInternal>, i: int, other: UserId)
    requires
        0 <= i < members.len(),
        members[i].user_id != other,
    ensures
        (first_match(members.remove(i), is_user(other)) < members.remove(i).len()) == (first_match(
            members,
            is_user(other),
        ) < members.len()),
        first_match(members, is_user(other)) < members.len() ==> members.remove(i)[first_match(
            members.remove(i),
            is_user(other),
        )] == members[first_match(members, is_user(other))],
{
    let p = is_user(other);
    let after = members.remove(i);
    lemma_first_match(members, p);
    let k = first_match(members, p);
    if k < members.len() {
        let k1 = if k < i { k } else { k - 1 };
        assert(after[k1] == members[k]);
        assert forall|j: int| 0 <= j < k1 implies !p(#[trigger] after[j]) by {
            let j0 = if j < i { j } else { j + 1 };
            assert(after[j] == members[j0]);
            assert(!p(members[j0]));
        }
        lemma_first_match_at(after, p, k1);
    } else {
        assert forall|j: int| 0 <= j < after.len() implies !p(#[trigger] after[j]) by {
            let j0 = if j < i { j } else { j + 1 };
            assert(after[j] == members[j0]);
            assert(!p(members[j0]));
        }
        lemma_first_match_none(after, p);
    }
}

} // verus!
