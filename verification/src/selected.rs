//! What changed in the details of a group since a given time: who joined
//! or left, who was blocked or unblocked, what was pinned or unpinned.

use vstd::prelude::*;
use std::collections::HashSet;
use crate::events::{ChatEventInternal, EventWrapperInternal};
use crate::group::GroupChatCore;
use crate::members::GroupMembers;
use crate::results::SelectedGroupUpdates;
use crate::selected_initial::{shown, GroupMember};
use crate::seq_util::contains_index;
use crate::summary::window_start;
use crate::types::{EventIndex, MessageIndex, TimestampMillis, UserId};

verus! {

broadcast use vstd::std_specs::hash::group_hash_axioms;

/// What an event says about a user.
#[derive(Clone, Copy, Debug, PartialEq, Eq, Structural)]
pub enum Mark {
    /// The user joined or their record changed.
    Updated,
    /// The user left or was removed.
    Removed,
    /// The user was blocked.
    Blocked,
    /// The user was unblocked.
    Unblocked,
}

/// The changes gathered so far, in mathematical terms. Users and message
/// indexes stand in the order in which they were first met.
pub struct Gathered {
    /// The users about whom something has been noted.
    pub seen: Set<UserId>,
    pub updated: Seq<UserId>,
    pub removed: Seq<UserId>,
    pub blocked_added: Seq<UserId>,
    pub blocked_removed: Seq<UserId>,
    pub pinned_added: Seq<MessageIndex>,
    pub pinned_removed: Seq<MessageIndex>,
    pub rules_changed: bool,
}

impl Gathered {
    pub open spec fn nothing() -> Gathered {
        Gathered {
            seen: Set::empty(),
            updated: Seq::empty(),
            removed: Seq::empty(),
            blocked_added: Seq::empty(),
            blocked_removed: Seq::empty(),
            pinned_added: Seq::empty(),
            pinned_removed: Seq::empty(),
            rules_changed: false,
        }
    }

    /// Notes what an event says about a user. Only the first note about a
    /// user counts. A user who joined is listed only if still a member; a
    /// user who was blocked is listed as removed as well.
    pub open spec fn marked(self, roster: GroupMembers, user_id: UserId, mark: Mark) -> Gathered {
        if self.seen.contains(user_id) {
            self
        } else {
            let noted = Gathered { seen: self.seen.insert(user_id), ..self };
            match mark {
                Mark::Updated => if roster.contains(user_id) {
                    Gathered { updated: self.updated.push(user_id), ..noted }
                } else {
                    noted
                },
                Mark::Removed => Gathered { removed: self.removed.push(user_id), ..noted },
                Mark::Blocked => Gathered {
                    removed: self.removed.push(user_id),
                    blocked_added: self.blocked_added.push(user_id),
                    ..noted
                },
                Mark::Unblocked => Gathered { blocked_removed: self.blocked_removed.push(user_id), ..noted },
            }
        }
    }

    /// Notes the same thing about the first `k` of a list of users, in order.
    pub open spec fn marked_all(self, roster: GroupMembers, users: Seq<UserId>, k: int, mark: Mark) -> Gathered
        decreases k,
    {
        if k <= 0 || k > users.len() {
            self
        } else {
            self.marked_all(roster, users, k - 1, mark).marked(roster, users[k - 1], mark)
        }
    }

    /// Notes a pin. Only the first note about a message counts.
    pub open spec fn pinned(self, message_index: MessageIndex) -> Gathered {
        if self.pinned_removed.contains(message_index) || self.pinned_added.contains(message_index) {
            self
        } else {
            Gathered { pinned_added: self.pinned_added.push(message_index), ..self }
        }
    }

    /// Notes an unpin. Only the first note about a message counts.
    pub open spec fn unpinned(self, message_index: MessageIndex) -> Gathered {
        if self.pinned_removed.contains(message_index) || self.pinned_added.contains(message_index) {
            self
        } else {
            Gathered { pinned_removed: self.pinned_removed.push(message_index), ..self }
        }
    }

    /// Notes what one event says.
    pub open spec fn after_event(self, roster: GroupMembers, event: ChatEventInternal) -> Gathered {
        match event {
            ChatEventInternal::ParticipantsAdded { user_ids, unblocked, .. } => self.marked_all(
                roster,
                user_ids@,
                user_ids@.len() as int,
                Mark::Updated,
            ).marked_all(roster, unblocked@, unblocked@.len() as int, Mark::Unblocked),
            ChatEventInternal::ParticipantsRemoved { user_ids, .. } => self.marked_all(
                roster,
                user_ids@,
                user_ids@.len() as int,
                Mark::Removed,
            ),
            ChatEventInternal::ParticipantJoined { user_id, .. } => self.marked(roster, user_id, Mark::Updated),
            ChatEventInternal::ParticipantLeft { user_id } => self.marked(roster, user_id, Mark::Removed),
            ChatEventInternal::MembersAddedToPublicChannel { user_ids } => self.marked_all(
                roster,
                user_ids@,
                user_ids@.len() as int,
                Mark::Updated,
            ),
            ChatEventInternal::RoleChanged { user_ids, .. } => self.marked_all(
                roster,
                user_ids@,
                user_ids@.len() as int,
                Mark::Updated,
            ),
            ChatEventInternal::UsersBlocked { user_ids, .. } => self.marked_all(
                roster,
                user_ids@,
                user_ids@.len() as int,
                Mark::Blocked,
            ),
            ChatEventInternal::UsersUnblocked { user_ids, .. } => self.marked_all(
                roster,
                user_ids@,
                user_ids@.len() as int,
                Mark::Unblocked,
            ),
            ChatEventInternal::MessagePinned { message_index, .. } => self.pinned(message_index),
            ChatEventInternal::MessageUnpinned { message_index, .. } => self.unpinned(message_index),
            ChatEventInternal::GroupRulesChanged { .. } => Gathered { rules_changed: true, ..self },
            _ => self,
        }
    }

    /// Notes what the events at positions `start` to `hi - 1` say, newest
    /// first.
    pub open spec fn after_window(
        self,
        roster: GroupMembers,
        s: Seq<EventWrapperInternal>,
        start: int,
        hi: int,
    ) -> Gathered
        decreases hi,
    {
        if hi <= start || hi <= 0 || hi > s.len() {
            self
        } else {
            self.after_event(roster, s[hi - 1].event).after_window(roster, s, start, hi - 1)
        }
    }
}

/// The changes gathered so far, as the program holds them.
pub struct Gathering {
    pub seen: HashSet<UserId>,
    pub updated: Vec<UserId>,
    pub removed: Vec<UserId>,
    pub blocked_added: Vec<UserId>,
    pub blocked_removed: Vec<UserId>,
    pub pinned_added: Vec<MessageIndex>,
    pub pinned_removed: Vec<MessageIndex>,
    pub rules_changed: bool,
}

impl View for Gathering {
    type V = Gathered;

    open spec fn view(&self) -> Gathered {
        Gathered {
            seen: self.seen@,
            updated: self.updated@,
            removed: self.removed@,
            blocked_added: self.blocked_added@,
            blocked_removed: self.blocked_removed@,
            pinned_added: self.pinned_added@,
            pinned_removed: self.pinned_removed@,
            rules_changed: self.rules_changed,
        }
    }
}

impl Gathering {
    pub fn new() -> (r: Self)
        ensures
            r@ == Gathered::nothing(),
    {
        Gathering {
            seen: HashSet::new(),
            updated: Vec::new(),
            removed: Vec::new(),
            blocked_added: Vec::new(),
            blocked_removed: Vec::new(),
            pinned_added: Vec::new(),
            pinned_removed: Vec::new(),
            rules_changed: false,
        }
    }

    /// Notes what an event says about a user.
    pub fn mark(&mut self, roster: &GroupMembers, user_id: UserId, mark: Mark)
        ensures
            final(self)@ == old(self)@.marked(*roster, user_id, mark),
    {
        if !self.seen.insert(user_id) {
            assert(self.seen@ =~= old(self).seen@);
            return ;
        }
        match mark {
            Mark::Updated => {
                if roster.find(user_id).is_some() {
                    self.updated.push(user_id);
                }
            },
            Mark::Removed => {
                self.removed.push(user_id);
            },
            Mark::Blocked => {
                self.removed.push(user_id);
                self.blocked_added.push(user_id);
            },
            Mark::Unblocked => {
                self.blocked_removed.push(user_id);
            },
        }
    }

    /// Notes the same thing about each of a list of users, in order.
    pub fn mark_all(&mut self, roster: &GroupMembers, users: &Vec<UserId>, mark: Mark)
        ensures
            final(self)@ == old(self)@.marked_all(*roster, users@, users@.len() as int, mark),
    {
        let mut k: usize = 0;
        while k < users.len()
            invariant
                k <= users@.len(),
                self@ == old(self)@.marked_all(*roster, users@, k as int, mark),
            decreases users@.len() - k,
        {
            self.mark(roster, users[k], mark);
            k += 1;
        }
    }

    /// Notes what one event says.
    pub fn note_event(&mut self, roster: &GroupMembers, event: &ChatEventInternal)
        ensures
            final(self)@ == old(self)@.after_event(*roster, *event),
    {
        match event {
            ChatEventInternal::ParticipantsAdded { user_ids, unblocked, .. } => {
                self.mark_all(roster, user_ids, Mark::Updated);
                self.mark_all(roster, unblocked, Mark::Unblocked);
            },
            ChatEventInternal::ParticipantsRemoved { user_ids, .. } => {
                self.mark_all(roster, user_ids, Mark::Removed);
            },
            ChatEventInternal::ParticipantJoined { user_id, .. } => {
                self.mark(roster, *user_id, Mark::Updated);
            },
            ChatEventInternal::ParticipantLeft { user_id } => {
                self.mark(roster, *user_id, Mark::Removed);
            },
            ChatEventInternal::MembersAddedToPublicChannel { user_ids } => {
                self.mark_all(roster, user_ids, Mark::Updated);
            },
            ChatEventInternal::RoleChanged { user_ids, .. } => {
                self.mark_all(roster, user_ids, Mark::Updated);
            },
            ChatEventInternal::UsersBlocked { user_ids, .. } => {
                self.mark_all(roster, user_ids, Mark::Blocked);
            },
            ChatEventInternal::UsersUnblocked { user_ids, .. } => {
                self.mark_all(roster, user_ids, Mark::Unblocked);
            },
            ChatEventInternal::MessagePinned { message_index, .. } => {
                if !contains_index(&self.pinned_removed, *message_index) && !contains_index(
                    &self.pinned_added,
                    *message_index,
                ) {
                    self.pinned_added.push(*message_index);
                }
            },
            ChatEventInternal::MessageUnpinned { message_index, .. } => {
                if !contains_index(&self.pinned_removed, *message_index) && !contains_index(
                    &self.pinned_added,
                    *message_index,
                ) {
                    self.pinned_removed.push(*message_index);
                }
            },
            ChatEventInternal::GroupRulesChanged { .. } => {
                self.rules_changed = true;
            },
            _ => {},
        }
    }
}

impl GroupChatCore {
    /// Whether `user_id` may be told of changes in the details: the group
    /// is public, or the user is a member or invited.
    pub open spec fn can_see_details(&self, user_id: Option<UserId>) -> bool {
        self.is_public || (user_id matches Some(u) && (self.members.contains(u) || self.invited_users.spec_contains(
            u,
        )))
    }

    /// The lower bound that applies to the details for `user_id`: none in
    /// a public group; in a private one a member's own bound, or that of
    /// the invitation.
    pub open spec fn details_bound(&self, user_id: Option<UserId>) -> EventIndex {
        if self.is_public {
            0
        } else if self.members.contains(user_id->Some_0) {
            self.members.member(user_id->Some_0).min_visible_event_index
        } else {
            self.invited_users.invitation(user_id->Some_0).min_visible_event_index
        }
    }

    /// The changes in the details of the group since `since`, as far as
    /// `user_id` may see them; `None` for a stranger to a private group.
    pub fn selected_group_updates_from_events(&self, since: TimestampMillis, user_id: Option<UserId>) -> (r: Option<
        SelectedGroupUpdates,
    >)
        requires
            self.wf(),
        ensures
            r is Some == self.can_see_details(user_id),
            r matches Some(updates) ==> selected_post(*self, since, user_id, updates),
    {
        let min_visible_event_index = if self.is_public {
            0
        } else {
            let user = match user_id {
                Some(u) => u,
                None => {
                    return None;
                },
            };
            match self.members.get(user) {
                Some(m) => m.min_visible_event_index(),
                None => match self.invited_users.get(user) {
                    Some(invitation) => invitation.min_visible_event_index,
                    None => {
                        return None;
                    },
                },
            }
        };
        let list = &self.events.main;
        let latest_event_index = list.next_event_index - 1;
        let invited_users = if self.invited_users.last_updated() > since {
            Some(self.invited_users.users())
        } else {
            None
        };
        let floor = list.lower_bound(min_visible_event_index as u64);
        let n = list.events.len();
        let ghost s = list.events@;
        let ghost start = window_start(s, floor as int, n as int, since);
        let mut gathering = Gathering::new();
        let mut i: usize = n;
        let mut done = false;
        while !done
            invariant
                s == list.events@,
                n == s.len(),
                floor <= i <= n,
                start == window_start(s, floor as int, i as int, since),
                done ==> start == i,
                Gathered::nothing().after_window(self.members, s, start, n as int) == gathering@.after_window(
                    self.members,
                    s,
                    start,
                    i as int,
                ),
            decreases i + (if done { 0int } else { 1int }),
        {
            if i <= floor || i == 0 {
                done = true;
            } else if list.events[i - 1].timestamp <= since {
                done = true;
            } else {
                proof {
                    lemma_window_start_bound(s, floor as int, i as int, since);
                }
                i = i - 1;
                gathering.note_event(&self.members, &list.events[i].event);
            }
        }
        let mut members_added_or_updated: Vec<GroupMember> = Vec::new();
        let mut k: usize = 0;
        while k < gathering.updated.len()
            invariant
                k <= gathering.updated@.len(),
                listed_members(self.members, gathering.updated@.take(k as int), members_added_or_updated@),
            decreases gathering.updated@.len() - k,
        {
            let ghost users = gathering.updated@.take(k as int);
            let ghost listed = members_added_or_updated@;
            assert(gathering.updated@.take(k as int + 1) == users.push(gathering.updated@[k as int]));
            let ghost next = users.push(gathering.updated@[k as int]);
            assert(next.drop_last() == users);
            match self.members.get(gathering.updated[k]) {
                Some(m) => {
                    members_added_or_updated.push(
                        GroupMember { user_id: m.user_id, date_added: m.date_added, role: m.role },
                    );
                    assert(members_added_or_updated@.drop_last() == listed);
                },
                None => {},
            }
            k += 1;
        }
        assert(gathering.updated@.take(gathering.updated@.len() as int) == gathering.updated@);
        Some(
            SelectedGroupUpdates {
                timestamp: self.events.latest_event_timestamp,
                latest_event_index,
                members_added_or_updated,
                members_removed: gathering.removed,
                blocked_users_added: gathering.blocked_added,
                blocked_users_removed: gathering.blocked_removed,
                invited_users,
                pinned_messages_added: gathering.pinned_added,
                pinned_messages_removed: gathering.pinned_removed,
                chat_rules: if gathering.rules_changed {
                    Some(self.rules.to_versioned_rules())
                } else {
                    None
                },
            },
        )
    }
}

/// The members listed for a run of users: one for each user who is still
/// a member, in order, each as members are shown to one another.
pub open spec fn listed_members(roster: GroupMembers, users: Seq<UserId>, listed: Seq<GroupMember>) -> bool
    decreases users.len(),
{
    if users.len() == 0 {
        listed.len() == 0
    } else if roster.contains(users.last()) {
        listed.len() > 0 && listed.last() == shown(roster.member(users.last())) && listed_members(
            roster,
            users.drop_last(),
            listed.drop_last(),
        )
    } else {
        listed_members(roster, users.drop_last(), listed)
    }
}

/// The window of recent events begins no later than any position from
/// which it was traced back through events recorded after `since`.
proof fn lemma_window_start_bound(s: Seq<EventWrapperInternal>, floor: int, hi: int, since: TimestampMillis)
    requires
        0 <= floor < hi <= s.len(),
        s[hi - 1].timestamp > since,
    ensures
        window_start(s, floor, hi, since) == window_start(s, floor, hi - 1, since),
        window_start(s, floor, hi, since) <= hi - 1,
    decreases hi,
{
    lemma_window_start_le(s, floor, hi - 1, since);
}

/// The window of recent events begins at or before the position from
/// which it is traced back.
proof fn lemma_window_start_le(s: Seq<EventWrapperInternal>, floor: int, hi: int, since: TimestampMillis)
    ensures
        window_start(s, floor, hi, since) <= hi,
    decreases hi,
{
    if !(hi <= floor || hi <= 0 || hi > s.len() || s[hi - 1].timestamp <= since) {
        lemma_window_start_le(s, floor, hi - 1, since);
    }
}

/// The answer to the question what changed in the details since `since`.
///
/// The events of the window (those recorded after `since` that the
/// reader may see) are gone through newest first; each user and each
/// message is listed by what the newest event about them says. The rules
/// are given if the window holds a change of rules, the invited users if
/// the invitations changed after `since`.
pub open spec fn selected_post(
    group: GroupChatCore,
    since: TimestampMillis,
    user_id: Option<UserId>,
    r: SelectedGroupUpdates,
) -> bool {
    let list = group.events.main;
    let s = list.events@;
    let start = window_start(s, list.floor(group.details_bound(user_id)), s.len() as int, since);
    let gathered = Gathered::nothing().after_window(group.members, s, start, s.len() as int);
    &&& r.timestamp == group.events.latest_event_timestamp
    &&& Some(r.latest_event_index) == list.spec_latest_event_index()
    &&& listed_members(group.members, gathered.updated, r.members_added_or_updated@)
    &&& r.members_removed@ == gathered.removed
    &&& r.blocked_users_added@ == gathered.blocked_added
    &&& r.blocked_users_removed@ == gathered.blocked_removed
    &&& r.pinned_messages_added@ == gathered.pinned_added
    &&& r.pinned_messages_removed@ == gathered.pinned_removed
    &&& match r.invited_users {
        Some(users) => {
            &&& group.invited_users.last_updated > since
            &&& users@.len() == group.invited_users.users@.len()
            &&& forall|i: int| 0 <= i < users@.len() ==> users@[i] == (#[trigger] group.invited_users.users@[i]).invited
        },
        None => group.invited_users.last_updated <= since,
    }
    &&& match r.chat_rules {
        Some(rules) => {
            &&& gathered.rules_changed
            &&& rules.text == group.rules.text.value
            &&& rules.version == group.rules.text.version
            &&& rules.enabled == group.rules.enabled
        },
        None => !gathered.rules_changed,
    }
}

} // verus!
