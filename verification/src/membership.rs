//! Commands that change who belongs to the group: inviting, leaving,
//! removing and blocking, and changing roles.

use vstd::prelude::*;
use crate::chat_events::{lemma_pushed_is_appended, one_event_appended};
use crate::events::ChatEventInternal;
use crate::group::{accepted_by_now, lemma_in_time_remove, lemma_in_time_same, GroupChatCore};
use crate::known_threads::{lemma_add_participants_keeps_known, lemma_change_role_keeps_known};
use crate::invited_users::{with_invitation, UserInvitation};
use crate::members::{lemma_owner_counted, newly_joined, AddResult, ChangeRoleResult, GroupMemberInternal};
use crate::results::{InvitedUsersResult, InvitedUsersSuccess, LeaveResult, RemoveMemberResult};
use crate::roles::{may_remove_members_with_role, permitted};
use crate::seq_util::{copy_ids, lemma_first_match};
use crate::thread_summary::lemma_push_contains;
use crate::validation::clamp_length;
use crate::types::{EventIndex, GroupRole, MessageIndex, TimestampMillis, UserId};

verus! {

/// Most invitations that a private group may have outstanding.
pub const MAX_INVITES: usize = 100;

impl GroupChatCore {
    /// The users among the first `k` of `user_ids` who are neither members
    /// nor invited, in order.
    pub open spec fn new_invitees(&self, user_ids: Seq<UserId>, k: int) -> Seq<UserId>
        decreases k,
    {
        if k <= 0 || k > user_ids.len() {
            Seq::empty()
        } else {
            let before = self.new_invitees(user_ids, k - 1);
            if !self.members.contains(user_ids[k - 1]) && !self.invited_users.spec_contains(user_ids[k - 1]) {
                before.push(user_ids[k - 1])
            } else {
                before
            }
        }
    }

    /// What invited users will be allowed to see. Where new joiners see
    /// the history, it is what new members see (everything, if no bound
    /// was ever set). Otherwise it is what comes from now on, except that
    /// a log that holds nothing but its first event is shown whole.
    pub open spec fn invitee_bounds(&self) -> (EventIndex, MessageIndex) {
        if self.history_visible_to_new_joiners {
            match self.min_visible_indexes_for_new_members {
                Some(bounds) => bounds,
                None => (0, 0),
            }
        } else if self.events.main.events@.len() > 1 {
            (self.events.main.next_event_index, self.events.main.next_message_index)
        } else {
            (0, 0)
        }
    }

    /// The users of the list who are neither members nor invited.
    fn filter_invitees(&self, user_ids: &Vec<UserId>) -> (r: Vec<UserId>)
        ensures
            r@ == self.new_invitees(user_ids@, user_ids@.len() as int),
    {
        let mut out: Vec<UserId> = Vec::new();
        let mut i: usize = 0;
        while i < user_ids.len()
            invariant
                i <= user_ids@.len(),
                out@ == self.new_invitees(user_ids@, i as int),
            decreases user_ids@.len() - i,
        {
            let u = user_ids[i];
            if self.members.get(u).is_none() && !self.invited_users.contains(u) {
                out.push(u);
            }
            i += 1;
        }
        out
    }

    /// Whether inviting the users puts anyone on the list of invited
    /// users: the group is private, the caller may invite, someone among
    /// the users is new, and the list has room for them.
    pub open spec fn invites(&self, invited_by: UserId, user_ids: Seq<UserId>) -> bool {
        let invitees = self.new_invitees(user_ids, user_ids.len() as int);
        &&& self.members.contains(invited_by)
        &&& !self.members.member(invited_by).suspended.value
        &&& !self.is_public
        &&& permitted(self.members.member(invited_by).role, self.permissions.invite_users)
        &&& invitees.len() > 0
        &&& self.invited_users.users@.len() + invitees.len() <= MAX_INVITES
    }

    /// Invites users to the group. The log must have room for the event
    /// where anyone is to be invited; otherwise it needs none.
    pub fn invite_users(&mut self, invited_by: UserId, user_ids: Vec<UserId>, now: TimestampMillis) -> (r:
        InvitedUsersResult)
        requires
            old(self).wf(),
            old(self).invites(invited_by, user_ids@) ==> old(self).has_room(1),
        ensures
            final(self).wf(),
            invite_users_post(*old(self), invited_by, user_ids, now, *final(self), r),
    {
        let role = match self.members.get(invited_by) {
            Some(member) => {
                if member.suspended.value {
                    return InvitedUsersResult::UserSuspended;
                }
                member.role
            },
            None => {
                return InvitedUsersResult::UserNotInGroup;
            },
        };
        if !self.is_public && !role.can_invite_users(&self.permissions) {
            return InvitedUsersResult::NotAuthorized;
        }
        let invitees = self.filter_invitees(&user_ids);
        let listed = copy_ids(&user_ids);
        if !self.is_public && invitees.len() > 0 {
            if self.invited_users.len() > MAX_INVITES || invitees.len() > MAX_INVITES - self.invited_users.len() {
                return InvitedUsersResult::TooManyInvites(MAX_INVITES as u32);
            }
            let (min_visible_event_index, min_visible_message_index) = if self.history_visible_to_new_joiners {
                match self.min_visible_indexes_for_new_members {
                    Some(bounds) => bounds,
                    None => (0, 0),
                }
            } else if self.events.main.len() > 1 {
                (self.events.main.next_event_index, self.events.main.next_message_index)
            } else {
                (0, 0)
            };
            let mut i: usize = 0;
            while i < invitees.len()
                invariant
                    i <= invitees@.len(),
                    self.invited_users.users@ == invited_after(
                        old(self).invited_users.users@,
                        invitees@,
                        i as int,
                        invited_by,
                        now,
                        (min_visible_event_index, min_visible_message_index),
                    ),
                    i > 0 ==> self.invited_users.last_updated == now,
                    i == 0 ==> self.invited_users.last_updated == old(self).invited_users.last_updated,
                    *self == (GroupChatCore { invited_users: self.invited_users, ..*old(self) }),
                decreases invitees@.len() - i,
            {
                self.invited_users.add(
                    UserInvitation {
                        invited: invitees[i],
                        invited_by,
                        timestamp: now,
                        min_visible_event_index,
                        min_visible_message_index,
                    },
                );
                i += 1;
            }
            let ghost before = self.events;
            let ghost event = ChatEventInternal::UsersInvited { user_ids, invited_by };
            self.events.push_main_event(ChatEventInternal::UsersInvited { user_ids, invited_by }, now);
            proof {
                lemma_pushed_is_appended(before, self.events, event, now);
            }
        }
        InvitedUsersResult::Success(InvitedUsersSuccess { invited_users: listed, group_name: self.name.clone() })
    }

    /// Whether `user_id` may leave: a member, not suspended, who is not
    /// the only owner.
    pub open spec fn may_leave(&self, user_id: UserId) -> bool {
        &&& self.members.contains(user_id)
        &&& !self.members.member(user_id).suspended.value
        &&& !(self.members.member(user_id).role == GroupRole::Owner && self.members.spec_owner_count() == 1)
    }

    /// Takes the caller off the roster. The log must have room for the
    /// event where the caller may leave; a refusal needs none.
    pub fn leave(&mut self, user_id: UserId, now: TimestampMillis) -> (r: LeaveResult)
        requires
            old(self).wf(),
            old(self).may_leave(user_id) ==> old(self).has_room(1),
        ensures
            final(self).wf(),
            leave_post(*old(self), user_id, now, *final(self), r),
    {
        match self.members.get(user_id) {
            Some(member) => {
                if member.suspended.value {
                    return LeaveResult::UserSuspended;
                }
                if member.role.is_owner() && self.members.owner_count() == 1 {
                    return LeaveResult::LastOwnerCannotLeave;
                }
            },
            None => {
                return LeaveResult::UserNotInGroup;
            },
        }
        proof {
            lemma_first_match(self.members.members@, crate::members::is_user(user_id));
            lemma_in_time_remove(self.members.members@, self.members.position(user_id), self.rules.text.version);
        }
        match self.members.remove(user_id) {
            Some(removed) => {
                let ghost before = self.events;
                self.events.push_main_event(ChatEventInternal::ParticipantLeft { user_id }, now);
                proof {
                    lemma_pushed_is_appended(
                        before,
                        self.events,
                        ChatEventInternal::ParticipantLeft { user_id },
                        now,
                    );
                }
                LeaveResult::Success(removed)
            },
            None => LeaveResult::UserNotInGroup,
        }
    }

    /// Whether `user_id` may remove `target_user_id`, or block the user
    /// if `block` is set.
    pub open spec fn may_remove(&self, user_id: UserId, target_user_id: UserId, block: bool) -> bool {
        &&& user_id != target_user_id
        &&& self.members.contains(user_id)
        &&& !self.members.member(user_id).suspended.value
        &&& (self.members.contains(target_user_id) || block)
        &&& may_remove_members_with_role(
            self.members.member(user_id).role,
            if self.members.contains(target_user_id) {
                self.members.member(target_user_id).role
            } else {
                GroupRole::Participant
            },
            self.permissions,
        )
    }

    /// Removes a member, and blocks the user if asked to. The log must
    /// have room for the event where one is to be recorded; a refusal, or
    /// the blocking of a user who is blocked already, needs none.
    pub fn remove_member(&mut self, user_id: UserId, target_user_id: UserId, block: bool, now: TimestampMillis) -> (r:
        RemoveMemberResult)
        requires
            old(self).wf(),
            old(self).may_remove(user_id, target_user_id, block) && !(block && old(self).members.is_blocked(
                target_user_id,
            )) ==> old(self).has_room(1),
        ensures
            final(self).wf(),
            remove_member_post(*old(self), user_id, target_user_id, block, now, *final(self), r),
    {
        if user_id == target_user_id {
            return RemoveMemberResult::CannotRemoveSelf;
        }
        let role = match self.members.get(user_id) {
            Some(member) => {
                if member.suspended.value {
                    return RemoveMemberResult::UserSuspended;
                }
                member.role
            },
            None => {
                return RemoveMemberResult::UserNotInGroup;
            },
        };
        let target_role = match self.members.get(target_user_id) {
            Some(m) => m.role,
            None => {
                if block {
                    GroupRole::Participant
                } else {
                    return RemoveMemberResult::TargetUserNotInGroup;
                }
            },
        };
        if !role.can_remove_members_with_role(target_role, &self.permissions) {
            return RemoveMemberResult::NotAuthorized;
        }
        proof {
            lemma_first_match(old(self).members.members@, crate::members::is_user(user_id));
            lemma_first_match(old(self).members.members@, crate::members::is_user(target_user_id));
            if self.members.contains(target_user_id) {
                lemma_in_time_remove(
                    self.members.members@,
                    self.members.position(target_user_id),
                    self.rules.text.version,
                );
            }
        }
        self.members.remove(target_user_id);
        proof {
            if role == GroupRole::Owner {
                lemma_first_match(self.members.members@, crate::members::is_user(user_id));
                lemma_owner_counted(self.members.members@, self.members.position(user_id));
            }
        }
        if block && !self.members.block(target_user_id) {
            return RemoveMemberResult::Success;
        }
        let mut user_ids: Vec<UserId> = Vec::new();
        user_ids.push(target_user_id);
        if block {
            self.events.push_main_event(ChatEventInternal::UsersBlocked { user_ids, blocked_by: user_id }, now);
        } else {
            self.events.push_main_event(ChatEventInternal::ParticipantsRemoved { user_ids, removed_by: user_id }, now);
        }
        proof {
            assert(self.events.main.events@.drop_last() == old(self).events.main.events@);
        }
        RemoveMemberResult::Success
    }

    /// The users among the first `k` of `user_ids` who can join: those who
    /// are neither members nor blocked, each once.
    pub open spec fn joiners(&self, user_ids: Seq<UserId>, k: int) -> Seq<UserId>
        decreases k,
    {
        if k <= 0 || k > user_ids.len() {
            Seq::empty()
        } else {
            let before = self.joiners(user_ids, k - 1);
            let user = user_ids[k - 1];
            if !self.members.is_blocked(user) && !self.members.contains(user) && !before.contains(user) {
                before.push(user)
            } else {
                before
            }
        }
    }

    /// Whether adding the users makes anyone join: the caller is an owner,
    /// not suspended, and someone among the users can join.
    pub open spec fn adds(&self, caller: UserId, user_ids: Seq<UserId>) -> bool {
        &&& self.members.contains(caller)
        &&& !self.members.member(caller).suspended.value
        &&& self.members.member(caller).role == GroupRole::Owner
        &&& self.joiners(user_ids, user_ids.len() as int).len() > 0
    }

    /// Adds users to the group on behalf of an owner; nobody else may add
    /// members, whatever the permission matrix says. Returns how many
    /// joined, or `None` if the caller may not add anyone. The log must
    /// have room for the event where anyone is to join.
    pub fn add_participants(&mut self, caller: UserId, user_ids: Vec<UserId>, now: TimestampMillis) -> (r: Option<u32>)
        requires
            old(self).wf(),
            old(self).adds(caller, user_ids@) ==> old(self).has_room(1),
        ensures
            final(self).wf(),
            add_participants_post(*old(self), caller, user_ids@, now, *final(self), r),
    {
        match self.members.get(caller) {
            Some(member) => {
                if member.suspended.value || !member.role.can_add_members() {
                    return None;
                }
            },
            None => {
                return None;
            },
        }
        let (min_event, min_message) = match self.min_visible_indexes_for_new_members {
            Some(bounds) => bounds,
            None => (0, 0),
        };
        let mut added: Vec<UserId> = Vec::new();
        let mut i: usize = 0;
        let ghost before = self.members.members@;
        assert(self.members.members@ =~= before + Seq::<GroupMemberInternal>::empty());
        while i < user_ids.len()
            invariant
                i <= user_ids@.len(),
                self.members.wf(),
                before == old(self).members.members@,
                added@ == old(self).joiners(user_ids@, i as int),
                self.members.blocked == old(self).members.blocked,
                self.members.members@.len() == before.len() + added@.len(),
                self.members.members@.subrange(0, before.len() as int) == before,
                forall|k: int|
                    0 <= k < added@.len() ==> newly_joined(
                        #[trigger] self.members.members@[before.len() + k],
                        added@[k],
                        now,
                        min_event,
                        min_message,
                        false,
                        false,
                    ),
                forall|u: UserId|
                    #[trigger] self.members.contains(u) <==> old(self).members.contains(u) || added@.contains(u),
                self.members.spec_owner_count() == old(self).members.spec_owner_count(),
                *self == (GroupChatCore { members: self.members, ..*old(self) }),
            decreases user_ids@.len() - i,
        {
            let ghost current = self.members.members@;
            let ghost roster = self.members;
            let ghost joined = added@;
            let user = user_ids[i];
            assert(roster.contains(user) == (old(self).members.contains(user) || joined.contains(user)));
            assert(roster.is_blocked(user) == old(self).members.is_blocked(user));
            match self.members.add(user, now, min_event, min_message, false, false) {
                AddResult::Success => {
                    added.push(user);
                    proof {
                        lemma_push_contains(joined, user);
                        assert forall|u: UserId| #[trigger]
                            self.members.contains(u) <==> old(self).members.contains(u) || added@.contains(u) by {
                            if u != user {
                                assert(self.members.contains(u) == roster.contains(u));
                                assert(roster.contains(u) == (old(self).members.contains(u) || joined.contains(u)));
                            }
                        }
                        assert(self.members.members@.drop_last() == current);
                        assert(self.members.members@.subrange(0, before.len() as int) =~= before);
                        assert forall|k: int| 0 <= k < added@.len() implies newly_joined(
                            #[trigger] self.members.members@[before.len() + k],
                            added@[k],
                            now,
                            min_event,
                            min_message,
                            false,
                            false,
                        ) by {
                            if k < joined.len() {
                                assert(self.members.members@[before.len() + k] == current[before.len() + k]);
                            }
                        }
                    }
                },
                _ => {},
            }
            i += 1;
        }
        proof {
            let roster = self.members.members@;
            let version = self.rules.text.version;
            assert forall|j: int| 0 <= j < roster.len() implies accepted_by_now(
                (#[trigger] roster[j]).rules_accepted,
                version,
            ) by {
                if j < before.len() {
                    assert(roster[j] == roster.subrange(0, before.len() as int)[j]);
                    assert(accepted_by_now(before[j].rules_accepted, version));
                } else {
                    let k = j - before.len();
                    assert(newly_joined(
                        roster[before.len() + k],
                        added@[k],
                        now,
                        min_event,
                        min_message,
                        false,
                        false,
                    ));
                }
            }
        }
        if added.len() > 0 {
            let ghost log = self.events;
            let count = if added.len() <= u32::MAX as usize {
                added.len() as u32
            } else {
                u32::MAX
            };
            let unblocked: Vec<UserId> = Vec::new();
            self.events.push_main_event(
                ChatEventInternal::ParticipantsAdded { user_ids: added, unblocked, added_by: caller },
                now,
            );
            proof {
                assert(self.events.main.events@.drop_last() == log.main.events@);
                lemma_add_participants_keeps_known(*old(self), caller, user_ids@, now, *self, Some(count));
            }
            Some(count)
        } else {
            proof {
                lemma_add_participants_keeps_known(*old(self), caller, user_ids@, now, *self, Some(0u32));
            }
            Some(0)
        }
    }

    /// Changes the role of a member. The log must have room for the event
    /// where the role is to change; a refusal needs none.
    pub fn change_role(
        &mut self,
        caller: UserId,
        target_user: UserId,
        new_role: GroupRole,
        is_caller_platform_moderator: bool,
        is_user_platform_moderator: bool,
        now: TimestampMillis,
    ) -> (r: ChangeRoleResult)
        requires
            old(self).wf(),
            old(self).members.change_role_verdict(
                caller,
                target_user,
                new_role,
                old(self).permissions,
                is_caller_platform_moderator,
                is_user_platform_moderator,
            ) is Success ==> old(self).has_room(1),
        ensures
            final(self).wf(),
            change_role_post(
                *old(self),
                caller,
                target_user,
                new_role,
                is_caller_platform_moderator,
                is_user_platform_moderator,
                now,
                *final(self),
                r,
            ),
    {
        let result = self.members.change_role(
            caller,
            target_user,
            new_role,
            &self.permissions,
            is_caller_platform_moderator,
            is_user_platform_moderator,
        );
        match result {
            ChangeRoleResult::Success(success) => {
                let mut user_ids: Vec<UserId> = Vec::new();
                user_ids.push(target_user);
                self.events.push_main_event(
                    ChatEventInternal::RoleChanged {
                        user_ids,
                        changed_by: caller,
                        old_role: success.prev_role,
                        new_role,
                    },
                    now,
                );
                proof {
                    assert(self.events.main.events@.drop_last() == old(self).events.main.events@);
                    lemma_first_match(old(self).members.members@, crate::members::is_user(target_user));
                    lemma_in_time_same(old(self).members.members@, self.members.members@, self.rules.text.version);
                    lemma_change_role_keeps_known(
                        *old(self),
                        caller,
                        target_user,
                        new_role,
                        is_caller_platform_moderator,
                        is_user_platform_moderator,
                        now,
                        *self,
                        result,
                    );
                }
            },
            _ => {},
        }
        result
    }
}

/// The invitations after the first `k` of the new invitees were invited
/// by `invited_by` at `now` with the given bounds.
pub open spec fn invited_after(
    users: Seq<UserInvitation>,
    invitees: Seq<UserId>,
    k: int,
    invited_by: UserId,
    now: TimestampMillis,
    bounds: (EventIndex, MessageIndex),
) -> Seq<UserInvitation>
    decreases k,
{
    if k <= 0 || k > invitees.len() {
        users
    } else {
        with_invitation(
            invited_after(users, invitees, k - 1, invited_by, now, bounds),
            UserInvitation {
                invited: invitees[k - 1],
                invited_by,
                timestamp: now,
                min_visible_event_index: bounds.0,
                min_visible_message_index: bounds.1,
            },
        )
    }
}

/// What inviting users does.
///
/// The caller must be a member and not suspended, and, in a private
/// group, allowed to invite. Users who are members or invited already are
/// passed over. A public group keeps no invitations. In a private group
/// the new invitees, if there are any, are invited with the bounds of
/// `invitee_bounds` and the invitation is recorded in the log, unless
/// that would take the outstanding invitations over the limit. If there
/// is nobody new to invite, nothing changes.
pub open spec fn invite_users_post(
    pre: GroupChatCore,
    invited_by: UserId,
    user_ids: Vec<UserId>,
    now: TimestampMillis,
    post: GroupChatCore,
    r: InvitedUsersResult,
) -> bool {
    let invitees = pre.new_invitees(user_ids@, user_ids@.len() as int);
    if !pre.members.contains(invited_by) {
        r is UserNotInGroup && post == pre
    } else if pre.members.member(invited_by).suspended.value {
        r is UserSuspended && post == pre
    } else if !pre.is_public && !permitted(pre.members.member(invited_by).role, pre.permissions.invite_users) {
        r is NotAuthorized && post == pre
    } else if pre.is_public || invitees.len() == 0 {
        &&& r matches InvitedUsersResult::Success(success)
        &&& success.invited_users@ == user_ids@
        &&& success.group_name == pre.name
        &&& post == pre
    } else if pre.invited_users.users@.len() + invitees.len() > MAX_INVITES {
        r matches InvitedUsersResult::TooManyInvites(max) && max == MAX_INVITES && post == pre
    } else {
        &&& r matches InvitedUsersResult::Success(success)
        &&& success.invited_users@ == user_ids@
        &&& success.group_name == pre.name
        &&& post.invited_users.users@ == invited_after(
            pre.invited_users.users@,
            invitees,
            invitees.len() as int,
            invited_by,
            now,
            pre.invitee_bounds(),
        )
        &&& post.invited_users.last_updated == now
        &&& one_event_appended(pre.events, post.events, now)
        &&& post.events.main.events@.last().event == (ChatEventInternal::UsersInvited { user_ids, invited_by })
        &&& post == (GroupChatCore { invited_users: post.invited_users, events: post.events, ..pre })
    }
}

/// What leaving does.
///
/// The caller must be a member and not suspended, and must not be the
/// only owner. The caller's record is taken off the roster and handed
/// back, and the departure is recorded in the log.
pub open spec fn leave_post(
    pre: GroupChatCore,
    user_id: UserId,
    now: TimestampMillis,
    post: GroupChatCore,
    r: LeaveResult,
) -> bool {
    if !pre.members.contains(user_id) {
        r is UserNotInGroup && post == pre
    } else if pre.members.member(user_id).suspended.value {
        r is UserSuspended && post == pre
    } else if pre.members.member(user_id).role == GroupRole::Owner && pre.members.spec_owner_count() == 1 {
        r is LastOwnerCannotLeave && post == pre
    } else {
        &&& r matches LeaveResult::Success(removed)
        &&& removed == pre.members.member(user_id)
        &&& post.members.members@ == pre.members.members@.remove(pre.members.position(user_id))
        &&& post.members.blocked == pre.members.blocked
        &&& !post.members.contains(user_id)
        &&& one_event_appended(pre.events, post.events, now)
        &&& post.events.main.events@.last().event == (ChatEventInternal::ParticipantLeft { user_id })
        &&& post == (GroupChatCore { members: post.members, events: post.events, ..pre })
    }
}

/// What removing a member does.
///
/// Nobody removes themselves. The caller must be a member and not
/// suspended. The target must be a member, unless the user is to be
/// blocked. The caller's role must allow removing members and be at
/// least as senior as the target's (a user who is not a member counts as
/// a plain participant). The target is taken off the roster, and put on
/// the block list if asked; the log records the removal or the block,
/// except where the user was blocked already.
pub open spec fn remove_member_post(
    pre: GroupChatCore,
    user_id: UserId,
    target_user_id: UserId,
    block: bool,
    now: TimestampMillis,
    post: GroupChatCore,
    r: RemoveMemberResult,
) -> bool {
    let target_role = if pre.members.contains(target_user_id) {
        pre.members.member(target_user_id).role
    } else {
        GroupRole::Participant
    };
    if user_id == target_user_id {
        r == RemoveMemberResult::CannotRemoveSelf && post == pre
    } else if !pre.members.contains(user_id) {
        r == RemoveMemberResult::UserNotInGroup && post == pre
    } else if pre.members.member(user_id).suspended.value {
        r == RemoveMemberResult::UserSuspended && post == pre
    } else if !pre.members.contains(target_user_id) && !block {
        r == RemoveMemberResult::TargetUserNotInGroup && post == pre
    } else if !may_remove_members_with_role(pre.members.member(user_id).role, target_role, pre.permissions) {
        r == RemoveMemberResult::NotAuthorized && post == pre
    } else {
        &&& r == RemoveMemberResult::Success
        &&& !post.members.contains(target_user_id)
        &&& post.members.members@ == if pre.members.contains(target_user_id) {
            pre.members.members@.remove(pre.members.position(target_user_id))
        } else {
            pre.members.members@
        }
        &&& post.members.blocked@ == if block && !pre.members.is_blocked(target_user_id) {
            pre.members.blocked@.push(target_user_id)
        } else {
            pre.members.blocked@
        }
        &&& if block && pre.members.is_blocked(target_user_id) {
            post.events == pre.events
        } else {
            &&& one_event_appended(pre.events, post.events, now)
            &&& if block {
                post.events.main.events@.last().event matches ChatEventInternal::UsersBlocked {
                    user_ids,
                    blocked_by,
                } && user_ids@ == seq![target_user_id] && blocked_by == user_id
            } else {
                post.events.main.events@.last().event matches ChatEventInternal::ParticipantsRemoved {
                    user_ids,
                    removed_by,
                } && user_ids@ == seq![target_user_id] && removed_by == user_id
            }
        }
        &&& post == (GroupChatCore { members: post.members, events: post.events, ..pre })
    }
}

/// What adding users does.
///
/// The caller must be an owner and not suspended; otherwise nothing
/// changes and nothing is returned. The users
/// who can join are put on the roster in order, as plain participants
/// who see what new members see. If anyone joined, the log records it.
/// The result is the number of users who joined.
pub open spec fn add_participants_post(
    pre: GroupChatCore,
    caller: UserId,
    user_ids: Seq<UserId>,
    now: TimestampMillis,
    post: GroupChatCore,
    r: Option<u32>,
) -> bool {
    if !pre.members.contains(caller) || pre.members.member(caller).suspended.value || pre.members.member(
        caller,
    ).role != GroupRole::Owner {
        r is None && post == pre
    } else {
        let joiners = pre.joiners(user_ids, user_ids.len() as int);
        let bounds = match pre.min_visible_indexes_for_new_members {
            Some(bounds) => bounds,
            None => (0u32, 0u32),
        };
        &&& r == Some(clamp_length(joiners.len()))
        &&& post.members.blocked == pre.members.blocked
        &&& post.members.members@.len() == pre.members.members@.len() + joiners.len()
        &&& post.members.members@.subrange(0, pre.members.members@.len() as int) == pre.members.members@
        &&& forall|k: int|
            0 <= k < joiners.len() ==> newly_joined(
                #[trigger] post.members.members@[pre.members.members@.len() + k],
                joiners[k],
                now,
                bounds.0,
                bounds.1,
                false,
                false,
            )
        &&& if joiners.len() > 0 {
            &&& one_event_appended(pre.events, post.events, now)
            &&& post.events.main.events@.last().event matches ChatEventInternal::ParticipantsAdded {
                user_ids: recorded,
                unblocked,
                added_by,
            } && recorded@ == joiners && unblocked@.len() == 0 && added_by == caller
        } else {
            post.events == pre.events
        }
        &&& post == (GroupChatCore { members: post.members, events: post.events, ..pre })
    }
}

/// What changing a role does.
///
/// The outcome is the one that `change_role_verdict` names. On success
/// the target has the new role, and the change is recorded in the log;
/// otherwise nothing changes. The group keeps an owner in any case.
pub open spec fn change_role_post(
    pre: GroupChatCore,
    caller: UserId,
    target_user: UserId,
    new_role: GroupRole,
    is_caller_platform_moderator: bool,
    is_user_platform_moderator: bool,
    now: TimestampMillis,
    post: GroupChatCore,
    r: ChangeRoleResult,
) -> bool {
    &&& r == pre.members.change_role_verdict(
        caller,
        target_user,
        new_role,
        pre.permissions,
        is_caller_platform_moderator,
        is_user_platform_moderator,
    )
    &&& match r {
        ChangeRoleResult::Success(success) => {
            let i = pre.members.position(target_user);
            &&& post.members.blocked == pre.members.blocked
            &&& post.members.members@ == pre.members.members@.update(i, post.members.members@[i])
            &&& post.members.members@[i] == (GroupMemberInternal { role: new_role, ..pre.members.members@[i] })
            &&& one_event_appended(pre.events, post.events, now)
            &&& post.events.main.events@.last().event matches ChatEventInternal::RoleChanged {
                user_ids,
                changed_by,
                old_role,
                new_role: recorded,
            } && user_ids@ == seq![target_user] && changed_by == caller && old_role == success.prev_role && recorded
                == new_role
            &&& post == (GroupChatCore { members: post.members, events: post.events, ..pre })
        },
        _ => post == pre,
    }
}

} // verus!
