//! What each role may do, given the group's permission matrix.

use vstd::prelude::*;
use crate::types::{GroupPermissionRole, GroupPermissions, GroupRole};

verus! {

/// Seniority of a role: a larger number is more senior.
pub open spec fn role_rank(role: GroupRole) -> nat {
    match role {
        GroupRole::Owner => 3,
        GroupRole::Admin => 2,
        GroupRole::Moderator => 1,
        GroupRole::Participant => 0,
    }
}

/// Seniority that a permission slot asks for.
pub open spec fn required_rank(threshold: GroupPermissionRole) -> nat {
    match threshold {
        GroupPermissionRole::Owner => 3,
        GroupPermissionRole::Admins => 2,
        GroupPermissionRole::Moderators => 1,
        GroupPermissionRole::Members => 0,
    }
}

/// A role meets a threshold when it is at least as senior as the threshold asks.
pub open spec fn permitted(role: GroupRole, threshold: GroupPermissionRole) -> bool {
    role_rank(role) >= required_rank(threshold)
}

/// Whether `role` may give some member the role `new_role`: only owners
/// make owners, every other role goes by the `change_roles` slot.
pub open spec fn may_change_roles(role: GroupRole, new_role: GroupRole, permissions: GroupPermissions) -> bool {
    if new_role == GroupRole::Owner {
        role == GroupRole::Owner
    } else {
        permitted(role, permissions.change_roles)
    }
}

/// Whether `role` may remove a member whose role is `target`: it must be at
/// least as senior as the target and meet the `remove_members` slot.
pub open spec fn may_remove_members_with_role(role: GroupRole, target: GroupRole, permissions: GroupPermissions) -> bool {
    role_rank(role) >= role_rank(target) && permitted(role, permissions.remove_members)
}

impl GroupRole {
    pub fn is_owner(&self) -> (r: bool)
        ensures
            r == (*self == GroupRole::Owner),
    {
        matches!(self, GroupRole::Owner)
    }

    pub fn is_admin(&self) -> (r: bool)
        ensures
            r == (*self == GroupRole::Admin),
    {
        matches!(self, GroupRole::Admin)
    }

    pub fn is_moderator(&self) -> (r: bool)
        ensures
            r == (*self == GroupRole::Moderator),
    {
        matches!(self, GroupRole::Moderator)
    }

    pub fn is_permitted(&self, threshold: GroupPermissionRole) -> (r: bool)
        ensures
            r == permitted(*self, threshold),
    {
        match threshold {
            GroupPermissionRole::Owner => self.is_owner(),
            GroupPermissionRole::Admins => self.is_owner() || self.is_admin(),
            GroupPermissionRole::Moderators => !matches!(self, GroupRole::Participant),
            GroupPermissionRole::Members => true,
        }
    }

    pub fn is_same_or_senior(&self, other: GroupRole) -> (r: bool)
        ensures
            r == (role_rank(*self) >= role_rank(other)),
    {
        match other {
            GroupRole::Owner => self.is_owner(),
            GroupRole::Admin => self.is_owner() || self.is_admin(),
            GroupRole::Moderator => !matches!(self, GroupRole::Participant),
            GroupRole::Participant => true,
        }
    }

    pub fn can_change_permissions(&self) -> (r: bool)
        ensures
            r == (*self == GroupRole::Owner),
    {
        self.is_owner()
    }

    pub fn can_add_members(&self) -> (r: bool)
        ensures
            r == (*self == GroupRole::Owner),
    {
        self.is_owner()
    }

    pub fn can_block_users(&self) -> (r: bool)
        ensures
            r == (*self == GroupRole::Owner),
    {
        self.is_owner()
    }

    pub fn can_change_group_visibility(&self) -> (r: bool)
        ensures
            r == (*self == GroupRole::Owner),
    {
        self.is_owner()
    }

    pub fn can_change_roles(&self, new_role: GroupRole, permissions: &GroupPermissions) -> (r: bool)
        ensures
            r == may_change_roles(*self, new_role, *permissions),
    {
        match new_role {
            GroupRole::Owner => self.is_owner(),
            _ => self.is_permitted(permissions.change_roles),
        }
    }

    pub fn can_remove_members(&self, permissions: &GroupPermissions) -> (r: bool)
        ensures
            r == permitted(*self, permissions.remove_members),
    {
        self.is_permitted(permissions.remove_members)
    }

    pub fn can_remove_members_with_role(&self, target: GroupRole, permissions: &GroupPermissions) -> (r: bool)
        ensures
            r == may_remove_members_with_role(*self, target, *permissions),
    {
        self.is_same_or_senior(target) && self.is_permitted(permissions.remove_members)
    }

    pub fn can_delete_messages(&self, permissions: &GroupPermissions) -> (r: bool)
        ensures
            r == permitted(*self, permissions.delete_messages),
    {
        self.is_permitted(permissions.delete_messages)
    }

    pub fn can_update_group(&self, permissions: &GroupPermissions) -> (r: bool)
        ensures
            r == permitted(*self, permissions.update_group),
    {
        self.is_permitted(permissions.update_group)
    }

    pub fn can_pin_messages(&self, permissions: &GroupPermissions) -> (r: bool)
        ensures
            r == permitted(*self, permissions.pin_messages),
    {
        self.is_permitted(permissions.pin_messages)
    }

    pub fn can_invite_users(&self, permissions: &GroupPermissions) -> (r: bool)
        ensures
            r == permitted(*self, permissions.invite_users),
    {
        self.is_permitted(permissions.invite_users)
    }

    pub fn can_create_polls(&self, permissions: &GroupPermissions) -> (r: bool)
        ensures
            r == permitted(*self, permissions.create_polls),
    {
        self.is_permitted(permissions.create_polls)
    }

    pub fn can_send_messages(&self, permissions: &GroupPermissions) -> (r: bool)
        ensures
            r == permitted(*self, permissions.send_messages),
    {
        self.is_permitted(permissions.send_messages)
    }

    pub fn can_react_to_messages(&self, permissions: &GroupPermissions) -> (r: bool)
        ensures
            r == permitted(*self, permissions.react_to_messages),
    {
        self.is_permitted(permissions.react_to_messages)
    }

    pub fn can_reply_in_thread(&self, permissions: &GroupPermissions) -> (r: bool)
        ensures
            r == permitted(*self, permissions.reply_in_thread),
    {
        self.is_permitted(permissions.reply_in_thread)
    }

    pub fn can_mention_everyone(&self, permissions: &GroupPermissions) -> (r: bool)
        ensures
            r == permitted(*self, permissions.mention_all_members),
    {
        self.is_permitted(permissions.mention_all_members)
    }
}

} // verus!
