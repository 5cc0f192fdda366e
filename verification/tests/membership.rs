use group_chat_core::group::GroupChatCore;
use group_chat_core::members::AddResult;
use group_chat_core::message::MessageContent;
use group_chat_core::results::{SendMessageResult, SendMessageSuccess};
use group_chat_core::types::{GroupPermissionRole, GroupPermissions, GroupRole, Rules};
use group_chat_core::events::ChatEventInternal;
use group_chat_core::members::ChangeRoleResult;
use group_chat_core::results::{InvitedUsersResult, LeaveResult, RemoveMemberResult};

fn permissions() -> GroupPermissions {
    GroupPermissions {
        change_permissions: GroupPermissionRole::Owner,
        change_roles: GroupPermissionRole::Admins,
        add_members: GroupPermissionRole::Owner,
        remove_members: GroupPermissionRole::Moderators,
        block_users: GroupPermissionRole::Owner,
        delete_messages: GroupPermissionRole::Moderators,
        update_group: GroupPermissionRole::Admins,
        pin_messages: GroupPermissionRole::Admins,
        invite_users: GroupPermissionRole::Admins,
        create_polls: GroupPermissionRole::Members,
        send_messages: GroupPermissionRole::Members,
        react_to_messages: GroupPermissionRole::Members,
        reply_in_thread: GroupPermissionRole::Members,
        mention_all_members: GroupPermissionRole::Admins,
    }
}

fn new_group(owner: u64, is_public: bool, now: u64) -> GroupChatCore {
    GroupChatCore::new(
        owner,
        is_public,
        "Tea lovers".to_string(),
        "All about tea".to_string(),
        Rules { text: String::new(), enabled: false },
        None,
        None,
        true,
        permissions(),
        None,
        None,
        false,
        now,
    )
}

fn join(group: &mut GroupChatCore, user: u64, role: GroupRole, now: u64) {
    let min_event = 0;
    assert_eq!(group.members.add(user, now, min_event, 0, false, false), AddResult::Success);
    let i = group.members.find(user).unwrap();
    group.members.members[i].role = role;
}

fn text(body: &str) -> MessageContent {
    MessageContent::Text { text: body.to_string() }
}

fn send(group: &mut GroupChatCore, sender: u64, id: u128, body: &str, now: u64) -> SendMessageSuccess {
    match group.send_message(sender, None, id, text(body), None, Vec::new(), false, None, PROPOSALS_BOT, now) {
        SendMessageResult::Success(success) => success,
        other => panic!("message was not sent: {:?}", other),
    }
}

fn reply(group: &mut GroupChatCore, sender: u64, root: u32, id: u128, body: &str, now: u64) -> SendMessageSuccess {
    match group.send_message(sender, Some(root), id, text(body), None, Vec::new(), false, None, PROPOSALS_BOT, now) {
        SendMessageResult::Success(success) => success,
        other => panic!("reply was not sent: {:?}", other),
    }
}

const PROPOSALS_BOT: u64 = 999;
const OWNER: u64 = 1;
const ALICE: u64 = 2;
const BOB: u64 = 3;
const CAROL: u64 = 4;
const DAVE: u64 = 5;
fn group() -> GroupChatCore {
    let mut group = new_group(OWNER, false, 1000);
    join(&mut group, ALICE, GroupRole::Admin, 1001);
    join(&mut group, BOB, GroupRole::Participant, 1002);
    join(&mut group, CAROL, GroupRole::Moderator, 1003);
    group
}

fn owners(group: &GroupChatCore) -> usize {
    group.members.owner_count()
}

#[test]
fn last_owner_cannot_leave() {
    let mut group = group();
    let members = group.members.len();
    let events = group.events.main.events.len();
    assert!(matches!(group.leave(OWNER, 2000), LeaveResult::LastOwnerCannotLeave));
    assert_eq!(group.members.len(), members);
    assert_eq!(group.events.main.events.len(), events);
    assert!(group.members.get(OWNER).is_some());
    assert_eq!(owners(&group), 1);
}

#[test]
fn one_of_two_owners_may_leave() {
    let mut group = group();
    join(&mut group, DAVE, GroupRole::Owner, 1004);
    assert_eq!(owners(&group), 2);
    match group.leave(OWNER, 2000) {
        LeaveResult::Success(member) => {
            assert_eq!(member.user_id, OWNER);
            assert_eq!(member.role, GroupRole::Owner);
        },
        other => panic!("unexpected {:?}", other),
    }
    assert!(group.members.get(OWNER).is_none());
    assert_eq!(owners(&group), 1);
    assert!(matches!(group.leave(DAVE, 2001), LeaveResult::LastOwnerCannotLeave));
    match &group.events.main.events.last().unwrap().event {
        ChatEventInternal::ParticipantLeft { user_id } => assert_eq!(*user_id, OWNER),
        other => panic!("unexpected {:?}", other),
    }
}

#[test]
fn leave_refusals() {
    let mut group = group();
    assert!(matches!(group.leave(77, 2000), LeaveResult::UserNotInGroup));
    let i = group.members.find(BOB).unwrap();
    group.members.members[i].suspended.value = true;
    assert!(matches!(group.leave(BOB, 2000), LeaveResult::UserSuspended));
    assert!(group.members.get(BOB).is_some());
}

#[test]
fn inviting_known_users_changes_nothing() {
    let mut group = group();
    assert!(matches!(group.invite_users(ALICE, vec![50], 2000), InvitedUsersResult::Success(_)));
    let events = group.events.main.events.len();
    let updated = group.invited_users.last_updated();
    match group.invite_users(ALICE, vec![BOB, 50, OWNER], 3000) {
        InvitedUsersResult::Success(success) => {
            assert_eq!(success.invited_users, vec![BOB, 50, OWNER]);
            assert_eq!(success.group_name, "Tea lovers");
        },
        other => panic!("unexpected {:?}", other),
    }
    assert_eq!(group.events.main.events.len(), events);
    assert_eq!(group.invited_users.len(), 1);
    assert_eq!(group.invited_users.last_updated(), updated);
}

#[test]
fn invitations_carry_the_bounds_of_history() {
    let mut fresh = group();
    fresh.history_visible_to_new_joiners = false;
    fresh.invite_users(ALICE, vec![50], 2000);
    let first = *fresh.invited_users.get(50).unwrap();
    assert_eq!((first.min_visible_event_index, first.min_visible_message_index), (0, 0));
    assert_eq!((first.invited_by, first.timestamp), (ALICE, 2000));
    send(&mut fresh, BOB, 1, "hello", 2100);
    fresh.invite_users(ALICE, vec![51], 2200);
    let second = *fresh.invited_users.get(51).unwrap();
    assert_eq!((second.min_visible_event_index, second.min_visible_message_index), (3, 1));

    let mut open = group();
    send(&mut open, BOB, 1, "hello", 2100);
    open.invite_users(ALICE, vec![50], 2200);
    let third = *open.invited_users.get(50).unwrap();
    assert_eq!((third.min_visible_event_index, third.min_visible_message_index), (0, 0));
    open.min_visible_indexes_for_new_members = Some((1, 0));
    open.invite_users(ALICE, vec![51], 2300);
    let fourth = *open.invited_users.get(51).unwrap();
    assert_eq!((fourth.min_visible_event_index, fourth.min_visible_message_index), (1, 0));
}

#[test]
fn invitation_is_recorded() {
    let mut group = group();
    group.invite_users(ALICE, vec![50, BOB, 51], 2000);
    assert_eq!(group.invited_users.users(), vec![50, 51]);
    assert_eq!(group.invited_users.last_updated(), 2000);
    match &group.events.main.events.last().unwrap().event {
        ChatEventInternal::UsersInvited { user_ids, invited_by } => {
            assert_eq!(*user_ids, vec![50, BOB, 51]);
            assert_eq!(*invited_by, ALICE);
        },
        other => panic!("unexpected {:?}", other),
    }
    assert!(group.is_accessible(Some(50)));
}

#[test]
fn invitations_are_capped_in_private_groups() {
    let mut group = group();
    let hundred: Vec<u64> = (1000..1100).collect();
    assert!(matches!(group.invite_users(ALICE, hundred, 2000), InvitedUsersResult::Success(_)));
    assert_eq!(group.invited_users.len(), 100);
    let events = group.events.main.events.len();
    match group.invite_users(ALICE, vec![2000], 2100) {
        InvitedUsersResult::TooManyInvites(max) => assert_eq!(max, 100),
        other => panic!("unexpected {:?}", other),
    }
    assert_eq!(group.invited_users.len(), 100);
    assert_eq!(group.events.main.events.len(), events);
    assert!(matches!(group.invite_users(ALICE, vec![1005], 2100), InvitedUsersResult::Success(_)));
}

#[test]
fn public_groups_keep_no_invitations() {
    let mut group = new_group(OWNER, true, 1000);
    join(&mut group, BOB, GroupRole::Participant, 1001);
    let many: Vec<u64> = (1000..1200).collect();
    assert!(matches!(group.invite_users(BOB, many, 2000), InvitedUsersResult::Success(_)));
    assert_eq!(group.invited_users.len(), 0);
    assert_eq!(group.events.main.events.len(), 1);
}

#[test]
fn invite_refusals() {
    let mut group = group();
    assert!(matches!(group.invite_users(77, vec![50], 2000), InvitedUsersResult::UserNotInGroup));
    assert!(matches!(group.invite_users(BOB, vec![50], 2000), InvitedUsersResult::NotAuthorized));
    let i = group.members.find(ALICE).unwrap();
    group.members.members[i].suspended.value = true;
    assert!(matches!(group.invite_users(ALICE, vec![50], 2000), InvitedUsersResult::UserSuspended));
    assert_eq!(group.invited_users.len(), 0);
}

#[test]
fn removing_members() {
    let mut group = group();
    assert_eq!(group.remove_member(ALICE, ALICE, false, 2000), RemoveMemberResult::CannotRemoveSelf);
    assert_eq!(group.remove_member(77, BOB, false, 2000), RemoveMemberResult::UserNotInGroup);
    assert_eq!(group.remove_member(ALICE, 77, false, 2000), RemoveMemberResult::TargetUserNotInGroup);
    assert_eq!(group.remove_member(BOB, CAROL, false, 2000), RemoveMemberResult::NotAuthorized);
    assert_eq!(group.remove_member(CAROL, ALICE, false, 2000), RemoveMemberResult::NotAuthorized);
    assert_eq!(group.remove_member(ALICE, OWNER, false, 2000), RemoveMemberResult::NotAuthorized);
    assert_eq!(group.remove_member(CAROL, BOB, false, 2000), RemoveMemberResult::Success);
    assert!(group.members.get(BOB).is_none());
    assert!(!group.members.user_is_blocked(BOB));
    match &group.events.main.events.last().unwrap().event {
        ChatEventInternal::ParticipantsRemoved { user_ids, removed_by } => {
            assert_eq!(*user_ids, vec![BOB]);
            assert_eq!(*removed_by, CAROL);
        },
        other => panic!("unexpected {:?}", other),
    }
    let i = group.members.find(CAROL).unwrap();
    group.members.members[i].suspended.value = true;
    assert_eq!(group.remove_member(CAROL, ALICE, false, 2000), RemoveMemberResult::UserSuspended);
}

#[test]
fn blocking_users() {
    let mut group = group();
    assert_eq!(group.remove_member(ALICE, BOB, true, 2000), RemoveMemberResult::Success);
    assert!(group.members.get(BOB).is_none());
    assert!(group.members.user_is_blocked(BOB));
    match &group.events.main.events.last().unwrap().event {
        ChatEventInternal::UsersBlocked { user_ids, blocked_by } => {
            assert_eq!(*user_ids, vec![BOB]);
            assert_eq!(*blocked_by, ALICE);
        },
        other => panic!("unexpected {:?}", other),
    }
    let events = group.events.main.events.len();
    assert_eq!(group.remove_member(ALICE, BOB, true, 2100), RemoveMemberResult::Success);
    assert_eq!(group.events.main.events.len(), events);
    assert_eq!(group.remove_member(ALICE, 77, true, 2200), RemoveMemberResult::Success);
    assert!(group.members.user_is_blocked(77));
    assert_eq!(group.members.add(BOB, 3000, 0, 0, false, false), AddResult::Blocked);
    assert!(group.members.unblock(BOB));
    assert!(!group.members.unblock(BOB));
    assert_eq!(group.members.add(BOB, 3000, 0, 0, false, false), AddResult::Success);
    assert_eq!(group.members.add(BOB, 3000, 0, 0, false, false), AddResult::AlreadyInGroup);
}

#[test]
fn an_owner_may_remove_another_owner_but_one_stays() {
    let mut group = group();
    join(&mut group, DAVE, GroupRole::Owner, 1004);
    assert_eq!(group.remove_member(DAVE, OWNER, false, 2000), RemoveMemberResult::Success);
    assert_eq!(owners(&group), 1);
}

#[test]
fn changing_roles() {
    let mut group = group();
    let role = |group: &GroupChatCore, user: u64| group.members.get(user).unwrap().role;
    assert_eq!(group.change_role(77, BOB, GroupRole::Admin, false, false, 2000), ChangeRoleResult::UserNotInGroup);
    assert_eq!(group.change_role(BOB, CAROL, GroupRole::Participant, false, false, 2000), ChangeRoleResult::NotAuthorized);
    assert_eq!(group.change_role(ALICE, 77, GroupRole::Admin, false, false, 2000), ChangeRoleResult::TargetUserNotInGroup);
    assert_eq!(group.change_role(ALICE, BOB, GroupRole::Owner, false, false, 2000), ChangeRoleResult::NotAuthorized);
    assert_eq!(group.change_role(ALICE, OWNER, GroupRole::Admin, false, false, 2000), ChangeRoleResult::NotAuthorized);
    assert_eq!(group.change_role(ALICE, BOB, GroupRole::Participant, false, false, 2000), ChangeRoleResult::Unchanged);
    assert_eq!(group.change_role(OWNER, OWNER, GroupRole::Admin, false, false, 2000), ChangeRoleResult::Invalid);
    assert_eq!(role(&group, OWNER), GroupRole::Owner);
    let events = group.events.main.events.len();
    match group.change_role(ALICE, BOB, GroupRole::Moderator, false, false, 2000) {
        ChangeRoleResult::Success(success) => {
            assert_eq!(success.caller_id, ALICE);
            assert_eq!(success.prev_role, GroupRole::Participant);
        },
        other => panic!("unexpected {:?}", other),
    }
    assert_eq!(role(&group, BOB), GroupRole::Moderator);
    assert_eq!(group.events.main.events.len(), events + 1);
    match &group.events.main.events.last().unwrap().event {
        ChatEventInternal::RoleChanged { user_ids, changed_by, old_role, new_role } => {
            assert_eq!(*user_ids, vec![BOB]);
            assert_eq!((*changed_by, *old_role, *new_role), (ALICE, GroupRole::Participant, GroupRole::Moderator));
        },
        other => panic!("unexpected {:?}", other),
    }
    let i = group.members.find(ALICE).unwrap();
    group.members.members[i].suspended.value = true;
    assert_eq!(group.change_role(ALICE, BOB, GroupRole::Admin, false, false, 2000), ChangeRoleResult::UserSuspended);
}

#[test]
fn owners_never_run_out() {
    let mut group = group();
    assert!(matches!(group.change_role(OWNER, ALICE, GroupRole::Owner, false, false, 2000), ChangeRoleResult::Success(_)));
    assert_eq!(owners(&group), 2);
    assert!(matches!(group.change_role(ALICE, OWNER, GroupRole::Participant, false, false, 2100), ChangeRoleResult::Success(_)));
    assert_eq!(owners(&group), 1);
    assert_eq!(group.change_role(ALICE, ALICE, GroupRole::Admin, false, false, 2200), ChangeRoleResult::Invalid);
    assert_eq!(group.change_role(OWNER, ALICE, GroupRole::Admin, true, false, 2200), ChangeRoleResult::Invalid);
    assert!(matches!(group.leave(ALICE, 2300), LeaveResult::LastOwnerCannotLeave));
    assert_eq!(group.remove_member(OWNER, ALICE, false, 2400), RemoveMemberResult::NotAuthorized);
    assert_eq!(owners(&group), 1);
}

#[test]
fn platform_moderators_pass_the_hierarchy() {
    let mut group = group();
    assert!(matches!(group.change_role(BOB, BOB, GroupRole::Owner, true, false, 2000), ChangeRoleResult::Success(_)));
    assert_eq!(owners(&group), 2);
    assert_eq!(group.change_role(OWNER, BOB, GroupRole::Admin, false, true, 2100), ChangeRoleResult::NotAuthorized);
    assert!(matches!(group.change_role(BOB, BOB, GroupRole::Admin, false, true, 2200), ChangeRoleResult::Success(_)));
    group.permissions.change_roles = GroupPermissionRole::Moderators;
    assert_eq!(group.change_role(CAROL, BOB, GroupRole::Admin, false, false, 2300), ChangeRoleResult::NotAuthorized);
    assert_eq!(group.change_role(CAROL, CAROL, GroupRole::Admin, false, false, 2300), ChangeRoleResult::NotAuthorized);
    assert_eq!(group.change_role(CAROL, CAROL, GroupRole::Moderator, false, false, 2300), ChangeRoleResult::Unchanged);
    assert!(matches!(
        group.change_role(CAROL, BOB, GroupRole::Moderator, false, false, 2300),
        ChangeRoleResult::Success(_)
    ));
}

#[test]
fn owners_add_participants() {
    let mut group = group();
    assert_eq!(group.add_participants(ALICE, vec![50], 2000), None);
    group.permissions.add_members = GroupPermissionRole::Members;
    assert_eq!(group.add_participants(ALICE, vec![50], 2000), None);
    assert_eq!(group.add_participants(77, vec![50], 2000), None);
    assert_eq!(group.remove_member(OWNER, 60, true, 2000), RemoveMemberResult::Success);
    group.min_visible_indexes_for_new_members = Some((1, 0));
    let events = group.events.main.events.len();
    assert_eq!(group.add_participants(OWNER, vec![50, BOB, 60, 51, 50], 2100), Some(2));
    assert_eq!(group.events.main.events.len(), events + 1);
    match &group.events.main.events.last().unwrap().event {
        ChatEventInternal::ParticipantsAdded { user_ids, unblocked, added_by } => {
            assert_eq!(*user_ids, vec![50, 51]);
            assert!(unblocked.is_empty());
            assert_eq!(*added_by, OWNER);
        },
        other => panic!("unexpected {:?}", other),
    }
    let joined = group.members.get(51).unwrap();
    assert_eq!(joined.role, GroupRole::Participant);
    assert_eq!((joined.date_added, joined.min_visible_event_index, joined.min_visible_message_index), (2100, 1, 0));
    assert!(joined.rules_accepted.is_none());
    assert!(group.members.get(60).is_none());
    assert_eq!(group.add_participants(OWNER, vec![50, 51], 2200), Some(0));
    assert_eq!(group.events.main.events.len(), events + 1);
    let i = group.members.find(OWNER).unwrap();
    group.members.members[i].suspended.value = true;
    assert_eq!(group.add_participants(OWNER, vec![52], 2300), None);
}
