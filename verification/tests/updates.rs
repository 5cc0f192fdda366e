use group_chat_core::group::GroupChatCore;
use group_chat_core::members::AddResult;
use group_chat_core::message::MessageContent;
use group_chat_core::results::{SendMessageResult, SendMessageSuccess};
use group_chat_core::types::{GroupPermissionRole, GroupPermissions, GroupRole, Rules};
use group_chat_core::results::{FollowThreadResult, UpdateResult};
use group_chat_core::members::ProposalVotes;
use group_chat_core::types::{AccessGate, Document, OptionUpdate, OptionalGroupPermissions, UpdatedRules};

fn permissions() -> GroupPermissions {
    GroupPermissions {
        change_permissions: GroupPermissionRole::Owner,
        change_roles: GroupPermissionRole::Admins,
        add_members: GroupPermissionRole::Owner,
        remove_members: GroupPermissionRole::Moderators,
        block_users: GroupPermissionRole::Owner,
        delete_messages: GroupPermissionRole::Moderators,
        update_group: GroupPermissionRole::Admins,
        pin_messages: GroupPermissionRole::Admins,
        invite_users: GroupPermissionRole::Admins,
        create_polls: GroupPermissionRole::Members,
        send_messages: GroupPermissionRole::Members,
        react_to_messages: GroupPermissionRole::Members,
        reply_in_thread: GroupPermissionRole::Members,
        mention_all_members: GroupPermissionRole::Admins,
    }
}

fn new_group(owner: u64, is_public: bool, now: u64) -> GroupChatCore {
    GroupChatCore::new(
        owner,
        is_public,
        "Tea lovers".to_string(),
        "All about tea".to_string(),
        Rules { text: String::new(), enabled: false },
        None,
        None,
        true,
        permissions(),
        None,
        None,
        false,
        now,
    )
}

fn join(group: &mut GroupChatCore, user: u64, role: GroupRole, now: u64) {
    let min_event = 0;
    assert_eq!(group.members.add(user, now, min_event, 0, false, false), AddResult::Success);
    let i = group.members.find(user).unwrap();
    group.members.members[i].role = role;
}

fn text(body: &str) -> MessageContent {
    MessageContent::Text { text: body.to_string() }
}

fn send(group: &mut GroupChatCore, sender: u64, id: u128, body: &str, now: u64) -> SendMessageSuccess {
    match group.send_message(sender, None, id, text(body), None, Vec::new(), false, None, PROPOSALS_BOT, now) {
        SendMessageResult::Success(success) => success,
        other => panic!("message was not sent: {:?}", other),
    }
}

fn reply(group: &mut GroupChatCore, sender: u64, root: u32, id: u128, body: &str, now: u64) -> SendMessageSuccess {
    match group.send_message(sender, Some(root), id, text(body), None, Vec::new(), false, None, PROPOSALS_BOT, now) {
        SendMessageResult::Success(success) => success,
        other => panic!("reply was not sent: {:?}", other),
    }
}

const PROPOSALS_BOT: u64 = 999;
const OWNER: u64 = 1;
const ALICE: u64 = 2;
const BOB: u64 = 3;
const CAROL: u64 = 4;
const DAVE: u64 = 5;
fn group() -> GroupChatCore {
    let mut group = new_group(OWNER, false, 1000);
    join(&mut group, ALICE, GroupRole::Admin, 1001);
    join(&mut group, BOB, GroupRole::Participant, 1002);
    join(&mut group, CAROL, GroupRole::Participant, 1003);
    group
}

fn rename(group: &mut GroupChatCore, name: &str, now: u64) {
    let result = group.update(
        OWNER,
        Some(name.to_string()),
        None,
        None,
        OptionUpdate::NoChange,
        None,
        OptionUpdate::NoChange,
        None,
        OptionUpdate::NoChange,
        now,
    );
    assert!(matches!(result, UpdateResult::Success(_)));
}

#[test]
fn summary_reports_the_newest_of_each_setting() {
    let mut group = group();
    rename(&mut group, "First name", 2000);
    rename(&mut group, "Second name", 3000);
    rename(&mut group, "Third name", 4000);
    let all = group.summary_updates_from_events(1000, Some(BOB));
    assert_eq!(all.name.as_deref(), Some("Third name"));
    assert_eq!(all.latest_event_index, Some(3));
    assert!(all.description.is_none());
    assert!(!all.members_changed);
    assert!(!all.role_changed);
    assert!(!all.rules_changed);
    let recent = group.summary_updates_from_events(3000, Some(BOB));
    assert_eq!(recent.name.as_deref(), Some("Third name"));
    assert_eq!(recent.latest_event_index, Some(3));
    let none = group.summary_updates_from_events(4000, Some(BOB));
    assert!(none.name.is_none());
    assert_eq!(none.latest_event_index, None);
}

#[test]
fn summary_reports_settings_flags_and_times() {
    let mut group = group();
    let avatar = Document { id: 9, mime_type: "image/png".to_string(), data: vec![1] };
    let permissions = OptionalGroupPermissions {
        change_roles: None,
        remove_members: None,
        delete_messages: None,
        update_group: None,
        pin_messages: Some(GroupPermissionRole::Members),
        invite_users: None,
        create_polls: None,
        send_messages: None,
        react_to_messages: None,
        reply_in_thread: None,
        mention_all_members: None,
    };
    group.update(
        OWNER,
        None,
        Some("New description".to_string()),
        Some(UpdatedRules { text: "rules".to_string(), enabled: true, new_version: true }),
        OptionUpdate::SetToSome(avatar),
        Some(permissions),
        OptionUpdate::SetToSome(AccessGate::DiamondMember),
        Some(true),
        OptionUpdate::SetToSome(60_000),
        2000,
    );
    group.change_role(OWNER, BOB, GroupRole::Moderator, false, false, 2100);
    group.remove_member(OWNER, CAROL, false, 2200);
    let sent = group.send_message(ALICE, None, 10, text("hello"), None, Vec::new(), false, Some(1), PROPOSALS_BOT, 2300);
    assert!(matches!(sent, SendMessageResult::Success(_)));
    group.pin_message(ALICE, 0, 2400);
    let updates = group.summary_updates_from_events(1500, Some(BOB));
    assert_eq!(updates.description.as_deref(), Some("New description"));
    assert!(matches!(updates.avatar_id, OptionUpdate::SetToSome(9)));
    assert_eq!(updates.permissions.map(|p| p.pin_messages), Some(GroupPermissionRole::Members));
    assert_eq!(updates.is_public, Some(true));
    assert!(matches!(updates.events_ttl, OptionUpdate::SetToSome(60_000)));
    assert!(matches!(updates.gate, OptionUpdate::SetToSome(AccessGate::DiamondMember)));
    assert!(matches!(updates.subtype, OptionUpdate::NoChange));
    assert!(updates.rules_changed);
    assert!(updates.members_changed);
    assert!(updates.role_changed);
    assert_eq!(updates.date_last_pinned, Some(2400));
    assert_eq!(updates.latest_message.map(|m| m.index), Some(10));
    assert_eq!(updates.latest_event_index, Some(11));
    let for_alice = group.summary_updates_from_events(1500, Some(ALICE));
    assert!(!for_alice.role_changed);
    let later = group.summary_updates_from_events(2400, Some(BOB));
    assert!(later.description.is_none());
    assert!(matches!(later.avatar_id, OptionUpdate::NoChange));
    assert!(matches!(later.gate, OptionUpdate::NoChange));
    assert_eq!(later.date_last_pinned, None);
    assert!(later.latest_message.is_none());
    assert!(!later.members_changed);
    let stranger = group.summary_updates_from_events(1500, None);
    assert!(stranger.mentions.is_empty());
    assert!(!stranger.role_changed);
}

#[test]
fn summary_carries_mentions_updates_and_votes() {
    let mut group = group();
    send(&mut group, ALICE, 10, "first", 2000);
    let result = group.send_message(
        ALICE,
        None,
        11,
        text("hello bob"),
        None,
        vec![BOB],
        false,
        None,
        PROPOSALS_BOT,
        2100,
    );
    assert!(matches!(result, SendMessageResult::Success(_)));
    group.add_reaction(CAROL, None, 10, "+1".to_string(), 2200);
    group.add_reaction(CAROL, None, 11, "+1".to_string(), 2300);
    group.add_reaction(BOB, None, 10, "+1".to_string(), 2400);
    let i = group.members.find(BOB).unwrap();
    group.members.members[i].proposal_votes.push(ProposalVotes { timestamp: 2050, message_indexes: vec![0] });
    group.members.members[i].proposal_votes.push(ProposalVotes { timestamp: 2450, message_indexes: vec![1, 7, 0] });
    let updates = group.summary_updates_from_events(2100, Some(BOB));
    assert!(updates.mentions.is_empty());
    assert_eq!(updates.updated_events, vec![(None, 1, 2400), (None, 2, 2300), (None, 2, 2450), (None, 1, 2450)]);
    assert_eq!(updates.latest_message.map(|m| m.index), Some(2));
    let all = group.summary_updates_from_events(1000, Some(BOB));
    assert_eq!(all.mentions.len(), 1);
    assert_eq!(all.mentions[0].message_index, 1);
    assert_eq!(all.mentions[0].event_index, 2);
    assert_eq!(all.mentions[0].mentioned_at, 2100);
    assert_eq!(
        all.updated_events,
        vec![(None, 1, 2400), (None, 2, 2300), (None, 2, 2450), (None, 1, 2450), (None, 1, 2050)]
    );
}

#[test]
fn updated_events_are_capped() {
    let mut group = group();
    for i in 0..1005u32 {
        send(&mut group, ALICE, i as u128, "hello", 2000);
        group.add_reaction(BOB, None, i as u128, "+1".to_string(), 3000 + i as u64);
    }
    let updates = group.summary_updates_from_events(1000, Some(CAROL));
    assert_eq!(updates.updated_events.len(), 1000);
    assert_eq!(updates.updated_events[0], (None, 1005, 4004));
    assert_eq!(updates.updated_events[999], (None, 6, 3005));
}

#[test]
fn selected_updates_list_each_user_once() {
    let mut group = group();
    join(&mut group, DAVE, GroupRole::Participant, 1004);
    group.change_role(OWNER, BOB, GroupRole::Moderator, false, false, 2000);
    group.change_role(OWNER, BOB, GroupRole::Admin, false, false, 2100);
    group.remove_member(OWNER, CAROL, false, 2200);
    group.remove_member(OWNER, DAVE, true, 2300);
    group.leave(ALICE, 2400);
    let updates = group.selected_group_updates_from_events(1500, Some(BOB)).unwrap();
    assert_eq!(updates.latest_event_index, 5);
    assert_eq!(updates.timestamp, 2400);
    let updated: Vec<u64> = updates.members_added_or_updated.iter().map(|m| m.user_id).collect();
    assert_eq!(updated, vec![BOB]);
    assert_eq!(updates.members_added_or_updated[0].role, GroupRole::Admin);
    assert_eq!(updates.members_removed, vec![ALICE, DAVE, CAROL]);
    assert_eq!(updates.blocked_users_added, vec![DAVE]);
    assert!(updates.blocked_users_removed.is_empty());
    assert!(updates.invited_users.is_none());
    assert!(updates.chat_rules.is_none());
    let later = group.selected_group_updates_from_events(2200, Some(BOB)).unwrap();
    assert!(later.members_added_or_updated.is_empty());
    assert_eq!(later.members_removed, vec![ALICE, DAVE]);
}

#[test]
fn selected_updates_collapse_pins() {
    let mut group = group();
    for i in 0..3u32 {
        send(&mut group, ALICE, i as u128, "hello", 2000);
    }
    group.pin_message(ALICE, 0, 2100);
    group.unpin_message(ALICE, 0, 2200);
    group.pin_message(ALICE, 1, 2300);
    group.pin_message(ALICE, 2, 2400);
    group.unpin_message(ALICE, 2, 2500);
    group.pin_message(ALICE, 2, 2600);
    let updates = group.selected_group_updates_from_events(2050, Some(BOB)).unwrap();
    assert_eq!(updates.pinned_messages_added, vec![2, 1]);
    assert_eq!(updates.pinned_messages_removed, vec![0]);
    for index in updates.pinned_messages_added.iter() {
        assert!(!updates.pinned_messages_removed.contains(index));
    }
    let later = group.selected_group_updates_from_events(2400, Some(BOB)).unwrap();
    assert_eq!(later.pinned_messages_added, vec![2]);
    assert!(later.pinned_messages_removed.is_empty());
}

#[test]
fn selected_updates_carry_rules_and_invitations() {
    let mut group = group();
    group.update(
        OWNER,
        None,
        None,
        Some(UpdatedRules { text: "be kind".to_string(), enabled: true, new_version: true }),
        OptionUpdate::NoChange,
        None,
        OptionUpdate::NoChange,
        None,
        OptionUpdate::NoChange,
        2000,
    );
    group.invite_users(ALICE, vec![50, 51], 2100);
    let updates = group.selected_group_updates_from_events(1500, Some(BOB)).unwrap();
    let rules = updates.chat_rules.unwrap();
    assert_eq!((rules.text.as_str(), rules.version, rules.enabled), ("be kind", 1, true));
    assert_eq!(updates.invited_users, Some(vec![50, 51]));
    let later = group.selected_group_updates_from_events(2100, Some(BOB)).unwrap();
    assert!(later.chat_rules.is_none());
    assert!(later.invited_users.is_none());
}

#[test]
fn selected_updates_are_not_for_strangers() {
    let mut group = group();
    assert!(group.selected_group_updates_from_events(0, Some(77)).is_none());
    assert!(group.selected_group_updates_from_events(0, None).is_none());
    group.invite_users(ALICE, vec![77], 2000);
    assert!(group.selected_group_updates_from_events(0, Some(77)).is_some());
    let public = new_group(OWNER, true, 1000);
    assert!(public.selected_group_updates_from_events(0, None).is_some());
}

#[test]
fn follow_marks_the_root_as_updated() {
    let mut group = group();
    send(&mut group, ALICE, 10, "root", 2000);
    reply(&mut group, BOB, 0, 20, "reply", 2100);
    assert_eq!(group.follow_thread(CAROL, 0, 2200), FollowThreadResult::Success);
    let updates = group.summary_updates_from_events(2100, Some(CAROL));
    assert_eq!(updates.updated_events, vec![(None, 1, 2200)]);
    assert_eq!(updates.latest_message.map(|m| m.index), Some(1));
}

#[test]
fn invited_users_see_the_summary_from_their_bound() {
    let mut early = group();
    early.history_visible_to_new_joiners = false;
    rename(&mut early, "First name", 2000);
    early.invite_users(ALICE, vec![50], 2100);
    rename(&mut early, "Second name", 2200);
    let invitation = *early.invited_users.get(50).unwrap();
    assert_eq!(invitation.min_visible_event_index, 2);
    let seen = early.summary_updates_from_events(1000, Some(50));
    assert_eq!(seen.name.as_deref(), Some("Second name"));
    assert_eq!(seen.latest_event_index, Some(3));
    let selected = early.selected_group_updates_from_events(1000, Some(50)).unwrap();
    assert_eq!(selected.latest_event_index, 3);
    assert_eq!(selected.invited_users, Some(vec![50]));
    let mut late = group();
    late.history_visible_to_new_joiners = false;
    rename(&mut late, "First name", 2000);
    rename(&mut late, "Second name", 2200);
    late.invite_users(ALICE, vec![50], 2300);
    let nothing = late.summary_updates_from_events(1000, Some(50));
    assert!(nothing.name.is_none());
    assert_eq!(nothing.latest_event_index, Some(3));
    assert_eq!(late.invited_users.get(50).unwrap().min_visible_event_index, 3);
}
