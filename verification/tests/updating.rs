use group_chat_core::group::GroupChatCore;
use group_chat_core::members::AddResult;
use group_chat_core::message::MessageContent;
use group_chat_core::results::{SendMessageResult, SendMessageSuccess};
use group_chat_core::types::{GroupPermissionRole, GroupPermissions, GroupRole, Rules};
use group_chat_core::events::ChatEventInternal;
use group_chat_core::results::{UpdateResult, UpdateSuccessResult};
use group_chat_core::types::{
    AccessGate, Document, FieldTooLongResult, FieldTooShortResult, OptionUpdate, OptionalGroupPermissions,
    UpdatedRules,
};

fn permissions() -> GroupPermissions {
    GroupPermissions {
        change_permissions: GroupPermissionRole::Owner,
        change_roles: GroupPermissionRole::Admins,
        add_members: GroupPermissionRole::Owner,
        remove_members: GroupPermissionRole::Moderators,
        block_users: GroupPermissionRole::Owner,
        delete_messages: GroupPermissionRole::Moderators,
        update_group: GroupPermissionRole::Admins,
        pin_messages: GroupPermissionRole::Admins,
        invite_users: GroupPermissionRole::Admins,
        create_polls: GroupPermissionRole::Members,
        send_messages: GroupPermissionRole::Members,
        react_to_messages: GroupPermissionRole::Members,
        reply_in_thread: GroupPermissionRole::Members,
        mention_all_members: GroupPermissionRole::Admins,
    }
}

fn new_group(owner: u64, is_public: bool, now: u64) -> GroupChatCore {
    GroupChatCore::new(
        owner,
        is_public,
        "Tea lovers".to_string(),
        "All about tea".to_string(),
        Rules { text: String::new(), enabled: false },
        None,
        None,
        true,
        permissions(),
        None,
        None,
        false,
        now,
    )
}

fn join(group: &mut GroupChatCore, user: u64, role: GroupRole, now: u64) {
    let min_event = 0;
    assert_eq!(group.members.add(user, now, min_event, 0, false, false), AddResult::Success);
    let i = group.members.find(user).unwrap();
    group.members.members[i].role = role;
}

fn text(body: &str) -> MessageContent {
    MessageContent::Text { text: body.to_string() }
}

fn send(group: &mut GroupChatCore, sender: u64, id: u128, body: &str, now: u64) -> SendMessageSuccess {
    match group.send_message(sender, None, id, text(body), None, Vec::new(), false, None, PROPOSALS_BOT, now) {
        SendMessageResult::Success(success) => success,
        other => panic!("message was not sent: {:?}", other),
    }
}

fn reply(group: &mut GroupChatCore, sender: u64, root: u32, id: u128, body: &str, now: u64) -> SendMessageSuccess {
    match group.send_message(sender, Some(root), id, text(body), None, Vec::new(), false, None, PROPOSALS_BOT, now) {
        SendMessageResult::Success(success) => success,
        other => panic!("reply was not sent: {:?}", other),
    }
}

const PROPOSALS_BOT: u64 = 999;
const OWNER: u64 = 1;
const ALICE: u64 = 2;
const BOB: u64 = 3;
const CAROL: u64 = 4;
const DAVE: u64 = 5;
fn group() -> GroupChatCore {
    let mut group = new_group(OWNER, false, 1000);
    join(&mut group, ALICE, GroupRole::Admin, 1001);
    join(&mut group, BOB, GroupRole::Participant, 1002);
    group
}

fn no_permissions() -> OptionalGroupPermissions {
    OptionalGroupPermissions {
        change_roles: None,
        remove_members: None,
        delete_messages: None,
        update_group: None,
        pin_messages: None,
        invite_users: None,
        create_polls: None,
        send_messages: None,
        react_to_messages: None,
        reply_in_thread: None,
        mention_all_members: None,
    }
}

fn rename(group: &mut GroupChatCore, user: u64, name: &str, now: u64) -> UpdateResult {
    group.update(
        user,
        Some(name.to_string()),
        None,
        None,
        OptionUpdate::NoChange,
        None,
        OptionUpdate::NoChange,
        None,
        OptionUpdate::NoChange,
        now,
    )
}

#[test]
fn turning_public_records_the_bound_for_new_members() {
    let mut group = group();
    for i in 0..5u32 {
        send(&mut group, BOB, i as u128, "hello", 2000 + i as u64);
    }
    assert_eq!(group.events.main.next_event_index, 6);
    let result = group.update(
        OWNER,
        None,
        None,
        None,
        OptionUpdate::NoChange,
        None,
        OptionUpdate::NoChange,
        Some(true),
        OptionUpdate::NoChange,
        3000,
    );
    assert_eq!(result, UpdateResult::Success(UpdateSuccessResult { newly_public: true, rules_version: None }));
    assert!(group.is_public);
    let last = group.events.main.events.last().unwrap();
    assert_eq!(last.index, 6);
    assert_eq!(last.timestamp, 3000);
    match &last.event {
        ChatEventInternal::GroupVisibilityChanged { now_public, changed_by } => {
            assert!(*now_public);
            assert_eq!(*changed_by, OWNER);
        },
        other => panic!("unexpected {:?}", other),
    }
    assert_eq!(group.min_visible_indexes_for_new_members, Some((6, 5)));
    assert_eq!(group.min_visible_event_index(Some(77)), Some(6));
}

#[test]
fn turning_private_keeps_the_bound() {
    let mut group = new_group(OWNER, true, 1000);
    group.min_visible_indexes_for_new_members = Some((0, 0));
    let result = group.update(
        OWNER,
        None,
        None,
        None,
        OptionUpdate::NoChange,
        None,
        OptionUpdate::NoChange,
        Some(false),
        OptionUpdate::NoChange,
        3000,
    );
    assert_eq!(result, UpdateResult::Success(UpdateSuccessResult { newly_public: false, rules_version: None }));
    assert!(!group.is_public);
    assert_eq!(group.min_visible_indexes_for_new_members, Some((0, 0)));
    assert_eq!(group.events.main.events.len(), 2);
}

#[test]
fn unchanged_values_give_no_events() {
    let mut group = group();
    let result = group.update(
        OWNER,
        Some("Tea lovers".to_string()),
        Some("All about tea".to_string()),
        Some(UpdatedRules { text: String::new(), enabled: false, new_version: true }),
        OptionUpdate::SetToNone,
        None,
        OptionUpdate::SetToNone,
        Some(false),
        OptionUpdate::SetToNone,
        3000,
    );
    assert_eq!(result, UpdateResult::Success(UpdateSuccessResult { newly_public: false, rules_version: None }));
    assert_eq!(group.events.main.events.len(), 1);
    assert_eq!(group.events.latest_event_timestamp, 1000);
}

#[test]
fn every_change_is_recorded_in_order() {
    let mut group = group();
    let avatar = Document { id: 77, mime_type: "image/png".to_string(), data: vec![1, 2, 3] };
    let mut permissions = no_permissions();
    permissions.pin_messages = Some(GroupPermissionRole::Members);
    let result = group.update(
        OWNER,
        Some("Coffee lovers".to_string()),
        Some("All about coffee".to_string()),
        Some(UpdatedRules { text: "no tea".to_string(), enabled: true, new_version: true }),
        OptionUpdate::SetToSome(avatar),
        Some(permissions),
        OptionUpdate::SetToSome(AccessGate::DiamondMember),
        Some(true),
        OptionUpdate::SetToSome(10_000),
        5000,
    );
    assert_eq!(result, UpdateResult::Success(UpdateSuccessResult { newly_public: true, rules_version: Some(1) }));
    assert_eq!(group.name, "Coffee lovers");
    assert_eq!(group.description, "All about coffee");
    assert_eq!(group.rules.text.value, "no tea");
    assert_eq!(group.rules.text.version, 1);
    assert!(group.rules.enabled);
    assert_eq!(group.avatar.as_ref().map(|a| a.id), Some(77));
    assert_eq!(group.permissions.pin_messages, GroupPermissionRole::Members);
    assert_eq!(group.permissions.change_roles, GroupPermissionRole::Admins);
    assert_eq!(group.gate.value, Some(AccessGate::DiamondMember));
    assert_eq!(group.gate.timestamp, 5000);
    assert_eq!(group.events.events_ttl.value, Some(10_000));
    assert!(group.is_public);
    assert_eq!(group.min_visible_indexes_for_new_members, Some((8, 0)));
    let accepted = group.members.get(OWNER).unwrap().rules_accepted.unwrap();
    assert_eq!((accepted.value, accepted.timestamp), (1, 5000));
    let kinds: Vec<&str> = group
        .events
        .main
        .events
        .iter()
        .map(|e| match &e.event {
            ChatEventInternal::GroupChatCreated { .. } => "created",
            ChatEventInternal::GroupNameChanged { .. } => "name",
            ChatEventInternal::GroupDescriptionChanged { .. } => "description",
            ChatEventInternal::GroupRulesChanged { .. } => "rules",
            ChatEventInternal::AvatarChanged { .. } => "avatar",
            ChatEventInternal::PermissionsChanged { .. } => "permissions",
            ChatEventInternal::EventsTimeToLiveUpdated { .. } => "ttl",
            ChatEventInternal::GroupGateUpdated { .. } => "gate",
            ChatEventInternal::GroupVisibilityChanged { .. } => "visibility",
            _ => "other",
        })
        .collect();
    assert_eq!(
        kinds,
        vec!["created", "name", "description", "rules", "avatar", "permissions", "ttl", "gate", "visibility"]
    );
    let expiry: Vec<Option<u64>> = group.events.main.events.iter().map(|e| e.expires_at).collect();
    assert_eq!(expiry, vec![None, None, None, None, None, None, None, Some(15_000), Some(15_000)]);
    let indexes: Vec<u32> = group.events.main.events.iter().map(|e| e.index).collect();
    assert_eq!(indexes, vec![0, 1, 2, 3, 4, 5, 6, 7, 8]);
    match &group.events.main.events[1].event {
        ChatEventInternal::GroupNameChanged { new_name, previous_name, changed_by } => {
            assert_eq!((new_name.as_str(), previous_name.as_str(), *changed_by), ("Coffee lovers", "Tea lovers", OWNER));
        },
        other => panic!("unexpected {:?}", other),
    }
    match &group.events.main.events[4].event {
        ChatEventInternal::AvatarChanged { new_avatar, previous_avatar, .. } => {
            assert_eq!((*new_avatar, *previous_avatar), (Some(77), None));
        },
        other => panic!("unexpected {:?}", other),
    }
}

#[test]
fn rules_version_never_goes_back() {
    let mut group = group();
    let mut last = group.rules.text.version;
    let steps = [
        ("one", true, true),
        ("one", false, true),
        ("two", false, false),
        ("three", true, true),
        ("three", true, true),
        ("", false, true),
    ];
    let mut seen = Vec::new();
    for (text, enabled, new_version) in steps {
        group.update(
            OWNER,
            None,
            None,
            Some(UpdatedRules { text: text.to_string(), enabled, new_version }),
            OptionUpdate::NoChange,
            None,
            OptionUpdate::NoChange,
            None,
            OptionUpdate::NoChange,
            3000,
        );
        assert!(group.rules.text.version >= last);
        last = group.rules.text.version;
        seen.push(last);
    }
    assert_eq!(seen, vec![1, 1, 1, 2, 2, 3]);
}

#[test]
fn update_refusals() {
    let mut group = group();
    assert_eq!(
        rename(&mut group, OWNER, "ab", 3000),
        UpdateResult::NameTooShort(FieldTooShortResult { length_provided: 2, min_length: 3 })
    );
    assert_eq!(
        rename(&mut group, OWNER, &"n".repeat(41), 3000),
        UpdateResult::NameTooLong(FieldTooLongResult { length_provided: 41, max_length: 40 })
    );
    assert_eq!(rename(&mut group, 77, "Fine name", 3000), UpdateResult::UserNotInGroup);
    assert_eq!(rename(&mut group, BOB, "Fine name", 3000), UpdateResult::NotAuthorized);
    assert_eq!(rename(&mut group, 77, "ab", 3000).clone(), UpdateResult::NameTooShort(FieldTooShortResult { length_provided: 2, min_length: 3 }));
    let result = group.update(
        OWNER,
        None,
        Some("d".repeat(1025)),
        None,
        OptionUpdate::NoChange,
        None,
        OptionUpdate::NoChange,
        None,
        OptionUpdate::NoChange,
        3000,
    );
    assert_eq!(result, UpdateResult::DescriptionTooLong(FieldTooLongResult { length_provided: 1025, max_length: 1024 }));
    let result = group.update(
        OWNER,
        None,
        None,
        Some(UpdatedRules { text: String::new(), enabled: true, new_version: false }),
        OptionUpdate::NoChange,
        None,
        OptionUpdate::NoChange,
        None,
        OptionUpdate::NoChange,
        3000,
    );
    assert_eq!(result, UpdateResult::RulesTooShort(FieldTooShortResult { length_provided: 0, min_length: 1 }));
    let result = group.update(
        OWNER,
        None,
        None,
        Some(UpdatedRules { text: "r".repeat(1025), enabled: false, new_version: false }),
        OptionUpdate::NoChange,
        None,
        OptionUpdate::NoChange,
        None,
        OptionUpdate::NoChange,
        3000,
    );
    assert_eq!(result, UpdateResult::RulesTooLong(FieldTooLongResult { length_provided: 1025, max_length: 1024 }));
    let big = Document { id: 1, mime_type: "image/png".to_string(), data: vec![0u8; 819_201] };
    let result = group.update(
        OWNER,
        None,
        None,
        None,
        OptionUpdate::SetToSome(big),
        None,
        OptionUpdate::NoChange,
        None,
        OptionUpdate::NoChange,
        3000,
    );
    assert_eq!(result, UpdateResult::AvatarTooBig(FieldTooLongResult { length_provided: 819_201, max_length: 819_200 }));
    let result = group.update(
        ALICE,
        None,
        None,
        None,
        OptionUpdate::NoChange,
        Some(no_permissions()),
        OptionUpdate::NoChange,
        None,
        OptionUpdate::NoChange,
        3000,
    );
    assert_eq!(result, UpdateResult::NotAuthorized);
    let result = group.update(
        ALICE,
        None,
        None,
        None,
        OptionUpdate::NoChange,
        None,
        OptionUpdate::NoChange,
        Some(true),
        OptionUpdate::NoChange,
        3000,
    );
    assert_eq!(result, UpdateResult::NotAuthorized);
    let i = group.members.find(ALICE).unwrap();
    group.members.members[i].suspended.value = true;
    assert_eq!(rename(&mut group, ALICE, "Fine name", 3000), UpdateResult::UserSuspended);
    assert_eq!(group.events.main.events.len(), 1);
    assert_eq!(group.name, "Tea lovers");
}

#[test]
fn reserved_names_are_refused_in_public_groups() {
    let mut group = new_group(OWNER, true, 1000);
    assert_eq!(rename(&mut group, OWNER, "Tea Proposals", 3000), UpdateResult::NameReserved);
    let mut private = new_group(OWNER, false, 1000);
    assert!(matches!(rename(&mut private, OWNER, "Tea Proposals", 3000), UpdateResult::Success(_)));
}

#[test]
fn admins_may_rename() {
    let mut group = group();
    assert_eq!(
        rename(&mut group, ALICE, "Green tea", 3000),
        UpdateResult::Success(UpdateSuccessResult { newly_public: false, rules_version: None })
    );
    assert_eq!(group.name, "Green tea");
    assert_eq!(group.events.main.events.len(), 2);
    assert_eq!(
        group.can_update(&ALICE, &Some("Black tea".to_string()), &None, &None, &OptionUpdate::NoChange, &None, &None),
        Ok(())
    );
    assert_eq!(
        group.can_update(&BOB, &Some("Black tea".to_string()), &None, &None, &OptionUpdate::NoChange, &None, &None),
        Err(UpdateResult::NotAuthorized)
    );
    assert_eq!(group.name, "Green tea");
}

#[test]
fn permissions_are_merged_slot_by_slot() {
    let mut group = group();
    let mut wanted = no_permissions();
    wanted.send_messages = Some(GroupPermissionRole::Moderators);
    wanted.invite_users = Some(GroupPermissionRole::Members);
    let before = group.permissions;
    group.do_update(
        OWNER,
        None,
        None,
        None,
        OptionUpdate::NoChange,
        Some(wanted),
        OptionUpdate::NoChange,
        None,
        OptionUpdate::NoChange,
        3000,
    );
    let mut expected = before;
    expected.send_messages = GroupPermissionRole::Moderators;
    expected.invite_users = GroupPermissionRole::Members;
    assert_eq!(group.permissions, expected);
    match &group.events.main.events.last().unwrap().event {
        ChatEventInternal::PermissionsChanged { old_permissions, new_permissions, changed_by } => {
            assert_eq!(*old_permissions, before);
            assert_eq!(*new_permissions, expected);
            assert_eq!(*changed_by, OWNER);
        },
        other => panic!("unexpected {:?}", other),
    }
}

#[test]
fn permissions_that_change_nothing_record_nothing() {
    let mut group = group();
    let before = group.permissions;
    let events_before = group.events.main.events.len();
    let mut wanted = no_permissions();
    wanted.send_messages = Some(before.send_messages);
    group.do_update(
        OWNER,
        None,
        None,
        None,
        OptionUpdate::NoChange,
        Some(no_permissions()),
        OptionUpdate::NoChange,
        None,
        OptionUpdate::NoChange,
        3000,
    );
    group.do_update(
        OWNER,
        None,
        None,
        None,
        OptionUpdate::NoChange,
        Some(wanted),
        OptionUpdate::NoChange,
        None,
        OptionUpdate::NoChange,
        3100,
    );
    assert_eq!(group.permissions, before);
    assert_eq!(group.events.main.events.len(), events_before);
    assert_eq!(group.events.latest_event_timestamp, 1000);
}
