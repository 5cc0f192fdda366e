use group_chat_core::group::GroupChatCore;
use group_chat_core::members::{votes_in_order, AddResult, ProposalVotes};
use group_chat_core::message::MessageContent;
use group_chat_core::results::{SendMessageResult, SendMessageSuccess};
use group_chat_core::types::{GroupPermissionRole, GroupPermissions, GroupRole, Rules};

use group_chat_core::events::ChatEventInternal;
use group_chat_core::results::{DeleteMessageResult, DeleteMessagesResult, PinUnpinMessageResult};

fn permissions() -> GroupPermissions {
    GroupPermissions {
        change_permissions: GroupPermissionRole::Owner,
        change_roles: GroupPermissionRole::Admins,
        add_members: GroupPermissionRole::Owner,
        remove_members: GroupPermissionRole::Moderators,
        block_users: GroupPermissionRole::Owner,
        delete_messages: GroupPermissionRole::Moderators,
        update_group: GroupPermissionRole::Admins,
        pin_messages: GroupPermissionRole::Admins,
        invite_users: GroupPermissionRole::Admins,
        create_polls: GroupPermissionRole::Members,
        send_messages: GroupPermissionRole::Members,
        react_to_messages: GroupPermissionRole::Members,
        reply_in_thread: GroupPermissionRole::Members,
        mention_all_members: GroupPermissionRole::Admins,
    }
}

fn new_group(owner: u64, is_public: bool, now: u64) -> GroupChatCore {
    GroupChatCore::new(
        owner,
        is_public,
        "Tea lovers".to_string(),
        "All about tea".to_string(),
        Rules { text: String::new(), enabled: false },
        None,
        None,
        true,
        permissions(),
        None,
        None,
        false,
        now,
    )
}

fn join(group: &mut GroupChatCore, user: u64, role: GroupRole, now: u64) {
    let min_event = 0;
    assert_eq!(group.members.add(user, now, min_event, 0, false, false), AddResult::Success);
    let i = group.members.find(user).unwrap();
    group.members.members[i].role = role;
}

fn text(body: &str) -> MessageContent {
    MessageContent::Text { text: body.to_string() }
}

fn send(group: &mut GroupChatCore, sender: u64, id: u128, body: &str, now: u64) -> SendMessageSuccess {
    match group.send_message(sender, None, id, text(body), None, Vec::new(), false, None, PROPOSALS_BOT, now) {
        SendMessageResult::Success(success) => success,
        other => panic!("message was not sent: {:?}", other),
    }
}

fn reply(group: &mut GroupChatCore, sender: u64, root: u32, id: u128, body: &str, now: u64) -> SendMessageSuccess {
    match group.send_message(sender, Some(root), id, text(body), None, Vec::new(), false, None, PROPOSALS_BOT, now) {
        SendMessageResult::Success(success) => success,
        other => panic!("reply was not sent: {:?}", other),
    }
}

const PROPOSALS_BOT: u64 = 999;
const OWNER: u64 = 1;
const ALICE: u64 = 2;
const BOB: u64 = 3;
const CAROL: u64 = 4;
const DAVE: u64 = 5;

fn group_with_messages(count: u32) -> GroupChatCore {
    let mut group = new_group(OWNER, false, 1000);
    join(&mut group, ALICE, GroupRole::Admin, 1001);
    join(&mut group, BOB, GroupRole::Participant, 1002);
    for i in 0..count {
        send(&mut group, BOB, 100 + i as u128, "hello there", 2000 + i as u64);
    }
    group
}

#[test]
fn pin_records_event_and_time() {
    let mut group = group_with_messages(3);
    let before = group.events.main.events.len();
    let result = group.pin_message(ALICE, 1, 5000);
    match result {
        PinUnpinMessageResult::Success(pushed) => {
            assert_eq!(pushed.index, before as u32);
            assert_eq!(pushed.timestamp, 5000);
            assert_eq!(pushed.expires_at, None);
        },
        other => panic!("unexpected {:?}", other),
    }
    assert_eq!(group.pinned_messages, vec![1]);
    assert_eq!(group.date_last_pinned, Some(5000));
    match &group.events.main.events.last().unwrap().event {
        ChatEventInternal::MessagePinned { message_index, pinned_by } => {
            assert_eq!(*message_index, 1);
            assert_eq!(*pinned_by, ALICE);
        },
        other => panic!("unexpected {:?}", other),
    }
}

#[test]
fn pinned_messages_stay_strictly_ascending() {
    let mut group = group_with_messages(6);
    for (step, index) in [4u32, 1, 5, 0, 3, 2].iter().enumerate() {
        assert!(matches!(group.pin_message(ALICE, *index, 6000 + step as u64), PinUnpinMessageResult::Success(_)));
        let pinned = &group.pinned_messages;
        assert!(pinned.windows(2).all(|w| w[0] < w[1]));
        assert_eq!(group.date_last_pinned.is_none(), pinned.is_empty());
    }
    assert_eq!(group.pinned_messages, vec![0, 1, 2, 3, 4, 5]);
    for (step, index) in [3u32, 0, 5, 1, 4, 2].iter().enumerate() {
        assert!(matches!(group.unpin_message(ALICE, *index, 7000 + step as u64), PinUnpinMessageResult::Success(_)));
        let pinned = &group.pinned_messages;
        assert!(pinned.windows(2).all(|w| w[0] < w[1]));
        assert_eq!(group.date_last_pinned.is_none(), pinned.is_empty());
    }
    assert!(group.pinned_messages.is_empty());
    assert_eq!(group.date_last_pinned, None);
}

#[test]
fn pin_twice_is_no_change() {
    let mut group = group_with_messages(2);
    assert!(matches!(group.pin_message(ALICE, 0, 5000), PinUnpinMessageResult::Success(_)));
    let events = group.events.main.events.len();
    assert_eq!(group.pin_message(ALICE, 0, 6000), PinUnpinMessageResult::NoChange);
    assert_eq!(group.events.main.events.len(), events);
    assert_eq!(group.pinned_messages, vec![0]);
    assert_eq!(group.date_last_pinned, Some(5000));
}

#[test]
fn unpin_of_unpinned_is_no_change() {
    let mut group = group_with_messages(2);
    assert_eq!(group.unpin_message(ALICE, 0, 5000), PinUnpinMessageResult::NoChange);
    assert_eq!(group.date_last_pinned, None);
}

#[test]
fn unpin_keeps_time_while_something_is_pinned() {
    let mut group = group_with_messages(2);
    group.pin_message(ALICE, 0, 5000);
    group.pin_message(ALICE, 1, 5001);
    assert!(matches!(group.unpin_message(ALICE, 0, 5002), PinUnpinMessageResult::Success(_)));
    assert_eq!(group.pinned_messages, vec![1]);
    assert_eq!(group.date_last_pinned, Some(5001));
    match &group.events.main.events.last().unwrap().event {
        ChatEventInternal::MessageUnpinned { message_index, unpinned_by, due_to_message_deleted } => {
            assert_eq!((*message_index, *unpinned_by, *due_to_message_deleted), (0, ALICE, false));
        },
        other => panic!("unexpected {:?}", other),
    }
}

#[test]
fn pin_refusals() {
    let mut group = group_with_messages(1);
    assert_eq!(group.pin_message(77, 0, 5000), PinUnpinMessageResult::UserNotInGroup);
    assert_eq!(group.pin_message(BOB, 0, 5000), PinUnpinMessageResult::NotAuthorized);
    assert_eq!(group.pin_message(ALICE, 9, 5000), PinUnpinMessageResult::MessageNotFound);
    let i = group.members.find(ALICE).unwrap();
    group.members.members[i].suspended.value = true;
    assert_eq!(group.pin_message(ALICE, 0, 5000), PinUnpinMessageResult::UserSuspended);
    assert_eq!(group.unpin_message(ALICE, 0, 5000), PinUnpinMessageResult::UserSuspended);
    assert!(group.pinned_messages.is_empty());
}

#[test]
fn pin_needs_a_visible_message() {
    let mut group = group_with_messages(2);
    let i = group.members.find(ALICE).unwrap();
    group.members.members[i].min_visible_event_index = 2;
    assert_eq!(group.pin_message(ALICE, 0, 5000), PinUnpinMessageResult::MessageNotFound);
    assert!(matches!(group.pin_message(ALICE, 1, 5000), PinUnpinMessageResult::Success(_)));
}

#[test]
fn deleting_a_pinned_message_unpins_it() {
    let mut group = group_with_messages(8);
    assert!(matches!(group.pin_message(ALICE, 7, 5000), PinUnpinMessageResult::Success(_)));
    assert_eq!(group.date_last_pinned, Some(5000));
    let events = group.events.main.events.len();
    let result = group.delete_messages(BOB, None, vec![107], false, 6000);
    match result {
        DeleteMessagesResult::Success(results) => {
            assert_eq!(results, vec![(107, DeleteMessageResult::Success(BOB))]);
        },
        other => panic!("unexpected {:?}", other),
    }
    assert!(!group.pinned_messages.contains(&7));
    assert_eq!(group.date_last_pinned, None);
    assert_eq!(group.events.main.events.len(), events + 1);
    let last = group.events.main.events.last().unwrap();
    assert_eq!(last.timestamp, 6000);
    match &last.event {
        ChatEventInternal::MessageUnpinned { message_index, unpinned_by, due_to_message_deleted } => {
            assert_eq!((*message_index, *unpinned_by, *due_to_message_deleted), (7, BOB, true));
        },
        other => panic!("unexpected {:?}", other),
    }
}

#[test]
fn deleting_one_of_two_pinned_keeps_the_time() {
    let mut group = group_with_messages(3);
    group.pin_message(ALICE, 0, 5000);
    group.pin_message(ALICE, 2, 5001);
    group.delete_messages(BOB, None, vec![100], false, 6000);
    assert_eq!(group.pinned_messages, vec![2]);
    assert_eq!(group.date_last_pinned, Some(5001));
}

#[test]
fn a_group_made_by_the_library_is_well_formed() {
    let mut group = group_with_messages(4);
    assert!(group.is_well_formed());
    group.pin_message(OWNER, 2, 5000);
    group.pin_message(OWNER, 0, 5001);
    reply(&mut group, BOB, 1, 90, "in a thread", 5002);
    assert!(group.is_well_formed());
    assert!(group.events.is_well_formed());
    assert!(group.members.is_well_formed());
}

#[test]
fn a_group_that_breaks_a_rule_is_not_well_formed() {
    let mut group = group_with_messages(4);
    group.pinned_messages = vec![2, 1];
    assert!(!group.is_well_formed());
    group.pinned_messages = vec![1, 2];
    assert!(!group.is_well_formed());
    group.date_last_pinned = Some(5000);
    assert!(group.is_well_formed());

    let mut group = group_with_messages(2);
    let i = group.members.find(OWNER).unwrap();
    group.members.members[i].role = GroupRole::Admin;
    assert!(!group.is_well_formed());

    let mut group = group_with_messages(2);
    group.members.blocked.push(BOB);
    assert!(!group.members.is_well_formed());

    let mut group = group_with_messages(2);
    let i = group.members.find(BOB).unwrap();
    group.members.members[i].user_id = OWNER;
    assert!(!group.members.is_well_formed());

    let mut group = group_with_messages(2);
    group.events.main.events.swap(1, 2);
    assert!(!group.events.is_well_formed());
    assert!(!group.is_well_formed());

    let mut group = group_with_messages(2);
    group.events.main.next_message_index = 1;
    assert!(!group.events.is_well_formed());
}

#[test]
fn votes_out_of_order_are_not_well_formed() {
    let mut group = group_with_messages(2);
    let i = group.members.find(BOB).unwrap();
    group.members.members[i].proposal_votes.push(ProposalVotes { timestamp: 30, message_indexes: vec![0] });
    group.members.members[i].proposal_votes.push(ProposalVotes { timestamp: 40, message_indexes: vec![1] });
    assert!(group.members.is_well_formed());
    assert!(votes_in_order(&group.members.members[i].proposal_votes));
    group.members.members[i].proposal_votes.push(ProposalVotes { timestamp: 40, message_indexes: vec![1] });
    assert!(!votes_in_order(&group.members.members[i].proposal_votes));
    assert!(!group.is_well_formed());
}
