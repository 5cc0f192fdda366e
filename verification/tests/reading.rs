use group_chat_core::group::GroupChatCore;
use group_chat_core::members::AddResult;
use group_chat_core::message::MessageContent;
use group_chat_core::results::{SendMessageResult, SendMessageSuccess};
use group_chat_core::types::{GroupPermissionRole, GroupPermissions, GroupRole, Rules};
use group_chat_core::results::{EventsResult, MessagesResult};

fn permissions() -> GroupPermissions {
    GroupPermissions {
        change_permissions: GroupPermissionRole::Owner,
        change_roles: GroupPermissionRole::Admins,
        add_members: GroupPermissionRole::Owner,
        remove_members: GroupPermissionRole::Moderators,
        block_users: GroupPermissionRole::Owner,
        delete_messages: GroupPermissionRole::Moderators,
        update_group: GroupPermissionRole::Admins,
        pin_messages: GroupPermissionRole::Admins,
        invite_users: GroupPermissionRole::Admins,
        create_polls: GroupPermissionRole::Members,
        send_messages: GroupPermissionRole::Members,
        react_to_messages: GroupPermissionRole::Members,
        reply_in_thread: GroupPermissionRole::Members,
        mention_all_members: GroupPermissionRole::Admins,
    }
}

fn new_group(owner: u64, is_public: bool, now: u64) -> GroupChatCore {
    GroupChatCore::new(
        owner,
        is_public,
        "Tea lovers".to_string(),
        "All about tea".to_string(),
        Rules { text: String::new(), enabled: false },
        None,
        None,
        true,
        permissions(),
        None,
        None,
        false,
        now,
    )
}

fn join(group: &mut GroupChatCore, user: u64, role: GroupRole, now: u64) {
    let min_event = 0;
    assert_eq!(group.members.add(user, now, min_event, 0, false, false), AddResult::Success);
    let i = group.members.find(user).unwrap();
    group.members.members[i].role = role;
}

fn text(body: &str) -> MessageContent {
    MessageContent::Text { text: body.to_string() }
}

fn send(group: &mut GroupChatCore, sender: u64, id: u128, body: &str, now: u64) -> SendMessageSuccess {
    match group.send_message(sender, None, id, text(body), None, Vec::new(), false, None, PROPOSALS_BOT, now) {
        SendMessageResult::Success(success) => success,
        other => panic!("message was not sent: {:?}", other),
    }
}

fn reply(group: &mut GroupChatCore, sender: u64, root: u32, id: u128, body: &str, now: u64) -> SendMessageSuccess {
    match group.send_message(sender, Some(root), id, text(body), None, Vec::new(), false, None, PROPOSALS_BOT, now) {
        SendMessageResult::Success(success) => success,
        other => panic!("reply was not sent: {:?}", other),
    }
}

const PROPOSALS_BOT: u64 = 999;
const OWNER: u64 = 1;
const ALICE: u64 = 2;
const BOB: u64 = 3;
const CAROL: u64 = 4;
const DAVE: u64 = 5;
fn busy_group(messages: u32) -> GroupChatCore {
    let mut group = new_group(OWNER, false, 1000);
    join(&mut group, ALICE, GroupRole::Admin, 1001);
    join(&mut group, BOB, GroupRole::Participant, 1002);
    for i in 0..messages {
        send(&mut group, BOB, 100 + i as u128, "hello there", 2000 + i as u64);
    }
    group
}

fn indexes(result: EventsResult) -> Vec<u32> {
    match result {
        EventsResult::Success(response) => response.events.iter().map(|e| e.index).collect(),
        other => panic!("unexpected {:?}", other),
    }
}

#[test]
fn stale_replica_is_reported() {
    let group = busy_group(42);
    assert_eq!(group.events.main.next_event_index, 43);
    match group.events_window(Some(BOB), None, 10, 5, 5, Some(1_000_000), 9000) {
        EventsResult::ReplicaNotUpToDate(latest) => assert_eq!(latest, 42),
        other => panic!("unexpected {:?}", other),
    }
    match group.events(Some(BOB), None, 0, true, 5, 5, Some(43), 9000) {
        EventsResult::ReplicaNotUpToDate(latest) => assert_eq!(latest, 42),
        other => panic!("unexpected {:?}", other),
    }
    match group.events_by_index(Some(BOB), None, vec![1], Some(43), 9000) {
        EventsResult::ReplicaNotUpToDate(latest) => assert_eq!(latest, 42),
        other => panic!("unexpected {:?}", other),
    }
    match group.messages_by_message_index(Some(BOB), None, vec![1], Some(43), 9000) {
        MessagesResult::ReplicaNotUpToDate(latest) => assert_eq!(latest, 42),
        other => panic!("unexpected {:?}", other),
    }
    assert!(matches!(group.events(Some(BOB), None, 0, true, 5, 5, Some(42), 9000), EventsResult::Success(_)));
}

#[test]
fn scan_honours_both_caps() {
    let mut group = busy_group(3);
    group.pin_message(ALICE, 0, 3000);
    group.pin_message(ALICE, 1, 3001);
    send(&mut group, BOB, 200, "later", 4000);
    assert_eq!(indexes(group.events(Some(BOB), None, 0, true, 100, 100, None, 9000)), vec![0, 1, 2, 3, 4, 5, 6]);
    assert_eq!(indexes(group.events(Some(BOB), None, 0, true, 100, 3, None, 9000)), vec![0, 1, 2]);
    assert_eq!(indexes(group.events(Some(BOB), None, 0, true, 2, 100, None, 9000)), vec![0, 1, 2]);
    assert_eq!(indexes(group.events(Some(BOB), None, 2, true, 2, 100, None, 9000)), vec![2, 3]);
    assert_eq!(indexes(group.events(Some(BOB), None, 4, true, 1, 100, None, 9000)), vec![4, 5, 6]);
    assert_eq!(indexes(group.events(Some(BOB), None, 0, true, 0, 100, None, 9000)), Vec::<u32>::new());
    assert_eq!(indexes(group.events(Some(BOB), None, 0, true, 100, 0, None, 9000)), Vec::<u32>::new());
    assert_eq!(indexes(group.events(Some(BOB), None, 6, false, 100, 4, None, 9000)), vec![6, 5, 4, 3]);
    assert_eq!(indexes(group.events(Some(BOB), None, 100, false, 100, 2, None, 9000)), vec![6, 5]);
    assert_eq!(indexes(group.events(Some(BOB), None, 100, true, 100, 100, None, 9000)), Vec::<u32>::new());
}

#[test]
fn response_carries_latest_index_and_time() {
    let group = busy_group(2);
    match group.events(Some(BOB), None, 0, true, 10, 10, None, 9000) {
        EventsResult::Success(response) => {
            assert_eq!(response.latest_event_index, 2);
            assert_eq!(response.timestamp, 9000);
        },
        other => panic!("unexpected {:?}", other),
    }
}

#[test]
fn nothing_below_the_lower_bound_is_read() {
    let mut group = busy_group(6);
    assert_eq!(group.members.add(CAROL, 5000, 4, 3, false, false), AddResult::Success);
    let bound = group.members.get(CAROL).unwrap().min_visible_event_index;
    assert_eq!(bound, 4);
    let all = [
        indexes(group.events(Some(CAROL), None, 0, true, 100, 100, None, 9000)),
        indexes(group.events(Some(CAROL), None, 6, false, 100, 100, None, 9000)),
        indexes(group.events(Some(CAROL), None, 2, false, 100, 100, None, 9000)),
        indexes(group.events_window(Some(CAROL), None, 4, 100, 100, None, 9000)),
        indexes(group.events_window(Some(CAROL), None, 1, 100, 100, None, 9000)),
        indexes(group.events_by_index(Some(CAROL), None, vec![0, 1, 3, 4, 5, 6], None, 9000)),
    ];
    assert_eq!(all[0], vec![4, 5, 6]);
    assert_eq!(all[1], vec![6, 5, 4]);
    assert_eq!(all[2], Vec::<u32>::new());
    assert_eq!(all[3], vec![4, 5, 6]);
    assert_eq!(all[4], Vec::<u32>::new());
    assert_eq!(all[5], vec![4, 5, 6]);
    for list in all.iter() {
        assert!(list.iter().all(|index| *index >= bound));
    }
    match group.messages_by_message_index(Some(CAROL), None, vec![0, 2, 3, 5], None, 9000) {
        MessagesResult::Success(response) => {
            let found: Vec<u32> = response.messages.iter().map(|e| e.index).collect();
            assert_eq!(found, vec![4, 6]);
        },
        other => panic!("unexpected {:?}", other),
    }
}

#[test]
fn window_grows_around_the_message_later_side_first() {
    let group = busy_group(7);
    assert_eq!(indexes(group.events_window(Some(BOB), None, 3, 100, 1, None, 9000)), vec![4]);
    assert_eq!(indexes(group.events_window(Some(BOB), None, 3, 100, 2, None, 9000)), vec![4, 5]);
    assert_eq!(indexes(group.events_window(Some(BOB), None, 3, 100, 3, None, 9000)), vec![3, 4, 5]);
    assert_eq!(indexes(group.events_window(Some(BOB), None, 3, 100, 4, None, 9000)), vec![3, 4, 5, 6]);
    assert_eq!(indexes(group.events_window(Some(BOB), None, 3, 2, 100, None, 9000)), vec![4, 5]);
    assert_eq!(indexes(group.events_window(Some(BOB), None, 6, 100, 3, None, 9000)), vec![5, 6, 7]);
    assert_eq!(indexes(group.events_window(Some(BOB), None, 0, 100, 4, None, 9000)), vec![0, 1, 2, 3]);
    assert_eq!(indexes(group.events_window(Some(BOB), None, 3, 0, 100, None, 9000)), Vec::<u32>::new());
    assert_eq!(indexes(group.events_window(Some(BOB), None, 30, 100, 100, None, 9000)), Vec::<u32>::new());
}

#[test]
fn events_by_index_keep_the_order_asked() {
    let group = busy_group(4);
    assert_eq!(indexes(group.events_by_index(Some(BOB), None, vec![3, 0, 9, 3], None, 9000)), vec![3, 0, 3]);
}

#[test]
fn strangers_read_public_groups_only() {
    let private = busy_group(2);
    assert!(matches!(private.events(Some(77), None, 0, true, 10, 10, None, 9000), EventsResult::UserNotInGroup));
    assert!(matches!(private.events(None, None, 0, true, 10, 10, None, 9000), EventsResult::UserNotInGroup));
    assert_eq!(private.min_visible_event_index(Some(77)), None);
    assert!(!private.is_accessible(Some(77)));
    assert!(private.is_accessible(Some(BOB)));
    let mut public = new_group(OWNER, true, 1000);
    send(&mut public, OWNER, 1, "welcome", 2000);
    assert_eq!(indexes(public.events(None, None, 0, true, 10, 10, None, 9000)), vec![0, 1]);
    assert_eq!(public.min_visible_event_index(Some(77)), Some(0));
    public.min_visible_indexes_for_new_members = Some((1, 0));
    assert_eq!(public.min_visible_event_index(None), Some(1));
    assert_eq!(indexes(public.events(Some(77), None, 0, true, 10, 10, None, 9000)), vec![1]);
    assert!(public.is_accessible(None));
}

#[test]
fn threads_are_read_through_a_visible_root() {
    let mut group = busy_group(2);
    reply(&mut group, ALICE, 1, 300, "in thread", 3000);
    reply(&mut group, BOB, 1, 301, "more", 3001);
    assert_eq!(indexes(group.events(Some(BOB), Some(1), 0, true, 10, 10, None, 9000)), vec![0, 1]);
    assert!(matches!(group.events(Some(BOB), Some(0), 0, true, 10, 10, None, 9000), EventsResult::ThreadNotFound));
    assert!(matches!(group.events(Some(BOB), Some(9), 0, true, 10, 10, None, 9000), EventsResult::ThreadNotFound));
    assert_eq!(group.members.add(CAROL, 5000, 3, 2, false, false), AddResult::Success);
    assert!(matches!(group.events(Some(CAROL), Some(1), 0, true, 10, 10, None, 9000), EventsResult::ThreadNotFound));
    match group.events(Some(BOB), Some(1), 0, true, 10, 10, Some(2), 9000) {
        EventsResult::ReplicaNotUpToDate(latest) => assert_eq!(latest, 1),
        other => panic!("unexpected {:?}", other),
    }
}

#[test]
fn updates_are_noticed() {
    let mut group = busy_group(1);
    assert!(group.has_updates_since(Some(BOB), 1500));
    assert!(!group.has_updates_since(Some(BOB), 2000));
    assert!(!group.has_updates_since(None, 2000));
    let i = group.members.find(BOB).unwrap();
    group.members.members[i].notifications_muted.timestamp = 2500;
    assert!(group.has_updates_since(Some(BOB), 2000));
    assert!(!group.has_updates_since(Some(ALICE), 2000));
    group.invite_users(ALICE, vec![50], 3000);
    assert!(group.has_updates_since(None, 2999));
    assert!(!group.has_updates_since(None, 3000));
}

#[test]
fn an_event_after_the_given_time_is_an_update() {
    let mut group = busy_group(3);
    let newest = group.events.main.events.iter().map(|e| e.timestamp).max().unwrap();
    assert!(group.has_updates_since(None, newest - 1));
    assert!(!group.has_updates_since(None, newest));
    reply(&mut group, BOB, 0, 900, "in a thread", newest + 10);
    assert!(group.has_updates_since(None, newest));
    assert!(group.events.is_well_formed());
    group.events.latest_event_timestamp = newest;
    assert!(!group.events.is_well_formed());
}
