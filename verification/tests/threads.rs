use group_chat_core::group::GroupChatCore;
use group_chat_core::members::AddResult;
use group_chat_core::message::MessageContent;
use group_chat_core::results::{SendMessageResult, SendMessageSuccess};
use group_chat_core::types::{GroupPermissionRole, GroupPermissions, GroupRole, Rules};
use group_chat_core::results::{FollowThreadResult, ThreadPreviewsResult, UnfollowThreadResult};

fn permissions() -> GroupPermissions {
    GroupPermissions {
        change_permissions: GroupPermissionRole::Owner,
        change_roles: GroupPermissionRole::Admins,
        add_members: GroupPermissionRole::Owner,
        remove_members: GroupPermissionRole::Moderators,
        block_users: GroupPermissionRole::Owner,
        delete_messages: GroupPermissionRole::Moderators,
        update_group: GroupPermissionRole::Admins,
        pin_messages: GroupPermissionRole::Admins,
        invite_users: GroupPermissionRole::Admins,
        create_polls: GroupPermissionRole::Members,
        send_messages: GroupPermissionRole::Members,
        react_to_messages: GroupPermissionRole::Members,
        reply_in_thread: GroupPermissionRole::Members,
        mention_all_members: GroupPermissionRole::Admins,
    }
}

fn new_group(owner: u64, is_public: bool, now: u64) -> GroupChatCore {
    GroupChatCore::new(
        owner,
        is_public,
        "Tea lovers".to_string(),
        "All about tea".to_string(),
        Rules { text: String::new(), enabled: false },
        None,
        None,
        true,
        permissions(),
        None,
        None,
        false,
        now,
    )
}

fn join(group: &mut GroupChatCore, user: u64, role: GroupRole, now: u64) {
    let min_event = 0;
    assert_eq!(group.members.add(user, now, min_event, 0, false, false), AddResult::Success);
    let i = group.members.find(user).unwrap();
    group.members.members[i].role = role;
}

fn text(body: &str) -> MessageContent {
    MessageContent::Text { text: body.to_string() }
}

fn send(group: &mut GroupChatCore, sender: u64, id: u128, body: &str, now: u64) -> SendMessageSuccess {
    match group.send_message(sender, None, id, text(body), None, Vec::new(), false, None, PROPOSALS_BOT, now) {
        SendMessageResult::Success(success) => success,
        other => panic!("message was not sent: {:?}", other),
    }
}

fn reply(group: &mut GroupChatCore, sender: u64, root: u32, id: u128, body: &str, now: u64) -> SendMessageSuccess {
    match group.send_message(sender, Some(root), id, text(body), None, Vec::new(), false, None, PROPOSALS_BOT, now) {
        SendMessageResult::Success(success) => success,
        other => panic!("reply was not sent: {:?}", other),
    }
}

const PROPOSALS_BOT: u64 = 999;
const OWNER: u64 = 1;
const ALICE: u64 = 2;
const BOB: u64 = 3;
const CAROL: u64 = 4;
const DAVE: u64 = 5;
fn group() -> GroupChatCore {
    let mut group = new_group(OWNER, false, 1000);
    join(&mut group, ALICE, GroupRole::Admin, 1001);
    join(&mut group, BOB, GroupRole::Participant, 1002);
    join(&mut group, CAROL, GroupRole::Participant, 1003);
    send(&mut group, ALICE, 10, "root", 2000);
    send(&mut group, ALICE, 11, "no thread here", 2001);
    reply(&mut group, BOB, 0, 20, "first reply", 2100);
    group
}

fn threads_of(group: &GroupChatCore, user: u64) -> (Vec<u32>, Vec<u32>) {
    let member = group.members.get(user).unwrap();
    (member.threads.clone(), member.unfollowed_threads.clone())
}

#[test]
fn follow_twice_is_already_following() {
    let mut group = group();
    assert_eq!(group.follow_thread(CAROL, 0, 3000), FollowThreadResult::Success);
    assert_eq!(threads_of(&group, CAROL), (vec![0], vec![]));
    let updated = group.events.recently_updated.len();
    assert_eq!(group.follow_thread(CAROL, 0, 3001), FollowThreadResult::AlreadyFollowing);
    assert_eq!(threads_of(&group, CAROL), (vec![0], vec![]));
    assert_eq!(group.events.recently_updated.len(), updated);
    assert_eq!(group.events.main.events[1].as_message().unwrap().last_updated, Some(3000));
}

#[test]
fn participants_follow_without_asking() {
    let mut group = group();
    assert_eq!(threads_of(&group, BOB), (vec![0], vec![]));
    assert_eq!(group.follow_thread(BOB, 0, 3000), FollowThreadResult::AlreadyFollowing);
    assert_eq!(group.unfollow_thread(CAROL, 0, 3000), UnfollowThreadResult::NotFollowing);
}

#[test]
fn unfollow_is_sticky() {
    let mut group = group();
    assert_eq!(group.follow_thread(CAROL, 0, 3000), FollowThreadResult::Success);
    assert_eq!(group.unfollow_thread(CAROL, 0, 3001), UnfollowThreadResult::Success);
    assert_eq!(threads_of(&group, CAROL), (vec![], vec![0]));
    assert_eq!(group.unfollow_thread(CAROL, 0, 3002), UnfollowThreadResult::NotFollowing);
    reply(&mut group, CAROL, 0, 21, "still here", 3100);
    assert_eq!(threads_of(&group, CAROL), (vec![], vec![0]));
    group.members.add_thread(CAROL, 0);
    assert_eq!(threads_of(&group, CAROL), (vec![], vec![0]));
    let later = reply(&mut group, ALICE, 0, 22, "anyone?", 3200);
    assert!(!later.users_to_notify.contains(&CAROL));
    assert_eq!(group.follow_thread(CAROL, 0, 3300), FollowThreadResult::Success);
    assert_eq!(threads_of(&group, CAROL), (vec![0], vec![]));
    let last = reply(&mut group, ALICE, 0, 23, "now?", 3400);
    assert!(last.users_to_notify.contains(&CAROL));
}

#[test]
fn follow_refusals() {
    let mut group = group();
    assert_eq!(group.follow_thread(77, 0, 3000), FollowThreadResult::UserNotInGroup);
    assert_eq!(group.unfollow_thread(77, 0, 3000), UnfollowThreadResult::UserNotInGroup);
    assert_eq!(group.follow_thread(CAROL, 1, 3000), FollowThreadResult::ThreadNotFound);
    assert_eq!(group.follow_thread(CAROL, 9, 3000), FollowThreadResult::ThreadNotFound);
    assert_eq!(group.unfollow_thread(CAROL, 1, 3000), UnfollowThreadResult::ThreadNotFound);
    let i = group.members.find(CAROL).unwrap();
    group.members.members[i].min_visible_event_index = 2;
    assert_eq!(group.follow_thread(CAROL, 0, 3000), FollowThreadResult::ThreadNotFound);
    group.members.members[i].min_visible_event_index = 0;
    group.members.members[i].suspended.value = true;
    assert_eq!(group.follow_thread(CAROL, 0, 3000), FollowThreadResult::UserSuspended);
    assert_eq!(group.unfollow_thread(CAROL, 0, 3000), UnfollowThreadResult::UserSuspended);
    assert_eq!(threads_of(&group, CAROL), (vec![], vec![]));
}

#[test]
fn previews_show_root_and_latest_replies() {
    let mut group = group();
    reply(&mut group, CAROL, 0, 21, "second reply", 2200);
    reply(&mut group, ALICE, 0, 22, "third reply", 2300);
    match group.thread_previews(BOB, vec![1, 0, 9], None, 5000) {
        ThreadPreviewsResult::Success(previews) => {
            assert_eq!(previews.len(), 1);
            let preview = &previews[0];
            assert_eq!(preview.root_message.index, 1);
            assert_eq!(preview.root_message.event.message_id, 10);
            let summary = preview.root_message.event.thread_summary.as_ref().unwrap();
            assert_eq!(summary.reply_count, 3);
            assert!(summary.followed_by_me);
            assert_eq!(preview.total_replies, 3);
            let latest: Vec<u128> =
                preview.latest_replies.iter().map(|e| e.event.message_id).collect();
            assert_eq!(latest, vec![22, 21]);
        },
        other => panic!("unexpected {:?}", other),
    }
    assert!(matches!(group.thread_previews(77, vec![0], None, 5000), ThreadPreviewsResult::UserNotInGroup));
    match group.thread_previews(BOB, vec![0], Some(5001), 5000) {
        ThreadPreviewsResult::ReplicaNotUpToDate(now) => assert_eq!(now, 5000),
        other => panic!("unexpected {:?}", other),
    }
    assert!(matches!(group.thread_previews(BOB, vec![0], Some(5000), 5000), ThreadPreviewsResult::Success(_)));
}

#[test]
fn expired_events_go_and_their_threads_are_forgotten() {
    let mut group = new_group(OWNER, false, 1000);
    join(&mut group, ALICE, GroupRole::Admin, 1001);
    join(&mut group, BOB, GroupRole::Participant, 1002);
    join(&mut group, CAROL, GroupRole::Participant, 1003);
    group.events.set_events_time_to_live(OWNER, Some(1000), 1500);
    send(&mut group, ALICE, 10, "short lived", 2000);
    reply(&mut group, BOB, 0, 20, "reply", 2100);
    assert_eq!(group.follow_thread(CAROL, 0, 2200), FollowThreadResult::Success);
    assert_eq!(group.follow_thread(ALICE, 0, 2250), FollowThreadResult::AlreadyFollowing);
    assert_eq!(group.unfollow_thread(ALICE, 0, 2300), UnfollowThreadResult::Success);
    group.events.set_events_time_to_live(OWNER, None, 2400);
    send(&mut group, ALICE, 11, "stays", 2500);
    reply(&mut group, BOB, 1, 21, "reply to the one that stays", 2600);
    assert_eq!(threads_of(&group, BOB), (vec![0, 1], vec![]));
    assert_eq!(threads_of(&group, CAROL), (vec![0], vec![]));
    assert_eq!(threads_of(&group, ALICE), (vec![1], vec![0]));

    assert!(group.is_well_formed());
    let early = group.remove_expired_events(2999);
    assert!(early.events.is_empty());
    assert!(early.threads.is_empty());
    assert_eq!(group.events.main.events.len(), 5);

    let result = group.remove_expired_events(3000);
    assert_eq!(result.events, vec![2]);
    assert_eq!(result.threads.len(), 1);
    assert_eq!(result.threads[0].root_message_index, 0);
    let mut users = result.threads[0].users.clone();
    users.sort();
    assert_eq!(users, vec![ALICE, BOB, CAROL]);
    let left: Vec<u32> = group.events.main.events.iter().map(|e| e.index).collect();
    assert_eq!(left, vec![0, 1, 3, 4]);
    assert!(group.is_well_formed());
    assert_eq!(group.events.threads.len(), 1);
    assert_eq!(group.events.threads[0].root_message_index, 1);
    for user in [ALICE, BOB, CAROL] {
        let (threads, unfollowed) = threads_of(&group, user);
        assert!(!threads.contains(&0));
        assert!(!unfollowed.contains(&0));
    }
    assert_eq!(threads_of(&group, BOB), (vec![1], vec![]));
    assert_eq!(group.events.main.next_event_index, 5);
    assert_eq!(group.events.main.next_message_index, 2);
    let next = send(&mut group, ALICE, 12, "after", 4000);
    assert_eq!((next.message_event.index, next.message_event.event.message_index), (5, 2));
}

#[test]
fn mentioned_users_follow_the_thread() {
    let mut group = group();
    let mentioning =
        group.send_message(BOB, Some(0), 30, text("see this"), None, vec![CAROL], false, None, PROPOSALS_BOT, 3000);
    let mut notified = match mentioning {
        SendMessageResult::Success(success) => success.users_to_notify,
        other => panic!("unexpected {:?}", other),
    };
    notified.sort();
    assert_eq!(notified, vec![ALICE, CAROL]);
    assert_eq!(threads_of(&group, CAROL), (vec![0], vec![]));
    let mut next = reply(&mut group, BOB, 0, 31, "and this", 3100).users_to_notify;
    next.sort();
    assert_eq!(next, vec![ALICE, CAROL]);
    assert_eq!(group.follow_thread(CAROL, 0, 3200), FollowThreadResult::AlreadyFollowing);
    assert_eq!(group.unfollow_thread(CAROL, 0, 3300), UnfollowThreadResult::Success);
    let later = group.send_message(BOB, Some(0), 32, text("once more"), None, Vec::new(), false, None, PROPOSALS_BOT, 3400);
    match later {
        SendMessageResult::Success(success) => assert_eq!(success.users_to_notify, vec![ALICE]),
        other => panic!("unexpected {:?}", other),
    }
    let again =
        group.send_message(BOB, Some(0), 33, text("carol?"), None, vec![CAROL], false, None, PROPOSALS_BOT, 3500);
    let mut told = match again {
        SendMessageResult::Success(success) => success.users_to_notify,
        other => panic!("unexpected {:?}", other),
    };
    told.sort();
    assert_eq!(told, vec![ALICE, CAROL]);
    assert_eq!(threads_of(&group, CAROL), (vec![], vec![0]));
    let last = reply(&mut group, BOB, 0, 34, "bye", 3600).users_to_notify;
    assert_eq!(last, vec![ALICE]);
}

#[test]
fn expired_replies_leave_their_thread() {
    let mut group = new_group(OWNER, false, 1000);
    join(&mut group, ALICE, GroupRole::Admin, 1001);
    join(&mut group, BOB, GroupRole::Participant, 1002);
    send(&mut group, ALICE, 10, "root that stays", 2000);
    group.events.set_events_time_to_live(OWNER, Some(500), 2050);
    reply(&mut group, BOB, 0, 20, "short lived reply", 2100);
    group.events.set_events_time_to_live(OWNER, None, 2150);
    reply(&mut group, BOB, 0, 21, "reply that stays", 2200);
    let result = group.remove_expired_events(2600);
    assert!(result.events.is_empty());
    assert!(result.threads.is_empty());
    assert_eq!(group.events.main.events.len(), 4);
    let thread = &group.events.threads[0];
    let left: Vec<u128> = thread.list.events.iter().map(|e| e.as_message().unwrap().message_id).collect();
    assert_eq!(left, vec![21]);
    assert_eq!(thread.list.next_event_index, 2);
    assert_eq!(thread.list.next_message_index, 2);
    assert_eq!(threads_of(&group, BOB), (vec![0], vec![]));
    let next = reply(&mut group, ALICE, 0, 22, "another", 2700);
    assert_eq!((next.message_event.index, next.message_event.event.message_index), (2, 2));
}

#[test]
fn the_log_knows_the_threads_that_members_keep_track_of() {
    let mut group = group();
    assert!(group.is_well_formed());
    assert_eq!(group.follow_thread(CAROL, 0, 3000), FollowThreadResult::Success);
    assert!(group.is_well_formed());
    assert_eq!(group.unfollow_thread(BOB, 0, 3100), UnfollowThreadResult::Success);
    assert!(group.is_well_formed());
    match group.send_message(ALICE, Some(0), 30, text("look"), None, vec![OWNER], false, None, PROPOSALS_BOT, 3200) {
        SendMessageResult::Success(_) => {},
        other => panic!("unexpected {:?}", other),
    }
    assert_eq!(threads_of(&group, OWNER), (vec![0], vec![]));
    assert!(group.is_well_formed());
    assert!(group.threads_are_known());
    assert!(group.events.is_known(0, OWNER));
    assert!(!group.events.is_known(1, OWNER));
    assert!(!group.events.is_known(0, 77));

    let i = group.members.find(OWNER).unwrap();
    group.members.members[i].threads.push(1);
    assert!(!group.threads_are_known());
    assert!(!group.is_well_formed());
    group.members.members[i].threads.pop();
    group.members.members[i].unfollowed_threads.push(9);
    assert!(!group.is_well_formed());
}
