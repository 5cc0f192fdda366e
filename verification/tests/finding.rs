use group_chat_core::group::GroupChatCore;
use group_chat_core::members::AddResult;
use group_chat_core::message::MessageContent;
use group_chat_core::results::{SendMessageResult, SendMessageSuccess};
use group_chat_core::types::{GroupPermissionRole, GroupPermissions, GroupRole, Rules};
use group_chat_core::results::{MessageMatch, SearchResults};
use group_chat_core::canisters::{
    append_sms_to_queue, canister_pool_target_size, generate_message_id, message_id_from_digest,
    ConfirmationCodeSms,
};
use group_chat_core::selected_initial::Response;
use std::collections::VecDeque;

fn permissions() -> GroupPermissions {
    GroupPermissions {
        change_permissions: GroupPermissionRole::Owner,
        change_roles: GroupPermissionRole::Admins,
        add_members: GroupPermissionRole::Owner,
        remove_members: GroupPermissionRole::Moderators,
        block_users: GroupPermissionRole::Owner,
        delete_messages: GroupPermissionRole::Moderators,
        update_group: GroupPermissionRole::Admins,
        pin_messages: GroupPermissionRole::Admins,
        invite_users: GroupPermissionRole::Admins,
        create_polls: GroupPermissionRole::Members,
        send_messages: GroupPermissionRole::Members,
        react_to_messages: GroupPermissionRole::Members,
        reply_in_thread: GroupPermissionRole::Members,
        mention_all_members: GroupPermissionRole::Admins,
    }
}

fn new_group(owner: u64, is_public: bool, now: u64) -> GroupChatCore {
    GroupChatCore::new(
        owner,
        is_public,
        "Tea lovers".to_string(),
        "All about tea".to_string(),
        Rules { text: String::new(), enabled: false },
        None,
        None,
        true,
        permissions(),
        None,
        None,
        false,
        now,
    )
}

fn join(group: &mut GroupChatCore, user: u64, role: GroupRole, now: u64) {
    let min_event = 0;
    assert_eq!(group.members.add(user, now, min_event, 0, false, false), AddResult::Success);
    let i = group.members.find(user).unwrap();
    group.members.members[i].role = role;
}

fn text(body: &str) -> MessageContent {
    MessageContent::Text { text: body.to_string() }
}

fn send(group: &mut GroupChatCore, sender: u64, id: u128, body: &str, now: u64) -> SendMessageSuccess {
    match group.send_message(sender, None, id, text(body), None, Vec::new(), false, None, PROPOSALS_BOT, now) {
        SendMessageResult::Success(success) => success,
        other => panic!("message was not sent: {:?}", other),
    }
}

fn reply(group: &mut GroupChatCore, sender: u64, root: u32, id: u128, body: &str, now: u64) -> SendMessageSuccess {
    match group.send_message(sender, Some(root), id, text(body), None, Vec::new(), false, None, PROPOSALS_BOT, now) {
        SendMessageResult::Success(success) => success,
        other => panic!("reply was not sent: {:?}", other),
    }
}

const PROPOSALS_BOT: u64 = 999;
const OWNER: u64 = 1;
const ALICE: u64 = 2;
const BOB: u64 = 3;
const CAROL: u64 = 4;
const DAVE: u64 = 5;
const DAY: u64 = 86_400_000;

fn group() -> GroupChatCore {
    let mut group = new_group(OWNER, false, 0);
    join(&mut group, ALICE, GroupRole::Admin, 1);
    join(&mut group, BOB, GroupRole::Participant, 2);
    send(&mut group, ALICE, 10, "Green tea is best", 10);
    send(&mut group, BOB, 11, "I prefer black TEA in the morning", 40 * DAY);
    send(&mut group, ALICE, 12, "coffee then?", 45 * DAY);
    send(&mut group, BOB, 13, "no, tea. Always tea", 45 * DAY + 10);
    send(&mut group, ALICE, 14, "tea it is", 50 * DAY);
    group
}

fn hits(result: SearchResults) -> Vec<MessageMatch> {
    match result {
        SearchResults::Success(matches) => matches,
        other => panic!("unexpected {:?}", other),
    }
}

fn found(result: SearchResults) -> Vec<(u32, u32)> {
    hits(result).iter().map(|m| (m.message_index, m.score)).collect()
}

#[test]
fn search_ranks_by_recency_then_index() {
    let group = group();
    let now = 50 * DAY + 100;
    assert_eq!(
        found(group.search(BOB, "tea".to_string(), None, 10, now)),
        vec![(4, 4), (3, 3), (1, 2), (0, 1)]
    );
    assert_eq!(found(group.search(BOB, "tea".to_string(), None, 2, now)), vec![(4, 4), (3, 3)]);
    assert_eq!(found(group.search(BOB, "tea".to_string(), None, 0, now)), vec![]);
    assert_eq!(found(group.search(BOB, "TEA black".to_string(), None, 10, now)), vec![(1, 2)]);
    assert_eq!(found(group.search(BOB, "  tea   always ".to_string(), None, 10, now)), vec![(3, 3)]);
    assert_eq!(found(group.search(BOB, "milk".to_string(), None, 10, now)), vec![]);
    let late = 200 * DAY;
    assert_eq!(
        found(group.search(BOB, "tea".to_string(), None, 10, late)),
        vec![(4, 1), (3, 1), (1, 1), (0, 1)]
    );
}

#[test]
fn search_filters_by_sender() {
    let group = group();
    let now = 50 * DAY + 100;
    let by_alice = hits(group.search(BOB, "tea".to_string(), Some(vec![ALICE]), 10, now));
    assert_eq!(by_alice.iter().map(|m| (m.message_index, m.sender)).collect::<Vec<_>>(), vec![(4, ALICE), (0, ALICE)]);
    assert_eq!(found(group.search(BOB, "".to_string(), Some(vec![BOB]), 10, now)), vec![(3, 3), (1, 2)]);
    assert_eq!(found(group.search(BOB, "t".to_string(), Some(vec![BOB, 77]), 1, now)), vec![(3, 3)]);
}

#[test]
fn search_leaves_out_what_is_deleted_or_hidden() {
    let mut group = group();
    let now = 50 * DAY + 100;
    group.delete_messages(BOB, None, vec![13], false, now);
    assert_eq!(found(group.search(BOB, "tea".to_string(), None, 10, now)), vec![(4, 4), (1, 2), (0, 1)]);
    let i = group.members.find(BOB).unwrap();
    group.members.members[i].min_visible_event_index = 3;
    assert_eq!(found(group.search(BOB, "tea".to_string(), None, 10, now)), vec![(4, 4)]);
}

#[test]
fn search_refusals() {
    let group = group();
    assert!(matches!(group.search(BOB, "te".to_string(), None, 10, 0), SearchResults::TermTooShort(3)));
    assert!(matches!(group.search(BOB, "te".to_string(), Some(vec![]), 10, 0), SearchResults::TermTooShort(3)));
    assert!(matches!(group.search(BOB, "t".repeat(31), None, 10, 0), SearchResults::TermTooLong(30)));
    assert!(matches!(group.search(BOB, "t".repeat(31), Some(vec![ALICE]), 10, 0), SearchResults::TermTooLong(30)));
    assert!(matches!(
        group.search(BOB, "tea".to_string(), Some(vec![1, 2, 3, 4, 5, 6]), 10, 0),
        SearchResults::TooManyUsers(5)
    ));
    assert!(matches!(group.search(77, "tea".to_string(), None, 10, 0), SearchResults::UserNotInGroup));
    assert!(matches!(group.search(BOB, "t".repeat(30), Some(vec![1, 2, 3, 4, 5]), 10, 0), SearchResults::Success(_)));
}

#[test]
fn message_ids_for_proposals_are_fixed() {
    assert_eq!(generate_message_id(&vec![1, 2, 3], 42), 24607418706759871826102415321301149721);
    assert_eq!(generate_message_id(&vec![1, 2, 3], 43), 192509482546224672390951267187419800279);
    assert_eq!(generate_message_id(&Vec::new(), 0), 11081113687381381981188359232465286047);
    assert_eq!(generate_message_id(&vec![1, 2, 3], 42), generate_message_id(&vec![1, 2, 3], 42));
}

#[test]
fn message_id_is_read_from_the_first_sixteen_bytes() {
    let mut digest = vec![0u8; 32];
    digest[0] = 1;
    digest[1] = 2;
    digest[16] = 9;
    assert_eq!(message_id_from_digest(&digest), Some(513));
    assert_eq!(message_id_from_digest(&vec![0u8; 15]), None);
    assert_eq!(message_id_from_digest(&vec![255u8; 16]), Some(u128::MAX));
}

#[test]
fn canister_pool_size_depends_on_mode() {
    assert_eq!(canister_pool_target_size(false), 20);
    assert_eq!(canister_pool_target_size(true), 3);
}

#[test]
fn confirmation_codes_are_numbered_from_the_front() {
    let mut queue: VecDeque<ConfirmationCodeSms> = VecDeque::new();
    append_sms_to_queue(&mut queue, "+44 1111 111 111".to_string(), "123456".to_string());
    append_sms_to_queue(&mut queue, "+44 2222 222 222".to_string(), "654321".to_string());
    append_sms_to_queue(&mut queue, "+44 3333 333 333".to_string(), "111111".to_string());
    let indexes: Vec<u64> = queue.iter().map(|s| s.index).collect();
    assert_eq!(indexes, vec![2, 1, 0]);
    assert_eq!(queue[0].phone_number, "+44 3333 333 333");
    assert_eq!(queue[0].confirmation_code, "111111");
    queue.pop_back();
    queue.pop_back();
    append_sms_to_queue(&mut queue, "+44 4444 444 444".to_string(), "222222".to_string());
    assert_eq!(queue.iter().map(|s| s.index).collect::<Vec<_>>(), vec![3, 2]);
}

#[test]
fn details_are_for_members() {
    let mut group = group();
    group.pin_message(ALICE, 2, 51 * DAY);
    group.invite_users(ALICE, vec![50], 51 * DAY);
    group.remove_member(ALICE, 60, true, 51 * DAY);
    match group.selected_initial(BOB, 52 * DAY) {
        Response::Success(result) => {
            assert_eq!(result.timestamp, 52 * DAY);
            assert_eq!(result.latest_event_index, 8);
            let users: Vec<u64> = result.participants.iter().map(|p| p.user_id).collect();
            assert_eq!(users, vec![OWNER, ALICE, BOB]);
            assert_eq!(result.participants[1].role, GroupRole::Admin);
            assert_eq!(result.blocked_users, vec![60]);
            assert_eq!(result.invited_users, vec![50]);
            assert_eq!(result.pinned_messages, vec![2]);
            assert_eq!(result.chat_rules.version, 0);
            assert!(!result.chat_rules.enabled);
        },
        other => panic!("unexpected {:?}", other),
    }
    assert!(matches!(group.selected_initial(77, 0), Response::CallerNotInGroup));
}
