use group_chat_core::group::GroupChatCore;
use group_chat_core::members::AddResult;
use group_chat_core::message::MessageContent;
use group_chat_core::results::{SendMessageResult, SendMessageSuccess};
use group_chat_core::types::{GroupPermissionRole, GroupPermissions, GroupRole, Rules};
use group_chat_core::events::ChatEventInternal;
use group_chat_core::message::{CryptoTransaction, InvalidPollReason, PollConfig, TransferStatus};
use group_chat_core::types::UpdatedRules;

fn permissions() -> GroupPermissions {
    GroupPermissions {
        change_permissions: GroupPermissionRole::Owner,
        change_roles: GroupPermissionRole::Admins,
        add_members: GroupPermissionRole::Owner,
        remove_members: GroupPermissionRole::Moderators,
        block_users: GroupPermissionRole::Owner,
        delete_messages: GroupPermissionRole::Moderators,
        update_group: GroupPermissionRole::Admins,
        pin_messages: GroupPermissionRole::Admins,
        invite_users: GroupPermissionRole::Admins,
        create_polls: GroupPermissionRole::Members,
        send_messages: GroupPermissionRole::Members,
        react_to_messages: GroupPermissionRole::Members,
        reply_in_thread: GroupPermissionRole::Members,
        mention_all_members: GroupPermissionRole::Admins,
    }
}

fn new_group(owner: u64, is_public: bool, now: u64) -> GroupChatCore {
    GroupChatCore::new(
        owner,
        is_public,
        "Tea lovers".to_string(),
        "All about tea".to_string(),
        Rules { text: String::new(), enabled: false },
        None,
        None,
        true,
        permissions(),
        None,
        None,
        false,
        now,
    )
}

fn join(group: &mut GroupChatCore, user: u64, role: GroupRole, now: u64) {
    let min_event = 0;
    assert_eq!(group.members.add(user, now, min_event, 0, false, false), AddResult::Success);
    let i = group.members.find(user).unwrap();
    group.members.members[i].role = role;
}

fn text(body: &str) -> MessageContent {
    MessageContent::Text { text: body.to_string() }
}

fn send(group: &mut GroupChatCore, sender: u64, id: u128, body: &str, now: u64) -> SendMessageSuccess {
    match group.send_message(sender, None, id, text(body), None, Vec::new(), false, None, PROPOSALS_BOT, now) {
        SendMessageResult::Success(success) => success,
        other => panic!("message was not sent: {:?}", other),
    }
}

fn reply(group: &mut GroupChatCore, sender: u64, root: u32, id: u128, body: &str, now: u64) -> SendMessageSuccess {
    match group.send_message(sender, Some(root), id, text(body), None, Vec::new(), false, None, PROPOSALS_BOT, now) {
        SendMessageResult::Success(success) => success,
        other => panic!("reply was not sent: {:?}", other),
    }
}

const PROPOSALS_BOT: u64 = 999;
const OWNER: u64 = 1;
const ALICE: u64 = 2;
const BOB: u64 = 3;
const CAROL: u64 = 4;
const DAVE: u64 = 5;
fn group() -> GroupChatCore {
    let mut group = new_group(OWNER, false, 1000);
    join(&mut group, ALICE, GroupRole::Admin, 1001);
    join(&mut group, BOB, GroupRole::Participant, 1002);
    join(&mut group, CAROL, GroupRole::Participant, 1003);
    join(&mut group, DAVE, GroupRole::Participant, 1004);
    group
}

fn mute(group: &mut GroupChatCore, user: u64) {
    let i = group.members.find(user).unwrap();
    group.members.members[i].notifications_muted.value = true;
}

fn sorted(mut users: Vec<u64>) -> Vec<u64> {
    users.sort();
    users
}

#[test]
fn send_and_notify() {
    let mut group = group();
    let root = send(&mut group, DAVE, 50, "thread root", 1500);
    reply(&mut group, DAVE, root.message_event.event.message_index, 51, "first reply", 1600);
    assert!(group.members.get(DAVE).unwrap().threads.contains(&root.message_event.event.message_index));
    mute(&mut group, OWNER);
    mute(&mut group, CAROL);
    mute(&mut group, DAVE);
    let result = group.send_message(
        ALICE,
        None,
        60,
        text("hello Bob"),
        None,
        vec![BOB],
        false,
        None,
        PROPOSALS_BOT,
        2000,
    );
    let success = match result {
        SendMessageResult::Success(success) => success,
        other => panic!("unexpected {:?}", other),
    };
    assert_eq!(success.users_to_notify, vec![BOB]);
    assert!(!success.users_to_notify.contains(&CAROL));
    let bob = group.members.get(BOB).unwrap();
    assert_eq!(bob.mentions.len(), 1);
    assert_eq!(bob.mentions[0].message_index, success.message_event.event.message_index);
    assert_eq!(bob.mentions[0].thread_root_message_index, None);
    assert_eq!(bob.mentions[0].timestamp, 2000);
    assert!(group.members.get(CAROL).unwrap().mentions.is_empty());
    assert!(group.members.get(DAVE).unwrap().mentions.is_empty());
}

#[test]
fn unmuted_members_hear_of_top_level_messages() {
    let mut group = group();
    mute(&mut group, CAROL);
    let success = send(&mut group, ALICE, 60, "hello", 2000);
    assert_eq!(sorted(success.users_to_notify), vec![OWNER, BOB, DAVE]);
    assert_eq!(success.message_event.event.message_index, 0);
    assert_eq!(success.message_event.index, 1);
    assert_eq!(success.message_event.timestamp, 2000);
}

#[test]
fn first_thread_reply() {
    let mut group = group();
    mute(&mut group, OWNER);
    mute(&mut group, CAROL);
    mute(&mut group, DAVE);
    mute(&mut group, ALICE);
    let root = send(&mut group, ALICE, 70, "root", 2000);
    let root_index = root.message_event.event.message_index;
    let success = reply(&mut group, BOB, root_index, 71, "a reply", 2100);
    assert!(success.users_to_notify.contains(&ALICE));
    assert_eq!(success.message_event.event.message_index, 0);
    let alice = group.members.get(ALICE).unwrap();
    assert_eq!(alice.mentions.len(), 1);
    assert_eq!(alice.mentions[0].thread_root_message_index, Some(root_index));
    assert!(alice.threads.contains(&root_index));
    let bob = group.members.get(BOB).unwrap();
    assert!(bob.threads.contains(&root_index));
    let root_message = group.events.main.events[1].as_message().unwrap();
    let summary = root_message.thread_summary.as_ref().unwrap();
    assert_eq!(summary.reply_count, 1);
    assert_eq!(summary.participant_ids, vec![BOB]);
    assert!(summary.follows(ALICE));
    assert_eq!(summary.participants_and_followers(false), vec![BOB, ALICE]);
    assert_eq!(summary.latest_event_index, 0);
    assert_eq!(summary.latest_event_timestamp, 2100);
    assert_eq!(root_message.last_updated, Some(2100));
}

#[test]
fn later_replies_do_not_mention_the_root_author() {
    let mut group = group();
    let root = send(&mut group, ALICE, 70, "root", 2000).message_event.event.message_index;
    reply(&mut group, BOB, root, 71, "first", 2100);
    let second = reply(&mut group, CAROL, root, 72, "second", 2200);
    assert_eq!(group.members.get(ALICE).unwrap().mentions.len(), 1);
    assert_eq!(sorted(second.users_to_notify), vec![ALICE, BOB]);
    let summary = group.events.main.events[1].as_message().unwrap().thread_summary.as_ref().unwrap();
    assert_eq!(summary.reply_count, 2);
    assert_eq!(summary.participant_ids, vec![BOB, CAROL]);
}

#[test]
fn thread_followers_are_notified_even_when_muted() {
    let mut group = group();
    let root = send(&mut group, ALICE, 70, "root", 2000).message_event.event.message_index;
    reply(&mut group, BOB, root, 71, "first", 2100);
    mute(&mut group, BOB);
    mute(&mut group, DAVE);
    let third = reply(&mut group, CAROL, root, 72, "second", 2200);
    assert_eq!(sorted(third.users_to_notify), vec![ALICE, BOB]);
}

#[test]
fn muted_members_do_not_hear_of_top_level_messages() {
    let mut group = group();
    mute(&mut group, BOB);
    let success = send(&mut group, ALICE, 70, "hello", 2000);
    assert_eq!(sorted(success.users_to_notify), vec![OWNER, CAROL, DAVE]);
}

#[test]
fn everyone_is_mentioned_by_an_admin() {
    let mut group = group();
    mute(&mut group, CAROL);
    let result = group.send_message(
        ALICE,
        None,
        80,
        text("attention @everyone please"),
        None,
        Vec::new(),
        false,
        None,
        PROPOSALS_BOT,
        2000,
    );
    let success = match result {
        SendMessageResult::Success(success) => success,
        other => panic!("unexpected {:?}", other),
    };
    assert_eq!(sorted(success.users_to_notify), vec![OWNER, BOB, CAROL, DAVE]);
    for user in [OWNER, BOB, CAROL, DAVE] {
        assert_eq!(group.members.get(user).unwrap().mentions.len(), 1);
    }
    assert!(group.members.get(ALICE).unwrap().mentions.is_empty());
}

#[test]
fn everyone_is_not_mentioned_by_a_plain_member() {
    let mut group = group();
    mute(&mut group, CAROL);
    let success = send(&mut group, BOB, 80, "attention @everyone please", 2000);
    assert_eq!(sorted(success.users_to_notify), vec![OWNER, ALICE, DAVE]);
    assert!(group.members.get(CAROL).unwrap().mentions.is_empty());
}

#[test]
fn everyone_flag_is_taken_as_given_when_resolved() {
    let mut group = group();
    mute(&mut group, CAROL);
    let result = group.send_message_resolved(
        ALICE,
        None,
        81,
        text("nothing special"),
        None,
        Vec::new(),
        false,
        None,
        PROPOSALS_BOT,
        2000,
        true,
    );
    match result {
        SendMessageResult::Success(success) => assert!(success.users_to_notify.contains(&CAROL)),
        other => panic!("unexpected {:?}", other),
    }
}

#[test]
fn proposals_bot_mentions_nobody() {
    let mut group = group();
    join(&mut group, PROPOSALS_BOT, GroupRole::Participant, 1005);
    mute(&mut group, BOB);
    let result = group.send_message(
        PROPOSALS_BOT,
        None,
        82,
        MessageContent::GovernanceProposal { governance_canister_id: 7, proposal_id: 1 },
        None,
        vec![BOB],
        false,
        None,
        PROPOSALS_BOT,
        2000,
    );
    match result {
        SendMessageResult::Success(success) => assert!(!success.users_to_notify.contains(&BOB)),
        other => panic!("unexpected {:?}", other),
    }
    assert!(group.members.get(BOB).unwrap().mentions.is_empty());
}

#[test]
fn reply_mentions_the_author_replied_to() {
    let mut group = group();
    mute(&mut group, BOB);
    let first = send(&mut group, BOB, 90, "question", 2000);
    let result = group.send_message(
        ALICE,
        None,
        91,
        text("answer"),
        Some(group_chat_core::message::GroupReplyContext { event_index: first.message_event.index }),
        Vec::new(),
        false,
        None,
        PROPOSALS_BOT,
        2100,
    );
    match result {
        SendMessageResult::Success(success) => assert!(success.users_to_notify.contains(&BOB)),
        other => panic!("unexpected {:?}", other),
    }
    assert_eq!(group.members.get(BOB).unwrap().mentions.len(), 1);
}

#[test]
fn refused_messages_change_nothing() {
    let mut group = group();
    let events = group.events.main.events.len();
    assert!(matches!(
        group.send_message(77, None, 1, text("hi"), None, Vec::new(), false, None, PROPOSALS_BOT, 2000),
        SendMessageResult::UserNotInGroup
    ));
    assert!(matches!(
        group.send_message(BOB, None, 1, text(""), None, Vec::new(), false, None, PROPOSALS_BOT, 2000),
        SendMessageResult::MessageEmpty
    ));
    let long = "x".repeat(5001);
    assert!(matches!(
        group.send_message(BOB, None, 1, text(&long), None, Vec::new(), false, None, PROPOSALS_BOT, 2000),
        SendMessageResult::TextTooLong(5000)
    ));
    assert!(matches!(
        group.send_message(BOB, Some(5), 1, text("hi"), None, Vec::new(), false, None, PROPOSALS_BOT, 2000),
        SendMessageResult::ThreadMessageNotFound
    ));
    let i = group.members.find(BOB).unwrap();
    group.members.members[i].suspended.value = true;
    assert!(matches!(
        group.send_message(BOB, None, 1, text("hi"), None, Vec::new(), false, None, PROPOSALS_BOT, 2000),
        SendMessageResult::UserSuspended
    ));
    assert_eq!(group.events.main.events.len(), events);
    assert!(group.members.get(ALICE).unwrap().mentions.is_empty());
}

#[test]
fn text_of_exactly_the_limit_is_sent() {
    let mut group = group();
    let body = "x".repeat(5000);
    send(&mut group, BOB, 1, &body, 2000);
}

#[test]
fn permission_refusals() {
    let mut group = group();
    group.permissions.send_messages = GroupPermissionRole::Admins;
    assert!(matches!(
        group.send_message(BOB, None, 1, text("hi"), None, Vec::new(), false, None, PROPOSALS_BOT, 2000),
        SendMessageResult::NotAuthorized
    ));
    let root = send(&mut group, ALICE, 2, "root", 2000).message_event.event.message_index;
    group.permissions.reply_in_thread = GroupPermissionRole::Owner;
    assert!(matches!(
        group.send_message(ALICE, Some(root), 3, text("hi"), None, Vec::new(), false, None, PROPOSALS_BOT, 2100),
        SendMessageResult::NotAuthorized
    ));
    group.permissions.create_polls = GroupPermissionRole::Owner;
    let poll = MessageContent::Poll {
        config: PollConfig { text: "tea?".to_string(), options: vec!["yes".to_string(), "no".to_string()], end_date: None },
    };
    assert!(matches!(
        group.send_message(ALICE, None, 4, poll, None, Vec::new(), false, None, PROPOSALS_BOT, 2200),
        SendMessageResult::NotAuthorized
    ));
}

#[test]
fn invalid_polls() {
    let mut group = group();
    let poll = |options: Vec<String>, end_date: Option<u64>| MessageContent::Poll {
        config: PollConfig { text: "tea?".to_string(), options, end_date },
    };
    let many: Vec<String> = (0..11).map(|i| format!("option {}", i)).collect();
    let cases = vec![
        (poll(vec!["only".to_string()], None), InvalidPollReason::TooFewOptions(2)),
        (poll(many, None), InvalidPollReason::TooManyOptions(10)),
        (poll(vec!["a".repeat(101), "b".to_string()], None), InvalidPollReason::OptionTooLong(100)),
        (poll(vec!["a".to_string(), "b".to_string()], Some(2000)), InvalidPollReason::EndDateInThePast),
    ];
    for (content, reason) in cases {
        match group.send_message(BOB, None, 1, content, None, Vec::new(), false, None, PROPOSALS_BOT, 2000) {
            SendMessageResult::InvalidPoll(found) => assert_eq!(found, reason),
            other => panic!("unexpected {:?}", other),
        }
    }
    let good = poll(vec!["a".to_string(), "b".to_string()], Some(2001));
    assert!(matches!(
        group.send_message(BOB, None, 1, good, None, Vec::new(), false, None, PROPOSALS_BOT, 2000),
        SendMessageResult::Success(_)
    ));
}

#[test]
fn invalid_requests_say_why() {
    let mut group = group();
    let transfer = |status| CryptoTransaction { status, recipient: BOB, amount: 5 };
    let expect = |result: SendMessageResult, reason: &str| match result {
        SendMessageResult::InvalidRequest(found) => assert_eq!(found, reason),
        other => panic!("unexpected {:?}", other),
    };
    expect(
        group.send_message(
            ALICE,
            None,
            1,
            MessageContent::Crypto { transfer: transfer(TransferStatus::Pending), caption: String::new() },
            None,
            Vec::new(),
            false,
            None,
            PROPOSALS_BOT,
            2000,
        ),
        "The crypto transaction must be completed",
    );
    expect(
        group.send_message(
            ALICE,
            None,
            1,
            MessageContent::Crypto { transfer: transfer(TransferStatus::Completed), caption: String::new() },
            None,
            Vec::new(),
            true,
            None,
            PROPOSALS_BOT,
            2000,
        ),
        "Cannot forward this type of message",
    );
    expect(
        group.send_message(
            ALICE,
            None,
            1,
            MessageContent::Prize {
                transfer: transfer(TransferStatus::Completed),
                end_date: 2000,
                caption: String::new(),
            },
            None,
            Vec::new(),
            false,
            None,
            PROPOSALS_BOT,
            2000,
        ),
        "Prize ended in the past",
    );
    expect(
        group.send_message(
            ALICE,
            None,
            1,
            MessageContent::GovernanceProposal { governance_canister_id: 7, proposal_id: 1 },
            None,
            Vec::new(),
            false,
            None,
            PROPOSALS_BOT,
            2000,
        ),
        "User unauthorized to send proposal messages",
    );
    expect(
        group.send_message(
            ALICE,
            None,
            1,
            MessageContent::Deleted { deleted_by: ALICE, timestamp: 1 },
            None,
            Vec::new(),
            false,
            None,
            PROPOSALS_BOT,
            2000,
        ),
        "User unauthorized to send messages of this type",
    );
    assert!(matches!(
        group.send_message(
            ALICE,
            None,
            1,
            MessageContent::Crypto { transfer: transfer(TransferStatus::Completed), caption: String::new() },
            None,
            Vec::new(),
            false,
            None,
            PROPOSALS_BOT,
            2000,
        ),
        SendMessageResult::Success(_)
    ));
    assert!(matches!(
        group.send_message(
            BOB,
            None,
            2,
            MessageContent::File { caption: String::new(), blob_id: None },
            None,
            Vec::new(),
            false,
            None,
            PROPOSALS_BOT,
            2000,
        ),
        SendMessageResult::MessageEmpty
    ));
}

#[test]
fn rules_must_be_accepted() {
    let mut group = group();
    group.rules.update(UpdatedRules { text: "be kind".to_string(), enabled: true, new_version: true });
    assert_eq!(group.rules.text.version, 1);
    let events = group.events.main.events.len();
    assert!(matches!(
        group.send_message(BOB, None, 1, text("hi"), None, Vec::new(), false, None, PROPOSALS_BOT, 2000),
        SendMessageResult::RulesNotAccepted
    ));
    assert!(matches!(
        group.send_message(BOB, None, 1, text("hi"), None, Vec::new(), false, Some(0), PROPOSALS_BOT, 2000),
        SendMessageResult::RulesNotAccepted
    ));
    assert_eq!(group.members.get(BOB).unwrap().rules_accepted.map(|a| a.value), None);
    assert_eq!(group.events.main.events.len(), events);
    assert!(matches!(
        group.send_message(BOB, None, 1, text("hi"), None, Vec::new(), false, Some(1), PROPOSALS_BOT, 2000),
        SendMessageResult::Success(_)
    ));
    let accepted = group.members.get(BOB).unwrap().rules_accepted.unwrap();
    assert_eq!((accepted.value, accepted.timestamp), (1, 2000));
    assert!(matches!(
        group.send_message(BOB, None, 2, text("again"), None, Vec::new(), false, None, PROPOSALS_BOT, 2100),
        SendMessageResult::Success(_)
    ));
}

#[test]
fn message_is_recorded_as_sent() {
    let mut group = group();
    let success = send(&mut group, BOB, 42, "hello", 2000);
    let event = &group.events.main.events[success.message_event.index as usize];
    assert_eq!(event.index, success.message_event.index);
    assert_eq!(event.timestamp, 2000);
    match &event.event {
        ChatEventInternal::Message(message) => {
            assert_eq!(message.message_id, 42);
            assert_eq!(message.sender, BOB);
            assert_eq!(message.message_index, 0);
            assert!(message.reactions.is_empty());
            assert!(message.deleted_by.is_none());
            assert!(message.thread_summary.is_none());
            assert!(!message.forwarded);
        },
        other => panic!("unexpected {:?}", other),
    }
}

#[test]
fn a_transfer_of_nothing_is_refused_like_any_message_before_its_content_is_read() {
    let mut group = group();
    let i = group.members.find(DAVE).unwrap();
    group.members.members[i].suspended.value = true;
    let nothing = || MessageContent::Crypto {
        transfer: CryptoTransaction { status: TransferStatus::Completed, recipient: BOB, amount: 0 },
        caption: String::new(),
    };
    let events = group.events.main.events.len();
    let stranger = group.send_message(77, None, 1, nothing(), None, Vec::new(), false, None, PROPOSALS_BOT, 2000);
    assert!(matches!(stranger, SendMessageResult::UserNotInGroup));
    let suspended = group.send_message(DAVE, None, 2, nothing(), None, Vec::new(), false, None, PROPOSALS_BOT, 2000);
    assert!(matches!(suspended, SendMessageResult::UserSuspended));
    match group.send_message(ALICE, None, 3, nothing(), None, Vec::new(), true, None, PROPOSALS_BOT, 2000) {
        SendMessageResult::InvalidRequest(found) => assert_eq!(found, "Cannot forward this type of message"),
        other => panic!("unexpected {:?}", other),
    }
    assert_eq!(group.events.main.events.len(), events);
}

#[test]
fn nobody_accepts_rules_that_are_yet_to_come() {
    let mut group = group();
    group.rules.update(UpdatedRules { text: "be kind".to_string(), enabled: true, new_version: true });
    assert_eq!(group.rules.text.version, 1);
    assert!(matches!(
        group.send_message(CAROL, None, 1, text("hi"), None, Vec::new(), false, Some(7), PROPOSALS_BOT, 2000),
        SendMessageResult::Success(_)
    ));
    let accepted = group.members.get(CAROL).unwrap().rules_accepted.unwrap();
    assert_eq!((accepted.value, accepted.timestamp), (1, 2000));
    assert!(group.is_well_formed());
    let i = group.members.find(CAROL).unwrap();
    group.members.members[i].rules_accepted.as_mut().unwrap().value = 2;
    assert!(!group.is_well_formed());
}
