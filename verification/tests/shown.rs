use group_chat_core::group::GroupChatCore;
use group_chat_core::members::AddResult;
use group_chat_core::message::MessageContent;
use group_chat_core::results::{SendMessageResult, SendMessageSuccess};
use group_chat_core::types::{GroupPermissionRole, GroupPermissions, GroupRole, Rules};
use group_chat_core::events::ChatEventInternal;
use group_chat_core::results::{
    AddRemoveReactionResult, DeleteMessagesResult, DeletedMessageResult, EventsResult, MessagesResult,
    ThreadPreviewsResult, UndeleteMessagesResult,
};
use group_chat_core::shown::{ChatEvent, EventWrapper, Message};

fn permissions() -> GroupPermissions {
    GroupPermissions {
        change_permissions: GroupPermissionRole::Owner,
        change_roles: GroupPermissionRole::Admins,
        add_members: GroupPermissionRole::Owner,
        remove_members: GroupPermissionRole::Moderators,
        block_users: GroupPermissionRole::Owner,
        delete_messages: GroupPermissionRole::Moderators,
        update_group: GroupPermissionRole::Admins,
        pin_messages: GroupPermissionRole::Admins,
        invite_users: GroupPermissionRole::Admins,
        create_polls: GroupPermissionRole::Members,
        send_messages: GroupPermissionRole::Members,
        react_to_messages: GroupPermissionRole::Members,
        reply_in_thread: GroupPermissionRole::Members,
        mention_all_members: GroupPermissionRole::Admins,
    }
}

fn new_group(owner: u64, is_public: bool, now: u64) -> GroupChatCore {
    GroupChatCore::new(
        owner,
        is_public,
        "Tea lovers".to_string(),
        "All about tea".to_string(),
        Rules { text: String::new(), enabled: false },
        None,
        None,
        true,
        permissions(),
        None,
        None,
        false,
        now,
    )
}

fn join(group: &mut GroupChatCore, user: u64, role: GroupRole, now: u64) {
    let min_event = 0;
    assert_eq!(group.members.add(user, now, min_event, 0, false, false), AddResult::Success);
    let i = group.members.find(user).unwrap();
    group.members.members[i].role = role;
}

fn text(body: &str) -> MessageContent {
    MessageContent::Text { text: body.to_string() }
}

fn send(group: &mut GroupChatCore, sender: u64, id: u128, body: &str, now: u64) -> SendMessageSuccess {
    match group.send_message(sender, None, id, text(body), None, Vec::new(), false, None, PROPOSALS_BOT, now) {
        SendMessageResult::Success(success) => success,
        other => panic!("message was not sent: {:?}", other),
    }
}

fn reply(group: &mut GroupChatCore, sender: u64, root: u32, id: u128, body: &str, now: u64) -> SendMessageSuccess {
    match group.send_message(sender, Some(root), id, text(body), None, Vec::new(), false, None, PROPOSALS_BOT, now) {
        SendMessageResult::Success(success) => success,
        other => panic!("reply was not sent: {:?}", other),
    }
}

const PROPOSALS_BOT: u64 = 999;
const OWNER: u64 = 1;
const ALICE: u64 = 2;
const BOB: u64 = 3;
const CAROL: u64 = 4;
const DAVE: u64 = 5;

fn group() -> GroupChatCore {
    let mut group = new_group(OWNER, false, 1000);
    join(&mut group, ALICE, GroupRole::Admin, 1001);
    join(&mut group, BOB, GroupRole::Participant, 1002);
    join(&mut group, CAROL, GroupRole::Participant, 1003);
    group
}

fn shown_events(group: &GroupChatCore, reader: u64) -> Vec<EventWrapper<ChatEvent<'_>>> {
    match group.events(Some(reader), None, 0, true, 100, 100, None, 9000) {
        EventsResult::Success(response) => response.events,
        other => panic!("unexpected {:?}", other),
    }
}

fn message_of<'a, 'b>(entry: &'b EventWrapper<ChatEvent<'a>>) -> &'b Message {
    match &entry.event {
        ChatEvent::Message(message) => message,
        other => panic!("unexpected {:?}", other),
    }
}

fn text_of(content: &MessageContent) -> &str {
    match content {
        MessageContent::Text { text } => text,
        other => panic!("unexpected {:?}", other),
    }
}

#[test]
fn sending_hands_back_the_message_as_its_sender_is_shown_it() {
    let mut group = group();
    let success = send(&mut group, BOB, 10, "hello", 2000);
    let entry = &success.message_event;
    assert_eq!((entry.index, entry.timestamp, entry.expires_at), (1, 2000, None));
    assert_eq!(entry.event.message_index, 0);
    assert_eq!(entry.event.message_id, 10);
    assert_eq!(entry.event.sender, BOB);
    assert_eq!(text_of(&entry.event.content), "hello");
    assert!(entry.event.reactions.is_empty());
    assert!(entry.event.tips.is_empty());
    assert!(entry.event.thread_summary.is_none());
    assert!(!entry.event.forwarded);
    assert_eq!(entry.event.replies_to, None);
    assert_eq!(entry.event.last_updated, None);

    let first = reply(&mut group, CAROL, 0, 20, "in the thread", 2100);
    assert_eq!((first.message_event.index, first.message_event.event.message_index), (0, 0));
    assert_eq!(text_of(&first.message_event.event.content), "in the thread");
    assert_eq!(first.message_event.event.sender, CAROL);
    let second = reply(&mut group, ALICE, 0, 21, "again", 2200);
    assert_eq!((second.message_event.index, second.message_event.event.message_index), (1, 1));
    assert_eq!(second.message_event.event.message_id, 21);
}

#[test]
fn events_other_than_messages_are_shown_as_recorded() {
    let mut group = group();
    send(&mut group, BOB, 10, "hello", 2000);
    let events = shown_events(&group, BOB);
    assert_eq!(events.len(), 2);
    assert_eq!((events[0].index, events[0].timestamp), (0, 1000));
    match &events[0].event {
        ChatEvent::Other(ChatEventInternal::GroupChatCreated { created_by, .. }) => assert_eq!(*created_by, OWNER),
        other => panic!("unexpected {:?}", other),
    }
    assert_eq!(text_of(&message_of(&events[1]).content), "hello");
}

#[test]
fn a_deleted_message_is_shown_without_its_content() {
    let mut group = group();
    send(&mut group, BOB, 10, "a secret", 2000);
    send(&mut group, CAROL, 11, "plain", 2001);
    match group.delete_messages(BOB, None, vec![10], false, 3000) {
        DeleteMessagesResult::Success(results) => assert_eq!(results.len(), 1),
        other => panic!("unexpected {:?}", other),
    }
    for reader in [OWNER, ALICE, BOB, CAROL] {
        let events = shown_events(&group, reader);
        match &message_of(&events[1]).content {
            MessageContent::Deleted { deleted_by, timestamp } => assert_eq!((*deleted_by, *timestamp), (BOB, 3000)),
            other => panic!("unexpected {:?}", other),
        }
        assert_eq!(message_of(&events[1]).message_id, 10);
        assert_eq!(message_of(&events[1]).last_updated, Some(3000));
        assert_eq!(text_of(&message_of(&events[2]).content), "plain");
    }
    match group.messages_by_message_index(Some(CAROL), None, vec![1, 0], None, 9000) {
        MessagesResult::Success(response) => {
            assert_eq!(response.messages.len(), 2);
            assert_eq!(text_of(&response.messages[0].event.content), "plain");
            assert!(matches!(response.messages[1].event.content, MessageContent::Deleted { deleted_by: BOB, .. }));
        },
        other => panic!("unexpected {:?}", other),
    }
    match group.deleted_message(BOB, None, 10) {
        DeletedMessageResult::Success(content) => assert_eq!(text_of(content), "a secret"),
        other => panic!("unexpected {:?}", other),
    }
    assert_eq!(text_of(&group.events.main.events[1].as_message().unwrap().content), "a secret");
}

#[test]
fn restored_messages_come_back_as_the_caller_is_shown_them() {
    let mut group = group();
    send(&mut group, BOB, 10, "first", 2000);
    send(&mut group, BOB, 11, "second", 2001);
    send(&mut group, CAROL, 12, "third", 2002);
    assert!(matches!(group.delete_messages(BOB, None, vec![10, 11], false, 3000), DeleteMessagesResult::Success(_)));
    match group.undelete_messages(BOB, None, vec![11, 12, 99, 10], 4000) {
        UndeleteMessagesResult::Success(restored) => {
            assert_eq!(restored.len(), 2);
            assert_eq!((restored[0].message_id, restored[0].message_index), (11, 1));
            assert_eq!(text_of(&restored[0].content), "second");
            assert_eq!(restored[0].last_updated, Some(4000));
            assert_eq!((restored[1].message_id, restored[1].message_index), (10, 0));
            assert_eq!(text_of(&restored[1].content), "first");
            assert_eq!(restored[1].sender, BOB);
        },
        other => panic!("unexpected {:?}", other),
    }
    match group.undelete_messages(BOB, Some(7), vec![10], 4100) {
        UndeleteMessagesResult::Success(restored) => assert!(restored.is_empty()),
        other => panic!("unexpected {:?}", other),
    }
}

#[test]
fn the_summary_of_a_thread_says_whether_the_reader_follows_it() {
    let mut group = group();
    send(&mut group, ALICE, 10, "root", 2000);
    reply(&mut group, BOB, 0, 20, "a reply", 2100);
    for (reader, follows) in [(ALICE, true), (BOB, true), (CAROL, false), (OWNER, false)] {
        let events = shown_events(&group, reader);
        let summary = message_of(&events[1]).thread_summary.as_ref().unwrap();
        assert_eq!(summary.followed_by_me, follows);
        assert_eq!(summary.participant_ids, vec![BOB]);
        assert_eq!(summary.reply_count, 1);
        assert_eq!((summary.latest_event_index, summary.latest_event_timestamp), (0, 2100));
    }
    match group.thread_previews(CAROL, vec![0], None, 5000) {
        ThreadPreviewsResult::Success(previews) => {
            assert_eq!(previews.len(), 1);
            assert!(!previews[0].root_message.event.thread_summary.as_ref().unwrap().followed_by_me);
            assert_eq!(text_of(&previews[0].latest_replies[0].event.content), "a reply");
        },
        other => panic!("unexpected {:?}", other),
    }
}

#[test]
fn reactions_are_shown_with_the_message() {
    let mut group = group();
    send(&mut group, BOB, 10, "hello", 2000);
    assert_eq!(group.add_reaction(ALICE, None, 10, "+1".to_string(), 3000), AddRemoveReactionResult::Success);
    assert_eq!(group.add_reaction(CAROL, None, 10, "+1".to_string(), 3001), AddRemoveReactionResult::Success);
    assert_eq!(group.add_reaction(CAROL, None, 10, "tea".to_string(), 3002), AddRemoveReactionResult::Success);
    let events = shown_events(&group, BOB);
    let message = message_of(&events[1]);
    assert_eq!(message.reactions.len(), 2);
    assert_eq!((message.reactions[0].reaction.as_str(), &message.reactions[0].users), ("+1", &vec![ALICE, CAROL]));
    assert_eq!((message.reactions[1].reaction.as_str(), &message.reactions[1].users), ("tea", &vec![CAROL]));
    assert_eq!(message.last_updated, Some(3002));
}
