//! What holds of the group whatever commands it is given.

use vstd::prelude::*;
use crate::event_list::{lemma_floor, lemma_pushed_places, ChatEventsList};
use crate::events::ChatEventInternal;
use crate::expiry::{evicted, RemoveExpiredEventsResult};
use crate::known_threads::{holds, lemma_evicted_keeps_known};
use crate::group::{pin_message_post, unpin_message_post, GroupChatCore};
use crate::members::{add_thread_post, lemma_owner_counted, lemma_owners_remove, lemma_owners_update, GroupMembers};
use crate::membership::{change_role_post, invite_users_post, leave_post, remove_member_post};
use crate::messages::delete_one_post;
use crate::reader::{lemma_scan_count, lemma_window_grow, scan_count, scan_origin, scanned, windowed};
use crate::results::{
    DeleteMessageResult, FollowThreadResult, InvitedUsersResult, LeaveResult, PinUnpinMessageResult,
    RemoveMemberResult, UnfollowThreadResult, UpdateSuccessResult,
};
use crate::members::ChangeRoleResult;
use crate::seq_util::{lemma_first_match, lemma_without};
use crate::sorted_set::strictly_ascending;
use crate::threads::{follow_post, unfollow_post};
use crate::types::{EventIndex, GroupRole, MessageId, MessageIndex, TimestampMillis, UserId};
use crate::update::{do_update_post, UpdateRequest};

verus! {

/// The pinned messages of a well-formed group are strictly ascending, and
/// a time of the last pin is on record exactly while a message is pinned.
pub proof fn lemma_pinned_messages(group: GroupChatCore)
    requires
        group.wf(),
    ensures
        strictly_ascending(group.pinned_messages@),
        group.pinned_messages@.len() == 0 <==> group.date_last_pinned is None,
{
}

/// Pinning keeps the pinned messages strictly ascending and the time of
/// the last pin in step with them.
pub proof fn lemma_pin_keeps_order(
    pre: GroupChatCore,
    user_id: UserId,
    message_index: MessageIndex,
    now: TimestampMillis,
    post: GroupChatCore,
    r: PinUnpinMessageResult,
)
    requires
        pre.wf(),
        pin_message_post(pre, user_id, message_index, now, post, r),
    ensures
        strictly_ascending(post.pinned_messages@),
        post.pinned_messages@.len() == 0 <==> post.date_last_pinned is None,
{
    if r is Success {
        assert(post.pinned_messages@.contains(message_index));
    }
}

/// Unpinning keeps the pinned messages strictly ascending and the time of
/// the last pin in step with them.
pub proof fn lemma_unpin_keeps_order(
    pre: GroupChatCore,
    user_id: UserId,
    message_index: MessageIndex,
    now: TimestampMillis,
    post: GroupChatCore,
    r: PinUnpinMessageResult,
)
    requires
        pre.wf(),
        unpin_message_post(pre, user_id, message_index, now, post, r),
    ensures
        strictly_ascending(post.pinned_messages@),
        post.pinned_messages@.len() == 0 <==> post.date_last_pinned is None,
{
    if r is Success && post.pinned_messages@.len() > 0 {
        assert(post.pinned_messages@.contains(post.pinned_messages@[0]));
        assert(pre.pinned_messages@.contains(post.pinned_messages@[0]));
    }
}

/// Deleting a message keeps the pinned messages strictly ascending and the
/// time of the last pin in step with them.
pub proof fn lemma_delete_keeps_order(
    pre: GroupChatCore,
    caller: UserId,
    is_admin: bool,
    min_visible_event_index: EventIndex,
    thread_root: Option<MessageIndex>,
    message_id: MessageId,
    now: TimestampMillis,
    post: GroupChatCore,
    r: DeleteMessageResult,
)
    requires
        pre.wf(),
        delete_one_post(pre, caller, is_admin, min_visible_event_index, thread_root, message_id, now, post, r),
    ensures
        strictly_ascending(post.pinned_messages@),
        post.pinned_messages@.len() == 0 <==> post.date_last_pinned is None,
{
    if post.pinned_messages@.len() > 0 {
        assert(post.pinned_messages@.contains(post.pinned_messages@[0]));
    }
}

/// Every event that a scan hands out lies at or above the reader's lower
/// bound.
pub proof fn lemma_scanned_is_visible(
    list: ChatEventsList,
    min_visible_event_index: EventIndex,
    start: EventIndex,
    ascending: bool,
    max_messages: u32,
    max_events: u32,
)
    requires
        list.wf(),
    ensures
        forall|k: int|
            0 <= k < scanned(list, min_visible_event_index, start, ascending, max_messages, max_events).len()
                ==> (#[trigger] scanned(
                list,
                min_visible_event_index,
                start,
                ascending,
                max_messages,
                max_events,
            )[k]).index >= min_visible_event_index,
{
    let s = list.events@;
    let origin = scan_origin(list, min_visible_event_index, start, ascending);
    let floor = list.floor(min_visible_event_index);
    lemma_floor(list, min_visible_event_index);
    lemma_scan_count(s, origin, floor, ascending, max_messages as nat, max_events as nat);
    let n = scan_count(s, origin, floor, ascending, max_messages as nat, max_events as nat);
    if n > 0 {
        assert(origin >= floor);
    }
}

/// Every event that a window hands out lies at or above the reader's
/// lower bound.
pub proof fn lemma_windowed_is_visible(
    list: ChatEventsList,
    min_visible_event_index: EventIndex,
    mid_point: MessageIndex,
    max_messages: u32,
    max_events: u32,
)
    requires
        list.wf(),
    ensures
        forall|k: int|
            0 <= k < windowed(list, min_visible_event_index, mid_point, max_messages, max_events).len() ==> (
            #[trigger] windowed(list, min_visible_event_index, mid_point, max_messages, max_events)[k]).index
                >= min_visible_event_index,
{
    lemma_floor(list, min_visible_event_index);
    match list.visible_message_position(min_visible_event_index, mid_point) {
        Some(p) => {
            if max_messages > 0 && max_events > 0 {
                let floor = list.floor(min_visible_event_index);
                lemma_first_match(list.events@, crate::event_list::with_message_index(mid_point));
                assert(p >= floor) by {
                    if p < floor {
                        assert(list.events@[p].index < min_visible_event_index);
                    }
                }
                lemma_window_grow(list.events@, floor, p, p + 1, 1, true, max_messages as nat, max_events as nat);
            }
        },
        None => {},
    }
}

/// Carrying out a request to change settings never takes the version of
/// the rules back.
pub proof fn lemma_rules_version_grows(
    pre: GroupChatCore,
    user_id: UserId,
    q: UpdateRequest,
    now: TimestampMillis,
    post: GroupChatCore,
    r: UpdateSuccessResult,
)
    requires
        do_update_post(pre, user_id, q, now, post, r),
    ensures
        post.rules.text.version >= pre.rules.text.version,
{
}

/// No member of a well-formed group has accepted a version of the rules
/// later than the one in force.
pub proof fn lemma_acceptances_in_time(group: GroupChatCore, user_id: UserId)
    requires
        group.wf(),
        group.members.contains(user_id),
    ensures
        group.members.member(user_id).rules_accepted matches Some(accepted) ==> accepted.value
            <= group.rules.text.version,
{
    lemma_first_match(group.members.members@, crate::members::is_user(user_id));
    assert(crate::group::accepted_by_now(
        group.members.members@[group.members.position(user_id)].rules_accepted,
        group.rules.text.version,
    ));
}

/// An event that a log of the group holds and that was recorded after
/// `since` is an update for everyone.
pub proof fn lemma_new_event_is_update(
    group: GroupChatCore,
    user_id: Option<UserId>,
    since: TimestampMillis,
    thread_root: Option<MessageIndex>,
    i: int,
)
    requires
        group.wf(),
        thread_root matches Some(root) ==> group.events.has_thread(root),
        0 <= i < group.events.log(thread_root).events@.len(),
        group.events.log(thread_root).events@[i].timestamp > since,
    ensures
        group.spec_has_updates_since(user_id, since),
{
    match thread_root {
        Some(root) => {
            lemma_first_match(group.events.threads@, crate::chat_events::rooted_at(root));
            let t = group.events.thread_position(root);
            assert(crate::chat_events::none_later(
                group.events.threads@[t].list.events@,
                group.events.latest_event_timestamp,
            ));
        },
        None => {},
    }
    assert(group.events.log(thread_root).events@[i].timestamp <= group.events.latest_event_timestamp);
}

/// A well-formed group has an owner.
pub proof fn lemma_group_has_owner(group: GroupChatCore)
    requires
        group.wf(),
    ensures
        group.members.spec_owner_count() >= 1,
{
}

/// Leaving does not take the last owner away.
pub proof fn lemma_leave_keeps_owner(
    pre: GroupChatCore,
    user_id: UserId,
    now: TimestampMillis,
    post: GroupChatCore,
    r: LeaveResult,
)
    requires
        pre.wf(),
        leave_post(pre, user_id, now, post, r),
    ensures
        post.members.spec_owner_count() >= 1,
{
    if r is Success {
        lemma_first_match(pre.members.members@, crate::members::is_user(user_id));
        lemma_owners_remove(pre.members.members@, pre.members.position(user_id));
    }
}

/// Removing a member does not take the last owner away.
pub proof fn lemma_remove_member_keeps_owner(
    pre: GroupChatCore,
    user_id: UserId,
    target_user_id: UserId,
    block: bool,
    now: TimestampMillis,
    post: GroupChatCore,
    r: RemoveMemberResult,
)
    requires
        pre.wf(),
        remove_member_post(pre, user_id, target_user_id, block, now, post, r),
    ensures
        post.members.spec_owner_count() >= 1,
{
    if r == RemoveMemberResult::Success && pre.members.contains(target_user_id) {
        let members = pre.members.members@;
        let t = pre.members.position(target_user_id);
        lemma_first_match(members, crate::members::is_user(target_user_id));
        lemma_first_match(members, crate::members::is_user(user_id));
        lemma_owners_remove(members, t);
        if members[t].role == GroupRole::Owner {
            let c = pre.members.position(user_id);
            assert(members[c].role == GroupRole::Owner);
            let c1 = if c < t { c } else { c - 1 };
            assert(members.remove(t)[c1] == members[c]);
            lemma_owner_counted(members.remove(t), c1);
        }
    }
}

/// Changing a role does not take the last owner away.
pub proof fn lemma_change_role_keeps_owner(
    pre: GroupChatCore,
    caller: UserId,
    target_user: UserId,
    new_role: GroupRole,
    is_caller_platform_moderator: bool,
    is_user_platform_moderator: bool,
    now: TimestampMillis,
    post: GroupChatCore,
    r: ChangeRoleResult,
)
    requires
        pre.wf(),
        change_role_post(
            pre,
            caller,
            target_user,
            new_role,
            is_caller_platform_moderator,
            is_user_platform_moderator,
            now,
            post,
            r,
        ),
    ensures
        post.members.spec_owner_count() >= 1,
{
    if r is Success {
        let i = pre.members.position(target_user);
        lemma_first_match(pre.members.members@, crate::members::is_user(target_user));
        lemma_owners_update(pre.members.members@, i, post.members.members@[i]);
    }
}

/// A message that was deleted is not pinned afterwards; if it was pinned
/// before, the last event of the log records the unpinning as due to the
/// deletion.
pub proof fn lemma_deleted_message_is_unpinned(
    pre: GroupChatCore,
    caller: UserId,
    is_admin: bool,
    min_visible_event_index: EventIndex,
    message_id: MessageId,
    now: TimestampMillis,
    post: GroupChatCore,
    r: DeleteMessageResult,
)
    requires
        pre.wf(),
        delete_one_post(pre, caller, is_admin, min_visible_event_index, None, message_id, now, post, r),
        r is Success,
    ensures
        !post.pinned_messages@.contains(pre.deleted_index(min_visible_event_index, message_id)),
        pre.pinned_messages@.contains(pre.deleted_index(min_visible_event_index, message_id)) ==> post.events.main.events@.last().event
            == (ChatEventInternal::MessageUnpinned {
            message_index: pre.deleted_index(min_visible_event_index, message_id),
            unpinned_by: caller,
            due_to_message_deleted: true,
        }),
{
}

/// After an eviction no member has an expired thread among those
/// followed or those unfollowed.
pub proof fn lemma_expired_threads_forgotten(
    pre: GroupChatCore,
    now: TimestampMillis,
    post: GroupChatCore,
    r: RemoveExpiredEventsResult,
    j: int,
    k: int,
)
    requires
        pre.wf(),
        evicted(pre, now, post, r),
        0 <= j < post.members.members@.len(),
        0 <= k < r.threads@.len(),
    ensures
        !post.members.members@[j].follows_thread(r.threads@[k].root_message_index),
        !post.members.members@[j].has_unfollowed(r.threads@[k].root_message_index),
{
    lemma_evicted_keeps_known(pre, now, post, r);
    assert(!holds(post.members.members@[j], r.threads@[k].root_message_index));
}

/// Pinning a message that has just been pinned changes nothing.
pub proof fn lemma_pin_twice(
    s0: GroupChatCore,
    user_id: UserId,
    message_index: MessageIndex,
    now1: TimestampMillis,
    s1: GroupChatCore,
    r1: PinUnpinMessageResult,
    now2: TimestampMillis,
    s2: GroupChatCore,
    r2: PinUnpinMessageResult,
)
    requires
        s0.wf(),
        pin_message_post(s0, user_id, message_index, now1, s1, r1),
        r1 is Success,
        pin_message_post(s1, user_id, message_index, now2, s2, r2),
    ensures
        r2 == PinUnpinMessageResult::NoChange,
        s2 == s1,
{
    assert(s1.events.main.events@.drop_last() == s0.events.main.events@);
    lemma_pushed_places(s0.events.main, s1.events.main);
    let min = s0.members.member(user_id).min_visible_event_index;
    assert(s1.events.main.visible_message_position(min, message_index) == s0.events.main.visible_message_position(
        min,
        message_index,
    ));
}

/// Following a thread that has just been followed changes nothing.
pub proof fn lemma_follow_twice(
    s0: GroupChatCore,
    user_id: UserId,
    root: MessageIndex,
    now1: TimestampMillis,
    s1: GroupChatCore,
    r1: FollowThreadResult,
    now2: TimestampMillis,
    s2: GroupChatCore,
    r2: FollowThreadResult,
)
    requires
        s0.wf(),
        follow_post(s0, user_id, root, now1, s1, r1),
        r1 is Success,
        follow_post(s1, user_id, root, now2, s2, r2),
    ensures
        r2 == FollowThreadResult::AlreadyFollowing,
        s2 == s1,
{
    lemma_first_match(s0.members.members@, crate::members::is_user(user_id));
    crate::members::lemma_same_users(s0.members.members@, s1.members.members@);
}

/// Unfollowing a thread that has just been followed succeeds and takes
/// the thread out of those that the member follows; after that, taking
/// part in the thread does not make the member follow it again.
pub proof fn lemma_unfollow_is_sticky(
    s0: GroupChatCore,
    user_id: UserId,
    root: MessageIndex,
    now1: TimestampMillis,
    s1: GroupChatCore,
    r1: FollowThreadResult,
    now2: TimestampMillis,
    s2: GroupChatCore,
    r2: UnfollowThreadResult,
    joined: GroupMembers,
)
    requires
        s0.wf(),
        follow_post(s0, user_id, root, now1, s1, r1),
        r1 is Success,
        unfollow_post(s1, user_id, root, now2, s2, r2),
        add_thread_post(s2.members, user_id, root, joined),
    ensures
        r2 == UnfollowThreadResult::Success,
        s2.members.contains(user_id),
        !s2.members.member(user_id).follows_thread(root),
        s2.members.member(user_id).has_unfollowed(root),
        joined == s2.members,
{
    lemma_first_match(s0.members.members@, crate::members::is_user(user_id));
    crate::members::lemma_same_users(s0.members.members@, s1.members.members@);
    crate::members::lemma_same_users(s1.members.members@, s2.members.members@);
    let member = s1.members.member(user_id);
    lemma_without(member.threads@, root);
    crate::thread_summary::lemma_push_contains(member.unfollowed_threads@, root);
}

/// Inviting users who are all members or invited already changes nothing.
pub proof fn lemma_invite_known_users(
    pre: GroupChatCore,
    invited_by: UserId,
    user_ids: Vec<UserId>,
    now: TimestampMillis,
    post: GroupChatCore,
    r: InvitedUsersResult,
)
    requires
        invite_users_post(pre, invited_by, user_ids, now, post, r),
        forall|i: int|
            0 <= i < user_ids@.len() ==> pre.members.contains(#[trigger] user_ids@[i])
                || pre.invited_users.spec_contains(user_ids@[i]),
    ensures
        post == pre,
{
    lemma_no_new_invitees(pre, user_ids@, user_ids@.len() as int);
}

/// Among users who are all members or invited already, nobody is new.
proof fn lemma_no_new_invitees(group: GroupChatCore, user_ids: Seq<UserId>, k: int)
    requires
        0 <= k <= user_ids.len(),
        forall|i: int|
            0 <= i < user_ids.len() ==> group.members.contains(#[trigger] user_ids[i])
                || group.invited_users.spec_contains(user_ids[i]),
    ensures
        group.new_invitees(user_ids, k).len() == 0,
    decreases k,
{
    if k > 0 {
        lemma_no_new_invitees(group, user_ids, k - 1);
        assert(group.members.contains(user_ids[k - 1]) || group.invited_users.spec_contains(user_ids[k - 1]));
    }
}

} // verus!
