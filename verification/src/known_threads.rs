//! The threads of which members keep track are threads that the log
//! knows them to be involved in. This is part of what makes a group well
//! formed: it holds of a new group and is kept by every command, and with
//! it no member is left holding a thread that has expired.

use vstd::prelude::*;
use crate::chat_events::{main_event_pushed, ChatEvents};
use crate::events::EventWrapperInternal;
use crate::expiry::{
    evicted, is_expired_root, kept, lemma_cleared, member_cleared, threads_reported, ExpiredThread,
    RemoveExpiredEventsResult,
};
use crate::group::{pin_message_post, unpin_message_post, GroupChatCore};
use crate::lifecycle::{delete_message_post, edited_at, follow_thread_post, undelete_message_post, TipMessageArgs};
use crate::members::{ChangeRoleResult, GroupMemberInternal};
use crate::membership::{add_participants_post, change_role_post, invite_users_post, leave_post, remove_member_post};
use crate::message::{FollowChoice, GroupReplyContext, MessageContent};
use crate::messages::{
    delete_one_post, deleted_through, react_post, tip_post, undeleted_and_shown, undeleted_through,
};
use crate::shown::Message;
use crate::results::{
    AddRemoveReactionResult, DeleteMessageResult, FollowThreadResult, InvitedUsersResult, LeaveResult,
    PinUnpinMessageResult, RemoveMemberResult, SendMessageResult, TipMessageResult, UndeleteMessageResult,
    UnfollowThreadResult, UpdateSuccessResult,
};
use crate::send::send_message_post;
use crate::seq_util::{lemma_first_match, lemma_without};
use crate::thread_summary::{choice_position, lemma_push_contains, made_by, with_mentioned};
use crate::threads::{follow_post, unfollow_post};
use crate::types::{EventIndex, GroupRole, MessageId, MessageIndex, TimestampMillis, UserId, Version};
use crate::update::{do_update_post, UpdateRequest};

verus! {

/// Whether the event holds the root of the thread `root` with a summary
/// that counts `user_id` as involved.
pub open spec fn counts(w: EventWrapperInternal, root: MessageIndex, user_id: UserId) -> bool {
    &&& w.is_message()
    &&& w.message().message_index == root
    &&& w.message().thread_summary is Some
    &&& w.message().thread_summary->Some_0.is_involved(user_id)
}

/// Whether the member keeps track of the thread `root`, as one followed
/// or as one unfollowed.
pub open spec fn holds(member: GroupMemberInternal, root: MessageIndex) -> bool {
    member.follows_thread(root) || member.has_unfollowed(root)
}

impl ChatEvents {
    /// Whether the main log holds the root of the thread `root` and its
    /// summary counts `user_id` as involved.
    pub open spec fn knows(&self, root: MessageIndex, user_id: UserId) -> bool {
        exists|p: int| 0 <= p < self.main.events@.len() && counts(#[trigger] self.main.events@[p], root, user_id)
    }
}

/// Whether the later log knows every involvement that the earlier knew.
pub open spec fn keeps_threads(pre: ChatEvents, post: ChatEvents) -> bool {
    forall|root: MessageIndex, user_id: UserId| pre.knows(root, user_id) ==> #[trigger] post.knows(root, user_id)
}

/// A log keeps what it knew when every event that counted still does, at
/// the same place.
pub proof fn lemma_keeps_by_place(pre: ChatEvents, post: ChatEvents)
    requires
        post.main.events@.len() >= pre.main.events@.len(),
        forall|p: int, root: MessageIndex, user_id: UserId|
            0 <= p < pre.main.events@.len() && counts(pre.main.events@[p], root, user_id) ==> #[trigger] counts(
                post.main.events@[p],
                root,
                user_id,
            ),
    ensures
        keeps_threads(pre, post),
{
    assert forall|root: MessageIndex, user_id: UserId| pre.knows(root, user_id) implies #[trigger] post.knows(
        root,
        user_id,
    ) by {
        let p = choose|p: int| 0 <= p < pre.main.events@.len() && counts(#[trigger] pre.main.events@[p], root, user_id);
        assert(counts(post.main.events@[p], root, user_id));
    }
}

/// Appending an event keeps what the log knew.
pub proof fn lemma_appended_keeps(pre: ChatEvents, post: ChatEvents)
    requires
        post.main.events@.len() == pre.main.events@.len() + 1,
        post.main.events@.drop_last() == pre.main.events@,
    ensures
        keeps_threads(pre, post),
{
    assert forall|p: int| 0 <= p < pre.main.events@.len() implies #[trigger] post.main.events@[p]
        == pre.main.events@[p] by {
        assert(post.main.events@.drop_last()[p] == pre.main.events@[p]);
    }
    lemma_keeps_by_place(pre, post);
}

/// Changing a message in place keeps what the log knew, as long as the
/// summary of a top-level message is left alone.
pub proof fn lemma_edited_keeps(
    pre: ChatEvents,
    post: ChatEvents,
    thread_root: Option<MessageIndex>,
    p: int,
    now: TimestampMillis,
)
    requires
        edited_at(pre, post, thread_root, p, now),
        thread_root is None ==> 0 <= p < pre.main.events@.len() && pre.main.events@[p].is_message()
            && post.main.events@[p].message().thread_summary == pre.main.events@[p].message().thread_summary,
    ensures
        keeps_threads(pre, post),
{
    if thread_root is None {
        assert forall|q: int, root: MessageIndex, user_id: UserId|
            0 <= q < pre.main.events@.len() && counts(pre.main.events@[q], root, user_id) implies #[trigger] counts(
            post.main.events@[q],
            root,
            user_id,
        ) by {
            if q != p {
                assert(post.main.events@[q] == pre.main.events@[q]);
            }
        }
    }
    lemma_keeps_by_place(pre, post);
}

/// Keeping what was known carries over from step to step.
pub proof fn lemma_keeps_twice(a: ChatEvents, b: ChatEvents, c: ChatEvents)
    requires
        keeps_threads(a, b),
        keeps_threads(b, c),
    ensures
        keeps_threads(a, c),
{
    assert forall|root: MessageIndex, user_id: UserId| a.knows(root, user_id) implies #[trigger] c.knows(
        root,
        user_id,
    ) by {
        assert(b.knows(root, user_id));
    }
}

/// A user who was involved in a thread stays involved when users are
/// drawn into it, and those drawn into it are involved afterwards.
pub proof fn lemma_with_mentioned(
    followers: Seq<FollowChoice>,
    participants: Seq<UserId>,
    mentioned: Seq<UserId>,
    k: int,
    now: TimestampMillis,
)
    requires
        0 <= k <= mentioned.len(),
    ensures
        forall|u: UserId|
            choice_position(followers, u) < followers.len() ==> #[trigger] choice_position(
                with_mentioned(followers, participants, mentioned, k, now),
                u,
            ) < with_mentioned(followers, participants, mentioned, k, now).len(),
        forall|i: int|
            0 <= i < k ==> participants.contains(#[trigger] mentioned[i]) || choice_position(
                with_mentioned(followers, participants, mentioned, k, now),
                mentioned[i],
            ) < with_mentioned(followers, participants, mentioned, k, now).len(),
    decreases k,
{
    if k > 0 {
        lemma_with_mentioned(followers, participants, mentioned, k - 1, now);
        let before = with_mentioned(followers, participants, mentioned, k - 1, now);
        let after = with_mentioned(followers, participants, mentioned, k, now);
        let user_id = mentioned[k - 1];
        if after != before {
            let choice = FollowChoice { user_id, following: true, timestamp: now };
            assert(after == before.push(choice));
            assert forall|u: UserId| choice_position(before, u) < before.len() implies choice_position(after, u)
                < after.len() by {
                crate::seq_util::lemma_first_match_push(before, choice, made_by(u));
            }
            crate::seq_util::lemma_first_match_push(before, choice, made_by(user_id));
            lemma_first_match(before, made_by(user_id));
        }
        assert forall|u: UserId| choice_position(followers, u) < followers.len() implies #[trigger] choice_position(
            after,
            u,
        ) < after.len() by {
            assert(choice_position(before, u) < before.len());
        }
        assert forall|i: int| 0 <= i < k implies participants.contains(#[trigger] mentioned[i]) || choice_position(
            after,
            mentioned[i],
        ) < after.len() by {
            if i < k - 1 {
                if !participants.contains(mentioned[i]) {
                    assert(choice_position(before, mentioned[i]) < before.len());
                    if after != before {
                        let choice = FollowChoice { user_id, following: true, timestamp: now };
                        crate::seq_util::lemma_first_match_push(before, choice, made_by(mentioned[i]));
                    }
                }
            }
        }
    }
}

impl GroupChatCore {
    /// Whether the log knows every member to be involved in each thread
    /// that the member keeps track of.
    pub open spec fn threads_known(&self) -> bool {
        forall|j: int, root: MessageIndex|
            0 <= j < self.members.members@.len() && #[trigger] holds(self.members.members@[j], root)
                ==> self.events.knows(root, self.members.members@[j].user_id)
    }
}

impl ChatEvents {
    /// Whether the log knows `user_id` to be involved in the thread `root`.
    pub fn is_known(&self, root: MessageIndex, user_id: UserId) -> (r: bool)
        requires
            self.main.wf(),
        ensures
            r == self.knows(root, user_id),
    {
        proof {
            lemma_first_match(self.main.events@, crate::event_list::with_message_index(root));
        }
        match self.main.find_message(root) {
            Some(p) => {
                let involved = match self.main.events[p].as_message() {
                    Some(m) => match &m.thread_summary {
                        Some(summary) => summary.involves(user_id),
                        None => false,
                    },
                    None => false,
                };
                proof {
                    if involved {
                        assert(counts(self.main.events@[p as int], root, user_id));
                    } else {
                        assert forall|q: int| 0 <= q < self.main.events@.len() implies !counts(
                            #[trigger] self.main.events@[q],
                            root,
                            user_id,
                        ) by {
                            if q != p && counts(self.main.events@[q], root, user_id) {
                                if q < p {
                                    assert(self.main.events@[q].message().message_index
                                        < self.main.events@[p as int].message().message_index);
                                } else {
                                    assert(self.main.events@[p as int].message().message_index
                                        < self.main.events@[q].message().message_index);
                                }
                            }
                        }
                    }
                }
                involved
            },
            None => {
                proof {
                    let found = crate::event_list::with_message_index(root);
                    assert forall|q: int| 0 <= q < self.main.events@.len() implies !counts(
                        #[trigger] self.main.events@[q],
                        root,
                        user_id,
                    ) by {
                        assert(!found(self.main.events@[q]));
                    }
                }
                false
            },
        }
    }

    /// Whether the log knows `user_id` to be involved in each of the
    /// threads `roots`.
    pub fn all_known(&self, roots: &Vec<MessageIndex>, user_id: UserId) -> (r: bool)
        requires
            self.main.wf(),
        ensures
            r == forall|root: MessageIndex| roots@.contains(root) ==> #[trigger] self.knows(root, user_id),
    {
        let mut k: usize = 0;
        while k < roots.len()
            invariant
                0 <= k <= roots@.len(),
                self.main.wf(),
                forall|j: int| 0 <= j < k ==> self.knows(#[trigger] roots@[j], user_id),
            decreases roots@.len() - k,
        {
            if !self.is_known(roots[k], user_id) {
                assert(roots@.contains(roots@[k as int]));
                return false;
            }
            k += 1;
        }
        true
    }
}

impl GroupChatCore {
    /// Whether the log knows every member to be involved in each thread
    /// that the member keeps track of, by a walk over the roster.
    pub fn threads_are_known(&self) -> (r: bool)
        requires
            self.events.main.wf(),
        ensures
            r == self.threads_known(),
    {
        let mut i: usize = 0;
        while i < self.members.members.len()
            invariant
                0 <= i <= self.members.members@.len(),
                self.events.main.wf(),
                forall|j: int, root: MessageIndex|
                    0 <= j < i && #[trigger] holds(self.members.members@[j], root) ==> self.events.knows(
                        root,
                        self.members.members@[j].user_id,
                    ),
            decreases self.members.members@.len() - i,
        {
            let member = &self.members.members[i];
            if !self.events.all_known(&member.threads, member.user_id) {
                let ghost root = choose|root: MessageIndex|
                    member.threads@.contains(root) && !self.events.knows(root, member.user_id);
                assert(holds(self.members.members@[i as int], root));
                return false;
            }
            if !self.events.all_known(&member.unfollowed_threads, member.user_id) {
                let ghost root = choose|root: MessageIndex|
                    member.unfollowed_threads@.contains(root) && !self.events.knows(root, member.user_id);
                assert(holds(self.members.members@[i as int], root));
                return false;
            }
            i += 1;
        }
        true
    }
}

/// A group whose members keep track of no thread has nothing to be known.
pub proof fn lemma_nothing_held(group: GroupChatCore)
    requires
        forall|j: int|
            0 <= j < group.members.members@.len() ==> (#[trigger] group.members.members@[j]).threads@.len() == 0
                && group.members.members@[j].unfollowed_threads@.len() == 0,
    ensures
        group.threads_known(),
{
    assert forall|j: int, root: MessageIndex|
        0 <= j < group.members.members@.len() && #[trigger] holds(
            group.members.members@[j],
            root,
        ) implies group.events.knows(root, group.members.members@[j].user_id) by {
        let m = group.members.members@[j];
        assert(m.threads@.len() == 0 && m.unfollowed_threads@.len() == 0);
    }
}

/// The same users keeping track of the same threads, with a log that
/// keeps what it knew: all is still known.
pub proof fn lemma_known_same_holders(pre: GroupChatCore, post: GroupChatCore)
    requires
        pre.threads_known(),
        keeps_threads(pre.events, post.events),
        post.members.members@.len() == pre.members.members@.len(),
        forall|j: int|
            0 <= j < pre.members.members@.len() ==> {
                &&& (#[trigger] post.members.members@[j]).user_id == pre.members.members@[j].user_id
                &&& post.members.members@[j].threads@ == pre.members.members@[j].threads@
                &&& post.members.members@[j].unfollowed_threads@ == pre.members.members@[j].unfollowed_threads@
            },
    ensures
        post.threads_known(),
{
    assert forall|j: int, root: MessageIndex|
        0 <= j < post.members.members@.len() && #[trigger] holds(
            post.members.members@[j],
            root,
        ) implies post.events.knows(root, post.members.members@[j].user_id) by {
        assert(holds(pre.members.members@[j], root));
        assert(pre.events.knows(root, pre.members.members@[j].user_id));
    }
}

/// A member leaving the roster leaves nothing unknown.
pub proof fn lemma_known_without_member(pre: GroupChatCore, post: GroupChatCore, i: int)
    requires
        pre.threads_known(),
        keeps_threads(pre.events, post.events),
        0 <= i < pre.members.members@.len(),
        post.members.members@ == pre.members.members@.remove(i),
    ensures
        post.threads_known(),
{
    assert forall|j: int, root: MessageIndex|
        0 <= j < post.members.members@.len() && #[trigger] holds(
            post.members.members@[j],
            root,
        ) implies post.events.knows(root, post.members.members@[j].user_id) by {
        let j0 = if j < i {
            j
        } else {
            j + 1
        };
        assert(post.members.members@[j] == pre.members.members@[j0]);
        assert(holds(pre.members.members@[j0], root));
        assert(pre.events.knows(root, pre.members.members@[j0].user_id));
    }
}

/// Pinning keeps the threads of the members known.
pub proof fn lemma_pin_keeps_known(
    pre: GroupChatCore,
    user_id: UserId,
    message_index: MessageIndex,
    now: TimestampMillis,
    post: GroupChatCore,
    r: PinUnpinMessageResult,
)
    requires
        pre.threads_known(),
        pin_message_post(pre, user_id, message_index, now, post, r),
    ensures
        post.threads_known(),
{
    if r is Success {
        assert(post.events.main.events@.drop_last() == pre.events.main.events@);
        lemma_appended_keeps(pre.events, post.events);
        lemma_known_same_holders(pre, post);
    }
}

/// Unpinning keeps the threads of the members known.
pub proof fn lemma_unpin_keeps_known(
    pre: GroupChatCore,
    user_id: UserId,
    message_index: MessageIndex,
    now: TimestampMillis,
    post: GroupChatCore,
    r: PinUnpinMessageResult,
)
    requires
        pre.threads_known(),
        unpin_message_post(pre, user_id, message_index, now, post, r),
    ensures
        post.threads_known(),
{
    if r is Success {
        assert(post.events.main.events@.drop_last() == pre.events.main.events@);
        lemma_appended_keeps(pre.events, post.events);
        lemma_known_same_holders(pre, post);
    }
}

/// Inviting users keeps the threads of the members known.
pub proof fn lemma_invite_keeps_known(
    pre: GroupChatCore,
    invited_by: UserId,
    user_ids: Vec<UserId>,
    now: TimestampMillis,
    post: GroupChatCore,
    r: InvitedUsersResult,
)
    requires
        pre.threads_known(),
        invite_users_post(pre, invited_by, user_ids, now, post, r),
    ensures
        post.threads_known(),
{
    if post != pre {
        lemma_appended_keeps(pre.events, post.events);
        lemma_known_same_holders(pre, post);
    }
}

/// Adding users keeps the threads of the members known.
pub proof fn lemma_add_participants_keeps_known(
    pre: GroupChatCore,
    caller: UserId,
    user_ids: Seq<UserId>,
    now: TimestampMillis,
    post: GroupChatCore,
    r: Option<u32>,
)
    requires
        pre.threads_known(),
        add_participants_post(pre, caller, user_ids, now, post, r),
    ensures
        post.threads_known(),
{
    if post != pre {
        let n = pre.members.members@.len() as int;
        if post.events != pre.events {
            lemma_appended_keeps(pre.events, post.events);
        }
        assert forall|j: int, root: MessageIndex|
            0 <= j < post.members.members@.len() && #[trigger] holds(
                post.members.members@[j],
                root,
            ) implies post.events.knows(root, post.members.members@[j].user_id) by {
            if j < n {
                assert(post.members.members@.subrange(0, n)[j] == pre.members.members@[j]);
                assert(holds(pre.members.members@[j], root));
                assert(pre.events.knows(root, pre.members.members@[j].user_id));
            } else {
                let fresh = post.members.members@[n + (j - n)];
                assert(fresh.threads@.len() == 0 && fresh.unfollowed_threads@.len() == 0);
            }
        }
    }
}

/// Leaving keeps the threads of the members known.
pub proof fn lemma_leave_keeps_known(
    pre: GroupChatCore,
    user_id: UserId,
    now: TimestampMillis,
    post: GroupChatCore,
    r: LeaveResult,
)
    requires
        pre.threads_known(),
        leave_post(pre, user_id, now, post, r),
    ensures
        post.threads_known(),
{
    if r is Success {
        lemma_first_match(pre.members.members@, crate::members::is_user(user_id));
        lemma_appended_keeps(pre.events, post.events);
        lemma_known_without_member(pre, post, pre.members.position(user_id));
    }
}

/// Removing a member keeps the threads of the members known.
pub proof fn lemma_remove_member_keeps_known(
    pre: GroupChatCore,
    user_id: UserId,
    target_user_id: UserId,
    block: bool,
    now: TimestampMillis,
    post: GroupChatCore,
    r: RemoveMemberResult,
)
    requires
        pre.threads_known(),
        remove_member_post(pre, user_id, target_user_id, block, now, post, r),
    ensures
        post.threads_known(),
{
    if r == RemoveMemberResult::Success {
        if post.events != pre.events {
            lemma_appended_keeps(pre.events, post.events);
        }
        if pre.members.contains(target_user_id) {
            lemma_first_match(pre.members.members@, crate::members::is_user(target_user_id));
            lemma_known_without_member(pre, post, pre.members.position(target_user_id));
        } else {
            lemma_known_same_holders(pre, post);
        }
    }
}

/// Changing a role keeps the threads of the members known.
pub proof fn lemma_change_role_keeps_known(
    pre: GroupChatCore,
    caller: UserId,
    target_user: UserId,
    new_role: GroupRole,
    is_caller_platform_moderator: bool,
    is_user_platform_moderator: bool,
    now: TimestampMillis,
    post: GroupChatCore,
    r: ChangeRoleResult,
)
    requires
        pre.threads_known(),
        change_role_post(
            pre,
            caller,
            target_user,
            new_role,
            is_caller_platform_moderator,
            is_user_platform_moderator,
            now,
            post,
            r,
        ),
    ensures
        post.threads_known(),
{
    if r is Success {
        lemma_first_match(pre.members.members@, crate::members::is_user(target_user));
        lemma_appended_keeps(pre.events, post.events);
        lemma_known_same_holders(pre, post);
    }
}

/// Reacting to a message keeps the threads of the members known.
pub proof fn lemma_react_keeps_known(
    pre: GroupChatCore,
    user_id: UserId,
    thread_root: Option<MessageIndex>,
    message_id: crate::types::MessageId,
    reaction: String,
    now: TimestampMillis,
    adding: bool,
    post: GroupChatCore,
    r: AddRemoveReactionResult,
)
    requires
        pre.threads_known(),
        react_post(pre, user_id, thread_root, message_id, reaction, now, adding, post, r),
    ensures
        post.threads_known(),
{
    if r == AddRemoveReactionResult::Success && post != pre {
        let min = pre.members.member(user_id).min_visible_event_index;
        let p = pre.events.target(min, thread_root, message_id)->Some_0;
        if thread_root is None {
            lemma_first_match(pre.events.main.events@, crate::event_list::with_message_id(message_id));
        }
        lemma_edited_keeps(pre.events, post.events, thread_root, p, now);
        lemma_known_same_holders(pre, post);
    }
}

/// Tipping keeps the threads of the members known.
pub proof fn lemma_tip_keeps_known(pre: GroupChatCore, args: TipMessageArgs, post: GroupChatCore, r: TipMessageResult)
    requires
        pre.threads_known(),
        tip_post(pre, args, post, r),
    ensures
        post.threads_known(),
{
    if r == TipMessageResult::Success && post != pre {
        let min = pre.members.member(args.user_id).min_visible_event_index;
        let root = args.thread_root_message_index;
        let p = pre.events.target(min, root, args.message_id)->Some_0;
        if root is None {
            lemma_first_match(pre.events.main.events@, crate::event_list::with_message_id(args.message_id));
        }
        lemma_edited_keeps(pre.events, post.events, root, p, args.now);
        lemma_known_same_holders(pre, post);
    }
}

/// Carrying out a request to change settings keeps the threads of the
/// members known.
pub proof fn lemma_update_keeps_known(
    pre: GroupChatCore,
    user_id: UserId,
    q: UpdateRequest,
    now: TimestampMillis,
    post: GroupChatCore,
    r: UpdateSuccessResult,
)
    requires
        pre.threads_known(),
        do_update_post(pre, user_id, q, now, post, r),
    ensures
        post.threads_known(),
{
    assert forall|p: int| 0 <= p < pre.events.main.events@.len() implies #[trigger] post.events.main.events@[p]
        == pre.events.main.events@[p] by {}
    lemma_keeps_by_place(pre.events, post.events);
    if pre.rules_change(q) && pre.members.contains(user_id) {
        lemma_first_match(pre.members.members@, crate::members::is_user(user_id));
    }
    lemma_known_same_holders(pre, post);
}

/// Marking a message as deleted keeps what the log knew.
pub proof fn lemma_delete_keeps(
    pre: ChatEvents,
    caller: UserId,
    is_admin: bool,
    min_visible_event_index: EventIndex,
    thread_root: Option<MessageIndex>,
    message_id: MessageId,
    now: TimestampMillis,
    post: ChatEvents,
    r: DeleteMessageResult,
)
    requires
        delete_message_post(pre, caller, is_admin, min_visible_event_index, thread_root, message_id, now, post, r),
    ensures
        keeps_threads(pre, post),
{
    if r is Success {
        let p = pre.target(min_visible_event_index, thread_root, message_id)->Some_0;
        if thread_root is None {
            lemma_first_match(pre.main.events@, crate::event_list::with_message_id(message_id));
        }
        lemma_edited_keeps(pre, post, thread_root, p, now);
    }
}

/// Restoring a message keeps what the log knew.
pub proof fn lemma_undelete_keeps(
    pre: ChatEvents,
    caller: UserId,
    is_admin: bool,
    min_visible_event_index: EventIndex,
    thread_root: Option<MessageIndex>,
    message_id: MessageId,
    now: TimestampMillis,
    post: ChatEvents,
    r: UndeleteMessageResult,
)
    requires
        undelete_message_post(pre, caller, is_admin, min_visible_event_index, thread_root, message_id, now, post, r),
    ensures
        keeps_threads(pre, post),
{
    if r is Success {
        let p = pre.target(min_visible_event_index, thread_root, message_id)->Some_0;
        if thread_root is None {
            lemma_first_match(pre.main.events@, crate::event_list::with_message_id(message_id));
        }
        lemma_edited_keeps(pre, post, thread_root, p, now);
    }
}

/// Deleting one message keeps the threads of the members known.
pub proof fn lemma_delete_one_keeps_known(
    pre: GroupChatCore,
    caller: UserId,
    is_admin: bool,
    min_visible_event_index: EventIndex,
    thread_root: Option<MessageIndex>,
    message_id: MessageId,
    now: TimestampMillis,
    post: GroupChatCore,
    r: DeleteMessageResult,
)
    requires
        pre.threads_known(),
        delete_one_post(pre, caller, is_admin, min_visible_event_index, thread_root, message_id, now, post, r),
    ensures
        post.threads_known(),
{
    let marked = choose|marked: ChatEvents|
        {
            &&& #[trigger] delete_message_post(
                pre.events,
                caller,
                is_admin,
                min_visible_event_index,
                thread_root,
                message_id,
                now,
                marked,
                r,
            )
            &&& if r is Success && thread_root is None && pre.pinned_messages@.contains(
                pre.deleted_index(min_visible_event_index, message_id),
            ) {
                let message_index = pre.deleted_index(min_visible_event_index, message_id);
                &&& crate::sorted_set::strictly_ascending(post.pinned_messages@)
                &&& forall|y: MessageIndex|
                    post.pinned_messages@.contains(y) <==> pre.pinned_messages@.contains(y) && y != message_index
                &&& post.date_last_pinned == if post.pinned_messages@.len() == 0 {
                    None
                } else {
                    pre.date_last_pinned
                }
                &&& main_event_pushed(
                    marked,
                    post.events,
                    crate::events::ChatEventInternal::MessageUnpinned {
                        message_index,
                        unpinned_by: caller,
                        due_to_message_deleted: true,
                    },
                    now,
                )
                &&& post == (GroupChatCore {
                    pinned_messages: post.pinned_messages,
                    date_last_pinned: post.date_last_pinned,
                    events: post.events,
                    ..pre
                })
            } else {
                post == (GroupChatCore { events: marked, ..pre })
            }
        };
    lemma_delete_keeps(pre.events, caller, is_admin, min_visible_event_index, thread_root, message_id, now, marked, r);
    if post.events != marked {
        assert(post.events.main.events@.drop_last() == marked.main.events@);
        lemma_appended_keeps(marked, post.events);
        lemma_keeps_twice(pre.events, marked, post.events);
    }
    lemma_known_same_holders(pre, post);
}

/// Deleting messages one after the other keeps the threads of the
/// members known.
pub proof fn lemma_delete_messages_keeps_known(
    pre: GroupChatCore,
    caller: UserId,
    is_admin: bool,
    min_visible_event_index: EventIndex,
    thread_root: Option<MessageIndex>,
    message_ids: Seq<MessageId>,
    k: int,
    now: TimestampMillis,
    post: GroupChatCore,
    results: Seq<(MessageId, DeleteMessageResult)>,
)
    requires
        pre.threads_known(),
        deleted_through(pre, caller, is_admin, min_visible_event_index, thread_root, message_ids, k, now, post, results),
    ensures
        post.threads_known(),
    decreases k,
{
    if !(k <= 0 || k > message_ids.len()) {
        let before = choose|before: GroupChatCore|
            {
                &&& deleted_through(
                    pre,
                    caller,
                    is_admin,
                    min_visible_event_index,
                    thread_root,
                    message_ids,
                    k - 1,
                    now,
                    before,
                    results.drop_last(),
                )
                &&& #[trigger] delete_one_post(
                    before,
                    caller,
                    is_admin,
                    min_visible_event_index,
                    thread_root,
                    message_ids[k - 1],
                    now,
                    post,
                    results.last().1,
                )
            };
        lemma_delete_messages_keeps_known(
            pre,
            caller,
            is_admin,
            min_visible_event_index,
            thread_root,
            message_ids,
            k - 1,
            now,
            before,
            results.drop_last(),
        );
        lemma_delete_one_keeps_known(
            before,
            caller,
            is_admin,
            min_visible_event_index,
            thread_root,
            message_ids[k - 1],
            now,
            post,
            results.last().1,
        );
    }
}

/// Restoring messages one after the other keeps what the log knew.
pub proof fn lemma_undelete_messages_keeps(
    pre: ChatEvents,
    caller: UserId,
    is_admin: bool,
    min_visible_event_index: EventIndex,
    thread_root: Option<MessageIndex>,
    message_ids: Seq<MessageId>,
    k: int,
    now: TimestampMillis,
    post: ChatEvents,
    restored: Seq<MessageId>,
)
    requires
        undeleted_through(
            pre,
            caller,
            is_admin,
            min_visible_event_index,
            thread_root,
            message_ids,
            k,
            now,
            post,
            restored,
        ),
    ensures
        keeps_threads(pre, post),
    decreases k,
{
    if !(k <= 0 || k > message_ids.len()) {
        let (before, r) = choose|before: ChatEvents, r: UndeleteMessageResult|
            {
                &&& #[trigger] undelete_message_post(
                    before,
                    caller,
                    is_admin,
                    min_visible_event_index,
                    thread_root,
                    message_ids[k - 1],
                    now,
                    post,
                    r,
                )
                &&& if r is Success {
                    restored.len() > 0 && restored.last() == message_ids[k - 1] && undeleted_through(
                        pre,
                        caller,
                        is_admin,
                        min_visible_event_index,
                        thread_root,
                        message_ids,
                        k - 1,
                        now,
                        before,
                        restored.drop_last(),
                    )
                } else {
                    undeleted_through(
                        pre,
                        caller,
                        is_admin,
                        min_visible_event_index,
                        thread_root,
                        message_ids,
                        k - 1,
                        now,
                        before,
                        restored,
                    )
                }
            };
        lemma_undelete_messages_keeps(
            pre,
            caller,
            is_admin,
            min_visible_event_index,
            thread_root,
            message_ids,
            k - 1,
            now,
            before,
            if r is Success {
                restored.drop_last()
            } else {
                restored
            },
        );
        lemma_undelete_keeps(
            before,
            caller,
            is_admin,
            min_visible_event_index,
            thread_root,
            message_ids[k - 1],
            now,
            post,
            r,
        );
        lemma_keeps_twice(pre, before, post);
    }
}

/// Recording that a user follows a thread, or no longer does, keeps what
/// the log knew, and the log knows the user to be involved in the thread.
pub proof fn lemma_follow_keeps(
    pre: ChatEvents,
    root: MessageIndex,
    user_id: UserId,
    min_visible_event_index: EventIndex,
    now: TimestampMillis,
    follow: bool,
    post: ChatEvents,
)
    requires
        follow_thread_post(pre, root, user_id, min_visible_event_index, now, follow, post, true),
    ensures
        keeps_threads(pre, post),
        post.knows(root, user_id),
{
    let p = pre.thread_root_position(min_visible_event_index, root)->Some_0;
    lemma_first_match(pre.main.events@, crate::event_list::with_message_index(root));
    assert forall|q: int, r: MessageIndex, u: UserId|
        0 <= q < pre.main.events@.len() && counts(pre.main.events@[q], r, u) implies #[trigger] counts(
        post.main.events@[q],
        r,
        u,
    ) by {
        if q != p {
            assert(post.main.events@[q] == pre.main.events@[q]);
        }
    }
    lemma_keeps_by_place(pre, post);
    assert(counts(post.main.events@[p], root, user_id));
}

/// Following a thread keeps the threads of the members known.
pub proof fn lemma_follow_keeps_known(
    pre: GroupChatCore,
    user_id: UserId,
    root: MessageIndex,
    now: TimestampMillis,
    post: GroupChatCore,
    r: FollowThreadResult,
)
    requires
        pre.threads_known(),
        follow_post(pre, user_id, root, now, post, r),
    ensures
        post.threads_known(),
{
    if r is Success {
        let member = pre.members.member(user_id);
        let i = pre.members.position(user_id);
        lemma_first_match(pre.members.members@, crate::members::is_user(user_id));
        lemma_follow_keeps(pre.events, root, user_id, member.min_visible_event_index, now, true, post.events);
        lemma_without(member.unfollowed_threads@, root);
        lemma_push_contains(member.threads@, root);
        assert forall|j: int, held: MessageIndex|
            0 <= j < post.members.members@.len() && #[trigger] holds(
                post.members.members@[j],
                held,
            ) implies post.events.knows(held, post.members.members@[j].user_id) by {
            if j == i {
                if held != root {
                    assert(holds(pre.members.members@[i], held));
                    assert(pre.events.knows(held, user_id));
                }
            } else {
                assert(post.members.members@[j] == pre.members.members@[j]);
                assert(holds(pre.members.members@[j], held));
                assert(pre.events.knows(held, pre.members.members@[j].user_id));
            }
        }
    }
}

/// Unfollowing a thread keeps the threads of the members known.
pub proof fn lemma_unfollow_keeps_known(
    pre: GroupChatCore,
    user_id: UserId,
    root: MessageIndex,
    now: TimestampMillis,
    post: GroupChatCore,
    r: UnfollowThreadResult,
)
    requires
        pre.threads_known(),
        unfollow_post(pre, user_id, root, now, post, r),
    ensures
        post.threads_known(),
{
    if r is Success {
        let member = pre.members.member(user_id);
        let i = pre.members.position(user_id);
        lemma_first_match(pre.members.members@, crate::members::is_user(user_id));
        lemma_follow_keeps(pre.events, root, user_id, member.min_visible_event_index, now, false, post.events);
        lemma_without(member.threads@, root);
        lemma_push_contains(member.unfollowed_threads@, root);
        assert forall|j: int, held: MessageIndex|
            0 <= j < post.members.members@.len() && #[trigger] holds(
                post.members.members@[j],
                held,
            ) implies post.events.knows(held, post.members.members@[j].user_id) by {
            if j == i {
                if held != root {
                    assert(holds(pre.members.members@[i], held));
                    assert(pre.events.knows(held, user_id));
                }
            } else {
                assert(post.members.members@[j] == pre.members.members@[j]);
                assert(holds(pre.members.members@[j], held));
                assert(pre.events.knows(held, pre.members.members@[j].user_id));
            }
        }
    }
}

/// Restoring messages keeps the threads of the members known.
pub proof fn lemma_undelete_messages_keeps_known(
    pre: GroupChatCore,
    caller: UserId,
    is_admin: bool,
    min_visible_event_index: EventIndex,
    thread_root: Option<MessageIndex>,
    message_ids: Seq<MessageId>,
    now: TimestampMillis,
    post: GroupChatCore,
    messages: Seq<Message>,
)
    requires
        pre.threads_known(),
        undeleted_and_shown(
            pre.events,
            caller,
            is_admin,
            min_visible_event_index,
            thread_root,
            message_ids,
            now,
            post.events,
            messages,
        ),
        post == (GroupChatCore { events: post.events, ..pre }),
    ensures
        post.threads_known(),
{
    let restored = choose|restored: Seq<MessageId>| #[trigger]
        undeleted_through(
            pre.events,
            caller,
            is_admin,
            min_visible_event_index,
            thread_root,
            message_ids,
            message_ids.len() as int,
            now,
            post.events,
            restored,
        );
    lemma_undelete_messages_keeps(
        pre.events,
        caller,
        is_admin,
        min_visible_event_index,
        thread_root,
        message_ids,
        message_ids.len() as int,
        now,
        post.events,
        restored,
    );
    lemma_known_same_holders(pre, post);
}

/// Sending a message keeps the threads of the members known.
pub proof fn lemma_send_keeps_known(
    pre: GroupChatCore,
    sender: UserId,
    thread_root: Option<MessageIndex>,
    message_id: MessageId,
    content: MessageContent,
    replies_to: Option<GroupReplyContext>,
    mentioned: Vec<UserId>,
    forwarding: bool,
    rules_accepted: Option<Version>,
    proposals_bot_user_id: UserId,
    now: TimestampMillis,
    everyone_in_text: bool,
    post: GroupChatCore,
    r: SendMessageResult,
)
    requires
        pre.threads_known(),
        send_message_post(
            pre,
            sender,
            thread_root,
            message_id,
            content,
            replies_to,
            mentioned,
            forwarding,
            rules_accepted,
            proposals_bot_user_id,
            now,
            everyone_in_text,
            post,
            r,
        ),
    ensures
        post.threads_known(),
{
    if pre.send_refusal(sender, thread_root, content, forwarding, rules_accepted, proposals_bot_user_id, now)
        is None {
        let success = r->Success_0;
        let member = pre.members.member(sender);
        let replied = pre.replied_user(replies_to, member.min_visible_event_index, thread_root);
        let drawn = pre.drawn_into_thread(thread_root, mentioned@, replied);
        let delivery = pre.delivery_of(
            post.events,
            sender,
            thread_root,
            success.message_event.event.message_index,
            replies_to,
            mentioned@,
            rules_accepted,
            proposals_bot_user_id,
            now,
            everyone_in_text,
        );
        assert(delivery.roster_after(pre.members, post.members));
        match thread_root {
            None => {
                lemma_appended_keeps(pre.events, post.events);
                assert forall|j: int| 0 <= j < pre.members.members@.len() implies {
                    &&& (#[trigger] post.members.members@[j]).user_id == pre.members.members@[j].user_id
                    &&& post.members.members@[j].threads@ == pre.members.members@[j].threads@
                    &&& post.members.members@[j].unfollowed_threads@ == pre.members.members@[j].unfollowed_threads@
                } by {
                    assert(delivery.member_after(pre.members.members@[j], post.members.members@[j]));
                }
                lemma_known_same_holders(pre, post);
            },
            Some(root) => {
                lemma_first_match(pre.events.main.events@, crate::event_list::with_message_index(root));
                let p = pre.events.main.message_position(root)->Some_0;
                let before = pre.events.main.events@[p];
                let after = post.events.main.events@[p];
                let summary = after.message().thread_summary->Some_0;
                let base = match before.message().thread_summary {
                    Some(b) => b.followers@,
                    None => Seq::<FollowChoice>::empty(),
                };
                lemma_with_mentioned(base, summary.participant_ids@, drawn, drawn.len() as int, now);
                if before.message().thread_summary is Some {
                    lemma_push_contains(before.message().thread_summary->Some_0.participant_ids@, sender);
                }
                assert(summary.participant_ids@.contains(sender)) by {
                    if before.message().thread_summary is None {
                        assert(summary.participant_ids@[0] == sender);
                    }
                }
                assert forall|q: int, held: MessageIndex, u: UserId|
                    0 <= q < pre.events.main.events@.len() && counts(
                        pre.events.main.events@[q],
                        held,
                        u,
                    ) implies #[trigger] counts(post.events.main.events@[q], held, u) by {
                    if q != p {
                        assert(post.events.main.events@[q] == pre.events.main.events@[q]);
                    } else {
                        let b = before.message().thread_summary->Some_0;
                        if b.participant_ids@.contains(u) {
                            assert(summary.participant_ids@.contains(u));
                        } else {
                            assert(choice_position(base, u) < base.len());
                        }
                    }
                }
                lemma_keeps_by_place(pre.events, post.events);
                assert(counts(after, root, sender));
                assert forall|i: int| 0 <= i < drawn.len() implies counts(after, root, #[trigger] drawn[i]) by {}
                if replied is Some {
                    lemma_push_contains(mentioned@, replied->Some_0);
                }
                let with_replied = match replied {
                    Some(u) => mentioned@.push(u),
                    None => mentioned@,
                };
                if pre.first_reply_to(thread_root) is Some {
                    lemma_push_contains(with_replied, pre.first_reply_to(thread_root)->Some_0);
                }
                assert forall|j: int, held: MessageIndex|
                    0 <= j < post.members.members@.len() && #[trigger] holds(
                        post.members.members@[j],
                        held,
                    ) implies post.events.knows(held, post.members.members@[j].user_id) by {
                    let m0 = pre.members.members@[j];
                    let m1 = post.members.members@[j];
                    assert(delivery.member_after(m0, m1));
                    if holds(m0, held) {
                        assert(pre.events.knows(held, m0.user_id));
                    } else {
                        lemma_push_contains(m0.threads@, root);
                        assert(held == root);
                        assert(delivery.takes_part(m0.user_id));
                        let u = m0.user_id;
                        if u != sender {
                            assert(drawn.contains(u)) by {
                                if mentioned@.contains(u) {
                                    assert(with_replied.contains(u));
                                } else if replied == Some(u) {
                                    assert(with_replied.contains(u));
                                } else {
                                    assert(delivery.first_reply && delivery.root_sender == Some(u));
                                    assert(pre.first_reply_to(thread_root) == Some(u));
                                }
                            }
                            let i = choose|i: int| 0 <= i < drawn.len() && drawn[i] == u;
                            assert(counts(after, root, drawn[i]));
                        }
                        assert(counts(post.events.main.events@[p], root, u));
                    }
                }
            },
        }
    }
}

/// Each thread that an eviction names has its root among the expired
/// events, and the users named are those involved in the thread.
pub proof fn lemma_reported_entries(
    s: Seq<EventWrapperInternal>,
    now: TimestampMillis,
    n: int,
    reported: Seq<ExpiredThread>,
    k: int,
) -> (q: int)
    requires
        0 <= n <= s.len(),
        threads_reported(s, now, n, reported),
        0 <= k < reported.len(),
    ensures
        0 <= q < n,
        is_expired_root(s[q], now),
        reported[k].root_message_index == s[q].message().message_index,
        forall|u: UserId| reported[k].users@.contains(u) <==> s[q].message().thread_summary->Some_0.is_involved(u),
    decreases n,
{
    if is_expired_root(s[n - 1], now) {
        if k == reported.len() - 1 {
            n - 1
        } else {
            lemma_reported_entries(s, now, n - 1, reported.drop_last(), k)
        }
    } else {
        lemma_reported_entries(s, now, n - 1, reported, k)
    }
}

/// Each expired root among the events has its thread named by the
/// eviction, with the users involved in it.
pub proof fn lemma_reported_covers(
    s: Seq<EventWrapperInternal>,
    now: TimestampMillis,
    n: int,
    reported: Seq<ExpiredThread>,
    q: int,
) -> (k: int)
    requires
        0 <= q < n <= s.len(),
        threads_reported(s, now, n, reported),
        is_expired_root(s[q], now),
    ensures
        0 <= k < reported.len(),
        reported[k].root_message_index == s[q].message().message_index,
        forall|u: UserId| reported[k].users@.contains(u) <==> s[q].message().thread_summary->Some_0.is_involved(u),
    decreases n,
{
    if is_expired_root(s[n - 1], now) {
        if q == n - 1 {
            reported.len() - 1
        } else {
            lemma_reported_covers(s, now, n - 1, reported.drop_last(), q)
        }
    } else {
        lemma_reported_covers(s, now, n - 1, reported, q)
    }
}

/// An event that has not expired is among those kept.
pub proof fn lemma_kept_holds(s: Seq<EventWrapperInternal>, now: TimestampMillis, n: int, q: int) -> (t: int)
    requires
        0 <= q < n <= s.len(),
        !s[q].expired_at(now),
    ensures
        0 <= t < kept(s, now, n).len(),
        kept(s, now, n)[t] == s[q],
    decreases n,
{
    if q == n - 1 {
        kept(s, now, n).len() - 1
    } else {
        lemma_kept_holds(s, now, n - 1, q)
    }
}

/// After an eviction the threads of the members are still known, and no
/// member keeps track of a thread that went.
pub proof fn lemma_evicted_keeps_known(
    pre: GroupChatCore,
    now: TimestampMillis,
    post: GroupChatCore,
    r: RemoveExpiredEventsResult,
)
    requires
        pre.wf(),
        pre.threads_known(),
        evicted(pre, now, post, r),
    ensures
        post.threads_known(),
        forall|j: int, k: int|
            0 <= j < post.members.members@.len() && 0 <= k < r.threads@.len() ==> !holds(
                #[trigger] post.members.members@[j],
                (#[trigger] r.threads@[k]).root_message_index,
            ),
{
    let s = pre.events.main.events@;
    let n = s.len() as int;
    let expired = r.threads@;
    assert forall|j: int, held: MessageIndex|
        0 <= j < post.members.members@.len() && #[trigger] holds(post.members.members@[j], held) implies {
        &&& post.events.knows(held, post.members.members@[j].user_id)
        &&& forall|k: int| 0 <= k < expired.len() ==> (#[trigger] expired[k]).root_message_index != held
    } by {
        let m0 = pre.members.members@[j];
        let m1 = post.members.members@[j];
        let u = m0.user_id;
        assert(member_cleared(m0, m1, expired, expired.len() as int));
        lemma_cleared(m0.threads@, u, expired, expired.len() as int);
        lemma_cleared(m0.unfollowed_threads@, u, expired, expired.len() as int);
        assert(holds(m0, held));
        assert(pre.events.knows(held, u));
        let p = choose|p: int| 0 <= p < s.len() && counts(#[trigger] s[p], held, u);
        if s[p].expired_at(now) {
            let k = lemma_reported_covers(s, now, n, expired, p);
            assert(expired[k].users@.contains(u));
            assert(false);
        }
        let t = lemma_kept_holds(s, now, n, p);
        assert(counts(post.events.main.events@[t], held, u));
        assert forall|k: int| 0 <= k < expired.len() implies (#[trigger] expired[k]).root_message_index
            != held by {
            if expired[k].root_message_index == held {
                let q = lemma_reported_entries(s, now, n, expired, k);
                assert(s[q].is_message() && s[p].is_message());
                if p < q {
                    assert(s[p].message().message_index < s[q].message().message_index);
                } else if q < p {
                    assert(s[q].message().message_index < s[p].message().message_index);
                }
                assert(p == q);
            }
        }
    }
    assert forall|j: int, k: int|
        0 <= j < post.members.members@.len() && 0 <= k < r.threads@.len() implies !holds(
            #[trigger] post.members.members@[j],
            (#[trigger] r.threads@[k]).root_message_index,
        ) by {
        if holds(post.members.members@[j], r.threads@[k].root_message_index) {
            assert(expired[k].root_message_index != r.threads@[k].root_message_index);
        }
    }
}

} // verus!
