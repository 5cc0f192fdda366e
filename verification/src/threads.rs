//! Following and unfollowing threads.

use vstd::prelude::*;
use crate::group::GroupChatCore;
use crate::known_threads::{lemma_follow_keeps_known, lemma_unfollow_keeps_known};
use crate::lifecycle::{follow_thread_post, FollowOutcome, UnfollowOutcome};
use crate::members::{lemma_same_roles, lemma_same_users, GroupMemberInternal};
use crate::results::{FollowThreadResult, UnfollowThreadResult};
use crate::seq_util::{contains_index, remove_all, without};
use crate::types::{MessageIndex, TimestampMillis, UserId};

verus! {

/// What following a thread does.
///
/// The caller must be a member and not suspended. The thread must exist
/// and its root be visible to the caller, who must not follow it yet.
/// Then the summary of the thread records the choice, the thread leaves
/// those that the member has unfollowed and joins those that the member
/// follows. Otherwise nothing changes.
pub open spec fn follow_post(
    pre: GroupChatCore,
    user_id: UserId,
    root: MessageIndex,
    now: TimestampMillis,
    post: GroupChatCore,
    r: FollowThreadResult,
) -> bool {
    if !pre.members.contains(user_id) {
        r == FollowThreadResult::UserNotInGroup && post == pre
    } else if pre.members.member(user_id).suspended.value {
        r == FollowThreadResult::UserSuspended && post == pre
    } else {
        let member = pre.members.member(user_id);
        let min = member.min_visible_event_index;
        &&& r == match pre.events.thread_root_position(min, root) {
            None => FollowThreadResult::ThreadNotFound,
            Some(p) => if pre.events.main.events@[p].message().thread_summary->Some_0.is_followed_by(user_id) {
                FollowThreadResult::AlreadyFollowing
            } else {
                FollowThreadResult::Success
            },
        }
        &&& follow_thread_post(pre.events, root, user_id, min, now, true, post.events, r is Success)
        &&& if r is Success {
            let i = pre.members.position(user_id);
            let after = post.members.members@[i];
            &&& post.members.blocked == pre.members.blocked
            &&& post.members.members@ == pre.members.members@.update(i, after)
            &&& after.unfollowed_threads@ == without(member.unfollowed_threads@, root)
            &&& after.threads@ == if member.threads@.contains(root) {
                member.threads@
            } else {
                member.threads@.push(root)
            }
            &&& after == (GroupMemberInternal {
                threads: after.threads,
                unfollowed_threads: after.unfollowed_threads,
                ..member
            })
        } else {
            post.members == pre.members
        }
        &&& post == (GroupChatCore { events: post.events, members: post.members, ..pre })
    }
}

/// What unfollowing a thread does.
///
/// The caller must be a member and not suspended. The thread must exist
/// and its root be visible to the caller, who must follow it. Then the
/// summary of the thread records the choice, the thread leaves those that
/// the member follows and joins those that the member has unfollowed.
/// Otherwise nothing changes.
pub open spec fn unfollow_post(
    pre: GroupChatCore,
    user_id: UserId,
    root: MessageIndex,
    now: TimestampMillis,
    post: GroupChatCore,
    r: UnfollowThreadResult,
) -> bool {
    if !pre.members.contains(user_id) {
        r == UnfollowThreadResult::UserNotInGroup && post == pre
    } else if pre.members.member(user_id).suspended.value {
        r == UnfollowThreadResult::UserSuspended && post == pre
    } else {
        let member = pre.members.member(user_id);
        let min = member.min_visible_event_index;
        &&& r == match pre.events.thread_root_position(min, root) {
            None => UnfollowThreadResult::ThreadNotFound,
            Some(p) => if !pre.events.main.events@[p].message().thread_summary->Some_0.is_followed_by(user_id) {
                UnfollowThreadResult::NotFollowing
            } else {
                UnfollowThreadResult::Success
            },
        }
        &&& follow_thread_post(pre.events, root, user_id, min, now, false, post.events, r is Success)
        &&& if r is Success {
            let i = pre.members.position(user_id);
            let after = post.members.members@[i];
            &&& post.members.blocked == pre.members.blocked
            &&& post.members.members@ == pre.members.members@.update(i, after)
            &&& after.threads@ == without(member.threads@, root)
            &&& after.unfollowed_threads@ == if member.unfollowed_threads@.contains(root) {
                member.unfollowed_threads@
            } else {
                member.unfollowed_threads@.push(root)
            }
            &&& after == (GroupMemberInternal {
                threads: after.threads,
                unfollowed_threads: after.unfollowed_threads,
                ..member
            })
        } else {
            post.members == pre.members
        }
        &&& post == (GroupChatCore { events: post.events, members: post.members, ..pre })
    }
}

impl GroupChatCore {
    /// Lets a member follow a thread.
    pub fn follow_thread(&mut self, user_id: UserId, thread_root_message_index: MessageIndex, now: TimestampMillis) -> (r:
        FollowThreadResult)
        requires
            old(self).wf(),
        ensures
            final(self).wf(),
            follow_post(*old(self), user_id, thread_root_message_index, now, *final(self), r),
    {
        let i = match self.members.find(user_id) {
            Some(i) => i,
            None => {
                return FollowThreadResult::UserNotInGroup;
            },
        };
        if self.members.members[i].suspended.value {
            return FollowThreadResult::UserSuspended;
        }
        let min = self.members.members[i].min_visible_event_index;
        let result = match self.events.follow_thread(thread_root_message_index, user_id, min, now) {
            FollowOutcome::Success => FollowThreadResult::Success,
            FollowOutcome::AlreadyFollowing => FollowThreadResult::AlreadyFollowing,
            FollowOutcome::ThreadNotFound => FollowThreadResult::ThreadNotFound,
        };
        if matches!(result, FollowThreadResult::Success) {
            remove_all(&mut self.members.members[i].unfollowed_threads, thread_root_message_index);
            if !contains_index(&self.members.members[i].threads, thread_root_message_index) {
                self.members.members[i].threads.push(thread_root_message_index);
            }
            proof {
                lemma_same_users(old(self).members.members@, self.members.members@);
                lemma_same_roles(old(self).members.members@, self.members.members@);
                assert(self.members.members@ =~= old(self).members.members@.update(
                    i as int,
                    self.members.members@[i as int],
                ));
            }
        }
        proof {
            lemma_follow_keeps_known(*old(self), user_id, thread_root_message_index, now, *self, result);
        }
        result
    }

    /// Lets a member stop following a thread.
    pub fn unfollow_thread(&mut self, user_id: UserId, thread_root_message_index: MessageIndex, now: TimestampMillis) -> (r:
        UnfollowThreadResult)
        requires
            old(self).wf(),
        ensures
            final(self).wf(),
            unfollow_post(*old(self), user_id, thread_root_message_index, now, *final(self), r),
    {
        let i = match self.members.find(user_id) {
            Some(i) => i,
            None => {
                return UnfollowThreadResult::UserNotInGroup;
            },
        };
        if self.members.members[i].suspended.value {
            return UnfollowThreadResult::UserSuspended;
        }
        let min = self.members.members[i].min_visible_event_index;
        let result = match self.events.unfollow_thread(thread_root_message_index, user_id, min, now) {
            UnfollowOutcome::Success => UnfollowThreadResult::Success,
            UnfollowOutcome::NotFollowing => UnfollowThreadResult::NotFollowing,
            UnfollowOutcome::ThreadNotFound => UnfollowThreadResult::ThreadNotFound,
        };
        if matches!(result, UnfollowThreadResult::Success) {
            remove_all(&mut self.members.members[i].threads, thread_root_message_index);
            if !contains_index(&self.members.members[i].unfollowed_threads, thread_root_message_index) {
                self.members.members[i].unfollowed_threads.push(thread_root_message_index);
            }
            proof {
                lemma_same_users(old(self).members.members@, self.members.members@);
                lemma_same_roles(old(self).members.members@, self.members.members@);
                assert(self.members.members@ =~= old(self).members.members@.update(
                    i as int,
                    self.members.members@[i as int],
                ));
            }
        }
        proof {
            lemma_unfollow_keeps_known(*old(self), user_id, thread_root_message_index, now, *self, result);
        }
        result
    }
}

} // verus!
