//! Commands on messages that were sent: reacting, tipping, deleting and
//! restoring.

use vstd::prelude::*;
use crate::chat_events::{main_event_pushed, ChatEvents};
use crate::events::ChatEventInternal;
use crate::group::GroupChatCore;
use crate::lifecycle::{delete_message_post, tip_message_post, undelete_message_post, TipMessageArgs};
use crate::reactions::{reaction_post, AddRemoveReactionArgs};
use crate::results::{reaction_result, tip_result, 
    AddRemoveReactionResult, DeleteMessageResult, DeleteMessagesResult, TipMessageResult, UndeleteMessageResult,
    UndeleteMessagesResult,
};
use crate::deleted_pins::{
    deleted_indexes, lemma_delete_in_thread_keeps_pins, lemma_delete_messages_unpins, lemma_deleted_count,
};
use crate::known_threads::{
    lemma_delete_one_keeps_known, lemma_react_keeps_known, lemma_tip_keeps_known,
    lemma_undelete_messages_keeps_known,
};
use crate::roles::permitted;
use crate::shown::{shown_by_id, Message};
use crate::sorted_set::strictly_ascending;
use crate::types::{EventIndex, MessageId, MessageIndex, TimestampMillis, UserId};

verus! {

/// What reacting to a message (`adding`) or taking a reaction back does.
///
/// The caller must be a member, not suspended, and allowed to react. The
/// rest is as `reaction_post` says of the log; nothing but the log changes.
pub open spec fn react_post(
    pre: GroupChatCore,
    user_id: UserId,
    thread_root: Option<MessageIndex>,
    message_id: MessageId,
    reaction: String,
    now: TimestampMillis,
    adding: bool,
    post: GroupChatCore,
    r: AddRemoveReactionResult,
) -> bool {
    if !pre.members.contains(user_id) {
        r == AddRemoveReactionResult::UserNotInGroup && post == pre
    } else if pre.members.member(user_id).suspended.value {
        r == AddRemoveReactionResult::UserSuspended && post == pre
    } else if !permitted(pre.members.member(user_id).role, pre.permissions.react_to_messages) {
        r == AddRemoveReactionResult::NotAuthorized && post == pre
    } else {
        let args = AddRemoveReactionArgs {
            user_id,
            min_visible_event_index: pre.members.member(user_id).min_visible_event_index,
            thread_root_message_index: thread_root,
            message_id,
            reaction,
            now,
        };
        &&& r == reaction_result(pre.events.reaction_verdict(args, adding))
        &&& reaction_post(pre.events, args, adding, post.events, pre.events.reaction_verdict(args, adding))
        &&& post == (GroupChatCore { events: post.events, ..pre })
    }
}

/// What tipping the sender of a message does.
///
/// The caller must be a member, not suspended, and allowed to react. The
/// rest is as `tip_message_post` says of the log; nothing but the log
/// changes.
pub open spec fn tip_post(pre: GroupChatCore, args: TipMessageArgs, post: GroupChatCore, r: TipMessageResult) -> bool {
    if !pre.members.contains(args.user_id) {
        r == TipMessageResult::UserNotInGroup && post == pre
    } else if pre.members.member(args.user_id).suspended.value {
        r == TipMessageResult::UserSuspended && post == pre
    } else if !permitted(pre.members.member(args.user_id).role, pre.permissions.react_to_messages) {
        r == TipMessageResult::NotAuthorized && post == pre
    } else {
        let min = pre.members.member(args.user_id).min_visible_event_index;
        &&& r == tip_result(pre.events.tip_verdict(args, min))
        &&& tip_message_post(pre.events, args, min, post.events, pre.events.tip_verdict(args, min))
        &&& post == (GroupChatCore { events: post.events, ..pre })
    }
}

/// What deleting one message does to the group.
///
/// The log marks the message as deleted, as `delete_message_post` says.
/// If that succeeds for a top-level message that is pinned, the message
/// is unpinned at once: it leaves the pinned messages, the time of the
/// last pin is cleared if none is left, and the log records the
/// unpinning as due to the deletion.
pub open spec fn delete_one_post(
    pre: GroupChatCore,
    caller: UserId,
    is_admin: bool,
    min_visible_event_index: EventIndex,
    thread_root: Option<MessageIndex>,
    message_id: MessageId,
    now: TimestampMillis,
    post: GroupChatCore,
    r: DeleteMessageResult,
) -> bool {
    exists|marked: ChatEvents|
        {
            &&& #[trigger] delete_message_post(
                pre.events,
                caller,
                is_admin,
                min_visible_event_index,
                thread_root,
                message_id,
                now,
                marked,
                r,
            )
            &&& if r is Success && thread_root is None && pre.pinned_messages@.contains(
                pre.deleted_index(min_visible_event_index, message_id),
            ) {
                let message_index = pre.deleted_index(min_visible_event_index, message_id);
                &&& strictly_ascending(post.pinned_messages@)
                &&& forall|y: MessageIndex|
                    post.pinned_messages@.contains(y) <==> pre.pinned_messages@.contains(y) && y != message_index
                &&& post.date_last_pinned == if post.pinned_messages@.len() == 0 {
                    None
                } else {
                    pre.date_last_pinned
                }
                &&& main_event_pushed(
                    marked,
                    post.events,
                    ChatEventInternal::MessageUnpinned {
                        message_index,
                        unpinned_by: caller,
                        due_to_message_deleted: true,
                    },
                    now,
                )
                &&& post == (GroupChatCore {
                    pinned_messages: post.pinned_messages,
                    date_last_pinned: post.date_last_pinned,
                    events: post.events,
                    ..pre
                })
            } else {
                post == (GroupChatCore { events: marked, ..pre })
            }
        }
}

/// What deleting the first `k` of a list of messages does: one deletion
/// after the other, each as `delete_one_post` says, with one result each.
pub open spec fn deleted_through(
    pre: GroupChatCore,
    caller: UserId,
    is_admin: bool,
    min_visible_event_index: EventIndex,
    thread_root: Option<MessageIndex>,
    message_ids: Seq<MessageId>,
    k: int,
    now: TimestampMillis,
    post: GroupChatCore,
    results: Seq<(MessageId, DeleteMessageResult)>,
) -> bool
    decreases k,
{
    if k <= 0 || k > message_ids.len() {
        post == pre && results.len() == 0
    } else {
        results.len() > 0 && results.last().0 == message_ids[k - 1] && exists|before: GroupChatCore|
            {
                &&& deleted_through(
                    pre,
                    caller,
                    is_admin,
                    min_visible_event_index,
                    thread_root,
                    message_ids,
                    k - 1,
                    now,
                    before,
                    results.drop_last(),
                )
                &&& #[trigger] delete_one_post(
                    before,
                    caller,
                    is_admin,
                    min_visible_event_index,
                    thread_root,
                    message_ids[k - 1],
                    now,
                    post,
                    results.last().1,
                )
            }
    }
}

/// What restoring a list of messages does to the log and hands back: the
/// log is as `undeleted_through` says for the whole list, and `messages`
/// are the restored messages as the caller is shown them afterwards, in
/// the order in which they were restored (none, where the caller cannot
/// read the chosen log).
pub open spec fn undeleted_and_shown(
    pre: ChatEvents,
    caller: UserId,
    is_admin: bool,
    min_visible_event_index: EventIndex,
    thread_root: Option<MessageIndex>,
    message_ids: Seq<MessageId>,
    now: TimestampMillis,
    post: ChatEvents,
    messages: Seq<Message>,
) -> bool {
    exists|restored: Seq<MessageId>|
        {
            &&& #[trigger] undeleted_through(
                pre,
                caller,
                is_admin,
                min_visible_event_index,
                thread_root,
                message_ids,
                message_ids.len() as int,
                now,
                post,
                restored,
            )
            &&& if post.log_readable(min_visible_event_index, thread_root) {
                shown_by_id(
                    post.log(thread_root),
                    ChatEvents::bound_in(min_visible_event_index, thread_root),
                    restored,
                    Some(caller),
                    messages,
                )
            } else {
                messages.len() == 0
            }
        }
}

/// What restoring the first `k` of a list of messages does to the log:
/// one restoration after the other, each as `undelete_message_post` says;
/// `restored` lists the messages that were restored, in order.
pub open spec fn undeleted_through(
    pre: ChatEvents,
    caller: UserId,
    is_admin: bool,
    min_visible_event_index: EventIndex,
    thread_root: Option<MessageIndex>,
    message_ids: Seq<MessageId>,
    k: int,
    now: TimestampMillis,
    post: ChatEvents,
    restored: Seq<MessageId>,
) -> bool
    decreases k,
{
    if k <= 0 || k > message_ids.len() {
        post == pre && restored.len() == 0
    } else {
        exists|before: ChatEvents, r: UndeleteMessageResult|
            {
                &&& #[trigger] undelete_message_post(
                    before,
                    caller,
                    is_admin,
                    min_visible_event_index,
                    thread_root,
                    message_ids[k - 1],
                    now,
                    post,
                    r,
                )
                &&& if r is Success {
                    restored.len() > 0 && restored.last() == message_ids[k - 1] && undeleted_through(
                        pre,
                        caller,
                        is_admin,
                        min_visible_event_index,
                        thread_root,
                        message_ids,
                        k - 1,
                        now,
                        before,
                        restored.drop_last(),
                    )
                } else {
                    undeleted_through(
                        pre,
                        caller,
                        is_admin,
                        min_visible_event_index,
                        thread_root,
                        message_ids,
                        k - 1,
                        now,
                        before,
                        restored,
                    )
                }
            }
    }
}

/// One more deletion after the first `k - 1` makes the first `k`.
proof fn lemma_deleted_step(
    pre: GroupChatCore,
    caller: UserId,
    is_admin: bool,
    min_visible_event_index: EventIndex,
    thread_root: Option<MessageIndex>,
    message_ids: Seq<MessageId>,
    k: int,
    now: TimestampMillis,
    before: GroupChatCore,
    post: GroupChatCore,
    results: Seq<(MessageId, DeleteMessageResult)>,
)
    requires
        0 < k <= message_ids.len(),
        results.len() > 0,
        results.last().0 == message_ids[k - 1],
        deleted_through(
            pre,
            caller,
            is_admin,
            min_visible_event_index,
            thread_root,
            message_ids,
            k - 1,
            now,
            before,
            results.drop_last(),
        ),
        delete_one_post(
            before,
            caller,
            is_admin,
            min_visible_event_index,
            thread_root,
            message_ids[k - 1],
            now,
            post,
            results.last().1,
        ),
    ensures
        deleted_through(pre, caller, is_admin, min_visible_event_index, thread_root, message_ids, k, now, post, results),
{
}

impl GroupChatCore {
    /// The message index of the top-level message with the given
    /// identifier. Meaningful only where the reader may see that message.
    pub open spec fn deleted_index(&self, min_visible_event_index: EventIndex, message_id: MessageId) -> MessageIndex {
        self.events.main.events@[self.events.target(min_visible_event_index, None, message_id)->Some_0].message().message_index
    }

    /// Gives a reaction to a message.
    pub fn add_reaction(
        &mut self,
        user_id: UserId,
        thread_root_message_index: Option<MessageIndex>,
        message_id: MessageId,
        reaction: String,
        now: TimestampMillis,
    ) -> (r: AddRemoveReactionResult)
        requires
            old(self).wf(),
        ensures
            final(self).wf(),
            react_post(
                *old(self),
                user_id,
                thread_root_message_index,
                message_id,
                reaction,
                now,
                true,
                *final(self),
                r,
            ),
    {
        let min_visible_event_index = match self.members.get(user_id) {
            Some(member) => {
                if member.suspended.value {
                    return AddRemoveReactionResult::UserSuspended;
                }
                if !member.role.can_react_to_messages(&self.permissions) {
                    return AddRemoveReactionResult::NotAuthorized;
                }
                member.min_visible_event_index()
            },
            None => {
                return AddRemoveReactionResult::UserNotInGroup;
            },
        };
        let ghost wanted = reaction;
        let result = AddRemoveReactionResult::from(
            self.events.add_reaction(
                AddRemoveReactionArgs {
                    user_id,
                    min_visible_event_index,
                    thread_root_message_index,
                    message_id,
                    reaction,
                    now,
                },
            ),
        );
        proof {
            lemma_react_keeps_known(
                *old(self),
                user_id,
                thread_root_message_index,
                message_id,
                wanted,
                now,
                true,
                *self,
                result,
            );
        }
        result
    }

    /// Takes a reaction to a message back.
    pub fn remove_reaction(
        &mut self,
        user_id: UserId,
        thread_root_message_index: Option<MessageIndex>,
        message_id: MessageId,
        reaction: String,
        now: TimestampMillis,
    ) -> (r: AddRemoveReactionResult)
        requires
            old(self).wf(),
        ensures
            final(self).wf(),
            react_post(
                *old(self),
                user_id,
                thread_root_message_index,
                message_id,
                reaction,
                now,
                false,
                *final(self),
                r,
            ),
    {
        let min_visible_event_index = match self.members.get(user_id) {
            Some(member) => {
                if member.suspended.value {
                    return AddRemoveReactionResult::UserSuspended;
                }
                if !member.role.can_react_to_messages(&self.permissions) {
                    return AddRemoveReactionResult::NotAuthorized;
                }
                member.min_visible_event_index()
            },
            None => {
                return AddRemoveReactionResult::UserNotInGroup;
            },
        };
        let ghost wanted = reaction;
        let result = AddRemoveReactionResult::from(
            self.events.remove_reaction(
                AddRemoveReactionArgs {
                    user_id,
                    min_visible_event_index,
                    thread_root_message_index,
                    message_id,
                    reaction,
                    now,
                },
            ),
        );
        proof {
            lemma_react_keeps_known(
                *old(self),
                user_id,
                thread_root_message_index,
                message_id,
                wanted,
                now,
                false,
                *self,
                result,
            );
        }
        result
    }

    /// Tips the sender of a message.
    pub fn tip_message(&mut self, args: TipMessageArgs) -> (r: TipMessageResult)
        requires
            old(self).wf(),
        ensures
            final(self).wf(),
            tip_post(*old(self), args, *final(self), r),
    {
        let min_visible_event_index = match self.members.get(args.user_id) {
            Some(member) => {
                if member.suspended.value {
                    return TipMessageResult::UserSuspended;
                }
                if !member.role.can_react_to_messages(&self.permissions) {
                    return TipMessageResult::NotAuthorized;
                }
                member.min_visible_event_index()
            },
            None => {
                return TipMessageResult::UserNotInGroup;
            },
        };
        let result = TipMessageResult::from(self.events.tip_message(args, min_visible_event_index));
        proof {
            lemma_tip_keeps_known(*old(self), args, *self, result);
        }
        result
    }

    /// Deletes one message, and unpins it if it was pinned.
    fn delete_one(
        &mut self,
        caller: UserId,
        is_admin: bool,
        min_visible_event_index: EventIndex,
        thread_root: Option<MessageIndex>,
        message_id: MessageId,
        now: TimestampMillis,
    ) -> (r: DeleteMessageResult)
        requires
            old(self).wf(),
            old(self).has_room(1),
        ensures
            final(self).wf(),
            delete_one_post(
                *old(self),
                caller,
                is_admin,
                min_visible_event_index,
                thread_root,
                message_id,
                now,
                *final(self),
                r,
            ),
            final(self).events.main.next_event_index <= old(self).events.main.next_event_index + 1,
            final(self).members == old(self).members,
            final(self).permissions == old(self).permissions,
    {
        let message_index = if thread_root.is_none() {
            match self.events.find_target(min_visible_event_index, None, message_id) {
                Some(p) => match self.events.main.events[p].as_message() {
                    Some(m) => Some(m.message_index),
                    None => None,
                },
                None => None,
            }
        } else {
            None
        };
        let result = self.events.delete_message(caller, is_admin, min_visible_event_index, thread_root, message_id, now);
        let ghost marked = self.events;
        match (result, message_index) {
            (DeleteMessageResult::Success(_), Some(message_index)) => {
                if crate::sorted_set::remove(&mut self.pinned_messages, message_index) {
                    self.events.push_main_event(
                        ChatEventInternal::MessageUnpinned {
                            message_index,
                            unpinned_by: caller,
                            due_to_message_deleted: true,
                        },
                        now,
                    );
                    if self.pinned_messages.is_empty() {
                        self.date_last_pinned = None;
                    }
                }
            },
            _ => {},
        }
        proof {
            assert(delete_message_post(
                old(self).events,
                caller,
                is_admin,
                min_visible_event_index,
                thread_root,
                message_id,
                now,
                marked,
                result,
            ));
            lemma_delete_one_keeps_known(
                *old(self),
                caller,
                is_admin,
                min_visible_event_index,
                thread_root,
                message_id,
                now,
                *self,
                result,
            );
        }
        result
    }

    /// Deletes messages. Each message is dealt with on its own: a failure
    /// for one does not undo the deletion of another. Of the pinned
    /// messages exactly those that got deleted are unpinned. The log must
    /// have room for one event for each message where the caller is a
    /// member and not suspended; a refusal needs none.
    pub fn delete_messages(
        &mut self,
        user_id: UserId,
        thread_root_message_index: Option<MessageIndex>,
        message_ids: Vec<MessageId>,
        as_platform_moderator: bool,
        now: TimestampMillis,
    ) -> (r: DeleteMessagesResult)
        requires
            old(self).wf(),
            old(self).members.contains(user_id) && !old(self).members.member(user_id).suspended.value
                ==> old(self).has_room(message_ids@.len()),
        ensures
            final(self).wf(),
            if !old(self).members.contains(user_id) {
                r is UserNotInGroup && *final(self) == *old(self)
            } else if old(self).members.member(user_id).suspended.value {
                r is UserSuspended && *final(self) == *old(self)
            } else {
                &&& r matches DeleteMessagesResult::Success(results)
                &&& deleted_through(
                    *old(self),
                    user_id,
                    permitted(old(self).members.member(user_id).role, old(self).permissions.delete_messages)
                        || as_platform_moderator,
                    old(self).members.member(user_id).min_visible_event_index,
                    thread_root_message_index,
                    message_ids@,
                    message_ids@.len() as int,
                    now,
                    *final(self),
                    results@,
                )
                &&& results@.len() == message_ids@.len()
                &&& match thread_root_message_index {
                    None => forall|y: MessageIndex|
                        final(self).pinned_messages@.contains(y) <==> old(self).pinned_messages@.contains(y)
                            && !deleted_indexes(
                            *old(self),
                            old(self).members.member(user_id).min_visible_event_index,
                            message_ids@,
                            results@,
                            message_ids@.len() as int,
                        ).contains(y),
                    Some(_) => final(self).pinned_messages == old(self).pinned_messages
                        && final(self).date_last_pinned == old(self).date_last_pinned,
                }
            },
    {
        let (min_visible_event_index, is_admin) = match self.members.get(user_id) {
            Some(member) => {
                if member.suspended.value {
                    return DeleteMessagesResult::UserSuspended;
                }
                (
                    member.min_visible_event_index(),
                    member.role.can_delete_messages(&self.permissions) || as_platform_moderator,
                )
            },
            None => {
                return DeleteMessagesResult::UserNotInGroup;
            },
        };
        let mut results: Vec<(MessageId, DeleteMessageResult)> = Vec::new();
        let mut i: usize = 0;
        while i < message_ids.len()
            invariant
                i <= message_ids@.len(),
                self.wf(),
                self.events.main.next_event_index + (message_ids@.len() - i) <= u32::MAX,
                deleted_through(
                    *old(self),
                    user_id,
                    is_admin,
                    min_visible_event_index,
                    thread_root_message_index,
                    message_ids@,
                    i as int,
                    now,
                    *self,
                    results@,
                ),
            decreases message_ids@.len() - i,
        {
            let ghost before = *self;
            let ghost earlier = results@;
            let result = self.delete_one(
                user_id,
                is_admin,
                min_visible_event_index,
                thread_root_message_index,
                message_ids[i],
                now,
            );
            results.push((message_ids[i], result));
            proof {
                assert(results@.drop_last() == earlier);
                let k = i as int + 1;
                assert(deleted_through(
                    *old(self),
                    user_id,
                    is_admin,
                    min_visible_event_index,
                    thread_root_message_index,
                    message_ids@,
                    k - 1,
                    now,
                    before,
                    results@.drop_last(),
                ));
                assert(delete_one_post(
                    before,
                    user_id,
                    is_admin,
                    min_visible_event_index,
                    thread_root_message_index,
                    message_ids@[k - 1],
                    now,
                    *self,
                    results@.last().1,
                ));
                lemma_deleted_step(
                    *old(self),
                    user_id,
                    is_admin,
                    min_visible_event_index,
                    thread_root_message_index,
                    message_ids@,
                    k,
                    now,
                    before,
                    *self,
                    results@,
                );
            }
            i += 1;
        }
        proof {
            let n = message_ids@.len() as int;
            match thread_root_message_index {
                None => {
                    lemma_delete_messages_unpins(
                        *old(self),
                        user_id,
                        is_admin,
                        min_visible_event_index,
                        message_ids@,
                        n,
                        now,
                        *self,
                        results@,
                    );
                },
                Some(root) => {
                    lemma_delete_in_thread_keeps_pins(
                        *old(self),
                        user_id,
                        is_admin,
                        min_visible_event_index,
                        root,
                        message_ids@,
                        n,
                        now,
                        *self,
                        results@,
                    );
                    lemma_deleted_count(
                        *old(self),
                        user_id,
                        is_admin,
                        min_visible_event_index,
                        thread_root_message_index,
                        message_ids@,
                        n,
                        now,
                        *self,
                        results@,
                    );
                },
            }
        }
        DeleteMessagesResult::Success(results)
    }

    /// Restores deleted messages and returns those that were restored, as
    /// the caller is shown them. Each message is dealt with on its own.
    pub fn undelete_messages(
        &mut self,
        user_id: UserId,
        thread_root_message_index: Option<MessageIndex>,
        message_ids: Vec<MessageId>,
        now: TimestampMillis,
    ) -> (r: UndeleteMessagesResult)
        requires
            old(self).wf(),
        ensures
            final(self).wf(),
            if !old(self).members.contains(user_id) {
                r is UserNotInGroup && *final(self) == *old(self)
            } else if old(self).members.member(user_id).suspended.value {
                r is UserSuspended && *final(self) == *old(self)
            } else {
                &&& r matches UndeleteMessagesResult::Success(messages)
                &&& undeleted_and_shown(
                    old(self).events,
                    user_id,
                    permitted(old(self).members.member(user_id).role, old(self).permissions.delete_messages),
                    old(self).members.member(user_id).min_visible_event_index,
                    thread_root_message_index,
                    message_ids@,
                    now,
                    final(self).events,
                    messages@,
                )
                &&& *final(self) == (GroupChatCore { events: final(self).events, ..*old(self) })
            },
    {
        let (min_visible_event_index, is_admin) = match self.members.get(user_id) {
            Some(member) => {
                if member.suspended.value {
                    return UndeleteMessagesResult::UserSuspended;
                }
                (member.min_visible_event_index(), member.role.can_delete_messages(&self.permissions))
            },
            None => {
                return UndeleteMessagesResult::UserNotInGroup;
            },
        };
        let mut restored: Vec<MessageId> = Vec::new();
        let mut i: usize = 0;
        while i < message_ids.len()
            invariant
                i <= message_ids@.len(),
                self.events.wf(),
                *self == (GroupChatCore { events: self.events, ..*old(self) }),
                undeleted_through(
                    old(self).events,
                    user_id,
                    is_admin,
                    min_visible_event_index,
                    thread_root_message_index,
                    message_ids@,
                    i as int,
                    now,
                    self.events,
                    restored@,
                ),
            decreases message_ids@.len() - i,
        {
            let ghost before = self.events;
            let ghost earlier = restored@;
            let result = self.events.undelete_message(
                user_id,
                is_admin,
                min_visible_event_index,
                thread_root_message_index,
                message_ids[i],
                now,
            );
            if matches!(result, UndeleteMessageResult::Success) {
                restored.push(message_ids[i]);
                assert(restored@.drop_last() == earlier);
            }
            proof {
                let k = i as int + 1;
                assert(undelete_message_post(
                    before,
                    user_id,
                    is_admin,
                    min_visible_event_index,
                    thread_root_message_index,
                    message_ids@[k - 1],
                    now,
                    self.events,
                    result,
                ));
                assert(undeleted_through(
                    old(self).events,
                    user_id,
                    is_admin,
                    min_visible_event_index,
                    thread_root_message_index,
                    message_ids@,
                    k - 1,
                    now,
                    before,
                    earlier,
                ));
                assert(undeleted_through(
                    old(self).events,
                    user_id,
                    is_admin,
                    min_visible_event_index,
                    thread_root_message_index,
                    message_ids@,
                    k,
                    now,
                    self.events,
                    restored@,
                ));
            }
            i += 1;
        }
        let messages = match self.events.events_reader(min_visible_event_index, thread_root_message_index) {
            Some(reader) => reader.hydrate_by_id(&restored, Some(user_id)),
            None => Vec::new(),
        };
        proof {
            lemma_undelete_messages_keeps_known(
                *old(self),
                user_id,
                is_admin,
                min_visible_event_index,
                thread_root_message_index,
                message_ids@,
                now,
                *self,
                messages@,
            );
        }
        UndeleteMessagesResult::Success(messages)
    }
}

} // verus!
