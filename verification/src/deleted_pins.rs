//! What deleting a batch of messages does to the pinned messages: exactly
//! the top-level messages that got deleted leave them.

use vstd::prelude::*;
use crate::chat_events::ChatEvents;
use crate::event_list::{with_message_id, ChatEventsList};
use crate::group::GroupChatCore;
use crate::lifecycle::delete_message_post;
use crate::messages::{delete_one_post, deleted_through};
use crate::results::DeleteMessageResult;
use crate::seq_util::{first_match, lemma_first_match, lemma_first_match_at, lemma_first_match_none};
use crate::sorted_set::strictly_ascending;
use crate::types::{EventIndex, MessageId, MessageIndex, TimestampMillis, UserId};

verus! {

/// The later log holds every event of the earlier one at its place, with
/// the same index and, for a message, the same message index and
/// identifier; what it holds beyond them are no messages.
pub open spec fn same_messages(earlier: ChatEventsList, later: ChatEventsList) -> bool {
    &&& later.events@.len() >= earlier.events@.len()
    &&& forall|i: int|
        0 <= i < earlier.events@.len() ==> {
            &&& (#[trigger] later.events@[i]).index == earlier.events@[i].index
            &&& later.events@[i].is_message() == earlier.events@[i].is_message()
            &&& later.events@[i].is_message() ==> later.events@[i].message().message_index
                == earlier.events@[i].message().message_index && later.events@[i].message().message_id
                == earlier.events@[i].message().message_id
        }
    &&& forall|i: int| earlier.events@.len() <= i < later.events@.len() ==> !(#[trigger] later.events@[i]).is_message()
}

/// The message indexes of the top-level messages, as the group held them
/// before the batch, whose deletion succeeded among the first `k`.
pub open spec fn deleted_indexes(
    pre: GroupChatCore,
    min_visible_event_index: EventIndex,
    message_ids: Seq<MessageId>,
    results: Seq<(MessageId, DeleteMessageResult)>,
    k: int,
) -> Set<MessageIndex>
    decreases k,
{
    if k <= 0 || k > message_ids.len() || k > results.len() {
        Set::empty()
    } else {
        let earlier = deleted_indexes(pre, min_visible_event_index, message_ids, results, k - 1);
        if results[k - 1].1 is Success {
            earlier.insert(pre.deleted_index(min_visible_event_index, message_ids[k - 1]))
        } else {
            earlier
        }
    }
}

/// Logs that hold the same messages find each message, by its identifier,
/// at the same place.
pub proof fn lemma_same_messages_found(
    earlier: ChatEventsList,
    later: ChatEventsList,
    bound: EventIndex,
    message_id: MessageId,
)
    requires
        same_messages(earlier, later),
    ensures
        later.visible_message_id_position(bound, message_id) == earlier.visible_message_id_position(bound, message_id),
        earlier.visible_message_id_position(bound, message_id) matches Some(p) ==> later.events@[p].message().message_index
            == earlier.events@[p].message().message_index,
{
    let found = with_message_id(message_id);
    lemma_first_match(earlier.events@, found);
    let p = first_match(earlier.events@, found);
    if p < earlier.events@.len() {
        assert(found(later.events@[p]));
        assert forall|i: int| 0 <= i < p implies !found(#[trigger] later.events@[i]) by {
            assert(!found(earlier.events@[i]));
        }
        lemma_first_match_at(later.events@, found, p);
    } else {
        assert forall|i: int| 0 <= i < later.events@.len() implies !found(#[trigger] later.events@[i]) by {
            if i < earlier.events@.len() {
                assert(!found(earlier.events@[i]));
            }
        }
        lemma_first_match_none(later.events@, found);
    }
}

/// Holding the same messages carries over from one log to the next.
pub proof fn lemma_same_messages_chain(a: ChatEventsList, b: ChatEventsList, c: ChatEventsList)
    requires
        same_messages(a, b),
        same_messages(b, c),
    ensures
        same_messages(a, c),
{
    assert forall|i: int| 0 <= i < a.events@.len() implies {
        &&& (#[trigger] c.events@[i]).index == a.events@[i].index
        &&& c.events@[i].is_message() == a.events@[i].is_message()
        &&& c.events@[i].is_message() ==> c.events@[i].message().message_index == a.events@[i].message().message_index
            && c.events@[i].message().message_id == a.events@[i].message().message_id
    } by {
        assert(b.events@[i].index == a.events@[i].index);
    }
    assert forall|i: int| a.events@.len() <= i < c.events@.len() implies !(#[trigger] c.events@[i]).is_message() by {
        if i < b.events@.len() {
            assert(!b.events@[i].is_message());
        }
    }
}

/// One deletion leaves the messages of the main log where they were, and
/// takes out of the pinned messages the deleted message and nothing else.
pub proof fn lemma_delete_one_unpins(
    pre: GroupChatCore,
    caller: UserId,
    is_admin: bool,
    min_visible_event_index: EventIndex,
    thread_root: Option<MessageIndex>,
    message_id: MessageId,
    now: TimestampMillis,
    post: GroupChatCore,
    r: DeleteMessageResult,
)
    requires
        strictly_ascending(pre.pinned_messages@),
        pre.pinned_messages@.len() == 0 <==> pre.date_last_pinned is None,
        delete_one_post(pre, caller, is_admin, min_visible_event_index, thread_root, message_id, now, post, r),
    ensures
        same_messages(pre.events.main, post.events.main),
        strictly_ascending(post.pinned_messages@),
        post.pinned_messages@.len() == 0 <==> post.date_last_pinned is None,
        forall|y: MessageIndex|
            post.pinned_messages@.contains(y) <==> pre.pinned_messages@.contains(y) && !(r is Success && thread_root is None
                && y == pre.deleted_index(min_visible_event_index, message_id)),
        thread_root is Some ==> post.pinned_messages == pre.pinned_messages && post.date_last_pinned
            == pre.date_last_pinned,
{
    let marked = choose|marked: ChatEvents| #[trigger]
        delete_message_post(
            pre.events,
            caller,
            is_admin,
            min_visible_event_index,
            thread_root,
            message_id,
            now,
            marked,
            r,
        ) && if r is Success && thread_root is None && pre.pinned_messages@.contains(
            pre.deleted_index(min_visible_event_index, message_id),
        ) {
            let message_index = pre.deleted_index(min_visible_event_index, message_id);
            &&& strictly_ascending(post.pinned_messages@)
            &&& forall|y: MessageIndex|
                post.pinned_messages@.contains(y) <==> pre.pinned_messages@.contains(y) && y != message_index
            &&& post.date_last_pinned == if post.pinned_messages@.len() == 0 {
                None
            } else {
                pre.date_last_pinned
            }
            &&& crate::chat_events::main_event_pushed(
                marked,
                post.events,
                crate::events::ChatEventInternal::MessageUnpinned {
                    message_index,
                    unpinned_by: caller,
                    due_to_message_deleted: true,
                },
                now,
            )
            &&& post == (GroupChatCore {
                pinned_messages: post.pinned_messages,
                date_last_pinned: post.date_last_pinned,
                events: post.events,
                ..pre
            })
        } else {
            post == (GroupChatCore { events: marked, ..pre })
        };
    if r is Success && thread_root is None {
        let p = pre.events.target(min_visible_event_index, None, message_id)->Some_0;
        lemma_first_match(pre.events.main.events@, with_message_id(message_id));
        assert(0 <= p < pre.events.main.events@.len());
        assert forall|i: int| 0 <= i < pre.events.main.events@.len() implies {
            &&& (#[trigger] marked.main.events@[i]).index == pre.events.main.events@[i].index
            &&& marked.main.events@[i].is_message() == pre.events.main.events@[i].is_message()
            &&& marked.main.events@[i].is_message() ==> marked.main.events@[i].message().message_index
                == pre.events.main.events@[i].message().message_index && marked.main.events@[i].message().message_id
                == pre.events.main.events@[i].message().message_id
        } by {
            if i != p {
                assert(marked.main.events@[i] == pre.events.main.events@[i]);
            }
        }
    }
    assert(same_messages(pre.events.main, marked.main));
    if post.pinned_messages@.len() > 0 {
        assert(post.pinned_messages@.contains(post.pinned_messages@[0]));
    }
}

/// Deleting a batch of top-level messages takes out of the pinned
/// messages exactly those that got deleted; the others stay in order, and
/// a time of the last pin stays on record exactly while one is left.
pub proof fn lemma_delete_messages_unpins(
    pre: GroupChatCore,
    caller: UserId,
    is_admin: bool,
    min_visible_event_index: EventIndex,
    message_ids: Seq<MessageId>,
    k: int,
    now: TimestampMillis,
    post: GroupChatCore,
    results: Seq<(MessageId, DeleteMessageResult)>,
)
    requires
        strictly_ascending(pre.pinned_messages@),
        pre.pinned_messages@.len() == 0 <==> pre.date_last_pinned is None,
        0 <= k <= message_ids.len(),
        deleted_through(pre, caller, is_admin, min_visible_event_index, None, message_ids, k, now, post, results),
    ensures
        results.len() == k,
        same_messages(pre.events.main, post.events.main),
        strictly_ascending(post.pinned_messages@),
        post.pinned_messages@.len() == 0 <==> post.date_last_pinned is None,
        forall|y: MessageIndex|
            post.pinned_messages@.contains(y) <==> pre.pinned_messages@.contains(y) && !deleted_indexes(
                pre,
                min_visible_event_index,
                message_ids,
                results,
                k,
            ).contains(y),
    decreases k,
{
    if k > 0 {
        let before = choose|before: GroupChatCore|
            deleted_through(
                pre,
                caller,
                is_admin,
                min_visible_event_index,
                None,
                message_ids,
                k - 1,
                now,
                before,
                results.drop_last(),
            ) && #[trigger] delete_one_post(
                before,
                caller,
                is_admin,
                min_visible_event_index,
                None,
                message_ids[k - 1],
                now,
                post,
                results.last().1,
            );
        lemma_delete_messages_unpins(
            pre,
            caller,
            is_admin,
            min_visible_event_index,
            message_ids,
            k - 1,
            now,
            before,
            results.drop_last(),
        );
        lemma_delete_one_unpins(
            before,
            caller,
            is_admin,
            min_visible_event_index,
            None,
            message_ids[k - 1],
            now,
            post,
            results.last().1,
        );
        lemma_same_messages_chain(pre.events.main, before.events.main, post.events.main);
        lemma_same_messages_found(pre.events.main, before.events.main, min_visible_event_index, message_ids[k - 1]);
        lemma_deleted_indexes_prefix(pre, min_visible_event_index, message_ids, results, k - 1);
        if results.last().1 is Success {
            assert(before.events.target(min_visible_event_index, None, message_ids[k - 1]) is Some);
            assert(before.deleted_index(min_visible_event_index, message_ids[k - 1]) == pre.deleted_index(
                min_visible_event_index,
                message_ids[k - 1],
            ));
        }
    }
}

/// The messages deleted among the first `k` do not depend on the results
/// that come after them.
pub proof fn lemma_deleted_indexes_prefix(
    pre: GroupChatCore,
    min_visible_event_index: EventIndex,
    message_ids: Seq<MessageId>,
    results: Seq<(MessageId, DeleteMessageResult)>,
    k: int,
)
    requires
        0 <= k < results.len(),
        k <= message_ids.len(),
    ensures
        deleted_indexes(pre, min_visible_event_index, message_ids, results.drop_last(), k) == deleted_indexes(
            pre,
            min_visible_event_index,
            message_ids,
            results,
            k,
        ),
    decreases k,
{
    if k > 0 {
        lemma_deleted_indexes_prefix(pre, min_visible_event_index, message_ids, results, k - 1);
        assert(results.drop_last()[k - 1] == results[k - 1]);
    }
}

/// A batch gives one result for each message.
pub proof fn lemma_deleted_count(
    pre: GroupChatCore,
    caller: UserId,
    is_admin: bool,
    min_visible_event_index: EventIndex,
    thread_root: Option<MessageIndex>,
    message_ids: Seq<MessageId>,
    k: int,
    now: TimestampMillis,
    post: GroupChatCore,
    results: Seq<(MessageId, DeleteMessageResult)>,
)
    requires
        0 <= k <= message_ids.len(),
        deleted_through(pre, caller, is_admin, min_visible_event_index, thread_root, message_ids, k, now, post, results),
    ensures
        results.len() == k,
    decreases k,
{
    if k > 0 {
        let before = choose|before: GroupChatCore|
            deleted_through(
                pre,
                caller,
                is_admin,
                min_visible_event_index,
                thread_root,
                message_ids,
                k - 1,
                now,
                before,
                results.drop_last(),
            ) && #[trigger] delete_one_post(
                before,
                caller,
                is_admin,
                min_visible_event_index,
                thread_root,
                message_ids[k - 1],
                now,
                post,
                results.last().1,
            );
        lemma_deleted_count(
            pre,
            caller,
            is_admin,
            min_visible_event_index,
            thread_root,
            message_ids,
            k - 1,
            now,
            before,
            results.drop_last(),
        );
    }
}

/// Deleting messages of a thread leaves the pinned messages alone.
pub proof fn lemma_delete_in_thread_keeps_pins(
    pre: GroupChatCore,
    caller: UserId,
    is_admin: bool,
    min_visible_event_index: EventIndex,
    root: MessageIndex,
    message_ids: Seq<MessageId>,
    k: int,
    now: TimestampMillis,
    post: GroupChatCore,
    results: Seq<(MessageId, DeleteMessageResult)>,
)
    requires
        0 <= k <= message_ids.len(),
        deleted_through(pre, caller, is_admin, min_visible_event_index, Some(root), message_ids, k, now, post, results),
    ensures
        post.pinned_messages == pre.pinned_messages,
        post.date_last_pinned == pre.date_last_pinned,
    decreases k,
{
    if k > 0 {
        let before = choose|before: GroupChatCore|
            deleted_through(
                pre,
                caller,
                is_admin,
                min_visible_event_index,
                Some(root),
                message_ids,
                k - 1,
                now,
                before,
                results.drop_last(),
            ) && #[trigger] delete_one_post(
                before,
                caller,
                is_admin,
                min_visible_event_index,
                Some(root),
                message_ids[k - 1],
                now,
                post,
                results.last().1,
            );
        lemma_delete_in_thread_keeps_pins(
            pre,
            caller,
            is_admin,
            min_visible_event_index,
            root,
            message_ids,
            k - 1,
            now,
            before,
            results.drop_last(),
        );
    }
}

} // verus!
