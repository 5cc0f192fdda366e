//! Evicting events whose time has run out.

use vstd::prelude::*;
use crate::chat_events::{none_later, ChatEvents, ThreadLog};
use crate::event_list::{indexes_ascend, message_indexes_ascend, ChatEventsList};
use crate::events::{ChatEventInternal, EventWrapperInternal};
use crate::group::GroupChatCore;
use crate::known_threads::{holds, lemma_evicted_keeps_known};
use crate::members::{lemma_same_roles, lemma_same_users, GroupMemberInternal};
use crate::seq_util::{contains_id, contains_index, lemma_without, remove_all, without};
use crate::types::{EventIndex, MessageIndex, TimestampMillis, UserId};

verus! {

/// A thread whose root has expired, with the users involved in it.
#[derive(Debug)]
pub struct ExpiredThread {
    pub root_message_index: MessageIndex,
    pub users: Vec<UserId>,
}

/// What an eviction took out of the log.
#[derive(Debug)]
pub struct RemoveExpiredEventsResult {
    pub events: Vec<EventIndex>,
    pub threads: Vec<ExpiredThread>,
}

/// The events among the first `k` that have not expired at `now`, in order.
pub open spec fn kept(s: Seq<EventWrapperInternal>, now: TimestampMillis, k: int) -> Seq<EventWrapperInternal>
    decreases k,
{
    if k <= 0 || k > s.len() {
        Seq::empty()
    } else if s[k - 1].expired_at(now) {
        kept(s, now, k - 1)
    } else {
        kept(s, now, k - 1).push(s[k - 1])
    }
}

/// Every event that is kept is one of those that were held.
pub proof fn lemma_kept_from(s: Seq<EventWrapperInternal>, now: TimestampMillis, k: int, t: int) -> (q: int)
    requires
        0 <= k <= s.len(),
        0 <= t < kept(s, now, k).len(),
    ensures
        0 <= q < k,
        kept(s, now, k)[t] == s[q],
    decreases k,
{
    if s[k - 1].expired_at(now) {
        lemma_kept_from(s, now, k - 1, t)
    } else if t == kept(s, now, k - 1).len() {
        k - 1
    } else {
        lemma_kept_from(s, now, k - 1, t)
    }
}

/// The indexes of the events among the first `k` that have expired at
/// `now`, in order.
pub open spec fn expired_indexes(s: Seq<EventWrapperInternal>, now: TimestampMillis, k: int) -> Seq<EventIndex>
    decreases k,
{
    if k <= 0 || k > s.len() {
        Seq::empty()
    } else if s[k - 1].expired_at(now) {
        expired_indexes(s, now, k - 1).push(s[k - 1].index)
    } else {
        expired_indexes(s, now, k - 1)
    }
}

/// Whether the event is an expired message that roots a thread.
pub open spec fn is_expired_root(w: EventWrapperInternal, now: TimestampMillis) -> bool {
    w.expired_at(now) && w.is_message() && w.message().thread_summary is Some
}

/// The roots of the threads that expire with the first `k` events, in order.
pub open spec fn expired_roots(s: Seq<EventWrapperInternal>, now: TimestampMillis, k: int) -> Seq<MessageIndex>
    decreases k,
{
    if k <= 0 || k > s.len() {
        Seq::empty()
    } else if is_expired_root(s[k - 1], now) {
        expired_roots(s, now, k - 1).push(s[k - 1].message().message_index)
    } else {
        expired_roots(s, now, k - 1)
    }
}

/// Whether `reported` lists the threads that expire with the first `k`
/// events: one entry for each expired root, in order, naming the root and
/// the users involved in the thread, each user once.
pub open spec fn threads_reported(
    s: Seq<EventWrapperInternal>,
    now: TimestampMillis,
    k: int,
    reported: Seq<ExpiredThread>,
) -> bool
    decreases k,
{
    if k <= 0 || k > s.len() {
        reported.len() == 0
    } else if is_expired_root(s[k - 1], now) {
        let summary = s[k - 1].message().thread_summary->Some_0;
        &&& reported.len() > 0
        &&& reported.last().root_message_index == s[k - 1].message().message_index
        &&& forall|u: UserId| reported.last().users@.contains(u) <==> summary.is_involved(u)
        &&& reported.last().users@.no_duplicates()
        &&& threads_reported(s, now, k - 1, reported.drop_last())
    } else {
        threads_reported(s, now, k - 1, reported)
    }
}

/// The thread logs among the first `k` whose root is not one of `roots`.
pub open spec fn surviving(threads: Seq<ThreadLog>, roots: Seq<MessageIndex>, k: int) -> Seq<ThreadLog>
    decreases k,
{
    if k <= 0 || k > threads.len() {
        Seq::empty()
    } else if roots.contains(threads[k - 1].root_message_index) {
        surviving(threads, roots, k - 1)
    } else {
        surviving(threads, roots, k - 1).push(threads[k - 1])
    }
}

/// A log from which one event was taken out is still well formed.
proof fn lemma_remove_keeps_wf(before: ChatEventsList, after: ChatEventsList, i: int)
    requires
        before.wf(),
        0 <= i < before.events@.len(),
        after.events@ == before.events@.remove(i),
        after.next_event_index == before.next_event_index,
        after.next_message_index == before.next_message_index,
    ensures
        after.wf(),
{
    let s = before.events@;
    let t = after.events@;
    assert forall|a: int| 0 <= a < t.len() implies #[trigger] t[a] == s[if a < i { a } else { a + 1 }] by {}
    assert(indexes_ascend(t)) by {
        assert forall|a: int, b: int| 0 <= a < b < t.len() implies (#[trigger] t[a]).index < (#[trigger] t[b]).index by {
            let a0 = if a < i { a } else { a + 1 };
            let b0 = if b < i { b } else { b + 1 };
            assert(t[a] == s[a0] && t[b] == s[b0]);
        }
    }
    assert(message_indexes_ascend(t)) by {
        assert forall|a: int, b: int|
            0 <= a < b < t.len() && (#[trigger] t[a]).is_message() && (#[trigger] t[b]).is_message() implies t[a].message().message_index
            < t[b].message().message_index by {
            let a0 = if a < i { a } else { a + 1 };
            let b0 = if b < i { b } else { b + 1 };
            assert(t[a] == s[a0] && t[b] == s[b0]);
        }
    }
}

impl ChatEventsList {
    /// Takes out of the log every event that has expired at `now` and
    /// returns the indexes of the events taken out. The indexes to be
    /// given out next stay as they are.
    pub fn evict(&mut self, now: TimestampMillis) -> (r: Vec<EventIndex>)
        requires
            old(self).wf(),
        ensures
            final(self).wf(),
            final(self).events@ == kept(old(self).events@, now, old(self).events@.len() as int),
            final(self).next_event_index == old(self).next_event_index,
            final(self).next_message_index == old(self).next_message_index,
            r@ == expired_indexes(old(self).events@, now, old(self).events@.len() as int),
    {
        let ghost s = self.events@;
        let mut out: Vec<EventIndex> = Vec::new();
        let mut i: usize = 0;
        let ghost mut done: int = 0;
        assert(self.events@ =~= kept(s, now, 0) + s.subrange(0, s.len() as int));
        while i < self.events.len()
            invariant
                s == old(self).events@,
                0 <= done <= s.len(),
                i <= self.events@.len(),
                i == kept(s, now, done).len(),
                self.events@ == kept(s, now, done) + s.subrange(done, s.len() as int),
                self.wf(),
                self.next_event_index == old(self).next_event_index,
                self.next_message_index == old(self).next_message_index,
                out@ == expired_indexes(s, now, done),
            decreases self.events@.len() - i,
        {
            let ghost current = self.events@;
            let ghost before_list = *self;
            assert(current[i as int] == s[done]);
            if self.events[i].is_expired(now) {
                out.push(self.events[i].index);
                self.events.remove(i);
                proof {
                    lemma_remove_keeps_wf(before_list, *self, i as int);
                    assert(self.events@ =~= kept(s, now, done + 1) + s.subrange(done + 1, s.len() as int));
                }
            } else {
                proof {
                    assert(self.events@ =~= kept(s, now, done + 1) + s.subrange(done + 1, s.len() as int));
                }
                i += 1;
            }
            proof {
                done = done + 1;
            }
        }
        proof {
            assert(done == s.len()) by {
                if done < s.len() {
                    assert(self.events@.len() == kept(s, now, done).len() + (s.len() - done));
                }
            }
            assert(self.events@ =~= kept(s, now, s.len() as int));
        }
        out
    }
}

/// The log of a thread after its expired replies were taken out.
pub open spec fn thread_evicted(before: ThreadLog, after: ThreadLog, now: TimestampMillis) -> bool {
    &&& after.root_message_index == before.root_message_index
    &&& after.list.events@ == kept(before.list.events@, now, before.list.events@.len() as int)
    &&& after.list.next_event_index == before.list.next_event_index
    &&& after.list.next_message_index == before.list.next_message_index
}

impl ChatEvents {
    /// Takes out of the main log every event that has expired at `now`,
    /// with each expired root message the log of its thread, and out of
    /// the threads that stay their expired replies. Returns the indexes
    /// of the events taken out of the main log and the threads that went.
    pub fn remove_expired_events(&mut self, now: TimestampMillis) -> (r: RemoveExpiredEventsResult)
        requires
            old(self).wf(),
        ensures
            final(self).wf(),
            expired_post(*old(self), now, *final(self), r),
    {
        let ghost s = self.main.events@;
        let mut events: Vec<EventIndex> = Vec::new();
        let mut threads: Vec<ExpiredThread> = Vec::new();
        let mut roots: Vec<MessageIndex> = Vec::new();
        let mut i: usize = 0;
        let ghost mut done: int = 0;
        assert(self.main.events@ =~= kept(s, now, 0) + s.subrange(0, s.len() as int));
        while i < self.main.events.len()
            invariant
                s == old(self).main.events@,
                0 <= done <= s.len(),
                i <= self.main.events@.len(),
                i == kept(s, now, done).len(),
                self.main.events@ == kept(s, now, done) + s.subrange(done, s.len() as int),
                self.main.wf(),
                self.main.next_event_index == old(self).main.next_event_index,
                self.main.next_message_index == old(self).main.next_message_index,
                self.threads == old(self).threads,
                self.events_ttl == old(self).events_ttl,
                self.recently_updated == old(self).recently_updated,
                self.latest_event_timestamp == old(self).latest_event_timestamp,
                events@ == expired_indexes(s, now, done),
                roots@ == expired_roots(s, now, done),
                threads_reported(s, now, done, threads@),
            decreases self.main.events@.len() - i,
        {
            let ghost current = self.main.events@;
            let ghost before_list = self.main;
            assert(current[i as int] == s[done]);
            if self.main.events[i].is_expired(now) {
                events.push(self.main.events[i].index);
                match &self.main.events[i].event {
                    ChatEventInternal::Message(m) => {
                        match &m.thread_summary {
                            Some(summary) => {
                                let ghost reported = threads@;
                                roots.push(m.message_index);
                                threads.push(
                                    ExpiredThread {
                                        root_message_index: m.message_index,
                                        users: summary.participants_and_followers(true),
                                    },
                                );
                                assert(threads@.drop_last() == reported);
                            },
                            None => {},
                        }
                    },
                    _ => {},
                }
                self.main.events.remove(i);
                proof {
                    lemma_remove_keeps_wf(before_list, self.main, i as int);
                    assert(self.main.events@ =~= kept(s, now, done + 1) + s.subrange(done + 1, s.len() as int));
                }
            } else {
                proof {
                    assert(self.main.events@ =~= kept(s, now, done + 1) + s.subrange(done + 1, s.len() as int));
                }
                i += 1;
            }
            proof {
                done = done + 1;
            }
        }
        proof {
            assert(done == s.len()) by {
                if done < s.len() {
                    assert(self.main.events@.len() == kept(s, now, done).len() + (s.len() - done));
                }
            }
            assert(self.main.events@ =~= kept(s, now, s.len() as int));
        }
        let ghost all_threads = self.threads@;
        let mut t: usize = 0;
        let ghost mut seen: int = 0;
        assert(self.threads@ =~= surviving(all_threads, roots@, 0) + all_threads.subrange(0, all_threads.len() as int));
        while t < self.threads.len()
            invariant
                all_threads == old(self).threads@,
                0 <= seen <= all_threads.len(),
                t <= self.threads@.len(),
                t == surviving(all_threads, roots@, seen).len(),
                self.threads@ == surviving(all_threads, roots@, seen) + all_threads.subrange(
                    seen,
                    all_threads.len() as int,
                ),
                forall|k: int|
                    0 <= k < self.threads@.len() ==> (#[trigger] self.threads@[k]).list.wf()
                        && self.threads@[k].list.next_event_index > 0 && none_later(
                        self.threads@[k].list.events@,
                        self.latest_event_timestamp,
                    ),
                self.main.wf(),
                self.main.events@ == kept(s, now, s.len() as int),
                self.main.next_event_index == old(self).main.next_event_index,
                self.main.next_message_index == old(self).main.next_message_index,
                self.events_ttl == old(self).events_ttl,
                self.recently_updated == old(self).recently_updated,
                self.latest_event_timestamp == old(self).latest_event_timestamp,
            decreases self.threads@.len() - t,
        {
            let ghost current = self.threads@;
            assert(current[t as int] == all_threads[seen]);
            if contains_index(&roots, self.threads[t].root_message_index) {
                self.threads.remove(t);
                proof {
                    assert(self.threads@ =~= surviving(all_threads, roots@, seen + 1) + all_threads.subrange(
                        seen + 1,
                        all_threads.len() as int,
                    ));
                    assert forall|k: int| 0 <= k < self.threads@.len() implies (#[trigger] self.threads@[k]).list.wf()
                        && self.threads@[k].list.next_event_index > 0 && none_later(
                        self.threads@[k].list.events@,
                        self.latest_event_timestamp,
                    ) by {
                        let k0 = if k < t { k } else { k + 1 };
                        assert(self.threads@[k] == current[k0]);
                    }
                }
            } else {
                proof {
                    assert(self.threads@ =~= surviving(all_threads, roots@, seen + 1) + all_threads.subrange(
                        seen + 1,
                        all_threads.len() as int,
                    ));
                }
                t += 1;
            }
            proof {
                seen = seen + 1;
            }
        }
        proof {
            assert(seen == all_threads.len()) by {
                if seen < all_threads.len() {
                    assert(self.threads@.len() == surviving(all_threads, roots@, seen).len() + (all_threads.len()
                        - seen));
                }
            }
            assert(self.threads@ =~= surviving(all_threads, roots@, all_threads.len() as int));
        }
        let ghost left = self.threads@;
        let mut v: usize = 0;
        while v < self.threads.len()
            invariant
                v <= self.threads@.len(),
                self.threads@.len() == left.len(),
                forall|k: int| 0 <= k < v ==> thread_evicted(left[k], #[trigger] self.threads@[k], now),
                forall|k: int| v <= k < left.len() ==> #[trigger] self.threads@[k] == left[k],
                forall|k: int|
                    0 <= k < self.threads@.len() ==> (#[trigger] self.threads@[k]).list.wf()
                        && self.threads@[k].list.next_event_index > 0 && none_later(
                        self.threads@[k].list.events@,
                        self.latest_event_timestamp,
                    ),
                self.main.wf(),
                self.main.events@ == kept(s, now, s.len() as int),
                self.main.next_event_index == old(self).main.next_event_index,
                self.main.next_message_index == old(self).main.next_message_index,
                self.events_ttl == old(self).events_ttl,
                self.recently_updated == old(self).recently_updated,
                self.latest_event_timestamp == old(self).latest_event_timestamp,
            decreases self.threads@.len() - v,
        {
            let ghost current = self.threads@;
            self.threads[v].list.evict(now);
            proof {
                assert forall|k: int| 0 <= k < v implies thread_evicted(left[k], #[trigger] self.threads@[k], now) by {
                    assert(self.threads@[k] == current[k]);
                }
                assert forall|k: int| v + 1 <= k < left.len() implies #[trigger] self.threads@[k] == left[k] by {
                    assert(self.threads@[k] == current[k]);
                }
                assert forall|k: int| 0 <= k < self.threads@.len() implies (#[trigger] self.threads@[k]).list.wf()
                    && self.threads@[k].list.next_event_index > 0 && none_later(
                    self.threads@[k].list.events@,
                    self.latest_event_timestamp,
                ) by {
                    if k != v {
                        assert(self.threads@[k] == current[k]);
                    } else {
                        let before = current[v as int].list.events@;
                        let after = self.threads@[k].list.events@;
                        assert forall|i: int| 0 <= i < after.len() implies (#[trigger] after[i]).timestamp
                            <= self.latest_event_timestamp by {
                            let q = lemma_kept_from(before, now, before.len() as int, i);
                            assert(before[q].timestamp <= self.latest_event_timestamp);
                        }
                    }
                }
            }
            v += 1;
        }
        proof {
            assert forall|i: int| 0 <= i < self.main.events@.len() implies (#[trigger] self.main.events@[i]).timestamp
                <= self.latest_event_timestamp by {
                let q = lemma_kept_from(s, now, s.len() as int, i);
                assert(s[q].timestamp <= old(self).latest_event_timestamp);
            }
        }
        RemoveExpiredEventsResult { events, threads }
    }
}

/// What an eviction does to the log: the main log keeps the events that
/// have not expired, the logs of the threads whose root expired go, the
/// other threads keep the replies that have not expired, and the result
/// names what went. Indexes are not given out again.
pub open spec fn expired_post(pre: ChatEvents, now: TimestampMillis, post: ChatEvents, r: RemoveExpiredEventsResult) -> bool {
    let s = pre.main.events@;
    let n = s.len() as int;
    &&& post.main.events@ == kept(s, now, n)
    &&& post.main.next_event_index == pre.main.next_event_index
    &&& post.main.next_message_index == pre.main.next_message_index
    &&& post.threads@.len() == surviving(pre.threads@, expired_roots(s, now, n), pre.threads@.len() as int).len()
    &&& forall|t: int|
        0 <= t < post.threads@.len() ==> thread_evicted(
            surviving(pre.threads@, expired_roots(s, now, n), pre.threads@.len() as int)[t],
            #[trigger] post.threads@[t],
            now,
        )
    &&& post.events_ttl == pre.events_ttl
    &&& post.recently_updated == pre.recently_updated
    &&& post.latest_event_timestamp == pre.latest_event_timestamp
    &&& r.events@ == expired_indexes(s, now, n)
    &&& threads_reported(s, now, n, r.threads@)
}

/// What is left of a list of thread roots once the first `k` of the
/// expired threads in which the user is involved have been taken out.
pub open spec fn cleared(s: Seq<MessageIndex>, user_id: UserId, expired: Seq<ExpiredThread>, k: int) -> Seq<
    MessageIndex,
>
    decreases k,
{
    if k <= 0 || k > expired.len() {
        s
    } else if expired[k - 1].users@.contains(user_id) {
        without(cleared(s, user_id, expired, k - 1), expired[k - 1].root_message_index)
    } else {
        cleared(s, user_id, expired, k - 1)
    }
}

/// The record of a member once the first `k` expired threads have been
/// dealt with: the threads in which the member is involved are gone from
/// those followed and those unfollowed; nothing else changes.
pub open spec fn member_cleared(
    before: GroupMemberInternal,
    after: GroupMemberInternal,
    expired: Seq<ExpiredThread>,
    k: int,
) -> bool {
    &&& after.threads@ == cleared(before.threads@, before.user_id, expired, k)
    &&& after.unfollowed_threads@ == cleared(before.unfollowed_threads@, before.user_id, expired, k)
    &&& after == (GroupMemberInternal {
        threads: after.threads,
        unfollowed_threads: after.unfollowed_threads,
        ..before
    })
}

/// A list from which the expired threads of a user were taken out holds
/// none of them any more.
pub proof fn lemma_cleared(s: Seq<MessageIndex>, user_id: UserId, expired: Seq<ExpiredThread>, k: int)
    requires
        0 <= k <= expired.len(),
    ensures
        forall|j: int|
            0 <= j < k && (#[trigger] expired[j]).users@.contains(user_id) ==> !cleared(s, user_id, expired, k).contains(
                expired[j].root_message_index,
            ),
        forall|y: MessageIndex| cleared(s, user_id, expired, k).contains(y) ==> s.contains(y),
    decreases k,
{
    if k > 0 {
        lemma_cleared(s, user_id, expired, k - 1);
        let before = cleared(s, user_id, expired, k - 1);
        lemma_without(before, expired[k - 1].root_message_index);
    }
}

/// What an eviction does to the group.
///
/// The log loses its expired events and the threads that hang on them, as
/// `expired_post` says. Every user named for an expired thread who is a
/// member has that thread taken out of those followed and those
/// unfollowed. Nothing else changes.
pub open spec fn evicted(pre: GroupChatCore, now: TimestampMillis, post: GroupChatCore, r: RemoveExpiredEventsResult) -> bool {
    &&& expired_post(pre.events, now, post.events, r)
    &&& post.members.blocked == pre.members.blocked
    &&& post.members.members@.len() == pre.members.members@.len()
    &&& forall|j: int|
        0 <= j < pre.members.members@.len() ==> member_cleared(
            pre.members.members@[j],
            #[trigger] post.members.members@[j],
            r.threads@,
            r.threads@.len() as int,
        )
    &&& post == (GroupChatCore { events: post.events, members: post.members, ..pre })
}

impl GroupChatCore {
    /// Evicts the events that have expired at `now` and forgets the
    /// threads that went with them: afterwards no member keeps track of
    /// a thread whose root has expired.
    pub fn remove_expired_events(&mut self, now: TimestampMillis) -> (r: RemoveExpiredEventsResult)
        requires
            old(self).wf(),
        ensures
            final(self).wf(),
            evicted(*old(self), now, *final(self), r),
            forall|j: int, k: int|
                0 <= j < final(self).members.members@.len() && 0 <= k < r.threads@.len() ==> !holds(
                    #[trigger] final(self).members.members@[j],
                    (#[trigger] r.threads@[k]).root_message_index,
                ),
    {
        let result = self.events.remove_expired_events(now);
        let ghost before = self.members.members@;
        let ghost expired = result.threads@;
        let n = self.members.members.len();
        let mut k: usize = 0;
        while k < result.threads.len()
            invariant
                k <= expired.len(),
                expired == result.threads@,
                before == old(self).members.members@,
                n == before.len(),
                self.members.members@.len() == n,
                self.members.blocked == old(self).members.blocked,
                forall|j: int|
                    0 <= j < n ==> member_cleared(before[j], #[trigger] self.members.members@[j], expired, k as int),
                *self == (GroupChatCore { events: self.events, members: self.members, ..*old(self) }),
                expired_post(old(self).events, now, self.events, result),
                self.events.wf(),
            decreases expired.len() - k,
        {
            let root = result.threads[k].root_message_index;
            let mut j: usize = 0;
            while j < n
                invariant
                    j <= n,
                    k < expired.len(),
                    expired == result.threads@,
                    root == expired[k as int].root_message_index,
                    n == before.len(),
                    self.members.members@.len() == n,
                    self.members.blocked == old(self).members.blocked,
                    forall|i: int|
                        0 <= i < j ==> member_cleared(
                            before[i],
                            #[trigger] self.members.members@[i],
                            expired,
                            k as int + 1,
                        ),
                    forall|i: int|
                        j <= i < n ==> member_cleared(before[i], #[trigger] self.members.members@[i], expired, k as int),
                    *self == (GroupChatCore { events: self.events, members: self.members, ..*old(self) }),
                    expired_post(old(self).events, now, self.events, result),
                    self.events.wf(),
                decreases n - j,
            {
                let ghost m0 = self.members.members@[j as int];
                assert(member_cleared(before[j as int], m0, expired, k as int));
                if contains_id(&result.threads[k].users, self.members.members[j].user_id) {
                    remove_all(&mut self.members.members[j].threads, root);
                    remove_all(&mut self.members.members[j].unfollowed_threads, root);
                }
                assert(member_cleared(before[j as int], self.members.members@[j as int], expired, k as int + 1));
                j += 1;
            }
            k += 1;
        }
        proof {
            let after = self.members.members@;
            assert forall|j: int| 0 <= j < n implies (#[trigger] after[j]).user_id == before[j].user_id && after[j].role
                == before[j].role by {
                assert(member_cleared(before[j], after[j], expired, expired.len() as int));
            }
            lemma_same_users(before, after);
            lemma_same_roles(before, after);
            lemma_evicted_keeps_known(*old(self), now, *self, result);
        }
        result
    }
}

} // verus!
