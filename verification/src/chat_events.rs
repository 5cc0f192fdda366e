//! The event log of a chat: one main log, one log per thread, the policy
//! by which new events expire, and an index of recently updated events.

use vstd::prelude::*;
use crate::event_list::ChatEventsList;
use crate::events::{ChatEventInternal, EventWrapperInternal, MessageInternal};
use crate::message::{GroupReplyContext, MessageContent};
use crate::reader::ChatEventsListReader;
use crate::seq_util::{first_match, lemma_first_match, lemma_first_match_at, lemma_first_match_none};
use crate::thread_summary::{with_mentioned, ThreadSummaryInternal};
use crate::types::{
    EventIndex, MessageId, MessageIndex, Milliseconds, PushEventResult, TimestampMillis, Timestamped, UserId,
};

verus! {

/// The log of one thread, named by the message index of its root.
#[derive(Debug)]
pub struct ThreadLog {
    pub root_message_index: MessageIndex,
    pub list: ChatEventsList,
}

/// An event that was changed after it was recorded.
#[derive(Clone, Copy, Debug, PartialEq, Eq, Structural)]
pub struct UpdatedEvent {
    pub thread_root_message_index: Option<MessageIndex>,
    pub event_index: EventIndex,
    pub timestamp: TimestampMillis,
}

/// The event log of a chat.
#[derive(Debug)]
pub struct ChatEvents {
    pub main: ChatEventsList,
    pub threads: Vec<ThreadLog>,
    pub events_ttl: Timestamped<Option<Milliseconds>>,
    pub recently_updated: Vec<UpdatedEvent>,
    pub latest_event_timestamp: TimestampMillis,
}

/// What a new message is made of.
#[derive(Debug)]
pub struct PushMessageArgs {
    pub sender: UserId,
    pub thread_root_message_index: Option<MessageIndex>,
    pub message_id: MessageId,
    pub content: MessageContent,
    pub mentioned: Vec<UserId>,
    pub replies_to: Option<GroupReplyContext>,
    pub forwarded: bool,
    pub now: TimestampMillis,
}

/// Where a new message landed.
#[derive(Clone, Copy, Debug, PartialEq, Eq, Structural)]
pub struct MessageEventResult {
    pub event_index: EventIndex,
    pub message_index: MessageIndex,
    pub timestamp: TimestampMillis,
    pub expires_at: Option<TimestampMillis>,
}

/// The thread logs rooted at `root`.
pub open spec fn rooted_at(root: MessageIndex) -> spec_fn(ThreadLog) -> bool {
    |t: ThreadLog| t.root_message_index == root
}

/// The entries of the update index that speak of the given event.
pub open spec fn about_event(thread_root: Option<MessageIndex>, event_index: EventIndex) -> spec_fn(
    UpdatedEvent,
) -> bool {
    |u: UpdatedEvent| u.thread_root_message_index == thread_root && u.event_index == event_index
}

/// The time at which an event recorded at `now` expires under `ttl`; the
/// sum sticks at the largest time.
pub open spec fn expiry(ttl: Option<Milliseconds>, now: TimestampMillis) -> Option<TimestampMillis> {
    match ttl {
        Some(t) => Some(
            if now + t <= u64::MAX {
                (now + t) as u64
            } else {
                u64::MAX
            },
        ),
        None => None,
    }
}

/// The later of two times.
pub open spec fn later(a: TimestampMillis, b: TimestampMillis) -> TimestampMillis {
    if a >= b {
        a
    } else {
        b
    }
}

/// The update index after the given event was marked as updated at `now`:
/// an earlier entry about the event is dropped, the new one comes last.
pub open spec fn marked_updated(
    index: Seq<UpdatedEvent>,
    thread_root: Option<MessageIndex>,
    event_index: EventIndex,
    now: TimestampMillis,
) -> Seq<UpdatedEvent> {
    let p = first_match(index, about_event(thread_root, event_index));
    let entry = UpdatedEvent { thread_root_message_index: thread_root, event_index, timestamp: now };
    if p < index.len() {
        index.remove(p).push(entry)
    } else {
        index.push(entry)
    }
}

/// A message as it is when first recorded: what the sender supplied, and
/// nothing else yet.
pub open spec fn is_fresh_message(m: MessageInternal, args: PushMessageArgs, message_index: MessageIndex) -> bool {
    &&& m.message_index == message_index
    &&& m.message_id == args.message_id
    &&& m.sender == args.sender
    &&& m.content == args.content
    &&& m.replies_to == args.replies_to
    &&& m.mentioned == args.mentioned
    &&& m.reactions@.len() == 0
    &&& m.tips@.len() == 0
    &&& m.last_updated is None
    &&& m.deleted_by is None
    &&& m.thread_summary is None
    &&& m.forwarded == args.forwarded
}

/// The summary of a thread after a reply by `sender` was recorded under
/// event index `event_index` at `now`, given the summary before, if any:
/// the reply is counted, the sender is among the participants, and the
/// users of `mentioned`, whom the reply draws into the thread, follow it
/// unless they have replied or made a choice before.
pub open spec fn summary_after_reply(
    before: Option<ThreadSummaryInternal>,
    after: ThreadSummaryInternal,
    sender: UserId,
    mentioned: Seq<UserId>,
    event_index: EventIndex,
    now: TimestampMillis,
) -> bool {
    &&& after.latest_event_index == event_index
    &&& after.latest_event_timestamp == now
    &&& after.followers@ == with_mentioned(
        match before {
            Some(b) => b.followers@,
            None => Seq::empty(),
        },
        after.participant_ids@,
        mentioned,
        mentioned.len() as int,
        now,
    )
    &&& match before {
        Some(b) => {
            &&& after.reply_count == if b.reply_count < u32::MAX {
                (b.reply_count + 1) as u32
            } else {
                b.reply_count
            }
            &&& after.participant_ids@ == if b.participant_ids@.contains(sender) {
                b.participant_ids@
            } else {
                b.participant_ids@.push(sender)
            }
        },
        None => {
            &&& after.reply_count == 1
            &&& after.participant_ids@ == seq![sender]
        },
    }
}

/// What appending `event` to the main log at `now` does: the event comes
/// last with the next event index, and nothing else in the log changes.
pub open spec fn main_event_pushed(pre: ChatEvents, post: ChatEvents, event: ChatEventInternal, now: TimestampMillis) -> bool {
    &&& post.main.events@ == pre.main.events@.push(
        EventWrapperInternal {
            index: pre.main.next_event_index,
            timestamp: now,
            expires_at: pre.expires_at(now),
            event,
        },
    )
    &&& post.main.next_event_index == pre.main.next_event_index + 1
    &&& post.main.next_message_index == pre.main.next_message_index
    &&& post.threads == pre.threads
    &&& post.events_ttl == pre.events_ttl
    &&& post.recently_updated == pre.recently_updated
    &&& post.latest_event_timestamp == later(pre.latest_event_timestamp, now)
}

/// One event was appended to the main log at `now`, with the next event
/// index, and nothing else in the log changed. What the event is, is left
/// open.
pub open spec fn one_event_appended(pre: ChatEvents, post: ChatEvents, now: TimestampMillis) -> bool {
    &&& post.main.events@.len() == pre.main.events@.len() + 1
    &&& post.main.events@.drop_last() == pre.main.events@
    &&& post.main.events@.last().index == pre.main.next_event_index
    &&& post.main.events@.last().timestamp == now
    &&& post.main.events@.last().expires_at == pre.expires_at(now)
    &&& post.main.next_event_index == pre.main.next_event_index + 1
    &&& post.main.next_message_index == pre.main.next_message_index
    &&& post.threads == pre.threads
    &&& post.events_ttl == pre.events_ttl
    &&& post.recently_updated == pre.recently_updated
    &&& post.latest_event_timestamp == later(pre.latest_event_timestamp, now)
}

/// An event that was pushed is the one event appended.
pub proof fn lemma_pushed_is_appended(pre: ChatEvents, post: ChatEvents, event: ChatEventInternal, now: TimestampMillis)
    requires
        main_event_pushed(pre, post, event, now),
    ensures
        one_event_appended(pre, post, now),
        post.main.events@.last().event == event,
{
    assert(post.main.events@.drop_last() == pre.main.events@);
}

/// The root message of a thread after a reply was recorded: only its
/// thread summary and the time of its last update differ.
pub open spec fn root_after_reply(
    before: EventWrapperInternal,
    after: EventWrapperInternal,
    sender: UserId,
    mentioned: Seq<UserId>,
    event_index: EventIndex,
    now: TimestampMillis,
) -> bool {
    &&& after.index == before.index
    &&& after.timestamp == before.timestamp
    &&& after.expires_at == before.expires_at
    &&& after.event matches ChatEventInternal::Message(m)
    &&& m.thread_summary matches Some(summary)
    &&& summary_after_reply(before.message().thread_summary, summary, sender, mentioned, event_index, now)
    &&& m == (MessageInternal { thread_summary: m.thread_summary, last_updated: Some(now), ..before.message() })
}

/// The entry that holds the message just recorded: the last of the log
/// that it went to.
pub open spec fn pushed_entry(pre: ChatEvents, post: ChatEvents, thread_root: Option<MessageIndex>) -> EventWrapperInternal {
    match thread_root {
        None => post.main.events@.last(),
        Some(root) => post.threads@[pre.thread_position(root)].list.events@.last(),
    }
}

/// What recording a message does to the log.
///
/// A top-level message goes to the end of the main log with the next
/// event index and the next message index. A reply goes to the end of its
/// thread's log, which is created if need be; the root message, if the
/// main log holds it, gets its summary brought up to date and is marked as
/// updated. The users of `thread_followers` start to follow the thread
/// unless they have replied in it or made a choice about it before.
pub open spec fn push_message_post(
    pre: ChatEvents,
    args: PushMessageArgs,
    thread_followers: Seq<UserId>,
    post: ChatEvents,
    r: MessageEventResult,
) -> bool {
    let now = args.now;
    &&& r.timestamp == now
    &&& r.expires_at == pre.expires_at(now)
    &&& post.events_ttl == pre.events_ttl
    &&& match args.thread_root_message_index {
        None => {
            &&& r.event_index == pre.main.next_event_index
            &&& r.message_index == pre.main.next_message_index
            &&& post.main.next_event_index == pre.main.next_event_index + 1
            &&& post.main.next_message_index == pre.main.next_message_index + 1
            &&& post.main.events@.len() == pre.main.events@.len() + 1
            &&& post.main.events@.drop_last() == pre.main.events@
            &&& post.main.events@.last().index == r.event_index
            &&& post.main.events@.last().timestamp == now
            &&& post.main.events@.last().expires_at == r.expires_at
            &&& post.main.events@.last().event matches ChatEventInternal::Message(m)
            &&& is_fresh_message(m, args, r.message_index)
            &&& post.threads == pre.threads
            &&& post.recently_updated == pre.recently_updated
            &&& post.latest_event_timestamp == later(pre.latest_event_timestamp, now)
        },
        Some(root) => {
            let t = pre.thread_position(root);
            let next_event_index = if pre.has_thread(root) {
                pre.thread(root).next_event_index
            } else {
                0
            };
            let next_message_index = if pre.has_thread(root) {
                pre.thread(root).next_message_index
            } else {
                0
            };
            let before_events = if pre.has_thread(root) {
                pre.thread(root).events@
            } else {
                Seq::<EventWrapperInternal>::empty()
            };
            &&& r.event_index == next_event_index
            &&& r.message_index == next_message_index
            &&& post.threads@.len() == if pre.has_thread(root) {
                pre.threads@.len()
            } else {
                pre.threads@.len() + 1
            }
            &&& forall|k: int| 0 <= k < pre.threads@.len() && k != t ==> post.threads@[k] == pre.threads@[k]
            &&& post.threads@[t].root_message_index == root
            &&& post.threads@[t].list.next_event_index == r.event_index + 1
            &&& post.threads@[t].list.next_message_index == r.message_index + 1
            &&& post.threads@[t].list.events@.len() == before_events.len() + 1
            &&& post.threads@[t].list.events@.drop_last() == before_events
            &&& post.threads@[t].list.events@.last().index == r.event_index
            &&& post.threads@[t].list.events@.last().timestamp == now
            &&& post.threads@[t].list.events@.last().expires_at == r.expires_at
            &&& post.threads@[t].list.events@.last().event matches ChatEventInternal::Message(m)
            &&& is_fresh_message(m, args, r.message_index)
            &&& post.main.next_event_index == pre.main.next_event_index
            &&& post.main.next_message_index == pre.main.next_message_index
            &&& match pre.main.message_position(root) {
                Some(p) => {
                    &&& post.main.events@.len() == pre.main.events@.len()
                    &&& forall|k: int|
                        0 <= k < pre.main.events@.len() && k != p ==> post.main.events@[k] == pre.main.events@[k]
                    &&& root_after_reply(
                        pre.main.events@[p],
                        post.main.events@[p],
                        args.sender,
                        thread_followers,
                        r.event_index,
                        now,
                    )
                    &&& post.recently_updated@ == marked_updated(
                        pre.recently_updated@,
                        None,
                        pre.main.events@[p].index,
                        now,
                    )
                },
                None => {
                    &&& post.main.events == pre.main.events
                    &&& post.recently_updated == pre.recently_updated
                },
            }
            &&& post.latest_event_timestamp == later(pre.latest_event_timestamp, now)
        },
    }
}

/// Whether none of the events was recorded later than `latest`.
pub open spec fn none_later(events: Seq<EventWrapperInternal>, latest: TimestampMillis) -> bool {
    forall|i: int| 0 <= i < events.len() ==> (#[trigger] events[i]).timestamp <= latest
}

impl ChatEventsList {
    /// Whether none of the events of the log was recorded later than
    /// `latest`.
    pub fn is_none_later(&self, latest: TimestampMillis) -> (r: bool)
        ensures
            r == none_later(self.events@, latest),
    {
        let mut i: usize = 0;
        while i < self.events.len()
            invariant
                0 <= i <= self.events@.len(),
                forall|k: int| 0 <= k < i ==> (#[trigger] self.events@[k]).timestamp <= latest,
            decreases self.events@.len() - i,
        {
            if self.events[i].timestamp > latest {
                return false;
            }
            i += 1;
        }
        true
    }
}

impl ChatEvents {
    /// Every log is well formed and has recorded at least one event, and
    /// no event that a log holds is later than the latest time on record.
    pub open spec fn wf(&self) -> bool {
        &&& self.main.wf()
        &&& self.main.next_event_index > 0
        &&& forall|t: int|
            0 <= t < self.threads@.len() ==> (#[trigger] self.threads@[t]).list.wf()
                && self.threads@[t].list.next_event_index > 0 && none_later(
                self.threads@[t].list.events@,
                self.latest_event_timestamp,
            )
        &&& none_later(self.main.events@, self.latest_event_timestamp)
    }

    /// Whether the logs are well formed, by a walk over each of them.
    pub fn is_well_formed(&self) -> (r: bool)
        ensures
            r == self.wf(),
    {
        if !self.main.is_well_formed() || self.main.next_event_index == 0 {
            return false;
        }
        let mut t: usize = 0;
        while t < self.threads.len()
            invariant
                0 <= t <= self.threads@.len(),
                forall|k: int|
                    0 <= k < t ==> (#[trigger] self.threads@[k]).list.wf() && self.threads@[k].list.next_event_index
                        > 0 && none_later(self.threads@[k].list.events@, self.latest_event_timestamp),
            decreases self.threads@.len() - t,
        {
            let thread = &self.threads[t];
            if !thread.list.is_well_formed() || thread.list.next_event_index == 0 || !thread.list.is_none_later(
                self.latest_event_timestamp,
            ) {
                return false;
            }
            t += 1;
        }
        self.main.is_none_later(self.latest_event_timestamp)
    }

    /// Position of the log of the thread rooted at `root`, or the number
    /// of thread logs if there is none.
    pub open spec fn thread_position(&self, root: MessageIndex) -> int {
        first_match(self.threads@, rooted_at(root))
    }

    /// Whether a log exists for the thread rooted at `root`.
    pub open spec fn has_thread(&self, root: MessageIndex) -> bool {
        self.thread_position(root) < self.threads@.len()
    }

    /// The log of the thread rooted at `root`. Meaningful only where
    /// `has_thread` holds.
    pub open spec fn thread(&self, root: MessageIndex) -> ChatEventsList {
        self.threads@[self.thread_position(root)].list
    }

    /// Whether a reader with the given lower bound may see the message
    /// with the given message index in the main log.
    pub open spec fn message_visible(&self, min_visible_event_index: EventIndex, message_index: MessageIndex) -> bool {
        self.main.visible_message_position(min_visible_event_index, message_index) is Some
    }

    /// Whether a reader with the given lower bound may read the chosen
    /// log: the main log always, a thread if it exists and its root
    /// message is visible.
    pub open spec fn log_readable(&self, min_visible_event_index: EventIndex, thread_root: Option<MessageIndex>) -> bool {
        match thread_root {
            None => true,
            Some(root) => self.message_visible(min_visible_event_index, root) && self.has_thread(root),
        }
    }

    /// The chosen log. Meaningful only where `log_readable` holds.
    pub open spec fn log(&self, thread_root: Option<MessageIndex>) -> ChatEventsList {
        match thread_root {
            None => self.main,
            Some(root) => self.thread(root),
        }
    }

    /// The lower bound that applies within the chosen log: the reader's own
    /// in the main log, none in a thread whose root is visible.
    pub open spec fn bound_in(min_visible_event_index: EventIndex, thread_root: Option<MessageIndex>) -> EventIndex {
        match thread_root {
            None => min_visible_event_index,
            Some(_) => 0,
        }
    }

    /// Whether the message with the given message index exists in the
    /// chosen log and the reader may see it.
    pub open spec fn spec_is_accessible(
        &self,
        min_visible_event_index: EventIndex,
        thread_root: Option<MessageIndex>,
        message_index: MessageIndex,
    ) -> bool {
        self.log_readable(min_visible_event_index, thread_root) && self.log(
            thread_root,
        ).visible_message_position(Self::bound_in(min_visible_event_index, thread_root), message_index) is Some
    }

    /// The time at which an event recorded at `now` expires.
    pub open spec fn expires_at(&self, now: TimestampMillis) -> Option<TimestampMillis> {
        expiry(self.events_ttl.value, now)
    }

    /// A chat's log at its creation: the main log holds the creation event
    /// and nothing else.
    pub fn new_group_chat(
        name: String,
        description: String,
        created_by: UserId,
        events_ttl: Option<Milliseconds>,
        now: TimestampMillis,
    ) -> (r: Self)
        ensures
            r.wf(),
            r.main.events@ == seq![
                EventWrapperInternal {
                    index: 0,
                    timestamp: now,
                    expires_at: None,
                    event: ChatEventInternal::GroupChatCreated { name, description, created_by },
                },
            ],
            r.main.next_event_index == 1,
            r.main.next_message_index == 0,
            r.threads@.len() == 0,
            r.events_ttl == (Timestamped { value: events_ttl, timestamp: now }),
            r.recently_updated@.len() == 0,
            r.latest_event_timestamp == now,
    {
        let mut main = ChatEventsList::new();
        main.push_event(ChatEventInternal::GroupChatCreated { name, description, created_by }, now, None);
        ChatEvents {
            main,
            threads: Vec::new(),
            events_ttl: Timestamped::new(events_ttl, now),
            recently_updated: Vec::new(),
            latest_event_timestamp: now,
        }
    }

    /// The time at which an event recorded at `now` expires.
    fn compute_expiry(&self, now: TimestampMillis) -> (r: Option<TimestampMillis>)
        ensures
            r == self.expires_at(now),
    {
        match self.events_ttl.value {
            Some(t) => Some(
                if t <= u64::MAX - now {
                    now + t
                } else {
                    u64::MAX
                },
            ),
            None => None,
        }
    }

    /// Appends an event to the main log.
    pub fn push_main_event(&mut self, event: ChatEventInternal, now: TimestampMillis) -> (r: PushEventResult)
        requires
            old(self).wf(),
            old(self).main.next_event_index < u32::MAX,
            !(event is Message),
        ensures
            final(self).wf(),
            r == (PushEventResult {
                index: old(self).main.next_event_index,
                timestamp: now,
                expires_at: old(self).expires_at(now),
            }),
            main_event_pushed(*old(self), *final(self), event, now),
    {
        let expires_at = self.compute_expiry(now);
        let index = self.main.push_event(event, now, expires_at);
        if now > self.latest_event_timestamp {
            self.latest_event_timestamp = now;
        }
        PushEventResult { index, timestamp: now, expires_at }
    }

    /// The time to live of events recorded from now on, and when it was set.
    pub fn get_events_time_to_live(&self) -> (r: &Timestamped<Option<Milliseconds>>)
        ensures
            *r == self.events_ttl,
    {
        &self.events_ttl
    }

    /// Changes the time to live of events recorded from now on and records
    /// the change. Events already recorded keep their deadline.
    pub fn set_events_time_to_live(&mut self, user_id: UserId, events_ttl: Option<Milliseconds>, now: TimestampMillis) -> (r:
        PushEventResult)
        requires
            old(self).wf(),
            old(self).main.next_event_index < u32::MAX,
        ensures
            final(self).wf(),
            r == (PushEventResult {
                index: old(self).main.next_event_index,
                timestamp: now,
                expires_at: old(self).expires_at(now),
            }),
            final(self).main.events@ == old(self).main.events@.push(
                EventWrapperInternal {
                    index: r.index,
                    timestamp: now,
                    expires_at: r.expires_at,
                    event: ChatEventInternal::EventsTimeToLiveUpdated { updated_by: user_id, new_ttl: events_ttl },
                },
            ),
            final(self).main.next_event_index == old(self).main.next_event_index + 1,
            final(self).main.next_message_index == old(self).main.next_message_index,
            final(self).threads == old(self).threads,
            final(self).events_ttl == (Timestamped { value: events_ttl, timestamp: now }),
            final(self).recently_updated == old(self).recently_updated,
            final(self).latest_event_timestamp == later(old(self).latest_event_timestamp, now),
    {
        let r = self.push_main_event(
            ChatEventInternal::EventsTimeToLiveUpdated { updated_by: user_id, new_ttl: events_ttl },
            now,
        );
        self.events_ttl = Timestamped::new(events_ttl, now);
        r
    }

    /// Whether anything was recorded or updated after `since`.
    pub fn has_updates_since(&self, since: TimestampMillis) -> (r: bool)
        ensures
            r == (self.latest_event_timestamp > since),
    {
        self.latest_event_timestamp > since
    }

    /// Position of the log of the thread rooted at `root`.
    pub fn find_thread(&self, root: MessageIndex) -> (r: Option<usize>)
        ensures
            match r {
                Some(t) => self.has_thread(root) && t == self.thread_position(root) && t < self.threads@.len()
                    && self.threads@[t as int].root_message_index == root,
                None => !self.has_thread(root),
            },
    {
        let ghost p = rooted_at(root);
        let mut i: usize = 0;
        while i < self.threads.len()
            invariant
                0 <= i <= self.threads@.len(),
                p == rooted_at(root),
                forall|j: int| 0 <= j < i ==> !p(#[trigger] self.threads@[j]),
            decreases self.threads@.len() - i,
        {
            if self.threads[i].root_message_index == root {
                proof {
                    lemma_first_match_at(self.threads@, p, i as int);
                }
                return Some(i);
            }
            i += 1;
        }
        proof {
            lemma_first_match_none(self.threads@, p);
        }
        None
    }

    /// A reader of the whole main log.
    pub fn main_events_reader(&self) -> (r: ChatEventsListReader<'_>)
        ensures
            *r.list == self.main,
            r.min_visible_event_index == 0,
    {
        ChatEventsListReader { list: &self.main, min_visible_event_index: 0 }
    }

    /// A reader of the main log from the given lower bound on.
    pub fn visible_main_events_reader(&self, min_visible_event_index: EventIndex) -> (r: ChatEventsListReader<'_>)
        ensures
            *r.list == self.main,
            r.min_visible_event_index == min_visible_event_index,
    {
        ChatEventsListReader { list: &self.main, min_visible_event_index }
    }

    /// A reader of the chosen log, if the reader may read it.
    pub fn events_reader(&self, min_visible_event_index: EventIndex, thread_root: Option<MessageIndex>) -> (r: Option<
        ChatEventsListReader<'_>,
    >)
        ensures
            r is Some == self.log_readable(min_visible_event_index, thread_root),
            r matches Some(reader) ==> *reader.list == self.log(thread_root) && reader.min_visible_event_index
                == Self::bound_in(min_visible_event_index, thread_root),
    {
        match thread_root {
            None => Some(ChatEventsListReader { list: &self.main, min_visible_event_index }),
            Some(root) => {
                if self.main.find_visible_message(min_visible_event_index, root).is_none() {
                    return None;
                }
                match self.find_thread(root) {
                    Some(t) => Some(ChatEventsListReader { list: &self.threads[t].list, min_visible_event_index: 0 }),
                    None => None,
                }
            },
        }
    }

    /// Whether the message with the given message index exists in the
    /// chosen log and a reader with the given lower bound may see it.
    pub fn is_accessible(
        &self,
        min_visible_event_index: EventIndex,
        thread_root: Option<MessageIndex>,
        message_index: MessageIndex,
    ) -> (r: bool)
        ensures
            r == self.spec_is_accessible(min_visible_event_index, thread_root, message_index),
    {
        match self.events_reader(min_visible_event_index, thread_root) {
            Some(reader) => reader.list.find_visible_message(reader.min_visible_event_index, message_index).is_some(),
            None => false,
        }
    }

    /// Whether the log that a message with the given thread root goes to
    /// can take one more message: its indexes have not run out.
    pub open spec fn room_for_message(&self, thread_root: Option<MessageIndex>) -> bool {
        match thread_root {
            None => self.main.next_event_index < u32::MAX && self.main.next_message_index < u32::MAX,
            Some(root) => self.has_thread(root) ==> self.thread(root).next_event_index < u32::MAX && self.thread(
                root,
            ).next_message_index < u32::MAX,
        }
    }

    /// Records a message.
    pub fn push_message(&mut self, args: PushMessageArgs, thread_followers: Vec<UserId>) -> (r: MessageEventResult)
        requires
            old(self).wf(),
            old(self).room_for_message(args.thread_root_message_index),
        ensures
            final(self).wf(),
            push_message_post(*old(self), args, thread_followers@, *final(self), r),
    {
        let now = args.now;
        let sender = args.sender;
        let thread_root = args.thread_root_message_index;
        let expires_at = self.compute_expiry(now);
        let ghost pre = *self;
        let result = match thread_root {
            None => {
                let message_index = self.main.next_message_index;
                let message = MessageInternal {
                    message_index,
                    message_id: args.message_id,
                    sender,
                    content: args.content,
                    replies_to: args.replies_to,
                    mentioned: args.mentioned,
                    reactions: Vec::new(),
                    tips: Vec::new(),
                    last_updated: None,
                    deleted_by: None,
                    thread_summary: None,
                    forwarded: args.forwarded,
                };
                let event_index = self.main.push_message(message, now, expires_at);
                assert(self.main.events@.drop_last() == pre.main.events@);
                MessageEventResult { event_index, message_index, timestamp: now, expires_at }
            },
            Some(root) => {
                let t = match self.find_thread(root) {
                    Some(t) => t,
                    None => {
                        self.threads.push(ThreadLog { root_message_index: root, list: ChatEventsList::new() });
                        proof {
                            lemma_first_match(pre.threads@, rooted_at(root));
                        }
                        self.threads.len() - 1
                    },
                };
                let ghost before_events = self.threads@[t as int].list.events@;
                assert(!pre.has_thread(root) ==> before_events =~= Seq::<EventWrapperInternal>::empty());
                let message_index = self.threads[t].list.next_message_index;
                let message = MessageInternal {
                    message_index,
                    message_id: args.message_id,
                    sender,
                    content: args.content,
                    replies_to: args.replies_to,
                    mentioned: args.mentioned,
                    reactions: Vec::new(),
                    tips: Vec::new(),
                    last_updated: None,
                    deleted_by: None,
                    thread_summary: None,
                    forwarded: args.forwarded,
                };
                let event_index = self.threads[t].list.push_message(message, now, expires_at);
                assert(self.threads@[t as int].list.events@.drop_last() == before_events);
                match self.main.find_message(root) {
                    Some(p) => {
                        let root_event_index = self.main.events[p].index;
                        match &mut self.main.events[p].event {
                            ChatEventInternal::Message(m) => {
                                match &mut m.thread_summary {
                                    Some(summary) => {
                                        summary.mark_reply_added(sender, event_index, now);
                                        summary.follow_by_mention(&thread_followers, now);
                                    },
                                    None => {
                                        let mut summary = ThreadSummaryInternal::new(sender, event_index, now);
                                        assert(summary.followers@ =~= Seq::<crate::message::FollowChoice>::empty());
                                        summary.follow_by_mention(&thread_followers, now);
                                        m.thread_summary = Some(summary);
                                    },
                                }
                                m.last_updated = Some(now);
                            },
                            _ => {},
                        }
                        self.mark_updated(None, root_event_index, now);
                    },
                    None => {
                        if now > self.latest_event_timestamp {
                            self.latest_event_timestamp = now;
                        }
                    },
                }
                MessageEventResult { event_index, message_index, timestamp: now, expires_at }
            },
        };
        if now > self.latest_event_timestamp {
            self.latest_event_timestamp = now;
        }
        result
    }

    /// Whether the event with the given index exists in the chosen log and
    /// a reader with the given lower bound may see it.
    pub fn is_event_accessible(
        &self,
        min_visible_event_index: EventIndex,
        thread_root: Option<MessageIndex>,
        event_index: EventIndex,
    ) -> (r: bool)
        ensures
            r == (self.log_readable(min_visible_event_index, thread_root) && self.log(
                thread_root,
            ).visible_event_position(Self::bound_in(min_visible_event_index, thread_root), event_index) is Some),
    {
        match self.events_reader(min_visible_event_index, thread_root) {
            Some(reader) => reader.list.find_visible_event(reader.min_visible_event_index, event_index).is_some(),
            None => false,
        }
    }

    /// Marks an event as updated at `now`.
    pub fn mark_updated(&mut self, thread_root: Option<MessageIndex>, event_index: EventIndex, now: TimestampMillis)
        ensures
            final(self).recently_updated@ == marked_updated(old(self).recently_updated@, thread_root, event_index, now),
            final(self).latest_event_timestamp == later(old(self).latest_event_timestamp, now),
            final(self).main == old(self).main,
            final(self).threads == old(self).threads,
            final(self).events_ttl == old(self).events_ttl,
    {
        let ghost p = about_event(thread_root, event_index);
        let mut i: usize = 0;
        let mut found: Option<usize> = None;
        while i < self.recently_updated.len() && found.is_none()
            invariant
                0 <= i <= self.recently_updated@.len(),
                *self == *old(self),
                p == about_event(thread_root, event_index),
                found is None ==> forall|j: int| 0 <= j < i ==> !p(#[trigger] self.recently_updated@[j]),
                found matches Some(k) ==> k < self.recently_updated@.len() && first_match(self.recently_updated@, p)
                    == k,
            decreases self.recently_updated@.len() - i + (if found is None { 1int } else { 0int }),
        {
            let u = &self.recently_updated[i];
            let same_root = match (u.thread_root_message_index, thread_root) {
                (Some(a), Some(b)) => a == b,
                (None, None) => true,
                _ => false,
            };
            if same_root && u.event_index == event_index {
                proof {
                    lemma_first_match_at(self.recently_updated@, p, i as int);
                }
                found = Some(i);
            } else {
                i += 1;
            }
        }
        match found {
            Some(k) => {
                self.recently_updated.remove(k);
            },
            None => {
                proof {
                    lemma_first_match_none(self.recently_updated@, p);
                }
            },
        }
        self.recently_updated.push(
            UpdatedEvent { thread_root_message_index: thread_root, event_index, timestamp: now },
        );
        if now > self.latest_event_timestamp {
            self.latest_event_timestamp = now;
        }
    }
}

} // verus!
