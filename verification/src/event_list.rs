//! One log: events in the order they were recorded, each with an index that
//! is never reused, and the messages among them with a message index of
//! their own.

use vstd::prelude::*;
use crate::events::{ChatEventInternal, EventWrapperInternal, MessageInternal};
use crate::seq_util::{
    first_match, lemma_first_match, lemma_first_match_at, lemma_first_match_none, lemma_first_match_push,
    lemma_first_match_same,
};
use crate::types::{EventIndex, MessageId, MessageIndex, TimestampMillis};

verus! {

/// A log of events.
#[derive(Debug)]
pub struct ChatEventsList {
    pub events: Vec<EventWrapperInternal>,
    pub next_event_index: EventIndex,
    pub next_message_index: MessageIndex,
}

/// The events whose index is `index`.
pub open spec fn with_index(index: EventIndex) -> spec_fn(EventWrapperInternal) -> bool {
    |w: EventWrapperInternal| w.index == index
}

/// The events whose index is at least `bound`.
pub open spec fn index_at_least(bound: int) -> spec_fn(EventWrapperInternal) -> bool {
    |w: EventWrapperInternal| w.index >= bound
}

/// The events that hold the message with message index `message_index`.
pub open spec fn with_message_index(message_index: MessageIndex) -> spec_fn(EventWrapperInternal) -> bool {
    |w: EventWrapperInternal| w.is_message() && w.message().message_index == message_index
}

/// The events that hold the message with identifier `message_id`.
pub open spec fn with_message_id(message_id: MessageId) -> spec_fn(EventWrapperInternal) -> bool {
    |w: EventWrapperInternal| w.is_message() && w.message().message_id == message_id
}

/// Event indexes grow strictly along the sequence.
pub open spec fn indexes_ascend(s: Seq<EventWrapperInternal>) -> bool {
    forall|i: int, j: int| 0 <= i < j < s.len() ==> (#[trigger] s[i]).index < (#[trigger] s[j]).index
}

/// Message indexes grow strictly along the messages of the sequence.
pub open spec fn message_indexes_ascend(s: Seq<EventWrapperInternal>) -> bool {
    forall|i: int, j: int|
        0 <= i < j < s.len() && (#[trigger] s[i]).is_message() && (#[trigger] s[j]).is_message()
            ==> s[i].message().message_index < s[j].message().message_index
}

impl ChatEventsList {
    /// Indexes are strictly ascending and lie below the next ones to be
    /// given out: none is ever reused.
    pub open spec fn wf(&self) -> bool {
        &&& indexes_ascend(self.events@)
        &&& message_indexes_ascend(self.events@)
        &&& forall|i: int| 0 <= i < self.events@.len() ==> (#[trigger] self.events@[i]).index < self.next_event_index
        &&& forall|i: int|
            0 <= i < self.events@.len() && (#[trigger] self.events@[i]).is_message()
                ==> self.events@[i].message().message_index < self.next_message_index
    }

    /// Whether the log is well formed, by a walk over its events.
    pub fn is_well_formed(&self) -> (r: bool)
        ensures
            r == self.wf(),
    {
        let mut last_message: Option<MessageIndex> = None;
        let ghost mut last_at: int = 0;
        let mut i: usize = 0;
        while i < self.events.len()
            invariant
                0 <= i <= self.events@.len(),
                indexes_ascend(self.events@.take(i as int)),
                message_indexes_ascend(self.events@.take(i as int)),
                forall|k: int| 0 <= k < i ==> (#[trigger] self.events@[k]).index < self.next_event_index,
                forall|k: int|
                    0 <= k < i && (#[trigger] self.events@[k]).is_message() ==> self.events@[k].message().message_index
                        < self.next_message_index,
                match last_message {
                    Some(m) => 0 <= last_at < i && self.events@[last_at].is_message()
                        && self.events@[last_at].message().message_index == m && forall|k: int|
                        0 <= k < i && (#[trigger] self.events@[k]).is_message()
                            ==> self.events@[k].message().message_index <= m,
                    None => forall|k: int| 0 <= k < i ==> !(#[trigger] self.events@[k]).is_message(),
                },
            decreases self.events@.len() - i,
        {
            let ghost before = self.events@.take(i as int);
            let ghost after = self.events@.take(i as int + 1);
            let event = &self.events[i];
            if event.index >= self.next_event_index {
                return false;
            }
            if i > 0 && self.events[i - 1].index >= event.index {
                assert(!(self.events@[i - 1].index < self.events@[i as int].index));
                return false;
            }
            match event.as_message() {
                Some(message) => {
                    if message.message_index >= self.next_message_index {
                        return false;
                    }
                    match last_message {
                        Some(m) => {
                            if m >= message.message_index {
                                assert(!(self.events@[last_at].message().message_index
                                    < self.events@[i as int].message().message_index));
                                return false;
                            }
                        },
                        None => {},
                    }
                    last_message = Some(message.message_index);
                    proof {
                        last_at = i as int;
                    }
                },
                None => {},
            }
            assert forall|a: int, b: int| 0 <= a < b < after.len() implies (#[trigger] after[a]).index < (
            #[trigger] after[b]).index by {
                if b < i {
                    assert(before[a].index < before[b].index);
                } else if a < i - 1 {
                    assert(before[a].index < before[i - 1].index);
                }
            }
            assert forall|a: int, b: int|
                0 <= a < b < after.len() && (#[trigger] after[a]).is_message() && (
                #[trigger] after[b]).is_message() implies after[a].message().message_index
                < after[b].message().message_index by {
                if b < i {
                    assert(before[a].is_message() && before[b].is_message());
                } else {
                    assert(self.events@[a].is_message());
                }
            }
            i += 1;
        }
        assert(self.events@.take(self.events@.len() as int) == self.events@);
        true
    }

    /// Position of the first event that a reader with the given lower bound
    /// may see.
    pub open spec fn floor(&self, min_visible_event_index: EventIndex) -> int {
        first_match(self.events@, index_at_least(min_visible_event_index as int))
    }

    /// Position of the event with the given index, if the log holds it.
    pub open spec fn event_position(&self, index: EventIndex) -> Option<int> {
        let p = first_match(self.events@, with_index(index));
        if p < self.events@.len() {
            Some(p)
        } else {
            None
        }
    }

    /// Position of the message with the given message index, if the log
    /// holds it.
    pub open spec fn message_position(&self, message_index: MessageIndex) -> Option<int> {
        let p = first_match(self.events@, with_message_index(message_index));
        if p < self.events@.len() {
            Some(p)
        } else {
            None
        }
    }

    /// Position of the message with the given identifier, if the log holds it.
    pub open spec fn message_id_position(&self, message_id: MessageId) -> Option<int> {
        let p = first_match(self.events@, with_message_id(message_id));
        if p < self.events@.len() {
            Some(p)
        } else {
            None
        }
    }

    /// Position of the message with the given message index, if the log
    /// holds it at or above the reader's lower bound.
    pub open spec fn visible_message_position(
        &self,
        min_visible_event_index: EventIndex,
        message_index: MessageIndex,
    ) -> Option<int> {
        match self.message_position(message_index) {
            Some(p) => if self.events@[p].index >= min_visible_event_index {
                Some(p)
            } else {
                None
            },
            None => None,
        }
    }

    /// Position of the message with the given identifier, if the log holds
    /// it at or above the reader's lower bound.
    pub open spec fn visible_message_id_position(
        &self,
        min_visible_event_index: EventIndex,
        message_id: MessageId,
    ) -> Option<int> {
        match self.message_id_position(message_id) {
            Some(p) => if self.events@[p].index >= min_visible_event_index {
                Some(p)
            } else {
                None
            },
            None => None,
        }
    }

    /// Position of the event with the given index, if the log holds it at
    /// or above the reader's lower bound.
    pub open spec fn visible_event_position(&self, min_visible_event_index: EventIndex, index: EventIndex) -> Option<
        int,
    > {
        if index >= min_visible_event_index {
            self.event_position(index)
        } else {
            None
        }
    }

    /// Index of the event recorded last, whether or not the log still holds it.
    pub open spec fn spec_latest_event_index(&self) -> Option<EventIndex> {
        if self.next_event_index > 0 {
            Some((self.next_event_index - 1) as EventIndex)
        } else {
            None
        }
    }

    /// An empty log.
    pub fn new() -> (r: Self)
        ensures
            r.wf(),
            r.events@.len() == 0,
            r.next_event_index == 0,
            r.next_message_index == 0,
    {
        ChatEventsList { events: Vec::new(), next_event_index: 0, next_message_index: 0 }
    }

    /// The number of events that the log holds.
    pub fn len(&self) -> (r: usize)
        ensures
            r == self.events@.len(),
    {
        self.events.len()
    }

    /// Index of the event recorded last, whether or not the log still holds it.
    pub fn latest_event_index(&self) -> (r: Option<EventIndex>)
        ensures
            r == self.spec_latest_event_index(),
    {
        if self.next_event_index > 0 {
            Some(self.next_event_index - 1)
        } else {
            None
        }
    }

    /// Appends an event that is not a message and gives it the next event
    /// index.
    pub fn push_event(
        &mut self,
        event: ChatEventInternal,
        now: TimestampMillis,
        expires_at: Option<TimestampMillis>,
    ) -> (index: EventIndex)
        requires
            old(self).wf(),
            old(self).next_event_index < u32::MAX,
            !(event is Message),
        ensures
            final(self).wf(),
            index == old(self).next_event_index,
            final(self).next_event_index == index + 1,
            final(self).next_message_index == old(self).next_message_index,
            final(self).events@ == old(self).events@.push(
                EventWrapperInternal { index, timestamp: now, expires_at, event },
            ),
    {
        let index = self.next_event_index;
        self.events.push(EventWrapperInternal { index, timestamp: now, expires_at, event });
        self.next_event_index = index + 1;
        index
    }

    /// Appends a message and gives it the next event index; the message
    /// must already carry the next message index.
    pub fn push_message(
        &mut self,
        message: MessageInternal,
        now: TimestampMillis,
        expires_at: Option<TimestampMillis>,
    ) -> (index: EventIndex)
        requires
            old(self).wf(),
            old(self).next_event_index < u32::MAX,
            old(self).next_message_index < u32::MAX,
            message.message_index == old(self).next_message_index,
        ensures
            final(self).wf(),
            index == old(self).next_event_index,
            final(self).next_event_index == index + 1,
            final(self).next_message_index == old(self).next_message_index + 1,
            final(self).events@ == old(self).events@.push(
                EventWrapperInternal { index, timestamp: now, expires_at, event: ChatEventInternal::Message(message) },
            ),
    {
        let index = self.next_event_index;
        self.events.push(
            EventWrapperInternal { index, timestamp: now, expires_at, event: ChatEventInternal::Message(message) },
        );
        self.next_event_index = index + 1;
        self.next_message_index = self.next_message_index + 1;
        index
    }

    /// Position of the first event whose index is at least `bound`, or the
    /// length of the log if there is none.
    pub fn lower_bound(&self, bound: u64) -> (r: usize)
        ensures
            r == first_match(self.events@, index_at_least(bound as int)),
            r <= self.events@.len(),
    {
        let ghost p = index_at_least(bound as int);
        let mut i: usize = 0;
        while i < self.events.len()
            invariant
                0 <= i <= self.events@.len(),
                p == index_at_least(bound as int),
                forall|j: int| 0 <= j < i ==> !p(#[trigger] self.events@[j]),
            decreases self.events@.len() - i,
        {
            if self.events[i].index as u64 >= bound {
                proof {
                    lemma_first_match_at(self.events@, p, i as int);
                }
                return i;
            }
            i += 1;
        }
        proof {
            lemma_first_match_none(self.events@, p);
        }
        i
    }

    /// Position of the event with the given index.
    pub fn find_event(&self, index: EventIndex) -> (r: Option<usize>)
        ensures
            match r {
                Some(p) => self.event_position(index) == Some(p as int) && p < self.events@.len()
                    && self.events@[p as int].index == index,
                None => self.event_position(index) is None,
            },
    {
        let ghost p = with_index(index);
        let mut i: usize = 0;
        while i < self.events.len()
            invariant
                0 <= i <= self.events@.len(),
                p == with_index(index),
                forall|j: int| 0 <= j < i ==> !p(#[trigger] self.events@[j]),
            decreases self.events@.len() - i,
        {
            if self.events[i].index == index {
                proof {
                    lemma_first_match_at(self.events@, p, i as int);
                }
                return Some(i);
            }
            i += 1;
        }
        proof {
            lemma_first_match_none(self.events@, p);
        }
        None
    }

    /// Position of the message with the given message index.
    pub fn find_message(&self, message_index: MessageIndex) -> (r: Option<usize>)
        ensures
            match r {
                Some(p) => self.message_position(message_index) == Some(p as int) && p < self.events@.len()
                    && self.events@[p as int].is_message() && self.events@[p as int].message().message_index
                    == message_index,
                None => self.message_position(message_index) is None,
            },
    {
        let ghost p = with_message_index(message_index);
        let mut i: usize = 0;
        while i < self.events.len()
            invariant
                0 <= i <= self.events@.len(),
                p == with_message_index(message_index),
                forall|j: int| 0 <= j < i ==> !p(#[trigger] self.events@[j]),
            decreases self.events@.len() - i,
        {
            let found = match &self.events[i].event {
                ChatEventInternal::Message(m) => m.message_index == message_index,
                _ => false,
            };
            if found {
                proof {
                    lemma_first_match_at(self.events@, p, i as int);
                }
                return Some(i);
            }
            i += 1;
        }
        proof {
            lemma_first_match_none(self.events@, p);
        }
        None
    }

    /// Position of the message with the given identifier.
    pub fn find_message_by_id(&self, message_id: MessageId) -> (r: Option<usize>)
        ensures
            match r {
                Some(p) => self.message_id_position(message_id) == Some(p as int) && p < self.events@.len()
                    && self.events@[p as int].is_message() && self.events@[p as int].message().message_id
                    == message_id,
                None => self.message_id_position(message_id) is None,
            },
    {
        let ghost p = with_message_id(message_id);
        let mut i: usize = 0;
        while i < self.events.len()
            invariant
                0 <= i <= self.events@.len(),
                p == with_message_id(message_id),
                forall|j: int| 0 <= j < i ==> !p(#[trigger] self.events@[j]),
            decreases self.events@.len() - i,
        {
            let found = match &self.events[i].event {
                ChatEventInternal::Message(m) => m.message_id == message_id,
                _ => false,
            };
            if found {
                proof {
                    lemma_first_match_at(self.events@, p, i as int);
                }
                return Some(i);
            }
            i += 1;
        }
        proof {
            lemma_first_match_none(self.events@, p);
        }
        None
    }

    /// Position of the message with the given message index, if it lies at
    /// or above the lower bound.
    pub fn find_visible_message(&self, min_visible_event_index: EventIndex, message_index: MessageIndex) -> (r:
        Option<usize>)
        ensures
            match r {
                Some(p) => self.visible_message_position(min_visible_event_index, message_index) == Some(p as int)
                    && p < self.events@.len() && self.events@[p as int].is_message()
                    && self.events@[p as int].message().message_index == message_index
                    && self.events@[p as int].index >= min_visible_event_index,
                None => self.visible_message_position(min_visible_event_index, message_index) is None,
            },
    {
        match self.find_message(message_index) {
            Some(p) => if self.events[p].index >= min_visible_event_index {
                Some(p)
            } else {
                None
            },
            None => None,
        }
    }

    /// Position of the message with the given identifier, if it lies at or
    /// above the lower bound.
    pub fn find_visible_message_by_id(&self, min_visible_event_index: EventIndex, message_id: MessageId) -> (r:
        Option<usize>)
        ensures
            match r {
                Some(p) => self.visible_message_id_position(min_visible_event_index, message_id) == Some(p as int)
                    && p < self.events@.len() && self.events@[p as int].is_message()
                    && self.events@[p as int].message().message_id == message_id
                    && self.events@[p as int].index >= min_visible_event_index,
                None => self.visible_message_id_position(min_visible_event_index, message_id) is None,
            },
    {
        match self.find_message_by_id(message_id) {
            Some(p) => if self.events[p].index >= min_visible_event_index {
                Some(p)
            } else {
                None
            },
            None => None,
        }
    }

    /// Position of the event with the given index, if it lies at or above
    /// the lower bound.
    pub fn find_visible_event(&self, min_visible_event_index: EventIndex, index: EventIndex) -> (r: Option<usize>)
        ensures
            match r {
                Some(p) => self.visible_event_position(min_visible_event_index, index) == Some(p as int) && p
                    < self.events@.len() && self.events@[p as int].index == index && index
                    >= min_visible_event_index,
                None => self.visible_event_position(min_visible_event_index, index) is None,
            },
    {
        if index >= min_visible_event_index {
            self.find_event(index)
        } else {
            None
        }
    }
}

/// In a log with ascending indexes, every event from the floor on is at or
/// above the lower bound, and every event before it is below.
pub proof fn lemma_floor(list: ChatEventsList, min_visible_event_index: EventIndex)
    requires
        list.wf(),
    ensures
        0 <= list.floor(min_visible_event_index) <= list.events@.len(),
        forall|i: int|
            list.floor(min_visible_event_index) <= i < list.events@.len() ==> (#[trigger] list.events@[i]).index
                >= min_visible_event_index,
        forall|i: int|
            0 <= i < list.floor(min_visible_event_index) ==> (#[trigger] list.events@[i]).index
                < min_visible_event_index,
{
    let p = index_at_least(min_visible_event_index as int);
    lemma_first_match(list.events@, p);
    let f = list.floor(min_visible_event_index);
    assert forall|i: int| f <= i < list.events@.len() implies (#[trigger] list.events@[i]).index
        >= min_visible_event_index by {
        assert(p(list.events@[f]));
    }
    assert forall|i: int| 0 <= i < f implies (#[trigger] list.events@[i]).index < min_visible_event_index by {
        assert(!p(list.events@[i]));
    }
}

/// Two logs that hold, place by place, events with the same index and the
/// same message index and identifier agree on where every event and every
/// message is.
pub proof fn lemma_same_places(before: ChatEventsList, after: ChatEventsList)
    requires
        after.events@.len() == before.events@.len(),
        forall|i: int|
            0 <= i < before.events@.len() ==> {
                &&& (#[trigger] after.events@[i]).index == before.events@[i].index
                &&& after.events@[i].is_message() == before.events@[i].is_message()
                &&& after.events@[i].is_message() ==> after.events@[i].message().message_index
                    == before.events@[i].message().message_index && after.events@[i].message().message_id
                    == before.events@[i].message().message_id
            },
    ensures
        forall|index: EventIndex| #[trigger] after.event_position(index) == before.event_position(index),
        forall|mi: MessageIndex| #[trigger] after.message_position(mi) == before.message_position(mi),
        forall|id: MessageId| #[trigger] after.message_id_position(id) == before.message_id_position(id),
        forall|bound: EventIndex| #[trigger] after.floor(bound) == before.floor(bound),
        forall|bound: EventIndex, mi: MessageIndex| #[trigger]
            after.visible_message_position(bound, mi) == before.visible_message_position(bound, mi),
        forall|bound: EventIndex, id: MessageId| #[trigger]
            after.visible_message_id_position(bound, id) == before.visible_message_id_position(bound, id),
        forall|bound: EventIndex, index: EventIndex| #[trigger]
            after.visible_event_position(bound, index) == before.visible_event_position(bound, index),
{
    assert forall|index: EventIndex| #[trigger] after.event_position(index) == before.event_position(index) by {
        lemma_first_match_same(before.events@, after.events@, with_index(index));
    }
    assert forall|mi: MessageIndex| #[trigger] after.message_position(mi) == before.message_position(mi) by {
        lemma_first_match_same(before.events@, after.events@, with_message_index(mi));
    }
    assert forall|id: MessageId| #[trigger] after.message_id_position(id) == before.message_id_position(id) by {
        lemma_first_match_same(before.events@, after.events@, with_message_id(id));
    }
    assert forall|bound: EventIndex| #[trigger] after.floor(bound) == before.floor(bound) by {
        lemma_first_match_same(before.events@, after.events@, index_at_least(bound as int));
    }
    assert forall|bound: EventIndex, mi: MessageIndex| #[trigger]
        after.visible_message_position(bound, mi) == before.visible_message_position(bound, mi) by {
        lemma_first_match(before.events@, with_message_index(mi));
        assert(after.message_position(mi) == before.message_position(mi));
    }
    assert forall|bound: EventIndex, id: MessageId| #[trigger]
        after.visible_message_id_position(bound, id) == before.visible_message_id_position(bound, id) by {
        lemma_first_match(before.events@, with_message_id(id));
        assert(after.message_id_position(id) == before.message_id_position(id));
    }
    assert forall|bound: EventIndex, index: EventIndex| #[trigger]
        after.visible_event_position(bound, index) == before.visible_event_position(bound, index) by {
        assert(after.event_position(index) == before.event_position(index));
    }
}

/// Appending an event moves nothing that the log held: every event and
/// message that could be found before is found at the same place after.
pub proof fn lemma_pushed_places(before: ChatEventsList, after: ChatEventsList)
    requires
        after.events@.len() == before.events@.len() + 1,
        after.events@.drop_last() == before.events@,
    ensures
        forall|index: EventIndex|
            before.event_position(index) is Some ==> #[trigger] after.event_position(index)
                == before.event_position(index),
        forall|bound: EventIndex, mi: MessageIndex|
            before.visible_message_position(bound, mi) is Some ==> #[trigger] after.visible_message_position(
                bound,
                mi,
            ) == before.visible_message_position(bound, mi),
        forall|bound: EventIndex, id: MessageId|
            before.visible_message_id_position(bound, id) is Some ==> #[trigger] after.visible_message_id_position(
                bound,
                id,
            ) == before.visible_message_id_position(bound, id),
        forall|bound: EventIndex, index: EventIndex|
            before.visible_event_position(bound, index) is Some ==> #[trigger] after.visible_event_position(
                bound,
                index,
            ) == before.visible_event_position(bound, index),
        forall|i: int| 0 <= i < before.events@.len() ==> #[trigger] after.events@[i] == before.events@[i],
{
    let s = before.events@;
    let x = after.events@.last();
    assert(after.events@ == s.push(x));
    assert forall|i: int| 0 <= i < s.len() implies #[trigger] after.events@[i] == s[i] by {}
    assert forall|index: EventIndex| before.event_position(index) is Some implies #[trigger] after.event_position(
        index,
    ) == before.event_position(index) by {
        lemma_first_match_push(s, x, with_index(index));
    }
    assert forall|bound: EventIndex, mi: MessageIndex|
        before.visible_message_position(bound, mi) is Some implies #[trigger] after.visible_message_position(
            bound,
            mi,
        ) == before.visible_message_position(bound, mi) by {
        lemma_first_match_push(s, x, with_message_index(mi));
        lemma_first_match(s, with_message_index(mi));
        let k = first_match(s, with_message_index(mi));
        assert(after.events@[k] == s[k]);
    }
    assert forall|bound: EventIndex, id: MessageId|
        before.visible_message_id_position(bound, id) is Some implies #[trigger] after.visible_message_id_position(
            bound,
            id,
        ) == before.visible_message_id_position(bound, id) by {
        lemma_first_match_push(s, x, with_message_id(id));
        lemma_first_match(s, with_message_id(id));
        let k = first_match(s, with_message_id(id));
        assert(after.events@[k] == s[k]);
    }
    assert forall|bound: EventIndex, index: EventIndex|
        before.visible_event_position(bound, index) is Some implies #[trigger] after.visible_event_position(
            bound,
            index,
        ) == before.visible_event_position(bound, index) by {
        lemma_first_match_push(s, x, with_index(index));
    }
}

} // verus!
