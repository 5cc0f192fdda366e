//! Reading a log from the point of view of one user: nothing below the
//! user's lower bound is ever handed out.

use vstd::prelude::*;
use crate::event_list::{index_at_least, lemma_floor, ChatEventsList};
use crate::events::{EventWrapperInternal, MessageInternal};
use crate::seq_util::first_match;
use crate::types::{EventIndex, MessageId, MessageIndex};

verus! {

/// A view of one log that hides every event below a lower bound.
pub struct ChatEventsListReader<'a> {
    pub list: &'a ChatEventsList,
    pub min_visible_event_index: EventIndex,
}

/// How many events a scan takes. It walks from position `pos` upwards or
/// downwards, never below `floor`, and stops at the end of the log, after
/// `max_events` events, or when `max_messages` messages have been taken.
pub open spec fn scan_count(
    s: Seq<EventWrapperInternal>,
    pos: int,
    floor: int,
    ascending: bool,
    max_messages: nat,
    max_events: nat,
) -> nat
    decreases max_events,
{
    if pos < floor || pos < 0 || pos >= s.len() || max_events == 0 || max_messages == 0 {
        0
    } else {
        1 + scan_count(
            s,
            if ascending {
                pos + 1
            } else {
                pos - 1
            },
            floor,
            ascending,
            if s[pos].is_message() {
                (max_messages - 1) as nat
            } else {
                max_messages
            },
            (max_events - 1) as nat,
        )
    }
}

/// The number of messages among the `n` events that a scan takes from `pos`.
pub open spec fn scanned_messages(s: Seq<EventWrapperInternal>, pos: int, ascending: bool, n: nat) -> nat
    decreases n,
{
    if n == 0 || pos < 0 || pos >= s.len() {
        0
    } else {
        (if s[pos].is_message() {
            1nat
        } else {
            0nat
        }) + scanned_messages(
            s,
            if ascending {
                pos + 1
            } else {
                pos - 1
            },
            ascending,
            (n - 1) as nat,
        )
    }
}

/// A scan honours both caps and stays within the log and above the floor.
pub proof fn lemma_scan_count(
    s: Seq<EventWrapperInternal>,
    pos: int,
    floor: int,
    ascending: bool,
    max_messages: nat,
    max_events: nat,
)
    ensures
        scan_count(s, pos, floor, ascending, max_messages, max_events) <= max_events,
        scanned_messages(s, pos, ascending, scan_count(s, pos, floor, ascending, max_messages, max_events))
            <= max_messages,
        ascending ==> pos + scan_count(s, pos, floor, ascending, max_messages, max_events) <= s.len() || scan_count(
            s,
            pos,
            floor,
            ascending,
            max_messages,
            max_events,
        ) == 0,
        !ascending ==> pos - scan_count(s, pos, floor, ascending, max_messages, max_events) >= floor - 1
            || scan_count(s, pos, floor, ascending, max_messages, max_events) == 0,
    decreases max_events,
{
    if !(pos < floor || pos < 0 || pos >= s.len() || max_events == 0 || max_messages == 0) {
        lemma_scan_count(
            s,
            if ascending {
                pos + 1
            } else {
                pos - 1
            },
            floor,
            ascending,
            if s[pos].is_message() {
                (max_messages - 1) as nat
            } else {
                max_messages
            },
            (max_events - 1) as nat,
        );
    }
}

/// The window that grows around a message. While fewer than `max_events`
/// events are held, it takes one more event from the side whose turn it is
/// (from the other side if that one has none left), later side first; it
/// stops when both sides are used up, or when the event to take is a
/// message and `max_messages` messages are already held. The result is
/// the range of positions held, its end excluded.
pub open spec fn window_grow(
    s: Seq<EventWrapperInternal>,
    floor: int,
    lo: int,
    hi: int,
    messages: nat,
    forward: bool,
    max_messages: nat,
    max_events: nat,
) -> (int, int)
    decreases s.len() - (hi - lo),
{
    if floor < 0 || lo < floor || lo > hi || hi > s.len() || hi - lo >= max_events {
        (lo, hi)
    } else if hi >= s.len() && lo <= floor {
        (lo, hi)
    } else {
        let go_forward = if forward {
            hi < s.len()
        } else {
            lo <= floor
        };
        let next = if go_forward {
            hi
        } else {
            lo - 1
        };
        if s[next].is_message() && messages >= max_messages {
            (lo, hi)
        } else {
            window_grow(
                s,
                floor,
                if go_forward {
                    lo
                } else {
                    lo - 1
                },
                if go_forward {
                    hi + 1
                } else {
                    hi
                },
                if s[next].is_message() {
                    messages + 1
                } else {
                    messages
                },
                !forward,
                max_messages,
                max_events,
            )
        }
    }
}

/// A window contains what it started from, stays between the floor and the
/// end of the log, and holds at most `max_events` events if it started
/// with no more.
pub proof fn lemma_window_grow(
    s: Seq<EventWrapperInternal>,
    floor: int,
    lo: int,
    hi: int,
    messages: nat,
    forward: bool,
    max_messages: nat,
    max_events: nat,
)
    requires
        0 <= floor <= lo <= hi <= s.len(),
        hi - lo <= max_events,
    ensures
        ({
            let (a, b) = window_grow(s, floor, lo, hi, messages, forward, max_messages, max_events);
            floor <= a <= lo && hi <= b <= s.len() && b - a <= max_events
        }),
    decreases s.len() - (hi - lo),
{
    if hi - lo >= max_events {
    } else if hi >= s.len() && lo <= floor {
    } else {
        let go_forward = if forward {
            hi < s.len()
        } else {
            lo <= floor
        };
        let next = if go_forward {
            hi
        } else {
            lo - 1
        };
        if !(s[next].is_message() && messages >= max_messages) {
            lemma_window_grow(
                s,
                floor,
                if go_forward {
                    lo
                } else {
                    lo - 1
                },
                if go_forward {
                    hi + 1
                } else {
                    hi
                },
                if s[next].is_message() {
                    messages + 1
                } else {
                    messages
                },
                !forward,
                max_messages,
                max_events,
            );
        }
    }
}

/// The number of messages among the events at positions `lo` to `hi - 1`.
pub open spec fn messages_between(s: Seq<EventWrapperInternal>, lo: int, hi: int) -> nat
    decreases hi - lo,
{
    if hi <= lo || lo < 0 || hi > s.len() {
        0
    } else {
        messages_between(s, lo, hi - 1) + if s[hi - 1].is_message() {
            1nat
        } else {
            0nat
        }
    }
}

/// Taking in the event before a run adds that event to the count of
/// messages.
pub proof fn lemma_messages_between_front(s: Seq<EventWrapperInternal>, lo: int, hi: int)
    requires
        0 < lo <= hi <= s.len(),
    ensures
        messages_between(s, lo - 1, hi) == messages_between(s, lo, hi) + if s[lo - 1].is_message() {
            1nat
        } else {
            0nat
        },
    decreases hi - lo,
{
    if hi > lo {
        lemma_messages_between_front(s, lo, hi - 1);
    } else {
        assert(messages_between(s, lo - 1, hi - 1) == 0);
    }
}

/// A window holds no more messages than the cap allows, if it started
/// with no more.
pub proof fn lemma_window_messages(
    s: Seq<EventWrapperInternal>,
    floor: int,
    lo: int,
    hi: int,
    messages: nat,
    forward: bool,
    max_messages: nat,
    max_events: nat,
)
    requires
        0 <= floor <= lo <= hi <= s.len(),
        messages == messages_between(s, lo, hi),
        messages <= max_messages,
    ensures
        ({
            let (a, b) = window_grow(s, floor, lo, hi, messages, forward, max_messages, max_events);
            messages_between(s, a, b) <= max_messages
        }),
    decreases s.len() - (hi - lo),
{
    if hi - lo >= max_events {
    } else if hi >= s.len() && lo <= floor {
    } else {
        let go_forward = if forward {
            hi < s.len()
        } else {
            lo <= floor
        };
        let next = if go_forward {
            hi
        } else {
            lo - 1
        };
        if !(s[next].is_message() && messages >= max_messages) {
            if !go_forward {
                lemma_messages_between_front(s, lo, hi);
            }
            lemma_window_messages(
                s,
                floor,
                if go_forward {
                    lo
                } else {
                    lo - 1
                },
                if go_forward {
                    hi + 1
                } else {
                    hi
                },
                if s[next].is_message() {
                    messages + 1
                } else {
                    messages
                },
                !forward,
                max_messages,
                max_events,
            );
        }
    }
}

/// The events found for a list of event indexes, in the order asked;
/// indexes that the reader may not see or that the log does not hold are
/// passed over.
pub open spec fn events_at(list: ChatEventsList, min_visible: EventIndex, indexes: Seq<EventIndex>) -> Seq<
    EventWrapperInternal,
>
    decreases indexes.len(),
{
    if indexes.len() == 0 {
        Seq::empty()
    } else {
        let before = events_at(list, min_visible, indexes.drop_last());
        match list.visible_event_position(min_visible, indexes.last()) {
            Some(p) => before.push(list.events@[p]),
            None => before,
        }
    }
}

/// The message events found for a list of message indexes, in the order
/// asked; messages that the reader may not see or that the log does not
/// hold are passed over.
pub open spec fn messages_at(list: ChatEventsList, min_visible: EventIndex, indexes: Seq<MessageIndex>) -> Seq<
    EventWrapperInternal,
>
    decreases indexes.len(),
{
    if indexes.len() == 0 {
        Seq::empty()
    } else {
        let before = messages_at(list, min_visible, indexes.drop_last());
        match list.visible_message_position(min_visible, indexes.last()) {
            Some(p) => before.push(list.events@[p]),
            None => before,
        }
    }
}

/// The events that a vector of references points at.
pub open spec fn referents(v: Seq<&EventWrapperInternal>) -> Seq<EventWrapperInternal> {
    Seq::new(v.len(), |i: int| *v[i])
}

/// Position from which a scan of `list` sets out for a reader with lower
/// bound `min_visible`: going up, the first event at or above both `start`
/// and the lower bound; going down, the last event at or below `start`.
pub open spec fn scan_origin(list: ChatEventsList, min_visible: EventIndex, start: EventIndex, ascending: bool) -> int {
    if ascending {
        first_match(
            list.events@,
            index_at_least(
                if start >= min_visible {
                    start as int
                } else {
                    min_visible as int
                },
            ),
        )
    } else {
        first_match(list.events@, index_at_least(start + 1)) - 1
    }
}

/// The events that a scan hands out: those from the scan's origin on, in
/// the direction of the scan, as many as `scan_count` says.
pub open spec fn scanned(
    list: ChatEventsList,
    min_visible: EventIndex,
    start: EventIndex,
    ascending: bool,
    max_messages: u32,
    max_events: u32,
) -> Seq<EventWrapperInternal> {
    let origin = scan_origin(list, min_visible, start, ascending);
    Seq::new(
        scan_count(list.events@, origin, list.floor(min_visible), ascending, max_messages as nat, max_events as nat),
        |k: int|
            list.events@[if ascending {
                origin + k
            } else {
                origin - k
            }],
    )
}

/// The events that a window hands out: the run that `window_grow` reaches
/// from the message with message index `mid_point`; none if the reader
/// may not see that message or a cap is zero.
pub open spec fn windowed(
    list: ChatEventsList,
    min_visible: EventIndex,
    mid_point: MessageIndex,
    max_messages: u32,
    max_events: u32,
) -> Seq<EventWrapperInternal> {
    match list.visible_message_position(min_visible, mid_point) {
        Some(p) => if max_messages > 0 && max_events > 0 {
            let (lo, hi) = window_grow(
                list.events@,
                list.floor(min_visible),
                p,
                p + 1,
                1,
                true,
                max_messages as nat,
                max_events as nat,
            );
            list.events@.subrange(lo, hi)
        } else {
            Seq::empty()
        },
        None => Seq::empty(),
    }
}

impl<'a> ChatEventsListReader<'a> {
    pub open spec fn wf(&self) -> bool {
        self.list.wf()
    }

    /// Position of the first event that the reader may see.
    pub open spec fn floor(&self) -> int {
        self.list.floor(self.min_visible_event_index)
    }

    pub fn latest_event_index(&self) -> (r: Option<EventIndex>)
        ensures
            r == self.list.spec_latest_event_index(),
    {
        self.list.latest_event_index()
    }

    pub fn next_event_index(&self) -> (r: EventIndex)
        ensures
            r == self.list.next_event_index,
    {
        self.list.next_event_index
    }

    pub fn next_message_index(&self) -> (r: MessageIndex)
        ensures
            r == self.list.next_message_index,
    {
        self.list.next_message_index
    }

    /// The message with the given message index, if the reader may see it.
    pub fn message_internal(&self, message_index: MessageIndex) -> (r: Option<&'a MessageInternal>)
        ensures
            match r {
                Some(m) => self.list.visible_message_position(self.min_visible_event_index, message_index)
                    matches Some(p) && *m == self.list.events@[p].message(),
                None => self.list.visible_message_position(self.min_visible_event_index, message_index) is None,
            },
    {
        match self.list.find_visible_message(self.min_visible_event_index, message_index) {
            Some(p) => self.list.events[p].as_message(),
            None => None,
        }
    }

    /// The message with the given identifier, if the reader may see it.
    pub fn message_internal_by_id(&self, message_id: MessageId) -> (r: Option<&'a MessageInternal>)
        ensures
            match r {
                Some(m) => self.list.visible_message_id_position(self.min_visible_event_index, message_id)
                    matches Some(p) && *m == self.list.events@[p].message(),
                None => self.list.visible_message_id_position(self.min_visible_event_index, message_id) is None,
            },
    {
        match self.list.find_visible_message_by_id(self.min_visible_event_index, message_id) {
            Some(p) => self.list.events[p].as_message(),
            None => None,
        }
    }

    /// The message held by the event with the given index, if the reader
    /// may see that event and it holds a message.
    pub fn message_internal_by_event(&self, event_index: EventIndex) -> (r: Option<&'a MessageInternal>)
        ensures
            match r {
                Some(m) => self.list.visible_event_position(self.min_visible_event_index, event_index)
                    matches Some(p) && self.list.events@[p].is_message() && *m == self.list.events@[p].message(),
                None => self.list.visible_event_position(self.min_visible_event_index, event_index) matches Some(p)
                    ==> !self.list.events@[p].is_message(),
            },
    {
        match self.list.find_visible_event(self.min_visible_event_index, event_index) {
            Some(p) => self.list.events[p].as_message(),
            None => None,
        }
    }

    /// The event that holds the message with the given message index, if
    /// the reader may see it.
    pub fn message_event(&self, message_index: MessageIndex) -> (r: Option<&'a EventWrapperInternal>)
        ensures
            match r {
                Some(w) => self.list.visible_message_position(self.min_visible_event_index, message_index)
                    matches Some(p) && *w == self.list.events@[p],
                None => self.list.visible_message_position(self.min_visible_event_index, message_index) is None,
            },
    {
        match self.list.find_visible_message(self.min_visible_event_index, message_index) {
            Some(p) => Some(&self.list.events[p]),
            None => None,
        }
    }

    /// The index of the event that holds the message with the given
    /// message index, if the reader may see it.
    pub fn event_index(&self, message_index: MessageIndex) -> (r: Option<EventIndex>)
        ensures
            match r {
                Some(e) => self.list.visible_message_position(self.min_visible_event_index, message_index)
                    matches Some(p) && e == self.list.events@[p].index,
                None => self.list.visible_message_position(self.min_visible_event_index, message_index) is None,
            },
    {
        match self.list.find_visible_message(self.min_visible_event_index, message_index) {
            Some(p) => Some(self.list.events[p].index),
            None => None,
        }
    }

    /// Position from which a scan sets out: going up, the first event at
    /// or above both `start` and the lower bound; going down, the last
    /// event at or below `start`.
    pub open spec fn scan_start(&self, start: EventIndex, ascending: bool) -> int {
        if ascending {
            first_match(
                self.list.events@,
                index_at_least(
                    if start >= self.min_visible_event_index {
                        start as int
                    } else {
                        self.min_visible_event_index as int
                    },
                ),
            )
        } else {
            first_match(self.list.events@, index_at_least(start + 1)) - 1
        }
    }

    /// Events in log order from `start`, upwards or downwards, as far as
    /// the caps allow.
    pub fn scan(&self, start: EventIndex, ascending: bool, max_messages: u32, max_events: u32) -> (r: Vec<
        &'a EventWrapperInternal,
    >)
        requires
            self.wf(),
        ensures
            r@.len() == scan_count(
                self.list.events@,
                self.scan_start(start, ascending),
                self.floor(),
                ascending,
                max_messages as nat,
                max_events as nat,
            ),
            forall|k: int|
                0 <= k < r@.len() ==> *(#[trigger] r@[k]) == self.list.events@[if ascending {
                    self.scan_start(start, ascending) + k
                } else {
                    self.scan_start(start, ascending) - k
                }],
            forall|k: int| 0 <= k < r@.len() ==> (#[trigger] r@[k]).index >= self.min_visible_event_index,
            r@.len() <= max_events,
            referents(r@) == scanned(
                *self.list,
                self.min_visible_event_index,
                start,
                ascending,
                max_messages,
                max_events,
            ),
    {
        let list: &'a ChatEventsList = self.list;
        let floor = list.lower_bound(self.min_visible_event_index as u64);
        let first = if ascending {
            list.lower_bound(
                if start >= self.min_visible_event_index {
                    start as u64
                } else {
                    self.min_visible_event_index as u64
                },
            )
        } else {
            list.lower_bound(start as u64 + 1)
        };
        let mut out: Vec<&'a EventWrapperInternal> = Vec::new();
        if !ascending && first == 0 {
            assert(referents(out@) =~= scanned(
                *self.list,
                self.min_visible_event_index,
                start,
                ascending,
                max_messages,
                max_events,
            ));
            return out;
        }
        let mut pos: usize = if ascending {
            first
        } else {
            (first - 1) as usize
        };
        let mut messages_left: u32 = max_messages;
        let mut events_left: u32 = max_events;
        let ghost start_pos = self.scan_start(start, ascending);
        let ghost s = list.events@;
        let ghost total = scan_count(s, start_pos, floor as int, ascending, max_messages as nat, max_events as nat);
        proof {
            lemma_floor(*list, self.min_visible_event_index);
            lemma_scan_count(s, start_pos, floor as int, ascending, max_messages as nat, max_events as nat);
        }
        let mut done = false;
        while !done
            invariant
                s == list.events@,
                list.wf(),
                floor as int == list.floor(self.min_visible_event_index),
                0 <= floor <= s.len(),
                forall|i: int| floor <= i < s.len() ==> (#[trigger] s[i]).index >= self.min_visible_event_index,
                total == scan_count(s, start_pos, floor as int, ascending, max_messages as nat, max_events as nat),
                !done ==> pos as int == (if ascending {
                    start_pos + out@.len()
                } else {
                    start_pos - out@.len()
                }),
                !done ==> out@.len() + scan_count(
                    s,
                    pos as int,
                    floor as int,
                    ascending,
                    messages_left as nat,
                    events_left as nat,
                ) == total,
                done ==> out@.len() == total,
                out@.len() + events_left == max_events,
                forall|k: int|
                    0 <= k < out@.len() ==> *(#[trigger] out@[k]) == s[if ascending {
                        start_pos + k
                    } else {
                        start_pos - k
                    }],
                forall|k: int| 0 <= k < out@.len() ==> (#[trigger] out@[k]).index >= self.min_visible_event_index,
            decreases events_left + (if done { 0int } else { 1int }),
        {
            if pos < floor || pos >= list.events.len() || events_left == 0 || messages_left == 0 {
                done = true;
            } else {
                let w: &'a EventWrapperInternal = &list.events[pos];
                if w.holds_message() {
                    messages_left = messages_left - 1;
                }
                events_left = events_left - 1;
                out.push(w);
                if ascending {
                    pos = pos + 1;
                } else if pos == 0 {
                    assert(scan_count(s, -1, floor as int, ascending, messages_left as nat, events_left as nat) == 0);
                    done = true;
                } else {
                    pos = pos - 1;
                }
            }
        }
        assert(referents(out@) =~= scanned(
            *self.list,
            self.min_visible_event_index,
            start,
            ascending,
            max_messages,
            max_events,
        ));
        out
    }

    /// A contiguous run of events around the message with message index
    /// `mid_point`, in log order; empty if the reader may not see that
    /// message or a cap is zero.
    pub fn window(&self, mid_point: MessageIndex, max_messages: u32, max_events: u32) -> (r: Vec<
        &'a EventWrapperInternal,
    >)
        requires
            self.wf(),
        ensures
            match self.list.visible_message_position(self.min_visible_event_index, mid_point) {
                Some(p) if max_messages > 0 && max_events > 0 => {
                    let (lo, hi) = window_grow(
                        self.list.events@,
                        self.floor(),
                        p,
                        p + 1,
                        1,
                        true,
                        max_messages as nat,
                        max_events as nat,
                    );
                    referents(r@) == self.list.events@.subrange(lo, hi)
                },
                _ => r@.len() == 0,
            },
            forall|k: int| 0 <= k < r@.len() ==> (#[trigger] r@[k]).index >= self.min_visible_event_index,
            r@.len() <= max_events,
            referents(r@) == windowed(*self.list, self.min_visible_event_index, mid_point, max_messages, max_events),
    {
        let list: &'a ChatEventsList = self.list;
        let mut out: Vec<&'a EventWrapperInternal> = Vec::new();
        let p = match list.find_visible_message(self.min_visible_event_index, mid_point) {
            Some(p) => p,
            None => {
                assert(referents(out@) =~= Seq::<EventWrapperInternal>::empty());
                return out;
            },
        };
        if max_messages == 0 || max_events == 0 {
            assert(referents(out@) =~= Seq::<EventWrapperInternal>::empty());
            return out;
        }
        let floor = list.lower_bound(self.min_visible_event_index as u64);
        let ghost s = list.events@;
        proof {
            lemma_floor(*list, self.min_visible_event_index);
            lemma_window_grow(s, floor as int, p as int, p + 1, 1, true, max_messages as nat, max_events as nat);
        }
        let ghost target = window_grow(s, floor as int, p as int, p + 1, 1, true, max_messages as nat, max_events as nat);
        let len = list.events.len();
        let mut lo: usize = p;
        let mut hi: usize = p + 1;
        let mut messages: u32 = 1;
        let mut forward = true;
        let mut done = false;
        while !done
            invariant
                s == list.events@,
                0 <= floor <= lo <= hi <= s.len(),
                hi - lo <= max_events,
                messages <= hi - lo,
                window_grow(
                    s,
                    floor as int,
                    lo as int,
                    hi as int,
                    messages as nat,
                    forward,
                    max_messages as nat,
                    max_events as nat,
                ) == target,
                done ==> target == (lo as int, hi as int),
            decreases s.len() - (hi - lo) + (if done { 0int } else { 1int }),
        {
            if hi - lo >= max_events as usize {
                done = true;
            } else if hi >= list.events.len() && lo <= floor {
                done = true;
            } else {
                let go_forward = if forward {
                    hi < list.events.len()
                } else {
                    lo <= floor
                };
                let next = if go_forward {
                    hi
                } else {
                    lo - 1
                };
                if list.events[next].holds_message() && messages >= max_messages {
                    done = true;
                } else {
                    if list.events[next].holds_message() {
                        messages = messages + 1;
                    }
                    if go_forward {
                        hi = hi + 1;
                    } else {
                        lo = lo - 1;
                    }
                    forward = !forward;
                }
            }
        }
        let mut i: usize = lo;
        while i < hi
            invariant
                s == list.events@,
                lo <= i <= hi <= s.len(),
                0 <= floor <= lo,
                out@.len() == i - lo,
                forall|k: int| 0 <= k < out@.len() ==> *(#[trigger] out@[k]) == s[lo + k],
                forall|i: int| floor <= i < s.len() ==> (#[trigger] s[i]).index >= self.min_visible_event_index,
            decreases hi - i,
        {
            out.push(&list.events[i]);
            i += 1;
        }
        assert(referents(out@) =~= s.subrange(lo as int, hi as int));
        out
    }

    /// The events with the given indexes that the reader may see, in the
    /// order asked.
    pub fn get_by_indexes(&self, indexes: &Vec<EventIndex>) -> (r: Vec<&'a EventWrapperInternal>)
        ensures
            referents(r@) == events_at(*self.list, self.min_visible_event_index, indexes@),
            forall|k: int| 0 <= k < r@.len() ==> (#[trigger] r@[k]).index >= self.min_visible_event_index,
    {
        let list: &'a ChatEventsList = self.list;
        let mut out: Vec<&'a EventWrapperInternal> = Vec::new();
        let mut i: usize = 0;
        assert(referents(out@) =~= events_at(*list, self.min_visible_event_index, indexes@.take(0)));
        while i < indexes.len()
            invariant
                0 <= i <= indexes@.len(),
                referents(out@) == events_at(*list, self.min_visible_event_index, indexes@.take(i as int)),
                forall|k: int| 0 <= k < out@.len() ==> (#[trigger] out@[k]).index >= self.min_visible_event_index,
            decreases indexes@.len() - i,
        {
            let ghost prev = out@;
            assert(indexes@.take(i as int + 1).drop_last() == indexes@.take(i as int));
            match list.find_visible_event(self.min_visible_event_index, indexes[i]) {
                Some(p) => {
                    out.push(&list.events[p]);
                    assert(referents(out@) =~= referents(prev).push(list.events@[p as int]));
                },
                None => {},
            }
            i += 1;
        }
        assert(indexes@.take(indexes@.len() as int) == indexes@);
        out
    }

    /// The message events with the given message indexes that the reader
    /// may see, in the order asked.
    pub fn messages_by_index(&self, indexes: &Vec<MessageIndex>) -> (r: Vec<&'a EventWrapperInternal>)
        ensures
            referents(r@) == messages_at(*self.list, self.min_visible_event_index, indexes@),
            forall|k: int|
                0 <= k < r@.len() ==> (#[trigger] r@[k]).index >= self.min_visible_event_index
                    && r@[k].is_message(),
    {
        let list: &'a ChatEventsList = self.list;
        let mut out: Vec<&'a EventWrapperInternal> = Vec::new();
        let mut i: usize = 0;
        assert(referents(out@) =~= messages_at(*list, self.min_visible_event_index, indexes@.take(0)));
        while i < indexes.len()
            invariant
                0 <= i <= indexes@.len(),
                referents(out@) == messages_at(*list, self.min_visible_event_index, indexes@.take(i as int)),
                forall|k: int|
                    0 <= k < out@.len() ==> (#[trigger] out@[k]).index >= self.min_visible_event_index
                        && out@[k].is_message(),
            decreases indexes@.len() - i,
        {
            let ghost prev = out@;
            assert(indexes@.take(i as int + 1).drop_last() == indexes@.take(i as int));
            match list.find_visible_message(self.min_visible_event_index, indexes[i]) {
                Some(p) => {
                    out.push(&list.events[p]);
                    assert(referents(out@) =~= referents(prev).push(list.events@[p as int]));
                },
                None => {},
            }
            i += 1;
        }
        assert(indexes@.take(indexes@.len() as int) == indexes@);
        out
    }
}

} // verus!
