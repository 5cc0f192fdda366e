//! Events and messages as a reader is shown them.
//!
//! The log keeps more of a message than a reader may see: the content of
//! a deleted message stays until it is wiped, and the summary of a thread
//! records every user's choice. What is handed out is a copy made for one
//! reader: a deleted message shows who deleted it and when in place of its
//! content, and the summary of a thread says whether the reader follows it.

use vstd::prelude::*;
use crate::event_list::ChatEventsList;
use crate::events::{ChatEventInternal, EventWrapperInternal, MessageInternal};
use crate::message::{GroupReplyContext, MessageContent, PollConfig, ReactionEntry, Tip};
use crate::reader::ChatEventsListReader;
use crate::seq_util::copy_ids;
use crate::thread_summary::{ThreadSummary, ThreadSummaryInternal};
use crate::types::{EventIndex, MessageId, MessageIndex, TimestampMillis, UserId};

verus! {

/// A message as a reader is shown it.
#[derive(Debug)]
pub struct Message {
    pub message_index: MessageIndex,
    pub message_id: MessageId,
    pub sender: UserId,
    pub content: MessageContent,
    pub replies_to: Option<GroupReplyContext>,
    pub reactions: Vec<ReactionEntry>,
    pub tips: Vec<Tip>,
    pub thread_summary: Option<ThreadSummary>,
    pub forwarded: bool,
    pub last_updated: Option<TimestampMillis>,
}

/// An event as a reader is shown it: a message in the copy made for the
/// reader, any other event as the log keeps it.
#[derive(Debug)]
pub enum ChatEvent<'a> {
    Message(Message),
    Other(&'a ChatEventInternal),
}

/// What a reader is shown of an entry of the log: its place, its times,
/// and the event or message that it holds.
#[derive(Debug)]
pub struct EventWrapper<T> {
    pub index: EventIndex,
    pub timestamp: TimestampMillis,
    pub expires_at: Option<TimestampMillis>,
    pub event: T,
}

/// Whether one content says what the other says.
pub open spec fn same_content(a: MessageContent, b: MessageContent) -> bool {
    match (a, b) {
        (MessageContent::Text { text: x }, MessageContent::Text { text: y }) => x@ == y@,
        (
            MessageContent::File { caption: x, blob_id: p },
            MessageContent::File { caption: y, blob_id: q },
        ) => x@ == y@ && p == q,
        (MessageContent::Poll { config: x }, MessageContent::Poll { config: y }) => x.text@ == y.text@
            && x.options@ == y.options@ && x.end_date == y.end_date,
        (
            MessageContent::Crypto { transfer: s, caption: x },
            MessageContent::Crypto { transfer: t, caption: y },
        ) => s == t && x@ == y@,
        (
            MessageContent::Prize { transfer: s, end_date: d, caption: x },
            MessageContent::Prize { transfer: t, end_date: e, caption: y },
        ) => s == t && d == e && x@ == y@,
        (
            MessageContent::GovernanceProposal { governance_canister_id: g, proposal_id: p },
            MessageContent::GovernanceProposal { governance_canister_id: h, proposal_id: q },
        ) => g == h && p == q,
        (
            MessageContent::Deleted { deleted_by: u, timestamp: s },
            MessageContent::Deleted { deleted_by: v, timestamp: t },
        ) => u == v && s == t,
        _ => false,
    }
}

/// What a reader is shown as the content of a message: who deleted it and
/// when, if it is deleted; what the message holds otherwise.
pub open spec fn content_shown(shown: MessageContent, stored: MessageInternal) -> bool {
    match stored.deleted_by {
        Some(deletion) => shown == (MessageContent::Deleted {
            deleted_by: deletion.deleted_by,
            timestamp: deletion.timestamp,
        }),
        None => same_content(shown, stored.content),
    }
}

/// Whether the reactions are the same, user by user and in the same order.
pub open spec fn same_reactions(a: Seq<ReactionEntry>, b: Seq<ReactionEntry>) -> bool {
    &&& a.len() == b.len()
    &&& forall|i: int|
        0 <= i < a.len() ==> (#[trigger] a[i]).reaction@ == b[i].reaction@ && a[i].users@ == b[i].users@
}

/// Whether `shown` is the summary of a thread as `reader` sees it.
pub open spec fn summary_shown(shown: ThreadSummary, stored: ThreadSummaryInternal, reader: Option<UserId>) -> bool {
    &&& shown.participant_ids@ == stored.participant_ids@
    &&& shown.followed_by_me == (reader matches Some(u) && stored.is_followed_by(u))
    &&& shown.reply_count == stored.reply_count
    &&& shown.latest_event_index == stored.latest_event_index
    &&& shown.latest_event_timestamp == stored.latest_event_timestamp
}

impl Message {
    /// Whether this is the message `stored` as `reader` is shown it.
    pub open spec fn shows(&self, stored: MessageInternal, reader: Option<UserId>) -> bool {
        &&& self.message_index == stored.message_index
        &&& self.message_id == stored.message_id
        &&& self.sender == stored.sender
        &&& content_shown(self.content, stored)
        &&& self.replies_to == stored.replies_to
        &&& same_reactions(self.reactions@, stored.reactions@)
        &&& self.tips@ == stored.tips@
        &&& match (self.thread_summary, stored.thread_summary) {
            (Some(shown), Some(kept)) => summary_shown(shown, kept, reader),
            (None, None) => true,
            _ => false,
        }
        &&& self.forwarded == stored.forwarded
        &&& self.last_updated == stored.last_updated
    }
}

impl<'a> EventWrapper<ChatEvent<'a>> {
    /// Whether this is the entry `stored` as `reader` is shown it.
    pub open spec fn shows(&self, stored: EventWrapperInternal, reader: Option<UserId>) -> bool {
        &&& self.index == stored.index
        &&& self.timestamp == stored.timestamp
        &&& self.expires_at == stored.expires_at
        &&& match self.event {
            ChatEvent::Message(message) => stored.is_message() && message.shows(stored.message(), reader),
            ChatEvent::Other(event) => !stored.is_message() && *event == stored.event,
        }
    }
}

impl EventWrapper<Message> {
    /// Whether this is the entry `stored`, which holds a message, as
    /// `reader` is shown it.
    pub open spec fn shows(&self, stored: EventWrapperInternal, reader: Option<UserId>) -> bool {
        &&& self.index == stored.index
        &&& self.timestamp == stored.timestamp
        &&& self.expires_at == stored.expires_at
        &&& stored.is_message()
        &&& self.event.shows(stored.message(), reader)
    }
}

/// Whether `shown` holds the entries `stored`, one for one, as `reader`
/// is shown them.
pub open spec fn events_shown(
    shown: Seq<EventWrapper<ChatEvent<'_>>>,
    stored: Seq<EventWrapperInternal>,
    reader: Option<UserId>,
) -> bool {
    &&& shown.len() == stored.len()
    &&& forall|i: int| 0 <= i < shown.len() ==> (#[trigger] shown[i]).shows(stored[i], reader)
}

/// Whether `shown` holds the entries `stored`, each of which holds a
/// message, one for one, as `reader` is shown them.
pub open spec fn messages_shown(
    shown: Seq<EventWrapper<Message>>,
    stored: Seq<EventWrapperInternal>,
    reader: Option<UserId>,
) -> bool {
    &&& shown.len() == stored.len()
    &&& forall|i: int| 0 <= i < shown.len() ==> (#[trigger] shown[i]).shows(stored[i], reader)
}

/// Whether `shown` holds the messages of `list` with the identifiers
/// `ids`, in that order, as `reader` is shown them; an identifier whose
/// message is not in the log, or lies below the lower bound, is passed
/// over.
pub open spec fn shown_by_id(
    list: ChatEventsList,
    min_visible_event_index: EventIndex,
    ids: Seq<MessageId>,
    reader: Option<UserId>,
    shown: Seq<Message>,
) -> bool
    decreases ids.len(),
{
    if ids.len() == 0 {
        shown.len() == 0
    } else {
        match list.visible_message_id_position(min_visible_event_index, ids.last()) {
            Some(p) => shown.len() > 0 && shown.last().shows(list.events@[p].message(), reader) && shown_by_id(
                list,
                min_visible_event_index,
                ids.drop_last(),
                reader,
                shown.drop_last(),
            ),
            None => shown_by_id(list, min_visible_event_index, ids.drop_last(), reader, shown),
        }
    }
}

/// A copy of a vector of strings.
pub fn copy_strings(v: &Vec<String>) -> (r: Vec<String>)
    ensures
        r@ == v@,
{
    let mut out: Vec<String> = Vec::new();
    let mut i: usize = 0;
    while i < v.len()
        invariant
            0 <= i <= v@.len(),
            out@ == v@.take(i as int),
        decreases v@.len() - i,
    {
        out.push(v[i].clone());
        assert(v@.take(i as int).push(v@[i as int]) == v@.take(i as int + 1));
        i += 1;
    }
    assert(v@.take(v@.len() as int) == v@);
    out
}

/// A copy of the tips given to a message.
pub fn copy_tips(v: &Vec<Tip>) -> (r: Vec<Tip>)
    ensures
        r@ == v@,
{
    let mut out: Vec<Tip> = Vec::new();
    let mut i: usize = 0;
    while i < v.len()
        invariant
            0 <= i <= v@.len(),
            out@ == v@.take(i as int),
        decreases v@.len() - i,
    {
        out.push(v[i]);
        assert(v@.take(i as int).push(v@[i as int]) == v@.take(i as int + 1));
        i += 1;
    }
    assert(v@.take(v@.len() as int) == v@);
    out
}

/// A copy of the reactions given to a message.
pub fn copy_reactions(v: &Vec<ReactionEntry>) -> (r: Vec<ReactionEntry>)
    ensures
        same_reactions(r@, v@),
{
    let mut out: Vec<ReactionEntry> = Vec::new();
    let mut i: usize = 0;
    while i < v.len()
        invariant
            0 <= i <= v@.len(),
            out@.len() == i,
            forall|k: int|
                0 <= k < i ==> (#[trigger] out@[k]).reaction@ == v@[k].reaction@ && out@[k].users@ == v@[k].users@,
        decreases v@.len() - i,
    {
        out.push(ReactionEntry { reaction: v[i].reaction.clone(), users: copy_ids(&v[i].users) });
        i += 1;
    }
    out
}

impl MessageContent {
    /// A copy of the content.
    pub fn copied(&self) -> (r: MessageContent)
        ensures
            same_content(r, *self),
    {
        match self {
            MessageContent::Text { text } => MessageContent::Text { text: text.clone() },
            MessageContent::File { caption, blob_id } => MessageContent::File {
                caption: caption.clone(),
                blob_id: *blob_id,
            },
            MessageContent::Poll { config } => MessageContent::Poll {
                config: PollConfig {
                    text: config.text.clone(),
                    options: copy_strings(&config.options),
                    end_date: config.end_date,
                },
            },
            MessageContent::Crypto { transfer, caption } => MessageContent::Crypto {
                transfer: *transfer,
                caption: caption.clone(),
            },
            MessageContent::Prize { transfer, end_date, caption } => MessageContent::Prize {
                transfer: *transfer,
                end_date: *end_date,
                caption: caption.clone(),
            },
            MessageContent::GovernanceProposal {
                governance_canister_id,
                proposal_id,
            } => MessageContent::GovernanceProposal {
                governance_canister_id: *governance_canister_id,
                proposal_id: *proposal_id,
            },
            MessageContent::Deleted { deleted_by, timestamp } => MessageContent::Deleted {
                deleted_by: *deleted_by,
                timestamp: *timestamp,
            },
        }
    }
}

impl MessageInternal {
    /// The message as `reader` is shown it.
    pub fn hydrate(&self, reader: Option<UserId>) -> (r: Message)
        ensures
            r.shows(*self, reader),
    {
        let content = match self.deleted_by {
            Some(deletion) => MessageContent::Deleted {
                deleted_by: deletion.deleted_by,
                timestamp: deletion.timestamp,
            },
            None => self.content.copied(),
        };
        let thread_summary = match &self.thread_summary {
            Some(summary) => Some(summary.hydrate(reader)),
            None => None,
        };
        Message {
            message_index: self.message_index,
            message_id: self.message_id,
            sender: self.sender,
            content,
            replies_to: self.replies_to,
            reactions: copy_reactions(&self.reactions),
            tips: copy_tips(&self.tips),
            thread_summary,
            forwarded: self.forwarded,
            last_updated: self.last_updated,
        }
    }
}

impl EventWrapperInternal {
    /// The entry as `reader` is shown it.
    pub fn hydrate(&self, reader: Option<UserId>) -> (r: EventWrapper<ChatEvent<'_>>)
        ensures
            r.shows(*self, reader),
    {
        let event = match &self.event {
            ChatEventInternal::Message(message) => ChatEvent::Message(message.hydrate(reader)),
            other => ChatEvent::Other(other),
        };
        EventWrapper { index: self.index, timestamp: self.timestamp, expires_at: self.expires_at, event }
    }

    /// The entry, which holds a message, as `reader` is shown it; nothing
    /// for an entry that holds no message.
    pub fn hydrate_message(&self, reader: Option<UserId>) -> (r: Option<EventWrapper<Message>>)
        ensures
            match r {
                Some(shown) => shown.shows(*self, reader),
                None => !self.is_message(),
            },
    {
        match &self.event {
            ChatEventInternal::Message(message) => Some(
                EventWrapper {
                    index: self.index,
                    timestamp: self.timestamp,
                    expires_at: self.expires_at,
                    event: message.hydrate(reader),
                },
            ),
            _ => None,
        }
    }
}

impl<'a> ChatEventsListReader<'a> {
    /// The messages with the given identifiers that the reader may see,
    /// in the order of the identifiers, as `reader` is shown them.
    pub fn hydrate_by_id(&self, ids: &Vec<MessageId>, reader: Option<UserId>) -> (r: Vec<Message>)
        ensures
            shown_by_id(*self.list, self.min_visible_event_index, ids@, reader, r@),
    {
        let mut out: Vec<Message> = Vec::new();
        let mut i: usize = 0;
        while i < ids.len()
            invariant
                0 <= i <= ids@.len(),
                shown_by_id(*self.list, self.min_visible_event_index, ids@.take(i as int), reader, out@),
            decreases ids@.len() - i,
        {
            let ghost before = out@;
            assert(ids@.take(i as int + 1).drop_last() == ids@.take(i as int));
            match self.message_internal_by_id(ids[i]) {
                Some(message) => {
                    out.push(message.hydrate(reader));
                    assert(out@.drop_last() == before);
                },
                None => {},
            }
            i += 1;
        }
        assert(ids@.take(ids@.len() as int) == ids@);
        out
    }
}

/// The entries as `reader` is shown them.
pub fn hydrate_events<'a>(found: &Vec<&'a EventWrapperInternal>, reader: Option<UserId>) -> (r: Vec<
    EventWrapper<ChatEvent<'a>>,
>)
    ensures
        events_shown(r@, crate::reader::referents(found@), reader),
{
    let mut out: Vec<EventWrapper<ChatEvent<'a>>> = Vec::new();
    let mut i: usize = 0;
    while i < found.len()
        invariant
            0 <= i <= found@.len(),
            out@.len() == i,
            forall|k: int| 0 <= k < i ==> (#[trigger] out@[k]).shows(*found@[k], reader),
        decreases found@.len() - i,
    {
        let entry: &'a EventWrapperInternal = found[i];
        out.push(entry.hydrate(reader));
        i += 1;
    }
    out
}

/// The entries, each of which holds a message, as `reader` is shown them.
pub fn hydrate_messages(found: &Vec<&EventWrapperInternal>, reader: Option<UserId>) -> (r: Vec<EventWrapper<Message>>)
    requires
        forall|k: int| 0 <= k < found@.len() ==> (#[trigger] found@[k]).is_message(),
    ensures
        messages_shown(r@, crate::reader::referents(found@), reader),
{
    let mut out: Vec<EventWrapper<Message>> = Vec::new();
    let mut i: usize = 0;
    while i < found.len()
        invariant
            0 <= i <= found@.len(),
            out@.len() == i,
            forall|k: int| 0 <= k < found@.len() ==> (#[trigger] found@[k]).is_message(),
            forall|k: int| 0 <= k < i ==> (#[trigger] out@[k]).shows(*found@[k], reader),
        decreases found@.len() - i,
    {
        match found[i].hydrate_message(reader) {
            Some(shown) => {
                out.push(shown);
            },
            None => {
                assert(found@[i as int].is_message());
            },
        }
        i += 1;
    }
    out
}

} // verus!
