//! Reading the log of a group: ranges of events, windows around a
//! message, events and messages by index, deleted messages and thread
//! previews.

use vstd::prelude::*;
use crate::chat_events::ChatEvents;
use crate::events::EventWrapperInternal;
use crate::group::GroupChatCore;
use crate::message::MessageContent;
use crate::reader::{events_at, messages_at, referents, scanned, windowed, ChatEventsListReader};
use crate::results::{
    DeletedMessageResult, EventsResponse, EventsResult, MessagesResponse, MessagesResult, ThreadPreview,
    ThreadPreviewsResult,
};
use crate::event_list::with_message_index;
use crate::roles::permitted;
use crate::seq_util::lemma_first_match;
use crate::shown::{events_shown, hydrate_events, hydrate_messages, messages_shown};
use crate::types::{EventIndex, MessageId, MessageIndex, TimestampMillis, UserId};

verus! {

/// Most replies that a thread preview shows.
pub const MAX_PREVIEWED_REPLY_COUNT: usize = 2;

/// What stands between a user and a log.
pub enum EventsReaderResult<'a> {
    Success(ChatEventsListReader<'a>),
    UserNotInGroup,
    ThreadNotFound,
}

/// What a read of the log comes to before any event is fetched.
pub enum ReadVerdict {
    /// The group is not open to the user.
    UserNotInGroup,
    /// The thread does not exist or its root is hidden from the user.
    ThreadNotFound,
    /// The client has seen an event that this replica has not recorded;
    /// the index is that of the latest event recorded here.
    ReplicaNotUpToDate(EventIndex),
    /// The read goes ahead; the index is that of the latest event recorded.
    Proceed(EventIndex),
}

/// The newest `count` messages among the first `hi` events, newest first.
pub open spec fn latest_messages(s: Seq<EventWrapperInternal>, hi: int, count: nat) -> Seq<EventWrapperInternal>
    decreases hi,
{
    if hi <= 0 || hi > s.len() || count == 0 {
        Seq::empty()
    } else if s[hi - 1].is_message() {
        seq![s[hi - 1]] + latest_messages(s, hi - 1, (count - 1) as nat)
    } else {
        latest_messages(s, hi - 1, count)
    }
}

impl GroupChatCore {
    /// The verdict on a read of the chosen log by `user_id`, whose client
    /// claims to have seen the event `latest_client_event_index`.
    pub open spec fn read_verdict(
        &self,
        user_id: Option<UserId>,
        thread_root: Option<MessageIndex>,
        latest_client_event_index: Option<EventIndex>,
    ) -> ReadVerdict {
        match self.spec_min_visible_event_index(user_id) {
            None => ReadVerdict::UserNotInGroup,
            Some(min) => if !self.events.log_readable(min, thread_root) {
                ReadVerdict::ThreadNotFound
            } else {
                let latest = (self.events.log(thread_root).next_event_index - 1) as u32;
                if latest_client_event_index matches Some(seen) && latest < seen {
                    ReadVerdict::ReplicaNotUpToDate(latest)
                } else {
                    ReadVerdict::Proceed(latest)
                }
            },
        }
    }

    /// The lower bound that applies to `user_id` within the chosen log.
    /// Meaningful only where the read goes ahead.
    pub open spec fn read_bound(&self, user_id: Option<UserId>, thread_root: Option<MessageIndex>) -> EventIndex {
        ChatEvents::bound_in(self.spec_min_visible_event_index(user_id)->Some_0, thread_root)
    }

    /// A reader of the chosen log for `user_id`, or what stands in its way.
    fn events_reader(&self, user_id: Option<UserId>, thread_root: Option<MessageIndex>) -> (r: EventsReaderResult<'_>)
        requires
            self.wf(),
        ensures
            match r {
                EventsReaderResult::Success(reader) => {
                    &&& self.spec_min_visible_event_index(user_id) matches Some(min)
                    &&& self.events.log_readable(min, thread_root)
                    &&& *reader.list == self.events.log(thread_root)
                    &&& reader.min_visible_event_index == self.read_bound(user_id, thread_root)
                    &&& reader.list.wf()
                    &&& reader.list.next_event_index > 0
                },
                EventsReaderResult::UserNotInGroup => self.spec_min_visible_event_index(user_id) is None,
                EventsReaderResult::ThreadNotFound => self.spec_min_visible_event_index(user_id) matches Some(min)
                    && !self.events.log_readable(min, thread_root),
            },
    {
        match self.min_visible_event_index(user_id) {
            Some(min) => match self.events.events_reader(min, thread_root) {
                Some(reader) => {
                    proof {
                        if thread_root is Some {
                            crate::seq_util::lemma_first_match(
                                self.events.threads@,
                                crate::chat_events::rooted_at(thread_root->Some_0),
                            );
                        }
                    }
                    EventsReaderResult::Success(reader)
                },
                None => EventsReaderResult::ThreadNotFound,
            },
            None => EventsReaderResult::UserNotInGroup,
        }
    }

    /// Events of the chosen log from `start_index` on, upwards or
    /// downwards, as far as the caps allow.
    pub fn events(
        &self,
        user_id: Option<UserId>,
        thread_root_message_index: Option<MessageIndex>,
        start_index: EventIndex,
        ascending: bool,
        max_messages: u32,
        max_events: u32,
        latest_client_event_index: Option<EventIndex>,
        now: TimestampMillis,
    ) -> (r: EventsResult<'_>)
        requires
            self.wf(),
        ensures
            match self.read_verdict(user_id, thread_root_message_index, latest_client_event_index) {
                ReadVerdict::UserNotInGroup => r is UserNotInGroup,
                ReadVerdict::ThreadNotFound => r is ThreadNotFound,
                ReadVerdict::ReplicaNotUpToDate(latest) => r matches EventsResult::ReplicaNotUpToDate(e) && e
                    == latest,
                ReadVerdict::Proceed(latest) => {
                    &&& r matches EventsResult::Success(response)
                    &&& response.latest_event_index == latest
                    &&& response.timestamp == now
                    &&& events_shown(
                        response.events@,
                        scanned(
                            self.events.log(thread_root_message_index),
                            self.read_bound(user_id, thread_root_message_index),
                            start_index,
                            ascending,
                            max_messages,
                            max_events,
                        ),
                        user_id,
                    )
                    &&& forall|k: int|
                        0 <= k < response.events@.len() ==> (#[trigger] response.events@[k]).index
                            >= self.read_bound(user_id, thread_root_message_index)
                },
            },
    {
        match self.events_reader(user_id, thread_root_message_index) {
            EventsReaderResult::Success(reader) => {
                let latest_event_index = reader.list.next_event_index - 1;
                match latest_client_event_index {
                    Some(seen) => {
                        if latest_event_index < seen {
                            return EventsResult::ReplicaNotUpToDate(latest_event_index);
                        }
                    },
                    None => {},
                }
                let found = reader.scan(start_index, ascending, max_messages, max_events);
                let events = hydrate_events(&found, user_id);
                EventsResult::Success(EventsResponse { events, latest_event_index, timestamp: now })
            },
            EventsReaderResult::ThreadNotFound => EventsResult::ThreadNotFound,
            EventsReaderResult::UserNotInGroup => EventsResult::UserNotInGroup,
        }
    }

    /// The events of the chosen log with the given indexes.
    pub fn events_by_index(
        &self,
        user_id: Option<UserId>,
        thread_root_message_index: Option<MessageIndex>,
        events: Vec<EventIndex>,
        latest_client_event_index: Option<EventIndex>,
        now: TimestampMillis,
    ) -> (r: EventsResult<'_>)
        requires
            self.wf(),
        ensures
            match self.read_verdict(user_id, thread_root_message_index, latest_client_event_index) {
                ReadVerdict::UserNotInGroup => r is UserNotInGroup,
                ReadVerdict::ThreadNotFound => r is ThreadNotFound,
                ReadVerdict::ReplicaNotUpToDate(latest) => r matches EventsResult::ReplicaNotUpToDate(e) && e
                    == latest,
                ReadVerdict::Proceed(latest) => {
                    &&& r matches EventsResult::Success(response)
                    &&& response.latest_event_index == latest
                    &&& response.timestamp == now
                    &&& events_shown(
                        response.events@,
                        events_at(
                            self.events.log(thread_root_message_index),
                            self.read_bound(user_id, thread_root_message_index),
                            events@,
                        ),
                        user_id,
                    )
                    &&& forall|k: int|
                        0 <= k < response.events@.len() ==> (#[trigger] response.events@[k]).index
                            >= self.read_bound(user_id, thread_root_message_index)
                },
            },
    {
        match self.events_reader(user_id, thread_root_message_index) {
            EventsReaderResult::Success(reader) => {
                let latest_event_index = reader.list.next_event_index - 1;
                match latest_client_event_index {
                    Some(seen) => {
                        if latest_event_index < seen {
                            return EventsResult::ReplicaNotUpToDate(latest_event_index);
                        }
                    },
                    None => {},
                }
                let found = reader.get_by_indexes(&events);
                let shown = hydrate_events(&found, user_id);
                EventsResult::Success(EventsResponse { events: shown, latest_event_index, timestamp: now })
            },
            EventsReaderResult::ThreadNotFound => EventsResult::ThreadNotFound,
            EventsReaderResult::UserNotInGroup => EventsResult::UserNotInGroup,
        }
    }

    /// A run of events of the chosen log around the message with message
    /// index `mid_point`.
    pub fn events_window(
        &self,
        user_id: Option<UserId>,
        thread_root_message_index: Option<MessageIndex>,
        mid_point: MessageIndex,
        max_messages: u32,
        max_events: u32,
        latest_client_event_index: Option<EventIndex>,
        now: TimestampMillis,
    ) -> (r: EventsResult<'_>)
        requires
            self.wf(),
        ensures
            match self.read_verdict(user_id, thread_root_message_index, latest_client_event_index) {
                ReadVerdict::UserNotInGroup => r is UserNotInGroup,
                ReadVerdict::ThreadNotFound => r is ThreadNotFound,
                ReadVerdict::ReplicaNotUpToDate(latest) => r matches EventsResult::ReplicaNotUpToDate(e) && e
                    == latest,
                ReadVerdict::Proceed(latest) => {
                    &&& r matches EventsResult::Success(response)
                    &&& response.latest_event_index == latest
                    &&& response.timestamp == now
                    &&& events_shown(
                        response.events@,
                        windowed(
                            self.events.log(thread_root_message_index),
                            self.read_bound(user_id, thread_root_message_index),
                            mid_point,
                            max_messages,
                            max_events,
                        ),
                        user_id,
                    )
                    &&& forall|k: int|
                        0 <= k < response.events@.len() ==> (#[trigger] response.events@[k]).index
                            >= self.read_bound(user_id, thread_root_message_index)
                },
            },
    {
        match self.events_reader(user_id, thread_root_message_index) {
            EventsReaderResult::Success(reader) => {
                let latest_event_index = reader.list.next_event_index - 1;
                match latest_client_event_index {
                    Some(seen) => {
                        if latest_event_index < seen {
                            return EventsResult::ReplicaNotUpToDate(latest_event_index);
                        }
                    },
                    None => {},
                }
                let found = reader.window(mid_point, max_messages, max_events);
                let events = hydrate_events(&found, user_id);
                EventsResult::Success(EventsResponse { events, latest_event_index, timestamp: now })
            },
            EventsReaderResult::ThreadNotFound => EventsResult::ThreadNotFound,
            EventsReaderResult::UserNotInGroup => EventsResult::UserNotInGroup,
        }
    }

    /// The messages of the chosen log with the given message indexes.
    pub fn messages_by_message_index(
        &self,
        user_id: Option<UserId>,
        thread_root_message_index: Option<MessageIndex>,
        messages: Vec<MessageIndex>,
        latest_client_event_index: Option<EventIndex>,
        now: TimestampMillis,
    ) -> (r: MessagesResult)
        requires
            self.wf(),
        ensures
            match self.read_verdict(user_id, thread_root_message_index, latest_client_event_index) {
                ReadVerdict::UserNotInGroup => r is UserNotInGroup,
                ReadVerdict::ThreadNotFound => r is ThreadNotFound,
                ReadVerdict::ReplicaNotUpToDate(latest) => r matches MessagesResult::ReplicaNotUpToDate(e) && e
                    == latest,
                ReadVerdict::Proceed(latest) => {
                    &&& r matches MessagesResult::Success(response)
                    &&& response.latest_event_index == latest
                    &&& response.timestamp == now
                    &&& messages_shown(
                        response.messages@,
                        messages_at(
                            self.events.log(thread_root_message_index),
                            self.read_bound(user_id, thread_root_message_index),
                            messages@,
                        ),
                        user_id,
                    )
                    &&& forall|k: int|
                        0 <= k < response.messages@.len() ==> (#[trigger] response.messages@[k]).index
                            >= self.read_bound(user_id, thread_root_message_index)
                },
            },
    {
        match self.events_reader(user_id, thread_root_message_index) {
            EventsReaderResult::Success(reader) => {
                let latest_event_index = reader.list.next_event_index - 1;
                match latest_client_event_index {
                    Some(seen) => {
                        if latest_event_index < seen {
                            return MessagesResult::ReplicaNotUpToDate(latest_event_index);
                        }
                    },
                    None => {},
                }
                let found = reader.messages_by_index(&messages);
                let shown = hydrate_messages(&found, user_id);
                MessagesResult::Success(MessagesResponse { messages: shown, latest_event_index, timestamp: now })
            },
            EventsReaderResult::ThreadNotFound => MessagesResult::ThreadNotFound,
            EventsReaderResult::UserNotInGroup => MessagesResult::UserNotInGroup,
        }
    }

    /// The content of a deleted message, for those who may still see it:
    /// its sender, and, if someone else deleted it, those whose role
    /// allows deleting messages. A message whose content has been wiped
    /// is gone for everyone.
    pub fn deleted_message(
        &self,
        user_id: UserId,
        thread_root_message_index: Option<MessageIndex>,
        message_id: MessageId,
    ) -> (r: DeletedMessageResult<'_>)
        ensures
            if !self.members.contains(user_id) {
                r is UserNotInGroup
            } else {
                let member = self.members.member(user_id);
                let min = member.min_visible_event_index;
                let bound = ChatEvents::bound_in(min, thread_root_message_index);
                if !self.events.log_readable(min, thread_root_message_index) || self.events.log(
                    thread_root_message_index,
                ).visible_message_id_position(bound, message_id) is None {
                    r is MessageNotFound
                } else {
                    let list = self.events.log(thread_root_message_index);
                    let message = list.events@[list.visible_message_id_position(bound, message_id)->Some_0].message();
                    match message.deleted_by {
                        None => r is MessageNotDeleted,
                        Some(deleted_by) => if message.content is Deleted {
                            r is MessageHardDeleted
                        } else if user_id == message.sender || (deleted_by.deleted_by != message.sender
                            && permitted(member.role, self.permissions.delete_messages)) {
                            r matches DeletedMessageResult::Success(content) && *content == message.content
                        } else {
                            r is NotAuthorized
                        },
                    }
                }
            },
    {
        let member = match self.members.get(user_id) {
            Some(m) => m,
            None => {
                return DeletedMessageResult::UserNotInGroup;
            },
        };
        let reader = match self.events.events_reader(member.min_visible_event_index(), thread_root_message_index) {
            Some(reader) => reader,
            None => {
                return DeletedMessageResult::MessageNotFound;
            },
        };
        let message = match reader.message_internal_by_id(message_id) {
            Some(m) => m,
            None => {
                return DeletedMessageResult::MessageNotFound;
            },
        };
        match &message.deleted_by {
            Some(deleted_by) => {
                if matches!(message.content, MessageContent::Deleted { .. }) {
                    DeletedMessageResult::MessageHardDeleted
                } else if user_id == message.sender || (deleted_by.deleted_by != message.sender
                    && member.role.can_delete_messages(&self.permissions)) {
                    DeletedMessageResult::Success(&message.content)
                } else {
                    DeletedMessageResult::NotAuthorized
                }
            },
            None => DeletedMessageResult::MessageNotDeleted,
        }
    }

    /// The preview of the thread rooted at `root`, if the reader may see
    /// the root and the thread exists.
    pub open spec fn previewable(&self, min_visible_event_index: EventIndex, root: MessageIndex) -> bool {
        self.events.log_readable(min_visible_event_index, Some(root))
    }

    /// The preview of one thread, if the reader may see it.
    fn build_thread_preview(
        &self,
        user_id: UserId,
        min_visible_event_index: EventIndex,
        root_message_index: MessageIndex,
    ) -> (r: Option<ThreadPreview>)
        ensures
            r is Some == self.previewable(min_visible_event_index, root_message_index),
            r matches Some(preview) ==> is_preview(
                *self,
                user_id,
                min_visible_event_index,
                root_message_index,
                preview,
            ),
    {
        let root_message = match self.events.visible_main_events_reader(min_visible_event_index).message_event(
            root_message_index,
        ) {
            Some(w) => w,
            None => {
                return None;
            },
        };
        let thread = match self.events.events_reader(min_visible_event_index, Some(root_message_index)) {
            Some(reader) => reader,
            None => {
                return None;
            },
        };
        let list = thread.list;
        let mut latest_replies: Vec<&EventWrapperInternal> = Vec::new();
        let mut i: usize = list.events.len();
        let mut left: usize = MAX_PREVIEWED_REPLY_COUNT;
        let ghost all = latest_messages(list.events@, list.events@.len() as int, MAX_PREVIEWED_REPLY_COUNT as nat);
        assert(referents(latest_replies@) + all == all);
        while i > 0 && left > 0
            invariant
                i <= list.events@.len(),
                all == referents(latest_replies@) + latest_messages(list.events@, i as int, left as nat),
                forall|k: int| 0 <= k < latest_replies@.len() ==> (#[trigger] latest_replies@[k]).is_message(),
            decreases i,
        {
            i = i - 1;
            let ghost prev = referents(latest_replies@);
            let ghost rest_if = latest_messages(list.events@, i as int, (left - 1) as nat);
            if list.events[i].holds_message() {
                latest_replies.push(&list.events[i]);
                left = left - 1;
                assert(referents(latest_replies@) =~= prev.push(list.events@[i as int]));
                assert(prev + (seq![list.events@[i as int]] + rest_if) == prev.push(list.events@[i as int])
                    + rest_if);
            }
        }
        assert(referents(latest_replies@) + Seq::<EventWrapperInternal>::empty() == referents(latest_replies@));
        proof {
            lemma_first_match(self.events.main.events@, with_message_index(root_message_index));
        }
        match root_message.hydrate_message(Some(user_id)) {
            Some(root) => Some(
                ThreadPreview {
                    root_message: root,
                    latest_replies: hydrate_messages(&latest_replies, Some(user_id)),
                    total_replies: list.next_message_index,
                },
            ),
            None => None,
        }
    }

    /// Previews of the given threads, for those that the caller may see.
    pub fn thread_previews(
        &self,
        user_id: UserId,
        threads: Vec<MessageIndex>,
        latest_client_thread_update: Option<TimestampMillis>,
        now: TimestampMillis,
    ) -> (r: ThreadPreviewsResult)
        ensures
            if !self.members.contains(user_id) {
                r is UserNotInGroup
            } else if latest_client_thread_update matches Some(t) && now < t {
                r matches ThreadPreviewsResult::ReplicaNotUpToDate(n) && n == now
            } else {
                r matches ThreadPreviewsResult::Success(previews) && are_previews(
                    *self,
                    user_id,
                    self.members.member(user_id).min_visible_event_index,
                    threads@,
                    previews@,
                )
            },
    {
        let member = match self.members.get(user_id) {
            Some(m) => m,
            None => {
                return ThreadPreviewsResult::UserNotInGroup;
            },
        };
        match latest_client_thread_update {
            Some(t) => {
                if now < t {
                    return ThreadPreviewsResult::ReplicaNotUpToDate(now);
                }
            },
            None => {},
        }
        let min = member.min_visible_event_index();
        let mut previews: Vec<ThreadPreview> = Vec::new();
        let mut i: usize = 0;
        while i < threads.len()
            invariant
                i <= threads@.len(),
                are_previews(*self, user_id, min, threads@.take(i as int), previews@),
            decreases threads@.len() - i,
        {
            let ghost roots = threads@.take(i as int);
            let ghost listed = previews@;
            assert(threads@.take(i as int + 1).drop_last() == roots);
            match self.build_thread_preview(user_id, min, threads[i]) {
                Some(preview) => {
                    previews.push(preview);
                    assert(previews@.drop_last() == listed);
                },
                None => {},
            }
            i += 1;
        }
        assert(threads@.take(threads@.len() as int) == threads@);
        ThreadPreviewsResult::Success(previews)
    }
}

/// Whether `preview` is the preview of the thread rooted at `root` for
/// `user_id`: it shows the root message, the newest replies (newest
/// first, as many as a preview shows), each as the user is shown it, and
/// the number of replies that the thread ever had.
pub open spec fn is_preview(
    group: GroupChatCore,
    user_id: UserId,
    min_visible_event_index: EventIndex,
    root: MessageIndex,
    preview: ThreadPreview,
) -> bool {
    let thread = group.events.thread(root);
    &&& group.events.main.visible_message_position(min_visible_event_index, root) matches Some(p)
    &&& preview.root_message.shows(group.events.main.events@[p], Some(user_id))
    &&& messages_shown(
        preview.latest_replies@,
        latest_messages(thread.events@, thread.events@.len() as int, MAX_PREVIEWED_REPLY_COUNT as nat),
        Some(user_id),
    )
    &&& preview.total_replies == thread.next_message_index
}

/// Whether `previews` are the previews of the threads rooted at `roots`:
/// one for each thread that the reader may see, in order.
pub open spec fn are_previews(
    group: GroupChatCore,
    user_id: UserId,
    min_visible_event_index: EventIndex,
    roots: Seq<MessageIndex>,
    previews: Seq<ThreadPreview>,
) -> bool
    decreases roots.len(),
{
    if roots.len() == 0 {
        previews.len() == 0
    } else if group.previewable(min_visible_event_index, roots.last()) {
        previews.len() > 0 && is_preview(group, user_id, min_visible_event_index, roots.last(), previews.last())
            && are_previews(group, user_id, min_visible_event_index, roots.drop_last(), previews.drop_last())
    } else {
        are_previews(group, user_id, min_visible_event_index, roots.drop_last(), previews)
    }
}

} // verus!
