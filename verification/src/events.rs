//! The events that a log records.

use vstd::prelude::*;
use crate::message::{DeletedBy, GroupReplyContext, MessageContent, ReactionEntry, Tip};
use crate::thread_summary::ThreadSummaryInternal;
use crate::types::{
    AccessGate, EventIndex, GroupPermissions, GroupRole, MessageId, MessageIndex, Milliseconds, TimestampMillis,
    UserId,
};

verus! {

/// A message as the log keeps it.
#[derive(Debug)]
pub struct MessageInternal {
    pub message_index: MessageIndex,
    pub message_id: MessageId,
    pub sender: UserId,
    pub content: MessageContent,
    pub replies_to: Option<GroupReplyContext>,
    pub mentioned: Vec<UserId>,
    pub reactions: Vec<ReactionEntry>,
    pub tips: Vec<Tip>,
    pub last_updated: Option<TimestampMillis>,
    pub deleted_by: Option<DeletedBy>,
    pub thread_summary: Option<ThreadSummaryInternal>,
    pub forwarded: bool,
}

/// One entry of a log.
#[derive(Debug)]
pub enum ChatEventInternal {
    GroupChatCreated { name: String, description: String, created_by: UserId },
    Message(MessageInternal),
    GroupNameChanged { new_name: String, previous_name: String, changed_by: UserId },
    GroupDescriptionChanged { new_description: String, previous_description: String, changed_by: UserId },
    GroupRulesChanged { enabled: bool, prev_enabled: bool, changed_by: UserId },
    AvatarChanged { new_avatar: Option<u128>, previous_avatar: Option<u128>, changed_by: UserId },
    ParticipantsAdded { user_ids: Vec<UserId>, unblocked: Vec<UserId>, added_by: UserId },
    ParticipantsRemoved { user_ids: Vec<UserId>, removed_by: UserId },
    ParticipantJoined { user_id: UserId, invited_by: Option<UserId> },
    ParticipantLeft { user_id: UserId },
    MembersAddedToPublicChannel { user_ids: Vec<UserId> },
    RoleChanged { user_ids: Vec<UserId>, changed_by: UserId, old_role: GroupRole, new_role: GroupRole },
    UsersBlocked { user_ids: Vec<UserId>, blocked_by: UserId },
    UsersUnblocked { user_ids: Vec<UserId>, unblocked_by: UserId },
    MessagePinned { message_index: MessageIndex, pinned_by: UserId },
    MessageUnpinned { message_index: MessageIndex, unpinned_by: UserId, due_to_message_deleted: bool },
    PermissionsChanged { old_permissions: GroupPermissions, new_permissions: GroupPermissions, changed_by: UserId },
    GroupVisibilityChanged { now_public: bool, changed_by: UserId },
    UsersInvited { user_ids: Vec<UserId>, invited_by: UserId },
    EventsTimeToLiveUpdated { updated_by: UserId, new_ttl: Option<Milliseconds> },
    GroupGateUpdated { updated_by: UserId, new_gate: Option<AccessGate> },
}

/// An event together with its place in the log, the time it was recorded
/// and the time at which it expires, if it does.
#[derive(Debug)]
pub struct EventWrapperInternal {
    pub index: EventIndex,
    pub timestamp: TimestampMillis,
    pub expires_at: Option<TimestampMillis>,
    pub event: ChatEventInternal,
}

impl EventWrapperInternal {
    pub open spec fn is_message(&self) -> bool {
        self.event is Message
    }

    /// The message that the event holds. Meaningful only for a message event.
    pub open spec fn message(&self) -> MessageInternal {
        self.event->Message_0
    }

    pub fn holds_message(&self) -> (r: bool)
        ensures
            r == self.is_message(),
    {
        matches!(self.event, ChatEventInternal::Message(_))
    }

    pub fn as_message(&self) -> (r: Option<&MessageInternal>)
        ensures
            match r {
                Some(m) => self.is_message() && *m == self.message(),
                None => !self.is_message(),
            },
    {
        match &self.event {
            ChatEventInternal::Message(m) => Some(m),
            _ => None,
        }
    }

    /// An event has expired at `now` when its deadline is not after `now`.
    pub open spec fn expired_at(&self, now: TimestampMillis) -> bool {
        self.expires_at matches Some(deadline) && deadline <= now
    }

    pub fn is_expired(&self, now: TimestampMillis) -> (r: bool)
        ensures
            r == self.expired_at(now),
    {
        match self.expires_at {
            Some(deadline) => deadline <= now,
            None => false,
        }
    }
}

/// The events that mean that the roster or the block list changed.
pub open spec fn is_membership_event(event: ChatEventInternal) -> bool {
    event is MembersAddedToPublicChannel || event is ParticipantsAdded || event is ParticipantsRemoved
        || event is ParticipantJoined || event is ParticipantLeft || event is UsersBlocked
        || event is UsersUnblocked
}

} // verus!
