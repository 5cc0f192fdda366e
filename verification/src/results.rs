//! What the commands and queries of a group hand back.

use vstd::prelude::*;
use crate::lifecycle::TipOutcome;
use crate::reactions::ReactionOutcome;
use crate::selected_initial::GroupMember;
use crate::shown::{ChatEvent, EventWrapper, Message};
use crate::members::GroupMemberInternal;
use crate::message::{InvalidPollReason, MessageContent};
use crate::types::{
    AccessGate, EventIndex, FieldTooLongResult, FieldTooShortResult, GroupPermissions, GroupSubtype, MessageId,
    MessageIndex, Milliseconds, OptionUpdate, PushEventResult, TimestampMillis, UserId, Version, VersionedRules,
};

verus! {

/// Events read from a log, as the reader is shown them, with the index of
/// the latest event recorded.
#[derive(Debug)]
pub struct EventsResponse<'a> {
    pub events: Vec<EventWrapper<ChatEvent<'a>>>,
    pub latest_event_index: EventIndex,
    pub timestamp: TimestampMillis,
}

/// Message events read from a log, as the reader is shown them, with the
/// index of the latest event recorded.
#[derive(Debug)]
pub struct MessagesResponse {
    pub messages: Vec<EventWrapper<Message>>,
    pub latest_event_index: EventIndex,
    pub timestamp: TimestampMillis,
}

#[derive(Debug)]
pub enum EventsResult<'a> {
    Success(EventsResponse<'a>),
    UserNotInGroup,
    ThreadNotFound,
    ReplicaNotUpToDate(EventIndex),
}

#[derive(Debug)]
pub enum MessagesResult {
    Success(MessagesResponse),
    UserNotInGroup,
    ThreadNotFound,
    ReplicaNotUpToDate(EventIndex),
}

#[derive(Debug)]
pub enum SendMessageResult {
    Success(SendMessageSuccess),
    ThreadMessageNotFound,
    MessageEmpty,
    TextTooLong(u32),
    InvalidPoll(InvalidPollReason),
    NotAuthorized,
    UserNotInGroup,
    UserSuspended,
    RulesNotAccepted,
    InvalidRequest(String),
}

/// The message that was sent, as its sender is shown it, and who is to be
/// told about it.
#[derive(Debug)]
pub struct SendMessageSuccess {
    pub message_event: EventWrapper<Message>,
    pub users_to_notify: Vec<UserId>,
}

#[derive(Clone, Copy, Debug, PartialEq, Eq, Structural)]
pub enum AddRemoveReactionResult {
    Success,
    NoChange,
    InvalidReaction,
    MessageNotFound,
    UserNotInGroup,
    NotAuthorized,
    UserSuspended,
}

#[derive(Clone, Copy, Debug, PartialEq, Eq, Structural)]
pub enum TipMessageResult {
    Success,
    MessageNotFound,
    RecipientMismatch,
    CannotTipSelf,
    NotAuthorized,
    UserNotInGroup,
    UserSuspended,
}

/// How the deletion of one message ended.
#[derive(Clone, Copy, Debug, PartialEq, Eq, Structural)]
pub enum DeleteMessageResult {
    Success(UserId),
    AlreadyDeleted,
    NotAuthorized,
    NotFound,
}

/// How the restoration of one message ended.
#[derive(Clone, Copy, Debug, PartialEq, Eq, Structural)]
pub enum UndeleteMessageResult {
    Success,
    NotDeleted,
    HardDeleted,
    NotAuthorized,
    NotFound,
}

#[derive(Debug)]
pub enum DeleteMessagesResult {
    Success(Vec<(MessageId, DeleteMessageResult)>),
    MessageNotFound,
    UserNotInGroup,
    UserSuspended,
}

/// The restored messages, as the caller is shown them, or why nothing
/// was restored.
#[derive(Debug)]
pub enum UndeleteMessagesResult {
    Success(Vec<Message>),
    MessageNotFound,
    UserNotInGroup,
    UserSuspended,
}

#[derive(Clone, Copy, Debug, PartialEq, Eq, Structural)]
pub enum PinUnpinMessageResult {
    Success(PushEventResult),
    NoChange,
    NotAuthorized,
    UserNotInGroup,
    MessageNotFound,
    UserSuspended,
}

#[derive(Debug)]
pub enum LeaveResult {
    Success(GroupMemberInternal),
    UserSuspended,
    LastOwnerCannotLeave,
    UserNotInGroup,
}

#[derive(Clone, Copy, Debug, PartialEq, Eq, Structural)]
pub enum RemoveMemberResult {
    Success,
    UserSuspended,
    UserNotInGroup,
    TargetUserNotInGroup,
    NotAuthorized,
    CannotRemoveSelf,
}

#[derive(Clone, Copy, Debug, PartialEq, Eq, Structural)]
pub enum UpdateResult {
    Success(UpdateSuccessResult),
    UserSuspended,
    UserNotInGroup,
    NotAuthorized,
    NameTooShort(FieldTooShortResult),
    NameTooLong(FieldTooLongResult),
    NameReserved,
    DescriptionTooLong(FieldTooLongResult),
    RulesTooShort(FieldTooShortResult),
    RulesTooLong(FieldTooLongResult),
    AvatarTooBig(FieldTooLongResult),
}

#[derive(Clone, Copy, Debug, PartialEq, Eq, Structural)]
pub struct UpdateSuccessResult {
    pub newly_public: bool,
    pub rules_version: Option<Version>,
}

#[derive(Clone, Copy, Debug, PartialEq, Eq, Structural)]
pub enum MakePrivateResult {
    Success,
    UserSuspended,
    UserNotInGroup,
    NotAuthorized,
    AlreadyPrivate,
}

#[derive(Debug)]
pub enum DeletedMessageResult<'a> {
    Success(&'a MessageContent),
    UserNotInGroup,
    NotAuthorized,
    MessageNotFound,
    MessageNotDeleted,
    MessageHardDeleted,
}

/// A thread in brief, as the reader is shown it: its root, its latest
/// replies, and how many replies it has had.
#[derive(Debug)]
pub struct ThreadPreview {
    pub root_message: EventWrapper<Message>,
    pub latest_replies: Vec<EventWrapper<Message>>,
    pub total_replies: u32,
}

#[derive(Debug)]
pub enum ThreadPreviewsResult {
    Success(Vec<ThreadPreview>),
    UserNotInGroup,
    ReplicaNotUpToDate(TimestampMillis),
}

/// A message that matched a search, with its score.
#[derive(Clone, Copy, Debug, PartialEq, Eq, Structural)]
pub struct MessageMatch {
    pub message_index: MessageIndex,
    pub sender: UserId,
    pub score: u32,
}

#[derive(Debug)]
pub enum SearchResults {
    Success(Vec<MessageMatch>),
    InvalidTerm,
    TermTooLong(u8),
    TermTooShort(u8),
    TooManyUsers(u8),
    UserNotInGroup,
}

#[derive(Debug)]
pub enum InvitedUsersResult {
    Success(InvitedUsersSuccess),
    UserNotInGroup,
    TooManyInvites(u32),
    UserSuspended,
    NotAuthorized,
}

#[derive(Debug)]
pub struct InvitedUsersSuccess {
    pub invited_users: Vec<UserId>,
    pub group_name: String,
}

#[derive(Clone, Copy, Debug, PartialEq, Eq, Structural)]
pub enum FollowThreadResult {
    Success,
    AlreadyFollowing,
    ThreadNotFound,
    UserNotInGroup,
    UserSuspended,
}

#[derive(Clone, Copy, Debug, PartialEq, Eq, Structural)]
pub enum UnfollowThreadResult {
    Success,
    NotFollowing,
    ThreadNotFound,
    UserNotInGroup,
    UserSuspended,
}

/// A mention resolved to the event that holds the message.
#[derive(Clone, Copy, Debug, PartialEq, Eq, Structural)]
pub struct HydratedMention {
    pub thread_root_message_index: Option<MessageIndex>,
    pub message_index: MessageIndex,
    pub event_index: EventIndex,
    pub mentioned_at: TimestampMillis,
}

/// What changed in a group's summary since a given time.
#[derive(Debug)]
pub struct SummaryUpdatesFromEvents {
    pub name: Option<String>,
    pub description: Option<String>,
    pub subtype: OptionUpdate<GroupSubtype>,
    pub avatar_id: OptionUpdate<u128>,
    pub latest_message: Option<EventWrapper<Message>>,
    pub latest_event_index: Option<EventIndex>,
    pub members_changed: bool,
    pub role_changed: bool,
    pub mentions: Vec<HydratedMention>,
    pub permissions: Option<GroupPermissions>,
    pub updated_events: Vec<(Option<MessageIndex>, EventIndex, TimestampMillis)>,
    pub is_public: Option<bool>,
    pub date_last_pinned: Option<TimestampMillis>,
    pub events_ttl: OptionUpdate<Milliseconds>,
    pub gate: OptionUpdate<AccessGate>,
    pub rules_changed: bool,
}

/// What changed in a group's details since a given time.
#[derive(Debug)]
pub struct SelectedGroupUpdates {
    pub timestamp: TimestampMillis,
    pub latest_event_index: EventIndex,
    pub members_added_or_updated: Vec<GroupMember>,
    pub members_removed: Vec<UserId>,
    pub blocked_users_added: Vec<UserId>,
    pub blocked_users_removed: Vec<UserId>,
    pub invited_users: Option<Vec<UserId>>,
    pub pinned_messages_added: Vec<MessageIndex>,
    pub pinned_messages_removed: Vec<MessageIndex>,
    pub chat_rules: Option<VersionedRules>,
}

/// The result of a command that the log's outcome of a reaction gives.
pub open spec fn reaction_result(outcome: ReactionOutcome) -> AddRemoveReactionResult {
    match outcome {
        ReactionOutcome::Success => AddRemoveReactionResult::Success,
        ReactionOutcome::NoChange => AddRemoveReactionResult::NoChange,
        ReactionOutcome::MessageNotFound => AddRemoveReactionResult::MessageNotFound,
    }
}

/// The result of a command that the log's outcome of a tip gives.
pub open spec fn tip_result(outcome: TipOutcome) -> TipMessageResult {
    match outcome {
        TipOutcome::Success => TipMessageResult::Success,
        TipOutcome::MessageNotFound => TipMessageResult::MessageNotFound,
        TipOutcome::RecipientMismatch => TipMessageResult::RecipientMismatch,
        TipOutcome::CannotTipSelf => TipMessageResult::CannotTipSelf,
    }
}

impl From<ReactionOutcome> for AddRemoveReactionResult {
    fn from(value: ReactionOutcome) -> (r: AddRemoveReactionResult) {
        match value {
            ReactionOutcome::Success => AddRemoveReactionResult::Success,
            ReactionOutcome::NoChange => AddRemoveReactionResult::NoChange,
            ReactionOutcome::MessageNotFound => AddRemoveReactionResult::MessageNotFound,
        }
    }
}

impl vstd::std_specs::convert::FromSpecImpl<ReactionOutcome> for AddRemoveReactionResult {
    open spec fn obeys_from_spec() -> bool {
        true
    }

    open spec fn from_spec(value: ReactionOutcome) -> AddRemoveReactionResult {
        reaction_result(value)
    }
}

impl From<TipOutcome> for TipMessageResult {
    fn from(value: TipOutcome) -> (r: TipMessageResult) {
        match value {
            TipOutcome::Success => TipMessageResult::Success,
            TipOutcome::MessageNotFound => TipMessageResult::MessageNotFound,
            TipOutcome::RecipientMismatch => TipMessageResult::RecipientMismatch,
            TipOutcome::CannotTipSelf => TipMessageResult::CannotTipSelf,
        }
    }
}

impl vstd::std_specs::convert::FromSpecImpl<TipOutcome> for TipMessageResult {
    open spec fn obeys_from_spec() -> bool {
        true
    }

    open spec fn from_spec(value: TipOutcome) -> TipMessageResult {
        tip_result(value)
    }
}

} // verus!
