//! Identifiers and the plain records shared by every component.

use vstd::prelude::*;

verus! {

/// Opaque identity of a user.
pub type UserId = u64;

/// Client-chosen identifier of a message, unique within a chat.
pub type MessageId = u128;

/// Position of a message among the messages of one log.
pub type MessageIndex = u32;

/// Position of an event among all the events of one log.
pub type EventIndex = u32;

/// Wall-clock time in milliseconds.
pub type TimestampMillis = u64;

/// A duration in milliseconds.
pub type Milliseconds = u64;

/// Counter attached to the rules text; it only ever grows.
pub type Version = u32;

/// A value together with the time at which it was last set.
#[derive(Clone, Copy, Debug)]
pub struct Timestamped<T> {
    pub value: T,
    pub timestamp: TimestampMillis,
}

impl<T> Timestamped<T> {
    pub fn new(value: T, now: TimestampMillis) -> (r: Self)
        ensures
            r.value == value,
            r.timestamp == now,
    {
        Timestamped { value, timestamp: now }
    }
}

/// A value together with the version at which it was last changed.
#[derive(Clone, Debug)]
pub struct Versioned<T> {
    pub value: T,
    pub version: Version,
}

/// The version that follows `v`; the counter sticks at its largest value.
pub open spec fn next_version(v: Version) -> Version {
    if v < u32::MAX {
        (v + 1) as u32
    } else {
        v
    }
}

impl<T> Versioned<T> {
    pub fn new(value: T, version: Version) -> (r: Self)
        ensures
            r.value == value,
            r.version == version,
    {
        Versioned { value, version }
    }

    /// Replaces the value; the version moves forward by one when
    /// `new_version` is set and stays where it is otherwise.
    pub fn update(&mut self, value: T, new_version: bool)
        ensures
            final(self).value == value,
            final(self).version == if new_version {
                next_version(old(self).version)
            } else {
                old(self).version
            },
    {
        self.value = value;
        if new_version && self.version < u32::MAX {
            self.version = self.version + 1;
        }
    }
}

/// A three-way update of an optional field.
#[derive(Clone, Copy, Debug)]
pub enum OptionUpdate<T> {
    NoChange,
    SetToNone,
    SetToSome(T),
}

impl<T> OptionUpdate<T> {
    /// `None` for no change, otherwise the new value of the field.
    pub open spec fn spec_expand(self) -> Option<Option<T>> {
        match self {
            OptionUpdate::NoChange => None,
            OptionUpdate::SetToNone => Some(None),
            OptionUpdate::SetToSome(v) => Some(Some(v)),
        }
    }

    pub fn expand(self) -> (r: Option<Option<T>>)
        ensures
            r == self.spec_expand(),
    {
        match self {
            OptionUpdate::NoChange => None,
            OptionUpdate::SetToNone => Some(None),
            OptionUpdate::SetToSome(v) => Some(Some(v)),
        }
    }

    pub fn has_update(&self) -> (r: bool)
        ensures
            r == !(self is NoChange),
    {
        !matches!(self, OptionUpdate::NoChange)
    }

    pub fn from_update(value: Option<T>) -> (r: Self)
        ensures
            r.spec_expand() == Some(value),
    {
        match value {
            Some(v) => OptionUpdate::SetToSome(v),
            None => OptionUpdate::SetToNone,
        }
    }
}

/// Role of a member within the group, most senior first.
#[derive(Clone, Copy, Debug, PartialEq, Eq, Structural)]
pub enum GroupRole {
    Owner,
    Admin,
    Moderator,
    Participant,
}

/// Threshold that a permission slot asks of a member's role.
#[derive(Clone, Copy, Debug, PartialEq, Eq, Structural)]
pub enum GroupPermissionRole {
    Owner,
    Admins,
    Moderators,
    Members,
}

/// The permission matrix of a group: one role threshold per action.
#[derive(Clone, Copy, Debug, PartialEq, Eq, Structural)]
pub struct GroupPermissions {
    pub change_permissions: GroupPermissionRole,
    pub change_roles: GroupPermissionRole,
    pub add_members: GroupPermissionRole,
    pub remove_members: GroupPermissionRole,
    pub block_users: GroupPermissionRole,
    pub delete_messages: GroupPermissionRole,
    pub update_group: GroupPermissionRole,
    pub pin_messages: GroupPermissionRole,
    pub invite_users: GroupPermissionRole,
    pub create_polls: GroupPermissionRole,
    pub send_messages: GroupPermissionRole,
    pub react_to_messages: GroupPermissionRole,
    pub reply_in_thread: GroupPermissionRole,
    pub mention_all_members: GroupPermissionRole,
}

/// A partial permission matrix: the slots that a caller wants to change.
#[derive(Clone, Copy, Debug)]
pub struct OptionalGroupPermissions {
    pub change_roles: Option<GroupPermissionRole>,
    pub remove_members: Option<GroupPermissionRole>,
    pub delete_messages: Option<GroupPermissionRole>,
    pub update_group: Option<GroupPermissionRole>,
    pub pin_messages: Option<GroupPermissionRole>,
    pub invite_users: Option<GroupPermissionRole>,
    pub create_polls: Option<GroupPermissionRole>,
    pub send_messages: Option<GroupPermissionRole>,
    pub react_to_messages: Option<GroupPermissionRole>,
    pub reply_in_thread: Option<GroupPermissionRole>,
    pub mention_all_members: Option<GroupPermissionRole>,
}

/// Marks a group as serving a special purpose.
#[derive(Clone, Copy, Debug, PartialEq, Eq, Structural)]
pub enum GroupSubtype {
    GovernanceProposals { is_nns: bool, governance_canister_id: UserId },
}

/// Policy that a user must satisfy to join; the group only stores it.
#[derive(Clone, Copy, Debug, PartialEq, Eq, Structural)]
pub enum AccessGate {
    DiamondMember,
    SnsNeuron { governance_canister_id: UserId, min_stake_e8s: u64, min_dissolve_delay: Milliseconds },
    Payment { ledger_canister_id: UserId, amount: u128, fee: u128 },
}

/// A stored binary document, used for the group's avatar.
#[derive(Clone, Debug)]
pub struct Document {
    pub id: u128,
    pub mime_type: String,
    pub data: Vec<u8>,
}

/// Rules as supplied when a group is created.
#[derive(Clone, Debug)]
pub struct Rules {
    pub text: String,
    pub enabled: bool,
}

/// A change of rules; `new_version` asks for the version to move forward
/// when the text differs.
#[derive(Clone, Debug)]
pub struct UpdatedRules {
    pub text: String,
    pub enabled: bool,
    pub new_version: bool,
}

/// Rules as shown to clients.
#[derive(Clone, Debug)]
pub struct VersionedRules {
    pub text: String,
    pub version: Version,
    pub enabled: bool,
}

/// A field was longer than allowed.
#[derive(Clone, Copy, Debug, PartialEq, Eq, Structural)]
pub struct FieldTooLongResult {
    pub length_provided: u32,
    pub max_length: u32,
}

/// A field was shorter than allowed.
#[derive(Clone, Copy, Debug, PartialEq, Eq, Structural)]
pub struct FieldTooShortResult {
    pub length_provided: u32,
    pub min_length: u32,
}

/// Where and when an event landed in a log.
#[derive(Clone, Copy, Debug, PartialEq, Eq, Structural)]
pub struct PushEventResult {
    pub index: EventIndex,
    pub timestamp: TimestampMillis,
    pub expires_at: Option<TimestampMillis>,
}

} // verus!
