//! The group itself: its settings, its roster, its log, and the commands
//! that change them.

use vstd::prelude::*;
use crate::access_rules::AccessRulesInternal;
use crate::chat_events::{main_event_pushed, ChatEvents};
use crate::events::{ChatEventInternal, EventWrapperInternal};
use crate::invited_users::InvitedUsers;
use crate::members::{founder, GroupMemberInternal, GroupMembers};
use crate::results::PinUnpinMessageResult;
use crate::roles::permitted;
use crate::known_threads::{lemma_pin_keeps_known, lemma_unpin_keeps_known};
use crate::sorted_set::{is_strictly_ascending, strictly_ascending};
use crate::types::{
    AccessGate, Document, EventIndex, GroupPermissions, GroupSubtype, MessageIndex, Milliseconds, PushEventResult,
    Rules, TimestampMillis, Timestamped, UserId, Version,
};

verus! {

/// A group chat.
#[derive(Debug)]
pub struct GroupChatCore {
    pub is_public: bool,
    pub name: String,
    pub description: String,
    pub rules: AccessRulesInternal,
    pub subtype: Timestamped<Option<GroupSubtype>>,
    pub avatar: Option<Document>,
    pub history_visible_to_new_joiners: bool,
    pub members: GroupMembers,
    pub events: ChatEvents,
    pub created_by: UserId,
    pub date_created: TimestampMillis,
    pub pinned_messages: Vec<MessageIndex>,
    pub permissions: GroupPermissions,
    pub date_last_pinned: Option<TimestampMillis>,
    pub gate: Timestamped<Option<AccessGate>>,
    pub invited_users: InvitedUsers,
    pub min_visible_indexes_for_new_members: Option<(EventIndex, MessageIndex)>,
}

/// What pinning a message does.
///
/// The caller must be a member, not suspended, and allowed to pin; the
/// message must be a top-level message that the caller may see. A message
/// that is pinned already stays so and nothing changes. Otherwise the
/// message joins the pinned messages, the time of the last pin becomes
/// `now`, and the pin is recorded in the log.
pub open spec fn pin_message_post(
    pre: GroupChatCore,
    user_id: UserId,
    message_index: MessageIndex,
    now: TimestampMillis,
    post: GroupChatCore,
    r: PinUnpinMessageResult,
) -> bool {
    if !pre.members.contains(user_id) {
        r == PinUnpinMessageResult::UserNotInGroup && post == pre
    } else if pre.members.member(user_id).suspended.value {
        r == PinUnpinMessageResult::UserSuspended && post == pre
    } else if !permitted(pre.members.member(user_id).role, pre.permissions.pin_messages) {
        r == PinUnpinMessageResult::NotAuthorized && post == pre
    } else if !pre.events.spec_is_accessible(
        pre.members.member(user_id).min_visible_event_index,
        None,
        message_index,
    ) {
        r == PinUnpinMessageResult::MessageNotFound && post == pre
    } else if pre.pinned_messages@.contains(message_index) {
        r == PinUnpinMessageResult::NoChange && post == pre
    } else {
        &&& r == PinUnpinMessageResult::Success(
            PushEventResult {
                index: pre.events.main.next_event_index,
                timestamp: now,
                expires_at: pre.events.expires_at(now),
            },
        )
        &&& strictly_ascending(post.pinned_messages@)
        &&& forall|y: MessageIndex|
            post.pinned_messages@.contains(y) <==> pre.pinned_messages@.contains(y) || y == message_index
        &&& post.date_last_pinned == Some(now)
        &&& main_event_pushed(
            pre.events,
            post.events,
            ChatEventInternal::MessagePinned { message_index, pinned_by: user_id },
            now,
        )
        &&& post == (GroupChatCore {
            pinned_messages: post.pinned_messages,
            date_last_pinned: post.date_last_pinned,
            events: post.events,
            ..pre
        })
    }
}

/// What unpinning a message does.
///
/// The caller must be a member, not suspended, and allowed to pin; the
/// message must be a top-level message that the caller may see. A message
/// that is not pinned stays so and nothing changes. Otherwise the message
/// leaves the pinned messages, the time of the last pin is cleared if none
/// is left, and the unpin is recorded in the log.
pub open spec fn unpin_message_post(
    pre: GroupChatCore,
    user_id: UserId,
    message_index: MessageIndex,
    now: TimestampMillis,
    post: GroupChatCore,
    r: PinUnpinMessageResult,
) -> bool {
    if !pre.members.contains(user_id) {
        r == PinUnpinMessageResult::UserNotInGroup && post == pre
    } else if pre.members.member(user_id).suspended.value {
        r == PinUnpinMessageResult::UserSuspended && post == pre
    } else if !permitted(pre.members.member(user_id).role, pre.permissions.pin_messages) {
        r == PinUnpinMessageResult::NotAuthorized && post == pre
    } else if !pre.events.spec_is_accessible(
        pre.members.member(user_id).min_visible_event_index,
        None,
        message_index,
    ) {
        r == PinUnpinMessageResult::MessageNotFound && post == pre
    } else if !pre.pinned_messages@.contains(message_index) {
        r == PinUnpinMessageResult::NoChange && post == pre
    } else {
        &&& r == PinUnpinMessageResult::Success(
            PushEventResult {
                index: pre.events.main.next_event_index,
                timestamp: now,
                expires_at: pre.events.expires_at(now),
            },
        )
        &&& strictly_ascending(post.pinned_messages@)
        &&& forall|y: MessageIndex|
            post.pinned_messages@.contains(y) <==> pre.pinned_messages@.contains(y) && y != message_index
        &&& post.date_last_pinned == if post.pinned_messages@.len() == 0 {
            None
        } else {
            pre.date_last_pinned
        }
        &&& main_event_pushed(
            pre.events,
            post.events,
            ChatEventInternal::MessageUnpinned { message_index, unpinned_by: user_id, due_to_message_deleted: false },
            now,
        )
        &&& post == (GroupChatCore {
            pinned_messages: post.pinned_messages,
            date_last_pinned: post.date_last_pinned,
            events: post.events,
            ..pre
        })
    }
}

/// Whether the acceptance on record, if any, is of a version of the rules
/// no later than `version`.
pub open spec fn accepted_by_now(on_record: Option<Timestamped<Version>>, version: Version) -> bool {
    on_record matches Some(accepted) ==> accepted.value <= version
}

/// Whether no member has accepted a version of the rules later than
/// `version`.
pub open spec fn in_time(members: Seq<GroupMemberInternal>, version: Version) -> bool {
    forall|i: int| 0 <= i < members.len() ==> accepted_by_now((#[trigger] members[i]).rules_accepted, version)
}

/// Taking a member off the roster leaves the others in time.
pub proof fn lemma_in_time_remove(members: Seq<GroupMemberInternal>, p: int, version: Version)
    requires
        in_time(members, version),
        0 <= p < members.len(),
    ensures
        in_time(members.remove(p), version),
{
    let rest = members.remove(p);
    assert forall|i: int| 0 <= i < rest.len() implies accepted_by_now((#[trigger] rest[i]).rules_accepted, version) by {
        if i < p {
            assert(rest[i] == members[i]);
        } else {
            assert(rest[i] == members[i + 1]);
        }
    }
}

/// A roster on which every member's acceptance is the one on record
/// before, or none, is in time if it was.
pub proof fn lemma_in_time_same(before: Seq<GroupMemberInternal>, after: Seq<GroupMemberInternal>, version: Version)
    requires
        in_time(before, version),
        after.len() == before.len(),
        forall|i: int|
            0 <= i < after.len() ==> (#[trigger] after[i]).rules_accepted == before[i].rules_accepted
                || after[i].rules_accepted is None,
    ensures
        in_time(after, version),
{
    assert forall|i: int| 0 <= i < after.len() implies accepted_by_now(
        (#[trigger] after[i]).rules_accepted,
        version,
    ) by {
        assert(accepted_by_now(before[i].rules_accepted, version));
    }
}

impl GroupChatCore {
    /// The roster and the log are well formed, the group has an owner, the
    /// pinned messages are strictly ascending, a time of the last pin is
    /// on record exactly while a message is pinned, no member has
    /// accepted a version of the rules that is yet to come, and the log
    /// knows every member to be involved in each thread that the member
    /// keeps track of.
    pub open spec fn wf(&self) -> bool {
        &&& self.sound()
        &&& self.threads_known()
    }

    /// What holds of a well-formed group apart from what ties the
    /// members' threads to the log.
    pub open spec fn sound(&self) -> bool {
        &&& self.members.wf()
        &&& self.events.wf()
        &&& self.members.spec_owner_count() >= 1
        &&& strictly_ascending(self.pinned_messages@)
        &&& (self.pinned_messages@.len() == 0 <==> self.date_last_pinned is None)
        &&& in_time(self.members.members@, self.rules.text.version)
    }

    /// Whether the group is well formed: the test that a caller makes of
    /// a group that did not come out of this library's own functions,
    /// before handing it to them.
    pub fn is_well_formed(&self) -> (r: bool)
        ensures
            r == self.wf(),
    {
        self.members.is_well_formed() && self.events.is_well_formed() && self.members.owner_count() >= 1
            && is_strictly_ascending(&self.pinned_messages) && ((self.pinned_messages.len() == 0)
            == self.date_last_pinned.is_none()) && self.acceptances_in_time() && self.threads_are_known()
    }

    /// Whether no member has accepted a version of the rules later than
    /// the one in force.
    fn acceptances_in_time(&self) -> (r: bool)
        ensures
            r == in_time(self.members.members@, self.rules.text.version),
    {
        let mut i: usize = 0;
        while i < self.members.members.len()
            invariant
                0 <= i <= self.members.members@.len(),
                forall|k: int|
                    0 <= k < i ==> accepted_by_now(
                        (#[trigger] self.members.members@[k]).rules_accepted,
                        self.rules.text.version,
                    ),
            decreases self.members.members@.len() - i,
        {
            match self.members.members[i].rules_accepted {
                Some(accepted) => {
                    if accepted.value > self.rules.text.version {
                        return false;
                    }
                },
                None => {},
            }
            i += 1;
        }
        true
    }

    /// Whether `user_id` may pin and unpin the message: a member, not
    /// suspended, whose role allows pinning and who may see the message
    /// in the main log.
    pub open spec fn may_pin(&self, user_id: UserId, message_index: MessageIndex) -> bool {
        &&& self.members.contains(user_id)
        &&& !self.members.member(user_id).suspended.value
        &&& permitted(self.members.member(user_id).role, self.permissions.pin_messages)
        &&& self.events.spec_is_accessible(self.members.member(user_id).min_visible_event_index, None, message_index)
    }

    /// Whether the main log can take `n` more events: its event indexes
    /// have not run out.
    pub open spec fn has_room(&self, n: nat) -> bool {
        self.events.main.next_event_index + n <= u32::MAX
    }

    /// A group as it is when created: the creator is its only member and
    /// owner, the log holds the creation event, nothing is pinned and
    /// nobody is invited.
    pub fn new(
        created_by: UserId,
        is_public: bool,
        name: String,
        description: String,
        rules: Rules,
        subtype: Option<GroupSubtype>,
        avatar: Option<Document>,
        history_visible_to_new_joiners: bool,
        permissions: GroupPermissions,
        gate: Option<AccessGate>,
        events_ttl: Option<Milliseconds>,
        is_bot: bool,
        now: TimestampMillis,
    ) -> (r: GroupChatCore)
        ensures
            r.wf(),
            r.is_public == is_public,
            r.name == name,
            r.description == description,
            r.rules.text.value == rules.text,
            r.rules.text.version == 0,
            r.rules.enabled == rules.enabled,
            r.subtype == (Timestamped { value: subtype, timestamp: now }),
            r.avatar == avatar,
            r.history_visible_to_new_joiners == history_visible_to_new_joiners,
            r.members.members@.len() == 1,
            r.members.contains(created_by),
            founder(r.members.members@[0], created_by, is_bot, now),
            r.members.blocked@.len() == 0,
            r.events.main.events@.len() == 1,
            r.events.main.events@[0] == (EventWrapperInternal {
                index: 0,
                timestamp: now,
                expires_at: None,
                event: ChatEventInternal::GroupChatCreated { name, description, created_by },
            }),
            r.events.main.next_event_index == 1,
            r.events.main.next_message_index == 0,
            r.events.threads@.len() == 0,
            r.events.events_ttl == (Timestamped { value: events_ttl, timestamp: now }),
            r.events.recently_updated@.len() == 0,
            r.events.latest_event_timestamp == now,
            r.created_by == created_by,
            r.date_created == now,
            r.pinned_messages@.len() == 0,
            r.permissions == permissions,
            r.date_last_pinned is None,
            r.gate == (Timestamped { value: gate, timestamp: now }),
            r.invited_users.users@.len() == 0,
            r.invited_users.last_updated == 0,
            r.min_visible_indexes_for_new_members is None,
            r.threads_known(),
    {
        let members = GroupMembers::new(created_by, is_bot, now);
        let events = ChatEvents::new_group_chat(name.clone(), description.clone(), created_by, events_ttl, now);
        let group = GroupChatCore {
            is_public,
            name,
            description,
            rules: AccessRulesInternal::new(rules),
            subtype: Timestamped::new(subtype, now),
            avatar,
            history_visible_to_new_joiners,
            members,
            events,
            created_by,
            date_created: now,
            pinned_messages: Vec::new(),
            permissions,
            date_last_pinned: None,
            gate: Timestamped::new(gate, now),
            invited_users: InvitedUsers::new(),
            min_visible_indexes_for_new_members: None,
        };
        proof {
            crate::known_threads::lemma_nothing_held(group);
        }
        group
    }

    /// Whether the group is open to `user_id`: a public group to anyone, a
    /// private one to its members and to those invited.
    pub open spec fn spec_is_accessible(&self, user_id: Option<UserId>) -> bool {
        self.is_public || (user_id matches Some(u) && (self.members.contains(u) || self.invited_users.spec_contains(
            u,
        )))
    }

    /// Whether the group is open to `user_id`.
    pub fn is_accessible(&self, user_id: Option<UserId>) -> (r: bool)
        ensures
            r == self.spec_is_accessible(user_id),
    {
        if self.is_public {
            true
        } else {
            match user_id {
                Some(u) => self.members.get(u).is_some() || self.invited_users.get(u).is_some(),
                None => false,
            }
        }
    }

    /// The lower bound below which `user_id` sees nothing: a member's own
    /// bound; for anyone else in a public group the bound for new members
    /// (zero if none was ever set); none for a stranger to a private group.
    pub open spec fn spec_min_visible_event_index(&self, user_id: Option<UserId>) -> Option<EventIndex> {
        if user_id is Some && self.members.contains(user_id->Some_0) {
            Some(self.members.member(user_id->Some_0).min_visible_event_index)
        } else if self.is_public {
            Some(
                match self.min_visible_indexes_for_new_members {
                    Some((e, _)) => e,
                    None => 0,
                },
            )
        } else {
            None
        }
    }

    /// The lower bound below which `user_id` sees nothing, if the group is
    /// open to the user at all.
    pub fn min_visible_event_index(&self, user_id: Option<UserId>) -> (r: Option<EventIndex>)
        ensures
            r == self.spec_min_visible_event_index(user_id),
    {
        let member = match user_id {
            Some(u) => self.members.get(u),
            None => None,
        };
        match member {
            Some(m) => Some(m.min_visible_event_index()),
            None => {
                if self.is_public {
                    Some(
                        match self.min_visible_indexes_for_new_members {
                            Some((e, _)) => e,
                            None => 0,
                        },
                    )
                } else {
                    None
                }
            },
        }
    }

    /// Whether anything that `user_id` can see changed after `since`: the
    /// member's own record (when they were added, their mute setting, their
    /// acceptance of the rules), the log, or the invitations.
    pub open spec fn spec_has_updates_since(&self, user_id: Option<UserId>, since: TimestampMillis) -> bool {
        ||| (user_id matches Some(u) && self.members.contains(u) && ({
            let m = self.members.member(u);
            m.date_added > since || m.notifications_muted.timestamp > since || (m.rules_accepted matches Some(a)
                && a.timestamp > since)
        }))
        ||| self.events.latest_event_timestamp > since
        ||| self.invited_users.last_updated > since
    }

    /// Whether anything that `user_id` can see changed after `since`.
    pub fn has_updates_since(&self, user_id: Option<UserId>, since: TimestampMillis) -> (r: bool)
        ensures
            r == self.spec_has_updates_since(user_id, since),
    {
        let member = match user_id {
            Some(u) => self.members.get(u),
            None => None,
        };
        match member {
            Some(m) => {
                let accepted_since = match &m.rules_accepted {
                    Some(a) => a.timestamp > since,
                    None => false,
                };
                if m.date_added > since || m.notifications_muted.timestamp > since || accepted_since {
                    return true;
                }
            },
            None => {},
        }
        self.events.has_updates_since(since) || self.invited_users.last_updated() > since
    }

    /// Whether a member may post under the rules: the rules are not
    /// enabled, or the member is a bot, or the member has accepted the
    /// version in force or a later one.
    pub open spec fn rules_met_by(&self, member: GroupMemberInternal) -> bool {
        !self.rules.enabled || member.is_bot || (member.rules_accepted matches Some(a) && a.value
            >= self.rules.text.version)
    }

    /// Whether a member may post under the rules.
    pub fn check_rules(&self, member: &GroupMemberInternal) -> (r: bool)
        ensures
            r == self.rules_met_by(*member),
    {
        !self.rules.enabled || member.is_bot || match &member.rules_accepted {
            Some(a) => a.value >= self.rules.text.version,
            None => false,
        }
    }

    /// Pins a top-level message. The log must have room for the event
    /// where a pin is to be recorded; a refusal needs none.
    pub fn pin_message(&mut self, user_id: UserId, message_index: MessageIndex, now: TimestampMillis) -> (r:
        PinUnpinMessageResult)
        requires
            old(self).wf(),
            old(self).may_pin(user_id, message_index) && !old(self).pinned_messages@.contains(message_index)
                ==> old(self).has_room(1),
        ensures
            final(self).wf(),
            pin_message_post(*old(self), user_id, message_index, now, *final(self), r),
    {
        let (role, min_visible_event_index) = match self.members.get(user_id) {
            Some(member) => {
                if member.suspended.value {
                    return PinUnpinMessageResult::UserSuspended;
                }
                (member.role, member.min_visible_event_index())
            },
            None => {
                return PinUnpinMessageResult::UserNotInGroup;
            },
        };
        if !role.can_pin_messages(&self.permissions) {
            return PinUnpinMessageResult::NotAuthorized;
        }
        if !self.events.is_accessible(min_visible_event_index, None, message_index) {
            return PinUnpinMessageResult::MessageNotFound;
        }
        if crate::sorted_set::insert(&mut self.pinned_messages, message_index) {
            let push_event_result = self.events.push_main_event(
                ChatEventInternal::MessagePinned { message_index, pinned_by: user_id },
                now,
            );
            self.date_last_pinned = Some(now);
            let result = PinUnpinMessageResult::Success(push_event_result);
            proof {
                lemma_pin_keeps_known(*old(self), user_id, message_index, now, *self, result);
            }
            result
        } else {
            PinUnpinMessageResult::NoChange
        }
    }

    /// Unpins a top-level message. The log must have room for the event
    /// where an unpin is to be recorded; a refusal needs none.
    pub fn unpin_message(&mut self, user_id: UserId, message_index: MessageIndex, now: TimestampMillis) -> (r:
        PinUnpinMessageResult)
        requires
            old(self).wf(),
            old(self).may_pin(user_id, message_index) && old(self).pinned_messages@.contains(message_index)
                ==> old(self).has_room(1),
        ensures
            final(self).wf(),
            unpin_message_post(*old(self), user_id, message_index, now, *final(self), r),
    {
        let (role, min_visible_event_index) = match self.members.get(user_id) {
            Some(member) => {
                if member.suspended.value {
                    return PinUnpinMessageResult::UserSuspended;
                }
                (member.role, member.min_visible_event_index())
            },
            None => {
                return PinUnpinMessageResult::UserNotInGroup;
            },
        };
        if !role.can_pin_messages(&self.permissions) {
            return PinUnpinMessageResult::NotAuthorized;
        }
        if !self.events.is_accessible(min_visible_event_index, None, message_index) {
            return PinUnpinMessageResult::MessageNotFound;
        }
        if crate::sorted_set::remove(&mut self.pinned_messages, message_index) {
            let push_event_result = self.events.push_main_event(
                ChatEventInternal::MessageUnpinned {
                    message_index,
                    unpinned_by: user_id,
                    due_to_message_deleted: false,
                },
                now,
            );
            if self.pinned_messages.is_empty() {
                self.date_last_pinned = None;
            }
            let result = PinUnpinMessageResult::Success(push_event_result);
            proof {
                lemma_unpin_keeps_known(*old(self), user_id, message_index, now, *self, result);
            }
            result
        } else {
            PinUnpinMessageResult::NoChange
        }
    }
}

} // verus!
