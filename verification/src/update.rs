//! Changing the settings of a group.

use vstd::prelude::*;
use crate::chat_events::{expiry, later};
use crate::events::{ChatEventInternal, EventWrapperInternal};
use crate::group::GroupChatCore;
use crate::known_threads::lemma_update_keeps_known;
use crate::members::{lemma_same_roles, lemma_same_users, GroupMemberInternal};
use crate::message::byte_len;
use crate::results::{UpdateResult, UpdateSuccessResult};
use crate::roles::permitted;
use crate::types::{
    AccessGate, Document, GroupPermissionRole, GroupPermissions, GroupRole, Milliseconds, OptionUpdate,
    OptionalGroupPermissions, TimestampMillis, Timestamped, UpdatedRules, UserId,
};
use crate::validation::{
    avatar_verdict, description_verdict, name_reserved, name_verdict, rules_verdict, validate_avatar,
    validate_description, validate_group_name, validate_rules, NameValidationError, RulesValidationError,
};

verus! {

/// A requested change of settings: for each setting, the new value or
/// nothing.
pub struct UpdateRequest {
    pub name: Option<String>,
    pub description: Option<String>,
    pub rules: Option<UpdatedRules>,
    pub avatar: OptionUpdate<Document>,
    pub permissions: Option<OptionalGroupPermissions>,
    pub gate: OptionUpdate<AccessGate>,
    pub public: Option<bool>,
    pub events_ttl: OptionUpdate<Milliseconds>,
}

/// The identifier of an avatar, if there is one.
pub open spec fn document_id(avatar: Option<Document>) -> Option<u128> {
    match avatar {
        Some(document) => Some(document.id),
        None => None,
    }
}

/// A slot of the matrix after a change: the new threshold if one is given.
pub open spec fn merged_slot(new: Option<GroupPermissionRole>, old: GroupPermissionRole) -> GroupPermissionRole {
    match new {
        Some(role) => role,
        None => old,
    }
}

/// The permission matrix after a change: each slot takes the new threshold
/// if one is given; changing permissions, adding members and blocking
/// users stay with the owners.
pub open spec fn merged_permissions(new: OptionalGroupPermissions, old: GroupPermissions) -> GroupPermissions {
    GroupPermissions {
        change_permissions: GroupPermissionRole::Owner,
        change_roles: merged_slot(new.change_roles, old.change_roles),
        add_members: GroupPermissionRole::Owner,
        remove_members: merged_slot(new.remove_members, old.remove_members),
        block_users: GroupPermissionRole::Owner,
        delete_messages: merged_slot(new.delete_messages, old.delete_messages),
        update_group: merged_slot(new.update_group, old.update_group),
        pin_messages: merged_slot(new.pin_messages, old.pin_messages),
        invite_users: merged_slot(new.invite_users, old.invite_users),
        create_polls: merged_slot(new.create_polls, old.create_polls),
        send_messages: merged_slot(new.send_messages, old.send_messages),
        react_to_messages: merged_slot(new.react_to_messages, old.react_to_messages),
        reply_in_thread: merged_slot(new.reply_in_thread, old.reply_in_thread),
        mention_all_members: merged_slot(new.mention_all_members, old.mention_all_members),
    }
}

/// `s` with `x` appended if `condition` holds.
pub open spec fn push_if<T>(s: Seq<T>, condition: bool, x: T) -> Seq<T> {
    if condition {
        s.push(x)
    } else {
        s
    }
}

/// The log entries for a run of events recorded at `now`, each paired with
/// the time to live in force when it was recorded; the first gets the
/// index `first_index`.
pub open spec fn logged(
    events: Seq<(ChatEventInternal, Option<Milliseconds>)>,
    first_index: int,
    now: TimestampMillis,
) -> Seq<EventWrapperInternal> {
    Seq::new(
        events.len(),
        |k: int|
            EventWrapperInternal {
                index: (first_index + k) as u32,
                timestamp: now,
                expires_at: expiry(events[k].1, now),
                event: events[k].0,
            },
    )
}

impl GroupChatCore {
    pub open spec fn name_changes(&self, q: UpdateRequest) -> bool {
        q.name matches Some(name) && name@ != self.name@
    }

    /// Whether the request names permissions that, merged into the matrix
    /// in force, give another matrix.
    pub open spec fn permissions_change(&self, q: UpdateRequest) -> bool {
        q.permissions matches Some(permissions) && merged_permissions(permissions, self.permissions)
            != self.permissions
    }

    pub open spec fn description_changes(&self, q: UpdateRequest) -> bool {
        q.description matches Some(description) && description@ != self.description@
    }

    pub open spec fn rules_change(&self, q: UpdateRequest) -> bool {
        q.rules matches Some(rules) && self.rules.changed_by(rules)
    }

    pub open spec fn avatar_changes(&self, q: UpdateRequest) -> bool {
        q.avatar.spec_expand() matches Some(avatar) && document_id(avatar) != document_id(self.avatar)
    }

    pub open spec fn ttl_changes(&self, q: UpdateRequest) -> bool {
        q.events_ttl.spec_expand() matches Some(ttl) && ttl != self.events.events_ttl.value
    }

    pub open spec fn gate_changes(&self, q: UpdateRequest) -> bool {
        q.gate.spec_expand() matches Some(gate) && gate != self.gate.value
    }

    pub open spec fn visibility_changes(&self, q: UpdateRequest) -> bool {
        q.public matches Some(public) && public != self.is_public
    }

    /// The time to live in force once the request has been carried out.
    pub open spec fn ttl_after(&self, q: UpdateRequest) -> Option<Milliseconds> {
        if self.ttl_changes(q) {
            q.events_ttl.spec_expand()->Some_0
        } else {
            self.events.events_ttl.value
        }
    }

    /// The events that a request gives rise to, in the order in which they
    /// are recorded, each with the time to live in force at that point:
    /// one for each setting that really changes. A request that names
    /// permissions which merge to the matrix in force changes nothing and
    /// records nothing.
    pub open spec fn update_events(&self, user_id: UserId, q: UpdateRequest) -> Seq<
        (ChatEventInternal, Option<Milliseconds>),
    > {
        let ttl = self.events.events_ttl.value;
        let s0 = Seq::<(ChatEventInternal, Option<Milliseconds>)>::empty();
        let s1 = push_if(
            s0,
            self.name_changes(q),
            (
                ChatEventInternal::GroupNameChanged {
                    new_name: q.name->Some_0,
                    previous_name: self.name,
                    changed_by: user_id,
                },
                ttl,
            ),
        );
        let s2 = push_if(
            s1,
            self.description_changes(q),
            (
                ChatEventInternal::GroupDescriptionChanged {
                    new_description: q.description->Some_0,
                    previous_description: self.description,
                    changed_by: user_id,
                },
                ttl,
            ),
        );
        let s3 = push_if(
            s2,
            self.rules_change(q),
            (
                ChatEventInternal::GroupRulesChanged {
                    enabled: q.rules->Some_0.enabled,
                    prev_enabled: self.rules.enabled,
                    changed_by: user_id,
                },
                ttl,
            ),
        );
        let s4 = push_if(
            s3,
            self.avatar_changes(q),
            (
                ChatEventInternal::AvatarChanged {
                    new_avatar: document_id(q.avatar.spec_expand()->Some_0),
                    previous_avatar: document_id(self.avatar),
                    changed_by: user_id,
                },
                ttl,
            ),
        );
        let s5 = push_if(
            s4,
            self.permissions_change(q),
            (
                ChatEventInternal::PermissionsChanged {
                    old_permissions: self.permissions,
                    new_permissions: merged_permissions(q.permissions->Some_0, self.permissions),
                    changed_by: user_id,
                },
                ttl,
            ),
        );
        let s6 = push_if(
            s5,
            self.ttl_changes(q),
            (
                ChatEventInternal::EventsTimeToLiveUpdated {
                    updated_by: user_id,
                    new_ttl: q.events_ttl.spec_expand()->Some_0,
                },
                ttl,
            ),
        );
        let s7 = push_if(
            s6,
            self.gate_changes(q),
            (
                ChatEventInternal::GroupGateUpdated { updated_by: user_id, new_gate: q.gate.spec_expand()->Some_0 },
                self.ttl_after(q),
            ),
        );
        push_if(
            s7,
            self.visibility_changes(q),
            (
                ChatEventInternal::GroupVisibilityChanged { now_public: q.public->Some_0, changed_by: user_id },
                self.ttl_after(q),
            ),
        )
    }

    /// Why a request to change settings is refused, if it is; first
    /// failure first. The new values are checked before the caller is.
    pub open spec fn update_refusal(&self, user_id: UserId, q: UpdateRequest) -> Option<UpdateResult> {
        let name_check = match q.name {
            Some(name) => name_verdict(
                byte_len(name@),
                name_reserved(name@, self.is_public, self.subtype.value),
            ),
            None => Ok(()),
        };
        let description_check = match q.description {
            Some(description) => description_verdict(byte_len(description@)),
            None => Ok(()),
        };
        let rules_check = match q.rules {
            Some(rules) => rules_verdict(rules.enabled, byte_len(rules.text@)),
            None => Ok(()),
        };
        let avatar_check = match q.avatar {
            OptionUpdate::SetToSome(document) => avatar_verdict(document.data@.len()),
            _ => Ok(()),
        };
        if name_check is Err {
            Some(
                match name_check->Err_0 {
                    NameValidationError::TooShort(s) => UpdateResult::NameTooShort(s),
                    NameValidationError::TooLong(l) => UpdateResult::NameTooLong(l),
                    NameValidationError::Reserved => UpdateResult::NameReserved,
                },
            )
        } else if description_check is Err {
            Some(UpdateResult::DescriptionTooLong(description_check->Err_0))
        } else if rules_check is Err {
            Some(
                match rules_check->Err_0 {
                    RulesValidationError::TooShort(s) => UpdateResult::RulesTooShort(s),
                    RulesValidationError::TooLong(l) => UpdateResult::RulesTooLong(l),
                },
            )
        } else if avatar_check is Err {
            Some(UpdateResult::AvatarTooBig(avatar_check->Err_0))
        } else if !self.members.contains(user_id) {
            Some(UpdateResult::UserNotInGroup)
        } else if self.members.member(user_id).suspended.value {
            Some(UpdateResult::UserSuspended)
        } else if !permitted(self.members.member(user_id).role, self.permissions.update_group) || ((
        q.permissions is Some || q.public is Some) && self.members.member(user_id).role != GroupRole::Owner) {
            Some(UpdateResult::NotAuthorized)
        } else {
            None
        }
    }

    /// Checks a request to change settings without carrying it out.
    pub fn can_update(
        &self,
        user_id: &UserId,
        name: &Option<String>,
        description: &Option<String>,
        rules: &Option<UpdatedRules>,
        avatar: &OptionUpdate<Document>,
        permissions: &Option<OptionalGroupPermissions>,
        public: &Option<bool>,
    ) -> (r: Result<(), UpdateResult>)
        ensures
            r == (match self.update_refusal(
                *user_id,
                UpdateRequest {
                    name: *name,
                    description: *description,
                    rules: *rules,
                    avatar: *avatar,
                    permissions: *permissions,
                    gate: OptionUpdate::NoChange,
                    public: *public,
                    events_ttl: OptionUpdate::NoChange,
                },
            ) {
                Some(refusal) => Err(refusal),
                None => Ok(()),
            }),
    {
        match name {
            Some(name) => {
                match validate_group_name(name, self.is_public, self.subtype.value.as_ref()) {
                    Err(error) => {
                        return Err(
                            match error {
                                NameValidationError::TooShort(s) => UpdateResult::NameTooShort(s),
                                NameValidationError::TooLong(l) => UpdateResult::NameTooLong(l),
                                NameValidationError::Reserved => UpdateResult::NameReserved,
                            },
                        );
                    },
                    Ok(()) => {},
                }
            },
            None => {},
        }
        match description {
            Some(description) => {
                match validate_description(description) {
                    Err(error) => {
                        return Err(UpdateResult::DescriptionTooLong(error));
                    },
                    Ok(()) => {},
                }
            },
            None => {},
        }
        match rules {
            Some(rules) => {
                match validate_rules(rules.enabled, &rules.text) {
                    Err(error) => {
                        return Err(
                            match error {
                                RulesValidationError::TooShort(s) => UpdateResult::RulesTooShort(s),
                                RulesValidationError::TooLong(l) => UpdateResult::RulesTooLong(l),
                            },
                        );
                    },
                    Ok(()) => {},
                }
            },
            None => {},
        }
        match avatar {
            OptionUpdate::SetToSome(document) => {
                match validate_avatar(Some(document)) {
                    Err(error) => {
                        return Err(UpdateResult::AvatarTooBig(error));
                    },
                    Ok(()) => {},
                }
            },
            _ => {},
        }
        match self.members.get(*user_id) {
            Some(member) => {
                if member.suspended.value {
                    return Err(UpdateResult::UserSuspended);
                }
                if !member.role.can_update_group(&self.permissions) || (permissions.is_some()
                    && !member.role.can_change_permissions()) || (public.is_some()
                    && !member.role.can_change_group_visibility()) {
                    Err(UpdateResult::NotAuthorized)
                } else {
                    Ok(())
                }
            },
            None => Err(UpdateResult::UserNotInGroup),
        }
    }

    /// Takes the new name, if it differs from the present one, and records the change.
    fn update_name(
        &mut self,
        user_id: UserId,
        name: Option<String>,
        now: TimestampMillis,
        Ghost(pre): Ghost<GroupChatCore>,
        Ghost(q): Ghost<UpdateRequest>,
    )
        requires
            done(pre, user_id, q, 0, now, *old(self), None, false),
            q.name == name,
        ensures
            done(pre, user_id, q, 1, now, *final(self), None, false),
    {
        proof {
            reveal(done);
            reveal(push_if);
            lemma_logged_run(pre, user_id, truncated(q, 0), now);
        }
        match name {
            Some(name) => {
                if self.name != name {
                    self.events.push_main_event(
                        ChatEventInternal::GroupNameChanged {
                            new_name: name.clone(),
                            previous_name: self.name.clone(),
                            changed_by: user_id,
                        },
                        now,
                    );
                    self.name = name;
                }
            },
            None => {},
        }
    }

    /// Takes the new description, if it differs from the present one, and records the change.
    fn update_description(
        &mut self,
        user_id: UserId,
        description: Option<String>,
        now: TimestampMillis,
        Ghost(pre): Ghost<GroupChatCore>,
        Ghost(q): Ghost<UpdateRequest>,
    )
        requires
            done(pre, user_id, q, 1, now, *old(self), None, false),
            q.description == description,
        ensures
            done(pre, user_id, q, 2, now, *final(self), None, false),
    {
        proof {
            reveal(done);
            reveal(push_if);
            lemma_logged_run(pre, user_id, truncated(q, 1), now);
        }
        match description {
            Some(description) => {
                if self.description != description {
                    self.events.push_main_event(
                        ChatEventInternal::GroupDescriptionChanged {
                            new_description: description.clone(),
                            previous_description: self.description.clone(),
                            changed_by: user_id,
                        },
                        now,
                    );
                    self.description = description;
                }
            },
            None => {},
        }
    }

    /// Applies a change of rules, lets the caller accept the rules now in
    /// force, and records the change. Returns the version now in force if
    /// anything changed.
    fn update_rules(
        &mut self,
        user_id: UserId,
        rules: Option<UpdatedRules>,
        now: TimestampMillis,
        Ghost(pre): Ghost<GroupChatCore>,
        Ghost(q): Ghost<UpdateRequest>,
    ) -> (r: Option<crate::types::Version>)
        requires
            done(pre, user_id, q, 2, now, *old(self), None, false),
            q.rules == rules,
        ensures
            done(pre, user_id, q, 3, now, *final(self), r, false),
    {
        proof {
            reveal(done);
            reveal(push_if);
            lemma_logged_run(pre, user_id, truncated(q, 2), now);
        }
        match rules {
            Some(rules) => {
                let prev_enabled = self.rules.enabled;
                let enabled = rules.enabled;
                match self.rules.update(rules) {
                    Some(rules_version) => {
                        match self.members.find(user_id) {
                            Some(i) => {
                                self.members.members[i].rules_accepted = Some(Timestamped::new(rules_version, now));
                                proof {
                                    lemma_same_users(old(self).members.members@, self.members.members@);
                                    lemma_same_roles(old(self).members.members@, self.members.members@);
                                }
                            },
                            None => {},
                        }
                        self.events.push_main_event(
                            ChatEventInternal::GroupRulesChanged { enabled, prev_enabled, changed_by: user_id },
                            now,
                        );
                        Some(rules_version)
                    },
                    None => None,
                }
            },
            None => None,
        }
    }

    /// Takes the new avatar, if its identifier differs from that of the
    /// present one, and records the change.
    fn update_avatar(
        &mut self,
        user_id: UserId,
        avatar: OptionUpdate<Document>,
        now: TimestampMillis,
        Ghost(pre): Ghost<GroupChatCore>,
        Ghost(q): Ghost<UpdateRequest>,
        Ghost(rules_version): Ghost<Option<crate::types::Version>>,
    )
        requires
            done(pre, user_id, q, 3, now, *old(self), rules_version, false),
            q.avatar == avatar,
        ensures
            done(pre, user_id, q, 4, now, *final(self), rules_version, false),
    {
        proof {
            reveal(done);
            reveal(push_if);
            lemma_logged_run(pre, user_id, truncated(q, 3), now);
        }
        match avatar.expand() {
            Some(avatar) => {
                let previous_avatar = match &self.avatar {
                    Some(document) => Some(document.id),
                    None => None,
                };
                let new_avatar = match &avatar {
                    Some(document) => Some(document.id),
                    None => None,
                };
                let same = match (new_avatar, previous_avatar) {
                    (Some(a), Some(b)) => a == b,
                    (None, None) => true,
                    _ => false,
                };
                if !same {
                    self.events.push_main_event(
                        ChatEventInternal::AvatarChanged { new_avatar, previous_avatar, changed_by: user_id },
                        now,
                    );
                    self.avatar = avatar;
                }
            },
            None => {},
        }
    }

    /// Merges the new thresholds into the permission matrix and, where
    /// that gives another matrix, takes it and records the change.
    fn update_permissions(
        &mut self,
        user_id: UserId,
        permissions: Option<OptionalGroupPermissions>,
        now: TimestampMillis,
        Ghost(pre): Ghost<GroupChatCore>,
        Ghost(q): Ghost<UpdateRequest>,
        Ghost(rules_version): Ghost<Option<crate::types::Version>>,
    )
        requires
            done(pre, user_id, q, 4, now, *old(self), rules_version, false),
            q.permissions == permissions,
        ensures
            done(pre, user_id, q, 5, now, *final(self), rules_version, false),
    {
        proof {
            reveal(done);
            reveal(push_if);
            lemma_logged_run(pre, user_id, truncated(q, 4), now);
        }
        match permissions {
            Some(permissions) => {
                let old_permissions = self.permissions;
                let new_permissions = GroupChatCore::merge_permissions(permissions, &old_permissions);
                if new_permissions != old_permissions {
                    self.permissions = new_permissions;
                    self.events.push_main_event(
                        ChatEventInternal::PermissionsChanged { old_permissions, new_permissions, changed_by: user_id },
                        now,
                    );
                }
            },
            None => {},
        }
    }

    /// Takes the new time to live of events, if it differs from the present
    /// one, and records the change.
    fn update_events_ttl(
        &mut self,
        user_id: UserId,
        events_ttl: OptionUpdate<Milliseconds>,
        now: TimestampMillis,
        Ghost(pre): Ghost<GroupChatCore>,
        Ghost(q): Ghost<UpdateRequest>,
        Ghost(rules_version): Ghost<Option<crate::types::Version>>,
    )
        requires
            done(pre, user_id, q, 5, now, *old(self), rules_version, false),
            q.events_ttl == events_ttl,
        ensures
            done(pre, user_id, q, 6, now, *final(self), rules_version, false),
    {
        proof {
            reveal(done);
            reveal(push_if);
            lemma_logged_run(pre, user_id, truncated(q, 5), now);
        }
        match events_ttl.expand() {
            Some(new_ttl) => {
                let current = self.events.get_events_time_to_live().value;
                let same = match (new_ttl, current) {
                    (Some(a), Some(b)) => a == b,
                    (None, None) => true,
                    _ => false,
                };
                if !same {
                    self.events.set_events_time_to_live(user_id, new_ttl, now);
                }
            },
            None => {},
        }
    }

    /// Takes the new access gate, if it differs from the present one, and
    /// records the change.
    fn update_gate(
        &mut self,
        user_id: UserId,
        gate: OptionUpdate<AccessGate>,
        now: TimestampMillis,
        Ghost(pre): Ghost<GroupChatCore>,
        Ghost(q): Ghost<UpdateRequest>,
        Ghost(rules_version): Ghost<Option<crate::types::Version>>,
    )
        requires
            done(pre, user_id, q, 6, now, *old(self), rules_version, false),
            q.gate == gate,
        ensures
            done(pre, user_id, q, 7, now, *final(self), rules_version, false),
    {
        proof {
            reveal(done);
            reveal(push_if);
            lemma_logged_run(pre, user_id, truncated(q, 6), now);
        }
        match gate.expand() {
            Some(gate) => {
                let same = match (&self.gate.value, &gate) {
                    (Some(a), Some(b)) => *a == *b,
                    (None, None) => true,
                    _ => false,
                };
                if !same {
                    self.gate = Timestamped::new(gate, now);
                    self.events.push_main_event(
                        ChatEventInternal::GroupGateUpdated { updated_by: user_id, new_gate: gate },
                        now,
                    );
                }
            },
            None => {},
        }
    }

    /// Makes the group public or private, if it is not so already, and
    /// records the change. Returns whether the group has just become public.
    fn update_visibility(
        &mut self,
        user_id: UserId,
        public: Option<bool>,
        now: TimestampMillis,
        Ghost(pre): Ghost<GroupChatCore>,
        Ghost(q): Ghost<UpdateRequest>,
        Ghost(rules_version): Ghost<Option<crate::types::Version>>,
    ) -> (r: bool)
        requires
            done(pre, user_id, q, 7, now, *old(self), rules_version, false),
            q.public == public,
        ensures
            done(pre, user_id, q, 8, now, *final(self), rules_version, r),
    {
        proof {
            reveal(done);
            reveal(push_if);
            lemma_logged_run(pre, user_id, truncated(q, 7), now);
        }
        match public {
            Some(public) => {
                if self.is_public != public {
                    self.is_public = public;
                    let push_event_result = self.events.push_main_event(
                        ChatEventInternal::GroupVisibilityChanged { now_public: public, changed_by: user_id },
                        now,
                    );
                    if public {
                        self.min_visible_indexes_for_new_members = Some(
                            (push_event_result.index, self.events.main.next_message_index),
                        );
                        return true;
                    }
                }
                false
            },
            None => false,
        }
    }

    /// Carries out a request to change settings and records each change;
    /// a setting that is given its present value is left alone and gives
    /// rise to no event. Whether the caller may do so is not checked here.
    pub fn do_update(
        &mut self,
        user_id: UserId,
        name: Option<String>,
        description: Option<String>,
        rules: Option<UpdatedRules>,
        avatar: OptionUpdate<Document>,
        permissions: Option<OptionalGroupPermissions>,
        gate: OptionUpdate<AccessGate>,
        public: Option<bool>,
        events_ttl: OptionUpdate<Milliseconds>,
        now: TimestampMillis,
    ) -> (r: UpdateSuccessResult)
        requires
            old(self).wf(),
            old(self).has_room(8),
        ensures
            final(self).wf(),
            do_update_post(
                *old(self),
                user_id,
                UpdateRequest { name, description, rules, avatar, permissions, gate, public, events_ttl },
                now,
                *final(self),
                r,
            ),
    {
        let ghost pre = *self;
        let ghost q = UpdateRequest { name, description, rules, avatar, permissions, gate, public, events_ttl };
        proof {
            lemma_done_start(pre, user_id, q, now);
        }
        self.update_name(user_id, name, now, Ghost(pre), Ghost(q));
        self.update_description(user_id, description, now, Ghost(pre), Ghost(q));
        let rules_version = self.update_rules(user_id, rules, now, Ghost(pre), Ghost(q));
        self.update_avatar(user_id, avatar, now, Ghost(pre), Ghost(q), Ghost(rules_version));
        self.update_permissions(user_id, permissions, now, Ghost(pre), Ghost(q), Ghost(rules_version));
        self.update_events_ttl(user_id, events_ttl, now, Ghost(pre), Ghost(q), Ghost(rules_version));
        self.update_gate(user_id, gate, now, Ghost(pre), Ghost(q), Ghost(rules_version));
        let newly_public = self.update_visibility(user_id, public, now, Ghost(pre), Ghost(q), Ghost(rules_version));
        proof {
            lemma_done_end(pre, user_id, q, now, *self, rules_version, newly_public);
        }
        UpdateSuccessResult { newly_public, rules_version }
    }

    /// Checks a request to change settings and, if it passes, carries it
    /// out. The log must have room for the events where the request
    /// passes; a refusal needs none.
    pub fn update(
        &mut self,
        user_id: UserId,
        name: Option<String>,
        description: Option<String>,
        rules: Option<UpdatedRules>,
        avatar: OptionUpdate<Document>,
        permissions: Option<OptionalGroupPermissions>,
        gate: OptionUpdate<AccessGate>,
        public: Option<bool>,
        events_ttl: OptionUpdate<Milliseconds>,
        now: TimestampMillis,
    ) -> (r: UpdateResult)
        requires
            old(self).wf(),
            old(self).update_refusal(
                user_id,
                UpdateRequest { name, description, rules, avatar, permissions, gate, public, events_ttl },
            ) is None ==> old(self).has_room(8),
        ensures
            final(self).wf(),
            ({
                let q = UpdateRequest { name, description, rules, avatar, permissions, gate, public, events_ttl };
                match old(self).update_refusal(user_id, q) {
                    Some(refusal) => r == refusal && *final(self) == *old(self),
                    None => r matches UpdateResult::Success(success) && do_update_post(
                        *old(self),
                        user_id,
                        q,
                        now,
                        *final(self),
                        success,
                    ),
                }
            }),
    {
        proof {
            lemma_refusal_ignores_gate_and_ttl(
                *self,
                user_id,
                UpdateRequest { name, description, rules, avatar, permissions, gate, public, events_ttl },
            );
        }
        match self.can_update(&user_id, &name, &description, &rules, &avatar, &permissions, &public) {
            Ok(_) => UpdateResult::Success(
                self.do_update(user_id, name, description, rules, avatar, permissions, gate, public, events_ttl, now),
            ),
            Err(result) => result,
        }
    }

    /// The permission matrix after a change.
    fn merge_permissions(new: OptionalGroupPermissions, old: &GroupPermissions) -> (r: GroupPermissions)
        ensures
            r == merged_permissions(new, *old),
    {
        GroupPermissions {
            change_permissions: GroupPermissionRole::Owner,
            change_roles: new.change_roles.unwrap_or(old.change_roles),
            add_members: GroupPermissionRole::Owner,
            remove_members: new.remove_members.unwrap_or(old.remove_members),
            block_users: GroupPermissionRole::Owner,
            delete_messages: new.delete_messages.unwrap_or(old.delete_messages),
            update_group: new.update_group.unwrap_or(old.update_group),
            pin_messages: new.pin_messages.unwrap_or(old.pin_messages),
            invite_users: new.invite_users.unwrap_or(old.invite_users),
            create_polls: new.create_polls.unwrap_or(old.create_polls),
            send_messages: new.send_messages.unwrap_or(old.send_messages),
            react_to_messages: new.react_to_messages.unwrap_or(old.react_to_messages),
            reply_in_thread: new.reply_in_thread.unwrap_or(old.reply_in_thread),
            mention_all_members: new.mention_all_members.unwrap_or(old.mention_all_members),
        }
    }
}

/// What a change of rules does to the rules and to the roster: the rules
/// take the new text and flag, the version moves as `version_after` says,
/// and the caller, if a member, accepts the version now in force.
pub open spec fn rules_updated(
    pre: GroupChatCore,
    user_id: UserId,
    rules: Option<UpdatedRules>,
    now: TimestampMillis,
    post: GroupChatCore,
) -> bool {
    &&& match rules {
        Some(u) => {
            &&& post.rules.enabled == u.enabled
            &&& post.rules.text.value@ == u.text@
            &&& post.rules.text.version == pre.rules.version_after(u)
            &&& !pre.rules.changed_by(u) ==> post.rules == pre.rules
        },
        None => post.rules == pre.rules,
    }
    &&& if rules matches Some(u) && pre.rules.changed_by(u) && pre.members.contains(user_id) {
        let i = pre.members.position(user_id);
        &&& post.members.blocked == pre.members.blocked
        &&& post.members.members@ == pre.members.members@.update(i, post.members.members@[i])
        &&& post.members.members@[i] == (GroupMemberInternal {
            rules_accepted: Some(Timestamped { value: post.rules.text.version, timestamp: now }),
            ..pre.members.members@[i]
        })
    } else {
        post.members == pre.members
    }
}

/// The request `q` cut down to its first `k` settings, in the order in
/// which they are carried out.
pub open spec fn truncated(q: UpdateRequest, k: nat) -> UpdateRequest {
    UpdateRequest {
        name: if k >= 1 {
            q.name
        } else {
            None
        },
        description: if k >= 2 {
            q.description
        } else {
            None
        },
        rules: if k >= 3 {
            q.rules
        } else {
            None
        },
        avatar: if k >= 4 {
            q.avatar
        } else {
            OptionUpdate::NoChange
        },
        permissions: if k >= 5 {
            q.permissions
        } else {
            None
        },
        events_ttl: if k >= 6 {
            q.events_ttl
        } else {
            OptionUpdate::NoChange
        },
        gate: if k >= 7 {
            q.gate
        } else {
            OptionUpdate::NoChange
        },
        public: if k >= 8 {
            q.public
        } else {
            None
        },
    }
}

/// The first `k` settings of the request have been carried out: the group
/// is as `do_update_post` says for the request cut down to them, it is
/// well formed, and its log has room for the rest.
#[verifier::opaque]
pub open spec fn done(
    pre: GroupChatCore,
    user_id: UserId,
    q: UpdateRequest,
    k: nat,
    now: TimestampMillis,
    current: GroupChatCore,
    rules_version: Option<crate::types::Version>,
    newly_public: bool,
) -> bool {
    &&& current.sound()
    &&& pre.threads_known()
    &&& pre.has_room(8)
    &&& k <= 8
    &&& do_update_post(
        pre,
        user_id,
        truncated(q, k),
        now,
        current,
        UpdateSuccessResult { newly_public, rules_version },
    )
}

/// Before anything is carried out, nothing of the request has been.
proof fn lemma_done_start(pre: GroupChatCore, user_id: UserId, q: UpdateRequest, now: TimestampMillis)
    requires
        pre.wf(),
        pre.has_room(8),
    ensures
        done(pre, user_id, q, 0, now, pre, None, false),
{
    reveal(done);
    reveal(push_if);
    let events = pre.update_events(user_id, truncated(q, 0));
    assert(events.len() == 0);
    assert(pre.events.main.events@ + logged(events, pre.events.main.next_event_index as int, now)
        == pre.events.main.events@);
}

/// Once all eight settings are carried out, the whole request has been.
proof fn lemma_done_end(
    pre: GroupChatCore,
    user_id: UserId,
    q: UpdateRequest,
    now: TimestampMillis,
    post: GroupChatCore,
    rules_version: Option<crate::types::Version>,
    newly_public: bool,
)
    requires
        done(pre, user_id, q, 8, now, post, rules_version, newly_public),
    ensures
        post.wf(),
        do_update_post(pre, user_id, q, now, post, UpdateSuccessResult { newly_public, rules_version }),
{
    reveal(done);
    assert(truncated(q, 8) == q);
    lemma_update_keeps_known(pre, user_id, q, now, post, UpdateSuccessResult { newly_public, rules_version });
}

/// The events of a request are those of the request cut down by one
/// setting, followed by at most one more; and appending the log entry for
/// that one to the entries of the others gives the entries of all.
proof fn lemma_logged_run(pre: GroupChatCore, user_id: UserId, shorter: UpdateRequest, now: TimestampMillis)
    requires
        pre.has_room(8),
    ensures
        pre.update_events(user_id, shorter).len() <= 8,
        forall|event: ChatEventInternal, ttl: Option<Milliseconds>|
            (pre.events.main.events@ + logged(
                pre.update_events(user_id, shorter),
                pre.events.main.next_event_index as int,
                now,
            )).push(
                EventWrapperInternal {
                    index: (pre.events.main.next_event_index + pre.update_events(user_id, shorter).len()) as u32,
                    timestamp: now,
                    expires_at: expiry(ttl, now),
                    event,
                },
            ) == pre.events.main.events@ + logged(
                #[trigger] pre.update_events(user_id, shorter).push((event, ttl)),
                pre.events.main.next_event_index as int,
                now,
            ),
{
    reveal(push_if);
    let events = pre.update_events(user_id, shorter);
    assert(events.len() <= 8);
    assert forall|event: ChatEventInternal, ttl: Option<Milliseconds>|
        (pre.events.main.events@ + logged(events, pre.events.main.next_event_index as int, now)).push(
            EventWrapperInternal {
                index: (pre.events.main.next_event_index + events.len()) as u32,
                timestamp: now,
                expires_at: expiry(ttl, now),
                event,
            },
        ) == pre.events.main.events@ + logged(
            #[trigger] events.push((event, ttl)),
            pre.events.main.next_event_index as int,
            now,
        ) by {
        lemma_logged_push(pre.events.main.events@, events, pre.events.main.next_event_index as int, now, event, ttl);
    }
}

/// The verdict on a request is the same whatever access gate and time to
/// live the request asks for.
pub proof fn lemma_refusal_ignores_gate_and_ttl(group: GroupChatCore, user_id: UserId, q: UpdateRequest)
    ensures
        group.update_refusal(user_id, q) == group.update_refusal(
            user_id,
            UpdateRequest { gate: OptionUpdate::NoChange, events_ttl: OptionUpdate::NoChange, ..q },
        ),
{
}

/// What carrying out a request does.
///
/// Every setting that the request names with a new value takes that
/// value; the permissions are merged slot by slot. The events of
/// `update_events` are appended to the main log in order, all recorded at
/// `now`. A change of the rules is accepted by the caller, if a member, at
/// the version now in force. When the group turns public, the bound for
/// new members becomes the index of the event that records it, together
/// with the next message index.
pub open spec fn do_update_post(
    pre: GroupChatCore,
    user_id: UserId,
    q: UpdateRequest,
    now: TimestampMillis,
    post: GroupChatCore,
    r: UpdateSuccessResult,
) -> bool {
    let events = pre.update_events(user_id, q);
    &&& r.newly_public == (pre.visibility_changes(q) && q.public == Some(true))
    &&& r.rules_version == if pre.rules_change(q) {
        Some(post.rules.text.version)
    } else {
        None
    }
    &&& post.name == if pre.name_changes(q) {
        q.name->Some_0
    } else {
        pre.name
    }
    &&& post.description == if pre.description_changes(q) {
        q.description->Some_0
    } else {
        pre.description
    }
    &&& rules_updated(pre, user_id, q.rules, now, post)
    &&& post.avatar == if pre.avatar_changes(q) {
        q.avatar.spec_expand()->Some_0
    } else {
        pre.avatar
    }
    &&& post.permissions == if pre.permissions_change(q) {
        merged_permissions(q.permissions->Some_0, pre.permissions)
    } else {
        pre.permissions
    }
    &&& post.gate == if pre.gate_changes(q) {
        Timestamped { value: q.gate.spec_expand()->Some_0, timestamp: now }
    } else {
        pre.gate
    }
    &&& post.is_public == if pre.visibility_changes(q) {
        q.public->Some_0
    } else {
        pre.is_public
    }
    &&& post.min_visible_indexes_for_new_members == if r.newly_public {
        Some(
            (
                (pre.events.main.next_event_index + events.len() - 1) as u32,
                pre.events.main.next_message_index,
            ),
        )
    } else {
        pre.min_visible_indexes_for_new_members
    }
    &&& post.events.main.events@ == pre.events.main.events@ + logged(
        events,
        pre.events.main.next_event_index as int,
        now,
    )
    &&& post.events.main.next_event_index == pre.events.main.next_event_index + events.len()
    &&& post.events.main.next_message_index == pre.events.main.next_message_index
    &&& post.events.threads == pre.events.threads
    &&& post.events.recently_updated == pre.events.recently_updated
    &&& post.events.events_ttl == if pre.ttl_changes(q) {
        Timestamped { value: q.events_ttl.spec_expand()->Some_0, timestamp: now }
    } else {
        pre.events.events_ttl
    }
    &&& post.events.latest_event_timestamp == if events.len() > 0 {
        later(pre.events.latest_event_timestamp, now)
    } else {
        pre.events.latest_event_timestamp
    }
    &&& post == (GroupChatCore {
        name: post.name,
        description: post.description,
        rules: post.rules,
        avatar: post.avatar,
        permissions: post.permissions,
        gate: post.gate,
        is_public: post.is_public,
        min_visible_indexes_for_new_members: post.min_visible_indexes_for_new_members,
        events: post.events,
        members: post.members,
        ..pre
    })
}

/// Recording one more event extends the run of log entries by the entry
/// for that event.
pub proof fn lemma_logged_push(
    base: Seq<EventWrapperInternal>,
    events: Seq<(ChatEventInternal, Option<Milliseconds>)>,
    first_index: int,
    now: TimestampMillis,
    event: ChatEventInternal,
    ttl: Option<Milliseconds>,
)
    requires
        0 <= first_index,
        first_index + events.len() <= u32::MAX,
    ensures
        (base + logged(events, first_index, now)).push(
            EventWrapperInternal {
                index: (first_index + events.len()) as u32,
                timestamp: now,
                expires_at: expiry(ttl, now),
                event,
            },
        ) == base + logged(events.push((event, ttl)), first_index, now),
{
    let a = (base + logged(events, first_index, now)).push(
        EventWrapperInternal {
            index: (first_index + events.len()) as u32,
            timestamp: now,
            expires_at: expiry(ttl, now),
            event,
        },
    );
    let b = base + logged(events.push((event, ttl)), first_index, now);
    assert(a.len() == b.len());
    assert forall|k: int| 0 <= k < a.len() implies a[k] == b[k] by {
        if k >= base.len() {
            let j = k - base.len();
            if j < events.len() {
                assert(events.push((event, ttl))[j] == events[j]);
            }
        }
    }
    assert(a =~= b);
}

} // verus!
