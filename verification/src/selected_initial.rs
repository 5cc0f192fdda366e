//! The details of a group as a member sees them when opening it.

use vstd::prelude::*;
use crate::group::GroupChatCore;
use crate::members::GroupMemberInternal;
use crate::seq_util::copy_ids;
use crate::types::{EventIndex, GroupRole, MessageIndex, TimestampMillis, UserId, VersionedRules};

verus! {

/// A member as shown to other members.
#[derive(Clone, Copy, Debug, PartialEq, Eq, Structural)]
pub struct GroupMember {
    pub user_id: UserId,
    pub date_added: TimestampMillis,
    pub role: GroupRole,
}

#[derive(Debug)]
pub enum Response {
    Success(SuccessResult),
    CallerNotInGroup,
}

#[derive(Debug)]
pub struct SuccessResult {
    pub timestamp: TimestampMillis,
    pub latest_event_index: EventIndex,
    pub participants: Vec<GroupMember>,
    pub blocked_users: Vec<UserId>,
    pub invited_users: Vec<UserId>,
    pub pinned_messages: Vec<MessageIndex>,
    pub chat_rules: VersionedRules,
}

/// A member as shown to other members.
pub open spec fn shown(member: GroupMemberInternal) -> GroupMember {
    GroupMember { user_id: member.user_id, date_added: member.date_added, role: member.role }
}

impl GroupChatCore {
    /// The details of the group for a member: the roster, the block list,
    /// the invited users, the pinned messages and the rules, with the
    /// index of the latest event recorded.
    pub fn selected_initial(&self, caller: UserId, now: TimestampMillis) -> (r: Response)
        requires
            self.wf(),
        ensures
            match r {
                Response::CallerNotInGroup => !self.members.contains(caller),
                Response::Success(result) => {
                    &&& self.members.contains(caller)
                    &&& result.timestamp == now
                    &&& Some(result.latest_event_index) == self.events.main.spec_latest_event_index()
                    &&& result.participants@.len() == self.members.members@.len()
                    &&& forall|i: int|
                        0 <= i < result.participants@.len() ==> result.participants@[i] == shown(
                            #[trigger] self.members.members@[i],
                        )
                    &&& result.blocked_users@ == self.members.blocked@
                    &&& result.invited_users@.len() == self.invited_users.users@.len()
                    &&& forall|i: int|
                        0 <= i < result.invited_users@.len() ==> result.invited_users@[i] == (
                        #[trigger] self.invited_users.users@[i]).invited
                    &&& result.pinned_messages@ == self.pinned_messages@
                    &&& result.chat_rules.text == self.rules.text.value
                    &&& result.chat_rules.version == self.rules.text.version
                    &&& result.chat_rules.enabled == self.rules.enabled
                },
            },
    {
        if self.members.get(caller).is_none() {
            return Response::CallerNotInGroup;
        }
        let mut participants: Vec<GroupMember> = Vec::new();
        let mut i: usize = 0;
        while i < self.members.members.len()
            invariant
                i <= self.members.members@.len(),
                participants@.len() == i,
                forall|k: int| 0 <= k < i ==> participants@[k] == shown(#[trigger] self.members.members@[k]),
            decreases self.members.members@.len() - i,
        {
            let m = &self.members.members[i];
            participants.push(GroupMember { user_id: m.user_id, date_added: m.date_added, role: m.role });
            i += 1;
        }
        let mut pinned_messages: Vec<MessageIndex> = Vec::new();
        let mut k: usize = 0;
        while k < self.pinned_messages.len()
            invariant
                k <= self.pinned_messages@.len(),
                pinned_messages@ == self.pinned_messages@.take(k as int),
            decreases self.pinned_messages@.len() - k,
        {
            pinned_messages.push(self.pinned_messages[k]);
            assert(self.pinned_messages@.take(k as int + 1) == self.pinned_messages@.take(k as int).push(
                self.pinned_messages@[k as int],
            ));
            k += 1;
        }
        assert(self.pinned_messages@.take(self.pinned_messages@.len() as int) == self.pinned_messages@);
        Response::Success(
            SuccessResult {
                timestamp: now,
                latest_event_index: self.events.main.next_event_index - 1,
                participants,
                blocked_users: copy_ids(&self.members.blocked),
                invited_users: self.invited_users.users(),
                pinned_messages,
                chat_rules: self.rules.to_versioned_rules(),
            },
        )
    }
}

} // verus!
