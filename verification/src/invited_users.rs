//! Pending invitations, each with the history that the invited user will
//! be allowed to see.

use vstd::prelude::*;
use crate::seq_util::{first_match, lemma_first_match, lemma_first_match_at, lemma_first_match_none};
use crate::types::{EventIndex, MessageIndex, TimestampMillis, UserId};

verus! {

/// An invitation of one user.
#[derive(Clone, Copy, Debug, PartialEq, Eq, Structural)]
pub struct UserInvitation {
    pub invited: UserId,
    pub invited_by: UserId,
    pub timestamp: TimestampMillis,
    pub min_visible_event_index: EventIndex,
    pub min_visible_message_index: MessageIndex,
}

/// The pending invitations and the time of the last change to them.
#[derive(Debug)]
pub struct InvitedUsers {
    pub users: Vec<UserInvitation>,
    pub last_updated: TimestampMillis,
}

/// The invitations of `user_id`.
pub open spec fn invites(user_id: UserId) -> spec_fn(UserInvitation) -> bool {
    |i: UserInvitation| i.invited == user_id
}

/// The invitations after one more: an earlier invitation of the same user
/// is replaced where it stands, a new one comes last.
pub open spec fn with_invitation(users: Seq<UserInvitation>, invitation: UserInvitation) -> Seq<UserInvitation> {
    let p = first_match(users, invites(invitation.invited));
    if p < users.len() {
        users.update(p, invitation)
    } else {
        users.push(invitation)
    }
}

impl InvitedUsers {
    /// Position of the invitation of `user_id`, or the number of
    /// invitations if the user has none.
    pub open spec fn position(&self, user_id: UserId) -> int {
        first_match(self.users@, invites(user_id))
    }

    pub open spec fn spec_contains(&self, user_id: UserId) -> bool {
        self.position(user_id) < self.users@.len()
    }

    /// The invitation of `user_id`. Meaningful only for an invited user.
    pub open spec fn invitation(&self, user_id: UserId) -> UserInvitation {
        self.users@[self.position(user_id)]
    }

    /// No invitations, never changed.
    pub fn new() -> (r: Self)
        ensures
            r.users@.len() == 0,
            r.last_updated == 0,
    {
        InvitedUsers { users: Vec::new(), last_updated: 0 }
    }

    /// Position of the invitation of `user_id`.
    fn find(&self, user_id: UserId) -> (r: Option<usize>)
        ensures
            match r {
                Some(i) => self.spec_contains(user_id) && i == self.position(user_id) && i < self.users@.len()
                    && self.users@[i as int].invited == user_id,
                None => !self.spec_contains(user_id),
            },
    {
        let ghost p = invites(user_id);
        let mut i: usize = 0;
        while i < self.users.len()
            invariant
                0 <= i <= self.users@.len(),
                p == invites(user_id),
                forall|j: int| 0 <= j < i ==> !p(#[trigger] self.users@[j]),
            decreases self.users@.len() - i,
        {
            if self.users[i].invited == user_id {
                proof {
                    lemma_first_match_at(self.users@, p, i as int);
                }
                return Some(i);
            }
            i += 1;
        }
        proof {
            lemma_first_match_none(self.users@, p);
        }
        None
    }

    /// Records an invitation. An earlier invitation of the same user is
    /// replaced where it stands.
    pub fn add(&mut self, invitation: UserInvitation)
        ensures
            final(self).last_updated == invitation.timestamp,
            final(self).users@ == with_invitation(old(self).users@, invitation),
            final(self).spec_contains(invitation.invited),
            final(self).invitation(invitation.invited) == invitation,
            forall|other: UserId|
                other != invitation.invited ==> final(self).spec_contains(other) == old(self).spec_contains(other)
                    && (old(self).spec_contains(other) ==> final(self).invitation(other) == old(self).invitation(
                    other,
                )),
    {
        self.last_updated = invitation.timestamp;
        let ghost before = self.users@;
        proof {
            lemma_first_match(before, invites(invitation.invited));
        }
        match self.find(invitation.invited) {
            Some(i) => {
                self.users[i] = invitation;
                proof {
                    let after = self.users@;
                    assert(after == before.update(i as int, invitation));
                    assert forall|u: UserId| first_match(after, invites(u)) == first_match(before, invites(u)) by {
                        lemma_same_invited(before, after, u);
                    }
                    assert forall|other: UserId| other != invitation.invited && old(self).spec_contains(
                        other,
                    ) implies self.invitation(other) == old(self).invitation(other) by {
                        lemma_first_match(before, invites(other));
                    }
                }
            },
            None => {
                self.users.push(invitation);
                proof {
                    let after = self.users@;
                    assert forall|k: int| 0 <= k < before.len() implies !invites(invitation.invited)(
                        #[trigger] after[k],
                    ) by {
                        assert(!invites(invitation.invited)(before[k]));
                    }
                    lemma_first_match_at(after, invites(invitation.invited), before.len() as int);
                    assert forall|other: UserId| other != invitation.invited implies self.spec_contains(other) == old(
                        self,
                    ).spec_contains(other) && (old(self).spec_contains(other) ==> self.invitation(other) == old(
                        self,
                    ).invitation(other)) by {
                        let p = invites(other);
                        lemma_first_match(before, p);
                        let k = first_match(before, p);
                        if k < before.len() {
                            assert forall|j: int| 0 <= j < k implies !p(#[trigger] after[j]) by {
                                assert(!p(before[j]));
                            }
                            assert(after[k] == before[k]);
                            lemma_first_match_at(after, p, k);
                        } else {
                            assert forall|j: int| 0 <= j < after.len() implies !p(#[trigger] after[j]) by {
                                if j < before.len() {
                                    assert(!p(before[j]));
                                }
                            }
                            lemma_first_match_none(after, p);
                        }
                    }
                }
            },
        }
    }

    /// Withdraws the invitation of `user_id` and hands it back.
    pub fn remove(&mut self, user_id: UserId, now: TimestampMillis) -> (r: Option<UserInvitation>)
        ensures
            match r {
                Some(i) => {
                    &&& old(self).spec_contains(user_id)
                    &&& i == old(self).invitation(user_id)
                    &&& final(self).users@ == old(self).users@.remove(old(self).position(user_id))
                    &&& final(self).last_updated == now
                },
                None => !old(self).spec_contains(user_id) && *final(self) == *old(self),
            },
    {
        match self.find(user_id) {
            Some(i) => {
                let invitation = self.users.remove(i);
                self.last_updated = now;
                Some(invitation)
            },
            None => None,
        }
    }

    /// The invitation of `user_id`, if there is one.
    pub fn get(&self, user_id: UserId) -> (r: Option<&UserInvitation>)
        ensures
            match r {
                Some(i) => self.spec_contains(user_id) && *i == self.invitation(user_id),
                None => !self.spec_contains(user_id),
            },
    {
        match self.find(user_id) {
            Some(i) => Some(&self.users[i]),
            None => None,
        }
    }

    pub fn contains(&self, user_id: UserId) -> (r: bool)
        ensures
            r == self.spec_contains(user_id),
    {
        self.find(user_id).is_some()
    }

    pub fn len(&self) -> (r: usize)
        ensures
            r == self.users@.len(),
    {
        self.users.len()
    }

    pub fn last_updated(&self) -> (r: TimestampMillis)
        ensures
            r == self.last_updated,
    {
        self.last_updated
    }

    /// The invited users, in the order in which they were invited.
    pub fn users(&self) -> (r: Vec<UserId>)
        ensures
            r@.len() == self.users@.len(),
            forall|i: int| 0 <= i < r@.len() ==> r@[i] == (#[trigger] self.users@[i]).invited,
    {
        let mut out: Vec<UserId> = Vec::new();
        let mut i: usize = 0;
        while i < self.users.len()
            invariant
                0 <= i <= self.users@.len(),
                out@.len() == i,
                forall|k: int| 0 <= k < i ==> out@[k] == (#[trigger] self.users@[k]).invited,
            decreases self.users@.len() - i,
        {
            out.push(self.users[i].invited);
            i += 1;
        }
        out
    }
}

/// Replacing an invitation by one of the same user moves nobody's position.
proof fn lemma_same_invited(before: Seq<UserInvitation>, after: Seq<UserInvitation>, u: UserId)
    requires
        after.len() == before.len(),
        forall|i: int| 0 <= i < before.len() ==> (#[trigger] after[i]).invited == before[i].invited,
    ensures
        first_match(after, invites(u)) == first_match(before, invites(u)),
{
    let p = invites(u);
    lemma_first_match(before, p);
    let k = first_match(before, p);
    if k < before.len() {
        assert forall|i: int| 0 <= i < k implies !p(#[trigger] after[i]) by {
            assert(!p(before[i]));
        }
        lemma_first_match_at(after, p, k);
    } else {
        assert forall|i: int| 0 <= i < after.len() implies !p(#[trigger] after[i]) by {
            assert(!p(before[i]));
        }
        lemma_first_match_none(after, p);
    }
}

} // verus!
