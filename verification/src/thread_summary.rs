//! The summary that a thread's root message carries: who took part, who
//! follows, how many replies there are and when the last one came.

use vstd::prelude::*;
use crate::message::FollowChoice;
use crate::seq_util::{contains_id, first_match, lemma_first_match, lemma_first_match_at, lemma_first_match_none};
use crate::types::{EventIndex, TimestampMillis, UserId};

verus! {

/// The summary of a thread as the log keeps it.
#[derive(Debug)]
pub struct ThreadSummaryInternal {
    pub participant_ids: Vec<UserId>,
    pub followers: Vec<FollowChoice>,
    pub reply_count: u32,
    pub latest_event_index: EventIndex,
    pub latest_event_timestamp: TimestampMillis,
}

/// The summary of a thread as one user sees it.
#[derive(Debug)]
pub struct ThreadSummary {
    pub participant_ids: Vec<UserId>,
    pub followed_by_me: bool,
    pub reply_count: u32,
    pub latest_event_index: EventIndex,
    pub latest_event_timestamp: TimestampMillis,
}

/// Position of the explicit choice that `user_id` made, or the number of
/// choices if the user made none.
pub open spec fn choice_position(followers: Seq<FollowChoice>, user_id: UserId) -> int {
    first_match(followers, made_by(user_id))
}

/// The choices that `user_id` made.
pub open spec fn made_by(user_id: UserId) -> spec_fn(FollowChoice) -> bool {
    |c: FollowChoice| c.user_id == user_id
}

/// What recording a choice to follow or not to follow does to a summary:
/// the user follows the thread exactly if `follow` is set, every other
/// user follows it as before, and nothing else changes.
pub open spec fn follow_recorded(
    before: ThreadSummaryInternal,
    after: ThreadSummaryInternal,
    user_id: UserId,
    follow: bool,
) -> bool {
    &&& after.is_followed_by(user_id) == follow
    &&& after.has_choice(user_id)
    &&& forall|other: UserId|
        other != user_id ==> after.is_followed_by(other) == before.is_followed_by(other) && after.has_choice(other)
            == before.has_choice(other)
    &&& after.participant_ids == before.participant_ids
    &&& after.reply_count == before.reply_count
    &&& after.latest_event_index == before.latest_event_index
    &&& after.latest_event_timestamp == before.latest_event_timestamp
}

/// The choices after the first `k` of the users mentioned in a reply were
/// made followers: a mentioned user who has neither replied nor made a
/// choice gets the choice to follow; the others are left as they are.
pub open spec fn with_mentioned(
    followers: Seq<FollowChoice>,
    participants: Seq<UserId>,
    mentioned: Seq<UserId>,
    k: int,
    now: TimestampMillis,
) -> Seq<FollowChoice>
    decreases k,
{
    if k <= 0 || k > mentioned.len() {
        followers
    } else {
        let before = with_mentioned(followers, participants, mentioned, k - 1, now);
        let user_id = mentioned[k - 1];
        if participants.contains(user_id) || choice_position(before, user_id) < before.len() {
            before
        } else {
            before.push(FollowChoice { user_id, following: true, timestamp: now })
        }
    }
}

impl ThreadSummaryInternal {
    /// Whether `user_id` has made an explicit choice about this thread.
    pub open spec fn has_choice(&self, user_id: UserId) -> bool {
        choice_position(self.followers@, user_id) < self.followers@.len()
    }

    /// A user follows a thread by explicit choice, or, having made none, by
    /// having replied in it.
    pub open spec fn is_followed_by(&self, user_id: UserId) -> bool {
        if self.has_choice(user_id) {
            self.followers@[choice_position(self.followers@, user_id)].following
        } else {
            self.participant_ids@.contains(user_id)
        }
    }

    /// A user is involved in a thread by having replied in it or by having
    /// made a choice about following it.
    pub open spec fn is_involved(&self, user_id: UserId) -> bool {
        self.participant_ids@.contains(user_id) || self.has_choice(user_id)
    }

    /// The summary of a thread that has just received its first reply.
    pub fn new(sender: UserId, latest_event_index: EventIndex, now: TimestampMillis) -> (r: Self)
        ensures
            r.participant_ids@ == seq![sender],
            r.followers@.len() == 0,
            r.reply_count == 1,
            r.latest_event_index == latest_event_index,
            r.latest_event_timestamp == now,
    {
        let mut participant_ids: Vec<UserId> = Vec::new();
        participant_ids.push(sender);
        ThreadSummaryInternal {
            participant_ids,
            followers: Vec::new(),
            reply_count: 1,
            latest_event_index,
            latest_event_timestamp: now,
        }
    }

    /// Position of the explicit choice that the user made.
    fn find_choice(&self, user_id: UserId) -> (r: Option<usize>)
        ensures
            match r {
                Some(i) => self.has_choice(user_id) && i == choice_position(self.followers@, user_id),
                None => !self.has_choice(user_id),
            },
    {
        let ghost p = made_by(user_id);
        let mut i: usize = 0;
        while i < self.followers.len()
            invariant
                0 <= i <= self.followers@.len(),
                p == made_by(user_id),
                forall|j: int| 0 <= j < i ==> !p(#[trigger] self.followers@[j]),
            decreases self.followers@.len() - i,
        {
            if self.followers[i].user_id == user_id {
                proof {
                    lemma_first_match_at(self.followers@, p, i as int);
                }
                return Some(i);
            }
            i += 1;
        }
        proof {
            lemma_first_match_none(self.followers@, p);
        }
        None
    }

    /// Whether the user has replied in the thread or made a choice about
    /// following it.
    pub fn involves(&self, user_id: UserId) -> (r: bool)
        ensures
            r == self.is_involved(user_id),
    {
        contains_id(&self.participant_ids, user_id) || self.find_choice(user_id).is_some()
    }

    /// Whether the user follows the thread.
    pub fn follows(&self, user_id: UserId) -> (r: bool)
        ensures
            r == self.is_followed_by(user_id),
    {
        match self.find_choice(user_id) {
            Some(i) => self.followers[i].following,
            None => contains_id(&self.participant_ids, user_id),
        }
    }

    /// Records that `user_id` follows (or no longer follows) the thread.
    /// Returns whether that changed anything; where it did not, the summary
    /// is left as it was.
    pub fn set_follow(&mut self, user_id: UserId, now: TimestampMillis, follow: bool) -> (changed: bool)
        ensures
            changed == (old(self).is_followed_by(user_id) != follow),
            !changed ==> *final(self) == *old(self),
            final(self).is_followed_by(user_id) == follow,
            forall|other: UserId|
                other != user_id ==> final(self).is_followed_by(other) == old(self).is_followed_by(other)
                    && final(self).has_choice(other) == old(self).has_choice(other),
            changed ==> final(self).has_choice(user_id),
            changed ==> follow_recorded(*old(self), *final(self), user_id, follow),
            final(self).participant_ids == old(self).participant_ids,
            final(self).reply_count == old(self).reply_count,
            final(self).latest_event_index == old(self).latest_event_index,
            final(self).latest_event_timestamp == old(self).latest_event_timestamp,
    {
        let ghost before = self.followers@;
        let choice = FollowChoice { user_id, following: follow, timestamp: now };
        proof {
            lemma_first_match(before, made_by(user_id));
        }
        match self.find_choice(user_id) {
            Some(i) => {
                if self.followers[i].following == follow {
                    return false;
                }
                self.followers[i] = choice;
                proof {
                    let after = self.followers@;
                    assert(after == before.update(i as int, choice));
                    assert forall|other: UserId| other != user_id implies self.is_followed_by(other) == old(
                        self,
                    ).is_followed_by(other) && self.has_choice(other) == old(self).has_choice(other) by {
                        lemma_same_users_same_position(before, after, other);
                        lemma_first_match(before, made_by(other));
                    }
                    lemma_same_users_same_position(before, after, user_id);
                }
                true
            },
            None => {
                if contains_id(&self.participant_ids, user_id) == follow {
                    return false;
                }
                self.followers.push(choice);
                proof {
                    let after = self.followers@;
                    assert(after == before.push(choice));
                    assert forall|other: UserId| other != user_id implies self.is_followed_by(other) == old(
                        self,
                    ).is_followed_by(other) && self.has_choice(other) == old(self).has_choice(other) by {
                        lemma_push_other_user(before, choice, other);
                        lemma_first_match(before, made_by(other));
                        let k = choice_position(before, other);
                        if k < before.len() {
                            assert(before.push(choice)[k] == before[k]);
                        }
                    }
                    lemma_push_new_user(before, choice);
                }
                true
            },
        }
    }

    /// Records a further reply: the count grows by one (it sticks at its
    /// largest value), the sender joins the participants if new, and the
    /// latest event moves on.
    pub fn mark_reply_added(&mut self, sender: UserId, latest_event_index: EventIndex, now: TimestampMillis)
        ensures
            final(self).reply_count == if old(self).reply_count < u32::MAX {
                (old(self).reply_count + 1) as u32
            } else {
                old(self).reply_count
            },
            final(self).participant_ids@ == if old(self).participant_ids@.contains(sender) {
                old(self).participant_ids@
            } else {
                old(self).participant_ids@.push(sender)
            },
            final(self).followers == old(self).followers,
            final(self).latest_event_index == latest_event_index,
            final(self).latest_event_timestamp == now,
    {
        if self.reply_count < u32::MAX {
            self.reply_count = self.reply_count + 1;
        }
        if !contains_id(&self.participant_ids, sender) {
            self.participant_ids.push(sender);
        }
        self.latest_event_index = latest_event_index;
        self.latest_event_timestamp = now;
    }

    /// Makes followers of the users mentioned in a reply, unless they have
    /// replied themselves or have made a choice already.
    pub fn follow_by_mention(&mut self, mentioned: &Vec<UserId>, now: TimestampMillis)
        ensures
            final(self).followers@ == with_mentioned(
                old(self).followers@,
                old(self).participant_ids@,
                mentioned@,
                mentioned@.len() as int,
                now,
            ),
            final(self).participant_ids == old(self).participant_ids,
            final(self).reply_count == old(self).reply_count,
            final(self).latest_event_index == old(self).latest_event_index,
            final(self).latest_event_timestamp == old(self).latest_event_timestamp,
    {
        let mut k: usize = 0;
        while k < mentioned.len()
            invariant
                k <= mentioned@.len(),
                self.followers@ == with_mentioned(
                    old(self).followers@,
                    old(self).participant_ids@,
                    mentioned@,
                    k as int,
                    now,
                ),
                self.participant_ids == old(self).participant_ids,
                self.reply_count == old(self).reply_count,
                self.latest_event_index == old(self).latest_event_index,
                self.latest_event_timestamp == old(self).latest_event_timestamp,
            decreases mentioned@.len() - k,
        {
            let user_id = mentioned[k];
            if !contains_id(&self.participant_ids, user_id) && self.find_choice(user_id).is_none() {
                self.followers.push(FollowChoice { user_id, following: true, timestamp: now });
            }
            k += 1;
        }
    }

    /// The users involved in the thread, each once: those who replied, then
    /// those who only made a choice. Unless `include_unfollowed` is set,
    /// users who do not follow the thread are left out.
    pub fn participants_and_followers(&self, include_unfollowed: bool) -> (r: Vec<UserId>)
        ensures
            forall|u: UserId|
                r@.contains(u) <==> self.is_involved(u) && (include_unfollowed || self.is_followed_by(u)),
            r@.no_duplicates(),
    {
        let mut out: Vec<UserId> = Vec::new();
        let mut i: usize = 0;
        while i < self.participant_ids.len()
            invariant
                0 <= i <= self.participant_ids@.len(),
                out@.no_duplicates(),
                forall|u: UserId|
                    #[trigger] out@.contains(u) <==> self.participant_ids@.take(i as int).contains(u) && (
                    include_unfollowed || self.is_followed_by(u)),
            decreases self.participant_ids@.len() - i,
        {
            let u = self.participant_ids[i];
            let ghost prev = out@;
            let ghost seen = self.participant_ids@.take(i as int);
            let ghost seen_next = self.participant_ids@.take(i as int + 1);
            proof {
                lemma_take_push_contains(self.participant_ids@, i as int);
                lemma_push_contains(prev, u);
            }
            if !contains_id(&out, u) && (include_unfollowed || self.follows(u)) {
                out.push(u);
            }
            assert forall|y: UserId| #[trigger] out@.contains(y) <==> seen_next.contains(y) && (include_unfollowed
                || self.is_followed_by(y)) by {
                assert(seen_next.contains(y) <==> seen.contains(y) || y == u);
                assert(prev.push(u).contains(y) <==> prev.contains(y) || y == u);
                assert(prev.contains(y) <==> seen.contains(y) && (include_unfollowed || self.is_followed_by(y)));
            }
            i += 1;
        }
        assert(self.participant_ids@.take(self.participant_ids@.len() as int) == self.participant_ids@);
        assert forall|y: UserId| !chosen_before(self.followers@, y, 0) by {}
        let mut k: usize = 0;
        while k < self.followers.len()
            invariant
                0 <= k <= self.followers@.len(),
                out@.no_duplicates(),
                forall|u: UserId|
                    #[trigger] out@.contains(u) <==> (self.participant_ids@.contains(u) || chosen_before(
                        self.followers@,
                        u,
                        k as int,
                    )) && (include_unfollowed || self.is_followed_by(u)),
            decreases self.followers@.len() - k,
        {
            let u = self.followers[k].user_id;
            let ghost prev = out@;
            proof {
                lemma_chosen_step(self.followers@, k as int);
                lemma_push_contains(prev, u);
            }
            if !contains_id(&out, u) && (include_unfollowed || self.follows(u)) {
                out.push(u);
            }
            assert forall|y: UserId| #[trigger] out@.contains(y) <==> (self.participant_ids@.contains(y)
                || chosen_before(self.followers@, y, k as int + 1)) && (include_unfollowed || self.is_followed_by(
                y,
            )) by {
                assert(chosen_before(self.followers@, y, k as int + 1) <==> (chosen_before(
                    self.followers@,
                    y,
                    k as int,
                ) || u == y));
                assert(prev.push(u).contains(y) <==> prev.contains(y) || y == u);
                assert(prev.contains(y) <==> (self.participant_ids@.contains(y) || chosen_before(
                    self.followers@,
                    y,
                    k as int,
                )) && (include_unfollowed || self.is_followed_by(y)));
            }
            k += 1;
        }
        proof {
            assert forall|u: UserId|
                out@.contains(u) <==> self.is_involved(u) && (include_unfollowed || self.is_followed_by(u)) by {
                lemma_chosen_all(self.followers@, u);
            }
        }
        out
    }

    /// The summary as `user_id` sees it.
    pub fn hydrate(&self, user_id: Option<UserId>) -> (r: ThreadSummary)
        ensures
            r.participant_ids@ == self.participant_ids@,
            r.followed_by_me == (user_id matches Some(u) && self.is_followed_by(u)),
            r.reply_count == self.reply_count,
            r.latest_event_index == self.latest_event_index,
            r.latest_event_timestamp == self.latest_event_timestamp,
    {
        let followed_by_me = match user_id {
            Some(u) => self.follows(u),
            None => false,
        };
        ThreadSummary {
            participant_ids: crate::seq_util::copy_ids(&self.participant_ids),
            followed_by_me,
            reply_count: self.reply_count,
            latest_event_index: self.latest_event_index,
            latest_event_timestamp: self.latest_event_timestamp,
        }
    }
}

/// Replacing a choice by one of the same user moves no user's position.
proof fn lemma_same_users_same_position(before: Seq<FollowChoice>, after: Seq<FollowChoice>, other: UserId)
    requires
        after.len() == before.len(),
        forall|i: int| 0 <= i < before.len() ==> (#[trigger] after[i]).user_id == before[i].user_id,
    ensures
        choice_position(after, other) == choice_position(before, other),
{
    let p = made_by(other);
    lemma_first_match(before, p);
    let k = first_match(before, p);
    if k < before.len() {
        assert forall|i: int| 0 <= i < k implies !p(#[trigger] after[i]) by {
            assert(!p(before[i]));
        }
        lemma_first_match_at(after, p, k);
    } else {
        assert forall|i: int| 0 <= i < after.len() implies !p(#[trigger] after[i]) by {
            assert(!p(before[i]));
        }
        lemma_first_match_none(after, p);
    }
}

/// Appending the choice of one user leaves every other user's position.
proof fn lemma_push_other_user(before: Seq<FollowChoice>, choice: FollowChoice, other: UserId)
    requires
        other != choice.user_id,
    ensures
        (choice_position(before.push(choice), other) < before.len() + 1) <==> (choice_position(before, other)
            < before.len()),
        choice_position(before, other) < before.len() ==> choice_position(before.push(choice), other)
            == choice_position(before, other),
{
    let p = made_by(other);
    let after = before.push(choice);
    lemma_first_match(before, p);
    let k = first_match(before, p);
    if k < before.len() {
        assert forall|i: int| 0 <= i < k implies !p(#[trigger] after[i]) by {
            assert(!p(before[i]));
        }
        assert(after[k] == before[k]);
        lemma_first_match_at(after, p, k);
    } else {
        assert forall|i: int| 0 <= i < after.len() implies !p(#[trigger] after[i]) by {
            if i < before.len() {
                assert(!p(before[i]));
            }
        }
        lemma_first_match_none(after, p);
    }
}

/// Appending the choice of a user who had made none puts that user's
/// position at the end.
proof fn lemma_push_new_user(before: Seq<FollowChoice>, choice: FollowChoice)
    requires
        choice_position(before, choice.user_id) == before.len(),
    ensures
        choice_position(before.push(choice), choice.user_id) == before.len(),
{
    let p = made_by(choice.user_id);
    let after = before.push(choice);
    lemma_first_match(before, p);
    assert forall|i: int| 0 <= i < before.len() implies !p(#[trigger] after[i]) by {
        assert(!p(before[i]));
    }
    lemma_first_match_at(after, p, before.len() as int);
}

/// Whether one of the first `k` choices is that of `user_id`.
pub open spec fn chosen_before(followers: Seq<FollowChoice>, user_id: UserId, k: int) -> bool {
    exists|j: int| 0 <= j < k && j < followers.len() && (#[trigger] followers[j]).user_id == user_id
}

/// A user's choice is among the first `k + 1` exactly if it is among the
/// first `k` or the choice at `k` is that user's.
proof fn lemma_chosen_step(followers: Seq<FollowChoice>, k: int)
    requires
        0 <= k < followers.len(),
    ensures
        forall|u: UserId|
            #[trigger] chosen_before(followers, u, k + 1) <==> (chosen_before(followers, u, k)
                || followers[k].user_id == u),
        forall|u: UserId| !chosen_before(followers, u, 0),
{
    assert forall|u: UserId|
        #[trigger] chosen_before(followers, u, k + 1) <==> (chosen_before(followers, u, k)
            || followers[k].user_id == u) by {
        if followers[k].user_id == u {
            assert(followers[k].user_id == u);
        }
        if chosen_before(followers, u, k) {
            let j = choose|j: int| 0 <= j < k && j < followers.len() && (#[trigger] followers[j]).user_id == u;
            assert(followers[j].user_id == u);
        }
    }
}

/// A user has made a choice exactly if some choice in the list is theirs.
proof fn lemma_chosen_all(followers: Seq<FollowChoice>, u: UserId)
    ensures
        chosen_before(followers, u, followers.len() as int) == (choice_position(followers, u) < followers.len()),
{
    let p = made_by(u);
    lemma_first_match(followers, p);
    let f = first_match(followers, p);
    if f < followers.len() {
        assert(followers[f].user_id == u);
    } else if chosen_before(followers, u, followers.len() as int) {
        let j = choose|j: int|
            0 <= j < followers.len() && j < followers.len() && (#[trigger] followers[j]).user_id == u;
        assert(!p(followers[j]));
    }
}

/// What a sequence contains after one more element.
pub proof fn lemma_push_contains<T>(s: Seq<T>, x: T)
    ensures
        forall|y: T| #[trigger] s.push(x).contains(y) <==> s.contains(y) || y == x,
        s.no_duplicates() && !s.contains(x) ==> s.push(x).no_duplicates(),
{
    let t = s.push(x);
    assert forall|y: T| #[trigger] t.contains(y) <==> s.contains(y) || y == x by {
        if s.contains(y) {
            let i = choose|i: int| 0 <= i < s.len() && s[i] == y;
            assert(t[i] == y);
        }
        if y == x {
            assert(t[s.len() as int] == x);
        }
        if t.contains(y) {
            let i = choose|i: int| 0 <= i < t.len() && t[i] == y;
            if i < s.len() {
                assert(s[i] == y);
            }
        }
    }
}

/// What a prefix contains once it is one element longer.
pub proof fn lemma_take_push_contains<T>(s: Seq<T>, i: int)
    requires
        0 <= i < s.len(),
    ensures
        forall|y: T| #[trigger] s.take(i + 1).contains(y) <==> s.take(i).contains(y) || y == s[i],
{
    assert(s.take(i + 1) == s.take(i).push(s[i]));
    lemma_push_contains(s.take(i), s[i]);
}

} // verus!
