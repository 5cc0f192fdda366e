//! What changed in a group since a given time, for a client that wants
//! to bring its summary of the group up to date.

use vstd::prelude::*;
use crate::chat_events::{ChatEvents, UpdatedEvent};
use crate::event_list::{lemma_floor, ChatEventsList};
use crate::events::{is_membership_event, ChatEventInternal, EventWrapperInternal};
use crate::group::GroupChatCore;
use crate::members::{votes_ascend, GroupMemberInternal, Mention, ProposalVotes};
use crate::results::{HydratedMention, SummaryUpdatesFromEvents};
use crate::seq_util::{contains_id, lemma_newest_match, lemma_newest_match_found, newest_match};
use crate::types::{EventIndex, MessageIndex, OptionUpdate, TimestampMillis, UserId};

verus! {

/// Most entries of the update index that one answer carries.
pub const MAX_UPDATED_EVENTS: usize = 1000;

/// Where the window of recent events begins: going back from position
/// `hi`, the window takes in every event recorded after `since` and stops
/// at the first that was not, or at the floor.
pub open spec fn window_start(s: Seq<EventWrapperInternal>, floor: int, hi: int, since: TimestampMillis) -> int
    decreases hi,
{
    if hi <= floor || hi <= 0 || hi > s.len() || s[hi - 1].timestamp <= since {
        hi
    } else {
        window_start(s, floor, hi - 1, since)
    }
}

pub open spec fn name_change() -> spec_fn(EventWrapperInternal) -> bool {
    |w: EventWrapperInternal| w.event is GroupNameChanged
}

pub open spec fn description_change() -> spec_fn(EventWrapperInternal) -> bool {
    |w: EventWrapperInternal| w.event is GroupDescriptionChanged
}

pub open spec fn avatar_change() -> spec_fn(EventWrapperInternal) -> bool {
    |w: EventWrapperInternal| w.event is AvatarChanged
}

pub open spec fn permissions_change() -> spec_fn(EventWrapperInternal) -> bool {
    |w: EventWrapperInternal| w.event is PermissionsChanged
}

pub open spec fn visibility_change() -> spec_fn(EventWrapperInternal) -> bool {
    |w: EventWrapperInternal| w.event is GroupVisibilityChanged
}

pub open spec fn ttl_change() -> spec_fn(EventWrapperInternal) -> bool {
    |w: EventWrapperInternal| w.event is EventsTimeToLiveUpdated
}

pub open spec fn rules_change() -> spec_fn(EventWrapperInternal) -> bool {
    |w: EventWrapperInternal| w.event is GroupRulesChanged
}

pub open spec fn membership_change() -> spec_fn(EventWrapperInternal) -> bool {
    |w: EventWrapperInternal| is_membership_event(w.event)
}

/// The events that change the role of `user_id`.
pub open spec fn role_change_of(user_id: UserId) -> spec_fn(EventWrapperInternal) -> bool {
    |w: EventWrapperInternal| w.event matches ChatEventInternal::RoleChanged { user_ids, .. } && user_ids@.contains(user_id)
}

pub open spec fn holds_message() -> spec_fn(EventWrapperInternal) -> bool {
    |w: EventWrapperInternal| w.is_message()
}

/// What the events of the window say about the settings of the group:
/// for each setting, the position of the newest event that changed it,
/// or -1 if none did.
pub struct WindowScan {
    pub start: int,
    pub name: int,
    pub description: int,
    pub avatar: int,
    pub permissions: int,
    pub visibility: int,
    pub ttl: int,
    pub rules: int,
    pub membership: int,
    pub role: int,
}

/// The scan of the events from position `start` on, for a reader who may
/// be the member `member`.
pub open spec fn scan_from(s: Seq<EventWrapperInternal>, start: int, member: Option<UserId>) -> WindowScan {
    WindowScan {
        start,
        name: newest_match(s, start, name_change()),
        description: newest_match(s, start, description_change()),
        avatar: newest_match(s, start, avatar_change()),
        permissions: newest_match(s, start, permissions_change()),
        visibility: newest_match(s, start, visibility_change()),
        ttl: newest_match(s, start, ttl_change()),
        rules: newest_match(s, start, rules_change()),
        membership: newest_match(s, start, membership_change()),
        role: match member {
            Some(u) => newest_match(s, start, role_change_of(u)),
            None => -1,
        },
    }
}

/// A position or none, as a number.
pub open spec fn as_position(p: Option<usize>) -> int {
    match p {
        Some(i) => i as int,
        None => -1,
    }
}

/// The scan as the program holds it.
pub struct Positions {
    pub start: usize,
    pub name: Option<usize>,
    pub description: Option<usize>,
    pub avatar: Option<usize>,
    pub permissions: Option<usize>,
    pub visibility: Option<usize>,
    pub ttl: Option<usize>,
    pub rules: Option<usize>,
    pub membership: Option<usize>,
    pub role: Option<usize>,
}

impl View for Positions {
    type V = WindowScan;

    open spec fn view(&self) -> WindowScan {
        WindowScan {
            start: self.start as int,
            name: as_position(self.name),
            description: as_position(self.description),
            avatar: as_position(self.avatar),
            permissions: as_position(self.permissions),
            visibility: as_position(self.visibility),
            ttl: as_position(self.ttl),
            rules: as_position(self.rules),
            membership: as_position(self.membership),
            role: as_position(self.role),
        }
    }
}

/// Scans the window of events recorded after `since`, newest first.
pub fn scan_window(list: &ChatEventsList, min_visible_event_index: EventIndex, since: TimestampMillis, member: Option<
    UserId,
>) -> (r: Positions)
    requires
        list.wf(),
    ensures
        r@ == scan_from(
            list.events@,
            window_start(list.events@, list.floor(min_visible_event_index), list.events@.len() as int, since),
            member,
        ),
        list.floor(min_visible_event_index) <= r.start <= list.events@.len(),
{
    let floor = list.lower_bound(min_visible_event_index as u64);
    let n = list.events.len();
    let ghost s = list.events@;
    let mut r = Positions {
        start: n,
        name: None,
        description: None,
        avatar: None,
        permissions: None,
        visibility: None,
        ttl: None,
        rules: None,
        membership: None,
        role: None,
    };
    let mut i: usize = n;
    let mut done = false;
    while !done
        invariant
            s == list.events@,
            n == s.len(),
            floor <= n,
            floor <= i <= n,
            r.start == i,
            window_start(s, floor as int, n as int, since) == window_start(s, floor as int, i as int, since),
            done ==> window_start(s, floor as int, i as int, since) == i,
            r@ == scan_from(s, i as int, member),
        decreases i + (if done { 0int } else { 1int }),
    {
        if i <= floor || i == 0 {
            done = true;
        } else if list.events[i - 1].timestamp <= since {
            done = true;
        } else {
            i = i - 1;
            r.start = i;
            match &list.events[i].event {
                ChatEventInternal::GroupNameChanged { .. } => {
                    if r.name.is_none() {
                        r.name = Some(i);
                    }
                },
                ChatEventInternal::GroupDescriptionChanged { .. } => {
                    if r.description.is_none() {
                        r.description = Some(i);
                    }
                },
                ChatEventInternal::AvatarChanged { .. } => {
                    if r.avatar.is_none() {
                        r.avatar = Some(i);
                    }
                },
                ChatEventInternal::PermissionsChanged { .. } => {
                    if r.permissions.is_none() {
                        r.permissions = Some(i);
                    }
                },
                ChatEventInternal::GroupVisibilityChanged { .. } => {
                    if r.visibility.is_none() {
                        r.visibility = Some(i);
                    }
                },
                ChatEventInternal::EventsTimeToLiveUpdated { .. } => {
                    if r.ttl.is_none() {
                        r.ttl = Some(i);
                    }
                },
                ChatEventInternal::GroupRulesChanged { .. } => {
                    if r.rules.is_none() {
                        r.rules = Some(i);
                    }
                },
                ChatEventInternal::RoleChanged { user_ids, .. } => {
                    match member {
                        Some(u) => {
                            if r.role.is_none() && contains_id(user_ids, u) {
                                r.role = Some(i);
                            }
                        },
                        None => {},
                    }
                },
                ChatEventInternal::MembersAddedToPublicChannel { .. }
                | ChatEventInternal::ParticipantsAdded { .. }
                | ChatEventInternal::ParticipantsRemoved { .. }
                | ChatEventInternal::ParticipantJoined { .. }
                | ChatEventInternal::ParticipantLeft { .. }
                | ChatEventInternal::UsersBlocked { .. }
                | ChatEventInternal::UsersUnblocked { .. } => {
                    if r.membership.is_none() {
                        r.membership = Some(i);
                    }
                },
                _ => {},
            }
        }
    }
    r
}

/// The mention as shown to the member, if the message that it points at
/// can still be found above the member's lower bound.
pub open spec fn hydrated(log: ChatEvents, min_visible_event_index: EventIndex, mention: Mention) -> Option<
    HydratedMention,
> {
    let root = mention.thread_root_message_index;
    if log.log_readable(min_visible_event_index, root) {
        match log.log(root).visible_message_position(
            ChatEvents::bound_in(min_visible_event_index, root),
            mention.message_index,
        ) {
            Some(p) => Some(
                HydratedMention {
                    thread_root_message_index: root,
                    message_index: mention.message_index,
                    event_index: log.log(root).events@[p].index,
                    mentioned_at: mention.timestamp,
                },
            ),
            None => None,
        }
    } else {
        None
    }
}

/// The mentions made after `since` among the first `hi` of the index,
/// newest first, each as shown to the member; the walk stops at the first
/// mention that was not made after `since`.
pub open spec fn recent_mentions(
    mentions: Seq<Mention>,
    hi: int,
    since: TimestampMillis,
    log: ChatEvents,
    min_visible_event_index: EventIndex,
) -> Seq<HydratedMention>
    decreases hi,
{
    if hi <= 0 || hi > mentions.len() || mentions[hi - 1].timestamp <= since {
        Seq::empty()
    } else {
        let rest = recent_mentions(mentions, hi - 1, since, log, min_visible_event_index);
        match hydrated(log, min_visible_event_index, mentions[hi - 1]) {
            Some(h) => seq![h] + rest,
            None => rest,
        }
    }
}

/// The mentions of a member made after `since`, newest first.
pub fn most_recent_mentions(member: &GroupMemberInternal, since: TimestampMillis, log: &ChatEvents) -> (r: Vec<
    HydratedMention,
>)
    ensures
        r@ == recent_mentions(
            member.mentions@,
            member.mentions@.len() as int,
            since,
            *log,
            member.min_visible_event_index,
        ),
{
    let min = member.min_visible_event_index;
    let mut out: Vec<HydratedMention> = Vec::new();
    let mut i: usize = member.mentions.len();
    let ghost all = recent_mentions(member.mentions@, member.mentions@.len() as int, since, *log, min);
    assert(out@ + all == all);
    let mut done = false;
    while !done
        invariant
            i <= member.mentions@.len(),
            min == member.min_visible_event_index,
            all == out@ + recent_mentions(member.mentions@, i as int, since, *log, min),
            done ==> recent_mentions(member.mentions@, i as int, since, *log, min).len() == 0,
        decreases i + (if done { 0int } else { 1int }),
    {
        if i == 0 || member.mentions[i - 1].timestamp <= since {
            done = true;
        } else {
            i = i - 1;
            let mention = member.mentions[i];
            let ghost rest = recent_mentions(member.mentions@, i as int, since, *log, min);
            let ghost prev = out@;
            match log.events_reader(min, mention.thread_root_message_index) {
                Some(reader) => {
                    match reader.event_index(mention.message_index) {
                        Some(event_index) => {
                            let h = HydratedMention {
                                thread_root_message_index: mention.thread_root_message_index,
                                message_index: mention.message_index,
                                event_index,
                                mentioned_at: mention.timestamp,
                            };
                            out.push(h);
                            assert(prev + (seq![h] + rest) == prev.push(h) + rest);
                        },
                        None => {},
                    }
                },
                None => {},
            }
        }
    }
    assert(out@ + Seq::<HydratedMention>::empty() == out@);
    out
}

/// The entries of the update index made after `since` among the first `hi`,
/// newest first, at most `budget` of them; the walk stops at the first
/// entry that was not made after `since`.
pub open spec fn recent_updates(index: Seq<UpdatedEvent>, hi: int, since: TimestampMillis, budget: nat) -> Seq<
    (Option<MessageIndex>, EventIndex, TimestampMillis),
>
    decreases hi,
{
    if hi <= 0 || hi > index.len() || budget == 0 || index[hi - 1].timestamp <= since {
        Seq::empty()
    } else {
        seq![(index[hi - 1].thread_root_message_index, index[hi - 1].event_index, index[hi - 1].timestamp)]
            + recent_updates(index, hi - 1, since, (budget - 1) as nat)
    }
}

/// The events that the votes of one moment point at, in the order of the
/// votes; a vote on a message that cannot be found is passed over.
pub open spec fn vote_events(
    list: ChatEventsList,
    min_visible_event_index: EventIndex,
    message_indexes: Seq<MessageIndex>,
    hi: int,
    timestamp: TimestampMillis,
) -> Seq<(Option<MessageIndex>, EventIndex, TimestampMillis)>
    decreases hi,
{
    if hi <= 0 || hi > message_indexes.len() {
        Seq::empty()
    } else {
        let before = vote_events(list, min_visible_event_index, message_indexes, hi - 1, timestamp);
        match list.visible_message_position(min_visible_event_index, message_indexes[hi - 1]) {
            Some(p) => before.push((None, list.events@[p].index, timestamp)),
            None => before,
        }
    }
}

/// The events that the votes cast after `since` point at, latest moment
/// first; the walk stops at the first moment that was not after `since`.
/// A member's votes are held in the order of their times, so the walk
/// leaves out no vote cast after `since`: `lemma_vote_walk_is_complete`.
pub open spec fn vote_updates(
    list: ChatEventsList,
    min_visible_event_index: EventIndex,
    votes: Seq<ProposalVotes>,
    hi: int,
    since: TimestampMillis,
) -> Seq<(Option<MessageIndex>, EventIndex, TimestampMillis)>
    decreases hi,
{
    if hi <= 0 || hi > votes.len() || votes[hi - 1].timestamp <= since {
        Seq::empty()
    } else {
        vote_events(
            list,
            min_visible_event_index,
            votes[hi - 1].message_indexes@,
            votes[hi - 1].message_indexes@.len() as int,
            votes[hi - 1].timestamp,
        ) + vote_updates(list, min_visible_event_index, votes, hi - 1, since)
    }
}

/// Where the walk over votes held in the order of their times stops, every
/// vote before that place was cast no later than `since`.
pub proof fn lemma_vote_walk_is_complete(votes: Seq<ProposalVotes>, hi: int, since: TimestampMillis)
    requires
        votes_ascend(votes),
        0 < hi <= votes.len(),
        votes[hi - 1].timestamp <= since,
    ensures
        forall|j: int| 0 <= j < hi ==> (#[trigger] votes[j]).timestamp <= since,
{
    assert forall|j: int| 0 <= j < hi implies (#[trigger] votes[j]).timestamp <= since by {
        if j < hi - 1 {
            assert(votes[j].timestamp < votes[hi - 1].timestamp);
        }
    }
}

impl ChatEvents {
    /// The entries of the update index made after `since`, newest first,
    /// at most `max` of them.
    pub fn recently_updated_events(&self, since: TimestampMillis, max: usize) -> (r: Vec<
        (Option<MessageIndex>, EventIndex, TimestampMillis),
    >)
        ensures
            r@ == recent_updates(self.recently_updated@, self.recently_updated@.len() as int, since, max as nat),
    {
        let mut out: Vec<(Option<MessageIndex>, EventIndex, TimestampMillis)> = Vec::new();
        let mut i: usize = self.recently_updated.len();
        let mut budget: usize = max;
        let ghost all = recent_updates(self.recently_updated@, self.recently_updated@.len() as int, since, max as nat);
        assert(out@ + all == all);
        let mut done = false;
        while !done
            invariant
                i <= self.recently_updated@.len(),
                all == out@ + recent_updates(self.recently_updated@, i as int, since, budget as nat),
                done ==> recent_updates(self.recently_updated@, i as int, since, budget as nat).len() == 0,
            decreases i + (if done { 0int } else { 1int }),
        {
            if i == 0 || budget == 0 || self.recently_updated[i - 1].timestamp <= since {
                done = true;
            } else {
                i = i - 1;
                budget = budget - 1;
                let u = self.recently_updated[i];
                let ghost rest = recent_updates(self.recently_updated@, i as int, since, budget as nat);
                let ghost prev = out@;
                let entry = (u.thread_root_message_index, u.event_index, u.timestamp);
                out.push(entry);
                assert(prev + (seq![entry] + rest) == prev.push(entry) + rest);
            }
        }
        assert(out@ + Seq::<(Option<MessageIndex>, EventIndex, TimestampMillis)>::empty() == out@);
        out
    }
}

/// Appends to `out` the events that the votes cast after `since` point at.
pub fn append_vote_updates(
    out: &mut Vec<(Option<MessageIndex>, EventIndex, TimestampMillis)>,
    list: &ChatEventsList,
    min_visible_event_index: EventIndex,
    votes: &Vec<ProposalVotes>,
    since: TimestampMillis,
)
    ensures
        final(out)@ == old(out)@ + vote_updates(*list, min_visible_event_index, votes@, votes@.len() as int, since),
{
    let ghost start = out@;
    let ghost all = vote_updates(*list, min_visible_event_index, votes@, votes@.len() as int, since);
    let mut i: usize = votes.len();
    let mut done = false;
    while !done
        invariant
            i <= votes@.len(),
            start + all == out@ + vote_updates(*list, min_visible_event_index, votes@, i as int, since),
            done ==> vote_updates(*list, min_visible_event_index, votes@, i as int, since).len() == 0,
        decreases i + (if done { 0int } else { 1int }),
    {
        if i == 0 || votes[i - 1].timestamp <= since {
            done = true;
        } else {
            i = i - 1;
            let vote = &votes[i];
            let ghost rest = vote_updates(*list, min_visible_event_index, votes@, i as int, since);
            let ghost here = vote_events(
                *list,
                min_visible_event_index,
                vote.message_indexes@,
                vote.message_indexes@.len() as int,
                vote.timestamp,
            );
            let ghost base = out@;
            let mut k: usize = 0;
            assert(base + vote_events(*list, min_visible_event_index, vote.message_indexes@, 0, vote.timestamp)
                == base);
            while k < vote.message_indexes.len()
                invariant
                    k <= vote.message_indexes@.len(),
                    out@ == base + vote_events(
                        *list,
                        min_visible_event_index,
                        vote.message_indexes@,
                        k as int,
                        vote.timestamp,
                    ),
                decreases vote.message_indexes@.len() - k,
            {
                let ghost before = vote_events(
                    *list,
                    min_visible_event_index,
                    vote.message_indexes@,
                    k as int,
                    vote.timestamp,
                );
                match list.find_visible_message(min_visible_event_index, vote.message_indexes[k]) {
                    Some(p) => {
                        let entry = (None, list.events[p].index, vote.timestamp);
                        out.push(entry);
                        assert((base + before).push(entry) == base + before.push(entry));
                    },
                    None => {},
                }
                k += 1;
            }
            assert(out@ + rest == base + (here + rest));
        }
    }
    assert(out@ + Seq::<(Option<MessageIndex>, EventIndex, TimestampMillis)>::empty() == out@);
}

/// Position of the newest message that a reader with the given lower
/// bound may see, if there is one.
pub fn latest_message_position(list: &ChatEventsList, min_visible_event_index: EventIndex) -> (r: Option<usize>)
    requires
        list.wf(),
    ensures
        as_position(r) == newest_match(list.events@, list.floor(min_visible_event_index), holds_message()),
        r matches Some(p) ==> p < list.events@.len() && list.events@[p as int].is_message()
            && list.events@[p as int].index >= min_visible_event_index,
{
    let floor = list.lower_bound(min_visible_event_index as u64);
    let ghost s = list.events@;
    proof {
        lemma_floor(*list, min_visible_event_index);
    }
    let mut i: usize = list.events.len();
    let mut found: Option<usize> = None;
    while i > floor && found.is_none()
        invariant
            s == list.events@,
            floor <= i <= s.len(),
            as_position(found) == newest_match(s, i as int, holds_message()),
            found matches Some(p) ==> i <= p < s.len() && s[p as int].is_message(),
        decreases i,
    {
        i = i - 1;
        if list.events[i].holds_message() {
            found = Some(i);
        }
    }
    proof {
        if found is Some {
            lemma_newest_match_found(s, floor as int, i as int, holds_message());
        }
    }
    found
}

/// The newest message that the reader may see, if it was recorded or
/// updated after `since`.
pub open spec fn latest_message_if_updated(
    list: ChatEventsList,
    min_visible_event_index: EventIndex,
    since: TimestampMillis,
) -> Option<EventWrapperInternal> {
    let p = newest_match(list.events@, list.floor(min_visible_event_index), holds_message());
    if p >= 0 && (list.events@[p].timestamp > since || (list.events@[p].message().last_updated matches Some(t) && t
        > since)) {
        Some(list.events@[p])
    } else {
        None
    }
}

impl GroupChatCore {
    /// Whether a summary can be made for `user_id`: the group is public,
    /// or the user is a member or invited.
    pub open spec fn can_summarise(&self, user_id: Option<UserId>) -> bool {
        self.is_public || (user_id matches Some(u) && (self.members.contains(u) || self.invited_users.spec_contains(
            u,
        )))
    }

    /// The member that `user_id` is, if any.
    pub open spec fn member_id(&self, user_id: Option<UserId>) -> Option<UserId> {
        if user_id is Some && self.members.contains(user_id->Some_0) {
            user_id
        } else {
            None
        }
    }

    /// The lower bound that applies to a summary for `user_id`: a member's
    /// own bound, none for anyone else in a public group, and the bound of
    /// the invitation for an invited user.
    pub open spec fn summary_bound(&self, user_id: Option<UserId>) -> EventIndex {
        if self.member_id(user_id) is Some {
            self.members.member(user_id->Some_0).min_visible_event_index
        } else if self.is_public {
            0
        } else {
            self.invited_users.invitation(user_id->Some_0).min_visible_event_index
        }
    }

    /// What changed since `since`, as far as `user_id` can see. The group
    /// must be public, or the user a member or invited.
    pub fn summary_updates_from_events(&self, since: TimestampMillis, user_id: Option<UserId>) -> (r:
        SummaryUpdatesFromEvents)
        requires
            self.wf(),
            self.can_summarise(user_id),
        ensures
            summary_post(*self, since, user_id, r),
    {
        let member = match user_id {
            Some(u) => self.members.get(u),
            None => None,
        };
        let min_visible_event_index = match member {
            Some(m) => m.min_visible_event_index(),
            None => {
                if self.is_public {
                    0
                } else {
                    match user_id {
                        Some(u) => match self.invited_users.get(u) {
                            Some(invitation) => invitation.min_visible_event_index,
                            None => 0,
                        },
                        None => 0,
                    }
                }
            },
        };
        let list = &self.events.main;
        let latest_message = match latest_message_position(list, min_visible_event_index) {
            Some(p) => {
                let w = &list.events[p];
                let updated = match w.as_message() {
                    Some(m) => match m.last_updated {
                        Some(t) => t > since,
                        None => false,
                    },
                    None => false,
                };
                if w.timestamp > since || updated {
                    w.hydrate_message(user_id)
                } else {
                    None
                }
            },
            None => None,
        };
        let mentions = match member {
            Some(m) => most_recent_mentions(m, since, &self.events),
            None => Vec::new(),
        };
        let mut updated_events = self.events.recently_updated_events(since, MAX_UPDATED_EVENTS);
        match member {
            Some(m) => {
                append_vote_updates(&mut updated_events, list, min_visible_event_index, &m.proposal_votes, since);
            },
            None => {
                assert(updated_events@ + Seq::<(Option<MessageIndex>, EventIndex, TimestampMillis)>::empty()
                    == updated_events@);
            },
        }
        let scan = scan_window(
            list,
            min_visible_event_index,
            since,
            match member {
                Some(m) => Some(m.user_id),
                None => None,
            },
        );
        proof {
            let s = list.events@;
            let start = scan.start as int;
            lemma_newest_match(s, start, name_change());
            lemma_newest_match(s, start, description_change());
            lemma_newest_match(s, start, avatar_change());
            lemma_newest_match(s, start, permissions_change());
            lemma_newest_match(s, start, visibility_change());
            lemma_newest_match(s, start, ttl_change());
        }
        let name = match scan.name {
            Some(p) => match &list.events[p].event {
                ChatEventInternal::GroupNameChanged { new_name, .. } => Some(new_name.clone()),
                _ => None,
            },
            None => None,
        };
        let description = match scan.description {
            Some(p) => match &list.events[p].event {
                ChatEventInternal::GroupDescriptionChanged { new_description, .. } => Some(new_description.clone()),
                _ => None,
            },
            None => None,
        };
        let avatar_id = match scan.avatar {
            Some(p) => match &list.events[p].event {
                ChatEventInternal::AvatarChanged { new_avatar, .. } => OptionUpdate::from_update(*new_avatar),
                _ => OptionUpdate::NoChange,
            },
            None => OptionUpdate::NoChange,
        };
        let permissions = match scan.permissions {
            Some(p) => match &list.events[p].event {
                ChatEventInternal::PermissionsChanged { new_permissions, .. } => Some(*new_permissions),
                _ => None,
            },
            None => None,
        };
        let is_public = match scan.visibility {
            Some(p) => match &list.events[p].event {
                ChatEventInternal::GroupVisibilityChanged { now_public, .. } => Some(*now_public),
                _ => None,
            },
            None => None,
        };
        let events_ttl = match scan.ttl {
            Some(p) => match &list.events[p].event {
                ChatEventInternal::EventsTimeToLiveUpdated { new_ttl, .. } => OptionUpdate::from_update(*new_ttl),
                _ => OptionUpdate::NoChange,
            },
            None => OptionUpdate::NoChange,
        };
        let latest_event_index = if scan.start < list.events.len() {
            Some(list.events[list.events.len() - 1].index)
        } else {
            None
        };
        let date_last_pinned = match self.date_last_pinned {
            Some(t) => if t > since {
                Some(t)
            } else {
                None
            },
            None => None,
        };
        SummaryUpdatesFromEvents {
            name,
            description,
            subtype: if self.subtype.timestamp > since {
                OptionUpdate::from_update(self.subtype.value)
            } else {
                OptionUpdate::NoChange
            },
            avatar_id,
            latest_message,
            latest_event_index,
            members_changed: scan.membership.is_some(),
            role_changed: scan.role.is_some(),
            mentions,
            permissions,
            updated_events,
            is_public,
            date_last_pinned,
            events_ttl,
            gate: if self.gate.timestamp > since {
                OptionUpdate::from_update(self.gate.value)
            } else {
                OptionUpdate::NoChange
            },
            rules_changed: scan.rules.is_some(),
        }
    }
}

/// The answer to the question what changed since `since`.
///
/// The settings of the group (name, description, avatar, permissions,
/// visibility, time to live of events) are reported as the newest event
/// of the window set them; the flags say whether the window holds a
/// change of the roster, of the reader's own role, or of the rules. The
/// subtype, the time of the last pin and the access gate are included if
/// their own time stamp is after `since`.
pub open spec fn summary_post(
    group: GroupChatCore,
    since: TimestampMillis,
    user_id: Option<UserId>,
    r: SummaryUpdatesFromEvents,
) -> bool {
    let min = group.summary_bound(user_id);
    let list = group.events.main;
    let s = list.events@;
    let member = group.member_id(user_id);
    let scan = scan_from(s, window_start(s, list.floor(min), s.len() as int, since), member);
    &&& r.name == if scan.name >= 0 {
        match s[scan.name].event {
            ChatEventInternal::GroupNameChanged { new_name, .. } => Some(new_name),
            _ => None,
        }
    } else {
        None
    }
    &&& r.description == if scan.description >= 0 {
        match s[scan.description].event {
            ChatEventInternal::GroupDescriptionChanged { new_description, .. } => Some(new_description),
            _ => None,
        }
    } else {
        None
    }
    &&& r.avatar_id.spec_expand() == if scan.avatar >= 0 {
        match s[scan.avatar].event {
            ChatEventInternal::AvatarChanged { new_avatar, .. } => Some(new_avatar),
            _ => None,
        }
    } else {
        None
    }
    &&& r.permissions == if scan.permissions >= 0 {
        match s[scan.permissions].event {
            ChatEventInternal::PermissionsChanged { new_permissions, .. } => Some(new_permissions),
            _ => None,
        }
    } else {
        None
    }
    &&& r.is_public == if scan.visibility >= 0 {
        match s[scan.visibility].event {
            ChatEventInternal::GroupVisibilityChanged { now_public, .. } => Some(now_public),
            _ => None,
        }
    } else {
        None
    }
    &&& r.events_ttl.spec_expand() == if scan.ttl >= 0 {
        match s[scan.ttl].event {
            ChatEventInternal::EventsTimeToLiveUpdated { new_ttl, .. } => Some(new_ttl),
            _ => None,
        }
    } else {
        None
    }
    &&& r.latest_event_index == if scan.start < s.len() {
        Some(s.last().index)
    } else {
        None
    }
    &&& r.members_changed == (scan.membership >= 0)
    &&& r.role_changed == (scan.role >= 0)
    &&& r.rules_changed == (scan.rules >= 0)
    &&& match latest_message_if_updated(list, min, since) {
        Some(w) => r.latest_message matches Some(m) && m.shows(w, user_id),
        None => r.latest_message is None,
    }
    &&& r.mentions@ == match member {
        Some(u) => recent_mentions(
            group.members.member(u).mentions@,
            group.members.member(u).mentions@.len() as int,
            since,
            group.events,
            min,
        ),
        None => Seq::empty(),
    }
    &&& r.updated_events@ == recent_updates(
        group.events.recently_updated@,
        group.events.recently_updated@.len() as int,
        since,
        MAX_UPDATED_EVENTS as nat,
    ) + match member {
        Some(u) => vote_updates(
            list,
            min,
            group.members.member(u).proposal_votes@,
            group.members.member(u).proposal_votes@.len() as int,
            since,
        ),
        None => Seq::empty(),
    }
    &&& r.subtype.spec_expand() == if group.subtype.timestamp > since {
        Some(group.subtype.value)
    } else {
        None
    }
    &&& r.date_last_pinned == if group.date_last_pinned matches Some(t) && t > since {
        group.date_last_pinned
    } else {
        None
    }
    &&& r.gate.spec_expand() == if group.gate.timestamp > since {
        Some(group.gate.value)
    } else {
        None
    }
}

} // verus!
