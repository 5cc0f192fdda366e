//! Searching the messages of a group.

use vstd::prelude::*;
use crate::chat_events::ChatEvents;
use crate::events::EventWrapperInternal;
use crate::group::GroupChatCore;
use crate::message::{byte_len, text_len};
use crate::results::{MessageMatch, SearchResults};
use crate::seq_util::contains_id;
use crate::text::{has_substring, lowercase, split_whitespace, str_contains, to_lowercase, whitespace_split};
use crate::types::{EventIndex, TimestampMillis, UserId};

verus! {

pub const MIN_TERM_LENGTH: u8 = 3;

pub const MAX_TERM_LENGTH: u8 = 30;

pub const MAX_USERS: u8 = 5;

pub const DAY_IN_MS: u64 = 86_400_000;

pub const WEEK_IN_MS: u64 = 604_800_000;

pub const MONTH_IN_MS: u64 = 2_592_000_000;

/// What to look for: words that must all occur, and, if any are named,
/// the users by whom the message must be.
#[derive(Debug)]
pub struct Query {
    pub tokens: Vec<String>,
    pub users: Vec<UserId>,
}

/// The words of a search term: its parts between white space, in lower case.
pub open spec fn words_of(term: Seq<char>) -> Seq<Seq<char>> {
    whitespace_split(lowercase(term))
}

/// The words that a vector of strings stands for.
pub open spec fn words(tokens: Seq<String>) -> Seq<Seq<char>> {
    Seq::new(tokens.len(), |i: int| tokens[i]@)
}

/// Whether every word occurs in the text, whatever the case of the text.
pub open spec fn text_has_words(text: Seq<char>, words: Seq<Seq<char>>) -> bool {
    forall|i: int| 0 <= i < words.len() ==> has_substring(lowercase(text), #[trigger] words[i])
}

/// Whether an event is a hit: it holds a message that is not deleted, is
/// by one of the users named (if any are), and shows a text in which
/// every word occurs.
pub open spec fn is_hit(w: EventWrapperInternal, words: Seq<Seq<char>>, users: Seq<UserId>) -> bool {
    &&& w.is_message()
    &&& w.message().deleted_by is None
    &&& users.len() == 0 || users.contains(w.message().sender)
    &&& w.message().content.spec_text() matches Some(text)
    &&& text_has_words(text, words)
}

/// How recent a message is, as a score: 4 within a day, 3 within a week,
/// 2 within thirty days, 1 beyond.
pub open spec fn recency_score(now: TimestampMillis, timestamp: TimestampMillis) -> u32 {
    let age = if now >= timestamp {
        now - timestamp
    } else {
        0
    };
    if age < DAY_IN_MS {
        4
    } else if age < WEEK_IN_MS {
        3
    } else if age < MONTH_IN_MS {
        2
    } else {
        1
    }
}

/// The record of a hit.
pub open spec fn match_of(w: EventWrapperInternal, now: TimestampMillis) -> MessageMatch {
    MessageMatch {
        message_index: w.message().message_index,
        sender: w.message().sender,
        score: recency_score(now, w.timestamp),
    }
}

/// Whether `a` ranks before `b`: by the higher score, and among equal
/// scores by the higher message index.
pub open spec fn ranks_before(a: MessageMatch, b: MessageMatch) -> bool {
    a.score > b.score || (a.score == b.score && a.message_index > b.message_index)
}

/// Each record ranks before the next.
pub open spec fn ranked(out: Seq<MessageMatch>) -> bool {
    forall|i: int, j: int| 0 <= i < j < out.len() ==> ranks_before(#[trigger] out[i], #[trigger] out[j])
}

/// Whether every record of `out` ranks before `m`.
pub open spec fn all_rank_before(out: Seq<MessageMatch>, m: MessageMatch) -> bool {
    forall|k: int| 0 <= k < out.len() ==> ranks_before(#[trigger] out[k], m)
}

/// Whether `m` is the record of a hit among the events at positions `lo`
/// to `hi - 1`.
pub open spec fn records_hit(
    m: MessageMatch,
    s: Seq<EventWrapperInternal>,
    lo: int,
    hi: int,
    words: Seq<Seq<char>>,
    users: Seq<UserId>,
    now: TimestampMillis,
) -> bool {
    exists|p: int| lo <= p < hi && is_hit(#[trigger] s[p], words, users) && m == match_of(s[p], now)
}

/// Whether `out` holds the best hits among the events at positions `lo`
/// to `hi - 1`: at most `max` records, each the record of a hit, in
/// ranking order; a hit that is missing ranks after all of them, and is
/// missing only because the list is full.
pub open spec fn best_hits(
    s: Seq<EventWrapperInternal>,
    lo: int,
    hi: int,
    words: Seq<Seq<char>>,
    users: Seq<UserId>,
    now: TimestampMillis,
    max: nat,
    out: Seq<MessageMatch>,
) -> bool {
    &&& out.len() <= max
    &&& ranked(out)
    &&& forall|k: int| 0 <= k < out.len() ==> records_hit(#[trigger] out[k], s, lo, hi, words, users, now)
    &&& forall|p: int|
        lo <= p < hi && is_hit(#[trigger] s[p], words, users) ==> out.contains(match_of(s[p], now)) || (out.len()
            == max && all_rank_before(out, match_of(s[p], now)))
}

/// How recent a message is, as a score.
fn score_of(now: TimestampMillis, timestamp: TimestampMillis) -> (r: u32)
    ensures
        r == recency_score(now, timestamp),
{
    let age = if now >= timestamp {
        now - timestamp
    } else {
        0
    };
    if age < DAY_IN_MS {
        4
    } else if age < WEEK_IN_MS {
        3
    } else if age < MONTH_IN_MS {
        2
    } else {
        1
    }
}

/// Whether every word occurs in the text, whatever the case of the text.
fn text_matches(text: &String, tokens: &Vec<String>) -> (r: bool)
    ensures
        r == text_has_words(text@, words(tokens@)),
{
    let lowered = to_lowercase(text.as_str());
    let mut i: usize = 0;
    while i < tokens.len()
        invariant
            i <= tokens@.len(),
            lowered@ == lowercase(text@),
            forall|j: int| 0 <= j < i ==> has_substring(lowercase(text@), #[trigger] words(tokens@)[j]),
        decreases tokens@.len() - i,
    {
        if !str_contains(lowered.as_str(), tokens[i].as_str()) {
            assert(!has_substring(lowercase(text@), words(tokens@)[i as int]));
            return false;
        }
        i += 1;
    }
    true
}

impl Query {
    /// The query for a search term: its words, and no users.
    pub fn parse(term: &String) -> (r: Query)
        ensures
            words(r.tokens@) == words_of(term@),
            r.users@.len() == 0,
    {
        let lowered = to_lowercase(term.as_str());
        let tokens = split_whitespace(lowered.as_str());
        assert(words(tokens@) =~= words_of(term@));
        Query { tokens, users: Vec::new() }
    }

    /// Whether an event is a hit for the query.
    pub fn hits(&self, w: &EventWrapperInternal) -> (r: bool)
        ensures
            r == is_hit(*w, words(self.tokens@), self.users@),
    {
        match w.as_message() {
            Some(m) => {
                if m.deleted_by.is_some() {
                    return false;
                }
                if self.users.len() > 0 && !contains_id(&self.users, m.sender) {
                    return false;
                }
                match m.content.text() {
                    Some(text) => text_matches(text, &self.tokens),
                    None => false,
                }
            },
            None => false,
        }
    }
}

/// Puts a record into a ranked list at its place and drops the record
/// that ranks last if the list grows beyond `max`.
pub fn insert_ranked(out: &mut Vec<MessageMatch>, m: MessageMatch, max: usize)
    requires
        ranked(old(out)@),
        old(out)@.len() <= max,
        forall|k: int| 0 <= k < old(out)@.len() ==> (#[trigger] old(out)@[k]).message_index != m.message_index,
    ensures
        ranked(final(out)@),
        final(out)@.len() <= max,
        forall|x: MessageMatch| final(out)@.contains(x) ==> old(out)@.contains(x) || x == m,
        forall|x: MessageMatch|
            old(out)@.contains(x) || x == m ==> final(out)@.contains(x) || (final(out)@.len() == max
                && all_rank_before(final(out)@, x)),
        forall|y: MessageMatch|
            old(out)@.len() == max && all_rank_before(old(out)@, y) ==> final(out)@.len() == max
                && all_rank_before(final(out)@, y),
{
    let ghost before = out@;
    let mut i: usize = 0;
    while i < out.len() && !(m.score > out[i].score || (m.score == out[i].score && m.message_index
        > out[i].message_index))
        invariant
            i <= out@.len(),
            out@ == before,
            forall|k: int| 0 <= k < before.len() ==> (#[trigger] before[k]).message_index != m.message_index,
            forall|k: int| 0 <= k < i ==> ranks_before(#[trigger] before[k], m),
        decreases out@.len() - i,
    {
        i += 1;
    }
    out.insert(i, m);
    let ghost inserted = out@;
    proof {
        assert(inserted == before.insert(i as int, m));
        assert forall|a: int, b: int| 0 <= a < b < inserted.len() implies ranks_before(
            #[trigger] inserted[a],
            #[trigger] inserted[b],
        ) by {
            let a0 = if a < i { a } else { a - 1 };
            let b0 = if b < i { b } else { b - 1 };
            if a != i {
                assert(inserted[a] == before[a0]);
            }
            if b != i {
                assert(inserted[b] == before[b0]);
            }
            if a == i {
                assert(ranks_before(m, before[i as int]));
                if b0 > i {
                    assert(ranks_before(before[i as int], before[b0]));
                }
            }
        }
        assert forall|x: MessageMatch| inserted.contains(x) <==> before.contains(x) || x == m by {
            if before.contains(x) {
                let k = choose|k: int| 0 <= k < before.len() && before[k] == x;
                let k1 = if k < i { k } else { k + 1 };
                assert(inserted[k1] == x);
            }
            if x == m {
                assert(inserted[i as int] == m);
            }
            if inserted.contains(x) {
                let k = choose|k: int| 0 <= k < inserted.len() && inserted[k] == x;
                if k < i {
                    assert(before[k] == x);
                } else if k > i {
                    assert(before[k - 1] == x);
                }
            }
        }
    }
    if out.len() > max {
        out.pop();
        proof {
            let last = inserted.last();
            assert(out@ == inserted.drop_last());
            assert forall|x: MessageMatch| inserted.contains(x) implies out@.contains(x) || (out@.len() == max
                && all_rank_before(out@, x)) by {
                let k = choose|k: int| 0 <= k < inserted.len() && inserted[k] == x;
                if k < inserted.len() - 1 {
                    assert(out@[k] == x);
                } else {
                    assert forall|j: int| 0 <= j < out@.len() implies ranks_before(#[trigger] out@[j], x) by {
                        assert(out@[j] == inserted[j]);
                    }
                }
            }
            assert forall|y: MessageMatch| before.len() == max && all_rank_before(before, y) implies out@.len()
                == max && all_rank_before(out@, y) by {
                assert forall|j: int| 0 <= j < out@.len() implies ranks_before(#[trigger] out@[j], y) by {
                    assert(out@[j] == inserted[j]);
                    if j == i {
                        assert(ranks_before(inserted[j], inserted[inserted.len() - 1]));
                        let b0 = inserted.len() - 2;
                        assert(inserted[inserted.len() - 1] == before[b0]);
                        assert(ranks_before(before[b0], y));
                    } else {
                        let j0 = if j < i { j } else { j - 1 };
                        assert(inserted[j] == before[j0]);
                        assert(ranks_before(before[j0], y));
                    }
                }
            }
            assert forall|x: MessageMatch| out@.contains(x) implies inserted.contains(x) by {
                let k = choose|k: int| 0 <= k < out@.len() && out@[k] == x;
                assert(inserted[k] == x);
            }
        }
    } else {
        proof {
            assert forall|y: MessageMatch| before.len() == max && all_rank_before(before, y) implies out@.len()
                == max && all_rank_before(out@, y) by {}
        }
    }
}

impl ChatEvents {
    /// The best hits for a query among the top-level messages that a
    /// reader with the given lower bound may see, at most `max_results` of
    /// them, best first.
    pub fn search_messages(
        &self,
        now: TimestampMillis,
        min_visible_event_index: EventIndex,
        query: &Query,
        max_results: u8,
    ) -> (r: Vec<MessageMatch>)
        requires
            self.wf(),
        ensures
            best_hits(
                self.main.events@,
                self.main.floor(min_visible_event_index),
                self.main.events@.len() as int,
                words(query.tokens@),
                query.users@,
                now,
                max_results as nat,
                r@,
            ),
    {
        let list = &self.main;
        let floor = list.lower_bound(min_visible_event_index as u64);
        let ghost s = list.events@;
        let ghost ws = words(query.tokens@);
        let ghost users = query.users@;
        let max = max_results as usize;
        let mut out: Vec<MessageMatch> = Vec::new();
        let mut p: usize = floor;
        while p < list.events.len()
            invariant
                s == list.events@,
                list.wf(),
                ws == words(query.tokens@),
                users == query.users@,
                max == max_results,
                floor <= p <= s.len(),
                best_hits(s, floor as int, p as int, ws, users, now, max as nat, out@),
                forall|k: int, q: int|
                    0 <= k < out@.len() && p <= q < s.len() && s[q].is_message() ==> (#[trigger] out@[k]).message_index
                        < (#[trigger] s[q]).message().message_index,
            decreases s.len() - p,
        {
            let w = &list.events[p];
            let ghost prev = out@;
            if query.hits(w) {
                let m = match w.as_message() {
                    Some(message) => MessageMatch {
                        message_index: message.message_index,
                        sender: message.sender,
                        score: score_of(now, w.timestamp),
                    },
                    None => vstd::pervasive::unreached(),
                };
                assert(m == match_of(s[p as int], now));
                insert_ranked(&mut out, m, max);
                proof {
                    assert forall|k: int| 0 <= k < out@.len() implies records_hit(
                        #[trigger] out@[k],
                        s,
                        floor as int,
                        p + 1,
                        ws,
                        users,
                        now,
                    ) by {
                        assert(out@.contains(out@[k]));
                        if out@[k] == m {
                            assert(is_hit(s[p as int], ws, users));
                        } else {
                            assert(prev.contains(out@[k]));
                            let k0 = choose|k0: int| 0 <= k0 < prev.len() && prev[k0] == out@[k];
                            assert(records_hit(prev[k0], s, floor as int, p as int, ws, users, now));
                            let q = choose|q: int|
                                floor <= q < p && is_hit(#[trigger] s[q], ws, users) && prev[k0] == match_of(
                                    s[q],
                                    now,
                                );
                            assert(is_hit(s[q], ws, users));
                        }
                    }
                    assert forall|q: int| floor <= q < p + 1 && is_hit(#[trigger] s[q], ws, users) implies out@.contains(
                        match_of(s[q], now),
                    ) || (out@.len() == max && all_rank_before(out@, match_of(s[q], now))) by {
                        let x = match_of(s[q], now);
                        if q < p {
                            if prev.contains(x) {
                            } else {
                                assert(prev.len() == max && all_rank_before(prev, x));
                            }
                        }
                    }
                    assert forall|k: int, q: int|
                        0 <= k < out@.len() && p + 1 <= q < s.len() && s[q].is_message() implies (#[trigger] out@[k]).message_index
                        < (#[trigger] s[q]).message().message_index by {
                        assert(out@.contains(out@[k]));
                        if out@[k] == m {
                        } else {
                            let k0 = choose|k0: int| 0 <= k0 < prev.len() && prev[k0] == out@[k];
                            assert(prev[k0].message_index < s[q].message().message_index);
                        }
                    }
                }
            }
            p += 1;
        }
        out
    }
}

/// Why a search is refused, if it is; otherwise the member's lower bound.
pub enum SearchVerdict {
    TermTooShort,
    TermTooLong,
    TooManyUsers,
    UserNotInGroup,
    Proceed(EventIndex),
}

impl GroupChatCore {
    /// The verdict on a search: the term must have between three and
    /// thirty bytes (it may be shorter if users are named), at most five
    /// users may be named, and the caller must be a member.
    pub open spec fn search_verdict(&self, user_id: UserId, term: Seq<char>, users: Seq<UserId>) -> SearchVerdict {
        if users.len() == 0 && byte_len(term) < MIN_TERM_LENGTH {
            SearchVerdict::TermTooShort
        } else if byte_len(term) > MAX_TERM_LENGTH {
            SearchVerdict::TermTooLong
        } else if users.len() > MAX_USERS {
            SearchVerdict::TooManyUsers
        } else if !self.members.contains(user_id) {
            SearchVerdict::UserNotInGroup
        } else {
            SearchVerdict::Proceed(self.members.member(user_id).min_visible_event_index)
        }
    }

    /// Searches the top-level messages that the caller may see.
    pub fn search(
        &self,
        user_id: UserId,
        search_term: String,
        users: Option<Vec<UserId>>,
        max_results: u8,
        now: TimestampMillis,
    ) -> (r: SearchResults)
        requires
            self.wf(),
        ensures
            match self.search_verdict(
                user_id,
                search_term@,
                match users {
                    Some(u) => u@,
                    None => Seq::empty(),
                },
            ) {
                SearchVerdict::TermTooShort => r matches SearchResults::TermTooShort(n) && n == MIN_TERM_LENGTH,
                SearchVerdict::TermTooLong => r matches SearchResults::TermTooLong(n) && n == MAX_TERM_LENGTH,
                SearchVerdict::TooManyUsers => r matches SearchResults::TooManyUsers(n) && n == MAX_USERS,
                SearchVerdict::UserNotInGroup => r is UserNotInGroup,
                SearchVerdict::Proceed(min) => r matches SearchResults::Success(matches) && best_hits(
                    self.events.main.events@,
                    self.events.main.floor(min),
                    self.events.main.events@.len() as int,
                    words_of(search_term@),
                    match users {
                        Some(u) => u@,
                        None => Seq::empty(),
                    },
                    now,
                    max_results as nat,
                    matches@,
                ),
            },
    {
        let term_length = text_len(&search_term);
        let users = match users {
            Some(u) => u,
            None => Vec::new(),
        };
        if users.len() == 0 && term_length < MIN_TERM_LENGTH as usize {
            return SearchResults::TermTooShort(MIN_TERM_LENGTH);
        }
        if term_length > MAX_TERM_LENGTH as usize {
            return SearchResults::TermTooLong(MAX_TERM_LENGTH);
        }
        if users.len() > MAX_USERS as usize {
            return SearchResults::TooManyUsers(MAX_USERS);
        }
        let min = match self.members.get(user_id) {
            Some(member) => member.min_visible_event_index(),
            None => {
                return SearchResults::UserNotInGroup;
            },
        };
        let mut query = Query::parse(&search_term);
        query.users = users;
        SearchResults::Success(self.events.search_messages(now, min, &query, max_results))
    }
}

} // verus!
