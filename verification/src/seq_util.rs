//! Searching sequences: the first element that meets a condition, and
//! membership tests on vectors of identifiers.

use vstd::prelude::*;
use std::collections::HashSet;

verus! {

broadcast use vstd::std_specs::hash::group_hash_axioms;

/// Position of the first element of `s` that satisfies `p`, or the length of
/// `s` if none does.
pub open spec fn first_match<T>(s: Seq<T>, p: spec_fn(T) -> bool) -> int
    decreases s.len(),
{
    if s.len() == 0 {
        0
    } else if p(s[0]) {
        0
    } else {
        1 + first_match(s.drop_first(), p)
    }
}

/// `first_match` lies within bounds, nothing before it satisfies `p`, and
/// the element at it does.
pub proof fn lemma_first_match<T>(s: Seq<T>, p: spec_fn(T) -> bool)
    ensures
        0 <= first_match(s, p) <= s.len(),
        forall|i: int| 0 <= i < first_match(s, p) ==> !p(#[trigger] s[i]),
        first_match(s, p) < s.len() ==> p(s[first_match(s, p)]),
    decreases s.len(),
{
    if s.len() > 0 && !p(s[0]) {
        let rest = s.drop_first();
        lemma_first_match(rest, p);
        assert forall|i: int| 0 <= i < first_match(s, p) implies !p(#[trigger] s[i]) by {
            if i > 0 {
                assert(s[i] == rest[i - 1]);
            }
        }
    }
}

/// A position whose element satisfies `p`, with none before it that does,
/// is the first match.
pub proof fn lemma_first_match_at<T>(s: Seq<T>, p: spec_fn(T) -> bool, k: int)
    requires
        0 <= k < s.len(),
        p(s[k]),
        forall|i: int| 0 <= i < k ==> !p(#[trigger] s[i]),
    ensures
        first_match(s, p) == k,
{
    lemma_first_match(s, p);
    let f = first_match(s, p);
    if f < k {
        assert(!p(s[f]));
    } else if f > k {
        assert(!p(s[k]));
    }
}

/// Where nothing satisfies `p`, the first match is the length.
pub proof fn lemma_first_match_none<T>(s: Seq<T>, p: spec_fn(T) -> bool)
    requires
        forall|i: int| 0 <= i < s.len() ==> !p(#[trigger] s[i]),
    ensures
        first_match(s, p) == s.len(),
{
    lemma_first_match(s, p);
    let f = first_match(s, p);
    if f < s.len() {
        assert(!p(s[f]));
    }
}

/// Two sequences of one length on which `p` holds at the same positions
/// have their first match at the same position.
pub proof fn lemma_first_match_same<T>(before: Seq<T>, after: Seq<T>, p: spec_fn(T) -> bool)
    requires
        after.len() == before.len(),
        forall|i: int| 0 <= i < before.len() ==> p(#[trigger] after[i]) == p(before[i]),
    ensures
        first_match(after, p) == first_match(before, p),
{
    lemma_first_match(before, p);
    let k = first_match(before, p);
    if k < before.len() {
        assert forall|i: int| 0 <= i < k implies !p(#[trigger] after[i]) by {
            assert(!p(before[i]));
        }
        assert(p(after[k]) == p(before[k]));
        lemma_first_match_at(after, p, k);
    } else {
        assert forall|i: int| 0 <= i < after.len() implies !p(#[trigger] after[i]) by {
            assert(!p(before[i]));
        }
        lemma_first_match_none(after, p);
    }
}

/// Appending to a sequence leaves the first match where it was, if there
/// was one; if there was none, the first match is the new element or none.
pub proof fn lemma_first_match_push<T>(s: Seq<T>, x: T, p: spec_fn(T) -> bool)
    ensures
        first_match(s, p) < s.len() ==> first_match(s.push(x), p) == first_match(s, p),
        first_match(s, p) >= s.len() && p(x) ==> first_match(s.push(x), p) == s.len(),
        first_match(s, p) >= s.len() && !p(x) ==> first_match(s.push(x), p) == s.len() + 1,
{
    lemma_first_match(s, p);
    let t = s.push(x);
    let k = first_match(s, p);
    if k < s.len() {
        assert forall|i: int| 0 <= i < k implies !p(#[trigger] t[i]) by {
            assert(!p(s[i]));
        }
        assert(t[k] == s[k]);
        lemma_first_match_at(t, p, k);
    } else if p(x) {
        assert forall|i: int| 0 <= i < s.len() implies !p(#[trigger] t[i]) by {
            assert(!p(s[i]));
        }
        assert(t[s.len() as int] == x);
        lemma_first_match_at(t, p, s.len() as int);
    } else {
        assert forall|i: int| 0 <= i < t.len() implies !p(#[trigger] t[i]) by {
            if i < s.len() {
                assert(!p(s[i]));
            }
        }
        lemma_first_match_none(t, p);
    }
}

/// Position of the last element of `s` at or after position `lo` that
/// satisfies `p`, or -1 if there is none.
pub open spec fn newest_match<T>(s: Seq<T>, lo: int, p: spec_fn(T) -> bool) -> int
    decreases s.len() - lo,
{
    if lo < 0 || lo >= s.len() {
        -1
    } else {
        let later = newest_match(s, lo + 1, p);
        if later >= 0 {
            later
        } else if p(s[lo]) {
            lo
        } else {
            -1
        }
    }
}

/// `newest_match` is -1 exactly if nothing from `lo` on satisfies `p`;
/// otherwise it is a position from `lo` on whose element satisfies `p`,
/// and nothing after it does.
pub proof fn lemma_newest_match<T>(s: Seq<T>, lo: int, p: spec_fn(T) -> bool)
    requires
        0 <= lo,
    ensures
        newest_match(s, lo, p) == -1 || (lo <= newest_match(s, lo, p) < s.len() && p(s[newest_match(s, lo, p)])),
        forall|i: int| lo <= i < s.len() && i > newest_match(s, lo, p) ==> !p(#[trigger] s[i]),
    decreases s.len() - lo,
{
    if lo < s.len() {
        lemma_newest_match(s, lo + 1, p);
    }
}

/// A match found from position `i` on is the newest match from any
/// earlier position on as well.
pub proof fn lemma_newest_match_found<T>(s: Seq<T>, lo: int, i: int, p: spec_fn(T) -> bool)
    requires
        0 <= lo <= i,
        newest_match(s, i, p) >= 0,
    ensures
        newest_match(s, lo, p) == newest_match(s, i, p),
    decreases i - lo,
{
    if lo < i {
        lemma_newest_match_found(s, lo + 1, i, p);
        lemma_newest_match(s, i, p);
    }
}

/// The elements equal to `x`.
pub open spec fn equal_to(x: u64) -> spec_fn(u64) -> bool {
    |y: u64| y == x
}

/// Position of the first occurrence of `x` in `s`, or the length of `s`
/// if `x` does not occur.
pub open spec fn first_index_of(s: Seq<u64>, x: u64) -> int {
    first_match(s, equal_to(x))
}

/// Position of the first occurrence of `x` in `v`, if it occurs.
pub fn position_of(v: &Vec<u64>, x: u64) -> (r: Option<usize>)
    ensures
        match r {
            Some(i) => i < v@.len() && v@[i as int] == x && i == first_index_of(v@, x) && forall|j: int|
                0 <= j < i ==> v@[j] != x,
            None => !v@.contains(x) && first_index_of(v@, x) == v@.len(),
        },
{
    let ghost p = equal_to(x);
    let mut i: usize = 0;
    while i < v.len()
        invariant
            0 <= i <= v@.len(),
            p == equal_to(x),
            forall|j: int| 0 <= j < i ==> v@[j] != x,
        decreases v@.len() - i,
    {
        if v[i] == x {
            proof {
                assert forall|j: int| 0 <= j < i implies !p(#[trigger] v@[j]) by {}
                lemma_first_match_at(v@, p, i as int);
            }
            return Some(i);
        }
        i += 1;
    }
    proof {
        assert forall|j: int| 0 <= j < v@.len() implies !p(#[trigger] v@[j]) by {}
        lemma_first_match_none(v@, p);
    }
    None
}

/// Whether `x` occurs in `v`.
pub fn contains_id(v: &Vec<u64>, x: u64) -> (r: bool)
    ensures
        r == v@.contains(x),
{
    position_of(v, x).is_some()
}

/// Whether `x` occurs in `v`.
pub fn contains_index(v: &Vec<u32>, x: u32) -> (r: bool)
    ensures
        r == v@.contains(x),
{
    let mut i: usize = 0;
    while i < v.len()
        invariant
            0 <= i <= v@.len(),
            forall|j: int| 0 <= j < i ==> v@[j] != x,
        decreases v@.len() - i,
    {
        if v[i] == x {
            return true;
        }
        i += 1;
    }
    false
}

/// The sequence without any occurrence of `x`; the rest keeps its order.
pub open spec fn without(s: Seq<u32>, x: u32) -> Seq<u32>
    decreases s.len(),
{
    if s.len() == 0 {
        s
    } else if s.last() == x {
        without(s.drop_last(), x)
    } else {
        without(s.drop_last(), x).push(s.last())
    }
}

/// `without(s, x)` holds exactly the elements of `s` other than `x`.
pub proof fn lemma_without(s: Seq<u32>, x: u32)
    ensures
        forall|y: u32| #[trigger] without(s, x).contains(y) <==> s.contains(y) && y != x,
        !s.contains(x) ==> without(s, x) == s,
    decreases s.len(),
{
    if s.len() > 0 {
        let rest = s.drop_last();
        lemma_without(rest, x);
        assert(s == rest.push(s.last()));
        crate::thread_summary::lemma_push_contains(rest, s.last());
        crate::thread_summary::lemma_push_contains(without(rest, x), s.last());
        assert forall|y: u32| #[trigger] without(s, x).contains(y) <==> s.contains(y) && y != x by {
            assert(rest.push(s.last()).contains(y) <==> rest.contains(y) || y == s.last());
            if s.last() != x {
                assert(without(rest, x).push(s.last()).contains(y) <==> without(rest, x).contains(y) || y
                    == s.last());
            }
        }
        if !s.contains(x) {
            assert(s.last() != x) by {
                if s.last() == x {
                    assert(s[s.len() - 1] == x);
                }
            }
            assert(!rest.contains(x)) by {
                if rest.contains(x) {
                    let k = choose|k: int| 0 <= k < rest.len() && rest[k] == x;
                    assert(s[k] == x);
                }
            }
        }
    }
}

/// Takes every occurrence of `x` out of `v`.
pub fn remove_all(v: &mut Vec<u32>, x: u32)
    ensures
        final(v)@ == without(old(v)@, x),
{
    let mut out: Vec<u32> = Vec::new();
    let mut i: usize = 0;
    while i < v.len()
        invariant
            i <= v@.len(),
            v@ == old(v)@,
            out@ == without(v@.take(i as int), x),
        decreases v@.len() - i,
    {
        assert(v@.take(i as int + 1).drop_last() == v@.take(i as int));
        if v[i] != x {
            out.push(v[i]);
        }
        i += 1;
    }
    assert(v@.take(v@.len() as int) == v@);
    *v = out;
}

/// The set of the identifiers that a vector holds.
pub fn set_of_ids(v: &Vec<u64>) -> (r: HashSet<u64>)
    ensures
        r@ == v@.to_set(),
{
    let mut out: HashSet<u64> = HashSet::new();
    let mut i: usize = 0;
    while i < v.len()
        invariant
            0 <= i <= v@.len(),
            forall|x: u64| out@.contains(x) <==> exists|j: int| 0 <= j < i && v@[j] == x,
        decreases v@.len() - i,
    {
        let ghost before = out@;
        out.insert(v[i]);
        assert forall|x: u64| out@.contains(x) <==> exists|j: int| 0 <= j < i + 1 && v@[j] == x by {
            if x == v@[i as int] {
                assert(v@[i as int] == x);
            } else if before.contains(x) {
                let j = choose|j: int| 0 <= j < i && v@[j] == x;
                assert(0 <= j < i + 1 && v@[j] == x);
            }
        }
        i += 1;
    }
    assert(out@ =~= v@.to_set());
    out
}

/// A copy of a vector of identifiers.
pub fn copy_ids(v: &Vec<u64>) -> (r: Vec<u64>)
    ensures
        r@ == v@,
{
    let mut out: Vec<u64> = Vec::new();
    let mut i: usize = 0;
    while i < v.len()
        invariant
            0 <= i <= v@.len(),
            out@ == v@.take(i as int),
        decreases v@.len() - i,
    {
        out.push(v[i]);
        assert(v@.take(i as int).push(v@[i as int]) == v@.take(i as int + 1));
        i += 1;
    }
    assert(v@.take(v@.len() as int) == v@);
    out
}

} // verus!
