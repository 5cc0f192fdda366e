//! A set of message indexes kept as a strictly ascending vector.

use vstd::prelude::*;

verus! {

/// Each element is smaller than the next: the sequence is sorted and holds
/// nothing twice.
pub open spec fn strictly_ascending(s: Seq<u32>) -> bool {
    forall|i: int, j: int| 0 <= i < j < s.len() ==> s[i] < s[j]
}

/// Whether the vector is strictly ascending.
pub fn is_strictly_ascending(v: &Vec<u32>) -> (r: bool)
    ensures
        r == strictly_ascending(v@),
{
    let mut i: usize = 1;
    while i < v.len()
        invariant
            1 <= i,
            forall|a: int, b: int| 0 <= a < b < i && b < v@.len() ==> v@[a] < v@[b],
        decreases v@.len() - i,
    {
        if v[i - 1] >= v[i] {
            assert(!(v@[i - 1] < v@[i as int]));
            return false;
        }
        assert forall|a: int, b: int| 0 <= a < b < i + 1 && b < v@.len() implies v@[a] < v@[b] by {
            if b == i && a < i - 1 {
                assert(v@[a] < v@[i - 1]);
            }
        }
        i += 1;
    }
    true
}

/// Looks for `x` by bisection. `Ok` holds the position of `x`; `Err` holds
/// the position at which `x` would have to be inserted.
pub fn search(v: &Vec<u32>, x: u32) -> (r: Result<usize, usize>)
    requires
        strictly_ascending(v@),
    ensures
        match r {
            Ok(i) => i < v@.len() && v@[i as int] == x,
            Err(i) => {
                &&& i <= v@.len()
                &&& !v@.contains(x)
                &&& forall|j: int| 0 <= j < i ==> v@[j] < x
                &&& forall|j: int| i <= j < v@.len() ==> v@[j] > x
            },
        },
{
    let mut lo: usize = 0;
    let mut hi: usize = v.len();
    while lo < hi
        invariant
            0 <= lo <= hi <= v@.len(),
            strictly_ascending(v@),
            forall|j: int| 0 <= j < lo ==> v@[j] < x,
            forall|j: int| hi <= j < v@.len() ==> v@[j] > x,
        decreases hi - lo,
    {
        let mid = lo + (hi - lo) / 2;
        let y = v[mid];
        if y == x {
            return Ok(mid);
        } else if y < x {
            lo = mid + 1;
        } else {
            hi = mid;
        }
    }
    Err(lo)
}

/// Adds `x` to the set. Returns whether `x` was new.
pub fn insert(v: &mut Vec<u32>, x: u32) -> (added: bool)
    requires
        strictly_ascending(old(v)@),
    ensures
        strictly_ascending(final(v)@),
        added == !old(v)@.contains(x),
        !added ==> *final(v) == *old(v),
        added ==> final(v)@.len() == old(v)@.len() + 1,
        forall|y: u32| final(v)@.contains(y) <==> old(v)@.contains(y) || y == x,
{
    match search(v, x) {
        Ok(_) => false,
        Err(i) => {
            v.insert(i, x);
            proof {
                let before = old(v)@;
                let after = v@;
                assert(after == before.insert(i as int, x));
                assert forall|y: u32| after.contains(y) <==> before.contains(y) || y == x by {
                    if before.contains(y) {
                        let k = choose|k: int| 0 <= k < before.len() && before[k] == y;
                        let k1 = if k < i { k } else { k + 1 };
                        assert(after[k1] == y);
                    }
                    if y == x {
                        assert(after[i as int] == x);
                    }
                    if after.contains(y) {
                        let k = choose|k: int| 0 <= k < after.len() && after[k] == y;
                        if k < i {
                            assert(before[k] == y);
                        } else if k > i {
                            assert(before[k - 1] == y);
                        }
                    }
                }
                assert forall|a: int, b: int| 0 <= a < b < after.len() implies after[a] < after[b] by {
                    let a0 = if a < i { a } else { a - 1 };
                    let b0 = if b < i { b } else { b - 1 };
                    if a != i {
                        assert(after[a] == before[a0]);
                    }
                    if b != i {
                        assert(after[b] == before[b0]);
                    }
                }
            }
            true
        },
    }
}

/// Takes `x` out of the set. Returns whether `x` was in it.
pub fn remove(v: &mut Vec<u32>, x: u32) -> (removed: bool)
    requires
        strictly_ascending(old(v)@),
    ensures
        strictly_ascending(final(v)@),
        removed == old(v)@.contains(x),
        !removed ==> *final(v) == *old(v),
        removed ==> final(v)@.len() == old(v)@.len() - 1,
        forall|y: u32| final(v)@.contains(y) <==> old(v)@.contains(y) && y != x,
{
    match search(v, x) {
        Err(_) => false,
        Ok(i) => {
            v.remove(i);
            proof {
                let before = old(v)@;
                let after = v@;
                assert(after == before.remove(i as int));
                assert forall|y: u32| after.contains(y) <==> before.contains(y) && y != x by {
                    if before.contains(y) && y != x {
                        let k = choose|k: int| 0 <= k < before.len() && before[k] == y;
                        let k1 = if k < i { k } else { k - 1 };
                        assert(after[k1] == y);
                    }
                    if after.contains(y) {
                        let k = choose|k: int| 0 <= k < after.len() && after[k] == y;
                        let k0 = if k < i { k } else { k + 1 };
                        assert(before[k0] == y);
                        assert(before[i as int] == x);
                    }
                }
                assert forall|a: int, b: int| 0 <= a < b < after.len() implies after[a] < after[b] by {
                    let a0 = if a < i { a } else { a + 1 };
                    let b0 = if b < i { b } else { b + 1 };
                    assert(after[a] == before[a0]);
                    assert(after[b] == before[b0]);
                }
            }
            true
        },
    }
}

/// Two strictly ascending sequences with the same elements are equal.
pub proof fn lemma_ascending_unique(a: Seq<u32>, b: Seq<u32>)
    requires
        strictly_ascending(a),
        strictly_ascending(b),
        forall|y: u32| a.contains(y) <==> b.contains(y),
    ensures
        a == b,
    decreases a.len(),
{
    if a.len() == 0 {
        if b.len() > 0 {
            assert(b.contains(b[0]));
        }
        assert(a =~= b);
    } else {
        assert(a.contains(a.last()));
        assert(b.len() > 0);
        assert(b.contains(b.last()));
        let ka = choose|k: int| 0 <= k < a.len() && a[k] == b.last();
        let kb = choose|k: int| 0 <= k < b.len() && b[k] == a.last();
        assert(a.last() == b.last());
        let a0 = a.drop_last();
        let b0 = b.drop_last();
        assert forall|y: u32| a0.contains(y) <==> b0.contains(y) by {
            if a0.contains(y) {
                let k = choose|k: int| 0 <= k < a0.len() && a0[k] == y;
                assert(a[k] == y);
                assert(a.contains(y));
                let j = choose|j: int| 0 <= j < b.len() && b[j] == y;
                assert(y < a.last());
                assert(j < b.len() - 1);
                assert(b0[j] == y);
            }
            if b0.contains(y) {
                let k = choose|k: int| 0 <= k < b0.len() && b0[k] == y;
                assert(b[k] == y);
                assert(b.contains(y));
                let j = choose|j: int| 0 <= j < a.len() && a[j] == y;
                assert(y < b.last());
                assert(j < a.len() - 1);
                assert(a0[j] == y);
            }
        }
        lemma_ascending_unique(a0, b0);
        assert(a =~= a0.push(a.last()));
        assert(b =~= b0.push(b.last()));
    }
}

} // verus!
