//! Ordered sequences: sortedness predicates, binary searches over sorted
//! vectors, and sorted deduplication.

use vstd::prelude::*;

verus! {

/// A sequence of codepoints is strictly ascending: no duplicates, sorted.
pub open spec fn sorted_strict(s: Seq<u32>) -> bool {
    forall|i: int, j: int| 0 <= i < j < s.len() ==> s[i] < s[j]
}

/// A sequence of offsets is non-decreasing.
pub open spec fn nondecreasing(s: Seq<usize>) -> bool {
    forall|i: int, j: int| 0 <= i <= j < s.len() ==> s[i] <= s[j]
}

/// First position of `v` whose element is `>= key`, by binary search.
pub fn lower_bound(v: &Vec<u32>, key: u32) -> (r: usize)
    requires
        sorted_strict(v@),
    ensures
        r <= v@.len(),
        forall|i: int| 0 <= i < r ==> v@[i] < key,
        forall|i: int| r <= i < v@.len() ==> v@[i] >= key,
{
    let mut lo: usize = 0;
    let mut hi: usize = v.len();
    while lo < hi
        invariant
            lo <= hi <= v@.len(),
            sorted_strict(v@),
            forall|i: int| 0 <= i < lo ==> v@[i] < key,
            forall|i: int| hi <= i < v@.len() ==> v@[i] >= key,
        decreases hi - lo,
    {
        let mid: usize = lo + (hi - lo) / 2;
        if v[mid] < key {
            lo = mid + 1;
        } else {
            hi = mid;
        }
    }
    lo
}

/// Binary search for `key` in a strictly ascending vector.
///
/// Returns the position of `key`, or `None` when it is absent.
pub fn find_sorted(v: &Vec<u32>, key: u32) -> (r: Option<usize>)
    requires
        sorted_strict(v@),
    ensures
        match r {
            Some(i) => i < v@.len() && v@[i as int] == key,
            None => !v@.contains(key),
        },
        r is Some <==> v@.contains(key),
{
    let pos = lower_bound(v, key);
    if pos < v.len() && v[pos] == key {
        assert(v@.contains(key));
        Some(pos)
    } else {
        assert(!v@.contains(key)) by {
            if v@.contains(key) {
                let w = choose|w: int| 0 <= w < v@.len() && v@[w] == key;
                assert(w < pos || pos <= w);
            }
        }
        None
    }
}

/// First position of `v` whose element is `> key`: the partition point of
/// the predicate "element `<= key`" over a non-decreasing vector.
pub fn partition_point_leq(v: &Vec<usize>, key: usize) -> (r: usize)
    requires
        nondecreasing(v@),
    ensures
        r <= v@.len(),
        forall|i: int| 0 <= i < r ==> v@[i] <= key,
        forall|i: int| r <= i < v@.len() ==> v@[i] > key,
{
    let mut lo: usize = 0;
    let mut hi: usize = v.len();
    while lo < hi
        invariant
            lo <= hi <= v@.len(),
            nondecreasing(v@),
            forall|i: int| 0 <= i < lo ==> v@[i] <= key,
            forall|i: int| hi <= i < v@.len() ==> v@[i] > key,
        decreases hi - lo,
    {
        let mid: usize = lo + (hi - lo) / 2;
        if v[mid] <= key {
            lo = mid + 1;
        } else {
            hi = mid;
        }
    }
    lo
}

/// Checks at runtime that a vector is strictly ascending.
pub fn check_sorted_strict(v: &Vec<u32>) -> (r: bool)
    ensures
        r == sorted_strict(v@),
{
    let mut k: usize = 1;
    while k < v.len()
        invariant
            1 <= k,
            v@.len() > 0 ==> k <= v@.len(),
            forall|i: int, j: int| 0 <= i < j < k ==> v@[i] < v@[j],
        decreases v@.len() - k,
    {
        if v[k - 1] >= v[k] {
            return false;
        }
        proof {
            assert forall|i: int, j: int| 0 <= i < j < k + 1 implies v@[i] < v@[j] by {
                if j == k as int {
                    assert(v@[i] <= v@[k as int - 1]);
                }
            }
        }
        k = k + 1;
    }
    true
}

/// Sorts `v` ascending and removes duplicates: the result is the strictly
/// ascending enumeration of the set of values of `v`.
pub fn sort_dedup(v: &Vec<u32>) -> (r: Vec<u32>)
    ensures
        sorted_strict(r@),
        forall|x: u32| r@.contains(x) <==> v@.contains(x),
{
    let mut out: Vec<u32> = Vec::new();
    let mut k: usize = 0;
    while k < v.len()
        invariant
            k <= v@.len(),
            sorted_strict(out@),
            forall|x: u32| out@.contains(x) <==> v@.take(k as int).contains(x),
        decreases v@.len() - k,
    {
        let ghost prev = out@;
        let x = v[k];
        insert_sorted(&mut out, x);
        proof {
            assert(v@.take(k as int + 1) =~= v@.take(k as int).push(x));
            assert forall|y: u32| out@.contains(y) implies v@.take(k as int + 1).contains(y) by {
                if y == x {
                    assert(v@.take(k as int + 1)[k as int] == x);
                } else {
                    assert(prev.contains(y));
                    let w = choose|w: int| 0 <= w < v@.take(k as int).len() && v@.take(k as int)[w] == y;
                    assert(v@.take(k as int + 1)[w] == y);
                }
            }
            assert forall|y: u32| v@.take(k as int + 1).contains(y) implies out@.contains(y) by {
                let s = v@.take(k as int + 1);
                let w = choose|w: int| 0 <= w < s.len() && s[w] == y;
                if w < k as int {
                    assert(v@.take(k as int)[w] == y);
                    assert(prev.contains(y));
                }
            }
        }
        k = k + 1;
    }
    proof {
        assert(v@.take(v@.len() as int) =~= v@);
    }
    out
}

/// Inserts a (key, value) pair into a pair of parallel vectors whose keys
/// are strictly ascending, keeping them sorted and index-aligned; a key
/// already present is left alone.
pub fn insert_sorted_pair(keys: &mut Vec<u32>, vals: &mut Vec<u32>, key: u32, val: u32)
    requires
        sorted_strict(old(keys)@),
        old(keys)@.len() == old(vals)@.len(),
    ensures
        sorted_strict(final(keys)@),
        final(keys)@.len() == final(vals)@.len(),
        final(keys)@.contains(key),
        forall|y: u32| #[trigger] final(keys)@.contains(y) ==> (old(keys)@.contains(y) || y == key),
        forall|y: u32| #[trigger] old(keys)@.contains(y) ==> final(keys)@.contains(y),
        forall|i: int|
            0 <= i < final(keys)@.len() ==> ((#[trigger] final(keys)@[i] == key && final(vals)@[i]
                == val) || exists|j: int|
                0 <= j < old(keys)@.len() && old(keys)@[j] == final(keys)@[i] && old(vals)@[j]
                    == final(vals)@[i]),
    {
    let pos = lower_bound(keys, key);
    if pos < keys.len() && keys[pos] == key {
        proof {
            assert(old(keys)@.contains(key)) by {
                assert(old(keys)@[pos as int] == key);
            }
            assert forall|y: u32|
                keys@.contains(y) <==> (old(keys)@.contains(y) || y == key) by {
                if y == key {
                    assert(keys@[pos as int] == key);
                }
            }
            assert forall|i: int| 0 <= i < keys@.len() implies ((keys@[i] == key
                && vals@[i] == val) || exists|j: int|
                0 <= j < old(keys)@.len() && old(keys)@[j] == keys@[i] && old(vals)@[j]
                    == vals@[i]) by {
                assert(old(keys)@[i] == keys@[i] && old(vals)@[i] == vals@[i]);
            }
        }
    } else {
        let ghost pk = keys@;
        let ghost pv = vals@;
        keys.insert(pos, key);
        vals.insert(pos, val);
        proof {
            assert forall|i: int, j: int| 0 <= i < j < keys@.len() implies keys@[i] < keys@[j] by {
                if j < pos {
                } else if i < pos && j == pos {
                    assert(keys@[i] == pk[i]);
                } else if i < pos && j > pos {
                    assert(keys@[i] == pk[i] && keys@[j] == pk[j - 1]);
                    assert(pk[j - 1] >= key && pk[j - 1] != key);
                } else if i == pos && j > pos {
                    assert(keys@[j] == pk[j - 1]);
                    assert(pk[j - 1] >= key && pk[j - 1] != key);
                } else {
                    assert(keys@[i] == pk[i - 1] && keys@[j] == pk[j - 1]);
                }
            }
            assert forall|y: u32| keys@.contains(y) implies (pk.contains(y) || y == key) by {
                let w = choose|w: int| 0 <= w < keys@.len() && keys@[w] == y;
                if w < pos {
                    assert(pk[w] == y);
                } else if w > pos {
                    assert(pk[w - 1] == y);
                }
            }
            assert forall|y: u32| pk.contains(y) || y == key implies keys@.contains(y) by {
                if y == key {
                    assert(keys@[pos as int] == key);
                } else {
                    let w = choose|w: int| 0 <= w < pk.len() && pk[w] == y;
                    if w < pos {
                        assert(keys@[w] == y);
                    } else {
                        assert(keys@[w + 1] == y);
                    }
                }
            }
            assert forall|i: int| 0 <= i < keys@.len() implies ((#[trigger] keys@[i] == key
                && vals@[i] == val) || exists|j: int|
                0 <= j < pk.len() && pk[j] == keys@[i] && pv[j] == vals@[i]) by {
                if i < pos {
                    assert(pk[i] == keys@[i] && pv[i] == vals@[i]);
                } else if i > pos {
                    assert(pk[i - 1] == keys@[i] && pv[i - 1] == vals@[i]);
                }
            }
        }
    }
}

/// Inserts `x` into a strictly ascending vector, keeping it strictly
/// ascending; a value already present is left alone.
pub fn insert_sorted(out: &mut Vec<u32>, x: u32)
    requires
        sorted_strict(old(out)@),
    ensures
        sorted_strict(final(out)@),
        final(out)@.contains(x),
        forall|y: u32| #[trigger] final(out)@.contains(y) ==> (old(out)@.contains(y) || y == x),
        forall|y: u32| #[trigger] old(out)@.contains(y) ==> final(out)@.contains(y),
{
    let pos = lower_bound(out, x);
    if pos < out.len() && out[pos] == x {
        proof {
            assert(old(out)@.contains(x)) by {
                assert(old(out)@[pos as int] == x);
            }
            assert forall|y: u32| out@.contains(y) <==> (old(out)@.contains(y) || y == x)
                by {
                if y == x {
                    assert(out@[pos as int] == x);
                }
            }
        }
    } else {
        let ghost prev = out@;
        out.insert(pos, x);
        proof {
            let n = prev.len() as int;
            assert forall|i: int, j: int| 0 <= i < j < out@.len() implies out@[i] < out@[j] by {
                if j < pos {
                    assert(out@[i] == prev[i] && out@[j] == prev[j]);
                } else if i < pos && j == pos {
                    assert(out@[i] == prev[i] && out@[j] == x);
                } else if i < pos && j > pos {
                    assert(out@[i] == prev[i] && out@[j] == prev[j - 1]);
                    assert(prev[j - 1] >= x);
                    assert(prev[j - 1] != x);
                } else if i == pos && j > pos {
                    assert(out@[i] == x && out@[j] == prev[j - 1]);
                    assert(prev[j - 1] >= x);
                    assert(prev[j - 1] != x);
                } else {
                    assert(out@[i] == prev[i - 1] && out@[j] == prev[j - 1]);
                }
            }
            assert forall|y: u32| out@.contains(y) implies (prev.contains(y) || y == x) by {
                let w = choose|w: int| 0 <= w < out@.len() && out@[w] == y;
                if w < pos {
                    assert(prev[w] == y);
                } else if w > pos {
                    assert(prev[w - 1] == y);
                }
            }
            assert forall|y: u32| prev.contains(y) || y == x implies out@.contains(y) by {
                if y == x {
                    assert(out@[pos as int] == x);
                } else {
                    let w = choose|w: int| 0 <= w < prev.len() && prev[w] == y;
                    if w < pos {
                        assert(out@[w] == y);
                    } else {
                        assert(out@[w + 1] == y);
                    }
                }
            }
        }
    }
}

} // verus!
