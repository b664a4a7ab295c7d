//! Association vectors: the store's maps, keyed by account identifiers.
//!
//! Each map is a vector of `(key, value)` entries with pairwise-distinct
//! keys. Updates overwrite in place or push a fresh entry at the end, so a
//! single update leaves every other position untouched — which is what the
//! supply-accounting proofs sum over.

use vstd::prelude::*;

verus! {

/// The entry list holds an entry with key `k`.
pub open spec fn assoc_has<V>(s: Seq<(u64, V)>, k: u64) -> bool {
    exists|i: int| 0 <= i < s.len() && s[i].0 == k
}

/// Index of an entry with key `k` (meaningful only when `assoc_has`).
pub open spec fn assoc_idx<V>(s: Seq<(u64, V)>, k: u64) -> int {
    choose|i: int| 0 <= i < s.len() && s[i].0 == k
}

/// Value stored under key `k` (meaningful only when `assoc_has`).
pub open spec fn assoc_get<V>(s: Seq<(u64, V)>, k: u64) -> V {
    s[assoc_idx(s, k)].1
}

/// Every key occurs at most once.
pub open spec fn assoc_keys_unique<V>(s: Seq<(u64, V)>) -> bool {
    forall|i: int, j: int| 0 <= i < j < s.len() ==> s[i].0 != s[j].0
}

/// `s1` is `s0` with the entry for `k` set: overwritten in place when the
/// key was present, pushed at the end when it was not; every other position
/// is literally unchanged.
pub open spec fn assoc_update_frame<V>(s0: Seq<(u64, V)>, s1: Seq<(u64, V)>, k: u64) -> bool {
    if assoc_has(s0, k) {
        &&& s1.len() == s0.len()
        &&& (forall|j: int| 0 <= j < s0.len() && (#[trigger] s0[j]).0 != k ==> s1[j] == s0[j])
        &&& (forall|j: int| 0 <= j < s0.len() && (#[trigger] s0[j]).0 == k ==> (#[trigger] s1[j]).0 == k)
    } else {
        &&& s1.len() == s0.len() + 1
        &&& (forall|j: int| 0 <= j < s0.len() ==> s1[j] == s0[j])
        &&& s1[s0.len() as int].0 == k
    }
}

/// With distinct keys, the entry at a matching position is the entry the
/// spec lookup returns.
pub proof fn lemma_assoc_get_at<V>(s: Seq<(u64, V)>, k: u64, i: int)
    requires
        assoc_keys_unique(s),
        0 <= i < s.len(),
        s[i].0 == k,
    ensures
        assoc_has(s, k),
        assoc_idx(s, k) == i,
        assoc_get(s, k) == s[i].1,
{
    assert(assoc_has(s, k));
    let j = assoc_idx(s, k);
    assert(0 <= j < s.len() && s[j].0 == k);
    if i < j {
        assert(s[i].0 != s[j].0);
    } else if j < i {
        assert(s[j].0 != s[i].0);
    }
}

/// A framed update keeps keys distinct, stores `k`, and leaves the lookup of
/// every other key unchanged.
pub proof fn lemma_assoc_frame<V>(s0: Seq<(u64, V)>, s1: Seq<(u64, V)>, k: u64)
    requires
        assoc_keys_unique(s0),
        assoc_update_frame(s0, s1, k),
    ensures
        assoc_keys_unique(s1),
        assoc_has(s1, k),
        forall|k2: u64|
            k2 != k ==> (#[trigger] assoc_has(s1, k2) <==> assoc_has(s0, k2)),
        forall|k2: u64|
            k2 != k && assoc_has(s0, k2) ==> #[trigger] assoc_get(s1, k2) == assoc_get(s0, k2),
        forall|j: int|
            0 <= j < s1.len() && (#[trigger] s1[j]).0 == k ==> j == assoc_idx(s1, k),
        forall|j: int|
            0 <= j < s1.len() && (#[trigger] s1[j]).0 != k ==> 0 <= j < s0.len() && s1[j] == s0[j],
{
    if assoc_has(s0, k) {
        let i0 = assoc_idx(s0, k);
        assert(0 <= i0 < s0.len() && s0[i0].0 == k);
        // keys agree position by position
        assert forall|j: int| 0 <= j < s1.len() implies (#[trigger] s1[j]).0 == s0[j].0 by {
            if s0[j].0 == k {
            } else {
                assert(s1[j] == s0[j]);
            }
        }
        assert(assoc_keys_unique(s1));
        assert(s1[i0].0 == k);
        assert(assoc_has(s1, k));
        assert forall|k2: u64| k2 != k implies (#[trigger] assoc_has(s1, k2) <==> assoc_has(
            s0,
            k2,
        )) by {
            if assoc_has(s0, k2) {
                let j = assoc_idx(s0, k2);
                assert(s1[j].0 == k2);
            }
            if assoc_has(s1, k2) {
                let j = choose|j: int| 0 <= j < s1.len() && s1[j].0 == k2;
                assert(s0[j].0 == k2);
            }
        }
        assert forall|k2: u64| k2 != k && assoc_has(s0, k2) implies #[trigger] assoc_get(s1, k2)
            == assoc_get(s0, k2) by {
            let j = assoc_idx(s0, k2);
            assert(0 <= j < s0.len() && s0[j].0 == k2);
            assert(s1[j] == s0[j]);
            lemma_assoc_get_at(s1, k2, j);
        }
        assert forall|j: int| 0 <= j < s1.len() && (#[trigger] s1[j]).0 == k implies j
            == assoc_idx(s1, k) by {
            lemma_assoc_get_at(s1, k, j);
        }
        assert forall|j: int| 0 <= j < s1.len() && (#[trigger] s1[j]).0 != k implies 0 <= j
            < s0.len() && s1[j] == s0[j] by {
            assert(s0[j].0 == s1[j].0);
        }
    } else {
        let n = s0.len() as int;
        assert(s1[n].0 == k);
        assert forall|i: int, j: int| 0 <= i < j < s1.len() implies s1[i].0 != s1[j].0 by {
            if j < n {
                assert(s1[i] == s0[i] && s1[j] == s0[j]);
            } else {
                assert(s1[i] == s0[i]);
                assert(s1[j].0 == k);
                assert(s0[i].0 != k);
            }
        }
        assert(assoc_has(s1, k));
        assert forall|k2: u64| k2 != k implies (#[trigger] assoc_has(s1, k2) <==> assoc_has(
            s0,
            k2,
        )) by {
            if assoc_has(s0, k2) {
                let j = assoc_idx(s0, k2);
                assert(s1[j].0 == k2);
            }
            if assoc_has(s1, k2) {
                let j = choose|j: int| 0 <= j < s1.len() && s1[j].0 == k2;
                assert(j < n);
                assert(s0[j].0 == k2);
            }
        }
        assert forall|k2: u64| k2 != k && assoc_has(s0, k2) implies #[trigger] assoc_get(s1, k2)
            == assoc_get(s0, k2) by {
            let j = assoc_idx(s0, k2);
            assert(0 <= j < s0.len() && s0[j].0 == k2);
            assert(s1[j] == s0[j]);
            assert(assoc_keys_unique(s1));
            lemma_assoc_get_at(s1, k2, j);
        }
        assert forall|j: int| 0 <= j < s1.len() && (#[trigger] s1[j]).0 == k implies j
            == assoc_idx(s1, k) by {
            lemma_assoc_get_at(s1, k, j);
        }
        assert forall|j: int| 0 <= j < s1.len() && (#[trigger] s1[j]).0 != k implies 0 <= j
            < s0.len() && s1[j] == s0[j] by {
            assert(j != n);
        }
    }
}

/// Position of the entry with key `k`, if any.
pub fn assoc_find_idx<V>(m: &Vec<(u64, V)>, k: u64) -> (r: Option<usize>)
    ensures
        match r {
            Some(i) => i < m@.len() && m@[i as int].0 == k,
            None => !assoc_has(m@, k),
        },
{
    let mut i: usize = 0;
    while i < m.len()
        invariant
            0 <= i <= m@.len(),
            forall|j: int| 0 <= j < i ==> (#[trigger] m@[j]).0 != k,
        decreases m@.len() - i,
    {
        if m[i].0 == k {
            return Some(i);
        }
        i = i + 1;
    }
    None
}

/// Set the entry for key `k` to `v`.
pub fn assoc_set<V>(m: &mut Vec<(u64, V)>, k: u64, v: V)
    requires
        assoc_keys_unique(old(m)@),
    ensures
        assoc_update_frame(old(m)@, final(m)@, k),
        assoc_keys_unique(final(m)@),
        assoc_has(final(m)@, k),
        assoc_get(final(m)@, k) == v,
{
    let ghost s0 = m@;
    match assoc_find_idx(m, k) {
        Some(i) => {
            proof {
                lemma_assoc_get_at(s0, k, i as int);
            }
            m.set(i, (k, v));
            proof {
                assert(assoc_update_frame(s0, m@, k));
                lemma_assoc_frame(s0, m@, k);
                lemma_assoc_get_at(m@, k, i as int);
            }
        },
        None => {
            m.push((k, v));
            proof {
                assert(assoc_update_frame(s0, m@, k));
                lemma_assoc_frame(s0, m@, k);
                lemma_assoc_get_at(m@, k, s0.len() as int);
            }
        },
    }
}

} // verus!
