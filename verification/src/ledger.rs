//! Batch ledger: per-account sequences of `(amount, expires_at)` batches.
//!
//! A ledger is kept strictly sorted by expiration, with at most one batch per
//! expiration and every amount positive. Claims merge into an existing batch
//! with the same expiration or insert a new one in order; burns consume the
//! earliest-expiring batches first; the expiration sweep removes every batch
//! whose `expires_at` has passed.

use vstd::prelude::*;
use crate::arith::{add_sat_u128, clamp_u128, sat_add_u128};
use crate::types::{Error, TokenBatch, MAX_BATCHES};

verus! {

// ---------------------------------------------------------------------------
// Spec: sums, filters and transformations over batch sequences
// ---------------------------------------------------------------------------

/// Sum of all amounts in a ledger.
pub open spec fn batch_sum(s: Seq<TokenBatch>) -> int
    decreases s.len(),
{
    if s.len() == 0 {
        0
    } else {
        s[0].amount + batch_sum(s.drop_first())
    }
}

/// Sum of the amounts in batches still live at height `h`.
pub open spec fn live_sum(s: Seq<TokenBatch>, h: u32) -> int
    decreases s.len(),
{
    if s.len() == 0 {
        0
    } else {
        (if s[0].expires_at > h {
            s[0].amount as int
        } else {
            0
        }) + live_sum(s.drop_first(), h)
    }
}

/// Sum of the amounts in batches expired at height `h`.
pub open spec fn expired_sum(s: Seq<TokenBatch>, h: u32) -> int
    decreases s.len(),
{
    if s.len() == 0 {
        0
    } else {
        (if s[0].expires_at <= h {
            s[0].amount as int
        } else {
            0
        }) + expired_sum(s.drop_first(), h)
    }
}

/// The ledger with every batch expired at height `h` removed.
pub open spec fn live_seq(s: Seq<TokenBatch>, h: u32) -> Seq<TokenBatch>
    decreases s.len(),
{
    if s.len() == 0 {
        s
    } else if s[0].expires_at > h {
        seq![s[0]] + live_seq(s.drop_first(), h)
    } else {
        live_seq(s.drop_first(), h)
    }
}

/// Some batch in the ledger expires exactly at `e`.
pub open spec fn has_expiry(s: Seq<TokenBatch>, e: u32) -> bool {
    exists|i: int| 0 <= i < s.len() && s[i].expires_at == e
}

/// An amount with expiration `e` can be stored: it merges into an existing
/// batch or there is room for one more.
pub open spec fn can_append(s: Seq<TokenBatch>, e: u32) -> bool {
    has_expiry(s, e) || s.len() < MAX_BATCHES as int
}

/// The ledger after storing `amount` with expiration `e`: added into the
/// batch with the same expiration if there is one, otherwise inserted at the
/// position that keeps the ledger sorted.
pub open spec fn append_seq(s: Seq<TokenBatch>, amount: u128, e: u32) -> Seq<TokenBatch>
    decreases s.len(),
{
    if s.len() == 0 {
        seq![TokenBatch { amount, expires_at: e }]
    } else if s[0].expires_at < e {
        seq![s[0]] + append_seq(s.drop_first(), amount, e)
    } else if s[0].expires_at == e {
        seq![TokenBatch { amount: sat_add_u128(s[0].amount, amount), expires_at: e }] + s.drop_first()
    } else {
        seq![TokenBatch { amount, expires_at: e }] + s
    }
}

/// The ledger after consuming `a` tokens first-in-first-out by expiration at
/// height `h`: expired batches are skipped, the earliest live batches are
/// drained (and removed when emptied), and at most one batch is left partly
/// consumed.
pub open spec fn consume_seq(s: Seq<TokenBatch>, a: int, h: u32) -> Seq<TokenBatch>
    decreases s.len(),
{
    if s.len() == 0 {
        s
    } else if a <= 0 {
        s
    } else if s[0].expires_at <= h {
        seq![s[0]] + consume_seq(s.drop_first(), a, h)
    } else if s[0].amount > a {
        seq![TokenBatch { amount: (s[0].amount - a) as u128, expires_at: s[0].expires_at }]
            + s.drop_first()
    } else {
        consume_seq(s.drop_first(), a - s[0].amount, h)
    }
}

/// Every amount in the ledger is positive.
pub open spec fn ledger_amounts_positive(s: Seq<TokenBatch>) -> bool {
    forall|i: int| 0 <= i < s.len() ==> s[i].amount > 0
}

/// The ledger is strictly sorted by expiration (so expirations are distinct).
pub open spec fn ledger_sorted(s: Seq<TokenBatch>) -> bool {
    forall|i: int, j: int| 0 <= i < j < s.len() ==> s[i].expires_at < s[j].expires_at
}

/// A well-formed ledger: bounded, positive amounts, strictly sorted.
pub open spec fn ledger_wf(s: Seq<TokenBatch>) -> bool {
    &&& s.len() <= MAX_BATCHES as int
    &&& ledger_amounts_positive(s)
    &&& ledger_sorted(s)
}

/// Every expiration in `s` also occurs in `t` or equals `e`.
pub open spec fn expiries_from(s: Seq<TokenBatch>, t: Seq<TokenBatch>, e: u32) -> bool {
    forall|i: int|
        0 <= i < s.len() ==> s[i].expires_at == e || has_expiry(t, s[i].expires_at)
}

// ---------------------------------------------------------------------------
// Lemmas: cons and push decompositions
// ---------------------------------------------------------------------------

pub proof fn lemma_batch_sum_cons(b: TokenBatch, t: Seq<TokenBatch>)
    ensures
        batch_sum(seq![b] + t) == b.amount + batch_sum(t),
{
    let u = seq![b] + t;
    assert(u.drop_first() =~= t);
}

pub proof fn lemma_live_sum_cons(b: TokenBatch, t: Seq<TokenBatch>, h: u32)
    ensures
        live_sum(seq![b] + t, h) == (if b.expires_at > h {
            b.amount as int
        } else {
            0
        }) + live_sum(t, h),
{
    let u = seq![b] + t;
    assert(u.drop_first() =~= t);
}

pub proof fn lemma_batch_sum_push(s: Seq<TokenBatch>, b: TokenBatch)
    ensures
        batch_sum(s.push(b)) == batch_sum(s) + b.amount,
    decreases s.len(),
{
    if s.len() == 0 {
        assert(s.push(b).drop_first() =~= s);
    } else {
        assert(s.push(b).drop_first() =~= s.drop_first().push(b));
        lemma_batch_sum_push(s.drop_first(), b);
    }
}

pub proof fn lemma_live_sum_push(s: Seq<TokenBatch>, b: TokenBatch, h: u32)
    ensures
        live_sum(s.push(b), h) == live_sum(s, h) + (if b.expires_at > h {
            b.amount as int
        } else {
            0
        }),
    decreases s.len(),
{
    if s.len() == 0 {
        assert(s.push(b).drop_first() =~= s);
    } else {
        assert(s.push(b).drop_first() =~= s.drop_first().push(b));
        lemma_live_sum_push(s.drop_first(), b, h);
    }
}

pub proof fn lemma_expired_sum_push(s: Seq<TokenBatch>, b: TokenBatch, h: u32)
    ensures
        expired_sum(s.push(b), h) == expired_sum(s, h) + (if b.expires_at <= h {
            b.amount as int
        } else {
            0
        }),
    decreases s.len(),
{
    if s.len() == 0 {
        assert(s.push(b).drop_first() =~= s);
    } else {
        assert(s.push(b).drop_first() =~= s.drop_first().push(b));
        lemma_expired_sum_push(s.drop_first(), b, h);
    }
}

pub proof fn lemma_live_seq_push(s: Seq<TokenBatch>, b: TokenBatch, h: u32)
    ensures
        live_seq(s.push(b), h) == if b.expires_at > h {
            live_seq(s, h).push(b)
        } else {
            live_seq(s, h)
        },
    decreases s.len(),
{
    if s.len() == 0 {
        assert(s.push(b).drop_first() =~= s);
        if b.expires_at > h {
            assert(live_seq(s.push(b), h) =~= live_seq(s, h).push(b));
        }
    } else {
        assert(s.push(b).drop_first() =~= s.drop_first().push(b));
        lemma_live_seq_push(s.drop_first(), b, h);
        if b.expires_at > h {
            if s[0].expires_at > h {
                assert(live_seq(s.push(b), h) =~= live_seq(s, h).push(b));
            }
        }
    }
}

// ---------------------------------------------------------------------------
// Lemmas: global facts about sums and the sweep
// ---------------------------------------------------------------------------

/// All three sums are non-negative.
pub proof fn lemma_sums_nonneg(s: Seq<TokenBatch>, h: u32)
    ensures
        batch_sum(s) >= 0,
        live_sum(s, h) >= 0,
        expired_sum(s, h) >= 0,
    decreases s.len(),
{
    if s.len() > 0 {
        lemma_sums_nonneg(s.drop_first(), h);
    }
}

/// The whole ledger is worth its live part plus its expired part.
pub proof fn lemma_sum_split(s: Seq<TokenBatch>, h: u32)
    ensures
        batch_sum(s) == live_sum(s, h) + expired_sum(s, h),
    decreases s.len(),
{
    if s.len() > 0 {
        lemma_sum_split(s.drop_first(), h);
    }
}

/// What the sweep keeps: exactly the live batches, in order, with their
/// full value; the result is well-formed whenever the input was.
pub proof fn lemma_live_seq_props(s: Seq<TokenBatch>, h: u32)
    ensures
        live_seq(s, h).len() <= s.len(),
        batch_sum(live_seq(s, h)) == live_sum(s, h),
        forall|i: int| 0 <= i < live_seq(s, h).len() ==> live_seq(s, h)[i].expires_at > h,
        forall|i: int| #![trigger live_seq(s, h)[i]]
            0 <= i < live_seq(s, h).len() ==> exists|j: int|
                0 <= j < s.len() && live_seq(s, h)[i] == #[trigger] s[j],
        ledger_amounts_positive(s) ==> ledger_amounts_positive(live_seq(s, h)),
        ledger_sorted(s) ==> ledger_sorted(live_seq(s, h)),
        live_sum(live_seq(s, h), h) == live_sum(s, h),
    decreases s.len(),
{
    if s.len() == 0 {
    } else {
        let t = s.drop_first();
        lemma_live_seq_props(t, h);
        assert(forall|i: int| 0 <= i < t.len() ==> t[i] == s[i + 1]);
        if s[0].expires_at > h {
            let r = seq![s[0]] + live_seq(t, h);
            assert(live_seq(s, h) == r);
            assert(r[0] == s[0]);
            assert(forall|i: int| 1 <= i < r.len() ==> r[i] == live_seq(t, h)[i - 1]);
            lemma_batch_sum_cons(s[0], live_seq(t, h));
            lemma_live_sum_cons(s[0], live_seq(t, h), h);
            // membership: r[0] == s[0]; r[i] (i >= 1) comes from t, so from s
            assert forall|i: int| #![trigger r[i]] 0 <= i < r.len() implies exists|j: int|
                0 <= j < s.len() && r[i] == #[trigger] s[j] by {
                if i == 0 {
                    assert(r[0] == s[0]);
                } else {
                    let jj = choose|jj: int| 0 <= jj < t.len() && live_seq(t, h)[i - 1] == t[jj];
                    assert(r[i] == s[jj + 1]);
                }
            }
            if ledger_sorted(s) {
                assert forall|i: int, j: int|
                    0 <= i < j < r.len() implies r[i].expires_at < r[j].expires_at by {
                    if i == 0 {
                        let jj = choose|jj: int|
                            0 <= jj < t.len() && live_seq(t, h)[j - 1] == t[jj];
                        assert(r[j] == s[jj + 1]);
                    }
                }
            }
        } else {
            assert(live_seq(s, h) == live_seq(t, h));
            assert forall|i: int| #![trigger live_seq(s, h)[i]]
                0 <= i < live_seq(s, h).len() implies exists|j: int|
                0 <= j < s.len() && live_seq(s, h)[i] == #[trigger] s[j] by {
                let jj = choose|jj: int| 0 <= jj < t.len() && live_seq(t, h)[i] == t[jj];
                assert(live_seq(s, h)[i] == s[jj + 1]);
            }
            if ledger_sorted(s) {
                assert forall|i: int, j: int|
                    0 <= i < j < live_seq(s, h).len() implies live_seq(s, h)[i].expires_at
                    < live_seq(s, h)[j].expires_at by {}
            }
        }
    }
}

// ---------------------------------------------------------------------------
// Lemmas: append
// ---------------------------------------------------------------------------

/// Where `append_seq` lands: if position `i` is the first whose expiration is
/// not below `e`, the result is an in-place merge at `i` or an insertion at
/// `i`.
pub proof fn lemma_append_seq_at(s: Seq<TokenBatch>, m: u128, e: u32, i: int)
    requires
        0 <= i <= s.len(),
        forall|j: int| 0 <= j < i ==> s[j].expires_at < e,
        i < s.len() ==> s[i].expires_at >= e,
    ensures
        i < s.len() && s[i].expires_at == e ==> append_seq(s, m, e) == s.update(
            i,
            TokenBatch { amount: sat_add_u128(s[i].amount, m), expires_at: e },
        ),
        !(i < s.len() && s[i].expires_at == e) ==> append_seq(s, m, e) == s.insert(
            i,
            TokenBatch { amount: m, expires_at: e },
        ),
    decreases s.len(),
{
    let b = TokenBatch { amount: m, expires_at: e };
    if s.len() == 0 {
        assert(append_seq(s, m, e) =~= s.insert(0, b));
    } else if i == 0 {
        if s[0].expires_at == e {
            assert(append_seq(s, m, e) =~= s.update(
                0,
                TokenBatch { amount: sat_add_u128(s[0].amount, m), expires_at: e },
            ));
        } else {
            assert(append_seq(s, m, e) =~= s.insert(0, b));
        }
    } else {
        let t = s.drop_first();
        assert(forall|j: int| 0 <= j < i - 1 ==> #[trigger] t[j].expires_at < e);
        lemma_append_seq_at(t, m, e, i - 1);
        if i < s.len() && s[i].expires_at == e {
            let merged = TokenBatch { amount: sat_add_u128(s[i].amount, m), expires_at: e };
            assert(t[i - 1] == s[i]);
            assert(append_seq(s, m, e) == seq![s[0]] + t.update(i - 1, merged));
            assert(seq![s[0]] + t.update(i - 1, merged) =~= s.update(i, merged));
        } else {
            assert(append_seq(s, m, e) == seq![s[0]] + t.insert(i - 1, b));
            assert(seq![s[0]] + t.insert(i - 1, b) =~= s.insert(i, b));
        }
    }
}

/// Appending `m` raises the ledger's value by exactly `m`, as long as the
/// merged batch cannot saturate.
pub proof fn lemma_append_sum(s: Seq<TokenBatch>, m: u128, e: u32)
    requires
        batch_sum(s) + m <= u128::MAX,
        batch_sum(s) >= 0,
    ensures
        batch_sum(append_seq(s, m, e)) == batch_sum(s) + m,
    decreases s.len(),
{
    if s.len() == 0 {
        let r = append_seq(s, m, e);
        assert(r.drop_first() =~= s);
        assert(batch_sum(r) == m + batch_sum(s));
    } else {
        let t = s.drop_first();
        lemma_sums_nonneg(t, e);
        assert(batch_sum(s) == s[0].amount + batch_sum(t));
        if s[0].expires_at < e {
            lemma_append_sum(t, m, e);
            lemma_batch_sum_cons(s[0], append_seq(t, m, e));
            assert(append_seq(s, m, e) == seq![s[0]] + append_seq(t, m, e));
        } else if s[0].expires_at == e {
            let merged = TokenBatch { amount: sat_add_u128(s[0].amount, m), expires_at: e };
            assert(merged.amount == s[0].amount + m);
            lemma_batch_sum_cons(merged, t);
            assert(append_seq(s, m, e) == seq![merged] + t);
        } else {
            lemma_batch_sum_cons(TokenBatch { amount: m, expires_at: e }, s);
            assert(append_seq(s, m, e) == seq![TokenBatch { amount: m, expires_at: e }] + s);
        }
    }
}

/// Appending a positive amount keeps amounts positive and the order strict,
/// adds at most one batch, and introduces no expiration other than `e`.
pub proof fn lemma_append_props(s: Seq<TokenBatch>, m: u128, e: u32)
    requires
        ledger_amounts_positive(s),
        ledger_sorted(s),
        m > 0,
    ensures
        ledger_amounts_positive(append_seq(s, m, e)),
        ledger_sorted(append_seq(s, m, e)),
        append_seq(s, m, e).len() == if has_expiry(s, e) {
            s.len() as int
        } else {
            s.len() + 1 as int
        },
        expiries_from(append_seq(s, m, e), s, e),
    decreases s.len(),
{
    let r = append_seq(s, m, e);
    if s.len() == 0 {
        assert(r[0].expires_at == e);
    } else {
        let t = s.drop_first();
        assert(forall|i: int| 0 <= i < t.len() ==> t[i] == s[i + 1]);
        if s[0].expires_at < e {
            lemma_append_props(t, m, e);
            let rt = append_seq(t, m, e);
            assert(r == seq![s[0]] + rt);
            assert(r[0] == s[0]);
            assert(forall|i: int| 1 <= i < r.len() ==> r[i] == rt[i - 1]);
            // the head stays below every tail expiration, which is e or from t
            assert forall|i: int, j: int|
                0 <= i < j < r.len() implies r[i].expires_at < r[j].expires_at by {
                if i == 0 {
                    if rt[j - 1].expires_at != e {
                        let k = choose|k: int| 0 <= k < t.len() && t[k].expires_at == rt[j - 1].expires_at;
                        assert(t[k] == s[k + 1]);
                    }
                }
            }
            assert(has_expiry(s, e) <==> has_expiry(t, e)) by {
                if has_expiry(s, e) {
                    let k = choose|k: int| 0 <= k < s.len() && s[k].expires_at == e;
                    assert(t[k - 1].expires_at == e);
                }
                if has_expiry(t, e) {
                    let k = choose|k: int| 0 <= k < t.len() && t[k].expires_at == e;
                    assert(s[k + 1].expires_at == e);
                }
            }
            assert forall|i: int|
                0 <= i < r.len() implies r[i].expires_at == e || has_expiry(s, r[i].expires_at) by {
                if i > 0 && rt[i - 1].expires_at != e {
                    let k = choose|k: int| 0 <= k < t.len() && t[k].expires_at == rt[i - 1].expires_at;
                    assert(s[k + 1].expires_at == r[i].expires_at);
                }
            }
        } else if s[0].expires_at == e {
            let merged = TokenBatch { amount: sat_add_u128(s[0].amount, m), expires_at: e };
            assert(r == seq![merged] + t);
            assert(r[0] == merged);
            assert(forall|i: int| 1 <= i < r.len() ==> r[i] == s[i]);
            assert(s[0].expires_at == e);
        } else {
            let b = TokenBatch { amount: m, expires_at: e };
            assert(r == seq![b] + s);
            assert(r[0] == b);
            assert(forall|i: int| 1 <= i < r.len() ==> r[i] == s[i - 1]);
            assert(!has_expiry(s, e)) by {
                assert forall|k: int| 0 <= k < s.len() implies s[k].expires_at != e by {
                    if k > 0 {
                        assert(s[0].expires_at < s[k].expires_at);
                    }
                }
            }
        }
    }
}

// ---------------------------------------------------------------------------
// Lemmas: FIFO consumption
// ---------------------------------------------------------------------------

/// Consuming `a` lowers the live sum by exactly `a`.
pub proof fn lemma_consume_live_sum(s: Seq<TokenBatch>, a: int, h: u32)
    requires
        0 <= a <= live_sum(s, h),
    ensures
        live_sum(consume_seq(s, a, h), h) == live_sum(s, h) - a,
    decreases s.len(),
{
    if s.len() == 0 || a == 0 {
    } else {
        let t = s.drop_first();
        lemma_sums_nonneg(t, h);
        if s[0].expires_at <= h {
            lemma_consume_live_sum(t, a, h);
            lemma_live_sum_cons(s[0], consume_seq(t, a, h), h);
        } else if s[0].amount > a {
            let m = TokenBatch { amount: (s[0].amount - a) as u128, expires_at: s[0].expires_at };
            lemma_live_sum_cons(m, t, h);
        } else {
            lemma_consume_live_sum(t, a - s[0].amount, h);
        }
    }
}

/// Consuming `a` lowers the whole ledger's value by exactly `a` (expired
/// batches are skipped, not spent).
pub proof fn lemma_consume_batch_sum(s: Seq<TokenBatch>, a: int, h: u32)
    requires
        0 <= a <= live_sum(s, h),
    ensures
        batch_sum(consume_seq(s, a, h)) == batch_sum(s) - a,
    decreases s.len(),
{
    if s.len() == 0 || a == 0 {
    } else {
        let t = s.drop_first();
        lemma_sums_nonneg(t, h);
        if s[0].expires_at <= h {
            lemma_consume_batch_sum(t, a, h);
            lemma_batch_sum_cons(s[0], consume_seq(t, a, h));
        } else if s[0].amount > a {
            let m = TokenBatch { amount: (s[0].amount - a) as u128, expires_at: s[0].expires_at };
            lemma_batch_sum_cons(m, t);
        } else {
            lemma_consume_batch_sum(t, a - s[0].amount, h);
        }
    }
}

/// Consumption keeps amounts positive and the order strict, never grows the
/// ledger, and introduces no new expiration.
pub proof fn lemma_consume_props(s: Seq<TokenBatch>, a: int, h: u32)
    requires
        ledger_amounts_positive(s),
        ledger_sorted(s),
    ensures
        consume_seq(s, a, h).len() <= s.len(),
        ledger_amounts_positive(consume_seq(s, a, h)),
        ledger_sorted(consume_seq(s, a, h)),
        forall|i: int| #![trigger consume_seq(s, a, h)[i]]
            0 <= i < consume_seq(s, a, h).len() ==> has_expiry(s, consume_seq(s, a, h)[i].expires_at),
    decreases s.len(),
{
    let r = consume_seq(s, a, h);
    if s.len() == 0 || a <= 0 {
        assert forall|i: int| #![trigger r[i]] 0 <= i < r.len() implies has_expiry(
            s,
            r[i].expires_at,
        ) by {}
    } else {
        let t = s.drop_first();
        assert(forall|i: int| 0 <= i < t.len() ==> t[i] == s[i + 1]);
        if s[0].expires_at <= h {
            lemma_consume_props(t, a, h);
            let rt = consume_seq(t, a, h);
            assert(r == seq![s[0]] + rt);
            assert(r[0] == s[0]);
            assert(forall|i: int| 1 <= i < r.len() ==> r[i] == rt[i - 1]);
            assert forall|i: int, j: int|
                0 <= i < j < r.len() implies r[i].expires_at < r[j].expires_at by {
                if i == 0 {
                    let k = choose|k: int| 0 <= k < t.len() && t[k].expires_at == rt[j - 1].expires_at;
                    assert(t[k] == s[k + 1]);
                }
            }
            assert forall|i: int| #![trigger r[i]] 0 <= i < r.len() implies has_expiry(
                s,
                r[i].expires_at,
            ) by {
                if i > 0 {
                    let k = choose|k: int| 0 <= k < t.len() && t[k].expires_at == rt[i - 1].expires_at;
                    assert(s[k + 1].expires_at == r[i].expires_at);
                }
            }
        } else if s[0].amount > a {
            let m = TokenBatch { amount: (s[0].amount - a) as u128, expires_at: s[0].expires_at };
            assert(r == seq![m] + t);
            assert(r[0] == m);
            assert(forall|i: int| 1 <= i < r.len() ==> r[i] == s[i]);
            assert forall|i: int| #![trigger r[i]] 0 <= i < r.len() implies has_expiry(
                s,
                r[i].expires_at,
            ) by {
                if i == 0 {
                    assert(s[0].expires_at == r[0].expires_at);
                }
            }
        } else {
            lemma_consume_props(t, a - s[0].amount, h);
            assert forall|i: int| #![trigger r[i]] 0 <= i < r.len() implies has_expiry(
                s,
                r[i].expires_at,
            ) by {
                let k = choose|k: int| 0 <= k < t.len() && t[k].expires_at == r[i].expires_at;
                assert(s[k + 1].expires_at == r[i].expires_at);
            }
        }
    }
}

// ---------------------------------------------------------------------------
// Executable operations
// ---------------------------------------------------------------------------

/// Sum of the live batches' amounts, saturating.
pub fn live_balance(batches: &Vec<TokenBatch>, h: u32) -> (r: u128)
    ensures
        r == clamp_u128(live_sum(batches@, h)),
{
    let ghost s = batches@;
    let mut acc: u128 = 0;
    let mut i: usize = 0;
    while i < batches.len()
        invariant
            0 <= i <= s.len(),
            batches@ == s,
            acc == clamp_u128(live_sum(s.take(i as int), h)),
        decreases s.len() - i,
    {
        let b = batches[i];
        proof {
            assert(s.take(i + 1 as int) =~= s.take(i as int).push(s[i as int]));
            lemma_live_sum_push(s.take(i as int), s[i as int], h);
            lemma_sums_nonneg(s.take(i as int), h);
        }
        if b.expires_at > h {
            acc = add_sat_u128(acc, b.amount);
        }
        i = i + 1;
    }
    proof {
        assert(s.take(s.len() as int) =~= s);
    }
    acc
}

/// Sum of all batches' amounts, live or expired, saturating.
pub fn batch_total(batches: &Vec<TokenBatch>) -> (r: u128)
    ensures
        r == clamp_u128(batch_sum(batches@)),
{
    let ghost s = batches@;
    let mut acc: u128 = 0;
    let mut i: usize = 0;
    while i < batches.len()
        invariant
            0 <= i <= s.len(),
            batches@ == s,
            acc == clamp_u128(batch_sum(s.take(i as int))),
        decreases s.len() - i,
    {
        let b = batches[i];
        proof {
            assert(s.take(i + 1 as int) =~= s.take(i as int).push(s[i as int]));
            lemma_batch_sum_push(s.take(i as int), s[i as int]);
            lemma_sums_nonneg(s.take(i as int), 0);
        }
        acc = add_sat_u128(acc, b.amount);
        i = i + 1;
    }
    proof {
        assert(s.take(s.len() as int) =~= s);
    }
    acc
}

/// Remove every batch expired at height `h`; return the total removed
/// amount, saturating.
pub fn cleanup_expired_batches(batches: &mut Vec<TokenBatch>, h: u32) -> (expired: u128)
    ensures
        final(batches)@ == live_seq(old(batches)@, h),
        expired == clamp_u128(expired_sum(old(batches)@, h)),
{
    let ghost s = batches@;
    let mut kept: Vec<TokenBatch> = Vec::new();
    let mut acc: u128 = 0;
    let mut i: usize = 0;
    while i < batches.len()
        invariant
            0 <= i <= s.len(),
            batches@ == s,
            kept@ == live_seq(s.take(i as int), h),
            acc == clamp_u128(expired_sum(s.take(i as int), h)),
        decreases s.len() - i,
    {
        let b = batches[i];
        proof {
            assert(s.take(i + 1 as int) =~= s.take(i as int).push(s[i as int]));
            lemma_live_seq_push(s.take(i as int), s[i as int], h);
            lemma_expired_sum_push(s.take(i as int), s[i as int], h);
            lemma_sums_nonneg(s.take(i as int), h);
        }
        if b.expires_at > h {
            kept.push(b);
        } else {
            acc = add_sat_u128(acc, b.amount);
        }
        i = i + 1;
    }
    proof {
        assert(s.take(s.len() as int) =~= s);
    }
    *batches = kept;
    acc
}

/// Store `amount` with expiration `expires_at`: merge into the batch with
/// the same expiration, or insert in expiration order. Fails, changing
/// nothing, when the ledger is full and no merge is possible.
pub fn append_batch(batches: &mut Vec<TokenBatch>, amount: u128, expires_at: u32) -> (r: Result<
    (),
    Error,
>)
    requires
        ledger_sorted(old(batches)@),
    ensures
        match r {
            Ok(()) => {
                &&& can_append(old(batches)@, expires_at)
                &&& final(batches)@ == append_seq(old(batches)@, amount, expires_at)
            },
            Err(er) => {
                &&& er == Error::TooManyBatches
                &&& !can_append(old(batches)@, expires_at)
                &&& final(batches)@ == old(batches)@
            },
        },
{
    let ghost s = batches@;
    let mut i: usize = 0;
    while i < batches.len() && batches[i].expires_at < expires_at
        invariant
            0 <= i <= s.len(),
            batches@ == s,
            forall|j: int| 0 <= j < i ==> s[j].expires_at < expires_at,
        decreases s.len() - i,
    {
        i = i + 1;
    }
    proof {
        lemma_append_seq_at(s, amount, expires_at, i as int);
    }
    if i < batches.len() && batches[i].expires_at == expires_at {
        let merged = add_sat_u128(batches[i].amount, amount);
        batches.set(i, TokenBatch { amount: merged, expires_at });
        proof {
            assert(final(batches)@ =~= s.update(
                i as int,
                TokenBatch { amount: sat_add_u128(s[i as int].amount, amount), expires_at },
            ));
        }
        Ok(())
    } else if batches.len() < MAX_BATCHES {
        batches.insert(i, TokenBatch { amount, expires_at });
        Ok(())
    } else {
        proof {
            assert forall|k: int| 0 <= k < s.len() implies s[k].expires_at != expires_at by {
                if k >= i as int {
                    assert(i < s.len());
                    if k > i as int {
                        assert(s[i as int].expires_at < s[k].expires_at);
                    }
                }
            }
        }
        Err(Error::TooManyBatches)
    }
}

/// Consume `amount` first-in-first-out by expiration. Fails, changing
/// nothing, when the live balance is smaller than `amount`.
pub fn burn_fifo(batches: &mut Vec<TokenBatch>, amount: u128, h: u32) -> (r: Result<(), Error>)
    ensures
        match r {
            Ok(()) => {
                &&& amount <= clamp_u128(live_sum(old(batches)@, h))
                &&& final(batches)@ == consume_seq(old(batches)@, amount as int, h)
            },
            Err(er) => {
                &&& er == Error::InsufficientBalance
                &&& clamp_u128(live_sum(old(batches)@, h)) < amount
                &&& final(batches)@ == old(batches)@
            },
        },
{
    let ghost s = batches@;
    let live = live_balance(batches, h);
    if live < amount {
        return Err(Error::InsufficientBalance);
    }
    let mut kept: Vec<TokenBatch> = Vec::new();
    let mut remaining = amount;
    let mut i: usize = 0;
    proof {
        assert(s.skip(0) =~= s);
        assert(kept@ + consume_seq(s, amount as int, h) =~= consume_seq(s, amount as int, h));
    }
    while i < batches.len()
        invariant
            0 <= i <= s.len(),
            batches@ == s,
            consume_seq(s, amount as int, h) == kept@ + consume_seq(
                s.skip(i as int),
                remaining as int,
                h,
            ),
        decreases s.len() - i,
    {
        let ghost k0 = kept@;
        let ghost r0 = remaining as int;
        let ghost rest = s.skip(i + 1 as int);
        let b = batches[i];
        proof {
            assert(s.skip(i as int)[0] == s[i as int]);
            assert(s.skip(i as int).drop_first() =~= rest);
        }
        if b.expires_at <= h {
            kept.push(b);
            proof {
                if r0 <= 0 {
                    assert(consume_seq(s.skip(i as int), r0, h) == s.skip(i as int));
                    assert(consume_seq(rest, r0, h) == rest);
                    assert(s.skip(i as int) =~= seq![b] + rest);
                }
                assert(consume_seq(s.skip(i as int), r0, h) == seq![b] + consume_seq(rest, r0, h));
                assert(kept@ =~= k0 + seq![b]);
                assert(k0 + (seq![b] + consume_seq(rest, r0, h)) =~= (k0 + seq![b]) + consume_seq(
                    rest,
                    r0,
                    h,
                ));
            }
        } else if remaining == 0 {
            kept.push(b);
            proof {
                assert(consume_seq(s.skip(i as int), 0, h) == s.skip(i as int));
                assert(consume_seq(rest, 0, h) == rest);
                assert(s.skip(i as int) =~= seq![b] + rest);
                assert(kept@ =~= k0 + seq![b]);
                assert(k0 + (seq![b] + rest) =~= (k0 + seq![b]) + rest);
            }
        } else if b.amount > remaining {
            let part = TokenBatch { amount: b.amount - remaining, expires_at: b.expires_at };
            kept.push(part);
            remaining = 0;
            proof {
                assert(consume_seq(s.skip(i as int), r0, h) == seq![part] + rest);
                assert(consume_seq(rest, 0, h) == rest);
                assert(kept@ =~= k0 + seq![part]);
                assert(k0 + (seq![part] + rest) =~= (k0 + seq![part]) + rest);
            }
        } else {
            remaining = remaining - b.amount;
            proof {
                assert(consume_seq(s.skip(i as int), r0, h) == consume_seq(
                    rest,
                    r0 - b.amount,
                    h,
                ));
            }
        }
        i = i + 1;
    }
    proof {
        assert(s.skip(s.len() as int) =~= Seq::<TokenBatch>::empty());
        assert(consume_seq(Seq::<TokenBatch>::empty(), remaining as int, h)
            == Seq::<TokenBatch>::empty());
        assert(kept@ + Seq::<TokenBatch>::empty() =~= kept@);
    }
    *batches = kept;
    Ok(())
}

/// A batch that is already expired contributes nothing to the live sum.
pub proof fn lemma_expired_contributes_zero(s: Seq<TokenBatch>, h: u32, i: int)
    requires
        0 <= i < s.len(),
        s[i].expires_at <= h,
    ensures
        live_sum(s.remove(i), h) == live_sum(s, h),
    decreases s.len(),
{
    if i == 0 {
        assert(s.remove(0) =~= s.drop_first());
    } else {
        assert(s.remove(i).drop_first() =~= s.drop_first().remove(i - 1));
        assert(s.remove(i)[0] == s[0]);
        lemma_expired_contributes_zero(s.drop_first(), h, i - 1);
    }
}

} // verus!
