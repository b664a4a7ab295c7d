//! The global invariants and laws of the core, proved from the handlers'
//! contracts.
//!
//! Each proof function here takes a store before and after one committed
//! operation — related by `claim_ok_post` or `burn_ok_post`, which the
//! handlers ensure — and shows that an invariant survives or that a law
//! holds: supply accounting, unique-recipient counting, claim-height bounds,
//! balance partitioning, claim idempotence, burn conservation, expiration,
//! streaks and breadth-bonus uniqueness.

use vstd::prelude::*;
use crate::arith::{sat_add_u32, sat_sub_u64};
use crate::assoc::{
    assoc_get, assoc_has, assoc_idx, assoc_keys_unique, assoc_update_frame, lemma_assoc_frame,
    lemma_assoc_get_at,
};
use crate::ledger::{
    batch_sum, consume_seq, expired_sum, lemma_append_props, lemma_append_sum,
    lemma_consume_batch_sum, lemma_consume_live_sum, lemma_consume_props,
    lemma_expired_contributes_zero, lemma_live_seq_props, lemma_sum_split, lemma_sums_nonneg,
    live_seq, live_sum,
};
use crate::pallet::{
    burn_ok_post, claim_err_post, claim_expires_at, claim_mint, claim_ok_post,
    claimable_periods_spec, lemma_store_ledger_wf, period_of, swept_amount, Pallet,
};
use crate::reputation::{spec_burn_sender_rep, spec_claim_rep};
use crate::types::{Config, Error, Event, Reputation, TokenBatch, STREAK_GRACE_PERIODS};

verus! {

// ---------------------------------------------------------------------------
// The global supply invariant
// ---------------------------------------------------------------------------

/// Total value stored across every account's ledger.
pub open spec fn ledgers_sum(s: Seq<(u64, Vec<TokenBatch>)>) -> int
    decreases s.len(),
{
    if s.len() == 0 {
        0
    } else {
        batch_sum(s[0].1@) + ledgers_sum(s.drop_first())
    }
}

/// The recorded total supply equals the sum of every stored batch — the
/// expired-but-unswept ones included, since they leave the supply only when
/// an operation sweeps them.
pub open spec fn supply_consistent(p: Pallet) -> bool {
    p.supply as int == ledgers_sum(p.ledgers@)
}

/// Ledger sums are non-negative and each entry is bounded by the total.
pub proof fn lemma_ledgers_sum_bounds(s: Seq<(u64, Vec<TokenBatch>)>)
    ensures
        ledgers_sum(s) >= 0,
        forall|i: int| 0 <= i < s.len() ==> batch_sum((#[trigger] s[i]).1@) <= ledgers_sum(s),
    decreases s.len(),
{
    if s.len() > 0 {
        let t = s.drop_first();
        lemma_ledgers_sum_bounds(t);
        lemma_sums_nonneg(s[0].1@, 0);
        assert(forall|i: int| 0 <= i < t.len() ==> t[i] == s[i + 1]);
        assert forall|i: int| 0 <= i < s.len() implies batch_sum((#[trigger] s[i]).1@)
            <= ledgers_sum(s) by {
            if i > 0 {
                assert(batch_sum(t[i - 1].1@) <= ledgers_sum(t));
            }
        }
    }
}

/// Two entry lists that agree everywhere but at `i` have sums that differ by
/// the difference at `i`.
proof fn lemma_ledgers_sum_agree_except(
    s0: Seq<(u64, Vec<TokenBatch>)>,
    s1: Seq<(u64, Vec<TokenBatch>)>,
    i: int,
)
    requires
        s0.len() == s1.len(),
        0 <= i < s0.len(),
        forall|j: int| 0 <= j < s0.len() && j != i ==> s1[j] == s0[j],
    ensures
        ledgers_sum(s1) == ledgers_sum(s0) - batch_sum(s0[i].1@) + batch_sum(s1[i].1@),
    decreases s0.len(),
{
    if i == 0 {
        assert(s1.drop_first() =~= s0.drop_first());
    } else {
        assert(s1[0] == s0[0]);
        lemma_ledgers_sum_agree_except(s0.drop_first(), s1.drop_first(), i - 1);
    }
}

/// Appending one entry adds its value to the sum.
proof fn lemma_ledgers_sum_snoc(s0: Seq<(u64, Vec<TokenBatch>)>, s1: Seq<(u64, Vec<TokenBatch>)>)
    requires
        s1.len() == s0.len() + 1,
        forall|j: int| 0 <= j < s0.len() ==> s1[j] == s0[j],
    ensures
        ledgers_sum(s1) == ledgers_sum(s0) + batch_sum(s1[s0.len() as int].1@),
    decreases s0.len(),
{
    if s0.len() == 0 {
        assert(s1.drop_first() =~= s0);
        assert(ledgers_sum(s1) == batch_sum(s1[0].1@) + ledgers_sum(s0));
    } else {
        assert(s1[0] == s0[0]);
        lemma_ledgers_sum_snoc(s0.drop_first(), s1.drop_first());
    }
}

/// A framed update changes the sum by exactly the change of the entry at
/// `k`.
proof fn lemma_ledgers_sum_update_frame(
    s0: Seq<(u64, Vec<TokenBatch>)>,
    s1: Seq<(u64, Vec<TokenBatch>)>,
    k: u64,
)
    requires
        assoc_keys_unique(s0),
        assoc_update_frame(s0, s1, k),
    ensures
        ledgers_sum(s1) == ledgers_sum(s0) - (if assoc_has(s0, k) {
            batch_sum(assoc_get(s0, k)@)
        } else {
            0
        }) + batch_sum(assoc_get(s1, k)@),
{
    lemma_assoc_frame(s0, s1, k);
    if assoc_has(s0, k) {
        let i0 = assoc_idx(s0, k);
        assert(0 <= i0 < s0.len() && s0[i0].0 == k);
        assert forall|j: int| 0 <= j < s0.len() && j != i0 implies s1[j] == s0[j] by {
            assert(s0[j].0 != k);
        }
        lemma_ledgers_sum_agree_except(s0, s1, i0);
        assert(s1[i0].0 == k);
        lemma_assoc_get_at(s1, k, i0);
    } else {
        let n = s0.len() as int;
        lemma_ledgers_sum_snoc(s0, s1);
        lemma_assoc_get_at(s1, k, n);
    }
}

/// The value of one account's ledger never exceeds the sum of all ledgers.
pub proof fn lemma_account_le_total(p: Pallet, a: u64)
    ensures
        0 <= batch_sum(p.ledger(a)) <= ledgers_sum(p.ledgers@),
{
    lemma_ledgers_sum_bounds(p.ledgers@);
    lemma_sums_nonneg(p.ledger(a), 0);
    if assoc_has(p.ledgers@, a) {
        let i = assoc_idx(p.ledgers@, a);
        assert(0 <= i < p.ledgers@.len() && p.ledgers@[i].0 == a);
        assert(batch_sum(p.ledgers@[i].1@) <= ledgers_sum(p.ledgers@));
    }
}

/// A committed claim keeps the supply equal to the stored value, as long as
/// the arithmetic has headroom: what the store would be worth after the
/// sweep and the mint still fits in the counter.
pub proof fn lemma_claim_preserves_supply(
    s0: Pallet,
    s1: Pallet,
    cfg: Config,
    h: u32,
    who: u64,
    ev: Seq<Event>,
)
    requires
        s0.wf(),
        supply_consistent(s0),
        claim_ok_post(s0, s1, cfg, h, who, ev),
        ledgers_sum(s0.ledgers@) - expired_sum(s0.ledger(who), h) + claim_mint(s0, cfg, h, who)
            <= u128::MAX,
    ensures
        supply_consistent(s1),
{
    let led0 = s0.ledger(who);
    let reaped = live_seq(led0, h);
    let mint = claim_mint(s0, cfg, h, who);
    let e = expired_sum(led0, h);
    lemma_account_le_total(s0, who);
    lemma_sum_split(led0, h);
    lemma_sums_nonneg(led0, h);
    // the clamped sweep is exact, and both supply steps have headroom
    assert(e <= batch_sum(led0));
    assert(swept_amount(s0, h, who) as int == e);
    lemma_live_seq_props(led0, h);
    assert(batch_sum(reaped) == batch_sum(led0) - e);
    lemma_append_sum(reaped, mint, claim_expires_at(cfg, h));
    lemma_ledgers_sum_update_frame(s0.ledgers@, s1.ledgers@, who);
    assert(batch_sum(assoc_get(s1.ledgers@, who)@) == batch_sum(reaped) + mint);
    if assoc_has(s0.ledgers@, who) {
        lemma_assoc_frame(s0.ledgers@, s1.ledgers@, who);
        assert(batch_sum(assoc_get(s0.ledgers@, who)@) == batch_sum(led0));
    }
}

/// A committed burn keeps the supply equal to the stored value, with no side
/// condition: everything burned or swept was already counted.
pub proof fn lemma_burn_preserves_supply(
    s0: Pallet,
    s1: Pallet,
    h: u32,
    from: u64,
    to: u64,
    amount: u128,
    ev: Seq<Event>,
)
    requires
        s0.wf(),
        supply_consistent(s0),
        burn_ok_post(s0, s1, h, from, to, amount, ev),
    ensures
        supply_consistent(s1),
{
    let led0 = s0.ledger(from);
    let reaped = live_seq(led0, h);
    let e = expired_sum(led0, h);
    lemma_account_le_total(s0, from);
    lemma_sum_split(led0, h);
    lemma_sums_nonneg(led0, h);
    assert(swept_amount(s0, h, from) as int == e);
    lemma_live_seq_props(led0, h);
    assert(amount <= live_sum(led0, h));
    lemma_consume_batch_sum(reaped, amount as int, h);
    assert(batch_sum(consume_seq(reaped, amount as int, h)) == batch_sum(led0) - e - amount);
    lemma_ledgers_sum_update_frame(s0.ledgers@, s1.ledgers@, from);
    lemma_assoc_frame(s0.ledgers@, s1.ledgers@, from);
    assert(assoc_get(s1.ledgers@, from)@ == consume_seq(reaped, amount as int, h));
    if assoc_has(s0.ledgers@, from) {
        assert(batch_sum(assoc_get(s0.ledgers@, from)@) == batch_sum(led0));
    } else {
        assert(batch_sum(led0) == 0);
    }
}

// ---------------------------------------------------------------------------
// Unique-recipient counting
// ---------------------------------------------------------------------------

/// The set of recipients `a` has burned to, read off the recorded pairs.
pub open spec fn recipients_of(ps: Seq<(u64, u64)>, a: u64) -> Set<u64>
    decreases ps.len(),
{
    if ps.len() == 0 {
        Set::<u64>::empty()
    } else {
        let rest = recipients_of(ps.drop_first(), a);
        if ps[0].0 == a {
            rest.insert(ps[0].1)
        } else {
            rest
        }
    }
}

/// The recipient set is finite, and `b` is in it exactly when the pair
/// `(a, b)` is recorded.
pub proof fn lemma_recipients_membership(ps: Seq<(u64, u64)>, a: u64)
    ensures
        recipients_of(ps, a).finite(),
        forall|b: u64|
            #[trigger] recipients_of(ps, a).contains(b) <==> ps.contains((a, b)),
    decreases ps.len(),
{
    if ps.len() == 0 {
        assert(forall|b: u64| !ps.contains((a, b)));
    } else {
        let t = ps.drop_first();
        lemma_recipients_membership(t, a);
        assert forall|b: u64|
            #[trigger] recipients_of(ps, a).contains(b) <==> ps.contains((a, b)) by {
            if recipients_of(ps, a).contains(b) {
                if ps[0].0 == a && ps[0].1 == b {
                    assert(ps[0] == (a, b));
                    assert(ps.contains((a, b)));
                } else {
                    assert(t.contains((a, b)));
                    let i = choose|i: int| 0 <= i < t.len() && t[i] == (a, b);
                    assert(ps[i + 1] == (a, b));
                }
            }
            if ps.contains((a, b)) {
                let i = choose|i: int| 0 <= i < ps.len() && ps[i] == (a, b);
                if i == 0 {
                    assert(ps[0].0 == a && ps[0].1 == b);
                } else {
                    assert(t[i - 1] == (a, b));
                    assert(t.contains((a, b)));
                }
            }
        }
    }
}

/// Recording one more pair extends exactly the sender's recipient set.
pub proof fn lemma_recipients_push(ps: Seq<(u64, u64)>, p: (u64, u64), a: u64)
    ensures
        recipients_of(ps.push(p), a) == (if p.0 == a {
            recipients_of(ps, a).insert(p.1)
        } else {
            recipients_of(ps, a)
        }),
    decreases ps.len(),
{
    if ps.len() == 0 {
        assert(ps.push(p).drop_first() =~= ps);
        if p.0 == a {
            assert(recipients_of(ps.push(p), a) =~= recipients_of(ps, a).insert(p.1));
        } else {
            assert(recipients_of(ps.push(p), a) =~= recipients_of(ps, a));
        }
    } else {
        assert(ps.push(p).drop_first() =~= ps.drop_first().push(p));
        lemma_recipients_push(ps.drop_first(), p, a);
        if p.0 == a && ps[0].0 == a {
            assert(recipients_of(ps.drop_first(), a).insert(p.1).insert(ps[0].1)
                =~= recipients_of(ps.drop_first(), a).insert(ps[0].1).insert(p.1));
        }
    }
}

/// Every account's cached `unique_recipients_count` equals the cardinality
/// of its recipient set.
pub open spec fn unique_counts_ok(p: Pallet) -> bool {
    forall|a: u64|
        (#[trigger] p.rep_of(a)).unique_recipients_count as int == recipients_of(
            p.unique_pairs@,
            a,
        ).len() as int
}

/// A committed claim records no pair and touches no recipient count.
pub proof fn lemma_claim_preserves_unique_counts(
    s0: Pallet,
    s1: Pallet,
    cfg: Config,
    h: u32,
    who: u64,
    ev: Seq<Event>,
)
    requires
        unique_counts_ok(s0),
        claim_ok_post(s0, s1, cfg, h, who, ev),
    ensures
        unique_counts_ok(s1),
{
    assert forall|a: u64|
        (#[trigger] s1.rep_of(a)).unique_recipients_count as int == recipients_of(
            s1.unique_pairs@,
            a,
        ).len() as int by {
        if a == who {
            assert(s1.rep_of(who).unique_recipients_count
                == s0.rep_of(who).unique_recipients_count);
        } else {
            assert(s1.rep_of(a) == s0.rep_of(a));
        }
    }
}

/// A committed burn keeps every cached count equal to its set's
/// cardinality. The one count that can move is the sender's, and only on a
/// first burn to that recipient; the side condition keeps its saturating
/// increment exact.
pub proof fn lemma_burn_preserves_unique_counts(
    s0: Pallet,
    s1: Pallet,
    h: u32,
    from: u64,
    to: u64,
    amount: u128,
    ev: Seq<Event>,
)
    requires
        unique_counts_ok(s0),
        burn_ok_post(s0, s1, h, from, to, amount, ev),
        recipients_of(s0.unique_pairs@, from).len() < u32::MAX,
    ensures
        unique_counts_ok(s1),
{
    let ps0 = s0.unique_pairs@;
    let is_new = !s0.burned_to(from, to);
    assert forall|a: u64|
        (#[trigger] s1.rep_of(a)).unique_recipients_count as int == recipients_of(
            s1.unique_pairs@,
            a,
        ).len() as int by {
        lemma_recipients_membership(ps0, a);
        if is_new {
            lemma_recipients_push(ps0, (from, to), a);
            if a == from {
                assert(!recipients_of(ps0, from).contains(to));
                vstd::set::axiom_set_insert_len(recipients_of(ps0, from), to);
                assert(s1.rep_of(from) == spec_burn_sender_rep(s0.rep_of(from), amount, true, h));
            } else if a == to {
                assert(s1.rep_of(to).unique_recipients_count
                    == s0.rep_of(to).unique_recipients_count);
            } else {
                assert(s1.rep_of(a) == s0.rep_of(a));
            }
        } else {
            assert(s1.unique_pairs@ == ps0);
            if a == from {
                assert(s1.rep_of(from).unique_recipients_count
                    == s0.rep_of(from).unique_recipients_count);
            } else if a == to {
                assert(s1.rep_of(to).unique_recipients_count
                    == s0.rep_of(to).unique_recipients_count);
            } else {
                assert(s1.rep_of(a) == s0.rep_of(a));
            }
        }
    }
}

// ---------------------------------------------------------------------------
// Claim-height bound
// ---------------------------------------------------------------------------

/// No recorded claim height exceeds `h`.
pub open spec fn heights_le(p: Pallet, h: u32) -> bool {
    forall|a: u64|
        (#[trigger] p.last_claim_of(a)) matches Some(v) ==> v <= h
}

/// A claim at height `h` records `h` and nothing later: if no recorded
/// height exceeded `h` before, none does after.
pub proof fn lemma_claim_preserves_heights(
    s0: Pallet,
    s1: Pallet,
    cfg: Config,
    h: u32,
    who: u64,
    ev: Seq<Event>,
)
    requires
        heights_le(s0, h),
        claim_ok_post(s0, s1, cfg, h, who, ev),
    ensures
        heights_le(s1, h),
{
    assert forall|a: u64| (#[trigger] s1.last_claim_of(a)) matches Some(v) ==> v <= h by {
        if a != who {
            assert(s1.last_claim_of(a) == s0.last_claim_of(a));
        }
    }
}

/// A burn records no claim height at all.
pub proof fn lemma_burn_preserves_heights(
    s0: Pallet,
    s1: Pallet,
    h: u32,
    from: u64,
    to: u64,
    amount: u128,
    ev: Seq<Event>,
    bound: u32,
)
    requires
        heights_le(s0, bound),
        burn_ok_post(s0, s1, h, from, to, amount, ev),
    ensures
        heights_le(s1, bound),
{
    assert(s1.last_claims@ == s0.last_claims@);
    assert forall|a: u64| (#[trigger] s1.last_claim_of(a)) matches Some(v) ==> v <= bound by {
        assert(s1.last_claim_of(a) == s0.last_claim_of(a));
    }
}

// ---------------------------------------------------------------------------
// Balance partitioning
// ---------------------------------------------------------------------------

/// At any height, an account's total balance is its spendable balance plus
/// the value of its expired-but-not-yet-swept batches.
pub proof fn lemma_balance_partition(p: Pallet, h: u32, a: u64)
    ensures
        live_sum(p.ledger(a), h) + expired_sum(p.ledger(a), h) == batch_sum(p.ledger(a)),
{
    lemma_sum_split(p.ledger(a), h);
}

// ---------------------------------------------------------------------------
// Claim idempotence within a period
// ---------------------------------------------------------------------------

/// Right after a committed claim at height `h`, no period is claimable at
/// the same height — so a second claim there returns `NothingToClaim` and,
/// by the claim contract, leaves the store unchanged.
pub proof fn lemma_claim_idempotent(
    s0: Pallet,
    s1: Pallet,
    cfg: Config,
    h: u32,
    who: u64,
    ev: Seq<Event>,
)
    requires
        cfg.wf(),
        claim_ok_post(s0, s1, cfg, h, who, ev),
    ensures
        claimable_periods_spec(s1, cfg, h, who) == 0,
        claim_err_post(s1, cfg, h, who, Error::NothingToClaim),
{
    assert(s1.last_claim_of(who) == Option::Some(h));
    assert((h - h) as int / cfg.claim_period_blocks as int == 0);
}

// ---------------------------------------------------------------------------
// Burn conservation
// ---------------------------------------------------------------------------

/// A committed burn of `x` lowers the sender's spendable balance by exactly
/// `x`, leaves the recipient's ledger untouched, and lowers the supply by
/// exactly `x` plus whatever the sweep removed.
pub proof fn lemma_burn_conservation(
    s0: Pallet,
    s1: Pallet,
    h: u32,
    from: u64,
    to: u64,
    amount: u128,
    ev: Seq<Event>,
)
    requires
        s0.wf(),
        supply_consistent(s0),
        burn_ok_post(s0, s1, h, from, to, amount, ev),
    ensures
        live_sum(s1.ledger(from), h) == live_sum(s0.ledger(from), h) - amount,
        s1.ledger(to) == s0.ledger(to),
        s1.supply as int == s0.supply - expired_sum(s0.ledger(from), h) - amount,
        expired_sum(s0.ledger(from), h) == 0 ==> s1.supply as int == s0.supply - amount,
{
    let led0 = s0.ledger(from);
    let reaped = live_seq(led0, h);
    let e = expired_sum(led0, h);
    lemma_account_le_total(s0, from);
    lemma_ledgers_sum_bounds(s0.ledgers@);
    lemma_sum_split(led0, h);
    lemma_sums_nonneg(led0, h);
    assert(amount <= live_sum(led0, h));
    lemma_live_seq_props(led0, h);
    lemma_consume_live_sum(reaped, amount as int, h);
    assert(swept_amount(s0, h, from) as int == e);
}

// ---------------------------------------------------------------------------
// Expiration
// ---------------------------------------------------------------------------

/// A batch whose expiration has passed contributes nothing to the spendable
/// balance: removing it leaves the live sum unchanged. The handlers'
/// contracts state the rest of the law — the first committed operation on
/// the account sweeps such batches and lowers the supply by their value.
pub proof fn lemma_expired_batch_inert(p: Pallet, h: u32, a: u64, i: int)
    requires
        0 <= i < p.ledger(a).len(),
        p.ledger(a)[i].expires_at <= h,
    ensures
        live_sum(p.ledger(a).remove(i), h) == live_sum(p.ledger(a), h),
{
    lemma_expired_contributes_zero(p.ledger(a), h, i);
}

// ---------------------------------------------------------------------------
// Streaks
// ---------------------------------------------------------------------------

/// How a committed claim moves the streak: a gap of at most
/// `STREAK_GRACE_PERIODS + 1` periods since the last claim extends it by
/// one; a larger gap resets it to one.
pub proof fn lemma_claim_streak(
    s0: Pallet,
    s1: Pallet,
    cfg: Config,
    h: u32,
    who: u64,
    ev: Seq<Event>,
)
    requires
        claim_ok_post(s0, s1, cfg, h, who, ev),
    ensures
        s1.rep_of(who).claim_streak == (if sat_sub_u64(
            period_of(cfg, h),
            s0.rep_of(who).last_claim_period,
        ) <= STREAK_GRACE_PERIODS + 1 {
            sat_add_u32(s0.rep_of(who).claim_streak, 1)
        } else {
            1
        }),
        s1.rep_of(who).last_claim_period == period_of(cfg, h),
{
    assert(s1.rep_of(who) == spec_claim_rep(s0.rep_of(who), h, period_of(cfg, h)));
}

// ---------------------------------------------------------------------------
// Fresh batches are live
// ---------------------------------------------------------------------------

/// After a committed claim below the maximum height, every batch the
/// claimant holds is live and carries a positive amount.
pub proof fn lemma_claim_batches_live(
    s0: Pallet,
    s1: Pallet,
    cfg: Config,
    h: u32,
    who: u64,
    ev: Seq<Event>,
)
    requires
        s0.wf(),
        cfg.wf(),
        h < u32::MAX,
        claim_ok_post(s0, s1, cfg, h, who, ev),
    ensures
        forall|i: int| #![trigger s1.ledger(who)[i]]
            0 <= i < s1.ledger(who).len() ==> s1.ledger(who)[i].expires_at > h
                && s1.ledger(who)[i].amount > 0,
{
    let led0 = s0.ledger(who);
    let reaped = live_seq(led0, h);
    let mint = claim_mint(s0, cfg, h, who);
    let e = claim_expires_at(cfg, h);
    lemma_store_ledger_wf(s0, who);
    lemma_live_seq_props(led0, h);
    assert(mint > 0) by {
        let p = crate::pallet::capped_periods(s0, cfg, h, who);
        assert(1 <= p <= u32::MAX as int);
        assert(cfg.ubi_amount * (p as u128) >= 1) by (nonlinear_arith)
            requires
                cfg.ubi_amount >= 1,
                1 <= p <= u32::MAX as int,
        ;
    }
    lemma_append_props(reaped, mint, e);
    assert(e > h);
    let led1 = s1.ledger(who);
    assert forall|i: int| #![trigger led1[i]] 0 <= i < led1.len() implies led1[i].expires_at > h
        && led1[i].amount > 0 by {
        if led1[i].expires_at != e {
            let j = choose|j: int| 0 <= j < reaped.len() && reaped[j].expires_at == led1[i].expires_at;
            assert(reaped[j].expires_at > h);
        }
    }
}

/// After a committed burn, every batch the sender still holds is live and
/// carries a positive amount: the sweep ran before the consumption.
pub proof fn lemma_burn_batches_live(
    s0: Pallet,
    s1: Pallet,
    h: u32,
    from: u64,
    to: u64,
    amount: u128,
    ev: Seq<Event>,
)
    requires
        s0.wf(),
        burn_ok_post(s0, s1, h, from, to, amount, ev),
    ensures
        forall|i: int| #![trigger s1.ledger(from)[i]]
            0 <= i < s1.ledger(from).len() ==> s1.ledger(from)[i].expires_at > h
                && s1.ledger(from)[i].amount > 0,
{
    let led0 = s0.ledger(from);
    let reaped = live_seq(led0, h);
    lemma_store_ledger_wf(s0, from);
    lemma_live_seq_props(led0, h);
    lemma_consume_props(reaped, amount as int, h);
    let led1 = s1.ledger(from);
    assert forall|i: int| #![trigger led1[i]] 0 <= i < led1.len() implies led1[i].expires_at > h
        && led1[i].amount > 0 by {
        let j = choose|j: int| 0 <= j < reaped.len() && reaped[j].expires_at == led1[i].expires_at;
        assert(reaped[j].expires_at > h);
    }
}

// ---------------------------------------------------------------------------
// Breadth-bonus uniqueness
// ---------------------------------------------------------------------------

/// A repeated burn to the same recipient records nothing new and leaves the
/// sender's unique-recipient count exactly where it was.
pub proof fn lemma_burn_repeat_recipient(
    s0: Pallet,
    s1: Pallet,
    h: u32,
    from: u64,
    to: u64,
    amount: u128,
    ev: Seq<Event>,
)
    requires
        s0.burned_to(from, to),
        burn_ok_post(s0, s1, h, from, to, amount, ev),
    ensures
        s1.unique_pairs@ == s0.unique_pairs@,
        s1.rep_of(from).unique_recipients_count == s0.rep_of(from).unique_recipients_count,
{
    assert(s1.rep_of(from) == spec_burn_sender_rep(s0.rep_of(from), amount, false, h));
}

// ---------------------------------------------------------------------------
// The bundled invariant
// ---------------------------------------------------------------------------

/// Everything that holds of the store after any committed operation:
/// structural well-formedness, exact supply accounting and exact
/// unique-recipient counting.
pub open spec fn inv(p: Pallet) -> bool {
    &&& p.wf()
    &&& supply_consistent(p)
    &&& unique_counts_ok(p)
}

/// A freshly created store satisfies the bundled invariant.
pub proof fn lemma_new_inv(p: Pallet)
    requires
        p.wf(),
        p.supply == 0,
        p.ledgers@.len() == 0,
        p.unique_pairs@.len() == 0,
        forall|a: u64| #[trigger] p.rep_of(a) == Reputation::zero(),
    ensures
        inv(p),
{
    assert forall|a: u64|
        (#[trigger] p.rep_of(a)).unique_recipients_count as int == recipients_of(
            p.unique_pairs@,
            a,
        ).len() as int by {
        assert(recipients_of(p.unique_pairs@, a) =~= Set::<u64>::empty());
    }
}

/// One committed claim preserves the bundled invariant, given arithmetic
/// headroom for the mint.
pub proof fn lemma_claim_preserves_inv(
    s0: Pallet,
    s1: Pallet,
    cfg: Config,
    h: u32,
    who: u64,
    ev: Seq<Event>,
)
    requires
        inv(s0),
        s1.wf(),
        claim_ok_post(s0, s1, cfg, h, who, ev),
        ledgers_sum(s0.ledgers@) - expired_sum(s0.ledger(who), h) + claim_mint(s0, cfg, h, who)
            <= u128::MAX,
    ensures
        inv(s1),
{
    lemma_claim_preserves_supply(s0, s1, cfg, h, who, ev);
    lemma_claim_preserves_unique_counts(s0, s1, cfg, h, who, ev);
}

/// One committed burn preserves the bundled invariant, as long as the
/// sender's recipient set has not reached the counter's ceiling.
pub proof fn lemma_burn_preserves_inv(
    s0: Pallet,
    s1: Pallet,
    h: u32,
    from: u64,
    to: u64,
    amount: u128,
    ev: Seq<Event>,
)
    requires
        inv(s0),
        s1.wf(),
        burn_ok_post(s0, s1, h, from, to, amount, ev),
        recipients_of(s0.unique_pairs@, from).len() < u32::MAX,
    ensures
        inv(s1),
{
    lemma_burn_preserves_supply(s0, s1, h, from, to, amount, ev);
    lemma_burn_preserves_unique_counts(s0, s1, h, from, to, amount, ev);
}

} // verus!
