//! The store and its two handlers: claim and burn.
//!
//! [`Pallet`] holds every persistent map of the core: the batch ledgers, the
//! last-claim heights, the reputation records, the unique-recipient pairs and
//! the total supply. Each handler is a pure function of the store, the
//! current height and the message: it either commits and returns the events
//! to publish, or fails and leaves the store untouched.

use vstd::prelude::*;
use crate::arith::{
    add_sat_u128, add_sat_u32, clamp_u128, mul_sat_u128, sat_add_u128, sat_add_u32, sat_mul_u128,
    sat_sub_u128, sub_sat_u128,
};
use crate::assoc::{
    assoc_find_idx, assoc_get, assoc_has, assoc_keys_unique, assoc_set, assoc_update_frame,
    lemma_assoc_frame, lemma_assoc_get_at,
};
use crate::ledger::{
    append_batch, append_seq, batch_sum, batch_total, burn_fifo, can_append,
    cleanup_expired_batches, consume_seq, expired_sum, ledger_wf, lemma_append_props,
    lemma_consume_props, lemma_live_seq_props, live_balance, live_seq, live_sum,
};
use crate::reputation::{
    apply_decay, block_to_period, calculate_sender_weight, recalculate_score, spec_burn_recipient_rep,
    spec_burn_sender_rep, spec_claim_rep, spec_sender_weight, update_streak,
};
use crate::types::{
    Admission, Call, Config, Error, Event, Reputation, TokenBatch, TxTag, WEIGHT_SCALE,
};

verus! {

/// The persistent store of the token core.
#[derive(Clone, PartialEq, Eq, Debug)]
pub struct Pallet {
    /// Per-account batch ledger.
    pub ledgers: Vec<(u64, Vec<TokenBatch>)>,
    /// Height of each account's most recent claim.
    pub last_claims: Vec<(u64, u32)>,
    /// Per-account reputation record.
    pub reputations: Vec<(u64, Reputation)>,
    /// Pairs `(sender, recipient)` with at least one burn between them.
    pub unique_pairs: Vec<(u64, u64)>,
    /// Total tokens in circulation, including expired batches not yet swept.
    pub supply: u128,
}

impl Pallet {
    /// The batch ledger of `a`; empty when `a` holds nothing.
    pub open spec fn ledger(self, a: u64) -> Seq<TokenBatch> {
        if assoc_has(self.ledgers@, a) {
            assoc_get(self.ledgers@, a)@
        } else {
            Seq::<TokenBatch>::empty()
        }
    }

    /// Height of the most recent claim of `a`, if any.
    pub open spec fn last_claim_of(self, a: u64) -> Option<u32> {
        if assoc_has(self.last_claims@, a) {
            Option::Some(assoc_get(self.last_claims@, a))
        } else {
            Option::None
        }
    }

    /// Reputation record of `a`; all zero when `a` has no history.
    pub open spec fn rep_of(self, a: u64) -> Reputation {
        if assoc_has(self.reputations@, a) {
            assoc_get(self.reputations@, a)
        } else {
            Reputation::zero()
        }
    }

    /// `from` has burned to `to` at least once.
    pub open spec fn burned_to(self, from: u64, to: u64) -> bool {
        self.unique_pairs@.contains((from, to))
    }

    /// Structural well-formedness: distinct keys in each map, distinct
    /// recipient pairs, and every stored ledger well-formed.
    pub open spec fn wf(self) -> bool {
        &&& assoc_keys_unique(self.ledgers@)
        &&& assoc_keys_unique(self.last_claims@)
        &&& assoc_keys_unique(self.reputations@)
        &&& (forall|i: int, j: int|
            0 <= i < j < self.unique_pairs@.len() ==> self.unique_pairs@[i] != self.unique_pairs@[j])
        &&& (forall|i: int|
            0 <= i < self.ledgers@.len() ==> ledger_wf((#[trigger] self.ledgers@[i]).1@))
    }

    /// An empty store: no ledgers, no history, zero supply.
    pub fn new() -> (s: Pallet)
        ensures
            s.wf(),
            s.supply == 0,
            forall|a: u64| #[trigger] s.ledger(a) == Seq::<TokenBatch>::empty(),
            forall|a: u64| #[trigger] s.last_claim_of(a) is None,
            forall|a: u64| #[trigger] s.rep_of(a) == Reputation::zero(),
            forall|f: u64, t: u64| !(#[trigger] s.burned_to(f, t)),
    {
        Pallet {
            ledgers: Vec::new(),
            last_claims: Vec::new(),
            reputations: Vec::new(),
            unique_pairs: Vec::new(),
            supply: 0,
        }
    }

    /// Total tokens in circulation, including expired batches not yet swept.
    pub fn total_supply(&self) -> (r: u128)
        ensures
            r == self.supply,
    {
        self.supply
    }

    /// Copy of the batch ledger of `who`.
    pub fn balances(&self, who: u64) -> (r: Vec<TokenBatch>)
        requires
            self.wf(),
        ensures
            r@ == self.ledger(who),
    {
        let mut out: Vec<TokenBatch> = Vec::new();
        match assoc_find_idx(&self.ledgers, who) {
            Some(i) => {
                proof {
                    lemma_assoc_get_at(self.ledgers@, who, i as int);
                }
                let led = &self.ledgers[i].1;
                let mut j: usize = 0;
                while j < led.len()
                    invariant
                        0 <= j <= led@.len(),
                        out@ == led@.take(j as int),
                    decreases led@.len() - j,
                {
                    out.push(led[j]);
                    proof {
                        assert(led@.take(j + 1 as int) =~= led@.take(j as int).push(
                            led@[j as int],
                        ));
                    }
                    j = j + 1;
                }
                proof {
                    assert(led@.take(led@.len() as int) =~= led@);
                }
            },
            None => {},
        }
        out
    }

    /// Height of the most recent claim of `who`, if any.
    pub fn last_claim(&self, who: u64) -> (r: Option<u32>)
        requires
            self.wf(),
        ensures
            r == self.last_claim_of(who),
    {
        match assoc_find_idx(&self.last_claims, who) {
            Some(i) => {
                proof {
                    lemma_assoc_get_at(self.last_claims@, who, i as int);
                }
                Some(self.last_claims[i].1)
            },
            None => None,
        }
    }

    /// Reputation record of `who`.
    pub fn reputation(&self, who: u64) -> (r: Reputation)
        requires
            self.wf(),
        ensures
            r == self.rep_of(who),
    {
        match assoc_find_idx(&self.reputations, who) {
            Some(i) => {
                proof {
                    lemma_assoc_get_at(self.reputations@, who, i as int);
                }
                self.reputations[i].1
            },
            None => Reputation::default(),
        }
    }

    /// Cached reputation score of `who`.
    pub fn reputation_score(&self, who: u64) -> (r: u128)
        requires
            self.wf(),
        ensures
            r == self.rep_of(who).score,
    {
        self.reputation(who).score
    }

    /// `from` has burned to `to` at least once.
    pub fn has_burned_to(&self, sender: u64, recipient: u64) -> (r: bool)
        ensures
            r == self.burned_to(sender, recipient),
    {
        let mut i: usize = 0;
        while i < self.unique_pairs.len()
            invariant
                0 <= i <= self.unique_pairs@.len(),
                forall|j: int| 0 <= j < i ==> self.unique_pairs@[j] != (sender, recipient),
            decreases self.unique_pairs@.len() - i,
        {
            let p = self.unique_pairs[i];
            if p.0 == sender && p.1 == recipient {
                assert(self.unique_pairs@[i as int] == (sender, recipient));
                return true;
            }
            i = i + 1;
        }
        false
    }

    /// Sum of `who`'s live batches at height `h`.
    pub fn spendable_balance(&self, h: u32, who: u64) -> (r: u128)
        requires
            self.wf(),
        ensures
            r == clamp_u128(live_sum(self.ledger(who), h)),
    {
        match assoc_find_idx(&self.ledgers, who) {
            Some(i) => {
                proof {
                    lemma_assoc_get_at(self.ledgers@, who, i as int);
                }
                live_balance(&self.ledgers[i].1, h)
            },
            None => 0,
        }
    }

    /// Sum of all of `who`'s batches, expired ones included.
    pub fn total_balance(&self, who: u64) -> (r: u128)
        requires
            self.wf(),
        ensures
            r == clamp_u128(batch_sum(self.ledger(who))),
    {
        match assoc_find_idx(&self.ledgers, who) {
            Some(i) => {
                proof {
                    lemma_assoc_get_at(self.ledgers@, who, i as int);
                }
                batch_total(&self.ledgers[i].1)
            },
            None => 0,
        }
    }

    /// Number of claim periods `who` could cover right now, uncapped.
    pub fn calculate_claimable_periods(&self, cfg: &Config, h: u32, who: u64) -> (r: u32)
        requires
            self.wf(),
            cfg.wf(),
        ensures
            r as int == claimable_periods_spec(*self, *cfg, h, who),
    {
        match self.last_claim(who) {
            None => 1,
            Some(lc) => {
                if h >= lc {
                    (h - lc) / cfg.claim_period_blocks
                } else {
                    0
                }
            },
        }
    }

    /// `who` has at least one claimable period.
    pub fn can_claim(&self, cfg: &Config, h: u32, who: u64) -> (r: bool)
        requires
            self.wf(),
            cfg.wf(),
        ensures
            r == (claimable_periods_spec(*self, *cfg, h, who) > 0),
    {
        self.calculate_claimable_periods(cfg, h, who) > 0
    }

    /// Number of periods one claim would cover, capped at the backlog limit.
    pub fn claimable_periods(&self, cfg: &Config, h: u32, who: u64) -> (r: u32)
        requires
            self.wf(),
            cfg.wf(),
        ensures
            r as int == capped_periods(*self, *cfg, h, who),
    {
        let periods = self.calculate_claimable_periods(cfg, h, who);
        if periods < cfg.max_backlog_periods {
            periods
        } else {
            cfg.max_backlog_periods
        }
    }

    /// Amount one claim would mint right now.
    pub fn claimable_amount(&self, cfg: &Config, h: u32, who: u64) -> (r: u128)
        requires
            self.wf(),
            cfg.wf(),
        ensures
            r == claim_mint(*self, *cfg, h, who),
    {
        let periods = self.claimable_periods(cfg, h, who);
        mul_sat_u128(cfg.ubi_amount, periods as u128)
    }
}

// ---------------------------------------------------------------------------
// Spec: the claim transition
// ---------------------------------------------------------------------------

/// Number of periods `who` could claim at height `h`: one for a first claim,
/// otherwise the full periods elapsed since the last claim.
pub open spec fn claimable_periods_spec(s: Pallet, cfg: Config, h: u32, who: u64) -> int {
    match s.last_claim_of(who) {
        Option::None => 1,
        Option::Some(lc) => if h >= lc {
            (h - lc) as int / cfg.claim_period_blocks as int
        } else {
            0
        },
    }
}

/// Claimable periods, capped at the backlog limit.
pub open spec fn capped_periods(s: Pallet, cfg: Config, h: u32, who: u64) -> int {
    let p = claimable_periods_spec(s, cfg, h, who);
    if p <= cfg.max_backlog_periods as int {
        p
    } else {
        cfg.max_backlog_periods as int
    }
}

/// Amount a claim at height `h` mints.
pub open spec fn claim_mint(s: Pallet, cfg: Config, h: u32, who: u64) -> u128 {
    sat_mul_u128(cfg.ubi_amount, capped_periods(s, cfg, h, who) as u128)
}

/// Expiration height of a batch minted at height `h`.
pub open spec fn claim_expires_at(cfg: Config, h: u32) -> u32 {
    sat_add_u32(h, cfg.expiration_blocks)
}

/// Amount swept out of `who`'s ledger by an operation at height `h`.
pub open spec fn swept_amount(s: Pallet, h: u32, who: u64) -> u128 {
    clamp_u128(expired_sum(s.ledger(who), h))
}

/// The claim period that height `h` falls in.
pub open spec fn period_of(cfg: Config, h: u32) -> u64 {
    (h as int / cfg.claim_period_blocks as int) as u64
}

/// Everything a successful `claim` changes, and nothing else.
pub open spec fn claim_ok_post(
    s0: Pallet,
    s1: Pallet,
    cfg: Config,
    h: u32,
    who: u64,
    ev: Seq<Event>,
) -> bool {
    let mint = claim_mint(s0, cfg, h, who);
    let e = claim_expires_at(cfg, h);
    let reaped = live_seq(s0.ledger(who), h);
    let expired = swept_amount(s0, h, who);
    &&& claimable_periods_spec(s0, cfg, h, who) > 0
    &&& can_append(reaped, e)
    &&& s1.ledger(who) == append_seq(reaped, mint, e)
    &&& assoc_update_frame(s0.ledgers@, s1.ledgers@, who)
    &&& (forall|a: u64| a != who ==> #[trigger] s1.ledger(a) == s0.ledger(a))
    &&& s1.last_claim_of(who) == Option::Some(h)
    &&& (forall|a: u64| a != who ==> #[trigger] s1.last_claim_of(a) == s0.last_claim_of(a))
    &&& s1.rep_of(who) == spec_claim_rep(s0.rep_of(who), h, period_of(cfg, h))
    &&& (forall|a: u64| a != who ==> #[trigger] s1.rep_of(a) == s0.rep_of(a))
    &&& s1.unique_pairs@ == s0.unique_pairs@
    &&& s1.supply == sat_add_u128(sat_sub_u128(s0.supply, expired), mint)
    &&& ev == claim_events(s0, cfg, h, who)
}

/// The events a successful `claim` publishes, in order.
pub open spec fn claim_events(s0: Pallet, cfg: Config, h: u32, who: u64) -> Seq<Event> {
    let mint = claim_mint(s0, cfg, h, who);
    let expired = swept_amount(s0, h, who);
    let claimed = Event::Claimed {
        who,
        amount: mint,
        periods: capped_periods(s0, cfg, h, who) as u32,
        expires_at: claim_expires_at(cfg, h),
    };
    if expired > 0 {
        seq![Event::Expired { who, amount: expired }, claimed]
    } else {
        seq![claimed]
    }
}

/// Exactly when `claim` fails, and with which error.
pub open spec fn claim_err_post(s0: Pallet, cfg: Config, h: u32, who: u64, e: Error) -> bool {
    let periods = claimable_periods_spec(s0, cfg, h, who);
    ||| (e == Error::NothingToClaim && periods == 0)
    ||| (e == Error::TooManyBatches && periods > 0 && !can_append(
        live_seq(s0.ledger(who), h),
        claim_expires_at(cfg, h),
    ))
}

// ---------------------------------------------------------------------------
// Spec: the burn transition
// ---------------------------------------------------------------------------

/// Weighted credit the recipient gains from a burn of `amount` by a sender
/// whose cached score was `score0`.
pub open spec fn weighted_credit(amount: u128, score0: u128) -> u128 {
    sat_mul_u128(amount, spec_sender_weight(score0)) / WEIGHT_SCALE
}

/// Everything a successful `burn` changes, and nothing else. The sender's
/// weight comes from the score the sender had going into the burn.
pub open spec fn burn_ok_post(
    s0: Pallet,
    s1: Pallet,
    h: u32,
    from: u64,
    to: u64,
    amount: u128,
    ev: Seq<Event>,
) -> bool {
    let led0 = s0.ledger(from);
    let expired = swept_amount(s0, h, from);
    let weighted = weighted_credit(amount, s0.rep_of(from).score);
    let is_new = !s0.burned_to(from, to);
    &&& from != to
    &&& amount > 0
    &&& amount <= clamp_u128(live_sum(led0, h))
    &&& s1.ledger(from) == consume_seq(live_seq(led0, h), amount as int, h)
    &&& assoc_update_frame(s0.ledgers@, s1.ledgers@, from)
    &&& (forall|a: u64| a != from ==> #[trigger] s1.ledger(a) == s0.ledger(a))
    &&& s1.last_claims@ == s0.last_claims@
    &&& s1.rep_of(from) == spec_burn_sender_rep(s0.rep_of(from), amount, is_new, h)
    &&& s1.rep_of(to) == spec_burn_recipient_rep(s0.rep_of(to), amount, weighted, h)
    &&& (forall|a: u64| a != from && a != to ==> #[trigger] s1.rep_of(a) == s0.rep_of(a))
    &&& s1.unique_pairs@ == (if is_new {
        s0.unique_pairs@.push((from, to))
    } else {
        s0.unique_pairs@
    })
    &&& s1.supply == sat_sub_u128(sat_sub_u128(s0.supply, expired), amount)
    &&& ev == burn_events(s0, h, from, to, amount)
}

/// The events a successful `burn` publishes, in order.
pub open spec fn burn_events(s0: Pallet, h: u32, from: u64, to: u64, amount: u128) -> Seq<Event> {
    let expired = swept_amount(s0, h, from);
    let burned = Event::Burned { from, to, amount };
    if expired > 0 {
        seq![Event::Expired { who: from, amount: expired }, burned]
    } else {
        seq![burned]
    }
}

/// Exactly when `burn` fails, and with which error.
pub open spec fn burn_err_post(
    s0: Pallet,
    h: u32,
    from: u64,
    to: u64,
    amount: u128,
    e: Error,
) -> bool {
    ||| (e == Error::CannotBurnToSelf && from == to)
    ||| (e == Error::AmountMustBePositive && from != to && amount == 0)
    ||| (e == Error::InsufficientBalance && from != to && amount > 0 && clamp_u128(
        live_sum(s0.ledger(from), h),
    ) < amount)
}

// ---------------------------------------------------------------------------
// Spec: admission
// ---------------------------------------------------------------------------

/// What the admission predicate answers for each candidate message: reject
/// codes 1 (not yet claimable), 2 (self-burn), 3 (zero amount) and
/// 4 (insufficient balance), or a de-duplication tag with a short longevity.
pub open spec fn admission_spec(s: Pallet, cfg: Config, h: u32, call: Call) -> Admission {
    match call {
        Call::Claim { account } => {
            if claimable_periods_spec(s, cfg, h, account) == 0 {
                Admission::Reject { code: 1 }
            } else {
                Admission::Accept {
                    tag: TxTag::Claim { account, period: period_of(cfg, h) },
                    longevity: 5,
                }
            }
        },
        Call::Burn { from, to, amount } => {
            if from == to {
                Admission::Reject { code: 2 }
            } else if amount == 0 {
                Admission::Reject { code: 3 }
            } else if clamp_u128(live_sum(s.ledger(from), h)) < amount {
                Admission::Reject { code: 4 }
            } else {
                Admission::Accept { tag: TxTag::Burn { from, height: h }, longevity: 5 }
            }
        },
    }
}

// ---------------------------------------------------------------------------
// Lemmas shared by the handlers
// ---------------------------------------------------------------------------

/// Every ledger a well-formed store hands out is itself well-formed.
pub proof fn lemma_store_ledger_wf(s: Pallet, a: u64)
    requires
        s.wf(),
    ensures
        ledger_wf(s.ledger(a)),
{
    if assoc_has(s.ledgers@, a) {
        let i = crate::assoc::assoc_idx(s.ledgers@, a);
        assert(0 <= i < s.ledgers@.len() && s.ledgers@[i].0 == a);
        assert(ledger_wf(s.ledgers@[i].1@));
    }
}

/// Setting one well-formed ledger keeps every stored ledger well-formed.
proof fn lemma_ledgers_wf_after_set(
    s0: Seq<(u64, Vec<TokenBatch>)>,
    s1: Seq<(u64, Vec<TokenBatch>)>,
    k: u64,
)
    requires
        assoc_keys_unique(s0),
        assoc_update_frame(s0, s1, k),
        forall|i: int| 0 <= i < s0.len() ==> ledger_wf((#[trigger] s0[i]).1@),
        ledger_wf(assoc_get(s1, k)@),
    ensures
        forall|i: int| 0 <= i < s1.len() ==> ledger_wf((#[trigger] s1[i]).1@),
{
    lemma_assoc_frame(s0, s1, k);
    assert forall|i: int| 0 <= i < s1.len() implies ledger_wf((#[trigger] s1[i]).1@) by {
        if s1[i].0 == k {
            assert(i == crate::assoc::assoc_idx(s1, k));
        } else {
            assert(s1[i] == s0[i]);
        }
    }
}

impl Pallet {
    /// Claim the allowance for `who` at height `h`.
    ///
    /// Fails with `NothingToClaim` before the next period has begun, and
    /// with `TooManyBatches` when the swept ledger is full and no batch
    /// shares the new expiration; a failed claim changes nothing. A
    /// successful claim sweeps expired batches, mints the allowance for the
    /// eligible periods (capped at the backlog limit), stamps the claim
    /// height, adjusts the supply, and updates the claimant's reputation.
    pub fn claim(&mut self, cfg: &Config, h: u32, who: u64) -> (r: Result<Vec<Event>, Error>)
        requires
            old(self).wf(),
            cfg.wf(),
        ensures
            final(self).wf(),
            match r {
                Ok(ev) => claim_ok_post(*old(self), *final(self), *cfg, h, who, ev@),
                Err(e) => {
                    &&& *final(self) == *old(self)
                    &&& claim_err_post(*old(self), *cfg, h, who, e)
                },
            },
    {
        let ghost s0 = *self;
        let periods = self.calculate_claimable_periods(cfg, h, who);
        if periods == 0 {
            return Err(Error::NothingToClaim);
        }
        let p = if periods < cfg.max_backlog_periods {
            periods
        } else {
            cfg.max_backlog_periods
        };
        let mint = mul_sat_u128(cfg.ubi_amount, p as u128);
        proof {
            assert(mint == claim_mint(s0, *cfg, h, who));
            assert(cfg.ubi_amount * (p as u128) >= 1) by (nonlinear_arith)
                requires
                    cfg.ubi_amount >= 1,
                    p >= 1,
            ;
            assert(mint > 0);
        }
        let mut rep = self.reputation(who);
        let mut led = self.balances(who);
        let expired = cleanup_expired_batches(&mut led, h);
        let expires_at = add_sat_u32(h, cfg.expiration_blocks);
        proof {
            lemma_store_ledger_wf(s0, who);
            lemma_live_seq_props(s0.ledger(who), h);
        }
        match append_batch(&mut led, mint, expires_at) {
            Err(_) => {
                return Err(Error::TooManyBatches);
            },
            Ok(()) => {},
        }
        let ghost led1 = led@;
        let ghost reaped = live_seq(s0.ledger(who), h);
        proof {
            lemma_append_props(reaped, mint, expires_at);
            assert(ledger_wf(led1));
        }
        assoc_set(&mut self.ledgers, who, led);
        proof {
            lemma_ledgers_wf_after_set(s0.ledgers@, self.ledgers@, who);
            lemma_assoc_frame(s0.ledgers@, self.ledgers@, who);
        }
        if expired > 0 {
            self.supply = sub_sat_u128(self.supply, expired);
        }
        self.supply = add_sat_u128(self.supply, mint);
        assoc_set(&mut self.last_claims, who, h);
        proof {
            lemma_assoc_frame(s0.last_claims@, self.last_claims@, who);
        }
        let period = block_to_period(cfg, h);
        if rep.first_activity == 0 {
            rep.first_activity = h;
        }
        rep.score = apply_decay(rep.score);
        update_streak(&mut rep, period);
        rep.score = recalculate_score(&rep);
        proof {
            assert(rep == spec_claim_rep(s0.rep_of(who), h, period_of(*cfg, h)));
        }
        assoc_set(&mut self.reputations, who, rep);
        proof {
            lemma_assoc_frame(s0.reputations@, self.reputations@, who);
        }
        let mut ev: Vec<Event> = Vec::new();
        if expired > 0 {
            ev.push(Event::Expired { who, amount: expired });
        }
        ev.push(Event::Claimed { who, amount: mint, periods: p, expires_at });
        proof {
            let s1 = *self;
            assert(ev@ =~= claim_events(s0, *cfg, h, who));
            assert(s1.ledger(who) == led1);
            assert forall|a: u64| a != who implies #[trigger] s1.ledger(a) == s0.ledger(a) by {
                if assoc_has(s0.ledgers@, a) {
                    assert(assoc_get(s1.ledgers@, a) == assoc_get(s0.ledgers@, a));
                } else {
                    assert(!assoc_has(s1.ledgers@, a));
                }
            }
            assert forall|a: u64| a != who implies #[trigger] s1.last_claim_of(a)
                == s0.last_claim_of(a) by {
                if assoc_has(s0.last_claims@, a) {
                    assert(assoc_get(s1.last_claims@, a) == assoc_get(s0.last_claims@, a));
                } else {
                    assert(!assoc_has(s1.last_claims@, a));
                }
            }
            assert forall|a: u64| a != who implies #[trigger] s1.rep_of(a) == s0.rep_of(a) by {
                if assoc_has(s0.reputations@, a) {
                    assert(assoc_get(s1.reputations@, a) == assoc_get(s0.reputations@, a));
                } else {
                    assert(!assoc_has(s1.reputations@, a));
                }
            }
        }
        Ok(ev)
    }

    /// Burn `amount` of `from`'s tokens in favour of `to` at height `h`.
    ///
    /// The recipient receives no balance, only a recorded attestation. Fails
    /// with `CannotBurnToSelf`, `AmountMustBePositive` or
    /// `InsufficientBalance`, changing nothing. A successful burn sweeps
    /// expired batches, consumes the earliest-expiring live batches first,
    /// lowers the supply, records the pair for the breadth bonus, and
    /// updates both parties' reputation — weighting the recipient's credit
    /// by the score the sender had going into the burn.
    pub fn burn(&mut self, h: u32, from: u64, to: u64, amount: u128) -> (r: Result<
        Vec<Event>,
        Error,
    >)
        requires
            old(self).wf(),
        ensures
            final(self).wf(),
            match r {
                Ok(ev) => burn_ok_post(*old(self), *final(self), h, from, to, amount, ev@),
                Err(e) => {
                    &&& *final(self) == *old(self)
                    &&& burn_err_post(*old(self), h, from, to, amount, e)
                },
            },
    {
        let ghost s0 = *self;
        if from == to {
            return Err(Error::CannotBurnToSelf);
        }
        if amount == 0 {
            return Err(Error::AmountMustBePositive);
        }
        let srep0 = self.reputation(from);
        let rrep0 = self.reputation(to);
        let mut led = self.balances(from);
        let expired = cleanup_expired_batches(&mut led, h);
        proof {
            lemma_store_ledger_wf(s0, from);
            lemma_live_seq_props(s0.ledger(from), h);
        }
        match burn_fifo(&mut led, amount, h) {
            Err(_) => {
                return Err(Error::InsufficientBalance);
            },
            Ok(()) => {},
        }
        let ghost reaped = live_seq(s0.ledger(from), h);
        let ghost led1 = led@;
        proof {
            lemma_consume_props(reaped, amount as int, h);
            assert(ledger_wf(led1));
        }
        assoc_set(&mut self.ledgers, from, led);
        proof {
            lemma_ledgers_wf_after_set(s0.ledgers@, self.ledgers@, from);
            lemma_assoc_frame(s0.ledgers@, self.ledgers@, from);
        }
        if expired > 0 {
            self.supply = sub_sat_u128(self.supply, expired);
        }
        self.supply = sub_sat_u128(self.supply, amount);
        let sender_score = srep0.score;
        let sender_weight = calculate_sender_weight(sender_score);
        let weighted = mul_sat_u128(amount, sender_weight) / WEIGHT_SCALE;
        let is_new = !self.has_burned_to(from, to);
        proof {
            assert(self.unique_pairs@ == s0.unique_pairs@);
            assert(is_new == !s0.burned_to(from, to));
        }
        if is_new {
            self.unique_pairs.push((from, to));
            proof {
                let ps = self.unique_pairs@;
                assert forall|i: int, j: int| 0 <= i < j < ps.len() implies ps[i] != ps[j] by {
                    if j == ps.len() - 1 {
                        assert(ps[i] == s0.unique_pairs@[i]);
                        assert(!s0.unique_pairs@.contains((from, to)));
                    }
                }
            }
        }
        let mut srep = srep0;
        srep.burns_sent_count = crate::arith::add_sat_u64(srep.burns_sent_count, 1);
        srep.burns_sent_volume = add_sat_u128(srep.burns_sent_volume, amount);
        if is_new {
            srep.unique_recipients_count = add_sat_u32(srep.unique_recipients_count, 1);
        }
        if srep.first_activity == 0 {
            srep.first_activity = h;
        }
        srep.score = recalculate_score(&srep);
        proof {
            assert(srep == spec_burn_sender_rep(s0.rep_of(from), amount, !s0.burned_to(from, to), h));
        }
        assoc_set(&mut self.reputations, from, srep);
        let ghost rmid = self.reputations@;
        proof {
            lemma_assoc_frame(s0.reputations@, rmid, from);
        }
        let mut rrep = rrep0;
        rrep.burns_received_count = crate::arith::add_sat_u64(rrep.burns_received_count, 1);
        rrep.burns_received_volume = add_sat_u128(rrep.burns_received_volume, amount);
        rrep.weighted_received = add_sat_u128(rrep.weighted_received, weighted);
        if rrep.first_activity == 0 {
            rrep.first_activity = h;
        }
        rrep.score = recalculate_score(&rrep);
        proof {
            assert(rrep == spec_burn_recipient_rep(
                s0.rep_of(to),
                amount,
                weighted_credit(amount, s0.rep_of(from).score),
                h,
            ));
        }
        assoc_set(&mut self.reputations, to, rrep);
        proof {
            lemma_assoc_frame(rmid, self.reputations@, to);
        }
        let mut ev: Vec<Event> = Vec::new();
        if expired > 0 {
            ev.push(Event::Expired { who: from, amount: expired });
        }
        ev.push(Event::Burned { from, to, amount });
        proof {
            let s1 = *self;
            assert(ev@ =~= burn_events(s0, h, from, to, amount));
            assert(s1.ledger(from) == led1);
            assert forall|a: u64| a != from implies #[trigger] s1.ledger(a) == s0.ledger(a) by {
                if assoc_has(s0.ledgers@, a) {
                    assert(assoc_get(s1.ledgers@, a) == assoc_get(s0.ledgers@, a));
                } else {
                    assert(!assoc_has(s1.ledgers@, a));
                }
            }
            // the sender's record survives the recipient's update
            assert(assoc_get(s1.reputations@, from) == srep);
            assert(s1.rep_of(from) == srep);
            assert(s1.rep_of(to) == rrep);
            assert forall|a: u64| a != from && a != to implies #[trigger] s1.rep_of(a)
                == s0.rep_of(a) by {
                if assoc_has(s0.reputations@, a) {
                    assert(assoc_get(rmid, a) == assoc_get(s0.reputations@, a));
                    assert(assoc_get(s1.reputations@, a) == assoc_get(rmid, a));
                } else {
                    assert(!assoc_has(rmid, a));
                    assert(!assoc_has(s1.reputations@, a));
                }
            }
        }
        Ok(ev)
    }

    /// Screen a candidate message at height `h` without touching the store.
    ///
    /// Advisory only: the authoritative checks run again at commit time. An
    /// accepted message carries a tag the host can de-duplicate on — one
    /// claim per account and period, one burn per sender and height.
    pub fn validate_unsigned(&self, cfg: &Config, h: u32, call: &Call) -> (r: Admission)
        requires
            self.wf(),
            cfg.wf(),
        ensures
            r == admission_spec(*self, *cfg, h, *call),
    {
        match *call {
            Call::Claim { account } => {
                let claimable = self.calculate_claimable_periods(cfg, h, account);
                if claimable == 0 {
                    Admission::Reject { code: 1 }
                } else {
                    let period = block_to_period(cfg, h);
                    Admission::Accept { tag: TxTag::Claim { account, period }, longevity: 5 }
                }
            },
            Call::Burn { from, to, amount } => {
                if from == to {
                    Admission::Reject { code: 2 }
                } else if amount == 0 {
                    Admission::Reject { code: 3 }
                } else if self.spendable_balance(h, from) < amount {
                    Admission::Reject { code: 4 }
                } else {
                    Admission::Accept { tag: TxTag::Burn { from, height: h }, longevity: 5 }
                }
            },
        }
    }
}

} // verus!
