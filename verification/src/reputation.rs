//! Reputation kernel: sender-weight tiers, decay, streak tracking and the
//! score formula.

use vstd::prelude::*;
use crate::arith::{
    add_sat_u128, add_sat_u32, mul_sat_u128, sat_add_u128, sat_add_u32, sat_add_u64, sat_mul_u128,
    sat_sub_u64, sub_sat_u64,
};
use crate::types::{
    Config, Reputation, DECAY_FACTOR, MAX_SENDER_WEIGHT, MAX_STREAK_BONUS, MIN_SENDER_WEIGHT,
    POINTS_PER_STREAK_DAY, POINTS_PER_UNIQUE_RECIPIENT, STREAK_GRACE_PERIODS, WEIGHTED_RECEIVED_MULTIPLIER,
    WEIGHT_SCALE,
};

verus! {

/// Weight of a sender with cached score `score`, fixed-point by 1000.
///
/// A tier lookup rather than a true logarithm: cheap, and deterministic
/// across integer widths.
pub open spec fn spec_sender_weight(score: u128) -> u128 {
    if score < 10 {
        MIN_SENDER_WEIGHT
    } else if score < 100 {
        750
    } else if score < 1000 {
        1000
    } else if score < 10000 {
        1500
    } else {
        MAX_SENDER_WEIGHT
    }
}

/// A score after one application of decay: `score * 950 / 1000`.
pub open spec fn spec_decay(score: u128) -> u128 {
    sat_mul_u128(score, DECAY_FACTOR) / WEIGHT_SCALE
}

/// Streak bonus: `min(streak * 10, 500)`.
pub open spec fn spec_streak_bonus(streak: u32) -> u128 {
    let bonus = sat_mul_u128(streak as u128, POINTS_PER_STREAK_DAY);
    if bonus > MAX_STREAK_BONUS {
        MAX_STREAK_BONUS
    } else {
        bonus
    }
}

/// The score formula:
/// `unique_recipients * 50 + burns_sent_volume + weighted_received * 2 + streak bonus`,
/// every step saturating.
pub open spec fn spec_score(r: Reputation) -> u128 {
    sat_add_u128(
        sat_add_u128(
            sat_add_u128(
                sat_mul_u128(r.unique_recipients_count as u128, POINTS_PER_UNIQUE_RECIPIENT),
                r.burns_sent_volume,
            ),
            sat_mul_u128(r.weighted_received, WEIGHTED_RECEIVED_MULTIPLIER),
        ),
        spec_streak_bonus(r.claim_streak),
    )
}

/// A record after a streak update in `period`: a gap of at most
/// `STREAK_GRACE_PERIODS + 1` periods extends the streak, a larger gap resets
/// it to 1.
pub open spec fn spec_update_streak(r: Reputation, period: u64) -> Reputation {
    let gap = sat_sub_u64(period, r.last_claim_period);
    Reputation {
        claim_streak: if gap <= STREAK_GRACE_PERIODS + 1 {
            sat_add_u32(r.claim_streak, 1)
        } else {
            1
        },
        last_claim_period: period,
        ..r
    }
}

/// A record after a successful claim at height `h` falling in `period`:
/// first activity is stamped, the streak is updated, and the score is
/// recomputed. The decay applied to the cached score is overwritten by the
/// recomputation, so it does not show in the committed record.
pub open spec fn spec_claim_rep(r: Reputation, h: u32, period: u64) -> Reputation {
    let stamped = Reputation {
        first_activity: if r.first_activity == 0 {
            h
        } else {
            r.first_activity
        },
        ..r
    };
    let streaked = spec_update_streak(stamped, period);
    Reputation { score: spec_score(streaked), ..streaked }
}

/// A sender's record after a successful burn of `amount` at height `h`;
/// `is_new` says whether the recipient was burned to for the first time.
pub open spec fn spec_burn_sender_rep(r: Reputation, amount: u128, is_new: bool, h: u32) -> Reputation {
    let updated = Reputation {
        burns_sent_count: sat_add_u64(r.burns_sent_count, 1),
        burns_sent_volume: sat_add_u128(r.burns_sent_volume, amount),
        unique_recipients_count: if is_new {
            sat_add_u32(r.unique_recipients_count, 1)
        } else {
            r.unique_recipients_count
        },
        first_activity: if r.first_activity == 0 {
            h
        } else {
            r.first_activity
        },
        ..r
    };
    Reputation { score: spec_score(updated), ..updated }
}

/// A recipient's record after a burn of `amount` at height `h`, credited
/// with `weighted` (the amount scaled by the sender's weight).
pub open spec fn spec_burn_recipient_rep(r: Reputation, amount: u128, weighted: u128, h: u32) -> Reputation {
    let updated = Reputation {
        burns_received_count: sat_add_u64(r.burns_received_count, 1),
        burns_received_volume: sat_add_u128(r.burns_received_volume, amount),
        weighted_received: sat_add_u128(r.weighted_received, weighted),
        first_activity: if r.first_activity == 0 {
            h
        } else {
            r.first_activity
        },
        ..r
    };
    Reputation { score: spec_score(updated), ..updated }
}

/// Sender weight from the sender's cached score.
pub fn calculate_sender_weight(sender_score: u128) -> (w: u128)
    ensures
        w == spec_sender_weight(sender_score),
{
    if sender_score < 10 {
        MIN_SENDER_WEIGHT
    } else if sender_score < 100 {
        750
    } else if sender_score < 1000 {
        1000
    } else if sender_score < 10000 {
        1500
    } else {
        MAX_SENDER_WEIGHT
    }
}

/// The claim period a block height falls in.
pub fn block_to_period(cfg: &Config, block: u32) -> (p: u64)
    requires
        cfg.claim_period_blocks > 0,
    ensures
        p == block as int / cfg.claim_period_blocks as int,
{
    (block as u64) / (cfg.claim_period_blocks as u64)
}

/// Update the claim streak for a claim in `current_period`; returns the new
/// streak value.
pub fn update_streak(rep: &mut Reputation, current_period: u64) -> (streak: u32)
    ensures
        *final(rep) == spec_update_streak(*old(rep), current_period),
        streak == final(rep).claim_streak,
{
    let periods_missed = sub_sat_u64(current_period, rep.last_claim_period);
    if periods_missed <= STREAK_GRACE_PERIODS + 1 {
        rep.claim_streak = add_sat_u32(rep.claim_streak, 1);
    } else {
        rep.claim_streak = 1;
    }
    rep.last_claim_period = current_period;
    rep.claim_streak
}

/// Apply one step of decay to a cached score.
pub fn apply_decay(score: u128) -> (r: u128)
    ensures
        r == spec_decay(score),
{
    mul_sat_u128(score, DECAY_FACTOR) / WEIGHT_SCALE
}

/// Streak bonus: 10 points per streak step, capped at 500.
pub fn calculate_streak_bonus(streak: u32) -> (r: u128)
    ensures
        r == spec_streak_bonus(streak),
{
    let bonus = mul_sat_u128(streak as u128, POINTS_PER_STREAK_DAY);
    if bonus > MAX_STREAK_BONUS {
        MAX_STREAK_BONUS
    } else {
        bonus
    }
}

/// Recompute the full score from the record's components.
pub fn recalculate_score(rep: &Reputation) -> (r: u128)
    ensures
        r == spec_score(*rep),
{
    let unique_bonus = mul_sat_u128(rep.unique_recipients_count as u128, POINTS_PER_UNIQUE_RECIPIENT);
    let sent_bonus = rep.burns_sent_volume;
    let received_bonus = mul_sat_u128(rep.weighted_received, WEIGHTED_RECEIVED_MULTIPLIER);
    let streak_bonus = calculate_streak_bonus(rep.claim_streak);
    add_sat_u128(add_sat_u128(add_sat_u128(unique_bonus, sent_bonus), received_bonus), streak_bonus)
}

} // verus!
