//! Data model: token batches, reputation records, configuration, messages,
//! events and errors.

use vstd::prelude::*;

verus! {

/// Maximum number of token batches a single account may hold.
pub const MAX_BATCHES: usize = 10;

/// Fixed-point scale: a weight of 1000 means 1.0.
pub const WEIGHT_SCALE: u128 = 1000;

/// Minimum sender weight (0.5, fixed-point by 1000).
pub const MIN_SENDER_WEIGHT: u128 = 500;

/// Maximum sender weight (2.0, fixed-point by 1000).
pub const MAX_SENDER_WEIGHT: u128 = 2000;

/// Decay factor applied to a cached score on each claim (0.95, by 1000).
pub const DECAY_FACTOR: u128 = 950;

/// Reputation points per unique burn recipient.
pub const POINTS_PER_UNIQUE_RECIPIENT: u128 = 50;

/// Reputation points per claim-streak step.
pub const POINTS_PER_STREAK_DAY: u128 = 10;

/// Cap on the streak bonus.
pub const MAX_STREAK_BONUS: u128 = 500;

/// Multiplier applied to weighted received volume in the score.
pub const WEIGHTED_RECEIVED_MULTIPLIER: u128 = 2;

/// Number of claim periods an account may miss without losing its streak.
pub const STREAK_GRACE_PERIODS: u64 = 2;

/// A batch of tokens that all expire at the same block height.
///
/// A batch is *live* at height `h` iff `expires_at > h`.
#[derive(Clone, Copy, PartialEq, Eq, Structural, Debug)]
pub struct TokenBatch {
    /// Amount of tokens in this batch.
    pub amount: u128,
    /// Block height at which these tokens expire.
    pub expires_at: u32,
}

/// Per-account reputation record. The default record is all zeroes.
#[derive(Clone, Copy, PartialEq, Eq, Structural, Debug)]
pub struct Reputation {
    /// Number of burn transactions sent.
    pub burns_sent_count: u64,
    /// Total volume of tokens burned away by this account.
    pub burns_sent_volume: u128,
    /// Number of burn transactions received.
    pub burns_received_count: u64,
    /// Total volume of tokens burned to this account (unweighted).
    pub burns_received_volume: u128,
    /// Block height of first activity; 0 means no activity yet.
    pub first_activity: u32,
    /// Received volume weighted by each sender's standing at burn time.
    pub weighted_received: u128,
    /// Number of distinct recipients this account has burned to.
    pub unique_recipients_count: u32,
    /// Current streak of consecutive (modulo grace) periods claimed.
    pub claim_streak: u32,
    /// Period number of the most recent claim, for streak tracking.
    pub last_claim_period: u64,
    /// Cached reputation score, updated on claim and burn.
    pub score: u128,
}

impl Reputation {
    /// The all-zero record of an account with no history.
    pub open spec fn zero() -> Reputation {
        Reputation {
            burns_sent_count: 0,
            burns_sent_volume: 0,
            burns_received_count: 0,
            burns_received_volume: 0,
            first_activity: 0,
            weighted_received: 0,
            unique_recipients_count: 0,
            claim_streak: 0,
            last_claim_period: 0,
            score: 0,
        }
    }
}

impl Default for Reputation {
    fn default() -> (r: Reputation)
        ensures
            r == Reputation::zero(),
    {
        Reputation {
            burns_sent_count: 0,
            burns_sent_volume: 0,
            burns_received_count: 0,
            burns_received_volume: 0,
            first_activity: 0,
            weighted_received: 0,
            unique_recipients_count: 0,
            claim_streak: 0,
            last_claim_period: 0,
            score: 0,
        }
    }
}

/// Configuration parameters, fixed at initialization.
#[derive(Clone, Copy, PartialEq, Eq, Structural, Debug)]
pub struct Config {
    /// Tokens minted per eligible claim period.
    pub ubi_amount: u128,
    /// Blocks per claim period.
    pub claim_period_blocks: u32,
    /// Blocks a freshly minted batch lives.
    pub expiration_blocks: u32,
    /// Cap on the number of periods one claim can cover.
    pub max_backlog_periods: u32,
}

impl Config {
    /// A usable configuration: every parameter is positive.
    ///
    /// A zero claim period would make the period arithmetic divide by zero;
    /// a zero allowance or backlog cap would mint empty batches; a zero
    /// expiration would mint batches that are born expired.
    pub open spec fn wf(self) -> bool {
        &&& self.ubi_amount > 0
        &&& self.claim_period_blocks > 0
        &&& self.expiration_blocks > 0
        &&& self.max_backlog_periods > 0
    }
}

/// Events emitted by committed operations.
#[derive(Clone, Copy, PartialEq, Eq, Structural, Debug)]
pub enum Event {
    /// Tokens were claimed.
    Claimed { who: u64, amount: u128, periods: u32, expires_at: u32 },
    /// Tokens were burned in favour of `to`, who receives no balance.
    Burned { from: u64, to: u64, amount: u128 },
    /// Expired tokens were swept out of an account's ledger.
    Expired { who: u64, amount: u128 },
}

/// Errors surfaced by the core. A failed operation changes nothing.
#[derive(Clone, Copy, PartialEq, Eq, Structural, Debug)]
pub enum Error {
    /// No claimable period is available yet.
    NothingToClaim,
    /// The sender's live balance is smaller than the requested burn.
    InsufficientBalance,
    /// A burn must name a recipient other than the sender.
    CannotBurnToSelf,
    /// A burn amount must be greater than zero.
    AmountMustBePositive,
    /// Appending one more batch would exceed [`MAX_BATCHES`].
    TooManyBatches,
    /// Reserved: arithmetic is saturating, so this is never raised.
    Overflow,
}

/// A candidate message, as screened by admission and applied by the handlers.
#[derive(Clone, Copy, PartialEq, Eq, Structural, Debug)]
pub enum Call {
    /// Claim the allowance for `account`.
    Claim { account: u64 },
    /// Burn `amount` of `from`'s tokens in favour of `to`.
    Burn { from: u64, to: u64, amount: u128 },
}

/// De-duplication tag attached to an admitted message.
#[derive(Clone, Copy, PartialEq, Eq, Structural, Debug)]
pub enum TxTag {
    /// One claim per account and period.
    Claim { account: u64, period: u64 },
    /// One burn per sender and height.
    Burn { from: u64, height: u32 },
}

/// Result of screening a candidate message before commitment.
#[derive(Clone, Copy, PartialEq, Eq, Structural, Debug)]
pub enum Admission {
    /// The message may enter the pipeline.
    Accept { tag: TxTag, longevity: u32 },
    /// The message is obviously doomed; the code says why.
    Reject { code: u8 },
}

} // verus!
