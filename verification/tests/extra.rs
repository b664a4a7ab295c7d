use ubi_token::arith::{add_sat_u128, mul_sat_u128, sub_sat_u128};
use ubi_token::ledger::{append_batch, burn_fifo, cleanup_expired_batches, live_balance};
use ubi_token::pallet::Pallet;
use ubi_token::reputation::{
    apply_decay, block_to_period, calculate_sender_weight, calculate_streak_bonus, update_streak,
};
use ubi_token::types::{Admission, Call, Config, Error, Event, Reputation, TokenBatch, TxTag};

const ALICE: u64 = 1;
const BOB: u64 = 2;

fn test_config() -> Config {
    Config {
        ubi_amount: 100,
        claim_period_blocks: 100,
        expiration_blocks: 700,
        max_backlog_periods: 3,
    }
}

// ============================================================================
// ADMISSION PREDICATE
// ============================================================================

#[test]
fn admission_accepts_fresh_claim_with_tag() {
    let cfg = test_config();
    let p = Pallet::new();
    let r = p.validate_unsigned(&cfg, 1, &Call::Claim { account: ALICE });
    assert_eq!(
        r,
        Admission::Accept { tag: TxTag::Claim { account: ALICE, period: 0 }, longevity: 5 }
    );

    // A later height tags a later period
    let r = p.validate_unsigned(&cfg, 150, &Call::Claim { account: ALICE });
    assert_eq!(
        r,
        Admission::Accept { tag: TxTag::Claim { account: ALICE, period: 1 }, longevity: 5 }
    );
}

#[test]
fn admission_rejects_premature_claim() {
    let cfg = test_config();
    let mut p = Pallet::new();
    p.claim(&cfg, 1, ALICE).unwrap();
    let r = p.validate_unsigned(&cfg, 1, &Call::Claim { account: ALICE });
    assert_eq!(r, Admission::Reject { code: 1 });
}

#[test]
fn admission_rejects_self_burn() {
    let cfg = test_config();
    let p = Pallet::new();
    let r = p.validate_unsigned(&cfg, 1, &Call::Burn { from: ALICE, to: ALICE, amount: 10 });
    assert_eq!(r, Admission::Reject { code: 2 });
}

#[test]
fn admission_rejects_zero_amount_burn() {
    let cfg = test_config();
    let p = Pallet::new();
    let r = p.validate_unsigned(&cfg, 1, &Call::Burn { from: ALICE, to: BOB, amount: 0 });
    assert_eq!(r, Admission::Reject { code: 3 });
}

#[test]
fn admission_rejects_underfunded_burn() {
    let cfg = test_config();
    let mut p = Pallet::new();
    p.claim(&cfg, 1, ALICE).unwrap();
    let r = p.validate_unsigned(&cfg, 1, &Call::Burn { from: ALICE, to: BOB, amount: 101 });
    assert_eq!(r, Admission::Reject { code: 4 });
}

#[test]
fn admission_accepts_funded_burn_with_tag() {
    let cfg = test_config();
    let mut p = Pallet::new();
    p.claim(&cfg, 1, ALICE).unwrap();
    let r = p.validate_unsigned(&cfg, 1, &Call::Burn { from: ALICE, to: BOB, amount: 100 });
    assert_eq!(
        r,
        Admission::Accept { tag: TxTag::Burn { from: ALICE, height: 1 }, longevity: 5 }
    );
}

// ============================================================================
// LEDGER OPERATIONS
// ============================================================================

#[test]
fn append_merges_batches_with_equal_expiry() {
    let mut v = vec![TokenBatch { amount: 100, expires_at: 50 }];
    append_batch(&mut v, 30, 50).unwrap();
    assert_eq!(v.len(), 1);
    assert_eq!(v[0].amount, 130);
    assert_eq!(v[0].expires_at, 50);
}

#[test]
fn append_inserts_in_expiration_order() {
    let mut v = vec![TokenBatch { amount: 100, expires_at: 50 }];
    append_batch(&mut v, 30, 20).unwrap();
    append_batch(&mut v, 40, 90).unwrap();
    assert_eq!(v.len(), 3);
    assert_eq!(v[0].expires_at, 20);
    assert_eq!(v[1].expires_at, 50);
    assert_eq!(v[2].expires_at, 90);
}

#[test]
fn append_fails_when_ledger_is_full() {
    let mut v: Vec<TokenBatch> = Vec::new();
    for i in 0..10 {
        append_batch(&mut v, 1, 10 + i).unwrap();
    }
    let before = v.clone();
    assert_eq!(append_batch(&mut v, 1, 100), Err(Error::TooManyBatches));
    assert_eq!(v, before);
    // A merge is still possible on a full ledger
    append_batch(&mut v, 5, 10).unwrap();
    assert_eq!(v[0].amount, 6);
}

#[test]
fn claim_fails_with_too_many_batches() {
    // A long expiration lets ten distinct claim expirations pile up
    let cfg = Config {
        ubi_amount: 100,
        claim_period_blocks: 100,
        expiration_blocks: 100_000,
        max_backlog_periods: 3,
    };
    let mut p = Pallet::new();
    for i in 0..10 {
        p.claim(&cfg, i * 100 + 1, ALICE).unwrap();
    }
    assert_eq!(p.balances(ALICE).len(), 10);
    let before = p.clone();
    assert_eq!(p.claim(&cfg, 1001, ALICE), Err(Error::TooManyBatches));
    assert_eq!(p, before);
}

#[test]
fn burn_fifo_skips_expired_and_drains_earliest() {
    let mut v = vec![
        TokenBatch { amount: 40, expires_at: 5 },
        TokenBatch { amount: 100, expires_at: 50 },
        TokenBatch { amount: 100, expires_at: 90 },
    ];
    // At height 10 the first batch is expired: only 200 are live
    assert_eq!(live_balance(&v, 10), 200);
    burn_fifo(&mut v, 150, 10).unwrap();
    // The expired batch is skipped, the 50-batch drained, 50 taken from the last
    assert_eq!(v.len(), 2);
    assert_eq!(v[0], TokenBatch { amount: 40, expires_at: 5 });
    assert_eq!(v[1], TokenBatch { amount: 50, expires_at: 90 });
}

#[test]
fn cleanup_returns_expired_total() {
    let mut v = vec![
        TokenBatch { amount: 40, expires_at: 5 },
        TokenBatch { amount: 60, expires_at: 10 },
        TokenBatch { amount: 100, expires_at: 50 },
    ];
    let expired = cleanup_expired_batches(&mut v, 10);
    assert_eq!(expired, 100);
    assert_eq!(v, vec![TokenBatch { amount: 100, expires_at: 50 }]);
}

// ============================================================================
// ARITHMETIC AND REPUTATION KERNEL
// ============================================================================

#[test]
fn sender_weight_tiers_are_exact() {
    assert_eq!(calculate_sender_weight(0), 500);
    assert_eq!(calculate_sender_weight(9), 500);
    assert_eq!(calculate_sender_weight(10), 750);
    assert_eq!(calculate_sender_weight(99), 750);
    assert_eq!(calculate_sender_weight(100), 1000);
    assert_eq!(calculate_sender_weight(999), 1000);
    assert_eq!(calculate_sender_weight(1000), 1500);
    assert_eq!(calculate_sender_weight(9999), 1500);
    assert_eq!(calculate_sender_weight(10000), 2000);
    assert_eq!(calculate_sender_weight(u128::MAX), 2000);
}

#[test]
fn decay_takes_five_percent() {
    assert_eq!(apply_decay(1000), 950);
    assert_eq!(apply_decay(10), 9);
    assert_eq!(apply_decay(0), 0);
    // saturating at the top: the product clamps before the division
    assert_eq!(apply_decay(u128::MAX), u128::MAX / 1000);
}

#[test]
fn streak_bonus_formula() {
    assert_eq!(calculate_streak_bonus(0), 0);
    assert_eq!(calculate_streak_bonus(1), 10);
    assert_eq!(calculate_streak_bonus(49), 490);
    assert_eq!(calculate_streak_bonus(50), 500);
    assert_eq!(calculate_streak_bonus(60), 500);
}

#[test]
fn saturating_arithmetic_clamps() {
    assert_eq!(add_sat_u128(u128::MAX, 1), u128::MAX);
    assert_eq!(add_sat_u128(1, 2), 3);
    assert_eq!(sub_sat_u128(1, 2), 0);
    assert_eq!(sub_sat_u128(5, 2), 3);
    assert_eq!(mul_sat_u128(u128::MAX, 2), u128::MAX);
    assert_eq!(mul_sat_u128(7, 6), 42);
}

#[test]
fn streak_update_respects_grace_window() {
    let mut rep = Reputation::default();
    rep.claim_streak = 2;
    rep.last_claim_period = 5;
    // a gap of three periods still extends the streak
    assert_eq!(update_streak(&mut rep, 8), 3);
    assert_eq!(rep.last_claim_period, 8);
    // a gap of four resets it
    let mut rep = Reputation::default();
    rep.claim_streak = 7;
    rep.last_claim_period = 5;
    assert_eq!(update_streak(&mut rep, 9), 1);
}

#[test]
fn block_to_period_divides_by_period_length() {
    let cfg = test_config();
    assert_eq!(block_to_period(&cfg, 0), 0);
    assert_eq!(block_to_period(&cfg, 99), 0);
    assert_eq!(block_to_period(&cfg, 100), 1);
    assert_eq!(block_to_period(&cfg, 150), 1);
}

// ============================================================================
// INVARIANT SCENARIOS
// ============================================================================

#[test]
fn supply_equals_stored_value_across_operations() {
    let cfg = test_config();
    let mut p = Pallet::new();
    p.claim(&cfg, 1, ALICE).unwrap();
    p.claim(&cfg, 1, BOB).unwrap();
    p.burn(1, ALICE, BOB, 30).unwrap();
    p.claim(&cfg, 101, ALICE).unwrap();
    // Supply always equals the sum of every stored batch
    let stored: u128 = p.total_balance(ALICE) + p.total_balance(BOB);
    assert_eq!(p.total_supply(), stored);
    assert_eq!(p.total_supply(), 70 + 100 + 100);
}

#[test]
fn spendable_plus_expired_equals_total() {
    let cfg = test_config();
    let mut p = Pallet::new();
    p.claim(&cfg, 1, ALICE).unwrap();
    // At height 702 the batch has expired but has not been swept yet
    assert_eq!(p.spendable_balance(702, ALICE), 0);
    assert_eq!(p.total_balance(ALICE), 100);
    // The first operation sweeps it and the supply drops by its value
    p.burn(702, ALICE, BOB, 0).unwrap_err();
    let ev = p.claim(&cfg, 702, ALICE).unwrap();
    assert_eq!(ev[0], Event::Expired { who: ALICE, amount: 100 });
    assert_eq!(p.total_balance(ALICE), 300);
    assert_eq!(p.total_supply(), 300);
}

#[test]
fn stored_batches_are_positive_and_live() {
    let cfg = test_config();
    let mut p = Pallet::new();
    p.claim(&cfg, 1, ALICE).unwrap();
    p.claim(&cfg, 101, ALICE).unwrap();
    p.burn(101, ALICE, BOB, 120).unwrap();
    for b in p.balances(ALICE) {
        assert!(b.amount > 0);
        assert!(b.expires_at > 101);
    }
}

#[test]
fn last_claim_never_exceeds_height() {
    let cfg = test_config();
    let mut p = Pallet::new();
    p.claim(&cfg, 1, ALICE).unwrap();
    assert!(p.last_claim(ALICE).unwrap() <= 1);
    p.claim(&cfg, 350, ALICE).unwrap();
    assert!(p.last_claim(ALICE).unwrap() <= 350);
    assert_eq!(p.last_claim(ALICE), Some(350));
}
