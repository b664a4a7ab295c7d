use ubi_token::pallet::Pallet;
use ubi_token::types::{Config, Error, Event};

const ALICE: u64 = 1;
const BOB: u64 = 2;
const CHARLIE: u64 = 3;

fn test_config() -> Config {
    Config {
        ubi_amount: 100,
        claim_period_blocks: 100,
        expiration_blocks: 700,
        max_backlog_periods: 3,
    }
}

// ============================================================================
// CLAIM TESTS
// ============================================================================

#[test]
fn claim_works_for_new_account() {
    let cfg = test_config();
    let mut p = Pallet::new();

    // Alice claims for the first time
    let ev = p.claim(&cfg, 1, ALICE).unwrap();

    // Check balance
    assert_eq!(p.spendable_balance(1, ALICE), 100);

    // Check total supply
    assert_eq!(p.total_supply(), 100);

    // Check last claim updated
    assert!(p.last_claim(ALICE).is_some());

    // Check event
    assert_eq!(
        ev.last().unwrap(),
        &Event::Claimed { who: ALICE, amount: 100, periods: 1, expires_at: 1 + 700 }
    );
}

#[test]
fn cannot_claim_twice_in_same_period() {
    let cfg = test_config();
    let mut p = Pallet::new();
    p.claim(&cfg, 1, ALICE).unwrap();

    // Try to claim again immediately
    let before = p.clone();
    assert_eq!(p.claim(&cfg, 1, ALICE), Err(Error::NothingToClaim));
    assert_eq!(p, before);
}

#[test]
fn can_claim_after_one_period() {
    let cfg = test_config();
    let mut p = Pallet::new();
    p.claim(&cfg, 1, ALICE).unwrap();
    assert_eq!(p.spendable_balance(1, ALICE), 100);

    // Advance one claim period (100 blocks): can claim again
    p.claim(&cfg, 101, ALICE).unwrap();
    assert_eq!(p.spendable_balance(101, ALICE), 200);
}

#[test]
fn can_claim_backlog_up_to_max() {
    let cfg = test_config();
    let mut p = Pallet::new();
    p.claim(&cfg, 1, ALICE).unwrap();

    // Advance 5 periods (500 blocks) - should only get 3 periods of backlog
    let ev = p.claim(&cfg, 501, ALICE).unwrap();

    // 3 periods (max backlog) = 300 tokens, plus the 100 from the first claim
    assert_eq!(p.spendable_balance(501, ALICE), 400);

    // Check event shows 3 periods
    assert_eq!(
        ev.last().unwrap(),
        &Event::Claimed { who: ALICE, amount: 300, periods: 3, expires_at: 501 + 700 }
    );
}

#[test]
fn first_activity_recorded_on_claim() {
    let cfg = test_config();
    let mut p = Pallet::new();
    let rep_before = p.reputation(ALICE);
    assert_eq!(rep_before.first_activity, 0);

    p.claim(&cfg, 1, ALICE).unwrap();

    let rep_after = p.reputation(ALICE);
    assert_eq!(rep_after.first_activity, 1); // Block 1
}

#[test]
fn multiple_accounts_can_claim() {
    let cfg = test_config();
    let mut p = Pallet::new();
    p.claim(&cfg, 1, ALICE).unwrap();
    p.claim(&cfg, 1, BOB).unwrap();
    p.claim(&cfg, 1, CHARLIE).unwrap();

    assert_eq!(p.spendable_balance(1, ALICE), 100);
    assert_eq!(p.spendable_balance(1, BOB), 100);
    assert_eq!(p.spendable_balance(1, CHARLIE), 100);

    assert_eq!(p.total_supply(), 300);
}

// ============================================================================
// BURN TESTS
// ============================================================================

#[test]
fn burn_works() {
    let cfg = test_config();
    let mut p = Pallet::new();
    p.claim(&cfg, 1, ALICE).unwrap();

    // Alice burns 50 tokens to Bob
    let ev = p.burn(1, ALICE, BOB, 50).unwrap();

    // Alice balance decreased
    assert_eq!(p.spendable_balance(1, ALICE), 50);

    // Bob balance unchanged (burn doesn't transfer)
    assert_eq!(p.spendable_balance(1, BOB), 0);

    // Total supply decreased
    assert_eq!(p.total_supply(), 50);

    // Check event
    assert_eq!(ev.last().unwrap(), &Event::Burned { from: ALICE, to: BOB, amount: 50 });
}

#[test]
fn burn_updates_sender_reputation() {
    let cfg = test_config();
    let mut p = Pallet::new();
    p.claim(&cfg, 1, ALICE).unwrap();
    p.burn(1, ALICE, BOB, 50).unwrap();

    let rep = p.reputation(ALICE);
    assert_eq!(rep.burns_sent_count, 1);
    assert_eq!(rep.burns_sent_volume, 50);
}

#[test]
fn burn_updates_recipient_reputation() {
    let cfg = test_config();
    let mut p = Pallet::new();
    p.claim(&cfg, 1, ALICE).unwrap();
    p.burn(1, ALICE, BOB, 50).unwrap();

    let rep = p.reputation(BOB);
    assert_eq!(rep.burns_received_count, 1);
    assert_eq!(rep.burns_received_volume, 50);
    assert_eq!(rep.first_activity, 1); // First activity via receiving burn
}

#[test]
fn cannot_burn_to_self() {
    let cfg = test_config();
    let mut p = Pallet::new();
    p.claim(&cfg, 1, ALICE).unwrap();

    let before = p.clone();
    assert_eq!(p.burn(1, ALICE, ALICE, 50), Err(Error::CannotBurnToSelf));
    assert_eq!(p, before);
}

#[test]
fn cannot_burn_zero_amount() {
    let cfg = test_config();
    let mut p = Pallet::new();
    p.claim(&cfg, 1, ALICE).unwrap();

    let before = p.clone();
    assert_eq!(p.burn(1, ALICE, BOB, 0), Err(Error::AmountMustBePositive));
    assert_eq!(p, before);
}

#[test]
fn cannot_burn_more_than_balance() {
    let cfg = test_config();
    let mut p = Pallet::new();
    p.claim(&cfg, 1, ALICE).unwrap();

    let before = p.clone();
    assert_eq!(p.burn(1, ALICE, BOB, 150), Err(Error::InsufficientBalance));
    assert_eq!(p, before);
}

#[test]
fn burn_uses_fifo() {
    let cfg = test_config();
    let mut p = Pallet::new();
    // Alice claims at block 1
    p.claim(&cfg, 1, ALICE).unwrap();

    // Advance one period and claim again
    p.claim(&cfg, 101, ALICE).unwrap();

    // Alice has 200 tokens in 2 batches
    assert_eq!(p.spendable_balance(101, ALICE), 200);

    // Burn 150 - should use all of first batch (100) + 50 from second
    p.burn(101, ALICE, BOB, 150).unwrap();

    assert_eq!(p.spendable_balance(101, ALICE), 50);

    // Check batches - should have 1 batch with 50
    let batches = p.balances(ALICE);
    assert_eq!(batches.len(), 1);
    assert_eq!(batches[0].amount, 50);
}

#[test]
fn multiple_burns_accumulate_reputation() {
    let cfg = test_config();
    let mut p = Pallet::new();
    p.claim(&cfg, 1, ALICE).unwrap();

    p.burn(1, ALICE, BOB, 30).unwrap();
    p.burn(1, ALICE, BOB, 20).unwrap();
    p.burn(1, ALICE, CHARLIE, 10).unwrap();

    let alice_rep = p.reputation(ALICE);
    assert_eq!(alice_rep.burns_sent_count, 3);
    assert_eq!(alice_rep.burns_sent_volume, 60);

    let bob_rep = p.reputation(BOB);
    assert_eq!(bob_rep.burns_received_count, 2);
    assert_eq!(bob_rep.burns_received_volume, 50);

    let charlie_rep = p.reputation(CHARLIE);
    assert_eq!(charlie_rep.burns_received_count, 1);
    assert_eq!(charlie_rep.burns_received_volume, 10);
}

// ============================================================================
// EXPIRATION TESTS
// ============================================================================

#[test]
fn tokens_expire_after_expiration_period() {
    let cfg = test_config();
    let mut p = Pallet::new();
    p.claim(&cfg, 1, ALICE).unwrap();
    assert_eq!(p.spendable_balance(1, ALICE), 100);

    // Past expiration (700 blocks) the balance shows 0 (expired)
    assert_eq!(p.spendable_balance(702, ALICE), 0);
}

#[test]
fn expired_tokens_cleaned_up_on_claim() {
    let cfg = test_config();
    let mut p = Pallet::new();
    p.claim(&cfg, 1, ALICE).unwrap();

    // Claim again past expiration - this should clean up expired tokens and
    // claim backlog. After 702 blocks (7 periods), max backlog of 3 periods
    // = 300 tokens.
    let ev = p.claim(&cfg, 702, ALICE).unwrap();

    // The first 100 expired, new 300 from backlog claim
    assert_eq!(p.spendable_balance(702, ALICE), 300);

    // Check expired event was emitted
    let expired_event = ev
        .iter()
        .find(|e| matches!(e, Event::Expired { who: ALICE, amount: 100 }));
    assert!(expired_event.is_some());
}

#[test]
fn expired_tokens_cleaned_up_on_burn() {
    let cfg = test_config();
    let mut p = Pallet::new();
    // Alice claims twice
    p.claim(&cfg, 1, ALICE).unwrap();
    p.claim(&cfg, 101, ALICE).unwrap();

    // At 702 the first batch has expired (1 + 700 = 701) but the second has
    // not (101 + 700 = 801). A burn cleans up the expired batch first.
    p.burn(702, ALICE, BOB, 50).unwrap();

    // Should have 50 left from second batch
    assert_eq!(p.spendable_balance(702, ALICE), 50);
}

#[test]
fn cannot_burn_expired_tokens() {
    let cfg = test_config();
    let mut p = Pallet::new();
    p.claim(&cfg, 1, ALICE).unwrap();

    // Past expiration the burn fails (tokens expired)
    let before = p.clone();
    assert_eq!(p.burn(702, ALICE, BOB, 50), Err(Error::InsufficientBalance));
    assert_eq!(p, before);
}

// ============================================================================
// HELPER FUNCTION TESTS
// ============================================================================

#[test]
fn can_claim_helper_works() {
    let cfg = test_config();
    let mut p = Pallet::new();
    // New account can claim
    assert!(p.can_claim(&cfg, 1, ALICE));

    p.claim(&cfg, 1, ALICE).unwrap();

    // Just claimed - cannot claim again
    assert!(!p.can_claim(&cfg, 1, ALICE));

    // After one period - can claim
    assert!(p.can_claim(&cfg, 101, ALICE));
}

#[test]
fn claimable_amount_helper_works() {
    let cfg = test_config();
    let mut p = Pallet::new();
    // New account - 1 period = 100
    assert_eq!(p.claimable_amount(&cfg, 1, ALICE), 100);

    p.claim(&cfg, 1, ALICE).unwrap();

    // Just claimed - 0
    assert_eq!(p.claimable_amount(&cfg, 1, ALICE), 0);

    // After 2 periods - 200
    assert_eq!(p.claimable_amount(&cfg, 201, ALICE), 200);

    // After 5 periods - capped at 3 = 300
    assert_eq!(p.claimable_amount(&cfg, 501, ALICE), 300);
}

// ============================================================================
// INTEGRATION TESTS
// ============================================================================

#[test]
fn full_lifecycle_pizza_purchase() {
    let cfg = test_config();
    let mut p = Pallet::new();
    // Day 1: Alice and Bob both claim UBI
    p.claim(&cfg, 1, ALICE).unwrap();
    p.claim(&cfg, 1, BOB).unwrap();

    // Alice burns 50 tokens to Bob for pizza
    p.burn(1, ALICE, BOB, 50).unwrap();

    // Check balances
    assert_eq!(p.spendable_balance(1, ALICE), 50);
    assert_eq!(p.spendable_balance(1, BOB), 100); // Bob's own UBI, not Alice's burn

    // Check reputation
    let alice_rep = p.reputation(ALICE);
    assert_eq!(alice_rep.burns_sent_count, 1);
    assert_eq!(alice_rep.burns_sent_volume, 50);

    let bob_rep = p.reputation(BOB);
    assert_eq!(bob_rep.burns_received_count, 1);
    assert_eq!(bob_rep.burns_received_volume, 50);

    // Day 2: Bob burns to Charlie for flour
    p.claim(&cfg, 101, BOB).unwrap();
    p.burn(101, BOB, CHARLIE, 30).unwrap();

    let charlie_rep = p.reputation(CHARLIE);
    assert_eq!(charlie_rep.burns_received_count, 1);
    assert_eq!(charlie_rep.burns_received_volume, 30);

    // Total supply check
    // Alice: 100 - 50 = 50
    // Bob: 100 + 100 - 30 = 170
    // Charlie: 0
    // Total: 50 + 170 = 220
    assert_eq!(p.total_supply(), 220);
}

#[test]
fn sybil_attack_is_pointless() {
    let cfg = test_config();
    let mut p = Pallet::new();
    // Attacker creates many accounts and claims
    for i in 100..110 {
        p.claim(&cfg, 1, i).unwrap();
    }

    // Total supply is 1000 (10 accounts * 100)
    assert_eq!(p.total_supply(), 1000);

    // But after expiration, all tokens disappear: all balances are now 0
    for i in 100..110 {
        assert_eq!(p.spendable_balance(702, i), 0);
    }

    // Attacker gained nothing - tokens expired.
    // They can only burn tokens, not trade them.
}

#[test]
fn exchange_cannot_operate() {
    let cfg = test_config();
    let mut p = Pallet::new();
    // User claims tokens
    p.claim(&cfg, 1, ALICE).unwrap();

    // User "deposits" to exchange by burning to exchange address
    let exchange: u64 = 999;
    p.burn(1, ALICE, exchange, 100).unwrap();

    // Exchange received NO TOKENS - just a burn event
    assert_eq!(p.spendable_balance(1, exchange), 0);

    // Exchange has nothing to sell! It can claim its own UBI:
    p.claim(&cfg, 1, exchange).unwrap();
    assert_eq!(p.spendable_balance(1, exchange), 100);

    // But those are the exchange's own tokens, not "user deposits".
}

// ============================================================================
// ENHANCED REPUTATION SYSTEM TESTS
// ============================================================================

#[test]
fn claim_streak_increments_on_consecutive_claims() {
    let cfg = test_config();
    let mut p = Pallet::new();
    // First claim
    p.claim(&cfg, 1, ALICE).unwrap();
    let rep = p.reputation(ALICE);
    assert_eq!(rep.claim_streak, 1);

    // Claim next period
    p.claim(&cfg, 101, ALICE).unwrap();
    let rep = p.reputation(ALICE);
    assert_eq!(rep.claim_streak, 2);

    // Claim next period
    p.claim(&cfg, 201, ALICE).unwrap();
    let rep = p.reputation(ALICE);
    assert_eq!(rep.claim_streak, 3);
}

#[test]
fn claim_streak_respects_grace_period() {
    let cfg = test_config();
    let mut p = Pallet::new();
    // First claim
    p.claim(&cfg, 1, ALICE).unwrap();

    // Skip 2 periods (within grace period of 2)
    p.claim(&cfg, 301, ALICE).unwrap();
    let rep = p.reputation(ALICE);
    // Streak should still increment (3 periods passed, grace is 2+1=3 allowed)
    assert_eq!(rep.claim_streak, 2);
}

#[test]
fn claim_streak_resets_after_grace_period() {
    let cfg = test_config();
    let mut p = Pallet::new();
    // Build up streak
    p.claim(&cfg, 1, ALICE).unwrap();
    p.claim(&cfg, 101, ALICE).unwrap();
    p.claim(&cfg, 201, ALICE).unwrap();

    let rep = p.reputation(ALICE);
    assert_eq!(rep.claim_streak, 3);

    // Skip more than grace period (4 periods = 400 blocks)
    p.claim(&cfg, 601, ALICE).unwrap();

    let rep = p.reputation(ALICE);
    // Streak should reset to 1
    assert_eq!(rep.claim_streak, 1);
}

#[test]
fn claim_applies_reputation_decay() {
    let cfg = test_config();
    let mut p = Pallet::new();
    // Alice claims and burns to build up score
    p.claim(&cfg, 1, ALICE).unwrap();
    p.burn(1, ALICE, BOB, 50).unwrap();

    let rep_before = p.reputation(ALICE);
    let _score_before = rep_before.score;

    // Claim again - should apply 5% decay
    p.claim(&cfg, 101, ALICE).unwrap();

    let rep_after = p.reputation(ALICE);

    // Score should have decayed (0.95x) then been recalculated
    assert!(rep_after.score > 0);
}

#[test]
fn unique_recipients_tracked_correctly() {
    let cfg = test_config();
    let mut p = Pallet::new();
    p.claim(&cfg, 1, ALICE).unwrap();

    // Burn to Bob - first unique recipient
    p.burn(1, ALICE, BOB, 20).unwrap();
    let rep = p.reputation(ALICE);
    assert_eq!(rep.unique_recipients_count, 1);
    assert!(p.has_burned_to(ALICE, BOB));

    // Burn to Bob again - should NOT increment unique count
    p.burn(1, ALICE, BOB, 20).unwrap();
    let rep = p.reputation(ALICE);
    assert_eq!(rep.unique_recipients_count, 1);

    // Burn to Charlie - second unique recipient
    p.burn(1, ALICE, CHARLIE, 20).unwrap();
    let rep = p.reputation(ALICE);
    assert_eq!(rep.unique_recipients_count, 2);
    assert!(p.has_burned_to(ALICE, CHARLIE));
}

#[test]
fn weighted_received_uses_sender_weight() {
    let cfg = test_config();
    let mut p = Pallet::new();
    // Alice (new user) claims - gets streak bonus of 10, score = 10
    // Score of 10 puts her in the 10-99 tier = 0.75x weight (750/1000)
    p.claim(&cfg, 1, ALICE).unwrap();

    let alice_rep = p.reputation(ALICE);
    assert_eq!(alice_rep.score, 10); // streak bonus only

    // Alice burns 100 to Bob
    p.burn(1, ALICE, BOB, 100).unwrap();

    let bob_rep = p.reputation(BOB);
    // Alice has score 10, so weight is 0.75x = 750/1000
    // weighted_received = 100 * 750 / 1000 = 75
    assert_eq!(bob_rep.weighted_received, 75);
}

#[test]
fn reputation_score_formula_correct() {
    let cfg = test_config();
    let mut p = Pallet::new();
    p.claim(&cfg, 1, ALICE).unwrap();

    // Burn to 2 unique recipients
    p.burn(1, ALICE, BOB, 30).unwrap();
    p.burn(1, ALICE, CHARLIE, 20).unwrap();

    let rep = p.reputation(ALICE);

    // Expected score components:
    // - unique_recipients: 2 * 50 = 100
    // - burns_sent_volume: 50 * 1 = 50
    // - weighted_received: 0 * 2 = 0
    // - streak_bonus: 1 * 10 = 10
    // Total: 100 + 50 + 0 + 10 = 160

    assert_eq!(rep.unique_recipients_count, 2);
    assert_eq!(rep.burns_sent_volume, 50);
    assert_eq!(rep.weighted_received, 0);
    assert_eq!(rep.claim_streak, 1);
    assert_eq!(rep.score, 160);
}

#[test]
fn streak_bonus_caps_at_max() {
    let cfg = test_config();
    let mut p = Pallet::new();
    // Claim 60 times (more than the 50-step cap)
    for i in 0..60 {
        p.claim(&cfg, i * 100 + 1, ALICE).unwrap();
    }

    let rep = p.reputation(ALICE);
    assert_eq!(rep.claim_streak, 60);

    // Streak bonus is capped at 500; just verify streak is tracked correctly
    assert!(rep.claim_streak >= 50);
}

#[test]
fn bot_farming_yields_low_reputation() {
    let cfg = test_config();
    let mut p = Pallet::new();
    // Simulate bot ring: A -> B -> A
    let bot_a: u64 = 100;
    let bot_b: u64 = 101;

    // Both bots claim - each gets score of 10 (streak bonus)
    p.claim(&cfg, 1, bot_a).unwrap();
    p.claim(&cfg, 1, bot_b).unwrap();

    let bot_a_score_before = p.reputation(bot_a).score;
    let bot_b_score_before = p.reputation(bot_b).score;
    assert_eq!(bot_a_score_before, 10); // Just streak bonus
    assert_eq!(bot_b_score_before, 10);

    // Bot A burns to Bot B
    // Bot A has score 10 -> weight 0.75x (750/1000)
    // weighted_received for B = 100 * 750 / 1000 = 75
    p.burn(1, bot_a, bot_b, 100).unwrap();

    // Bot B burns - their score determines weight
    p.burn(1, bot_b, bot_a, 100).unwrap();

    let bot_a_rep = p.reputation(bot_a);
    let bot_b_rep = p.reputation(bot_b);

    // Bot A received from Bot B when B had score ~170 (100-999 tier = 1.0x)
    // Bot B received from Bot A when A had score 10 (10-99 tier = 0.75x)
    assert_eq!(bot_b_rep.weighted_received, 75); // From A at 0.75x weight
    assert_eq!(bot_a_rep.weighted_received, 100); // From B at 1.0x weight

    // Each has only 1 unique recipient
    assert_eq!(bot_a_rep.unique_recipients_count, 1);
    assert_eq!(bot_b_rep.unique_recipients_count, 1);
}

#[test]
fn reputation_score_public_api() {
    let cfg = test_config();
    let mut p = Pallet::new();
    p.claim(&cfg, 1, ALICE).unwrap();
    p.burn(1, ALICE, BOB, 50).unwrap();

    // Public API should return the score
    let score = p.reputation_score(ALICE);
    assert!(score > 0);

    let rep = p.reputation(ALICE);
    assert_eq!(score, rep.score);
}

#[test]
fn has_burned_to_helper_works() {
    let cfg = test_config();
    let mut p = Pallet::new();
    p.claim(&cfg, 1, ALICE).unwrap();

    // Before burning
    assert!(!p.has_burned_to(ALICE, BOB));

    // After burning
    p.burn(1, ALICE, BOB, 50).unwrap();
    assert!(p.has_burned_to(ALICE, BOB));

    // Different recipient still false
    assert!(!p.has_burned_to(ALICE, CHARLIE));
}
