//! End-to-end tests of the emission engine: recorders, weight adjustment,
//! both distribution rounds and the per-block finalization trigger.

use vtoken_mint::state::{Config, CurrencyDeposit, Error, Mint};

/// An in-memory currency service: deposits succeed only for accounts that
/// were opened beforehand, as the engine's collaborator contract demands.
struct Ledger {
    accounts: Vec<u64>,
    balances: Vec<(u64, u128)>,
}

impl Ledger {
    fn new(accounts: &[u64]) -> Ledger {
        Ledger { accounts: accounts.to_vec(), balances: Vec::new() }
    }

    fn balance(&self, who: u64) -> u128 {
        for e in self.balances.iter() {
            if e.0 == who {
                return e.1;
            }
        }
        0
    }
}

impl CurrencyDeposit for Ledger {
    fn deposit_into_existing(&mut self, account: u64, amount: u128) -> bool {
        if !self.accounts.contains(&account) {
            return false;
        }
        for e in self.balances.iter_mut() {
            if e.0 == account {
                e.1 += amount;
                return true;
            }
        }
        self.balances.push((account, amount));
        true
    }
}

fn config() -> Config {
    Config {
        price_half_block_interval: 10,
        max_issue_block_interval: 5,
        max_tx_amount: 100,
        pledge_base_amount: 100,
    }
}

fn zero_monitor(m: &Mint) -> bool {
    m.monitor.last_trigger_block == 0
        && m.monitor.watermark == 0
        && m.monitor.max_single_mint == 0
        && m.monitor.tx_count == 0
}

#[test]
fn flat_round_pool_100_credits_1_and_3() {
    let mut m = Mint::new(config(), 0, 0);
    let mut ledger = Ledger::new(&[1, 2]);
    assert_eq!(m.mint_bnc(1, 1), Ok(()));
    assert_eq!(m.mint_bnc(2, 3), Ok(()));
    m.count_bnc(100);
    assert_eq!(m.issue_bnc(&mut ledger), Ok(()));
    assert_eq!(ledger.balance(1), 25);
    assert_eq!(ledger.balance(2), 75);
    assert_eq!(m.bnc_sum, 0);
    assert!(m.flat_credits.is_empty());
    assert!(zero_monitor(&m));
}

#[test]
fn flat_round_bounded_rounding_loss() {
    // Pool 100 over three equal credits: 33 each, 1 unit not minted.
    let mut m = Mint::new(config(), 0, 0);
    let mut ledger = Ledger::new(&[1, 2, 3]);
    for who in [1u64, 2, 3] {
        assert_eq!(m.mint_bnc(who, 1), Ok(()));
    }
    m.count_bnc(100);
    assert_eq!(m.issue_bnc(&mut ledger), Ok(()));
    let paid: u128 = ledger.balance(1) + ledger.balance(2) + ledger.balance(3);
    assert_eq!(ledger.balance(1), 33);
    assert!(paid <= 100);
    assert!(100 - paid < 3);
    assert_eq!(m.bnc_sum, 0);
}

#[test]
fn flat_mint_accumulates_per_participant() {
    let mut m = Mint::new(config(), 0, 0);
    assert_eq!(m.mint_bnc(7, 4), Ok(()));
    assert_eq!(m.mint_bnc(7, 6), Ok(()));
    assert_eq!(m.flat_credits.len(), 1);
    assert_eq!(m.flat_credits[0], (7, 10));
    assert_eq!(m.monitor.max_single_mint, 6);
    assert_eq!(m.monitor.tx_count, 2);
}

#[test]
fn flat_round_empty_pool_fails() {
    let mut m = Mint::new(config(), 0, 0);
    let mut ledger = Ledger::new(&[1]);
    assert_eq!(m.mint_bnc(1, 5), Ok(()));
    assert_eq!(m.issue_bnc(&mut ledger), Err(Error::BncAmountNotExist));
    assert_eq!(m.flat_credits.len(), 1);
}

#[test]
fn flat_round_without_minters_fails() {
    let mut m = Mint::new(config(), 0, 0);
    let mut ledger = Ledger::new(&[1]);
    m.count_bnc(50);
    assert_eq!(m.issue_bnc(&mut ledger), Err(Error::MinterNotExist));
    assert_eq!(m.bnc_sum, 50);
}

#[test]
fn flat_round_aborts_on_refused_deposit() {
    // Participant 2 has no account: the round aborts after paying 1,
    // leaving pool, credits and monitor untouched.
    let mut m = Mint::new(config(), 0, 0);
    let mut ledger = Ledger::new(&[1]);
    assert_eq!(m.mint_bnc(1, 1), Ok(()));
    assert_eq!(m.mint_bnc(2, 1), Ok(()));
    m.count_bnc(100);
    assert_eq!(m.issue_bnc(&mut ledger), Err(Error::DepositBncFailure));
    assert_eq!(ledger.balance(1), 50);
    assert_eq!(ledger.balance(2), 0);
    assert_eq!(m.bnc_sum, 100);
    assert_eq!(m.flat_credits.len(), 2);
    assert_eq!(m.monitor.tx_count, 2);
}

#[test]
fn weighted_round_two_assets_one_and_three() {
    // Weights 1 and 3 over a pool of 40: shares 10 and 30. The first
    // asset's single participant takes 10; the second asset's holders with
    // credits 1 and 2 take 10 and 20.
    let mut m = Mint::new(config(), 0, 0);
    let mut ledger = Ledger::new(&[1, 2, 3]);
    m.init_v_token_score(100, 1);
    m.init_v_token_score(200, 3);
    assert_eq!(m.mint_bnc_by_weight(1, 5, 100), Ok(()));
    assert_eq!(m.mint_bnc_by_weight(2, 1, 200), Ok(()));
    assert_eq!(m.mint_bnc_by_weight(3, 2, 200), Ok(()));
    m.count_bnc(40);
    assert_eq!(m.issue_bnc_by_weight(&mut ledger), Ok(()));
    assert_eq!(ledger.balance(1), 10);
    assert_eq!(ledger.balance(2), 10);
    assert_eq!(ledger.balance(3), 20);
    assert_eq!(m.bnc_sum, 0);
    assert!(m.weighted_credits.is_empty());
    // Asset weights persist across rounds.
    assert!(m.v_token_score_exists(100));
    assert!(m.v_token_score_exists(200));
    assert!(zero_monitor(&m));
}

#[test]
fn weighted_round_rounding_stays_proportional() {
    // Weights 1 and 2 over a pool of 10: shares 3 and 6, one unit lost.
    let mut m = Mint::new(config(), 0, 0);
    let mut ledger = Ledger::new(&[1, 2]);
    m.init_v_token_score(100, 1);
    m.init_v_token_score(200, 2);
    assert_eq!(m.mint_bnc_by_weight(1, 9, 100), Ok(()));
    assert_eq!(m.mint_bnc_by_weight(2, 9, 200), Ok(()));
    m.count_bnc(10);
    assert_eq!(m.issue_bnc_by_weight(&mut ledger), Ok(()));
    // 3 * 1 <= 1 * 10 < 3 * 1 + 3 and 3 * 2 <= 2 * 10 < 3 * 2 + 3.
    assert_eq!(ledger.balance(1), 3);
    assert_eq!(ledger.balance(2), 6);
    assert_eq!(m.bnc_sum, 0);
}

#[test]
fn weighted_round_conserves_pool_across_both_tiers() {
    // Weights 2 and 3 over a pool of 13: shares 5 and 7. The first asset's
    // two equal holders get 2 each (1 lost); the second asset's single
    // holder gets 7. 11 of 13 units are paid, the rest is never minted.
    let mut m = Mint::new(config(), 0, 0);
    let mut ledger = Ledger::new(&[1, 2, 3]);
    m.init_v_token_score(100, 2);
    m.init_v_token_score(200, 3);
    assert_eq!(m.mint_bnc_by_weight(1, 3, 100), Ok(()));
    assert_eq!(m.mint_bnc_by_weight(2, 3, 100), Ok(()));
    assert_eq!(m.mint_bnc_by_weight(3, 9, 200), Ok(()));
    m.count_bnc(13);
    assert_eq!(m.issue_bnc_by_weight(&mut ledger), Ok(()));
    assert_eq!(ledger.balance(1), 2);
    assert_eq!(ledger.balance(2), 2);
    assert_eq!(ledger.balance(3), 7);
    assert!(ledger.balance(1) + ledger.balance(2) + ledger.balance(3) <= 13);
    assert_eq!(m.bnc_sum, 0);
}

#[test]
fn weighted_round_skips_assets_without_credit() {
    // The asset with weight 3 has no credit holders: its share of 30 is
    // simply not minted.
    let mut m = Mint::new(config(), 0, 0);
    let mut ledger = Ledger::new(&[1]);
    m.init_v_token_score(100, 1);
    m.init_v_token_score(200, 3);
    assert_eq!(m.mint_bnc_by_weight(1, 5, 100), Ok(()));
    m.count_bnc(40);
    assert_eq!(m.issue_bnc_by_weight(&mut ledger), Ok(()));
    assert_eq!(ledger.balance(1), 10);
    assert_eq!(m.bnc_sum, 0);
}

#[test]
fn weighted_round_with_no_assets_drains_pool() {
    // With no registered asset there is nothing to pay: the round succeeds
    // without consulting the currency service and the pool is drained.
    let mut m = Mint::new(config(), 0, 0);
    let mut ledger = Ledger::new(&[]);
    m.count_bnc(40);
    assert_eq!(m.issue_bnc_by_weight(&mut ledger), Ok(()));
    assert_eq!(m.bnc_sum, 0);
    assert!(zero_monitor(&m));
    assert!(ledger.balances.is_empty());
}

#[test]
fn weighted_round_with_no_credit_anywhere_drains_pool() {
    // Every registered asset's credit total is zero: the whole pool is an
    // implicit rounding loss, and the round still succeeds.
    let mut m = Mint::new(config(), 0, 0);
    let mut ledger = Ledger::new(&[1]);
    m.init_v_token_score(100, 1);
    m.init_v_token_score(200, 3);
    m.count_bnc(40);
    assert_eq!(m.issue_bnc_by_weight(&mut ledger), Ok(()));
    assert_eq!(m.bnc_sum, 0);
    assert!(zero_monitor(&m));
    assert!(ledger.balances.is_empty());
}

#[test]
fn flat_round_with_all_zero_rewards_drains_pool() {
    // Pool 1 over credits 2 and 3: both rewards truncate to zero, so no
    // deposit is made, yet the round succeeds and resets all bookkeeping.
    let mut m = Mint::new(config(), 0, 0);
    let mut ledger = Ledger::new(&[1, 2]);
    assert_eq!(m.mint_bnc(1, 2), Ok(()));
    assert_eq!(m.mint_bnc(2, 3), Ok(()));
    m.count_bnc(1);
    assert_eq!(m.issue_bnc(&mut ledger), Ok(()));
    assert_eq!(m.bnc_sum, 0);
    assert!(m.flat_credits.is_empty());
    assert!(zero_monitor(&m));
    assert!(ledger.balances.is_empty());
}

#[test]
fn finalize_trigger_over_empty_pool_falls_through() {
    // The price of 1 halves to 0 at block 1 and nothing accrues, so the
    // transaction fast path fires over an empty pool: the round fails with
    // nothing changed and the block falls through to the watermark bump.
    let cfg = Config {
        price_half_block_interval: 1,
        max_issue_block_interval: 40,
        max_tx_amount: 1,
        pledge_base_amount: 100,
    };
    let mut m = Mint::new(cfg, 0, 1);
    let mut ledger = Ledger::new(&[1]);
    assert_eq!(m.mint_bnc(1, 6), Ok(()));
    m.on_finalize(&mut ledger, 1);
    assert_eq!(m.bnc_price, 0);
    assert_eq!(m.bnc_sum, 0);
    assert_eq!(m.flat_credits.len(), 1);
    assert_eq!(m.monitor.last_trigger_block, 1);
    assert_eq!(m.monitor.watermark, 6);
    assert_eq!(m.monitor.tx_count, 1);
    assert!(ledger.balances.is_empty());
}

#[test]
fn weighted_mint_against_unregistered_asset_fails() {
    let mut m = Mint::new(config(), 3, 9);
    assert_eq!(m.mint_bnc_by_weight(1, 5, 42), Err(Error::AssetScoreNotExist));
    // All state is left unchanged.
    assert!(m.weighted_credits.is_empty());
    assert!(m.flat_credits.is_empty());
    assert!(zero_monitor(&m));
    assert_eq!(m.bnc_sum, 0);
    assert_eq!(m.price_block, 3);
    assert_eq!(m.bnc_price, 9);
}

#[test]
fn weighted_round_empty_pool_fails() {
    let mut m = Mint::new(config(), 0, 0);
    let mut ledger = Ledger::new(&[1]);
    m.init_v_token_score(100, 1);
    assert_eq!(m.issue_bnc_by_weight(&mut ledger), Err(Error::BncAmountNotExist));
}

#[test]
fn weighted_round_aborts_on_refused_deposit() {
    let mut m = Mint::new(config(), 0, 0);
    let mut ledger = Ledger::new(&[]);
    m.init_v_token_score(100, 1);
    assert_eq!(m.mint_bnc_by_weight(1, 5, 100), Ok(()));
    m.count_bnc(40);
    assert_eq!(m.issue_bnc_by_weight(&mut ledger), Err(Error::DepositBncFailure));
    assert_eq!(m.bnc_sum, 40);
    assert_eq!(m.weighted_credits.len(), 1);
}

#[test]
fn register_asset_weight_is_idempotent() {
    let mut m = Mint::new(config(), 0, 0);
    m.init_v_token_score(100, 7);
    m.init_v_token_score(100, 7);
    assert_eq!(m.asset_weights.len(), 1);
    assert_eq!(m.asset_weights[0], (100, 7, 0));
    assert!(m.v_token_score_exists(100));
    assert!(!m.v_token_score_exists(101));
}

#[test]
fn pledge_at_base_amount_is_rejected() {
    // The base amount is 100: a pledge of exactly 100 is not enough.
    let mut m = Mint::new(config(), 0, 0);
    m.init_v_token_score(100, 1);
    assert_eq!(m.improve_v_token_weight(100, 100), Err(Error::PledgeAmountNotEnough));
    assert_eq!(m.withdraw_v_token_pledge(100, 100), Err(Error::PledgeAmountNotEnough));
    assert_eq!(m.asset_weights[0], (100, 1, 0));
}

#[test]
fn pledge_deltas_follow_binary_logarithm() {
    let mut m = Mint::new(config(), 0, 0);
    m.init_v_token_score(100, 1);
    // Excess 1: floor(log2 1) = 0.
    assert_eq!(m.improve_v_token_weight(100, 101), Ok(()));
    assert_eq!(m.asset_weights[0], (100, 1, 0));
    // Excess 2: floor(log2 2) = 1.
    assert_eq!(m.improve_v_token_weight(100, 102), Ok(()));
    assert_eq!(m.asset_weights[0], (100, 1, 1));
    // Excess 5: floor(log2 5) = 2.
    assert_eq!(m.improve_v_token_weight(100, 105), Ok(()));
    assert_eq!(m.asset_weights[0], (100, 1, 3));
    // Excess 16: floor(log2 16) = 4.
    assert_eq!(m.improve_v_token_weight(100, 116), Ok(()));
    assert_eq!(m.asset_weights[0], (100, 1, 7));
}

#[test]
fn raise_then_lower_restores_adjust_score() {
    let mut m = Mint::new(config(), 0, 0);
    m.init_v_token_score(100, 5);
    assert_eq!(m.improve_v_token_weight(100, 105), Ok(()));
    assert_eq!(m.asset_weights[0], (100, 5, 2));
    assert_eq!(m.withdraw_v_token_pledge(100, 105), Ok(()));
    assert_eq!(m.asset_weights[0], (100, 5, 0));
}

#[test]
fn lower_saturates_at_zero() {
    let mut m = Mint::new(config(), 0, 0);
    m.init_v_token_score(100, 5);
    // Raise by floor(log2 2) = 1, then lower by floor(log2 1024) = 10.
    assert_eq!(m.improve_v_token_weight(100, 102), Ok(()));
    assert_eq!(m.withdraw_v_token_pledge(100, 1124), Ok(()));
    assert_eq!(m.asset_weights[0], (100, 5, 0));
}

#[test]
fn pledge_on_unregistered_asset_creates_entry() {
    let mut m = Mint::new(config(), 0, 0);
    assert_eq!(m.improve_v_token_weight(42, 108), Ok(()));
    assert_eq!(m.asset_weights[0], (42, 0, 3));
}

#[test]
fn price_halves_once_per_interval_and_accrues() {
    // Interval 10, genesis price 8 at block 0.
    let mut m = Mint::new(config(), 0, 8);
    let mut ledger = Ledger::new(&[]);
    for b in 1..=9u64 {
        m.on_finalize(&mut ledger, b);
        assert_eq!(m.bnc_price, 8);
    }
    assert_eq!(m.bnc_sum, 72);
    m.on_finalize(&mut ledger, 10);
    assert_eq!(m.bnc_price, 4);
    assert_eq!(m.price_block, 10);
    assert_eq!(m.bnc_sum, 76);
    // The next halving is measured from block 10.
    m.on_finalize(&mut ledger, 11);
    assert_eq!(m.bnc_price, 4);
    m.on_finalize(&mut ledger, 20);
    assert_eq!(m.bnc_price, 2);
    assert_eq!(m.price_block, 20);
}

#[test]
fn zero_price_suspends_emission_permanently() {
    let cfg = Config {
        price_half_block_interval: 1,
        max_issue_block_interval: 5,
        max_tx_amount: 100,
        pledge_base_amount: 100,
    };
    let mut m = Mint::new(cfg, 0, 1);
    let mut ledger = Ledger::new(&[]);
    // Block 1: one interval elapsed, the price of 1 halves to 0.
    m.on_finalize(&mut ledger, 1);
    assert_eq!(m.bnc_price, 0);
    assert_eq!(m.bnc_sum, 0);
    // From now on nothing accrues and nothing changes.
    for b in 2..=6u64 {
        m.on_finalize(&mut ledger, b);
        assert_eq!(m.bnc_price, 0);
        assert_eq!(m.bnc_sum, 0);
        assert_eq!(m.price_block, 1);
    }
}

#[test]
fn finalize_triggers_weighted_round_on_interval() {
    // max_issue_block_interval is 5; the first finalization after the mint
    // raises the watermark at block 1, so block 6 triggers a weighted
    // distribution.
    let mut m = Mint::new(config(), 0, 8);
    let mut ledger = Ledger::new(&[1]);
    m.init_v_token_score(100, 1);
    assert_eq!(m.mint_bnc_by_weight(1, 3, 100), Ok(()));
    for b in 1..=5u64 {
        m.on_finalize(&mut ledger, b);
    }
    assert_eq!(m.monitor.last_trigger_block, 1);
    assert_eq!(m.bnc_sum, 40);
    m.on_finalize(&mut ledger, 6);
    // Pool was 48 after accrual; the single holder of the single asset
    // receives it all, and the monitor resets.
    assert_eq!(ledger.balance(1), 48);
    assert_eq!(m.bnc_sum, 0);
    assert!(m.weighted_credits.is_empty());
    assert!(zero_monitor(&m));
}

#[test]
fn finalize_triggers_weighted_round_on_tx_count() {
    // A high transaction count alone forces a round, even though the
    // interval clause is false.
    let cfg = Config {
        price_half_block_interval: 50,
        max_issue_block_interval: 40,
        max_tx_amount: 2,
        pledge_base_amount: 100,
    };
    let mut m = Mint::new(cfg, 0, 10);
    let mut ledger = Ledger::new(&[1, 2]);
    m.init_v_token_score(100, 1);
    assert_eq!(m.mint_bnc_by_weight(1, 1, 100), Ok(()));
    assert_eq!(m.mint_bnc_by_weight(2, 3, 100), Ok(()));
    m.on_finalize(&mut ledger, 1);
    // Pool was 10 after accrual: credits 1 and 3 receive 2 and 7.
    assert_eq!(ledger.balance(1), 2);
    assert_eq!(ledger.balance(2), 7);
    assert_eq!(m.bnc_sum, 0);
    assert!(zero_monitor(&m));
}

#[test]
fn finalize_raises_watermark_without_distributing() {
    let mut m = Mint::new(config(), 0, 8);
    let mut ledger = Ledger::new(&[1]);
    assert_eq!(m.mint_bnc(1, 7), Ok(()));
    m.on_finalize(&mut ledger, 3);
    assert_eq!(m.monitor.last_trigger_block, 3);
    assert_eq!(m.monitor.watermark, 7);
    assert_eq!(m.monitor.max_single_mint, 7);
    assert_eq!(m.monitor.tx_count, 1);
    assert_eq!(m.bnc_sum, 8);
}

#[test]
fn finalize_falls_through_when_round_fails() {
    // The trigger fires but the only participant has no account: the
    // round aborts and the block falls through to the watermark update.
    let cfg = Config {
        price_half_block_interval: 50,
        max_issue_block_interval: 40,
        max_tx_amount: 1,
        pledge_base_amount: 100,
    };
    let mut m = Mint::new(cfg, 0, 10);
    let mut ledger = Ledger::new(&[]);
    m.init_v_token_score(100, 1);
    assert_eq!(m.mint_bnc_by_weight(1, 6, 100), Ok(()));
    m.on_finalize(&mut ledger, 2);
    assert_eq!(m.bnc_sum, 10);
    assert_eq!(m.weighted_credits.len(), 1);
    assert_eq!(m.monitor.last_trigger_block, 2);
    assert_eq!(m.monitor.watermark, 6);
    assert_eq!(m.monitor.tx_count, 1);
}

#[test]
fn flat_payout_list_matches_round() {
    let mut m = Mint::new(config(), 0, 0);
    assert_eq!(m.mint_bnc(1, 1), Ok(()));
    assert_eq!(m.mint_bnc(2, 3), Ok(()));
    m.count_bnc(100);
    let payouts = m.flat_payouts().unwrap();
    assert_eq!(payouts, vec![(1, 25), (2, 75)]);
}

#[test]
fn weighted_payout_list_matches_round() {
    let mut m = Mint::new(config(), 0, 0);
    m.init_v_token_score(100, 1);
    m.init_v_token_score(200, 3);
    assert_eq!(m.mint_bnc_by_weight(1, 5, 100), Ok(()));
    assert_eq!(m.mint_bnc_by_weight(2, 1, 200), Ok(()));
    assert_eq!(m.mint_bnc_by_weight(3, 2, 200), Ok(()));
    m.count_bnc(40);
    let payouts = m.weighted_payouts().unwrap();
    assert_eq!(payouts, vec![(1, 10), (2, 10), (3, 20)]);
}
