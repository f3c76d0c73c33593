//! The per-block finalization trigger: drives price decay, accrues emission
//! into the pool, and decides whether a weighted distribution round must
//! run now.

use vstd::prelude::*;
use crate::arith::{sat_add, sat_sub_u64};
use crate::distribution::{total_weight, weighted_payout_seq};
use crate::state::{CurrencyDeposit, Mint, Monitor, monitor_zero};

verus! {

/// Whether exactly one full halving interval has elapsed since the last
/// recorded price adjustment.
pub open spec fn halving_due(s: Mint, current_block: u64) -> bool {
    sat_sub_u64(current_block, s.price_block) == s.config.price_half_block_interval as u64
}

/// The emission price after the block's price step: halved (truncating)
/// when the interval has elapsed, unchanged otherwise.
pub open spec fn price_after(s: Mint, current_block: u64) -> u128 {
    if halving_due(s, current_block) {
        (s.bnc_price / 2) as u128
    } else {
        s.bnc_price
    }
}

/// The recorded adjustment block after the block's price step.
pub open spec fn price_block_after(s: Mint, current_block: u64) -> u64 {
    if halving_due(s, current_block) {
        current_block
    } else {
        s.price_block
    }
}

/// The emission pool after the block's accrual: the current price is added,
/// saturating.
pub open spec fn pool_after_accrual(s: Mint, current_block: u64) -> u128 {
    sat_add(s.bnc_sum, price_after(s, current_block))
}

/// The distribution trigger condition, evaluated over the accrued pool: a
/// due block interval with a non-empty pool and a raised watermark
/// candidate, or — alone — a transaction count at the fast-path threshold.
pub open spec fn trigger_due(s: Mint, current_block: u64) -> bool {
    (sat_sub_u64(current_block, s.monitor.last_trigger_block)
        == s.config.max_issue_block_interval as u64 && pool_after_accrual(s, current_block) != 0
        && s.monitor.max_single_mint != 0) || s.monitor.tx_count >= s.config.max_tx_amount
}

/// The monitor after the watermark check: when the largest single mint seen
/// exceeds the recorded watermark, the trigger block and the watermark are
/// raised, without resetting the transaction count.
pub open spec fn bump_monitor(m: Monitor, current_block: u64) -> Monitor {
    if m.max_single_mint > m.watermark {
        Monitor { last_trigger_block: current_block, watermark: m.max_single_mint, ..m }
    } else {
        m
    }
}

impl Mint {
    /// One price halving never raises the price.
    pub proof fn lemma_price_monotone(self, current_block: u64)
        ensures
            price_after(self, current_block) <= self.bnc_price,
    {
    }

    /// The per-block finalization step. With a zero price, emission is
    /// permanently suspended and nothing changes. Otherwise the price is
    /// halved when its interval has elapsed, the pool accrues the current
    /// price, and either a weighted distribution round runs (when due) or
    /// the watermark is raised. A failed round is not fatal: the block
    /// falls through to the watermark check. A due round over an empty
    /// pool always falls through; a due round with an empty payout list
    /// always drains the pool.
    pub fn on_finalize<C: CurrencyDeposit>(&mut self, currency: &mut C, current_block: u64)
        requires
            old(self).wf(),
            old(self).bnc_price != 0 && trigger_due(*old(self), current_block)
                && pool_after_accrual(*old(self), current_block) != 0
                && old(self).asset_weights@.len() > 0 ==> total_weight(
                old(self).asset_weights@,
            ) != 0,
        ensures
            final(self).wf(),
            final(self).config == old(self).config,
            final(self).flat_credits@ == old(self).flat_credits@,
            final(self).asset_weights@ == old(self).asset_weights@,
            old(self).bnc_price == 0 ==> old(self).same_state(*final(self)),
            old(self).bnc_price != 0 ==> ({
                let pool = pool_after_accrual(*old(self), current_block);
                let drained = final(self).bnc_sum == 0 && final(self).weighted_credits@.len() == 0
                    && final(self).monitor == monitor_zero();
                let fell_through = final(self).bnc_sum == pool && final(self).weighted_credits@
                    == old(self).weighted_credits@ && final(self).monitor == bump_monitor(
                    old(self).monitor,
                    current_block,
                );
                &&& final(self).bnc_price == price_after(*old(self), current_block)
                &&& final(self).price_block == price_block_after(*old(self), current_block)
                &&& final(self).bnc_price <= old(self).bnc_price
                &&& if trigger_due(*old(self), current_block) {
                    ({
                        &&& (drained || fell_through)
                        &&& (pool == 0 ==> fell_through)
                        &&& (pool != 0 && weighted_payout_seq(
                            old(self).asset_weights@,
                            old(self).weighted_credits@,
                            pool,
                            total_weight(old(self).asset_weights@),
                        ).len() == 0 ==> drained)
                    })
                } else {
                    fell_through
                }
            }),
    {
        if self.bnc_price == 0 {
            return ;
        }
        // Price step: halve once when exactly one interval has elapsed.
        let half_interval = self.config.price_half_block_interval as u64;
        if current_block.saturating_sub(self.price_block) == half_interval {
            self.price_block = current_block;
            self.bnc_price = self.bnc_price / 2;
        }
        // Accrue the current price into the pool.
        let current_price = self.bnc_price;
        self.count_bnc(current_price);
        // Evaluate the trigger condition over the accrued pool.
        let mon = self.monitor;
        let issue_interval = self.config.max_issue_block_interval as u64;
        if (current_block.saturating_sub(mon.last_trigger_block) == issue_interval
            && self.bnc_sum != 0 && mon.max_single_mint != 0) || mon.tx_count
            >= self.config.max_tx_amount {
            // A failed round is reported to the caller's log only through
            // the unchanged state; finalization itself never fails.
            match self.issue_bnc_by_weight(currency) {
                Ok(()) => {
                    return ;
                },
                Err(_) => {},
            }
        }
        // Raise the watermark when the largest single mint exceeds it.
        if self.monitor.max_single_mint > self.monitor.watermark {
            self.monitor.last_trigger_block = current_block;
            self.monitor.watermark = self.monitor.max_single_mint;
        }
    }
}

} // verus!
