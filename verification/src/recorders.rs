//! Mint recorders: record per-participant contribution credits under the
//! flat model and the weighted model, and update the issuance monitor.

use vstd::prelude::*;
use crate::arith::{sat_add, sat_add_u32};
use crate::state::{Error, Mint, Monitor, has_asset, has_flat_credit, has_weighted_credit};

verus! {

/// The monitor after one recorded mint: the largest single mint is raised
/// if exceeded, and the pending transaction count grows by one, saturating.
pub open spec fn monitor_after_mint(m: Monitor, mint_amount: u128) -> Monitor {
    Monitor {
        max_single_mint: if mint_amount > m.max_single_mint {
            mint_amount
        } else {
            m.max_single_mint
        },
        tx_count: sat_add_u32(m.tx_count, 1),
        ..m
    }
}

impl Mint {
    /// Record a flat-model mint: add the amount (saturating) to the
    /// participant's credit, creating the entry if absent, then update the
    /// monitor. Always succeeds.
    pub fn mint_bnc(&mut self, minter: u64, mint_amount: u128) -> (r: Result<(), Error>)
        requires
            old(self).wf(),
        ensures
            final(self).wf(),
            r == Ok::<(), Error>(()),
            old(self).same_but_flat_and_monitor(*final(self)),
            final(self).monitor == monitor_after_mint(old(self).monitor, mint_amount),
            (if has_flat_credit(old(self).flat_credits@, minter) {
                exists|i: int|
                    0 <= i < old(self).flat_credits@.len()
                        && (#[trigger] old(self).flat_credits@[i]).0 == minter
                        && final(self).flat_credits@ == old(self).flat_credits@.update(
                        i,
                        (minter, sat_add(old(self).flat_credits@[i].1, mint_amount)),
                    )
            } else {
                final(self).flat_credits@ == old(self).flat_credits@.push((minter, mint_amount))
            }),
    {
        let ghost orig: Mint = *self;
        let n = self.flat_credits.len();
        let mut i: usize = 0;
        while i < n
            invariant
                0 <= i <= n,
                n == self.flat_credits@.len(),
                *self == orig,
                orig == *old(self),
                old(self).wf(),
                forall|k: int| 0 <= k < i ==> (#[trigger] self.flat_credits@[k]).0 != minter,
            decreases n - i,
        {
            if self.flat_credits[i].0 == minter {
                let c = self.flat_credits[i].1;
                let e = &mut self.flat_credits[i];
                *e = (minter, c.saturating_add(mint_amount));
                self.record_in_monitor(mint_amount);
                return Ok(());
            }
            i = i + 1;
        }
        self.flat_credits.push((minter, mint_amount));
        self.record_in_monitor(mint_amount);
        Ok(())
    }

    /// Record a weighted-model mint: the asset must have a registered
    /// weight score; the credit is keyed by asset and participant.
    pub fn mint_bnc_by_weight(&mut self, minter: u64, mint_amount: u128, asset_id: u32) -> (r:
        Result<(), Error>)
        requires
            old(self).wf(),
        ensures
            final(self).wf(),
            (if !has_asset(old(self).asset_weights@, asset_id) {
                r == Err::<(), Error>(Error::AssetScoreNotExist) && old(self).same_state(
                    *final(self),
                )
            } else {
                r == Ok::<(), Error>(()) && old(self).same_but_weighted_and_monitor(*final(self))
                    && final(self).monitor == monitor_after_mint(old(self).monitor, mint_amount)
                    && (if has_weighted_credit(old(self).weighted_credits@, asset_id, minter) {
                    exists|i: int|
                        0 <= i < old(self).weighted_credits@.len()
                            && (#[trigger] old(self).weighted_credits@[i]).0 == asset_id
                            && old(self).weighted_credits@[i].1 == minter
                            && final(self).weighted_credits@ == old(self).weighted_credits@.update(
                            i,
                            (asset_id, minter, sat_add(old(self).weighted_credits@[i].2, mint_amount)),
                        )
                } else {
                    final(self).weighted_credits@ == old(self).weighted_credits@.push(
                        (asset_id, minter, mint_amount),
                    )
                })
            }),
    {
        if !self.v_token_score_exists(asset_id) {
            return Err(Error::AssetScoreNotExist);
        }
        let ghost orig: Mint = *self;
        let n = self.weighted_credits.len();
        let mut i: usize = 0;
        while i < n
            invariant
                0 <= i <= n,
                n == self.weighted_credits@.len(),
                *self == orig,
                orig == *old(self),
                old(self).wf(),
                has_asset(old(self).asset_weights@, asset_id),
                forall|k: int|
                    0 <= k < i ==> ((#[trigger] self.weighted_credits@[k]).0,
                    self.weighted_credits@[k].1) != (asset_id, minter),
            decreases n - i,
        {
            if self.weighted_credits[i].0 == asset_id && self.weighted_credits[i].1 == minter {
                let c = self.weighted_credits[i].2;
                let e = &mut self.weighted_credits[i];
                *e = (asset_id, minter, c.saturating_add(mint_amount));
                self.record_in_monitor(mint_amount);
                return Ok(());
            }
            i = i + 1;
        }
        self.weighted_credits.push((asset_id, minter, mint_amount));
        self.record_in_monitor(mint_amount);
        Ok(())
    }

    /// Raise the watermark candidate and the pending transaction count
    /// after one recorded mint.
    fn record_in_monitor(&mut self, mint_amount: u128)
        ensures
            final(self).monitor == monitor_after_mint(old(self).monitor, mint_amount),
            final(self).config == old(self).config,
            final(self).bnc_sum == old(self).bnc_sum,
            final(self).price_block == old(self).price_block,
            final(self).bnc_price == old(self).bnc_price,
            final(self).flat_credits@ == old(self).flat_credits@,
            final(self).asset_weights@ == old(self).asset_weights@,
            final(self).weighted_credits@ == old(self).weighted_credits@,
    {
        if mint_amount > self.monitor.max_single_mint {
            self.monitor.max_single_mint = mint_amount;
        }
        self.monitor.tx_count = self.monitor.tx_count.saturating_add(1);
    }
}

} // verus!
