//! The weight adjuster: converts a pledge amount into a bounded integer
//! score delta via a discrete binary logarithm, and raises or lowers the
//! per-asset adjust score.

use vstd::prelude::*;
use crate::arith::{floor_log2, log2, sat_add, sat_sub};
use crate::state::{Error, Mint, has_asset};

verus! {

/// The score delta earned by a pledge above the base amount: the floor of
/// the binary logarithm of the excess. Each doubling of the pledge above
/// the base yields one more unit of score.
pub open spec fn weight_delta(pledge_amount: u128, base_amount: u128) -> u128
    recommends
        pledge_amount > base_amount,
{
    log2((pledge_amount - base_amount) as int) as u128
}

impl Mint {
    /// Raise an asset's adjust score by the pledge's score delta,
    /// saturating. A pledge at or below the base amount is rejected. An
    /// asset without a weight entry receives one with base score zero.
    pub fn improve_v_token_weight(&mut self, asset_id: u32, pledge_amount: u128) -> (r: Result<
        (),
        Error,
    >)
        requires
            old(self).wf(),
        ensures
            final(self).wf(),
            (if pledge_amount <= old(self).config.pledge_base_amount as u128 {
                r == Err::<(), Error>(Error::PledgeAmountNotEnough) && old(self).same_state(
                    *final(self),
                )
            } else {
                let delta = weight_delta(pledge_amount, old(self).config.pledge_base_amount as u128);
                r == Ok::<(), Error>(()) && old(self).same_but_asset_weights(*final(self)) && (if has_asset(
                    old(self).asset_weights@,
                    asset_id,
                ) {
                    exists|i: int|
                        0 <= i < old(self).asset_weights@.len()
                            && (#[trigger] old(self).asset_weights@[i]).0 == asset_id
                            && final(self).asset_weights@ == old(self).asset_weights@.update(
                            i,
                            (asset_id, old(self).asset_weights@[i].1, sat_add(
                                old(self).asset_weights@[i].2,
                                delta,
                            )),
                        )
                } else {
                    final(self).asset_weights@ == old(self).asset_weights@.push(
                        (asset_id, 0u128, delta),
                    )
                })
            }),
    {
        let base_amount = self.config.pledge_base_amount as u128;
        if pledge_amount <= base_amount {
            return Err(Error::PledgeAmountNotEnough);
        }
        let delta = floor_log2(pledge_amount - base_amount) as u128;
        let ghost orig: Mint = *self;
        let n = self.asset_weights.len();
        let mut i: usize = 0;
        while i < n
            invariant
                0 <= i <= n,
                n == self.asset_weights@.len(),
                *self == orig,
                orig == *old(self),
                old(self).wf(),
                pledge_amount > old(self).config.pledge_base_amount as u128,
                delta == weight_delta(pledge_amount, old(self).config.pledge_base_amount as u128),
                forall|k: int| 0 <= k < i ==> (#[trigger] self.asset_weights@[k]).0 != asset_id,
            decreases n - i,
        {
            if self.asset_weights[i].0 == asset_id {
                let (_, base_score, adjust_score) = self.asset_weights[i];
                let e = &mut self.asset_weights[i];
                *e = (asset_id, base_score, adjust_score.saturating_add(delta));
                return Ok(());
            }
            i = i + 1;
        }
        self.asset_weights.push((asset_id, 0u128, delta));
        Ok(())
    }

    /// Lower an asset's adjust score by the pledge's score delta, never
    /// below zero. A pledge at or below the base amount is rejected. An
    /// asset without a weight entry receives one with both scores zero.
    pub fn withdraw_v_token_pledge(&mut self, asset_id: u32, pledge_amount: u128) -> (r: Result<
        (),
        Error,
    >)
        requires
            old(self).wf(),
        ensures
            final(self).wf(),
            (if pledge_amount <= old(self).config.pledge_base_amount as u128 {
                r == Err::<(), Error>(Error::PledgeAmountNotEnough) && old(self).same_state(
                    *final(self),
                )
            } else {
                let delta = weight_delta(pledge_amount, old(self).config.pledge_base_amount as u128);
                r == Ok::<(), Error>(()) && old(self).same_but_asset_weights(*final(self)) && (if has_asset(
                    old(self).asset_weights@,
                    asset_id,
                ) {
                    exists|i: int|
                        0 <= i < old(self).asset_weights@.len()
                            && (#[trigger] old(self).asset_weights@[i]).0 == asset_id
                            && final(self).asset_weights@ == old(self).asset_weights@.update(
                            i,
                            (asset_id, old(self).asset_weights@[i].1, sat_sub(
                                old(self).asset_weights@[i].2,
                                delta,
                            )),
                        )
                } else {
                    final(self).asset_weights@ == old(self).asset_weights@.push(
                        (asset_id, 0u128, sat_sub(0, delta)),
                    )
                })
            }),
    {
        let base_amount = self.config.pledge_base_amount as u128;
        if pledge_amount <= base_amount {
            return Err(Error::PledgeAmountNotEnough);
        }
        let delta = floor_log2(pledge_amount - base_amount) as u128;
        let ghost orig: Mint = *self;
        let n = self.asset_weights.len();
        let mut i: usize = 0;
        while i < n
            invariant
                0 <= i <= n,
                n == self.asset_weights@.len(),
                *self == orig,
                orig == *old(self),
                old(self).wf(),
                pledge_amount > old(self).config.pledge_base_amount as u128,
                delta == weight_delta(pledge_amount, old(self).config.pledge_base_amount as u128),
                forall|k: int| 0 <= k < i ==> (#[trigger] self.asset_weights@[k]).0 != asset_id,
            decreases n - i,
        {
            if self.asset_weights[i].0 == asset_id {
                let (_, base_score, adjust_score) = self.asset_weights[i];
                let e = &mut self.asset_weights[i];
                *e = (asset_id, base_score, adjust_score.saturating_sub(delta));
                return Ok(());
            }
            i = i + 1;
        }
        self.asset_weights.push((asset_id, 0u128, 0u128));
        Ok(())
    }
}

} // verus!
