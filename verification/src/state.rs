//! The ledger store of the engine: configuration, the emission pool, the
//! price point, the issuance monitor and the three credit/weight maps,
//! together with the basic operations that read or build them.

use vstd::prelude::*;
use crate::arith::sat_add;

verus! {

/// The failure modes of the engine.
#[derive(Clone, Copy, Debug, PartialEq, Eq, Structural)]
pub enum Error {
    /// No credits to distribute under the flat model.
    MinterNotExist,
    /// The emission pool is empty.
    BncAmountNotExist,
    /// A weighted mint was recorded against an unregistered asset.
    AssetScoreNotExist,
    /// A pledge at or below the configured base amount.
    PledgeAmountNotEnough,
    /// The currency service refused a payout.
    DepositBncFailure,
}

/// Deployment-time configuration, fixed at genesis.
#[derive(Clone, Copy, Debug, PartialEq, Eq, Structural)]
pub struct Config {
    /// Blocks between two price halvings.
    pub price_half_block_interval: u32,
    /// Blocks after which a distribution round is due.
    pub max_issue_block_interval: u32,
    /// Transaction-count fast-path threshold.
    pub max_tx_amount: u32,
    /// Minimum pledge before any weight effect.
    pub pledge_base_amount: u32,
}

/// The issuance monitor: the block of the last trigger update, the recorded
/// watermark, the largest single mint seen since the last distribution, and
/// the count of mint operations since the last distribution.
#[derive(Clone, Copy, Debug, PartialEq, Eq, Structural)]
pub struct Monitor {
    pub last_trigger_block: u64,
    pub watermark: u128,
    pub max_single_mint: u128,
    pub tx_count: u32,
}

/// The monitor state after a completed distribution round.
pub open spec fn monitor_zero() -> Monitor {
    Monitor { last_trigger_block: 0, watermark: 0, max_single_mint: 0, tx_count: 0 }
}

/// The external currency service consulted during distribution. A deposit
/// must succeed only if the account already exists and the amount was fully
/// applied; the engine treats any other outcome as failure. Nothing is
/// assumed of the outcome: the engine states what holds either way.
pub trait CurrencyDeposit {
    fn deposit_into_existing(&mut self, account: u64, amount: u128) -> (ok: bool);
}

/// The whole engine state. Participants are account identifiers, assets are
/// asset identifiers, and balances are non-negative 128-bit integers under
/// saturating arithmetic.
pub struct Mint {
    /// Fixed configuration.
    pub config: Config,
    /// The emission pool: reward accrued and not yet distributed.
    pub bnc_sum: u128,
    /// The block at which the price was last adjusted.
    pub price_block: u64,
    /// The current per-block emission price.
    pub bnc_price: u128,
    /// The issuance monitor.
    pub monitor: Monitor,
    /// Flat-model credits: participant, accrued credit.
    pub flat_credits: Vec<(u64, u128)>,
    /// Per-asset weight scores: asset, base score, adjust score.
    pub asset_weights: Vec<(u32, u128, u128)>,
    /// Weighted-model credits: asset, participant, accrued credit.
    pub weighted_credits: Vec<(u32, u64, u128)>,
}

/// Each participant holds at most one flat credit entry.
pub open spec fn uniq_flat(s: Seq<(u64, u128)>) -> bool {
    forall|i: int, j: int| 0 <= i < j < s.len() ==> (#[trigger] s[i]).0 != (#[trigger] s[j]).0
}

/// Each asset holds at most one weight entry.
pub open spec fn uniq_assets(s: Seq<(u32, u128, u128)>) -> bool {
    forall|i: int, j: int| 0 <= i < j < s.len() ==> (#[trigger] s[i]).0 != (#[trigger] s[j]).0
}

/// Each asset-participant pair holds at most one weighted credit entry.
pub open spec fn uniq_weighted(s: Seq<(u32, u64, u128)>) -> bool {
    forall|i: int, j: int|
        0 <= i < j < s.len() ==> ((#[trigger] s[i]).0, s[i].1) != ((#[trigger] s[j]).0, s[j].1)
}

/// Whether some asset has a registered weight entry.
pub open spec fn has_asset(s: Seq<(u32, u128, u128)>, asset_id: u32) -> bool {
    exists|i: int| 0 <= i < s.len() && (#[trigger] s[i]).0 == asset_id
}

/// Whether some participant holds a flat credit entry.
pub open spec fn has_flat_credit(s: Seq<(u64, u128)>, who: u64) -> bool {
    exists|i: int| 0 <= i < s.len() && (#[trigger] s[i]).0 == who
}

/// Whether a participant holds a weighted credit entry under an asset.
pub open spec fn has_weighted_credit(s: Seq<(u32, u64, u128)>, asset_id: u32, who: u64) -> bool {
    exists|i: int| 0 <= i < s.len() && (#[trigger] s[i]).0 == asset_id && s[i].1 == who
}

impl Mint {
    /// Well-formedness: every map keyed uniquely.
    pub open spec fn wf(self) -> bool {
        &&& uniq_flat(self.flat_credits@)
        &&& uniq_assets(self.asset_weights@)
        &&& uniq_weighted(self.weighted_credits@)
    }

    /// The two states agree on every field.
    pub open spec fn same_state(self, other: Mint) -> bool {
        &&& self.config == other.config
        &&& self.bnc_sum == other.bnc_sum
        &&& self.price_block == other.price_block
        &&& self.bnc_price == other.bnc_price
        &&& self.monitor == other.monitor
        &&& self.flat_credits@ == other.flat_credits@
        &&& self.asset_weights@ == other.asset_weights@
        &&& self.weighted_credits@ == other.weighted_credits@
    }

    /// All fields but the flat credit map and the monitor are shared.
    pub open spec fn same_but_flat_and_monitor(self, other: Mint) -> bool {
        &&& self.config == other.config
        &&& self.bnc_sum == other.bnc_sum
        &&& self.price_block == other.price_block
        &&& self.bnc_price == other.bnc_price
        &&& self.asset_weights@ == other.asset_weights@
        &&& self.weighted_credits@ == other.weighted_credits@
    }

    /// All fields but the weighted credit map and the monitor are shared.
    pub open spec fn same_but_weighted_and_monitor(self, other: Mint) -> bool {
        &&& self.config == other.config
        &&& self.bnc_sum == other.bnc_sum
        &&& self.price_block == other.price_block
        &&& self.bnc_price == other.bnc_price
        &&& self.asset_weights@ == other.asset_weights@
        &&& self.flat_credits@ == other.flat_credits@
    }

    /// All fields but the asset weight map are shared.
    pub open spec fn same_but_asset_weights(self, other: Mint) -> bool {
        &&& self.config == other.config
        &&& self.bnc_sum == other.bnc_sum
        &&& self.price_block == other.price_block
        &&& self.bnc_price == other.bnc_price
        &&& self.monitor == other.monitor
        &&& self.flat_credits@ == other.flat_credits@
        &&& self.weighted_credits@ == other.weighted_credits@
    }

    /// Genesis: empty pool and maps, the initial price point loaded once.
    pub fn new(config: Config, genesis_block: u64, genesis_price: u128) -> (r: Mint)
        ensures
            r.wf(),
            r.config == config,
            r.bnc_sum == 0,
            r.price_block == genesis_block,
            r.bnc_price == genesis_price,
            r.monitor == monitor_zero(),
            r.flat_credits@.len() == 0,
            r.asset_weights@.len() == 0,
            r.weighted_credits@.len() == 0,
    {
        Mint {
            config,
            bnc_sum: 0,
            price_block: genesis_block,
            bnc_price: genesis_price,
            monitor: Monitor { last_trigger_block: 0, watermark: 0, max_single_mint: 0, tx_count: 0 },
            flat_credits: Vec::new(),
            asset_weights: Vec::new(),
            weighted_credits: Vec::new(),
        }
    }

    /// Accrue newly generated reward into the emission pool, saturating.
    pub fn count_bnc(&mut self, generate_amount: u128)
        ensures
            final(self).bnc_sum == sat_add(old(self).bnc_sum, generate_amount),
            final(self).config == old(self).config,
            final(self).price_block == old(self).price_block,
            final(self).bnc_price == old(self).bnc_price,
            final(self).monitor == old(self).monitor,
            final(self).flat_credits@ == old(self).flat_credits@,
            final(self).asset_weights@ == old(self).asset_weights@,
            final(self).weighted_credits@ == old(self).weighted_credits@,
    {
        self.bnc_sum = self.bnc_sum.saturating_add(generate_amount);
    }

    /// Whether the asset has a registered weight score.
    pub fn v_token_score_exists(&self, asset_id: u32) -> (r: bool)
        ensures
            r == has_asset(self.asset_weights@, asset_id),
    {
        let n = self.asset_weights.len();
        let mut i: usize = 0;
        while i < n
            invariant
                0 <= i <= n,
                n == self.asset_weights@.len(),
                forall|k: int| 0 <= k < i ==> (#[trigger] self.asset_weights@[k]).0 != asset_id,
            decreases n - i,
        {
            if self.asset_weights[i].0 == asset_id {
                return true;
            }
            i = i + 1;
        }
        false
    }

    /// Register an asset's weight: the base score is set to the given score
    /// and the adjust score to zero, replacing any earlier entry.
    pub fn init_v_token_score(&mut self, asset_id: u32, score: u128)
        requires
            old(self).wf(),
        ensures
            final(self).wf(),
            old(self).same_but_asset_weights(*final(self)),
            has_asset(final(self).asset_weights@, asset_id),
            (if has_asset(old(self).asset_weights@, asset_id) {
                exists|i: int|
                    0 <= i < old(self).asset_weights@.len()
                        && (#[trigger] old(self).asset_weights@[i]).0 == asset_id
                        && final(self).asset_weights@ == old(self).asset_weights@.update(
                        i,
                        (asset_id, score, 0u128),
                    )
            } else {
                final(self).asset_weights@ == old(self).asset_weights@.push(
                    (asset_id, score, 0u128),
                )
            }),
    {
        let ghost orig: Mint = *self;
        let n = self.asset_weights.len();
        let mut i: usize = 0;
        while i < n
            invariant
                0 <= i <= n,
                n == self.asset_weights@.len(),
                old(self).wf(),
                orig == *old(self),
                orig.same_but_asset_weights(*self),
                self.asset_weights@ == orig.asset_weights@,
                forall|k: int| 0 <= k < i ==> (#[trigger] self.asset_weights@[k]).0 != asset_id,
            decreases n - i,
        {
            if self.asset_weights[i].0 == asset_id {
                let e = &mut self.asset_weights[i];
                *e = (asset_id, score, 0u128);
                return ;
            }
            i = i + 1;
        }
        self.asset_weights.push((asset_id, score, 0u128));
        proof {
            assert((self.asset_weights@[self.asset_weights@.len() - 1]).0 == asset_id);
        }
    }
}

} // verus!
