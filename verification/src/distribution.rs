//! The distribution engine: the flat pro-rata round and the two-tier
//! asset-weighted round, each draining the emission pool and resetting the
//! issuance monitor on success.

use vstd::prelude::*;
use crate::arith::{sat_add, sat_mul, saturating_mul_u128};
use crate::state::{CurrencyDeposit, Error, Mint, Monitor, monitor_zero};

verus! {

/// Saturating total of all flat credits, in entry order.
pub open spec fn flat_total(s: Seq<(u64, u128)>) -> u128
    decreases s.len(),
{
    if s.len() == 0 {
        0
    } else {
        sat_add(flat_total(s.drop_last()), s.last().1)
    }
}

/// A flat participant's payout: its credit times the pool (saturating),
/// divided (truncating) by the total credit.
pub open spec fn flat_reward(credit: u128, pool: u128, total: u128) -> u128
    recommends
        total > 0,
{
    (sat_mul(credit, pool) / total) as u128
}

/// The payout list of a flat round: one entry per credit holder in entry
/// order, zero payouts skipped.
pub open spec fn flat_payout_seq(credits: Seq<(u64, u128)>, pool: u128, total: u128) -> Seq<
    (u64, u128),
>
    decreases credits.len(),
{
    if credits.len() == 0 {
        Seq::empty()
    } else {
        let rest = flat_payout_seq(credits.drop_last(), pool, total);
        let r = flat_reward(credits.last().1, pool, total);
        if r == 0 {
            rest
        } else {
            rest.push((credits.last().0, r))
        }
    }
}

/// Saturating total of all weight scores (base plus adjust), in entry order.
pub open spec fn total_weight(s: Seq<(u32, u128, u128)>) -> u128
    decreases s.len(),
{
    if s.len() == 0 {
        0
    } else {
        sat_add(sat_add(total_weight(s.drop_last()), s.last().1), s.last().2)
    }
}

/// An asset's share of the pool: its weight times the pool (saturating),
/// divided (truncating) by the total weight.
pub open spec fn asset_share(base: u128, adjust: u128, pool: u128, total: u128) -> u128
    recommends
        total > 0,
{
    (sat_mul(sat_add(base, adjust), pool) / total) as u128
}

/// Saturating total of one asset's participant credits, in entry order.
pub open spec fn asset_credit_total(wc: Seq<(u32, u64, u128)>, asset_id: u32) -> u128
    decreases wc.len(),
{
    if wc.len() == 0 {
        0
    } else {
        let rest = asset_credit_total(wc.drop_last(), asset_id);
        if wc.last().0 == asset_id {
            sat_add(rest, wc.last().2)
        } else {
            rest
        }
    }
}

/// A weighted participant's payout: its credit times the asset's share
/// (saturating), divided (truncating) by the asset's total credit.
pub open spec fn weighted_reward(credit: u128, share: u128, asset_total: u128) -> u128
    recommends
        asset_total > 0,
{
    (sat_mul(credit, share) / asset_total) as u128
}

/// The payout list of one asset within a weighted round: its credit holders
/// in entry order, zero payouts skipped.
pub open spec fn asset_payout_seq(
    wc: Seq<(u32, u64, u128)>,
    asset_id: u32,
    share: u128,
    asset_total: u128,
) -> Seq<(u64, u128)>
    decreases wc.len(),
{
    if wc.len() == 0 {
        Seq::empty()
    } else {
        let rest = asset_payout_seq(wc.drop_last(), asset_id, share, asset_total);
        if wc.last().0 == asset_id {
            let r = weighted_reward(wc.last().2, share, asset_total);
            if r == 0 {
                rest
            } else {
                rest.push((wc.last().1, r))
            }
        } else {
            rest
        }
    }
}

/// The payout list of a weighted round: assets in entry order, and within
/// each asset its credit holders in entry order; an asset whose holders
/// have no credit is skipped entirely.
pub open spec fn weighted_payout_seq(
    aw: Seq<(u32, u128, u128)>,
    wc: Seq<(u32, u64, u128)>,
    pool: u128,
    total: u128,
) -> Seq<(u64, u128)>
    decreases aw.len(),
{
    if aw.len() == 0 {
        Seq::empty()
    } else {
        let head = weighted_payout_seq(aw.drop_last(), wc, pool, total);
        let e = aw.last();
        let asset_total = asset_credit_total(wc, e.0);
        if asset_total == 0 {
            head
        } else {
            head + asset_payout_seq(wc, e.0, asset_share(e.1, e.2, pool, total), asset_total)
        }
    }
}

impl Mint {
    /// Compute the payout list of a flat round over the current state,
    /// without performing it: each credit holder receives its credit's
    /// truncated pro-rata share of the pool.
    pub fn flat_payouts(&self) -> (r: Result<Vec<(u64, u128)>, Error>)
        ensures
            (self.bnc_sum == 0 <==> r == Err::<Vec<(u64, u128)>, Error>(
                Error::BncAmountNotExist,
            )),
            (self.bnc_sum != 0 && flat_total(self.flat_credits@) == 0 <==> r == Err::<
                Vec<(u64, u128)>,
                Error,
            >(Error::MinterNotExist)),
            (self.bnc_sum != 0 && flat_total(self.flat_credits@) != 0 ==> (r matches Ok(v) && v@
                == flat_payout_seq(
                self.flat_credits@,
                self.bnc_sum,
                flat_total(self.flat_credits@),
            ))),
    {
        if self.bnc_sum == 0 {
            return Err(Error::BncAmountNotExist);
        }
        let pool = self.bnc_sum;
        let n = self.flat_credits.len();
        let mut total: u128 = 0;
        let mut i: usize = 0;
        while i < n
            invariant
                0 <= i <= n,
                n == self.flat_credits@.len(),
                total == flat_total(self.flat_credits@.take(i as int)),
            decreases n - i,
        {
            proof {
                assert(self.flat_credits@.take(i + 1).drop_last() =~= self.flat_credits@.take(
                    i as int,
                ));
            }
            total = total.saturating_add(self.flat_credits[i].1);
            i = i + 1;
        }
        proof {
            assert(self.flat_credits@.take(n as int) =~= self.flat_credits@);
        }
        if total == 0 {
            return Err(Error::MinterNotExist);
        }
        let mut out: Vec<(u64, u128)> = Vec::new();
        let mut i: usize = 0;
        while i < n
            invariant
                0 <= i <= n,
                n == self.flat_credits@.len(),
                pool == self.bnc_sum,
                total == flat_total(self.flat_credits@),
                total != 0,
                out@ == flat_payout_seq(self.flat_credits@.take(i as int), pool, total),
            decreases n - i,
        {
            proof {
                assert(self.flat_credits@.take(i + 1).drop_last() =~= self.flat_credits@.take(
                    i as int,
                ));
            }
            let (who, credit) = self.flat_credits[i];
            let reward = saturating_mul_u128(credit, pool) / total;
            if reward != 0 {
                out.push((who, reward));
            }
            i = i + 1;
        }
        proof {
            assert(self.flat_credits@.take(n as int) =~= self.flat_credits@);
        }
        Ok(out)
    }

    /// Run a flat distribution round: pay every credit holder its pro-rata
    /// share through the currency service, and on full success drain the
    /// pool, remove every flat credit and reset the monitor. A refused
    /// payout aborts the round at once: participants already paid stay
    /// paid, and no bookkeeping is reset. A round whose payout list is
    /// empty — every reward truncates to zero — consults no one and always
    /// succeeds.
    pub fn issue_bnc<C: CurrencyDeposit>(&mut self, currency: &mut C) -> (r: Result<(), Error>)
        requires
            old(self).wf(),
        ensures
            final(self).wf(),
            old(self).bnc_sum == 0 ==> r == Err::<(), Error>(Error::BncAmountNotExist)
                && old(self).same_state(*final(self)),
            old(self).bnc_sum != 0 && flat_total(old(self).flat_credits@) == 0 ==> r == Err::<
                (),
                Error,
            >(Error::MinterNotExist) && old(self).same_state(*final(self)),
            old(self).bnc_sum != 0 && flat_total(old(self).flat_credits@) != 0 ==> (r == Ok::<
                (),
                Error,
            >(()) || r == Err::<(), Error>(Error::DepositBncFailure)),
            r == Ok::<(), Error>(()) ==> ({
                &&& old(self).bnc_sum != 0
                &&& flat_total(old(self).flat_credits@) != 0
                &&& final(self).bnc_sum == 0
                &&& final(self).flat_credits@.len() == 0
                &&& final(self).monitor == monitor_zero()
                &&& final(self).config == old(self).config
                &&& final(self).price_block == old(self).price_block
                &&& final(self).bnc_price == old(self).bnc_price
                &&& final(self).asset_weights@ == old(self).asset_weights@
                &&& final(self).weighted_credits@ == old(self).weighted_credits@
            }),
            r == Err::<(), Error>(Error::DepositBncFailure) ==> old(self).same_state(
                *final(self),
            ),
            old(self).bnc_sum != 0 && flat_total(old(self).flat_credits@) != 0
                && flat_payout_seq(
                old(self).flat_credits@,
                old(self).bnc_sum,
                flat_total(old(self).flat_credits@),
            ).len() == 0 ==> r == Ok::<(), Error>(()),
    {
        let payouts = match self.flat_payouts() {
            Err(e) => {
                return Err(e);
            },
            Ok(p) => p,
        };
        let m = payouts.len();
        let mut k: usize = 0;
        while k < m
            invariant
                0 <= k <= m,
                m == payouts@.len(),
                old(self).wf(),
                *self == *old(self),
                old(self).bnc_sum != 0,
                flat_total(old(self).flat_credits@) != 0,
                payouts@ == flat_payout_seq(
                    old(self).flat_credits@,
                    old(self).bnc_sum,
                    flat_total(old(self).flat_credits@),
                ),
            decreases m - k,
        {
            let (who, amount) = payouts[k];
            if !currency.deposit_into_existing(who, amount) {
                return Err(Error::DepositBncFailure);
            }
            k = k + 1;
        }
        self.bnc_sum = 0;
        self.flat_credits = Vec::new();
        self.monitor = Monitor { last_trigger_block: 0, watermark: 0, max_single_mint: 0, tx_count: 0 };
        Ok(())
    }

    /// Compute the payout list of a weighted round over the current state,
    /// without performing it: each asset receives its weight's truncated
    /// pro-rata share of the pool, and each of its credit holders that
    /// share's truncated pro-rata slice by credit.
    pub fn weighted_payouts(&self) -> (r: Result<Vec<(u64, u128)>, Error>)
        requires
            self.bnc_sum != 0 && self.asset_weights@.len() > 0 ==> total_weight(
                self.asset_weights@,
            ) != 0,
        ensures
            (self.bnc_sum == 0 <==> r == Err::<Vec<(u64, u128)>, Error>(
                Error::BncAmountNotExist,
            )),
            self.bnc_sum != 0 ==> (r matches Ok(v) && v@ == weighted_payout_seq(
                self.asset_weights@,
                self.weighted_credits@,
                self.bnc_sum,
                total_weight(self.asset_weights@),
            )),
    {
        if self.bnc_sum == 0 {
            return Err(Error::BncAmountNotExist);
        }
        let pool = self.bnc_sum;
        let n = self.asset_weights.len();
        let mut total: u128 = 0;
        let mut i: usize = 0;
        while i < n
            invariant
                0 <= i <= n,
                n == self.asset_weights@.len(),
                total == total_weight(self.asset_weights@.take(i as int)),
            decreases n - i,
        {
            proof {
                assert(self.asset_weights@.take(i + 1).drop_last() =~= self.asset_weights@.take(
                    i as int,
                ));
            }
            let (_, base_score, adjust_score) = self.asset_weights[i];
            total = total.saturating_add(base_score).saturating_add(adjust_score);
            i = i + 1;
        }
        proof {
            assert(self.asset_weights@.take(n as int) =~= self.asset_weights@);
        }
        let wn = self.weighted_credits.len();
        let mut out: Vec<(u64, u128)> = Vec::new();
        let mut i: usize = 0;
        while i < n
            invariant
                0 <= i <= n,
                n == self.asset_weights@.len(),
                wn == self.weighted_credits@.len(),
                pool == self.bnc_sum,
                total == total_weight(self.asset_weights@),
                n > 0 ==> total != 0,
                out@ == weighted_payout_seq(
                    self.asset_weights@.take(i as int),
                    self.weighted_credits@,
                    pool,
                    total,
                ),
            decreases n - i,
        {
            proof {
                assert(self.asset_weights@.take(i + 1).drop_last() =~= self.asset_weights@.take(
                    i as int,
                ));
            }
            let (asset_id, base_score, adjust_score) = self.asset_weights[i];
            let share = saturating_mul_u128(base_score.saturating_add(adjust_score), pool) / total;
            let mut asset_total: u128 = 0;
            let mut j: usize = 0;
            while j < wn
                invariant
                    0 <= j <= wn,
                    wn == self.weighted_credits@.len(),
                    asset_total == asset_credit_total(
                        self.weighted_credits@.take(j as int),
                        asset_id,
                    ),
                decreases wn - j,
            {
                proof {
                    assert(self.weighted_credits@.take(j + 1).drop_last()
                        =~= self.weighted_credits@.take(j as int));
                }
                if self.weighted_credits[j].0 == asset_id {
                    asset_total = asset_total.saturating_add(self.weighted_credits[j].2);
                }
                j = j + 1;
            }
            proof {
                assert(self.weighted_credits@.take(wn as int) =~= self.weighted_credits@);
            }
            if asset_total != 0 {
                let mut j: usize = 0;
                while j < wn
                    invariant
                        0 <= j <= wn,
                        wn == self.weighted_credits@.len(),
                        asset_total == asset_credit_total(self.weighted_credits@, asset_id),
                        asset_total != 0,
                        share == asset_share(base_score, adjust_score, pool, total),
                        out@ == weighted_payout_seq(
                            self.asset_weights@.take(i as int),
                            self.weighted_credits@,
                            pool,
                            total,
                        ) + asset_payout_seq(
                            self.weighted_credits@.take(j as int),
                            asset_id,
                            share,
                            asset_total,
                        ),
                    decreases wn - j,
                {
                    proof {
                        assert(self.weighted_credits@.take(j + 1).drop_last()
                            =~= self.weighted_credits@.take(j as int));
                    }
                    let (a, who, credit) = self.weighted_credits[j];
                    if a == asset_id {
                        let reward = saturating_mul_u128(credit, share) / asset_total;
                        if reward != 0 {
                            out.push((who, reward));
                        }
                    }
                    j = j + 1;
                }
                proof {
                    assert(self.weighted_credits@.take(wn as int) =~= self.weighted_credits@);
                }
            }
            i = i + 1;
        }
        proof {
            assert(self.asset_weights@.take(n as int) =~= self.asset_weights@);
        }
        Ok(out)
    }

    /// Run a weighted distribution round: pay every credit holder its slice
    /// of its asset's share through the currency service, and on full
    /// success drain the pool, remove every weighted credit (weight scores
    /// persist) and reset the monitor. A refused payout aborts the round at
    /// once: participants already paid stay paid, and no bookkeeping is
    /// reset. A round whose payout list is empty — no asset registered, no
    /// asset holding credit, or every reward truncating to zero — consults
    /// no one and always succeeds.
    pub fn issue_bnc_by_weight<C: CurrencyDeposit>(&mut self, currency: &mut C) -> (r: Result<
        (),
        Error,
    >)
        requires
            old(self).wf(),
            old(self).bnc_sum != 0 && old(self).asset_weights@.len() > 0 ==> total_weight(
                old(self).asset_weights@,
            ) != 0,
        ensures
            final(self).wf(),
            old(self).bnc_sum == 0 ==> r == Err::<(), Error>(Error::BncAmountNotExist)
                && old(self).same_state(*final(self)),
            old(self).bnc_sum != 0 ==> (r == Ok::<(), Error>(()) || r == Err::<(), Error>(
                Error::DepositBncFailure,
            )),
            r == Ok::<(), Error>(()) ==> ({
                &&& old(self).bnc_sum != 0
                &&& final(self).bnc_sum == 0
                &&& final(self).weighted_credits@.len() == 0
                &&& final(self).monitor == monitor_zero()
                &&& final(self).config == old(self).config
                &&& final(self).price_block == old(self).price_block
                &&& final(self).bnc_price == old(self).bnc_price
                &&& final(self).asset_weights@ == old(self).asset_weights@
                &&& final(self).flat_credits@ == old(self).flat_credits@
            }),
            r == Err::<(), Error>(Error::DepositBncFailure) ==> old(self).same_state(
                *final(self),
            ),
            old(self).bnc_sum != 0 && weighted_payout_seq(
                old(self).asset_weights@,
                old(self).weighted_credits@,
                old(self).bnc_sum,
                total_weight(old(self).asset_weights@),
            ).len() == 0 ==> r == Ok::<(), Error>(()),
    {
        let payouts = match self.weighted_payouts() {
            Err(e) => {
                return Err(e);
            },
            Ok(p) => p,
        };
        let m = payouts.len();
        let mut k: usize = 0;
        while k < m
            invariant
                0 <= k <= m,
                m == payouts@.len(),
                old(self).wf(),
                *self == *old(self),
                old(self).bnc_sum != 0,
                payouts@ == weighted_payout_seq(
                    old(self).asset_weights@,
                    old(self).weighted_credits@,
                    old(self).bnc_sum,
                    total_weight(old(self).asset_weights@),
                ),
            decreases m - k,
        {
            let (who, amount) = payouts[k];
            if !currency.deposit_into_existing(who, amount) {
                return Err(Error::DepositBncFailure);
            }
            k = k + 1;
        }
        self.bnc_sum = 0;
        self.weighted_credits = Vec::new();
        self.monitor = Monitor { last_trigger_block: 0, watermark: 0, max_single_mint: 0, tx_count: 0 };
        Ok(())
    }
}

} // verus!
