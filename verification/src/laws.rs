//! The distribution and weight-adjustment laws: exact accounting bounds for
//! the flat round, proportionality bounds for the weighted round, and the
//! inverse law of the weight adjuster.

use vstd::prelude::*;
use crate::arith::{lemma_div_bounds, sat_add, sat_mul, sat_sub};
use crate::distribution::{
    asset_credit_total,
    asset_payout_seq,
    asset_share,
    flat_payout_seq,
    flat_reward,
    flat_total,
    total_weight,
    weighted_payout_seq,
    weighted_reward,
};
use crate::weights::weight_delta;

verus! {

/// Exact (unbounded) sum of the credits of a flat credit map.
pub open spec fn sum_credits_int(s: Seq<(u64, u128)>) -> int
    decreases s.len(),
{
    if s.len() == 0 {
        0
    } else {
        sum_credits_int(s.drop_last()) + s.last().1
    }
}

/// Exact (unbounded) sum of the amounts of a payout list.
pub open spec fn sum_amounts(s: Seq<(u64, u128)>) -> int
    decreases s.len(),
{
    if s.len() == 0 {
        0
    } else {
        sum_amounts(s.drop_last()) + s.last().1
    }
}

/// The credit sum is never negative.
pub proof fn lemma_sum_credits_nonneg(s: Seq<(u64, u128)>)
    ensures
        sum_credits_int(s) >= 0,
    decreases s.len(),
{
    if s.len() > 0 {
        lemma_sum_credits_nonneg(s.drop_last());
    }
}

/// While the exact credit sum fits in a balance, the saturating total of a
/// flat round equals it.
pub proof fn lemma_flat_total_exact(s: Seq<(u64, u128)>)
    requires
        sum_credits_int(s) <= u128::MAX,
    ensures
        flat_total(s) == sum_credits_int(s),
    decreases s.len(),
{
    if s.len() > 0 {
        lemma_sum_credits_nonneg(s.drop_last());
        lemma_flat_total_exact(s.drop_last());
    }
}

/// Partial-sum bounds behind the flat accounting law, with the divisor held
/// fixed: over any prefix of the credit map, the paid amounts stay within
/// one rounding unit per entry of exact proportionality.
proof fn lemma_flat_payout_partial(s: Seq<(u64, u128)>, pool: u128, total: u128)
    requires
        total > 0,
        forall|i: int| 0 <= i < s.len() ==> (#[trigger] s[i]).1 * pool <= u128::MAX,
    ensures
        sum_amounts(flat_payout_seq(s, pool, total)) >= 0,
        total * sum_amounts(flat_payout_seq(s, pool, total)) <= sum_credits_int(s) * pool,
        sum_credits_int(s) * pool - total * sum_amounts(flat_payout_seq(s, pool, total)) <= s.len()
            * (total - 1),
    decreases s.len(),
{
    if s.len() == 0 {
    } else {
        let sp = s.drop_last();
        let c = s.last().1;
        assert(forall|i: int| 0 <= i < sp.len() ==> (#[trigger] sp[i]).1 * pool <= u128::MAX);
        lemma_flat_payout_partial(sp, pool, total);
        let qp = sum_amounts(flat_payout_seq(sp, pool, total));
        let spsum = sum_credits_int(sp);
        // The last entry's product does not saturate.
        assert(s[s.len() - 1].1 * pool <= u128::MAX);
        assert(sat_mul(c, pool) == c * pool);
        let q = flat_reward(c, pool, total);
        lemma_div_bounds(c * pool, total as int);
        assert(q == (c * pool) / (total as int));
        // The paid amounts of the whole prefix.
        if q != 0 {
            assert(flat_payout_seq(s, pool, total).drop_last() =~= flat_payout_seq(
                sp,
                pool,
                total,
            ));
        }
        assert(sum_amounts(flat_payout_seq(s, pool, total)) == qp + q);
        // Upper bound: the truncated payout never exceeds the exact share.
        assert(total * (qp + q) <= (spsum + c) * pool) by (nonlinear_arith)
            requires
                total * qp <= spsum * pool,
                total * q <= c * pool,
        ;
        // Lower bound: each entry loses less than one rounding unit.
        assert((spsum + c) * pool - total * (qp + q) <= (sp.len() + 1) * (total - 1))
            by (nonlinear_arith)
            requires
                spsum * pool - total * qp <= sp.len() * (total - 1),
                c * pool < total * q + total,
                sp.len() >= 0,
                total > 0,
        ;
    }
}

/// Flat accounting law: under exact (unsaturated) totals and products, a
/// flat round pays out at most the pool, and the rounding loss — the part
/// of the pool that is simply not minted — is smaller than the number of
/// credit entries.
pub proof fn lemma_flat_round_bounds(credits: Seq<(u64, u128)>, pool: u128)
    requires
        0 < sum_credits_int(credits) <= u128::MAX,
        forall|i: int| 0 <= i < credits.len() ==> (#[trigger] credits[i]).1 * pool <= u128::MAX,
    ensures
        0 <= sum_amounts(flat_payout_seq(credits, pool, flat_total(credits))),
        sum_amounts(flat_payout_seq(credits, pool, flat_total(credits))) <= pool,
        pool - sum_amounts(flat_payout_seq(credits, pool, flat_total(credits))) < credits.len(),
{
    lemma_flat_total_exact(credits);
    let total = flat_total(credits);
    lemma_flat_payout_partial(credits, pool, total);
    let q = sum_amounts(flat_payout_seq(credits, pool, total));
    let n = credits.len() as int;
    assert(q <= pool) by (nonlinear_arith)
        requires
            total > 0,
            total * q <= total * pool,
    ;
    assert(pool - q < n) by (nonlinear_arith)
        requires
            total > 0,
            n > 0,
            (total as int) * pool - total * q <= n * (total - 1),
    ;
}

/// Weighted proportionality law, first tier: an asset's computed share is
/// proportional to its weight within one truncation unit of the pool —
/// `total * share <= weight * pool < total * share + total`.
pub proof fn lemma_asset_share_proportional(base: u128, adjust: u128, pool: u128, total: u128)
    requires
        total > 0,
        base + adjust <= u128::MAX,
        (base + adjust) * pool <= u128::MAX,
    ensures
        total * asset_share(base, adjust, pool, total) <= (base + adjust) * pool,
        (base + adjust) * pool < total * asset_share(base, adjust, pool, total) + total,
{
    let w = sat_add(base, adjust);
    assert(w == base + adjust);
    assert(sat_mul(w, pool) == w * pool);
    lemma_div_bounds(w * pool, total as int);
}

/// Weighted proportionality law, second tier: a participant's payout is
/// proportional to its credit within one truncation unit of the asset's
/// share — `assetTotal * payout <= credit * share < assetTotal * payout +
/// assetTotal`.
pub proof fn lemma_weighted_reward_proportional(credit: u128, share: u128, asset_total: u128)
    requires
        asset_total > 0,
        credit * share <= u128::MAX,
    ensures
        asset_total * weighted_reward(credit, share, asset_total) <= credit * share,
        credit * share < asset_total * weighted_reward(credit, share, asset_total) + asset_total,
{
    assert(sat_mul(credit, share) == credit * share);
    lemma_div_bounds(credit * share, asset_total as int);
}

/// Exact (unbounded) sum of the weight scores of an asset weight map.
pub open spec fn sum_weights_int(s: Seq<(u32, u128, u128)>) -> int
    decreases s.len(),
{
    if s.len() == 0 {
        0
    } else {
        sum_weights_int(s.drop_last()) + s.last().1 + s.last().2
    }
}

/// Exact (unbounded) sum of one asset's credits in a weighted credit map.
pub open spec fn sum_asset_credits_int(wc: Seq<(u32, u64, u128)>, asset_id: u32) -> int
    decreases wc.len(),
{
    if wc.len() == 0 {
        0
    } else {
        let rest = sum_asset_credits_int(wc.drop_last(), asset_id);
        if wc.last().0 == asset_id {
            rest + wc.last().2
        } else {
            rest
        }
    }
}

/// The weight sum is never negative.
pub proof fn lemma_sum_weights_nonneg(s: Seq<(u32, u128, u128)>)
    ensures
        sum_weights_int(s) >= 0,
    decreases s.len(),
{
    if s.len() > 0 {
        lemma_sum_weights_nonneg(s.drop_last());
    }
}

/// How many entries of a weighted credit map belong to one asset.
pub open spec fn count_asset(wc: Seq<(u32, u64, u128)>, asset_id: u32) -> int
    decreases wc.len(),
{
    if wc.len() == 0 {
        0
    } else {
        count_asset(wc.drop_last(), asset_id) + (if wc.last().0 == asset_id {
            1int
        } else {
            0int
        })
    }
}

/// An asset with no entries has no credit; the count is never negative.
pub proof fn lemma_count_asset_basics(wc: Seq<(u32, u64, u128)>, asset_id: u32)
    ensures
        count_asset(wc, asset_id) >= 0,
        count_asset(wc, asset_id) == 0 ==> sum_asset_credits_int(wc, asset_id) == 0,
    decreases wc.len(),
{
    if wc.len() > 0 {
        lemma_count_asset_basics(wc.drop_last(), asset_id);
    }
}

/// One asset's credit sum is never negative.
pub proof fn lemma_sum_asset_credits_nonneg(wc: Seq<(u32, u64, u128)>, asset_id: u32)
    ensures
        sum_asset_credits_int(wc, asset_id) >= 0,
    decreases wc.len(),
{
    if wc.len() > 0 {
        lemma_sum_asset_credits_nonneg(wc.drop_last(), asset_id);
    }
}

/// While the exact weight sum fits in a balance, the saturating total of a
/// weighted round equals it.
pub proof fn lemma_total_weight_exact(s: Seq<(u32, u128, u128)>)
    requires
        sum_weights_int(s) <= u128::MAX,
    ensures
        total_weight(s) == sum_weights_int(s),
    decreases s.len(),
{
    if s.len() > 0 {
        lemma_sum_weights_nonneg(s.drop_last());
        lemma_total_weight_exact(s.drop_last());
    }
}

/// While one asset's exact credit sum fits in a balance, its saturating
/// total equals it.
pub proof fn lemma_asset_credit_total_exact(wc: Seq<(u32, u64, u128)>, asset_id: u32)
    requires
        sum_asset_credits_int(wc, asset_id) <= u128::MAX,
    ensures
        asset_credit_total(wc, asset_id) == sum_asset_credits_int(wc, asset_id),
    decreases wc.len(),
{
    if wc.len() > 0 {
        lemma_sum_asset_credits_nonneg(wc.drop_last(), asset_id);
        lemma_asset_credit_total_exact(wc.drop_last(), asset_id);
    }
}

/// No single weight exceeds the exact weight sum.
pub proof fn lemma_weight_elem_le_sum(s: Seq<(u32, u128, u128)>, i: int)
    requires
        0 <= i < s.len(),
    ensures
        s[i].1 + s[i].2 <= sum_weights_int(s),
    decreases s.len(),
{
    if i == s.len() - 1 {
        lemma_sum_weights_nonneg(s.drop_last());
    } else {
        lemma_weight_elem_le_sum(s.drop_last(), i);
    }
}

/// Sums of payout lists concatenate.
pub proof fn lemma_sum_amounts_concat(x: Seq<(u64, u128)>, y: Seq<(u64, u128)>)
    ensures
        sum_amounts(x + y) == sum_amounts(x) + sum_amounts(y),
    decreases y.len(),
{
    if y.len() == 0 {
        assert(x + y =~= x);
    } else {
        assert((x + y).drop_last() =~= x + y.drop_last());
        lemma_sum_amounts_concat(x, y.drop_last());
    }
}

/// Partial-sum bounds behind the per-asset accounting law, with the share
/// and the divisor held fixed: over any prefix of the weighted credit map,
/// one asset's paid amounts stay within exact proportionality of the
/// asset's share.
proof fn lemma_asset_payout_partial(
    wc: Seq<(u32, u64, u128)>,
    asset_id: u32,
    share: u128,
    asset_total: u128,
)
    requires
        asset_total > 0,
        forall|j: int|
            0 <= j < wc.len() && (#[trigger] wc[j]).0 == asset_id ==> wc[j].2 * share
                <= u128::MAX,
    ensures
        sum_amounts(asset_payout_seq(wc, asset_id, share, asset_total)) >= 0,
        asset_total * sum_amounts(asset_payout_seq(wc, asset_id, share, asset_total))
            <= sum_asset_credits_int(wc, asset_id) * share,
        sum_asset_credits_int(wc, asset_id) * share - asset_total * sum_amounts(
            asset_payout_seq(wc, asset_id, share, asset_total),
        ) <= count_asset(wc, asset_id) * (asset_total - 1),
    decreases wc.len(),
{
    if wc.len() == 0 {
    } else {
        let wp = wc.drop_last();
        assert(forall|j: int|
            0 <= j < wp.len() && (#[trigger] wp[j]).0 == asset_id ==> wp[j].2 * share
                <= u128::MAX);
        lemma_asset_payout_partial(wp, asset_id, share, asset_total);
        let qp = sum_amounts(asset_payout_seq(wp, asset_id, share, asset_total));
        let sp = sum_asset_credits_int(wp, asset_id);
        let cnt = count_asset(wp, asset_id);
        if wc.last().0 == asset_id {
            let c = wc.last().2;
            assert(wc[wc.len() - 1].2 * share <= u128::MAX);
            assert(sat_mul(c, share) == c * share);
            let q = weighted_reward(c, share, asset_total);
            lemma_div_bounds(c * share, asset_total as int);
            assert(q == (c * share) / (asset_total as int));
            if q != 0 {
                assert(asset_payout_seq(wc, asset_id, share, asset_total).drop_last()
                    =~= asset_payout_seq(wp, asset_id, share, asset_total));
            }
            assert(sum_amounts(asset_payout_seq(wc, asset_id, share, asset_total)) == qp + q);
            assert(asset_total * (qp + q) <= (sp + c) * share) by (nonlinear_arith)
                requires
                    asset_total * qp <= sp * share,
                    asset_total * q <= c * share,
            ;
            assert((sp + c) * share - asset_total * (qp + q) <= (cnt + 1) * (asset_total - 1))
                by (nonlinear_arith)
                requires
                    sp * share - asset_total * qp <= cnt * (asset_total - 1),
                    c * share < asset_total * q + asset_total,
                    asset_total > 0,
            ;
        }
    }
}

/// Per-asset accounting law: under exact (unsaturated) credit totals and
/// products, the holders of one asset receive no more than the asset's
/// computed share, and the share's rounding loss is smaller than the
/// number of the asset's credit entries.
pub proof fn lemma_asset_round_bound(wc: Seq<(u32, u64, u128)>, asset_id: u32, share: u128)
    requires
        0 < sum_asset_credits_int(wc, asset_id) <= u128::MAX,
        forall|j: int|
            0 <= j < wc.len() && (#[trigger] wc[j]).0 == asset_id ==> wc[j].2 * share
                <= u128::MAX,
    ensures
        0 <= sum_amounts(
            asset_payout_seq(wc, asset_id, share, asset_credit_total(wc, asset_id)),
        ),
        sum_amounts(asset_payout_seq(wc, asset_id, share, asset_credit_total(wc, asset_id)))
            <= share,
        share - sum_amounts(
            asset_payout_seq(wc, asset_id, share, asset_credit_total(wc, asset_id)),
        ) < count_asset(wc, asset_id),
{
    lemma_asset_credit_total_exact(wc, asset_id);
    let asset_total = asset_credit_total(wc, asset_id);
    lemma_asset_payout_partial(wc, asset_id, share, asset_total);
    lemma_count_asset_basics(wc, asset_id);
    let q = sum_amounts(asset_payout_seq(wc, asset_id, share, asset_total));
    let cnt = count_asset(wc, asset_id);
    assert(q <= share) by (nonlinear_arith)
        requires
            asset_total > 0,
            asset_total * q <= (asset_total as int) * share,
    ;
    assert(share - q < cnt) by (nonlinear_arith)
        requires
            asset_total > 0,
            cnt > 0,
            (asset_total as int) * share - asset_total * q <= cnt * (asset_total - 1),
    ;
}

/// Partial-sum bound behind the weighted conservation law, with the divisor
/// held fixed: over any prefix of the asset weight map, the paid amounts
/// stay within exact proportionality of the prefix's weight.
proof fn lemma_weighted_payout_partial(
    aw: Seq<(u32, u128, u128)>,
    wc: Seq<(u32, u64, u128)>,
    pool: u128,
    total: u128,
)
    requires
        total > 0,
        forall|i: int|
            0 <= i < aw.len() ==> (#[trigger] aw[i]).1 + aw[i].2 <= total,
        forall|i: int|
            0 <= i < aw.len() ==> ((#[trigger] aw[i]).1 + aw[i].2) * pool <= u128::MAX,
        forall|i: int|
            0 <= i < aw.len() ==> sum_asset_credits_int(wc, (#[trigger] aw[i]).0) <= u128::MAX,
        forall|j: int| 0 <= j < wc.len() ==> (#[trigger] wc[j]).2 * pool <= u128::MAX,
    ensures
        sum_amounts(weighted_payout_seq(aw, wc, pool, total)) >= 0,
        total * sum_amounts(weighted_payout_seq(aw, wc, pool, total)) <= sum_weights_int(aw)
            * pool,
    decreases aw.len(),
{
    if aw.len() == 0 {
    } else {
        let ap = aw.drop_last();
        assert(forall|i: int|
            0 <= i < ap.len() ==> (#[trigger] ap[i]).1 + ap[i].2 <= total);
        assert(forall|i: int|
            0 <= i < ap.len() ==> ((#[trigger] ap[i]).1 + ap[i].2) * pool <= u128::MAX);
        assert(forall|i: int|
            0 <= i < ap.len() ==> sum_asset_credits_int(wc, (#[trigger] ap[i]).0) <= u128::MAX);
        lemma_weighted_payout_partial(ap, wc, pool, total);
        let head = weighted_payout_seq(ap, wc, pool, total);
        let sh = sum_amounts(head);
        let swp = sum_weights_int(ap);
        let e = aw.last();
        assert(aw[aw.len() - 1] == e);
        let w = sat_add(e.1, e.2);
        assert(w == e.1 + e.2);
        let p = asset_credit_total(wc, e.0);
        if p == 0 {
            assert(total * sh <= (swp + e.1 + e.2) * pool) by (nonlinear_arith)
                requires
                    total * sh <= swp * pool,
                    e.1 + e.2 >= 0,
                    pool >= 0,
            ;
        } else {
            let share = asset_share(e.1, e.2, pool, total);
            assert(sat_mul(w, pool) == w * pool);
            lemma_div_bounds(w * pool, total as int);
            assert(share == (w * pool) / (total as int));
            assert(total * share <= w * pool);
            // The share never exceeds the pool, so no credit product with
            // the share can saturate.
            assert(w * pool <= total * pool) by (nonlinear_arith)
                requires
                    w <= total,
                    pool >= 0,
            ;
            assert((w * pool) / (total as int) <= (total * pool) / (total as int)) by {
                vstd::arithmetic::div_mod::lemma_div_is_ordered(
                    w * pool,
                    total * pool,
                    total as int,
                );
            }
            assert((total * pool) / (total as int) == pool) by {
                vstd::arithmetic::div_mod::lemma_div_multiples_vanish(
                    pool as int,
                    total as int,
                );
            }
            assert(share <= pool);
            assert(forall|j: int|
                0 <= j < wc.len() && (#[trigger] wc[j]).0 == e.0 ==> wc[j].2 * share
                    <= u128::MAX) by {
                assert forall|j: int|
                    0 <= j < wc.len() && (#[trigger] wc[j]).0 == e.0 implies wc[j].2 * share
                    <= u128::MAX by {
                    assert(wc[j].2 * share <= wc[j].2 * pool) by (nonlinear_arith)
                        requires
                            share <= pool,
                            wc[j].2 >= 0,
                    ;
                }
            }
            // The asset's saturating credit total is exact, and positive.
            assert(sum_asset_credits_int(wc, e.0) <= u128::MAX);
            lemma_asset_credit_total_exact(wc, e.0);
            let sum_a = sum_amounts(asset_payout_seq(wc, e.0, share, p));
            lemma_asset_payout_partial(wc, e.0, share, p);
            assert(sum_a <= share) by (nonlinear_arith)
                requires
                    p > 0,
                    p * sum_a <= (p as int) * share,
            ;
            lemma_sum_amounts_concat(head, asset_payout_seq(wc, e.0, share, p));
            assert(total * (sh + sum_a) <= (swp + e.1 + e.2) * pool) by (nonlinear_arith)
                requires
                    total * sh <= swp * pool,
                    total * share <= (e.1 + e.2) * pool,
                    sum_a <= share,
                    total > 0,
            ;
        }
    }
}

/// Weighted conservation law: under exact (unsaturated) weight and credit
/// totals and products, a weighted round pays out no more than the pool.
pub proof fn lemma_weighted_round_bound(
    aw: Seq<(u32, u128, u128)>,
    wc: Seq<(u32, u64, u128)>,
    pool: u128,
)
    requires
        0 < sum_weights_int(aw) <= u128::MAX,
        forall|i: int|
            0 <= i < aw.len() ==> ((#[trigger] aw[i]).1 + aw[i].2) * pool <= u128::MAX,
        forall|i: int|
            0 <= i < aw.len() ==> sum_asset_credits_int(wc, (#[trigger] aw[i]).0) <= u128::MAX,
        forall|j: int| 0 <= j < wc.len() ==> (#[trigger] wc[j]).2 * pool <= u128::MAX,
    ensures
        0 <= sum_amounts(weighted_payout_seq(aw, wc, pool, total_weight(aw))),
        sum_amounts(weighted_payout_seq(aw, wc, pool, total_weight(aw))) <= pool,
{
    lemma_total_weight_exact(aw);
    let total = total_weight(aw);
    assert forall|i: int| 0 <= i < aw.len() implies (#[trigger] aw[i]).1 + aw[i].2 <= total by {
        lemma_weight_elem_le_sum(aw, i);
    }
    lemma_weighted_payout_partial(aw, wc, pool, total);
    let q = sum_amounts(weighted_payout_seq(aw, wc, pool, total));
    assert(q <= pool) by (nonlinear_arith)
        requires
            total > 0,
            total * q <= (total as int) * pool,
    ;
}

/// Weight adjuster inverse law: raising and then lowering the adjust score
/// with the same pledge amount restores it exactly, provided the raise did
/// not saturate.
pub proof fn lemma_raise_lower_inverse(adjust_score: u128, pledge_amount: u128, base_amount: u128)
    requires
        pledge_amount > base_amount,
        adjust_score + weight_delta(pledge_amount, base_amount) <= u128::MAX,
    ensures
        sat_sub(
            sat_add(adjust_score, weight_delta(pledge_amount, base_amount)),
            weight_delta(pledge_amount, base_amount),
        ) == adjust_score,
{
}

} // verus!
