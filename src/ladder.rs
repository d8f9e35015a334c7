//! The take-profit ladder: four rungs that walk away from the entry price by
//! a fixed step, each closing a fixed fraction of the position and moving the
//! stop toward (and past) breakeven once filled.
use vstd::prelude::*;

use crate::fixed::{sat, Fixed, SCALE};
use crate::helper::{contract_amount_spec, Helper};
use crate::position::Position;

verus! {

/// Number of rungs in a ladder.
pub const RUNG_COUNT: usize = 4;

/// One rung of the ladder: when price reaches `target_price`, close
/// `size_btc` (the `fraction` of the total size) and move the stop to `sl`.
#[derive(Clone, Copy, Debug, PartialEq, Eq, Structural)]
pub struct PartialProfitTarget {
    pub target_price: Fixed,
    pub fraction: Fixed,
    pub size_btc: Fixed,
    /// Stop the position carries once this rung is filled; `None` on the
    /// last rung, after which nothing is left.
    pub sl: Option<Fixed>,
}

/// Fraction of the total size closed at rung `i`: 0.20, 0.30, 0.30, 0.20.
pub open spec fn rung_fraction(i: int) -> int {
    if i == 0 || i == 3 {
        SCALE / 5
    } else {
        3 * SCALE / 10
    }
}

/// Price of rung `i` (counted from zero): `i + 1` steps from entry, upward
/// for Long and downward for Short.
pub open spec fn rung_price(entry: Fixed, step: Fixed, pos: Position, i: int) -> int {
    let walk = sat(step.raw * (i + 1));
    if pos == Position::Long {
        sat(entry.raw + walk)
    } else {
        sat(entry.raw - walk)
    }
}

/// Size of rung `i` of a ladder over `total`: the fraction rounded down,
/// except the last rung, which takes whatever the others left.
pub open spec fn rung_size(total: int, i: int) -> int {
    if i < 3 {
        Fixed::mul_spec(total, rung_fraction(i))
    } else {
        total - Fixed::mul_spec(total, rung_fraction(0)) - Fixed::mul_spec(total, rung_fraction(1))
            - Fixed::mul_spec(total, rung_fraction(2))
    }
}

/// Stop carried after rung `i` fills: entry after the first, the previous
/// rung's price after the others, none after the last.
pub open spec fn rung_stop(entry: Fixed, step: Fixed, pos: Position, i: int) -> Option<Fixed> {
    if i == 0 {
        Some(entry)
    } else if i < 3 {
        Some(Fixed { raw: rung_price(entry, step, pos, i - 1) as i64 })
    } else {
        None
    }
}

pub open spec fn rung_spec(entry: Fixed, step: Fixed, pos: Position, total: int, i: int) -> PartialProfitTarget {
    PartialProfitTarget {
        target_price: Fixed { raw: rung_price(entry, step, pos, i) as i64 },
        fraction: Fixed { raw: rung_fraction(i) as i64 },
        size_btc: Fixed { raw: rung_size(total, i) as i64 },
        sl: rung_stop(entry, step, pos, i),
    }
}

/// The ladder built for a position entered at `entry` with `margin` at
/// `leverage`; empty for `Flat`.
pub open spec fn ladder_spec(entry: Fixed, margin: Fixed, leverage: Fixed, step: Fixed, pos: Position) -> Seq<PartialProfitTarget> {
    if pos == Position::Flat {
        Seq::empty()
    } else {
        let total = contract_amount_spec(entry, margin, leverage);
        Seq::new(4, |i: int| rung_spec(entry, step, pos, total, i))
    }
}

/// Sum of the sizes of a sequence of rungs.
pub open spec fn total_size(rungs: Seq<PartialProfitTarget>) -> int
    decreases rungs.len(),
{
    if rungs.len() == 0 {
        0
    } else {
        total_size(rungs.drop_last()) + rungs.last().size_btc.raw
    }
}

/// Rounded-down fractions of a non-negative total stay within it.
proof fn lemma_fraction_sizes(total: int)
    requires
        0 <= total <= i64::MAX,
    ensures
        0 <= Fixed::mul_spec(total, rung_fraction(0)) <= total / 5,
        0 <= Fixed::mul_spec(total, rung_fraction(1)) <= 3 * total / 10,
        0 <= Fixed::mul_spec(total, rung_fraction(2)) <= 3 * total / 10,
        0 <= rung_size(total, 3) <= total,
{
    assert(0 <= (total * 20_000_000) / 100_000_000 <= total / 5) by (nonlinear_arith)
        requires total >= 0;
    assert(0 <= (total * 30_000_000) / 100_000_000 <= 3 * total / 10) by (nonlinear_arith)
        requires total >= 0;
    assert(total / 5 + 3 * total / 10 + 3 * total / 10 <= total) by (nonlinear_arith)
        requires total >= 0;
}

impl Helper {
    /// The first `tp_counts` rung prices walking from `entry_price` by `step`.
    fn tp_prices(step: Fixed, entry_price: Fixed, tp_counts: usize, pos: Position) -> (r: Vec<Fixed>)
        requires
            tp_counts <= RUNG_COUNT,
        ensures
            pos == Position::Flat ==> r@.len() == 0,
            pos != Position::Flat ==> r@.len() == tp_counts,
            forall|i: int| 0 <= i < r@.len() ==> r@[i].raw == rung_price(entry_price, step, pos, i),
    {
        let mut prices: Vec<Fixed> = Vec::with_capacity(tp_counts);
        if pos == Position::Flat {
            return prices;
        }
        let mut count: usize = 0;
        while count < tp_counts
            invariant
                count <= tp_counts <= RUNG_COUNT,
                pos != Position::Flat,
                prices@.len() == count,
                forall|i: int| 0 <= i < count ==> prices@[i].raw == rung_price(entry_price, step, pos, i),
            decreases tp_counts - count,
        {
            let walk = step.mul_int((count + 1) as i64);
            let tp = if pos == Position::Long {
                entry_price.add(walk)
            } else {
                entry_price.sub(walk)
            };
            prices.push(tp);
            count = count + 1;
        }
        prices
    }

    /// Builds the four-rung ladder for a position of `margin * leverage /
    /// entry_price` entered at `entry_price`, with rungs `step` apart.
    /// Fractions are 0.20, 0.30, 0.30, 0.20 of the total size; the last
    /// rung takes the remainder, so the sizes add up to the total exactly.
    pub fn build_profit_targets(
        entry_price: Fixed,
        margin: Fixed,
        leverage: Fixed,
        step: Fixed,
        pos: Position,
    ) -> (r: Vec<PartialProfitTarget>)
        ensures
            r@ == ladder_spec(entry_price, margin, leverage, step, pos),
    {
        let mut targets: Vec<PartialProfitTarget> = Vec::with_capacity(RUNG_COUNT);
        if pos == Position::Flat {
            assert(targets@ =~= ladder_spec(entry_price, margin, leverage, step, pos));
            return targets;
        }
        let total = Helper::contract_amount(entry_price, margin, leverage);
        let prices = Helper::tp_prices(step, entry_price, RUNG_COUNT, pos);
        let f0 = Fixed::from_raw(SCALE / 5);
        let f1 = Fixed::from_raw(3 * SCALE / 10);
        let s0 = total.mul(f0);
        let s1 = total.mul(f1);
        let s2 = total.mul(f1);
        proof {
            lemma_fraction_sizes(total.raw as int);
        }
        let s3 = Fixed::from_raw(total.raw - s0.raw - s1.raw - s2.raw);
        targets.push(PartialProfitTarget { target_price: prices[0], fraction: f0, size_btc: s0, sl: Some(entry_price) });
        targets.push(PartialProfitTarget { target_price: prices[1], fraction: f1, size_btc: s1, sl: Some(prices[0]) });
        targets.push(PartialProfitTarget { target_price: prices[2], fraction: f1, size_btc: s2, sl: Some(prices[1]) });
        targets.push(PartialProfitTarget { target_price: prices[3], fraction: f0, size_btc: s3, sl: None });
        proof {
            let spec_r = ladder_spec(entry_price, margin, leverage, step, pos);
            assert forall|i: int| 0 <= i < 4 implies targets@[i] == spec_r[i] by {
                assert(prices@[i].raw == rung_price(entry_price, step, pos, i));
                if i > 0 {
                    assert(prices@[i - 1].raw == rung_price(entry_price, step, pos, i - 1));
                }
            }
            assert(targets@ =~= spec_r);
        }
        targets
    }
}

/// For every ladder built on a side, the rung sizes add up exactly to the
/// contract amount of the position.
pub proof fn lemma_ladder_sizes_sum(entry: Fixed, margin: Fixed, leverage: Fixed, step: Fixed, pos: Position)
    requires
        pos != Position::Flat,
    ensures
        total_size(ladder_spec(entry, margin, leverage, step, pos)) == contract_amount_spec(entry, margin, leverage),
{
    let l = ladder_spec(entry, margin, leverage, step, pos);
    let total = contract_amount_spec(entry, margin, leverage);
    assert(total >= 0) by {
        if entry.raw > 0 && margin.raw > 0 && leverage.raw > 0 {
            let n = Fixed::mul_spec(margin.raw as int, leverage.raw as int);
            assert(margin.raw * leverage.raw > 0) by (nonlinear_arith)
                requires margin.raw > 0, leverage.raw > 0;
            assert(n >= 0);
            assert(n * SCALE >= 0) by (nonlinear_arith)
                requires n >= 0;
        }
    }
    lemma_fraction_sizes(total);
    reveal_with_fuel(total_size, 5);
    assert(l.drop_last().drop_last().drop_last().drop_last() =~= Seq::<PartialProfitTarget>::empty());
    assert(l.drop_last().drop_last().drop_last().last() == l[0]);
    assert(l.drop_last().drop_last().last() == l[1]);
    assert(l.drop_last().last() == l[2]);
    assert(l.last() == l[3]);
}

/// Every rung size of a ladder over a non-negative total is non-negative.
pub open spec fn sizes_nonneg(rungs: Seq<PartialProfitTarget>) -> bool {
    forall|i: int| 0 <= i < rungs.len() ==> (#[trigger] rungs[i]).size_btc.raw >= 0
}

/// The rungs of any ladder have non-negative sizes.
pub proof fn lemma_ladder_sizes_nonneg(entry: Fixed, margin: Fixed, leverage: Fixed, step: Fixed, pos: Position)
    ensures
        sizes_nonneg(ladder_spec(entry, margin, leverage, step, pos)),
{
    if pos != Position::Flat {
        lemma_ladder_sizes_sum(entry, margin, leverage, step, pos);
        let total = contract_amount_spec(entry, margin, leverage);
        assert(total >= 0) by {
            if entry.raw > 0 && margin.raw > 0 && leverage.raw > 0 {
                assert(margin.raw * leverage.raw > 0) by (nonlinear_arith)
                    requires margin.raw > 0, leverage.raw > 0;
                let n = Fixed::mul_spec(margin.raw as int, leverage.raw as int);
                assert(n * SCALE >= 0) by (nonlinear_arith)
                    requires n >= 0;
            }
        }
        lemma_fraction_sizes(total);
    }
}

pub proof fn lemma_total_size_nonneg(rungs: Seq<PartialProfitTarget>)
    requires
        sizes_nonneg(rungs),
    ensures
        total_size(rungs) >= 0,
    decreases rungs.len(),
{
    if rungs.len() > 0 {
        assert(rungs.last() == rungs[rungs.len() - 1]);
        lemma_total_size_nonneg(rungs.drop_last());
    }
}

/// Taking rung `i` out of a ladder takes its size out of the total.
pub proof fn lemma_total_size_remove(rungs: Seq<PartialProfitTarget>, i: int)
    requires
        0 <= i < rungs.len(),
    ensures
        total_size(rungs.remove(i)) == total_size(rungs) - rungs[i].size_btc.raw,
        sizes_nonneg(rungs) ==> sizes_nonneg(rungs.remove(i)),
    decreases rungs.len(),
{
    let n = rungs.len() - 1;
    if i == n {
        assert(rungs.remove(i) =~= rungs.drop_last());
    } else {
        lemma_total_size_remove(rungs.drop_last(), i);
        let r = rungs.remove(i);
        assert(r.drop_last() =~= rungs.drop_last().remove(i));
        assert(r.last() == rungs.last());
    }
    if sizes_nonneg(rungs) {
        assert forall|j: int| 0 <= j < rungs.remove(i).len() implies (#[trigger] rungs.remove(i)[j]).size_btc.raw >= 0 by {
            if j < i {
                assert(rungs.remove(i)[j] == rungs[j]);
            } else {
                assert(rungs.remove(i)[j] == rungs[j + 1]);
            }
        }
    }
}

/// The stops of a ladder built with a positive step ratchet in the
/// position's favour: breakeven first, then each earlier rung's price, and
/// every stop lies behind the rung it is set by.
pub proof fn lemma_stops_ratchet(entry: Fixed, margin: Fixed, leverage: Fixed, step: Fixed, pos: Position)
    requires
        pos != Position::Flat,
        step.raw > 0,
        i64::MIN + 4 * step.raw <= entry.raw <= i64::MAX - 4 * step.raw,
    ensures
        ({
            let l = ladder_spec(entry, margin, leverage, step, pos);
            &&& l[0].sl == Some(entry)
            &&& l[3].sl is None
            &&& forall|i: int| 0 <= i < 3 ==> (#[trigger] l[i]).sl is Some
            &&& forall|i: int| 0 < i < 3 ==> (#[trigger] l[i]).sl == Some(l[i - 1].target_price)
            &&& pos == Position::Long ==> l[0].sl->0.raw < l[1].sl->0.raw < l[2].sl->0.raw
                && forall|i: int| 0 <= i < 3 ==> (#[trigger] l[i]).sl->0.raw < l[i].target_price.raw
            &&& pos == Position::Short ==> l[0].sl->0.raw > l[1].sl->0.raw > l[2].sl->0.raw
                && forall|i: int| 0 <= i < 3 ==> (#[trigger] l[i]).sl->0.raw > l[i].target_price.raw
        }),
{
    let l = ladder_spec(entry, margin, leverage, step, pos);
    assert forall|i: int| 0 <= i < 4 implies rung_price(entry, step, pos, i) == if pos == Position::Long {
        entry.raw + step.raw * (i + 1)
    } else {
        entry.raw - step.raw * (i + 1)
    } by {
        assert(0 < step.raw * (i + 1) <= 4 * step.raw) by (nonlinear_arith)
            requires step.raw > 0, 0 <= i < 4;
    }
    assert(step.raw * 1 < step.raw * 2 < step.raw * 3) by (nonlinear_arith)
        requires step.raw > 0;
}

} // verus!
