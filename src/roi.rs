//! Return on the trading history, period by period: each closed trade's
//! percent move is added to the ISO week (or calendar month) of its exit.
use vstd::prelude::*;

use chrono::Datelike;

use crate::fixed::{sat, Fixed};
use crate::helper::{contract_amount_spec, pnl_percent_spec, pnl_spec, roi_spec, Helper};
use crate::position::ClosedPosition;

verus! {

/// Summed percent return of the trades that closed in one period.
#[derive(Clone, Copy, Debug, PartialEq, Eq, Structural)]
pub struct PeriodRoi {
    pub year: i32,
    /// ISO week (1 to 53) or month (1 to 12).
    pub period: u32,
    pub roi: Fixed,
}

/// ISO year and week of the UTC time `ms` (milliseconds since the Unix
/// epoch), or none outside the range of dates that can be represented.
pub uninterp spec fn iso_week_of(ms: i64) -> Option<(i32, u32)>;

/// Year and month of the UTC time `ms`, or none outside the range of dates
/// that can be represented.
pub uninterp spec fn month_of(ms: i64) -> Option<(i32, u32)>;

/// Relies on chrono's `DateTime::from_timestamp_millis` and
/// `Datelike::iso_week`: the ISO week of a UTC time.
#[verifier::external_body]
fn iso_week_key(ms: i64) -> (r: Option<(i32, u32)>)
    ensures
        r == iso_week_of(ms),
{
    match chrono::DateTime::from_timestamp_millis(ms) {
        Some(t) => Some((t.iso_week().year(), t.iso_week().week())),
        None => None,
    }
}

/// Relies on chrono's `DateTime::from_timestamp_millis` and
/// `Datelike::year` / `Datelike::month`: the calendar month of a UTC time.
#[verifier::external_body]
fn month_key(ms: i64) -> (r: Option<(i32, u32)>)
    ensures
        r == month_of(ms),
{
    match chrono::DateTime::from_timestamp_millis(ms) {
        Some(t) => Some((t.year(), t.month())),
        None => None,
    }
}

pub open spec fn key_of(p: PeriodRoi) -> (i32, u32) {
    (p.year, p.period)
}

/// Order of periods: by year, then by number.
pub open spec fn key_lt(a: (i32, u32), b: (i32, u32)) -> bool {
    a.0 < b.0 || (a.0 == b.0 && a.1 < b.1)
}

/// Whether trade `i` counts: both prices are known and its period is.
pub open spec fn counted(records: Seq<ClosedPosition>, keys: Seq<Option<(i32, u32)>>, i: int) -> bool {
    records[i].entry_price.raw != 0 && records[i].exit_price.raw != 0 && keys[i] is Some
}

pub open spec fn trade_pct(r: ClosedPosition) -> int {
    pnl_percent_spec(r.entry_price, r.exit_price, r.side)
}

/// Summed percent return, among the first `n` trades, of those in period `k`.
pub open spec fn period_total(records: Seq<ClosedPosition>, keys: Seq<Option<(i32, u32)>>, k: (i32, u32), n: int) -> int
    decreases n,
{
    if n <= 0 {
        0
    } else {
        let prev = period_total(records, keys, k, n - 1);
        if counted(records, keys, n - 1) && keys[n - 1] == Some(k) {
            sat(prev + trade_pct(records[n - 1]))
        } else {
            prev
        }
    }
}

/// Whether some counted trade among the first `n` is in period `k`.
pub open spec fn has_period(records: Seq<ClosedPosition>, keys: Seq<Option<(i32, u32)>>, k: (i32, u32), n: int) -> bool {
    exists|i: int| 0 <= i < n && #[trigger] counted(records, keys, i) && keys[i] == Some(k)
}

proof fn lemma_no_period_no_total(records: Seq<ClosedPosition>, keys: Seq<Option<(i32, u32)>>, k: (i32, u32), n: int)
    requires
        0 <= n,
        !has_period(records, keys, k, n),
    ensures
        period_total(records, keys, k, n) == 0,
    decreases n,
{
    if n > 0 {
        assert(!(counted(records, keys, n - 1) && keys[n - 1] == Some(k)));
        lemma_no_period_no_total(records, keys, k, n - 1);
    }
}

pub open spec fn sorted_periods(s: Seq<PeriodRoi>) -> bool {
    forall|a: int, b: int| 0 <= a < b < s.len() ==> key_lt(key_of(#[trigger] s[a]), key_of(#[trigger] s[b]))
}

/// `out` lists, in order and once each, the periods of the counted trades,
/// each with the summed percent return of its trades.
pub open spec fn groups_trades(records: Seq<ClosedPosition>, keys: Seq<Option<(i32, u32)>>, out: Seq<PeriodRoi>) -> bool {
    &&& sorted_periods(out)
    &&& forall|j: int|
        0 <= j < out.len() ==> has_period(records, keys, key_of(#[trigger] out[j]), records.len() as int)
            && out[j].roi.raw == period_total(records, keys, key_of(out[j]), records.len() as int)
    &&& forall|i: int|
        0 <= i < records.len() && #[trigger] counted(records, keys, i) ==> exists|j: int|
            0 <= j < out.len() && Some(key_of(#[trigger] out[j])) == keys[i]
}

/// Groups the trades by the period given for each in `keys` (same order as
/// `records`) and sums their percent returns. Periods come out in order,
/// once each; a trade with an unknown price or period is left out.
pub fn cumulative_roi(records: &Vec<ClosedPosition>, keys: &Vec<Option<(i32, u32)>>) -> (r: Vec<PeriodRoi>)
    requires
        records@.len() == keys@.len(),
    ensures
        groups_trades(records@, keys@, r@),
{
    let mut out: Vec<PeriodRoi> = Vec::new();
    let mut i: usize = 0;
    while i < records.len()
        invariant
            records@.len() == keys@.len(),
            i <= records@.len(),
            sorted_periods(out@),
            forall|j: int|
                0 <= j < out@.len() ==> has_period(records@, keys@, key_of(#[trigger] out@[j]), i as int)
                    && out@[j].roi.raw == period_total(records@, keys@, key_of(out@[j]), i as int),
            forall|m: int|
                0 <= m < i && #[trigger] counted(records@, keys@, m) ==> exists|j: int|
                    0 <= j < out@.len() && Some(key_of(#[trigger] out@[j])) == keys@[m],
        decreases records@.len() - i,
    {
        let rec = records[i];
        let ghost old_out = out@;
        let ghost n = i as int;
        if rec.entry_price.raw != 0 && rec.exit_price.raw != 0 && keys[i].is_some() {
            let k: (i32, u32) = match keys[i] {
                Some(k) => k,
                None => (0, 0),
            };
            let pct = Helper::pnl_percent(rec.entry_price, rec.exit_price, rec.side);
            let mut p: usize = 0;
            while p < out.len() && (out[p].year < k.0 || (out[p].year == k.0 && out[p].period < k.1))
                invariant
                    out@ == old_out,
                    p <= out@.len(),
                    forall|j: int| 0 <= j < p ==> key_lt(key_of(#[trigger] out@[j]), k),
                decreases out@.len() - p,
            {
                p = p + 1;
            }
            assert(counted(records@, keys@, n) && keys@[n] == Some(k));
            if p < out.len() && out[p].year == k.0 && out[p].period == k.1 {
                let cur = out[p];
                out.set(p, PeriodRoi { year: cur.year, period: cur.period, roi: cur.roi.add(pct) });
                assert forall|j: int| 0 <= j < out@.len() implies has_period(records@, keys@, key_of(#[trigger] out@[j]), n + 1)
                    && out@[j].roi.raw == period_total(records@, keys@, key_of(out@[j]), n + 1) by {
                    assert(key_of(out@[j]) == key_of(old_out[j]));
                    if j != p {
                        assert(key_of(old_out[j]) != k) by {
                            if j < p {
                                assert(key_lt(key_of(old_out[j]), key_of(old_out[p as int])));
                            } else {
                                assert(key_lt(key_of(old_out[p as int]), key_of(old_out[j])));
                            }
                        }
                    }
                    let w = choose|w: int| 0 <= w < n && #[trigger] counted(records@, keys@, w) && keys@[w] == Some(key_of(old_out[j]));
                    assert(0 <= w < n + 1 && counted(records@, keys@, w) && keys@[w] == Some(key_of(out@[j])));
                }
                assert forall|m: int| 0 <= m < n + 1 && #[trigger] counted(records@, keys@, m) implies exists|j: int|
                    0 <= j < out@.len() && Some(key_of(#[trigger] out@[j])) == keys@[m] by {
                    if m < n {
                        let j = choose|j: int| 0 <= j < old_out.len() && Some(key_of(#[trigger] old_out[j])) == keys@[m];
                        assert(key_of(out@[j]) == key_of(old_out[j]));
                    } else {
                        assert(key_of(out@[p as int]) == k);
                    }
                }
            } else {
                proof {
                    if p < old_out.len() {
                        assert(key_lt(k, key_of(old_out[p as int])));
                    }
                    assert(!has_period(records@, keys@, k, n)) by {
                        if has_period(records@, keys@, k, n) {
                            let w = choose|w: int| 0 <= w < n && #[trigger] counted(records@, keys@, w) && keys@[w] == Some(k);
                            let j = choose|j: int| 0 <= j < old_out.len() && Some(key_of(#[trigger] old_out[j])) == keys@[w];
                            if j < p {
                                assert(key_lt(key_of(old_out[j]), k));
                            } else if j > p {
                                assert(key_lt(key_of(old_out[p as int]), key_of(old_out[j])));
                            }
                        }
                    }
                    lemma_no_period_no_total(records@, keys@, k, n);
                }
                out.insert(p, PeriodRoi { year: k.0, period: k.1, roi: pct });
                assert(out@ == old_out.insert(p as int, PeriodRoi { year: k.0, period: k.1, roi: pct }));
                assert forall|a: int, b: int| 0 <= a < b < out@.len() implies key_lt(key_of(#[trigger] out@[a]), key_of(#[trigger] out@[b])) by {
                    if b < p {
                        assert(out@[a] == old_out[a] && out@[b] == old_out[b]);
                    } else if b == p {
                        assert(out@[a] == old_out[a]);
                    } else if a == p {
                        assert(out@[b] == old_out[b - 1]);
                        if b - 1 > p {
                            assert(key_lt(key_of(old_out[p as int]), key_of(old_out[b - 1])));
                        }
                    } else if a < p {
                        assert(out@[a] == old_out[a] && out@[b] == old_out[b - 1]);
                    } else {
                        assert(out@[a] == old_out[a - 1] && out@[b] == old_out[b - 1]);
                    }
                }
                assert forall|j: int| 0 <= j < out@.len() implies has_period(records@, keys@, key_of(#[trigger] out@[j]), n + 1)
                    && out@[j].roi.raw == period_total(records@, keys@, key_of(out@[j]), n + 1) by {
                    if j == p {
                        assert(counted(records@, keys@, n) && keys@[n] == Some(key_of(out@[j])));
                    } else {
                        let oj = if j < p { j } else { j - 1 };
                        assert(out@[j] == old_out[oj]);
                        assert(key_of(old_out[oj]) != k) by {
                            if oj < p {
                                assert(key_lt(key_of(old_out[oj]), k));
                            } else if oj > p {
                                assert(key_lt(key_of(old_out[p as int]), key_of(old_out[oj])));
                            }
                        }
                        let w = choose|w: int| 0 <= w < n && #[trigger] counted(records@, keys@, w) && keys@[w] == Some(key_of(old_out[oj]));
                        assert(0 <= w < n + 1 && counted(records@, keys@, w) && keys@[w] == Some(key_of(out@[j])));
                    }
                }
                assert forall|m: int| 0 <= m < n + 1 && #[trigger] counted(records@, keys@, m) implies exists|j: int|
                    0 <= j < out@.len() && Some(key_of(#[trigger] out@[j])) == keys@[m] by {
                    if m < n {
                        let j = choose|j: int| 0 <= j < old_out.len() && Some(key_of(#[trigger] old_out[j])) == keys@[m];
                        if j < p {
                            assert(out@[j] == old_out[j]);
                        } else {
                            assert(out@[j + 1] == old_out[j]);
                        }
                    } else {
                        assert(key_of(out@[p as int]) == k);
                    }
                }
            }
        } else {
            assert(!counted(records@, keys@, n));
            assert forall|j: int| 0 <= j < out@.len() implies has_period(records@, keys@, key_of(#[trigger] out@[j]), n + 1) by {
                let w = choose|w: int| 0 <= w < n && #[trigger] counted(records@, keys@, w) && keys@[w] == Some(key_of(out@[j]));
                assert(0 <= w < n + 1);
            }
        }
        i = i + 1;
    }
    out
}

/// Periods of the trades' exit times, by `weekly` ISO week or by month.
fn period_keys(records: &Vec<ClosedPosition>, weekly: bool) -> (r: Vec<Option<(i32, u32)>>)
    ensures
        r@.len() == records@.len(),
        forall|i: int|
            0 <= i < r@.len() ==> #[trigger] r@[i] == (if weekly {
                iso_week_of(records@[i].exit_time)
            } else {
                month_of(records@[i].exit_time)
            }),
{
    let mut keys: Vec<Option<(i32, u32)>> = Vec::with_capacity(records.len());
    let mut i: usize = 0;
    while i < records.len()
        invariant
            i <= records@.len(),
            keys@.len() == i,
            forall|m: int|
                0 <= m < i ==> #[trigger] keys@[m] == (if weekly {
                    iso_week_of(records@[m].exit_time)
                } else {
                    month_of(records@[m].exit_time)
                }),
        decreases records@.len() - i,
    {
        let t = records[i].exit_time;
        keys.push(if weekly { iso_week_key(t) } else { month_key(t) });
        i = i + 1;
    }
    keys
}

/// Periods of exit by ISO week.
pub open spec fn week_keys(records: Seq<ClosedPosition>) -> Seq<Option<(i32, u32)>> {
    Seq::new(records.len(), |i: int| iso_week_of(records[i].exit_time))
}

/// Periods of exit by calendar month.
pub open spec fn month_keys(records: Seq<ClosedPosition>) -> Seq<Option<(i32, u32)>> {
    Seq::new(records.len(), |i: int| month_of(records[i].exit_time))
}

/// Summed percent return of the trades by ISO week of exit, in order.
pub fn cumulative_roi_weekly(records: &Vec<ClosedPosition>) -> (r: Vec<PeriodRoi>)
    ensures
        groups_trades(records@, week_keys(records@), r@),
{
    let keys = period_keys(records, true);
    assert(keys@ =~= week_keys(records@));
    cumulative_roi(records, &keys)
}

/// Summed percent return of the trades by calendar month of exit, in order.
pub fn cumulative_roi_monthly(records: &Vec<ClosedPosition>) -> (r: Vec<PeriodRoi>)
    ensures
        groups_trades(records@, month_keys(records@), r@),
{
    let keys = period_keys(records, false);
    assert(keys@ =~= month_keys(records@));
    cumulative_roi(records, &keys)
}

/// Margin of a record, or `margin` where it has none.
pub open spec fn margin_or(r: ClosedPosition, margin: Fixed) -> Fixed {
    if r.margin is Some { r.margin->0 } else { margin }
}

/// Quantity of a record, or the quantity its margin and leverage (or the
/// given ones) buy at its entry price.
pub open spec fn quantity_or(r: ClosedPosition, margin: Fixed, leverage: Fixed) -> Fixed {
    if r.quantity is Some {
        r.quantity->0
    } else {
        Fixed {
            raw: contract_amount_spec(
                r.entry_price,
                margin_or(r, margin),
                if r.leverage is Some { r.leverage->0 } else { leverage },
            ) as i64,
        }
    }
}

/// PnL and ROI (percent) of a history record; `margin` and `leverage` stand
/// in for values the record lacks.
pub fn pnl_and_roi(r: &ClosedPosition, margin: Fixed, leverage: Fixed) -> (out: (Fixed, Fixed))
    ensures
        out.0.raw == pnl_spec(r.side, r.entry_price, quantity_or(*r, margin, leverage), r.exit_price),
        out.1.raw == roi_spec(margin_or(*r, margin), r.entry_price, r.side, quantity_or(*r, margin, leverage), r.exit_price),
{
    let m = match r.margin {
        Some(m) => m,
        None => margin,
    };
    let qty = match r.quantity {
        Some(q) => q,
        None => {
            let lev = match r.leverage {
                Some(l) => l,
                None => leverage,
            };
            Helper::contract_amount(r.entry_price, m, lev)
        },
    };
    let pnl = Helper::compute_pnl(r.side, r.entry_price, qty, r.exit_price);
    let roi = Helper::calc_roi(m, r.entry_price, r.side, qty, r.exit_price);
    (pnl, roi)
}

/// Totals over a trading history.
#[derive(Clone, Copy, Debug, PartialEq, Eq, Structural)]
pub struct HistorySummary {
    /// Realised PnL of all records.
    pub total_pnl: Fixed,
    /// Starting capital plus the margin of every record.
    pub total_margin: Fixed,
    /// `total_pnl / total_margin`, in percent.
    pub overall_roi: Fixed,
}

/// Realised PnL of the first `n` records, summed in order.
pub open spec fn pnl_total(records: Seq<ClosedPosition>, margin: Fixed, leverage: Fixed, n: int) -> int
    decreases n,
{
    if n <= 0 || n > records.len() {
        0
    } else {
        let r = records[n - 1];
        sat(pnl_total(records, margin, leverage, n - 1) + pnl_spec(r.side, r.entry_price, quantity_or(r, margin, leverage), r.exit_price))
    }
}

/// `start` plus the margins of the first `n` records, summed in order.
pub open spec fn margin_total(records: Seq<ClosedPosition>, margin: Fixed, start: Fixed, n: int) -> int
    decreases n,
{
    if n <= 0 || n > records.len() {
        start.raw as int
    } else {
        sat(margin_total(records, margin, start, n - 1) + margin_or(records[n - 1], margin).raw)
    }
}

/// Totals of a history: its realised PnL, the capital put in (`start` plus
/// every record's margin, `margin` standing in where one is missing), and
/// the PnL as a percentage of that capital.
pub fn summarize_history(records: &Vec<ClosedPosition>, margin: Fixed, leverage: Fixed, start: Fixed) -> (r: HistorySummary)
    ensures
        r.total_pnl.raw == pnl_total(records@, margin, leverage, records@.len() as int),
        r.total_margin.raw == margin_total(records@, margin, start, records@.len() as int),
        r.total_margin.raw == 0 ==> r.overall_roi.raw == 0,
        r.total_margin.raw != 0 ==> r.overall_roi.raw == sat(Fixed::div_spec(r.total_pnl.raw as int, r.total_margin.raw as int) * 100),
{
    let mut total_pnl = Fixed::zero();
    let mut total_margin = start;
    let mut i: usize = 0;
    while i < records.len()
        invariant
            i <= records@.len(),
            total_pnl.raw == pnl_total(records@, margin, leverage, i as int),
            total_margin.raw == margin_total(records@, margin, start, i as int),
        decreases records@.len() - i,
    {
        let rec = &records[i];
        let (pnl, _) = pnl_and_roi(rec, margin, leverage);
        total_pnl = total_pnl.add(pnl);
        let m = match rec.margin {
            Some(m) => m,
            None => margin,
        };
        total_margin = total_margin.add(m);
        i = i + 1;
    }
    let overall_roi = total_pnl.div(total_margin).mul_int(100);
    HistorySummary { total_pnl, total_margin, overall_roi }
}

} // verus!
