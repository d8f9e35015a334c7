//! Money math: notional sizing, contract quantity, stop-loss price, PnL,
//! ROI, funding multiplier and percent return, all on `Fixed` values.
//!
//! Non-positive prices or amounts never reach the arithmetic: such inputs
//! give the documented zero instead.
use vstd::prelude::*;

use crate::fixed::{div_toward_zero, lemma_mul_i64, saturate, sat, tdiv, Fixed, SCALE, WIDE};
use crate::position::Position;

verus! {

/// Multiplier applied to the funding rate before it scales a position.
pub const FUNDING_SCALE: i64 = 800;

/// Signed price move in the trade's favour (zero for `Flat`).
pub open spec fn favourable_move(pos: Position, entry: int, exit: int) -> int {
    match pos {
        Position::Long => exit - entry,
        Position::Short => entry - exit,
        Position::Flat => 0,
    }
}

/// Notional exposure `margin * leverage`.
pub open spec fn notional_spec(margin: Fixed, leverage: Fixed) -> int {
    Fixed::mul_spec(margin.raw as int, leverage.raw as int)
}

/// Instrument quantity bought with `margin` at `leverage` and price `entry`.
pub open spec fn contract_amount_spec(entry: Fixed, margin: Fixed, leverage: Fixed) -> int {
    if entry.raw <= 0 || margin.raw <= 0 || leverage.raw <= 0 {
        0
    } else {
        Fixed::div_spec(notional_spec(margin, leverage), entry.raw as int)
    }
}

/// PnL of a trade. A move against the trade counts as zero, not as a loss.
pub open spec fn pnl_spec(pos: Position, entry: Fixed, qty: Fixed, exit: Fixed) -> int {
    if entry.raw <= 0 || exit.raw <= 0 || qty.raw <= 0 {
        0
    } else {
        let d = favourable_move(pos, entry.raw as int, exit.raw as int);
        if d <= 0 {
            0
        } else {
            Fixed::mul_spec(d, qty.raw as int)
        }
    }
}

pub open spec fn roi_spec(margin: Fixed, entry: Fixed, pos: Position, qty: Fixed, exit: Fixed) -> int {
    if margin.raw <= 0 {
        0
    } else {
        sat(Fixed::div_spec(pnl_spec(pos, entry, qty, exit), margin.raw as int) * 100)
    }
}

/// Stop price at which the position loses `margin * risk_pct`: it lies
/// `(margin * risk_pct / notional) * entry` from entry. With the notional
/// `margin * leverage` that distance is exactly `risk_pct * entry /
/// leverage`, which is computed in full and rounded once.
pub open spec fn stop_loss_spec(
    entry: Fixed,
    margin: Fixed,
    leverage: Fixed,
    risk_pct: Fixed,
    pos: Position,
) -> int {
    if entry.raw <= 0 || margin.raw <= 0 || leverage.raw <= 0 || risk_pct.raw < 0 || pos == Position::Flat {
        0
    } else {
        let delta = sat(tdiv(risk_pct.raw * entry.raw, leverage.raw as int));
        if pos == Position::Long {
            sat(entry.raw - delta)
        } else {
            sat(entry.raw + delta)
        }
    }
}

pub open spec fn clamp(x: int, lo: int, hi: int) -> int {
    if x < lo {
        lo
    } else if x > hi {
        hi
    } else {
        x
    }
}

pub open spec fn funding_multiplier_spec(rate: Fixed, pos: Position) -> int {
    let scaled = sat(rate.raw * FUNDING_SCALE);
    let m = match pos {
        Position::Long => sat(SCALE - scaled),
        Position::Short => sat(SCALE + scaled),
        Position::Flat => SCALE as int,
    };
    clamp(m, SCALE / 2, SCALE + SCALE / 2)
}

pub open spec fn pnl_percent_spec(entry: Fixed, exit: Fixed, pos: Position) -> int {
    if entry.raw <= 0 || exit.raw <= 0 || pos == Position::Flat {
        0
    } else {
        sat(tdiv(favourable_move(pos, entry.raw as int, exit.raw as int) * 100 * SCALE, entry.raw as int))
    }
}

pub open spec fn stop_hit(price: Fixed, side: Position, sl: Fixed) -> bool {
    match side {
        Position::Long => price.raw <= sl.raw,
        Position::Short => price.raw >= sl.raw,
        Position::Flat => false,
    }
}

/// PnL is never negative: a trade whose price moved against it, or did
/// not move, contributes zero.
pub proof fn lemma_pnl_clamped_at_zero(pos: Position, entry: Fixed, qty: Fixed, exit: Fixed)
    ensures
        favourable_move(pos, entry.raw as int, exit.raw as int) <= 0 ==> pnl_spec(pos, entry, qty, exit) == 0,
        pnl_spec(pos, entry, qty, exit) >= 0,
{
    let d = favourable_move(pos, entry.raw as int, exit.raw as int);
    if entry.raw > 0 && exit.raw > 0 && qty.raw > 0 && d > 0 {
        assert(d * qty.raw >= 0) by (nonlinear_arith)
            requires d > 0, qty.raw > 0;
    }
}

/// Namespace of the money functions.
pub struct Helper;

impl Helper {
    /// PnL of closing `position_size` at `exit_price`; zero whenever the
    /// price moved against the position or an input is not positive.
    pub fn compute_pnl(pos: Position, entry_price: Fixed, position_size: Fixed, exit_price: Fixed) -> (r: Fixed)
        ensures
            r.raw == pnl_spec(pos, entry_price, position_size, exit_price),
            r.raw >= 0,
    {
        if entry_price.raw <= 0 || exit_price.raw <= 0 || position_size.raw <= 0 {
            return Fixed::zero();
        }
        let d: i64 = match pos {
            Position::Long => exit_price.raw - entry_price.raw,
            Position::Short => entry_price.raw - exit_price.raw,
            Position::Flat => 0,
        };
        if d <= 0 {
            return Fixed::zero();
        }
        let r = Fixed::from_raw(d).mul(position_size);
        proof {
            assert(d * position_size.raw >= 0) by (nonlinear_arith)
                requires d > 0, position_size.raw > 0;
        }
        r
    }

    /// Notional exposure: `margin * leverage`.
    pub fn position_size(margin: Fixed, leverage: Fixed) -> (r: Fixed)
        ensures
            r.raw == notional_spec(margin, leverage),
    {
        margin.mul(leverage)
    }

    /// Return on margin in percent: `compute_pnl / margin * 100`.
    pub fn calc_roi(margin: Fixed, entry_price: Fixed, pos: Position, position_size: Fixed, exit_price: Fixed) -> (r: Fixed)
        ensures
            r.raw == roi_spec(margin, entry_price, pos, position_size, exit_price),
    {
        if margin.raw <= 0 {
            return Fixed::zero();
        }
        let pnl = Self::compute_pnl(pos, entry_price, position_size, exit_price);
        pnl.div(margin).mul_int(100)
    }

    /// Quantity of the instrument that `margin` buys at `leverage` and price
    /// `entry_price`: `margin * leverage / entry_price`.
    pub fn contract_amount(entry_price: Fixed, margin: Fixed, leverage: Fixed) -> (r: Fixed)
        ensures
            r.raw == contract_amount_spec(entry_price, margin, leverage),
    {
        if entry_price.raw <= 0 || margin.raw <= 0 || leverage.raw <= 0 {
            return Fixed::zero();
        }
        Self::position_size(margin, leverage).div(entry_price)
    }

    /// Percent move from `entry` to `exit` in the position's favour.
    pub fn pnl_percent(entry: Fixed, exit: Fixed, pos: Position) -> (r: Fixed)
        ensures
            r.raw == pnl_percent_spec(entry, exit, pos),
    {
        if entry.raw <= 0 || exit.raw <= 0 {
            return Fixed::zero();
        }
        let d: i64 = match pos {
            Position::Long => exit.raw - entry.raw,
            Position::Short => entry.raw - exit.raw,
            Position::Flat => {
                return Fixed::zero();
            },
        };
        proof {
            assert(-WIDE <= d * 100 * SCALE <= WIDE) by (nonlinear_arith)
                requires -0x8000_0000_0000_0000 <= d <= 0x7fff_ffff_ffff_ffff;
        }
        let wide: i128 = d as i128 * 100 * SCALE as i128;
        Fixed::from_raw(saturate(div_toward_zero(wide, entry.raw as i128)))
    }

    /// Truncates toward zero to one decimal place.
    pub fn truncate_to_1_dp(val: Fixed) -> (r: Fixed)
        ensures
            r.raw == tdiv(val.raw as int, SCALE / 10) * (SCALE / 10),
    {
        let q = div_toward_zero(val.raw as i128, (SCALE / 10) as i128);
        assert(-922_337_203_685int <= q <= 922_337_203_685int);
        Fixed::from_raw((q * (SCALE / 10) as i128) as i64)
    }

    /// Stop price at which the position loses `margin * risk_pct`:
    /// `entry -/+ (margin * risk_pct / notional) * entry` for Long/Short,
    /// rounded once toward zero.
    pub fn stop_loss_price(entry_price: Fixed, margin: Fixed, leverage: Fixed, risk_pct: Fixed, pos: Position) -> (r: Fixed)
        ensures
            r.raw == stop_loss_spec(entry_price, margin, leverage, risk_pct, pos),
    {
        if entry_price.raw <= 0 || margin.raw <= 0 || leverage.raw <= 0 || risk_pct.raw < 0 {
            return Fixed::zero();
        }
        if pos == Position::Flat {
            return Fixed::zero();
        }
        proof { lemma_mul_i64(risk_pct.raw as int, entry_price.raw as int); }
        let delta = saturate(div_toward_zero(risk_pct.raw as i128 * entry_price.raw as i128, leverage.raw as i128));
        if pos == Position::Long {
            Fixed::from_raw(entry_price.raw).sub(Fixed::from_raw(delta))
        } else {
            Fixed::from_raw(entry_price.raw).add(Fixed::from_raw(delta))
        }
    }

    /// Whether `current_price` has crossed the stop `sl` of a position on `side`.
    pub fn ssl_hit(current_price: Fixed, side: Position, sl: Fixed) -> (r: bool)
        ensures
            r == stop_hit(current_price, side, sl),
    {
        match side {
            Position::Long => current_price.raw <= sl.raw,
            Position::Short => current_price.raw >= sl.raw,
            Position::Flat => false,
        }
    }

    /// Sizing multiplier from the funding rate: `1 - rate * 800` for Long,
    /// `1 + rate * 800` for Short, clamped to `[0.5, 1.5]`.
    pub fn funding_multiplier(rate: Fixed, pos: Position) -> (r: Fixed)
        ensures
            r.raw == funding_multiplier_spec(rate, pos),
            SCALE / 2 <= r.raw <= SCALE + SCALE / 2,
    {
        let scaled = rate.mul_int(FUNDING_SCALE);
        let one = Fixed::from_raw(SCALE);
        let m = match pos {
            Position::Long => one.sub(scaled),
            Position::Short => one.add(scaled),
            Position::Flat => one,
        };
        if m.raw < SCALE / 2 {
            Fixed::from_raw(SCALE / 2)
        } else if m.raw > SCALE + SCALE / 2 {
            Fixed::from_raw(SCALE + SCALE / 2)
        } else {
            m
        }
    }
}

} // verus!
