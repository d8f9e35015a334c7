//! Fee model: the venue's maker and taker rates, and the entry margin and
//! exit PnL once fees are taken. Entries and exits are market orders and pay
//! the taker rate.
use vstd::prelude::*;

use crate::fixed::{sat, Fixed};
use crate::helper::favourable_move;
use crate::position::{OpenPosition, Position};
use crate::text::same_text;

verus! {

#[derive(Clone, Copy, Debug, PartialEq, Eq, Structural)]
pub enum ExecutionType {
    Maker,
    Taker,
}

#[derive(Clone, Copy, Debug, PartialEq, Eq, Structural)]
pub enum ExitReason {
    TakeProfit,
    StopLoss,
}

/// Cached fee schedule of the venue.
#[derive(Clone, Copy, Debug, PartialEq, Eq, Structural)]
pub struct BitgetFuturesFees {
    pub maker_fee: Fixed,
    pub taker_fee: Fixed,
    pub funding_rate: Fixed,
}

/// One tier of the venue's fee schedule.
#[derive(Debug)]
pub struct VipFeeRate {
    pub level: String,
    pub maker_fee_rate: Fixed,
    pub taker_fee_rate: Fixed,
}

/// Position of the first tier named `level`, from position `i` on.
pub open spec fn first_level(rates: Seq<VipFeeRate>, level: Seq<char>, i: int) -> Option<int>
    decreases rates.len() - i,
{
    if i < 0 || i >= rates.len() {
        None
    } else if rates[i].level@ == level {
        Some(i)
    } else {
        first_level(rates, level, i + 1)
    }
}

/// The schedule of a fee tier.
pub open spec fn schedule_of(rate: VipFeeRate) -> BitgetFuturesFees {
    BitgetFuturesFees { maker_fee: rate.maker_fee_rate, taker_fee: rate.taker_fee_rate, funding_rate: Fixed { raw: 0 } }
}

/// Fee on a fill of `size` at `price` at rate `rate`.
pub open spec fn fee_spec(price: Fixed, size: Fixed, rate: Fixed) -> int {
    Fixed::mul_spec(Fixed::mul_spec(price.raw as int, size.raw as int), rate.raw as int)
}

/// Signed PnL of closing `size` at `exit` (negative on a loss).
pub open spec fn exit_pnl_spec(side: Position, entry: Fixed, exit: Fixed, size: Fixed) -> int {
    Fixed::mul_spec(sat(favourable_move(side, entry.raw as int, exit.raw as int)), size.raw as int)
}

impl BitgetFuturesFees {
    /// The zero-fee tier, used when no schedule could be had.
    pub fn new() -> (r: BitgetFuturesFees)
        ensures
            r.maker_fee.raw == 0,
            r.taker_fee.raw == 0,
            r.funding_rate.raw == 0,
    {
        BitgetFuturesFees { maker_fee: Fixed::zero(), taker_fee: Fixed::zero(), funding_rate: Fixed::zero() }
    }

    /// A schedule with the given maker and taker rates.
    pub fn from_rates(maker_fee: Fixed, taker_fee: Fixed) -> (r: BitgetFuturesFees)
        ensures
            r.maker_fee == maker_fee,
            r.taker_fee == taker_fee,
            r.funding_rate.raw == 0,
    {
        BitgetFuturesFees { maker_fee, taker_fee, funding_rate: Fixed::zero() }
    }

    /// The schedule of one fee tier.
    pub fn from_vip_data(vip_data: &VipFeeRate) -> (r: BitgetFuturesFees)
        ensures
            r == schedule_of(*vip_data),
    {
        BitgetFuturesFees { maker_fee: vip_data.maker_fee_rate, taker_fee: vip_data.taker_fee_rate, funding_rate: Fixed::zero() }
    }

    /// The schedule of the first tier named `level`, if there is one.
    pub fn for_level(self, level: &str, rates: &Vec<VipFeeRate>) -> (r: Option<BitgetFuturesFees>)
        ensures
            first_level(rates@, level@, 0) matches Some(i) ==> r == Some(schedule_of(rates@[i])),
            first_level(rates@, level@, 0) is None ==> r is None,
    {
        let mut i: usize = 0;
        while i < rates.len()
            invariant
                i <= rates@.len(),
                first_level(rates@, level@, 0) == first_level(rates@, level@, i as int),
            decreases rates@.len() - i,
        {
            if same_text(rates[i].level.as_str(), level) {
                return Some(Self::from_vip_data(&rates[i]));
            }
            i = i + 1;
        }
        None
    }

    pub open spec fn rate_of(self, exec: ExecutionType) -> Fixed {
        match exec {
            ExecutionType::Maker => self.maker_fee,
            ExecutionType::Taker => self.taker_fee,
        }
    }

    /// Fee on the notional `price * size` of a fill.
    pub fn fee_on_notional(&self, price: Fixed, size: Fixed, exec: ExecutionType) -> (r: Fixed)
        ensures
            r.raw == fee_spec(price, size, self.rate_of(exec)),
    {
        let rate = match exec {
            ExecutionType::Maker => self.maker_fee,
            ExecutionType::Taker => self.taker_fee,
        };
        price.mul(size).mul(rate)
    }

    /// Signed PnL of closing `size` bought at `entry_price` at `exit_price`.
    pub fn pnl_for_exit(side: Position, entry_price: Fixed, exit_price: Fixed, size: Fixed) -> (r: Fixed)
        ensures
            r.raw == exit_pnl_spec(side, entry_price, exit_price, size),
    {
        let d = match side {
            Position::Long => exit_price.sub(entry_price),
            Position::Short => entry_price.sub(exit_price),
            Position::Flat => Fixed::zero(),
        };
        d.mul(size)
    }

    /// Margin left once the taker fee on the entry fill is paid.
    pub fn calc_margin_for_entry(&self, entry_price: Fixed, position_size: Fixed, margin: Fixed) -> (r: Fixed)
        ensures
            r.raw == sat(margin.raw - fee_spec(entry_price, position_size, self.taker_fee)),
    {
        let fee = self.fee_on_notional(entry_price, position_size, ExecutionType::Taker);
        margin.sub(fee)
    }

    /// PnL after the taker fee on the exit fill, and that fee.
    pub fn calc_pnl_for_exit(&self, open_position: &OpenPosition, current_price: Fixed) -> (r: (Fixed, Fixed))
        ensures
            r.1.raw == fee_spec(current_price, open_position.position_size, self.taker_fee),
            r.0.raw == sat(
                exit_pnl_spec(open_position.pos, open_position.entry_price, current_price, open_position.position_size)
                    - r.1.raw,
            ),
    {
        let exit_fee = self.fee_on_notional(current_price, open_position.position_size, ExecutionType::Taker);
        let pnl = Self::pnl_for_exit(open_position.pos, open_position.entry_price, current_price, open_position.position_size);
        (pnl.sub(exit_fee), exit_fee)
    }
}

} // verus!
