//! Positions: the side the bot holds, an open position, and the record left
//! when a position (or part of it) is closed.
use vstd::prelude::*;

use crate::fixed::Fixed;
use crate::text::same_text;

verus! {

/// The side the bot currently holds.
#[derive(Clone, Copy, Debug, PartialEq, Eq, Structural)]
pub enum Position {
    Flat,
    Long,
    Short,
}

pub open spec fn position_name(p: Position) -> Seq<char> {
    match p {
        Position::Flat => "Flat"@,
        Position::Long => "Long"@,
        Position::Short => "Short"@,
    }
}

impl Position {
    /// The name under which the position is persisted.
    pub fn as_str(&self) -> (r: &'static str)
        ensures
            r@ == position_name(*self),
    {
        match self {
            Position::Flat => "Flat",
            Position::Long => "Long",
            Position::Short => "Short",
        }
    }

    /// Reads a persisted name back; anything unknown is `Flat`.
    pub fn from_name(s: &str) -> (r: Position)
        ensures
            s@ == "Long"@ ==> r == Position::Long,
            s@ == "Short"@ ==> r == Position::Short,
            s@ != "Long"@ && s@ != "Short"@ ==> r == Position::Flat,
    {
        proof {
            reveal_strlit("Long");
            reveal_strlit("Short");
            assert("Long"@.len() != "Short"@.len());
        }
        if same_text(s, "Long") {
            Position::Long
        } else if same_text(s, "Short") {
            Position::Short
        } else {
            Position::Flat
        }
    }
}

/// An open position. `quantity` is the size still held; it shrinks as
/// ladder rungs are closed.
#[derive(Clone, Copy, Debug, PartialEq, Eq, Structural)]
pub struct OpenPosition {
    pub id: u128,
    pub pos: Position,
    pub entry_price: Fixed,
    pub position_size: Fixed,
    /// Entry time, in milliseconds since the Unix epoch.
    pub entry_time: i64,
    pub tp: Option<Fixed>,
    pub sl: Option<Fixed>,
    pub margin: Option<Fixed>,
    pub quantity: Option<Fixed>,
    pub leverage: Option<Fixed>,
    pub risk_pct: Option<Fixed>,
    pub order_id: Option<u64>,
}

/// History record of a full or partial close. Never changed once made.
#[derive(Clone, Copy, Debug, PartialEq, Eq, Structural)]
pub struct ClosedPosition {
    pub id: u128,
    pub side: Position,
    pub entry_price: Fixed,
    /// Milliseconds since the Unix epoch.
    pub entry_time: i64,
    pub exit_price: Fixed,
    /// Milliseconds since the Unix epoch.
    pub exit_time: i64,
    pub pnl: Fixed,
    pub pnl_after_fees: Option<Fixed>,
    pub exit_fee: Option<Fixed>,
    pub quantity: Option<Fixed>,
    pub sl: Option<Fixed>,
    pub roi: Option<Fixed>,
    pub leverage: Option<Fixed>,
    pub margin: Option<Fixed>,
    pub order_id: Option<u64>,
}

} // verus!
