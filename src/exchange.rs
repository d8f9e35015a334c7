//! What comes back from the venue, and the one decision taken on it: whether
//! an order was accepted or rejected.
use vstd::prelude::*;

use crate::position::Position;
use crate::text::{order_number_spec, parse_order_number, same_text};

verus! {

#[derive(Clone, Copy, Debug, PartialEq, Eq, Structural)]
pub enum OrderSide {
    Buy,
    Sell,
}

/// Side of the market order that opens (or closes) a position on `pos`.
pub open spec fn order_side_spec(pos: Position, closing: bool) -> Option<OrderSide> {
    match pos {
        Position::Flat => None,
        Position::Long => Some(if closing { OrderSide::Sell } else { OrderSide::Buy }),
        Position::Short => Some(if closing { OrderSide::Buy } else { OrderSide::Sell }),
    }
}

pub fn order_side(pos: Position, closing: bool) -> (r: Option<OrderSide>)
    ensures
        r == order_side_spec(pos, closing),
{
    match pos {
        Position::Flat => None,
        Position::Long => Some(if closing { OrderSide::Sell } else { OrderSide::Buy }),
        Position::Short => Some(if closing { OrderSide::Buy } else { OrderSide::Sell }),
    }
}

/// Envelope of every venue reply.
#[derive(Debug)]
pub struct ApiResponse<T> {
    pub code: String,
    pub msg: String,
    pub request_time: i64,
    pub data: T,
}

/// Reply to an order placement.
#[derive(Debug)]
pub struct PlaceOrderData {
    pub client_oid: String,
    pub order_id: String,
}

/// Result of an order placement: accepted with the venue's order number,
/// or rejected.
#[derive(Clone, Copy, Debug, PartialEq, Eq, Structural)]
pub enum OrderOutcome {
    Accepted { order_id: u64 },
    Rejected,
}

/// Code the venue uses for success.
pub open spec fn success_code() -> Seq<char> {
    "00000"@
}

impl<T> ApiResponse<T> {
    /// Whether the venue reported success.
    pub fn is_success(&self) -> (r: bool)
        ensures
            r == (self.code@ == success_code()),
    {
        proof {
            reveal_strlit("00000");
        }
        same_text(self.code.as_str(), "00000")
    }
}

/// An order was placed only if the venue reported success and handed back
/// a well-formed order number; anything else is a rejection.
pub fn classify_order(reply: &ApiResponse<PlaceOrderData>) -> (r: OrderOutcome)
    ensures
        reply.code@ == success_code() ==> (order_number_spec(reply.data.order_id@) matches Some(n) ==> r
            == (OrderOutcome::Accepted { order_id: n })),
        reply.code@ != success_code() || order_number_spec(reply.data.order_id@) is None ==> r
            == OrderOutcome::Rejected,
{
    if !reply.is_success() {
        return OrderOutcome::Rejected;
    }
    match parse_order_number(reply.data.order_id.as_str()) {
        Some(n) => OrderOutcome::Accepted { order_id: n },
        None => OrderOutcome::Rejected,
    }
}

} // verus!
