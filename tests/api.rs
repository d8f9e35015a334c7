use ranger_bot::api::{default_limit, default_page, get_closed_positions, ApiError, PaginationParams};
use ranger_bot::exchange::{classify_order, order_side, ApiResponse, OrderOutcome, OrderSide, PlaceOrderData};
use ranger_bot::text::parse_order_number;
use ranger_bot::fixed::Fixed;
use ranger_bot::position::{ClosedPosition, Position};

fn record(exit_time: i64) -> ClosedPosition {
    ClosedPosition {
        id: exit_time as u128,
        side: Position::Long,
        entry_price: Fixed::from_int(100),
        entry_time: 0,
        exit_price: Fixed::from_int(101),
        exit_time,
        pnl: Fixed::from_int(1),
        pnl_after_fees: None,
        exit_fee: None,
        quantity: None,
        sl: None,
        roi: None,
        leverage: None,
        margin: None,
        order_id: None,
    }
}

fn params(page: usize, limit: usize, from_date: Option<i64>, to_date: Option<i64>) -> PaginationParams {
    PaginationParams { page, limit, from_date, to_date }
}

#[test]
fn pages_of_history() {
    let history: Vec<ClosedPosition> = (1..=7).map(|t| record(t * 10)).collect();
    assert_eq!(default_page(), 1);
    assert_eq!(default_limit(), 20);
    let r = get_closed_positions(&history, params(2, 3, None, None)).unwrap();
    let times: Vec<i64> = r.positions.iter().map(|p| p.exit_time).collect();
    assert_eq!(times, vec![40, 50, 60]);
    assert_eq!(r.total, 7);
    let r = get_closed_positions(&history, params(3, 3, None, None)).unwrap();
    assert_eq!(r.positions.len(), 1);
    let r = get_closed_positions(&history, params(9, 3, None, None)).unwrap();
    assert!(r.positions.is_empty());
}

#[test]
fn date_filter_applies_before_paging() {
    let history: Vec<ClosedPosition> = (1..=7).map(|t| record(t * 10)).collect();
    let r = get_closed_positions(&history, params(1, 2, Some(30), Some(60))).unwrap();
    let times: Vec<i64> = r.positions.iter().map(|p| p.exit_time).collect();
    assert_eq!(times, vec![30, 40]);
    assert_eq!(r.total, 4);
}

#[test]
fn bad_paging_is_refused() {
    let history: Vec<ClosedPosition> = Vec::new();
    for p in [params(0, 5, None, None), params(1, 0, None, None), params(1, 21, None, None)] {
        match get_closed_positions(&history, p) {
            Err(e) => {
                assert!(matches!(e, ApiError::InvalidInput(_)));
                assert_eq!(e.status_code(), 400);
            }
            Ok(_) => panic!("paging should be refused"),
        }
    }
    assert_eq!(ApiError::NotFound("x".to_string()).status_code(), 404);
    assert_eq!(ApiError::RedisError("down".to_string()).to_response().error, "down");
}

fn reply(code: &str, order_id: &str) -> ApiResponse<PlaceOrderData> {
    ApiResponse {
        code: code.to_string(),
        msg: String::new(),
        request_time: 0,
        data: PlaceOrderData { client_oid: "c1".to_string(), order_id: order_id.to_string() },
    }
}

#[test]
fn order_replies_are_classified() {
    assert_eq!(classify_order(&reply("00000", "1234567890")), OrderOutcome::Accepted { order_id: 1_234_567_890 });
    assert_eq!(classify_order(&reply("40001", "1234567890")), OrderOutcome::Rejected);
    assert_eq!(classify_order(&reply("00000", "Failed to place order")), OrderOutcome::Rejected);
    assert_eq!(parse_order_number("18446744073709551615"), Some(u64::MAX));
    assert_eq!(parse_order_number("18446744073709551616"), None);
    assert_eq!(parse_order_number(""), None);
}

#[test]
fn order_sides() {
    assert_eq!(order_side(Position::Long, false), Some(OrderSide::Buy));
    assert_eq!(order_side(Position::Long, true), Some(OrderSide::Sell));
    assert_eq!(order_side(Position::Short, false), Some(OrderSide::Sell));
    assert_eq!(order_side(Position::Flat, true), None);
}
