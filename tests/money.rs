use ranger_bot::fees::{BitgetFuturesFees, ExecutionType};
use ranger_bot::fixed::Fixed;
use ranger_bot::helper::Helper;
use ranger_bot::position::{OpenPosition, Position};
use ranger_bot::text::decimal_chars;

fn whole(n: i64) -> Fixed {
    Fixed::from_int(n)
}

#[test]
fn fixed_from_scaled_places_digits() {
    assert_eq!(Fixed::from_scaled(5, 2).raw, 5_000_000);
    assert_eq!(Fixed::from_scaled(924355, 1).raw, 9_243_550_000_000);
    assert_eq!(Fixed::from_scaled(7, 8).raw, 7);
    assert_eq!(whole(3).mul(Fixed::from_scaled(5, 1)).raw, 150_000_000);
    assert_eq!(whole(1).div(whole(3)).raw, 33_333_333);
    assert_eq!(whole(-1).div(whole(3)).raw, -33_333_333);
    assert_eq!(whole(1).div(Fixed::zero()).raw, 0);
}

#[test]
fn stop_loss_price_long_scenario() {
    let sl = Helper::stop_loss_price(whole(100_000), whole(50), whole(20), Fixed::from_scaled(5, 2), Position::Long);
    assert_eq!(sl, whole(99_750));
}

#[test]
fn stop_loss_price_short_and_flat() {
    let sl = Helper::stop_loss_price(whole(100_000), whole(50), whole(20), Fixed::from_scaled(5, 2), Position::Short);
    assert_eq!(sl, whole(100_250));
    let flat = Helper::stop_loss_price(whole(100_000), whole(50), whole(20), Fixed::from_scaled(5, 2), Position::Flat);
    assert_eq!(flat.raw, 0);
    let bad = Helper::stop_loss_price(whole(0), whole(50), whole(20), Fixed::from_scaled(5, 2), Position::Long);
    assert_eq!(bad.raw, 0);
}

#[test]
fn funding_multiplier_long_clamps_low() {
    let m = Helper::funding_multiplier(Fixed::from_scaled(1, 3), Position::Long);
    assert_eq!(m, Fixed::from_scaled(5, 1));
}

#[test]
fn funding_multiplier_short_and_mid_range() {
    let m = Helper::funding_multiplier(Fixed::from_scaled(1, 3), Position::Short);
    assert_eq!(m, Fixed::from_scaled(15, 1));
    let m = Helper::funding_multiplier(Fixed::from_scaled(1, 4), Position::Long);
    assert_eq!(m, Fixed::from_scaled(92, 2));
    let m = Helper::funding_multiplier(Fixed::from_scaled(-1, 4), Position::Long);
    assert_eq!(m, Fixed::from_scaled(108, 2));
    let m = Helper::funding_multiplier(Fixed::from_scaled(1, 3), Position::Flat);
    assert_eq!(m, whole(1));
}

#[test]
fn compute_pnl_clamps_losses_to_zero() {
    let qty = Fixed::from_scaled(1, 1);
    assert_eq!(Helper::compute_pnl(Position::Long, whole(100_000), qty, whole(99_000)).raw, 0);
    assert_eq!(Helper::compute_pnl(Position::Short, whole(100_000), qty, whole(101_000)).raw, 0);
    assert_eq!(Helper::compute_pnl(Position::Long, whole(100_000), qty, whole(100_000)).raw, 0);
    assert_eq!(Helper::compute_pnl(Position::Flat, whole(100_000), qty, whole(101_000)).raw, 0);
}

#[test]
fn compute_pnl_gains() {
    let qty = Fixed::from_scaled(1, 1);
    assert_eq!(Helper::compute_pnl(Position::Long, whole(100_000), qty, whole(101_000)), whole(100));
    assert_eq!(Helper::compute_pnl(Position::Short, whole(100_000), qty, whole(99_500)), whole(50));
}

#[test]
fn calc_roi_and_percent() {
    let qty = Fixed::from_scaled(1, 1);
    assert_eq!(Helper::calc_roi(whole(50), whole(100_000), Position::Long, qty, whole(101_000)), whole(200));
    assert_eq!(Helper::calc_roi(whole(50), whole(100_000), Position::Long, qty, whole(99_000)).raw, 0);
    assert_eq!(Helper::calc_roi(whole(0), whole(100_000), Position::Long, qty, whole(101_000)).raw, 0);
    assert_eq!(Helper::pnl_percent(whole(100_000), whole(101_000), Position::Long), whole(1));
    assert_eq!(Helper::pnl_percent(whole(100_000), whole(101_000), Position::Short), whole(-1));
    assert_eq!(Helper::pnl_percent(whole(0), whole(101_000), Position::Long).raw, 0);
    assert_eq!(Helper::pnl_percent(whole(100_000), whole(101_000), Position::Flat).raw, 0);
}

#[test]
fn sizing_and_quantity() {
    assert_eq!(Helper::position_size(whole(50), whole(20)), whole(1000));
    assert_eq!(Helper::contract_amount(whole(100_000), whole(50), whole(20)), Fixed::from_scaled(1, 2));
    assert_eq!(Helper::contract_amount(whole(0), whole(50), whole(20)).raw, 0);
    assert_eq!(Helper::contract_amount(whole(100_000), whole(-50), whole(20)).raw, 0);
    assert_eq!(Helper::truncate_to_1_dp(Fixed::from_scaled(12345, 3)), Fixed::from_scaled(123, 1));
    assert_eq!(Helper::truncate_to_1_dp(Fixed::from_scaled(-12345, 3)), Fixed::from_scaled(-123, 1));
}

#[test]
fn stop_hit_by_side() {
    assert!(Helper::ssl_hit(whole(99), Position::Long, whole(100)));
    assert!(!Helper::ssl_hit(whole(101), Position::Long, whole(100)));
    assert!(Helper::ssl_hit(whole(101), Position::Short, whole(100)));
    assert!(!Helper::ssl_hit(whole(99), Position::Short, whole(100)));
    assert!(!Helper::ssl_hit(whole(99), Position::Flat, whole(100)));
}

#[test]
fn fees_on_entry_and_exit() {
    let fees = BitgetFuturesFees::from_rates(Fixed::from_scaled(2, 4), Fixed::from_scaled(6, 4));
    assert_eq!(fees.fee_on_notional(whole(100_000), Fixed::from_scaled(1, 2), ExecutionType::Taker), Fixed::from_scaled(6, 1));
    assert_eq!(fees.fee_on_notional(whole(100_000), Fixed::from_scaled(1, 2), ExecutionType::Maker), Fixed::from_scaled(2, 1));
    assert_eq!(fees.calc_margin_for_entry(whole(100_000), Fixed::from_scaled(1, 2), whole(50)), Fixed::from_scaled(494, 1));
    let p = OpenPosition {
        id: 1,
        pos: Position::Long,
        entry_price: whole(100_000),
        position_size: Fixed::from_scaled(1, 2),
        entry_time: 0,
        tp: None,
        sl: None,
        margin: Some(whole(50)),
        quantity: Some(Fixed::from_scaled(1, 2)),
        leverage: Some(whole(20)),
        risk_pct: None,
        order_id: None,
    };
    let (after, fee) = fees.calc_pnl_for_exit(&p, whole(99_000));
    assert_eq!(fee, Fixed::from_scaled(594, 3));
    assert_eq!(after, Fixed::from_scaled(-10594, 3));
    assert_eq!(BitgetFuturesFees::new().taker_fee.raw, 0);
    assert_eq!(BitgetFuturesFees::pnl_for_exit(Position::Short, whole(100), whole(90), whole(2)), whole(20));
}

#[test]
fn position_names_round_trip() {
    for p in [Position::Flat, Position::Long, Position::Short] {
        assert_eq!(Position::from_name(p.as_str()), p);
    }
    assert_eq!(Position::Long.as_str(), "Long");
    assert_eq!(Position::from_name("garbage"), Position::Flat);
}

#[test]
fn decimals_are_parsed_exactly() {
    assert_eq!(Fixed::parse("92435.5"), Some(Fixed::from_scaled(924355, 1)));
    assert_eq!(Fixed::parse("-0.001"), Some(Fixed::from_scaled(-1, 3)));
    assert_eq!(Fixed::parse("200"), Some(whole(200)));
    assert_eq!(Fixed::parse("0.12345678"), Some(Fixed::from_raw(12_345_678)));
    assert_eq!(Fixed::parse("0.123456789"), None);
    assert_eq!(Fixed::parse("5."), None);
    assert_eq!(Fixed::parse(".5"), None);
    assert_eq!(Fixed::parse("1e5"), None);
    assert_eq!(Fixed::parse(""), None);
    assert_eq!(Fixed::parse("92233720368.54775807"), Some(Fixed::from_raw(i64::MAX)));
    assert_eq!(Fixed::parse("92233720368.54775808"), None);
}

fn text(f: Fixed) -> String {
    decimal_chars(f).into_iter().collect()
}

#[test]
fn decimals_are_written_and_read_back() {
    assert_eq!(text(Fixed::from_scaled(924355, 1)), "92435.5");
    assert_eq!(text(whole(200)), "200");
    assert_eq!(text(Fixed::zero()), "0");
    assert_eq!(text(Fixed::from_scaled(-1, 3)), "-0.001");
    assert_eq!(text(Fixed::from_raw(12_345_678)), "0.12345678");
    assert_eq!(text(Fixed::from_raw(i64::MAX)), "92233720368.54775807");
    for raw in [1i64, -1, 10, 99_999_999, 100_000_000, -123_456_789_012, i64::MAX, i64::MIN + 1] {
        assert_eq!(Fixed::parse(&text(Fixed::from_raw(raw))), Some(Fixed::from_raw(raw)));
    }
}

#[test]
fn stop_distance_is_rounded_once() {
    let sl = Helper::stop_loss_price(whole(92_435), whole(200), whole(90), Fixed::from_scaled(1, 1), Position::Short);
    assert_eq!(sl, Fixed::from_raw(9_253_770_555_555));
}
