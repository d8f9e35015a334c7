use ranger_bot::fixed::Fixed;
use ranger_bot::position::{ClosedPosition, Position};
use ranger_bot::roi::{cumulative_roi, cumulative_roi_monthly, cumulative_roi_weekly, pnl_and_roi, summarize_history, PeriodRoi};

fn trade(side: Position, entry: i64, exit: i64, exit_time: i64) -> ClosedPosition {
    ClosedPosition {
        id: 1,
        side,
        entry_price: Fixed::from_int(entry),
        entry_time: 0,
        exit_price: Fixed::from_int(exit),
        exit_time,
        pnl: Fixed::zero(),
        pnl_after_fees: None,
        exit_fee: None,
        quantity: None,
        sl: None,
        roi: None,
        leverage: None,
        margin: None,
        order_id: None,
    }
}

const JAN_02_2026: i64 = 1_767_355_200_000;
const DEC_29_2025: i64 = 1_767_009_600_000;
const JAN_05_2026: i64 = 1_767_614_400_000;
const FEB_10_2026: i64 = 1_770_724_800_000;

fn history() -> Vec<ClosedPosition> {
    vec![
        trade(Position::Long, 100_000, 101_000, JAN_05_2026),
        trade(Position::Short, 100_000, 98_000, JAN_02_2026),
        trade(Position::Long, 100_000, 99_500, DEC_29_2025),
        trade(Position::Long, 0, 99_500, DEC_29_2025),
        trade(Position::Long, 50_000, 51_000, FEB_10_2026),
    ]
}

#[test]
fn weekly_roi_groups_by_iso_week() {
    let weeks = cumulative_roi_weekly(&history());
    assert_eq!(
        weeks,
        vec![
            PeriodRoi { year: 2026, period: 1, roi: Fixed::from_scaled(15, 1) },
            PeriodRoi { year: 2026, period: 2, roi: Fixed::from_int(1) },
            PeriodRoi { year: 2026, period: 7, roi: Fixed::from_int(2) },
        ]
    );
}

#[test]
fn monthly_roi_groups_by_calendar_month() {
    let months = cumulative_roi_monthly(&history());
    assert_eq!(
        months,
        vec![
            PeriodRoi { year: 2025, period: 12, roi: Fixed::from_scaled(-5, 1) },
            PeriodRoi { year: 2026, period: 1, roi: Fixed::from_int(3) },
            PeriodRoi { year: 2026, period: 2, roi: Fixed::from_int(2) },
        ]
    );
}

#[test]
fn roi_with_given_periods_skips_unknown_ones() {
    let records = vec![
        trade(Position::Long, 100, 110, 0),
        trade(Position::Long, 100, 120, 0),
        trade(Position::Short, 100, 90, 0),
    ];
    let keys = vec![Some((2024, 3)), None, Some((2023, 9))];
    assert_eq!(
        cumulative_roi(&records, &keys),
        vec![
            PeriodRoi { year: 2023, period: 9, roi: Fixed::from_int(10) },
            PeriodRoi { year: 2024, period: 3, roi: Fixed::from_int(10) },
        ]
    );
    assert!(cumulative_roi(&Vec::new(), &Vec::new()).is_empty());
}

#[test]
fn history_pnl_roi_and_totals() {
    let mut known = trade(Position::Long, 100_000, 101_000, JAN_02_2026);
    known.quantity = Some(Fixed::from_scaled(1, 2));
    known.margin = Some(Fixed::from_int(50));
    let unknown = trade(Position::Short, 100_000, 101_000, JAN_05_2026);
    let margin = Fixed::from_int(50);
    let leverage = Fixed::from_int(20);
    assert_eq!(pnl_and_roi(&known, margin, leverage), (Fixed::from_int(10), Fixed::from_int(20)));
    assert_eq!(pnl_and_roi(&unknown, margin, leverage), (Fixed::zero(), Fixed::zero()));
    let mut win = unknown;
    win.exit_price = Fixed::from_int(99_000);
    assert_eq!(pnl_and_roi(&win, margin, leverage), (Fixed::from_int(10), Fixed::from_int(20)));
    let summary = summarize_history(&vec![known, unknown], margin, leverage, Fixed::from_int(100));
    assert_eq!(summary.total_pnl, Fixed::from_int(10));
    assert_eq!(summary.total_margin, Fixed::from_int(200));
    assert_eq!(summary.overall_roi, Fixed::from_int(5));
    let empty = summarize_history(&Vec::new(), margin, leverage, Fixed::zero());
    assert_eq!(empty.overall_roi, Fixed::zero());
}
