use ranger_bot::capitulation::{CapitulationPhase, CapitulationState, CapitulationStrategy};
use ranger_bot::fixed::Fixed;
use ranger_bot::position::{ClosedPosition, OpenPosition, Position};
use ranger_bot::zones::ZoneStats;

fn open_position() -> OpenPosition {
    OpenPosition {
        id: u128::MAX - 7,
        pos: Position::Short,
        entry_price: Fixed::from_scaled(924355, 1),
        position_size: Fixed::from_raw(19_473_143),
        entry_time: -5,
        tp: Some(Fixed::from_int(91_435)),
        sl: None,
        margin: Some(Fixed::from_int(200)),
        quantity: Some(Fixed::from_raw(i64::MIN)),
        leverage: Some(Fixed::from_int(90)),
        risk_pct: Some(Fixed::from_scaled(5, 2)),
        order_id: Some(u64::MAX),
    }
}

#[test]
fn open_position_round_trips() {
    let p = open_position();
    let bytes = p.to_bytes();
    assert_eq!(bytes.len(), 160);
    assert_eq!(OpenPosition::from_bytes(&bytes), Some(p));
    assert_eq!(OpenPosition::from_bytes(&bytes[..159].to_vec()), None);
    let mut bad = bytes.clone();
    bad[16] = 9;
    assert_eq!(OpenPosition::from_bytes(&bad), None);
}

#[test]
fn closed_position_and_stats_round_trip() {
    let c = ClosedPosition {
        id: 42,
        side: Position::Long,
        entry_price: Fixed::from_int(100_000),
        entry_time: 1_700_000_000_000,
        exit_price: Fixed::from_int(99_000),
        exit_time: 1_700_000_360_000,
        pnl: Fixed::zero(),
        pnl_after_fees: Some(Fixed::from_scaled(-10594, 3)),
        exit_fee: Some(Fixed::from_scaled(594, 3)),
        quantity: Some(Fixed::from_scaled(1, 2)),
        sl: Some(Fixed::from_int(99_750)),
        roi: Some(Fixed::zero()),
        leverage: None,
        margin: Some(Fixed::from_int(50)),
        order_id: None,
    };
    assert_eq!(ClosedPosition::from_bytes(&c.to_bytes()), Some(c));
    let s = ZoneStats { consecutive_losses: 2, disabled: true, cooldown_until: Some(5_600) };
    assert_eq!(ZoneStats::from_bytes(&s.to_bytes()), Some(s));
    assert_eq!(ZoneStats::from_bytes(&ZoneStats::new().to_bytes()), Some(ZoneStats::new()));
}

#[test]
fn capitulation_state_round_trips() {
    let strategy = CapitulationStrategy::new();
    let mut state = CapitulationState::new(Fixed::from_int(200));
    strategy.run_cycle(&mut state, Fixed::from_int(108_400), 0, 3);
    state.cooldown_until = Some(123);
    let back = CapitulationState::from_bytes(&state.to_bytes()).unwrap();
    assert_eq!(back.current_phase, state.current_phase);
    assert_eq!(back.current_capital, state.current_capital);
    assert_eq!(back.active_position, state.active_position);
    assert_eq!(back.partial_profit_targets, state.partial_profit_targets);
    assert_eq!(back.cooldown_until, Some(123));

    let mut done = CapitulationState::new(Fixed::from_int(1));
    done.current_phase = CapitulationPhase::Complete;
    let back = CapitulationState::from_bytes(&done.to_bytes()).unwrap();
    assert_eq!(back.current_phase, CapitulationPhase::Complete);
    assert!(back.active_position.is_none());
    assert!(back.partial_profit_targets.is_empty());
    assert!(CapitulationState::from_bytes(&vec![1, 2, 3]).is_none());
}
