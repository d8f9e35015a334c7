use ranger_bot::capitulation::{CapitulationEvent, CapitulationPhase, CapitulationState, CapitulationStrategy};
use ranger_bot::fixed::Fixed;

fn whole(n: i64) -> Fixed {
    Fixed::from_int(n)
}

#[test]
fn phases_advance_to_complete_as_price_falls() {
    let strategy = CapitulationStrategy::new();
    let mut state = CapitulationState::new(whole(200));
    let count = strategy.phases.len();
    let mut now: i64 = 0;
    for i in 0..count {
        let params = strategy.get_trade_params(CapitulationPhase::Trade(i)).unwrap();
        now += 1_000;
        state.update_capital(whole(200));
        let entry = params.entry.sub(whole(5));
        match strategy.run_cycle(&mut state, entry, now, i as u128) {
            CapitulationEvent::Entered { position } => assert_eq!(position.entry_price, entry),
            other => panic!("expected an entry at tier {}, got {:?}", i, other),
        }
        assert_eq!(state.current_phase, CapitulationPhase::Trade(i));
        assert_eq!(state.partial_profit_targets.len(), 4);
        now += 1_000;
        match strategy.run_cycle(&mut state, params.take_profit, now, 0) {
            CapitulationEvent::Closed { cooldown, .. } => assert!(!cooldown),
            other => panic!("expected a close at tier {}, got {:?}", i, other),
        }
        assert_eq!(state.current_phase, strategy.next_phase(CapitulationPhase::Trade(i)));
        assert!(state.active_position.is_none());
    }
    assert_eq!(state.current_phase, CapitulationPhase::Complete);
    assert_eq!(strategy.run_cycle(&mut state, whole(10_000), now, 0), CapitulationEvent::Idle);
}

#[test]
fn stop_without_rungs_starts_cooldown() {
    let strategy = CapitulationStrategy::new();
    let mut state = CapitulationState::new(whole(200));
    let e = strategy.run_cycle(&mut state, whole(108_400), 0, 9);
    assert!(matches!(e, CapitulationEvent::Entered { .. }));
    match strategy.run_cycle(&mut state, whole(108_600), 1_000, 0) {
        CapitulationEvent::Closed { record, cooldown, .. } => {
            assert!(cooldown);
            assert!(record.pnl.raw < 0);
        }
        other => panic!("expected a stop, got {:?}", other),
    }
    assert_eq!(state.cooldown_until, Some(1_000 + 14_400_000));
    assert_eq!(strategy.run_cycle(&mut state, whole(108_400), 2_000, 10), CapitulationEvent::Idle);
    assert_eq!(state.cooldown_until, Some(1_000 + 14_400_000));
    let e = strategy.run_cycle(&mut state, whole(108_400), 1_000 + 14_400_000, 11);
    assert!(matches!(e, CapitulationEvent::Entered { .. }));
    assert_eq!(state.cooldown_until, None);
}

#[test]
fn partial_rung_then_stop_skips_cooldown() {
    let strategy = CapitulationStrategy::new();
    let mut state = CapitulationState::new(whole(200));
    strategy.run_cycle(&mut state, whole(108_400), 0, 1);
    let before = state.active_position.unwrap();
    let first = state.partial_profit_targets[0];
    assert_eq!(first.target_price, whole(107_900));
    match strategy.run_cycle(&mut state, whole(107_900), 1, 0) {
        CapitulationEvent::PartialClosed { order, record } => {
            assert_eq!(order.quantity, Some(first.size_btc));
            assert_eq!(record.exit_price, whole(107_900));
            assert_eq!(record.pnl, whole(500).mul(first.size_btc));
        }
        other => panic!("expected a partial close, got {:?}", other),
    }
    let after = state.active_position.unwrap();
    assert_eq!(after.position_size, before.position_size.sub(first.size_btc));
    assert_eq!(after.sl, Some(whole(108_400)));
    assert_eq!(state.partial_profit_targets.len(), 3);
    match strategy.run_cycle(&mut state, whole(108_450), 2, 0) {
        CapitulationEvent::Closed { cooldown, .. } => assert!(!cooldown),
        other => panic!("expected a stop, got {:?}", other),
    }
    assert_eq!(state.cooldown_until, None);
    assert_eq!(state.current_phase, CapitulationPhase::Trade(0));
}

#[test]
fn depleted_capital_is_reset_on_entry() {
    let strategy = CapitulationStrategy::new();
    let mut state = CapitulationState::new(whole(200));
    state.update_capital(whole(40));
    strategy.run_cycle(&mut state, whole(108_400), 0, 1);
    assert_eq!(state.current_capital, whole(200));
    assert_eq!(state.active_position.unwrap().margin, Some(whole(200)));
}

#[test]
fn entry_scan_reaches_later_tiers_in_window() {
    let strategy = CapitulationStrategy::new();
    let mut state = CapitulationState::new(whole(200));
    let e = strategy.run_cycle(&mut state, whole(98_400), 0, 1);
    assert!(matches!(e, CapitulationEvent::Entered { .. }));
    assert_eq!(state.current_phase, CapitulationPhase::Trade(4));
    let mut far = CapitulationState::new(whole(200));
    assert_eq!(strategy.run_cycle(&mut far, whole(90_400), 0, 1), CapitulationEvent::Idle);
}

#[test]
fn default_state_starts_at_first_tier() {
    let s = CapitulationState::default();
    assert_eq!(s.current_phase, CapitulationPhase::Trade(0));
    assert_eq!(s.current_capital, whole(200));
    assert!(s.active_position.is_none());
    assert!(s.cooldown_until.is_none());
}

#[test]
fn no_price_leaves_capitulation_state_alone() {
    let strategy = CapitulationStrategy::new();
    let mut state = CapitulationState::new(whole(200));
    strategy.run_cycle(&mut state, whole(108_400), 0, 1);
    let before = state.clone();
    for p in [Fixed::zero(), whole(-1)] {
        assert_eq!(strategy.run_cycle(&mut state, p, 10, 2), CapitulationEvent::Idle);
        assert_eq!(state.active_position, before.active_position);
        assert_eq!(state.current_capital, before.current_capital);
        assert_eq!(state.current_phase, before.current_phase);
        assert_eq!(state.partial_profit_targets, before.partial_profit_targets);
    }
}

#[test]
fn standard_table_first_and_last_tiers() {
    let strategy = CapitulationStrategy::new();
    let first = strategy.get_trade_params(CapitulationPhase::Trade(0)).unwrap();
    assert_eq!((first.entry, first.stop, first.take_profit), (whole(108_405), whole(108_575), whole(107_535)));
    assert_eq!(first.ladder_step, whole(500));
    let last = strategy.get_trade_params(CapitulationPhase::Trade(34)).unwrap();
    assert_eq!((last.entry, last.stop, last.take_profit), (whole(38_405), whole(38_575), whole(36_405)));
    assert_eq!(strategy.get_trade_params(CapitulationPhase::Trade(35)), None);
    assert_eq!(strategy.get_trade_params(CapitulationPhase::Complete), None);
}
