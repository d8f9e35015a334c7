use ranger_bot::bot::{breaker_tripped, default_interval, Bot, BotConfig, BotEvent, Tick};
use ranger_bot::fees::BitgetFuturesFees;
use ranger_bot::fixed::Fixed;
use ranger_bot::position::Position;
use ranger_bot::zones::{Side, Zone, ZoneGuard, ZoneId, Zones};

fn whole(n: i64) -> Fixed {
    Fixed::from_int(n)
}

fn config() -> BotConfig {
    BotConfig {
        margin: whole(50),
        leverage: whole(20),
        risk_pct: Fixed::from_scaled(5, 2),
        ranger_risk_pct: Fixed::from_scaled(5, 2),
        ranger_price_difference: whole(100),
        capital_floor: whole(5),
    }
}

fn zones() -> Zones {
    Zones {
        long_zones: vec![Zone { low: whole(90_000), high: whole(90_100), side: Side::Long }],
        short_zones: vec![Zone { low: whole(95_000), high: whole(95_100), side: Side::Short }],
    }
}

fn tick(price: Fixed, now_ms: i64) -> Tick {
    Tick { price, now_ms, entry_allowed: true, breaker_tripped: false, funding_rate: Fixed::zero(), new_id: 7 }
}

#[test]
fn bot_enters_long_in_zone_and_builds_ladder() {
    let mut bot = Bot::new(config(), zones(), None);
    let mut guard = ZoneGuard::new(2, 3_600);
    let fees = BitgetFuturesFees::new();
    let e = bot.run_cycle(&mut guard, &fees, &tick(whole(90_050), 1_000));
    let p = match e {
        BotEvent::Entered { position } => position,
        other => panic!("expected an entry, got {:?}", other),
    };
    assert_eq!(bot.pos, Position::Long);
    assert_eq!(p.entry_price, whole(90_050));
    assert_eq!(p.sl, Some(Fixed::from_scaled(89_824_875, 3)));
    let targets: Vec<Fixed> = bot.partial_profit_target.iter().map(|r| r.target_price).collect();
    assert_eq!(
        targets,
        vec![Fixed::from_scaled(912_875, 1), whole(92_525), Fixed::from_scaled(937_625, 1), whole(95_000)]
    );
    assert_eq!(p.tp, Some(whole(95_000)));
    let sum: i64 = bot.partial_profit_target.iter().map(|r| r.size_btc.raw).sum();
    assert_eq!(sum, p.position_size.raw);
}

#[test]
fn bot_stays_flat_when_gate_closed_or_out_of_zone() {
    let mut bot = Bot::new(config(), zones(), None);
    let mut guard = ZoneGuard::new(2, 3_600);
    let fees = BitgetFuturesFees::new();
    let mut t = tick(whole(90_050), 1_000);
    t.entry_allowed = false;
    assert_eq!(bot.run_cycle(&mut guard, &fees, &t), BotEvent::Idle);
    let mut t = tick(whole(90_050), 1_000);
    t.breaker_tripped = true;
    assert_eq!(bot.run_cycle(&mut guard, &fees, &t), BotEvent::Idle);
    assert_eq!(bot.run_cycle(&mut guard, &fees, &tick(whole(92_000), 1_000)), BotEvent::Idle);
    assert_eq!(bot.pos, Position::Flat);
}

#[test]
fn bot_partial_fill_then_stop_records_zone_loss() {
    let mut bot = Bot::new(config(), zones(), None);
    let mut guard = ZoneGuard::new(2, 3_600);
    let fees = BitgetFuturesFees::from_rates(Fixed::from_scaled(2, 4), Fixed::from_scaled(6, 4));
    bot.run_cycle(&mut guard, &fees, &tick(whole(90_050), 1_000));
    let size = bot.open_pos.position_size;
    let rung = bot.partial_profit_target[0];
    match bot.run_cycle(&mut guard, &fees, &tick(whole(91_300), 2_000)) {
        BotEvent::PartialClosed { order, record } => {
            assert_eq!(order.quantity, Some(rung.size_btc));
            assert!(record.pnl.raw > 0);
        }
        other => panic!("expected a partial close, got {:?}", other),
    }
    assert_eq!(bot.open_pos.position_size, size.sub(rung.size_btc));
    assert_eq!(bot.open_pos.sl, Some(whole(90_050)));
    assert!(bot.current_margin.raw > whole(50).raw);
    match bot.run_cycle(&mut guard, &fees, &tick(whole(90_000), 3_000_000)) {
        BotEvent::Closed { record, zone, loss, .. } => {
            assert!(loss);
            assert_eq!(record.pnl.raw, 0);
            let update = zone.unwrap();
            assert_eq!(update.zone_id, ZoneId::from_zone(&zones().long_zones[0]));
            assert_eq!(update.stats.consecutive_losses, 1);
        }
        other => panic!("expected a stop, got {:?}", other),
    }
    assert_eq!(bot.pos, Position::Flat);
    assert!(bot.partial_profit_target.is_empty());
}

#[test]
fn bot_takes_profit_at_opposing_zone_without_zone_update() {
    let mut bot = Bot::new(config(), zones(), None);
    let mut guard = ZoneGuard::new(2, 3_600);
    let fees = BitgetFuturesFees::new();
    bot.run_cycle(&mut guard, &fees, &tick(whole(95_050), 1_000));
    assert_eq!(bot.pos, Position::Short);
    match bot.run_cycle(&mut guard, &fees, &tick(whole(90_050), 2_000)) {
        BotEvent::Closed { zone, loss, record, .. } => {
            assert!(zone.is_none());
            assert!(!loss);
            assert_eq!(record.exit_price, whole(90_050));
        }
        other => panic!("expected a take-profit, got {:?}", other),
    }
    assert_eq!(bot.pos, Position::Flat);
}

#[test]
fn disabled_zone_is_skipped() {
    let mut bot = Bot::new(config(), zones(), Some(whole(3)));
    assert_eq!(bot.current_margin, whole(50));
    let mut guard = ZoneGuard::new(1, 3_600);
    let id = ZoneId::from_zone(&zones().long_zones[0]);
    guard.record_trade_result(id, whole(-1), 0);
    let fees = BitgetFuturesFees::new();
    assert_eq!(bot.run_cycle(&mut guard, &fees, &tick(whole(90_050), 1_000)), BotEvent::Idle);
}

#[test]
fn loss_breaker_trips_at_two_losses() {
    assert!(!breaker_tripped(0));
    assert!(!breaker_tripped(1));
    assert!(breaker_tripped(2));
    assert!(breaker_tripped(3));
    assert_eq!(default_interval(), 5);
}

#[test]
fn no_price_changes_nothing() {
    let mut bot = Bot::new(config(), zones(), None);
    let mut guard = ZoneGuard::new(2, 3_600);
    let fees = BitgetFuturesFees::new();
    assert_eq!(bot.run_cycle(&mut guard, &fees, &tick(Fixed::zero(), 1_000)), BotEvent::Idle);
    assert_eq!(bot.pos, Position::Flat);
    bot.run_cycle(&mut guard, &fees, &tick(whole(90_050), 1_000));
    let before = bot.clone();
    for p in [Fixed::zero(), whole(-5)] {
        assert_eq!(bot.run_cycle(&mut guard, &fees, &tick(p, 2_000)), BotEvent::Idle);
        assert_eq!(bot.pos, Position::Long);
        assert_eq!(bot.open_pos, before.open_pos);
        assert_eq!(bot.partial_profit_target, before.partial_profit_target);
        assert_eq!(bot.current_margin, before.current_margin);
    }
}
