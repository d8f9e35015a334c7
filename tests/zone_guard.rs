use ranger_bot::fixed::Fixed;
use ranger_bot::zones::{Side, Zone, ZoneGuard, ZoneId, ZoneStats, Zones};

fn zone(low: i64, high: i64, side: Side) -> Zone {
    Zone { low: Fixed::from_int(low), high: Fixed::from_int(high), side }
}

#[test]
fn two_losses_disable_zone_with_cooldown() {
    let mut guard = ZoneGuard::new(2, 3_600);
    let id = ZoneId::from_zone(&zone(100, 110, Side::Long));
    assert!(guard.can_trade(id));
    let s1 = guard.record_trade_result(id, Fixed::from_int(-5), 1_000);
    assert_eq!(s1, ZoneStats { consecutive_losses: 1, disabled: false, cooldown_until: None });
    assert!(guard.can_trade(id));
    let s2 = guard.record_trade_result(id, Fixed::from_int(-1), 2_000);
    assert_eq!(s2, ZoneStats { consecutive_losses: 2, disabled: true, cooldown_until: Some(5_600) });
    assert!(!guard.can_trade(id));
    assert_eq!(guard.get_trade_result(id), s2);
    assert_eq!(guard.ttl_secs(&s2), 3_600);
}

#[test]
fn gain_resets_run_but_not_breaker() {
    let mut guard = ZoneGuard::new(2, 3_600);
    let id = ZoneId::from_zone(&zone(100, 110, Side::Short));
    guard.record_trade_result(id, Fixed::from_int(-5), 10);
    let s = guard.record_trade_result(id, Fixed::zero(), 20);
    assert_eq!(s.consecutive_losses, 0);
    assert!(!s.disabled);
    assert_eq!(guard.ttl_secs(&s), 43_200);
    guard.record_trade_result(id, Fixed::from_int(-5), 30);
    guard.record_trade_result(id, Fixed::from_int(-5), 40);
    let s = guard.record_trade_result(id, Fixed::from_int(7), 50);
    assert_eq!(s, ZoneStats { consecutive_losses: 0, disabled: true, cooldown_until: Some(3_640) });
    assert!(!guard.can_trade(id));
}

#[test]
fn expired_record_enables_zone_again() {
    let mut guard = ZoneGuard::new(2, 60);
    let id = ZoneId::from_zone(&zone(100, 110, Side::Long));
    guard.record_trade_result(id, Fixed::from_int(-5), 10);
    guard.record_trade_result(id, Fixed::from_int(-5), 11);
    assert!(!guard.can_trade(id));
    guard.sync_from_store(id, None);
    assert!(guard.can_trade(id));
    assert_eq!(guard.get_trade_result(id), ZoneStats::new());
}

#[test]
fn zone_id_is_stable_and_distinguishes_bounds() {
    let a = ZoneId::from_zone(&zone(100, 110, Side::Long));
    let b = ZoneId::from_zone(&zone(100, 110, Side::Long));
    let c = ZoneId::from_zone(&zone(100, 110, Side::Short));
    let d = ZoneId::from_zone(&Zone { low: Fixed::from_raw(10_000_000_001), high: Fixed::from_int(110), side: Side::Long });
    assert_eq!(a, b);
    assert_ne!(a, c);
    assert_ne!(a, d);
}

#[test]
fn zone_contains_and_midpoint() {
    let z = zone(100, 110, Side::Long);
    assert!(z.contains(Fixed::from_int(100)));
    assert!(z.contains(Fixed::from_int(110)));
    assert!(!z.contains(Fixed::from_int(111)));
    assert_eq!(z.midpoint(), Fixed::from_int(105));
    assert!(z.overlaps_or_too_close(&zone(104, 116, Side::Short), Fixed::from_int(6)));
    assert!(!z.overlaps_or_too_close(&zone(104, 116, Side::Short), Fixed::from_int(5)));
    let inverted = zone(122_400, 122_350, Side::Long);
    assert!(!inverted.contains(Fixed::from_int(122_375)));
}

#[test]
fn default_zones_keep_sides_and_bounds() {
    let z = Zones::default();
    assert_eq!(ZoneStats::default(), ZoneStats::new());
    assert_eq!(z.long_zones.len(), 13);
    assert_eq!(z.short_zones.len(), 18);
    assert_eq!(z.long_zones[0].low, Fixed::from_scaled(7_430_680, 2));
    assert_eq!(Zones::find_containing(&z.short_zones, Fixed::from_int(92_650)), Some(15));
    assert_eq!(Zones::find_containing(&z.short_zones, Fixed::from_int(1)), None);
}

#[test]
fn default_zones_keep_inverted_bands() {
    let z = Zones::default();
    assert!(z.long_zones.contains(&Zone { low: Fixed::from_int(122_400), high: Fixed::from_int(122_350), side: Side::Long }));
    assert!(z.short_zones.contains(&Zone {
        low: Fixed::from_scaled(1_209_314, 1),
        high: Fixed::from_scaled(1_201_701, 1),
        side: Side::Short
    }));
}
