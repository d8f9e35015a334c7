use ranger_bot::calendar::{CalendarError, CalendarEvent, EconomicEvent, ImpactLevel, MacroGuard, NoTradeWindow};

fn event(ts: i64, country: &str, title: &str, impact: ImpactLevel) -> EconomicEvent {
    EconomicEvent { timestamp_utc: ts, country: country.to_string(), event: title.to_string(), impact }
}

#[test]
fn test_filter_events() {
    let events = vec![
        event(100, "United States", "Core CPI (MoM)", ImpactLevel::High),
        event(200, "euro zone", "Core CPI (MoM)", ImpactLevel::High),
        event(300, "united states", "Retail Sales", ImpactLevel::Medium),
        event(400, "UNITED STATES", "FOMC Statement", ImpactLevel::High),
    ];
    let us = EconomicEvent::filter_events(&events, "united states", ImpactLevel::High);
    let stamps: Vec<i64> = us.iter().map(|e| e.timestamp_utc).collect();
    assert_eq!(stamps, vec![100, 400]);
}

#[test]
fn windows_only_for_critical_high_impact_events() {
    let events = vec![
        event(100_000, "united states", "Non Farm Payrolls", ImpactLevel::High),
        event(200_000, "united states", "Retail Sales", ImpactLevel::High),
        event(300_000, "united states", "Fed Interest Rate Decision", ImpactLevel::Medium),
    ];
    let w = EconomicEvent::build_no_trade_windows(&events, 60, 120);
    assert_eq!(w, vec![NoTradeWindow { start: 99_940, end: 100_120 }]);
    assert!(!EconomicEvent::is_trading_allowed(100_000, &w));
    assert!(!EconomicEvent::is_trading_allowed(99_940, &w));
    assert!(EconomicEvent::is_trading_allowed(100_121, &w));
}

#[test]
fn macro_guard_blocks_twelve_hours_around_us_events() {
    let events = vec![
        event(1_000_000, "united states", "GDP Growth Rate QoQ", ImpactLevel::High),
        event(5_000_000, "japan", "GDP Growth Rate QoQ", ImpactLevel::High),
    ];
    let guard = MacroGuard::new(&events);
    assert_eq!(guard.windows.len(), 1);
    assert!(!guard.allow_entry(1_000_000 - 43_200));
    assert!(guard.allow_entry(1_000_000 + 43_201));
    assert!(guard.allow_entry(5_000_000));
}

fn raw_entry(date: &str, time: &str, importance: Option<&str>, title: &str) -> CalendarEvent {
    CalendarEvent {
        id: "1".to_string(),
        date: date.to_string(),
        time: time.to_string(),
        zone: "united states".to_string(),
        currency: None,
        importance: importance.map(|s| s.to_string()),
        event: title.to_string(),
        actual: None,
        forecast: None,
        previous: None,
    }
}

fn hh_mm(ts: i64) -> String {
    let secs = ts.rem_euclid(86_400);
    format!("{:02}:{:02}", secs / 3600, (secs % 3600) / 60)
}

#[test]
fn test_load_events() {
    let raws = vec![
        raw_entry("02/01/2026", "14:45", Some("high"), "S&P Global Manufacturing PMI  (Dec)"),
        raw_entry("19/01/2026", "All Day", None, "United States - Martin Luther King, Jr. Day"),
    ];
    let events: Vec<EconomicEvent> = raws.iter().map(|r| EconomicEvent::try_from_calendar(r).unwrap()).collect();
    assert_eq!(events.len(), 2);
    assert_eq!(events[0].country, "united states");
    assert_eq!(events[0].impact, ImpactLevel::High);
    assert_eq!(hh_mm(events[0].timestamp_utc), "14:45");
    assert_eq!(events[1].country, "united states");
    assert_eq!(events[1].impact, ImpactLevel::Low);
    assert_eq!(hh_mm(events[1].timestamp_utc), "00:00");
}

#[test]
fn calendar_dates_read_as_utc_seconds() {
    let e = EconomicEvent::try_from_calendar(&raw_entry("02/01/2026", "14:45", Some("medium"), "x")).unwrap();
    assert_eq!(e.timestamp_utc, 1_767_365_100);
    assert_eq!(e.impact, ImpactLevel::Medium);
    let e = EconomicEvent::try_from_calendar(&raw_entry("19/01/2026", "all day", Some("low"), "x")).unwrap();
    assert_eq!(e.timestamp_utc, 1_768_780_800);
    assert!(matches!(
        EconomicEvent::try_from_calendar(&raw_entry("2026-01-02", "14:45", None, "x")),
        Err(CalendarError::BadDateTime)
    ));
    assert!(matches!(
        EconomicEvent::try_from_calendar(&raw_entry("32/01/2026", "14:45", None, "x")),
        Err(CalendarError::BadDateTime)
    ));
}
