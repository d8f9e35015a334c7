//! Macro-event gate: no-trade windows around high-impact scheduled events,
//! and whether an entry is allowed at a given time.
use vstd::prelude::*;

use crate::text::same_text;

verus! {

#[derive(Clone, Copy, Debug, PartialEq, Eq, Structural)]
pub enum ImpactLevel {
    Low,
    Medium,
    High,
}

/// A scheduled economic event.
#[derive(Debug)]
pub struct EconomicEvent {
    /// Unix time in seconds.
    pub timestamp_utc: i64,
    pub country: String,
    pub event: String,
    pub impact: ImpactLevel,
}

pub struct EventView {
    pub timestamp_utc: i64,
    pub country: Seq<char>,
    pub event: Seq<char>,
    pub impact: ImpactLevel,
}

impl View for EconomicEvent {
    type V = EventView;

    open spec fn view(&self) -> EventView {
        EventView { timestamp_utc: self.timestamp_utc, country: self.country@, event: self.event@, impact: self.impact }
    }
}

/// A calendar entry as published.
#[derive(Debug)]
pub struct CalendarEvent {
    pub id: String,
    /// Day as `dd/mm/YYYY`.
    pub date: String,
    /// Time as `HH:MM`, or `All Day`.
    pub time: String,
    pub zone: String,
    pub currency: Option<String>,
    pub importance: Option<String>,
    pub event: String,
    pub actual: Option<String>,
    pub forecast: Option<String>,
    pub previous: Option<String>,
}

/// Why a calendar entry could not be read.
#[derive(Clone, Copy, Debug, PartialEq, Eq, Structural)]
pub enum CalendarError {
    BadDateTime,
}

/// Unix seconds of `date`, a space and `time`, read with `format` as UTC,
/// or none when they do not match it.
pub uninterp spec fn calendar_seconds(date: Seq<char>, time: Seq<char>, format: Seq<char>) -> Option<i64>;

/// Relies on chrono's `NaiveDateTime::parse_from_str` and
/// `DateTime::timestamp`: the Unix seconds of `date` and `time` read with
/// `format` as UTC, or none when chrono refuses them.
#[verifier::external_body]
fn parse_date_time(date: &str, time: &str, format: &str) -> (r: Option<i64>)
    ensures
        r == calendar_seconds(date@, time@, format@),
{
    let text = format!("{} {}", date, time);
    chrono::NaiveDateTime::parse_from_str(&text, format).ok().map(|t| t.and_utc().timestamp())
}

/// Impact of an entry from its importance label; anything unknown is low.
pub open spec fn impact_of(importance: Option<String>) -> ImpactLevel {
    match importance {
        Some(s) => if s@ == "high"@ {
            ImpactLevel::High
        } else if s@ == "medium"@ {
            ImpactLevel::Medium
        } else {
            ImpactLevel::Low
        },
        None => ImpactLevel::Low,
    }
}

/// Time of day an entry is read at: midnight for an all-day entry.
pub open spec fn time_of_day(time: Seq<char>) -> Seq<char> {
    if lower_of(time) == "all day"@ { "00:00"@ } else { time }
}

/// Format of a calendar entry's date and time.
pub open spec fn calendar_format() -> Seq<char> {
    "%d/%m/%Y %H:%M"@
}

/// A span of time, in Unix seconds with both ends included, in which no
/// position may be opened.
#[derive(Clone, Copy, Debug, PartialEq, Eq, Structural)]
pub struct NoTradeWindow {
    pub start: i64,
    pub end: i64,
}

/// Lower-case form of a text, as std's `str::to_lowercase` gives it.
pub uninterp spec fn lower_of(s: Seq<char>) -> Seq<char>;

/// Relies on std's `str::to_lowercase`: the lower-case form of `s`, which
/// depends on its characters alone.
#[verifier::external_body]
fn lowercase(s: &str) -> (r: String)
    ensures
        r@ == lower_of(s@),
{
    s.to_lowercase()
}

/// Whether two texts are equal once both are lower-cased.
pub open spec fn same_ignoring_case(a: Seq<char>, b: Seq<char>) -> bool {
    lower_of(a) == lower_of(b)
}

/// Whether `needle` occurs in `hay` at position `i`.
pub open spec fn occurs_at(hay: Seq<char>, needle: Seq<char>, i: int) -> bool {
    0 <= i && i + needle.len() <= hay.len() && forall|k: int| 0 <= k < needle.len() ==> hay[i + k] == #[trigger] needle[k]
}

pub open spec fn contains_text(hay: Seq<char>, needle: Seq<char>) -> bool {
    exists|i: int| occurs_at(hay, needle, i)
}

/// Whether an event's title names one of the market-moving releases.
pub open spec fn critical_title(s: Seq<char>) -> bool {
    contains_text(s, "Consumer Price Index (CPI)"@) || contains_text(s, "Core CPI"@) || contains_text(
        s,
        "Non Farm Payrolls"@,
    ) || contains_text(s, "Fed Interest Rate Decision"@) || contains_text(s, "FOMC"@) || contains_text(
        s,
        "GDP Growth Rate"@,
    )
}

pub open spec fn sat_i64(x: int) -> i64 {
    if x > i64::MAX { i64::MAX } else if x < i64::MIN { i64::MIN } else { x as i64 }
}

/// No-trade windows of the first `n` events.
pub open spec fn windows_of(events: Seq<EventView>, pre_secs: i64, post_secs: i64, n: int) -> Seq<NoTradeWindow>
    decreases n,
{
    if n <= 0 || n > events.len() {
        Seq::empty()
    } else {
        let rest = windows_of(events, pre_secs, post_secs, n - 1);
        let e = events[n - 1];
        if e.impact == ImpactLevel::High && critical_title(e.event) {
            rest.push(
                NoTradeWindow {
                    start: sat_i64(e.timestamp_utc - pre_secs),
                    end: sat_i64(e.timestamp_utc + post_secs),
                },
            )
        } else {
            rest
        }
    }
}

/// The first `n` events that are in `country` and of `importance`.
pub open spec fn events_matching(events: Seq<EventView>, country: Seq<char>, importance: ImpactLevel, n: int) -> Seq<EventView>
    decreases n,
{
    if n <= 0 || n > events.len() {
        Seq::empty()
    } else {
        let rest = events_matching(events, country, importance, n - 1);
        let e = events[n - 1];
        if same_ignoring_case(country, e.country) && e.impact == importance {
            rest.push(e)
        } else {
            rest
        }
    }
}

pub open spec fn views(events: Seq<EconomicEvent>) -> Seq<EventView> {
    events.map_values(|e: EconomicEvent| e@)
}

pub open spec fn in_window(now: i64, w: NoTradeWindow) -> bool {
    w.start <= now && now <= w.end
}

fn same_ignoring_case_exec(a: &str, b: &str) -> (r: bool)
    ensures
        r == same_ignoring_case(a@, b@),
{
    let la = lowercase(a);
    let lb = lowercase(b);
    same_text(la.as_str(), lb.as_str())
}

/// Whether `needle` occurs in `hay`.
fn contains_text_exec(hay: &str, needle: &str) -> (r: bool)
    ensures
        r == contains_text(hay@, needle@),
{
    let h = hay.unicode_len();
    let n = needle.unicode_len();
    if n > h {
        assert forall|i: int| !occurs_at(hay@, needle@, i) by {}
        return false;
    }
    let mut i: usize = 0;
    while i <= h - n
        invariant
            h == hay@.len(),
            n == needle@.len(),
            n <= h,
            i <= h - n + 1,
            forall|j: int| 0 <= j < i ==> !occurs_at(hay@, needle@, j),
        decreases h - n + 1 - i,
    {
        let mut k: usize = 0;
        let mut ok = true;
        while k < n
            invariant
                h == hay@.len(),
                n == needle@.len(),
                i + n <= h,
                k <= n,
                ok ==> forall|j: int| 0 <= j < k ==> hay@[i + j] == #[trigger] needle@[j],
                !ok ==> !occurs_at(hay@, needle@, i as int),
            decreases n - k,
        {
            if ok && hay.get_char(i + k) != needle.get_char(k) {
                ok = false;
            }
            k = k + 1;
        }
        if ok {
            assert(occurs_at(hay@, needle@, i as int));
            return true;
        }
        i = i + 1;
    }
    assert forall|j: int| !occurs_at(hay@, needle@, j) by {
        if 0 <= j && j + n <= h {
            assert(j < i);
        }
    }
    false
}

impl EconomicEvent {
    /// The event a calendar entry describes; refused when its date and time
    /// cannot be read.
    pub fn try_from_calendar(raw: &CalendarEvent) -> (r: Result<EconomicEvent, CalendarError>)
        ensures
            calendar_seconds(raw.date@, time_of_day(raw.time@), calendar_format()) matches Some(ts) ==> (r matches Ok(e)
                && e@ == (EventView { timestamp_utc: ts, country: raw.zone@, event: raw.event@, impact: impact_of(raw.importance) })),
            calendar_seconds(raw.date@, time_of_day(raw.time@), calendar_format()) is None ==> r
                == Err::<EconomicEvent, CalendarError>(CalendarError::BadDateTime),
    {
        let lowered = lowercase(raw.time.as_str());
        let time: &str = if same_text(lowered.as_str(), "all day") {
            "00:00"
        } else {
            raw.time.as_str()
        };
        let ts = match parse_date_time(raw.date.as_str(), time, "%d/%m/%Y %H:%M") {
            Some(ts) => ts,
            None => {
                return Err(CalendarError::BadDateTime);
            },
        };
        let impact = match &raw.importance {
            Some(s) => {
                proof {
                    reveal_strlit("high");
                    reveal_strlit("medium");
                    assert("high"@.len() != "medium"@.len());
                }
                if same_text(s.as_str(), "high") {
                    ImpactLevel::High
                } else if same_text(s.as_str(), "medium") {
                    ImpactLevel::Medium
                } else {
                    ImpactLevel::Low
                }
            },
            None => ImpactLevel::Low,
        };
        Ok(EconomicEvent { timestamp_utc: ts, country: raw.zone.clone(), event: raw.event.clone(), impact })
    }

    fn is_critical_macro_event(event: &EconomicEvent) -> (r: bool)
        ensures
            r == critical_title(event.event@),
    {
        let s = event.event.as_str();
        contains_text_exec(s, "Consumer Price Index (CPI)") || contains_text_exec(s, "Core CPI")
            || contains_text_exec(s, "Non Farm Payrolls") || contains_text_exec(s, "Fed Interest Rate Decision")
            || contains_text_exec(s, "FOMC") || contains_text_exec(s, "GDP Growth Rate")
    }

    /// The events of `country` (case ignored) with impact `importance`,
    /// in the order given.
    pub fn filter_events(events: &Vec<EconomicEvent>, country: &str, importance: ImpactLevel) -> (r: Vec<EconomicEvent>)
        ensures
            views(r@) == events_matching(views(events@), country@, importance, events@.len() as int),
    {
        let mut out: Vec<EconomicEvent> = Vec::new();
        let mut i: usize = 0;
        while i < events.len()
            invariant
                i <= events@.len(),
                views(out@) == events_matching(views(events@), country@, importance, i as int),
            decreases events@.len() - i,
        {
            let e = &events[i];
            if same_ignoring_case_exec(country, e.country.as_str()) && e.impact == importance {
                let copy = EconomicEvent {
                    timestamp_utc: e.timestamp_utc,
                    country: e.country.clone(),
                    event: e.event.clone(),
                    impact: e.impact,
                };
                out.push(copy);
                assert(views(out@) =~= views(out@.drop_last()).push(copy@));
            }
            i = i + 1;
        }
        out
    }

    /// A window from `pre_secs` before to `post_secs` after each
    /// high-impact, market-moving event.
    pub fn build_no_trade_windows(events: &Vec<EconomicEvent>, pre_secs: i64, post_secs: i64) -> (r: Vec<NoTradeWindow>)
        ensures
            r@ == windows_of(views(events@), pre_secs, post_secs, events@.len() as int),
    {
        let mut out: Vec<NoTradeWindow> = Vec::new();
        let mut i: usize = 0;
        while i < events.len()
            invariant
                i <= events@.len(),
                out@ == windows_of(views(events@), pre_secs, post_secs, i as int),
            decreases events@.len() - i,
        {
            let e = &events[i];
            if e.impact == ImpactLevel::High && Self::is_critical_macro_event(e) {
                let ts = e.timestamp_utc as i128;
                let start = ts - pre_secs as i128;
                let end = ts + post_secs as i128;
                out.push(NoTradeWindow { start: clamp_i64(start), end: clamp_i64(end) });
            }
            i = i + 1;
        }
        out
    }

    /// Whether `now` lies outside every window.
    pub fn is_trading_allowed(now: i64, windows: &Vec<NoTradeWindow>) -> (r: bool)
        ensures
            r == !exists|k: int| 0 <= k < windows@.len() && in_window(now, #[trigger] windows@[k]),
    {
        let mut k: usize = 0;
        while k < windows.len()
            invariant
                k <= windows@.len(),
                forall|j: int| 0 <= j < k ==> !in_window(now, #[trigger] windows@[j]),
            decreases windows@.len() - k,
        {
            let w = windows[k];
            if w.start <= now && now <= w.end {
                return false;
            }
            k = k + 1;
        }
        true
    }
}

fn clamp_i64(x: i128) -> (r: i64)
    ensures
        r == sat_i64(x as int),
{
    if x > i64::MAX as i128 {
        i64::MAX
    } else if x < i64::MIN as i128 {
        i64::MIN
    } else {
        x as i64
    }
}

/// Twelve hours, the buffer on each side of a critical event.
pub const EVENT_BUFFER_SECS: i64 = 43_200;

/// Gate on new entries around the critical events of the United States.
pub struct MacroGuard {
    pub windows: Vec<NoTradeWindow>,
}

impl MacroGuard {
    /// Windows of twelve hours on each side of the high-impact critical
    /// events of the United States among `events`.
    pub fn new(events: &Vec<EconomicEvent>) -> (r: MacroGuard)
        ensures
            r.windows@ == ({
                let us = events_matching(views(events@), "united states"@, ImpactLevel::High, events@.len() as int);
                windows_of(us, EVENT_BUFFER_SECS, EVENT_BUFFER_SECS, us.len() as int)
            }),
    {
        let us = EconomicEvent::filter_events(events, "united states", ImpactLevel::High);
        let windows = EconomicEvent::build_no_trade_windows(&us, EVENT_BUFFER_SECS, EVENT_BUFFER_SECS);
        MacroGuard { windows }
    }

    /// Whether a position may be opened at `now`.
    pub fn allow_entry(&self, now: i64) -> (r: bool)
        ensures
            r == !exists|k: int| 0 <= k < self.windows@.len() && in_window(now, #[trigger] self.windows@[k]),
    {
        EconomicEvent::is_trading_allowed(now, &self.windows)
    }
}

} // verus!
