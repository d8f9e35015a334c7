//! Price zones, their stable identity, and the per-zone loss circuit breaker.
use vstd::prelude::*;

use std::collections::HashMap;
use std::collections::hash_map::DefaultHasher;
use std::hash::Hasher;
use vstd::std_specs::hash::DefaultHasherAdditionalSpecFns;

use crate::fixed::{tdiv, Fixed};

verus! {

/// Losing trades in a row that disable a zone.
pub const MAX_ZONE_LOSSES: u8 = 2;

/// Time to live of a stats record that carries no cooldown: twelve hours.
pub const DEFAULT_STATS_TTL_SECS: u64 = 43_200;

#[derive(Clone, Copy, Debug, PartialEq, Eq, Structural)]
pub enum Side {
    Long,
    Short,
}

/// A price band. `low <= high` is expected but not enforced: stored bands
/// are kept exactly as they were given.
#[derive(Clone, Copy, Debug, PartialEq, Eq, Structural)]
pub struct Zone {
    pub low: Fixed,
    pub high: Fixed,
    pub side: Side,
}

pub open spec fn zone_contains(z: Zone, price: Fixed) -> bool {
    z.low.raw <= price.raw && price.raw <= z.high.raw
}

pub open spec fn midpoint_spec(z: Zone) -> int {
    tdiv(z.low.raw + z.high.raw, 2)
}

impl Zone {
    /// Whether `price` lies in the band, bounds included.
    pub fn contains(&self, price: Fixed) -> (r: bool)
        ensures
            r == zone_contains(*self, price),
    {
        price.raw >= self.low.raw && price.raw <= self.high.raw
    }

    pub fn midpoint(&self) -> (r: Fixed)
        ensures
            r.raw == midpoint_spec(*self),
    {
        let sum: i128 = self.low.raw as i128 + self.high.raw as i128;
        let half: i128 = if sum >= 0 { sum / 2 } else { -((-sum) / 2) };
        Fixed::from_raw(half as i64)
    }

    /// Whether the midpoints of the two bands are closer than `min_distance`.
    pub fn overlaps_or_too_close(&self, other: &Zone, min_distance: Fixed) -> (r: bool)
        ensures
            r == ({
                let d = midpoint_spec(*self) - midpoint_spec(*other);
                (if d < 0 { -d } else { d }) < min_distance.raw
            }),
    {
        let a = self.midpoint();
        let b = other.midpoint();
        let d: i128 = a.raw as i128 - b.raw as i128;
        let dist: i128 = if d < 0 { -d } else { d };
        dist < min_distance.raw as i128
    }
}

/// The long and short bands the bot trades.
#[derive(Clone, Debug)]
pub struct Zones {
    pub long_zones: Vec<Zone>,
    pub short_zones: Vec<Zone>,
}

/// Index of the first band of `zones`, from position `i` on, that
/// contains `price`.
pub open spec fn first_containing(zones: Seq<Zone>, price: Fixed, i: int) -> Option<int>
    decreases zones.len() - i,
{
    if i < 0 || i >= zones.len() {
        None
    } else if zone_contains(zones[i], price) {
        Some(i)
    } else {
        first_containing(zones, price, i + 1)
    }
}

impl Default for Zones {
    /// The bands used when none could be loaded.
    fn default() -> (r: Zones)
        ensures
            r.long_zones@ == default_long_zones(),
            r.short_zones@ == default_short_zones(),
    {
        Zones::default_zones()
    }
}

/// The long bands used when none could be loaded, as stored; one of them
/// (122400 to 122350) is inverted and kept so.
pub open spec fn default_long_zones() -> Seq<Zone> {
    seq![
        Zone { low: Fixed { raw: 7_430_680_000_000 }, high: Fixed { raw: 7_439_480_000_000 }, side: Side::Long },
        Zone { low: Fixed { raw: 7_998_180_000_000 }, high: Fixed { raw: 8_010_280_000_000 }, side: Side::Long },
        Zone { low: Fixed { raw: 8_399_180_000_000 }, high: Fixed { raw: 8_409_280_000_000 }, side: Side::Long },
        Zone { low: Fixed { raw: 8_640_180_000_000 }, high: Fixed { raw: 8_660_280_000_000 }, side: Side::Long },
        Zone { low: Fixed { raw: 10_901_890_000_000 }, high: Fixed { raw: 10_912_280_000_000 }, side: Side::Long },
        Zone { low: Fixed { raw: 11_329_390_000_000 }, high: Fixed { raw: 11_339_380_000_000 }, side: Side::Long },
        Zone { low: Fixed { raw: 11_454_890_000_000 }, high: Fixed { raw: 11_467_780_000_000 }, side: Side::Long },
        Zone { low: Fixed { raw: 11_634_440_000_000 }, high: Fixed { raw: 11_646_440_000_000 }, side: Side::Long },
        Zone { low: Fixed { raw: 12_110_000_000_000 }, high: Fixed { raw: 12_135_000_000_000 }, side: Side::Long },
        Zone { low: Fixed { raw: 12_240_000_000_000 }, high: Fixed { raw: 12_235_000_000_000 }, side: Side::Long },
        Zone { low: Fixed { raw: 12_310_000_000_000 }, high: Fixed { raw: 12_315_000_000_000 }, side: Side::Long },
        Zone { low: Fixed { raw: 12_460_000_000_000 }, high: Fixed { raw: 12_465_000_000_000 }, side: Side::Long },
        Zone { low: Fixed { raw: 12_419_900_000_000 }, high: Fixed { raw: 12_522_000_000_000 }, side: Side::Long },
    ]
}

/// The short bands used when none could be loaded, as stored; one of them
/// (120931.4 to 120170.1) is inverted and kept so.
pub open spec fn default_short_zones() -> Seq<Zone> {
    seq![
        Zone { low: Fixed { raw: 12_579_700_000_000 }, high: Fixed { raw: 12_589_700_000_000 }, side: Side::Short },
        Zone { low: Fixed { raw: 12_509_700_000_000 }, high: Fixed { raw: 12_519_700_000_000 }, side: Side::Short },
        Zone { low: Fixed { raw: 12_450_000_000_000 }, high: Fixed { raw: 12_454_000_000_000 }, side: Side::Short },
        Zone { low: Fixed { raw: 12_399_000_000_000 }, high: Fixed { raw: 12_403_200_000_000 }, side: Side::Short },
        Zone { low: Fixed { raw: 12_290_000_000_000 }, high: Fixed { raw: 12_300_000_000_000 }, side: Side::Short },
        Zone { low: Fixed { raw: 12_093_140_000_000 }, high: Fixed { raw: 12_017_010_000_000 }, side: Side::Short },
        Zone { low: Fixed { raw: 11_940_900_000_000 }, high: Fixed { raw: 11_947_970_000_000 }, side: Side::Short },
        Zone { low: Fixed { raw: 11_751_400_000_000 }, high: Fixed { raw: 11_800_830_000_000 }, side: Side::Short },
        Zone { low: Fixed { raw: 11_558_500_000_000 }, high: Fixed { raw: 11_608_520_000_000 }, side: Side::Short },
        Zone { low: Fixed { raw: 11_431_600_000_000 }, high: Fixed { raw: 11_448_620_000_000 }, side: Side::Short },
        Zone { low: Fixed { raw: 11_299_000_000_000 }, high: Fixed { raw: 11_310_000_000_000 }, side: Side::Short },
        Zone { low: Fixed { raw: 10_851_100_000_000 }, high: Fixed { raw: 10_864_600_000_000 }, side: Side::Short },
        Zone { low: Fixed { raw: 10_451_100_000_000 }, high: Fixed { raw: 10_459_630_000_000 }, side: Side::Short },
        Zone { low: Fixed { raw: 9_803_010_000_000 }, high: Fixed { raw: 9_807_960_000_000 }, side: Side::Short },
        Zone { low: Fixed { raw: 9_393_010_000_000 }, high: Fixed { raw: 9_407_960_000_000 }, side: Side::Short },
        Zone { low: Fixed { raw: 9_263_010_000_000 }, high: Fixed { raw: 9_267_960_000_000 }, side: Side::Short },
        Zone { low: Fixed { raw: 8_990_680_000_000 }, high: Fixed { raw: 9_000_860_000_000 }, side: Side::Short },
        Zone { low: Fixed { raw: 7_390_680_000_000 }, high: Fixed { raw: 7_397_960_000_000 }, side: Side::Short },
    ]
}

/// A band from prices given in hundredths.
fn band(low_cents: i64, high_cents: i64, side: Side) -> (r: Zone)
    requires
        0 <= low_cents <= 1_000_000_000,
        0 <= high_cents <= 1_000_000_000,
    ensures
        r.low.raw == low_cents * 1_000_000,
        r.high.raw == high_cents * 1_000_000,
        r.side == side,
{
    Zone { low: Fixed::from_raw(low_cents * 1_000_000), high: Fixed::from_raw(high_cents * 1_000_000), side }
}

impl Zones {
    /// Position of the first band in `zones` containing `price`, if any.
    pub fn find_containing(zones: &Vec<Zone>, price: Fixed) -> (r: Option<usize>)
        ensures
            r matches Some(i) ==> first_containing(zones@, price, 0) == Some(i as int),
            r is None ==> first_containing(zones@, price, 0) is None,
    {
        let mut i: usize = 0;
        while i < zones.len()
            invariant
                i <= zones@.len(),
                first_containing(zones@, price, 0) == first_containing(zones@, price, i as int),
            decreases zones@.len() - i,
        {
            if zones[i].contains(price) {
                return Some(i);
            }
            i = i + 1;
        }
        None
    }

    /// The bands used when none could be loaded.
    pub fn default_zones() -> (r: Zones)
        ensures
            r.long_zones@ == default_long_zones(),
            r.short_zones@ == default_short_zones(),
    {
        let mut v: Vec<Zone> = Vec::new();
        v.push(band(7_430_680, 7_439_480, Side::Long));
        v.push(band(7_998_180, 8_010_280, Side::Long));
        v.push(band(8_399_180, 8_409_280, Side::Long));
        v.push(band(8_640_180, 8_660_280, Side::Long));
        v.push(band(10_901_890, 10_912_280, Side::Long));
        v.push(band(11_329_390, 11_339_380, Side::Long));
        v.push(band(11_454_890, 11_467_780, Side::Long));
        v.push(band(11_634_440, 11_646_440, Side::Long));
        v.push(band(12_110_000, 12_135_000, Side::Long));
        v.push(band(12_240_000, 12_235_000, Side::Long));
        v.push(band(12_310_000, 12_315_000, Side::Long));
        v.push(band(12_460_000, 12_465_000, Side::Long));
        v.push(band(12_419_900, 12_522_000, Side::Long));
        assert(v@ =~= default_long_zones());
        let long_zones = v;
        let mut v: Vec<Zone> = Vec::new();
        v.push(band(12_579_700, 12_589_700, Side::Short));
        v.push(band(12_509_700, 12_519_700, Side::Short));
        v.push(band(12_450_000, 12_454_000, Side::Short));
        v.push(band(12_399_000, 12_403_200, Side::Short));
        v.push(band(12_290_000, 12_300_000, Side::Short));
        v.push(band(12_093_140, 12_017_010, Side::Short));
        v.push(band(11_940_900, 11_947_970, Side::Short));
        v.push(band(11_751_400, 11_800_830, Side::Short));
        v.push(band(11_558_500, 11_608_520, Side::Short));
        v.push(band(11_431_600, 11_448_620, Side::Short));
        v.push(band(11_299_000, 11_310_000, Side::Short));
        v.push(band(10_851_100, 10_864_600, Side::Short));
        v.push(band(10_451_100, 10_459_630, Side::Short));
        v.push(band(9_803_010, 9_807_960, Side::Short));
        v.push(band(9_393_010, 9_407_960, Side::Short));
        v.push(band(9_263_010, 9_267_960, Side::Short));
        v.push(band(8_990_680, 9_000_860, Side::Short));
        v.push(band(7_390_680, 7_397_960, Side::Short));
        assert(v@ =~= default_short_zones());
        Zones { long_zones, short_zones: v }
    }
}

/// Stable identity of a zone: a fingerprint of its side and bounds. Bounds
/// that differ in the last raw unit give different identities.
#[derive(Clone, Copy, Debug, PartialEq, Eq, Structural)]
pub struct ZoneId(pub u64);

pub open spec fn side_tag(side: Side) -> u8 {
    match side {
        Side::Long => 1,
        Side::Short => 2,
    }
}

/// Little-endian bytes of `x`.
pub open spec fn le_bytes(x: u64) -> Seq<u8> {
    Seq::new(8, |i: int| ((x >> ((8 * i) as u64)) & 0xff) as u8)
}

/// What is fed to the hasher for a zone.
pub open spec fn zone_fingerprint_input(z: Zone) -> Seq<Seq<u8>> {
    seq![seq![side_tag(z.side)], le_bytes(z.low.raw as u64), le_bytes(z.high.raw as u64)]
}

fn le_bytes_of(x: u64) -> (r: Vec<u8>)
    ensures
        r@ == le_bytes(x),
{
    let mut out: Vec<u8> = Vec::with_capacity(8);
    let mut k: u64 = 0;
    while k < 8
        invariant
            k <= 8,
            out@.len() == k,
            forall|i: int| 0 <= i < k ==> out@[i] == ((x >> ((8 * i) as u64)) & 0xff) as u8,
        decreases 8 - k,
    {
        out.push(((x >> (8 * k)) & 0xff) as u8);
        k = k + 1;
    }
    assert(out@ =~= le_bytes(x));
    out
}

impl ZoneId {
    /// Fingerprint of the zone's side and the raw bits of its bounds.
    pub fn from_zone(zone: &Zone) -> (r: ZoneId)
        ensures
            r.0 == DefaultHasher::spec_finish(zone_fingerprint_input(*zone)),
    {
        let mut hasher = DefaultHasher::new();
        let tag: u8 = match zone.side {
            Side::Long => 1,
            Side::Short => 2,
        };
        let tag_bytes: Vec<u8> = vec![tag];
        assert(tag_bytes@ =~= seq![side_tag(zone.side)]);
        hasher.write(tag_bytes.as_slice());
        let lo = le_bytes_of(#[verifier::truncate] (zone.low.raw as u64));
        hasher.write(lo.as_slice());
        let hi = le_bytes_of(#[verifier::truncate] (zone.high.raw as u64));
        hasher.write(hi.as_slice());
        proof {
            assert(hasher@ =~= zone_fingerprint_input(*zone));
        }
        ZoneId(hasher.finish())
    }
}

/// Loss statistics of one zone. A zone with no record is enabled with no
/// losses.
#[derive(Clone, Copy, Debug, PartialEq, Eq, Structural)]
pub struct ZoneStats {
    pub consecutive_losses: u8,
    pub disabled: bool,
    /// Unix time, in seconds, until which the zone stays disabled.
    pub cooldown_until: Option<u64>,
}

pub open spec fn fresh_stats() -> ZoneStats {
    ZoneStats { consecutive_losses: 0, disabled: false, cooldown_until: None }
}

impl Default for ZoneStats {
    /// Fresh stats: enabled, with no losses.
    fn default() -> (r: ZoneStats)
        ensures
            r == fresh_stats(),
    {
        ZoneStats::new()
    }
}

impl ZoneStats {
    pub fn new() -> (r: ZoneStats)
        ensures
            r == fresh_stats(),
    {
        ZoneStats { consecutive_losses: 0, disabled: false, cooldown_until: None }
    }
}

/// `a + b`, capped at `u64::MAX`.
pub open spec fn add_capped(a: u64, b: u64) -> u64 {
    if a + b > u64::MAX { u64::MAX } else { (a + b) as u64 }
}

/// Stats of a zone after one trade result with `pnl` at time `now`.
pub open spec fn after_result(s: ZoneStats, pnl: Fixed, now: u64, max_losses: u8, cooldown_secs: u64) -> ZoneStats {
    if pnl.raw < 0 {
        let c: u8 = if s.consecutive_losses < 255 { (s.consecutive_losses + 1) as u8 } else { 255 };
        if c >= max_losses {
            ZoneStats { consecutive_losses: c, disabled: true, cooldown_until: Some(add_capped(now, cooldown_secs)) }
        } else {
            ZoneStats { consecutive_losses: c, disabled: s.disabled, cooldown_until: s.cooldown_until }
        }
    } else {
        ZoneStats { consecutive_losses: 0, disabled: s.disabled, cooldown_until: s.cooldown_until }
    }
}

/// Stats of a zone in a map of records, absence meaning fresh stats.
pub open spec fn stats_in(m: Map<u64, ZoneStats>, id: ZoneId) -> ZoneStats {
    if m.contains_key(id.0) { m[id.0] } else { fresh_stats() }
}

/// Per-zone circuit breaker: `max_losses` consecutive losing trades in a
/// zone disable it for `cooldown_secs`. Records mirror the durable store,
/// where they expire with their time to live; that expiry is the only way
/// a zone is enabled again.
#[derive(Clone, Debug)]
pub struct ZoneGuard {
    pub zones: HashMap<u64, ZoneStats>,
    pub max_losses: u8,
    pub cooldown_secs: u64,
}

impl ZoneGuard {
    pub fn new(max_losses: u8, cooldown_secs: u64) -> (r: ZoneGuard)
        ensures
            r.zones@ == Map::<u64, ZoneStats>::empty(),
            r.max_losses == max_losses,
            r.cooldown_secs == cooldown_secs,
    {
        ZoneGuard { zones: HashMap::new(), max_losses, cooldown_secs }
    }

    /// Stats of a zone; a zone without a record has fresh stats.
    pub fn get_trade_result(&self, zone_id: ZoneId) -> (r: ZoneStats)
        ensures
            r == stats_in(self.zones@, zone_id),
    {
        match self.zones.get(&zone_id.0) {
            Some(s) => *s,
            None => ZoneStats::new(),
        }
    }

    /// Whether new entries into the zone are allowed.
    pub fn can_trade(&self, zone_id: ZoneId) -> (r: bool)
        ensures
            r == !stats_in(self.zones@, zone_id).disabled,
    {
        !self.get_trade_result(zone_id).disabled
    }

    /// Records a closed trade in the zone and returns the zone's new stats,
    /// to be persisted with `ttl_secs`. A loss extends the run of losses and
    /// trips the breaker once the run reaches `max_losses`; a result of zero
    /// or more ends the run but leaves a tripped breaker tripped.
    pub fn record_trade_result(&mut self, zone_id: ZoneId, pnl: Fixed, now: u64) -> (r: ZoneStats)
        ensures
            r == after_result(stats_in(old(self).zones@, zone_id), pnl, now, old(self).max_losses, old(self).cooldown_secs),
            final(self).zones@ == old(self).zones@.insert(zone_id.0, r),
            final(self).max_losses == old(self).max_losses,
            final(self).cooldown_secs == old(self).cooldown_secs,
    {
        let s = self.get_trade_result(zone_id);
        let next = if pnl.raw < 0 {
            let c: u8 = if s.consecutive_losses < 255 { s.consecutive_losses + 1 } else { 255 };
            if c >= self.max_losses {
                let until: u64 = if now <= u64::MAX - self.cooldown_secs { now + self.cooldown_secs } else { u64::MAX };
                ZoneStats { consecutive_losses: c, disabled: true, cooldown_until: Some(until) }
            } else {
                ZoneStats { consecutive_losses: c, disabled: s.disabled, cooldown_until: s.cooldown_until }
            }
        } else {
            ZoneStats { consecutive_losses: 0, disabled: s.disabled, cooldown_until: s.cooldown_until }
        };
        self.zones.insert(zone_id.0, next);
        next
    }

    /// Time to live of a persisted record: the cooldown when one is set,
    /// twelve hours otherwise.
    pub fn ttl_secs(&self, stats: &ZoneStats) -> (r: u64)
        ensures
            stats.cooldown_until is Some ==> r == self.cooldown_secs,
            stats.cooldown_until is None ==> r == DEFAULT_STATS_TTL_SECS,
    {
        match stats.cooldown_until {
            Some(_) => self.cooldown_secs,
            None => DEFAULT_STATS_TTL_SECS,
        }
    }

    /// Brings the record of one zone in line with the durable store: the
    /// stored record, or none once it has expired there.
    pub fn sync_from_store(&mut self, zone_id: ZoneId, stored: Option<ZoneStats>)
        ensures
            stored matches Some(s) ==> final(self).zones@ == old(self).zones@.insert(zone_id.0, s),
            stored is None ==> final(self).zones@ == old(self).zones@.remove(zone_id.0),
            final(self).max_losses == old(self).max_losses,
            final(self).cooldown_secs == old(self).cooldown_secs,
    {
        match stored {
            Some(s) => {
                self.zones.insert(zone_id.0, s);
            },
            None => {
                self.zones.remove(&zone_id.0);
            },
        }
    }
}

/// Stats after a run of results, the `k`-th at time `times[k]`.
pub open spec fn after_results(
    s: ZoneStats,
    pnls: Seq<Fixed>,
    times: Seq<u64>,
    max_losses: u8,
    cooldown_secs: u64,
) -> ZoneStats
    decreases pnls.len(),
{
    if pnls.len() == 0 || times.len() < pnls.len() {
        s
    } else {
        let n = pnls.len() - 1;
        after_result(
            after_results(s, pnls.drop_last(), times.subrange(0, n), max_losses, cooldown_secs),
            pnls[n],
            times[n],
            max_losses,
            cooldown_secs,
        )
    }
}

proof fn lemma_losses_count(s: ZoneStats, pnls: Seq<Fixed>, times: Seq<u64>, max_losses: u8, cooldown_secs: u64)
    requires
        s.consecutive_losses == 0,
        times.len() == pnls.len(),
        pnls.len() < max_losses,
        forall|k: int| 0 <= k < pnls.len() ==> (#[trigger] pnls[k]).raw < 0,
    ensures
        after_results(s, pnls, times, max_losses, cooldown_secs) == (ZoneStats {
            consecutive_losses: pnls.len() as u8,
            disabled: s.disabled,
            cooldown_until: s.cooldown_until,
        }),
    decreases pnls.len(),
{
    if pnls.len() > 0 {
        let n = pnls.len() - 1;
        lemma_losses_count(s, pnls.drop_last(), times.subrange(0, n), max_losses, cooldown_secs);
        assert(pnls[n].raw < 0);
    }
}

/// A zone starting with no losses is disabled by exactly `max_losses`
/// losing trades in a row, with its cooldown running from the last of them;
/// until then it keeps its state and counts the losses.
pub proof fn lemma_losses_trip_breaker(
    s: ZoneStats,
    pnls: Seq<Fixed>,
    times: Seq<u64>,
    max_losses: u8,
    cooldown_secs: u64,
)
    requires
        s.consecutive_losses == 0,
        1 <= max_losses,
        times.len() == pnls.len(),
        pnls.len() == max_losses,
        forall|k: int| 0 <= k < pnls.len() ==> (#[trigger] pnls[k]).raw < 0,
    ensures
        after_results(s, pnls, times, max_losses, cooldown_secs).disabled,
        after_results(s, pnls, times, max_losses, cooldown_secs).consecutive_losses == max_losses,
        after_results(s, pnls, times, max_losses, cooldown_secs).cooldown_until == Some(
            add_capped(times.last(), cooldown_secs),
        ),
        forall|k: int|
            0 <= k < max_losses ==> after_results(
                s,
                #[trigger] pnls.subrange(0, k),
                times.subrange(0, k),
                max_losses,
                cooldown_secs,
            ).consecutive_losses == k,
{
    let n = pnls.len() - 1;
    assert(pnls.subrange(0, n) =~= pnls.drop_last());
    lemma_losses_count(s, pnls.drop_last(), times.subrange(0, n), max_losses, cooldown_secs);
    assert(pnls[n].raw < 0);
    assert forall|k: int| 0 <= k < max_losses implies after_results(
        s,
        #[trigger] pnls.subrange(0, k),
        times.subrange(0, k),
        max_losses,
        cooldown_secs,
    ).consecutive_losses == k by {
        let p = pnls.subrange(0, k);
        assert forall|j: int| 0 <= j < p.len() implies (#[trigger] p[j]).raw < 0 by {
            assert(p[j] == pnls[j]);
        }
        lemma_losses_count(s, p, times.subrange(0, k), max_losses, cooldown_secs);
    }
}

/// Any result of zero or more ends a run of losses, whatever came before,
/// and leaves the breaker as it was.
pub proof fn lemma_gain_resets_run(s: ZoneStats, pnl: Fixed, now: u64, max_losses: u8, cooldown_secs: u64)
    requires
        pnl.raw >= 0,
    ensures
        after_result(s, pnl, now, max_losses, cooldown_secs).consecutive_losses == 0,
        after_result(s, pnl, now, max_losses, cooldown_secs).disabled == s.disabled,
        after_result(s, pnl, now, max_losses, cooldown_secs).cooldown_until == s.cooldown_until,
{
}

} // verus!
