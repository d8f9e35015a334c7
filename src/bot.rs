//! The zone bot: a Flat / Long / Short state machine that enters when price
//! falls inside an enabled zone, and leaves on its stop, on the opposing
//! zone, or rung by rung along its take-profit ladder.
//!
//! One call of `run_cycle` handles one price tick. It changes the state as
//! if the order it asks for is filled and returns that order; the caller
//! sends it, persists the result, and keeps the previous state if the venue
//! rejects it.
use vstd::prelude::*;

use std::collections::hash_map::DefaultHasher;
use vstd::std_specs::hash::DefaultHasherAdditionalSpecFns;

use crate::fees::{exit_pnl_spec, fee_spec, BitgetFuturesFees};
use crate::fixed::{sat, tdiv, Fixed};
use crate::helper::{
    contract_amount_spec, funding_multiplier_spec, pnl_spec, roi_spec, stop_hit, stop_loss_spec, Helper,
};
use crate::ladder::{
    ladder_spec, lemma_ladder_sizes_nonneg, lemma_ladder_sizes_sum, lemma_total_size_nonneg, lemma_total_size_remove,
    sizes_nonneg, total_size, PartialProfitTarget,
};
use crate::position::{ClosedPosition, OpenPosition, Position};
use crate::zones::{
    after_result, first_containing, stats_in, zone_contains, zone_fingerprint_input, Zone, ZoneGuard, ZoneId,
    ZoneStats, Zones,
};

verus! {

/// Settings of the bot.
#[derive(Clone, Copy, Debug, PartialEq, Eq, Structural)]
pub struct BotConfig {
    /// Starting capital, and the capital the bot falls back to.
    pub margin: Fixed,
    pub leverage: Fixed,
    /// Risk of the theoretical stop used when a position has none.
    pub risk_pct: Fixed,
    /// Risk of the stop set on entry.
    pub ranger_risk_pct: Fixed,
    /// Ladder step used when no opposing zone gives one.
    pub ranger_price_difference: Fixed,
    /// Capital at or below this is replaced by `margin`.
    pub capital_floor: Fixed,
}

/// Losses within the breaker's rolling window that stop new entries.
pub const LOSS_BREAKER_LIMIT: usize = 2;

/// Whether `losses` recent losing trades trip the global loss breaker.
pub fn breaker_tripped(losses: usize) -> (r: bool)
    ensures
        r == (losses >= LOSS_BREAKER_LIMIT),
{
    losses >= LOSS_BREAKER_LIMIT
}

/// Seconds between two price polls when none is configured.
pub fn default_interval() -> (r: u64)
    ensures
        r == 5,
{
    5
}

/// What the bot learns from outside for one tick.
#[derive(Clone, Copy, Debug, PartialEq, Eq, Structural)]
pub struct Tick {
    pub price: Fixed,
    /// Milliseconds since the Unix epoch.
    pub now_ms: i64,
    /// Whether the macro-event calendar allows new entries now.
    pub entry_allowed: bool,
    /// Whether the global loss breaker has tripped.
    pub breaker_tripped: bool,
    /// Current funding rate (zero when it could not be had).
    pub funding_rate: Fixed,
    /// Identity for a position opened on this tick.
    pub new_id: u128,
}

/// What a cycle asks the caller to do.
#[derive(Clone, Copy, Debug, PartialEq, Eq, Structural)]
pub enum BotEvent {
    Idle,
    /// Place a market entry for this position.
    Entered { position: OpenPosition },
    /// Close the whole position; append `record` to the history. `zone`
    /// holds the entry zone's new stats to persist after a stop; `loss`
    /// tells whether the trade lost money after fees.
    Closed { position: OpenPosition, record: ClosedPosition, zone: Option<ZoneUpdate>, loss: bool },
    /// Close `order.quantity` of the position (reduce only); append `record`.
    PartialClosed { order: OpenPosition, record: ClosedPosition },
}

/// New stats of a zone, to be persisted with the guard's time to live.
#[derive(Clone, Copy, Debug, PartialEq, Eq, Structural)]
pub struct ZoneUpdate {
    pub zone_id: ZoneId,
    pub stats: ZoneStats,
}

/// The zone bot.
#[derive(Clone, Debug)]
pub struct Bot {
    pub open_pos: OpenPosition,
    pub pos: Position,
    pub zones: Zones,
    pub current_margin: Fixed,
    pub partial_profit_target: Vec<PartialProfitTarget>,
    /// Zone the open position was entered from.
    pub entry_zone: Option<ZoneId>,
    pub config: BotConfig,
}

/// Mathematical view of `Bot`.
pub struct BotView {
    pub open_pos: OpenPosition,
    pub pos: Position,
    pub long_zones: Seq<Zone>,
    pub short_zones: Seq<Zone>,
    pub current_margin: Fixed,
    pub targets: Seq<PartialProfitTarget>,
    pub entry_zone: Option<ZoneId>,
    pub config: BotConfig,
}

impl View for Bot {
    type V = BotView;

    open spec fn view(&self) -> BotView {
        BotView {
            open_pos: self.open_pos,
            pos: self.pos,
            long_zones: self.zones.long_zones@,
            short_zones: self.zones.short_zones@,
            current_margin: self.current_margin,
            targets: self.partial_profit_target@,
            entry_zone: self.entry_zone,
            config: self.config,
        }
    }
}

pub open spec fn zone_key(z: Zone) -> ZoneId {
    ZoneId(DefaultHasher::spec_finish(zone_fingerprint_input(z)))
}

/// First zone from position `i` on that contains `price` and is enabled.
pub open spec fn first_enabled(zones: Seq<Zone>, price: Fixed, guard: Map<u64, ZoneStats>, i: int) -> Option<int>
    decreases zones.len() - i,
{
    if i < 0 || i >= zones.len() {
        None
    } else if zone_contains(zones[i], price) && !stats_in(guard, zone_key(zones[i])).disabled {
        Some(i)
    } else {
        first_enabled(zones, price, guard, i + 1)
    }
}

/// Distance from `entry` to the nearest band on the profit side of a
/// position, among the first `n` bands: the nearest short band whose low is
/// above entry for Long, the nearest long band whose high is below entry for
/// Short.
pub open spec fn nearest_distance(zones: Seq<Zone>, entry: Fixed, pos: Position, n: int) -> Option<int>
    decreases n,
{
    if n <= 0 || n > zones.len() {
        None
    } else {
        let z = zones[n - 1];
        let cand: Option<int> = if pos == Position::Long && z.low.raw > entry.raw {
            Some(z.low.raw - entry.raw)
        } else if pos == Position::Short && z.high.raw < entry.raw {
            Some(entry.raw - z.high.raw)
        } else {
            None
        };
        let rest = nearest_distance(zones, entry, pos, n - 1);
        match (rest, cand) {
            (Some(a), Some(b)) => Some(if b < a { b } else { a }),
            (None, c) => c,
            (r, None) => r,
        }
    }
}

/// Distance to the opposing zone that the ladder spans (zero if none).
pub open spec fn profit_difference(v: BotView, entry: Fixed, pos: Position) -> int {
    let zones = if pos == Position::Long { v.short_zones } else { v.long_zones };
    if pos == Position::Flat {
        0
    } else {
        match nearest_distance(zones, entry, pos, zones.len() as int) {
            Some(d) => d,
            None => 0,
        }
    }
}

/// Step between ladder rungs: a quarter of the distance to the opposing
/// zone, or the configured step when there is none.
pub open spec fn ladder_step(v: BotView, entry: Fixed, pos: Position) -> Fixed {
    let d = profit_difference(v, entry, pos);
    if d == 0 {
        v.config.ranger_price_difference
    } else {
        Fixed { raw: sat(tdiv(d, 4)) as i64 }
    }
}

/// Capital after adding `pnl`, reset to the configured margin at or below
/// the floor.
pub open spec fn compound(v: BotView, pnl: Fixed) -> Fixed {
    let c = sat(v.current_margin.raw + pnl.raw);
    if c <= v.config.capital_floor.raw { v.config.margin } else { Fixed { raw: c as i64 } }
}

/// Unix seconds of a millisecond timestamp (zero before the epoch).
pub open spec fn secs_of(ms: i64) -> u64 {
    if ms >= 0 { (ms / 1000) as u64 } else { 0 }
}

pub open spec fn close_record(
    p: OpenPosition,
    price: Fixed,
    qty: Fixed,
    margin: Fixed,
    fees: BitgetFuturesFees,
    now: i64,
) -> ClosedPosition {
    let fee = fee_spec(price, qty, fees.taker_fee);
    ClosedPosition {
        id: p.id,
        side: p.pos,
        entry_price: p.entry_price,
        entry_time: p.entry_time,
        exit_price: price,
        exit_time: now,
        pnl: Fixed { raw: pnl_spec(p.pos, p.entry_price, qty, price) as i64 },
        pnl_after_fees: Some(Fixed { raw: sat(exit_pnl_spec(p.pos, p.entry_price, price, qty) - fee) as i64 }),
        exit_fee: Some(Fixed { raw: fee as i64 }),
        quantity: Some(qty),
        sl: p.sl,
        roi: Some(Fixed { raw: roi_spec(margin, p.entry_price, p.pos, qty, price) as i64 }),
        leverage: p.leverage,
        margin: p.margin,
        order_id: p.order_id,
    }
}

impl Bot {
    /// Entry on `side` at the tick's price from `zone`: the capital is
    /// scaled by the funding multiplier, the entry fee is taken from it, and
    /// the ladder and stop are built on what is left.
    pub open spec fn enter_spec(v: BotView, side: Position, zone: Zone, fees: BitgetFuturesFees, t: Tick) -> (BotView, BotEvent) {
        let price = t.price;
        let lev = v.config.leverage;
        let sized = Fixed { raw: Fixed::mul_spec(v.current_margin.raw as int, funding_multiplier_spec(t.funding_rate, side)) as i64 };
        let qty0 = Fixed { raw: contract_amount_spec(price, sized, lev) as i64 };
        let margin = Fixed { raw: sat(sized.raw - fee_spec(price, qty0, fees.taker_fee)) as i64 };
        let ladder = ladder_spec(price, margin, lev, ladder_step(v, price, side), side);
        let qty = Fixed { raw: contract_amount_spec(price, margin, lev) as i64 };
        let p = OpenPosition {
            id: t.new_id,
            pos: side,
            entry_price: price,
            position_size: qty,
            entry_time: t.now_ms,
            tp: Some(ladder.last().target_price),
            sl: Some(Fixed { raw: stop_loss_spec(price, margin, lev, v.config.ranger_risk_pct, side) as i64 }),
            margin: Some(margin),
            quantity: Some(qty),
            leverage: Some(lev),
            risk_pct: Some(v.config.ranger_risk_pct),
            order_id: None,
        };
        (
            BotView { open_pos: p, pos: side, targets: ladder, entry_zone: Some(zone_key(zone)), ..v },
            BotEvent::Entered { position: p },
        )
    }

    /// Closing the whole position at the tick's price; after a stop the
    /// result is recorded against the entry zone.
    pub open spec fn close_spec(
        v: BotView,
        guard: Map<u64, ZoneStats>,
        max_losses: u8,
        cooldown_secs: u64,
        fees: BitgetFuturesFees,
        t: Tick,
        stopped: bool,
    ) -> (BotView, BotEvent, Map<u64, ZoneStats>) {
        let p = v.open_pos;
        let margin = if p.margin is Some { p.margin->0 } else { v.config.margin };
        let record = close_record(p, t.price, p.position_size, margin, fees, t.now_ms);
        let after_fees = record.pnl_after_fees->0;
        let zone = if stopped && v.entry_zone is Some {
            Some(ZoneUpdate {
                zone_id: v.entry_zone->0,
                stats: after_result(stats_in(guard, v.entry_zone->0), after_fees, secs_of(t.now_ms), max_losses, cooldown_secs),
            })
        } else {
            None
        };
        (
            BotView {
                pos: Position::Flat,
                current_margin: compound(v, record.pnl),
                targets: Seq::empty(),
                entry_zone: None,
                ..v
            },
            BotEvent::Closed { position: p, record, zone, loss: after_fees.raw < 0 },
            match zone {
                Some(u) => guard.insert(u.zone_id.0, u.stats),
                None => guard,
            },
        )
    }

    /// Filling rung `i` at the tick's price.
    pub open spec fn rung_spec(v: BotView, fees: BitgetFuturesFees, t: Tick, i: int) -> (BotView, BotEvent) {
        let p = v.open_pos;
        let rung = v.targets[i];
        let qty = rung.size_btc;
        let margin = if p.margin is Some { p.margin->0 } else { v.config.margin };
        let record = close_record(p, t.price, qty, margin, fees, t.now_ms);
        let rest = Fixed { raw: sat(p.position_size.raw - qty.raw) as i64 };
        let targets = v.targets.remove(i);
        let done = targets.len() == 0;
        (
            BotView {
                open_pos: OpenPosition {
                    position_size: rest,
                    quantity: Some(rest),
                    sl: if rung.sl is Some { rung.sl } else { p.sl },
                    ..p
                },
                pos: if done { Position::Flat } else { v.pos },
                current_margin: compound(v, record.pnl),
                targets,
                entry_zone: if done { None } else { v.entry_zone },
                ..v
            },
            BotEvent::PartialClosed { order: OpenPosition { quantity: Some(qty), ..p }, record },
        )
    }

    /// One tick of the bot.
    pub open spec fn cycle_spec(
        v: BotView,
        guard: Map<u64, ZoneStats>,
        max_losses: u8,
        cooldown_secs: u64,
        fees: BitgetFuturesFees,
        t: Tick,
    ) -> (BotView, BotEvent, Map<u64, ZoneStats>) {
        let price = t.price;
        if price.raw <= 0 {
            (v, BotEvent::Idle, guard)
        } else {
        match v.pos {
            Position::Flat => {
                if !t.entry_allowed || t.breaker_tripped {
                    (v, BotEvent::Idle, guard)
                } else {
                    match first_enabled(v.long_zones, price, guard, 0) {
                        Some(i) => {
                            let (w, e) = Self::enter_spec(v, Position::Long, v.long_zones[i], fees, t);
                            (w, e, guard)
                        },
                        None => match first_enabled(v.short_zones, price, guard, 0) {
                            Some(i) => {
                                let (w, e) = Self::enter_spec(v, Position::Short, v.short_zones[i], fees, t);
                                (w, e, guard)
                            },
                            None => (v, BotEvent::Idle, guard),
                        },
                    }
                }
            },
            _ => {
                let side = v.pos;
                let p = v.open_pos;
                let stop = if p.sl is Some {
                    p.sl->0
                } else {
                    Fixed { raw: stop_loss_spec(p.entry_price, v.config.margin, v.config.leverage, v.config.risk_pct, side) as i64 }
                };
                let opposing = if side == Position::Long { v.short_zones } else { v.long_zones };
                if stop_hit(price, side, stop) {
                    Self::close_spec(v, guard, max_losses, cooldown_secs, fees, t, true)
                } else if first_containing(opposing, price, 0) is Some {
                    Self::close_spec(v, guard, max_losses, cooldown_secs, fees, t, false)
                } else if v.targets.len() == 0 {
                    (BotView { pos: Position::Flat, entry_zone: None, ..v }, BotEvent::Idle, guard)
                } else {
                    match first_rung_reached(v.targets, side, price, 0) {
                        Some(i) => {
                            let (w, e) = Self::rung_spec(v, fees, t, i);
                            (w, e, guard)
                        },
                        None => (v, BotEvent::Idle, guard),
                    }
                }
            },
        }
        }
    }
}

/// Index of the first rung that price has reached: at or above its target
/// for Long, at or below for Short.
pub open spec fn first_rung_reached(targets: Seq<PartialProfitTarget>, side: Position, price: Fixed, i: int) -> Option<int>
    decreases targets.len() - i,
{
    if i < 0 || i >= targets.len() {
        None
    } else if (side == Position::Long && price.raw >= targets[i].target_price.raw) || (side == Position::Short
        && price.raw <= targets[i].target_price.raw) {
        Some(i)
    } else {
        first_rung_reached(targets, side, price, i + 1)
    }
}

proof fn lemma_first_enabled_bound(zones: Seq<Zone>, price: Fixed, guard: Map<u64, ZoneStats>, i: int)
    ensures
        first_enabled(zones, price, guard, i) matches Some(k) ==> 0 <= k < zones.len(),
    decreases zones.len() - i,
{
    if 0 <= i < zones.len() {
        lemma_first_enabled_bound(zones, price, guard, i + 1);
    }
}

proof fn lemma_first_rung_bound(targets: Seq<PartialProfitTarget>, side: Position, price: Fixed, i: int)
    ensures
        first_rung_reached(targets, side, price, i) matches Some(k) ==> 0 <= k < targets.len(),
    decreases targets.len() - i,
{
    if 0 <= i < targets.len() {
        lemma_first_rung_bound(targets, side, price, i + 1);
    }
}

/// Position of the first enabled zone of `zones` that contains `price`.
fn find_enabled(zones: &Vec<Zone>, price: Fixed, guard: &ZoneGuard) -> (r: Option<usize>)
    ensures
        r matches Some(i) ==> first_enabled(zones@, price, guard.zones@, 0) == Some(i as int) && i < zones@.len(),
        r is None ==> first_enabled(zones@, price, guard.zones@, 0) is None,
{
    let mut i: usize = 0;
    while i < zones.len()
        invariant
            i <= zones@.len(),
            first_enabled(zones@, price, guard.zones@, 0) == first_enabled(zones@, price, guard.zones@, i as int),
        decreases zones@.len() - i,
    {
        let z = zones[i];
        if z.contains(price) && guard.can_trade(ZoneId::from_zone(&z)) {
            return Some(i);
        }
        i = i + 1;
    }
    None
}

fn find_rung(targets: &Vec<PartialProfitTarget>, side: Position, price: Fixed) -> (r: Option<usize>)
    ensures
        r matches Some(i) ==> first_rung_reached(targets@, side, price, 0) == Some(i as int) && i < targets@.len(),
        r is None ==> first_rung_reached(targets@, side, price, 0) is None,
{
    let mut i: usize = 0;
    while i < targets.len()
        invariant
            i <= targets@.len(),
            first_rung_reached(targets@, side, price, 0) == first_rung_reached(targets@, side, price, i as int),
        decreases targets@.len() - i,
    {
        let t = targets[i].target_price;
        if (side == Position::Long && price.raw >= t.raw) || (side == Position::Short && price.raw <= t.raw) {
            return Some(i);
        }
        i = i + 1;
    }
    None
}

fn close_record_exec(
    p: &OpenPosition,
    price: Fixed,
    qty: Fixed,
    margin: Fixed,
    fees: &BitgetFuturesFees,
    now: i64,
) -> (r: ClosedPosition)
    ensures
        r == close_record(*p, price, qty, margin, *fees, now),
{
    let part = OpenPosition { position_size: qty, ..*p };
    let (after_fees, fee) = fees.calc_pnl_for_exit(&part, price);
    ClosedPosition {
        id: p.id,
        side: p.pos,
        entry_price: p.entry_price,
        entry_time: p.entry_time,
        exit_price: price,
        exit_time: now,
        pnl: Helper::compute_pnl(p.pos, p.entry_price, qty, price),
        pnl_after_fees: Some(after_fees),
        exit_fee: Some(fee),
        quantity: Some(qty),
        sl: p.sl,
        roi: Some(Helper::calc_roi(margin, p.entry_price, p.pos, qty, price)),
        leverage: p.leverage,
        margin: p.margin,
        order_id: p.order_id,
    }
}

fn secs_of_exec(ms: i64) -> (r: u64)
    ensures
        r == secs_of(ms),
{
    if ms >= 0 {
        (ms / 1000) as u64
    } else {
        0
    }
}

impl Bot {
    /// A flat bot with `zones`, on `current_margin` of capital or, when none
    /// was stored or it is at or below the floor, on the configured margin.
    pub fn new(config: BotConfig, zones: Zones, current_margin: Option<Fixed>) -> (r: Bot)
        ensures
            r@.pos == Position::Flat,
            r@.long_zones == zones.long_zones@,
            r@.short_zones == zones.short_zones@,
            r@.current_margin == Bot::load_margin_spec(config, current_margin),
            r@.targets.len() == 0,
            r@.entry_zone is None,
            r@.config == config,
            bot_wf(r@),
    {
        let margin = Bot::load_current_margin(config, current_margin);
        Bot {
            open_pos: OpenPosition {
                id: 0,
                pos: Position::Flat,
                entry_price: Fixed::zero(),
                position_size: Fixed::zero(),
                entry_time: 0,
                tp: None,
                sl: None,
                margin: Some(margin),
                quantity: None,
                leverage: Some(config.leverage),
                risk_pct: Some(config.risk_pct),
                order_id: None,
            },
            pos: Position::Flat,
            zones,
            current_margin: margin,
            partial_profit_target: Vec::new(),
            entry_zone: None,
            config,
        }
    }

    pub open spec fn load_margin_spec(config: BotConfig, stored: Option<Fixed>) -> Fixed {
        match stored {
            Some(m) => if m.raw <= config.capital_floor.raw { config.margin } else { m },
            None => config.margin,
        }
    }

    /// Capital to trade with, from the stored value if it is above the floor.
    pub fn load_current_margin(config: BotConfig, stored: Option<Fixed>) -> (r: Fixed)
        ensures
            r == Bot::load_margin_spec(config, stored),
    {
        match stored {
            Some(m) => if m.raw <= config.capital_floor.raw { config.margin } else { m },
            None => config.margin,
        }
    }

    /// Replaces the zones, which are re-read before each cycle.
    pub fn set_zones(&mut self, zones: Zones)
        ensures
            final(self)@ == (BotView { long_zones: zones.long_zones@, short_zones: zones.short_zones@, ..old(self)@ }),
    {
        self.zones = zones;
    }

    /// Stores the venue's handle of the entry order.
    pub fn record_order(&mut self, order_id: u64)
        ensures
            final(self)@ == (BotView { open_pos: OpenPosition { order_id: Some(order_id), ..old(self)@.open_pos }, ..old(self)@ }),
    {
        self.open_pos = OpenPosition { order_id: Some(order_id), ..self.open_pos };
    }

    /// Capital after adding `pnl`, reset to the configured margin at or
    /// below the floor.
    pub fn prepare_current_margin(&mut self, pnl: Fixed) -> (r: Fixed)
        ensures
            r == compound(old(self)@, pnl),
            final(self)@ == (BotView { current_margin: r, ..old(self)@ }),
    {
        let c = self.current_margin.add(pnl);
        let r = if c.raw <= self.config.capital_floor.raw { self.config.margin } else { c };
        self.current_margin = r;
        r
    }

    fn nearest_exec(zones: &Vec<Zone>, entry: Fixed, pos: Position) -> (r: Option<i128>)
        ensures
            r matches Some(d) ==> nearest_distance(zones@, entry, pos, zones@.len() as int) == Some(d as int),
            r is None ==> nearest_distance(zones@, entry, pos, zones@.len() as int) is None,
            r matches Some(d) ==> 0 < d <= 0x1_0000_0000_0000_0000,
    {
        let mut best: Option<i128> = None;
        let mut n: usize = 0;
        while n < zones.len()
            invariant
                n <= zones@.len(),
                best matches Some(d) ==> nearest_distance(zones@, entry, pos, n as int) == Some(d as int),
                best is None ==> nearest_distance(zones@, entry, pos, n as int) is None,
                best matches Some(d) ==> 0 < d <= 0x1_0000_0000_0000_0000,
            decreases zones@.len() - n,
        {
            let z = zones[n];
            let cand: Option<i128> = if pos == Position::Long && z.low.raw > entry.raw {
                Some(z.low.raw as i128 - entry.raw as i128)
            } else if pos == Position::Short && z.high.raw < entry.raw {
                Some(entry.raw as i128 - z.high.raw as i128)
            } else {
                None
            };
            best = match (best, cand) {
                (Some(a), Some(b)) => Some(if b < a { b } else { a }),
                (None, c) => c,
                (r, None) => r,
            };
            n = n + 1;
        }
        best
    }

    /// Distance from `entry_price` to the nearest opposing zone on the
    /// profit side; zero when there is none.
    fn determine_profit_difference(&self, entry_price: Fixed, pos: Position) -> (r: i128)
        ensures
            r == profit_difference(self@, entry_price, pos),
            0 <= r <= 0x1_0000_0000_0000_0000,
    {
        if pos == Position::Flat {
            return 0;
        }
        let zones = if pos == Position::Long { &self.zones.short_zones } else { &self.zones.long_zones };
        match Self::nearest_exec(zones, entry_price, pos) {
            Some(d) => d,
            None => 0,
        }
    }

    fn step_for(&self, entry_price: Fixed, pos: Position) -> (r: Fixed)
        ensures
            r == ladder_step(self@, entry_price, pos),
    {
        let d = self.determine_profit_difference(entry_price, pos);
        if d == 0 {
            self.config.ranger_price_difference
        } else {
            let q: i128 = d / 4;
            Fixed::from_raw(crate::fixed::saturate(q))
        }
    }

    fn enter(&mut self, side: Position, zone: Zone, fees: &BitgetFuturesFees, t: &Tick) -> (r: BotEvent)
        requires
            side != Position::Flat,
        ensures
            (final(self)@, r) == Bot::enter_spec(old(self)@, side, zone, *fees, *t),
    {
        let price = t.price;
        let lev = self.config.leverage;
        let sized = self.current_margin.mul(Helper::funding_multiplier(t.funding_rate, side));
        let qty0 = Helper::contract_amount(price, sized, lev);
        let margin = fees.calc_margin_for_entry(price, qty0, sized);
        let step = self.step_for(price, side);
        let ladder = Helper::build_profit_targets(price, margin, lev, step, side);
        let qty = Helper::contract_amount(price, margin, lev);
        let tp = ladder[ladder.len() - 1].target_price;
        let p = OpenPosition {
            id: t.new_id,
            pos: side,
            entry_price: price,
            position_size: qty,
            entry_time: t.now_ms,
            tp: Some(tp),
            sl: Some(Helper::stop_loss_price(price, margin, lev, self.config.ranger_risk_pct, side)),
            margin: Some(margin),
            quantity: Some(qty),
            leverage: Some(lev),
            risk_pct: Some(self.config.ranger_risk_pct),
            order_id: None,
        };
        self.open_pos = p;
        self.pos = side;
        self.partial_profit_target = ladder;
        self.entry_zone = Some(ZoneId::from_zone(&zone));
        BotEvent::Entered { position: p }
    }

    fn close(&mut self, guard: &mut ZoneGuard, fees: &BitgetFuturesFees, t: &Tick, stopped: bool) -> (r: BotEvent)
        ensures
            (final(self)@, r, final(guard).zones@) == Bot::close_spec(
                old(self)@,
                old(guard).zones@,
                old(guard).max_losses,
                old(guard).cooldown_secs,
                *fees,
                *t,
                stopped,
            ),
            final(guard).max_losses == old(guard).max_losses,
            final(guard).cooldown_secs == old(guard).cooldown_secs,
    {
        let p = self.open_pos;
        let margin = match p.margin {
            Some(m) => m,
            None => self.config.margin,
        };
        let record = close_record_exec(&p, t.price, p.position_size, margin, fees, t.now_ms);
        let after_fees = match record.pnl_after_fees {
            Some(a) => a,
            None => Fixed::zero(),
        };
        let zone = if stopped {
            match self.entry_zone {
                Some(z) => {
                    let stats = guard.record_trade_result(z, after_fees, secs_of_exec(t.now_ms));
                    Some(ZoneUpdate { zone_id: z, stats })
                },
                None => None,
            }
        } else {
            None
        };
        self.prepare_current_margin(record.pnl);
        self.pos = Position::Flat;
        self.partial_profit_target = Vec::new();
        self.entry_zone = None;
        proof {
            assert(self.partial_profit_target@ =~= Seq::<PartialProfitTarget>::empty());
        }
        BotEvent::Closed { position: p, record, zone, loss: after_fees.raw < 0 }
    }

    fn fill_rung(&mut self, fees: &BitgetFuturesFees, t: &Tick, i: usize) -> (r: BotEvent)
        requires
            i < old(self)@.targets.len(),
        ensures
            (final(self)@, r) == Bot::rung_spec(old(self)@, *fees, *t, i as int),
    {
        let p = self.open_pos;
        let rung = self.partial_profit_target.remove(i);
        let qty = rung.size_btc;
        let margin = match p.margin {
            Some(m) => m,
            None => self.config.margin,
        };
        let record = close_record_exec(&p, t.price, qty, margin, fees, t.now_ms);
        let rest = p.position_size.sub(qty);
        self.open_pos = OpenPosition {
            position_size: rest,
            quantity: Some(rest),
            sl: if rung.sl.is_some() { rung.sl } else { p.sl },
            ..p
        };
        self.prepare_current_margin(record.pnl);
        if self.partial_profit_target.len() == 0 {
            self.pos = Position::Flat;
            self.entry_zone = None;
        }
        BotEvent::PartialClosed { order: OpenPosition { quantity: Some(qty), ..p }, record }
    }

    /// Handles one price tick. A price of zero or less is no price: nothing
    /// changes and nothing is asked for. Flat: enters Long in the first enabled long
    /// zone holding the price, else Short in the first enabled short zone,
    /// when the calendar allows and the loss breaker has not tripped. In a
    /// position: closes on the stop (recording the result against the entry
    /// zone), else on reaching an opposing zone, else fills the first rung
    /// reached; with no rung left the bot is flat again.
    pub fn run_cycle(&mut self, guard: &mut ZoneGuard, fees: &BitgetFuturesFees, t: &Tick) -> (r: BotEvent)
        ensures
            (final(self)@, r, final(guard).zones@) == Bot::cycle_spec(
                old(self)@,
                old(guard).zones@,
                old(guard).max_losses,
                old(guard).cooldown_secs,
                *fees,
                *t,
            ),
            final(guard).max_losses == old(guard).max_losses,
            final(guard).cooldown_secs == old(guard).cooldown_secs,
    {
        let price = t.price;
        if price.raw <= 0 {
            return BotEvent::Idle;
        }
        match self.pos {
            Position::Flat => {
                if !t.entry_allowed || t.breaker_tripped {
                    return BotEvent::Idle;
                }
                match find_enabled(&self.zones.long_zones, price, guard) {
                    Some(i) => {
                        let z = self.zones.long_zones[i];
                        self.enter(Position::Long, z, fees, t)
                    },
                    None => match find_enabled(&self.zones.short_zones, price, guard) {
                        Some(i) => {
                            let z = self.zones.short_zones[i];
                            self.enter(Position::Short, z, fees, t)
                        },
                        None => BotEvent::Idle,
                    },
                }
            },
            _ => {
                let side = self.pos;
                let p = self.open_pos;
                let stop = match p.sl {
                    Some(sl) => sl,
                    None => Helper::stop_loss_price(p.entry_price, self.config.margin, self.config.leverage, self.config.risk_pct, side),
                };
                let opposing = if side == Position::Long { &self.zones.short_zones } else { &self.zones.long_zones };
                if Helper::ssl_hit(price, side, stop) {
                    self.close(guard, fees, t, true)
                } else if Zones::find_containing(opposing, price).is_some() {
                    self.close(guard, fees, t, false)
                } else if self.partial_profit_target.len() == 0 {
                    self.pos = Position::Flat;
                    self.entry_zone = None;
                    BotEvent::Idle
                } else {
                    match find_rung(&self.partial_profit_target, side, price) {
                        Some(i) => self.fill_rung(fees, t, i),
                        None => BotEvent::Idle,
                    }
                }
            },
        }
    }
}

/// A position is entered with a ladder whose rung sizes add up to exactly
/// the position's size.
pub proof fn lemma_entry_ladder_covers_position(v: BotView, side: Position, zone: Zone, fees: BitgetFuturesFees, t: Tick)
    requires
        side != Position::Flat,
    ensures
        ({
            let w = Bot::enter_spec(v, side, zone, fees, t).0;
            total_size(w.targets) == w.open_pos.position_size.raw && sizes_nonneg(w.targets)
        }),
{
    let price = t.price;
    let lev = v.config.leverage;
    let sized = Fixed { raw: Fixed::mul_spec(v.current_margin.raw as int, funding_multiplier_spec(t.funding_rate, side)) as i64 };
    let qty0 = Fixed { raw: contract_amount_spec(price, sized, lev) as i64 };
    let margin = Fixed { raw: sat(sized.raw - fee_spec(price, qty0, fees.taker_fee)) as i64 };
    let step = ladder_step(v, price, side);
    lemma_ladder_sizes_sum(price, margin, lev, step, side);
    lemma_ladder_sizes_nonneg(price, margin, lev, step, side);
}

/// Filling a rung keeps the rest of the ladder adding up to exactly the
/// size still held.
pub proof fn lemma_fill_keeps_ladder_cover(v: BotView, fees: BitgetFuturesFees, t: Tick, i: int)
    requires
        0 <= i < v.targets.len(),
        v.open_pos.position_size.raw == total_size(v.targets),
        sizes_nonneg(v.targets),
    ensures
        ({
            let w = Bot::rung_spec(v, fees, t, i).0;
            total_size(w.targets) == w.open_pos.position_size.raw && sizes_nonneg(w.targets)
        }),
{
    lemma_total_size_remove(v.targets, i);
    lemma_total_size_nonneg(v.targets.remove(i));
}

/// Well-formedness of the bot: while it holds a position, the open
/// position is on the same side and its quantity is the size still held.
pub open spec fn bot_wf(v: BotView) -> bool {
    v.pos != Position::Flat ==> v.open_pos.pos == v.pos && v.open_pos.quantity == Some(v.open_pos.position_size)
}

/// A new bot is well formed, and every cycle keeps it so.
pub proof fn lemma_cycle_keeps_wf(
    v: BotView,
    guard: Map<u64, ZoneStats>,
    max_losses: u8,
    cooldown_secs: u64,
    fees: BitgetFuturesFees,
    t: Tick,
)
    requires
        bot_wf(v),
    ensures
        bot_wf(Bot::cycle_spec(v, guard, max_losses, cooldown_secs, fees, t).0),
{
}
} // verus!
