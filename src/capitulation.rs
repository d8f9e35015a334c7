//! The capitulation strategy: a staged ladder of short entries over a table
//! of descending price tiers, with its own compounding capital and cooldown.
//!
//! One call of `run_cycle` handles one price tick. It changes the state as
//! if every order it asks for is filled and returns that order; the caller
//! sends it, and keeps the previous state if the venue rejects it.
use vstd::prelude::*;

use crate::fees::{exit_pnl_spec, BitgetFuturesFees};
use crate::fixed::{sat, Fixed, SCALE};
use crate::helper::{contract_amount_spec, Helper};
use crate::ladder::{
    ladder_spec, lemma_ladder_sizes_nonneg, lemma_ladder_sizes_sum, lemma_total_size_nonneg, lemma_total_size_remove,
    sizes_nonneg, total_size, PartialProfitTarget, RUNG_COUNT,
};
use crate::position::{ClosedPosition, OpenPosition, Position};

verus! {

/// Prices of one tier: where to enter, where the stop sits, where the whole
/// position is taken off, and the spacing of its ladder rungs.
#[derive(Clone, Copy, Debug, PartialEq, Eq, Structural)]
pub struct PhaseParams {
    pub entry: Fixed,
    pub stop: Fixed,
    pub take_profit: Fixed,
    pub ladder_step: Fixed,
}

/// The tier being traded: an index into the strategy's table, or the end.
#[derive(Clone, Copy, Debug, PartialEq, Eq, Structural)]
pub enum CapitulationPhase {
    Trade(usize),
    Complete,
}

/// How close below a tier's entry price the market must be to enter.
#[derive(Clone, Copy, Debug, PartialEq, Eq, Structural)]
pub enum EntryBuffer {
    /// Within this many price units.
    Absolute(Fixed),
    /// Within this fraction of the current price.
    Relative(Fixed),
}

/// State of the strategy, persisted after every change.
#[derive(Clone, Debug)]
pub struct CapitulationState {
    pub current_phase: CapitulationPhase,
    pub current_capital: Fixed,
    pub active_position: Option<OpenPosition>,
    pub partial_profit_targets: Vec<PartialProfitTarget>,
    /// Milliseconds since the Unix epoch.
    pub cooldown_until: Option<i64>,
}

/// Mathematical view of `CapitulationState`.
pub struct CapitulationView {
    pub phase: CapitulationPhase,
    pub capital: Fixed,
    pub active: Option<OpenPosition>,
    pub targets: Seq<PartialProfitTarget>,
    pub cooldown_until: Option<i64>,
}

impl View for CapitulationState {
    type V = CapitulationView;

    open spec fn view(&self) -> CapitulationView {
        CapitulationView {
            phase: self.current_phase,
            capital: self.current_capital,
            active: self.active_position,
            targets: self.partial_profit_targets@,
            cooldown_until: self.cooldown_until,
        }
    }
}

/// What a cycle asks the caller to do.
#[derive(Clone, Copy, Debug, PartialEq, Eq, Structural)]
pub enum CapitulationEvent {
    /// Nothing to send.
    Idle,
    /// Place a market entry for this position.
    Entered { position: OpenPosition },
    /// Close the whole position and append `record` to the history;
    /// `cooldown` tells whether a cooldown began.
    Closed { position: OpenPosition, record: ClosedPosition, cooldown: bool },
    /// Close `order.quantity` of the position (reduce only) and append
    /// `record` to the history.
    PartialClosed { order: OpenPosition, record: ClosedPosition },
}

/// Settings of the strategy.
pub struct CapitulationStrategy {
    pub leverage: Fixed,
    pub phases: Vec<PhaseParams>,
    /// How many tiers after the current one an entry may also be taken in.
    pub entry_window: usize,
    pub buffer: EntryBuffer,
    /// Capital at or below this is replaced by `starting_capital` on entry.
    pub capital_floor: Fixed,
    pub starting_capital: Fixed,
    pub risk_pct: Fixed,
    /// Length of the cooldown after a stop with no rung filled.
    pub cooldown_ms: i64,
}

pub open spec fn entry_matches(buffer: EntryBuffer, entry: Fixed, price: Fixed) -> bool {
    price.raw <= entry.raw && match buffer {
        EntryBuffer::Absolute(b) => price.raw > entry.raw - b.raw,
        EntryBuffer::Relative(f) => price.raw > entry.raw - Fixed::mul_spec(price.raw as int, f.raw as int),
    }
}

/// First tier from `i` up to `last` whose entry matches `price`.
pub open spec fn first_match(phases: Seq<PhaseParams>, buffer: EntryBuffer, price: Fixed, i: int, last: int) -> Option<int>
    decreases phases.len() - i,
{
    if i < 0 || i > last || i >= phases.len() {
        None
    } else if entry_matches(buffer, phases[i].entry, price) {
        Some(i)
    } else {
        first_match(phases, buffer, price, i + 1, last)
    }
}

/// Return on `capital` in percent.
pub open spec fn roi_on(pnl: Fixed, capital: Fixed) -> int {
    if capital.raw == 0 {
        0
    } else {
        sat(Fixed::div_spec(pnl.raw as int, capital.raw as int) * 100)
    }
}

/// History record of closing `qty` of `pos` at `exit`.
pub open spec fn closed_record(pos: OpenPosition, exit: Fixed, qty: Fixed, pnl: Fixed, capital: Fixed, now: i64) -> ClosedPosition {
    ClosedPosition {
        id: pos.id,
        side: Position::Short,
        entry_price: pos.entry_price,
        entry_time: pos.entry_time,
        exit_price: exit,
        exit_time: now,
        pnl,
        pnl_after_fees: None,
        exit_fee: None,
        quantity: Some(qty),
        sl: pos.sl,
        roi: Some(Fixed { raw: roi_on(pnl, capital) as i64 }),
        leverage: pos.leverage,
        margin: pos.margin,
        order_id: pos.order_id,
    }
}

/// Index of the first rung a short position at `price` has reached.
pub open spec fn first_rung_hit(targets: Seq<PartialProfitTarget>, price: Fixed, i: int) -> Option<int>
    decreases targets.len() - i,
{
    if i < 0 || i >= targets.len() {
        None
    } else if price.raw <= targets[i].target_price.raw {
        Some(i)
    } else {
        first_rung_hit(targets, price, i + 1)
    }
}

pub open spec fn idle(s: CapitulationView) -> (CapitulationView, CapitulationEvent) {
    (s, CapitulationEvent::Idle)
}

impl CapitulationStrategy {
    /// The tier that follows `p` in the table; the last is followed by the end.
    pub open spec fn successor(self, p: CapitulationPhase) -> CapitulationPhase {
        match p {
            CapitulationPhase::Trade(i) => if i + 1 < self.phases@.len() {
                CapitulationPhase::Trade((i + 1) as usize)
            } else {
                CapitulationPhase::Complete
            },
            CapitulationPhase::Complete => CapitulationPhase::Complete,
        }
    }

    /// Entry into tier `idx` at `price`.
    pub open spec fn enter_spec(self, s: CapitulationView, idx: int, price: Fixed, now: i64, id: u128) -> (CapitulationView, CapitulationEvent) {
        let capital = if s.capital.raw <= self.capital_floor.raw { self.starting_capital } else { s.capital };
        let qty = Fixed { raw: contract_amount_spec(price, capital, self.leverage) as i64 };
        let params = self.phases@[idx];
        let pos = OpenPosition {
            id,
            pos: Position::Short,
            entry_price: price,
            position_size: qty,
            entry_time: now,
            tp: Some(params.take_profit),
            sl: Some(params.stop),
            margin: Some(capital),
            quantity: Some(qty),
            leverage: Some(self.leverage),
            risk_pct: Some(self.risk_pct),
            order_id: None,
        };
        (
            CapitulationView {
                phase: CapitulationPhase::Trade(idx as usize),
                capital,
                active: Some(pos),
                targets: ladder_spec(price, capital, self.leverage, params.ladder_step, Position::Short),
                cooldown_until: s.cooldown_until,
            },
            CapitulationEvent::Entered { position: pos },
        )
    }

    /// Closing all of `pos` at `price`; `take_profit` moves to the next tier.
    pub open spec fn close_spec(self, s: CapitulationView, pos: OpenPosition, price: Fixed, now: i64, take_profit: bool) -> (CapitulationView, CapitulationEvent) {
        let pnl = Fixed { raw: exit_pnl_spec(Position::Short, pos.entry_price, price, pos.position_size) as i64 };
        let cooldown = !take_profit && s.targets.len() == RUNG_COUNT;
        (
            CapitulationView {
                phase: if take_profit { self.successor(s.phase) } else { s.phase },
                capital: Fixed { raw: sat(s.capital.raw + pnl.raw) as i64 },
                active: None,
                targets: Seq::empty(),
                cooldown_until: if cooldown { Some(sat(now + self.cooldown_ms) as i64) } else { None },
            },
            CapitulationEvent::Closed {
                position: pos,
                record: closed_record(pos, price, pos.position_size, pnl, s.capital, now),
                cooldown,
            },
        )
    }

    /// Filling rung `i` of the ladder of `pos`.
    pub open spec fn rung_spec(self, s: CapitulationView, pos: OpenPosition, i: int, now: i64) -> (CapitulationView, CapitulationEvent) {
        let rung = s.targets[i];
        let qty = rung.size_btc;
        let pnl = Fixed { raw: exit_pnl_spec(Position::Short, pos.entry_price, rung.target_price, qty) as i64 };
        let rest = Fixed { raw: sat(pos.position_size.raw - qty.raw) as i64 };
        let targets = s.targets.remove(i);
        let shrunk = OpenPosition {
            position_size: rest,
            quantity: Some(rest),
            sl: if rung.sl is Some { rung.sl } else { pos.sl },
            ..pos
        };
        (
            CapitulationView {
                phase: s.phase,
                capital: Fixed { raw: sat(s.capital.raw + pnl.raw) as i64 },
                active: if targets.len() == 0 { None } else { Some(shrunk) },
                targets,
                cooldown_until: s.cooldown_until,
            },
            CapitulationEvent::PartialClosed {
                order: OpenPosition { quantity: Some(qty), ..pos },
                record: closed_record(pos, rung.target_price, qty, pnl, s.capital, now),
            },
        )
    }

    /// One tick of the strategy at `price` and time `now`; `id` names a
    /// position opened on this tick.
    pub open spec fn cycle_spec(self, s0: CapitulationView, price: Fixed, now: i64, id: u128) -> (CapitulationView, CapitulationEvent) {
        if price.raw <= 0 {
            idle(s0)
        } else {
        match s0.phase {
            CapitulationPhase::Complete => idle(s0),
            CapitulationPhase::Trade(cur) => {
                if s0.cooldown_until is Some && now < s0.cooldown_until->0 {
                    idle(s0)
                } else {
                    let s = CapitulationView { cooldown_until: None, ..s0 };
                    if cur >= self.phases@.len() {
                        idle(CapitulationView { phase: CapitulationPhase::Complete, ..s })
                    } else {
                        let params = self.phases@[cur as int];
                        match s.active {
                            None => match first_match(self.phases@, self.buffer, price, cur as int, cur + self.entry_window) {
                                Some(idx) => self.enter_spec(s, idx, price, now, id),
                                None => idle(s),
                            },
                            Some(pos) => {
                                let stop = if pos.sl is Some { pos.sl->0 } else { params.stop };
                                if price.raw >= stop.raw {
                                    self.close_spec(s, pos, price, now, false)
                                } else if price.raw <= params.take_profit.raw {
                                    self.close_spec(s, pos, price, now, true)
                                } else if s.targets.len() == 0 {
                                    idle(CapitulationView { active: None, ..s })
                                } else {
                                    match first_rung_hit(s.targets, price, 0) {
                                        Some(i) => self.rung_spec(s, pos, i, now),
                                        None => idle(s),
                                    }
                                }
                            },
                        }
                    }
                }
            },
        }        }
    }
}

proof fn lemma_first_match_in_table(phases: Seq<PhaseParams>, buffer: EntryBuffer, price: Fixed, i: int, last: int)
    ensures
        first_match(phases, buffer, price, i, last) matches Some(k) ==> 0 <= k < phases.len(),
    decreases phases.len() - i,
{
    if 0 <= i <= last && i < phases.len() && !entry_matches(buffer, phases[i].entry, price) {
        lemma_first_match_in_table(phases, buffer, price, i + 1, last);
    }
}

proof fn lemma_first_rung_in_ladder(targets: Seq<PartialProfitTarget>, price: Fixed, i: int)
    ensures
        first_rung_hit(targets, price, i) matches Some(k) ==> 0 <= k < targets.len(),
    decreases targets.len() - i,
{
    if 0 <= i < targets.len() && price.raw > targets[i].target_price.raw {
        lemma_first_rung_in_ladder(targets, price, i + 1);
    }
}

fn entry_matches_exec(buffer: EntryBuffer, entry: Fixed, price: Fixed) -> (r: bool)
    ensures
        r == entry_matches(buffer, entry, price),
{
    if price.raw > entry.raw {
        return false;
    }
    match buffer {
        EntryBuffer::Absolute(b) => price.raw as i128 > entry.raw as i128 - b.raw as i128,
        EntryBuffer::Relative(f) => {
            let margin = price.mul(f);
            price.raw as i128 > entry.raw as i128 - margin.raw as i128
        },
    }
}

fn roi_exec(pnl: Fixed, capital: Fixed) -> (r: Fixed)
    ensures
        r.raw == roi_on(pnl, capital),
{
    if capital.raw == 0 {
        Fixed::zero()
    } else {
        pnl.div(capital).mul_int(100)
    }
}

fn closed_record_exec(pos: &OpenPosition, exit: Fixed, qty: Fixed, pnl: Fixed, capital: Fixed, now: i64) -> (r: ClosedPosition)
    ensures
        r == closed_record(*pos, exit, qty, pnl, capital, now),
{
    ClosedPosition {
        id: pos.id,
        side: Position::Short,
        entry_price: pos.entry_price,
        entry_time: pos.entry_time,
        exit_price: exit,
        exit_time: now,
        pnl,
        pnl_after_fees: None,
        exit_fee: None,
        quantity: Some(qty),
        sl: pos.sl,
        roi: Some(roi_exec(pnl, capital)),
        leverage: pos.leverage,
        margin: pos.margin,
        order_id: pos.order_id,
    }
}

fn first_rung(targets: &Vec<PartialProfitTarget>, price: Fixed) -> (r: Option<usize>)
    ensures
        r matches Some(i) ==> first_rung_hit(targets@, price, 0) == Some(i as int),
        r is None ==> first_rung_hit(targets@, price, 0) is None,
{
    let mut i: usize = 0;
    while i < targets.len()
        invariant
            i <= targets@.len(),
            first_rung_hit(targets@, price, 0) == first_rung_hit(targets@, price, i as int),
        decreases targets@.len() - i,
    {
        if price.raw <= targets[i].target_price.raw {
            return Some(i);
        }
        i = i + 1;
    }
    None
}

impl Default for CapitulationState {
    /// Start of the strategy with a capital of 200.
    fn default() -> (r: CapitulationState)
        ensures
            r@.phase == CapitulationPhase::Trade(0),
            r@.capital.raw == 200 * SCALE,
            r@.active is None,
            r@.targets.len() == 0,
            r@.cooldown_until is None,
    {
        CapitulationState::new(Fixed::from_raw(200 * SCALE))
    }
}

impl CapitulationState {
    /// Start of the strategy: first tier, the given capital, no position.
    pub fn new(starting_capital: Fixed) -> (r: CapitulationState)
        ensures
            r@.phase == CapitulationPhase::Trade(0),
            r@.capital == starting_capital,
            r@.active is None,
            r@.targets.len() == 0,
            r@.cooldown_until is None,
    {
        CapitulationState {
            current_phase: CapitulationPhase::Trade(0),
            current_capital: starting_capital,
            active_position: None,
            partial_profit_targets: Vec::new(),
            cooldown_until: None,
        }
    }

    /// Replaces the capital, as an operator override.
    pub fn update_capital(&mut self, new_capital: Fixed)
        ensures
            final(self)@ == (CapitulationView { capital: new_capital, ..old(self)@ }),
    {
        self.current_capital = new_capital;
    }

    /// Stores the venue's handle of the entry order of the open position.
    pub fn record_order(&mut self, order_id: u64)
        ensures
            old(self)@.active matches Some(p) ==> final(self)@ == (CapitulationView {
                active: Some(OpenPosition { order_id: Some(order_id), ..p }),
                ..old(self)@
            }),
            old(self)@.active is None ==> final(self)@ == old(self)@,
    {
        match self.active_position {
            Some(p) => {
                self.active_position = Some(OpenPosition { order_id: Some(order_id), ..p });
            },
            None => {},
        }
    }
}

impl CapitulationStrategy {
    /// Tier `phase`'s prices, or `None` for the end or an unknown tier.
    pub fn get_trade_params(&self, phase: CapitulationPhase) -> (r: Option<PhaseParams>)
        ensures
            r == (match phase {
                CapitulationPhase::Trade(i) => if i < self.phases@.len() { Some(self.phases@[i as int]) } else { None },
                CapitulationPhase::Complete => None::<PhaseParams>,
            }),
    {
        match phase {
            CapitulationPhase::Trade(i) => if i < self.phases.len() { Some(self.phases[i]) } else { None },
            CapitulationPhase::Complete => None,
        }
    }

    pub fn next_phase(&self, p: CapitulationPhase) -> (r: CapitulationPhase)
        ensures
            r == self.successor(p),
    {
        match p {
            CapitulationPhase::Trade(i) => if i < self.phases.len() && i + 1 < self.phases.len() {
                CapitulationPhase::Trade(i + 1)
            } else {
                CapitulationPhase::Complete
            },
            CapitulationPhase::Complete => CapitulationPhase::Complete,
        }
    }

    fn find_entry(&self, cur: usize, price: Fixed) -> (r: Option<usize>)
        ensures
            r matches Some(i) ==> first_match(self.phases@, self.buffer, price, cur as int, cur + self.entry_window) == Some(i as int),
            r is None ==> first_match(self.phases@, self.buffer, price, cur as int, cur + self.entry_window) is None,
    {
        let mut i: usize = cur;
        while i < self.phases.len() && i - cur <= self.entry_window
            invariant
                cur <= i,
                first_match(self.phases@, self.buffer, price, cur as int, cur + self.entry_window)
                    == first_match(self.phases@, self.buffer, price, i as int, cur + self.entry_window),
            decreases self.phases@.len() - i,
        {
            if entry_matches_exec(self.buffer, self.phases[i].entry, price) {
                return Some(i);
            }
            i = i + 1;
        }
        None
    }

    fn enter(&self, state: &mut CapitulationState, idx: usize, price: Fixed, now: i64, id: u128) -> (r: CapitulationEvent)
        requires
            idx < self.phases@.len(),
        ensures
            (final(state)@, r) == self.enter_spec(old(state)@, idx as int, price, now, id),
    {
        let capital = if state.current_capital.raw <= self.capital_floor.raw {
            self.starting_capital
        } else {
            state.current_capital
        };
        let qty = Helper::contract_amount(price, capital, self.leverage);
        let params = self.phases[idx];
        let pos = OpenPosition {
            id,
            pos: Position::Short,
            entry_price: price,
            position_size: qty,
            entry_time: now,
            tp: Some(params.take_profit),
            sl: Some(params.stop),
            margin: Some(capital),
            quantity: Some(qty),
            leverage: Some(self.leverage),
            risk_pct: Some(self.risk_pct),
            order_id: None,
        };
        state.current_phase = CapitulationPhase::Trade(idx);
        state.current_capital = capital;
        state.active_position = Some(pos);
        state.partial_profit_targets = Helper::build_profit_targets(
            price,
            capital,
            self.leverage,
            params.ladder_step,
            Position::Short,
        );
        CapitulationEvent::Entered { position: pos }
    }

    fn close(&self, state: &mut CapitulationState, pos: OpenPosition, price: Fixed, now: i64, take_profit: bool) -> (r: CapitulationEvent)
        ensures
            (final(state)@, r) == self.close_spec(old(state)@, pos, price, now, take_profit),
    {
        let pnl = BitgetFuturesFees::pnl_for_exit(Position::Short, pos.entry_price, price, pos.position_size);
        let cooldown = !take_profit && state.partial_profit_targets.len() == RUNG_COUNT;
        let record = closed_record_exec(&pos, price, pos.position_size, pnl, state.current_capital, now);
        if take_profit {
            state.current_phase = self.next_phase(state.current_phase);
        }
        state.current_capital = state.current_capital.add(pnl);
        state.active_position = None;
        state.partial_profit_targets = Vec::new();
        state.cooldown_until = if cooldown {
            Some(Fixed::from_raw(now).add(Fixed::from_raw(self.cooldown_ms)).raw)
        } else {
            None
        };
        proof {
            assert(final(state)@.targets =~= Seq::<PartialProfitTarget>::empty());
        }
        CapitulationEvent::Closed { position: pos, record, cooldown }
    }

    fn fill_rung(&self, state: &mut CapitulationState, pos: OpenPosition, i: usize, now: i64) -> (r: CapitulationEvent)
        requires
            i < old(state)@.targets.len(),
        ensures
            (final(state)@, r) == self.rung_spec(old(state)@, pos, i as int, now),
    {
        let rung = state.partial_profit_targets.remove(i);
        let qty = rung.size_btc;
        let pnl = BitgetFuturesFees::pnl_for_exit(Position::Short, pos.entry_price, rung.target_price, qty);
        let rest = pos.position_size.sub(qty);
        let record = closed_record_exec(&pos, rung.target_price, qty, pnl, state.current_capital, now);
        let shrunk = OpenPosition {
            position_size: rest,
            quantity: Some(rest),
            sl: if rung.sl.is_some() { rung.sl } else { pos.sl },
            ..pos
        };
        state.current_capital = state.current_capital.add(pnl);
        state.active_position = if state.partial_profit_targets.len() == 0 { None } else { Some(shrunk) };
        CapitulationEvent::PartialClosed { order: OpenPosition { quantity: Some(qty), ..pos }, record }
    }

    /// Handles one price tick. A price of zero or less is no price: nothing
    /// changes and nothing is asked for. Otherwise it waits out a cooldown, looks for an entry in
    /// the current tier or the next `entry_window` ones while flat, and
    /// otherwise checks the stop, the tier's take-profit and the ladder, in
    /// that order. `id` names a position opened on this tick.
    pub fn run_cycle(&self, state: &mut CapitulationState, price: Fixed, now: i64, id: u128) -> (r: CapitulationEvent)
        ensures
            (final(state)@, r) == self.cycle_spec(old(state)@, price, now, id),
    {
        if price.raw <= 0 {
            return CapitulationEvent::Idle;
        }
        let cur = match state.current_phase {
            CapitulationPhase::Complete => {
                return CapitulationEvent::Idle;
            },
            CapitulationPhase::Trade(i) => i,
        };
        match state.cooldown_until {
            Some(until) => {
                if now < until {
                    return CapitulationEvent::Idle;
                }
            },
            None => {},
        }
        state.cooldown_until = None;
        if cur >= self.phases.len() {
            state.current_phase = CapitulationPhase::Complete;
            return CapitulationEvent::Idle;
        }
        let params = self.phases[cur];
        match state.active_position {
            None => match self.find_entry(cur, price) {
                Some(idx) => {
                proof { lemma_first_match_in_table(self.phases@, self.buffer, price, cur as int, cur + self.entry_window); }
                self.enter(state, idx, price, now, id)
            },
                None => CapitulationEvent::Idle,
            },
            Some(pos) => {
                let stop = match pos.sl {
                    Some(sl) => sl,
                    None => params.stop,
                };
                if price.raw >= stop.raw {
                    self.close(state, pos, price, now, false)
                } else if price.raw <= params.take_profit.raw {
                    self.close(state, pos, price, now, true)
                } else if state.partial_profit_targets.len() == 0 {
                    state.active_position = None;
                    CapitulationEvent::Idle
                } else {
                    match first_rung(&state.partial_profit_targets, price) {
                        Some(i) => {
                            proof { lemma_first_rung_in_ladder(state.partial_profit_targets@, price, 0); }
                            self.fill_rung(state, pos, i, now)
                        },
                        None => CapitulationEvent::Idle,
                    }
                }
            },
        }
    }
}

/// The standard tier table: entry, stop and take-profit of each tier, with
/// rungs 500 apart.
pub open spec fn standard_tiers() -> Seq<PhaseParams> {
    seq![
        PhaseParams { entry: Fixed { raw: 10_840_500_000_000 }, stop: Fixed { raw: 10_857_500_000_000 }, take_profit: Fixed { raw: 10_753_500_000_000 }, ladder_step: Fixed { raw: 50_000_000_000 } },
        PhaseParams { entry: Fixed { raw: 10_740_500_000_000 }, stop: Fixed { raw: 10_757_500_000_000 }, take_profit: Fixed { raw: 10_453_500_000_000 }, ladder_step: Fixed { raw: 50_000_000_000 } },
        PhaseParams { entry: Fixed { raw: 10_440_500_000_000 }, stop: Fixed { raw: 10_457_500_000_000 }, take_profit: Fixed { raw: 10_053_500_000_000 }, ladder_step: Fixed { raw: 50_000_000_000 } },
        PhaseParams { entry: Fixed { raw: 10_040_500_000_000 }, stop: Fixed { raw: 10_057_500_000_000 }, take_profit: Fixed { raw: 9_853_500_000_000 }, ladder_step: Fixed { raw: 50_000_000_000 } },
        PhaseParams { entry: Fixed { raw: 9_840_500_000_000 }, stop: Fixed { raw: 9_857_500_000_000 }, take_profit: Fixed { raw: 9_653_500_000_000 }, ladder_step: Fixed { raw: 50_000_000_000 } },
        PhaseParams { entry: Fixed { raw: 9_640_500_000_000 }, stop: Fixed { raw: 9_657_500_000_000 }, take_profit: Fixed { raw: 9_253_500_000_000 }, ladder_step: Fixed { raw: 50_000_000_000 } },
        PhaseParams { entry: Fixed { raw: 9_440_500_000_000 }, stop: Fixed { raw: 9_457_500_000_000 }, take_profit: Fixed { raw: 9_253_500_000_000 }, ladder_step: Fixed { raw: 50_000_000_000 } },
        PhaseParams { entry: Fixed { raw: 9_240_500_000_000 }, stop: Fixed { raw: 9_257_500_000_000 }, take_profit: Fixed { raw: 9_053_500_000_000 }, ladder_step: Fixed { raw: 50_000_000_000 } },
        PhaseParams { entry: Fixed { raw: 9_040_500_000_000 }, stop: Fixed { raw: 9_057_500_000_000 }, take_profit: Fixed { raw: 8_843_500_000_000 }, ladder_step: Fixed { raw: 50_000_000_000 } },
        PhaseParams { entry: Fixed { raw: 8_840_500_000_000 }, stop: Fixed { raw: 8_857_500_000_000 }, take_profit: Fixed { raw: 8_640_500_000_000 }, ladder_step: Fixed { raw: 50_000_000_000 } },
        PhaseParams { entry: Fixed { raw: 8_640_500_000_000 }, stop: Fixed { raw: 8_657_500_000_000 }, take_profit: Fixed { raw: 8_440_500_000_000 }, ladder_step: Fixed { raw: 50_000_000_000 } },
        PhaseParams { entry: Fixed { raw: 8_440_500_000_000 }, stop: Fixed { raw: 8_457_500_000_000 }, take_profit: Fixed { raw: 8_240_500_000_000 }, ladder_step: Fixed { raw: 50_000_000_000 } },
        PhaseParams { entry: Fixed { raw: 8_240_500_000_000 }, stop: Fixed { raw: 8_257_500_000_000 }, take_profit: Fixed { raw: 8_040_500_000_000 }, ladder_step: Fixed { raw: 50_000_000_000 } },
        PhaseParams { entry: Fixed { raw: 8_040_500_000_000 }, stop: Fixed { raw: 8_057_500_000_000 }, take_profit: Fixed { raw: 7_840_500_000_000 }, ladder_step: Fixed { raw: 50_000_000_000 } },
        PhaseParams { entry: Fixed { raw: 7_840_500_000_000 }, stop: Fixed { raw: 7_857_500_000_000 }, take_profit: Fixed { raw: 7_640_500_000_000 }, ladder_step: Fixed { raw: 50_000_000_000 } },
        PhaseParams { entry: Fixed { raw: 7_640_500_000_000 }, stop: Fixed { raw: 7_657_500_000_000 }, take_profit: Fixed { raw: 7_440_500_000_000 }, ladder_step: Fixed { raw: 50_000_000_000 } },
        PhaseParams { entry: Fixed { raw: 7_440_500_000_000 }, stop: Fixed { raw: 7_457_500_000_000 }, take_profit: Fixed { raw: 7_240_500_000_000 }, ladder_step: Fixed { raw: 50_000_000_000 } },
        PhaseParams { entry: Fixed { raw: 7_240_500_000_000 }, stop: Fixed { raw: 7_257_500_000_000 }, take_profit: Fixed { raw: 7_040_500_000_000 }, ladder_step: Fixed { raw: 50_000_000_000 } },
        PhaseParams { entry: Fixed { raw: 7_040_500_000_000 }, stop: Fixed { raw: 7_057_500_000_000 }, take_profit: Fixed { raw: 6_840_500_000_000 }, ladder_step: Fixed { raw: 50_000_000_000 } },
        PhaseParams { entry: Fixed { raw: 6_840_500_000_000 }, stop: Fixed { raw: 6_857_500_000_000 }, take_profit: Fixed { raw: 6_640_500_000_000 }, ladder_step: Fixed { raw: 50_000_000_000 } },
        PhaseParams { entry: Fixed { raw: 6_640_500_000_000 }, stop: Fixed { raw: 6_657_500_000_000 }, take_profit: Fixed { raw: 6_440_500_000_000 }, ladder_step: Fixed { raw: 50_000_000_000 } },
        PhaseParams { entry: Fixed { raw: 6_440_500_000_000 }, stop: Fixed { raw: 6_457_500_000_000 }, take_profit: Fixed { raw: 6_240_500_000_000 }, ladder_step: Fixed { raw: 50_000_000_000 } },
        PhaseParams { entry: Fixed { raw: 6_240_500_000_000 }, stop: Fixed { raw: 6_257_500_000_000 }, take_profit: Fixed { raw: 6_040_500_000_000 }, ladder_step: Fixed { raw: 50_000_000_000 } },
        PhaseParams { entry: Fixed { raw: 6_040_500_000_000 }, stop: Fixed { raw: 6_057_500_000_000 }, take_profit: Fixed { raw: 5_840_500_000_000 }, ladder_step: Fixed { raw: 50_000_000_000 } },
        PhaseParams { entry: Fixed { raw: 5_840_500_000_000 }, stop: Fixed { raw: 5_857_500_000_000 }, take_profit: Fixed { raw: 5_640_500_000_000 }, ladder_step: Fixed { raw: 50_000_000_000 } },
        PhaseParams { entry: Fixed { raw: 5_640_500_000_000 }, stop: Fixed { raw: 5_657_500_000_000 }, take_profit: Fixed { raw: 5_440_500_000_000 }, ladder_step: Fixed { raw: 50_000_000_000 } },
        PhaseParams { entry: Fixed { raw: 5_440_500_000_000 }, stop: Fixed { raw: 5_457_500_000_000 }, take_profit: Fixed { raw: 5_240_500_000_000 }, ladder_step: Fixed { raw: 50_000_000_000 } },
        PhaseParams { entry: Fixed { raw: 5_240_500_000_000 }, stop: Fixed { raw: 5_257_500_000_000 }, take_profit: Fixed { raw: 5_040_500_000_000 }, ladder_step: Fixed { raw: 50_000_000_000 } },
        PhaseParams { entry: Fixed { raw: 5_040_500_000_000 }, stop: Fixed { raw: 5_057_500_000_000 }, take_profit: Fixed { raw: 4_840_500_000_000 }, ladder_step: Fixed { raw: 50_000_000_000 } },
        PhaseParams { entry: Fixed { raw: 4_840_500_000_000 }, stop: Fixed { raw: 4_857_500_000_000 }, take_profit: Fixed { raw: 4_640_500_000_000 }, ladder_step: Fixed { raw: 50_000_000_000 } },
        PhaseParams { entry: Fixed { raw: 4_640_500_000_000 }, stop: Fixed { raw: 4_657_500_000_000 }, take_profit: Fixed { raw: 4_440_500_000_000 }, ladder_step: Fixed { raw: 50_000_000_000 } },
        PhaseParams { entry: Fixed { raw: 4_440_500_000_000 }, stop: Fixed { raw: 4_457_500_000_000 }, take_profit: Fixed { raw: 4_240_500_000_000 }, ladder_step: Fixed { raw: 50_000_000_000 } },
        PhaseParams { entry: Fixed { raw: 4_240_500_000_000 }, stop: Fixed { raw: 4_257_500_000_000 }, take_profit: Fixed { raw: 4_040_500_000_000 }, ladder_step: Fixed { raw: 50_000_000_000 } },
        PhaseParams { entry: Fixed { raw: 4_040_500_000_000 }, stop: Fixed { raw: 4_057_500_000_000 }, take_profit: Fixed { raw: 3_840_500_000_000 }, ladder_step: Fixed { raw: 50_000_000_000 } },
        PhaseParams { entry: Fixed { raw: 3_840_500_000_000 }, stop: Fixed { raw: 3_857_500_000_000 }, take_profit: Fixed { raw: 3_640_500_000_000 }, ladder_step: Fixed { raw: 50_000_000_000 } },
    ]
}

/// A tier with whole-number prices and a ladder step of 500.
fn tier(entry: i64, stop: i64, take_profit: i64) -> (r: PhaseParams)
    requires
        0 <= entry <= 1_000_000_000,
        0 <= stop <= 1_000_000_000,
        0 <= take_profit <= 1_000_000_000,
    ensures
        r.entry.raw == entry * SCALE,
        r.stop.raw == stop * SCALE,
        r.take_profit.raw == take_profit * SCALE,
        r.ladder_step.raw == 500 * SCALE,
{
    PhaseParams {
        entry: Fixed::from_raw(entry * SCALE),
        stop: Fixed::from_raw(stop * SCALE),
        take_profit: Fixed::from_raw(take_profit * SCALE),
        ladder_step: Fixed::from_raw(500 * SCALE),
    }
}

impl CapitulationStrategy {
    /// The strategy with its standard tier table: 35 tiers from
    /// 108405 down to 38405, 35x leverage, entries within 0.075% below a
    /// tier's entry price in the current tier or the five after it, capital
    /// reset to 200 at or below 60, and a four-hour cooldown.
    pub fn new() -> (r: CapitulationStrategy)
        ensures
            r.phases@ == standard_tiers(),
            r.buffer == EntryBuffer::Relative(Fixed { raw: 75_000 }),
            r.risk_pct.raw == SCALE / 10,
            r.leverage.raw == 35 * SCALE,
            r.entry_window == 5,
            r.capital_floor.raw == 60 * SCALE,
            r.starting_capital.raw == 200 * SCALE,
            r.cooldown_ms == 14_400_000,
    {
        let mut t: Vec<PhaseParams> = Vec::new();
        t.push(tier(108405, 108575, 107535));
        t.push(tier(107405, 107575, 104535));
        t.push(tier(104405, 104575, 100535));
        t.push(tier(100405, 100575, 98535));
        t.push(tier(98405, 98575, 96535));
        t.push(tier(96405, 96575, 92535));
        t.push(tier(94405, 94575, 92535));
        t.push(tier(92405, 92575, 90535));
        t.push(tier(90405, 90575, 88435));
        t.push(tier(88405, 88575, 86405));
        t.push(tier(86405, 86575, 84405));
        t.push(tier(84405, 84575, 82405));
        t.push(tier(82405, 82575, 80405));
        t.push(tier(80405, 80575, 78405));
        t.push(tier(78405, 78575, 76405));
        t.push(tier(76405, 76575, 74405));
        t.push(tier(74405, 74575, 72405));
        t.push(tier(72405, 72575, 70405));
        t.push(tier(70405, 70575, 68405));
        t.push(tier(68405, 68575, 66405));
        t.push(tier(66405, 66575, 64405));
        t.push(tier(64405, 64575, 62405));
        t.push(tier(62405, 62575, 60405));
        t.push(tier(60405, 60575, 58405));
        t.push(tier(58405, 58575, 56405));
        t.push(tier(56405, 56575, 54405));
        t.push(tier(54405, 54575, 52405));
        t.push(tier(52405, 52575, 50405));
        t.push(tier(50405, 50575, 48405));
        t.push(tier(48405, 48575, 46405));
        t.push(tier(46405, 46575, 44405));
        t.push(tier(44405, 44575, 42405));
        t.push(tier(42405, 42575, 40405));
        t.push(tier(40405, 40575, 38405));
        t.push(tier(38405, 38575, 36405));
        assert(t@ =~= standard_tiers());
        CapitulationStrategy {
            leverage: Fixed::from_raw(35 * SCALE),
            phases: t,
            entry_window: 5,
            buffer: EntryBuffer::Relative(Fixed::from_raw(75_000)),
            capital_floor: Fixed::from_raw(60 * SCALE),
            starting_capital: Fixed::from_raw(200 * SCALE),
            risk_pct: Fixed::from_raw(SCALE / 10),
            cooldown_ms: 14_400_000,
        }
    }

    /// The phase reached from `p` after `n` tiers are completed.
    pub open spec fn advance(self, p: CapitulationPhase, n: nat) -> CapitulationPhase
        decreases n,
    {
        if n == 0 {
            p
        } else {
            self.successor(self.advance(p, (n - 1) as nat))
        }
    }

    /// Completing tiers one after another walks the table in order, one
    /// tier at a time, and ends at `Complete` after the last tier.
    pub proof fn lemma_phases_advance_in_order(self, n: nat)
        requires
            0 < self.phases@.len(),
            n <= self.phases@.len(),
        ensures
            n < self.phases@.len() ==> self.advance(CapitulationPhase::Trade(0), n) == CapitulationPhase::Trade(n as usize),
            n == self.phases@.len() ==> self.advance(CapitulationPhase::Trade(0), n) == CapitulationPhase::Complete,
        decreases n,
    {
        assert(self.phases@.len() == self.phases.len());
        if n > 0 {
            self.lemma_phases_advance_in_order((n - 1) as nat);
            let prev = self.advance(CapitulationPhase::Trade(0), (n - 1) as nat);
            assert(prev == CapitulationPhase::Trade((n - 1) as usize));
            assert(self.advance(CapitulationPhase::Trade(0), n) == self.successor(prev));
        }
    }

    /// `Complete` is final: a cycle there changes nothing and asks for nothing.
    pub proof fn lemma_complete_is_final(self, s: CapitulationView, price: Fixed, now: i64, id: u128)
        requires
            s.phase == CapitulationPhase::Complete,
        ensures
            self.cycle_spec(s, price, now, id) == (s, CapitulationEvent::Idle),
    {
    }

    /// A cycle that reaches the tier's take-profit (without touching the
    /// stop) closes the position and moves to the next tier; no cycle moves
    /// to any tier other than the next one, except an entry found by the scan.
    pub proof fn lemma_cycle_moves_forward(self, s: CapitulationView, price: Fixed, now: i64, id: u128)
        requires
            s.phase is Trade,
        ensures
            ({
                let (t, e) = self.cycle_spec(s, price, now, id);
                ||| t.phase == s.phase
                ||| t.phase == self.successor(s.phase) && e is Closed
                ||| t.phase == CapitulationPhase::Complete && s.phase->0 >= self.phases@.len()
                ||| e is Entered && s.active is None
            }),
            ({
                let cur = s.phase->0;
                let params = self.phases@[cur as int];
                (price.raw > 0 && cur < self.phases@.len() && (s.cooldown_until is None || now >= s.cooldown_until->0)
                    && s.active is Some && price.raw < (if s.active->0.sl is Some { s.active->0.sl->0 } else { params.stop }).raw
                    && price.raw <= params.take_profit.raw)
                    ==> self.cycle_spec(s, price, now, id).0.phase == self.successor(s.phase)
                        && self.cycle_spec(s, price, now, id).0.active is None
            }),
    {
    }
}

impl CapitulationStrategy {
    /// An entry's ladder adds up to exactly the position's size.
    pub proof fn lemma_entry_ladder_covers_position(self, s: CapitulationView, idx: int, price: Fixed, now: i64, id: u128)
        requires
            0 <= idx < self.phases@.len(),
        ensures
            ({
                let w = self.enter_spec(s, idx, price, now, id).0;
                total_size(w.targets) == w.active->0.position_size.raw && sizes_nonneg(w.targets)
            }),
    {
        let capital = if s.capital.raw <= self.capital_floor.raw { self.starting_capital } else { s.capital };
        let step = self.phases@[idx].ladder_step;
        lemma_ladder_sizes_sum(price, capital, self.leverage, step, Position::Short);
        lemma_ladder_sizes_nonneg(price, capital, self.leverage, step, Position::Short);
    }

    /// Filling a rung keeps the rest of the ladder adding up to exactly the
    /// size still held.
    pub proof fn lemma_fill_keeps_ladder_cover(self, s: CapitulationView, pos: OpenPosition, i: int, now: i64)
        requires
            0 <= i < s.targets.len(),
            pos.position_size.raw == total_size(s.targets),
            sizes_nonneg(s.targets),
        ensures
            ({
                let w = self.rung_spec(s, pos, i, now).0;
                w.targets.len() > 0 ==> total_size(w.targets) == w.active->0.position_size.raw
            }),
            sizes_nonneg(self.rung_spec(s, pos, i, now).0.targets),
    {
        lemma_total_size_remove(s.targets, i);
        lemma_total_size_nonneg(s.targets.remove(i));
    }
}

/// Well-formedness of the strategy's state: an open position is a short,
/// and its quantity is the size still held.
pub open spec fn state_wf(v: CapitulationView) -> bool {
    v.active matches Some(p) ==> p.pos == Position::Short && p.quantity == Some(p.position_size)
}

impl CapitulationStrategy {
    /// Every cycle keeps the state well formed.
    pub proof fn lemma_cycle_keeps_wf(self, s: CapitulationView, price: Fixed, now: i64, id: u128)
        requires
            state_wf(s),
        ensures
            state_wf(self.cycle_spec(s, price, now, id).0),
    {
    }
}
impl CapitulationStrategy {
    /// Whether `p` is a price at which tier `i` is entered from a flat
    /// state and whose take-profit then closes it: `p` is within the buffer
    /// of the tier's entry, and the take-profit is a price below the stop.
    pub open spec fn tier_walkable(self, i: int, p: Fixed) -> bool {
        &&& 0 < p.raw
        &&& entry_matches(self.buffer, self.phases@[i].entry, p)
        &&& 0 < self.phases@[i].take_profit.raw < self.phases@[i].stop.raw
    }

    /// The state after `n` tiers are walked from `s`: for each tier `k`, one
    /// tick at `entries[k]` and one at the tier's take-profit.
    pub open spec fn walk(self, s: CapitulationView, entries: Seq<Fixed>, now: i64, n: nat) -> CapitulationView
        decreases n,
    {
        if n == 0 {
            s
        } else {
            let k = n - 1;
            let t = self.walk(s, entries, now, k as nat);
            let t1 = self.cycle_spec(t, entries[k], now, 0).0;
            self.cycle_spec(t1, self.phases@[k].take_profit, now, 0).0
        }
    }

    /// One tier walked: entering tier `i` at `p` and reaching its
    /// take-profit closes the position and moves to the next tier.
    pub proof fn lemma_tier_walk(self, s: CapitulationView, i: int, p: Fixed, now: i64, id: u128)
        requires
            0 <= i < self.phases@.len(),
            s.phase == CapitulationPhase::Trade(i as usize),
            s.active is None,
            s.cooldown_until is None,
            self.tier_walkable(i, p),
        ensures
            ({
                let s1 = self.cycle_spec(s, p, now, id).0;
                let s2 = self.cycle_spec(s1, self.phases@[i].take_profit, now, id).0;
                &&& s1.phase == s.phase && s1.active is Some
                &&& s2.phase == self.successor(s.phase)
                &&& s2.active is None
                &&& s2.cooldown_until is None
            }),
    {
        assert(self.phases@.len() == self.phases.len());
        assert((i as usize) as int == i);
        assert(first_match(self.phases@, self.buffer, p, i, i + self.entry_window) == Some(i));
        let s0 = CapitulationView { cooldown_until: None, ..s };
        assert(s0 == s);
        let (s1, e1) = self.enter_spec(s, i, p, now, id);
        assert(self.cycle_spec(s, p, now, id) == (s1, e1));
        let pos = s1.active->0;
        assert(pos.sl == Some(self.phases@[i].stop));
        let tp = self.phases@[i].take_profit;
        let s1c = CapitulationView { cooldown_until: None, ..s1 };
        assert(s1c == s1);
        assert(self.cycle_spec(s1, tp, now, id) == self.close_spec(s1, pos, tp, now, true));
    }

    /// Walking every tier in order from the first, entering each at a
    /// walkable price, passes through the tiers one after another and ends
    /// at `Complete`.
    pub proof fn lemma_walk_reaches_complete(self, s: CapitulationView, entries: Seq<Fixed>, now: i64, n: nat)
        requires
            0 < self.phases@.len(),
            n <= self.phases@.len(),
            s.phase == CapitulationPhase::Trade(0),
            s.active is None,
            s.cooldown_until is None,
            entries.len() == self.phases@.len(),
            forall|k: int| 0 <= k < entries.len() ==> self.tier_walkable(k, #[trigger] entries[k]),
        ensures
            self.walk(s, entries, now, n).phase == self.advance(CapitulationPhase::Trade(0), n),
            self.walk(s, entries, now, n).active is None,
            self.walk(s, entries, now, n).cooldown_until is None,
            n == self.phases@.len() ==> self.walk(s, entries, now, n).phase == CapitulationPhase::Complete,
        decreases n,
    {
        self.lemma_phases_advance_in_order(n);
        if n > 0 {
            let k = (n - 1) as int;
            self.lemma_walk_reaches_complete(s, entries, now, (n - 1) as nat);
            self.lemma_phases_advance_in_order((n - 1) as nat);
            let t = self.walk(s, entries, now, (n - 1) as nat);
            assert(self.tier_walkable(k, entries[k]));
            self.lemma_tier_walk(t, k, entries[k], now, 0);
            assert(self.advance(CapitulationPhase::Trade(0), n) == self.successor(self.advance(CapitulationPhase::Trade(0), (n - 1) as nat)));
        }
    }
}
} // verus!
