//! Position and risk engine for a leveraged single-instrument trading bot:
//! fixed-point money math, the take-profit ladder, the per-zone loss circuit
//! breaker, and the two trading state machines.
pub mod fixed;
pub mod position;
pub mod helper;
pub mod ladder;
pub mod fees;
pub mod zones;
pub mod capitulation;
pub mod bot;
pub mod calendar;
pub mod text;
pub mod exchange;
pub mod api;
pub mod roi;
pub mod codec;
