//! Orderflow engine: turns a stream of futures trades into pressure bubbles,
//! a cumulative volume delta curve, a session volume profile, absorption
//! zones, delta flips, stacked imbalances, confluences and signal statistics.
//!
//! The engine is [`ProcessingState`]: trades go in one by one, and every tick
//! closes the window they fell into and hands out its artifacts. What the
//! engine is as a value, and what a trade and a tick make of it, is written
//! down in [`processing::EngineView`]; what holds of whole runs is proved in
//! [`runs`]. Beside the engine stand the decisions of the feed adapters, the
//! replay of recorded trades, and the offline pipeline of bars, daily levels,
//! impulse legs, low volume nodes and backtests.
//!
//! Prices are fixed-point integers, [`price::PRICE_SCALE`] units to the
//! point; times are milliseconds since the epoch in the engine and
//! nanoseconds in the pipeline.

pub mod absorption;
pub mod adapters;
pub mod backtest;
pub mod bars;
pub mod config;
pub mod cvd;
pub mod db_replay;
pub mod demo;
pub mod impulse;
pub mod levels;
pub mod lvn;
pub mod price;
pub mod processing;
pub mod profile;
pub mod query;
pub mod replay;
pub mod retention;
pub mod runs;
pub mod signals;
pub mod stacked;
pub mod trades;
pub mod types;
pub mod window;

pub use processing::ProcessingState;
