//! A statistical-arbitrage signal engine.
//!
//! The engine fuses two independently arriving price streams — a reference
//! feed and a venue mid-price feed — into a rolling window of relative
//! deviations, classifies the current deviation by its z-score against that
//! window, and turns the resulting directive into an immediate-or-cancel
//! order request.  All prices and deviations are fixed-point integers so
//! that every statistic and every decision is exact.

use vstd::prelude::*;

pub mod prices;
pub mod mirror;
pub mod window;
pub mod signal;
pub mod execution;
pub mod bytes;
pub mod engine;

verus! {

/// Scale of all fixed-point price values: one unit of currency is
/// `PRICE_SCALE` stored ticks, so a stored value of 101_250_000 means 101.25.
pub const PRICE_SCALE: i64 = 1_000_000;

/// Largest admissible price, in stored ticks (one billion currency units).
pub const PX_MAX: i64 = 1_000_000_000_000_000;

/// Deviations share the `PRICE_SCALE` fixed-point scale: a stored
/// deviation of 10_000 means a relative difference of 0.01 between the two
/// price sources.  They are clamped to this magnitude (a relative
/// difference of one billion), which keeps every windowed statistic inside
/// `i128`.
pub const DEV_LIMIT: i64 = 1_000_000_000_000_000;

/// Capacity of the rolling deviation window.
pub const WINDOW_SIZE: usize = 100;

/// Z-score threshold beyond which a trade fires.
pub const Z_THRESHOLD: i64 = 2;

/// Fixed size of each submitted order, scaled by `PRICE_SCALE` (0.001).
pub const TRADE_SIZE: i64 = 1_000;

/// Sentinel for a mid price that has not been received yet (-1.0 scaled).
pub const MID_SENTINEL: i64 = -1_000_000;

} // verus!
