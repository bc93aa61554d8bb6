//! Routing engine for a swap aggregator: a graph of assets connected by
//! venue-specific exchange edges, a liquidity-aware shortest-path search,
//! split-route planning, and a time-bounded quote cache.
//!
//! All monetary quantities (amounts, rates, fees, impacts) are fixed-point
//! values scaled by [`fixed::SCALE`]; edge weights are fixed-point values of
//! the negative logarithm of the exchange rate, supplied by the graph builder.

pub mod fixed;
pub mod graph;
pub mod quote;
pub mod routing;
pub mod types;
pub mod utils;

pub use fixed::SCALE;
