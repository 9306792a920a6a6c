//! Sampling-and-rate engine of a terminal system monitor: per-interface
//! throughput from cumulative counters, stale-interface eviction, interface
//! classification and a fixed-capacity chart series.

pub mod filter;
pub mod rate;
pub mod aggregate;
pub mod monitor;
pub mod series;
pub mod scale;
