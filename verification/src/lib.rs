//! A price monitor for a single trading pair: exact fixed-point prices, the
//! relative-change alert rule, and the polling loop's decisions.

pub mod decimal;
pub mod monitor;
pub mod polling;
pub mod price;
pub mod ticker;
