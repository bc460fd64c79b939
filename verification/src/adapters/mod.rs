//! Adapters for integrating with external systems.
pub mod market_data;

pub use market_data::MarketDataStats;
