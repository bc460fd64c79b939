//! Exchange connection hub: protocol parsing, connection bookkeeping and
//! reconnection policy for market-data connections to trading venues.
pub mod assoc;
pub mod json;
pub mod types;
pub mod protocols;
pub mod registry;
pub mod manager;
pub mod adapters;

pub use types::{ExchangeConfig, ExchangeId};
