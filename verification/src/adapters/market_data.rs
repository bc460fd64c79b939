//! What the market data bridge decides: which exchange data is published, and
//! the statistics it reports.
use vstd::prelude::*;

use crate::types::{ExchangeData, Quote, Trade};

verus! {

/// Market data processing statistics.
#[derive(Debug, Clone, Copy)]
pub struct MarketDataStats {
    pub trades_processed: u64,
    pub quotes_processed: u64,
    pub total_events: u64,
    pub uptime: std::time::Duration,
}

impl MarketDataStats {
    /// The statistics of a processor that has handled `trades` trades and `quotes`
    /// quotes: the events are both together.
    pub fn from_counts(trades: u64, quotes: u64, uptime: std::time::Duration) -> (r: MarketDataStats)
        requires
            trades + quotes <= u64::MAX,
        ensures
            r.trades_processed == trades,
            r.quotes_processed == quotes,
            r.total_events == trades + quotes,
            r.uptime == uptime,
    {
        MarketDataStats {
            trades_processed: trades,
            quotes_processed: quotes,
            total_events: trades + quotes,
            uptime,
        }
    }
}

/// What the hub does with data from an exchange.
pub enum BridgeAction {
    /// Publish the trade to the event bus.
    PublishTrade(Trade),
    /// Publish the quote to the event bus.
    PublishQuote(Quote),
    /// Nothing is published for order books and metadata.
    Skip,
}

/// Trades and quotes are published; order books and metadata are not.
pub fn bridge_action(data: ExchangeData) -> (r: BridgeAction)
    ensures
        match data {
            ExchangeData::Trade(t) => r matches BridgeAction::PublishTrade(x) && x == t,
            ExchangeData::Quote(q) => r matches BridgeAction::PublishQuote(x) && x == q,
            _ => r is Skip,
        },
{
    match data {
        ExchangeData::Trade(t) => BridgeAction::PublishTrade(t),
        ExchangeData::Quote(q) => BridgeAction::PublishQuote(q),
        ExchangeData::OrderBook(_) => BridgeAction::Skip,
        ExchangeData::Metadata(_) => BridgeAction::Skip,
    }
}

} // verus!
