use exchange_connection_hub::adapters::market_data::{bridge_action, BridgeAction, MarketDataStats};
use exchange_connection_hub::protocols::base::{BaseExchangeConnection, ConnectionStats, ReconnectError};
use exchange_connection_hub::protocols::ReconnectHandler;
use exchange_connection_hub::types::{ExchangeData, ExchangeId, InstrumentMetadata, Price, Quote};
use exchange_connection_hub::ExchangeConfig;

#[test]
fn reconnect_backoff_doubles() {
    let mut h = ReconnectHandler::new(3, 5000);
    assert!(h.has_attempts_left());
    assert!(h.next_delay_fits());
    assert_eq!(h.begin_attempt(), Ok(5000));
    assert_eq!(h.begin_attempt(), Ok(10000));
    assert_eq!(h.begin_attempt(), Ok(20000));
    assert!(!h.has_attempts_left());
    assert_eq!(h.begin_attempt(), Err(ReconnectError::MaxAttemptsReached));
    h.reset();
    assert!(h.has_attempts_left());
    assert_eq!(h.begin_attempt(), Ok(5000));
}

#[test]
fn reconnect_without_attempts() {
    let mut h = ReconnectHandler::new(0, 1);
    assert!(!h.has_attempts_left());
    assert_eq!(h.begin_attempt(), Err(ReconnectError::MaxAttemptsReached));
}

#[test]
fn reconnect_delay_overflow_is_detected() {
    let h = ReconnectHandler::new(100, u64::MAX);
    assert!(h.next_delay_fits());
    let mut h = ReconnectHandler::new(100, u64::MAX / 2 + 1);
    assert_eq!(h.begin_attempt(), Ok(u64::MAX / 2 + 1));
    assert!(!h.next_delay_fits());
    let mut h = ReconnectHandler::new(100, 0);
    for _ in 0..64 {
        assert!(h.next_delay_fits());
        assert_eq!(h.begin_attempt(), Ok(0));
    }
    assert!(!h.next_delay_fits());
}

#[test]
fn base_connection_counters() {
    let mut b = BaseExchangeConnection::new(ExchangeId::NinjaTrader, ExchangeConfig::ninjatrader("x"));
    assert_eq!(b.get_stats(), ConnectionStats::default());
    assert!(!b.is_connected());
    b.set_connected_at(true, 5);
    assert!(b.is_connected());
    assert_eq!(b.get_stats().connection_time, Some(5));
    b.update_received_stats_at(10, 6);
    b.update_received_stats(4);
    b.update_sent_stats(7);
    b.increment_error_count();
    b.increment_reconnect_count();
    let s = b.get_stats();
    assert_eq!(s.messages_received, 2);
    assert_eq!(s.bytes_received, 14);
    assert_eq!(s.messages_sent, 1);
    assert_eq!(s.bytes_sent, 7);
    assert_eq!(s.error_count, 1);
    assert_eq!(s.reconnect_count, 1);
    assert!(s.last_message_time.is_some());
    b.set_connected(false);
    assert!(!b.is_connected());
    assert_eq!(b.get_stats().connection_time, Some(5));
    assert_eq!(b.exchange_id(), ExchangeId::NinjaTrader);
    assert_eq!(b.config().connection_string, "x");
}

#[test]
fn counter_limits() {
    let b = BaseExchangeConnection::new(ExchangeId::NinjaTrader, ExchangeConfig::ninjatrader("x"));
    assert!(b.can_record_received(usize::MAX));
    assert!(b.can_record_sent(0));
}

#[test]
fn market_data_stats_totals() {
    let s = MarketDataStats::from_counts(1, 1, std::time::Duration::from_secs(2));
    assert_eq!(s.trades_processed, 1);
    assert_eq!(s.quotes_processed, 1);
    assert_eq!(s.total_events, 2);
    assert_eq!(s.uptime, std::time::Duration::from_secs(2));
}

#[test]
fn only_trades_and_quotes_are_published() {
    let q = Quote {
        symbol: "ES".to_string(),
        bid_price: Price::from_bits(1),
        ask_price: Price::from_bits(2),
        bid_quantity: 3,
        ask_quantity: 4,
        timestamp: 5,
        exchange: 0,
    };
    assert!(matches!(bridge_action(ExchangeData::Quote(q)), BridgeAction::PublishQuote(x) if x.bid_quantity == 3));
    assert!(matches!(
        bridge_action(ExchangeData::Metadata(InstrumentMetadata { symbol: "ES".to_string() })),
        BridgeAction::Skip
    ));
}
