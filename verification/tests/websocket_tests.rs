use exchange_connection_hub::json::JsonValue;
use exchange_connection_hub::protocols::base::{ConnectionFactory, ExchangeConnectionKind, FactoryError};
use exchange_connection_hub::protocols::websocket::{
    decode_json_text, WebSocketConnection, WebSocketFactory, WsEvent, WsStep,
};
use exchange_connection_hub::protocols::{JsonField, JsonMessageKind, ProtocolError};
use exchange_connection_hub::types::{ConnectionHealth, ExchangeData, ExchangeId, Price, PriceLevel};
use exchange_connection_hub::ExchangeConfig;

fn price(x: f64) -> Price {
    Price::from_bits(x.to_bits())
}

const TRADE_JSON: &str = r#"
{
    "type": "trade",
    "symbol": "BTCUSDT",
    "price": 45000.5,
    "quantity": 100000000
}
"#;

const QUOTE_JSON: &str = r#"
{
    "type": "quote",
    "symbol": "BTCUSDT",
    "bid_price": 45000.0,
    "ask_price": 45001.0,
    "bid_quantity": 100000000,
    "ask_quantity": 50000000
}
"#;

#[test]
fn test_parse_trade_json() {
    let config = ExchangeConfig::websocket("test", "ws://localhost:8080");
    let connection = WebSocketConnection::new(config, "test".to_string());

    let result = connection.parse_json_message(TRADE_JSON);
    assert!(result.is_ok());

    if let Ok(ExchangeData::Trade(trade)) = result {
        assert_eq!(trade.price, price(45000.5));
        assert_eq!(trade.quantity, 100000000);
    }
}

#[test]
fn test_parse_quote_json() {
    let config = ExchangeConfig::websocket("test", "ws://localhost:8080");
    let connection = WebSocketConnection::new(config, "test".to_string());

    let result = connection.parse_json_message(QUOTE_JSON);
    assert!(result.is_ok());

    if let Ok(ExchangeData::Quote(quote)) = result {
        assert_eq!(quote.bid_price, price(45000.0));
        assert_eq!(quote.ask_price, price(45001.0));
        assert_eq!(quote.bid_quantity, 100000000);
        assert_eq!(quote.ask_quantity, 50000000);
    }
}

#[test]
fn test_websocket_protocol_parsing() {
    let config = ExchangeConfig::websocket("test", "ws://localhost:8080");
    let connection = WebSocketConnection::new(config, "test".to_string());

    let result = connection.parse_json_message(TRADE_JSON);
    assert!(result.is_ok());
    if let Ok(ExchangeData::Trade(trade)) = result {
        assert_eq!(trade.price, price(45000.5));
        assert_eq!(trade.quantity, 100000000);
    }

    let result = connection.parse_json_message(QUOTE_JSON);
    assert!(result.is_ok());
    if let Ok(ExchangeData::Quote(quote)) = result {
        assert_eq!(quote.bid_price, price(45000.0));
        assert_eq!(quote.ask_price, price(45001.0));
        assert_eq!(quote.bid_quantity, 100000000);
        assert_eq!(quote.ask_quantity, 50000000);
    }
}

#[test]
fn trade_json_fields_exactly() {
    match decode_json_text(TRADE_JSON, 11).unwrap() {
        ExchangeData::Trade(t) => {
            assert_eq!(t.symbol, "BTCUSDT");
            assert_eq!(t.timestamp, 11);
            assert_eq!(t.trade_id, 0);
        }
        other => panic!("unexpected {:?}", other),
    }
}

#[test]
fn integer_price_reads_as_double() {
    let r = decode_json_text(r#"{"type":"trade","symbol":"A","price":3,"quantity":2}"#, 0).unwrap();
    match r {
        ExchangeData::Trade(t) => {
            assert_eq!(t.price, price(3.0));
            assert_eq!(t.quantity, 2);
        }
        other => panic!("unexpected {:?}", other),
    }
}

#[test]
fn quantity_truncates_to_u32() {
    let r = decode_json_text(r#"{"type":"trade","symbol":"A","price":1.0,"quantity":4294967297}"#, 0)
        .unwrap();
    match r {
        ExchangeData::Trade(t) => assert_eq!(t.quantity, 1),
        other => panic!("unexpected {:?}", other),
    }
}

#[test]
fn missing_and_mistyped_fields() {
    assert_eq!(
        decode_json_text(r#"{"type":"trade","price":1.0,"quantity":1}"#, 0),
        Err(ProtocolError::MissingField(JsonMessageKind::Trade, JsonField::Symbol))
    );
    assert_eq!(
        decode_json_text(r#"{"type":"trade","symbol":"A","price":"x","quantity":1}"#, 0),
        Err(ProtocolError::MissingField(JsonMessageKind::Trade, JsonField::Price))
    );
    assert_eq!(
        decode_json_text(r#"{"type":"trade","symbol":"A","price":1.0,"quantity":-1}"#, 0),
        Err(ProtocolError::MissingField(JsonMessageKind::Trade, JsonField::Quantity))
    );
    assert_eq!(
        decode_json_text(r#"{"type":"quote","symbol":"A","bid_price":1.0,"ask_price":2.0,"bid_quantity":1}"#, 0),
        Err(ProtocolError::MissingField(JsonMessageKind::Quote, JsonField::AskQuantity))
    );
    assert_eq!(
        decode_json_text(r#"{"type":"quote","symbol":"A"}"#, 0),
        Err(ProtocolError::MissingField(JsonMessageKind::Quote, JsonField::BidPrice))
    );
    assert_eq!(
        decode_json_text(r#"{"type":"orderbook"}"#, 0),
        Err(ProtocolError::MissingField(JsonMessageKind::OrderBook, JsonField::Symbol))
    );
}

#[test]
fn unknown_and_missing_type() {
    assert_eq!(
        decode_json_text(r#"{"type":"news"}"#, 0),
        Err(ProtocolError::UnknownJsonMessageType("news".to_string()))
    );
    assert_eq!(
        decode_json_text(r#"{"symbol":"A"}"#, 0),
        Err(ProtocolError::UnknownJsonMessageType("unknown".to_string()))
    );
    assert_eq!(
        decode_json_text(r#"[1, 2]"#, 0),
        Err(ProtocolError::UnknownJsonMessageType("unknown".to_string()))
    );
}

#[test]
fn invalid_json() {
    assert_eq!(decode_json_text("{not json", 0), Err(ProtocolError::InvalidJson));
}

#[test]
fn order_book_levels() {
    let text = r#"{"type":"order_book","symbol":"A",
        "bids":[{"price":1.5,"quantity":2},{"price":"bad","quantity":3},{"price":1.0,"quantity":4}],
        "asks":[{"quantity":1},{"price":2.5,"quantity":7}]}"#;
    match decode_json_text(text, 8).unwrap() {
        ExchangeData::OrderBook(b) => {
            assert_eq!(
                b.bids,
                vec![
                    PriceLevel { price: price(1.5), quantity: 2, order_count: 1 },
                    PriceLevel { price: price(1.0), quantity: 4, order_count: 1 },
                ]
            );
            assert_eq!(b.asks, vec![PriceLevel { price: price(2.5), quantity: 7, order_count: 1 }]);
            assert_eq!(b.timestamp, 8);
            assert_eq!(b.instrument_id, 1);
        }
        other => panic!("unexpected {:?}", other),
    }
    match decode_json_text(r#"{"type":"orderbook","symbol":"A","bids":5}"#, 0).unwrap() {
        ExchangeData::OrderBook(b) => {
            assert!(b.bids.is_empty());
            assert!(b.asks.is_empty());
        }
        other => panic!("unexpected {:?}", other),
    }
}

#[test]
fn events_update_state() {
    let mut c = WebSocketConnection::new(ExchangeConfig::websocket("test", "ws://x"), "test".to_string());
    assert!(!c.is_connected());
    assert!(c.subscription_message(&["A".to_string()]).is_none());
    c.mark_connected();
    assert!(c.is_connected());
    assert_eq!(c.health_check(), ConnectionHealth::Healthy);

    let e = WsEvent::Text(TRADE_JSON.to_string());
    assert!(c.can_take_event(&e));
    match c.on_event_at(e, 3) {
        WsStep::Forward(ExchangeData::Trade(t)) => assert_eq!(t.timestamp, 3),
        _ => panic!("expected a trade"),
    }
    let s = c.get_stats();
    assert_eq!(s.messages_received, 1);
    assert_eq!(s.bytes_received, TRADE_JSON.len() as u64);
    assert_eq!(s.last_message_time, Some(3));

    assert!(matches!(c.on_event_at(WsEvent::Text("nope".to_string()), 4), WsStep::Continue));
    assert_eq!(c.get_stats().error_count, 1);
    assert!(matches!(c.on_event(WsEvent::Binary(10)), WsStep::Continue));
    assert_eq!(c.get_stats().messages_received, 2);
    assert_eq!(c.get_stats().bytes_received, TRADE_JSON.len() as u64 + 10);
    assert!(matches!(c.on_event(WsEvent::Other), WsStep::Continue));
    assert!(matches!(c.on_event(WsEvent::Error), WsStep::Stop));
    assert_eq!(c.get_stats().error_count, 2);
    assert!(matches!(c.on_event(WsEvent::Close), WsStep::Stop));

    c.disconnect();
    assert!(!c.is_connected());
    assert_eq!(c.health_check(), ConnectionHealth::Disconnected);
}

#[test]
fn subscription_request_document() {
    let mut c = WebSocketConnection::new(ExchangeConfig::websocket("test", "ws://x"), "test".to_string());
    c.mark_connected();
    let doc = c.subscription_message(&["A".to_string(), "B".to_string()]).unwrap();
    assert_eq!(doc.get("type"), Some(&JsonValue::String("subscribe".to_string())));
    assert_eq!(
        doc.get("symbols"),
        Some(&JsonValue::Array(vec![
            JsonValue::String("A".to_string()),
            JsonValue::String("B".to_string())
        ]))
    );
    let doc = c.unsubscription_message(&[]).unwrap();
    assert_eq!(doc.get("type"), Some(&JsonValue::String("unsubscribe".to_string())));
}

#[test]
fn factory_checks_the_exchange() {
    let f = WebSocketFactory::new();
    assert_eq!(f.exchange_id(), ExchangeId::WebSocket("generic".to_string()));
    match f.create_connection(ExchangeConfig::websocket("binance", "wss://x")) {
        Ok(ExchangeConnectionKind::WebSocket(c)) => {
            assert_eq!(c.exchange_name(), "binance");
            assert_eq!(c.exchange_id(), ExchangeId::WebSocket("binance".to_string()));
        }
        _ => panic!("expected a WebSocket connection"),
    }
    assert!(matches!(
        f.create_connection(ExchangeConfig::ninjatrader("x")),
        Err(FactoryError::InvalidExchangeId)
    ));
}

#[test]
fn taking_the_stream_leaves_the_connection_unconnected() {
    let mut c = WebSocketConnection::new(ExchangeConfig::websocket("test", "ws://x"), "test".to_string());
    c.mark_connected();
    assert!(c.is_connected());
    c.take_stream();
    assert!(!c.is_connected());
    assert_eq!(c.health_check(), ConnectionHealth::Disconnected);
    assert!(c.subscription_message(&["A".to_string()]).is_none());
    assert_eq!(c.exchange_id(), ExchangeId::WebSocket("test".to_string()));
    assert_eq!(c.get_stats().messages_received, 0);
}
