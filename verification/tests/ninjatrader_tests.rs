use exchange_connection_hub::protocols::base::{ConnectionFactory, ExchangeConnectionKind, ExchangeFeature};
use exchange_connection_hub::protocols::ninjatrader::{
    decode_message, decode_order_book, decode_quote, decode_trade, FrameBuffer,
    NinjaTraderConnection, NinjaTraderFactory,
};
use exchange_connection_hub::protocols::ProtocolError;
use exchange_connection_hub::types::{ConnectionHealth, ExchangeData, ExchangeId, Price, TradeSide};
use exchange_connection_hub::ExchangeConfig;

fn trade_message() -> Vec<u8> {
    let mut message = vec![0x01]; // Trade message type
    message.extend_from_slice(b"ES\0\0\0\0\0"); // Symbol
    message.extend_from_slice(&4500.25f64.to_le_bytes()); // Price
    message.extend_from_slice(&1u32.to_le_bytes()); // Quantity
    message
}

fn quote_message() -> Vec<u8> {
    let mut message = vec![0x02]; // Quote message type
    message.extend_from_slice(b"ES\0\0\0\0\0"); // Symbol
    message.extend_from_slice(&4500.25f64.to_le_bytes()); // Bid price
    message.extend_from_slice(&4500.50f64.to_le_bytes()); // Ask price
    message.extend_from_slice(&10u32.to_le_bytes()); // Bid quantity
    message.extend_from_slice(&5u32.to_le_bytes()); // Ask quantity
    message
}

fn price(x: f64) -> Price {
    Price::from_bits(x.to_bits())
}

#[test]
fn test_parse_trade() {
    let config = ExchangeConfig::ninjatrader("127.0.0.1:7496");
    let connection = NinjaTraderConnection::new(config);

    let message = trade_message();
    let result = connection.parse_message(&message);
    assert!(result.is_ok());

    if let Ok(ExchangeData::Trade(trade)) = result {
        assert_eq!(trade.price, price(4500.25));
        assert_eq!(trade.quantity, 1);
    }
}

#[test]
fn test_parse_quote() {
    let config = ExchangeConfig::ninjatrader("127.0.0.1:7496");
    let connection = NinjaTraderConnection::new(config);

    let message = quote_message();
    let result = connection.parse_message(&message);
    assert!(result.is_ok());

    if let Ok(ExchangeData::Quote(quote)) = result {
        assert_eq!(quote.bid_price, price(4500.25));
        assert_eq!(quote.ask_price, price(4500.50));
        assert_eq!(quote.bid_quantity, 10);
        assert_eq!(quote.ask_quantity, 5);
    }
}

#[test]
fn test_ninjatrader_protocol_parsing() {
    let config = ExchangeConfig::ninjatrader("127.0.0.1:7496");
    let connection = NinjaTraderConnection::new(config);

    let trade_message = trade_message();
    let result = connection.parse_message(&trade_message);
    assert!(result.is_ok());
    if let Ok(ExchangeData::Trade(trade)) = result {
        assert_eq!(trade.price, price(4500.25));
        assert_eq!(trade.quantity, 1);
    }

    let quote_message = quote_message();
    let result = connection.parse_message(&quote_message);
    assert!(result.is_ok());
    if let Ok(ExchangeData::Quote(quote)) = result {
        assert_eq!(quote.bid_price, price(4500.25));
        assert_eq!(quote.ask_price, price(4500.50));
        assert_eq!(quote.bid_quantity, 10);
        assert_eq!(quote.ask_quantity, 5);
    }
}

#[test]
fn trade_fields_are_decoded_exactly() {
    let r = decode_message(&trade_message(), 77).unwrap();
    match r {
        ExchangeData::Trade(t) => {
            assert_eq!(t.symbol, "ES");
            assert_eq!(t.price, price(4500.25));
            assert_eq!(t.quantity, 1);
            assert_eq!(t.timestamp, 77);
            assert_eq!(t.trade_id, 0);
            assert_eq!(t.side, TradeSide::Buy);
        }
        other => panic!("unexpected {:?}", other),
    }
}

#[test]
fn quote_fields_are_decoded_exactly() {
    let r = decode_message(&quote_message(), 5).unwrap();
    match r {
        ExchangeData::Quote(q) => {
            assert_eq!(q.symbol, "ES");
            assert_eq!(q.bid_price, price(4500.25));
            assert_eq!(q.ask_price, price(4500.5));
            assert_eq!(q.bid_quantity, 10);
            assert_eq!(q.ask_quantity, 5);
            assert_eq!(q.timestamp, 5);
        }
        other => panic!("unexpected {:?}", other),
    }
}

#[test]
fn multi_byte_little_endian_quantity() {
    let mut m = trade_message();
    let n = m.len();
    m[n - 4..].copy_from_slice(&0x0102_0304u32.to_le_bytes());
    match decode_message(&m, 0).unwrap() {
        ExchangeData::Trade(t) => assert_eq!(t.quantity, 0x0102_0304),
        other => panic!("unexpected {:?}", other),
    }
}

#[test]
fn full_symbol_without_padding() {
    let mut m = vec![0x01];
    m.extend_from_slice(b"ABCDEFG");
    m.extend_from_slice(&1.5f64.to_le_bytes());
    m.extend_from_slice(&3u32.to_le_bytes());
    match decode_message(&m, 0).unwrap() {
        ExchangeData::Trade(t) => assert_eq!(t.symbol, "ABCDEFG"),
        other => panic!("unexpected {:?}", other),
    }
}

#[test]
fn message_too_short() {
    assert_eq!(decode_message(&[0x01, 0, 0], 0), Err(ProtocolError::MessageTooShort));
    assert_eq!(decode_message(&[], 0), Err(ProtocolError::MessageTooShort));
}

#[test]
fn unknown_message_type() {
    assert_eq!(decode_message(&[0x09, 0, 0, 0], 0), Err(ProtocolError::UnknownMessageType(9)));
}

#[test]
fn trade_and_quote_too_short() {
    let m = trade_message();
    assert_eq!(decode_message(&m[..m.len() - 1], 0), Err(ProtocolError::TradeTooShort));
    let q = quote_message();
    assert_eq!(decode_message(&q[..q.len() - 1], 0), Err(ProtocolError::QuoteTooShort));
    assert_eq!(decode_trade(&[0u8; 18], 0), Err(ProtocolError::TradeTooShort));
    assert_eq!(decode_quote(&[0u8; 30], 0), Err(ProtocolError::QuoteTooShort));
}

#[test]
fn invalid_symbol() {
    let mut m = trade_message();
    m[1] = 0xff;
    assert_eq!(decode_message(&m, 0), Err(ProtocolError::InvalidSymbol));
}

#[test]
fn order_book_is_empty_snapshot() {
    let r = decode_message(&[0x03, 1, 2, 3, 4], 9).unwrap();
    match r {
        ExchangeData::OrderBook(b) => {
            assert_eq!(b.instrument_id, 1);
            assert!(b.bids.is_empty());
            assert!(b.asks.is_empty());
            assert_eq!(b.timestamp, 9);
            assert_eq!(b.sequence, 0);
        }
        other => panic!("unexpected {:?}", other),
    }
    assert!(decode_order_book(&[], 3).is_ok());
}

#[test]
fn frames_come_out_whole_and_in_order() {
    let payload = trade_message();
    let mut buf = FrameBuffer::new();
    let mut bytes = (payload.len() as u32).to_le_bytes().to_vec();
    bytes.extend_from_slice(&payload);
    bytes.extend_from_slice(&3u32.to_le_bytes());
    bytes.extend_from_slice(&[7, 8]);
    buf.extend(&bytes[..10]);
    assert_eq!(buf.next_frame(), None);
    assert_eq!(buf.len(), 10);
    buf.extend(&bytes[10..]);
    assert_eq!(buf.next_frame(), Some(payload));
    assert_eq!(buf.next_frame(), None);
    assert_eq!(buf.len(), 6);
    buf.extend(&[9]);
    assert_eq!(buf.next_frame(), Some(vec![7, 8, 9]));
    assert_eq!(buf.len(), 0);
    assert_eq!(buf.next_frame(), None);
}

#[test]
fn empty_frame() {
    let mut buf = FrameBuffer::new();
    buf.extend(&[0, 0, 0, 0, 1]);
    assert_eq!(buf.next_frame(), Some(vec![]));
    assert_eq!(buf.len(), 1);
}

#[test]
fn process_frame_counts_messages_and_errors() {
    let mut c = NinjaTraderConnection::new(ExchangeConfig::ninjatrader("127.0.0.1:7496"));
    let payload = trade_message();
    assert!(c.can_take_frame(payload.len()));
    let d = c.process_frame_at(&payload, 42);
    assert!(matches!(d, Some(ExchangeData::Trade(_))));
    let s = c.get_stats();
    assert_eq!(s.messages_received, 1);
    assert_eq!(s.bytes_received, payload.len() as u64);
    assert_eq!(s.last_message_time, Some(42));
    assert_eq!(s.error_count, 0);
    assert_eq!(c.process_frame(&[0x07, 0, 0, 0]), None);
    let s = c.get_stats();
    assert_eq!(s.messages_received, 1);
    assert_eq!(s.error_count, 1);
}

#[test]
fn connection_state_and_orders() {
    let mut c = NinjaTraderConnection::new(ExchangeConfig::ninjatrader("127.0.0.1:7496"));
    assert!(!c.is_connected());
    assert_eq!(c.health_check(), ConnectionHealth::Disconnected);
    c.mark_connected();
    assert!(c.is_connected());
    assert_eq!(c.health_check(), ConnectionHealth::Healthy);
    assert!(c.get_stats().connection_time.is_some());
    assert!(c.subscribe_market_data(&["ES".to_string()]).is_ok());
    assert!(c.unsubscribe_market_data(&["ES".to_string()]).is_ok());
    assert!(c.cancel_order("x".to_string()).is_err());
    c.disconnect();
    assert!(!c.is_connected());
    assert_eq!(c.exchange_id(), ExchangeId::NinjaTrader);
    assert_eq!(c.config().connection_string, "127.0.0.1:7496");
}

#[test]
fn factory_creates_ninjatrader_connections() {
    let f = NinjaTraderFactory::new();
    assert_eq!(f.exchange_id(), ExchangeId::NinjaTrader);
    assert_eq!(f.supported_features(), vec![ExchangeFeature::MarketData]);
    match f.create_connection(ExchangeConfig::ninjatrader("1.2.3.4:5")) {
        Ok(ExchangeConnectionKind::NinjaTrader(c)) => {
            assert_eq!(c.config().connection_string, "1.2.3.4:5");
            assert!(!c.is_connected());
        }
        _ => panic!("expected a NinjaTrader connection"),
    }
}

fn framed(payloads: &[Vec<u8>]) -> Vec<u8> {
    let mut out = Vec::new();
    for p in payloads {
        out.extend_from_slice(&(p.len() as u32).to_le_bytes());
        out.extend_from_slice(p);
    }
    out
}

#[test]
fn take_ready_frames_takes_every_complete_frame() {
    let payloads = vec![vec![1u8, 2, 3], vec![], vec![9u8; 40]];
    let mut stream = framed(&payloads);
    stream.extend_from_slice(&[5, 0, 0, 0, 1, 2]); // a frame still arriving
    let mut buf = FrameBuffer::new();
    buf.extend(&stream);
    assert_eq!(buf.take_ready_frames(), payloads);
    assert_eq!(buf.len(), 6);
    assert_eq!(buf.take_ready_frames(), Vec::<Vec<u8>>::new());
    buf.extend(&[3, 4, 5]);
    assert_eq!(buf.take_ready_frames(), vec![vec![1u8, 2, 3, 4, 5]]);
    assert_eq!(buf.len(), 0);
}

#[test]
fn frames_do_not_depend_on_how_reads_split_the_stream() {
    let payloads = vec![vec![1u8, 2, 3], vec![0x01; 20], vec![], vec![7u8]];
    let mut stream = framed(&payloads);
    stream.extend_from_slice(&[9, 0]);
    for chunk in 1..=stream.len() {
        let mut buf = FrameBuffer::new();
        let mut got = Vec::new();
        for read in stream.chunks(chunk) {
            buf.extend(read);
            got.extend(buf.take_ready_frames());
        }
        assert_eq!(got, payloads, "reads of {} bytes", chunk);
        assert_eq!(buf.len(), 2);
    }
}

#[test]
fn stream_statistics_count_decoded_bytes_and_errors() {
    let payloads = vec![trade_message(), vec![0x07, 1, 2], quote_message(), vec![], trade_message()];
    let decoded_bytes = (2 * trade_message().len() + quote_message().len()) as u64;
    let mut stream = framed(&payloads);
    stream.extend_from_slice(&[200, 0, 0]); // an incomplete frame, dropped at the end
    for chunk in [1usize, 3, 7, stream.len()] {
        let mut c = NinjaTraderConnection::new(ExchangeConfig::ninjatrader("127.0.0.1:7496"));
        let mut buf = FrameBuffer::new();
        let mut forwarded = 0;
        for read in stream.chunks(chunk) {
            buf.extend(read);
            for payload in buf.take_ready_frames() {
                assert!(c.can_take_frame(payload.len()));
                if c.process_frame(&payload).is_some() {
                    forwarded += 1;
                }
            }
        }
        let stats = c.get_stats();
        assert_eq!(forwarded, 3);
        assert_eq!(stats.messages_received, 3);
        assert_eq!(stats.bytes_received, decoded_bytes);
        assert_eq!(stats.error_count, 2);
        assert_eq!(buf.len(), 3);
    }
}
