//! Generic WebSocket protocol: JSON market data messages.
//!
//! A message is a JSON object whose member `type` says what it carries:
//! `trade` (`symbol`, `price`, `quantity`), `quote` (`symbol`, `bid_price`,
//! `ask_price`, `bid_quantity`, `ask_quantity`) or `orderbook` / `order_book`
//! (`symbol`, and arrays `bids` and `asks` of objects with `price` and `quantity`).
use vstd::prelude::*;
use vstd::string::*;
use vstd::utf8::encode_utf8;

use crate::json::{
    JsonValue, json_as_array, json_as_f64_bits, json_as_str, json_as_u64, json_document, json_get,
    parse_json_document,
};
use crate::protocols::base::{
    BaseConnectionView, BaseExchangeConnection, ConnectionError, ConnectionFactory,
    ConnectionStats, ExchangeConnectionKind, ExchangeFeature, FactoryError, can_record_received,
    unix_time_nanos, zero_stats,
};
use crate::protocols::{
    JsonField, JsonMessageKind, ProtocolError, ProtocolErrorView, data_result, result_timestamp,
};
use crate::types::{
    ConnectionHealth, ExchangeConfig, ExchangeData, ExchangeDataView, ExchangeId, ExchangeIdView,
    OrderBookSnapshot, OrderBookView, OrderId, OrderRequest, Price, PriceLevel, Quote, QuoteView,
    Symbol, Trade, TradeSide, TradeView,
};

verus! {

/// The `type` of a message; `unknown` where it has no string `type`.
pub open spec fn json_type_tag(doc: JsonValue) -> Seq<char> {
    match json_as_str(json_get(doc, "type"@)) {
        Some(t) => t,
        None => "unknown"@,
    }
}

/// What a trade message decodes to.
pub open spec fn trade_json(doc: JsonValue, now: i64) -> Result<ExchangeDataView, ProtocolErrorView> {
    match json_as_str(json_get(doc, "symbol"@)) {
        None => Err(ProtocolErrorView::MissingField(JsonMessageKind::Trade, JsonField::Symbol)),
        Some(symbol) => match json_as_f64_bits(json_get(doc, "price"@)) {
            None => Err(ProtocolErrorView::MissingField(JsonMessageKind::Trade, JsonField::Price)),
            Some(price) => match json_as_u64(json_get(doc, "quantity"@)) {
                None => Err(
                    ProtocolErrorView::MissingField(JsonMessageKind::Trade, JsonField::Quantity),
                ),
                Some(quantity) => Ok(
                    ExchangeDataView::Trade(
                        TradeView {
                            symbol,
                            price: Price { f64_bits: price },
                            quantity: quantity as u32,
                            timestamp: now,
                            trade_id: 0,
                            side: TradeSide::Buy,
                            exchange: 0,
                            flags: 0,
                        },
                    ),
                ),
            },
        },
    }
}

/// What a quote message decodes to.
pub open spec fn quote_json(doc: JsonValue, now: i64) -> Result<ExchangeDataView, ProtocolErrorView> {
    let missing = |f: JsonField| ProtocolErrorView::MissingField(JsonMessageKind::Quote, f);
    match json_as_str(json_get(doc, "symbol"@)) {
        None => Err(missing(JsonField::Symbol)),
        Some(symbol) => match json_as_f64_bits(json_get(doc, "bid_price"@)) {
            None => Err(missing(JsonField::BidPrice)),
            Some(bid) => match json_as_f64_bits(json_get(doc, "ask_price"@)) {
                None => Err(missing(JsonField::AskPrice)),
                Some(ask) => match json_as_u64(json_get(doc, "bid_quantity"@)) {
                    None => Err(missing(JsonField::BidQuantity)),
                    Some(bid_quantity) => match json_as_u64(json_get(doc, "ask_quantity"@)) {
                        None => Err(missing(JsonField::AskQuantity)),
                        Some(ask_quantity) => Ok(
                            ExchangeDataView::Quote(
                                QuoteView {
                                    symbol,
                                    bid_price: Price { f64_bits: bid },
                                    ask_price: Price { f64_bits: ask },
                                    bid_quantity: bid_quantity as u32,
                                    ask_quantity: ask_quantity as u32,
                                    timestamp: now,
                                    exchange: 0,
                                },
                            ),
                        ),
                    },
                },
            },
        },
    }
}

/// The level an order book entry describes, where it has a `price` and a `quantity`.
pub open spec fn json_level(entry: JsonValue) -> Option<PriceLevel> {
    match (json_as_f64_bits(json_get(entry, "price"@)), json_as_u64(json_get(entry, "quantity"@))) {
        (Some(price), Some(quantity)) => Some(
            PriceLevel { price: Price { f64_bits: price }, quantity: quantity as u32, order_count: 1 },
        ),
        _ => None,
    }
}

/// The levels of the entries that describe one, in order.
pub open spec fn json_levels(entries: Seq<JsonValue>) -> Seq<PriceLevel>
    decreases entries.len(),
{
    if entries.len() == 0 {
        Seq::empty()
    } else {
        let before = json_levels(entries.drop_last());
        match json_level(entries.last()) {
            Some(level) => before.push(level),
            None => before,
        }
    }
}

/// The levels of one side of a book (none where the side is no array).
pub open spec fn json_side(doc: JsonValue, side: Seq<char>) -> Seq<PriceLevel> {
    match json_as_array(json_get(doc, side)) {
        Some(entries) => json_levels(entries),
        None => Seq::empty(),
    }
}

/// What an order book message decodes to.
pub open spec fn order_book_json(doc: JsonValue, now: i64) -> Result<
    ExchangeDataView,
    ProtocolErrorView,
> {
    match json_as_str(json_get(doc, "symbol"@)) {
        None => Err(ProtocolErrorView::MissingField(JsonMessageKind::OrderBook, JsonField::Symbol)),
        Some(_) => Ok(
            ExchangeDataView::OrderBook(
                OrderBookView {
                    instrument_id: 1,
                    bids: json_side(doc, "bids"@),
                    asks: json_side(doc, "asks"@),
                    timestamp: now,
                    sequence: 0,
                },
            ),
        ),
    }
}

/// What a parsed document decodes to.
pub open spec fn json_message_data(doc: JsonValue, now: i64) -> Result<
    ExchangeDataView,
    ProtocolErrorView,
> {
    let tag = json_type_tag(doc);
    if tag == "trade"@ {
        trade_json(doc, now)
    } else if tag == "quote"@ {
        quote_json(doc, now)
    } else if tag == "orderbook"@ || tag == "order_book"@ {
        order_book_json(doc, now)
    } else {
        Err(ProtocolErrorView::UnknownJsonMessageType(tag))
    }
}

/// What a text message decodes to: an error where it is no JSON.
pub open spec fn json_text_data(text: Seq<char>, now: i64) -> Result<
    ExchangeDataView,
    ProtocolErrorView,
> {
    match json_document(text) {
        None => Err(ProtocolErrorView::InvalidJson),
        Some(doc) => json_message_data(doc, now),
    }
}

/// Whether two strings read the same.
fn same_text(a: &String, b: &str) -> (r: bool)
    ensures
        r == (a@ == b@),
{
    *a == String::from_str(b)
}

/// The member `key` of `doc` as text.
fn member_str<'a>(doc: &'a JsonValue, key: &str) -> (r: Option<&'a String>)
    ensures
        match r {
            Some(s) => json_as_str(json_get(*doc, key@)) == Some(s@),
            None => json_as_str(json_get(*doc, key@)) is None,
        },
{
    match doc.get(key) {
        Some(v) => v.as_str(),
        None => None,
    }
}

/// The member `key` of `doc` as an unsigned integer.
fn member_u64(doc: &JsonValue, key: &str) -> (r: Option<u64>)
    ensures
        r == json_as_u64(json_get(*doc, key@)),
{
    match doc.get(key) {
        Some(v) => v.as_u64(),
        None => None,
    }
}

/// The member `key` of `doc` as the bits of a double.
fn member_f64_bits(doc: &JsonValue, key: &str) -> (r: Option<u64>)
    ensures
        r == json_as_f64_bits(json_get(*doc, key@)),
{
    match doc.get(key) {
        Some(v) => v.as_f64_bits(),
        None => None,
    }
}

/// Decodes a trade message received at `now`.
pub fn decode_trade_json(doc: &JsonValue, now: i64) -> (r: Result<ExchangeData, ProtocolError>)
    ensures
        data_result(r) == trade_json(*doc, now),
{
    let symbol = match member_str(doc, "symbol") {
        Some(s) => s,
        None => return Err(ProtocolError::MissingField(JsonMessageKind::Trade, JsonField::Symbol)),
    };
    let price = match member_f64_bits(doc, "price") {
        Some(p) => p,
        None => return Err(ProtocolError::MissingField(JsonMessageKind::Trade, JsonField::Price)),
    };
    let quantity = match member_u64(doc, "quantity") {
        Some(q) => q,
        None => return Err(
            ProtocolError::MissingField(JsonMessageKind::Trade, JsonField::Quantity),
        ),
    };
    Ok(
        ExchangeData::Trade(
            Trade {
                symbol: symbol.clone(),
                price: Price { f64_bits: price },
                quantity: quantity as u32,
                timestamp: now,
                trade_id: 0,
                side: TradeSide::Buy,
                exchange: 0,
                flags: 0,
            },
        ),
    )
}

/// Decodes a quote message received at `now`.
pub fn decode_quote_json(doc: &JsonValue, now: i64) -> (r: Result<ExchangeData, ProtocolError>)
    ensures
        data_result(r) == quote_json(*doc, now),
{
    let symbol = match member_str(doc, "symbol") {
        Some(s) => s,
        None => return Err(ProtocolError::MissingField(JsonMessageKind::Quote, JsonField::Symbol)),
    };
    let bid_price = match member_f64_bits(doc, "bid_price") {
        Some(p) => p,
        None => return Err(
            ProtocolError::MissingField(JsonMessageKind::Quote, JsonField::BidPrice),
        ),
    };
    let ask_price = match member_f64_bits(doc, "ask_price") {
        Some(p) => p,
        None => return Err(
            ProtocolError::MissingField(JsonMessageKind::Quote, JsonField::AskPrice),
        ),
    };
    let bid_quantity = match member_u64(doc, "bid_quantity") {
        Some(q) => q,
        None => return Err(
            ProtocolError::MissingField(JsonMessageKind::Quote, JsonField::BidQuantity),
        ),
    };
    let ask_quantity = match member_u64(doc, "ask_quantity") {
        Some(q) => q,
        None => return Err(
            ProtocolError::MissingField(JsonMessageKind::Quote, JsonField::AskQuantity),
        ),
    };
    Ok(
        ExchangeData::Quote(
            Quote {
                symbol: symbol.clone(),
                bid_price: Price { f64_bits: bid_price },
                ask_price: Price { f64_bits: ask_price },
                bid_quantity: bid_quantity as u32,
                ask_quantity: ask_quantity as u32,
                timestamp: now,
                exchange: 0,
            },
        ),
    )
}

/// The levels of one side of a book.
fn decode_side(doc: &JsonValue, side: &str) -> (r: Vec<PriceLevel>)
    ensures
        r@ == json_side(*doc, side@),
{
    let mut levels: Vec<PriceLevel> = Vec::new();
    let entries = match doc.get(side) {
        Some(v) => match v.as_array() {
            Some(a) => a,
            None => return levels,
        },
        None => return levels,
    };
    let mut i: usize = 0;
    while i < entries.len()
        invariant
            0 <= i <= entries.len(),
            levels@ == json_levels(entries@.subrange(0, i as int)),
        decreases entries.len() - i,
    {
        let entry = &entries[i];
        let price = member_f64_bits(entry, "price");
        let quantity = member_u64(entry, "quantity");
        assert(entries@.subrange(0, i + 1).drop_last() =~= entries@.subrange(0, i as int));
        if let (Some(p), Some(q)) = (price, quantity) {
            levels.push(PriceLevel { price: Price { f64_bits: p }, quantity: q as u32, order_count: 1 });
        }
        i = i + 1;
    }
    assert(entries@.subrange(0, entries.len() as int) =~= entries@);
    levels
}

/// Decodes an order book message received at `now`.
pub fn decode_order_book_json(doc: &JsonValue, now: i64) -> (r: Result<ExchangeData, ProtocolError>)
    ensures
        data_result(r) == order_book_json(*doc, now),
{
    if member_str(doc, "symbol").is_none() {
        return Err(ProtocolError::MissingField(JsonMessageKind::OrderBook, JsonField::Symbol));
    }
    let bids = decode_side(doc, "bids");
    let asks = decode_side(doc, "asks");
    Ok(
        ExchangeData::OrderBook(
            OrderBookSnapshot { instrument_id: 1, bids, asks, timestamp: now, sequence: 0 },
        ),
    )
}

/// Decodes a parsed message received at `now`, by its `type`.
pub fn decode_json_message(doc: &JsonValue, now: i64) -> (r: Result<ExchangeData, ProtocolError>)
    ensures
        data_result(r) == json_message_data(*doc, now),
{
    let tag = match member_str(doc, "type") {
        Some(t) => t.clone(),
        None => String::from_str("unknown"),
    };
    if same_text(&tag, "trade") {
        decode_trade_json(doc, now)
    } else if same_text(&tag, "quote") {
        decode_quote_json(doc, now)
    } else if same_text(&tag, "orderbook") || same_text(&tag, "order_book") {
        decode_order_book_json(doc, now)
    } else {
        Err(ProtocolError::UnknownJsonMessageType(tag))
    }
}

/// Decodes a text message received at `now`.
pub fn decode_json_text(text: &str, now: i64) -> (r: Result<ExchangeData, ProtocolError>)
    ensures
        data_result(r) == json_text_data(text@, now),
{
    match parse_json_document(text) {
        None => Err(ProtocolError::InvalidJson),
        Some(doc) => decode_json_message(&doc, now),
    }
}

/// Decoding a text message stamps it with the time of receipt and nothing else
/// depends on that time.
proof fn lemma_json_text_timestamp(text: Seq<char>, now: i64)
    ensures
        json_text_data(text, now) == json_text_data(
            text,
            result_timestamp(json_text_data(text, now)),
        ),
{
}

/// Something that happened on a WebSocket stream.
pub enum WsEvent {
    /// A text message.
    Text(String),
    /// A binary message of this many bytes.
    Binary(usize),
    /// The peer closed the stream.
    Close,
    /// The stream failed.
    Error,
    /// A control message (ping, pong, raw frame).
    Other,
}

/// What to do after an event.
pub enum WsStep {
    /// Pass decoded data on, and keep reading.
    Forward(ExchangeData),
    /// Keep reading.
    Continue,
    /// Stop reading.
    Stop,
}

/// The byte length of a text message.
pub open spec fn text_len(text: Seq<char>) -> usize {
    encode_utf8(text).len() as usize
}

/// Whether the counters can take the event.
pub open spec fn event_fits(stats: ConnectionStats, event: WsEvent) -> bool {
    match event {
        WsEvent::Text(t) => can_record_received(stats, text_len(t@)) && stats.error_count
            < u64::MAX,
        WsEvent::Binary(n) => can_record_received(stats, n),
        WsEvent::Error => stats.error_count < u64::MAX,
        _ => true,
    }
}

/// A WebSocket connection as plain values.
pub struct WebSocketView {
    pub base: BaseConnectionView,
    pub exchange_name: Seq<char>,
    pub stream_open: bool,
}

/// Statistics after one more received message of `len` bytes at `now`.
pub open spec fn received(base: BaseConnectionView, len: int, now: i64) -> BaseConnectionView {
    BaseConnectionView {
        stats: ConnectionStats {
            messages_received: (base.stats.messages_received + 1) as u64,
            bytes_received: (base.stats.bytes_received + len) as u64,
            last_message_time: Some(now),
            ..base.stats
        },
        ..base
    }
}

/// Statistics after one more error.
pub open spec fn errored(base: BaseConnectionView) -> BaseConnectionView {
    BaseConnectionView {
        stats: ConnectionStats { error_count: (base.stats.error_count + 1) as u64, ..base.stats },
        ..base
    }
}

/// Generic WebSocket connection: the connection state and the message decoding;
/// the stream itself is kept by the caller.
pub struct WebSocketConnection {
    base: BaseExchangeConnection,
    exchange_name: String,
    stream_open: bool,
}

impl View for WebSocketConnection {
    type V = WebSocketView;

    closed spec fn view(&self) -> WebSocketView {
        WebSocketView {
            base: self.base@,
            exchange_name: self.exchange_name@,
            stream_open: self.stream_open,
        }
    }
}

/// A subscription request: `{"type": kind, "symbols": [..symbols]}`.
pub open spec fn is_subscription(doc: JsonValue, kind: Seq<char>, symbols: Seq<Seq<char>>) -> bool {
    &&& doc matches JsonValue::Object(fields)
    &&& fields@.len() == 2
    &&& fields@[0].0@ == "type"@
    &&& fields@[0].1 matches JsonValue::String(k) && k@ == kind
    &&& fields@[1].0@ == "symbols"@
    &&& fields@[1].1 matches JsonValue::Array(a) && a@.len() == symbols.len() && forall|i: int|
        0 <= i < a@.len() ==> (#[trigger] a@[i] matches JsonValue::String(s) && s@ == symbols[i])
}

impl WebSocketConnection {
    /// The configuration the connection was made with.
    pub closed spec fn spec_config(&self) -> ExchangeConfig {
        self.base.spec_config()
    }

    /// Create a new WebSocket connection for the named exchange, not yet open.
    pub fn new(config: ExchangeConfig, exchange_name: String) -> (r: Self)
        ensures
            r@ == (WebSocketView {
                base: BaseConnectionView {
                    exchange_id: ExchangeIdView::WebSocket(exchange_name@),
                    stats: zero_stats(),
                    connected: false,
                },
                exchange_name: exchange_name@,
                stream_open: false,
            }),
            r.spec_config() == config,
    {
        let exchange_id = ExchangeId::WebSocket(exchange_name.clone());
        WebSocketConnection {
            base: BaseExchangeConnection::new(exchange_id, config),
            exchange_name,
            stream_open: false,
        }
    }

    /// The configuration.
    pub fn config(&self) -> (r: &ExchangeConfig)
        ensures
            *r == self.spec_config(),
    {
        self.base.config()
    }

    /// The name of the exchange.
    pub fn exchange_name(&self) -> (r: &String)
        ensures
            r@ == self@.exchange_name,
    {
        &self.exchange_name
    }

    /// Parse a text message, stamped with the clock's time of receipt.
    pub fn parse_json_message(&self, text: &str) -> (r: Result<ExchangeData, ProtocolError>)
        ensures
            data_result(r) == json_text_data(text@, result_timestamp(data_result(r))),
    {
        let now = unix_time_nanos();
        proof {
            lemma_json_text_timestamp(text@, now);
        }
        decode_json_text(text, now)
    }

    /// The stream is open: the connection is up.
    pub fn mark_connected(&mut self)
        ensures
            final(self)@.stream_open,
            final(self)@.exchange_name == old(self)@.exchange_name,
            final(self)@.base.exchange_id == old(self)@.base.exchange_id,
            final(self)@.base.connected,
            final(self)@.base.stats.connection_time is Some,
            final(self)@.base.stats == (ConnectionStats {
                connection_time: final(self)@.base.stats.connection_time,
                ..old(self)@.base.stats
            }),
            final(self).spec_config() == old(self).spec_config(),
    {
        self.stream_open = true;
        self.base.set_connected(true);
    }

    /// The reader has taken the stream: it is no longer held here, so the
    /// connection reads as not connected; all else is unchanged.
    pub fn take_stream(&mut self)
        ensures
            final(self)@ == (WebSocketView { stream_open: false, ..old(self)@ }),
            final(self).spec_config() == old(self).spec_config(),
    {
        self.stream_open = false;
    }

    /// Disconnect: the stream is dropped and the connection is down.
    pub fn disconnect(&mut self)
        ensures
            final(self)@ == (WebSocketView {
                base: BaseConnectionView { connected: false, ..old(self)@.base },
                stream_open: false,
                ..old(self)@
            }),
            final(self).spec_config() == old(self).spec_config(),
    {
        self.stream_open = false;
        self.base.set_connected(false);
    }

    /// Connected while the connection is up and its stream is open.
    pub fn is_connected(&self) -> (r: bool)
        ensures
            r == (self@.base.connected && self@.stream_open),
    {
        self.base.is_connected() && self.stream_open
    }

    /// Healthy while connected, disconnected otherwise.
    pub fn health_check(&self) -> (r: ConnectionHealth)
        ensures
            r == (if self@.base.connected && self@.stream_open {
                ConnectionHealth::Healthy
            } else {
                ConnectionHealth::Disconnected
            }),
    {
        if self.is_connected() {
            ConnectionHealth::Healthy
        } else {
            ConnectionHealth::Disconnected
        }
    }

    /// The request `{"type": kind, "symbols": [..]}`, while the stream is open.
    fn symbols_request(&self, kind: &str, symbols: &[Symbol]) -> (r: Option<JsonValue>)
        ensures
            self@.stream_open ==> (r matches Some(doc) && is_subscription(
                doc,
                kind@,
                symbols@.map_values(|s: Symbol| s@),
            )),
            !self@.stream_open ==> r is None,
    {
        if !self.stream_open {
            return None;
        }
        let mut list: Vec<JsonValue> = Vec::new();
        let mut i: usize = 0;
        while i < symbols.len()
            invariant
                0 <= i <= symbols.len(),
                list@.len() == i,
                forall|j: int|
                    0 <= j < i ==> (#[trigger] list@[j] matches JsonValue::String(s) && s@
                        == symbols@[j]@),
            decreases symbols.len() - i,
        {
            list.push(JsonValue::String(symbols[i].clone()));
            i = i + 1;
        }
        let mut fields: Vec<(String, JsonValue)> = Vec::new();
        fields.push((String::from_str("type"), JsonValue::String(String::from_str(kind))));
        fields.push((String::from_str("symbols"), JsonValue::Array(list)));
        Some(JsonValue::Object(fields))
    }

    /// The subscription request for `symbols`, while the stream is open.
    pub fn subscription_message(&self, symbols: &[Symbol]) -> (r: Option<JsonValue>)
        ensures
            self@.stream_open ==> (r matches Some(doc) && is_subscription(
                doc,
                "subscribe"@,
                symbols@.map_values(|s: Symbol| s@),
            )),
            !self@.stream_open ==> r is None,
    {
        self.symbols_request("subscribe", symbols)
    }

    /// The request to stop the data for `symbols`, while the stream is open.
    pub fn unsubscription_message(&self, symbols: &[Symbol]) -> (r: Option<JsonValue>)
        ensures
            self@.stream_open ==> (r matches Some(doc) && is_subscription(
                doc,
                "unsubscribe"@,
                symbols@.map_values(|s: Symbol| s@),
            )),
            !self@.stream_open ==> r is None,
    {
        self.symbols_request("unsubscribe", symbols)
    }

    /// Whether the counters can take the event.
    pub fn can_take_event(&self, event: &WsEvent) -> (r: bool)
        ensures
            r == event_fits(self@.base.stats, *event),
    {
        let stats = self.base.get_stats();
        match event {
            WsEvent::Text(t) => self.base.can_record_received(t.as_str().len()) && stats.error_count
                < u64::MAX,
            WsEvent::Binary(n) => self.base.can_record_received(*n),
            WsEvent::Error => stats.error_count < u64::MAX,
            _ => true,
        }
    }

    /// Handles one event of the stream, at `now`: a text message that decodes is
    /// counted and passed on, one that does not is counted as an error; a binary
    /// message is counted; a close stops; a failure is counted and stops; control
    /// messages change nothing.
    pub fn on_event_at(&mut self, event: WsEvent, now: i64) -> (r: WsStep)
        requires
            event_fits(old(self)@.base.stats, event),
        ensures
            final(self).spec_config() == old(self).spec_config(),
            final(self)@.exchange_name == old(self)@.exchange_name,
            final(self)@.stream_open == old(self)@.stream_open,
            match event {
                WsEvent::Text(t) => match json_text_data(t@, now) {
                    Ok(d) => r matches WsStep::Forward(x) && x@ == d && final(self)@.base == received(
                        old(self)@.base,
                        text_len(t@) as int,
                        now,
                    ),
                    Err(_) => r is Continue && final(self)@.base == errored(old(self)@.base),
                },
                WsEvent::Binary(n) => r is Continue && final(self)@.base == received(
                    old(self)@.base,
                    n as int,
                    now,
                ),
                WsEvent::Close => r is Stop && final(self)@ == old(self)@,
                WsEvent::Error => r is Stop && final(self)@.base == errored(old(self)@.base),
                WsEvent::Other => r is Continue && final(self)@ == old(self)@,
            },
    {
        match event {
            WsEvent::Text(text) => match decode_json_text(text.as_str(), now) {
                Ok(data) => {
                    let len = text.as_str().len();
                    assert(len == text_len(text@));
                    self.base.update_received_stats_at(len, now);
                    WsStep::Forward(data)
                },
                Err(_) => {
                    self.base.increment_error_count();
                    WsStep::Continue
                },
            },
            WsEvent::Binary(n) => {
                self.base.update_received_stats_at(n, now);
                WsStep::Continue
            },
            WsEvent::Close => WsStep::Stop,
            WsEvent::Error => {
                self.base.increment_error_count();
                WsStep::Stop
            },
            WsEvent::Other => WsStep::Continue,
        }
    }

    /// Handles one event of the stream at the clock's time.
    pub fn on_event(&mut self, event: WsEvent) -> (r: WsStep)
        requires
            event_fits(old(self)@.base.stats, event),
        ensures
            final(self).spec_config() == old(self).spec_config(),
            final(self)@.exchange_name == old(self)@.exchange_name,
            final(self)@.stream_open == old(self)@.stream_open,
            match event {
                WsEvent::Text(t) => match json_text_data(t@, 0) {
                    Ok(_) => (r matches WsStep::Forward(x) && final(self)@.base.stats.last_message_time is Some
                        && json_text_data(t@, final(self)@.base.stats.last_message_time->0) == Ok::<
                        ExchangeDataView,
                        ProtocolErrorView,
                    >(x@) && final(self)@.base == received(
                        old(self)@.base,
                        text_len(t@) as int,
                        final(self)@.base.stats.last_message_time->0,
                    )),
                    Err(_) => r is Continue && final(self)@.base == errored(old(self)@.base),
                },
                WsEvent::Binary(n) => (final(self)@.base.stats.last_message_time is Some && r is Continue
                    && final(self)@.base == received(
                    old(self)@.base,
                    n as int,
                    final(self)@.base.stats.last_message_time->0,
                )),
                WsEvent::Close => r is Stop && final(self)@ == old(self)@,
                WsEvent::Error => r is Stop && final(self)@.base == errored(old(self)@.base),
                WsEvent::Other => r is Continue && final(self)@ == old(self)@,
            },
    {
        let now = unix_time_nanos();
        proof {
            if event is Text {
                lemma_json_text_timestamp(event->Text_0@, now);
                lemma_json_text_timestamp(event->Text_0@, 0);
            }
        }
        self.on_event_at(event, now)
    }

    /// Orders are not executed over a generic WebSocket: always refused.
    pub fn submit_order(&mut self, order: OrderRequest) -> (r: Result<OrderId, ConnectionError>)
        ensures
            r == Err::<OrderId, ConnectionError>(ConnectionError::OrderExecutionUnsupported),
            final(self)@ == old(self)@,
    {
        Err(ConnectionError::OrderExecutionUnsupported)
    }

    /// Orders are not executed over a generic WebSocket: always refused.
    pub fn cancel_order(&mut self, order_id: OrderId) -> (r: Result<(), ConnectionError>)
        ensures
            r == Err::<(), ConnectionError>(ConnectionError::OrderExecutionUnsupported),
            final(self)@ == old(self)@,
    {
        Err(ConnectionError::OrderExecutionUnsupported)
    }

    pub fn exchange_id(&self) -> (r: ExchangeId)
        ensures
            r@ == self@.base.exchange_id,
    {
        self.base.exchange_id()
    }

    pub fn get_stats(&self) -> (r: ConnectionStats)
        ensures
            r == self@.base.stats,
    {
        self.base.get_stats()
    }
}

/// A fresh connection for the WebSocket exchange `config` names, or an error
/// when it names another exchange.
pub open spec fn websocket_created(
    r: Result<ExchangeConnectionKind, FactoryError>,
    config: ExchangeConfig,
) -> bool {
    match config.exchange_id@ {
        ExchangeIdView::WebSocket(name) => r matches Ok(ExchangeConnectionKind::WebSocket(c))
            && c@ == (WebSocketView {
            base: BaseConnectionView {
                exchange_id: ExchangeIdView::WebSocket(name),
                stats: zero_stats(),
                connected: false,
            },
            exchange_name: name,
            stream_open: false,
        }) && c.spec_config() == config,
        _ => r == Err::<ExchangeConnectionKind, FactoryError>(FactoryError::InvalidExchangeId),
    }
}

/// Factory for creating WebSocket connections.
pub struct WebSocketFactory;

impl WebSocketFactory {
    pub fn new() -> (r: Self) {
        WebSocketFactory
    }
}

impl ConnectionFactory for WebSocketFactory {
    /// A connection for the WebSocket exchange the configuration names; an error
    /// for a configuration of any other exchange.
    fn create_connection(&self, config: ExchangeConfig) -> (r: Result<
        ExchangeConnectionKind,
        FactoryError,
    >)
        ensures
            websocket_created(r, config),
    {
        let name = match &config.exchange_id {
            ExchangeId::WebSocket(name) => name.clone(),
            _ => return Err(FactoryError::InvalidExchangeId),
        };
        Ok(ExchangeConnectionKind::WebSocket(WebSocketConnection::new(config, name)))
    }

    fn exchange_id(&self) -> (r: ExchangeId)
        ensures
            r@ == ExchangeIdView::WebSocket("generic"@),
    {
        ExchangeId::WebSocket(String::from_str("generic"))
    }

    fn supported_features(&self) -> (r: Vec<ExchangeFeature>)
        ensures
            r@ == seq![ExchangeFeature::MarketData],
    {
        let mut v = Vec::new();
        v.push(ExchangeFeature::MarketData);
        assert(v@ =~= seq![ExchangeFeature::MarketData]);
        v
    }
}

/// Whether an order book entry has a numeric `price` and an unsigned `quantity`.
pub open spec fn entry_has_level(entry: JsonValue) -> bool {
    json_as_f64_bits(json_get(entry, "price"@)) is Some && json_as_u64(json_get(entry, "quantity"@))
        is Some
}

/// The tags of the message kinds differ from one another and from the tag of a
/// message without a string `type`.
proof fn lemma_tags_differ()
    ensures
        "trade"@ != "quote"@,
        "trade"@ != "orderbook"@,
        "trade"@ != "order_book"@,
        "quote"@ != "orderbook"@,
        "quote"@ != "order_book"@,
        "unknown"@ != "trade"@,
        "unknown"@ != "quote"@,
        "unknown"@ != "orderbook"@,
        "unknown"@ != "order_book"@,
{
    reveal_strlit("trade");
    reveal_strlit("quote");
    reveal_strlit("orderbook");
    reveal_strlit("order_book");
    reveal_strlit("unknown");
    assert("trade"@[0] != "quote"@[0]);
    assert("trade"@.len() != "orderbook"@.len());
    assert("trade"@.len() != "order_book"@.len());
    assert("quote"@.len() != "orderbook"@.len());
    assert("quote"@.len() != "order_book"@.len());
    assert("unknown"@.len() != "trade"@.len());
    assert("unknown"@.len() != "quote"@.len());
    assert("unknown"@.len() != "orderbook"@.len());
    assert("unknown"@.len() != "order_book"@.len());
}

/// A trade decoded from a document carries the document's own members: its
/// symbol is the text of `symbol`, its price the double of `price`, its quantity
/// the unsigned `quantity` cut to 32 bits, and it is stamped with the time of
/// receipt. A document whose `type` is `trade` and that has these three members
/// always decodes to a trade, and only such a document does.
pub proof fn law_json_trade_carries_its_members(doc: JsonValue, now: i64)
    ensures
        json_message_data(doc, now) matches Ok(ExchangeDataView::Trade(t)) ==> {
            &&& json_as_str(json_get(doc, "type"@)) == Some("trade"@)
            &&& json_as_str(json_get(doc, "symbol"@)) == Some(t.symbol)
            &&& json_as_f64_bits(json_get(doc, "price"@)) == Some(t.price.f64_bits)
            &&& json_as_u64(json_get(doc, "quantity"@)) matches Some(q) && t.quantity == q as u32
            &&& t.timestamp == now
        },
        json_as_str(json_get(doc, "type"@)) == Some("trade"@) && json_as_str(json_get(doc, "symbol"@))
            is Some && json_as_f64_bits(json_get(doc, "price"@)) is Some && json_as_u64(
            json_get(doc, "quantity"@),
        ) is Some ==> json_message_data(doc, now) is Ok,
{
    lemma_tags_differ();
}

/// A quote decoded from a document carries the document's own members: its
/// symbol is the text of `symbol`, its prices the doubles of `bid_price` and
/// `ask_price`, its quantities the unsigned `bid_quantity` and `ask_quantity` cut
/// to 32 bits, and it is stamped with the time of receipt. A document whose
/// `type` is `quote` and that has these five members always decodes to a quote,
/// and only such a document does.
pub proof fn law_json_quote_carries_its_members(doc: JsonValue, now: i64)
    ensures
        json_message_data(doc, now) matches Ok(ExchangeDataView::Quote(q)) ==> {
            &&& json_as_str(json_get(doc, "type"@)) == Some("quote"@)
            &&& json_as_str(json_get(doc, "symbol"@)) == Some(q.symbol)
            &&& json_as_f64_bits(json_get(doc, "bid_price"@)) == Some(q.bid_price.f64_bits)
            &&& json_as_f64_bits(json_get(doc, "ask_price"@)) == Some(q.ask_price.f64_bits)
            &&& json_as_u64(json_get(doc, "bid_quantity"@)) matches Some(b) && q.bid_quantity
                == b as u32
            &&& json_as_u64(json_get(doc, "ask_quantity"@)) matches Some(a) && q.ask_quantity
                == a as u32
            &&& q.timestamp == now
        },
        json_as_str(json_get(doc, "type"@)) == Some("quote"@) && json_as_str(json_get(doc, "symbol"@))
            is Some && json_as_f64_bits(json_get(doc, "bid_price"@)) is Some && json_as_f64_bits(
            json_get(doc, "ask_price"@),
        ) is Some && json_as_u64(json_get(doc, "bid_quantity"@)) is Some && json_as_u64(
            json_get(doc, "ask_quantity"@),
        ) is Some ==> json_message_data(doc, now) is Ok,
{
    lemma_tags_differ();
}

proof fn lemma_levels(entries: Seq<JsonValue>)
    ensures
        json_levels(entries).len() <= entries.len(),
        (forall|j: int| 0 <= j < entries.len() ==> !entry_has_level(#[trigger] entries[j]))
            ==> json_levels(entries).len() == 0,
        (forall|j: int| 0 <= j < entries.len() ==> entry_has_level(#[trigger] entries[j])) ==> (
        json_levels(entries).len() == entries.len() && forall|i: int|
            0 <= i < entries.len() ==> {
                &&& json_as_f64_bits(json_get(entries[i], "price"@)) == Some(
                    (#[trigger] json_levels(entries)[i]).price.f64_bits,
                )
                &&& json_as_u64(json_get(entries[i], "quantity"@)) matches Some(q)
                    && json_levels(entries)[i].quantity == q as u32
                &&& json_levels(entries)[i].order_count == 1
            }),
    decreases entries.len(),
{
    if entries.len() > 0 {
        let front = entries.drop_last();
        assert forall|j: int| 0 <= j < front.len() implies #[trigger] front[j] == entries[j] by {}
        lemma_levels(front);
        let n = entries.len() - 1;
        assert(entries.last() == entries[n]);
        if forall|j: int| 0 <= j < entries.len() ==> entry_has_level(#[trigger] entries[j]) {
            assert(entry_has_level(entries[n]));
            assert forall|j: int| 0 <= j < front.len() implies entry_has_level(#[trigger] front[j]) by {
                assert(entry_has_level(entries[j]));
            }
        }
        if forall|j: int| 0 <= j < entries.len() ==> !entry_has_level(#[trigger] entries[j]) {
            assert(!entry_has_level(entries[n]));
            assert forall|j: int| 0 <= j < front.len() implies !entry_has_level(#[trigger] front[j]) by {
                assert(!entry_has_level(entries[j]));
            }
        }
    }
}

/// The entries that describe a level, in order.
pub open spec fn level_entries(entries: Seq<JsonValue>) -> Seq<JsonValue> {
    entries.filter(|e: JsonValue| entry_has_level(e))
}

proof fn lemma_levels_of_level_entries(entries: Seq<JsonValue>)
    ensures
        json_levels(entries).len() == level_entries(entries).len(),
        forall|i: int|
            0 <= i < json_levels(entries).len() ==> {
                &&& json_as_f64_bits(json_get(level_entries(entries)[i], "price"@)) == Some(
                    (#[trigger] json_levels(entries)[i]).price.f64_bits,
                )
                &&& json_as_u64(json_get(level_entries(entries)[i], "quantity"@)) matches Some(q)
                    && json_levels(entries)[i].quantity == q as u32
                &&& json_levels(entries)[i].order_count == 1
            },
    decreases entries.len(),
{
    reveal(Seq::filter);
    if entries.len() > 0 {
        lemma_levels_of_level_entries(entries.drop_last());
        let front = level_entries(entries.drop_last());
        assert(level_entries(entries) == (if entry_has_level(entries.last()) {
            front.push(entries.last())
        } else {
            front
        }));
    }
}

/// Each side of a decoded book has one level per entry of its array that has a
/// `price` and a `quantity`, in the entries' order, with that price, that
/// quantity cut to 32 bits and one order; entries without both are skipped.
pub proof fn law_json_book_side_keeps_complete_entries(doc: JsonValue, side: Seq<char>)
    ensures
        json_as_array(json_get(doc, side)) matches Some(entries) ==> {
            &&& json_side(doc, side).len() == level_entries(entries).len()
            &&& forall|i: int|
                0 <= i < json_side(doc, side).len() ==> {
                    &&& json_as_f64_bits(json_get(level_entries(entries)[i], "price"@)) == Some(
                        (#[trigger] json_side(doc, side)[i]).price.f64_bits,
                    )
                    &&& json_as_u64(json_get(level_entries(entries)[i], "quantity"@)) matches Some(
                        q,
                    ) && json_side(doc, side)[i].quantity == q as u32
                    &&& json_side(doc, side)[i].order_count == 1
                }
        },
        json_as_array(json_get(doc, side)) is None ==> json_side(doc, side).len() == 0,
{
    if let Some(entries) = json_as_array(json_get(doc, side)) {
        lemma_levels_of_level_entries(entries);
    }
}

/// An order book decoded from a document has a `symbol` and a `type` of
/// `orderbook` or `order_book`, and is stamped with the time of receipt. Each
/// side takes one level per entry of its array that has a `price` and a
/// `quantity`, and no more: where every entry has both, the side has a level for
/// each entry, in order, with that price, that quantity cut to 32 bits and one
/// order; where none does, or the side is no array, the side is empty.
pub proof fn law_json_order_book_carries_its_levels(doc: JsonValue, now: i64, side: Seq<char>)
    requires
        side == "bids"@ || side == "asks"@,
    ensures
        json_message_data(doc, now) matches Ok(ExchangeDataView::OrderBook(b)) ==> {
            &&& json_as_str(json_get(doc, "type"@)) == Some("orderbook"@) || json_as_str(
                json_get(doc, "type"@),
            ) == Some("order_book"@)
            &&& json_as_str(json_get(doc, "symbol"@)) is Some
            &&& b.timestamp == now
            &&& json_side(doc, side) == (if side == "bids"@ {
                b.bids
            } else {
                b.asks
            })
        },
        json_as_array(json_get(doc, side)) is None ==> json_side(doc, side).len() == 0,
        json_as_array(json_get(doc, side)) matches Some(entries) ==> json_side(doc, side).len()
            <= entries.len(),
        json_as_array(json_get(doc, side)) matches Some(entries) ==> ((forall|j: int|
            0 <= j < entries.len() ==> !entry_has_level(#[trigger] entries[j])) ==> json_side(
            doc,
            side,
        ).len() == 0),
        json_as_array(json_get(doc, side)) matches Some(entries) ==> ((forall|j: int|
            0 <= j < entries.len() ==> entry_has_level(#[trigger] entries[j])) ==> (json_side(
            doc,
            side,
        ).len() == entries.len() && forall|i: int|
            0 <= i < entries.len() ==> {
                &&& json_as_f64_bits(json_get(entries[i], "price"@)) == Some(
                    (#[trigger] json_side(doc, side)[i]).price.f64_bits,
                )
                &&& json_as_u64(json_get(entries[i], "quantity"@)) matches Some(q) && json_side(
                    doc,
                    side,
                )[i].quantity == q as u32
                &&& json_side(doc, side)[i].order_count == 1
            })),
{
    lemma_tags_differ();
    reveal_strlit("bids");
    reveal_strlit("asks");
    assert("bids"@[0] != "asks"@[0]);
    if let Some(entries) = json_as_array(json_get(doc, side)) {
        lemma_levels(entries);
    }
}

/// What a text message decodes to is what its JSON document decodes to: a text
/// that is no JSON decodes to nothing, and a trade or quote decoded from a text
/// carries the members of the text's document (see the laws above).
pub proof fn law_json_text_decodes_its_document(text: Seq<char>, now: i64)
    ensures
        json_document(text) is None ==> json_text_data(text, now) == Err::<
            ExchangeDataView,
            ProtocolErrorView,
        >(ProtocolErrorView::InvalidJson),
        json_text_data(text, now) matches Ok(ExchangeDataView::Quote(q)) ==> (json_document(text)
            matches Some(doc) && json_as_str(json_get(doc, "symbol"@)) == Some(q.symbol)
            && json_as_f64_bits(json_get(doc, "bid_price"@)) == Some(q.bid_price.f64_bits)
            && json_as_f64_bits(json_get(doc, "ask_price"@)) == Some(q.ask_price.f64_bits)),
        json_text_data(text, now) matches Ok(ExchangeDataView::Trade(t)) ==> (json_document(text)
            matches Some(doc) && json_as_str(json_get(doc, "symbol"@)) == Some(t.symbol)
            && json_as_f64_bits(json_get(doc, "price"@)) == Some(t.price.f64_bits)),
{
    if let Some(doc) = json_document(text) {
        law_json_trade_carries_its_members(doc, now);
        law_json_quote_carries_its_members(doc, now);
    }
}

/// A text message that decodes is counted as one more received message of as
/// many bytes as its UTF-8 encoding has (not as many as it has characters), at
/// the time of receipt; the other statistics stay as they were.
pub proof fn law_text_message_counts_its_bytes(base: BaseConnectionView, text: Seq<char>, now: i64)
    requires
        encode_utf8(text).len() <= usize::MAX,
        can_record_received(base.stats, text_len(text)),
    ensures
        text_len(text) == encode_utf8(text).len(),
        received(base, text_len(text) as int, now).stats.bytes_received == base.stats.bytes_received
            + encode_utf8(text).len(),
        received(base, text_len(text) as int, now).stats.messages_received
            == base.stats.messages_received + 1,
        received(base, text_len(text) as int, now).stats.last_message_time == Some(now),
        received(base, text_len(text) as int, now).stats.error_count == base.stats.error_count,
        received(base, text_len(text) as int, now).exchange_id == base.exchange_id,
        received(base, text_len(text) as int, now).connected == base.connected,
{
}

/// Which documents are refused, and why: one whose `type` is no string, or a
/// string other than `trade`, `quote`, `orderbook` and `order_book`, is of an
/// unknown type, named by its text (`unknown` where there is none); a trade or
/// quote without one of its members is refused for the first one missing, in the
/// order symbol, prices, quantities; an order book without a `symbol` likewise.
pub proof fn law_json_refusals(doc: JsonValue, now: i64)
    ensures
        json_as_str(json_get(doc, "type"@)) is None ==> json_message_data(doc, now) == Err::<
            ExchangeDataView,
            ProtocolErrorView,
        >(ProtocolErrorView::UnknownJsonMessageType("unknown"@)),
        json_as_str(json_get(doc, "type"@)) matches Some(t) ==> (t != "trade"@ && t != "quote"@ && t
            != "orderbook"@ && t != "order_book"@ ==> json_message_data(doc, now) == Err::<
            ExchangeDataView,
            ProtocolErrorView,
        >(ProtocolErrorView::UnknownJsonMessageType(t))),
        json_as_str(json_get(doc, "type"@)) == Some("trade"@) ==> {
            let e = |f: JsonField| Err::<ExchangeDataView, ProtocolErrorView>(
                ProtocolErrorView::MissingField(JsonMessageKind::Trade, f),
            );
            &&& json_as_str(json_get(doc, "symbol"@)) is None ==> json_message_data(doc, now) == e(
                JsonField::Symbol,
            )
            &&& json_as_str(json_get(doc, "symbol"@)) is Some && json_as_f64_bits(
                json_get(doc, "price"@),
            ) is None ==> json_message_data(doc, now) == e(JsonField::Price)
            &&& json_as_str(json_get(doc, "symbol"@)) is Some && json_as_f64_bits(
                json_get(doc, "price"@),
            ) is Some && json_as_u64(json_get(doc, "quantity"@)) is None ==> json_message_data(
                doc,
                now,
            ) == e(JsonField::Quantity)
        },
        json_as_str(json_get(doc, "type"@)) == Some("quote"@) ==> {
            let e = |f: JsonField| Err::<ExchangeDataView, ProtocolErrorView>(
                ProtocolErrorView::MissingField(JsonMessageKind::Quote, f),
            );
            let symbol = json_as_str(json_get(doc, "symbol"@));
            let bid = json_as_f64_bits(json_get(doc, "bid_price"@));
            let ask = json_as_f64_bits(json_get(doc, "ask_price"@));
            let bid_q = json_as_u64(json_get(doc, "bid_quantity"@));
            let ask_q = json_as_u64(json_get(doc, "ask_quantity"@));
            &&& symbol is None ==> json_message_data(doc, now) == e(JsonField::Symbol)
            &&& symbol is Some && bid is None ==> json_message_data(doc, now) == e(JsonField::BidPrice)
            &&& symbol is Some && bid is Some && ask is None ==> json_message_data(doc, now) == e(
                JsonField::AskPrice,
            )
            &&& symbol is Some && bid is Some && ask is Some && bid_q is None ==> json_message_data(
                doc,
                now,
            ) == e(JsonField::BidQuantity)
            &&& symbol is Some && bid is Some && ask is Some && bid_q is Some && ask_q is None
                ==> json_message_data(doc, now) == e(JsonField::AskQuantity)
        },
        (json_as_str(json_get(doc, "type"@)) == Some("orderbook"@) || json_as_str(
            json_get(doc, "type"@),
        ) == Some("order_book"@)) ==> (json_as_str(json_get(doc, "symbol"@)) is None
            <==> json_message_data(doc, now) == Err::<ExchangeDataView, ProtocolErrorView>(
            ProtocolErrorView::MissingField(JsonMessageKind::OrderBook, JsonField::Symbol),
        )),
{
    lemma_tags_differ();
}

/// What each kind of stream event does to the statistics: a binary message is
/// counted with its own length in bytes; a text message that does not decode,
/// and a failure of the stream, count one more error and nothing else.
pub proof fn law_event_statistics(base: BaseConnectionView, n: usize, now: i64)
    requires
        can_record_received(base.stats, n),
        base.stats.error_count < u64::MAX,
    ensures
        received(base, n as int, now).stats.bytes_received == base.stats.bytes_received + n,
        received(base, n as int, now).stats.messages_received == base.stats.messages_received + 1,
        received(base, n as int, now).stats.last_message_time == Some(now),
        received(base, n as int, now).stats.error_count == base.stats.error_count,
        errored(base).stats.error_count == base.stats.error_count + 1,
        errored(base).stats.messages_received == base.stats.messages_received,
        errored(base).stats.bytes_received == base.stats.bytes_received,
        errored(base).stats.last_message_time == base.stats.last_message_time,
        errored(base).exchange_id == base.exchange_id && errored(base).connected == base.connected,
{
}

} // verus!
