//! Type definitions for the exchange connection hub.
use vstd::prelude::*;
use vstd::string::*;

use crate::assoc::{assoc_map, lemma_assoc_all, lemma_assoc_index, lemma_assoc_push, lemma_assoc_update};
use crate::json::{JsonValue, i32_double_bits};

verus! {

/// Unique identifier for an exchange.
#[derive(Debug, PartialEq, Eq, Hash)]
pub enum ExchangeId {
    NinjaTrader,
    InteractiveBrokers,
    Databento,
    /// A generic WebSocket exchange, by name.
    WebSocket(String),
    /// A FIX protocol exchange, by name.
    FIX(String),
}

/// What an [`ExchangeId`] denotes: its variant and, for the named ones, the name's text.
pub enum ExchangeIdView {
    NinjaTrader,
    InteractiveBrokers,
    Databento,
    WebSocket(Seq<char>),
    FIX(Seq<char>),
}

impl View for ExchangeId {
    type V = ExchangeIdView;

    open spec fn view(&self) -> ExchangeIdView {
        match self {
            ExchangeId::NinjaTrader => ExchangeIdView::NinjaTrader,
            ExchangeId::InteractiveBrokers => ExchangeIdView::InteractiveBrokers,
            ExchangeId::Databento => ExchangeIdView::Databento,
            ExchangeId::WebSocket(name) => ExchangeIdView::WebSocket(name@),
            ExchangeId::FIX(name) => ExchangeIdView::FIX(name@),
        }
    }
}

impl Clone for ExchangeId {
    fn clone(&self) -> (r: Self)
        ensures
            r@ == self@,
    {
        match self {
            ExchangeId::NinjaTrader => ExchangeId::NinjaTrader,
            ExchangeId::InteractiveBrokers => ExchangeId::InteractiveBrokers,
            ExchangeId::Databento => ExchangeId::Databento,
            ExchangeId::WebSocket(name) => ExchangeId::WebSocket(name.clone()),
            ExchangeId::FIX(name) => ExchangeId::FIX(name.clone()),
        }
    }
}

/// The text an exchange identifier is displayed as.
pub open spec fn exchange_id_text(id: ExchangeIdView) -> Seq<char> {
    match id {
        ExchangeIdView::NinjaTrader => "ninjatrader"@,
        ExchangeIdView::InteractiveBrokers => "ibkr"@,
        ExchangeIdView::Databento => "databento"@,
        ExchangeIdView::WebSocket(name) => "websocket:"@ + name,
        ExchangeIdView::FIX(name) => "fix:"@ + name,
    }
}

impl ExchangeId {
    /// Whether two identifiers name the same exchange.
    pub fn same_as(&self, other: &ExchangeId) -> (r: bool)
        ensures
            r == (self@ == other@),
    {
        match (self, other) {
            (ExchangeId::NinjaTrader, ExchangeId::NinjaTrader) => true,
            (ExchangeId::InteractiveBrokers, ExchangeId::InteractiveBrokers) => true,
            (ExchangeId::Databento, ExchangeId::Databento) => true,
            (ExchangeId::WebSocket(a), ExchangeId::WebSocket(b)) => *a == *b,
            (ExchangeId::FIX(a), ExchangeId::FIX(b)) => *a == *b,
            _ => false,
        }
    }

    /// The display text: `ninjatrader`, `ibkr`, `databento`, `websocket:<name>` or `fix:<name>`.
    pub fn to_display_string(&self) -> (r: String)
        ensures
            r@ == exchange_id_text(self@),
    {
        match self {
            ExchangeId::NinjaTrader => String::from_str("ninjatrader"),
            ExchangeId::InteractiveBrokers => String::from_str("ibkr"),
            ExchangeId::Databento => String::from_str("databento"),
            ExchangeId::WebSocket(name) => String::from_str("websocket:").concat(name.as_str()),
            ExchangeId::FIX(name) => String::from_str("fix:").concat(name.as_str()),
        }
    }
}

/// Symbol identifier.
pub type Symbol = String;

/// Order identifier.
pub type OrderId = String;

/// Exchange credentials.
pub struct Credentials {
    pub username: String,
    pub password: Option<String>,
    pub api_key: Option<String>,
    pub api_secret: Option<String>,
}

/// Named settings of a connection, each a JSON value; no name occurs twice.
pub struct Settings {
    entries: Vec<(String, JsonValue)>,
}

impl Settings {
    /// The names of the entries, in order.
    pub closed spec fn names(self) -> Seq<Seq<char>> {
        self.entries@.map_values(|e: (String, JsonValue)| e.0@)
    }

    /// The values of the entries, in order.
    pub closed spec fn values(self) -> Seq<JsonValue> {
        self.entries@.map_values(|e: (String, JsonValue)| e.1)
    }

    #[verifier::type_invariant]
    closed spec fn names_distinct(self) -> bool {
        self.names().no_duplicates()
    }
}

impl View for Settings {
    type V = Map<Seq<char>, JsonValue>;

    closed spec fn view(&self) -> Map<Seq<char>, JsonValue> {
        assoc_map(self.names(), self.values())
    }
}

impl Settings {
    /// No settings.
    pub fn new() -> (r: Settings)
        ensures
            r@ == Map::<Seq<char>, JsonValue>::empty(),
    {
        let r = Settings { entries: Vec::new() };
        assert(r@ =~= Map::<Seq<char>, JsonValue>::empty());
        r
    }

    /// Sets `key` to `value`, replacing any earlier value of `key`.
    pub fn insert(&mut self, key: String, value: JsonValue)
        ensures
            final(self)@ == old(self)@.insert(key@, value),
    {
        proof {
            use_type_invariant(&*self);
        }
        let ghost names = self.names();
        let ghost vals = self.values();
        let mut i: usize = 0;
        while i < self.entries.len()
            invariant
                0 <= i <= self.entries.len(),
                names == self.names(),
                vals == self.values(),
                names.no_duplicates(),
                names.len() == vals.len(),
                assoc_map(names, vals) == old(self)@,
                forall|j: int| 0 <= j < i ==> names[j] != key@,
            decreases self.entries.len() - i,
        {
            if self.entries[i].0 == key {
                proof {
                    assert(names[i as int] == key@);
                    lemma_assoc_update(names, vals, i as int, value);
                }
                let mut entries = Vec::new();
                std::mem::swap(&mut entries, &mut self.entries);
                entries.set(i, (key, value));
                assert(entries@.map_values(|e: (String, JsonValue)| e.0@) =~= names);
                assert(entries@.map_values(|e: (String, JsonValue)| e.1) =~= vals.update(
                    i as int,
                    value,
                ));
                self.entries = entries;
                return ;
            }
            i = i + 1;
        }
        proof {
            assert(!names.contains(key@));
            lemma_assoc_push(names, vals, key@, value);
        }
        let mut entries = Vec::new();
                std::mem::swap(&mut entries, &mut self.entries);
        let ghost k = key@;
        entries.push((key, value));
        assert(entries@.map_values(|e: (String, JsonValue)| e.0@) =~= names.push(k));
        assert(entries@.map_values(|e: (String, JsonValue)| e.1) =~= vals.push(value));
        self.entries = entries;
    }

    /// The value of `key`, where there is one.
    pub fn get(&self, key: &str) -> (r: Option<&JsonValue>)
        ensures
            match r {
                Some(v) => self@.contains_key(key@) && self@[key@] == *v,
                None => !self@.contains_key(key@),
            },
    {
        proof {
            use_type_invariant(self);
            lemma_assoc_all(self.names(), self.values());
        }
        let k = String::from_str(key);
        let mut i: usize = 0;
        while i < self.entries.len()
            invariant
                0 <= i <= self.entries.len(),
                k@ == key@,
                forall|j: int| 0 <= j < i ==> self.names()[j] != key@,
            decreases self.entries.len() - i,
        {
            if self.entries[i].0 == k {
                assert(self.names()[i as int] == key@);
                proof {
                    use_type_invariant(self);
                    lemma_assoc_index(self.names(), self.values(), i as int);
                }
                return Some(&self.entries[i].1);
            }
            i = i + 1;
        }
        assert(!self.names().contains(key@));
        None
    }

    /// Every setting, once each, as a name and its value.
    pub fn entries(&self) -> (r: &Vec<(String, JsonValue)>)
        ensures
            r@.map_values(|e: (String, JsonValue)| e.0@).no_duplicates(),
            forall|i: int|
                0 <= i < r@.len() ==> self@.contains_key(#[trigger] r@[i].0@) && self@[r@[i].0@]
                    == r@[i].1,
            forall|k: Seq<char>|
                #[trigger] self@.contains_key(k) ==> exists|i: int|
                    0 <= i < r@.len() && #[trigger] r@[i].0@ == k,
    {
        proof {
            use_type_invariant(self);
            lemma_assoc_all(self.names(), self.values());
            assert forall|k: Seq<char>| #[trigger] self@.contains_key(k) implies exists|i: int|
                0 <= i < self.entries@.len() && #[trigger] self.entries@[i].0@ == k by {
                let i = choose|i: int| 0 <= i < self.names().len() && self.names()[i] == k;
                assert(self.entries@[i].0@ == self.names()[i]);
            }
            assert forall|i: int| 0 <= i < self.entries@.len() implies self@.contains_key(
                #[trigger] self.entries@[i].0@,
            ) && self@[self.entries@[i].0@] == self.entries@[i].1 by {
                assert(self.names()[i] == self.entries@[i].0@);
                assert(self.values()[i] == self.entries@[i].1);
            }
        }
        &self.entries
    }

    /// The number of settings.
    pub fn len(&self) -> (r: usize)
        ensures
            r == self@.len(),
    {
        proof {
            use_type_invariant(self);
            lemma_assoc_all(self.names(), self.values());
            assert(self@.dom() =~= self.names().to_set());
            self.names().unique_seq_to_set();
        }
        self.entries.len()
    }
}

/// Configuration for connecting to an exchange.
pub struct ExchangeConfig {
    pub exchange_id: ExchangeId,
    pub connection_string: String,
    pub credentials: Option<Credentials>,
    pub settings: Settings,
    pub reconnect_attempts: u32,
    pub reconnect_delay_ms: u64,
}

/// A configuration with the defaults every constructor uses: no credentials,
/// three reconnection attempts, 5000 ms between them.
pub open spec fn default_config(
    c: ExchangeConfig,
    id: ExchangeIdView,
    connection_string: Seq<char>,
) -> bool {
    &&& c.exchange_id@ == id
    &&& c.connection_string@ == connection_string
    &&& c.credentials is None
    &&& c.reconnect_attempts == 3
    &&& c.reconnect_delay_ms == 5000
}

impl ExchangeConfig {
    /// Create a NinjaTrader configuration.
    pub fn ninjatrader(address: &str) -> (r: Self)
        ensures
            default_config(r, ExchangeIdView::NinjaTrader, address@),
            r.settings@ == Map::<Seq<char>, JsonValue>::empty(),
    {
        ExchangeConfig {
            exchange_id: ExchangeId::NinjaTrader,
            connection_string: String::from_str(address),
            credentials: None,
            settings: Settings::new(),
            reconnect_attempts: 3,
            reconnect_delay_ms: 5000,
        }
    }

    /// Create an Interactive Brokers configuration; the client id is kept as the
    /// setting `client_id`.
    pub fn interactive_brokers(address: &str, client_id: i32) -> (r: Self)
        ensures
            default_config(r, ExchangeIdView::InteractiveBrokers, address@),
            r.settings@.dom() == set!["client_id"@],
            r.settings@["client_id"@] matches JsonValue::Number(n) && n.as_i64 == Some(
                client_id as i64,
            ) && n.as_u64 == (if client_id >= 0 {
                Some(client_id as u64)
            } else {
                None
            }) && n.as_f64_bits == Some(i32_double_bits(client_id)),
    {
        let mut settings = Settings::new();
        settings.insert(String::from_str("client_id"), JsonValue::from_i32(client_id));
        assert(settings@.dom() =~= set!["client_id"@]);
        ExchangeConfig {
            exchange_id: ExchangeId::InteractiveBrokers,
            connection_string: String::from_str(address),
            credentials: None,
            settings,
            reconnect_attempts: 3,
            reconnect_delay_ms: 5000,
        }
    }

    /// Create a WebSocket configuration.
    pub fn websocket(name: &str, url: &str) -> (r: Self)
        ensures
            default_config(r, ExchangeIdView::WebSocket(name@), url@),
            r.settings@ == Map::<Seq<char>, JsonValue>::empty(),
    {
        ExchangeConfig {
            exchange_id: ExchangeId::WebSocket(String::from_str(name)),
            connection_string: String::from_str(url),
            credentials: None,
            settings: Settings::new(),
            reconnect_attempts: 3,
            reconnect_delay_ms: 5000,
        }
    }

    /// Create a FIX configuration.
    pub fn fix(name: &str, connection_string: &str) -> (r: Self)
        ensures
            default_config(r, ExchangeIdView::FIX(name@), connection_string@),
            r.settings@ == Map::<Seq<char>, JsonValue>::empty(),
    {
        ExchangeConfig {
            exchange_id: ExchangeId::FIX(String::from_str(name)),
            connection_string: String::from_str(connection_string),
            credentials: None,
            settings: Settings::new(),
            reconnect_attempts: 3,
            reconnect_delay_ms: 5000,
        }
    }
}

/// A price, held as the bits of the IEEE-754 double that the venue sent.
#[derive(Debug, Clone, Copy, PartialEq, Eq)]
pub struct Price {
    pub f64_bits: u64,
}

impl Price {
    /// The price whose double has these bits.
    pub fn from_bits(f64_bits: u64) -> (r: Price)
        ensures
            r.f64_bits == f64_bits,
    {
        Price { f64_bits }
    }
}

/// The aggressor side of a trade.
#[derive(Debug, Clone, Copy, PartialEq, Eq)]
pub enum TradeSide {
    Buy,
    Sell,
}

/// A trade print.
#[derive(Debug, PartialEq)]
pub struct Trade {
    pub symbol: Symbol,
    pub price: Price,
    pub quantity: u32,
    /// Nanoseconds since the Unix epoch at which the trade was received.
    pub timestamp: i64,
    pub trade_id: u64,
    pub side: TradeSide,
    pub exchange: u8,
    pub flags: u8,
}

/// A top-of-book quote.
#[derive(Debug, PartialEq)]
pub struct Quote {
    pub symbol: Symbol,
    pub bid_price: Price,
    pub ask_price: Price,
    pub bid_quantity: u32,
    pub ask_quantity: u32,
    /// Nanoseconds since the Unix epoch at which the quote was received.
    pub timestamp: i64,
    pub exchange: u8,
}

/// One level of an order book.
#[derive(Debug, Clone, Copy, PartialEq, Eq)]
pub struct PriceLevel {
    pub price: Price,
    pub quantity: u32,
    pub order_count: u32,
}

/// A snapshot of an order book.
#[derive(Debug, PartialEq)]
pub struct OrderBookSnapshot {
    pub instrument_id: u32,
    pub bids: Vec<PriceLevel>,
    pub asks: Vec<PriceLevel>,
    /// Nanoseconds since the Unix epoch at which the snapshot was received.
    pub timestamp: i64,
    pub sequence: u64,
}

/// Reference data of an instrument.
#[derive(Debug, PartialEq)]
pub struct InstrumentMetadata {
    pub symbol: Symbol,
}

/// Exchange-specific data.
#[derive(Debug, PartialEq)]
pub enum ExchangeData {
    Trade(Trade),
    Quote(Quote),
    OrderBook(OrderBookSnapshot),
    Metadata(InstrumentMetadata),
}

/// A trade, its symbol read as text.
pub struct TradeView {
    pub symbol: Seq<char>,
    pub price: Price,
    pub quantity: u32,
    pub timestamp: i64,
    pub trade_id: u64,
    pub side: TradeSide,
    pub exchange: u8,
    pub flags: u8,
}

/// A quote, its symbol read as text.
pub struct QuoteView {
    pub symbol: Seq<char>,
    pub bid_price: Price,
    pub ask_price: Price,
    pub bid_quantity: u32,
    pub ask_quantity: u32,
    pub timestamp: i64,
    pub exchange: u8,
}

/// An order book snapshot, its levels as sequences.
pub struct OrderBookView {
    pub instrument_id: u32,
    pub bids: Seq<PriceLevel>,
    pub asks: Seq<PriceLevel>,
    pub timestamp: i64,
    pub sequence: u64,
}

/// Exchange data as plain values.
pub enum ExchangeDataView {
    Trade(TradeView),
    Quote(QuoteView),
    OrderBook(OrderBookView),
    Metadata(Seq<char>),
}

impl View for Trade {
    type V = TradeView;

    open spec fn view(&self) -> TradeView {
        TradeView {
            symbol: self.symbol@,
            price: self.price,
            quantity: self.quantity,
            timestamp: self.timestamp,
            trade_id: self.trade_id,
            side: self.side,
            exchange: self.exchange,
            flags: self.flags,
        }
    }
}

impl View for Quote {
    type V = QuoteView;

    open spec fn view(&self) -> QuoteView {
        QuoteView {
            symbol: self.symbol@,
            bid_price: self.bid_price,
            ask_price: self.ask_price,
            bid_quantity: self.bid_quantity,
            ask_quantity: self.ask_quantity,
            timestamp: self.timestamp,
            exchange: self.exchange,
        }
    }
}

impl View for OrderBookSnapshot {
    type V = OrderBookView;

    open spec fn view(&self) -> OrderBookView {
        OrderBookView {
            instrument_id: self.instrument_id,
            bids: self.bids@,
            asks: self.asks@,
            timestamp: self.timestamp,
            sequence: self.sequence,
        }
    }
}

impl View for ExchangeData {
    type V = ExchangeDataView;

    open spec fn view(&self) -> ExchangeDataView {
        match self {
            ExchangeData::Trade(t) => ExchangeDataView::Trade(t@),
            ExchangeData::Quote(q) => ExchangeDataView::Quote(q@),
            ExchangeData::OrderBook(b) => ExchangeDataView::OrderBook(b@),
            ExchangeData::Metadata(m) => ExchangeDataView::Metadata(m.symbol@),
        }
    }
}

/// Connection health status.
#[derive(Debug, Clone, Copy, PartialEq, Eq)]
pub enum ConnectionHealth {
    Healthy,
    Unhealthy,
    Disconnected,
    Reconnecting,
}

impl ConnectionHealth {
    pub fn is_healthy(self) -> (r: bool)
        ensures
            r == (self == ConnectionHealth::Healthy),
    {
        match self {
            ConnectionHealth::Healthy => true,
            _ => false,
        }
    }
}

/// Connection status information.
#[derive(Debug)]
pub struct ConnectionStatus {
    pub exchange_id: ExchangeId,
    pub health: ConnectionHealth,
    /// Nanoseconds since the Unix epoch of the last message, if any.
    pub last_message_time: Option<i64>,
    pub messages_received: u64,
    pub bytes_received: u64,
    pub error_count: u64,
}

/// A connection status, its exchange by its view.
pub struct ConnectionStatusView {
    pub exchange_id: ExchangeIdView,
    pub health: ConnectionHealth,
    pub last_message_time: Option<i64>,
    pub messages_received: u64,
    pub bytes_received: u64,
    pub error_count: u64,
}

impl View for ConnectionStatus {
    type V = ConnectionStatusView;

    open spec fn view(&self) -> ConnectionStatusView {
        ConnectionStatusView {
            exchange_id: self.exchange_id@,
            health: self.health,
            last_message_time: self.last_message_time,
            messages_received: self.messages_received,
            bytes_received: self.bytes_received,
            error_count: self.error_count,
        }
    }
}

impl Clone for ConnectionStatus {
    fn clone(&self) -> (r: Self)
        ensures
            r@ == self@,
    {
        ConnectionStatus {
            exchange_id: self.exchange_id.clone(),
            health: self.health,
            last_message_time: self.last_message_time,
            messages_received: self.messages_received,
            bytes_received: self.bytes_received,
            error_count: self.error_count,
        }
    }
}

/// Order side.
#[derive(Debug, Clone, Copy, PartialEq, Eq)]
pub enum OrderSide {
    Buy,
    Sell,
}

/// Order type.
#[derive(Debug, Clone, Copy, PartialEq, Eq)]
pub enum OrderType {
    Market,
    Limit,
    Stop,
    StopLimit,
}

/// Time in force.
#[derive(Debug, Clone, Copy, PartialEq, Eq)]
pub enum TimeInForce {
    Day,
    /// Good till canceled.
    GTC,
    /// Immediate or cancel.
    IOC,
    /// Fill or kill.
    FOK,
}

/// Order request for execution.
#[derive(Debug)]
pub struct OrderRequest {
    pub symbol: Symbol,
    pub side: OrderSide,
    pub quantity: u64,
    pub order_type: OrderType,
    pub price: Option<Price>,
    pub time_in_force: TimeInForce,
}

/// Order status type.
#[derive(Debug, Clone, Copy, PartialEq, Eq)]
pub enum OrderStatusType {
    New,
    PartiallyFilled,
    Filled,
    Canceled,
    Rejected,
    Expired,
}

/// Order status.
#[derive(Debug)]
pub struct OrderStatus {
    pub order_id: OrderId,
    pub symbol: Symbol,
    pub side: OrderSide,
    pub quantity: u64,
    pub filled_quantity: u64,
    pub price: Option<Price>,
    pub status: OrderStatusType,
    pub timestamp: i64,
}

} // verus!
