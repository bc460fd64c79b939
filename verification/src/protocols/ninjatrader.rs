//! NinjaTrader protocol: length-prefixed binary messages.
//!
//! A frame is a little-endian `u32` length followed by that many bytes of
//! message. A message starts with its type byte:
//!
//! * `0x01` trade: symbol (7 bytes, UTF-8, padded with NUL), price (little-endian
//!   double), quantity (little-endian `u32`);
//! * `0x02` quote: symbol (7 bytes), bid price, ask price (doubles), bid quantity,
//!   ask quantity (`u32`);
//! * `0x03` order book.
use vstd::prelude::*;
use vstd::bytes::{spec_u32_from_le_bytes, spec_u64_from_le_bytes, spec_u32_to_le_bytes, u32_from_le_bytes, lemma_auto_spec_u32_to_from_le_bytes};
use vstd::string::*;
use vstd::utf8::{valid_utf8, decode_utf8};

use byteorder::{ByteOrder, LittleEndian};

use crate::protocols::base::{
    BaseConnectionView, BaseExchangeConnection, ConnectionError, ConnectionFactory,
    ConnectionStats, ExchangeConnectionKind, ExchangeFeature, FactoryError, can_record_received,
    unix_time_nanos, zero_stats,
};
use crate::protocols::{ProtocolError, ProtocolErrorView, data_result, result_timestamp};
use crate::types::{
    ConnectionHealth, ExchangeConfig, ExchangeData, ExchangeDataView, ExchangeId, ExchangeIdView,
    OrderBookSnapshot, OrderBookView, OrderId, OrderRequest, Price, Quote, QuoteView, Symbol,
    Trade, TradeSide, TradeView,
};

verus! {

/// Reads a little-endian `u32` from the first four bytes with
/// `byteorder::LittleEndian::read_u32`, which panics on fewer than four.
/// Claimed, as its source shows: the value of those four bytes.
#[verifier::external_body]
fn read_u32_le(buf: &[u8]) -> (r: u32)
    requires
        buf@.len() >= 4,
    ensures
        r == spec_u32_from_le_bytes(buf@.subrange(0, 4)),
{
    LittleEndian::read_u32(buf)
}

/// Reads a little-endian `u64` from the first eight bytes with
/// `byteorder::LittleEndian::read_u64`, which panics on fewer than eight; the
/// crate's `read_f64` is `f64::from_bits` of this value. Claimed, as its source
/// shows: the value of those eight bytes.
#[verifier::external_body]
fn read_u64_le(buf: &[u8]) -> (r: u64)
    requires
        buf@.len() >= 8,
    ensures
        r == spec_u64_from_le_bytes(buf@.subrange(0, 8)),
{
    LittleEndian::read_u64(buf)
}

/// Decodes bytes as UTF-8 with `std::str::from_utf8`. Claimed, as its
/// documentation says: the text exactly when the bytes are valid UTF-8.
#[verifier::external_body]
fn utf8_text(bytes: &[u8]) -> (r: Option<&str>)
    ensures
        r is Some <==> valid_utf8(bytes@),
        r matches Some(s) ==> s@ == decode_utf8(bytes@),
{
    std::str::from_utf8(bytes).ok()
}

/// Bytes of the symbol field.
pub const SYMBOL_LEN: usize = 7;

/// Bytes of a trade message after its type byte.
pub const TRADE_PAYLOAD_LEN: usize = 19;

/// Bytes of a quote message after its type byte.
pub const QUOTE_PAYLOAD_LEN: usize = 31;

/// The text without its trailing NUL characters.
pub open spec fn trim_trailing_nul(s: Seq<char>) -> Seq<char>
    decreases s.len(),
{
    if s.len() > 0 && s.last() == '\0' {
        trim_trailing_nul(s.drop_last())
    } else {
        s
    }
}

/// The symbol a valid symbol field names.
pub open spec fn symbol_text(field: Seq<u8>) -> Seq<char> {
    trim_trailing_nul(decode_utf8(field))
}

/// The little-endian `u32` at `at`.
pub open spec fn le_u32_at(s: Seq<u8>, at: int) -> u32 {
    spec_u32_from_le_bytes(s.subrange(at, at + 4))
}

/// The price whose double is the little-endian `u64` at `at`.
pub open spec fn le_price_at(s: Seq<u8>, at: int) -> Price {
    Price { f64_bits: spec_u64_from_le_bytes(s.subrange(at, at + 8)) }
}

/// What a trade payload (the message after its type byte) decodes to.
pub open spec fn trade_payload(payload: Seq<u8>, now: i64) -> Result<ExchangeDataView, ProtocolErrorView> {
    if payload.len() < TRADE_PAYLOAD_LEN {
        Err(ProtocolErrorView::TradeTooShort)
    } else if !valid_utf8(payload.subrange(0, SYMBOL_LEN as int)) {
        Err(ProtocolErrorView::InvalidSymbol)
    } else {
        Ok(
            ExchangeDataView::Trade(
                TradeView {
                    symbol: symbol_text(payload.subrange(0, SYMBOL_LEN as int)),
                    price: le_price_at(payload, 7),
                    quantity: le_u32_at(payload, 15),
                    timestamp: now,
                    trade_id: 0,
                    side: TradeSide::Buy,
                    exchange: 0,
                    flags: 0,
                },
            ),
        )
    }
}

/// What a quote payload decodes to.
pub open spec fn quote_payload(payload: Seq<u8>, now: i64) -> Result<ExchangeDataView, ProtocolErrorView> {
    if payload.len() < QUOTE_PAYLOAD_LEN {
        Err(ProtocolErrorView::QuoteTooShort)
    } else if !valid_utf8(payload.subrange(0, SYMBOL_LEN as int)) {
        Err(ProtocolErrorView::InvalidSymbol)
    } else {
        Ok(
            ExchangeDataView::Quote(
                QuoteView {
                    symbol: symbol_text(payload.subrange(0, SYMBOL_LEN as int)),
                    bid_price: le_price_at(payload, 7),
                    ask_price: le_price_at(payload, 15),
                    bid_quantity: le_u32_at(payload, 23),
                    ask_quantity: le_u32_at(payload, 27),
                    timestamp: now,
                    exchange: 0,
                },
            ),
        )
    }
}

/// What an order book payload decodes to: an empty book, whatever the payload.
pub open spec fn order_book_payload(now: i64) -> Result<ExchangeDataView, ProtocolErrorView> {
    Ok(
        ExchangeDataView::OrderBook(
            OrderBookView {
                instrument_id: 1,
                bids: Seq::empty(),
                asks: Seq::empty(),
                timestamp: now,
                sequence: 0,
            },
        ),
    )
}

/// What a whole message decodes to, `now` being the time of receipt.
pub open spec fn message_data(data: Seq<u8>, now: i64) -> Result<ExchangeDataView, ProtocolErrorView> {
    if data.len() < 4 {
        Err(ProtocolErrorView::MessageTooShort)
    } else {
        let payload = data.subrange(1, data.len() as int);
        if data[0] == 1 {
            trade_payload(payload, now)
        } else if data[0] == 2 {
            quote_payload(payload, now)
        } else if data[0] == 3 {
            order_book_payload(now)
        } else {
            Err(ProtocolErrorView::UnknownMessageType(data[0]))
        }
    }
}

/// Reads a symbol field: its UTF-8 text without trailing NULs.
fn read_symbol(field: &[u8]) -> (r: Option<String>)
    ensures
        r is Some <==> valid_utf8(field@),
        r matches Some(s) ==> s@ == symbol_text(field@),
{
    match utf8_text(field) {
        None => None,
        Some(text) => {
            let n = text.unicode_len();
            let mut end: usize = n;
            assert(text@.subrange(0, n as int) =~= text@);
            while end > 0 && text.get_char(end - 1) == '\0'
                invariant
                    end <= n == text@.len(),
                    trim_trailing_nul(text@) == trim_trailing_nul(text@.subrange(0, end as int)),
                decreases end,
            {
                assert(text@.subrange(0, end as int).drop_last() =~= text@.subrange(
                    0,
                    end - 1,
                ));
                end = end - 1;
            }
            assert(trim_trailing_nul(text@.subrange(0, end as int)) == text@.subrange(
                0,
                end as int,
            ));
            Some(String::from_str(text.substring_char(0, end)))
        },
    }
}

/// Decodes a trade payload received at `now`.
pub fn decode_trade(payload: &[u8], now: i64) -> (r: Result<ExchangeData, ProtocolError>)
    ensures
        data_result(r) == trade_payload(payload@, now),
{
    if payload.len() < TRADE_PAYLOAD_LEN {
        return Err(ProtocolError::TradeTooShort);
    }
    let symbol = match read_symbol(&payload[0..SYMBOL_LEN]) {
        Some(s) => s,
        None => return Err(ProtocolError::InvalidSymbol),
    };
    let price = read_u64_le(&payload[7..15]);
    let quantity = read_u32_le(&payload[15..19]);
    assert(payload@.subrange(7, 15).subrange(0, 8) =~= payload@.subrange(7, 15));
    assert(payload@.subrange(15, 19).subrange(0, 4) =~= payload@.subrange(15, 19));
    Ok(
        ExchangeData::Trade(
            Trade {
                symbol,
                price: Price { f64_bits: price },
                quantity,
                timestamp: now,
                trade_id: 0,
                side: TradeSide::Buy,
                exchange: 0,
                flags: 0,
            },
        ),
    )
}

/// Decodes a quote payload received at `now`.
pub fn decode_quote(payload: &[u8], now: i64) -> (r: Result<ExchangeData, ProtocolError>)
    ensures
        data_result(r) == quote_payload(payload@, now),
{
    if payload.len() < QUOTE_PAYLOAD_LEN {
        return Err(ProtocolError::QuoteTooShort);
    }
    let symbol = match read_symbol(&payload[0..SYMBOL_LEN]) {
        Some(s) => s,
        None => return Err(ProtocolError::InvalidSymbol),
    };
    let bid_price = read_u64_le(&payload[7..15]);
    let ask_price = read_u64_le(&payload[15..23]);
    let bid_quantity = read_u32_le(&payload[23..27]);
    let ask_quantity = read_u32_le(&payload[27..31]);
    assert(payload@.subrange(7, 15).subrange(0, 8) =~= payload@.subrange(7, 15));
    assert(payload@.subrange(15, 23).subrange(0, 8) =~= payload@.subrange(15, 23));
    assert(payload@.subrange(23, 27).subrange(0, 4) =~= payload@.subrange(23, 27));
    assert(payload@.subrange(27, 31).subrange(0, 4) =~= payload@.subrange(27, 31));
    Ok(
        ExchangeData::Quote(
            Quote {
                symbol,
                bid_price: Price { f64_bits: bid_price },
                ask_price: Price { f64_bits: ask_price },
                bid_quantity,
                ask_quantity,
                timestamp: now,
                exchange: 0,
            },
        ),
    )
}

/// Decodes an order book payload received at `now`.
pub fn decode_order_book(payload: &[u8], now: i64) -> (r: Result<ExchangeData, ProtocolError>)
    ensures
        data_result(r) == order_book_payload(now),
{
    let book = OrderBookSnapshot {
        instrument_id: 1,
        bids: Vec::new(),
        asks: Vec::new(),
        timestamp: now,
        sequence: 0,
    };
    assert(book@.bids =~= Seq::empty());
    Ok(ExchangeData::OrderBook(book))
}

/// Decodes a whole message received at `now`.
pub fn decode_message(data: &[u8], now: i64) -> (r: Result<ExchangeData, ProtocolError>)
    ensures
        data_result(r) == message_data(data@, now),
{
    if data.len() < 4 {
        return Err(ProtocolError::MessageTooShort);
    }
    let message_type = data[0];
    let payload = &data[1..data.len()];
    if message_type == 1 {
        decode_trade(payload, now)
    } else if message_type == 2 {
        decode_quote(payload, now)
    } else if message_type == 3 {
        decode_order_book(payload, now)
    } else {
        Err(ProtocolError::UnknownMessageType(message_type))
    }
}

/// Whether a frame is complete at the front of the buffer: a length prefix and
/// at least that many bytes after it.
pub open spec fn frame_ready(buf: Seq<u8>) -> bool {
    buf.len() >= 4 && le_u32_at(buf, 0) <= buf.len() - 4
}

/// Where the frame at the front of the buffer ends.
pub open spec fn frame_end(buf: Seq<u8>) -> int {
    4 + le_u32_at(buf, 0)
}

/// The frame that carries `payload`: its length, little-endian, then the payload.
pub open spec fn encode_frame(payload: Seq<u8>) -> Seq<u8> {
    spec_u32_to_le_bytes(payload.len() as u32) + payload
}

/// The frames that carry `payloads`, one after another.
pub open spec fn encode_frames(payloads: Seq<Seq<u8>>) -> Seq<u8>
    decreases payloads.len(),
{
    if payloads.len() == 0 {
        Seq::empty()
    } else {
        encode_frame(payloads[0]) + encode_frames(payloads.drop_first())
    }
}

/// What `n` calls of [`FrameBuffer::next_frame`] take from a buffer: the payloads
/// of the complete frames at its front, up to `n` of them, and what is left.
pub open spec fn take_frames(buf: Seq<u8>, n: nat) -> (Seq<Seq<u8>>, Seq<u8>)
    decreases n,
{
    if n == 0 || !frame_ready(buf) {
        (Seq::empty(), buf)
    } else {
        let (payloads, rest) = take_frames(buf.subrange(frame_end(buf), buf.len() as int), (n - 1) as nat);
        (seq![buf.subrange(4, frame_end(buf))] + payloads, rest)
    }
}

/// The payloads of all the complete frames at the front of the buffer, in order,
/// and the bytes left after them: the start of a frame still arriving, or nothing.
pub open spec fn drain_frames(buf: Seq<u8>) -> (Seq<Seq<u8>>, Seq<u8>)
    decreases buf.len(),
{
    if !frame_ready(buf) {
        (Seq::empty(), buf)
    } else {
        let (payloads, rest) = drain_frames(buf.subrange(frame_end(buf), buf.len() as int));
        (seq![buf.subrange(4, frame_end(buf))] + payloads, rest)
    }
}

/// What a reader takes from a stream that arrives in `reads`, with `pending`
/// already buffered: after each read it appends the bytes and drains every
/// complete frame. Gives the payloads taken, in order, and what stays buffered.
pub open spec fn read_frames(pending: Seq<u8>, reads: Seq<Seq<u8>>) -> (Seq<Seq<u8>>, Seq<u8>)
    decreases reads.len(),
{
    if reads.len() == 0 {
        (Seq::empty(), pending)
    } else {
        let (now, left) = drain_frames(pending + reads[0]);
        let (later, rest) = read_frames(left, reads.drop_first());
        (now + later, rest)
    }
}

/// What taking one frame's payload does to a connection, whatever time the clock
/// gave: a payload that decodes is counted as a received message of its length,
/// with a time of receipt; one that does not is counted as an error.
pub open spec fn frame_taken(before: BaseConnectionView, payload: Seq<u8>, after: BaseConnectionView) -> bool {
    if message_data(payload, 0) is Ok {
        after.stats.last_message_time is Some && after == (BaseConnectionView {
            stats: ConnectionStats {
                messages_received: (before.stats.messages_received + 1) as u64,
                bytes_received: (before.stats.bytes_received + payload.len()) as u64,
                last_message_time: after.stats.last_message_time,
                ..before.stats
            },
            ..before
        })
    } else {
        after == (BaseConnectionView {
            stats: ConnectionStats { error_count: (before.stats.error_count + 1) as u64, ..before.stats },
            ..before
        })
    }
}

/// Of a sequence of payloads: how many decode, their total length, and how many
/// do not.
pub open spec fn frame_counts(payloads: Seq<Seq<u8>>) -> (int, int, int)
    decreases payloads.len(),
{
    if payloads.len() == 0 {
        (0, 0, 0)
    } else {
        let (decoded, bytes, failed) = frame_counts(payloads.drop_last());
        let last = payloads.last();
        if message_data(last, 0) is Ok {
            (decoded + 1, bytes + last.len(), failed)
        } else {
            (decoded, bytes, failed + 1)
        }
    }
}

/// Bytes received on a NinjaTrader stream and not yet taken as frames.
pub struct FrameBuffer {
    buffer: Vec<u8>,
}

impl View for FrameBuffer {
    type V = Seq<u8>;

    closed spec fn view(&self) -> Seq<u8> {
        self.buffer@
    }
}

impl FrameBuffer {
    /// An empty buffer.
    pub fn new() -> (r: FrameBuffer)
        ensures
            r@ == Seq::<u8>::empty(),
    {
        FrameBuffer { buffer: Vec::new() }
    }

    /// Appends received bytes.
    pub fn extend(&mut self, bytes: &[u8])
        ensures
            final(self)@ == old(self)@ + bytes@,
    {
        self.buffer.extend_from_slice(bytes);
        assert(self.buffer@ =~= old(self)@ + bytes@);
    }

    /// The number of buffered bytes.
    pub fn len(&self) -> (r: usize)
        ensures
            r == self@.len(),
    {
        self.buffer.len()
    }

    /// Takes the payload of the frame at the front, when the whole frame has arrived;
    /// otherwise leaves the buffer as it is.
    pub fn next_frame(&mut self) -> (r: Option<Vec<u8>>)
        ensures
            frame_ready(old(self)@) ==> (r matches Some(payload) && payload@ == old(self)@.subrange(
                4,
                frame_end(old(self)@),
            ) && final(self)@ == old(self)@.subrange(frame_end(old(self)@), old(self)@.len() as int)),
            !frame_ready(old(self)@) ==> r is None && final(self)@ == old(self)@,
    {
        if self.buffer.len() < 4 {
            return None;
        }
        let len = u32_from_le_bytes(&self.buffer.as_slice()[0..4]) as usize;
        assert(self.buffer@.subrange(0, 4) == old(self)@.subrange(0, 4));
        if len > self.buffer.len() - 4 {
            return None;
        }
        let mut rest = self.buffer.split_off(4 + len);
        std::mem::swap(&mut self.buffer, &mut rest);
        let payload = rest.split_off(4);
        Some(payload)
    }
}

impl FrameBuffer {
    /// Takes the payloads of all complete frames at the front, in order, and keeps
    /// what follows them.
    pub fn take_ready_frames(&mut self) -> (r: Vec<Vec<u8>>)
        ensures
            r@.map_values(|p: Vec<u8>| p@) == drain_frames(old(self)@).0,
            final(self)@ == drain_frames(old(self)@).1,
    {
        let mut out: Vec<Vec<u8>> = Vec::new();
        loop
            invariant
                out@.map_values(|p: Vec<u8>| p@) + drain_frames(self@).0 == drain_frames(
                    old(self)@,
                ).0,
                drain_frames(self@).1 == drain_frames(old(self)@).1,
            decreases self@.len(),
        {
            let ghost before = self@;
            let ghost taken = out@;
            match self.next_frame() {
                None => {
                    assert(out@.map_values(|p: Vec<u8>| p@) + drain_frames(self@).0 =~= out@.map_values(
                        |p: Vec<u8>| p@,
                    ));
                    return out;
                },
                Some(payload) => {
                    let ghost pv = payload@;
                    out.push(payload);
                    assert(out@.map_values(|p: Vec<u8>| p@) =~= taken.map_values(|p: Vec<u8>| p@).push(
                        pv,
                    ));
                    assert(drain_frames(before).0 =~= seq![pv] + drain_frames(self@).0);
                    assert(out@.map_values(|p: Vec<u8>| p@) + drain_frames(self@).0 =~= taken.map_values(
                        |p: Vec<u8>| p@,
                    ) + drain_frames(before).0);
                },
            }
        }
    }
}

/// NinjaTrader connection: the connection state and the message decoding; the
/// listening socket is kept by the caller.
pub struct NinjaTraderConnection {
    base: BaseExchangeConnection,
}

impl View for NinjaTraderConnection {
    type V = BaseConnectionView;

    closed spec fn view(&self) -> BaseConnectionView {
        self.base@
    }
}

impl NinjaTraderConnection {
    /// The configuration the connection was made with.
    pub closed spec fn spec_config(&self) -> ExchangeConfig {
        self.base.spec_config()
    }

    /// Create a new NinjaTrader connection, not yet listening.
    pub fn new(config: ExchangeConfig) -> (r: Self)
        ensures
            r@ == (BaseConnectionView {
                exchange_id: ExchangeIdView::NinjaTrader,
                stats: zero_stats(),
                connected: false,
            }),
            r.spec_config() == config,
    {
        NinjaTraderConnection { base: BaseExchangeConnection::new(ExchangeId::NinjaTrader, config) }
    }

    /// The configuration.
    pub fn config(&self) -> (r: &ExchangeConfig)
        ensures
            *r == self.spec_config(),
    {
        self.base.config()
    }

    /// Parse a message, stamped with the clock's time of receipt.
    pub fn parse_message(&self, data: &[u8]) -> (r: Result<ExchangeData, ProtocolError>)
        ensures
            data_result(r) == message_data(data@, result_timestamp(data_result(r))),
    {
        let now = unix_time_nanos();
        decode_message(data, now)
    }

    /// Parse a quote payload (the message after its type byte), stamped with the clock's time.
    pub fn parse_quote(&self, data: &[u8]) -> (r: Result<ExchangeData, ProtocolError>)
        ensures
            data_result(r) == quote_payload(data@, result_timestamp(data_result(r))),
    {
        let now = unix_time_nanos();
        decode_quote(data, now)
    }

    /// Takes one received frame's payload, at `now`: decoded data is counted as a
    /// received message of the payload's length and returned; a payload that does
    /// not decode is counted as an error.
    pub fn process_frame_at(&mut self, payload: &[u8], now: i64) -> (r: Option<ExchangeData>)
        requires
            can_record_received(old(self)@.stats, payload@.len() as usize),
            old(self)@.stats.error_count < u64::MAX,
        ensures
            final(self).spec_config() == old(self).spec_config(),
            match message_data(payload@, now) {
                Ok(d) => r matches Some(x) && x@ == d && final(self)@ == (BaseConnectionView {
                    stats: ConnectionStats {
                        messages_received: (old(self)@.stats.messages_received + 1) as u64,
                        bytes_received: (old(self)@.stats.bytes_received + payload@.len()) as u64,
                        last_message_time: Some(now),
                        ..old(self)@.stats
                    },
                    ..old(self)@
                }),
                Err(_) => r is None && final(self)@ == (BaseConnectionView {
                    stats: ConnectionStats {
                        error_count: (old(self)@.stats.error_count + 1) as u64,
                        ..old(self)@.stats
                    },
                    ..old(self)@
                }),
            },
    {
        match decode_message(payload, now) {
            Ok(data) => {
                self.base.update_received_stats_at(payload.len(), now);
                Some(data)
            },
            Err(_) => {
                self.base.increment_error_count();
                None
            },
        }
    }

    /// Takes one received frame's payload at the clock's time.
    pub fn process_frame(&mut self, payload: &[u8]) -> (r: Option<ExchangeData>)
        requires
            can_record_received(old(self)@.stats, payload@.len() as usize),
            old(self)@.stats.error_count < u64::MAX,
        ensures
            final(self).spec_config() == old(self).spec_config(),
            message_data(payload@, 0) is Err ==> r is None && final(self)@ == (BaseConnectionView {
                stats: ConnectionStats {
                    error_count: (old(self)@.stats.error_count + 1) as u64,
                    ..old(self)@.stats
                },
                ..old(self)@
            }),
            message_data(payload@, 0) is Ok ==> (r matches Some(x) && final(self)@.stats.last_message_time is Some
                && message_data(payload@, final(self)@.stats.last_message_time->0) == Ok::<ExchangeDataView, ProtocolErrorView>(x@)
                && final(self)@ == (BaseConnectionView {
                stats: ConnectionStats {
                    messages_received: (old(self)@.stats.messages_received + 1) as u64,
                    bytes_received: (old(self)@.stats.bytes_received + payload@.len()) as u64,
                    last_message_time: final(self)@.stats.last_message_time,
                    ..old(self)@.stats
                },
                ..old(self)@
            })),
            frame_taken(old(self)@, payload@, final(self)@),
    {
        let now = unix_time_nanos();
        self.process_frame_at(payload, now)
    }

    /// Whether the counters can take one more frame of `len` bytes, as a
    /// message or as an error.
    pub fn can_take_frame(&self, len: usize) -> (r: bool)
        ensures
            r == (can_record_received(self@.stats, len) && self@.stats.error_count < u64::MAX),
    {
        self.base.can_record_received(len) && self.base.get_stats().error_count < u64::MAX
    }

    /// The listening socket is bound: the connection is up.
    pub fn mark_connected(&mut self)
        ensures
            final(self)@.exchange_id == old(self)@.exchange_id,
            final(self)@.connected,
            final(self)@.stats.connection_time is Some,
            final(self)@.stats == (ConnectionStats {
                connection_time: final(self)@.stats.connection_time,
                ..old(self)@.stats
            }),
            final(self).spec_config() == old(self).spec_config(),
    {
        self.base.set_connected(true);
    }

    /// Disconnect: the connection is down.
    pub fn disconnect(&mut self)
        ensures
            final(self)@ == (BaseConnectionView { connected: false, ..old(self)@ }),
            final(self).spec_config() == old(self).spec_config(),
    {
        self.base.set_connected(false);
    }

    pub fn is_connected(&self) -> (r: bool)
        ensures
            r == self@.connected,
    {
        self.base.is_connected()
    }

    /// Healthy while connected, disconnected otherwise.
    pub fn health_check(&self) -> (r: ConnectionHealth)
        ensures
            r == (if self@.connected {
                ConnectionHealth::Healthy
            } else {
                ConnectionHealth::Disconnected
            }),
    {
        if self.is_connected() {
            ConnectionHealth::Healthy
        } else {
            ConnectionHealth::Disconnected
        }
    }

    /// NinjaTrader sends all market data without subscription: always accepted.
    pub fn subscribe_market_data(&mut self, symbols: &[Symbol]) -> (r: Result<(), ConnectionError>)
        ensures
            r is Ok,
            final(self)@ == old(self)@,
    {
        Ok(())
    }

    /// There is nothing to unsubscribe from: always accepted.
    pub fn unsubscribe_market_data(&mut self, symbols: &[Symbol]) -> (r: Result<(), ConnectionError>)
        ensures
            r is Ok,
            final(self)@ == old(self)@,
    {
        Ok(())
    }

    /// Orders are not executed over NinjaTrader: always refused.
    pub fn submit_order(&mut self, order: OrderRequest) -> (r: Result<OrderId, ConnectionError>)
        ensures
            r == Err::<OrderId, ConnectionError>(ConnectionError::OrderExecutionUnsupported),
            final(self)@ == old(self)@,
    {
        Err(ConnectionError::OrderExecutionUnsupported)
    }

    /// Orders are not executed over NinjaTrader: always refused.
    pub fn cancel_order(&mut self, order_id: OrderId) -> (r: Result<(), ConnectionError>)
        ensures
            r == Err::<(), ConnectionError>(ConnectionError::OrderExecutionUnsupported),
            final(self)@ == old(self)@,
    {
        Err(ConnectionError::OrderExecutionUnsupported)
    }

    pub fn exchange_id(&self) -> (r: ExchangeId)
        ensures
            r@ == self@.exchange_id,
    {
        self.base.exchange_id()
    }

    pub fn get_stats(&self) -> (r: ConnectionStats)
        ensures
            r == self@.stats,
    {
        self.base.get_stats()
    }
}

/// A fresh NinjaTrader connection for `config`.
pub open spec fn ninjatrader_created(
    r: Result<ExchangeConnectionKind, FactoryError>,
    config: ExchangeConfig,
) -> bool {
    r matches Ok(ExchangeConnectionKind::NinjaTrader(c)) && c@ == (BaseConnectionView {
        exchange_id: ExchangeIdView::NinjaTrader,
        stats: zero_stats(),
        connected: false,
    }) && c.spec_config() == config
}

/// Factory for creating NinjaTrader connections.
pub struct NinjaTraderFactory;

impl NinjaTraderFactory {
    pub fn new() -> (r: Self) {
        NinjaTraderFactory
    }
}

impl ConnectionFactory for NinjaTraderFactory {
    fn create_connection(&self, config: ExchangeConfig) -> (r: Result<
        ExchangeConnectionKind,
        FactoryError,
    >)
        ensures
            ninjatrader_created(r, config),
    {
        Ok(ExchangeConnectionKind::NinjaTrader(NinjaTraderConnection::new(config)))
    }

    fn exchange_id(&self) -> (r: ExchangeId)
        ensures
            r@ == ExchangeIdView::NinjaTrader,
    {
        ExchangeId::NinjaTrader
    }

    fn supported_features(&self) -> (r: Vec<ExchangeFeature>)
        ensures
            r@ == seq![ExchangeFeature::MarketData],
    {
        let mut v = Vec::new();
        v.push(ExchangeFeature::MarketData);
        assert(v@ =~= seq![ExchangeFeature::MarketData]);
        v
    }
}

/// A stream of frames is taken apart into the payloads it carries, whole and in
/// order, and what follows the last frame is left in the buffer.
pub proof fn law_frames_in_order(payloads: Seq<Seq<u8>>, rest: Seq<u8>)
    requires
        forall|i: int| 0 <= i < payloads.len() ==> (#[trigger] payloads[i]).len() <= u32::MAX,
    ensures
        take_frames(encode_frames(payloads) + rest, payloads.len()) == (payloads, rest),
    decreases payloads.len(),
{
    if payloads.len() > 0 {
        let tail = payloads.drop_first();
        assert forall|i: int| 0 <= i < tail.len() implies (#[trigger] tail[i]).len() <= u32::MAX by {
            assert(tail[i] == payloads[i + 1]);
        }
        law_frames_in_order(tail, rest);
        let after = encode_frames(tail) + rest;
        law_frame_roundtrip(payloads[0], after);
        let all = encode_frames(payloads) + rest;
        assert(all =~= encode_frame(payloads[0]) + after);
        assert(seq![payloads[0]] + tail =~= payloads);
    } else {
        assert(encode_frames(payloads) + rest =~= rest);
        assert(payloads =~= Seq::<Seq<u8>>::empty());
    }
}

/// Decoding a frame gives back the payload it carries and leaves what follows it.
pub proof fn law_frame_roundtrip(payload: Seq<u8>, rest: Seq<u8>)
    requires
        payload.len() <= u32::MAX,
    ensures
        frame_ready(encode_frame(payload) + rest),
        (encode_frame(payload) + rest).subrange(4, frame_end(encode_frame(payload) + rest))
            == payload,
        (encode_frame(payload) + rest).subrange(
            frame_end(encode_frame(payload) + rest),
            (encode_frame(payload) + rest).len() as int,
        ) == rest,
{
    lemma_auto_spec_u32_to_from_le_bytes();
    let n = payload.len() as u32;
    let all = encode_frame(payload) + rest;
    assert(spec_u32_to_le_bytes(n).len() == 4);
    assert(all.subrange(0, 4) =~= spec_u32_to_le_bytes(n));
    assert(le_u32_at(all, 0) == n);
    assert(all.subrange(4, 4 + n) =~= payload);
    assert(all.subrange(4 + n, all.len() as int) =~= rest);
}

proof fn lemma_drain_append(a: Seq<u8>, b: Seq<u8>)
    ensures
        drain_frames(a + b) == (
            drain_frames(a).0 + drain_frames(drain_frames(a).1 + b).0,
            drain_frames(drain_frames(a).1 + b).1,
        ),
    decreases a.len(),
{
    if frame_ready(a) {
        let ab = a + b;
        assert(ab.subrange(0, 4) =~= a.subrange(0, 4));
        assert(le_u32_at(ab, 0) == le_u32_at(a, 0));
        let end = frame_end(a);
        let tail = a.subrange(end, a.len() as int);
        assert(ab.subrange(end, ab.len() as int) =~= tail + b);
        assert(ab.subrange(4, end) =~= a.subrange(4, end));
        lemma_drain_append(tail, b);
        assert(drain_frames(a).1 == drain_frames(tail).1);
        assert((seq![a.subrange(4, end)] + drain_frames(tail).0) + drain_frames(
            drain_frames(tail).1 + b,
        ).0 =~= seq![a.subrange(4, end)] + (drain_frames(tail).0 + drain_frames(
            drain_frames(tail).1 + b,
        ).0));
    } else {
        assert(drain_frames(a).0 + drain_frames(a + b).0 =~= drain_frames(a + b).0);
    }
}

proof fn lemma_drained_rest(buf: Seq<u8>)
    ensures
        !frame_ready(drain_frames(buf).1),
    decreases buf.len(),
{
    if frame_ready(buf) {
        lemma_drained_rest(buf.subrange(frame_end(buf), buf.len() as int));
    }
}

/// However a stream is split into reads, the reader takes the same payloads in
/// the same order and keeps the same bytes buffered as if all of it had arrived
/// in one read. `pending` is what a reader keeps between reads: nothing at the
/// start, and never a complete frame.
pub proof fn law_frames_independent_of_reads(pending: Seq<u8>, reads: Seq<Seq<u8>>)
    requires
        !frame_ready(pending),
    ensures
        read_frames(pending, reads) == drain_frames(pending + reads.flatten()),
    decreases reads.len(),
{
    if reads.len() == 0 {
        assert(pending + reads.flatten() =~= pending);
    } else {
        let first = pending + reads[0];
        let tail = reads.drop_first();
        lemma_drained_rest(first);
        law_frames_independent_of_reads(drain_frames(first).1, tail);
        lemma_drain_append(first, tail.flatten());
        assert(reads.flatten() == reads[0] + tail.flatten());
        assert(pending + reads.flatten() =~= first + tail.flatten());
        let later = read_frames(drain_frames(first).1, tail);
        assert(read_frames(pending, reads) == (drain_frames(first).0 + later.0, later.1));
    }
}

proof fn lemma_drain_encoded(payloads: Seq<Seq<u8>>, partial: Seq<u8>)
    requires
        forall|i: int| 0 <= i < payloads.len() ==> (#[trigger] payloads[i]).len() <= u32::MAX,
        !frame_ready(partial),
    ensures
        drain_frames(encode_frames(payloads) + partial) == (payloads, partial),
    decreases payloads.len(),
{
    if payloads.len() > 0 {
        let tail = payloads.drop_first();
        assert forall|i: int| 0 <= i < tail.len() implies (#[trigger] tail[i]).len() <= u32::MAX by {
            assert(tail[i] == payloads[i + 1]);
        }
        lemma_drain_encoded(tail, partial);
        let after = encode_frames(tail) + partial;
        law_frame_roundtrip(payloads[0], after);
        assert(encode_frames(payloads) + partial =~= encode_frame(payloads[0]) + after);
        assert(seq![payloads[0]] + tail =~= payloads);
    } else {
        assert(encode_frames(payloads) + partial =~= partial);
        assert(payloads =~= Seq::<Seq<u8>>::empty());
    }
}

/// A stream made of whole frames followed by the start of one more, arriving in
/// reads of any sizes, gives the reader the frames' payloads, whole and in order,
/// and leaves the incomplete frame buffered.
pub proof fn law_stream_of_frames(payloads: Seq<Seq<u8>>, partial: Seq<u8>, reads: Seq<Seq<u8>>)
    requires
        forall|i: int| 0 <= i < payloads.len() ==> (#[trigger] payloads[i]).len() <= u32::MAX,
        !frame_ready(partial),
        reads.flatten() == encode_frames(payloads) + partial,
    ensures
        read_frames(Seq::empty(), reads) == (payloads, partial),
{
    law_frames_independent_of_reads(Seq::empty(), reads);
    assert(Seq::<u8>::empty() + reads.flatten() =~= reads.flatten());
    lemma_drain_encoded(payloads, partial);
}

proof fn lemma_frames_taken(states: Seq<BaseConnectionView>, payloads: Seq<Seq<u8>>)
    requires
        states.len() == payloads.len() + 1,
        forall|i: int|
            0 <= i < payloads.len() ==> frame_taken(states[i], #[trigger] payloads[i], states[i + 1]),
        states[0].stats.messages_received + frame_counts(payloads).0 <= u64::MAX,
        states[0].stats.bytes_received + frame_counts(payloads).1 <= u64::MAX,
        states[0].stats.error_count + frame_counts(payloads).2 <= u64::MAX,
    ensures
        frame_counts(payloads).0 >= 0 && frame_counts(payloads).1 >= 0 && frame_counts(payloads).2 >= 0,
        states.last().stats.messages_received == states[0].stats.messages_received + frame_counts(payloads).0,
        states.last().stats.bytes_received == states[0].stats.bytes_received + frame_counts(payloads).1,
        states.last().stats.error_count == states[0].stats.error_count + frame_counts(payloads).2,
        states.last() == (BaseConnectionView {
            stats: ConnectionStats {
                messages_received: states.last().stats.messages_received,
                bytes_received: states.last().stats.bytes_received,
                error_count: states.last().stats.error_count,
                last_message_time: states.last().stats.last_message_time,
                ..states[0].stats
            },
            ..states[0]
        }),
    decreases payloads.len(),
{
    if payloads.len() > 0 {
        let n = payloads.len() - 1;
        let ps = payloads.drop_last();
        let ss = states.drop_last();
        assert forall|i: int| 0 <= i < ps.len() implies frame_taken(ss[i], #[trigger] ps[i], ss[i + 1]) by {
            assert(ps[i] == payloads[i]);
            assert(frame_taken(states[i], payloads[i], states[i + 1]));
        }
        lemma_frames_taken(ss, ps);
        assert(frame_taken(states[n], payloads[n], states[n + 1]));
        assert(ss.last() == states[n]);
        assert(payloads.last() == payloads[n]);
    }
}

/// Taking the payloads that a stream's reads deliver, one after another as they
/// come, adds to the connection's counters: as received messages, the number of
/// payloads that decode; as received bytes, their total length; as errors, the
/// number that do not decode. The other statistics, the exchange and whether
/// the connection is up are unchanged. However the stream is split into reads,
/// the payloads and so these counts are the same (see
/// [`law_frames_independent_of_reads`]). `states` are the connection's states
/// before the first payload and after each one; the counters must not overflow.
pub proof fn law_stream_statistics(reads: Seq<Seq<u8>>, states: Seq<BaseConnectionView>)
    requires
        states.len() == read_frames(Seq::empty(), reads).0.len() + 1,
        forall|i: int|
            0 <= i < read_frames(Seq::empty(), reads).0.len() ==> frame_taken(
                states[i],
                #[trigger] read_frames(Seq::empty(), reads).0[i],
                states[i + 1],
            ),
        states[0].stats.messages_received + frame_counts(read_frames(Seq::empty(), reads).0).0
            <= u64::MAX,
        states[0].stats.bytes_received + frame_counts(read_frames(Seq::empty(), reads).0).1
            <= u64::MAX,
        states[0].stats.error_count + frame_counts(read_frames(Seq::empty(), reads).0).2
            <= u64::MAX,
    ensures
        read_frames(Seq::empty(), reads).0 == drain_frames(reads.flatten()).0,
        states.last().stats.messages_received == states[0].stats.messages_received + frame_counts(
            drain_frames(reads.flatten()).0,
        ).0,
        states.last().stats.bytes_received == states[0].stats.bytes_received + frame_counts(
            drain_frames(reads.flatten()).0,
        ).1,
        states.last().stats.error_count == states[0].stats.error_count + frame_counts(
            drain_frames(reads.flatten()).0,
        ).2,
        states.last() == (BaseConnectionView {
            stats: ConnectionStats {
                messages_received: states.last().stats.messages_received,
                bytes_received: states.last().stats.bytes_received,
                error_count: states.last().stats.error_count,
                last_message_time: states.last().stats.last_message_time,
                ..states[0].stats
            },
            ..states[0]
        }),
{
    law_frames_independent_of_reads(Seq::empty(), reads);
    assert(Seq::<u8>::empty() + reads.flatten() =~= reads.flatten());
    lemma_frames_taken(states, read_frames(Seq::empty(), reads).0);
}

/// The NUL characters of length `k`.
pub open spec fn nuls(k: nat) -> Seq<char> {
    Seq::new(k, |i: int| '\0')
}

proof fn lemma_trim_trailing_nul(s: Seq<char>) -> (k: nat)
    ensures
        s == trim_trailing_nul(s) + nuls(k),
        trim_trailing_nul(s).len() == 0 || trim_trailing_nul(s).last() != '\0',
    decreases s.len(),
{
    if s.len() > 0 && s.last() == '\0' {
        let k0 = lemma_trim_trailing_nul(s.drop_last());
        let t = trim_trailing_nul(s.drop_last());
        assert(s =~= s.drop_last().push('\0'));
        assert(nuls(k0 + 1) =~= nuls(k0).push('\0'));
        assert((t + nuls(k0)).push('\0') =~= t + nuls(k0).push('\0'));
        k0 + 1
    } else {
        assert(s =~= s + nuls(0));
        0
    }
}

/// A trade message decodes to the fields at their places: type byte 1, then
/// the symbol field (bytes 1 to 8), whose UTF-8 text is the symbol followed by
/// NULs only, the symbol itself not ending in NUL; the price, the double of
/// bytes 8 to 16, little-endian; the quantity, bytes 16 to 20; the time of
/// receipt. Every message of type 1 with at least 20 bytes and a UTF-8 symbol
/// field decodes so.
pub proof fn law_binary_trade_fields(data: Seq<u8>, now: i64)
    ensures
        message_data(data, now) matches Ok(ExchangeDataView::Trade(t)) ==> {
            &&& data[0] == 1 && data.len() >= 20
            &&& valid_utf8(data.subrange(1, 8))
            &&& exists|k: nat| decode_utf8(data.subrange(1, 8)) == t.symbol + nuls(k)
            &&& t.symbol.len() == 0 || t.symbol.last() != '\0'
            &&& t.price.f64_bits == spec_u64_from_le_bytes(data.subrange(8, 16))
            &&& t.quantity == spec_u32_from_le_bytes(data.subrange(16, 20))
            &&& t.timestamp == now
        },
        data.len() >= 20 && data[0] == 1 && valid_utf8(data.subrange(1, 8)) ==> message_data(
            data,
            now,
        ) is Ok,
{
    if data.len() >= 4 {
        let payload = data.subrange(1, data.len() as int);
        if payload.len() >= 19 {
            assert(payload.subrange(0, 7) =~= data.subrange(1, 8));
            assert(payload.subrange(7, 15) =~= data.subrange(8, 16));
            assert(payload.subrange(15, 19) =~= data.subrange(16, 20));
            let k = lemma_trim_trailing_nul(decode_utf8(data.subrange(1, 8)));
        }
    }
}

/// A quote message decodes to the fields at their places: type byte 2, then the
/// symbol field (bytes 1 to 8) read as for a trade, the UTF-8 text of the whole
/// field without its trailing NULs; the bid and ask prices, the doubles of bytes
/// 8 to 16 and 16 to 24; the bid and ask quantities, bytes 24 to 28 and 28 to
/// 32; the time of receipt. Every message of type 2 with at least 32 bytes and a
/// UTF-8 symbol field decodes so. A quote's symbol is a trade's symbol for the
/// same symbol field.
pub proof fn law_binary_quote_fields(data: Seq<u8>, now: i64)
    ensures
        message_data(data, now) matches Ok(ExchangeDataView::Quote(q)) ==> {
            &&& data[0] == 2 && data.len() >= 32
            &&& valid_utf8(data.subrange(1, 8))
            &&& exists|k: nat| decode_utf8(data.subrange(1, 8)) == q.symbol + nuls(k)
            &&& q.symbol.len() == 0 || q.symbol.last() != '\0'
            &&& q.bid_price.f64_bits == spec_u64_from_le_bytes(data.subrange(8, 16))
            &&& q.ask_price.f64_bits == spec_u64_from_le_bytes(data.subrange(16, 24))
            &&& q.bid_quantity == spec_u32_from_le_bytes(data.subrange(24, 28))
            &&& q.ask_quantity == spec_u32_from_le_bytes(data.subrange(28, 32))
            &&& q.timestamp == now
        },
        data.len() >= 32 && data[0] == 2 && valid_utf8(data.subrange(1, 8)) ==> message_data(
            data,
            now,
        ) is Ok,
        forall|trade: Seq<u8>|
            #![trigger message_data(trade, now)]
            trade.subrange(1, 8) == data.subrange(1, 8) ==> (message_data(data, now) matches Ok(
                ExchangeDataView::Quote(q),
            ) ==> (message_data(trade, now) matches Ok(ExchangeDataView::Trade(t)) ==> q.symbol
                == t.symbol)),
{
    if data.len() >= 4 {
        let payload = data.subrange(1, data.len() as int);
        if payload.len() >= 31 {
            assert(payload.subrange(0, 7) =~= data.subrange(1, 8));
            assert(payload.subrange(7, 15) =~= data.subrange(8, 16));
            assert(payload.subrange(15, 23) =~= data.subrange(16, 24));
            assert(payload.subrange(23, 27) =~= data.subrange(24, 28));
            assert(payload.subrange(27, 31) =~= data.subrange(28, 32));
            let k = lemma_trim_trailing_nul(decode_utf8(data.subrange(1, 8)));
        }
    }
    assert forall|trade: Seq<u8>|
        #![trigger message_data(trade, now)]
        trade.subrange(1, 8) == data.subrange(1, 8) implies (message_data(data, now) matches Ok(
            ExchangeDataView::Quote(q),
        ) ==> (message_data(trade, now) matches Ok(ExchangeDataView::Trade(t)) ==> q.symbol
            == t.symbol)) by {
        if trade.len() >= 20 && data.len() >= 32 {
            let tp = trade.subrange(1, trade.len() as int);
            assert(tp.subrange(0, 7) =~= trade.subrange(1, 8));
            let dp = data.subrange(1, data.len() as int);
            assert(dp.subrange(0, 7) =~= data.subrange(1, 8));
        }
    }
}

/// Which messages are refused, and why: fewer than four bytes; a type byte
/// other than 1, 2 or 3 (the error names it); a trade of fewer than 20 bytes or a
/// quote of fewer than 32; a symbol field that is no UTF-8. An order book message
/// of four bytes or more always decodes, to an empty book stamped with the time
/// of receipt.
pub proof fn law_binary_refusals_and_books(data: Seq<u8>, now: i64)
    ensures
        data.len() < 4 ==> message_data(data, now) == Err::<ExchangeDataView, ProtocolErrorView>(
            ProtocolErrorView::MessageTooShort,
        ),
        data.len() >= 4 && data[0] != 1 && data[0] != 2 && data[0] != 3 ==> message_data(data, now)
            == Err::<ExchangeDataView, ProtocolErrorView>(
            ProtocolErrorView::UnknownMessageType(data[0]),
        ),
        4 <= data.len() < 20 && data[0] == 1 ==> message_data(data, now) == Err::<
            ExchangeDataView,
            ProtocolErrorView,
        >(ProtocolErrorView::TradeTooShort),
        4 <= data.len() < 32 && data[0] == 2 ==> message_data(data, now) == Err::<
            ExchangeDataView,
            ProtocolErrorView,
        >(ProtocolErrorView::QuoteTooShort),
        data.len() >= 20 && data[0] == 1 && !valid_utf8(data.subrange(1, 8)) ==> message_data(
            data,
            now,
        ) == Err::<ExchangeDataView, ProtocolErrorView>(ProtocolErrorView::InvalidSymbol),
        data.len() >= 32 && data[0] == 2 && !valid_utf8(data.subrange(1, 8)) ==> message_data(
            data,
            now,
        ) == Err::<ExchangeDataView, ProtocolErrorView>(ProtocolErrorView::InvalidSymbol),
        data.len() >= 4 && data[0] == 3 ==> (message_data(data, now) matches Ok(
            ExchangeDataView::OrderBook(b),
        ) && b.bids.len() == 0 && b.asks.len() == 0 && b.timestamp == now),
{
    if data.len() >= 4 {
        let payload = data.subrange(1, data.len() as int);
        if payload.len() >= 19 {
            assert(payload.subrange(0, 7) =~= data.subrange(1, 8));
        }
    }
}

} // verus!
