//! Protocol implementations for different exchanges.
use vstd::prelude::*;

use crate::types::{ExchangeData, ExchangeDataView};

pub mod base;
pub mod ninjatrader;
pub mod websocket;

pub use base::{
    BaseExchangeConnection, ConnectionFactory, ConnectionStats, ExchangeFeature, ReconnectHandler,
};

verus! {

/// The kind of a JSON market data message.
#[derive(Debug, Clone, Copy, PartialEq, Eq)]
pub enum JsonMessageKind {
    Trade,
    Quote,
    OrderBook,
}

/// A member that a JSON market data message must have.
#[derive(Debug, Clone, Copy, PartialEq, Eq)]
pub enum JsonField {
    Symbol,
    Price,
    Quantity,
    BidPrice,
    AskPrice,
    BidQuantity,
    AskQuantity,
}

/// Why a message could not be decoded.
#[derive(Debug, PartialEq, Eq)]
pub enum ProtocolError {
    /// A binary message of fewer than four bytes.
    MessageTooShort,
    /// A binary message whose type byte is none of trade, quote, order book.
    UnknownMessageType(u8),
    /// A binary trade message shorter than its fields.
    TradeTooShort,
    /// A binary quote message shorter than its fields.
    QuoteTooShort,
    /// A symbol field that is no UTF-8.
    InvalidSymbol,
    /// Text that is no JSON.
    InvalidJson,
    /// A JSON message whose `type` is none of the known ones (`unknown` when it has none).
    UnknownJsonMessageType(String),
    /// A JSON message without one of its members, or with one of the wrong kind.
    MissingField(JsonMessageKind, JsonField),
}

/// A decoding error as plain values.
pub enum ProtocolErrorView {
    MessageTooShort,
    UnknownMessageType(u8),
    TradeTooShort,
    QuoteTooShort,
    InvalidSymbol,
    InvalidJson,
    UnknownJsonMessageType(Seq<char>),
    MissingField(JsonMessageKind, JsonField),
}

impl View for ProtocolError {
    type V = ProtocolErrorView;

    open spec fn view(&self) -> ProtocolErrorView {
        match self {
            ProtocolError::MessageTooShort => ProtocolErrorView::MessageTooShort,
            ProtocolError::UnknownMessageType(t) => ProtocolErrorView::UnknownMessageType(*t),
            ProtocolError::TradeTooShort => ProtocolErrorView::TradeTooShort,
            ProtocolError::QuoteTooShort => ProtocolErrorView::QuoteTooShort,
            ProtocolError::InvalidSymbol => ProtocolErrorView::InvalidSymbol,
            ProtocolError::InvalidJson => ProtocolErrorView::InvalidJson,
            ProtocolError::UnknownJsonMessageType(s) => ProtocolErrorView::UnknownJsonMessageType(s@),
            ProtocolError::MissingField(k, f) => ProtocolErrorView::MissingField(*k, *f),
        }
    }
}

/// A decoding result as plain values.
pub open spec fn data_result(r: Result<ExchangeData, ProtocolError>) -> Result<
    ExchangeDataView,
    ProtocolErrorView,
> {
    match r {
        Ok(d) => Ok(d@),
        Err(e) => Err(e@),
    }
}

/// The time of receipt a decoding result carries (0 for an error, which does not depend on it).
pub open spec fn result_timestamp(r: Result<ExchangeDataView, ProtocolErrorView>) -> i64 {
    match r {
        Ok(ExchangeDataView::Trade(t)) => t.timestamp,
        Ok(ExchangeDataView::Quote(q)) => q.timestamp,
        Ok(ExchangeDataView::OrderBook(b)) => b.timestamp,
        _ => 0,
    }
}

} // verus!
