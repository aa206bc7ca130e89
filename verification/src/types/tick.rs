//! Price ticks from the real-time data service.
use vstd::prelude::*;

use crate::decimal::{is_pos, Decimal};
use crate::text::{lower_spec, to_ascii_lowercase, trim, trim_spec};

verus! {

/// A price-feed symbol, trimmed and in lower case.
#[derive(Debug, Clone, PartialEq, Eq, Hash)]
pub struct RtdsSymbol(pub String);

impl View for RtdsSymbol {
    type V = Seq<char>;

    open spec fn view(&self) -> Seq<char> {
        self.0@
    }
}

/// The normalized form of a symbol.
pub open spec fn normalized_symbol(s: Seq<char>) -> Seq<char> {
    lower_spec(trim_spec(s))
}

impl RtdsSymbol {
    /// The symbol trimmed and lower-cased.
    pub fn normalized(s: &str) -> (r: RtdsSymbol)
        ensures
            r@ == normalized_symbol(s@),
    {
        let t = trim(s);
        RtdsSymbol(to_ascii_lowercase(t.as_str()))
    }

    pub fn as_str(&self) -> (r: &str)
        ensures
            r@ == self@,
    {
        self.0.as_str()
    }

    pub fn same_as(&self, other: &RtdsSymbol) -> (r: bool)
        ensures
            r == (self@ == other@),
    {
        self.0 == other.0
    }
}

#[derive(Debug, Clone)]
pub struct Tick {
    pub symbol: RtdsSymbol,
    pub timestamp_ms: i64,
    pub raw_value: String,
    pub full_accuracy_value: Option<String>,
    pub normalized_value: Decimal,
    pub received_at_ms: i64,
}

impl Tick {
    /// A tick from the feed, its symbol normalized.
    pub fn from_rtds(
        symbol: &str,
        timestamp_ms: i64,
        raw_value: String,
        full_accuracy_value: Option<String>,
        normalized_value: Decimal,
        received_at_ms: i64,
    ) -> (r: Tick)
        ensures
            r.symbol@ == normalized_symbol(symbol@),
            r.timestamp_ms == timestamp_ms,
            r.raw_value == raw_value,
            r.full_accuracy_value == full_accuracy_value,
            r.normalized_value == normalized_value,
            r.received_at_ms == received_at_ms,
    {
        Tick {
            symbol: RtdsSymbol::normalized(symbol),
            timestamp_ms,
            raw_value,
            full_accuracy_value,
            normalized_value,
            received_at_ms,
        }
    }

    /// Same symbol and same timestamp.
    pub fn matches_symbol_and_timestamp(&self, symbol: &RtdsSymbol, timestamp_ms: i64) -> (r: bool)
        ensures
            r == (self.symbol@ == symbol@ && self.timestamp_ms == timestamp_ms),
    {
        self.symbol.same_as(symbol) && self.timestamp_ms == timestamp_ms
    }

    pub fn has_positive_value(&self) -> (r: bool)
        ensures
            r == is_pos(self.normalized_value@),
    {
        self.normalized_value.gt(&Decimal::zero())
    }
}

} // verus!
