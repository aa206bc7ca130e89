//! A feed update as a tick: its symbol normalized, its time in milliseconds and its
//! price as a decimal.
use vstd::prelude::*;

use crate::decimal::{decimal_parse, opt_view, representable, DecView, Decimal};
use crate::text::{i64_text, int_text, parse_i128, signed_int_spec, trim, trim_spec};
use crate::types::tick::{normalized_symbol, RtdsSymbol, Tick};

use super::message::{raw_value_spec, RtdsPayload};

verus! {

#[derive(Debug, Clone)]
pub struct NormalizedRtdsTick {
    pub symbol: RtdsSymbol,
    pub timestamp_ms: i64,
    pub raw_value: String,
    pub full_accuracy_value: Option<String>,
    pub normalized_value: Decimal,
}

/// Why an update could not be read.
#[derive(Debug, Clone)]
pub struct RtdsError {
    pub message: String,
}

impl NormalizedRtdsTick {
    /// The tick, received at `received_at_ms`.
    pub fn into_tick(self, received_at_ms: i64) -> (r: Tick)
        ensures
            r.symbol@ == normalized_symbol(self.symbol@),
            r.timestamp_ms == self.timestamp_ms,
            r.raw_value == self.raw_value,
            r.full_accuracy_value == self.full_accuracy_value,
            r.normalized_value == self.normalized_value,
            r.received_at_ms == received_at_ms,
    {
        Tick::from_rtds(
            self.symbol.as_str(),
            self.timestamp_ms,
            self.raw_value,
            self.full_accuracy_value,
            self.normalized_value,
            received_at_ms,
        )
    }
}

/// Seconds become milliseconds: values under ten billion in magnitude are scaled by a
/// thousand.
pub open spec fn feed_ms_spec(v: int) -> int {
    if -10000000000 < v < 10000000000 {
        v * 1000
    } else {
        v
    }
}

/// The integer of the full-accuracy text, where it fits in `i128`.
pub open spec fn full_accuracy_int(full: Seq<char>) -> Option<int> {
    match signed_int_spec(trim_spec(full)) {
        Some(v) => if i128::MIN <= v <= i128::MAX {
            Some(v)
        } else {
            None
        },
        None => None,
    }
}

/// The price: the trimmed raw text as a decimal, or else the full-accuracy integer
/// with eighteen fractional digits; `None` where neither reads.
pub open spec fn feed_value_spec(raw: Seq<char>, full: Option<Seq<char>>) -> Option<DecView> {
    match decimal_parse(trim_spec(raw)) {
        Some(d) => Some(d),
        None => match full {
            Some(f) => match full_accuracy_int(f) {
                Some(v) => Some((v, 18nat)),
                None => None,
            },
            None => None,
        },
    }
}

/// Reading the payload does not overflow: the timestamp has an absolute value, and a
/// full-accuracy integer that is used fits a decimal.
pub open spec fn payload_safe(p: RtdsPayload) -> bool {
    &&& p.timestamp != i64::MIN
    &&& (decimal_parse(trim_spec(raw_value_spec(p))) is None && p.full_accuracy_value is Some && full_accuracy_int(
        p.full_accuracy_value->0@,
    ) is Some) ==> representable((full_accuracy_int(p.full_accuracy_value->0@)->0, 18nat))
}

/// The error text for an update whose price does not read.
pub open spec fn feed_error_text(p: RtdsPayload) -> Seq<char> {
    "failed to normalize RTDS value for symbol "@ + normalized_symbol(p.symbol@) + " at "@ + int_text(
        feed_ms_spec(p.timestamp as int),
    )
}

/// `r` is what normalizing the payload gives: the tick, or the error where the price
/// does not read.
pub open spec fn normalized_outcome(payload: RtdsPayload, r: Result<NormalizedRtdsTick, RtdsError>) -> bool {
    match feed_value_spec(
        raw_value_spec(payload),
        match payload.full_accuracy_value {
            Some(f) => Some(f@),
            None => None,
        },
    ) {
        Some(v) => r is Ok && r->Ok_0.symbol@ == normalized_symbol(payload.symbol@) && r->Ok_0.timestamp_ms
            == feed_ms_spec(payload.timestamp as int) && r->Ok_0.raw_value@ == raw_value_spec(payload)
            && r->Ok_0.full_accuracy_value == payload.full_accuracy_value && r->Ok_0.normalized_value@ == v,
        None => r is Err && r->Err_0.message@ == feed_error_text(payload),
    }
}

fn normalize_timestamp_ms(timestamp: i64) -> (r: i64)
    requires
        timestamp != i64::MIN,
    ensures
        r as int == feed_ms_spec(timestamp as int),
{
    let abs = if timestamp < 0 {
        -timestamp
    } else {
        timestamp
    };
    if abs < 10_000_000_000 {
        timestamp * 1_000
    } else {
        timestamp
    }
}

fn normalize_value(raw_value: &str, full_accuracy_value: Option<&String>) -> (r: Option<Decimal>)
    requires
        (decimal_parse(trim_spec(raw_value@)) is None && full_accuracy_value is Some && full_accuracy_int(
            full_accuracy_value->0@,
        ) is Some) ==> representable((full_accuracy_int(full_accuracy_value->0@)->0, 18nat)),
    ensures
        opt_view(r) == feed_value_spec(
            raw_value@,
            match full_accuracy_value {
                Some(f) => Some(f@),
                None => None,
            },
        ),
{
    let trimmed = trim(raw_value);
    match Decimal::parse(trimmed.as_str()) {
        Some(v) => {
            return Some(v);
        },
        None => {},
    }
    match full_accuracy_value {
        Some(f) => {
            let t = trim(f.as_str());
            match parse_i128(t.as_str()) {
                Some(n) => Some(Decimal::from_i128_with_scale(n, 18)),
                None => None,
            }
        },
        None => None,
    }
}

/// Normalizes the update: its symbol, its time in milliseconds, and its price; an error
/// where the price does not read.
pub fn normalize_rtds_payload(payload: &RtdsPayload) -> (r: Result<NormalizedRtdsTick, RtdsError>)
    requires
        payload_safe(*payload),
    ensures
        normalized_outcome(*payload, r),
{
    let symbol = RtdsSymbol::normalized(payload.symbol.as_str());
    let timestamp_ms = normalize_timestamp_ms(payload.timestamp);
    let raw_value = payload.raw_value_string();
    let full = match &payload.full_accuracy_value {
        Some(f) => Some(f),
        None => None,
    };
    match normalize_value(raw_value.as_str(), full) {
        Some(normalized_value) => {
            let full_accuracy_value = match &payload.full_accuracy_value {
                Some(f) => Some(f.clone()),
                None => None,
            };
            Ok(NormalizedRtdsTick { symbol, timestamp_ms, raw_value, full_accuracy_value, normalized_value })
        },
        None => {
            let mut message = "failed to normalize RTDS value for symbol ".to_owned();
            message.append(symbol.as_str());
            message.append(" at ");
            message.append(i64_text(timestamp_ms).as_str());
            Err(RtdsError { message })
        },
    }
}

/// The result `normalize_rtds_payload` gives, or `None` where reading the payload
/// would overflow.
pub fn try_normalize_rtds_payload(payload: &RtdsPayload) -> (r: Option<Result<NormalizedRtdsTick, RtdsError>>)
    ensures
        r is Some <==> payload_safe(*payload),
        r is Some ==> normalized_outcome(*payload, r->0),
{
    if payload.timestamp == i64::MIN {
        return None;
    }
    let raw_value = payload.raw_value_string();
    let trimmed = trim(raw_value.as_str());
    if Decimal::parse(trimmed.as_str()).is_none() {
        match &payload.full_accuracy_value {
            Some(f) => {
                let t = trim(f.as_str());
                match parse_i128(t.as_str()) {
                    Some(n) => {
                        if n > crate::decimal::MAX_MANTISSA || n < -crate::decimal::MAX_MANTISSA {
                            return None;
                        }
                    },
                    None => {},
                }
            },
            None => {},
        }
    }
    Some(normalize_rtds_payload(payload))
}

} // verus!
