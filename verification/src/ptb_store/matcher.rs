//! Matching a market against the opening tick of its asset, and carrying the outcome
//! onto the market.
use vstd::prelude::*;

use crate::decimal::is_pos;
use crate::ptb_store::sanity::{check_ptb_plausibility, plausibility_spec};
use crate::ptb_store::status::{PtbSource, PtbStatus};
use crate::types::asset::asset_rtds_symbol;
use crate::types::market::{opt_text, Market};
use crate::types::ptb::{bare_ptb, copy_opt, PriceToBeat};
use crate::types::tick::{normalized_symbol, RtdsSymbol, Tick};

verus! {

/// What matching a market against a tick gave.
#[derive(Debug, Clone)]
pub enum PtbMatchResult {
    CapturedExact(PriceToBeat),
    Pending(PriceToBeat),
    Invalid(PriceToBeat),
}

/// The record a match result carries.
pub open spec fn match_ptb(r: PtbMatchResult) -> PriceToBeat {
    match r {
        PtbMatchResult::CapturedExact(p) => p,
        PtbMatchResult::Pending(p) => p,
        PtbMatchResult::Invalid(p) => p,
    }
}

/// The status a match result stands for.
pub open spec fn match_status(r: PtbMatchResult) -> PtbStatus {
    match r {
        PtbMatchResult::CapturedExact(_) => PtbStatus::CapturedExact,
        PtbMatchResult::Pending(_) => PtbStatus::PendingPtb,
        PtbMatchResult::Invalid(_) => PtbStatus::InvalidPtb,
    }
}

impl PtbMatchResult {
    pub fn into_ptb(self) -> (r: PriceToBeat)
        ensures
            r == match_ptb(self),
    {
        match self {
            PtbMatchResult::CapturedExact(ptb) => ptb,
            PtbMatchResult::Pending(ptb) => ptb,
            PtbMatchResult::Invalid(ptb) => ptb,
        }
    }

    pub fn status(&self) -> (r: PtbStatus)
        ensures
            r == match_status(*self),
    {
        match self {
            PtbMatchResult::CapturedExact(_) => PtbStatus::CapturedExact,
            PtbMatchResult::Pending(_) => PtbStatus::PendingPtb,
            PtbMatchResult::Invalid(_) => PtbStatus::InvalidPtb,
        }
    }
}

/// The price-feed symbol whose ticks price the market's asset.
pub open spec fn expected_symbol_spec(market: Market) -> Seq<char> {
    normalized_symbol(asset_rtds_symbol(market.asset))
}

/// The tick is the opening tick of the market: the asset's symbol, at the open time.
pub open spec fn is_opening_tick(market: Market, tick: Tick) -> bool {
    tick.symbol@ == expected_symbol_spec(market) && tick.timestamp_ms == market.open_ms
}

/// The status that matching `market` against `tick` reaches.
pub open spec fn match_status_spec(market: Market, tick: Option<Tick>) -> PtbStatus {
    match tick {
        None => PtbStatus::PendingPtb,
        Some(t) => if !is_opening_tick(market, t) {
            PtbStatus::PendingPtb
        } else if !is_pos(t.normalized_value@) {
            PtbStatus::InvalidPtb
        } else if !plausibility_spec(market.asset, t.normalized_value@).0 {
            PtbStatus::InvalidPtb
        } else {
            PtbStatus::CapturedExact
        },
    }
}

/// `r` is what matching `market` against `tick` at `checked_at_ms` gives: a pending
/// record without a usable tick; an invalid record, with the tick's raw text and the
/// reason, for a non-positive or implausible value; otherwise the exact price with the
/// tick's values and the plausibility status.
pub open spec fn match_outcome(market: Market, tick: Option<Tick>, checked_at_ms: i64, r: PtbMatchResult) -> bool {
    let status = match_status_spec(market, tick);
    let p = match_ptb(r);
    let bare = bare_ptb(market.slug, market.asset, market.timeframe, market.open_ms, status);
    &&& match_status(r) == status
    &&& status == PtbStatus::PendingPtb ==> p == bare
    &&& status == PtbStatus::InvalidPtb ==> {
        let t = tick->0;
        &&& p == (PriceToBeat {
            raw_value: Some(t.raw_value),
            sanity_status: p.sanity_status,
            checked_at_ms: Some(checked_at_ms),
            ..bare
        })
        &&& opt_text(p.sanity_status) == Some(
            if !is_pos(t.normalized_value@) {
                "non_positive_tick_value"@
            } else {
                plausibility_spec(market.asset, t.normalized_value@).1
            },
        )
    }
    &&& status == PtbStatus::CapturedExact ==> {
        let t = tick->0;
        &&& p == (PriceToBeat {
            normalized_value: Some(t.normalized_value),
            raw_value: Some(t.raw_value),
            full_accuracy_value: t.full_accuracy_value,
            source: Some(PtbSource::RtdsOpenTick),
            source_tick_timestamp_ms: Some(t.timestamp_ms),
            sanity_status: p.sanity_status,
            checked_at_ms: Some(checked_at_ms),
            ..bare
        })
        &&& opt_text(p.sanity_status) == Some("plausible"@)
    }
}

/// The normalized price-feed symbol of the market's asset.
pub fn expected_rtds_symbol_for_market(market: &Market) -> (r: RtdsSymbol)
    ensures
        r@ == expected_symbol_spec(*market),
{
    RtdsSymbol::normalized(market.asset.rtds_symbol())
}

/// Matches the market against the tick found for its asset at its open, if any.
pub fn match_market_to_tick(market: &Market, tick: Option<&Tick>, checked_at_ms: i64) -> (r: PtbMatchResult)
    ensures
        match_outcome(*market, match tick { Some(t) => Some(*t), None => None }, checked_at_ms, r),
{
    let tick = match tick {
        None => {
            return PtbMatchResult::Pending(
                PriceToBeat::pending(market.slug.duplicate(), market.asset, market.timeframe, market.open_ms),
            );
        },
        Some(t) => t,
    };
    let expected_symbol = expected_rtds_symbol_for_market(market);
    if !tick.matches_symbol_and_timestamp(&expected_symbol, market.open_ms) {
        return PtbMatchResult::Pending(
            PriceToBeat::pending(market.slug.duplicate(), market.asset, market.timeframe, market.open_ms),
        );
    }
    if !tick.has_positive_value() {
        return PtbMatchResult::Invalid(
            PriceToBeat::invalid(
                market.slug.duplicate(),
                market.asset,
                market.timeframe,
                market.open_ms,
                Some(tick.raw_value.clone()),
                "non_positive_tick_value".to_owned(),
                checked_at_ms,
            ),
        );
    }
    let sanity = check_ptb_plausibility(market.asset, tick.normalized_value);
    if !sanity.is_plausible {
        return PtbMatchResult::Invalid(
            PriceToBeat::invalid(
                market.slug.duplicate(),
                market.asset,
                market.timeframe,
                market.open_ms,
                Some(tick.raw_value.clone()),
                sanity.status,
                checked_at_ms,
            ),
        );
    }
    PtbMatchResult::CapturedExact(
        PriceToBeat::captured_exact(
            market.slug.duplicate(),
            market.asset,
            market.timeframe,
            market.open_ms,
            tick.normalized_value,
            tick.raw_value.clone(),
            copy_opt(&tick.full_accuracy_value),
            tick.timestamp_ms,
            Some(sanity.status),
            checked_at_ms,
        ),
    )
}

/// `new` is `old` with no price to beat and status text `status`.
pub open spec fn marked_without_price(old: Market, new: Market, status: Seq<char>) -> bool {
    &&& new == (Market { price_to_beat: None, price_to_beat_status: new.price_to_beat_status, ..old })
    &&& opt_text(new.price_to_beat_status) == Some(status)
}

/// `new` is `old` marked invalid, keeping `raw` as the raw tick text.
pub open spec fn marked_invalid(old: Market, new: Market, raw: Option<String>) -> bool {
    &&& new == (Market {
        price_to_beat: None,
        price_to_beat_status: new.price_to_beat_status,
        ptb_raw_value: raw,
        ..old
    })
    &&& opt_text(new.price_to_beat_status) == Some("invalid_ptb"@)
}

/// `new` is `old` after the record `ptb` was carried onto it.
pub open spec fn applied_ptb(old: Market, ptb: PriceToBeat, new: Market) -> bool {
    match ptb.status {
        PtbStatus::PendingPtb => marked_without_price(old, new, "pending_ptb"@),
        PtbStatus::MissingPtb => marked_without_price(old, new, "missing_ptb"@),
        PtbStatus::InvalidPtb => marked_invalid(old, new, ptb.raw_value),
        PtbStatus::CapturedExact => match ptb.normalized_value {
            None => marked_invalid(old, new, ptb.raw_value),
            Some(v) => {
                &&& new == (Market {
                    price_to_beat: Some(v),
                    price_to_beat_status: new.price_to_beat_status,
                    ptb_source: new.ptb_source,
                    ptb_source_timestamp_ms: Some(
                        match ptb.source_tick_timestamp_ms {
                            Some(ts) => ts,
                            None => ptb.open_ms,
                        },
                    ),
                    ptb_raw_value: new.ptb_raw_value,
                    ptb_full_accuracy_value: ptb.full_accuracy_value,
                    ..old
                })
                &&& opt_text(new.price_to_beat_status) == Some("captured_exact"@)
                &&& opt_text(new.ptb_source) == Some(
                    match ptb.source {
                        Some(_) => "rtds_open_tick"@,
                        None => "unknown"@,
                    },
                )
                &&& opt_text(new.ptb_raw_value) == Some(
                    match ptb.raw_value {
                        Some(s) => s@,
                        None => Seq::<char>::empty(),
                    },
                )
            },
        },
    }
}

/// Carries the record's status and, for an exact price, its value and source onto the
/// market.
pub fn apply_ptb_to_market(market: &mut Market, ptb: &PriceToBeat)
    ensures
        applied_ptb(*old(market), *ptb, *final(market)),
{
    match ptb.status {
        PtbStatus::PendingPtb => {
            market.mark_pending_ptb();
        },
        PtbStatus::MissingPtb => {
            market.mark_missing_ptb();
        },
        PtbStatus::InvalidPtb => {
            market.mark_invalid_ptb(copy_opt(&ptb.raw_value));
        },
        PtbStatus::CapturedExact => {
            match ptb.normalized_value {
                Some(value) => {
                    let source = match ptb.source {
                        Some(s) => s.as_str().to_owned(),
                        None => "unknown".to_owned(),
                    };
                    let ts = match ptb.source_tick_timestamp_ms {
                        Some(ts) => ts,
                        None => ptb.open_ms,
                    };
                    let raw = match &ptb.raw_value {
                        Some(s) => s.clone(),
                        None => String::new(),
                    };
                    market.capture_exact_ptb(value, source, ts, raw, copy_opt(&ptb.full_accuracy_value));
                },
                None => {
                    market.mark_invalid_ptb(copy_opt(&ptb.raw_value));
                },
            }
        },
    }
}

/// A match that captured the exact price, carried onto the market, leaves the market
/// with that exact price: the opening tick's value.
pub proof fn lemma_captured_match_sets_exact_price(
    market: Market,
    tick: Option<Tick>,
    checked_at_ms: i64,
    r: PtbMatchResult,
    updated: Market,
)
    requires
        match_outcome(market, tick, checked_at_ms, r),
        applied_ptb(market, match_ptb(r), updated),
        match_status(r) == PtbStatus::CapturedExact,
    ensures
        crate::types::market::captured_exact_spec(updated),
        updated.price_to_beat == Some(tick->0.normalized_value),
        is_opening_tick(market, tick->0),
{
}

/// A match without an opening tick, carried onto the market, leaves the market without a
/// price to beat and marked pending.
pub proof fn lemma_pending_match_clears_price(
    market: Market,
    tick: Option<Tick>,
    checked_at_ms: i64,
    r: PtbMatchResult,
    updated: Market,
)
    requires
        match_outcome(market, tick, checked_at_ms, r),
        applied_ptb(market, match_ptb(r), updated),
        match_status(r) == PtbStatus::PendingPtb,
    ensures
        updated.price_to_beat is None,
        opt_text(updated.price_to_beat_status) == Some("pending_ptb"@),
        tick is None || !is_opening_tick(market, tick->0),
{
}

} // verus!
