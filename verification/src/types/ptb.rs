//! The price a market settles against: the asset price at the market's open.
use vstd::prelude::*;

use crate::decimal::{DecView, Decimal};
use crate::ptb_store::status::{PtbSource, PtbStatus};
use crate::types::asset::Asset;
use crate::types::ids::MarketSlug;
use crate::types::timeframe::Timeframe;

verus! {

#[derive(Debug, Clone)]
pub struct PriceToBeat {
    pub market_slug: MarketSlug,
    pub asset: Asset,
    pub timeframe: Timeframe,
    pub open_ms: i64,
    pub status: PtbStatus,
    pub normalized_value: Option<Decimal>,
    pub raw_value: Option<String>,
    pub full_accuracy_value: Option<String>,
    pub source: Option<PtbSource>,
    pub source_tick_timestamp_ms: Option<i64>,
    pub sanity_status: Option<String>,
    pub checked_at_ms: Option<i64>,
}

/// The record carries an exact price taken from the opening tick.
pub open spec fn exact_open_tick_spec(p: PriceToBeat) -> bool {
    p.status == PtbStatus::CapturedExact && p.source == Some(PtbSource::RtdsOpenTick)
        && p.normalized_value is Some
}

/// The exact price, where there is one.
pub open spec fn ptb_value_spec(p: PriceToBeat) -> Option<DecView> {
    if p.status == PtbStatus::CapturedExact {
        match p.normalized_value {
            Some(v) => Some(v@),
            None => None,
        }
    } else {
        None
    }
}

/// A record for a market with only its identity filled in.
pub open spec fn bare_ptb(
    slug: MarketSlug,
    asset: Asset,
    timeframe: Timeframe,
    open_ms: i64,
    status: PtbStatus,
) -> PriceToBeat {
    PriceToBeat {
        market_slug: slug,
        asset,
        timeframe,
        open_ms,
        status,
        normalized_value: None,
        raw_value: None,
        full_accuracy_value: None,
        source: None,
        source_tick_timestamp_ms: None,
        sanity_status: None,
        checked_at_ms: None,
    }
}

impl PriceToBeat {
    /// Waiting for the opening tick.
    pub fn pending(market_slug: MarketSlug, asset: Asset, timeframe: Timeframe, open_ms: i64) -> (r: PriceToBeat)
        ensures
            r == bare_ptb(market_slug, asset, timeframe, open_ms, PtbStatus::PendingPtb),
    {
        PriceToBeat {
            market_slug,
            asset,
            timeframe,
            open_ms,
            status: PtbStatus::PendingPtb,
            normalized_value: None,
            raw_value: None,
            full_accuracy_value: None,
            source: None,
            source_tick_timestamp_ms: None,
            sanity_status: None,
            checked_at_ms: None,
        }
    }

    /// The opening tick could not be found by `checked_at_ms`.
    pub fn missing(
        market_slug: MarketSlug,
        asset: Asset,
        timeframe: Timeframe,
        open_ms: i64,
        checked_at_ms: i64,
    ) -> (r: PriceToBeat)
        ensures
            r == (PriceToBeat {
                checked_at_ms: Some(checked_at_ms),
                ..bare_ptb(market_slug, asset, timeframe, open_ms, PtbStatus::MissingPtb)
            }),
    {
        PriceToBeat {
            market_slug,
            asset,
            timeframe,
            open_ms,
            status: PtbStatus::MissingPtb,
            normalized_value: None,
            raw_value: None,
            full_accuracy_value: None,
            source: None,
            source_tick_timestamp_ms: None,
            sanity_status: None,
            checked_at_ms: Some(checked_at_ms),
        }
    }

    /// The opening tick held a value that cannot be a price to beat, for `reason`.
    pub fn invalid(
        market_slug: MarketSlug,
        asset: Asset,
        timeframe: Timeframe,
        open_ms: i64,
        raw_value: Option<String>,
        reason: String,
        checked_at_ms: i64,
    ) -> (r: PriceToBeat)
        ensures
            r == (PriceToBeat {
                raw_value: raw_value,
                sanity_status: Some(reason),
                checked_at_ms: Some(checked_at_ms),
                ..bare_ptb(market_slug, asset, timeframe, open_ms, PtbStatus::InvalidPtb)
            }),
    {
        PriceToBeat {
            market_slug,
            asset,
            timeframe,
            open_ms,
            status: PtbStatus::InvalidPtb,
            normalized_value: None,
            raw_value,
            full_accuracy_value: None,
            source: None,
            source_tick_timestamp_ms: None,
            sanity_status: Some(reason),
            checked_at_ms: Some(checked_at_ms),
        }
    }

    /// The exact price taken from the opening tick.
    pub fn captured_exact(
        market_slug: MarketSlug,
        asset: Asset,
        timeframe: Timeframe,
        open_ms: i64,
        value: Decimal,
        raw_value: String,
        full_accuracy_value: Option<String>,
        source_tick_timestamp_ms: i64,
        sanity_status: Option<String>,
        checked_at_ms: i64,
    ) -> (r: PriceToBeat)
        ensures
            r == (PriceToBeat {
                normalized_value: Some(value),
                raw_value: Some(raw_value),
                full_accuracy_value: full_accuracy_value,
                source: Some(PtbSource::RtdsOpenTick),
                source_tick_timestamp_ms: Some(source_tick_timestamp_ms),
                sanity_status: sanity_status,
                checked_at_ms: Some(checked_at_ms),
                ..bare_ptb(market_slug, asset, timeframe, open_ms, PtbStatus::CapturedExact)
            }),
    {
        PriceToBeat {
            market_slug,
            asset,
            timeframe,
            open_ms,
            status: PtbStatus::CapturedExact,
            normalized_value: Some(value),
            raw_value: Some(raw_value),
            full_accuracy_value,
            source: Some(PtbSource::RtdsOpenTick),
            source_tick_timestamp_ms: Some(source_tick_timestamp_ms),
            sanity_status,
            checked_at_ms: Some(checked_at_ms),
        }
    }

    pub fn is_exact_rtds_open_tick(&self) -> (r: bool)
        ensures
            r == exact_open_tick_spec(*self),
    {
        self.status == PtbStatus::CapturedExact && self.source == Some(PtbSource::RtdsOpenTick)
            && self.normalized_value.is_some()
    }

    pub fn is_pending(&self) -> (r: bool)
        ensures
            r == (self.status == PtbStatus::PendingPtb),
    {
        self.status == PtbStatus::PendingPtb
    }

    pub fn is_missing(&self) -> (r: bool)
        ensures
            r == (self.status == PtbStatus::MissingPtb),
    {
        self.status == PtbStatus::MissingPtb
    }

    pub fn is_invalid(&self) -> (r: bool)
        ensures
            r == (self.status == PtbStatus::InvalidPtb),
    {
        self.status == PtbStatus::InvalidPtb
    }

    /// The exact price, where the record has one.
    pub fn value(&self) -> (r: Option<Decimal>)
        ensures
            match r {
                Some(d) => ptb_value_spec(*self) == Some(d@),
                None => ptb_value_spec(*self) is None,
            },
    {
        if self.status == PtbStatus::CapturedExact {
            self.normalized_value
        } else {
            None
        }
    }

    /// A copy equal to this record.
    pub fn duplicate(&self) -> (r: PriceToBeat)
        ensures
            r == *self,
    {
        PriceToBeat {
            market_slug: self.market_slug.duplicate(),
            asset: self.asset,
            timeframe: self.timeframe,
            open_ms: self.open_ms,
            status: self.status,
            normalized_value: self.normalized_value,
            raw_value: copy_opt(&self.raw_value),
            full_accuracy_value: copy_opt(&self.full_accuracy_value),
            source: self.source,
            source_tick_timestamp_ms: self.source_tick_timestamp_ms,
            sanity_status: copy_opt(&self.sanity_status),
            checked_at_ms: self.checked_at_ms,
        }
    }
}

pub(crate) fn copy_opt(o: &Option<String>) -> (r: Option<String>)
    ensures
        r == *o,
{
    match o {
        Some(s) => Some(s.clone()),
        None => None,
    }
}

} // verus!
