//! An up/down market and the price to beat it settles against.
use vstd::prelude::*;

use crate::decimal::Decimal;
use crate::text::all_white;
use crate::types::asset::Asset;
use crate::types::ids::{ConditionId, MarketSlug, TokenId};
use crate::types::timeframe::Timeframe;

verus! {

#[derive(Debug, Clone)]
pub struct Market {
    pub asset: Asset,
    pub timeframe: Timeframe,
    pub slug: MarketSlug,
    pub condition_id: ConditionId,
    pub up_token_id: TokenId,
    pub down_token_id: TokenId,
    pub open_ms: i64,
    pub end_ms: i64,
    pub active: bool,
    pub closed: bool,
    pub seen_ms: i64,
    pub price_to_beat: Option<Decimal>,
    pub price_to_beat_status: Option<String>,
    pub ptb_source: Option<String>,
    pub ptb_source_timestamp_ms: Option<i64>,
    pub ptb_raw_value: Option<String>,
    pub ptb_full_accuracy_value: Option<String>,
}

/// Optional text taken by its characters.
pub open spec fn opt_text(o: Option<String>) -> Option<Seq<char>> {
    match o {
        Some(s) => Some(s@),
        None => None,
    }
}

/// The market carries an exact price to beat.
pub open spec fn captured_exact_spec(m: Market) -> bool {
    opt_text(m.price_to_beat_status) == Some("captured_exact"@) && m.price_to_beat is Some
}

fn copy_text(o: &Option<String>) -> (r: Option<String>)
    ensures
        r == *o,
{
    match o {
        Some(s) => Some(s.clone()),
        None => None,
    }
}

impl Market {
    /// A newly discovered market with no price to beat yet.
    pub fn new(
        asset: Asset,
        timeframe: Timeframe,
        slug: MarketSlug,
        condition_id: ConditionId,
        up_token_id: TokenId,
        down_token_id: TokenId,
        open_ms: i64,
        end_ms: i64,
        active: bool,
        closed: bool,
        seen_ms: i64,
    ) -> (r: Market)
        ensures
            r.asset == asset,
            r.timeframe == timeframe,
            r.slug == slug,
            r.condition_id == condition_id,
            r.up_token_id == up_token_id,
            r.down_token_id == down_token_id,
            r.open_ms == open_ms,
            r.end_ms == end_ms,
            r.active == active,
            r.closed == closed,
            r.seen_ms == seen_ms,
            r.price_to_beat is None,
            r.price_to_beat_status is None,
            r.ptb_source is None,
            r.ptb_source_timestamp_ms is None,
            r.ptb_raw_value is None,
            r.ptb_full_accuracy_value is None,
    {
        Market {
            asset,
            timeframe,
            slug,
            condition_id,
            up_token_id,
            down_token_id,
            open_ms,
            end_ms,
            active,
            closed,
            seen_ms,
            price_to_beat: None,
            price_to_beat_status: None,
            ptb_source: None,
            ptb_source_timestamp_ms: None,
            ptb_raw_value: None,
            ptb_full_accuracy_value: None,
        }
    }

    /// Both token ids hold something other than white space.
    pub fn has_tokens(&self) -> (r: bool)
        ensures
            r == (!all_white(self.up_token_id@) && !all_white(self.down_token_id@)),
    {
        self.up_token_id.is_non_empty() && self.down_token_id.is_non_empty()
    }

    /// The market opens before it ends.
    pub fn has_valid_time_window(&self) -> (r: bool)
        ensures
            r == (self.open_ms < self.end_ms),
    {
        self.open_ms < self.end_ms
    }

    pub fn has_captured_exact_ptb(&self) -> (r: bool)
        ensures
            r == captured_exact_spec(*self),
    {
        match &self.price_to_beat_status {
            Some(s) => crate::text::str_eq(s.as_str(), "captured_exact") && self.price_to_beat.is_some(),
            None => false,
        }
    }

    /// No price to beat yet; waiting for the opening tick.
    pub fn mark_pending_ptb(&mut self)
        ensures
            *final(self) == (Market {
                price_to_beat: None,
                price_to_beat_status: final(self).price_to_beat_status,
                ..*old(self)
            }),
            opt_text(final(self).price_to_beat_status) == Some("pending_ptb"@),
    {
        self.price_to_beat = None;
        self.price_to_beat_status = Some("pending_ptb".to_owned());
    }

    /// The opening tick could not be found.
    pub fn mark_missing_ptb(&mut self)
        ensures
            *final(self) == (Market {
                price_to_beat: None,
                price_to_beat_status: final(self).price_to_beat_status,
                ..*old(self)
            }),
            opt_text(final(self).price_to_beat_status) == Some("missing_ptb"@),
    {
        self.price_to_beat = None;
        self.price_to_beat_status = Some("missing_ptb".to_owned());
    }

    /// The opening tick was found but its value cannot be a price to beat.
    pub fn mark_invalid_ptb(&mut self, raw_value: Option<String>)
        ensures
            *final(self) == (Market {
                price_to_beat: None,
                price_to_beat_status: final(self).price_to_beat_status,
                ptb_raw_value: raw_value,
                ..*old(self)
            }),
            opt_text(final(self).price_to_beat_status) == Some("invalid_ptb"@),
    {
        self.price_to_beat = None;
        self.price_to_beat_status = Some("invalid_ptb".to_owned());
        self.ptb_raw_value = raw_value;
    }

    /// Records the exact price to beat and where it came from.
    pub fn capture_exact_ptb(
        &mut self,
        value: Decimal,
        source: String,
        source_timestamp_ms: i64,
        raw_value: String,
        full_accuracy_value: Option<String>,
    )
        ensures
            *final(self) == (Market {
                price_to_beat: Some(value),
                price_to_beat_status: final(self).price_to_beat_status,
                ptb_source: Some(source),
                ptb_source_timestamp_ms: Some(source_timestamp_ms),
                ptb_raw_value: Some(raw_value),
                ptb_full_accuracy_value: full_accuracy_value,
                ..*old(self)
            }),
            opt_text(final(self).price_to_beat_status) == Some("captured_exact"@),
    {
        self.price_to_beat = Some(value);
        self.price_to_beat_status = Some("captured_exact".to_owned());
        self.ptb_source = Some(source);
        self.ptb_source_timestamp_ms = Some(source_timestamp_ms);
        self.ptb_raw_value = Some(raw_value);
        self.ptb_full_accuracy_value = full_accuracy_value;
    }

    /// A copy equal to this market.
    pub fn duplicate(&self) -> (r: Market)
        ensures
            r == *self,
    {
        Market {
            asset: self.asset,
            timeframe: self.timeframe,
            slug: MarketSlug(self.slug.0.clone()),
            condition_id: ConditionId(self.condition_id.0.clone()),
            up_token_id: TokenId(self.up_token_id.0.clone()),
            down_token_id: TokenId(self.down_token_id.0.clone()),
            open_ms: self.open_ms,
            end_ms: self.end_ms,
            active: self.active,
            closed: self.closed,
            seen_ms: self.seen_ms,
            price_to_beat: self.price_to_beat,
            price_to_beat_status: copy_text(&self.price_to_beat_status),
            ptb_source: copy_text(&self.ptb_source),
            ptb_source_timestamp_ms: self.ptb_source_timestamp_ms,
            ptb_raw_value: copy_text(&self.ptb_raw_value),
            ptb_full_accuracy_value: copy_text(&self.ptb_full_accuracy_value),
        }
    }
}

} // verus!
