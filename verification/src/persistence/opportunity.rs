//! The record of an evaluated opportunity, with its depth result where there is one.
use vstd::prelude::*;

use crate::decimal::Decimal;
use crate::depth_engine::result::{DepthResult, DepthStatus};
use crate::relation_engine::deterministic::PackageName;
use crate::types::asset::Asset;
use crate::types::evaluation::{pair_type_text, under_one_spec, EvaluationClassification, EvaluationRow};
use crate::types::ids::{MarketSlug, TokenId};
use crate::types::timeframe::Timeframe;

verus! {

#[derive(Debug, Clone)]
pub struct OpportunityRecord {
    pub ts_ms: i64,
    pub asset: Asset,
    pub pair_type: String,
    pub short_tf: Timeframe,
    pub long_tf: Timeframe,
    pub short_slug: MarketSlug,
    pub long_slug: MarketSlug,
    pub package_name: Option<PackageName>,
    pub selected_short_token: Option<TokenId>,
    pub selected_long_token: Option<TokenId>,
    pub short_ptb: Option<Decimal>,
    pub long_ptb: Option<Decimal>,
    pub top_cost: Option<Decimal>,
    pub top_edge: Option<Decimal>,
    pub seconds_to_end: i64,
    pub evaluation_classification: EvaluationClassification,
    pub depth_result: Option<DepthResult>,
}

/// `r` carries the row's fields, its pair type as `short-long`, and no depth result.
pub open spec fn record_from_row(r: OpportunityRecord, row: EvaluationRow) -> bool {
    &&& r.ts_ms == row.ts_ms
    &&& r.asset == row.asset
    &&& r.pair_type@ == pair_type_text(row.short_tf, row.long_tf)
    &&& r.short_tf == row.short_tf
    &&& r.long_tf == row.long_tf
    &&& r.short_slug == row.short_slug
    &&& r.long_slug == row.long_slug
    &&& r.package_name == row.package_name
    &&& r.selected_short_token == row.selected_short_token
    &&& r.selected_long_token == row.selected_long_token
    &&& r.short_ptb == row.short_ptb
    &&& r.long_ptb == row.long_ptb
    &&& r.top_cost == row.top_cost
    &&& r.top_edge == row.edge
    &&& r.seconds_to_end == row.seconds_to_end
    &&& r.evaluation_classification == row.classification
}

fn copy_token(o: &Option<TokenId>) -> (r: Option<TokenId>)
    ensures
        r == *o,
{
    match o {
        Some(t) => Some(t.duplicate()),
        None => None,
    }
}

impl OpportunityRecord {
    pub fn from_evaluation(row: &EvaluationRow) -> (r: OpportunityRecord)
        ensures
            record_from_row(r, *row),
            r.depth_result is None,
    {
        OpportunityRecord {
            ts_ms: row.ts_ms,
            asset: row.asset,
            pair_type: row.pair_type(),
            short_tf: row.short_tf,
            long_tf: row.long_tf,
            short_slug: row.short_slug.duplicate(),
            long_slug: row.long_slug.duplicate(),
            package_name: row.package_name,
            selected_short_token: copy_token(&row.selected_short_token),
            selected_long_token: copy_token(&row.selected_long_token),
            short_ptb: row.short_ptb,
            long_ptb: row.long_ptb,
            top_cost: row.top_cost,
            top_edge: row.edge,
            seconds_to_end: row.seconds_to_end,
            evaluation_classification: row.classification,
            depth_result: None,
        }
    }

    pub fn from_evaluation_and_depth(row: &EvaluationRow, depth_result: DepthResult) -> (r: OpportunityRecord)
        ensures
            record_from_row(r, *row),
            r.depth_result == Some(depth_result),
    {
        let mut record = Self::from_evaluation(row);
        record.depth_result = Some(depth_result);
        record
    }

    pub fn is_under_one_candidate(&self) -> (r: bool)
        ensures
            r == under_one_spec(self.evaluation_classification),
    {
        self.evaluation_classification.is_under_one_candidate()
    }

    /// Depth-confirmed by its classification or by its depth result.
    pub fn is_depth_confirmed(&self) -> (r: bool)
        ensures
            r == (self.evaluation_classification == EvaluationClassification::DepthConfirmedUnderOne || (
            self.depth_result is Some && self.depth_result->0.status == DepthStatus::DepthConfirmedUnderOne)),
    {
        self.evaluation_classification.is_depth_confirmed() || match &self.depth_result {
            Some(d) => d.is_depth_confirmed(),
            None => false,
        }
    }
}

} // verus!
