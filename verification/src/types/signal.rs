//! A trade signal: an accepted package with its prices, cost, size and edge.
use vstd::prelude::*;

use crate::decimal::Decimal;
use crate::relation_engine::deterministic::PackageName;
use crate::types::asset::Asset;
use crate::types::timeframe::Timeframe;

verus! {

#[derive(Debug, Clone)]
pub struct Signal {
    pub asset: Asset,
    pub short_tf: Timeframe,
    pub long_tf: Timeframe,
    pub short_market_slug: String,
    pub long_market_slug: String,
    pub package_name: PackageName,
    pub selected_short_token: String,
    pub selected_long_token: String,
    pub short_ptb: Decimal,
    pub long_ptb: Decimal,
    pub top_cost: Decimal,
    pub depth_avg_cost: Decimal,
    pub executable_size: Decimal,
    pub gross_edge: Decimal,
    pub capital_required: Decimal,
    pub seconds_to_end: i64,
    pub created_at_ms: i64,
}

impl Signal {
    pub fn new(
        asset: Asset,
        short_tf: Timeframe,
        long_tf: Timeframe,
        short_market_slug: String,
        long_market_slug: String,
        package_name: PackageName,
        selected_short_token: String,
        selected_long_token: String,
        short_ptb: Decimal,
        long_ptb: Decimal,
        top_cost: Decimal,
        depth_avg_cost: Decimal,
        executable_size: Decimal,
        gross_edge: Decimal,
        capital_required: Decimal,
        seconds_to_end: i64,
        created_at_ms: i64,
    ) -> (r: Signal)
        ensures
            r == (Signal {
                asset,
                short_tf,
                long_tf,
                short_market_slug,
                long_market_slug,
                package_name,
                selected_short_token,
                selected_long_token,
                short_ptb,
                long_ptb,
                top_cost,
                depth_avg_cost,
                executable_size,
                gross_edge,
                capital_required,
                seconds_to_end,
                created_at_ms,
            }),
    {
        Signal {
            asset,
            short_tf,
            long_tf,
            short_market_slug,
            long_market_slug,
            package_name,
            selected_short_token,
            selected_long_token,
            short_ptb,
            long_ptb,
            top_cost,
            depth_avg_cost,
            executable_size,
            gross_edge,
            capital_required,
            seconds_to_end,
            created_at_ms,
        }
    }
}

} // verus!
