//! The package candidate a pair of markets and their prices to beat make.
use vstd::prelude::*;

use crate::decimal::Decimal;
use crate::types::asset::Asset;
use crate::types::timeframe::Timeframe;

use super::deterministic::{decide_package_name, package_name_spec, PackageName};
use super::grouping::RelationMarket;
use super::pair_generator::{compatible, pair_seconds_spec, MarketPair};

verus! {

/// A two-leg package: one side of the long market and the other side of the short one.
#[derive(Debug, Clone)]
pub struct PackageCandidate {
    pub asset: Asset,
    pub short_market_slug: String,
    pub long_market_slug: String,
    pub short_tf: Timeframe,
    pub long_tf: Timeframe,
    pub short_ptb: Decimal,
    pub long_ptb: Decimal,
    pub package_name: PackageName,
    pub selected_long_token: String,
    pub selected_short_token: String,
    pub end_ms: i64,
    pub seconds_to_end: i64,
}

/// The pair is usable and its prices call for a package.
pub open spec fn candidate_exists<M: RelationMarket>(pair: MarketPair<M>, short_ptb: Decimal, long_ptb: Decimal) -> bool {
    compatible(pair.short, pair.long) && package_name_spec(short_ptb@, long_ptb@) is Some
}

/// `c` is the candidate for the pair: the package its prices call for, the long
/// market's up token with the short market's down token for long-up, the long
/// market's down token with the short market's up token otherwise.
pub open spec fn candidate_spec<M: RelationMarket>(
    c: PackageCandidate,
    pair: MarketPair<M>,
    short_ptb: Decimal,
    long_ptb: Decimal,
    now_ms: i64,
) -> bool {
    let name = package_name_spec(short_ptb@, long_ptb@)->0;
    &&& c.asset == pair.short.asset_spec()
    &&& c.short_market_slug@ == pair.short.slug_spec()
    &&& c.long_market_slug@ == pair.long.slug_spec()
    &&& c.short_tf == pair.short.timeframe_spec()
    &&& c.long_tf == pair.long.timeframe_spec()
    &&& c.short_ptb == short_ptb
    &&& c.long_ptb == long_ptb
    &&& c.package_name == name
    &&& c.selected_long_token@ == (match name {
        PackageName::LongUpPlusShortDown => pair.long.up_token_spec(),
        PackageName::LongDownPlusShortUp => pair.long.down_token_spec(),
    })
    &&& c.selected_short_token@ == (match name {
        PackageName::LongUpPlusShortDown => pair.short.down_token_spec(),
        PackageName::LongDownPlusShortUp => pair.short.up_token_spec(),
    })
    &&& c.end_ms == pair.short.end_ms_spec()
    &&& c.seconds_to_end == pair_seconds_spec(pair.short.end_ms_spec(), now_ms)
}

/// The package candidate for the pair, where the pair shares asset and end, differs in
/// timeframe, and its prices to beat differ.
pub fn build_package_candidate<M: RelationMarket>(
    pair: &MarketPair<M>,
    short_ptb: Decimal,
    long_ptb: Decimal,
    now_ms: i64,
) -> (r: Option<PackageCandidate>)
    requires
        candidate_exists(*pair, short_ptb, long_ptb) ==> i64::MIN <= pair.short.end_ms_spec() - now_ms
            <= i64::MAX,
    ensures
        match r {
            Some(c) => candidate_exists(*pair, short_ptb, long_ptb) && candidate_spec(
                c,
                *pair,
                short_ptb,
                long_ptb,
                now_ms,
            ),
            None => !candidate_exists(*pair, short_ptb, long_ptb),
        },
{
    if !pair.same_asset() || !pair.same_end_ms() || !pair.different_timeframe() {
        return None;
    }
    let package_name = match decide_package_name(short_ptb, long_ptb) {
        Some(p) => p,
        None => return None,
    };
    let (selected_long_token, selected_short_token) = match package_name {
        PackageName::LongUpPlusShortDown => (pair.long.up_token_id().to_owned(), pair.short.down_token_id().to_owned()),
        PackageName::LongDownPlusShortUp => (pair.long.down_token_id().to_owned(), pair.short.up_token_id().to_owned()),
    };
    Some(
        PackageCandidate {
            asset: pair.short.asset(),
            short_market_slug: pair.short.slug().to_owned(),
            long_market_slug: pair.long.slug().to_owned(),
            short_tf: pair.short.timeframe(),
            long_tf: pair.long.timeframe(),
            short_ptb,
            long_ptb,
            package_name,
            selected_long_token,
            selected_short_token,
            end_ms: pair.short.end_ms(),
            seconds_to_end: pair.seconds_to_end(now_ms),
        },
    )
}

/// A candidate holds opposite sides of its two markets: an up token with a down token.
pub proof fn lemma_candidate_opposite_sides<M: RelationMarket>(
    c: PackageCandidate,
    pair: MarketPair<M>,
    short_ptb: Decimal,
    long_ptb: Decimal,
    now_ms: i64,
)
    requires
        candidate_exists(pair, short_ptb, long_ptb),
        candidate_spec(c, pair, short_ptb, long_ptb, now_ms),
    ensures
        (c.selected_long_token@ == pair.long.up_token_spec() && c.selected_short_token@ == pair.short.down_token_spec())
            || (c.selected_long_token@ == pair.long.down_token_spec() && c.selected_short_token@
            == pair.short.up_token_spec()),
        c.package_name == PackageName::LongUpPlusShortDown <==> crate::decimal::value_lt(long_ptb@, short_ptb@),
{
}

} // verus!
