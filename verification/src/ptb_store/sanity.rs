//! Plausibility of a price to beat for its asset.
use vstd::prelude::*;

use crate::decimal::{decimal_text, is_pos, value_lt, DecView, Decimal};
use crate::types::asset::Asset;

verus! {

#[derive(Debug, Clone, PartialEq, Eq)]
pub struct PtbSanityResult {
    pub is_plausible: bool,
    pub status: String,
}

/// The range a price of the asset can plausibly take, bounds included.
pub open spec fn plausible_range_spec(asset: Asset) -> (DecView, DecView) {
    match asset {
        Asset::BTC => ((1000, 0), (1000000, 0)),
        Asset::ETH => ((100, 0), (100000, 0)),
        Asset::SOL => ((1, 0), (10000, 0)),
        Asset::XRP => ((1, 2), (100, 0)),
    }
}

/// Whether `value` is plausible for `asset`, and the status text: the failed check with
/// the values compared, or "plausible".
pub open spec fn plausibility_spec(asset: Asset, value: DecView) -> (bool, Seq<char>) {
    let (min, max) = plausible_range_spec(asset);
    if !is_pos(value) {
        (false, "non_positive_ptb"@)
    } else if value_lt(value, min) {
        (false, "below_plausible_range:"@ + decimal_text(value) + "<"@ + decimal_text(min))
    } else if value_lt(max, value) {
        (false, "above_plausible_range:"@ + decimal_text(value) + ">"@ + decimal_text(max))
    } else {
        (true, "plausible"@)
    }
}

impl PtbSanityResult {
    pub fn ok() -> (r: PtbSanityResult)
        ensures
            r.is_plausible,
            r.status@ == "plausible"@,
    {
        PtbSanityResult { is_plausible: true, status: "plausible".to_owned() }
    }

    pub fn failed(reason: String) -> (r: PtbSanityResult)
        ensures
            !r.is_plausible,
            r.status == reason,
    {
        PtbSanityResult { is_plausible: false, status: reason }
    }
}

fn plausible_range(asset: Asset) -> (r: (Decimal, Decimal))
    ensures
        (r.0@, r.1@) == plausible_range_spec(asset),
{
    match asset {
        Asset::BTC => (Decimal::from_i64(1000), Decimal::from_i64(1000000)),
        Asset::ETH => (Decimal::from_i64(100), Decimal::from_i64(100000)),
        Asset::SOL => (Decimal::from_i64(1), Decimal::from_i64(10000)),
        Asset::XRP => (Decimal::new(1, 2), Decimal::from_i64(100)),
    }
}

fn range_message(prefix: &str, value: &Decimal, sep: &str, bound: &Decimal) -> (r: String)
    ensures
        r@ == prefix@ + decimal_text(value@) + sep@ + decimal_text(bound@),
{
    let mut s = prefix.to_owned();
    s.append(value.to_text().as_str());
    s.append(sep);
    s.append(bound.to_text().as_str());
    s
}

/// Checks `value` against the plausible range of `asset`.
pub fn check_ptb_plausibility(asset: Asset, value: Decimal) -> (r: PtbSanityResult)
    ensures
        (r.is_plausible, r.status@) == plausibility_spec(asset, value@),
{
    if value.le(&Decimal::zero()) {
        return PtbSanityResult::failed("non_positive_ptb".to_owned());
    }
    let (min, max) = plausible_range(asset);
    if value.lt(&min) {
        return PtbSanityResult::failed(range_message("below_plausible_range:", &value, "<", &min));
    }
    if value.gt(&max) {
        return PtbSanityResult::failed(range_message("above_plausible_range:", &value, ">", &max));
    }
    PtbSanityResult::ok()
}

} // verus!
