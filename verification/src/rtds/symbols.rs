//! Price-feed symbols of the tracked assets.
use vstd::prelude::*;

use crate::text::{lemma_lower_noop, lemma_trim_noop};
use crate::types::asset::{asset_from_rtds_spec, asset_rtds_symbol, Asset};
use crate::types::tick::{normalized_symbol, RtdsSymbol};

verus! {

/// The normalized feed symbol of an asset is its symbol as written.
pub proof fn lemma_asset_symbol_normalized(asset: Asset)
    ensures
        normalized_symbol(asset_rtds_symbol(asset)) == asset_rtds_symbol(asset),
{
    let s = asset_rtds_symbol(asset);
    match asset {
        Asset::BTC => {
            reveal_strlit("btcusdt");
        },
        Asset::ETH => {
            reveal_strlit("ethusdt");
        },
        Asset::SOL => {
            reveal_strlit("solusdt");
        },
        Asset::XRP => {
            reveal_strlit("xrpusdt");
        },
    }
    lemma_trim_noop(s);
    lemma_lower_noop(s);
}

/// The normalized feed symbol of the asset.
pub fn asset_to_rtds_symbol(asset: Asset) -> (r: RtdsSymbol)
    ensures
        r@ == normalized_symbol(asset_rtds_symbol(asset)),
        r@ == asset_rtds_symbol(asset),
{
    proof {
        lemma_asset_symbol_normalized(asset);
    }
    RtdsSymbol::normalized(asset.rtds_symbol())
}

/// The asset whose feed symbol this is.
pub fn rtds_symbol_to_asset(symbol: &RtdsSymbol) -> (r: Option<Asset>)
    ensures
        r == asset_from_rtds_spec(symbol@),
{
    Asset::from_rtds_symbol(symbol.as_str())
}

pub fn is_supported_rtds_symbol(symbol: &RtdsSymbol) -> (r: bool)
    ensures
        r == (asset_from_rtds_spec(symbol@) is Some),
{
    rtds_symbol_to_asset(symbol).is_some()
}

/// The feed symbols of the assets, in order.
pub fn configured_rtds_symbols(assets: &Vec<Asset>) -> (r: Vec<RtdsSymbol>)
    ensures
        r@.len() == assets@.len(),
        forall|i: int| 0 <= i < assets@.len() ==> #[trigger] r@[i]@ == asset_rtds_symbol(assets@[i]),
{
    let mut out: Vec<RtdsSymbol> = Vec::new();
    let mut i: usize = 0;
    while i < assets.len()
        invariant
            i <= assets@.len(),
            out@.len() == i,
            forall|k: int| 0 <= k < i ==> #[trigger] out@[k]@ == asset_rtds_symbol(assets@[k]),
        decreases assets@.len() - i,
    {
        out.push(asset_to_rtds_symbol(assets[i]));
        i = i + 1;
    }
    out
}

/// The symbol of an asset leads back to that asset.
pub proof fn lemma_symbol_round_trip(asset: Asset)
    ensures
        asset_from_rtds_spec(asset_rtds_symbol(asset)) == Some(asset),
{
    reveal_strlit("btcusdt");
    reveal_strlit("ethusdt");
    reveal_strlit("solusdt");
    reveal_strlit("xrpusdt");
    assert("ethusdt"@[0] != "btcusdt"@[0]);
    assert("solusdt"@[0] != "btcusdt"@[0]);
    assert("solusdt"@[0] != "ethusdt"@[0]);
    assert("xrpusdt"@[0] != "btcusdt"@[0]);
    assert("xrpusdt"@[0] != "ethusdt"@[0]);
    assert("xrpusdt"@[0] != "solusdt"@[0]);
}

} // verus!
