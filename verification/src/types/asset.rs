//! The crypto assets whose up/down markets are tracked.
use vstd::prelude::*;

use crate::text::str_eq;

verus! {

#[derive(Debug, Clone, Copy, PartialEq, Eq, Hash, PartialOrd, Ord, Structural)]
pub enum Asset {
    BTC,
    ETH,
    SOL,
    XRP,
}

/// Position of the asset in declaration order, the order `Ord` follows.
pub open spec fn asset_rank(a: Asset) -> nat {
    match a {
        Asset::BTC => 0,
        Asset::ETH => 1,
        Asset::SOL => 2,
        Asset::XRP => 3,
    }
}

/// Ticker of the asset.
pub open spec fn asset_name(a: Asset) -> Seq<char> {
    match a {
        Asset::BTC => "BTC"@,
        Asset::ETH => "ETH"@,
        Asset::SOL => "SOL"@,
        Asset::XRP => "XRP"@,
    }
}

/// First component of a market slug for the asset.
pub open spec fn asset_slug_prefix(a: Asset) -> Seq<char> {
    match a {
        Asset::BTC => "btc"@,
        Asset::ETH => "eth"@,
        Asset::SOL => "sol"@,
        Asset::XRP => "xrp"@,
    }
}

/// Symbol under which the real-time data service publishes the asset's price.
pub open spec fn asset_rtds_symbol(a: Asset) -> Seq<char> {
    match a {
        Asset::BTC => "btcusdt"@,
        Asset::ETH => "ethusdt"@,
        Asset::SOL => "solusdt"@,
        Asset::XRP => "xrpusdt"@,
    }
}

/// The asset whose price-feed symbol is `s`.
pub open spec fn asset_from_rtds_spec(s: Seq<char>) -> Option<Asset> {
    if s == "btcusdt"@ {
        Some(Asset::BTC)
    } else if s == "ethusdt"@ {
        Some(Asset::ETH)
    } else if s == "solusdt"@ {
        Some(Asset::SOL)
    } else if s == "xrpusdt"@ {
        Some(Asset::XRP)
    } else {
        None
    }
}

/// The asset whose slug prefix is `s`.
pub open spec fn asset_from_slug_prefix_spec(s: Seq<char>) -> Option<Asset> {
    if s == "btc"@ {
        Some(Asset::BTC)
    } else if s == "eth"@ {
        Some(Asset::ETH)
    } else if s == "sol"@ {
        Some(Asset::SOL)
    } else if s == "xrp"@ {
        Some(Asset::XRP)
    } else {
        None
    }
}

/// All assets in declaration order.
pub open spec fn all_assets() -> Seq<Asset> {
    seq![Asset::BTC, Asset::ETH, Asset::SOL, Asset::XRP]
}

impl Asset {
    pub fn all() -> (r: Vec<Asset>)
        ensures
            r@ == all_assets(),
    {
        let v = vec![Asset::BTC, Asset::ETH, Asset::SOL, Asset::XRP];
        assert(v@ =~= all_assets());
        v
    }

    pub fn rank(&self) -> (r: u8)
        ensures
            r as nat == asset_rank(*self),
    {
        match self {
            Asset::BTC => 0,
            Asset::ETH => 1,
            Asset::SOL => 2,
            Asset::XRP => 3,
        }
    }

    pub fn as_str(&self) -> (r: &'static str)
        ensures
            r@ == asset_name(*self),
    {
        match self {
            Asset::BTC => "BTC",
            Asset::ETH => "ETH",
            Asset::SOL => "SOL",
            Asset::XRP => "XRP",
        }
    }

    pub fn slug_prefix(&self) -> (r: &'static str)
        ensures
            r@ == asset_slug_prefix(*self),
    {
        match self {
            Asset::BTC => "btc",
            Asset::ETH => "eth",
            Asset::SOL => "sol",
            Asset::XRP => "xrp",
        }
    }

    pub fn rtds_symbol(&self) -> (r: &'static str)
        ensures
            r@ == asset_rtds_symbol(*self),
    {
        match self {
            Asset::BTC => "btcusdt",
            Asset::ETH => "ethusdt",
            Asset::SOL => "solusdt",
            Asset::XRP => "xrpusdt",
        }
    }

    pub fn from_rtds_symbol(s: &str) -> (r: Option<Asset>)
        ensures
            r == asset_from_rtds_spec(s@),
    {
        if str_eq(s, "btcusdt") {
            Some(Asset::BTC)
        } else if str_eq(s, "ethusdt") {
            Some(Asset::ETH)
        } else if str_eq(s, "solusdt") {
            Some(Asset::SOL)
        } else if str_eq(s, "xrpusdt") {
            Some(Asset::XRP)
        } else {
            None
        }
    }

    pub fn from_slug_prefix(s: &str) -> (r: Option<Asset>)
        ensures
            r == asset_from_slug_prefix_spec(s@),
    {
        if str_eq(s, "btc") {
            Some(Asset::BTC)
        } else if str_eq(s, "eth") {
            Some(Asset::ETH)
        } else if str_eq(s, "sol") {
            Some(Asset::SOL)
        } else if str_eq(s, "xrp") {
            Some(Asset::XRP)
        } else {
            None
        }
    }
}

} // verus!
