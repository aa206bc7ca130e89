//! String identifiers: token ids, market slugs, condition ids.
use vstd::prelude::*;

use crate::text::{all_white, is_blank};

verus! {

/// Identifier of one outcome token of a market.
#[derive(Debug, Clone, PartialEq, Eq, Hash, PartialOrd, Ord)]
pub struct TokenId(pub String);

/// Human-readable unique key of a market.
#[derive(Debug, Clone, PartialEq, Eq, Hash, PartialOrd, Ord)]
pub struct MarketSlug(pub String);

/// On-chain condition identifier of a market.
#[derive(Debug, Clone, PartialEq, Eq, Hash, PartialOrd, Ord)]
pub struct ConditionId(pub String);

impl View for TokenId {
    type V = Seq<char>;

    open spec fn view(&self) -> Seq<char> {
        self.0@
    }
}

impl View for MarketSlug {
    type V = Seq<char>;

    open spec fn view(&self) -> Seq<char> {
        self.0@
    }
}

impl View for ConditionId {
    type V = Seq<char>;

    open spec fn view(&self) -> Seq<char> {
        self.0@
    }
}

impl TokenId {
    pub fn new(value: String) -> (r: TokenId)
        ensures
            r@ == value@,
    {
        TokenId(value)
    }

    pub fn as_str(&self) -> (r: &str)
        ensures
            r@ == self@,
    {
        self.0.as_str()
    }

    /// The id holds something other than white space.
    pub fn is_non_empty(&self) -> (r: bool)
        ensures
            r == !all_white(self@),
    {
        !is_blank(self.0.as_str())
    }

    /// Same characters.
    pub fn same_as(&self, other: &TokenId) -> (r: bool)
        ensures
            r == (self@ == other@),
    {
        self.0 == other.0
    }

    /// A copy holding the same characters.
    pub fn duplicate(&self) -> (r: TokenId)
        ensures
            r == *self,
    {
        TokenId(self.0.clone())
    }
}

impl MarketSlug {
    pub fn new(value: String) -> (r: MarketSlug)
        ensures
            r@ == value@,
    {
        MarketSlug(value)
    }

    pub fn as_str(&self) -> (r: &str)
        ensures
            r@ == self@,
    {
        self.0.as_str()
    }

    /// Same characters.
    pub fn same_as(&self, other: &MarketSlug) -> (r: bool)
        ensures
            r == (self@ == other@),
    {
        self.0 == other.0
    }

    /// A copy holding the same characters.
    pub fn duplicate(&self) -> (r: MarketSlug)
        ensures
            r == *self,
    {
        MarketSlug(self.0.clone())
    }
}

impl ConditionId {
    pub fn new(value: String) -> (r: ConditionId)
        ensures
            r@ == value@,
    {
        ConditionId(value)
    }

    /// A copy holding the same characters.
    pub fn duplicate(&self) -> (r: ConditionId)
        ensures
            r == *self,
    {
        ConditionId(self.0.clone())
    }
}

} // verus!
