//! One evaluation of a package candidate, and how it was classified.
use vstd::prelude::*;

use crate::decimal::Decimal;
use crate::relation_engine::deterministic::PackageName;
use crate::types::asset::Asset;
use crate::types::ids::{MarketSlug, TokenId};
use crate::types::timeframe::{timeframe_label, Timeframe};

verus! {

/// Where an evaluated package stands.
#[derive(Debug, Clone, Copy, PartialEq, Eq, Hash, Structural)]
pub enum EvaluationClassification {
    ExpiredOrTooClose,
    StaleBook,
    NoUsableAsks,
    TopOfBookOnlyUnderOne,
    ExpectedAboveOne,
    DepthConfirmedUnderOne,
    InsufficientDepth,
}

pub open spec fn under_one_spec(c: EvaluationClassification) -> bool {
    c == EvaluationClassification::TopOfBookOnlyUnderOne || c == EvaluationClassification::DepthConfirmedUnderOne
}

pub open spec fn classification_text(c: EvaluationClassification) -> Seq<char> {
    match c {
        EvaluationClassification::ExpiredOrTooClose => "EXPIRED_OR_TOO_CLOSE"@,
        EvaluationClassification::StaleBook => "STALE_BOOK"@,
        EvaluationClassification::NoUsableAsks => "NO_USABLE_ASKS"@,
        EvaluationClassification::TopOfBookOnlyUnderOne => "TOP_OF_BOOK_ONLY_UNDER_1"@,
        EvaluationClassification::ExpectedAboveOne => "EXPECTED_ABOVE_1"@,
        EvaluationClassification::DepthConfirmedUnderOne => "DEPTH_CONFIRMED_UNDER_1"@,
        EvaluationClassification::InsufficientDepth => "INSUFFICIENT_DEPTH"@,
    }
}

impl EvaluationClassification {
    /// The package costs under one at the top of the book, or through the depth.
    pub fn is_under_one_candidate(&self) -> (r: bool)
        ensures
            r == under_one_spec(*self),
    {
        match self {
            EvaluationClassification::TopOfBookOnlyUnderOne => true,
            EvaluationClassification::DepthConfirmedUnderOne => true,
            _ => false,
        }
    }

    pub fn is_depth_confirmed(&self) -> (r: bool)
        ensures
            r == (*self == EvaluationClassification::DepthConfirmedUnderOne),
    {
        match self {
            EvaluationClassification::DepthConfirmedUnderOne => true,
            _ => false,
        }
    }

    pub fn as_str(&self) -> (r: &'static str)
        ensures
            r@ == classification_text(*self),
    {
        match self {
            EvaluationClassification::ExpiredOrTooClose => "EXPIRED_OR_TOO_CLOSE",
            EvaluationClassification::StaleBook => "STALE_BOOK",
            EvaluationClassification::NoUsableAsks => "NO_USABLE_ASKS",
            EvaluationClassification::TopOfBookOnlyUnderOne => "TOP_OF_BOOK_ONLY_UNDER_1",
            EvaluationClassification::ExpectedAboveOne => "EXPECTED_ABOVE_1",
            EvaluationClassification::DepthConfirmedUnderOne => "DEPTH_CONFIRMED_UNDER_1",
            EvaluationClassification::InsufficientDepth => "INSUFFICIENT_DEPTH",
        }
    }
}

#[derive(Debug, Clone)]
pub struct EvaluationRow {
    pub ts_ms: i64,
    pub asset: Asset,
    pub short_tf: Timeframe,
    pub long_tf: Timeframe,
    pub short_slug: MarketSlug,
    pub long_slug: MarketSlug,
    pub short_ptb: Option<Decimal>,
    pub long_ptb: Option<Decimal>,
    pub package_name: Option<PackageName>,
    pub selected_short_token: Option<TokenId>,
    pub selected_long_token: Option<TokenId>,
    pub short_ask: Option<Decimal>,
    pub long_ask: Option<Decimal>,
    pub short_ask_size: Option<Decimal>,
    pub long_ask_size: Option<Decimal>,
    pub top_cost: Option<Decimal>,
    pub edge: Option<Decimal>,
    pub seconds_to_end: i64,
    pub classification: EvaluationClassification,
}

/// The label of a timeframe pair, short first.
pub open spec fn pair_type_text(short: Timeframe, long: Timeframe) -> Seq<char> {
    timeframe_label(short) + "-"@ + timeframe_label(long)
}

impl EvaluationRow {
    pub fn new(
        ts_ms: i64,
        asset: Asset,
        short_tf: Timeframe,
        long_tf: Timeframe,
        short_slug: MarketSlug,
        long_slug: MarketSlug,
        short_ptb: Option<Decimal>,
        long_ptb: Option<Decimal>,
        package_name: Option<PackageName>,
        selected_short_token: Option<TokenId>,
        selected_long_token: Option<TokenId>,
        short_ask: Option<Decimal>,
        long_ask: Option<Decimal>,
        short_ask_size: Option<Decimal>,
        long_ask_size: Option<Decimal>,
        top_cost: Option<Decimal>,
        edge: Option<Decimal>,
        seconds_to_end: i64,
        classification: EvaluationClassification,
    ) -> (r: EvaluationRow)
        ensures
            r == (EvaluationRow {
                ts_ms,
                asset,
                short_tf,
                long_tf,
                short_slug,
                long_slug,
                short_ptb,
                long_ptb,
                package_name,
                selected_short_token,
                selected_long_token,
                short_ask,
                long_ask,
                short_ask_size,
                long_ask_size,
                top_cost,
                edge,
                seconds_to_end,
                classification,
            }),
    {
        EvaluationRow {
            ts_ms,
            asset,
            short_tf,
            long_tf,
            short_slug,
            long_slug,
            short_ptb,
            long_ptb,
            package_name,
            selected_short_token,
            selected_long_token,
            short_ask,
            long_ask,
            short_ask_size,
            long_ask_size,
            top_cost,
            edge,
            seconds_to_end,
            classification,
        }
    }

    /// The timeframe pair, as `short-long`.
    pub fn pair_type(&self) -> (r: String)
        ensures
            r@ == pair_type_text(self.short_tf, self.long_tf),
    {
        let mut s = self.short_tf.label().to_owned();
        s.append("-");
        s.append(self.long_tf.label());
        s
    }

    pub fn is_under_one_candidate(&self) -> (r: bool)
        ensures
            r == under_one_spec(self.classification),
    {
        self.classification.is_under_one_candidate()
    }
}

} // verus!
