//! Outcome of sizing a two-leg package against the ask side of both books.
use vstd::prelude::*;

use crate::decimal::{opt_view, zero_view, DecView, Decimal};

verus! {

/// The leg that could not be filled, or both, or neither.
#[derive(Debug, Clone, Copy, PartialEq, Eq, Hash, Structural)]
pub enum DepthLeg {
    Short,
    Long,
    Both,
    Neither,
}

#[derive(Debug, Clone, Copy, PartialEq, Eq, Hash, Structural)]
pub enum DepthStatus {
    DepthConfirmedUnderOne,
    TopBookOnlyUnderOne,
    InsufficientDepth,
    NoUsableAsks,
    InvalidTargetSize,
}

#[derive(Debug, Clone)]
pub struct DepthResult {
    pub status: DepthStatus,
    pub requested_size: Decimal,
    pub max_size_under_threshold: Decimal,
    pub short_avg_cost: Option<Decimal>,
    pub long_avg_cost: Option<Decimal>,
    pub avg_package_cost: Option<Decimal>,
    pub gross_edge: Decimal,
    pub capital_required: Decimal,
    pub limiting_leg: DepthLeg,
    pub consumed_levels_short: usize,
    pub consumed_levels_long: usize,
}

/// A depth result as plain values.
pub struct DepthModel {
    pub status: DepthStatus,
    pub requested_size: DecView,
    pub max_size_under_threshold: DecView,
    pub short_avg_cost: Option<DecView>,
    pub long_avg_cost: Option<DecView>,
    pub avg_package_cost: Option<DecView>,
    pub gross_edge: DecView,
    pub capital_required: DecView,
    pub limiting_leg: DepthLeg,
    pub consumed_levels_short: nat,
    pub consumed_levels_long: nat,
}

impl View for DepthResult {
    type V = DepthModel;

    open spec fn view(&self) -> DepthModel {
        DepthModel {
            status: self.status,
            requested_size: self.requested_size@,
            max_size_under_threshold: self.max_size_under_threshold@,
            short_avg_cost: opt_view(self.short_avg_cost),
            long_avg_cost: opt_view(self.long_avg_cost),
            avg_package_cost: opt_view(self.avg_package_cost),
            gross_edge: self.gross_edge@,
            capital_required: self.capital_required@,
            limiting_leg: self.limiting_leg,
            consumed_levels_short: self.consumed_levels_short as nat,
            consumed_levels_long: self.consumed_levels_long as nat,
        }
    }
}

/// A result that carries only a status and the requested size.
pub open spec fn empty_depth(status: DepthStatus, requested: DecView) -> DepthModel {
    DepthModel {
        status,
        requested_size: requested,
        max_size_under_threshold: zero_view(),
        short_avg_cost: None,
        long_avg_cost: None,
        avg_package_cost: None,
        gross_edge: zero_view(),
        capital_required: zero_view(),
        limiting_leg: DepthLeg::Neither,
        consumed_levels_short: 0,
        consumed_levels_long: 0,
    }
}

impl DepthResult {
    pub fn new(
        status: DepthStatus,
        requested_size: Decimal,
        max_size_under_threshold: Decimal,
        short_avg_cost: Option<Decimal>,
        long_avg_cost: Option<Decimal>,
        avg_package_cost: Option<Decimal>,
        gross_edge: Decimal,
        capital_required: Decimal,
        limiting_leg: DepthLeg,
        consumed_levels_short: usize,
        consumed_levels_long: usize,
    ) -> (r: DepthResult)
        ensures
            r.status == status,
            r.requested_size == requested_size,
            r.max_size_under_threshold == max_size_under_threshold,
            r.short_avg_cost == short_avg_cost,
            r.long_avg_cost == long_avg_cost,
            r.avg_package_cost == avg_package_cost,
            r.gross_edge == gross_edge,
            r.capital_required == capital_required,
            r.limiting_leg == limiting_leg,
            r.consumed_levels_short == consumed_levels_short,
            r.consumed_levels_long == consumed_levels_long,
    {
        DepthResult {
            status,
            requested_size,
            max_size_under_threshold,
            short_avg_cost,
            long_avg_cost,
            avg_package_cost,
            gross_edge,
            capital_required,
            limiting_leg,
            consumed_levels_short,
            consumed_levels_long,
        }
    }

    pub fn no_usable_asks(requested_size: Decimal) -> (r: DepthResult)
        ensures
            r@ == empty_depth(DepthStatus::NoUsableAsks, requested_size@),
    {
        DepthResult::new(
            DepthStatus::NoUsableAsks,
            requested_size,
            Decimal::zero(),
            None,
            None,
            None,
            Decimal::zero(),
            Decimal::zero(),
            DepthLeg::Neither,
            0,
            0,
        )
    }

    pub fn invalid_target_size(requested_size: Decimal) -> (r: DepthResult)
        ensures
            r@ == empty_depth(DepthStatus::InvalidTargetSize, requested_size@),
    {
        DepthResult::new(
            DepthStatus::InvalidTargetSize,
            requested_size,
            Decimal::zero(),
            None,
            None,
            None,
            Decimal::zero(),
            Decimal::zero(),
            DepthLeg::Neither,
            0,
            0,
        )
    }

    pub fn is_depth_confirmed(&self) -> (r: bool)
        ensures
            r == (self.status == DepthStatus::DepthConfirmedUnderOne),
    {
        self.status == DepthStatus::DepthConfirmedUnderOne
    }
}

} // verus!
