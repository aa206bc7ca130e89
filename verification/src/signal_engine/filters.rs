//! The checks a package must pass before it becomes a signal.
use vstd::prelude::*;

use crate::config::Config;
use crate::decimal::{decimal_checked_sub, decimal_text, one_view, value_le, value_lt, zero_view, DecView, Decimal};
use crate::depth_engine::result::{DepthResult, DepthStatus};
use crate::relation_engine::package_builder::PackageCandidate;
use crate::text::{i64_text, int_text, nat_text, u64_text};

verus! {

/// Why a package was turned down.
#[derive(Debug, Clone, Copy, PartialEq, Eq, Hash, Structural)]
pub enum SignalFilterRejection {
    ExpiredOrTooClose,
    TopCostNotUnderTriggerThreshold,
    DepthNotConfirmed,
    MissingDepthAverageCost,
    DepthAverageCostNotUnderExecutionThreshold,
    ExecutableSizeTooSmall,
    GrossEdgeTooSmall,
    ZeroOrNegativeCapitalRequired,
}

#[derive(Debug, Clone)]
pub struct SignalFilterOutcome {
    pub accepted: bool,
    pub rejection: Option<SignalFilterRejection>,
    pub message: String,
}

impl SignalFilterOutcome {
    pub fn accepted() -> (r: SignalFilterOutcome)
        ensures
            r.accepted,
            r.rejection is None,
            r.message@ == "accepted"@,
    {
        SignalFilterOutcome { accepted: true, rejection: None, message: "accepted".to_owned() }
    }

    pub fn rejected(rejection: SignalFilterRejection, message: String) -> (r: SignalFilterOutcome)
        ensures
            !r.accepted,
            r.rejection == Some(rejection),
            r.message == message,
    {
        SignalFilterOutcome { accepted: false, rejection: Some(rejection), message }
    }
}

/// The first check the package fails, with its message, or `None` for an accepted
/// package; the outer `None` where a decimal subtraction overflows.
pub open spec fn filter_spec(
    config: Config,
    candidate: PackageCandidate,
    top_cost: DecView,
    depth: DepthResult,
) -> Option<Option<(SignalFilterRejection, Seq<char>)>> {
    let eval = config.eval;
    if candidate.seconds_to_end < (eval.min_seconds_to_end as i64) {
        Some(
            Some(
                (
                    SignalFilterRejection::ExpiredOrTooClose,
                    "seconds_to_end "@ + int_text(candidate.seconds_to_end as int) + " is below minimum "@
                        + nat_text(eval.min_seconds_to_end as nat),
                ),
            ),
        )
    } else {
        match decimal_checked_sub(one_view(), eval.trigger_buffer@) {
            None => None,
            Some(trigger) => if value_le(trigger, top_cost) {
                Some(
                    Some(
                        (
                            SignalFilterRejection::TopCostNotUnderTriggerThreshold,
                            "top_cost "@ + decimal_text(top_cost) + " is not below trigger threshold "@
                                + decimal_text(trigger),
                        ),
                    ),
                )
            } else if depth.status != DepthStatus::DepthConfirmedUnderOne {
                Some(
                    Some(
                        (
                            SignalFilterRejection::DepthNotConfirmed,
                            "depth result is not DEPTH_CONFIRMED_UNDER_1"@,
                        ),
                    ),
                )
            } else {
                match depth.avg_package_cost {
                    None => Some(
                        Some(
                            (
                                SignalFilterRejection::MissingDepthAverageCost,
                                "depth result has no average package cost"@,
                            ),
                        ),
                    ),
                    Some(avg) => match decimal_checked_sub(one_view(), eval.execution_buffer@) {
                        None => None,
                        Some(execution) => if value_le(execution, avg@) {
                            Some(
                                Some(
                                    (
                                        SignalFilterRejection::DepthAverageCostNotUnderExecutionThreshold,
                                        "depth average cost "@ + decimal_text(avg@)
                                            + " is not below execution threshold "@ + decimal_text(execution),
                                    ),
                                ),
                            )
                        } else if value_lt(depth.max_size_under_threshold@, eval.min_depth_confirmed_size@) {
                            Some(
                                Some(
                                    (
                                        SignalFilterRejection::ExecutableSizeTooSmall,
                                        "executable size "@ + decimal_text(depth.max_size_under_threshold@)
                                            + " is below minimum "@ + decimal_text(eval.min_depth_confirmed_size@),
                                    ),
                                ),
                            )
                        } else if value_lt(depth.gross_edge@, eval.min_gross_edge@) {
                            Some(
                                Some(
                                    (
                                        SignalFilterRejection::GrossEdgeTooSmall,
                                        "gross edge "@ + decimal_text(depth.gross_edge@) + " is below minimum "@
                                            + decimal_text(eval.min_gross_edge@),
                                    ),
                                ),
                            )
                        } else if value_le(depth.capital_required@, zero_view()) {
                            Some(
                                Some(
                                    (
                                        SignalFilterRejection::ZeroOrNegativeCapitalRequired,
                                        "capital required is zero or negative"@,
                                    ),
                                ),
                            )
                        } else {
                            Some(None)
                        },
                    },
                }
            },
        }
    }
}

/// `o` reports the check outcome `f`.
pub open spec fn outcome_matches(o: SignalFilterOutcome, f: Option<(SignalFilterRejection, Seq<char>)>) -> bool {
    match f {
        None => o.accepted && o.rejection is None && o.message@ == "accepted"@,
        Some(x) => !o.accepted && o.rejection == Some(x.0) && o.message@ == x.1,
    }
}

fn message2(a: &str, x: &str, b: &str, y: &str) -> (r: String)
    ensures
        r@ == a@ + x@ + b@ + y@,
{
    let mut s = a.to_owned();
    s.append(x);
    s.append(b);
    s.append(y);
    s
}

/// Runs the checks in order and reports the first one the package fails: too close to
/// the end, top cost not under the trigger threshold, depth not confirmed, no average
/// depth cost, average cost not under the execution threshold, size too small, edge too
/// small, no capital required.
pub fn filter_signal_candidate(
    config: &Config,
    candidate: &PackageCandidate,
    top_cost: Decimal,
    depth_result: &DepthResult,
) -> (r: SignalFilterOutcome)
    requires
        filter_spec(*config, *candidate, top_cost@, *depth_result) is Some,
    ensures
        outcome_matches(r, filter_spec(*config, *candidate, top_cost@, *depth_result)->0),
{
    let eval = &config.eval;
    if candidate.seconds_to_end < eval.min_seconds_to_end as i64 {
        let m = message2(
            "seconds_to_end ",
            i64_text(candidate.seconds_to_end).as_str(),
            " is below minimum ",
            u64_text(eval.min_seconds_to_end).as_str(),
        );
        return SignalFilterOutcome::rejected(SignalFilterRejection::ExpiredOrTooClose, m);
    }
    let trigger_threshold = match Decimal::one().checked_sub(&eval.trigger_buffer) {
        Some(t) => t,
        None => return SignalFilterOutcome::accepted(),
    };
    if top_cost.ge(&trigger_threshold) {
        let m = message2(
            "top_cost ",
            top_cost.to_text().as_str(),
            " is not below trigger threshold ",
            trigger_threshold.to_text().as_str(),
        );
        return SignalFilterOutcome::rejected(SignalFilterRejection::TopCostNotUnderTriggerThreshold, m);
    }
    if !depth_result.is_depth_confirmed() {
        return SignalFilterOutcome::rejected(
            SignalFilterRejection::DepthNotConfirmed,
            "depth result is not DEPTH_CONFIRMED_UNDER_1".to_owned(),
        );
    }
    let depth_avg_cost = match depth_result.avg_package_cost {
        Some(c) => c,
        None => {
            return SignalFilterOutcome::rejected(
                SignalFilterRejection::MissingDepthAverageCost,
                "depth result has no average package cost".to_owned(),
            );
        },
    };
    let execution_threshold = match Decimal::one().checked_sub(&eval.execution_buffer) {
        Some(t) => t,
        None => return SignalFilterOutcome::accepted(),
    };
    if depth_avg_cost.ge(&execution_threshold) {
        let m = message2(
            "depth average cost ",
            depth_avg_cost.to_text().as_str(),
            " is not below execution threshold ",
            execution_threshold.to_text().as_str(),
        );
        return SignalFilterOutcome::rejected(SignalFilterRejection::DepthAverageCostNotUnderExecutionThreshold, m);
    }
    if depth_result.max_size_under_threshold.lt(&eval.min_depth_confirmed_size) {
        let m = message2(
            "executable size ",
            depth_result.max_size_under_threshold.to_text().as_str(),
            " is below minimum ",
            eval.min_depth_confirmed_size.to_text().as_str(),
        );
        return SignalFilterOutcome::rejected(SignalFilterRejection::ExecutableSizeTooSmall, m);
    }
    if depth_result.gross_edge.lt(&eval.min_gross_edge) {
        let m = message2(
            "gross edge ",
            depth_result.gross_edge.to_text().as_str(),
            " is below minimum ",
            eval.min_gross_edge.to_text().as_str(),
        );
        return SignalFilterOutcome::rejected(SignalFilterRejection::GrossEdgeTooSmall, m);
    }
    if depth_result.capital_required.le(&Decimal::zero()) {
        return SignalFilterOutcome::rejected(
            SignalFilterRejection::ZeroOrNegativeCapitalRequired,
            "capital required is zero or negative".to_owned(),
        );
    }
    SignalFilterOutcome::accepted()
}

/// The outcome `filter_signal_candidate` gives, or `None` where a threshold
/// subtraction overflows.
pub fn try_filter_signal_candidate(
    config: &Config,
    candidate: &PackageCandidate,
    top_cost: Decimal,
    depth_result: &DepthResult,
) -> (r: Option<SignalFilterOutcome>)
    ensures
        match filter_spec(*config, *candidate, top_cost@, *depth_result) {
            Some(f) => r is Some && outcome_matches(r->0, f),
            None => r is None,
        },
{
    if candidate.seconds_to_end >= config.eval.min_seconds_to_end as i64 {
        let trigger = Decimal::one().checked_sub(&config.eval.trigger_buffer);
        match trigger {
            None => return None,
            Some(t) => {
                if !top_cost.ge(&t) && depth_result.is_depth_confirmed() && depth_result.avg_package_cost.is_some() {
                    if Decimal::one().checked_sub(&config.eval.execution_buffer).is_none() {
                        return None;
                    }
                }
            },
        }
    }
    Some(filter_signal_candidate(config, candidate, top_cost, depth_result))
}

/// An accepted package passed every check: the cost under both thresholds, a confirmed
/// depth, size and edge at their minimums, and positive capital.
pub proof fn lemma_accepted_passes_all(
    config: Config,
    candidate: PackageCandidate,
    top_cost: DecView,
    depth: DepthResult,
)
    requires
        filter_spec(config, candidate, top_cost, depth) == Some(None::<(SignalFilterRejection, Seq<char>)>),
    ensures
        candidate.seconds_to_end >= (config.eval.min_seconds_to_end as i64),
        value_lt(top_cost, decimal_checked_sub(one_view(), config.eval.trigger_buffer@)->0),
        depth.status == DepthStatus::DepthConfirmedUnderOne,
        depth.avg_package_cost is Some,
        value_lt(depth.avg_package_cost->0@, decimal_checked_sub(one_view(), config.eval.execution_buffer@)->0),
        value_le(config.eval.min_depth_confirmed_size@, depth.max_size_under_threshold@),
        value_le(config.eval.min_gross_edge@, depth.gross_edge@),
        value_lt(zero_view(), depth.capital_required@),
{
    crate::decimal::lemma_pow10_pos(0);
}

} // verus!
