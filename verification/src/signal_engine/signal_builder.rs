//! Building a signal from a package that passed the checks.
use vstd::prelude::*;

use crate::config::Config;
use crate::decimal::{DecView, Decimal};
use crate::depth_engine::result::DepthResult;
use crate::relation_engine::package_builder::PackageCandidate;
use crate::types::signal::Signal;

use super::filters::{filter_signal_candidate, filter_spec, outcome_matches, SignalFilterOutcome, SignalFilterRejection};

verus! {

/// Why no signal was built.
#[derive(Debug, Clone)]
pub struct SignalError {
    pub message: String,
}

/// `s` is the signal for the package: the candidate's identity, prices and timing, the
/// top cost, the depth's average cost (the top cost where the depth has none), size,
/// edge and capital.
pub open spec fn signal_spec(
    s: Signal,
    candidate: PackageCandidate,
    top_cost: Decimal,
    depth: DepthResult,
    created_at_ms: i64,
) -> bool {
    &&& s.asset == candidate.asset
    &&& s.short_tf == candidate.short_tf
    &&& s.long_tf == candidate.long_tf
    &&& s.short_market_slug@ == candidate.short_market_slug@
    &&& s.long_market_slug@ == candidate.long_market_slug@
    &&& s.package_name == candidate.package_name
    &&& s.selected_short_token@ == candidate.selected_short_token@
    &&& s.selected_long_token@ == candidate.selected_long_token@
    &&& s.short_ptb == candidate.short_ptb
    &&& s.long_ptb == candidate.long_ptb
    &&& s.top_cost == top_cost
    &&& s.depth_avg_cost == (match depth.avg_package_cost {
        Some(c) => c,
        None => top_cost,
    })
    &&& s.executable_size == depth.max_size_under_threshold
    &&& s.gross_edge == depth.gross_edge
    &&& s.capital_required == depth.capital_required
    &&& s.seconds_to_end == candidate.seconds_to_end
    &&& s.created_at_ms == created_at_ms
}

/// `r` is what building the signal gives: the signal where the checks accept the
/// package, else the refusal carrying the failed check's message.
pub open spec fn built_signal(
    r: Result<Signal, SignalError>,
    config: Config,
    candidate: PackageCandidate,
    top_cost: Decimal,
    depth: DepthResult,
    created_at_ms: i64,
) -> bool {
    match filter_spec(config, candidate, top_cost@, depth)->0 {
        None => r is Ok && signal_spec(r->Ok_0, candidate, top_cost, depth, created_at_ms),
        Some(x) => r is Err && r->Err_0.message@ == "signal rejected: "@ + x.1,
    }
}

/// The two signals hold the same values, texts compared by their characters.
pub open spec fn same_signal(a: Signal, b: Signal) -> bool {
    &&& a.asset == b.asset
    &&& a.short_tf == b.short_tf
    &&& a.long_tf == b.long_tf
    &&& a.short_market_slug@ == b.short_market_slug@
    &&& a.long_market_slug@ == b.long_market_slug@
    &&& a.package_name == b.package_name
    &&& a.selected_short_token@ == b.selected_short_token@
    &&& a.selected_long_token@ == b.selected_long_token@
    &&& a.short_ptb == b.short_ptb
    &&& a.long_ptb == b.long_ptb
    &&& a.top_cost == b.top_cost
    &&& a.depth_avg_cost == b.depth_avg_cost
    &&& a.executable_size == b.executable_size
    &&& a.gross_edge == b.gross_edge
    &&& a.capital_required == b.capital_required
    &&& a.seconds_to_end == b.seconds_to_end
    &&& a.created_at_ms == b.created_at_ms
}

/// Building a signal fails exactly where the checks turn the package down, with the
/// checks' message after `signal rejected: `; where it succeeds, the signal is the one
/// built without checking. This holds wherever the thresholds can be computed.
pub proof fn lemma_build_signal_follows_filter(
    config: Config,
    candidate: PackageCandidate,
    top_cost: Decimal,
    depth: DepthResult,
    created_at_ms: i64,
    outcome: SignalFilterOutcome,
    r: Result<Signal, SignalError>,
    unchecked: Signal,
)
    requires
        filter_spec(config, candidate, top_cost@, depth) is Some,
        outcome_matches(outcome, filter_spec(config, candidate, top_cost@, depth)->0),
        built_signal(r, config, candidate, top_cost, depth, created_at_ms),
        signal_spec(unchecked, candidate, top_cost, depth, created_at_ms),
    ensures
        r is Err <==> !outcome.accepted,
        r is Err ==> r->Err_0.message@ == "signal rejected: "@ + outcome.message@,
        r is Ok ==> same_signal(r->Ok_0, unchecked),
{
}

/// The signal for the package, without checking it.
pub fn build_signal_unchecked(
    candidate: &PackageCandidate,
    top_cost: Decimal,
    depth_result: &DepthResult,
    created_at_ms: i64,
) -> (r: Signal)
    ensures
        signal_spec(r, *candidate, top_cost, *depth_result, created_at_ms),
{
    let depth_avg_cost = match depth_result.avg_package_cost {
        Some(c) => c,
        None => top_cost,
    };
    Signal::new(
        candidate.asset,
        candidate.short_tf,
        candidate.long_tf,
        candidate.short_market_slug.clone(),
        candidate.long_market_slug.clone(),
        candidate.package_name,
        candidate.selected_short_token.clone(),
        candidate.selected_long_token.clone(),
        candidate.short_ptb,
        candidate.long_ptb,
        top_cost,
        depth_avg_cost,
        depth_result.max_size_under_threshold,
        depth_result.gross_edge,
        depth_result.capital_required,
        candidate.seconds_to_end,
        created_at_ms,
    )
}

/// The signal for the package where it passes the checks; otherwise the error
/// `signal rejected: ` and the failed check's message.
pub fn build_signal(
    config: &Config,
    candidate: &PackageCandidate,
    top_cost: Decimal,
    depth_result: &DepthResult,
    created_at_ms: i64,
) -> (r: Result<Signal, SignalError>)
    requires
        filter_spec(*config, *candidate, top_cost@, *depth_result) is Some,
    ensures
        match filter_spec(*config, *candidate, top_cost@, *depth_result)->0 {
            None => r is Ok && signal_spec(r->Ok_0, *candidate, top_cost, *depth_result, created_at_ms),
            Some(x) => r is Err && r->Err_0.message@ == "signal rejected: "@ + x.1,
        },
        built_signal(r, *config, *candidate, top_cost, *depth_result, created_at_ms),
{
    let outcome = filter_signal_candidate(config, candidate, top_cost, depth_result);
    if !outcome.accepted {
        let mut message = "signal rejected: ".to_owned();
        message.append(outcome.message.as_str());
        return Err(SignalError { message });
    }
    Ok(build_signal_unchecked(candidate, top_cost, depth_result, created_at_ms))
}

/// The result `build_signal` gives, or `None` where a threshold subtraction overflows.
pub fn try_build_signal(
    config: &Config,
    candidate: &PackageCandidate,
    top_cost: Decimal,
    depth_result: &DepthResult,
    created_at_ms: i64,
) -> (r: Option<Result<Signal, SignalError>>)
    ensures
        match filter_spec(*config, *candidate, top_cost@, *depth_result) {
            None => r is None,
            Some(None) => r is Some && r->0 is Ok && signal_spec(
                r->0->Ok_0,
                *candidate,
                top_cost,
                *depth_result,
                created_at_ms,
            ),
            Some(Some(x)) => r is Some && r->0 is Err && r->0->Err_0.message@ == "signal rejected: "@ + x.1,
        },
{
    match super::filters::try_filter_signal_candidate(config, candidate, top_cost, depth_result) {
        None => None,
        Some(_) => Some(build_signal(config, candidate, top_cost, depth_result, created_at_ms)),
    }
}

} // verus!
