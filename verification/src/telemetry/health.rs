//! Health checks over a telemetry snapshot.
use vstd::prelude::*;

use crate::config::Config;
use crate::text::{nat_text, u64_text};
use crate::types::timeframe::{timeframe_label, Timeframe};

use super::alerts::{AlertLevel, HealthAlert};
use super::counts::{count_for, count_in, AssetTimeframe, TimeframePair};
use super::metrics::TelemetrySnapshot;

verus! {

pub struct HealthCheckInput<'a> {
    pub config: &'a Config,
    pub snapshot: &'a TelemetrySnapshot,
}

/// An alert as plain values: level, code, message.
pub type AlertView = (AlertLevel, Seq<char>, Seq<char>);

pub open spec fn alert_view(a: HealthAlert) -> AlertView {
    (a.level, a.code@, a.message@)
}

pub open spec fn alerts_view(v: Seq<HealthAlert>) -> Seq<AlertView> {
    v.map_values(|a: HealthAlert| alert_view(a))
}

/// A warning for each configured timeframe without discovered markets, in order.
pub open spec fn missing_timeframe_alerts(enabled: Seq<Timeframe>, discovered: Seq<(Timeframe, usize)>) -> Seq<AlertView>
    decreases enabled.len(),
{
    if enabled.len() == 0 {
        Seq::empty()
    } else {
        let tf = enabled.last();
        missing_timeframe_alerts(enabled.drop_last(), discovered) + if count_in(discovered, tf) == 0 {
            seq![
                (
                    AlertLevel::Warning,
                    "missing_markets_"@ + timeframe_label(tf),
                    "configured timeframe "@ + timeframe_label(tf) + " has zero discovered markets"@,
                ),
            ]
        } else {
            Seq::empty()
        }
    }
}

/// Some entry of `captured` for timeframe `tf` has a positive count.
pub open spec fn has_capture(captured: Seq<(AssetTimeframe, usize)>, tf: Timeframe) -> bool {
    exists|i: int| 0 <= i < captured.len() && #[trigger] captured[i].0.timeframe == tf && captured[i].1 > 0
}

pub open spec fn capture_alert(captured: Seq<(AssetTimeframe, usize)>, tf: Timeframe) -> Seq<AlertView> {
    if has_capture(captured, tf) {
        Seq::empty()
    } else {
        seq![
            (
                AlertLevel::Warning,
                "zero_ptb_captures_"@ + timeframe_label(tf),
                "zero exact PTB captures for timeframe "@ + timeframe_label(tf),
            ),
        ]
    }
}

/// The priced pairs hold exactly one entry, the 5m-15m pair.
pub open spec fn only_short_pair(priced: Seq<(TimeframePair, usize)>) -> bool {
    priced.len() == 1 && priced[0].0 == TimeframePair { short: Timeframe::FiveMin, long: Timeframe::FifteenMin }
}

/// Some under-one count is positive.
pub open spec fn has_under_one(under: Seq<(TimeframePair, usize)>) -> bool {
    exists|i: int| 0 <= i < under.len() && #[trigger] under[i].1 > 0
}

/// The alerts of the health checks, in order: configured timeframes without markets,
/// higher timeframes without exact captures, priced pairs limited to 5m-15m, stale books,
/// books without asks, and under-one candidates seen.
pub open spec fn health_spec(config: Config, s: TelemetrySnapshot) -> Seq<AlertView> {
    let captured = s.ptbs_captured_by_timeframe_and_asset@;
    missing_timeframe_alerts(config.timeframes.enabled@, s.markets_discovered_by_timeframe@) + capture_alert(
        captured,
        Timeframe::OneHour,
    ) + capture_alert(captured, Timeframe::FourHour) + capture_alert(captured, Timeframe::OneDay) + (if only_short_pair(
        s.priced_pairs_by_timeframe_pair@,
    ) {
        seq![(AlertLevel::Warning, "priced_pairs_only_5m_15m"@, "priced pairs currently only include 5m-15m"@)]
    } else {
        Seq::empty()
    }) + (if s.book_store_stats.stale_books > 0 {
        seq![
            (
                AlertLevel::Warning,
                "stale_books_present"@,
                nat_text(s.book_store_stats.stale_books as nat) + " books are stale"@,
            ),
        ]
    } else {
        Seq::empty()
    }) + (if s.book_store_stats.books_without_usable_asks > 0 {
        seq![
            (
                AlertLevel::Warning,
                "books_without_usable_asks"@,
                nat_text(s.book_store_stats.books_without_usable_asks as nat) + " books have no usable asks"@,
            ),
        ]
    } else {
        Seq::empty()
    }) + (if has_under_one(s.under_1_candidates_by_pair_type@) && s.max_gross_edge_by_asset@.len() > 0 {
        seq![
            (
                AlertLevel::Info,
                "under_1_candidates_seen"@,
                "under-1 candidates exist; depth confirmation should be monitored by signal/depth outputs"@,
            ),
        ]
    } else {
        Seq::empty()
    })
}

fn join(a: &str, b: &str) -> (r: String)
    ensures
        r@ == a@ + b@,
{
    let mut s = a.to_owned();
    s.append(b);
    s
}

fn join3(a: &str, b: &str, c: &str) -> (r: String)
    ensures
        r@ == a@ + b@ + c@,
{
    let mut s = a.to_owned();
    s.append(b);
    s.append(c);
    s
}

fn push_alert(alerts: &mut Vec<HealthAlert>, a: HealthAlert)
    ensures
        alerts_view(final(alerts)@) == alerts_view(old(alerts)@).push(alert_view(a)),
{
    let ghost before = alerts@;
    alerts.push(a);
    assert(alerts_view(alerts@) =~= alerts_view(before).push(alert_view(a)));
}

fn check_missing_configured_timeframes(config: &Config, snapshot: &TelemetrySnapshot, alerts: &mut Vec<HealthAlert>)
    ensures
        alerts_view(final(alerts)@) == alerts_view(old(alerts)@) + missing_timeframe_alerts(
            config.timeframes.enabled@,
            snapshot.markets_discovered_by_timeframe@,
        ),
{
    let enabled = &config.timeframes.enabled;
    let ghost start = alerts_view(alerts@);
    let mut i: usize = 0;
    assert(enabled@.take(0) =~= Seq::<Timeframe>::empty());
    assert(start =~= start + missing_timeframe_alerts(enabled@.take(0), snapshot.markets_discovered_by_timeframe@));
    while i < enabled.len()
        invariant
            i <= enabled@.len(),
            start == alerts_view(old(alerts)@),
            alerts_view(alerts@) == start + missing_timeframe_alerts(
                enabled@.take(i as int),
                snapshot.markets_discovered_by_timeframe@,
            ),
        decreases enabled@.len() - i,
    {
        let tf = enabled[i];
        proof {
            assert(enabled@.take(i + 1).drop_last() =~= enabled@.take(i as int));
            assert(enabled@.take(i + 1).last() == tf);
        }
        let discovered = count_for(&snapshot.markets_discovered_by_timeframe, &tf);
        if discovered == 0 {
            let a = HealthAlert::warning(
                join("missing_markets_", tf.label()),
                join3("configured timeframe ", tf.label(), " has zero discovered markets"),
            );
            push_alert(alerts, a);
        }
        proof {
            assert(alerts_view(alerts@) =~= start + missing_timeframe_alerts(
                enabled@.take(i + 1),
                snapshot.markets_discovered_by_timeframe@,
            ));
        }
        i = i + 1;
    }
    assert(enabled@.take(i as int) =~= enabled@);
}

fn captures_for(captured: &Vec<(AssetTimeframe, usize)>, tf: Timeframe) -> (r: bool)
    ensures
        r == has_capture(captured@, tf),
{
    let mut i: usize = 0;
    while i < captured.len()
        invariant
            i <= captured@.len(),
            forall|k: int| 0 <= k < i ==> !(#[trigger] captured@[k].0.timeframe == tf && captured@[k].1 > 0),
        decreases captured@.len() - i,
    {
        if captured[i].0.timeframe == tf && captured[i].1 > 0 {
            return true;
        }
        i = i + 1;
    }
    false
}

fn check_higher_timeframe(snapshot: &TelemetrySnapshot, tf: Timeframe, alerts: &mut Vec<HealthAlert>)
    ensures
        alerts_view(final(alerts)@) == alerts_view(old(alerts)@) + capture_alert(
            snapshot.ptbs_captured_by_timeframe_and_asset@,
            tf,
        ),
{
    let ghost start = alerts_view(alerts@);
    if !captures_for(&snapshot.ptbs_captured_by_timeframe_and_asset, tf) {
        let a = HealthAlert::warning(
            join("zero_ptb_captures_", tf.label()),
            join("zero exact PTB captures for timeframe ", tf.label()),
        );
        push_alert(alerts, a);
    }
    assert(alerts_view(alerts@) =~= start + capture_alert(snapshot.ptbs_captured_by_timeframe_and_asset@, tf));
}

fn any_under_one(under: &Vec<(TimeframePair, usize)>) -> (r: bool)
    ensures
        r == has_under_one(under@),
{
    let mut i: usize = 0;
    while i < under.len()
        invariant
            i <= under@.len(),
            forall|k: int| 0 <= k < i ==> !(#[trigger] under@[k].1 > 0),
        decreases under@.len() - i,
    {
        if under[i].1 > 0 {
            return true;
        }
        i = i + 1;
    }
    false
}

/// Runs the health checks over the snapshot and returns their alerts, in order.
pub fn run_health_checks(input: HealthCheckInput<'_>) -> (r: Vec<HealthAlert>)
    ensures
        alerts_view(r@) == health_spec(*input.config, *input.snapshot),
{
    let config = input.config;
    let snapshot = input.snapshot;
    let mut alerts: Vec<HealthAlert> = Vec::new();
    assert(alerts_view(alerts@) =~= Seq::<AlertView>::empty());
    check_missing_configured_timeframes(config, snapshot, &mut alerts);
    check_higher_timeframe(snapshot, Timeframe::OneHour, &mut alerts);
    check_higher_timeframe(snapshot, Timeframe::FourHour, &mut alerts);
    check_higher_timeframe(snapshot, Timeframe::OneDay, &mut alerts);
    let ghost after_captures = alerts_view(alerts@);
    let priced = &snapshot.priced_pairs_by_timeframe_pair;
    if priced.len() == 1 && priced[0].0 == (TimeframePair { short: Timeframe::FiveMin, long: Timeframe::FifteenMin }) {
        push_alert(
            &mut alerts,
            HealthAlert::warning("priced_pairs_only_5m_15m".to_owned(), "priced pairs currently only include 5m-15m".to_owned()),
        );
    }
    let ghost after_priced = alerts_view(alerts@);
    let stats = snapshot.book_store_stats;
    if stats.stale_books > 0 {
        push_alert(
            &mut alerts,
            HealthAlert::warning(
                "stale_books_present".to_owned(),
                join(u64_text(stats.stale_books as u64).as_str(), " books are stale"),
            ),
        );
    }
    let ghost after_stale = alerts_view(alerts@);
    if stats.books_without_usable_asks > 0 {
        push_alert(
            &mut alerts,
            HealthAlert::warning(
                "books_without_usable_asks".to_owned(),
                join(u64_text(stats.books_without_usable_asks as u64).as_str(), " books have no usable asks"),
            ),
        );
    }
    let ghost after_asks = alerts_view(alerts@);
    if any_under_one(&snapshot.under_1_candidates_by_pair_type) && snapshot.max_gross_edge_by_asset.len() > 0 {
        push_alert(
            &mut alerts,
            HealthAlert::info(
                "under_1_candidates_seen".to_owned(),
                "under-1 candidates exist; depth confirmation should be monitored by signal/depth outputs".to_owned(),
            ),
        );
    }
    assert(alerts_view(alerts@) =~= health_spec(*config, *snapshot));
    alerts
}

} // verus!
