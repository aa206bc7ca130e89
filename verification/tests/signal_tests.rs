use c3po::config::{
    AssetConfig, ClobConfig, Config, EvaluationConfig, PairConfig, PairType, RtdsConfig, StorageConfig, TelemetryConfig,
    TimeframeConfig,
};
use c3po::decimal::Decimal;
use c3po::depth_engine::{DepthLeg, DepthResult, DepthStatus};
use c3po::relation_engine::{build_package_candidate, MarketPair};
use c3po::signal_engine::signal_builder::try_build_signal;
use c3po::signal_engine::{build_signal, build_signal_unchecked, filter_signal_candidate, SignalFilterRejection, SignalPublisher};
use c3po::types::{Asset, ConditionId, Market, MarketSlug, PackageCandidate, Timeframe, TokenId};

fn d(s: &str) -> Decimal {
    Decimal::parse(s).unwrap()
}

fn config() -> Config {
    Config {
        assets: AssetConfig { enabled: vec![Asset::BTC] },
        timeframes: TimeframeConfig { enabled: vec![Timeframe::FiveMin, Timeframe::OneHour] },
        pairs: PairConfig { allowed: vec![PairType { short: Timeframe::FiveMin, long: Timeframe::OneHour }] },
        eval: EvaluationConfig {
            trigger_buffer: d("0.02"),
            execution_buffer: d("0.03"),
            min_seconds_to_end: 30,
            max_book_age_ms: 2_000,
            min_top_book_size: d("5"),
            min_depth_confirmed_size: d("5"),
            min_gross_edge: d("0.05"),
            eval_interval_ms: 1_000,
            discovery_interval_ms: 60_000,
        },
        rtds: RtdsConfig { websocket_url: "wss://rtds".to_string(), topic: "crypto_prices".to_string(), reconnect_backoff_ms: 1_000 },
        clob: ClobConfig { websocket_url: "wss://clob".to_string(), max_subscription_tokens: 100, reconnect_backoff_ms: 1_000 },
        storage: StorageConfig {
            data_dir: "data".to_string(),
            ticks_dir: "ticks".to_string(),
            ptbs_dir: "ptbs".to_string(),
            books_dir: "books".to_string(),
            evaluations_dir: "evaluations".to_string(),
            opportunities_dir: "opportunities".to_string(),
            replay_dir: "replay".to_string(),
        },
        telemetry: TelemetryConfig { enabled: true, health_interval_ms: 10_000 },
    }
}

fn market(slug: &str, tf: Timeframe) -> Market {
    Market::new(
        Asset::BTC,
        tf,
        MarketSlug::new(slug.to_string()),
        ConditionId::new("c".to_string()),
        TokenId::new(format!("{slug}-up")),
        TokenId::new(format!("{slug}-down")),
        0,
        100_000,
        true,
        false,
        0,
    )
}

fn candidate(now_ms: i64) -> PackageCandidate {
    let pair = MarketPair { short: market("s", Timeframe::FiveMin), long: market("l", Timeframe::OneHour) };
    build_package_candidate(&pair, d("101"), d("100"), now_ms).unwrap()
}

fn depth(status: DepthStatus, avg: Option<&str>, size: &str, edge: &str, capital: &str) -> DepthResult {
    DepthResult {
        status,
        requested_size: d("10"),
        max_size_under_threshold: d(size),
        short_avg_cost: None,
        long_avg_cost: None,
        avg_package_cost: avg.map(d),
        gross_edge: d(edge),
        capital_required: d(capital),
        limiting_leg: DepthLeg::Neither,
        consumed_levels_short: 1,
        consumed_levels_long: 1,
    }
}

fn good_depth() -> DepthResult {
    depth(DepthStatus::DepthConfirmedUnderOne, Some("0.90"), "10", "0.10", "9")
}

#[test]
fn filter_accepts_a_good_package() {
    let o = filter_signal_candidate(&config(), &candidate(0), d("0.90"), &good_depth());
    assert!(o.accepted);
    assert!(o.rejection.is_none());
    assert_eq!(o.message, "accepted");
}

#[test]
fn filter_rejects_each_check_in_order() {
    let cfg = config();
    let o = filter_signal_candidate(&cfg, &candidate(80_500), d("0.90"), &good_depth());
    assert_eq!(o.rejection, Some(SignalFilterRejection::ExpiredOrTooClose));
    assert_eq!(o.message, "seconds_to_end 19 is below minimum 30");

    let c = candidate(0);
    let o = filter_signal_candidate(&cfg, &c, d("0.98"), &good_depth());
    assert_eq!(o.rejection, Some(SignalFilterRejection::TopCostNotUnderTriggerThreshold));
    assert_eq!(o.message, "top_cost 0.98 is not below trigger threshold 0.98");

    let o = filter_signal_candidate(&cfg, &c, d("0.90"), &depth(DepthStatus::InsufficientDepth, Some("0.90"), "10", "0.10", "9"));
    assert_eq!(o.rejection, Some(SignalFilterRejection::DepthNotConfirmed));
    assert_eq!(o.message, "depth result is not DEPTH_CONFIRMED_UNDER_1");

    let o = filter_signal_candidate(&cfg, &c, d("0.90"), &depth(DepthStatus::DepthConfirmedUnderOne, None, "10", "0.10", "9"));
    assert_eq!(o.rejection, Some(SignalFilterRejection::MissingDepthAverageCost));
    assert_eq!(o.message, "depth result has no average package cost");

    let o = filter_signal_candidate(&cfg, &c, d("0.90"), &depth(DepthStatus::DepthConfirmedUnderOne, Some("0.97"), "10", "0.10", "9"));
    assert_eq!(o.rejection, Some(SignalFilterRejection::DepthAverageCostNotUnderExecutionThreshold));
    assert_eq!(o.message, "depth average cost 0.97 is not below execution threshold 0.97");

    let o = filter_signal_candidate(&cfg, &c, d("0.90"), &depth(DepthStatus::DepthConfirmedUnderOne, Some("0.90"), "4.5", "0.10", "9"));
    assert_eq!(o.rejection, Some(SignalFilterRejection::ExecutableSizeTooSmall));
    assert_eq!(o.message, "executable size 4.5 is below minimum 5");

    let o = filter_signal_candidate(&cfg, &c, d("0.90"), &depth(DepthStatus::DepthConfirmedUnderOne, Some("0.90"), "10", "0.04", "9"));
    assert_eq!(o.rejection, Some(SignalFilterRejection::GrossEdgeTooSmall));
    assert_eq!(o.message, "gross edge 0.04 is below minimum 0.05");

    let o = filter_signal_candidate(&cfg, &c, d("0.90"), &depth(DepthStatus::DepthConfirmedUnderOne, Some("0.90"), "10", "0.10", "0"));
    assert_eq!(o.rejection, Some(SignalFilterRejection::ZeroOrNegativeCapitalRequired));
    assert_eq!(o.message, "capital required is zero or negative");
}

#[test]
fn build_signal_copies_the_package() {
    let c = candidate(10_000);
    let s = build_signal(&config(), &c, d("0.92"), &good_depth(), 12_345).unwrap();
    assert_eq!(s.short_market_slug, "s");
    assert_eq!(s.long_market_slug, "l");
    assert_eq!(s.selected_long_token, "l-up");
    assert_eq!(s.selected_short_token, "s-down");
    assert!(s.top_cost.eq_value(&d("0.92")));
    assert!(s.depth_avg_cost.eq_value(&d("0.90")));
    assert!(s.executable_size.eq_value(&d("10")));
    assert!(s.capital_required.eq_value(&d("9")));
    assert_eq!(s.seconds_to_end, 90);
    assert_eq!(s.created_at_ms, 12_345);
}

#[test]
fn build_signal_reports_the_rejection() {
    let err = build_signal(&config(), &candidate(0), d("0.99"), &good_depth(), 0).unwrap_err();
    assert_eq!(err.message, "signal rejected: top_cost 0.99 is not below trigger threshold 0.98");
    let r = try_build_signal(&config(), &candidate(0), d("0.90"), &good_depth(), 0).unwrap();
    assert!(r.is_ok());
}

#[test]
fn unchecked_signal_falls_back_to_top_cost() {
    let s = build_signal_unchecked(&candidate(0), d("0.93"), &depth(DepthStatus::NoUsableAsks, None, "0", "0", "0"), 1);
    assert!(s.depth_avg_cost.eq_value(&d("0.93")));
}

#[test]
fn publisher_keeps_signals_in_order() {
    let mut p = SignalPublisher::new_memory();
    assert!(p.is_empty());
    p.publish(build_signal_unchecked(&candidate(0), d("0.90"), &good_depth(), 1));
    let n = p.publish_many(vec![
        build_signal_unchecked(&candidate(0), d("0.90"), &good_depth(), 2),
        build_signal_unchecked(&candidate(0), d("0.90"), &good_depth(), 3),
    ]);
    assert_eq!(n, 2);
    assert_eq!(p.len(), 3);
    let times: Vec<i64> = p.emitted().iter().map(|s| s.created_at_ms).collect();
    assert_eq!(times, vec![1, 2, 3]);
    p.clear_memory();
    assert_eq!(p.len(), 0);
}

#[test]
fn build_signal_agrees_with_the_filter() {
    let cfg = config();
    let c = candidate(0);
    for (cost, dep) in [
        (d("0.90"), good_depth()),
        (d("0.99"), good_depth()),
        (d("0.90"), depth(DepthStatus::InsufficientDepth, Some("0.90"), "10", "0.10", "9")),
    ] {
        let outcome = filter_signal_candidate(&cfg, &c, cost, &dep);
        let built = build_signal(&cfg, &c, cost, &dep, 5);
        assert_eq!(built.is_err(), !outcome.accepted);
        match built {
            Err(e) => assert_eq!(e.message, format!("signal rejected: {}", outcome.message)),
            Ok(s) => {
                let u = build_signal_unchecked(&c, cost, &dep, 5);
                assert_eq!(s.selected_short_token, u.selected_short_token);
                assert!(s.depth_avg_cost.eq_value(&u.depth_avg_cost));
                assert_eq!(s.created_at_ms, u.created_at_ms);
            }
        }
    }
}
