use c3po::book_store::store::{BookStore, BookStoreStats};
use c3po::config::{
    AssetConfig, ClobConfig, Config, EvaluationConfig, PairConfig, PairType, RtdsConfig, StorageConfig, TelemetryConfig,
    TimeframeConfig,
};
use c3po::decimal::Decimal;
use c3po::persistence::OpportunityRecord;
use c3po::depth_engine::{DepthLeg, DepthResult, DepthStatus};
use c3po::ptb_store::store::PtbStore;
use c3po::registry::MarketRegistry;
use c3po::runtime::tasks::health_round;
use c3po::telemetry::counts::{count_for, count_keys, AssetTimeframe, TimeframePair};
use c3po::telemetry::{
    collect_telemetry_snapshot, run_health_checks, AlertLevel, HealthAlert, HealthCheckInput, TelemetryCounters,
    TelemetrySnapshot,
};
use c3po::types::{
    Asset, Book, ConditionId, EvaluationClassification, EvaluationRow, Level, Market, MarketSlug, PackageName, Timeframe,
    TokenId,
};

fn d(s: &str) -> Decimal {
    Decimal::parse(s).unwrap()
}

fn config(timeframes: Vec<Timeframe>) -> Config {
    Config {
        assets: AssetConfig { enabled: vec![Asset::BTC] },
        timeframes: TimeframeConfig { enabled: timeframes },
        pairs: PairConfig { allowed: vec![PairType { short: Timeframe::FiveMin, long: Timeframe::FifteenMin }] },
        eval: EvaluationConfig {
            trigger_buffer: d("0.02"),
            execution_buffer: d("0.02"),
            min_seconds_to_end: 30,
            max_book_age_ms: 2_000,
            min_top_book_size: d("5"),
            min_depth_confirmed_size: d("5"),
            min_gross_edge: d("0.05"),
            eval_interval_ms: 1_000,
            discovery_interval_ms: 60_000,
        },
        rtds: RtdsConfig { websocket_url: "wss://rtds".to_string(), topic: "crypto_prices".to_string(), reconnect_backoff_ms: 1_000 },
        clob: ClobConfig { websocket_url: "wss://clob".to_string(), max_subscription_tokens: 100, reconnect_backoff_ms: 1_000 },
        storage: StorageConfig {
            data_dir: "data".to_string(),
            ticks_dir: "ticks".to_string(),
            ptbs_dir: "ptbs".to_string(),
            books_dir: "books".to_string(),
            evaluations_dir: "evaluations".to_string(),
            opportunities_dir: "opportunities".to_string(),
            replay_dir: "replay".to_string(),
        },
        telemetry: TelemetryConfig { enabled: true, health_interval_ms: 10_000 },
    }
}

fn market(slug: &str, asset: Asset, tf: Timeframe, open_ms: i64, end_ms: i64) -> Market {
    Market::new(
        asset,
        tf,
        MarketSlug::new(slug.to_string()),
        ConditionId::new("c".to_string()),
        TokenId::new(format!("{slug}-up")),
        TokenId::new(format!("{slug}-down")),
        open_ms,
        end_ms,
        true,
        false,
        0,
    )
}

fn row(asset: Asset, long_tf: Timeframe, class: EvaluationClassification, edge: Option<&str>) -> EvaluationRow {
    EvaluationRow::new(
        1,
        asset,
        Timeframe::FiveMin,
        long_tf,
        MarketSlug::new("s".to_string()),
        MarketSlug::new("l".to_string()),
        Some(d("100")),
        Some(d("101")),
        Some(PackageName::LongUpPlusShortDown),
        Some(TokenId::new("s-down".to_string())),
        Some(TokenId::new("l-up".to_string())),
        None,
        None,
        None,
        None,
        edge.map(|_| d("0.9")),
        edge.map(d),
        60,
        class,
    )
}

fn empty_snapshot() -> TelemetrySnapshot {
    TelemetrySnapshot {
        ts_ms: 0,
        markets_total: 0,
        markets_live_total: 0,
        markets_discovered_by_timeframe: vec![],
        markets_live_by_timeframe: vec![],
        markets_discovered_by_asset_timeframe: vec![],
        ptbs_total: 0,
        ptbs_captured_exact: 0,
        ptbs_pending: 0,
        ptbs_missing: 0,
        ptbs_invalid: 0,
        ptbs_captured_by_timeframe_and_asset: vec![],
        ptbs_missing_by_timeframe_and_asset: vec![],
        priced_pairs_by_timeframe_pair: vec![],
        under_1_candidates_by_pair_type: vec![],
        no_usable_asks_count: 0,
        max_gross_edge_by_asset: vec![],
        book_store_stats: BookStoreStats { total_books: 0, usable_books: 0, stale_books: 0, books_without_usable_asks: 0 },
        clob_reconnect_count: 0,
        rtds_reconnect_count: 0,
    }
}

fn codes(alerts: &[HealthAlert]) -> Vec<String> {
    alerts.iter().map(|a| a.code.clone()).collect()
}

#[test]
fn counts_each_key_once() {
    let c = count_keys(&vec![Timeframe::FiveMin, Timeframe::OneHour, Timeframe::FiveMin]);
    assert_eq!(c.len(), 2);
    assert_eq!(count_for(&c, &Timeframe::FiveMin), 2);
    assert_eq!(count_for(&c, &Timeframe::OneHour), 1);
    assert_eq!(count_for(&c, &Timeframe::OneDay), 0);
}

#[test]
fn snapshot_counts_markets_ptbs_rows_and_books() {
    let mut reg = MarketRegistry::new();
    let live = market("btc-live", Asset::BTC, Timeframe::FiveMin, 0, 10_000);
    let later = market("eth-later", Asset::ETH, Timeframe::OneHour, 20_000, 30_000);
    reg.insert_market(live.clone());
    reg.insert_market(later.clone());
    let mut ptbs = PtbStore::new();
    ptbs.insert_pending_for_market(&live);
    ptbs.insert_missing_for_market(&later, 1);
    let mut books = BookStore::new();
    books.insert_book(Book::new(TokenId::new("t1".to_string()), vec![], vec![Level::new(d("0.5"), d("1"))], None, 900));
    books.insert_book(Book::new(TokenId::new("t2".to_string()), vec![], vec![], None, 0));
    let rows = vec![
        row(Asset::BTC, Timeframe::FifteenMin, EvaluationClassification::TopOfBookOnlyUnderOne, Some("0.10")),
        row(Asset::BTC, Timeframe::FifteenMin, EvaluationClassification::ExpectedAboveOne, Some("0.20")),
        row(Asset::ETH, Timeframe::OneHour, EvaluationClassification::NoUsableAsks, None),
    ];
    let mut counters = TelemetryCounters::new();
    counters.increment_clob_reconnect();
    let s = collect_telemetry_snapshot(&reg, &ptbs, &books, &rows, counters, 1_000, 500);
    assert_eq!(s.ts_ms, 1_000);
    assert_eq!(s.markets_total, 2);
    assert_eq!(s.markets_live_total, 1);
    assert_eq!(count_for(&s.markets_discovered_by_timeframe, &Timeframe::OneHour), 1);
    assert_eq!(count_for(&s.markets_live_by_timeframe, &Timeframe::OneHour), 0);
    assert_eq!(
        count_for(&s.markets_discovered_by_asset_timeframe, &AssetTimeframe { asset: Asset::ETH, timeframe: Timeframe::OneHour }),
        1
    );
    assert_eq!(s.ptbs_total, 2);
    assert_eq!(s.ptbs_pending, 1);
    assert_eq!(s.ptbs_missing, 1);
    assert_eq!(s.ptbs_captured_exact, 0);
    let pair = TimeframePair { short: Timeframe::FiveMin, long: Timeframe::FifteenMin };
    assert_eq!(count_for(&s.priced_pairs_by_timeframe_pair, &pair), 2);
    assert_eq!(count_for(&s.under_1_candidates_by_pair_type, &pair), 1);
    assert_eq!(s.no_usable_asks_count, 1);
    assert_eq!(s.max_gross_edge_by_asset.len(), 1);
    assert_eq!(s.max_gross_edge_by_asset[0].0, Asset::BTC);
    assert!(s.max_gross_edge_by_asset[0].1.eq_value(&d("0.20")));
    assert_eq!(s.book_store_stats.total_books, 2);
    assert_eq!(s.book_store_stats.usable_books, 1);
    assert_eq!(s.book_store_stats.stale_books, 1);
    assert_eq!(s.book_store_stats.books_without_usable_asks, 1);
    assert_eq!(s.clob_reconnect_count, 1);
    assert_eq!(s.rtds_reconnect_count, 0);
}

#[test]
fn health_checks_report_in_order() {
    let cfg = config(vec![Timeframe::FiveMin, Timeframe::FifteenMin]);
    let mut s = empty_snapshot();
    s.markets_discovered_by_timeframe = vec![(Timeframe::FiveMin, 3)];
    s.ptbs_captured_by_timeframe_and_asset = vec![(AssetTimeframe { asset: Asset::BTC, timeframe: Timeframe::OneHour }, 1)];
    s.priced_pairs_by_timeframe_pair = vec![(TimeframePair { short: Timeframe::FiveMin, long: Timeframe::FifteenMin }, 4)];
    s.book_store_stats.stale_books = 2;
    s.book_store_stats.books_without_usable_asks = 1;
    s.under_1_candidates_by_pair_type = vec![(TimeframePair { short: Timeframe::FiveMin, long: Timeframe::FifteenMin }, 1)];
    s.max_gross_edge_by_asset = vec![(Asset::BTC, d("0.1"))];
    let alerts = run_health_checks(HealthCheckInput { config: &cfg, snapshot: &s });
    assert_eq!(
        codes(&alerts),
        vec![
            "missing_markets_15m",
            "zero_ptb_captures_4h",
            "zero_ptb_captures_1d",
            "priced_pairs_only_5m_15m",
            "stale_books_present",
            "books_without_usable_asks",
            "under_1_candidates_seen",
        ]
    );
    assert_eq!(alerts[0].message, "configured timeframe 15m has zero discovered markets");
    assert_eq!(alerts[0].level, AlertLevel::Warning);
    assert_eq!(alerts[4].message, "2 books are stale");
    assert_eq!(alerts[5].message, "1 books have no usable asks");
    assert_eq!(alerts[6].level, AlertLevel::Info);
}

#[test]
fn quiet_snapshot_only_reports_missing_captures() {
    let cfg = config(vec![]);
    let alerts = run_health_checks(HealthCheckInput { config: &cfg, snapshot: &empty_snapshot() });
    assert_eq!(codes(&alerts), vec!["zero_ptb_captures_1h", "zero_ptb_captures_4h", "zero_ptb_captures_1d"]);
    assert_eq!(alerts[0].message, "zero exact PTB captures for timeframe 1h");
}

#[test]
fn opportunity_record_copies_the_row() {
    let r = row(Asset::BTC, Timeframe::OneHour, EvaluationClassification::TopOfBookOnlyUnderOne, Some("0.10"));
    let rec = OpportunityRecord::from_evaluation(&r);
    assert_eq!(rec.pair_type, "5m-1h");
    assert!(rec.top_edge.unwrap().eq_value(&d("0.10")));
    assert!(rec.is_under_one_candidate());
    assert!(!rec.is_depth_confirmed());
    let depth = DepthResult {
        status: DepthStatus::DepthConfirmedUnderOne,
        requested_size: d("10"),
        max_size_under_threshold: d("10"),
        short_avg_cost: None,
        long_avg_cost: None,
        avg_package_cost: Some(d("0.9")),
        gross_edge: d("0.1"),
        capital_required: d("9"),
        limiting_leg: DepthLeg::Neither,
        consumed_levels_short: 1,
        consumed_levels_long: 1,
    };
    let rec = OpportunityRecord::from_evaluation_and_depth(&r, depth);
    assert!(rec.is_depth_confirmed());
    assert_eq!(HealthAlert::critical("c".to_string(), "m".to_string()).level, AlertLevel::Critical);
}

#[test]
fn health_round_respects_the_telemetry_switch() {
    let mut cfg = config(vec![Timeframe::FiveMin]);
    let reg = MarketRegistry::new();
    let ptbs = PtbStore::new();
    let books = BookStore::new();
    let alerts = health_round(&cfg, &reg, &ptbs, &books, &vec![], TelemetryCounters::new(), 0);
    assert_eq!(
        codes(&alerts),
        vec!["missing_markets_5m", "zero_ptb_captures_1h", "zero_ptb_captures_4h", "zero_ptb_captures_1d"]
    );
    cfg.telemetry.enabled = false;
    assert!(health_round(&cfg, &reg, &ptbs, &books, &vec![], TelemetryCounters::new(), 0).is_empty());
}

#[test]
fn per_key_counts_add_up_to_the_totals() {
    let c = count_keys(&vec![Asset::BTC, Asset::ETH, Asset::BTC, Asset::SOL]);
    assert_eq!(c.iter().map(|e| e.1).sum::<usize>(), 4);
    let mut reg = MarketRegistry::new();
    reg.insert_market(market("a", Asset::BTC, Timeframe::FiveMin, 0, 10_000));
    reg.insert_market(market("b", Asset::ETH, Timeframe::FiveMin, 0, 10_000));
    reg.insert_market(market("c", Asset::ETH, Timeframe::OneHour, 20_000, 30_000));
    let s = collect_telemetry_snapshot(&reg, &PtbStore::new(), &BookStore::new(), &vec![], TelemetryCounters::new(), 1_000, 500);
    assert_eq!(s.markets_discovered_by_timeframe.iter().map(|e| e.1).sum::<usize>(), s.markets_total);
    assert_eq!(s.markets_live_by_timeframe.iter().map(|e| e.1).sum::<usize>(), s.markets_live_total);
    assert_eq!(s.markets_discovered_by_asset_timeframe.iter().map(|e| e.1).sum::<usize>(), 3);
}
