use c3po::config::{
    AssetConfig, ClobConfig, Config, EvaluationConfig, PairConfig, PairType, RtdsConfig, StorageConfig, TelemetryConfig,
    TimeframeConfig,
};
use c3po::decimal::Decimal;
use c3po::market_scanner::filters::{filter_market, filter_markets};
use c3po::market_scanner::parser::{
    parse_market, parse_markets, raw_market_is_safe, raw_time_is_safe, RawMarket, RawOutcomeToken, RawTime, RawTokenIds,
};
use c3po::market_scanner::response::{decode_market_response, MarketResponse};
use c3po::market_scanner::scheduler::ingest_raw_markets;
use c3po::registry::MarketRegistry;
use c3po::types::{Asset, MarketSlug, Timeframe};

fn d(s: &str) -> Decimal {
    Decimal::parse(s).unwrap()
}

fn raw(slug: &str, open: RawTime, end: RawTime) -> RawMarket {
    RawMarket {
        slug: Some(slug.to_string()),
        condition_id: Some("0xcond".to_string()),
        question: None,
        title: None,
        active: None,
        closed: None,
        open_time: Some(open),
        end_time: Some(end),
        up_token_id: Some("up-1".to_string()),
        down_token_id: Some("down-1".to_string()),
        clob_token_ids: None,
        tokens: None,
    }
}

fn config() -> Config {
    Config {
        assets: AssetConfig { enabled: vec![Asset::BTC, Asset::ETH] },
        timeframes: TimeframeConfig { enabled: vec![Timeframe::FiveMin, Timeframe::OneHour] },
        pairs: PairConfig { allowed: vec![PairType { short: Timeframe::FiveMin, long: Timeframe::OneHour }] },
        eval: EvaluationConfig {
            trigger_buffer: d("0.02"),
            execution_buffer: d("0.02"),
            min_seconds_to_end: 30,
            max_book_age_ms: 2_000,
            min_top_book_size: d("5"),
            min_depth_confirmed_size: d("5"),
            min_gross_edge: d("0.05"),
            eval_interval_ms: 1_000,
            discovery_interval_ms: 60_000,
        },
        rtds: RtdsConfig { websocket_url: "wss://rtds".to_string(), topic: "crypto_prices".to_string(), reconnect_backoff_ms: 1_000 },
        clob: ClobConfig { websocket_url: "wss://clob".to_string(), max_subscription_tokens: 100, reconnect_backoff_ms: 1_000 },
        storage: StorageConfig {
            data_dir: "data".to_string(),
            ticks_dir: "ticks".to_string(),
            ptbs_dir: "ptbs".to_string(),
            books_dir: "books".to_string(),
            evaluations_dir: "evaluations".to_string(),
            opportunities_dir: "opportunities".to_string(),
            replay_dir: "replay".to_string(),
        },
        telemetry: TelemetryConfig { enabled: true, health_interval_ms: 10_000 },
    }
}

#[test]
fn parses_a_complete_market_with_seconds() {
    let m = parse_market(&raw("btc-updown-5m-1700000000", RawTime::Int(1_700_000_000), RawTime::Int(1_700_000_300)), 42)
        .unwrap()
        .unwrap();
    assert_eq!(m.asset, Asset::BTC);
    assert_eq!(m.timeframe, Timeframe::FiveMin);
    assert_eq!(m.open_ms, 1_700_000_000_000);
    assert_eq!(m.end_ms, 1_700_000_300_000);
    assert_eq!(m.up_token_id.0, "up-1");
    assert_eq!(m.down_token_id.0, "down-1");
    assert!(m.active);
    assert!(!m.closed);
    assert_eq!(m.seen_ms, 42);
    assert!(m.price_to_beat.is_none());
}

#[test]
fn reads_times_as_text_milliseconds_and_rfc3339() {
    let m = parse_market(
        &raw("eth-updown-1h-x", RawTime::Text("2024-01-01T00:00:00Z".to_string()), RawTime::Text("1704070800000".to_string())),
        0,
    )
    .unwrap()
    .unwrap();
    assert_eq!(m.asset, Asset::ETH);
    assert_eq!(m.timeframe, Timeframe::OneHour);
    assert_eq!(m.open_ms, 1_704_067_200_000);
    assert_eq!(m.end_ms, 1_704_070_800_000);
    let m = parse_market(&raw("btc-5m", RawTime::BigUint(1_000), RawTime::Text("2024-01-01T01:00:00+01:00".to_string())), 0)
        .unwrap()
        .unwrap();
    assert_eq!(m.open_ms, 1_000_000);
    assert_eq!(m.end_ms, 1_704_067_200_000);
}

#[test]
fn fifteen_minute_slugs_match_the_five_minute_token_first() {
    let m = parse_market(&raw("sol-updown-15m-x", RawTime::Int(0), RawTime::Int(900)), 0).unwrap().unwrap();
    assert_eq!(m.asset, Asset::SOL);
    assert_eq!(m.timeframe, Timeframe::FiveMin);
    let mut r = raw("will-it-rise", RawTime::Int(0), RawTime::Int(3_600));
    r.question = Some("Will XRP go up in the next 1-hour?".to_string());
    let m = parse_market(&r, 0).unwrap().unwrap();
    assert_eq!(m.asset, Asset::XRP);
    assert_eq!(m.timeframe, Timeframe::OneHour);
}

#[test]
fn token_ids_from_outcomes_or_clob_ids() {
    let mut r = raw("btc-5m", RawTime::Int(0), RawTime::Int(300));
    r.up_token_id = None;
    r.tokens = Some(vec![
        RawOutcomeToken { token_id: Some("t-down".to_string()), outcome: Some("Down".to_string()) },
        RawOutcomeToken { token_id: Some("t-up".to_string()), outcome: Some("UP".to_string()) },
    ]);
    let m = parse_market(&r, 0).unwrap().unwrap();
    assert_eq!(m.up_token_id.0, "t-up");
    assert_eq!(m.down_token_id.0, "t-down");

    let mut r = raw("btc-5m", RawTime::Int(0), RawTime::Int(300));
    r.up_token_id = None;
    r.clob_token_ids = Some(RawTokenIds::Text("[\"a\", \"b\", \"c\"]".to_string()));
    let m = parse_market(&r, 0).unwrap().unwrap();
    assert_eq!(m.up_token_id.0, "a");
    assert_eq!(m.down_token_id.0, "b");

    r.clob_token_ids = Some(RawTokenIds::Array(vec![Some("x".to_string()), Some("y".to_string())]));
    let m = parse_market(&r, 0).unwrap().unwrap();
    assert_eq!(m.up_token_id.0, "x");

    r.clob_token_ids = Some(RawTokenIds::Text("not json".to_string()));
    assert!(parse_market(&r, 0).unwrap().is_none());
    r.clob_token_ids = Some(RawTokenIds::Text("[1, \"b\"]".to_string()));
    assert!(parse_market(&r, 0).unwrap().is_none());
}

#[test]
fn missing_pieces_give_none() {
    let mut r = raw("doge-5m", RawTime::Int(0), RawTime::Int(300));
    assert!(parse_market(&r, 0).unwrap().is_none());
    r.slug = Some("btc-2h".to_string());
    assert!(parse_market(&r, 0).unwrap().is_none());
    let mut r = raw("btc-5m", RawTime::Other, RawTime::Int(300));
    assert!(parse_market(&r, 0).unwrap().is_none());
    r.open_time = Some(RawTime::Text("yesterday".to_string()));
    assert!(parse_market(&r, 0).unwrap().is_none());
    r.open_time = Some(RawTime::BigUint(u64::MAX));
    assert!(parse_market(&r, 0).unwrap().is_none());
    let mut r = raw("btc-5m", RawTime::Int(0), RawTime::Int(300));
    r.condition_id = None;
    assert!(parse_market(&r, 0).unwrap().is_none());
}

#[test]
fn bad_window_is_an_error() {
    let err = parse_market(&raw("btc-5m-a", RawTime::Int(300), RawTime::Int(300)), 0).unwrap_err();
    assert_eq!(err.message, "invalid market time window for slug btc-5m-a");
    let raws = vec![
        raw("btc-5m-ok", RawTime::Int(0), RawTime::Int(300)),
        raw("btc-5m-bad", RawTime::Int(400), RawTime::Int(300)),
        raw("btc-5m-bad2", RawTime::Int(500), RawTime::Int(300)),
    ];
    assert_eq!(parse_markets(&raws, 0).unwrap_err().message, "invalid market time window for slug btc-5m-bad");
}

#[test]
fn parse_markets_keeps_order_and_skips_incomplete() {
    let raws = vec![
        raw("eth-5m-b", RawTime::Int(0), RawTime::Int(300)),
        raw("nothing", RawTime::Int(0), RawTime::Int(300)),
        raw("btc-1h-a", RawTime::Int(0), RawTime::Int(3_600)),
    ];
    let ms = parse_markets(&raws, 7).unwrap();
    let slugs: Vec<String> = ms.iter().map(|m| m.slug.0.clone()).collect();
    assert_eq!(slugs, vec!["eth-5m-b", "btc-1h-a"]);
}

#[test]
fn filters_by_enabled_asset_and_timeframe() {
    let cfg = config();
    let ms = parse_markets(
        &vec![
            raw("btc-5m-a", RawTime::Int(0), RawTime::Int(300)),
            raw("sol-5m-a", RawTime::Int(0), RawTime::Int(300)),
            raw("eth-4h-a", RawTime::Int(0), RawTime::Int(300)),
        ],
        0,
    )
    .unwrap();
    assert!(filter_market(&ms[0], &cfg));
    assert!(!filter_market(&ms[1], &cfg));
    let kept = filter_markets(ms, &cfg);
    assert_eq!(kept.len(), 1);
    assert_eq!(kept[0].slug.0, "btc-5m-a");
}

#[test]
fn ingest_counts_each_step_and_stores_markets() {
    let mut reg = MarketRegistry::new();
    let raws = vec![
        raw("btc-5m-a", RawTime::Int(0), RawTime::Int(300)),
        raw("sol-5m-a", RawTime::Int(0), RawTime::Int(300)),
        raw("unknown", RawTime::Int(0), RawTime::Int(300)),
        raw("eth-1h-a", RawTime::Int(0), RawTime::Int(3_600)),
    ];
    let stats = ingest_raw_markets(&raws, &mut reg, &config(), 5).unwrap();
    assert_eq!(stats.raw_markets, 4);
    assert_eq!(stats.parsed_markets, 3);
    assert_eq!(stats.accepted_markets, 2);
    assert_eq!(stats.inserted_or_updated_markets, 2);
    assert_eq!(reg.len(), 2);
    assert!(reg.contains_market(&MarketSlug::new("eth-1h-a".to_string())));
    let bad = vec![raw("btc-5m-z", RawTime::Int(9), RawTime::Int(1))];
    assert!(ingest_raw_markets(&bad, &mut reg, &config(), 5).is_err());
    assert_eq!(reg.len(), 2);
}

#[test]
fn response_shapes() {
    let arr = MarketResponse::Array(vec![Some(raw("btc-5m-a", RawTime::Int(0), RawTime::Int(300)))]);
    assert_eq!(decode_market_response(arr).unwrap().len(), 1);
    let nested = MarketResponse::Other { markets: None, data: Some(vec![Some(raw("a", RawTime::Int(0), RawTime::Int(1))), Some(raw("b", RawTime::Int(0), RawTime::Int(1)))]) };
    let ms = decode_market_response(nested).unwrap();
    assert_eq!(ms[1].slug.as_deref(), Some("b"));
    let both = MarketResponse::Other { markets: Some(vec![]), data: Some(vec![Some(raw("a", RawTime::Int(0), RawTime::Int(1)))]) };
    assert!(decode_market_response(both).unwrap().is_empty());
    let bad = MarketResponse::Array(vec![Some(raw("a", RawTime::Int(0), RawTime::Int(1))), None]);
    assert_eq!(decode_market_response(bad).unwrap_err().message, "failed to decode raw market object");
    let none = MarketResponse::Other { markets: None, data: None };
    assert_eq!(
        decode_market_response(none).unwrap_err().message,
        "unsupported market API response shape: expected array, markets[], or data[]"
    );
}

#[test]
fn safety_checks_on_raw_times() {
    assert!(raw_time_is_safe(&Some(RawTime::Int(5))));
    assert!(!raw_time_is_safe(&Some(RawTime::Int(i64::MIN))));
    assert!(!raw_time_is_safe(&Some(RawTime::Text("-9223372036854775808".to_string()))));
    assert!(raw_market_is_safe(&raw("btc-5m", RawTime::Int(0), RawTime::Int(i64::MIN + 1))));
    assert!(!raw_market_is_safe(&raw("btc-5m", RawTime::Int(0), RawTime::Int(i64::MIN))));
    assert!(raw_market_is_safe(&raw("nothing", RawTime::Int(i64::MIN), RawTime::Int(0))));
}

#[test]
fn integer_text_times() {
    let m = parse_market(&raw("btc-5m", RawTime::Text("+17".to_string()), RawTime::Text("-17".to_string())), 0);
    assert!(m.is_err());
    let m = parse_market(&raw("btc-5m", RawTime::Text("-17".to_string()), RawTime::Text("+17".to_string())), 0).unwrap().unwrap();
    assert_eq!(m.open_ms, -17_000);
    assert_eq!(m.end_ms, 17_000);
    assert!(parse_market(&raw("btc-5m", RawTime::Text("17x".to_string()), RawTime::Int(20)), 0).unwrap().is_none());
    assert!(parse_market(&raw("btc-5m", RawTime::Text("99999999999999999999".to_string()), RawTime::Int(20)), 0).unwrap().is_none());
}

#[test]
fn a_bare_sign_is_no_integer() {
    assert!(parse_market(&raw("btc-5m", RawTime::Text("-".to_string()), RawTime::Int(20)), 0).unwrap().is_none());
    assert!(parse_market(&raw("btc-5m", RawTime::Text("+".to_string()), RawTime::Int(20)), 0).unwrap().is_none());
    let m = parse_market(&raw("btc-5m", RawTime::Text("-9223372036854775807".to_string()), RawTime::Int(20)), 0).unwrap().unwrap();
    assert_eq!(m.open_ms, -9223372036854775807);
}
