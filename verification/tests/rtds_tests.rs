use c3po::decimal::Decimal;
use c3po::rtds::normalizer::try_normalize_rtds_payload;
use c3po::rtds::{
    asset_to_rtds_symbol, configured_rtds_symbols, is_supported_rtds_symbol, normalize_rtds_payload, rtds_symbol_to_asset,
    RtdsMessage, RtdsPayload, RtdsValue,
};
use c3po::rtds::handle_rtds_message;
use c3po::tick_store::TickStore;
use c3po::types::{Asset, RtdsSymbol};

fn d(s: &str) -> Decimal {
    Decimal::parse(s).unwrap()
}

fn payload(symbol: &str, ts: i64, value: RtdsValue, full: Option<&str>) -> RtdsPayload {
    RtdsPayload { symbol: symbol.to_string(), timestamp: ts, value, full_accuracy_value: full.map(|s| s.to_string()) }
}

#[test]
fn symbols_round_trip() {
    for a in [Asset::BTC, Asset::ETH, Asset::SOL, Asset::XRP] {
        assert_eq!(rtds_symbol_to_asset(&asset_to_rtds_symbol(a)), Some(a));
    }
    assert_eq!(asset_to_rtds_symbol(Asset::BTC).0, "btcusdt");
    assert!(is_supported_rtds_symbol(&RtdsSymbol("ethusdt".to_string())));
    assert!(!is_supported_rtds_symbol(&RtdsSymbol("dogeusdt".to_string())));
    let syms: Vec<String> = configured_rtds_symbols(&vec![Asset::SOL, Asset::BTC]).into_iter().map(|s| s.0).collect();
    assert_eq!(syms, vec!["solusdt", "btcusdt"]);
}

#[test]
fn normalizes_symbol_time_and_value() {
    let n = normalize_rtds_payload(&payload(" BTCUSDT ", 1_700_000_000, RtdsValue::Text(" 65000.25 ".to_string()), None)).unwrap();
    assert_eq!(n.symbol.0, "btcusdt");
    assert_eq!(n.timestamp_ms, 1_700_000_000_000);
    assert_eq!(n.raw_value, " 65000.25 ");
    assert!(n.normalized_value.eq_value(&d("65000.25")));
    let tick = n.into_tick(5);
    assert_eq!(tick.received_at_ms, 5);
    assert_eq!(tick.symbol.0, "btcusdt");
}

#[test]
fn falls_back_to_full_accuracy_value() {
    let n = normalize_rtds_payload(&payload(
        "ethusdt",
        1_700_000_000_123,
        RtdsValue::Rendered("NaN".to_string()),
        Some("3500123400000000000000"),
    ))
    .unwrap();
    assert_eq!(n.timestamp_ms, 1_700_000_000_123);
    assert!(n.normalized_value.eq_value(&d("3500.1234")));
    assert_eq!(n.full_accuracy_value.as_deref(), Some("3500123400000000000000"));
}

#[test]
fn unreadable_value_is_an_error() {
    let e = normalize_rtds_payload(&payload("SOLUSDT", 10, RtdsValue::Text("x".to_string()), Some("y"))).unwrap_err();
    assert_eq!(e.message, "failed to normalize RTDS value for symbol solusdt at 10000");
    assert!(try_normalize_rtds_payload(&payload("s", i64::MIN, RtdsValue::Text("1".to_string()), None)).is_none());
}

#[test]
fn message_kind_and_topic() {
    let m = RtdsMessage {
        topic: "crypto_prices".to_string(),
        message_type: "UPDATE".to_string(),
        payload: payload("btcusdt", 1, RtdsValue::Text("1".to_string()), None),
    };
    assert!(m.is_update());
    assert!(m.has_topic("crypto_prices"));
    assert!(!m.has_topic("other"));
    assert_eq!(m.payload.raw_value_string(), "1");
}

fn update(topic: &str, kind: &str, symbol: &str, ts: i64, value: &str) -> RtdsMessage {
    RtdsMessage {
        topic: topic.to_string(),
        message_type: kind.to_string(),
        payload: payload(symbol, ts, RtdsValue::Text(value.to_string()), None),
    }
}

#[test]
fn updates_for_tracked_symbols_are_stored() {
    let mut store = TickStore::new();
    let m = update("crypto_prices", "update", "BTCUSDT", 1_700_000_000, "65000");
    assert_eq!(handle_rtds_message(&m, "crypto_prices", &mut store, 9).unwrap(), Some(1));
    let t = store.get_tick(&RtdsSymbol("btcusdt".to_string()), 1_700_000_000_000).unwrap();
    assert_eq!(t.received_at_ms, 9);
    assert!(t.normalized_value.eq_value(&d("65000")));
    let again = update("crypto_prices", "Update", "btcusdt", 1_700_000_000, "65001");
    assert_eq!(handle_rtds_message(&again, "crypto_prices", &mut store, 10).unwrap(), Some(1));
    let t = store.get_tick(&RtdsSymbol("btcusdt".to_string()), 1_700_000_000_000).unwrap();
    assert!(t.normalized_value.eq_value(&d("65001")));
}

#[test]
fn other_messages_leave_the_store_alone() {
    let mut store = TickStore::new();
    assert_eq!(handle_rtds_message(&update("other", "update", "btcusdt", 1, "1"), "crypto_prices", &mut store, 0).unwrap(), None);
    assert_eq!(handle_rtds_message(&update("crypto_prices", "snapshot", "btcusdt", 1, "1"), "crypto_prices", &mut store, 0).unwrap(), None);
    assert_eq!(handle_rtds_message(&update("crypto_prices", "update", "dogeusdt", 1, "1"), "crypto_prices", &mut store, 0).unwrap(), None);
    let err = handle_rtds_message(&update("crypto_prices", "update", "ethusdt", 2, "?"), "crypto_prices", &mut store, 0).unwrap_err();
    assert_eq!(err.message, "failed to normalize RTDS value for symbol ethusdt at 2000");
    assert_eq!(store.len(), 0);
}

#[test]
fn full_accuracy_text_is_trimmed_and_signed() {
    let n = normalize_rtds_payload(&payload("btcusdt", 1, RtdsValue::Text("".to_string()), Some(" +42 "))).unwrap();
    assert!(n.normalized_value.eq_value(&d("0.000000000000000042")));
    let too_big = "1".repeat(40);
    assert!(normalize_rtds_payload(&payload("btcusdt", 1, RtdsValue::Text("".to_string()), Some(&too_big))).is_err());
}
