use c3po::decimal::Decimal;
use c3po::ptb_store::{
    apply_ptb_to_market, check_ptb_plausibility, expected_rtds_symbol_for_market, match_market_to_tick, PtbMatchResult,
    PtbSource, PtbStatus, PtbStore,
};
use c3po::tick_store::TickStore;
use c3po::types::{Asset, ConditionId, Market, MarketSlug, PriceToBeat, Tick, Timeframe, TokenId};

fn d(s: &str) -> Decimal {
    Decimal::parse(s).unwrap()
}

fn market(slug: &str, asset: Asset, open_ms: i64) -> Market {
    Market::new(
        asset,
        Timeframe::FiveMin,
        MarketSlug::new(slug.to_string()),
        ConditionId::new("c".to_string()),
        TokenId::new(format!("{slug}-up")),
        TokenId::new(format!("{slug}-down")),
        open_ms,
        open_ms + 300_000,
        true,
        false,
        0,
    )
}

fn tick(symbol: &str, ts: i64, value: &str) -> Tick {
    Tick::from_rtds(symbol, ts, value.to_string(), None, d(value), ts + 5)
}

#[test]
fn expected_symbol_is_the_assets_feed_symbol() {
    let m = market("btc-5m", Asset::BTC, 1_000);
    assert_eq!(expected_rtds_symbol_for_market(&m).as_str(), "btcusdt");
    assert_eq!(Tick::from_rtds("  BTCUSDT ", 1, "1".to_string(), None, d("1"), 2).symbol.as_str(), "btcusdt");
}

#[test]
fn opening_tick_captures_exact_price() {
    let m = market("btc-5m", Asset::BTC, 1_000);
    let t = tick("btcusdt", 1_000, "65000.5");
    let r = match_market_to_tick(&m, Some(&t), 2_000);
    assert_eq!(r.status(), PtbStatus::CapturedExact);
    let p = r.into_ptb();
    assert!(p.is_exact_rtds_open_tick());
    assert_eq!(p.source, Some(PtbSource::RtdsOpenTick));
    assert!(p.value().unwrap().eq_value(&d("65000.5")));
    assert_eq!(p.sanity_status.as_deref(), Some("plausible"));
    assert_eq!(p.checked_at_ms, Some(2_000));
    let mut m2 = m.duplicate();
    apply_ptb_to_market(&mut m2, &p);
    assert!(m2.has_captured_exact_ptb());
    assert!(m2.price_to_beat.unwrap().eq_value(&d("65000.5")));
    assert_eq!(m2.ptb_source.as_deref(), Some("rtds_open_tick"));
    assert_eq!(m2.ptb_source_timestamp_ms, Some(1_000));
}

#[test]
fn missing_or_wrong_tick_is_pending() {
    let m = market("btc-5m", Asset::BTC, 1_000);
    assert!(matches!(match_market_to_tick(&m, None, 0), PtbMatchResult::Pending(_)));
    let wrong_time = tick("btcusdt", 1_001, "65000");
    assert!(matches!(match_market_to_tick(&m, Some(&wrong_time), 0), PtbMatchResult::Pending(_)));
    let wrong_symbol = tick("ethusdt", 1_000, "3000");
    let r = match_market_to_tick(&m, Some(&wrong_symbol), 0);
    assert_eq!(r.status(), PtbStatus::PendingPtb);
    let mut m2 = m.duplicate();
    apply_ptb_to_market(&mut m2, &r.into_ptb());
    assert_eq!(m2.price_to_beat_status.as_deref(), Some("pending_ptb"));
    assert!(m2.price_to_beat.is_none());
}

#[test]
fn non_positive_and_implausible_ticks_are_invalid() {
    let m = market("btc-5m", Asset::BTC, 1_000);
    let zero = tick("btcusdt", 1_000, "0");
    let p = match_market_to_tick(&m, Some(&zero), 9).into_ptb();
    assert_eq!(p.status, PtbStatus::InvalidPtb);
    assert_eq!(p.sanity_status.as_deref(), Some("non_positive_tick_value"));
    let low = tick("btcusdt", 1_000, "500");
    let p = match_market_to_tick(&m, Some(&low), 9).into_ptb();
    assert_eq!(p.status, PtbStatus::InvalidPtb);
    assert_eq!(p.sanity_status.as_deref(), Some("below_plausible_range:500<1000"));
    assert_eq!(p.raw_value.as_deref(), Some("500"));
}

#[test]
fn plausibility_ranges() {
    assert!(check_ptb_plausibility(Asset::XRP, d("0.5")).is_plausible);
    let r = check_ptb_plausibility(Asset::XRP, d("0.005"));
    assert!(!r.is_plausible);
    assert_eq!(r.status, "below_plausible_range:0.005<0.01");
    let r = check_ptb_plausibility(Asset::ETH, d("200000"));
    assert_eq!(r.status, "above_plausible_range:200000>100000");
    assert_eq!(check_ptb_plausibility(Asset::SOL, d("-1")).status, "non_positive_ptb");
}

#[test]
fn ptb_store_reads_back_what_was_written() {
    let mut store = PtbStore::new();
    let m = market("eth-5m", Asset::ETH, 0);
    assert!(store.insert_pending_for_market(&m).is_none());
    assert_eq!(store.get_status_for_market(&m.slug), Some(PtbStatus::PendingPtb));
    let previous = store.insert_missing_for_market(&m, 77);
    assert_eq!(previous.unwrap().status, PtbStatus::PendingPtb);
    assert_eq!(store.get_ptb_for_market(&m.slug).unwrap().checked_at_ms, Some(77));
    assert_eq!(store.len(), 1);
    assert!(!store.has_exact_ptb_for_market(&m.slug));
    assert!(store.value_for_market(&m.slug).is_none());
    let exact = PriceToBeat::captured_exact(
        m.slug.duplicate(), Asset::ETH, Timeframe::FiveMin, 0, d("3000"), "3000".to_string(), None, 0, None, 1,
    );
    store.insert_ptb(exact);
    assert!(store.has_exact_ptb_for_market(&m.slug));
    assert!(store.value_for_market(&m.slug).unwrap().eq_value(&d("3000")));
    assert_eq!(store.captured_exact().len(), 1);
    assert_eq!(store.missing().len(), 0);
    assert!(store.remove_market(&m.slug).is_some());
    assert!(store.is_empty());
    assert!(!store.has_ptb_for_market(&m.slug));
}

#[test]
fn tick_store_keeps_one_tick_per_symbol_and_time() {
    let mut store = TickStore::new();
    store.insert_tick(tick("btcusdt", 1_000, "1"));
    store.insert_tick(tick("btcusdt", 1_000, "2"));
    store.insert_tick(tick("btcusdt", 2_000, "3"));
    assert_eq!(store.len(), 2);
    let sym = c3po::rtds::asset_to_rtds_symbol(Asset::BTC);
    assert_eq!(store.get_tick(&sym, 1_000).unwrap().raw_value, "2");
}
