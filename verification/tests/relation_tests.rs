use c3po::decimal::Decimal;
use c3po::relation_engine::pair_generator::timeframe_seconds;
use c3po::relation_engine::{
    all_timeframe_pairs, build_package_candidate, decide_package_name, group_by_asset_and_end_ms, live_markets_only,
    MarketPair, PackageName,
};
use c3po::types::{Asset, ConditionId, Market, MarketSlug, Timeframe, TokenId};

fn d(s: &str) -> Decimal {
    Decimal::parse(s).unwrap()
}

fn market(slug: &str, asset: Asset, tf: Timeframe, end_ms: i64) -> Market {
    Market::new(
        asset,
        tf,
        MarketSlug::new(slug.to_string()),
        ConditionId::new("c".to_string()),
        TokenId::new(format!("{slug}-up")),
        TokenId::new(format!("{slug}-down")),
        0,
        end_ms,
        true,
        false,
        0,
    )
}

#[test]
fn package_name_follows_the_higher_price() {
    assert_eq!(decide_package_name(d("101"), d("100")), Some(PackageName::LongUpPlusShortDown));
    assert_eq!(decide_package_name(d("100"), d("101")), Some(PackageName::LongDownPlusShortUp));
    assert_eq!(decide_package_name(d("100"), d("100.0")), None);
    assert_eq!(PackageName::LongUpPlusShortDown.as_str(), "LONG_UP_PLUS_SHORT_DOWN");
}

#[test]
fn groups_by_asset_then_end() {
    let groups = group_by_asset_and_end_ms(vec![
        market("e1", Asset::ETH, Timeframe::FiveMin, 100),
        market("b2", Asset::BTC, Timeframe::FiveMin, 200),
        market("b1", Asset::BTC, Timeframe::FifteenMin, 100),
        market("b1x", Asset::BTC, Timeframe::OneHour, 100),
    ]);
    let keys: Vec<(Asset, i64, usize)> = groups.iter().map(|g| (g.key.asset, g.key.end_ms, g.markets.len())).collect();
    assert_eq!(keys, vec![(Asset::BTC, 100, 2), (Asset::BTC, 200, 1), (Asset::ETH, 100, 1)]);
    assert_eq!(groups[0].markets[0].slug.0, "b1");
    assert_eq!(groups[0].markets[1].slug.0, "b1x");
}

#[test]
fn pairs_are_shorter_then_longer() {
    let groups = group_by_asset_and_end_ms(vec![
        market("h", Asset::BTC, Timeframe::OneHour, 100),
        market("f", Asset::BTC, Timeframe::FiveMin, 100),
        market("q", Asset::BTC, Timeframe::FifteenMin, 100),
        market("f2", Asset::BTC, Timeframe::FiveMin, 100),
    ]);
    let pairs = all_timeframe_pairs(&groups[0]);
    let names: Vec<(String, String)> = pairs.iter().map(|p| (p.short.slug.0.clone(), p.long.slug.0.clone())).collect();
    assert_eq!(
        names,
        vec![
            ("f".to_string(), "q".to_string()),
            ("f".to_string(), "h".to_string()),
            ("f2".to_string(), "q".to_string()),
            ("f2".to_string(), "h".to_string()),
            ("q".to_string(), "h".to_string()),
        ]
    );
    for p in &pairs {
        assert!(timeframe_seconds(p.short.timeframe) < timeframe_seconds(p.long.timeframe));
        assert!(p.same_asset() && p.same_end_ms() && p.different_timeframe());
    }
}

#[test]
fn live_filter_keeps_order() {
    let mut closed = market("c", Asset::BTC, Timeframe::FiveMin, 1_000);
    closed.closed = true;
    let kept = live_markets_only(vec![market("a", Asset::BTC, Timeframe::FiveMin, 1_000), closed, market("b", Asset::BTC, Timeframe::FiveMin, 1_000)], 10);
    let names: Vec<String> = kept.iter().map(|m| m.slug.0.clone()).collect();
    assert_eq!(names, vec!["a", "b"]);
}

#[test]
fn candidate_holds_opposite_sides() {
    let pair = MarketPair { short: market("s", Asset::BTC, Timeframe::FiveMin, 60_000), long: market("l", Asset::BTC, Timeframe::OneHour, 60_000) };
    let c = build_package_candidate(&pair, d("101"), d("100"), 30_500).unwrap();
    assert_eq!(c.package_name, PackageName::LongUpPlusShortDown);
    assert_eq!(c.selected_long_token, "l-up");
    assert_eq!(c.selected_short_token, "s-down");
    assert_eq!(c.seconds_to_end, 29);
    assert_eq!(c.end_ms, 60_000);
    let c = build_package_candidate(&pair, d("99"), d("100"), 70_000).unwrap();
    assert_eq!(c.selected_long_token, "l-down");
    assert_eq!(c.selected_short_token, "s-up");
    assert_eq!(c.seconds_to_end, 0);
    assert!(build_package_candidate(&pair, d("100"), d("100"), 0).is_none());
    let bad = MarketPair { short: market("s", Asset::BTC, Timeframe::FiveMin, 60_000), long: market("l", Asset::ETH, Timeframe::OneHour, 60_000) };
    assert!(build_package_candidate(&bad, d("101"), d("100"), 0).is_none());
    assert_eq!(pair.pair_type(), (Timeframe::FiveMin, Timeframe::OneHour));
}
