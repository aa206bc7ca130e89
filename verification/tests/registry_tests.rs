use c3po::registry::{is_expired_market, is_live_market, is_upcoming_market, seconds_to_end, seconds_to_start};
use c3po::registry::{MarketIndexes, MarketRegistry};
use c3po::types::{Asset, ConditionId, Market, MarketSlug, Timeframe, TokenId};

fn market(slug: &str, asset: Asset, tf: Timeframe, open_ms: i64, end_ms: i64) -> Market {
    Market::new(
        asset,
        tf,
        MarketSlug::new(slug.to_string()),
        ConditionId::new(format!("cond-{slug}")),
        TokenId::new(format!("{slug}-up")),
        TokenId::new(format!("{slug}-down")),
        open_ms,
        end_ms,
        true,
        false,
        0,
    )
}

fn slugs(ms: &[&Market]) -> Vec<String> {
    let mut v: Vec<String> = ms.iter().map(|m| m.slug.0.clone()).collect();
    v.sort();
    v
}

#[test]
fn lifecycle_classifies_by_time() {
    let m = market("a", Asset::BTC, Timeframe::FiveMin, 1_000, 2_000);
    assert!(is_upcoming_market(&m, 999));
    assert!(is_live_market(&m, 1_000));
    assert!(!is_live_market(&m, 2_000));
    assert!(is_expired_market(&m, 2_000));
    assert_eq!(seconds_to_start(&m, 0), 1);
    assert_eq!(seconds_to_end(&m, 500), 1);
    assert_eq!(seconds_to_end(&m, 2_999), 0);
    assert_eq!(seconds_to_end(&m, 4_500), -2);
    let far = market("z", Asset::BTC, Timeframe::FiveMin, i64::MAX, i64::MAX);
    assert_eq!(seconds_to_start(&far, -10), i64::MAX / 1_000);
}

#[test]
fn registry_insert_get_and_indexes() {
    let mut reg = MarketRegistry::new();
    assert!(reg.insert_market(market("btc-5m", Asset::BTC, Timeframe::FiveMin, 0, 300_000)).is_none());
    assert!(reg.insert_market(market("btc-15m", Asset::BTC, Timeframe::FifteenMin, 0, 300_000)).is_none());
    assert!(reg.insert_market(market("eth-5m", Asset::ETH, Timeframe::FiveMin, 0, 600_000)).is_none());
    assert_eq!(reg.len(), 3);
    assert_eq!(slugs(&reg.markets_by_asset(Asset::BTC)), vec!["btc-15m", "btc-5m"]);
    assert_eq!(slugs(&reg.markets_by_timeframe(Timeframe::FiveMin)), vec!["btc-5m", "eth-5m"]);
    assert_eq!(slugs(&reg.markets_by_asset_and_end(Asset::BTC, 300_000)), vec!["btc-15m", "btc-5m"]);
    assert!(reg.markets_by_asset_and_end(Asset::ETH, 300_000).is_empty());
    let by_token = reg.market_by_token_id(&TokenId::new("eth-5m-down".to_string())).unwrap();
    assert_eq!(by_token.slug.0, "eth-5m");
    assert!(reg.contains_market(&MarketSlug::new("btc-5m".to_string())));
}

#[test]
fn registry_update_moves_the_indexes() {
    let mut reg = MarketRegistry::new();
    reg.insert_market(market("m", Asset::BTC, Timeframe::FiveMin, 0, 300_000));
    let previous = reg.update_market(market("m", Asset::ETH, Timeframe::OneHour, 0, 3_600_000));
    assert_eq!(previous.unwrap().asset, Asset::BTC);
    assert_eq!(reg.len(), 1);
    assert!(reg.markets_by_asset(Asset::BTC).is_empty());
    assert_eq!(slugs(&reg.markets_by_asset(Asset::ETH)), vec!["m"]);
    assert!(reg.markets_by_timeframe(Timeframe::FiveMin).is_empty());
    let removed = reg.remove_market(&MarketSlug::new("m".to_string()));
    assert!(removed.is_some());
    assert!(reg.is_empty());
    assert!(reg.market_by_token_id(&TokenId::new("m-up".to_string())).is_none());
}

#[test]
fn registry_time_filters_and_ptb_marks() {
    let mut reg = MarketRegistry::new();
    reg.insert_market(market("live", Asset::BTC, Timeframe::FiveMin, 0, 1_000));
    reg.insert_market(market("soon", Asset::BTC, Timeframe::FiveMin, 2_000, 3_000));
    reg.insert_market(market("done", Asset::BTC, Timeframe::FiveMin, 0, 100));
    assert_eq!(slugs(&reg.live_markets(500)), vec!["live"]);
    assert_eq!(slugs(&reg.upcoming_markets(500)), vec!["soon"]);
    assert_eq!(slugs(&reg.expired_markets(500)), vec!["done"]);
    assert_eq!(reg.markets_missing_ptb().len(), 3);
    assert!(reg.markets_with_exact_ptb().is_empty());
    assert!(reg.mark_market_missing_ptb(&MarketSlug::new("live".to_string())));
    assert!(!reg.mark_market_pending_ptb(&MarketSlug::new("nope".to_string())));
    let live = reg.get_market(&MarketSlug::new("live".to_string())).unwrap();
    assert_eq!(live.price_to_beat_status.as_deref(), Some("missing_ptb"));
    assert_eq!(reg.all_markets().len(), 3);
    reg.clear();
    assert_eq!(reg.len(), 0);
}

#[test]
fn indexes_file_and_unfile_markets() {
    let mut idx = MarketIndexes::new();
    let m = market("x", Asset::SOL, Timeframe::FourHour, 0, 14_400_000);
    idx.insert(&m);
    assert_eq!(idx.slugs_by_asset(Asset::SOL).len(), 1);
    assert_eq!(idx.slugs_by_timeframe(Timeframe::FourHour)[0].0, "x");
    assert_eq!(idx.slugs_by_asset_and_end_ms(Asset::SOL, 14_400_000).len(), 1);
    assert_eq!(idx.slug_by_token_id(&TokenId::new("x-up".to_string())).unwrap().0, "x");
    idx.insert(&m);
    assert_eq!(idx.slugs_by_asset(Asset::SOL).len(), 1);
    idx.remove(&m);
    assert!(idx.slugs_by_asset(Asset::SOL).is_empty());
    assert!(idx.slug_by_token_id(&TokenId::new("x-down".to_string())).is_none());
    idx.insert(&m);
    idx.clear();
    assert!(idx.slugs_by_timeframe(Timeframe::FourHour).is_empty());
}

#[test]
fn removing_a_freshly_filed_market_restores_the_indexes() {
    let mut idx = MarketIndexes::new();
    let kept = market("kept", Asset::BTC, Timeframe::FiveMin, 0, 300_000);
    idx.insert(&kept);
    let fresh = market("fresh", Asset::BTC, Timeframe::FiveMin, 0, 300_000);
    idx.insert(&fresh);
    idx.remove(&fresh);
    let by_asset: Vec<String> = idx.slugs_by_asset(Asset::BTC).iter().map(|s| s.0.clone()).collect();
    assert_eq!(by_asset, vec!["kept"]);
    assert_eq!(idx.slugs_by_timeframe(Timeframe::FiveMin).len(), 1);
    assert_eq!(idx.slugs_by_asset_and_end_ms(Asset::BTC, 300_000).len(), 1);
    assert!(idx.slug_by_token_id(&TokenId::new("fresh-up".to_string())).is_none());
    assert_eq!(idx.slug_by_token_id(&TokenId::new("kept-down".to_string())).unwrap().0, "kept");
}
