use c3po::book_store::store::BookStore;
use c3po::clob::ClobSubscription;
use c3po::decimal::Decimal;
use c3po::ptb_store::status::PtbStatus;
use c3po::ptb_store::store::PtbStore;
use c3po::registry::MarketRegistry;
use c3po::runtime::tasks::clob_subscription_round;
use c3po::runtime::{ptb_matcher_round, RestartPolicy, SupervisorState};
use c3po::tick_store::TickStore;
use c3po::types::{Asset, Book, ConditionId, Level, Market, MarketSlug, Tick, Timeframe, TokenId};

fn d(s: &str) -> Decimal {
    Decimal::parse(s).unwrap()
}

fn market(slug: &str, asset: Asset, open_ms: i64, end_ms: i64) -> Market {
    Market::new(
        asset,
        Timeframe::FiveMin,
        MarketSlug::new(slug.to_string()),
        ConditionId::new("c".to_string()),
        TokenId::new(format!("{slug}-up")),
        TokenId::new(format!("{slug}-down")),
        open_ms,
        end_ms,
        true,
        false,
        0,
    )
}

fn slug(s: &str) -> MarketSlug {
    MarketSlug::new(s.to_string())
}

fn book(token: &str) -> Book {
    Book::new(TokenId::new(token.to_string()), vec![], vec![Level::new(d("0.5"), d("1"))], None, 0)
}

#[test]
fn ptb_round_captures_open_ticks_and_marks_the_rest_pending() {
    let mut reg = MarketRegistry::new();
    reg.insert_market(market("btc-a", Asset::BTC, 1_000, 301_000));
    reg.insert_market(market("eth-a", Asset::ETH, 1_000, 301_000));
    let mut ticks = TickStore::new();
    ticks.insert_tick(Tick::from_rtds("BTCUSDT", 1_000, "65000".to_string(), None, d("65000"), 1_001));
    let mut ptbs = PtbStore::new();
    ptb_matcher_round(&mut reg, &ticks, &mut ptbs, 5_000);
    assert_eq!(ptbs.len(), 2);
    assert_eq!(ptbs.get_status_for_market(&slug("btc-a")), Some(PtbStatus::CapturedExact));
    assert_eq!(ptbs.get_status_for_market(&slug("eth-a")), Some(PtbStatus::PendingPtb));
    let btc = reg.get_market(&slug("btc-a")).unwrap();
    assert!(btc.price_to_beat.unwrap().eq_value(&d("65000")));
    assert_eq!(btc.ptb_source_timestamp_ms, Some(1_000));
    let eth = reg.get_market(&slug("eth-a")).unwrap();
    assert!(eth.price_to_beat.is_none());
    assert_eq!(reg.len(), 2);
}

#[test]
fn subscription_round_caps_tokens_and_prunes_books() {
    let mut reg = MarketRegistry::new();
    reg.insert_market(market("b", Asset::BTC, 0, 10_000));
    reg.insert_market(market("a", Asset::BTC, 0, 10_000));
    let mut books = BookStore::new();
    books.insert_book(book("a-down"));
    books.insert_book(book("b-up"));
    books.insert_book(book("zzz"));
    let mut sub = ClobSubscription::new();
    let diff = clob_subscription_round(&reg, &mut books, &mut sub, 3, 500);
    let mut subscribed: Vec<String> = diff.subscribe.iter().map(|t| t.0.clone()).collect();
    subscribed.sort();
    assert_eq!(subscribed, vec!["a-down", "a-up", "b-down"]);
    assert!(diff.unsubscribe.is_empty());
    assert_eq!(sub.len(), 3);
    assert_eq!(books.len(), 1);
    assert!(books.contains_book(&TokenId::new("a-down".to_string())));
}

#[test]
fn supervisor_counts_restarts() {
    let mut s = SupervisorState::new();
    s.record_rtds_restart();
    s.record_rtds_restart();
    s.record_clob_restart();
    s.record_scanner_restart();
    s.record_ptb_matcher_restart();
    s.record_health_monitor_restart();
    assert_eq!(s.rtds_restarts, 2);
    assert_eq!(s.clob_restarts, 1);
    assert_eq!(s.scanner_restarts, 1);
    assert_eq!(s.ptb_matcher_restarts, 1);
    assert_eq!(s.health_monitor_restarts, 1);
    assert_eq!(RestartPolicy::disabled(), RestartPolicy { enabled: false, backoff_ms: 0 });
    assert_eq!(RestartPolicy::enabled(250), RestartPolicy { enabled: true, backoff_ms: 250 });
}
