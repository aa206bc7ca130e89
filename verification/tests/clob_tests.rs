use c3po::clob::ordering::{sorted_distinct, token_lt};
use c3po::clob::parser::parse_single_book;
use c3po::clob::json::clob_value_is_safe;
use c3po::clob::{
    desired_tokens_from_markets, desired_tokens_from_registry, handle_clob_value, parse_clob_value, ClobBookLevel, ClobJson,
    ClobRawMessage, ClobSubscription, ClobValue,
};
use c3po::market_scanner::parser::RawTime;
use c3po::registry::MarketRegistry;
use c3po::types::{Asset, ConditionId, Market, MarketSlug, Timeframe, TokenId};

fn t(s: &str) -> TokenId {
    TokenId::new(s.to_string())
}

fn texts(v: &[TokenId]) -> Vec<String> {
    let mut out: Vec<String> = v.iter().map(|x| x.0.clone()).collect();
    out.sort();
    out
}

fn level(p: ClobValue, s: ClobValue) -> ClobBookLevel {
    ClobBookLevel { price: Some(p), size: Some(s) }
}

fn msg(token: Option<&str>) -> ClobRawMessage {
    ClobRawMessage {
        event_type: Some("book".to_string()),
        token_id: token.map(|x| x.to_string()),
        market: None,
        bids: None,
        asks: None,
        buys: None,
        sells: None,
        changes: None,
        timestamp: None,
    }
}

fn market(slug: &str, open_ms: i64, end_ms: i64, up: &str, down: &str) -> Market {
    Market::new(
        Asset::BTC,
        Timeframe::FiveMin,
        MarketSlug::new(slug.to_string()),
        ConditionId::new("c".to_string()),
        t(up),
        t(down),
        open_ms,
        end_ms,
        true,
        false,
        0,
    )
}

#[test]
fn subscription_reports_the_difference() {
    let mut sub = ClobSubscription::new();
    assert!(sub.is_empty());
    let diff = sub.set_desired_tokens(vec![t("a"), t("b"), t("a")]);
    assert_eq!(texts(&diff.subscribe), vec!["a", "b"]);
    assert!(diff.unsubscribe.is_empty());
    assert_eq!(sub.len(), 2);
    let diff = sub.set_desired_tokens(vec![t("b"), t("c")]);
    assert_eq!(texts(&diff.subscribe), vec!["c"]);
    assert_eq!(texts(&diff.unsubscribe), vec!["a"]);
    assert!(sub.contains(&t("c")));
    assert!(!sub.contains(&t("a")));
    assert_eq!(texts(&sub.token_ids()), vec!["b", "c"]);
    sub.clear();
    assert_eq!(sub.len(), 0);
}

#[test]
fn tokens_sort_by_text() {
    assert!(token_lt(&t("a"), &t("ab")));
    assert!(token_lt(&t("ab"), &t("b")));
    assert!(!token_lt(&t("b"), &t("b")));
    let s = sorted_distinct(&vec![t("c"), t("a"), t("c"), t("b")]);
    let names: Vec<String> = s.iter().map(|x| x.0.clone()).collect();
    assert_eq!(names, vec!["a", "b", "c"]);
}

#[test]
fn desired_tokens_skip_blanks_and_repeats() {
    let a = market("a", 0, 10, "u1", "d1");
    let b = market("b", 0, 10, "u1", " ");
    let toks = desired_tokens_from_markets(&vec![&a, &b]);
    assert_eq!(texts(&toks), vec!["d1", "u1"]);
}

#[test]
fn desired_tokens_from_live_and_soon_markets() {
    let mut reg = MarketRegistry::new();
    reg.insert_market(market("live", 0, 1_000, "l-up", "l-down"));
    reg.insert_market(market("soon", 1_500, 2_000, "s-up", "s-down"));
    reg.insert_market(market("later", 9_000, 10_000, "x-up", "x-down"));
    reg.insert_market(market("done", 0, 100, "o-up", "o-down"));
    let toks = desired_tokens_from_registry(&reg, 500, 1_000);
    assert_eq!(texts(&toks), vec!["l-down", "l-up", "s-down", "s-up"]);
}

#[test]
fn parses_a_book_message() {
    let mut m = msg(Some("tok"));
    m.bids = Some(vec![level(ClobValue::Text(" 0.45 ".to_string()), ClobValue::Number("10".to_string()))]);
    m.asks = Some(vec![
        level(ClobValue::Text("0.55".to_string()), ClobValue::Text("0".to_string())),
        level(ClobValue::Text("0.56".to_string()), ClobValue::Text("3".to_string())),
    ]);
    m.sells = Some(vec![level(ClobValue::Number("0.57".to_string()), ClobValue::Number("1".to_string()))]);
    m.timestamp = Some(RawTime::Text("1700000000".to_string()));
    let b = parse_single_book(&m, 99).unwrap().unwrap();
    assert_eq!(b.token_id.0, "tok");
    assert_eq!(b.bids.len(), 1);
    assert_eq!(b.asks.len(), 2);
    assert!(b.asks[0].price.eq_value(&c3po::decimal::Decimal::parse("0.56").unwrap()));
    assert_eq!(b.exchange_ts_ms, Some(1_700_000_000_000));
    assert_eq!(b.received_at_ms, 99);
}

#[test]
fn book_messages_without_token_or_levels_are_skipped() {
    let mut empty = msg(Some("tok"));
    empty.asks = Some(vec![]);
    assert!(parse_single_book(&empty, 0).unwrap().is_none());
    let mut blank = msg(Some("  "));
    blank.asks = Some(vec![level(ClobValue::Text("0.5".to_string()), ClobValue::Text("1".to_string()))]);
    assert!(parse_single_book(&blank, 0).unwrap().is_none());
    let mut by_market = msg(None);
    by_market.market = Some("mkt".to_string());
    by_market.asks = Some(vec![level(ClobValue::Text("0.5".to_string()), ClobValue::Text("1".to_string()))]);
    assert_eq!(parse_single_book(&by_market, 0).unwrap().unwrap().token_id.0, "mkt");
}

#[test]
fn bad_values_are_errors() {
    let mut m = msg(Some("tok"));
    m.asks = Some(vec![level(ClobValue::Text("abc".to_string()), ClobValue::Text("1".to_string()))]);
    assert_eq!(parse_single_book(&m, 0).unwrap_err().message, "failed to parse decimal string: abc");
    m.asks = Some(vec![level(ClobValue::Other("true".to_string()), ClobValue::Text("1".to_string()))]);
    assert_eq!(parse_single_book(&m, 0).unwrap_err().message, "unsupported decimal JSON value: true");
    let mut ok = msg(Some("ok"));
    ok.asks = Some(vec![level(ClobValue::Text("0.5".to_string()), ClobValue::Text("1".to_string()))]);
    let batch = ClobJson::Array(vec![obj(ok.clone()), obj(m.clone())]);
    assert_eq!(parse_clob_value(&batch, 0).unwrap_err().message, "unsupported decimal JSON value: true");
    assert!(handle_clob_value(&batch, 0).is_empty());
    let books = handle_clob_value(&ClobJson::Array(vec![obj(ok.clone()), obj(msg(Some("none"))), obj(ok)]), 0);
    assert_eq!(books.len(), 2);
}

fn obj(m: ClobRawMessage) -> ClobJson {
    ClobJson::Object { data: None, payload: None, message: Some(m) }
}

fn one_ask(token: &str) -> ClobRawMessage {
    let mut m = msg(Some(token));
    m.asks = Some(vec![level(ClobValue::Text("0.5".to_string()), ClobValue::Text("1".to_string()))]);
    m
}

#[test]
fn nested_values_are_read_in_order() {
    let tree = ClobJson::Object {
        data: Some(Box::new(ClobJson::Array(vec![
            ClobJson::Object { data: None, payload: Some(Box::new(obj(one_ask("a")))), message: Some(one_ask("ignored")) },
            ClobJson::Array(vec![obj(one_ask("b")), obj(one_ask("c"))]),
        ]))),
        payload: Some(Box::new(obj(one_ask("also-ignored")))),
        message: None,
    };
    let books = parse_clob_value(&tree, 7).unwrap();
    let tokens: Vec<String> = books.iter().map(|b| b.token_id.0.clone()).collect();
    assert_eq!(tokens, vec!["a", "b", "c"]);
    assert!(books.iter().all(|b| b.received_at_ms == 7));
}

#[test]
fn values_that_are_not_messages_are_errors() {
    assert_eq!(parse_clob_value(&ClobJson::Scalar, 0).unwrap_err().message, "failed to decode CLOB raw message");
    let bare = ClobJson::Object { data: None, payload: None, message: None };
    assert_eq!(parse_clob_value(&bare, 0).unwrap_err().message, "failed to decode CLOB raw message");
    assert!(parse_clob_value(&ClobJson::Array(vec![]), 0).unwrap().is_empty());
    let mut m = one_ask("t");
    m.timestamp = Some(RawTime::Int(i64::MIN));
    assert!(!clob_value_is_safe(&ClobJson::Array(vec![obj(one_ask("u")), obj(m)])));
    assert!(clob_value_is_safe(&obj(one_ask("u"))));
}

#[test]
fn asking_again_for_the_same_tokens_changes_nothing() {
    let mut sub = ClobSubscription::new();
    sub.set_desired_tokens(vec![t("x"), t("y")]);
    let diff = sub.set_desired_tokens(vec![t("y"), t("x"), t("y")]);
    assert!(diff.subscribe.is_empty());
    assert!(diff.unsubscribe.is_empty());
    assert_eq!(sub.len(), 2);
}
