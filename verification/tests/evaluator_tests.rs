use c3po::config::EvaluationConfig;
use c3po::decimal::Decimal;
use c3po::evaluator::top_book::try_calculate_top_book_quote;
use c3po::evaluator::{
    calculate_top_book_quote, evaluate_candidate_batch, evaluate_package_top_book, evaluate_package_without_books,
    BookPair, EvaluationClassification,
};
use c3po::relation_engine::{build_package_candidate, MarketPair};
use c3po::types::{Asset, Book, ConditionId, Level, Market, MarketSlug, PackageCandidate, Timeframe, TokenId};

fn d(s: &str) -> Decimal {
    Decimal::parse(s).unwrap()
}

fn book(token: &str, asks: &[(&str, &str)], received_at_ms: i64) -> Book {
    Book::new(
        TokenId::new(token.to_string()),
        vec![Level::new(d("0.10"), d("1"))],
        asks.iter().map(|(p, s)| Level::new(d(p), d(s))).collect(),
        None,
        received_at_ms,
    )
}

fn eval_config() -> EvaluationConfig {
    EvaluationConfig {
        trigger_buffer: d("0.02"),
        execution_buffer: d("0.02"),
        min_seconds_to_end: 30,
        max_book_age_ms: 2_000,
        min_top_book_size: d("5"),
        min_depth_confirmed_size: d("5"),
        min_gross_edge: d("0.10"),
        eval_interval_ms: 1_000,
        discovery_interval_ms: 60_000,
    }
}

fn market(slug: &str, tf: Timeframe, end_ms: i64) -> Market {
    Market::new(
        Asset::BTC,
        tf,
        MarketSlug::new(slug.to_string()),
        ConditionId::new("c".to_string()),
        TokenId::new(format!("{slug}-up")),
        TokenId::new(format!("{slug}-down")),
        0,
        end_ms,
        true,
        false,
        0,
    )
}

fn candidate(end_ms: i64) -> PackageCandidate {
    let pair = MarketPair { short: market("s", Timeframe::FiveMin, end_ms), long: market("l", Timeframe::OneHour, end_ms) };
    build_package_candidate(&pair, d("101"), d("100"), 0).unwrap()
}

#[test]
fn quote_uses_best_positive_asks() {
    let short = book("s-down", &[("0", "9"), ("0.40", "10")], 0);
    let long = book("l-up", &[("0.50", "6")], 0);
    let q = calculate_top_book_quote(&short, &long, &eval_config()).unwrap();
    assert!(q.short_ask.eq_value(&d("0.40")));
    assert!(q.long_ask.eq_value(&d("0.50")));
    assert!(q.top_cost.eq_value(&d("0.90")));
    assert!(q.edge.eq_value(&d("0.10")));
    assert!(q.top_book_size.eq_value(&d("6")));
    assert!(q.trigger_threshold.eq_value(&d("0.98")));
    assert!(q.is_under_trigger());
    assert!(q.has_min_top_book_size());
}

#[test]
fn quote_at_threshold_does_not_pass_trigger() {
    let short = book("s", &[("0.48", "1")], 0);
    let long = book("l", &[("0.50", "1")], 0);
    let q = calculate_top_book_quote(&short, &long, &eval_config()).unwrap();
    assert!(q.top_cost.eq_value(&d("0.98")));
    assert!(!q.passes_trigger);
    assert!(!q.passes_min_top_book_size);
}

#[test]
fn quote_needs_asks_on_both_sides() {
    let short = book("s", &[("0", "3")], 0);
    let long = book("l", &[("0.50", "1")], 0);
    assert!(calculate_top_book_quote(&short, &long, &eval_config()).is_none());
    assert!(matches!(try_calculate_top_book_quote(&short, &long, &eval_config()), Some(None)));
}

#[test]
fn evaluation_classifies_under_one() {
    let c = candidate(100_000);
    let short = book("s-down", &[("0.40", "10")], 9_000);
    let long = book("l-up", &[("0.50", "10")], 9_500);
    let row = evaluate_package_top_book(&c, &short, &long, &eval_config(), 10_000);
    assert_eq!(row.classification, EvaluationClassification::TopOfBookOnlyUnderOne);
    assert_eq!(row.seconds_to_end, 90);
    assert!(row.top_cost.unwrap().eq_value(&d("0.90")));
    assert!(row.edge.unwrap().eq_value(&d("0.10")));
    assert_eq!(row.short_slug.0, "s");
    assert_eq!(row.long_slug.0, "l");
    assert_eq!(row.selected_short_token.as_ref().unwrap().0, "s-down");
    assert_eq!(row.selected_long_token.as_ref().unwrap().0, "l-up");
    assert_eq!(row.ts_ms, 10_000);
    assert!(row.is_under_one_candidate());
}

#[test]
fn evaluation_classifies_above_one() {
    let c = candidate(100_000);
    let short = book("s", &[("0.55", "10")], 10_000);
    let long = book("l", &[("0.50", "10")], 10_000);
    let row = evaluate_package_top_book(&c, &short, &long, &eval_config(), 10_000);
    assert_eq!(row.classification, EvaluationClassification::ExpectedAboveOne);
    assert!(row.top_cost.unwrap().eq_value(&d("1.05")));
    assert!(row.edge.unwrap().eq_value(&d("-0.05")));
    assert!(!row.is_under_one_candidate());
}

#[test]
fn evaluation_rejects_too_close_then_stale_then_no_asks() {
    let fresh_s = book("s", &[("0.40", "10")], 10_000);
    let fresh_l = book("l", &[("0.50", "10")], 10_000);
    let close = candidate(39_999);
    let row = evaluate_package_top_book(&close, &fresh_s, &fresh_l, &eval_config(), 10_000);
    assert_eq!(row.classification, EvaluationClassification::ExpiredOrTooClose);
    assert_eq!(row.seconds_to_end, 29);
    assert!(row.top_cost.is_none());

    let c = candidate(100_000);
    let old = book("s", &[("0.40", "10")], 7_999);
    let row = evaluate_package_top_book(&c, &old, &fresh_l, &eval_config(), 10_000);
    assert_eq!(row.classification, EvaluationClassification::StaleBook);

    let empty = book("l", &[], 10_000);
    let row = evaluate_package_top_book(&c, &fresh_s, &empty, &eval_config(), 10_000);
    assert_eq!(row.classification, EvaluationClassification::NoUsableAsks);
    assert!(row.short_ask.is_none());
}

#[test]
fn evaluation_without_books() {
    let row = evaluate_package_without_books(&candidate(100_000), &eval_config(), 10_000);
    assert_eq!(row.classification, EvaluationClassification::NoUsableAsks);
    let row = evaluate_package_without_books(&candidate(10_000), &eval_config(), 20_000);
    assert_eq!(row.classification, EvaluationClassification::ExpiredOrTooClose);
    assert_eq!(row.seconds_to_end, 0);
}

#[test]
fn batch_keeps_candidate_order() {
    let cands = vec![candidate(100_000), candidate(100_000)];
    let s = book("s", &[("0.40", "10")], 10_000);
    let l = book("l", &[("0.50", "10")], 10_000);
    let rows = evaluate_candidate_batch(&cands, vec![None, Some(BookPair { short_book: &s, long_book: &l })], &eval_config(), 10_000);
    assert_eq!(rows.len(), 2);
    assert_eq!(rows[0].classification, EvaluationClassification::NoUsableAsks);
    assert_eq!(rows[1].classification, EvaluationClassification::TopOfBookOnlyUnderOne);
    assert_eq!(EvaluationClassification::TopOfBookOnlyUnderOne.as_str(), "TOP_OF_BOOK_ONLY_UNDER_1");
    assert_eq!(rows[1].pair_type(), "5m-1h");
}
