use c3po::decimal::Decimal;
use c3po::depth_engine::sizing::{
    calculate_depth_for_size, find_max_size_under_threshold, try_calculate_depth_for_size, DepthSizingConfig,
};
use c3po::depth_engine::{walk_ask_book, try_walk_ask_book, DepthLeg, DepthStatus};
use c3po::types::{Book, Level, TokenId};

fn d(s: &str) -> Decimal {
    Decimal::parse(s).unwrap()
}

fn asks(token: &str, levels: &[(&str, &str)]) -> Book {
    Book::new(
        TokenId::new(token.to_string()),
        vec![],
        levels.iter().map(|(p, s)| Level::new(d(p), d(s))).collect(),
        None,
        0,
    )
}

fn config() -> DepthSizingConfig {
    DepthSizingConfig { execution_buffer: d("0.02"), min_depth_confirmed_size: d("5"), min_gross_edge: d("0.10") }
}

#[test]
fn walk_fills_across_levels() {
    let b = asks("l", &[("0.50", "5"), ("0.52", "20")]);
    let w = walk_ask_book(&b, d("10"));
    assert!(w.fully_filled);
    assert!(w.filled_size.eq_value(&d("10")));
    assert!(w.total_cost.eq_value(&d("5.10")));
    assert!(w.avg_price.unwrap().eq_value(&d("0.51")));
    assert_eq!(w.consumed_levels, 2);
}

#[test]
fn walk_reports_partial_fill_and_skips_bad_levels() {
    let b = asks("l", &[("0", "5"), ("0.50", "3")]);
    let w = try_walk_ask_book(&b, d("10")).unwrap();
    assert!(!w.fully_filled);
    assert!(w.filled_size.eq_value(&d("3")));
    assert_eq!(w.consumed_levels, 1);
    let empty = walk_ask_book(&b, d("0"));
    assert!(empty.avg_price.is_none());
    assert_eq!(empty.consumed_levels, 0);
}

#[test]
fn depth_confirmed_for_a_fillable_cheap_package() {
    let short = asks("s", &[("0.40", "10"), ("0.45", "10")]);
    let long = asks("l", &[("0.50", "5"), ("0.52", "20")]);
    let r = calculate_depth_for_size(&short, &long, d("10"), &config());
    assert_eq!(r.status, DepthStatus::DepthConfirmedUnderOne);
    assert!(r.avg_package_cost.unwrap().eq_value(&d("0.91")));
    assert!(r.capital_required.eq_value(&d("9.10")));
    assert!(r.gross_edge.eq_value(&d("0.90")));
    assert!(r.max_size_under_threshold.eq_value(&d("10")));
    assert_eq!(r.limiting_leg, DepthLeg::Neither);
    assert_eq!(r.consumed_levels_short, 1);
    assert_eq!(r.consumed_levels_long, 2);
    assert!(r.is_depth_confirmed());
}

#[test]
fn depth_insufficient_names_the_short_leg() {
    let short = asks("s", &[("0.40", "3")]);
    let long = asks("l", &[("0.50", "50")]);
    let r = try_calculate_depth_for_size(&short, &long, d("10"), &config()).unwrap();
    assert_eq!(r.status, DepthStatus::InsufficientDepth);
    assert_eq!(r.limiting_leg, DepthLeg::Short);
    assert!(r.avg_package_cost.is_none());
}

#[test]
fn depth_rejects_non_positive_size() {
    let short = asks("s", &[("0.40", "3")]);
    let r = calculate_depth_for_size(&short, &short, d("0"), &config());
    assert_eq!(r.status, DepthStatus::InvalidTargetSize);
}

#[test]
fn depth_above_one_is_not_under_one() {
    let short = asks("s", &[("0.60", "10")]);
    let long = asks("l", &[("0.55", "10")]);
    let r = calculate_depth_for_size(&short, &long, d("10"), &config());
    assert_eq!(r.status, DepthStatus::InsufficientDepth);
    assert!(r.max_size_under_threshold.eq_value(&d("0")));
}

#[test]
fn find_max_takes_the_largest_size_under_threshold() {
    let short = asks("s", &[("0.40", "10"), ("0.45", "10")]);
    let long = asks("l", &[("0.50", "5"), ("0.52", "20")]);
    let r = find_max_size_under_threshold(&short, &long, d("20"), &config());
    assert_eq!(r.status, DepthStatus::DepthConfirmedUnderOne);
    assert!(r.max_size_under_threshold.eq_value(&d("20")));
    assert!(r.avg_package_cost.unwrap().eq_value(&d("0.94")));
}

#[test]
fn execution_threshold_is_one_minus_buffer() {
    assert!(config().execution_threshold().eq_value(&d("0.98")));
    assert!(config().try_execution_threshold().unwrap().eq_value(&d("0.98")));
}
