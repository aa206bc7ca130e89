use c3po::book_store::BookStore;
use c3po::book_store::freshness::{check_book_freshness, is_book_fresh, is_book_usable};
use c3po::decimal::Decimal;
use c3po::types::{Book, Level, TokenId};

fn d(s: &str) -> Decimal {
    Decimal::parse(s).unwrap()
}

fn lv(p: &str, s: &str) -> Level {
    Level::new(d(p), d(s))
}

fn book(token: &str, bids: Vec<Level>, asks: Vec<Level>, received: i64) -> Book {
    Book::new(TokenId::new(token.to_string()), bids, asks, None, received)
}

fn prices(levels: &[Level]) -> Vec<String> {
    levels.iter().map(|l| l.price.to_text()).collect()
}

#[test]
fn normalize_orders_sides_and_drops_non_positive() {
    let mut b = book(
        "t",
        vec![lv("0.40", "1"), lv("0.45", "2"), lv("0.30", "0")],
        vec![lv("0.60", "1"), lv("0.55", "3"), lv("0", "5")],
        0,
    );
    b.normalize();
    assert_eq!(prices(&b.bids), vec!["0.45", "0.40"]);
    assert_eq!(prices(&b.asks), vec!["0.55", "0.60"]);
}

#[test]
fn normalize_twice_is_normalize_once() {
    let mut b = book("t", vec![lv("0.2", "1"), lv("0.3", "1")], vec![lv("0.7", "1"), lv("0.6", "1")], 0);
    b.normalize();
    let once = (prices(&b.bids), prices(&b.asks));
    b.normalize();
    assert_eq!((prices(&b.bids), prices(&b.asks)), once);
}

#[test]
fn store_returns_the_normalized_book_it_was_given() {
    let mut store = BookStore::new();
    let previous = store.insert_book(book("up", vec![], vec![lv("0.6", "1"), lv("0.5", "2")], 10));
    assert!(previous.is_none());
    let got = store.get_book(&TokenId::new("up".to_string())).unwrap();
    assert_eq!(prices(&got.asks), vec!["0.5", "0.6"]);
    let replaced = store.insert_book(book("up", vec![], vec![lv("0.4", "1")], 20));
    assert!(replaced.is_some());
    assert_eq!(store.len(), 1);
    assert_eq!(store.get_book(&TokenId::new("up".to_string())).unwrap().received_at_ms, 20);
}

#[test]
fn apply_books_counts_inserts_and_replacements() {
    let mut store = BookStore::new();
    let stats = store.apply_books(vec![
        book("a", vec![], vec![lv("0.5", "1")], 0),
        book("b", vec![], vec![lv("0.5", "1")], 0),
        book("a", vec![], vec![lv("0.4", "1")], 1),
    ]);
    assert_eq!(stats.inserted, 2);
    assert_eq!(stats.replaced, 1);
    assert_eq!(stats.skipped, 0);
    assert_eq!(stats.total_changed(), 3);
}

#[test]
fn retain_keeps_only_desired_tokens_in_order() {
    let mut store = BookStore::new();
    for t in ["a", "b", "c"] {
        store.insert_book(book(t, vec![], vec![lv("0.5", "1")], 0));
    }
    store.retain_tokens(vec![TokenId::new("c".to_string()), TokenId::new("a".to_string())]);
    let left: Vec<String> = store.all().iter().map(|b| b.token_id.0.clone()).collect();
    assert_eq!(left, vec!["a", "c"]);
    assert!(store.remove_book(&TokenId::new("a".to_string())).is_some());
    assert!(store.remove_book(&TokenId::new("a".to_string())).is_none());
}

#[test]
fn freshness_and_stats() {
    let mut store = BookStore::new();
    store.insert_book(book("fresh", vec![], vec![lv("0.5", "1")], 1_000));
    store.insert_book(book("stale", vec![], vec![lv("0.5", "1")], 0));
    store.insert_book(book("empty", vec![], vec![], 1_000));
    let f = store.freshness(&TokenId::new("fresh".to_string()), 1_500, 1_000);
    assert!(f.is_usable);
    assert!(!store.is_usable(&TokenId::new("stale".to_string()), 1_500, 1_000));
    let missing = check_book_freshness(None, 0, 10);
    assert!(!missing.has_book);
    assert!(missing.age_ms.is_none());
    let stats = store.stats(1_500, 1_000);
    assert_eq!(stats.total_books, 3);
    assert_eq!(stats.usable_books, 1);
    assert_eq!(stats.stale_books, 1);
    assert_eq!(stats.books_without_usable_asks, 1);
    let b = book("x", vec![], vec![lv("0.5", "1")], 100);
    assert!(is_book_fresh(Some(&b), 150, 50));
    assert!(!is_book_fresh(Some(&b), 151, 50));
    assert!(is_book_usable(Some(&b), 150, 50));
}

#[test]
fn book_pair_needs_both_books() {
    let mut store = BookStore::new();
    store.insert_book(book("a", vec![], vec![lv("0.5", "1")], 0));
    assert!(store.get_book_pair(&TokenId::new("a".to_string()), &TokenId::new("b".to_string())).is_none());
    store.insert_book(book("b", vec![], vec![lv("0.4", "1")], 0));
    let pair = store.get_book_pair(&TokenId::new("a".to_string()), &TokenId::new("b".to_string())).unwrap();
    assert_eq!(pair.second.token_id.0, "b");
}

#[test]
fn apply_books_counts_new_tokens_once_and_keeps_the_last_book() {
    let mut store = BookStore::new();
    store.insert_book(book("old", vec![], vec![lv("0.5", "1")], 0));
    let stats = store.apply_books(vec![
        book("old", vec![], vec![lv("0.6", "1")], 1),
        book("new", vec![], vec![lv("0.5", "1")], 2),
        book("new", vec![], vec![lv("0.7", "1")], 3),
        book("other", vec![], vec![lv("0.8", "1")], 4),
    ]);
    assert_eq!(stats.inserted, 2);
    assert_eq!(stats.replaced, 2);
    assert_eq!(store.len(), 3);
    let b = store.get_book(&TokenId::new("new".to_string())).unwrap();
    assert_eq!(b.received_at_ms, 3);
    assert!(b.asks[0].price.eq_value(&d("0.7")));
}
