//! Whether a book exists, has asks to buy from, and is recent enough to trust.
use vstd::prelude::*;

use crate::num::sat_sub_spec;
use crate::types::book::{fresh_spec, has_usable_asks_spec, levels_view, Book};

verus! {

#[derive(Debug, Clone, Copy, PartialEq, Eq)]
pub struct BookFreshness {
    pub has_book: bool,
    pub has_usable_asks: bool,
    pub is_fresh: bool,
    pub is_usable: bool,
    pub age_ms: Option<i64>,
}

/// The freshness of `book` at `now`: all false for a missing book.
pub open spec fn freshness_spec(book: Option<Book>, now: i64, max_age: i64) -> BookFreshness {
    match book {
        None => BookFreshness {
            has_book: false,
            has_usable_asks: false,
            is_fresh: false,
            is_usable: false,
            age_ms: None,
        },
        Some(b) => {
            let asks = has_usable_asks_spec(levels_view(b.asks@));
            let fresh = fresh_spec(b.received_at_ms, now, max_age);
            BookFreshness {
                has_book: true,
                has_usable_asks: asks,
                is_fresh: fresh,
                is_usable: asks && fresh,
                age_ms: Some(sat_sub_spec(now, b.received_at_ms) as i64),
            }
        },
    }
}

/// A book taken by value.
pub open spec fn deref_opt(book: Option<&Book>) -> Option<Book> {
    match book {
        Some(b) => Some(*b),
        None => None,
    }
}

impl BookFreshness {
    pub fn missing() -> (r: BookFreshness)
        ensures
            r == freshness_spec(None, 0, 0),
    {
        BookFreshness {
            has_book: false,
            has_usable_asks: false,
            is_fresh: false,
            is_usable: false,
            age_ms: None,
        }
    }
}

pub fn check_book_freshness(book: Option<&Book>, now_ms: i64, max_book_age_ms: i64) -> (r: BookFreshness)
    ensures
        r == freshness_spec(deref_opt(book), now_ms, max_book_age_ms),
{
    let book = match book {
        Some(b) => b,
        None => return BookFreshness::missing(),
    };
    let age_ms = book.age_ms(now_ms);
    let has_usable_asks = book.has_usable_asks();
    let is_fresh = book.is_fresh(now_ms, max_book_age_ms);
    BookFreshness {
        has_book: true,
        has_usable_asks,
        is_fresh,
        is_usable: has_usable_asks && is_fresh,
        age_ms: Some(age_ms),
    }
}

pub fn is_book_fresh(book: Option<&Book>, now_ms: i64, max_book_age_ms: i64) -> (r: bool)
    ensures
        r == freshness_spec(deref_opt(book), now_ms, max_book_age_ms).is_fresh,
{
    check_book_freshness(book, now_ms, max_book_age_ms).is_fresh
}

pub fn is_book_usable(book: Option<&Book>, now_ms: i64, max_book_age_ms: i64) -> (r: bool)
    ensures
        r == freshness_spec(deref_opt(book), now_ms, max_book_age_ms).is_usable,
{
    check_book_freshness(book, now_ms, max_book_age_ms).is_usable
}

} // verus!
