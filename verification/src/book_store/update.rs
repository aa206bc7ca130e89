//! Applying snapshots and side updates to books.
use vstd::prelude::*;

use crate::types::book::{levels_view, normalized_side, positive_levels, lemma_positive_idempotent, Book, BookSide, Level, retain_positive};

verus! {

#[derive(Debug, Clone, Copy, PartialEq, Eq, Default)]
pub struct BookStoreUpdateStats {
    pub inserted: usize,
    pub replaced: usize,
    pub skipped: usize,
}

impl BookStoreUpdateStats {
    pub fn new() -> (r: BookStoreUpdateStats)
        ensures
            r.inserted == 0 && r.replaced == 0 && r.skipped == 0,
    {
        BookStoreUpdateStats { inserted: 0, replaced: 0, skipped: 0 }
    }

    /// Books inserted or replaced.
    pub fn total_changed(&self) -> (r: usize)
        requires
            self.inserted + self.replaced <= usize::MAX,
        ensures
            r == self.inserted + self.replaced,
    {
        self.inserted + self.replaced
    }
}

/// `b` is `incoming` normalized: same id and times, each side holding its positive
/// levels best first.
pub open spec fn normalized_book(b: Book, incoming: Book) -> bool {
    &&& b.token_id == incoming.token_id
    &&& b.exchange_ts_ms == incoming.exchange_ts_ms
    &&& b.received_at_ms == incoming.received_at_ms
    &&& normalized_side(levels_view(b.bids@), levels_view(incoming.bids@), false)
    &&& normalized_side(levels_view(b.asks@), levels_view(incoming.asks@), true)
}

/// Replaces `existing` with the normalized `incoming` where there is one; counts an
/// insertion where there is none (the caller keeps the book then).
pub fn apply_book_snapshot(existing: Option<&mut Book>, incoming: Book) -> (r: BookStoreUpdateStats)
    ensures
        match existing {
            Some(_) => r == (BookStoreUpdateStats { inserted: 0, replaced: 1, skipped: 0 }),
            None => r == (BookStoreUpdateStats { inserted: 1, replaced: 0, skipped: 0 }),
        },
        existing is Some ==> normalized_book(*final(existing->0), incoming),
{
    let mut incoming = incoming;
    incoming.normalize();
    match existing {
        Some(existing_book) => {
            *existing_book = incoming;
            BookStoreUpdateStats { inserted: 0, replaced: 1, skipped: 0 }
        },
        None => BookStoreUpdateStats { inserted: 1, replaced: 0, skipped: 0 },
    }
}

/// Replaces one side of `book` with the positive levels of `levels`, sets its times,
/// and normalizes it.
pub fn apply_side_levels(
    book: &mut Book,
    side: BookSide,
    levels: Vec<Level>,
    exchange_ts_ms: Option<i64>,
    received_at_ms: i64,
)
    ensures
        final(book).token_id == old(book).token_id,
        final(book).exchange_ts_ms == exchange_ts_ms,
        final(book).received_at_ms == received_at_ms,
        side == BookSide::Bid ==> normalized_side(
            levels_view(final(book).bids@),
            levels_view(levels@),
            false,
        ) && normalized_side(levels_view(final(book).asks@), levels_view(old(book).asks@), true),
        side == BookSide::Ask ==> normalized_side(
            levels_view(final(book).asks@),
            levels_view(levels@),
            true,
        ) && normalized_side(levels_view(final(book).bids@), levels_view(old(book).bids@), false),
{
    let ghost given = levels@;
    let levels = retain_positive(levels);
    proof {
        lemma_positive_idempotent(levels_view(given));
    }
    match side {
        BookSide::Bid => {
            book.bids = levels;
        },
        BookSide::Ask => {
            book.asks = levels;
        },
    }
    book.exchange_ts_ms = exchange_ts_ms;
    book.received_at_ms = received_at_ms;
    book.normalize();
}

} // verus!
