//! Evaluating package candidates: timing, book freshness, and the top-of-book quote.
use vstd::prelude::*;

use crate::config::EvaluationConfig;
use crate::decimal::{opt_view, DecView};
use crate::num::{div_i64, div_toward_zero, sat_sub, sat_sub_spec};
use crate::relation_engine::package_builder::PackageCandidate;
use crate::types::book::{fresh_spec, Book};
use crate::types::evaluation::{EvaluationClassification, EvaluationRow};
use crate::types::ids::{MarketSlug, TokenId};

use super::top_book::{book_quote_spec, calculate_top_book_quote, QuoteModel, QuoteOutcome, TopBookQuote};

verus! {

/// The books of the short and the long token of a candidate.
#[derive(Debug, Clone, Copy)]
pub struct BookPair<'a> {
    pub short_book: &'a Book,
    pub long_book: &'a Book,
}

/// Whole seconds from `now_ms` to `end_ms`, rounded toward zero, never below zero.
pub open spec fn row_seconds_spec(end_ms: i64, now_ms: i64) -> int {
    let s = div_toward_zero(sat_sub_spec(end_ms, now_ms), 1000);
    if s > 0 {
        s
    } else {
        0
    }
}

/// Too close to the end to evaluate.
pub open spec fn too_close_spec(c: PackageCandidate, cfg: EvaluationConfig, now_ms: i64) -> bool {
    row_seconds_spec(c.end_ms, now_ms) < (cfg.min_seconds_to_end as i64)
}

/// How the candidate is classified against the books, and the quote it carries; `None`
/// where a decimal operation of the quote overflows.
pub open spec fn evaluation_spec(
    c: PackageCandidate,
    short_book: Book,
    long_book: Book,
    cfg: EvaluationConfig,
    now_ms: i64,
) -> Option<(EvaluationClassification, Option<QuoteModel>)> {
    let max_age = cfg.max_book_age_ms as i64;
    if too_close_spec(c, cfg, now_ms) {
        Some((EvaluationClassification::ExpiredOrTooClose, None))
    } else if !fresh_spec(short_book.received_at_ms, now_ms, max_age) || !fresh_spec(
        long_book.received_at_ms,
        now_ms,
        max_age,
    ) {
        Some((EvaluationClassification::StaleBook, None))
    } else {
        match book_quote_spec(short_book, long_book, cfg) {
            QuoteOutcome::NoAsks => Some((EvaluationClassification::NoUsableAsks, None)),
            QuoteOutcome::Overflow => None,
            QuoteOutcome::Quote(q) => Some(
                (
                    if q.passes_trigger {
                        EvaluationClassification::TopOfBookOnlyUnderOne
                    } else {
                        EvaluationClassification::ExpectedAboveOne
                    },
                    Some(q),
                ),
            ),
        }
    }
}

/// How a candidate without books is classified.
pub open spec fn without_books_spec(c: PackageCandidate, cfg: EvaluationConfig, now_ms: i64) -> EvaluationClassification {
    if too_close_spec(c, cfg, now_ms) {
        EvaluationClassification::ExpiredOrTooClose
    } else {
        EvaluationClassification::NoUsableAsks
    }
}

/// `r` is the row for the candidate at `ts_ms`, with the classification and, where
/// there is one, the quote's asks, sizes, cost and edge.
pub open spec fn row_spec(
    r: EvaluationRow,
    c: PackageCandidate,
    ts_ms: i64,
    class: EvaluationClassification,
    quote: Option<QuoteModel>,
) -> bool {
    &&& r.ts_ms == ts_ms
    &&& r.asset == c.asset
    &&& r.short_tf == c.short_tf
    &&& r.long_tf == c.long_tf
    &&& r.short_slug@ == c.short_market_slug@
    &&& r.long_slug@ == c.long_market_slug@
    &&& r.short_ptb == Some(c.short_ptb)
    &&& r.long_ptb == Some(c.long_ptb)
    &&& r.package_name == Some(c.package_name)
    &&& r.selected_short_token is Some && r.selected_short_token->0@ == c.selected_short_token@
    &&& r.selected_long_token is Some && r.selected_long_token->0@ == c.selected_long_token@
    &&& r.seconds_to_end == row_seconds_spec(c.end_ms, ts_ms)
    &&& r.classification == class
    &&& match quote {
        None => r.short_ask is None && r.long_ask is None && r.short_ask_size is None && r.long_ask_size is None
            && r.top_cost is None && r.edge is None,
        Some(q) => opt_view(r.short_ask) == Some(q.short_ask) && opt_view(r.long_ask) == Some(q.long_ask)
            && opt_view(r.short_ask_size) == Some(q.short_ask_size) && opt_view(r.long_ask_size) == Some(
            q.long_ask_size,
        ) && opt_view(r.top_cost) == Some(q.top_cost) && opt_view(r.edge) == Some(q.edge),
    }
}

fn seconds_to_end(end_ms: i64, now_ms: i64) -> (r: i64)
    ensures
        r as int == row_seconds_spec(end_ms, now_ms),
{
    let s = div_i64(sat_sub(end_ms, now_ms), 1000);
    if s > 0 {
        s
    } else {
        0
    }
}

fn row_without_quote(
    candidate: &PackageCandidate,
    ts_ms: i64,
    seconds_to_end: i64,
    classification: EvaluationClassification,
) -> (r: EvaluationRow)
    requires
        seconds_to_end == row_seconds_spec(candidate.end_ms, ts_ms),
    ensures
        row_spec(r, *candidate, ts_ms, classification, None),
{
    EvaluationRow::new(
        ts_ms,
        candidate.asset,
        candidate.short_tf,
        candidate.long_tf,
        MarketSlug::new(candidate.short_market_slug.clone()),
        MarketSlug::new(candidate.long_market_slug.clone()),
        Some(candidate.short_ptb),
        Some(candidate.long_ptb),
        Some(candidate.package_name),
        Some(TokenId::new(candidate.selected_short_token.clone())),
        Some(TokenId::new(candidate.selected_long_token.clone())),
        None,
        None,
        None,
        None,
        None,
        None,
        seconds_to_end,
        classification,
    )
}

fn row_with_quote(
    candidate: &PackageCandidate,
    ts_ms: i64,
    seconds_to_end: i64,
    quote: TopBookQuote,
    classification: EvaluationClassification,
) -> (r: EvaluationRow)
    requires
        seconds_to_end == row_seconds_spec(candidate.end_ms, ts_ms),
    ensures
        row_spec(r, *candidate, ts_ms, classification, Some(quote@)),
{
    EvaluationRow::new(
        ts_ms,
        candidate.asset,
        candidate.short_tf,
        candidate.long_tf,
        MarketSlug::new(candidate.short_market_slug.clone()),
        MarketSlug::new(candidate.long_market_slug.clone()),
        Some(candidate.short_ptb),
        Some(candidate.long_ptb),
        Some(candidate.package_name),
        Some(TokenId::new(candidate.selected_short_token.clone())),
        Some(TokenId::new(candidate.selected_long_token.clone())),
        Some(quote.short_ask),
        Some(quote.long_ask),
        Some(quote.short_ask_size),
        Some(quote.long_ask_size),
        Some(quote.top_cost),
        Some(quote.edge),
        seconds_to_end,
        classification,
    )
}

/// Evaluates the candidate against the two books at `now_ms`: too close to the end,
/// stale books, no usable asks, or the top-of-book quote classified by its trigger.
pub fn evaluate_package_top_book(
    candidate: &PackageCandidate,
    short_book: &Book,
    long_book: &Book,
    eval_config: &EvaluationConfig,
    now_ms: i64,
) -> (r: EvaluationRow)
    requires
        evaluation_spec(*candidate, *short_book, *long_book, *eval_config, now_ms) is Some,
    ensures
        ({
            let o = evaluation_spec(*candidate, *short_book, *long_book, *eval_config, now_ms)->0;
            row_spec(r, *candidate, now_ms, o.0, o.1)
        }),
{
    let seconds_to_end = seconds_to_end(candidate.end_ms, now_ms);
    if seconds_to_end < eval_config.min_seconds_to_end as i64 {
        return row_without_quote(candidate, now_ms, seconds_to_end, EvaluationClassification::ExpiredOrTooClose);
    }
    let max_age = eval_config.max_book_age_ms as i64;
    if short_book.is_stale(now_ms, max_age) || long_book.is_stale(now_ms, max_age) {
        return row_without_quote(candidate, now_ms, seconds_to_end, EvaluationClassification::StaleBook);
    }
    let quote = match calculate_top_book_quote(short_book, long_book, eval_config) {
        Some(q) => q,
        None => {
            return row_without_quote(candidate, now_ms, seconds_to_end, EvaluationClassification::NoUsableAsks);
        },
    };
    let classification = if quote.is_under_trigger() {
        EvaluationClassification::TopOfBookOnlyUnderOne
    } else {
        EvaluationClassification::ExpectedAboveOne
    };
    row_with_quote(candidate, now_ms, seconds_to_end, quote, classification)
}

/// The row `evaluate_package_top_book` gives, or `None` where a decimal operation of
/// the quote overflows.
pub fn try_evaluate_package_top_book(
    candidate: &PackageCandidate,
    short_book: &Book,
    long_book: &Book,
    eval_config: &EvaluationConfig,
    now_ms: i64,
) -> (r: Option<EvaluationRow>)
    ensures
        match evaluation_spec(*candidate, *short_book, *long_book, *eval_config, now_ms) {
            Some(o) => r is Some && row_spec(r->0, *candidate, now_ms, o.0, o.1),
            None => r is None,
        },
{
    let seconds_to_end = seconds_to_end(candidate.end_ms, now_ms);
    let max_age = eval_config.max_book_age_ms as i64;
    if seconds_to_end >= eval_config.min_seconds_to_end as i64 && !short_book.is_stale(now_ms, max_age)
        && !long_book.is_stale(now_ms, max_age) {
        if crate::evaluator::top_book::try_calculate_top_book_quote(short_book, long_book, eval_config).is_none() {
            return None;
        }
    }
    Some(evaluate_package_top_book(candidate, short_book, long_book, eval_config, now_ms))
}

/// Evaluates a candidate whose books are not available.
pub fn evaluate_package_without_books(candidate: &PackageCandidate, eval_config: &EvaluationConfig, now_ms: i64) -> (r:
    EvaluationRow)
    ensures
        row_spec(r, *candidate, now_ms, without_books_spec(*candidate, *eval_config, now_ms), None),
{
    let seconds_to_end = seconds_to_end(candidate.end_ms, now_ms);
    if seconds_to_end < eval_config.min_seconds_to_end as i64 {
        return row_without_quote(candidate, now_ms, seconds_to_end, EvaluationClassification::ExpiredOrTooClose);
    }
    row_without_quote(candidate, now_ms, seconds_to_end, EvaluationClassification::NoUsableAsks)
}

/// The row for the candidate given the books found for it, if any.
pub open spec fn batch_row_spec<'a>(
    r: EvaluationRow,
    c: PackageCandidate,
    books: Option<BookPair<'a>>,
    cfg: EvaluationConfig,
    now_ms: i64,
) -> bool {
    match books {
        Some(bp) => {
            let o = evaluation_spec(c, *bp.short_book, *bp.long_book, cfg, now_ms)->0;
            row_spec(r, c, now_ms, o.0, o.1)
        },
        None => row_spec(r, c, now_ms, without_books_spec(c, cfg, now_ms), None),
    }
}

/// No quote of the batch overflows.
pub open spec fn batch_evaluable<'a>(
    candidates: Seq<PackageCandidate>,
    books: Seq<Option<BookPair<'a>>>,
    cfg: EvaluationConfig,
    now_ms: i64,
) -> bool {
    forall|i: int|
        0 <= i < candidates.len() && #[trigger] books[i] is Some ==> evaluation_spec(
            candidates[i],
            *books[i]->0.short_book,
            *books[i]->0.long_book,
            cfg,
            now_ms,
        ) is Some
}

/// Evaluates each candidate, in order, with the books found for it: `book_pairs[i]`
/// holds the books of `candidates[i]`, where they were found.
pub fn evaluate_candidate_batch<'a>(
    candidates: &Vec<PackageCandidate>,
    book_pairs: Vec<Option<BookPair<'a>>>,
    eval_config: &EvaluationConfig,
    now_ms: i64,
) -> (r: Vec<EvaluationRow>)
    requires
        book_pairs@.len() == candidates@.len(),
        batch_evaluable(candidates@, book_pairs@, *eval_config, now_ms),
    ensures
        r@.len() == candidates@.len(),
        forall|i: int|
            0 <= i < r@.len() ==> #[trigger] batch_row_spec(r@[i], candidates@[i], book_pairs@[i], *eval_config, now_ms),
{
    let mut rows: Vec<EvaluationRow> = Vec::new();
    let mut i: usize = 0;
    while i < candidates.len()
        invariant
            i <= candidates@.len(),
            book_pairs@.len() == candidates@.len(),
            batch_evaluable(candidates@, book_pairs@, *eval_config, now_ms),
            rows@.len() == i,
            forall|k: int|
                0 <= k < i ==> #[trigger] batch_row_spec(rows@[k], candidates@[k], book_pairs@[k], *eval_config, now_ms),
        decreases candidates@.len() - i,
    {
        let candidate = &candidates[i];
        let row = match book_pairs[i] {
            Some(bp) => {
                assert(book_pairs@[i as int] is Some);
                evaluate_package_top_book(candidate, bp.short_book, bp.long_book, eval_config, now_ms)
            },
            None => evaluate_package_without_books(candidate, eval_config, now_ms),
        };
        rows.push(row);
        i = i + 1;
    }
    rows
}

/// The rows `evaluate_candidate_batch` gives, or `None` where some quote overflows.
pub fn try_evaluate_candidate_batch<'a>(
    candidates: &Vec<PackageCandidate>,
    book_pairs: Vec<Option<BookPair<'a>>>,
    eval_config: &EvaluationConfig,
    now_ms: i64,
) -> (r: Option<Vec<EvaluationRow>>)
    requires
        book_pairs@.len() == candidates@.len(),
    ensures
        r is Some <==> batch_evaluable(candidates@, book_pairs@, *eval_config, now_ms),
        r is Some ==> r->0@.len() == candidates@.len() && forall|i: int|
            0 <= i < candidates@.len() ==> #[trigger] batch_row_spec(
                r->0@[i],
                candidates@[i],
                book_pairs@[i],
                *eval_config,
                now_ms,
            ),
{
    let mut i: usize = 0;
    while i < candidates.len()
        invariant
            i <= candidates@.len(),
            book_pairs@.len() == candidates@.len(),
            forall|k: int|
                0 <= k < i && #[trigger] book_pairs@[k] is Some ==> evaluation_spec(
                    candidates@[k],
                    *book_pairs@[k]->0.short_book,
                    *book_pairs@[k]->0.long_book,
                    *eval_config,
                    now_ms,
                ) is Some,
        decreases candidates@.len() - i,
    {
        match book_pairs[i] {
            Some(bp) => {
                if try_evaluate_package_top_book(&candidates[i], bp.short_book, bp.long_book, eval_config, now_ms).is_none() {
                    return None;
                }
            },
            None => {},
        }
        i = i + 1;
    }
    Some(evaluate_candidate_batch(candidates, book_pairs, eval_config, now_ms))
}


/// A row classified under one at the top of the book carries a quote whose cost is under
/// `1 - trigger_buffer`; a row with a quote was neither too close to the end nor stale.
pub proof fn lemma_under_one_row_below_trigger(
    c: PackageCandidate,
    short_book: Book,
    long_book: Book,
    cfg: EvaluationConfig,
    now_ms: i64,
)
    requires
        evaluation_spec(c, short_book, long_book, cfg, now_ms) is Some,
    ensures
        ({
            let o = evaluation_spec(c, short_book, long_book, cfg, now_ms)->0;
            &&& o.0 == EvaluationClassification::TopOfBookOnlyUnderOne ==> o.1 is Some && crate::decimal::value_lt(
                o.1->0.top_cost,
                o.1->0.trigger_threshold,
            )
            &&& o.1 is Some ==> !too_close_spec(c, cfg, now_ms) && fresh_spec(
                short_book.received_at_ms,
                now_ms,
                cfg.max_book_age_ms as i64,
            ) && fresh_spec(long_book.received_at_ms, now_ms, cfg.max_book_age_ms as i64)
        }),
{
}

} // verus!
