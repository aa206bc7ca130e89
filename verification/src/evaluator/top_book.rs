//! The best-ask quote of a two-leg package.
use vstd::prelude::*;

use crate::config::EvaluationConfig;
use crate::decimal::{
    decimal_checked_add, decimal_checked_sub, min_view, one_view, value_le, value_lt, DecView, Decimal,
};
use crate::types::book::{first_positive, lemma_first_positive, level_pos, levels_view, Book, LevelView};

verus! {

#[derive(Debug, Clone)]
pub struct TopBookQuote {
    pub short_ask: Decimal,
    pub long_ask: Decimal,
    pub short_ask_size: Decimal,
    pub long_ask_size: Decimal,
    pub top_cost: Decimal,
    pub edge: Decimal,
    pub top_book_size: Decimal,
    pub trigger_threshold: Decimal,
    pub passes_trigger: bool,
    pub passes_min_top_book_size: bool,
}

/// A quote as plain values.
pub struct QuoteModel {
    pub short_ask: DecView,
    pub long_ask: DecView,
    pub short_ask_size: DecView,
    pub long_ask_size: DecView,
    pub top_cost: DecView,
    pub edge: DecView,
    pub top_book_size: DecView,
    pub trigger_threshold: DecView,
    pub passes_trigger: bool,
    pub passes_min_top_book_size: bool,
}

impl View for TopBookQuote {
    type V = QuoteModel;

    open spec fn view(&self) -> QuoteModel {
        QuoteModel {
            short_ask: self.short_ask@,
            long_ask: self.long_ask@,
            short_ask_size: self.short_ask_size@,
            long_ask_size: self.long_ask_size@,
            top_cost: self.top_cost@,
            edge: self.edge@,
            top_book_size: self.top_book_size@,
            trigger_threshold: self.trigger_threshold@,
            passes_trigger: self.passes_trigger,
            passes_min_top_book_size: self.passes_min_top_book_size,
        }
    }
}

/// What quoting two books gives.
pub enum QuoteOutcome {
    /// One of the books has no positive ask.
    NoAsks,
    /// A decimal operation overflows.
    Overflow,
    Quote(QuoteModel),
}

/// The quote from the best positive ask of each book: the sum of the two prices as
/// cost, one minus the cost as edge, the smaller of the two sizes, and whether the cost
/// is under `1 - trigger_buffer` and the size reaches `min_top_book_size`.
pub open spec fn quote_spec(
    short_asks: Seq<LevelView>,
    long_asks: Seq<LevelView>,
    trigger_buffer: DecView,
    min_top_book_size: DecView,
) -> QuoteOutcome {
    match (first_positive(short_asks), first_positive(long_asks)) {
        (Some(i), Some(j)) => {
            let s = short_asks[i];
            let l = long_asks[j];
            match decimal_checked_add(s.0, l.0) {
                None => QuoteOutcome::Overflow,
                Some(cost) => match (decimal_checked_sub(one_view(), cost), decimal_checked_sub(one_view(), trigger_buffer)) {
                    (Some(edge), Some(threshold)) => {
                        let size = min_view(s.1, l.1);
                        QuoteOutcome::Quote(
                            QuoteModel {
                                short_ask: s.0,
                                long_ask: l.0,
                                short_ask_size: s.1,
                                long_ask_size: l.1,
                                top_cost: cost,
                                edge,
                                top_book_size: size,
                                trigger_threshold: threshold,
                                passes_trigger: value_lt(cost, threshold),
                                passes_min_top_book_size: value_le(min_top_book_size, size),
                            },
                        )
                    },
                    _ => QuoteOutcome::Overflow,
                },
            }
        },
        _ => QuoteOutcome::NoAsks,
    }
}

/// The quote outcome for two books under a configuration.
pub open spec fn book_quote_spec(short_book: Book, long_book: Book, cfg: EvaluationConfig) -> QuoteOutcome {
    quote_spec(levels_view(short_book.asks@), levels_view(long_book.asks@), cfg.trigger_buffer@, cfg.min_top_book_size@)
}

impl TopBookQuote {
    pub fn is_under_trigger(&self) -> (r: bool)
        ensures
            r == self.passes_trigger,
    {
        self.passes_trigger
    }

    pub fn has_min_top_book_size(&self) -> (r: bool)
        ensures
            r == self.passes_min_top_book_size,
    {
        self.passes_min_top_book_size
    }
}

fn quote(short_book: &Book, long_book: &Book, eval_config: &EvaluationConfig) -> (r: Result<Option<TopBookQuote>, ()>)
    ensures
        match book_quote_spec(*short_book, *long_book, *eval_config) {
            QuoteOutcome::NoAsks => r == Ok::<Option<TopBookQuote>, ()>(None),
            QuoteOutcome::Overflow => r is Err,
            QuoteOutcome::Quote(q) => r is Ok && r->Ok_0 is Some && r->Ok_0->0@ == q,
        },
{
    let short_level = match short_book.usable_ask_or_none() {
        Some(l) => l,
        None => return Ok(None),
    };
    let long_level = match long_book.usable_ask_or_none() {
        Some(l) => l,
        None => return Ok(None),
    };
    let short_ask = short_level.price;
    let long_ask = long_level.price;
    let short_ask_size = short_level.size;
    let long_ask_size = long_level.size;
    let top_cost = match short_ask.checked_add(&long_ask) {
        Some(c) => c,
        None => return Err(()),
    };
    let edge = match Decimal::one().checked_sub(&top_cost) {
        Some(e) => e,
        None => return Err(()),
    };
    let trigger_threshold = match Decimal::one().checked_sub(&eval_config.trigger_buffer) {
        Some(t) => t,
        None => return Err(()),
    };
    let top_book_size = short_ask_size.min(long_ask_size);
    let passes_trigger = top_cost.lt(&trigger_threshold);
    let passes_min_top_book_size = top_book_size.ge(&eval_config.min_top_book_size);
    Ok(
        Some(
            TopBookQuote {
                short_ask,
                long_ask,
                short_ask_size,
                long_ask_size,
                top_cost,
                edge,
                top_book_size,
                trigger_threshold,
                passes_trigger,
                passes_min_top_book_size,
            },
        ),
    )
}

/// The quote from the best positive ask of each book; `None` where either book has none.
pub fn calculate_top_book_quote(short_book: &Book, long_book: &Book, eval_config: &EvaluationConfig) -> (r: Option<
    TopBookQuote,
>)
    requires
        !(book_quote_spec(*short_book, *long_book, *eval_config) is Overflow),
    ensures
        match book_quote_spec(*short_book, *long_book, *eval_config) {
            QuoteOutcome::Quote(q) => r is Some && r->0@ == q,
            _ => r is None,
        },
        r is Some ==> value_le(r->0.top_book_size@, r->0.short_ask_size@) && value_le(
            r->0.top_book_size@,
            r->0.long_ask_size@,
        ) && (r->0.top_book_size@ == r->0.short_ask_size@ || r->0.top_book_size@ == r->0.long_ask_size@),
{
    proof {
        lemma_top_book_size_is_smaller(
            levels_view(short_book.asks@),
            levels_view(long_book.asks@),
            eval_config.trigger_buffer@,
            eval_config.min_top_book_size@,
        );
    }
    match quote(short_book, long_book, eval_config) {
        Ok(q) => q,
        Err(_) => None,
    }
}

/// The quote as `calculate_top_book_quote` gives it, or `None` where a decimal
/// operation overflows.
pub fn try_calculate_top_book_quote(short_book: &Book, long_book: &Book, eval_config: &EvaluationConfig) -> (r: Option<
    Option<TopBookQuote>,
>)
    ensures
        match book_quote_spec(*short_book, *long_book, *eval_config) {
            QuoteOutcome::NoAsks => r == Some(None::<TopBookQuote>),
            QuoteOutcome::Overflow => r is None,
            QuoteOutcome::Quote(q) => r is Some && r->0 is Some && r->0->0@ == q,
        },
{
    match quote(short_book, long_book, eval_config) {
        Ok(_) => Some(calculate_top_book_quote(short_book, long_book, eval_config)),
        Err(_) => None,
    }
}

/// The top-of-book size of a quote is the smaller of the two best-ask sizes: it is no
/// larger than either and equal to one of them, and it passes the size minimum exactly
/// when it reaches it. The best asks are the first positive level of each book.
pub proof fn lemma_top_book_size_is_smaller(
    short_asks: Seq<LevelView>,
    long_asks: Seq<LevelView>,
    trigger_buffer: DecView,
    min_top_book_size: DecView,
)
    ensures
        match quote_spec(short_asks, long_asks, trigger_buffer, min_top_book_size) {
            QuoteOutcome::Quote(q) => {
                &&& value_le(q.top_book_size, q.short_ask_size)
                &&& value_le(q.top_book_size, q.long_ask_size)
                &&& (q.top_book_size == q.short_ask_size || q.top_book_size == q.long_ask_size)
                &&& q.passes_min_top_book_size == value_le(min_top_book_size, q.top_book_size)
                &&& exists|i: int|
                    0 <= i < short_asks.len() && level_pos(#[trigger] short_asks[i]) && short_asks[i] == (
                        q.short_ask,
                        q.short_ask_size,
                    ) && forall|j: int| 0 <= j < i ==> !level_pos(#[trigger] short_asks[j])
                &&& exists|i: int|
                    0 <= i < long_asks.len() && level_pos(#[trigger] long_asks[i]) && long_asks[i] == (
                        q.long_ask,
                        q.long_ask_size,
                    ) && forall|j: int| 0 <= j < i ==> !level_pos(#[trigger] long_asks[j])
            },
            _ => true,
        },
{
    match quote_spec(short_asks, long_asks, trigger_buffer, min_top_book_size) {
        QuoteOutcome::Quote(q) => {
            lemma_first_positive(short_asks);
            lemma_first_positive(long_asks);
            let i = first_positive(short_asks)->0;
            let j = first_positive(long_asks)->0;
            assert(short_asks[i] == (q.short_ask, q.short_ask_size));
            assert(long_asks[j] == (q.long_ask, q.long_ask_size));
        },
        _ => {},
    }
}

} // verus!
