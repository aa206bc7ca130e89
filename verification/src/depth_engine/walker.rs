//! Walking the ask side of a book to fill a requested size.
use vstd::prelude::*;

use crate::decimal::{
    decimal_checked_add, decimal_checked_div, decimal_checked_mul, decimal_checked_sub, is_pos,
    min_view, opt_view, value_le, zero_view, DecView, Decimal,
};
use crate::types::book::{level_pos, levels_view, Book, Level, LevelView};

verus! {

#[derive(Debug, Clone)]
pub struct WalkResult {
    pub requested_size: Decimal,
    pub filled_size: Decimal,
    pub total_cost: Decimal,
    pub avg_price: Option<Decimal>,
    pub consumed_levels: usize,
    pub fully_filled: bool,
}

/// A walk as plain values.
pub struct WalkModel {
    pub requested_size: DecView,
    pub filled_size: DecView,
    pub total_cost: DecView,
    pub avg_price: Option<DecView>,
    pub consumed_levels: nat,
    pub fully_filled: bool,
}

impl View for WalkResult {
    type V = WalkModel;

    open spec fn view(&self) -> WalkModel {
        WalkModel {
            requested_size: self.requested_size@,
            filled_size: self.filled_size@,
            total_cost: self.total_cost@,
            avg_price: opt_view(self.avg_price),
            consumed_levels: self.consumed_levels as nat,
            fully_filled: self.fully_filled,
        }
    }
}

/// The walk that fills nothing.
pub open spec fn empty_walk(requested: DecView) -> WalkModel {
    WalkModel {
        requested_size: requested,
        filled_size: zero_view(),
        total_cost: zero_view(),
        avg_price: None,
        consumed_levels: 0,
        fully_filled: false,
    }
}

/// The walk filled the whole size and has an average price.
pub open spec fn walk_usable(w: WalkModel) -> bool {
    w.fully_filled && w.avg_price is Some
}

/// State of a walk: (remaining, filled, total cost, consumed levels).
pub type WalkState = (DecView, DecView, DecView, nat);

/// Takes `min(remaining, size)` from each positive level in turn until nothing
/// remains; `None` where a decimal operation overflows.
pub open spec fn walk_fold(levels: Seq<LevelView>, st: WalkState) -> Option<WalkState>
    decreases levels.len(),
{
    if levels.len() == 0 || value_le(st.0, zero_view()) {
        Some(st)
    } else if !level_pos(levels[0]) {
        walk_fold(levels.drop_first(), st)
    } else {
        let take = min_view(st.0, levels[0].1);
        match (
            decimal_checked_add(st.1, take),
            decimal_checked_mul(take, levels[0].0),
            decimal_checked_sub(st.0, take),
        ) {
            (Some(filled), Some(product), Some(remaining)) => match decimal_checked_add(
                st.2,
                product,
            ) {
                Some(cost) => walk_fold(levels.drop_first(), (remaining, filled, cost, st.3 + 1)),
                None => None,
            },
            _ => None,
        }
    }
}

/// The walk of `levels` for `requested`, with the average price of what was filled.
pub open spec fn walk_levels_spec(levels: Seq<LevelView>, requested: DecView) -> Option<WalkModel> {
    match walk_fold(levels, (requested, zero_view(), zero_view(), 0)) {
        None => None,
        Some(st) => {
            let fully = value_le(requested, st.1);
            if is_pos(st.1) {
                match decimal_checked_div(st.2, st.1) {
                    Some(avg) => Some(
                        WalkModel {
                            requested_size: requested,
                            filled_size: st.1,
                            total_cost: st.2,
                            avg_price: Some(avg),
                            consumed_levels: st.3,
                            fully_filled: fully,
                        },
                    ),
                    None => None,
                }
            } else {
                Some(
                    WalkModel {
                        requested_size: requested,
                        filled_size: st.1,
                        total_cost: st.2,
                        avg_price: None,
                        consumed_levels: st.3,
                        fully_filled: fully,
                    },
                )
            }
        },
    }
}

/// The walk of a book's asks: empty where the requested size is not positive.
pub open spec fn walk_ask_spec(asks: Seq<LevelView>, requested: DecView) -> Option<WalkModel> {
    if !is_pos(requested) {
        Some(empty_walk(requested))
    } else {
        walk_levels_spec(asks, requested)
    }
}

impl WalkResult {
    pub fn empty(requested_size: Decimal) -> (r: WalkResult)
        ensures
            r@ == empty_walk(requested_size@),
    {
        WalkResult {
            requested_size,
            filled_size: Decimal::zero(),
            total_cost: Decimal::zero(),
            avg_price: None,
            consumed_levels: 0,
            fully_filled: false,
        }
    }

    pub fn is_usable(&self) -> (r: bool)
        ensures
            r == walk_usable(self@),
    {
        self.fully_filled && self.avg_price.is_some()
    }
}

proof fn lemma_walk_fold_step(levels: Seq<LevelView>, i: int, st: WalkState)
    requires
        0 <= i < levels.len(),
        !value_le(st.0, zero_view()),
    ensures
        walk_fold(levels.skip(i), st) == if !level_pos(levels[i]) {
            walk_fold(levels.skip(i + 1), st)
        } else {
            let take = min_view(st.0, levels[i].1);
            match (
                decimal_checked_add(st.1, take),
                decimal_checked_mul(take, levels[i].0),
                decimal_checked_sub(st.0, take),
            ) {
                (Some(filled), Some(product), Some(remaining)) => match decimal_checked_add(
                    st.2,
                    product,
                ) {
                    Some(cost) => walk_fold(
                        levels.skip(i + 1),
                        (remaining, filled, cost, st.3 + 1),
                    ),
                    None => None,
                },
                _ => None,
            }
        },
{
    assert(levels.skip(i).drop_first() =~= levels.skip(i + 1));
    assert(levels.skip(i)[0] == levels[i]);
}

/// Walks `levels` for `requested`; `None` where a decimal operation overflows.
fn walk_levels(levels: &Vec<Level>, requested_size: Decimal) -> (r: Option<WalkResult>)
    ensures
        match walk_levels_spec(levels_view(levels@), requested_size@) {
            Some(w) => r is Some && r->0@ == w,
            None => r is None,
        },
{
    let ghost lv = levels_view(levels@);
    let zero = Decimal::zero();
    let mut remaining = requested_size;
    let mut filled_size = Decimal::zero();
    let mut total_cost = Decimal::zero();
    let mut consumed_levels: usize = 0;
    let mut i: usize = 0;
    assert(lv.skip(0) =~= lv);
    while i < levels.len() && !remaining.le(&zero)
        invariant
            i <= levels.len(),
            lv == levels_view(levels@),
            zero@ == zero_view(),
            consumed_levels <= i,
            walk_fold(lv, (requested_size@, zero_view(), zero_view(), 0)) == walk_fold(
                lv.skip(i as int),
                (remaining@, filled_size@, total_cost@, consumed_levels as nat),
            ),
        decreases levels.len() - i,
    {
        let level = levels[i];
        proof {
            lemma_walk_fold_step(lv, i as int, (remaining@, filled_size@, total_cost@, consumed_levels as nat));
            assert(lv[i as int] == level@);
        }
        if !level.is_positive() {
            i = i + 1;
            continue;
        }
        let take_size = remaining.min(level.size);
        let filled = match filled_size.checked_add(&take_size) {
            Some(v) => v,
            None => return None,
        };
        let product = match take_size.checked_mul(&level.price) {
            Some(v) => v,
            None => return None,
        };
        let rest = match remaining.checked_sub(&take_size) {
            Some(v) => v,
            None => return None,
        };
        let cost = match total_cost.checked_add(&product) {
            Some(v) => v,
            None => return None,
        };
        filled_size = filled;
        total_cost = cost;
        remaining = rest;
        consumed_levels = consumed_levels + 1;
        i = i + 1;
    }
    assert(walk_fold(lv.skip(i as int), (remaining@, filled_size@, total_cost@, consumed_levels as nat))
        == Some((remaining@, filled_size@, total_cost@, consumed_levels as nat)));
    let fully_filled = filled_size.ge(&requested_size);
    let avg_price = if filled_size.gt(&zero) {
        match total_cost.checked_div(&filled_size) {
            Some(v) => Some(v),
            None => return None,
        }
    } else {
        None
    };
    Some(
        WalkResult {
            requested_size,
            filled_size,
            total_cost,
            avg_price,
            consumed_levels,
            fully_filled,
        },
    )
}

/// Walks the asks of `book` for `requested_size`, or `None` where a decimal
/// operation overflows.
pub fn try_walk_ask_book(book: &Book, requested_size: Decimal) -> (r: Option<WalkResult>)
    ensures
        match walk_ask_spec(levels_view(book.asks@), requested_size@) {
            Some(w) => r is Some && r->0@ == w,
            None => r is None,
        },
{
    if requested_size.le(&Decimal::zero()) {
        return Some(WalkResult::empty(requested_size));
    }
    if walk_levels(&book.asks, requested_size).is_some() {
        Some(walk_ask_book(book, requested_size))
    } else {
        None
    }
}

/// Walks the asks of `book` from the first level, taking from each positive level
/// as much as still remains of `requested_size`.
pub fn walk_ask_book(book: &Book, requested_size: Decimal) -> (r: WalkResult)
    requires
        walk_ask_spec(levels_view(book.asks@), requested_size@) is Some,
    ensures
        Some(r@) == walk_ask_spec(levels_view(book.asks@), requested_size@),
        r.avg_price is Some <==> is_pos(r.filled_size@),
        r.avg_price is Some ==> Some(r.avg_price->0@) == decimal_checked_div(r.total_cost@, r.filled_size@),
{
    proof {
        lemma_walk_average_price(levels_view(book.asks@), requested_size@);
    }
    if requested_size.le(&Decimal::zero()) {
        return WalkResult::empty(requested_size);
    }
    match walk_levels(&book.asks, requested_size) {
        Some(w) => w,
        None => WalkResult::empty(requested_size),
    }
}


/// A walk consumes at most one level per level of the book.
pub proof fn lemma_walk_consumes_at_most_levels(levels: Seq<LevelView>, st: WalkState)
    requires
        walk_fold(levels, st) is Some,
    ensures
        ({
            let end = walk_fold(levels, st)->0;
            st.3 <= end.3 <= st.3 + levels.len()
        }),
    decreases levels.len(),
{
    if levels.len() == 0 || value_le(st.0, zero_view()) {
    } else if !level_pos(levels[0]) {
        lemma_walk_consumes_at_most_levels(levels.drop_first(), st);
    } else {
        let take = min_view(st.0, levels[0].1);
        let filled = decimal_checked_add(st.1, take)->0;
        let product = decimal_checked_mul(take, levels[0].0)->0;
        let remaining = decimal_checked_sub(st.0, take)->0;
        let cost = decimal_checked_add(st.2, product)->0;
        lemma_walk_consumes_at_most_levels(levels.drop_first(), (remaining, filled, cost, st.3 + 1));
    }
}

/// The walk of a book's asks for a size consumes no more levels than the book has.
pub proof fn lemma_walk_levels_bounded(asks: Seq<LevelView>, requested: DecView)
    requires
        walk_ask_spec(asks, requested) is Some,
    ensures
        walk_ask_spec(asks, requested)->0.consumed_levels <= asks.len(),
        walk_ask_spec(asks, requested)->0.requested_size == requested,
{
    if is_pos(requested) {
        lemma_walk_consumes_at_most_levels(asks, (requested, zero_view(), zero_view(), 0));
    }
}

/// The average price of a walk is its total cost divided by the size it filled (not by
/// the size requested): a walk has an average price exactly when it filled a positive
/// size, and it is then what dividing the cost by the filled size gives. For a positive
/// requested size, the walk is fully filled exactly when it filled at least that size.
pub proof fn lemma_walk_average_price(asks: Seq<LevelView>, requested: DecView)
    requires
        walk_ask_spec(asks, requested) is Some,
    ensures
        ({
            let w = walk_ask_spec(asks, requested)->0;
            &&& w.avg_price is Some <==> is_pos(w.filled_size)
            &&& w.avg_price is Some ==> w.avg_price == decimal_checked_div(w.total_cost, w.filled_size)
            &&& is_pos(requested) ==> w.fully_filled == value_le(requested, w.filled_size)
        }),
{
}

} // verus!
