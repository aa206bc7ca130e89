//! Order books: price levels on both sides of one outcome token.
use vstd::prelude::*;

use crate::decimal::{is_pos, lemma_le_lt_trans, lemma_lt_le_trans, value_le, value_lt, DecView, Decimal};
use crate::num::{sat_sub, sat_sub_spec};
use crate::types::ids::TokenId;

verus! {

/// One price level: (price, size).
pub type LevelView = (DecView, DecView);

#[derive(Debug, Clone, Copy)]
pub struct Level {
    pub price: Decimal,
    pub size: Decimal,
}

impl View for Level {
    type V = LevelView;

    open spec fn view(&self) -> LevelView {
        (self.price@, self.size@)
    }
}

/// Both price and size are strictly positive.
pub open spec fn level_pos(l: LevelView) -> bool {
    is_pos(l.0) && is_pos(l.1)
}

pub open spec fn levels_view(v: Seq<Level>) -> Seq<LevelView> {
    v.map_values(|l: Level| l@)
}

/// Prices never decrease along `s`.
pub open spec fn price_ascending(s: Seq<LevelView>) -> bool {
    forall|i: int, j: int| 0 <= i < j < s.len() ==> value_le(#[trigger] s[i].0, #[trigger] s[j].0)
}

/// Prices never increase along `s`.
pub open spec fn price_descending(s: Seq<LevelView>) -> bool {
    forall|i: int, j: int| 0 <= i < j < s.len() ==> value_le(#[trigger] s[j].0, #[trigger] s[i].0)
}

/// The positive levels of `s`.
pub open spec fn positive_levels(s: Seq<LevelView>) -> Seq<LevelView> {
    s.filter(|l: LevelView| level_pos(l))
}

/// `out` holds exactly the positive levels of `inp`, ordered by price, best first:
/// ascending for asks, descending for bids.
pub open spec fn normalized_side(out: Seq<LevelView>, inp: Seq<LevelView>, ascending: bool) -> bool {
    &&& out.to_multiset() == positive_levels(inp).to_multiset()
    &&& if ascending {
        price_ascending(out)
    } else {
        price_descending(out)
    }
}

/// Which side of a book.
#[derive(Debug, Clone, Copy, PartialEq, Eq, Structural)]
pub enum BookSide {
    Bid,
    Ask,
}

/// The order book of one token.
#[derive(Debug, Clone)]
pub struct Book {
    pub token_id: TokenId,
    pub bids: Vec<Level>,
    pub asks: Vec<Level>,
    pub exchange_ts_ms: Option<i64>,
    pub received_at_ms: i64,
}

/// Age of a book received at `received` as seen at `now`, saturating at the bounds of `i64`.
pub open spec fn age_spec(received: i64, now: i64) -> int {
    sat_sub_spec(now, received)
}

/// No older than `max_age`.
pub open spec fn fresh_spec(received: i64, now: i64, max_age: i64) -> bool {
    age_spec(received, now) <= max_age
}

/// Some ask level is positive.
pub open spec fn has_usable_asks_spec(asks: Seq<LevelView>) -> bool {
    exists|i: int| 0 <= i < asks.len() && level_pos(#[trigger] asks[i])
}

/// Index of the first positive level, if any.
pub open spec fn first_positive(s: Seq<LevelView>) -> Option<int> {
    if exists|i: int| 0 <= i < s.len() && level_pos(#[trigger] s[i]) {
        Some(
            choose|i: int|
                0 <= i < s.len() && level_pos(#[trigger] s[i]) && forall|j: int|
                    0 <= j < i ==> !level_pos(#[trigger] s[j]),
        )
    } else {
        None
    }
}

impl Level {
    pub fn new(price: Decimal, size: Decimal) -> (r: Level)
        ensures
            r@ == (price@, size@),
    {
        Level { price, size }
    }

    /// Price and size both strictly positive.
    pub fn is_positive(&self) -> (r: bool)
        ensures
            r == level_pos(self@),
    {
        let zero = Decimal::zero();
        self.price.gt(&zero) && self.size.gt(&zero)
    }
}

/// A positive level at `k` means some positive level comes first among all positive
/// levels at or before `k`.
proof fn lemma_earliest_positive(s: Seq<LevelView>, k: int)
    requires
        0 <= k < s.len(),
        level_pos(s[k]),
    ensures
        exists|i: int|
            0 <= i < s.len() && level_pos(#[trigger] s[i]) && forall|j: int|
                0 <= j < i ==> !level_pos(#[trigger] s[j]),
    decreases k,
{
    if exists|j: int| 0 <= j < k && level_pos(#[trigger] s[j]) {
        let j = choose|j: int| 0 <= j < k && level_pos(#[trigger] s[j]);
        lemma_earliest_positive(s, j);
    } else {
        assert(forall|j: int| 0 <= j < k ==> !level_pos(#[trigger] s[j]));
    }
}

/// The first positive level is positive and every level before it is not; where there
/// is none, no level is positive.
pub proof fn lemma_first_positive(s: Seq<LevelView>)
    ensures
        match first_positive(s) {
            Some(i) => 0 <= i < s.len() && level_pos(s[i]) && forall|j: int|
                0 <= j < i ==> !level_pos(#[trigger] s[j]),
            None => forall|i: int| 0 <= i < s.len() ==> !level_pos(#[trigger] s[i]),
        },
{
    if exists|i: int| 0 <= i < s.len() && level_pos(#[trigger] s[i]) {
        let k = choose|i: int| 0 <= i < s.len() && level_pos(#[trigger] s[i]);
        lemma_earliest_positive(s, k);
    }
}

/// Keeping the positive levels twice keeps the same levels.
pub proof fn lemma_positive_idempotent(s: Seq<LevelView>)
    ensures
        positive_levels(positive_levels(s)) == positive_levels(s),
    decreases s.len(),
{
    reveal_with_fuel(Seq::filter, 1);
    if s.len() > 0 {
        lemma_positive_idempotent(s.drop_last());
        let sub = positive_levels(s.drop_last());
        if level_pos(s.last()) {
            assert(positive_levels(s) =~= sub.push(s.last()));
            sub.lemma_filter_push(s.last(), |l: LevelView| level_pos(l));
            assert(positive_levels(sub.push(s.last())) =~= positive_levels(sub).push(s.last()));
        } else {
            assert(positive_levels(s) =~= sub);
        }
    } else {
        assert(positive_levels(s) =~= s);
    }
}

/// Keeps the positive levels of `levels`, in their order.
pub fn retain_positive(levels: Vec<Level>) -> (r: Vec<Level>)
    ensures
        levels_view(r@) == positive_levels(levels_view(levels@)),
{
    let mut out: Vec<Level> = Vec::new();
    let mut i: usize = 0;
    while i < levels.len()
        invariant
            i <= levels.len(),
            levels_view(out@) == positive_levels(levels_view(levels@.take(i as int))),
        decreases levels.len() - i,
    {
        let l = levels[i];
        proof {
            assert(levels_view(levels@.take(i + 1)) =~= levels_view(levels@.take(i as int)).push(
                l@,
            ));
            levels_view(levels@.take(i as int)).lemma_filter_push(l@, |l: LevelView| level_pos(l));
        }
        if l.is_positive() {
            out.push(l);
            assert(levels_view(out@) =~= levels_view(out@.drop_last()).push(l@));
        }
        i = i + 1;
    }
    assert(levels@.take(levels.len() as int) =~= levels@);
    out
}

/// `a` goes strictly before `b`: a lower price when ascending, a higher one otherwise.
pub open spec fn goes_before(a: LevelView, b: LevelView, ascending: bool) -> bool {
    if ascending {
        value_lt(a.0, b.0)
    } else {
        value_lt(b.0, a.0)
    }
}

pub open spec fn sorted_side(s: Seq<LevelView>, ascending: bool) -> bool {
    if ascending {
        price_ascending(s)
    } else {
        price_descending(s)
    }
}

fn level_goes_before(a: &Level, b: &Level, ascending: bool) -> (r: bool)
    ensures
        r == goes_before(a@, b@, ascending),
{
    if ascending {
        a.price.lt(&b.price)
    } else {
        b.price.lt(&a.price)
    }
}

/// Sorts levels by price with an insertion sort that keeps levels of equal price in
/// their order.
pub fn sort_levels(levels: Vec<Level>, ascending: bool) -> (r: Vec<Level>)
    ensures
        levels_view(r@).to_multiset() == levels_view(levels@).to_multiset(),
        sorted_side(levels_view(r@), ascending),
{
    broadcast use vstd::seq_lib::to_multiset_insert;

    let mut out: Vec<Level> = Vec::new();
    let mut k: usize = 0;
    assert(levels_view(out@) =~= levels_view(levels@.take(0)));
    while k < levels.len()
        invariant
            k <= levels.len(),
            levels_view(out@).to_multiset() == levels_view(levels@.take(k as int)).to_multiset(),
            sorted_side(levels_view(out@), ascending),
        decreases levels.len() - k,
    {
        let x = levels[k];
        let mut p: usize = 0;
        while p < out.len() && !level_goes_before(&x, &out[p], ascending)
            invariant
                p <= out.len(),
                forall|i: int| 0 <= i < p ==> !goes_before(x@, #[trigger] out@[i]@, ascending),
            decreases out.len() - p,
        {
            p = p + 1;
        }
        let ghost old_out = levels_view(out@);
        proof {
            if p < out.len() {
                assert(goes_before(x@, out@[p as int]@, ascending));
            }
        }
        out.insert(p, x);
        proof {
            let nv = levels_view(out@);
            assert(nv =~= old_out.insert(p as int, x@));
            assert(levels_view(levels@.take(k + 1)) =~= levels_view(levels@.take(k as int)).push(
                x@,
            ));
            vstd::seq_lib::to_multiset_build(levels_view(levels@.take(k as int)), x@);
            vstd::seq_lib::to_multiset_insert(old_out, p as int, x@);
            assert(nv.to_multiset() == levels_view(levels@.take(k + 1)).to_multiset());
            assert forall|i: int, j: int| 0 <= i < j < nv.len() implies (if ascending {
                value_le(#[trigger] nv[i].0, #[trigger] nv[j].0)
            } else {
                value_le(nv[j].0, nv[i].0)
            }) by {
                if i < p && j == p {
                    assert(!goes_before(x@, old_out[i], ascending));
                } else if i == p && j > p {
                    assert(goes_before(x@, old_out[p as int], ascending));
                    if ascending {
                        if j - 1 > p {
                            assert(value_le(old_out[p as int].0, old_out[j - 1].0));
                        }
                        if j - 1 > p {
                            lemma_lt_le_trans(x@.0, old_out[p as int].0, old_out[j - 1].0);
                        }
                    } else {
                        if j - 1 > p {
                            assert(value_le(old_out[j - 1].0, old_out[p as int].0));
                            lemma_le_lt_trans(old_out[j - 1].0, old_out[p as int].0, x@.0);
                        }
                    }
                } else if i < p && j > p {
                    assert(nv[i] == old_out[i]);
                    assert(nv[j] == old_out[j - 1]);
                } else if i > p {
                    assert(nv[i] == old_out[i - 1]);
                    assert(nv[j] == old_out[j - 1]);
                } else {
                    assert(nv[i] == old_out[i]);
                    assert(nv[j] == old_out[j]);
                }
            }
        }
        k = k + 1;
    }
    assert(levels@.take(levels.len() as int) =~= levels@);
    out
}

impl Book {
    /// A book as received; `normalize` puts it in canonical form.
    pub fn new(
        token_id: TokenId,
        bids: Vec<Level>,
        asks: Vec<Level>,
        exchange_ts_ms: Option<i64>,
        received_at_ms: i64,
    ) -> (r: Book)
        ensures
            r.token_id@ == token_id@,
            r.bids@ == bids@,
            r.asks@ == asks@,
            r.exchange_ts_ms == exchange_ts_ms,
            r.received_at_ms == received_at_ms,
    {
        Book { token_id, bids, asks, exchange_ts_ms, received_at_ms }
    }

    /// Drops levels that are not strictly positive and orders each side best first:
    /// bids by descending price, asks by ascending price.
    pub fn normalize(&mut self)
        ensures
            final(self).token_id == old(self).token_id,
            final(self).exchange_ts_ms == old(self).exchange_ts_ms,
            final(self).received_at_ms == old(self).received_at_ms,
            normalized_side(levels_view(final(self).bids@), levels_view(old(self).bids@), false),
            normalized_side(levels_view(final(self).asks@), levels_view(old(self).asks@), true),
    {
        let mut bids: Vec<Level> = Vec::new();
        let mut asks: Vec<Level> = Vec::new();
        std::mem::swap(&mut bids, &mut self.bids);
        std::mem::swap(&mut asks, &mut self.asks);
        self.bids = sort_levels(retain_positive(bids), false);
        self.asks = sort_levels(retain_positive(asks), true);
    }

    /// Milliseconds since the book was received, saturating.
    pub fn age_ms(&self, now_ms: i64) -> (r: i64)
        ensures
            r as int == age_spec(self.received_at_ms, now_ms),
    {
        sat_sub(now_ms, self.received_at_ms)
    }

    /// Received no more than `max_book_age_ms` ago.
    pub fn is_fresh(&self, now_ms: i64, max_book_age_ms: i64) -> (r: bool)
        ensures
            r == fresh_spec(self.received_at_ms, now_ms, max_book_age_ms),
    {
        self.age_ms(now_ms) <= max_book_age_ms
    }

    /// Received more than `max_book_age_ms` ago.
    pub fn is_stale(&self, now_ms: i64, max_book_age_ms: i64) -> (r: bool)
        ensures
            r == !fresh_spec(self.received_at_ms, now_ms, max_book_age_ms),
    {
        !self.is_fresh(now_ms, max_book_age_ms)
    }

    /// Some ask level has positive price and size.
    pub fn has_usable_asks(&self) -> (r: bool)
        ensures
            r == has_usable_asks_spec(levels_view(self.asks@)),
    {
        let mut i: usize = 0;
        while i < self.asks.len()
            invariant
                i <= self.asks.len(),
                forall|j: int| 0 <= j < i ==> !level_pos(#[trigger] self.asks@[j]@),
            decreases self.asks.len() - i,
        {
            if self.asks[i].is_positive() {
                assert(level_pos(levels_view(self.asks@)[i as int]));
                return true;
            }
            i = i + 1;
        }
        assert forall|j: int| 0 <= j < self.asks@.len() implies !level_pos(
            #[trigger] levels_view(self.asks@)[j],
        ) by {
            assert(levels_view(self.asks@)[j] == self.asks@[j]@);
        }
        false
    }

    /// Fresh and with a usable ask.
    pub fn is_usable(&self, now_ms: i64, max_book_age_ms: i64) -> (r: bool)
        ensures
            r == (has_usable_asks_spec(levels_view(self.asks@)) && fresh_spec(
                self.received_at_ms,
                now_ms,
                max_book_age_ms,
            )),
    {
        self.has_usable_asks() && self.is_fresh(now_ms, max_book_age_ms)
    }

    /// The first positive ask level: the best ask of a normalized book.
    pub fn usable_ask_or_none(&self) -> (r: Option<&Level>)
        ensures
            match first_positive(levels_view(self.asks@)) {
                Some(i) => r is Some && r->0@ == levels_view(self.asks@)[i],
                None => r is None,
            },
    {
        let ghost s = levels_view(self.asks@);
        let mut i: usize = 0;
        while i < self.asks.len()
            invariant
                i <= self.asks.len(),
                s == levels_view(self.asks@),
                forall|j: int| 0 <= j < i ==> !level_pos(#[trigger] s[j]),
            decreases self.asks.len() - i,
        {
            if self.asks[i].is_positive() {
                proof {
                    assert(level_pos(s[i as int]));
                    let c = choose|c: int|
                        0 <= c < s.len() && level_pos(#[trigger] s[c]) && forall|j: int|
                            0 <= j < c ==> !level_pos(#[trigger] s[j]);
                    assert(c == i) by {
                        if c < i {
                        } else if c > i {
                            assert(!level_pos(s[i as int]));
                        }
                    }
                }
                return Some(&self.asks[i]);
            }
            i = i + 1;
        }
        None
    }

    /// A copy with the same id, levels and times.
    pub fn duplicate(&self) -> (r: Book)
        ensures
            r.token_id@ == self.token_id@,
            r.bids@ == self.bids@,
            r.asks@ == self.asks@,
            r.exchange_ts_ms == self.exchange_ts_ms,
            r.received_at_ms == self.received_at_ms,
    {
        Book {
            token_id: self.token_id.duplicate(),
            bids: copy_levels(&self.bids),
            asks: copy_levels(&self.asks),
            exchange_ts_ms: self.exchange_ts_ms,
            received_at_ms: self.received_at_ms,
        }
    }
}

/// A copy of a list of levels.
pub fn copy_levels(v: &Vec<Level>) -> (r: Vec<Level>)
    ensures
        r@ == v@,
{
    let mut out: Vec<Level> = Vec::new();
    let mut i: usize = 0;
    while i < v.len()
        invariant
            i <= v.len(),
            out@ == v@.take(i as int),
        decreases v.len() - i,
    {
        out.push(v[i]);
        assert(out@ =~= v@.take(i + 1));
        i = i + 1;
    }
    assert(v@.take(v.len() as int) =~= v@);
    out
}

} // verus!
