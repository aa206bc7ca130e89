//! Pairs of markets in a group with different timeframes, the shorter first.
use vstd::prelude::*;

use crate::num::{div_i64, div_toward_zero};
use crate::types::timeframe::{timeframe_secs, Timeframe};

use super::grouping::{MarketGroup, RelationMarket};

verus! {

/// A shorter and a longer market.
#[derive(Debug, Clone)]
pub struct MarketPair<M> {
    pub short: M,
    pub long: M,
}

/// Whole seconds from `now_ms` to `end_ms`, rounded toward zero, and never below zero.
pub open spec fn pair_seconds_spec(end_ms: i64, now_ms: i64) -> int {
    let s = div_toward_zero(end_ms - now_ms, 1000);
    if s > 0 {
        s
    } else {
        0
    }
}

impl<M: RelationMarket> MarketPair<M> {
    /// The timeframes of the short and the long market.
    pub fn pair_type(&self) -> (r: (Timeframe, Timeframe))
        ensures
            r == (self.short.timeframe_spec(), self.long.timeframe_spec()),
    {
        (self.short.timeframe(), self.long.timeframe())
    }

    pub fn same_asset(&self) -> (r: bool)
        ensures
            r == (self.short.asset_spec() == self.long.asset_spec()),
    {
        self.short.asset() == self.long.asset()
    }

    pub fn same_end_ms(&self) -> (r: bool)
        ensures
            r == (self.short.end_ms_spec() == self.long.end_ms_spec()),
    {
        self.short.end_ms() == self.long.end_ms()
    }

    pub fn different_timeframe(&self) -> (r: bool)
        ensures
            r == (self.short.timeframe_spec() != self.long.timeframe_spec()),
    {
        self.short.timeframe() != self.long.timeframe()
    }

    /// Whole seconds until the short market ends, not below zero.
    pub fn seconds_to_end(&self, now_ms: i64) -> (r: i64)
        requires
            i64::MIN <= self.short.end_ms_spec() - now_ms <= i64::MAX,
        ensures
            r as int == pair_seconds_spec(self.short.end_ms_spec(), now_ms),
    {
        let s = div_i64(self.short.end_ms() - now_ms, 1000);
        if s > 0 {
            s
        } else {
            0
        }
    }
}

/// Length of the timeframe in seconds.
pub fn timeframe_seconds(timeframe: Timeframe) -> (r: u64)
    ensures
        r as nat == timeframe_secs(timeframe),
{
    match timeframe {
        Timeframe::FiveMin => 5 * 60,
        Timeframe::FifteenMin => 15 * 60,
        Timeframe::OneHour => 60 * 60,
        Timeframe::FourHour => 4 * 60 * 60,
        Timeframe::OneDay => 24 * 60 * 60,
    }
}

/// The market has timeframe `tf`.
pub open spec fn has_timeframe<M: RelationMarket>(tf: Timeframe) -> spec_fn(M) -> bool {
    |m: M| m.timeframe_spec() == tf
}

/// The markets of `s` with timeframe `tf`, in order.
pub open spec fn of_timeframe<M: RelationMarket>(s: Seq<M>, tf: Timeframe) -> Seq<M> {
    s.filter(has_timeframe(tf))
}

/// `s` stably sorted by timeframe length.
pub open spec fn by_timeframe<M: RelationMarket>(s: Seq<M>) -> Seq<M> {
    of_timeframe(s, Timeframe::FiveMin) + of_timeframe(s, Timeframe::FifteenMin) + of_timeframe(s, Timeframe::OneHour)
        + of_timeframe(s, Timeframe::FourHour) + of_timeframe(s, Timeframe::OneDay)
}

/// Two markets that form a pair: same asset, same end, different timeframes.
pub open spec fn compatible<M: RelationMarket>(a: M, b: M) -> bool {
    a.asset_spec() == b.asset_spec() && a.end_ms_spec() == b.end_ms_spec() && a.timeframe_spec()
        != b.timeframe_spec()
}

/// The pairs of `a` with each compatible market of `rest`, in order.
pub open spec fn row_pairs<M: RelationMarket>(a: M, rest: Seq<M>) -> Seq<MarketPair<M>> {
    rest.filter(|b: M| compatible(a, b)).map_values(|b: M| MarketPair { short: a, long: b })
}

/// The pairs whose shorter market is among the first `i` of `s`.
pub open spec fn pairs_upto<M: RelationMarket>(s: Seq<M>, i: nat) -> Seq<MarketPair<M>>
    decreases i,
{
    if i == 0 {
        Seq::empty()
    } else {
        pairs_upto(s, (i - 1) as nat) + row_pairs(s[i - 1], s.skip(i as int))
    }
}

/// All pairs of the group's markets sorted by timeframe: each market with every later
/// compatible one.
pub open spec fn timeframe_pairs_spec<M: RelationMarket>(s: Seq<M>) -> Seq<MarketPair<M>> {
    pairs_upto(by_timeframe(s), by_timeframe(s).len())
}

fn append_of_timeframe<M: RelationMarket>(out: &mut Vec<M>, ms: &Vec<M>, tf: Timeframe)
    ensures
        final(out)@ == old(out)@ + of_timeframe(ms@, tf),
{
    let ghost pred = has_timeframe::<M>(tf);
    let ghost start = out@;
    let mut i: usize = 0;
    assert(ms@.take(0) =~= Seq::<M>::empty());
    assert(start =~= start + ms@.take(0).filter(pred));
    while i < ms.len()
        invariant
            i <= ms.len(),
            pred == has_timeframe::<M>(tf),
            start == old(out)@,
            out@ == start + ms@.take(i as int).filter(pred),
        decreases ms.len() - i,
    {
        let m = &ms[i];
        proof {
            assert(ms@.take(i + 1) =~= ms@.take(i as int).push(*m));
            ms@.take(i as int).lemma_filter_push(*m, pred);
        }
        if m.timeframe() == tf {
            out.push(m.copy_market());
            assert(out@ =~= start + ms@.take(i + 1).filter(pred));
        }
        i = i + 1;
    }
    assert(ms@.take(i as int) =~= ms@);
}

fn sort_by_timeframe<M: RelationMarket>(ms: &Vec<M>) -> (r: Vec<M>)
    ensures
        r@ == by_timeframe(ms@),
{
    let mut out: Vec<M> = Vec::new();
    append_of_timeframe(&mut out, ms, Timeframe::FiveMin);
    append_of_timeframe(&mut out, ms, Timeframe::FifteenMin);
    append_of_timeframe(&mut out, ms, Timeframe::OneHour);
    append_of_timeframe(&mut out, ms, Timeframe::FourHour);
    append_of_timeframe(&mut out, ms, Timeframe::OneDay);
    assert(out@ =~= by_timeframe(ms@));
    out
}

fn compatible_markets<M: RelationMarket>(a: &M, b: &M) -> (r: bool)
    ensures
        r == compatible(*a, *b),
{
    a.asset() == b.asset() && a.end_ms() == b.end_ms() && a.timeframe() != b.timeframe()
}

/// Every pair of the group's markets with the same asset and end and different
/// timeframes, the shorter timeframe first; markets are taken in timeframe order.
pub fn all_timeframe_pairs<M: RelationMarket>(group: &MarketGroup<M>) -> (r: Vec<MarketPair<M>>)
    ensures
        r@ == timeframe_pairs_spec(group.markets@),
{
    let sorted = sort_by_timeframe(&group.markets);
    let n = sorted.len();
    let mut pairs: Vec<MarketPair<M>> = Vec::new();
    let mut i: usize = 0;
    while i < n
        invariant
            i <= n,
            n == sorted@.len(),
            pairs@ == pairs_upto(sorted@, i as nat),
        decreases n - i,
    {
        let ghost a = sorted@[i as int];
        let ghost pred = |b: M| compatible(a, b);
        let ghost mk = |b: M| MarketPair { short: a, long: b };
        let ghost base = pairs@;
        let mut j: usize = i + 1;
        assert(sorted@.subrange(i + 1, j as int) =~= Seq::<M>::empty());
        assert(pairs@ =~= base + sorted@.subrange(i + 1, j as int).filter(pred).map_values(mk));
        while j < n
            invariant
                i < j <= n,
                n == sorted@.len(),
                a == sorted@[i as int],
                pred == (|b: M| compatible(a, b)),
                mk == (|b: M| MarketPair { short: a, long: b }),
                pairs@ == base + sorted@.subrange(i + 1, j as int).filter(pred).map_values(mk),
            decreases n - j,
        {
            let ghost sub = sorted@.subrange(i + 1, j as int);
            proof {
                assert(sorted@.subrange(i + 1, j + 1) =~= sub.push(sorted@[j as int]));
                sub.lemma_filter_push(sorted@[j as int], pred);
            }
            if compatible_markets(&sorted[i], &sorted[j]) {
                pairs.push(MarketPair { short: sorted[i].copy_market(), long: sorted[j].copy_market() });
                assert(sub.filter(pred).push(sorted@[j as int]).map_values(mk) =~= sub.filter(pred).map_values(
                    mk,
                ).push(mk(sorted@[j as int])));
            }
            j = j + 1;
        }
        assert(sorted@.subrange(i + 1, n as int) =~= sorted@.skip(i + 1));
        i = i + 1;
    }
    pairs
}

proof fn lemma_of_timeframe_all<M: RelationMarket>(s: Seq<M>, tf: Timeframe, k: int)
    requires
        0 <= k < of_timeframe(s, tf).len(),
    ensures
        of_timeframe(s, tf)[k].timeframe_spec() == tf,
{
    s.filter_lemma(has_timeframe::<M>(tf));
}

/// Sorting by timeframe puts markets in nondecreasing order of timeframe length.
pub proof fn lemma_by_timeframe_sorted<M: RelationMarket>(s: Seq<M>, x: int, y: int)
    requires
        0 <= x < y < by_timeframe(s).len(),
    ensures
        timeframe_secs(by_timeframe(s)[x].timeframe_spec()) <= timeframe_secs(by_timeframe(s)[y].timeframe_spec()),
{
    let a = of_timeframe(s, Timeframe::FiveMin);
    let b = of_timeframe(s, Timeframe::FifteenMin);
    let c = of_timeframe(s, Timeframe::OneHour);
    let d = of_timeframe(s, Timeframe::FourHour);
    let e = of_timeframe(s, Timeframe::OneDay);
    let t = by_timeframe(s);
    assert(t =~= a + b + c + d + e);
    assert forall|z: int| 0 <= z < t.len() implies timeframe_secs(#[trigger] t[z].timeframe_spec()) == (if z < a.len() {
        300nat
    } else if z < a.len() + b.len() {
        900nat
    } else if z < a.len() + b.len() + c.len() {
        3600nat
    } else if z < a.len() + b.len() + c.len() + d.len() {
        14400nat
    } else {
        86400nat
    }) by {
        if z < a.len() {
            lemma_of_timeframe_all(s, Timeframe::FiveMin, z);
        } else if z < a.len() + b.len() {
            lemma_of_timeframe_all(s, Timeframe::FifteenMin, z - a.len());
        } else if z < a.len() + b.len() + c.len() {
            lemma_of_timeframe_all(s, Timeframe::OneHour, z - a.len() - b.len());
        } else if z < a.len() + b.len() + c.len() + d.len() {
            lemma_of_timeframe_all(s, Timeframe::FourHour, z - a.len() - b.len() - c.len());
        } else {
            lemma_of_timeframe_all(s, Timeframe::OneDay, z - a.len() - b.len() - c.len() - d.len());
        }
    }
    assert(timeframe_secs(t[x].timeframe_spec()) == timeframe_secs(t[x].timeframe_spec()));
    assert(timeframe_secs(t[y].timeframe_spec()) == timeframe_secs(t[y].timeframe_spec()));
}

proof fn lemma_pairs_upto_shorter<M: RelationMarket>(s: Seq<M>, i: nat, k: int)
    requires
        i <= s.len(),
        forall|x: int, y: int|
            0 <= x < y < s.len() ==> timeframe_secs(#[trigger] s[x].timeframe_spec()) <= timeframe_secs(
                #[trigger] s[y].timeframe_spec(),
            ),
        0 <= k < pairs_upto(s, i).len(),
    ensures
        timeframe_secs(pairs_upto(s, i)[k].short.timeframe_spec()) < timeframe_secs(
            pairs_upto(s, i)[k].long.timeframe_spec(),
        ),
        pairs_upto(s, i)[k].short.asset_spec() == pairs_upto(s, i)[k].long.asset_spec(),
        pairs_upto(s, i)[k].short.end_ms_spec() == pairs_upto(s, i)[k].long.end_ms_spec(),
    decreases i,
{
    if i > 0 {
        let prev = pairs_upto(s, (i - 1) as nat);
        let a = s[i - 1];
        let rest = s.skip(i as int);
        let pred = |b: M| compatible(a, b);
        let f = rest.filter(pred);
        let row = row_pairs(a, rest);
        assert(pairs_upto(s, i) == prev + row);
        if k < prev.len() {
            lemma_pairs_upto_shorter(s, (i - 1) as nat, k);
        } else {
            let q = k - prev.len();
            assert(row[q] == MarketPair { short: a, long: f[q] });
            rest.filter_lemma(pred);
            assert(compatible(a, f[q]));
            assert(f.contains(f[q]));
            rest.lemma_filter_contains_rev(pred, f[q]);
            let z = choose|z: int| 0 <= z < rest.len() && rest[z] == f[q];
            assert(rest[z] == s[i + z]);
            assert(timeframe_secs(s[i - 1].timeframe_spec()) <= timeframe_secs(s[i + z].timeframe_spec()));
            assert(a.timeframe_spec() != f[q].timeframe_spec());
        }
    }
}

/// In every pair, the short market's timeframe is strictly shorter than the long one's,
/// and both share asset and end time.
pub proof fn lemma_pairs_short_then_long<M: RelationMarket>(s: Seq<M>, k: int)
    requires
        0 <= k < timeframe_pairs_spec(s).len(),
    ensures
        timeframe_secs(timeframe_pairs_spec(s)[k].short.timeframe_spec()) < timeframe_secs(
            timeframe_pairs_spec(s)[k].long.timeframe_spec(),
        ),
        timeframe_pairs_spec(s)[k].short.asset_spec() == timeframe_pairs_spec(s)[k].long.asset_spec(),
        timeframe_pairs_spec(s)[k].short.end_ms_spec() == timeframe_pairs_spec(s)[k].long.end_ms_spec(),
{
    let t = by_timeframe(s);
    assert forall|x: int, y: int| 0 <= x < y < t.len() implies timeframe_secs(#[trigger] t[x].timeframe_spec())
        <= timeframe_secs(#[trigger] t[y].timeframe_spec()) by {
        lemma_by_timeframe_sorted(s, x, y);
    }
    lemma_pairs_upto_shorter(t, t.len(), k);
}

} // verus!
