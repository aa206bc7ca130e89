//! Sizing a two-leg package: the average cost of filling a size on both legs, and the
//! largest size whose average package cost stays under the execution threshold.
use vstd::prelude::*;

use crate::decimal::{
    decimal_checked_add, decimal_checked_mul, decimal_checked_sub, is_pos, lemma_le_trans, max_view, one_view,
    value_eq, value_le, value_lt, zero_view, DecView, Decimal,
};
use crate::types::book::{level_pos, levels_view, Book, Level, LevelView};

use super::result::{empty_depth, DepthLeg, DepthModel, DepthResult, DepthStatus};
use super::walker::{try_walk_ask_book, walk_ask_spec, walk_usable, WalkModel, WalkResult};

verus! {

#[derive(Debug, Clone)]
pub struct DepthSizingConfig {
    pub execution_buffer: Decimal,
    pub min_depth_confirmed_size: Decimal,
    pub min_gross_edge: Decimal,
}

/// Sizing configuration as plain values.
pub struct SizingModel {
    pub execution_buffer: DecView,
    pub min_depth_confirmed_size: DecView,
    pub min_gross_edge: DecView,
}

impl View for DepthSizingConfig {
    type V = SizingModel;

    open spec fn view(&self) -> SizingModel {
        SizingModel {
            execution_buffer: self.execution_buffer@,
            min_depth_confirmed_size: self.min_depth_confirmed_size@,
            min_gross_edge: self.min_gross_edge@,
        }
    }
}

/// `1 - execution_buffer`, as the decimal subtraction gives it.
pub open spec fn threshold_spec(cfg: SizingModel) -> Option<DecView> {
    decimal_checked_sub(one_view(), cfg.execution_buffer)
}

/// The leg that limited the fill.
pub open spec fn limiting_leg_spec(s: WalkModel, l: WalkModel) -> DepthLeg {
    if s.fully_filled && l.fully_filled {
        DepthLeg::Neither
    } else if !s.fully_filled && l.fully_filled {
        DepthLeg::Short
    } else if s.fully_filled && !l.fully_filled {
        DepthLeg::Long
    } else if value_lt(s.filled_size, l.filled_size) {
        DepthLeg::Short
    } else if value_lt(l.filled_size, s.filled_size) {
        DepthLeg::Long
    } else {
        DepthLeg::Both
    }
}

/// The result for a size that one of the legs cannot fill.
pub open spec fn insufficient_spec(req: DecView, s: WalkModel, l: WalkModel) -> DepthModel {
    DepthModel {
        status: DepthStatus::InsufficientDepth,
        requested_size: req,
        max_size_under_threshold: zero_view(),
        short_avg_cost: s.avg_price,
        long_avg_cost: l.avg_price,
        avg_package_cost: None,
        gross_edge: zero_view(),
        capital_required: zero_view(),
        limiting_leg: limiting_leg_spec(s, l),
        consumed_levels_short: s.consumed_levels,
        consumed_levels_long: l.consumed_levels,
    }
}

/// The result for a size both legs can fill, given the package cost, capital, gross
/// edge and execution threshold that the decimal operations gave.
pub open spec fn filled_spec(
    req: DecView,
    s: WalkModel,
    l: WalkModel,
    pkg: DecView,
    capital: DecView,
    gross: DecView,
    threshold: DecView,
    cfg: SizingModel,
) -> DepthModel {
    let passes_cost = value_lt(pkg, threshold);
    let passes_size = value_le(cfg.min_depth_confirmed_size, req);
    let passes_edge = value_le(cfg.min_gross_edge, gross);
    DepthModel {
        status: if passes_cost && passes_size && passes_edge {
            DepthStatus::DepthConfirmedUnderOne
        } else if value_lt(pkg, one_view()) {
            DepthStatus::TopBookOnlyUnderOne
        } else {
            DepthStatus::InsufficientDepth
        },
        requested_size: req,
        max_size_under_threshold: if passes_cost {
            req
        } else {
            zero_view()
        },
        short_avg_cost: s.avg_price,
        long_avg_cost: l.avg_price,
        avg_package_cost: Some(pkg),
        gross_edge: max_view(gross, zero_view()),
        capital_required: capital,
        limiting_leg: limiting_leg_spec(s, l),
        consumed_levels_short: s.consumed_levels,
        consumed_levels_long: l.consumed_levels,
    }
}

/// The depth result for one requested size; `None` where a decimal operation overflows.
///
/// Both legs are walked for the size. Where both fill, the package cost is the sum of
/// their average prices, the capital is size times cost, the gross edge is size times
/// one minus cost, and the result is depth-confirmed when the cost is under the
/// execution threshold, the size reaches the minimum, and the edge reaches its minimum.
pub open spec fn depth_for_size_spec(
    short: Seq<LevelView>,
    long: Seq<LevelView>,
    req: DecView,
    cfg: SizingModel,
) -> Option<DepthModel> {
    if !is_pos(req) {
        Some(empty_depth(DepthStatus::InvalidTargetSize, req))
    } else {
        match (walk_ask_spec(short, req), walk_ask_spec(long, req)) {
            (Some(s), Some(l)) => if !walk_usable(s) || !walk_usable(l) {
                Some(insufficient_spec(req, s, l))
            } else {
                match decimal_checked_add(s.avg_price->0, l.avg_price->0) {
                    Some(pkg) => match (
                        decimal_checked_mul(req, pkg),
                        decimal_checked_sub(one_view(), pkg),
                    ) {
                        (Some(capital), Some(rest)) => match (
                            decimal_checked_mul(req, rest),
                            threshold_spec(cfg),
                        ) {
                            (Some(gross), Some(thr)) => Some(
                                filled_spec(req, s, l, pkg, capital, gross, thr, cfg),
                            ),
                            _ => None,
                        },
                        _ => None,
                    },
                    None => None,
                }
            },
            _ => None,
        }
    }
}

impl DepthSizingConfig {
    /// `1 - execution_buffer`, or `None` where the subtraction overflows.
    pub fn try_execution_threshold(&self) -> (r: Option<Decimal>)
        ensures
            match threshold_spec(self@) {
                Some(t) => r is Some && r->0@ == t,
                None => r is None,
            },
    {
        if Decimal::one().checked_sub(&self.execution_buffer).is_some() {
            Some(self.execution_threshold())
        } else {
            None
        }
    }

    /// `1 - execution_buffer`.
    pub fn execution_threshold(&self) -> (r: Decimal)
        requires
            threshold_spec(self@) is Some,
        ensures
            threshold_spec(self@) == Some(r@),
    {
        match Decimal::one().checked_sub(&self.execution_buffer) {
            Some(t) => t,
            None => Decimal::zero(),
        }
    }
}

fn limiting_leg_for_walks(short_walk: &WalkResult, long_walk: &WalkResult) -> (r: DepthLeg)
    ensures
        r == limiting_leg_spec(short_walk@, long_walk@),
{
    match (short_walk.fully_filled, long_walk.fully_filled) {
        (true, true) => DepthLeg::Neither,
        (false, true) => DepthLeg::Short,
        (true, false) => DepthLeg::Long,
        (false, false) => {
            if short_walk.filled_size.lt(&long_walk.filled_size) {
                DepthLeg::Short
            } else if long_walk.filled_size.lt(&short_walk.filled_size) {
                DepthLeg::Long
            } else {
                DepthLeg::Both
            }
        },
    }
}

fn insufficient_depth_result(requested_size: Decimal, short_walk: WalkResult, long_walk: WalkResult) -> (r: DepthResult)
    ensures
        r@ == insufficient_spec(requested_size@, short_walk@, long_walk@),
{
    let limiting_leg = limiting_leg_for_walks(&short_walk, &long_walk);
    DepthResult::new(
        DepthStatus::InsufficientDepth,
        requested_size,
        Decimal::zero(),
        short_walk.avg_price,
        long_walk.avg_price,
        None,
        Decimal::zero(),
        Decimal::zero(),
        limiting_leg,
        short_walk.consumed_levels,
        long_walk.consumed_levels,
    )
}

/// The depth result for one size; `None` where a decimal operation overflows.
fn depth_for_size(
    short_book: &Book,
    long_book: &Book,
    requested_size: Decimal,
    config: &DepthSizingConfig,
) -> (r: Option<DepthResult>)
    ensures
        match depth_for_size_spec(
            levels_view(short_book.asks@),
            levels_view(long_book.asks@),
            requested_size@,
            config@,
        ) {
            Some(d) => r is Some && r->0@ == d,
            None => r is None,
        },
{
    let zero = Decimal::zero();
    let one = Decimal::one();
    if requested_size.le(&zero) {
        return Some(DepthResult::invalid_target_size(requested_size));
    }
    let short_walk = match try_walk_ask_book(short_book, requested_size) {
        Some(w) => w,
        None => return None,
    };
    let long_walk = match try_walk_ask_book(long_book, requested_size) {
        Some(w) => w,
        None => return None,
    };
    if !short_walk.is_usable() || !long_walk.is_usable() {
        return Some(insufficient_depth_result(requested_size, short_walk, long_walk));
    }
    let short_avg = match short_walk.avg_price {
        Some(v) => v,
        None => return None,
    };
    let long_avg = match long_walk.avg_price {
        Some(v) => v,
        None => return None,
    };
    let avg_package_cost = match short_avg.checked_add(&long_avg) {
        Some(v) => v,
        None => return None,
    };
    let capital_required = match requested_size.checked_mul(&avg_package_cost) {
        Some(v) => v,
        None => return None,
    };
    let rest = match one.checked_sub(&avg_package_cost) {
        Some(v) => v,
        None => return None,
    };
    let gross_edge = match requested_size.checked_mul(&rest) {
        Some(v) => v,
        None => return None,
    };
    let threshold = match config.try_execution_threshold() {
        Some(v) => v,
        None => return None,
    };
    let passes_cost = avg_package_cost.lt(&threshold);
    let passes_size = requested_size.ge(&config.min_depth_confirmed_size);
    let passes_edge = gross_edge.ge(&config.min_gross_edge);
    let status = if passes_cost && passes_size && passes_edge {
        DepthStatus::DepthConfirmedUnderOne
    } else if avg_package_cost.lt(&one) {
        DepthStatus::TopBookOnlyUnderOne
    } else {
        DepthStatus::InsufficientDepth
    };
    let limiting_leg = limiting_leg_for_walks(&short_walk, &long_walk);
    Some(
        DepthResult::new(
            status,
            requested_size,
            if passes_cost {
                requested_size
            } else {
                zero
            },
            Some(short_avg),
            Some(long_avg),
            Some(avg_package_cost),
            gross_edge.max(zero),
            capital_required,
            limiting_leg,
            short_walk.consumed_levels,
            long_walk.consumed_levels,
        ),
    )
}

/// The depth result for `requested_size`, or `None` where a decimal operation
/// overflows.
pub fn try_calculate_depth_for_size(
    short_book: &Book,
    long_book: &Book,
    requested_size: Decimal,
    config: &DepthSizingConfig,
) -> (r: Option<DepthResult>)
    ensures
        match depth_for_size_spec(
            levels_view(short_book.asks@),
            levels_view(long_book.asks@),
            requested_size@,
            config@,
        ) {
            Some(d) => r is Some && r->0@ == d,
            None => r is None,
        },
{
    if depth_for_size(short_book, long_book, requested_size, config).is_some() {
        Some(calculate_depth_for_size(short_book, long_book, requested_size, config))
    } else {
        None
    }
}

/// Walks both ask books for `requested_size` and classifies the package.
pub fn calculate_depth_for_size(
    short_book: &Book,
    long_book: &Book,
    requested_size: Decimal,
    config: &DepthSizingConfig,
) -> (r: DepthResult)
    requires
        depth_for_size_spec(
            levels_view(short_book.asks@),
            levels_view(long_book.asks@),
            requested_size@,
            config@,
        ) is Some,
    ensures
        depth_for_size_spec(
            levels_view(short_book.asks@),
            levels_view(long_book.asks@),
            requested_size@,
            config@,
        ) == Some(r@),
{
    match depth_for_size(short_book, long_book, requested_size, config) {
        Some(r) => r,
        None => DepthResult::invalid_target_size(requested_size),
    }
}


/// Decimals taken by their views.
pub open spec fn decs_view(v: Seq<Decimal>) -> Seq<DecView> {
    v.map_values(|d: Decimal| d@)
}

/// Appends to `acc` the running total of the positive ask sizes, capped at `max`:
/// the first total above `max` is replaced by `max` and ends the walk. `None` where an
/// addition overflows.
pub open spec fn cumulative_sizes(
    asks: Seq<LevelView>,
    max: DecView,
    cum: DecView,
    acc: Seq<DecView>,
) -> Option<Seq<DecView>>
    decreases asks.len(),
{
    if asks.len() == 0 {
        Some(acc)
    } else if !level_pos(asks[0]) {
        cumulative_sizes(asks.drop_first(), max, cum, acc)
    } else {
        match decimal_checked_add(cum, asks[0].1) {
            None => None,
            Some(c) => if value_lt(max, c) {
                Some(acc.push(max))
            } else {
                cumulative_sizes(asks.drop_first(), max, c, acc.push(c))
            },
        }
    }
}

/// `s` with `x` inserted after every element not greater than it.
pub open spec fn insert_sorted(s: Seq<DecView>, x: DecView) -> Seq<DecView>
    decreases s.len(),
{
    if s.len() == 0 {
        seq![x]
    } else if value_lt(x, s[0]) {
        seq![x] + s
    } else {
        seq![s[0]] + insert_sorted(s.drop_first(), x)
    }
}

/// Stable sort by value.
pub open spec fn sort_by_value(s: Seq<DecView>) -> Seq<DecView>
    decreases s.len(),
{
    if s.len() == 0 {
        s
    } else {
        insert_sorted(sort_by_value(s.drop_last()), s.last())
    }
}

/// Drops each element equal in value to the last one kept.
pub open spec fn dedup_by_value(s: Seq<DecView>, acc: Seq<DecView>) -> Seq<DecView>
    decreases s.len(),
{
    if s.len() == 0 {
        acc
    } else if acc.len() > 0 && value_eq(acc.last(), s[0]) {
        dedup_by_value(s.drop_first(), acc)
    } else {
        dedup_by_value(s.drop_first(), acc.push(s[0]))
    }
}

/// Sizes in `(0, max]`.
pub open spec fn size_in_range(x: DecView, max: DecView) -> bool {
    is_pos(x) && value_le(x, max)
}

/// The candidate sizes: the capped running totals of both ask books and `max` itself,
/// kept in `(0, max]`, sorted and without repeated values.
pub open spec fn merged_sizes_spec(short: Seq<LevelView>, long: Seq<LevelView>, max: DecView) -> Option<
    Seq<DecView>,
> {
    match cumulative_sizes(short, max, zero_view(), Seq::empty()) {
        None => None,
        Some(a) => match cumulative_sizes(long, max, zero_view(), a) {
            None => None,
            Some(b) => Some(
                dedup_by_value(
                    sort_by_value(b.push(max).filter(|x: DecView| size_in_range(x, max))),
                    Seq::empty(),
                ),
            ),
        },
    }
}

/// The best result so far after trying the sizes in `cands`: the first of the results
/// under the threshold with the largest executable size.
pub open spec fn best_fold(
    cands: Seq<DecView>,
    short: Seq<LevelView>,
    long: Seq<LevelView>,
    cfg: SizingModel,
    best: Option<DepthModel>,
) -> Option<Option<DepthModel>>
    decreases cands.len(),
{
    if cands.len() == 0 {
        Some(best)
    } else {
        match depth_for_size_spec(short, long, cands[0], cfg) {
            None => None,
            Some(res) => match res.avg_package_cost {
                None => best_fold(cands.drop_first(), short, long, cfg, best),
                Some(pkg) => match threshold_spec(cfg) {
                    None => None,
                    Some(thr) => if value_lt(pkg, thr) {
                        let next = match best {
                            Some(b) => if value_le(
                                res.max_size_under_threshold,
                                b.max_size_under_threshold,
                            ) {
                                best
                            } else {
                                Some(res)
                            },
                            None => Some(res),
                        };
                        best_fold(cands.drop_first(), short, long, cfg, next)
                    } else {
                        best_fold(cands.drop_first(), short, long, cfg, best)
                    },
                },
            },
        }
    }
}

/// The best result with its status settled by the size and edge minimums.
pub open spec fn settle_best(b: DepthModel, cfg: SizingModel) -> DepthModel {
    DepthModel {
        status: if value_le(cfg.min_depth_confirmed_size, b.max_size_under_threshold) && value_le(
            cfg.min_gross_edge,
            b.gross_edge,
        ) {
            DepthStatus::DepthConfirmedUnderOne
        } else {
            DepthStatus::TopBookOnlyUnderOne
        },
        ..b
    }
}

/// The largest size up to `max` whose package cost is under the execution threshold,
/// among the candidate sizes; where none is, the result for `max` itself. `None` where a
/// decimal operation overflows.
pub open spec fn find_max_spec(
    short: Seq<LevelView>,
    long: Seq<LevelView>,
    max: DecView,
    cfg: SizingModel,
) -> Option<DepthModel> {
    if !is_pos(max) {
        Some(empty_depth(DepthStatus::InvalidTargetSize, max))
    } else {
        match merged_sizes_spec(short, long, max) {
            None => None,
            Some(cands) => if cands.len() == 0 {
                Some(empty_depth(DepthStatus::NoUsableAsks, max))
            } else {
                match best_fold(cands, short, long, cfg, None) {
                    None => None,
                    Some(Some(b)) => Some(settle_best(b, cfg)),
                    Some(None) => depth_for_size_spec(short, long, max, cfg),
                }
            },
        }
    }
}

fn collect_cumulative_ask_sizes(book: &Book, max_requested_size: Decimal, output: &mut Vec<Decimal>) -> (ok: bool)
    ensures
        match cumulative_sizes(
            levels_view(book.asks@),
            max_requested_size@,
            zero_view(),
            decs_view(old(output)@),
        ) {
            Some(s) => ok && decs_view(final(output)@) == s,
            None => !ok,
        },
{
    let ghost lv = levels_view(book.asks@);
    let ghost start = decs_view(output@);
    let mut cumulative = Decimal::zero();
    let mut i: usize = 0;
    assert(lv.skip(0) =~= lv);
    while i < book.asks.len()
        invariant
            i <= book.asks.len(),
            lv == levels_view(book.asks@),
            start == decs_view(old(output)@),
            cumulative_sizes(lv, max_requested_size@, zero_view(), start) == cumulative_sizes(
                lv.skip(i as int),
                max_requested_size@,
                cumulative@,
                decs_view(output@),
            ),
        decreases book.asks.len() - i,
    {
        let level = book.asks[i];
        let ghost prev = decs_view(output@);
        proof {
            assert(lv.skip(i as int).len() > 0);
            assert(lv.skip(i as int).drop_first() =~= lv.skip(i + 1));
            assert(lv.skip(i as int)[0] == level@);
        }
        if !level.is_positive() {
            i = i + 1;
            continue;
        }
        cumulative = match cumulative.checked_add(&level.size) {
            Some(v) => v,
            None => return false,
        };
        if cumulative.gt(&max_requested_size) {
            output.push(max_requested_size);
            assert(decs_view(output@) =~= prev.push(max_requested_size@));
            return true;
        }
        output.push(cumulative);
        assert(decs_view(output@) =~= prev.push(cumulative@));
        i = i + 1;
    }
    assert(lv.skip(i as int).len() == 0);
    true
}

proof fn lemma_insert_sorted_at(s: Seq<DecView>, x: DecView, p: int)
    requires
        0 <= p <= s.len(),
        forall|i: int| 0 <= i < p ==> !value_lt(x, #[trigger] s[i]),
        p < s.len() ==> value_lt(x, s[p]),
    ensures
        insert_sorted(s, x) == s.insert(p, x),
    decreases s.len(),
{
    if s.len() == 0 {
        assert(s.insert(p, x) =~= seq![x]);
    } else if p == 0 {
        assert(s.insert(p, x) =~= seq![x] + s);
    } else {
        let t = s.drop_first();
        assert forall|i: int| 0 <= i < p - 1 implies !value_lt(x, #[trigger] t[i]) by {
            assert(t[i] == s[i + 1]);
        }
        if p - 1 < t.len() {
            assert(t[p - 1] == s[p]);
        }
        lemma_insert_sorted_at(t, x, p - 1);
        assert(s.insert(p, x) =~= seq![s[0]] + t.insert(p - 1, x));
    }
}

/// Stable insertion sort by value.
fn sort_sizes(v: Vec<Decimal>) -> (r: Vec<Decimal>)
    ensures
        decs_view(r@) == sort_by_value(decs_view(v@)),
{
    let mut out: Vec<Decimal> = Vec::new();
    let mut k: usize = 0;
    assert(decs_view(v@.take(0)) =~= Seq::<DecView>::empty());
    assert(decs_view(out@) =~= Seq::<DecView>::empty());
    while k < v.len()
        invariant
            k <= v.len(),
            decs_view(out@) == sort_by_value(decs_view(v@.take(k as int))),
        decreases v.len() - k,
    {
        let x = v[k];
        let mut p: usize = 0;
        while p < out.len() && !x.lt(&out[p])
            invariant
                p <= out.len(),
                forall|i: int| 0 <= i < p ==> !value_lt(x@, #[trigger] decs_view(out@)[i]),
            decreases out.len() - p,
        {
            p = p + 1;
        }
        let ghost before = decs_view(out@);
        proof {
            lemma_insert_sorted_at(before, x@, p as int);
            let tk = decs_view(v@.take(k + 1));
            assert(tk.drop_last() =~= decs_view(v@.take(k as int)));
            assert(tk.last() == x@);
        }
        out.insert(p, x);
        assert(decs_view(out@) =~= before.insert(p as int, x@));
        k = k + 1;
    }
    assert(v@.take(v.len() as int) =~= v@);
    out
}

/// Drops each size equal in value to the last one kept.
fn dedup_sizes(v: Vec<Decimal>) -> (r: Vec<Decimal>)
    ensures
        decs_view(r@) == dedup_by_value(decs_view(v@), Seq::empty()),
{
    let mut out: Vec<Decimal> = Vec::new();
    let mut i: usize = 0;
    let ghost dv = decs_view(v@);
    assert(dv.skip(0) =~= dv);
    assert(decs_view(out@) =~= Seq::<DecView>::empty());
    while i < v.len()
        invariant
            i <= v.len(),
            dv == decs_view(v@),
            dedup_by_value(dv, Seq::empty()) == dedup_by_value(dv.skip(i as int), decs_view(out@)),
        decreases v.len() - i,
    {
        let x = v[i];
        let ghost prev = decs_view(out@);
        proof {
            assert(dv.skip(i as int).len() > 0);
            assert(dv.skip(i as int).drop_first() =~= dv.skip(i + 1));
            assert(dv.skip(i as int)[0] == x@);
            if out@.len() > 0 {
                assert(decs_view(out@).last() == out@[out@.len() - 1]@);
            }
        }
        let keep = if out.len() == 0 {
            true
        } else {
            !out[out.len() - 1].eq_value(&x)
        };
        if keep {
            out.push(x);
            assert(decs_view(out@) =~= prev.push(x@));
        }
        i = i + 1;
    }
    assert(dv.skip(i as int).len() == 0);
    out
}

/// Keeps the sizes in `(0, max]`.
fn retain_in_range(v: Vec<Decimal>, max: Decimal) -> (r: Vec<Decimal>)
    ensures
        decs_view(r@) == decs_view(v@).filter(|x: DecView| size_in_range(x, max@)),
{
    let zero = Decimal::zero();
    let mut out: Vec<Decimal> = Vec::new();
    let mut i: usize = 0;
    let ghost pred = |x: DecView| size_in_range(x, max@);
    assert(decs_view(v@.take(0)) =~= Seq::<DecView>::empty());
    assert(decs_view(out@) =~= Seq::<DecView>::empty());
    while i < v.len()
        invariant
            i <= v.len(),
            zero@ == zero_view(),
            pred == (|x: DecView| size_in_range(x, max@)),
            decs_view(out@) == decs_view(v@.take(i as int)).filter(pred),
        decreases v.len() - i,
    {
        let x = v[i];
        proof {
            assert(decs_view(v@.take(i + 1)) =~= decs_view(v@.take(i as int)).push(x@));
            decs_view(v@.take(i as int)).lemma_filter_push(x@, pred);
        }
        if x.gt(&zero) && x.le(&max) {
            out.push(x);
            assert(decs_view(out@) =~= decs_view(out@.drop_last()).push(x@));
        }
        i = i + 1;
    }
    assert(v@.take(v.len() as int) =~= v@);
    out
}

/// The candidate sizes, or `None` where a running total overflows.
fn merged_ask_depth_sizes(short_book: &Book, long_book: &Book, max_requested_size: Decimal) -> (r: Option<Vec<Decimal>>)
    ensures
        match merged_sizes_spec(
            levels_view(short_book.asks@),
            levels_view(long_book.asks@),
            max_requested_size@,
        ) {
            Some(s) => r is Some && decs_view(r->0@) == s,
            None => r is None,
        },
{
    let mut sizes: Vec<Decimal> = Vec::new();
    assert(decs_view(sizes@) =~= Seq::<DecView>::empty());
    if !collect_cumulative_ask_sizes(short_book, max_requested_size, &mut sizes) {
        return None;
    }
    if !collect_cumulative_ask_sizes(long_book, max_requested_size, &mut sizes) {
        return None;
    }
    let ghost prev = decs_view(sizes@);
    sizes.push(max_requested_size);
    assert(decs_view(sizes@) =~= prev.push(max_requested_size@));
    let kept = retain_in_range(sizes, max_requested_size);
    assert(decs_view(kept@) == prev.push(max_requested_size@).filter(|x: DecView| size_in_range(x, max_requested_size@)));
    let sorted = sort_sizes(kept);
    Some(dedup_sizes(sorted))
}

/// The largest executable size; `None` where a decimal operation overflows.
fn find_max(short_book: &Book, long_book: &Book, max_requested_size: Decimal, config: &DepthSizingConfig) -> (r: Option<DepthResult>)
    ensures
        match find_max_spec(
            levels_view(short_book.asks@),
            levels_view(long_book.asks@),
            max_requested_size@,
            config@,
        ) {
            Some(d) => r is Some && r->0@ == d,
            None => r is None,
        },
{
    let ghost sv = levels_view(short_book.asks@);
    let ghost lv = levels_view(long_book.asks@);
    if max_requested_size.le(&Decimal::zero()) {
        return Some(DepthResult::invalid_target_size(max_requested_size));
    }
    let candidate_sizes = match merged_ask_depth_sizes(short_book, long_book, max_requested_size) {
        Some(v) => v,
        None => return None,
    };
    if candidate_sizes.len() == 0 {
        return Some(DepthResult::no_usable_asks(max_requested_size));
    }
    let ghost cands = decs_view(candidate_sizes@);
    let mut best: Option<DepthResult> = None;
    let mut i: usize = 0;
    assert(cands.skip(0) =~= cands);
    while i < candidate_sizes.len()
        invariant
            i <= candidate_sizes.len(),
            cands == decs_view(candidate_sizes@),
            merged_sizes_spec(sv, lv, max_requested_size@) == Some(cands),
            is_pos(max_requested_size@),
            cands.len() > 0,
            sv == levels_view(short_book.asks@),
            lv == levels_view(long_book.asks@),
            best_fold(cands, sv, lv, config@, None) == best_fold(
                cands.skip(i as int),
                sv,
                lv,
                config@,
                match best {
                    Some(b) => Some(b@),
                    None => None,
                },
            ),
        decreases candidate_sizes.len() - i,
    {
        let size = candidate_sizes[i];
        proof {
            assert(cands.skip(i as int).len() > 0);
            assert(cands.skip(i as int).drop_first() =~= cands.skip(i + 1));
            assert(cands.skip(i as int)[0] == size@);
        }
        let result = match depth_for_size(short_book, long_book, size, config) {
            Some(r) => r,
            None => return None,
        };
        if let Some(avg_package_cost) = result.avg_package_cost {
            let threshold = match config.try_execution_threshold() {
                Some(t) => t,
                None => return None,
            };
            if avg_package_cost.lt(&threshold) {
                let replace = match &best {
                    Some(current_best) => !result.max_size_under_threshold.le(
                        &current_best.max_size_under_threshold,
                    ),
                    None => true,
                };
                if replace {
                    best = Some(result);
                }
            }
        }
        i = i + 1;
    }
    assert(cands.skip(i as int).len() == 0);
    match best {
        Some(mut result) => {
            let passes_size = result.max_size_under_threshold.ge(&config.min_depth_confirmed_size);
            let passes_edge = result.gross_edge.ge(&config.min_gross_edge);
            result.status = if passes_size && passes_edge {
                DepthStatus::DepthConfirmedUnderOne
            } else {
                DepthStatus::TopBookOnlyUnderOne
            };
            Some(result)
        },
        None => depth_for_size(short_book, long_book, max_requested_size, config),
    }
}

/// The largest executable size up to `max_requested_size`, or `None` where a decimal
/// operation overflows.
pub fn try_find_max_size_under_threshold(
    short_book: &Book,
    long_book: &Book,
    max_requested_size: Decimal,
    config: &DepthSizingConfig,
) -> (r: Option<DepthResult>)
    ensures
        match find_max_spec(
            levels_view(short_book.asks@),
            levels_view(long_book.asks@),
            max_requested_size@,
            config@,
        ) {
            Some(d) => r is Some && r->0@ == d,
            None => r is None,
        },
{
    if find_max(short_book, long_book, max_requested_size, config).is_some() {
        Some(find_max_size_under_threshold(short_book, long_book, max_requested_size, config))
    } else {
        None
    }
}

/// Tries every candidate size up to `max_requested_size` and keeps the largest whose
/// average package cost is under the execution threshold.
pub fn find_max_size_under_threshold(
    short_book: &Book,
    long_book: &Book,
    max_requested_size: Decimal,
    config: &DepthSizingConfig,
) -> (r: DepthResult)
    requires
        find_max_spec(
            levels_view(short_book.asks@),
            levels_view(long_book.asks@),
            max_requested_size@,
            config@,
        ) is Some,
    ensures
        find_max_spec(
            levels_view(short_book.asks@),
            levels_view(long_book.asks@),
            max_requested_size@,
            config@,
        ) == Some(r@),
{
    match find_max(short_book, long_book, max_requested_size, config) {
        Some(r) => r,
        None => DepthResult::invalid_target_size(max_requested_size),
    }
}


/// A depth-confirmed result has both legs filled at an average package cost under the
/// execution threshold, a size at the minimum, and a gross edge at the minimum; its
/// whole requested size is executable.
pub proof fn lemma_depth_confirmed_meets_thresholds(
    short: Seq<LevelView>,
    long: Seq<LevelView>,
    req: DecView,
    cfg: SizingModel,
)
    requires
        depth_for_size_spec(short, long, req, cfg) is Some,
        depth_for_size_spec(short, long, req, cfg)->0.status == DepthStatus::DepthConfirmedUnderOne,
    ensures
        ({
            let d = depth_for_size_spec(short, long, req, cfg)->0;
            &&& d.avg_package_cost is Some
            &&& threshold_spec(cfg) is Some
            &&& value_lt(d.avg_package_cost->0, threshold_spec(cfg)->0)
            &&& value_le(cfg.min_depth_confirmed_size, d.requested_size)
            &&& value_le(cfg.min_gross_edge, d.gross_edge)
            &&& d.max_size_under_threshold == req
            &&& d.limiting_leg == DepthLeg::Neither
        }),
{
    let s = walk_ask_spec(short, req)->0;
    let l = walk_ask_spec(long, req)->0;
    let pkg = decimal_checked_add(s.avg_price->0, l.avg_price->0)->0;
    let rest = decimal_checked_sub(one_view(), pkg)->0;
    let gross = decimal_checked_mul(req, rest)->0;
    crate::decimal::lemma_pow10_pos(0);
    if value_lt(gross, zero_view()) {
        crate::decimal::lemma_le_trans(cfg.min_gross_edge, gross, zero_view());
    }
}

/// The depth for size `c` has an average package cost under the execution threshold.
pub open spec fn under_threshold_at(short: Seq<LevelView>, long: Seq<LevelView>, c: DecView, cfg: SizingModel) -> bool {
    match depth_for_size_spec(short, long, c, cfg) {
        Some(res) => match (res.avg_package_cost, threshold_spec(cfg)) {
            (Some(pkg), Some(thr)) => value_lt(pkg, thr),
            _ => false,
        },
        None => false,
    }
}

/// The executable size of the depth for size `c`.
pub open spec fn size_at(short: Seq<LevelView>, long: Seq<LevelView>, c: DecView, cfg: SizingModel) -> DecView {
    depth_for_size_spec(short, long, c, cfg)->0.max_size_under_threshold
}

proof fn lemma_best_fold(
    cands: Seq<DecView>,
    short: Seq<LevelView>,
    long: Seq<LevelView>,
    cfg: SizingModel,
    best: Option<DepthModel>,
)
    requires
        best_fold(cands, short, long, cfg, best) is Some,
    ensures
        match best_fold(cands, short, long, cfg, best)->0 {
            None => best is None && forall|i: int|
                0 <= i < cands.len() ==> !#[trigger] under_threshold_at(short, long, cands[i], cfg),
            Some(b) => ((best is Some && b == best->0) || exists|i: int|
                0 <= i < cands.len() && #[trigger] under_threshold_at(short, long, cands[i], cfg)
                    && depth_for_size_spec(short, long, cands[i], cfg) == Some(b)) && (best is Some ==> value_le(
                best->0.max_size_under_threshold,
                b.max_size_under_threshold,
            )) && forall|i: int|
                0 <= i < cands.len() && #[trigger] under_threshold_at(short, long, cands[i], cfg) ==> value_le(
                    size_at(short, long, cands[i], cfg),
                    b.max_size_under_threshold,
                ),
        },
    decreases cands.len(),
{
    if cands.len() > 0 {
        let rest = cands.drop_first();
        let res = depth_for_size_spec(short, long, cands[0], cfg)->0;
        let next = match res.avg_package_cost {
            None => best,
            Some(pkg) => if value_lt(pkg, threshold_spec(cfg)->0) {
                match best {
                    Some(b) => if value_le(res.max_size_under_threshold, b.max_size_under_threshold) {
                        best
                    } else {
                        Some(res)
                    },
                    None => Some(res),
                }
            } else {
                best
            },
        };
        assert(best_fold(cands, short, long, cfg, best) == best_fold(rest, short, long, cfg, next));
        lemma_best_fold(rest, short, long, cfg, next);
        assert forall|i: int| 0 <= i < rest.len() implies rest[i] == cands[i + 1] by {}
        match best_fold(rest, short, long, cfg, next)->0 {
            None => {
                assert forall|i: int| 0 <= i < cands.len() implies !#[trigger] under_threshold_at(
                    short,
                    long,
                    cands[i],
                    cfg,
                ) by {
                    if i > 0 {
                        assert(rest[i - 1] == cands[i]);
                    }
                }
            },
            Some(b) => {
                let under0 = under_threshold_at(short, long, cands[0], cfg);
                if under0 {
                    match best {
                        Some(b0) => {
                            if value_le(res.max_size_under_threshold, b0.max_size_under_threshold) {
                                lemma_le_trans(res.max_size_under_threshold, b0.max_size_under_threshold, b.max_size_under_threshold);
                            } else {
                                lemma_le_trans(b0.max_size_under_threshold, res.max_size_under_threshold, b.max_size_under_threshold);
                            }
                        },
                        None => {},
                    }
                }
                if !((best is Some && b == best->0)) {
                    if next is Some && b == next->0 {
                        assert(under0 && depth_for_size_spec(short, long, cands[0], cfg) == Some(b));
                    } else {
                        let i = choose|i: int|
                            0 <= i < rest.len() && #[trigger] under_threshold_at(short, long, rest[i], cfg)
                                && depth_for_size_spec(short, long, rest[i], cfg) == Some(b);
                        assert(rest[i] == cands[i + 1]);
                        assert(under_threshold_at(short, long, cands[i + 1], cfg));
                    }
                }
                assert forall|i: int|
                    0 <= i < cands.len() && #[trigger] under_threshold_at(short, long, cands[i], cfg) implies value_le(
                    size_at(short, long, cands[i], cfg),
                    b.max_size_under_threshold,
                ) by {
                    if i > 0 {
                        assert(rest[i - 1] == cands[i]);
                    }
                }
            },
        }
    }
}

/// Where some candidate size has a package cost under the execution threshold, the
/// result is the depth at such a candidate whose executable size no other such
/// candidate exceeds, its status settled by the minimums; where none has, it is the
/// depth for the maximum size itself.
pub proof fn lemma_find_max_is_largest_under_threshold(
    short: Seq<LevelView>,
    long: Seq<LevelView>,
    max: DecView,
    cfg: SizingModel,
)
    requires
        is_pos(max),
        merged_sizes_spec(short, long, max) is Some,
        merged_sizes_spec(short, long, max)->0.len() > 0,
        find_max_spec(short, long, max, cfg) is Some,
    ensures
        ({
            let cands = merged_sizes_spec(short, long, max)->0;
            &&& (exists|i: int| 0 <= i < cands.len() && #[trigger] under_threshold_at(short, long, cands[i], cfg))
                ==> exists|i: int|
                0 <= i < cands.len() && #[trigger] under_threshold_at(short, long, cands[i], cfg) && find_max_spec(
                    short,
                    long,
                    max,
                    cfg,
                ) == Some(settle_best(depth_for_size_spec(short, long, cands[i], cfg)->0, cfg)) && forall|j: int|
                    0 <= j < cands.len() && #[trigger] under_threshold_at(short, long, cands[j], cfg) ==> value_le(
                        size_at(short, long, cands[j], cfg),
                        size_at(short, long, cands[i], cfg),
                    )
            &&& !(exists|i: int| 0 <= i < cands.len() && #[trigger] under_threshold_at(short, long, cands[i], cfg))
                ==> find_max_spec(short, long, max, cfg) == depth_for_size_spec(short, long, max, cfg)
        }),
{
    let cands = merged_sizes_spec(short, long, max)->0;
    lemma_best_fold(cands, short, long, cfg, None);
}

/// The running total of the positive ask sizes among the first `k` levels of `asks`;
/// `None` where an addition overflows.
pub open spec fn depth_through(asks: Seq<LevelView>, k: int) -> Option<DecView>
    decreases k,
{
    if k <= 0 {
        Some(zero_view())
    } else {
        match depth_through(asks, k - 1) {
            None => None,
            Some(c) => if level_pos(asks[k - 1]) {
                decimal_checked_add(c, asks[k - 1].1)
            } else {
                Some(c)
            },
        }
    }
}

/// The running totals over the first `k` levels of `asks` are all there and none is
/// above `max`.
pub open spec fn depths_within(asks: Seq<LevelView>, k: int, max: DecView) -> bool {
    forall|j: int|
        0 < j <= k ==> #[trigger] depth_through(asks, j) is Some && value_le(depth_through(asks, j)->0, max)
}

/// Collecting running totals keeps what was collected before.
proof fn lemma_cumulative_keeps(asks: Seq<LevelView>, max: DecView, cum: DecView, acc: Seq<DecView>)
    requires
        cumulative_sizes(asks, max, cum, acc) is Some,
    ensures
        acc.len() <= cumulative_sizes(asks, max, cum, acc)->0.len(),
        forall|j: int| 0 <= j < acc.len() ==> #[trigger] cumulative_sizes(asks, max, cum, acc)->0[j] == acc[j],
    decreases asks.len(),
{
    if asks.len() == 0 {
    } else if !level_pos(asks[0]) {
        lemma_cumulative_keeps(asks.drop_first(), max, cum, acc);
    } else {
        match decimal_checked_add(cum, asks[0].1) {
            None => {},
            Some(c) => if !value_lt(max, c) {
                lemma_cumulative_keeps(asks.drop_first(), max, c, acc.push(c));
                let r = cumulative_sizes(asks, max, cum, acc)->0;
                assert forall|j: int| 0 <= j < acc.len() implies #[trigger] r[j] == acc[j] by {
                    assert(acc.push(c)[j] == acc[j]);
                }
            },
        }
    }
}

/// Collecting running totals from level `i` on reaches the running total through level
/// `k` where that level is positive and no total up to it is above `max`.
proof fn lemma_cumulative_reaches(asks: Seq<LevelView>, max: DecView, i: int, k: int, acc: Seq<DecView>)
    requires
        0 <= i < k <= asks.len(),
        depth_through(asks, i) is Some,
        depths_within(asks, k, max),
        level_pos(asks[k - 1]),
        cumulative_sizes(asks.skip(i), max, depth_through(asks, i)->0, acc) is Some,
    ensures
        cumulative_sizes(asks.skip(i), max, depth_through(asks, i)->0, acc)->0.contains(depth_through(asks, k)->0),
    decreases k - i,
{
    let s = asks.skip(i);
    let cum = depth_through(asks, i)->0;
    assert(s[0] == asks[i]);
    assert(s.drop_first() =~= asks.skip(i + 1));
    assert(depth_through(asks, i + 1) is Some);
    if !level_pos(asks[i]) {
        lemma_cumulative_reaches(asks, max, i + 1, k, acc);
    } else {
        let c = depth_through(asks, i + 1)->0;
        assert(value_le(c, max));
        assert(!value_lt(max, c));
        assert(cumulative_sizes(s, max, cum, acc) == cumulative_sizes(asks.skip(i + 1), max, c, acc.push(c)));
        if i + 1 == k {
            lemma_cumulative_keeps(asks.skip(i + 1), max, c, acc.push(c));
            let r = cumulative_sizes(s, max, cum, acc)->0;
            assert(r[acc.len() as int] == acc.push(c)[acc.len() as int]);
        } else {
            lemma_cumulative_reaches(asks, max, i + 1, k, acc.push(c));
        }
    }
}

/// Inserting into a sequence keeps its elements and the inserted one.
proof fn lemma_insert_sorted_keeps(s: Seq<DecView>, x: DecView, y: DecView)
    requires
        y == x || s.contains(y),
    ensures
        insert_sorted(s, x).contains(y),
    decreases s.len(),
{
    let r = insert_sorted(s, x);
    if s.len() == 0 {
        assert(r[0] == x);
    } else if value_lt(x, s[0]) {
        if y == x {
            assert(r[0] == x);
        } else {
            let m = choose|m: int| 0 <= m < s.len() && s[m] == y;
            assert(r[m + 1] == y);
        }
    } else if y == s[0] {
        assert(r[0] == y);
    } else {
        let t = s.drop_first();
        if y != x {
            let m = choose|m: int| 0 <= m < s.len() && s[m] == y;
            assert(t[m - 1] == y);
        }
        lemma_insert_sorted_keeps(t, x, y);
        let n = choose|n: int| 0 <= n < insert_sorted(t, x).len() && insert_sorted(t, x)[n] == y;
        assert(r[n + 1] == y);
    }
}

/// Sorting keeps every element.
proof fn lemma_sort_keeps(s: Seq<DecView>, y: DecView)
    requires
        s.contains(y),
    ensures
        sort_by_value(s).contains(y),
    decreases s.len(),
{
    let rest = s.drop_last();
    if y != s.last() {
        let m = choose|m: int| 0 <= m < s.len() && s[m] == y;
        assert(rest[m] == y);
        lemma_sort_keeps(rest, y);
    }
    lemma_insert_sorted_keeps(sort_by_value(rest), s.last(), y);
}

/// Dropping repeated values keeps what was kept before.
proof fn lemma_dedup_keeps_kept(s: Seq<DecView>, acc: Seq<DecView>, z: DecView)
    requires
        acc.contains(z),
    ensures
        dedup_by_value(s, acc).contains(z),
    decreases s.len(),
{
    if s.len() > 0 {
        if acc.len() > 0 && value_eq(acc.last(), s[0]) {
            lemma_dedup_keeps_kept(s.drop_first(), acc, z);
        } else {
            let m = choose|m: int| 0 <= m < acc.len() && acc[m] == z;
            assert(acc.push(s[0])[m] == z);
            lemma_dedup_keeps_kept(s.drop_first(), acc.push(s[0]), z);
        }
    }
}

/// Dropping repeated values keeps, for every element, one of the same value.
proof fn lemma_dedup_covers(s: Seq<DecView>, acc: Seq<DecView>, y: DecView)
    requires
        s.contains(y),
    ensures
        exists|z: DecView| #[trigger] dedup_by_value(s, acc).contains(z) && value_eq(z, y),
    decreases s.len(),
{
    let keep = !(acc.len() > 0 && value_eq(acc.last(), s[0]));
    let next = if keep {
        acc.push(s[0])
    } else {
        acc
    };
    assert(dedup_by_value(s, acc) == dedup_by_value(s.drop_first(), next));
    if s[0] == y {
        let z = if keep {
            s[0]
        } else {
            acc.last()
        };
        assert(next[next.len() - 1] == z);
        lemma_dedup_keeps_kept(s.drop_first(), next, z);
        assert(dedup_by_value(s, acc).contains(z) && value_eq(z, y));
    } else {
        let m = choose|m: int| 0 <= m < s.len() && s[m] == y;
        assert(s.drop_first()[m - 1] == y);
        lemma_dedup_covers(s.drop_first(), next, y);
    }
}

/// Where the depth at `x` has a package cost under the execution threshold, its
/// executable size is `x` itself.
proof fn lemma_size_at_under(short: Seq<LevelView>, long: Seq<LevelView>, x: DecView, cfg: SizingModel)
    requires
        under_threshold_at(short, long, x, cfg),
    ensures
        size_at(short, long, x, cfg) == x,
{
}

/// Every running total of the positive ask sizes of either book, up to a level where no
/// total has gone above the maximum, is tried as a candidate size: some candidate has
/// its value. Where the depth at that candidate has a package cost under the execution
/// threshold, the result's executable size is at least that running total.
pub proof fn lemma_running_totals_are_candidates(
    short: Seq<LevelView>,
    long: Seq<LevelView>,
    max: DecView,
    cfg: SizingModel,
    asks: Seq<LevelView>,
    k: int,
)
    requires
        asks == short || asks == long,
        is_pos(max),
        find_max_spec(short, long, max, cfg) is Some,
        0 < k <= asks.len(),
        level_pos(asks[k - 1]),
        depths_within(asks, k, max),
        is_pos(depth_through(asks, k)->0),
    ensures
        merged_sizes_spec(short, long, max) is Some,
        ({
            let c = depth_through(asks, k)->0;
            let cands = merged_sizes_spec(short, long, max)->0;
            exists|i: int|
                0 <= i < cands.len() && value_eq(#[trigger] cands[i], c) && (under_threshold_at(
                    short,
                    long,
                    cands[i],
                    cfg,
                ) ==> value_le(c, find_max_spec(short, long, max, cfg)->0.max_size_under_threshold))
        }),
{
    let c = depth_through(asks, k)->0;
    let a = cumulative_sizes(short, max, zero_view(), Seq::empty())->0;
    let b = cumulative_sizes(long, max, zero_view(), a)->0;
    assert(depth_through(asks, k) is Some);
    assert(asks.skip(0) =~= asks);
    if asks == long {
        lemma_cumulative_reaches(long, max, 0, k, a);
    } else {
        lemma_cumulative_reaches(short, max, 0, k, Seq::empty());
        lemma_cumulative_keeps(long, max, zero_view(), a);
        let m = choose|m: int| 0 <= m < a.len() && a[m] == c;
        assert(b[m] == a[m]);
    }
    let pushed = b.push(max);
    let pred = |x: DecView| size_in_range(x, max);
    let mb = choose|m: int| 0 <= m < b.len() && b[m] == c;
    assert(pushed[mb] == c);
    assert(pred(c));
    pushed.lemma_filter_contains(pred, mb);
    let kept = pushed.filter(pred);
    lemma_sort_keeps(kept, c);
    lemma_dedup_covers(sort_by_value(kept), Seq::empty(), c);
    let cands = merged_sizes_spec(short, long, max)->0;
    let z = choose|z: DecView| #[trigger] cands.contains(z) && value_eq(z, c);
    let i = choose|i: int| 0 <= i < cands.len() && cands[i] == z;
    if under_threshold_at(short, long, z, cfg) {
        lemma_find_max_is_largest_under_threshold(short, long, max, cfg);
        lemma_size_at_under(short, long, z, cfg);
        let best = find_max_spec(short, long, max, cfg)->0;
        assert(value_le(z, best.max_size_under_threshold));
        assert(value_le(c, z));
        lemma_le_trans(c, z, best.max_size_under_threshold);
    }
    assert(value_eq(cands[i], c));
}

/// The maximum size itself is always tried as a candidate size: some candidate has its
/// value, so the candidates are never empty for a positive maximum.
pub proof fn lemma_max_is_candidate(short: Seq<LevelView>, long: Seq<LevelView>, max: DecView)
    requires
        is_pos(max),
        merged_sizes_spec(short, long, max) is Some,
    ensures
        ({
            let cands = merged_sizes_spec(short, long, max)->0;
            exists|i: int| 0 <= i < cands.len() && value_eq(#[trigger] cands[i], max)
        }),
{
    let a = cumulative_sizes(short, max, zero_view(), Seq::empty())->0;
    let b = cumulative_sizes(long, max, zero_view(), a)->0;
    let pushed = b.push(max);
    let pred = |x: DecView| size_in_range(x, max);
    assert(pushed[b.len() as int] == max);
    assert(pred(max));
    pushed.lemma_filter_contains(pred, b.len() as int);
    let kept = pushed.filter(pred);
    lemma_sort_keeps(kept, max);
    lemma_dedup_covers(sort_by_value(kept), Seq::empty(), max);
    let cands = merged_sizes_spec(short, long, max)->0;
    let z = choose|z: DecView| #[trigger] cands.contains(z) && value_eq(z, max);
    let i = choose|i: int| 0 <= i < cands.len() && cands[i] == z;
    assert(value_eq(cands[i], max));
}

} // verus!
