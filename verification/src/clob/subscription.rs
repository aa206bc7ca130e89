//! The set of tokens whose books the order-book feed should stream.
use vstd::prelude::*;

use crate::num::sat_sub_spec;
use crate::registry::lifecycle::{live_spec, upcoming_spec};
use crate::registry::market_registry::{deref_all, MarketRegistry};
use crate::text::all_white;
use crate::types::ids::TokenId;
use crate::types::market::Market;

verus! {

/// The tokens by their text.
pub open spec fn token_views(s: Seq<TokenId>) -> Seq<Seq<char>> {
    s.map_values(|t: TokenId| t@)
}

/// The set of token texts.
pub open spec fn token_set(s: Seq<TokenId>) -> Set<Seq<char>> {
    token_views(s).to_set()
}

/// `v` holds each token of `set` once, and nothing else.
pub open spec fn lists_set(v: Seq<TokenId>, set: Set<Seq<char>>) -> bool {
    token_views(v).no_duplicates() && token_set(v) == set
}

/// Applying a subscription change to the tokens before it gives the tokens after it:
/// those before, less the unsubscribed, plus the subscribed; and no token is both
/// subscribed and unsubscribed.
pub proof fn lemma_diff_applies(before: Set<Seq<char>>, after: Set<Seq<char>>)
    ensures
        before.difference(before.difference(after)).union(after.difference(before)) == after,
        after.difference(before).disjoint(before.difference(after)),
{
    assert(before.difference(before.difference(after)).union(after.difference(before)) =~= after);
}

#[derive(Debug, Clone)]
pub struct SubscriptionDiff {
    pub subscribe: Vec<TokenId>,
    pub unsubscribe: Vec<TokenId>,
}

/// `d` is the change from the tokens `before` to the tokens `after`: the tokens added
/// and the tokens dropped, each once.
pub open spec fn diff_between(d: SubscriptionDiff, before: Set<Seq<char>>, after: Set<Seq<char>>) -> bool {
    lists_set(d.subscribe@, after.difference(before)) && lists_set(d.unsubscribe@, before.difference(after))
}

/// Asking again for the tokens already wanted changes nothing: both lists are empty.
pub proof fn lemma_same_tokens_no_change(current: Set<Seq<char>>, d: SubscriptionDiff)
    requires
        diff_between(d, current, current),
    ensures
        d.subscribe@.len() == 0,
        d.unsubscribe@.len() == 0,
{
    if d.subscribe@.len() > 0 {
        assert(token_views(d.subscribe@)[0] == d.subscribe@[0]@);
        assert(token_set(d.subscribe@).contains(d.subscribe@[0]@));
    }
    if d.unsubscribe@.len() > 0 {
        assert(token_views(d.unsubscribe@)[0] == d.unsubscribe@[0]@);
        assert(token_set(d.unsubscribe@).contains(d.unsubscribe@[0]@));
    }
}

/// The tokens wanted, each once.
#[derive(Debug)]
pub struct ClobSubscription {
    desired_tokens: Vec<TokenId>,
}

fn holds_token(v: &Vec<TokenId>, t: &TokenId) -> (r: bool)
    ensures
        r == token_set(v@).contains(t@),
{
    let mut i: usize = 0;
    while i < v.len()
        invariant
            i <= v@.len(),
            forall|k: int| 0 <= k < i ==> #[trigger] v@[k]@ != t@,
        decreases v@.len() - i,
    {
        if v[i].same_as(t) {
            assert(token_views(v@)[i as int] == t@);
            return true;
        }
        i = i + 1;
    }
    assert(!token_views(v@).contains(t@)) by {
        if token_views(v@).contains(t@) {
            let k = choose|k: int| 0 <= k < token_views(v@).len() && token_views(v@)[k] == t@;
            assert(v@[k]@ == t@);
        }
    }
    false
}

/// Appending a token adds its text to the set.
pub proof fn lemma_views_push_set(s: Seq<TokenId>, t: TokenId)
    ensures
        token_set(s.push(t)) == token_set(s).insert(t@),
{
    lemma_views_push(s, t);
}

proof fn lemma_views_push(s: Seq<TokenId>, t: TokenId)
    ensures
        token_views(s.push(t)) == token_views(s).push(t@),
        token_set(s.push(t)) == token_set(s).insert(t@),
{
    assert(token_views(s.push(t)) =~= token_views(s).push(t@));
    assert(token_set(s.push(t)) =~= token_set(s).insert(t@)) by {
        assert forall|x: Seq<char>| #[trigger] token_set(s.push(t)).contains(x) == token_set(s).insert(t@).contains(x) by {
            let a = token_views(s);
            if a.push(t@).contains(x) {
                let k = choose|k: int| 0 <= k < a.push(t@).len() && a.push(t@)[k] == x;
                if k < a.len() {
                    assert(a[k] == x);
                }
            }
            if a.contains(x) {
                let k = choose|k: int| 0 <= k < a.len() && a[k] == x;
                assert(a.push(t@)[k] == x);
            }
            if x == t@ {
                assert(a.push(t@)[a.len() as int] == x);
            }
        }
    }
}

/// Appends `t` unless a token with its text is already there.
fn add_token(v: &mut Vec<TokenId>, t: &TokenId)
    requires
        token_views(old(v)@).no_duplicates(),
    ensures
        token_views(final(v)@).no_duplicates(),
        token_set(final(v)@) == token_set(old(v)@).insert(t@),
        token_set(old(v)@).contains(t@) ==> final(v)@ == old(v)@,
        !token_set(old(v)@).contains(t@) ==> final(v)@ == old(v)@.push(*t),
{
    if holds_token(v, t) {
        assert(token_set(v@) =~= token_set(v@).insert(t@));
    } else {
        let ghost before = v@;
        proof {
            lemma_views_push(before, *t);
        }
        v.push(t.duplicate());
        proof {
            assert(v@ == before.push(*t));
            assert forall|a: int, b: int| 0 <= a < b < token_views(v@).len() implies token_views(v@)[a]
                != token_views(v@)[b] by {
                if b < before.len() {
                    assert(token_views(before)[a] != token_views(before)[b]);
                } else {
                    assert(token_views(before).contains(token_views(before)[a]));
                }
            }
        }
    }
}

/// The tokens of `v`, each once, in order of first occurrence.
fn distinct_tokens(v: &Vec<TokenId>) -> (r: Vec<TokenId>)
    ensures
        lists_set(r@, token_set(v@)),
{
    let mut out: Vec<TokenId> = Vec::new();
    let mut i: usize = 0;
    assert(token_set(out@) =~= token_set(v@.take(0)));
    while i < v.len()
        invariant
            i <= v@.len(),
            token_views(out@).no_duplicates(),
            token_set(out@) == token_set(v@.take(i as int)),
        decreases v@.len() - i,
    {
        proof {
            assert(v@.take(i + 1) =~= v@.take(i as int).push(v@[i as int]));
            lemma_views_push(v@.take(i as int), v@[i as int]);
        }
        add_token(&mut out, &v[i]);
        i = i + 1;
    }
    assert(v@.take(i as int) =~= v@);
    out
}

/// The tokens of `a` not in `b`, in the order of `a`.
fn tokens_not_in(a: &Vec<TokenId>, b: &Vec<TokenId>) -> (r: Vec<TokenId>)
    requires
        token_views(a@).no_duplicates(),
    ensures
        lists_set(r@, token_set(a@).difference(token_set(b@))),
{
    let mut out: Vec<TokenId> = Vec::new();
    let mut i: usize = 0;
    assert(token_set(out@) =~= token_set(a@.take(0)).difference(token_set(b@)));
    while i < a.len()
        invariant
            i <= a@.len(),
            token_views(a@).no_duplicates(),
            token_views(out@).no_duplicates(),
            token_set(out@) == token_set(a@.take(i as int)).difference(token_set(b@)),
        decreases a@.len() - i,
    {
        proof {
            assert(a@.take(i + 1) =~= a@.take(i as int).push(a@[i as int]));
            lemma_views_push(a@.take(i as int), a@[i as int]);
        }
        if !holds_token(b, &a[i]) {
            add_token(&mut out, &a[i]);
        }
        assert(token_set(out@) =~= token_set(a@.take(i + 1)).difference(token_set(b@)));
        i = i + 1;
    }
    assert(a@.take(i as int) =~= a@);
    out
}

impl View for ClobSubscription {
    type V = Set<Seq<char>>;

    closed spec fn view(&self) -> Set<Seq<char>> {
        token_set(self.desired_tokens@)
    }
}

impl ClobSubscription {
    #[verifier::type_invariant]
    closed spec fn inv(self) -> bool {
        token_views(self.desired_tokens@).no_duplicates()
    }

    pub fn new() -> (r: ClobSubscription)
        ensures
            r@ == Set::<Seq<char>>::empty(),
    {
        let v: Vec<TokenId> = Vec::new();
        assert(token_views(v@) =~= Seq::<Seq<char>>::empty());
        assert(token_set(v@) =~= Set::<Seq<char>>::empty());
        ClobSubscription { desired_tokens: v }
    }

    /// Replaces the wanted tokens with `next_tokens`; returns the tokens newly wanted
    /// and those no longer wanted.
    pub fn set_desired_tokens(&mut self, next_tokens: Vec<TokenId>) -> (r: SubscriptionDiff)
        ensures
            final(self)@ == token_set(next_tokens@),
            lists_set(r.subscribe@, token_set(next_tokens@).difference(old(self)@)),
            lists_set(r.unsubscribe@, old(self)@.difference(token_set(next_tokens@))),
            diff_between(r, old(self)@, final(self)@),
    {
        proof {
            use_type_invariant(&*self);
        }
        let next = distinct_tokens(&next_tokens);
        let subscribe = tokens_not_in(&next, &self.desired_tokens);
        let unsubscribe = tokens_not_in(&self.desired_tokens, &next);
        self.desired_tokens = next;
        SubscriptionDiff { subscribe, unsubscribe }
    }

    /// The wanted tokens, each once.
    pub fn token_ids(&self) -> (r: Vec<TokenId>)
        ensures
            lists_set(r@, self@),
    {
        proof {
            use_type_invariant(self);
        }
        distinct_tokens(&self.desired_tokens)
    }

    pub fn contains(&self, token_id: &TokenId) -> (r: bool)
        ensures
            r == self@.contains(token_id@),
    {
        holds_token(&self.desired_tokens, token_id)
    }

    pub fn len(&self) -> (r: usize)
        ensures
            r == self@.len(),
    {
        proof {
            use_type_invariant(self);
            token_views(self.desired_tokens@).unique_seq_to_set();
        }
        self.desired_tokens.len()
    }

    pub fn is_empty(&self) -> (r: bool)
        ensures
            r == (self@.len() == 0),
    {
        self.len() == 0
    }

    pub fn clear(&mut self)
        ensures
            final(self)@ == Set::<Seq<char>>::empty(),
    {
        *self = ClobSubscription::new();
    }
}

/// The tokens of a market the feed should stream.
pub open spec fn market_token_set(m: Market) -> Set<Seq<char>> {
    set![m.up_token_id@, m.down_token_id@]
}

/// The non-blank tokens of the markets.
pub open spec fn nonblank_tokens_of(ms: Seq<Market>) -> Set<Seq<char>> {
    Set::new(
        |t: Seq<char>|
            !all_white(t) && exists|i: int|
                0 <= i < ms.len() && (#[trigger] ms[i].up_token_id@ == t || ms[i].down_token_id@ == t),
    )
}

/// All outcome tokens of the markets.
pub open spec fn tokens_of(ms: Seq<Market>) -> Set<Seq<char>>
    decreases ms.len(),
{
    if ms.len() == 0 {
        Set::empty()
    } else {
        tokens_of(ms.drop_last()) + market_token_set(ms.last())
    }
}


#[verifier::spinoff_prover]
proof fn lemma_nonblank_push(p: Seq<Market>, m: Market)
    ensures
        nonblank_tokens_of(p.push(m)) == nonblank_tokens_of(p) + market_token_set(m).filter(|t: Seq<char>| !all_white(t)),
{
    let q = p.push(m);
    assert(q[p.len() as int] == m);
    assert forall|t: Seq<char>| #[trigger] nonblank_tokens_of(q).contains(t) == (nonblank_tokens_of(p) + market_token_set(
        m,
    ).filter(|t: Seq<char>| !all_white(t))).contains(t) by {
        if t == m.up_token_id@ {
            assert(q[p.len() as int].up_token_id@ == t);
        }
        if t == m.down_token_id@ {
            assert(q[p.len() as int].down_token_id@ == t);
        }
        if nonblank_tokens_of(p).contains(t) {
            let k = choose|k: int| 0 <= k < p.len() && (#[trigger] p[k].up_token_id@ == t || p[k].down_token_id@ == t);
            assert(q[k].up_token_id == p[k].up_token_id && q[k].down_token_id == p[k].down_token_id);
        }
        if nonblank_tokens_of(q).contains(t) {
            let k = choose|k: int| 0 <= k < q.len() && (#[trigger] q[k].up_token_id@ == t || q[k].down_token_id@ == t);
            if k < p.len() {
                assert(q[k].up_token_id == p[k].up_token_id && q[k].down_token_id == p[k].down_token_id);
            } else {
                assert(k == p.len());
            }
        }
    }
    assert(nonblank_tokens_of(q) =~= nonblank_tokens_of(p) + market_token_set(m).filter(|t: Seq<char>| !all_white(t)));
}

proof fn lemma_tokens_push(p: Seq<Market>, m: Market)
    ensures
        tokens_of(p.push(m)) == tokens_of(p) + market_token_set(m),
{
    assert(p.push(m).drop_last() =~= p);
}

/// The non-blank outcome tokens of the markets, each once.
pub fn desired_tokens_from_markets(markets: &Vec<&Market>) -> (r: Vec<TokenId>)
    ensures
        lists_set(r@, nonblank_tokens_of(deref_all(markets@))),
{
    let ghost ms = deref_all(markets@);
    let mut out: Vec<TokenId> = Vec::new();
    let mut i: usize = 0;
    assert(token_set(out@) =~= nonblank_tokens_of(ms.take(0)));
    while i < markets.len()
        invariant
            i <= markets@.len(),
            ms == deref_all(markets@),
            token_views(out@).no_duplicates(),
            token_set(out@) == nonblank_tokens_of(ms.take(i as int)),
        decreases markets@.len() - i,
    {
        let m = markets[i];
        proof {
            assert(ms.take(i + 1) =~= ms.take(i as int).push(*m));
        }
        let ghost s0 = token_set(out@);
        if m.up_token_id.is_non_empty() {
            add_token(&mut out, &m.up_token_id);
        }
        if m.down_token_id.is_non_empty() {
            add_token(&mut out, &m.down_token_id);
        }
        proof {
            lemma_nonblank_push(ms.take(i as int), *m);
            assert(token_set(out@) =~= nonblank_tokens_of(ms.take(i + 1)));
        }
        i = i + 1;
    }
    assert(ms.take(i as int) =~= ms);
    out
}

fn add_market_tokens(out: &mut Vec<TokenId>, m: &Market)
    requires
        token_views(old(out)@).no_duplicates(),
    ensures
        token_views(final(out)@).no_duplicates(),
        token_set(final(out)@) == token_set(old(out)@) + market_token_set(*m),
{
    let ghost s0 = token_set(out@);
    add_token(out, &m.up_token_id);
    add_token(out, &m.down_token_id);
    assert(token_set(out@) =~= s0 + market_token_set(*m));
}

/// Opens within `include_upcoming_ms` of `now_ms`.
pub open spec fn opens_within(now_ms: i64, include_upcoming_ms: i64) -> spec_fn(Market) -> bool {
    |m: Market| sat_sub_spec(m.open_ms, now_ms) <= include_upcoming_ms
}

/// The tokens of the live markets, and of the upcoming markets opening within
/// `include_upcoming_ms`, each once.
pub fn desired_tokens_from_registry(registry: &MarketRegistry, now_ms: i64, include_upcoming_ms: i64) -> (r: Vec<
    TokenId,
>)
    ensures
        lists_set(
            r@,
            tokens_of(registry@.filter(|m: Market| live_spec(m, now_ms))) + tokens_of(
                registry@.filter(|m: Market| upcoming_spec(m, now_ms)).filter(opens_within(now_ms, include_upcoming_ms)),
            ),
        ),
{
    let live = registry.live_markets(now_ms);
    let upcoming = registry.upcoming_markets(now_ms);
    let ghost lv = deref_all(live@);
    let ghost up = deref_all(upcoming@);
    let ghost soon = opens_within(now_ms, include_upcoming_ms);
    let mut out: Vec<TokenId> = Vec::new();
    let mut i: usize = 0;
    assert(token_set(out@) =~= tokens_of(lv.take(0)));
    while i < live.len()
        invariant
            i <= live@.len(),
            lv == deref_all(live@),
            token_views(out@).no_duplicates(),
            token_set(out@) == tokens_of(lv.take(i as int)),
        decreases live@.len() - i,
    {
        let m = live[i];
        proof {
            assert(lv.take(i + 1) =~= lv.take(i as int).push(*m));
        }
        add_market_tokens(&mut out, m);
        proof {
            lemma_tokens_push(lv.take(i as int), *m);
        }
        i = i + 1;
    }
    assert(lv.take(i as int) =~= lv);
    let ghost after_live = token_set(out@);
    let mut j: usize = 0;
    assert(up.take(0).filter(soon) =~= Seq::<Market>::empty()) by {
        reveal_with_fuel(Seq::filter, 1);
    }
    assert(token_set(out@) =~= after_live + tokens_of(up.take(0).filter(soon)));
    while j < upcoming.len()
        invariant
            j <= upcoming@.len(),
            up == deref_all(upcoming@),
            soon == opens_within(now_ms, include_upcoming_ms),
            token_views(out@).no_duplicates(),
            token_set(out@) == after_live + tokens_of(up.take(j as int).filter(soon)),
        decreases upcoming@.len() - j,
    {
        let m = upcoming[j];
        proof {
            assert(up.take(j + 1) =~= up.take(j as int).push(*m));
            up.take(j as int).lemma_filter_push(*m, soon);
        }
        let ghost before = token_set(out@);
        if crate::num::sat_sub(m.open_ms, now_ms) <= include_upcoming_ms {
            add_market_tokens(&mut out, m);
        }
        proof {
            let p = up.take(j as int).filter(soon);
            if soon(*m) {
                assert(up.take(j + 1).filter(soon) == p.push(*m));
                lemma_tokens_push(p, *m);
            } else {
                assert(up.take(j + 1).filter(soon) == p);
            }
            assert(token_set(out@) =~= after_live + tokens_of(up.take(j + 1).filter(soon)));
        }
        j = j + 1;
    }
    assert(up.take(j as int) =~= up);
    out
}

} // verus!
