//! The markets known to the pipeline, one per slug, with their indexes kept in step.
use vstd::prelude::*;

use crate::keyed::{deref_item, has_key, lemma_lookup_at, lookup_key, unique_keys, Keyed, KeyedList};
use crate::registry::indexes::{listed, market_pairs, slugs_under, IndexKey, MarketIndexes};
use crate::registry::lifecycle::{
    expired_spec, is_expired_market, is_live_market, is_upcoming_market, live_spec, upcoming_spec,
};
use crate::text::str_eq;
use crate::types::asset::Asset;
use crate::types::ids::{MarketSlug, TokenId};
use crate::types::market::{captured_exact_spec, opt_text, Market};
use crate::types::timeframe::Timeframe;

verus! {

impl Keyed for Market {
    open spec fn key_of(&self) -> Seq<char> {
        self.slug@
    }

    fn key_text(&self) -> (r: &str) {
        self.slug.as_str()
    }
}

/// Every pair the markets are filed under.
pub open spec fn all_pairs(s: Seq<Market>) -> Set<(IndexKey, Seq<char>)> {
    Set::new(|p: (IndexKey, Seq<char>)| exists|i: int| 0 <= i < s.len() && #[trigger] market_pairs(s[i]).contains(p))
}

/// The market holds `token` as one of its two outcome tokens.
pub open spec fn holds_token(m: Market, token: Seq<char>) -> bool {
    m.up_token_id@ == token || m.down_token_id@ == token
}

/// The market's price to beat is not yet captured: no status, or pending, missing or
/// invalid.
pub open spec fn missing_ptb_spec(m: Market) -> bool {
    let st = opt_text(m.price_to_beat_status);
    st is None || st == Some("pending_ptb"@) || st == Some("missing_ptb"@) || st == Some("invalid_ptb"@)
}

/// References taken by the values they point to.
pub open spec fn deref_all(v: Seq<&Market>) -> Seq<Market> {
    v.map_values(|m: &Market| *m)
}

/// `v` refers to `m`.
pub open spec fn refers_to(v: Seq<&Market>, m: Market) -> bool {
    exists|i: int| 0 <= i < v.len() && *v[i] == m
}

/// `s` holds `m`.
pub open spec fn holds_market(s: Seq<Market>, m: Market) -> bool {
    exists|j: int| 0 <= j < s.len() && s[j] == m
}

/// `v` holds, each once, exactly the markets of `s` that satisfy `pred`.
pub open spec fn holds_exactly(v: Seq<&Market>, s: Seq<Market>, pred: spec_fn(Market) -> bool) -> bool {
    &&& forall|i: int, j: int| 0 <= i < j < v.len() ==> v[i].slug@ != v[j].slug@
    &&& forall|m: Market| #[trigger] refers_to(v, m) <==> holds_market(s, m) && pred(m)
}

proof fn lemma_pairs_of_slug(s: Seq<Market>, i: int, p: (IndexKey, Seq<char>))
    requires
        unique_keys(s),
        0 <= i < s.len(),
        p.1 == s[i].slug@,
    ensures
        all_pairs(s).contains(p) == market_pairs(s[i]).contains(p),
{
    if all_pairs(s).contains(p) {
        let j = choose|j: int| 0 <= j < s.len() && #[trigger] market_pairs(s[j]).contains(p);
        assert(s[j].slug@ == p.1);
        if j != i {
            if j < i {
                assert(s[j].key_of() != s[i].key_of());
            } else {
                assert(s[i].key_of() != s[j].key_of());
            }
        }
    }
    if market_pairs(s[i]).contains(p) {
        assert(market_pairs(s[i]).contains(p));
    }
}

proof fn lemma_all_pairs_push(s: Seq<Market>, m: Market)
    ensures
        all_pairs(s.push(m)) == all_pairs(s) + market_pairs(m),
{
    let t = s.push(m);
    assert forall|p: (IndexKey, Seq<char>)| #[trigger] all_pairs(t).contains(p) == (all_pairs(s) + market_pairs(
        m,
    )).contains(p) by {
        if all_pairs(s).contains(p) {
            let i = choose|i: int| 0 <= i < s.len() && #[trigger] market_pairs(s[i]).contains(p);
            assert(t[i] == s[i]);
        }
        if market_pairs(m).contains(p) {
            assert(t[s.len() as int] == m);
        }
        if all_pairs(t).contains(p) {
            let i = choose|i: int| 0 <= i < t.len() && #[trigger] market_pairs(t[i]).contains(p);
            if i < s.len() {
                assert(t[i] == s[i]);
            }
        }
    }
    assert(all_pairs(t) =~= all_pairs(s) + market_pairs(m));
}

proof fn lemma_all_pairs_update(s: Seq<Market>, i: int, m: Market)
    requires
        unique_keys(s),
        0 <= i < s.len(),
        m.slug@ == s[i].slug@,
    ensures
        all_pairs(s.update(i, m)) == (all_pairs(s) - market_pairs(s[i])) + market_pairs(m),
{
    let t = s.update(i, m);
    let slug = m.slug@;
    assert(unique_keys(t)) by {
        assert forall|x: int, y: int| 0 <= x < y < t.len() implies t[x].key_of() != t[y].key_of() by {
            assert(s[x].key_of() != s[y].key_of());
        }
    }
    assert forall|p: (IndexKey, Seq<char>)| #[trigger] all_pairs(t).contains(p) == ((all_pairs(s) - market_pairs(
        s[i],
    )) + market_pairs(m)).contains(p) by {
        if p.1 == slug {
            lemma_pairs_of_slug(s, i, p);
            lemma_pairs_of_slug(t, i, p);
        } else {
            if all_pairs(s).contains(p) {
                let j = choose|j: int| 0 <= j < s.len() && #[trigger] market_pairs(s[j]).contains(p);
                assert(j != i);
                assert(t[j] == s[j]);
            }
            if all_pairs(t).contains(p) {
                let j = choose|j: int| 0 <= j < t.len() && #[trigger] market_pairs(t[j]).contains(p);
                assert(j != i);
                assert(t[j] == s[j]);
            }
        }
    }
    assert(all_pairs(t) =~= (all_pairs(s) - market_pairs(s[i])) + market_pairs(m));
}

proof fn lemma_all_pairs_remove(s: Seq<Market>, i: int)
    requires
        unique_keys(s),
        0 <= i < s.len(),
    ensures
        all_pairs(s.remove(i)) == all_pairs(s) - market_pairs(s[i]),
{
    let t = s.remove(i);
    let slug = s[i].slug@;
    assert forall|p: (IndexKey, Seq<char>)| #[trigger] all_pairs(t).contains(p) == (all_pairs(s) - market_pairs(
        s[i],
    )).contains(p) by {
        if p.1 == slug {
            lemma_pairs_of_slug(s, i, p);
            if all_pairs(t).contains(p) {
                let j = choose|j: int| 0 <= j < t.len() && #[trigger] market_pairs(t[j]).contains(p);
                let k = if j < i { j } else { j + 1 };
                assert(t[j] == s[k]);
                assert(s[k].slug@ == slug);
                if k < i {
                    assert(s[k].key_of() != s[i].key_of());
                } else {
                    assert(s[i].key_of() != s[k].key_of());
                }
            }
        } else {
            if all_pairs(s).contains(p) {
                let j = choose|j: int| 0 <= j < s.len() && #[trigger] market_pairs(s[j]).contains(p);
                assert(j != i);
                if j < i {
                    assert(t[j] == s[j]);
                } else {
                    assert(t[j - 1] == s[j]);
                }
            }
            if all_pairs(t).contains(p) {
                let j = choose|j: int| 0 <= j < t.len() && #[trigger] market_pairs(t[j]).contains(p);
                if j < i {
                    assert(t[j] == s[j]);
                } else {
                    assert(t[j] == s[j + 1]);
                }
            }
        }
    }
    assert(all_pairs(t) =~= all_pairs(s) - market_pairs(s[i]));
}

/// The markets, one per slug, and their indexes.
#[derive(Debug)]
pub struct MarketRegistry {
    markets: KeyedList<Market>,
    indexes: MarketIndexes,
}

impl View for MarketRegistry {
    type V = Seq<Market>;

    closed spec fn view(&self) -> Seq<Market> {
        self.markets@
    }
}

/// The filters the registry answers over all its markets.
#[derive(Debug, Clone, Copy, PartialEq, Eq)]
enum MarketFilter {
    All,
    Live,
    Upcoming,
    Expired,
    MissingPtb,
    ExactPtb,
}

spec fn filter_spec(which: MarketFilter, now_ms: i64, m: Market) -> bool {
    match which {
        MarketFilter::All => true,
        MarketFilter::Live => live_spec(m, now_ms),
        MarketFilter::Upcoming => upcoming_spec(m, now_ms),
        MarketFilter::Expired => expired_spec(m, now_ms),
        MarketFilter::MissingPtb => missing_ptb_spec(m),
        MarketFilter::ExactPtb => captured_exact_spec(m),
    }
}

fn has_missing_ptb(m: &Market) -> (r: bool)
    ensures
        r == missing_ptb_spec(*m),
{
    match &m.price_to_beat_status {
        None => true,
        Some(s) => str_eq(s.as_str(), "pending_ptb") || str_eq(s.as_str(), "missing_ptb") || str_eq(
            s.as_str(),
            "invalid_ptb",
        ),
    }
}

fn passes(which: MarketFilter, now_ms: i64, m: &Market) -> (r: bool)
    ensures
        r == filter_spec(which, now_ms, *m),
{
    match which {
        MarketFilter::All => true,
        MarketFilter::Live => is_live_market(m, now_ms),
        MarketFilter::Upcoming => is_upcoming_market(m, now_ms),
        MarketFilter::Expired => is_expired_market(m, now_ms),
        MarketFilter::MissingPtb => has_missing_ptb(m),
        MarketFilter::ExactPtb => m.has_captured_exact_ptb(),
    }
}

impl MarketRegistry {
    #[verifier::type_invariant]
    closed spec fn inv(self) -> bool {
        &&& self.indexes.pairs() == all_pairs(self.markets@)
        &&& forall|t: Seq<char>| #[trigger] self.indexes.token_slug(t) is Some ==> {
            let s = self.indexes.token_slug(t)->0;
            &&& has_key(self.markets@, s)
            &&& holds_token(lookup_key(self.markets@, s)->0, t)
        }
    }

    /// The slug of the market a token is filed for.
    pub closed spec fn token_owner(&self, token: Seq<char>) -> Option<Seq<char>> {
        self.indexes.token_slug(token)
    }

    pub fn new() -> (r: MarketRegistry)
        ensures
            r@ == Seq::<Market>::empty(),
            forall|t: Seq<char>| #[trigger] r.token_owner(t) is None,
    {
        let markets = KeyedList::new();
        let indexes = MarketIndexes::new();
        assert(all_pairs(markets@) =~= Set::<(IndexKey, Seq<char>)>::empty());
        MarketRegistry { markets, indexes }
    }

    /// Slugs are distinct, and every token the registry knows names a market that holds it.
    pub fn check_invariant(&self)
        ensures
            unique_keys(self@),
            forall|t: Seq<char>| #[trigger] self.token_owner(t) is Some ==> lookup_key(
                self@,
                self.token_owner(t)->0,
            ) is Some && holds_token(lookup_key(self@, self.token_owner(t)->0)->0, t),
    {
        proof {
            use_type_invariant(self);
        }
        self.markets.check_unique();
    }

    /// Stores the market under its slug, in place of the market that slug had, and files
    /// it in the indexes; returns the market it replaced.
    pub fn insert_market(&mut self, market: Market) -> (r: Option<Market>)
        ensures
            r == lookup_key(old(self)@, market.slug@),
            lookup_key(final(self)@, market.slug@) == Some(market),
            forall|k: Seq<char>| k != market.slug@ ==> #[trigger] lookup_key(final(self)@, k) == lookup_key(
                old(self)@,
                k,
            ),
            final(self).token_owner(market.up_token_id@) == Some(market.slug@),
            final(self).token_owner(market.down_token_id@) == Some(market.slug@),
            r is None ==> final(self)@ == old(self)@.push(market),
            r is Some ==> final(self)@.len() == old(self)@.len(),
            forall|t: Seq<char>|
                t != market.up_token_id@ && t != market.down_token_id@ ==> #[trigger] final(self).token_owner(t) == (
                if r is Some && (t == r->0.up_token_id@ || t == r->0.down_token_id@) {
                    None::<Seq<char>>
                } else {
                    old(self).token_owner(t)
                }),
    {
        proof {
            use_type_invariant(&*self);
        }
        let ghost before = self.markets@;
        let mut whole = MarketRegistry::new();
        std::mem::swap(&mut whole, self);
        let MarketRegistry { mut markets, mut indexes } = whole;
        let ghost idx0 = indexes;
        markets.check_unique();
        let copy = market.duplicate();
        let r = match markets.position(market.slug.as_str()) {
            Some(i) => {
                let previous = markets.replace_at(i, copy);
                indexes.update(&previous, &market);
                proof {
                    lemma_all_pairs_update(before, i as int, market);
                    lemma_lookup_at(markets@, i as int);
                    assert forall|k: Seq<char>| k != market.slug@ implies #[trigger] lookup_key(markets@, k)
                        == lookup_key(before, k) by {
                        if has_key(before, k) {
                            let j = choose|j: int| 0 <= j < before.len() && #[trigger] before[j].key_of() == k;
                            lemma_lookup_at(before, j);
                            assert(markets@[j] == before[j]);
                            lemma_lookup_at(markets@, j);
                        } else if has_key(markets@, k) {
                            let j = choose|j: int| 0 <= j < markets@.len() && #[trigger] markets@[j].key_of() == k;
                            assert(markets@[j] == before[j]);
                        }
                    }
                    assert forall|t: Seq<char>| #[trigger] indexes.token_slug(t) is Some implies ({
                        let s = indexes.token_slug(t)->0;
                        &&& has_key(markets@, s)
                        &&& holds_token(lookup_key(markets@, s)->0, t)
                    }) by {
                        let s = indexes.token_slug(t)->0;
                        if holds_token(market, t) {
                            assert(s == market.slug@);
                            assert(markets@[i as int].key_of() == s);
                        } else {
                            assert(!holds_token(previous, t));
                            assert(idx0.token_slug(t) == indexes.token_slug(t));
                            assert(has_key(before, s));
                            if s == market.slug@ {
                                lemma_lookup_at(before, i as int);
                            } else {
                                let j = choose|j: int| 0 <= j < before.len() && #[trigger] before[j].key_of() == s;
                                assert(markets@[j] == before[j]);
                                assert(markets@[j].key_of() == s);
                            }
                        }
                    }
                }
                Some(previous)
            },
            None => {
                markets.insert(copy);
                indexes.insert(&market);
                proof {
                    lemma_all_pairs_push(before, market);
                    assert forall|t: Seq<char>| #[trigger] indexes.token_slug(t) is Some implies ({
                        let s = indexes.token_slug(t)->0;
                        &&& has_key(markets@, s)
                        &&& holds_token(lookup_key(markets@, s)->0, t)
                    }) by {
                        let s = indexes.token_slug(t)->0;
                        if holds_token(market, t) {
                            assert(s == market.slug@);
                            assert(markets@[before.len() as int].key_of() == s);
                        } else {
                            assert(idx0.token_slug(t) == indexes.token_slug(t));
                            assert(has_key(before, s));
                            let j = choose|j: int| 0 <= j < before.len() && #[trigger] before[j].key_of() == s;
                            assert(markets@[j] == before[j]);
                            assert(markets@[j].key_of() == s);
                            assert(s != market.slug@);
                        }
                    }
                }
                None
            },
        };
        *self = MarketRegistry { markets, indexes };
        r
    }

    /// Same as `insert_market`.
    pub fn update_market(&mut self, market: Market) -> (r: Option<Market>)
        ensures
            r == lookup_key(old(self)@, market.slug@),
            lookup_key(final(self)@, market.slug@) == Some(market),
            forall|k: Seq<char>| k != market.slug@ ==> #[trigger] lookup_key(final(self)@, k) == lookup_key(
                old(self)@,
                k,
            ),
            final(self).token_owner(market.up_token_id@) == Some(market.slug@),
            final(self).token_owner(market.down_token_id@) == Some(market.slug@),
            r is None ==> final(self)@ == old(self)@.push(market),
            r is Some ==> final(self)@.len() == old(self)@.len(),
            forall|t: Seq<char>|
                t != market.up_token_id@ && t != market.down_token_id@ ==> #[trigger] final(self).token_owner(t) == (
                if r is Some && (t == r->0.up_token_id@ || t == r->0.down_token_id@) {
                    None::<Seq<char>>
                } else {
                    old(self).token_owner(t)
                }),
    {
        self.insert_market(market)
    }

    /// Removes the market with the slug, and its index entries; returns it.
    pub fn remove_market(&mut self, slug: &MarketSlug) -> (r: Option<Market>)
        ensures
            r == lookup_key(old(self)@, slug@),
            lookup_key(final(self)@, slug@) is None,
            forall|k: Seq<char>| k != slug@ ==> #[trigger] lookup_key(final(self)@, k) == lookup_key(
                old(self)@,
                k,
            ),
            r is None ==> final(self)@ == old(self)@,
            r is Some ==> final(self).token_owner(r->0.up_token_id@) is None,
            r is Some ==> final(self).token_owner(r->0.down_token_id@) is None,
            forall|t: Seq<char>|
                (r is None || (t != r->0.up_token_id@ && t != r->0.down_token_id@)) ==> #[trigger] final(self).token_owner(t)
                    == old(self).token_owner(t),
    {
        proof {
            use_type_invariant(&*self);
        }
        let ghost before = self.markets@;
        let mut whole = MarketRegistry::new();
        std::mem::swap(&mut whole, self);
        let MarketRegistry { mut markets, mut indexes } = whole;
        let ghost idx0 = indexes;
        markets.check_unique();
        let removed = markets.remove(slug.as_str());
        match &removed {
            Some(m) => {
                indexes.remove(m);
                proof {
                    let i = choose|i: int| 0 <= i < before.len() && markets@ == before.remove(i);
                    assert(before.remove(i).len() == before.len() - 1);
                    // The removed market is the one at `i`.
                    assert(has_key(before, slug@));
                    let c = choose|c: int| 0 <= c < before.len() && #[trigger] before[c].key_of() == slug@;
                    lemma_lookup_at(before, c);
                    assert(before[c] == *m);
                    if i != c {
                        if c < i {
                            assert(markets@[c] == before[c]);
                        } else {
                            assert(markets@[c - 1] == before[c]);
                        }
                        assert(has_key(markets@, slug@));
                    }
                    lemma_all_pairs_remove(before, i);
                    assert forall|t: Seq<char>| #[trigger] indexes.token_slug(t) is Some implies ({
                        let s = indexes.token_slug(t)->0;
                        &&& has_key(markets@, s)
                        &&& holds_token(lookup_key(markets@, s)->0, t)
                    }) by {
                        let s = indexes.token_slug(t)->0;
                        assert(!holds_token(*m, t));
                        assert(idx0.token_slug(t) == indexes.token_slug(t));
                        assert(has_key(before, s));
                        let j = choose|j: int| 0 <= j < before.len() && #[trigger] before[j].key_of() == s;
                        lemma_lookup_at(before, j);
                        assert(j != i);
                        if j < i {
                            assert(markets@[j] == before[j]);
                            lemma_lookup_at(markets@, j);
                        } else {
                            assert(markets@[j - 1] == before[j]);
                            lemma_lookup_at(markets@, j - 1);
                        }
                    }
                }
            },
            None => {},
        }
        *self = MarketRegistry { markets, indexes };
        removed
    }

    pub fn get_market(&self, slug: &MarketSlug) -> (r: Option<&Market>)
        ensures
            deref_item(r) == lookup_key(self@, slug@),
    {
        self.markets.get(slug.as_str())
    }

    pub fn contains_market(&self, slug: &MarketSlug) -> (r: bool)
        ensures
            r == has_key(self@, slug@),
    {
        self.markets.contains(slug.as_str())
    }

    fn select(&self, which: MarketFilter, now_ms: i64) -> (r: Vec<&Market>)
        ensures
            deref_all(r@) == self@.filter(|m: Market| filter_spec(which, now_ms, m)),
    {
        let ghost pred = |m: Market| filter_spec(which, now_ms, m);
        let items = self.markets.items();
        let mut out: Vec<&Market> = Vec::new();
        let mut i: usize = 0;
        assert(items@.take(0) =~= Seq::<Market>::empty());
        assert(deref_all(out@) =~= Seq::<Market>::empty());
        while i < items.len()
            invariant
                i <= items.len(),
                items@ == self@,
                pred == (|m: Market| filter_spec(which, now_ms, m)),
                deref_all(out@) == items@.take(i as int).filter(pred),
            decreases items.len() - i,
        {
            let m = &items[i];
            proof {
                assert(items@.take(i + 1) =~= items@.take(i as int).push(*m));
                items@.take(i as int).lemma_filter_push(*m, pred);
            }
            let ghost before = out@;
            if passes(which, now_ms, m) {
                out.push(m);
                assert(deref_all(out@) =~= deref_all(before).push(*m));
            }
            i = i + 1;
        }
        assert(items@.take(i as int) =~= items@);
        out
    }

    /// All markets, in insertion order.
    pub fn all_markets(&self) -> (r: Vec<&Market>)
        ensures
            deref_all(r@) == self@,
    {
        let r = self.select(MarketFilter::All, 0);
        assert(self@.filter(|m: Market| filter_spec(MarketFilter::All, 0, m)) =~= self@) by {
            self@.lemma_filter_len(|m: Market| filter_spec(MarketFilter::All, 0, m));
            lemma_filter_all_true(self@, |m: Market| filter_spec(MarketFilter::All, 0, m));
        }
        r
    }

    /// The markets live at `now_ms`.
    pub fn live_markets(&self, now_ms: i64) -> (r: Vec<&Market>)
        ensures
            deref_all(r@) == self@.filter(|m: Market| live_spec(m, now_ms)),
    {
        let r = self.select(MarketFilter::Live, now_ms);
        assert((|m: Market| filter_spec(MarketFilter::Live, now_ms, m)) =~= (|m: Market| live_spec(m, now_ms)));
        r
    }

    /// The markets not yet open at `now_ms`.
    pub fn upcoming_markets(&self, now_ms: i64) -> (r: Vec<&Market>)
        ensures
            deref_all(r@) == self@.filter(|m: Market| upcoming_spec(m, now_ms)),
    {
        let r = self.select(MarketFilter::Upcoming, now_ms);
        assert((|m: Market| filter_spec(MarketFilter::Upcoming, now_ms, m)) =~= (|m: Market| upcoming_spec(m, now_ms)));
        r
    }

    /// The markets closed or ended at `now_ms`.
    pub fn expired_markets(&self, now_ms: i64) -> (r: Vec<&Market>)
        ensures
            deref_all(r@) == self@.filter(|m: Market| expired_spec(m, now_ms)),
    {
        let r = self.select(MarketFilter::Expired, now_ms);
        assert((|m: Market| filter_spec(MarketFilter::Expired, now_ms, m)) =~= (|m: Market| expired_spec(m, now_ms)));
        r
    }

    /// The markets whose price to beat is not captured yet.
    pub fn markets_missing_ptb(&self) -> (r: Vec<&Market>)
        ensures
            deref_all(r@) == self@.filter(|m: Market| missing_ptb_spec(m)),
    {
        let r = self.select(MarketFilter::MissingPtb, 0);
        assert((|m: Market| filter_spec(MarketFilter::MissingPtb, 0, m)) =~= (|m: Market| missing_ptb_spec(m)));
        r
    }

    /// The markets with an exact price to beat.
    pub fn markets_with_exact_ptb(&self) -> (r: Vec<&Market>)
        ensures
            deref_all(r@) == self@.filter(|m: Market| captured_exact_spec(m)),
    {
        let r = self.select(MarketFilter::ExactPtb, 0);
        assert((|m: Market| filter_spec(MarketFilter::ExactPtb, 0, m)) =~= (|m: Market| captured_exact_spec(m)));
        r
    }

    fn by_key(&self, key: IndexKey) -> (r: Vec<&Market>)
        ensures
            holds_exactly(r@, self@, |m: Market| market_pairs(m).contains((key, m.slug@))),
    {
        proof {
            use_type_invariant(self);
        }
        self.markets.check_unique();
        let slugs = match key {
            IndexKey::ByAsset(a) => self.indexes.slugs_by_asset(a),
            IndexKey::ByTimeframe(t) => self.indexes.slugs_by_timeframe(t),
            IndexKey::ByAssetAndEnd(a, e) => self.indexes.slugs_by_asset_and_end_ms(a, e),
        };
        let ghost set = slugs_under(self.indexes.pairs(), key);
        let ghost pred = |m: Market| market_pairs(m).contains((key, m.slug@));
        let mut out: Vec<&Market> = Vec::new();
        let mut i: usize = 0;
        while i < slugs.len()
            invariant
                i <= slugs.len(),
                unique_keys(self@),
                set == slugs_under(self.indexes.pairs(), key),
                self.indexes.pairs() == all_pairs(self@),
                pred == (|m: Market| market_pairs(m).contains((key, m.slug@))),
                forall|a: int, b: int| 0 <= a < b < slugs@.len() ==> slugs@[a]@ != slugs@[b]@,
                forall|s: Seq<char>| set.contains(s) <==> #[trigger] listed(slugs@, s),
                out@.len() == i,
                forall|a: int| 0 <= a < i ==> (*#[trigger] out@[a]).slug@ == slugs@[a]@ && has_key(self@, slugs@[a]@)
                    && lookup_key(self@, slugs@[a]@) == Some(*out@[a]),
            decreases slugs.len() - i,
        {
            proof {
                let s = slugs@[i as int]@;
                assert(listed(slugs@, s));
                assert(all_pairs(self@).contains((key, s)));
                let j = choose|j: int| 0 <= j < self@.len() && #[trigger] market_pairs(self@[j]).contains((key, s));
                assert(self@[j].slug@ == s);
                assert(self@[j].key_of() == s);
            }
            let m = self.markets.get(slugs[i].as_str());
            match m {
                Some(m) => {
                    out.push(m);
                },
                None => {
                    assert(false);
                },
            }
            i = i + 1;
        }
        proof {
            assert forall|a: int, b: int| 0 <= a < b < out@.len() implies out@[a].slug@ != out@[b].slug@ by {
                assert(out@[a].slug@ == slugs@[a]@);
                assert(out@[b].slug@ == slugs@[b]@);
            }
            assert forall|m: Market| #[trigger] refers_to(out@, m) <==> holds_market(self@, m) && pred(m) by {
                if refers_to(out@, m) {
                    let a = choose|a: int| 0 <= a < out@.len() && *out@[a] == m;
                    let s = slugs@[a]@;
                    assert(lookup_key(self@, s) == Some(m));
                    let j = choose|j: int| 0 <= j < self@.len() && #[trigger] self@[j].key_of() == s;
                    assert(self@[j] == m);
                    assert(listed(slugs@, s));
                    assert(set.contains(s));
                    assert(all_pairs(self@).contains((key, s)));
                    let k = choose|k: int| 0 <= k < self@.len() && #[trigger] market_pairs(self@[k]).contains((key, s));
                    assert(self@[k].slug@ == s);
                    lemma_lookup_at(self@, k);
                    assert(self@[k] == m);
                }
                if holds_market(self@, m) && pred(m) {
                    let j = choose|j: int| 0 <= j < self@.len() && self@[j] == m;
                    assert(market_pairs(self@[j]).contains((key, m.slug@)));
                    assert(all_pairs(self@).contains((key, m.slug@)));
                    assert(set.contains(m.slug@));
                    assert(listed(slugs@, m.slug@));
                    let a = choose|a: int| 0 <= a < slugs@.len() && #[trigger] slugs@[a]@ == m.slug@;
                    lemma_lookup_at(self@, j);
                    assert(*out@[a] == m);
                }
            }
        }
        out
    }

    /// The markets of `asset`, each once.
    pub fn markets_by_asset(&self, asset: Asset) -> (r: Vec<&Market>)
        ensures
            holds_exactly(r@, self@, |m: Market| m.asset == asset),
    {
        let r = self.by_key(IndexKey::ByAsset(asset));
        assert((|m: Market| market_pairs(m).contains((IndexKey::ByAsset(asset), m.slug@))) =~= (|m: Market|
            m.asset == asset));
        r
    }

    /// The markets of `timeframe`, each once.
    pub fn markets_by_timeframe(&self, timeframe: Timeframe) -> (r: Vec<&Market>)
        ensures
            holds_exactly(r@, self@, |m: Market| m.timeframe == timeframe),
    {
        let r = self.by_key(IndexKey::ByTimeframe(timeframe));
        assert((|m: Market| market_pairs(m).contains((IndexKey::ByTimeframe(timeframe), m.slug@))) =~= (|m: Market|
            m.timeframe == timeframe));
        r
    }

    /// The markets of `asset` that end at `end_ms`, each once.
    pub fn markets_by_asset_and_end(&self, asset: Asset, end_ms: i64) -> (r: Vec<&Market>)
        ensures
            holds_exactly(r@, self@, |m: Market| m.asset == asset && m.end_ms == end_ms),
    {
        let r = self.by_key(IndexKey::ByAssetAndEnd(asset, end_ms));
        assert((|m: Market| market_pairs(m).contains((IndexKey::ByAssetAndEnd(asset, end_ms), m.slug@))) =~= (|m: Market|
            m.asset == asset && m.end_ms == end_ms));
        r
    }

    /// The market the token was last filed for, if it is still there.
    pub fn market_by_token_id(&self, token_id: &TokenId) -> (r: Option<&Market>)
        ensures
            match self.token_owner(token_id@) {
                Some(s) => r is Some && lookup_key(self@, s) == Some(*r->0) && holds_token(*r->0, token_id@),
                None => r is None,
            },
    {
        proof {
            use_type_invariant(self);
        }
        let slug = match self.indexes.slug_by_token_id(token_id) {
            Some(s) => s,
            None => return None,
        };
        self.markets.get(slug.as_str())
    }

    fn mark(&mut self, slug: &MarketSlug, missing: bool) -> (r: bool)
        ensures
            r == has_key(old(self)@, slug@),
            forall|t: Seq<char>| #[trigger] final(self).token_owner(t) == old(self).token_owner(t),
            r ==> exists|i: int| 0 <= i < old(self)@.len() && old(self)@[i].slug@ == slug@
                && final(self)@.len() == old(self)@.len() && (forall|j: int| 0 <= j < old(self)@.len() && j != i
                ==> final(self)@[j] == old(self)@[j]) && final(self)@[i] == (Market {
                price_to_beat: None,
                price_to_beat_status: final(self)@[i].price_to_beat_status,
                ..old(self)@[i]
            }) && opt_text(final(self)@[i].price_to_beat_status) == Some(
                if missing { "missing_ptb"@ } else { "pending_ptb"@ },
            ),
            !r ==> final(self)@ == old(self)@,
    {
        proof {
            use_type_invariant(&*self);
        }
        let ghost before = self.markets@;
        match self.markets.position(slug.as_str()) {
            Some(i) => {
                self.markets.check_unique();
                let mut m = self.markets.at(i).duplicate();
                if missing {
                    m.mark_missing_ptb();
                } else {
                    m.mark_pending_ptb();
                }
                let mut whole = MarketRegistry::new();
                std::mem::swap(&mut whole, self);
                let MarketRegistry { mut markets, indexes } = whole;
                let ghost m2 = m;
                markets.replace_at(i, m);
                proof {
                    lemma_all_pairs_update(before, i as int, m2);
                    assert(market_pairs(m2) =~= market_pairs(before[i as int]));
                    assert(all_pairs(markets@) =~= all_pairs(before));
                    assert(markets@ == before.update(i as int, m2));
                    assert(markets@[i as int] == m2);
                    assert(m2 == (Market { price_to_beat: None, price_to_beat_status: m2.price_to_beat_status, ..before[i as int] }));
                    assert(opt_text(m2.price_to_beat_status) == Some(if missing { "missing_ptb"@ } else { "pending_ptb"@ }));
                    assert(before[i as int].slug@ == slug@);
                    assert(forall|j: int| 0 <= j < before.len() && j != i ==> markets@[j] == before[j]);
                    assert forall|t: Seq<char>| #[trigger] indexes.token_slug(t) is Some implies ({
                        let s = indexes.token_slug(t)->0;
                        &&& has_key(markets@, s)
                        &&& holds_token(lookup_key(markets@, s)->0, t)
                    }) by {
                        let s = indexes.token_slug(t)->0;
                        let j = choose|j: int| 0 <= j < before.len() && #[trigger] before[j].key_of() == s;
                        lemma_lookup_at(before, j);
                        assert(markets@[j].key_of() == s);
                        lemma_lookup_at(markets@, j);
                    }
                }
                *self = MarketRegistry { markets, indexes };
                assert(old(self)@ == before);
                assert(self@ == before.update(i as int, m2));
                assert(old(self)@[i as int].slug@ == slug@ && self@.len() == old(self)@.len() && (forall|j: int|
                    0 <= j < old(self)@.len() && j != i ==> self@[j] == old(self)@[j]) && self@[i as int] == (Market {
                    price_to_beat: None,
                    price_to_beat_status: self@[i as int].price_to_beat_status,
                    ..old(self)@[i as int]
                }) && opt_text(self@[i as int].price_to_beat_status) == Some(
                    if missing { "missing_ptb"@ } else { "pending_ptb"@ },
                ));
                true
            },
            None => false,
        }
    }

    /// Marks the market's price to beat pending; false where there is no such market.
    pub fn mark_market_pending_ptb(&mut self, slug: &MarketSlug) -> (r: bool)
        ensures
            r == has_key(old(self)@, slug@),
            r ==> exists|i: int| 0 <= i < old(self)@.len() && old(self)@[i].slug@ == slug@
                && final(self)@.len() == old(self)@.len() && (forall|j: int| 0 <= j < old(self)@.len() && j != i
                ==> final(self)@[j] == old(self)@[j]) && final(self)@[i] == (Market {
                price_to_beat: None,
                price_to_beat_status: final(self)@[i].price_to_beat_status,
                ..old(self)@[i]
            }) && opt_text(final(self)@[i].price_to_beat_status) == Some("pending_ptb"@),
            !r ==> final(self)@ == old(self)@,
    {
        self.mark(slug, false)
    }

    /// Marks the market's price to beat missing; false where there is no such market.
    pub fn mark_market_missing_ptb(&mut self, slug: &MarketSlug) -> (r: bool)
        ensures
            r == has_key(old(self)@, slug@),
            r ==> exists|i: int| 0 <= i < old(self)@.len() && old(self)@[i].slug@ == slug@
                && final(self)@.len() == old(self)@.len() && (forall|j: int| 0 <= j < old(self)@.len() && j != i
                ==> final(self)@[j] == old(self)@[j]) && final(self)@[i] == (Market {
                price_to_beat: None,
                price_to_beat_status: final(self)@[i].price_to_beat_status,
                ..old(self)@[i]
            }) && opt_text(final(self)@[i].price_to_beat_status) == Some("missing_ptb"@),
            !r ==> final(self)@ == old(self)@,
    {
        self.mark(slug, true)
    }

    pub fn len(&self) -> (r: usize)
        ensures
            r == self@.len(),
    {
        self.markets.len()
    }

    pub fn is_empty(&self) -> (r: bool)
        ensures
            r == (self@.len() == 0),
    {
        self.markets.len() == 0
    }

    pub fn clear(&mut self)
        ensures
            final(self)@ == Seq::<Market>::empty(),
            forall|t: Seq<char>| #[trigger] final(self).token_owner(t) is None,
    {
        *self = MarketRegistry::new();
    }
}

proof fn lemma_filter_all_true(s: Seq<Market>, pred: spec_fn(Market) -> bool)
    requires
        forall|m: Market| #[trigger] pred(m),
    ensures
        s.filter(pred) == s,
    decreases s.len(),
{
    reveal_with_fuel(Seq::filter, 1);
    if s.len() > 0 {
        lemma_filter_all_true(s.drop_last(), pred);
        assert(s.drop_last().push(s.last()) =~= s);
    }
}

} // verus!
