//! One round of the pipeline's periodic tasks, decided over the stores; the tasks'
//! timing and locking stand outside.
use vstd::prelude::*;

use crate::book_store::store::BookStore;
use crate::clob::ordering::{ascending, lemma_text_lt_irreflexive, sorted_distinct, text_lt};
use crate::clob::subscription::{
    desired_tokens_from_registry, lists_set, opens_within, token_set, token_views, tokens_of, ClobSubscription,
    SubscriptionDiff,
};
use crate::keyed::{has_key, lookup_key, unique_keys, Keyed};
use crate::registry::lifecycle::{live_spec, upcoming_spec};
use crate::types::book::Book;
use crate::types::ids::TokenId;
use crate::ptb_store::matcher::{
    applied_ptb, apply_ptb_to_market, expected_rtds_symbol_for_market, expected_symbol_spec, match_market_to_tick,
    match_outcome, match_ptb,
};
use crate::ptb_store::store::{lookup_ptb, PtbStore};
use crate::registry::market_registry::{deref_all, MarketRegistry};
use crate::tick_store::{tick_index, TickStore};
use crate::types::market::Market;
use crate::types::ptb::PriceToBeat;
use crate::types::tick::Tick;
use crate::config::Config;
use crate::telemetry::alerts::HealthAlert;
use crate::telemetry::health::{alerts_view, health_spec, run_health_checks, HealthCheckInput};
use crate::telemetry::metrics::{collect_telemetry_snapshot, snapshot_spec, TelemetryCounters, TelemetrySnapshot};
use crate::types::evaluation::EvaluationRow;

verus! {

/// The tick the store holds for the market's opening, if any.
pub open spec fn opening_tick_in(ticks: Seq<Tick>, m: Market) -> Option<Tick> {
    match tick_index(ticks, expected_symbol_spec(m), m.open_ms) {
        Some(i) => Some(ticks[i]),
        None => None,
    }
}

/// `p` is the record matching `m` against `tick` at `now_ms` gives.
pub open spec fn matched_record(m: Market, tick: Option<Tick>, now_ms: i64, p: PriceToBeat) -> bool {
    exists|r| #[trigger] match_outcome(m, tick, now_ms, r) && match_ptb(r) == p
}

/// After the round, the market `m` (as it was) has its record in the store and the
/// record carried onto the registry's market.
pub open spec fn matched_market(
    m: Market,
    ticks: Seq<Tick>,
    now_ms: i64,
    registry: Seq<Market>,
    ptbs: Seq<PriceToBeat>,
) -> bool {
    &&& lookup_ptb(ptbs, m.slug@) is Some
    &&& matched_record(m, opening_tick_in(ticks, m), now_ms, lookup_ptb(ptbs, m.slug@)->0)
    &&& lookup_key(registry, m.slug@) is Some
    &&& applied_ptb(m, lookup_ptb(ptbs, m.slug@)->0, lookup_key(registry, m.slug@)->0)
}

/// Matches every market of the registry against its opening tick, stores the record,
/// and carries it onto the market.
pub fn ptb_matcher_round(registry: &mut MarketRegistry, tick_store: &TickStore, ptb_store: &mut PtbStore, now_ms: i64)
    ensures
        final(registry)@.len() == old(registry)@.len(),
        forall|k: Seq<char>| #[trigger] has_key(final(registry)@, k) == has_key(old(registry)@, k),
        forall|i: int|
            0 <= i < old(registry)@.len() ==> matched_market(
                #[trigger] old(registry)@[i],
                tick_store@,
                now_ms,
                final(registry)@,
                final(ptb_store)@,
            ),
        forall|k: Seq<char>| !has_key(old(registry)@, k) ==> #[trigger] lookup_ptb(final(ptb_store)@, k) == lookup_ptb(
            old(ptb_store)@,
            k,
        ),
{
    registry.check_invariant();
    let markets: Vec<Market> = {
        let refs = registry.all_markets();
        let mut copies: Vec<Market> = Vec::new();
        let mut j: usize = 0;
        while j < refs.len()
            invariant
                j <= refs@.len(),
                copies@ == deref_all(refs@).take(j as int),
            decreases refs@.len() - j,
        {
            proof {
                assert(deref_all(refs@).take(j + 1) =~= deref_all(refs@).take(j as int).push(*refs@[j as int]));
            }
            copies.push(refs[j].duplicate());
            j = j + 1;
        }
        assert(deref_all(refs@).take(j as int) =~= deref_all(refs@));
        copies
    };
    let ghost all = markets@;
    let ghost reg0 = registry@;
    let ghost ptb0 = ptb_store@;
    let mut i: usize = 0;
    proof {
        assert forall|j: int| 0 <= j < all.len() implies #[trigger] lookup_key(registry@, all[j].slug@) == Some(all[j]) by {
            crate::keyed::lemma_lookup_at(reg0, j);
        }
    }
    while i < markets.len()
        invariant
            i <= markets@.len(),
            all == markets@,
            all == reg0,
            reg0 == old(registry)@,
            ptb0 == old(ptb_store)@,
            unique_keys(reg0),
            registry@.len() == reg0.len(),
            forall|k: Seq<char>| #[trigger] has_key(registry@, k) == has_key(reg0, k),
            forall|j: int| i <= j < all.len() ==> #[trigger] lookup_key(registry@, all[j].slug@) == Some(all[j]),
            forall|j: int| 0 <= j < i ==> matched_market(#[trigger] all[j], tick_store@, now_ms, registry@, ptb_store@),
            forall|k: Seq<char>| !has_key(reg0, k) ==> #[trigger] lookup_ptb(ptb_store@, k) == lookup_ptb(ptb0, k),
        decreases markets@.len() - i,
    {
        let market = &markets[i];
        let symbol = expected_rtds_symbol_for_market(market);
        let tick = tick_store.get_tick(&symbol, market.open_ms);
        let result = match_market_to_tick(market, tick, now_ms);
        let ghost r = result;
        let ptb = result.into_ptb();
        let ghost before_ptbs = ptb_store@;
        let ghost before_reg = registry@;
        ptb_store.insert_ptb(ptb.duplicate());
        let mut updated = market.duplicate();
        apply_ptb_to_market(&mut updated, &ptb);
        let ghost upd = updated;
        registry.update_market(updated);
        proof {
            let m = all[i as int];
            assert(*market == m);
            assert(opening_tick_in(tick_store@, m) == match tick {
                Some(t) => Some(*t),
                None => None,
            });
            assert(matched_record(m, opening_tick_in(tick_store@, m), now_ms, ptb));
            assert(upd.slug@ == m.slug@);
            lemma_distinct_slugs(reg0, i as int);
            assert forall|k: Seq<char>| #[trigger] has_key(registry@, k) == has_key(reg0, k) by {
                if k == m.slug@ {
                    assert(lookup_key(registry@, k) is Some);
                    assert(lookup_key(before_reg, k) is Some);
                } else {
                    assert(lookup_key(registry@, k) == lookup_key(before_reg, k));
                }
            }
            assert forall|j: int| i + 1 <= j < all.len() implies #[trigger] lookup_key(registry@, all[j].slug@) == Some(
                all[j],
            ) by {
                assert(all[j].slug@ != m.slug@);
            }
            assert forall|j: int| 0 <= j < i + 1 implies matched_market(
                #[trigger] all[j],
                tick_store@,
                now_ms,
                registry@,
                ptb_store@,
            ) by {
                if j < i {
                    assert(all[j].slug@ != m.slug@);
                    assert(lookup_key(registry@, all[j].slug@) == lookup_key(before_reg, all[j].slug@));
                    assert(lookup_ptb(ptb_store@, all[j].slug@) == lookup_ptb(before_ptbs, all[j].slug@));
                }
            }
            assert forall|k: Seq<char>| !has_key(reg0, k) implies #[trigger] lookup_ptb(ptb_store@, k) == lookup_ptb(
                ptb0,
                k,
            ) by {
                assert(has_key(reg0, m.slug@)) by {
                    assert(reg0[i as int].slug@ == m.slug@);
                }
            }
        }
        i = i + 1;
    }
}

proof fn lemma_distinct_slugs(s: Seq<Market>, i: int)
    requires
        unique_keys(s),
        0 <= i < s.len(),
    ensures
        forall|j: int| 0 <= j < s.len() && j != i ==> #[trigger] s[j].slug@ != s[i].slug@,
{
    assert forall|j: int| 0 <= j < s.len() && j != i implies #[trigger] s[j].slug@ != s[i].slug@ by {
        if j < i {
            assert(s[j].key_of() != s[i].key_of());
        } else {
            assert(s[i].key_of() != s[j].key_of());
        }
    }
}


/// How far ahead of their open upcoming markets are streamed: five minutes.
pub const UPCOMING_WINDOW_MS: i64 = 300000i64;

/// The tokens the feed should stream at `now_ms`: those of the live markets and of the
/// upcoming markets opening within the window.
pub open spec fn wanted_tokens(markets: Seq<Market>, now_ms: i64) -> Set<Seq<char>> {
    tokens_of(markets.filter(|m: Market| live_spec(m, now_ms))) + tokens_of(
        markets.filter(|m: Market| upcoming_spec(m, now_ms)).filter(opens_within(now_ms, UPCOMING_WINDOW_MS)),
    )
}

/// `chosen` holds, in text order, the first `max` wanted tokens in text order.
pub open spec fn first_tokens(chosen: Seq<TokenId>, wanted: Set<Seq<char>>, max: usize) -> bool {
    &&& ascending(chosen)
    &&& token_set(chosen).subset_of(wanted)
    &&& chosen.len() == if wanted.len() < max {
        wanted.len()
    } else {
        max as nat
    }
    &&& forall|t: Seq<char>, k: int|
        #![trigger wanted.contains(t), chosen[k]]
        wanted.contains(t) && !token_set(chosen).contains(t) && 0 <= k < chosen.len() ==> text_lt(chosen[k]@, t)
}

/// The token is among `chosen`.
pub open spec fn kept_token(chosen: Seq<TokenId>) -> spec_fn(Book) -> bool {
    |b: Book| exists|k: int| 0 <= k < chosen.len() && #[trigger] chosen[k]@ == b.token_id@
}

/// Chooses the first `max_subscription_tokens` wanted tokens in text order, makes them
/// the subscription, keeps only their books, and reports the tokens it subscribed to
/// and those it dropped.
pub fn clob_subscription_round(
    registry: &MarketRegistry,
    book_store: &mut BookStore,
    subscription: &mut ClobSubscription,
    max_subscription_tokens: usize,
    now_ms: i64,
) -> (r: SubscriptionDiff)
    ensures
        exists|chosen: Seq<TokenId>|
            {
                &&& #[trigger] first_tokens(chosen, wanted_tokens(registry@, now_ms), max_subscription_tokens)
                &&& final(subscription)@ == token_set(chosen)
                &&& final(book_store)@ == old(book_store)@.filter(kept_token(chosen))
                &&& lists_set(r.subscribe@, token_set(chosen).difference(old(subscription)@))
                &&& lists_set(r.unsubscribe@, old(subscription)@.difference(token_set(chosen)))
            },
        final(subscription)@.len() <= max_subscription_tokens,
        forall|i: int|
            0 <= i < final(book_store)@.len() ==> #[trigger] final(subscription)@.contains(
                final(book_store)@[i].token_id@,
            ),
{
    let desired = desired_tokens_from_registry(registry, now_ms, UPCOMING_WINDOW_MS);
    let ghost wanted = wanted_tokens(registry@, now_ms);
    let mut sorted = sorted_distinct(&desired);
    proof {
        token_views(sorted@).unique_seq_to_set();
        assert(token_views(sorted@).to_set() == token_set(sorted@));
    }
    let ghost full = sorted@;
    sorted.truncate(max_subscription_tokens);
    let ghost chosen = sorted@;
    proof {
        assert(chosen == full.take(chosen.len() as int));
        assert(token_set(chosen).subset_of(wanted)) by {
            assert forall|t: Seq<char>| token_set(chosen).contains(t) implies wanted.contains(t) by {
                let k = choose|k: int| 0 <= k < token_views(chosen).len() && token_views(chosen)[k] == t;
                assert(token_views(full)[k] == t);
            }
        }
        assert forall|t: Seq<char>, k: int|
            #![trigger wanted.contains(t), chosen[k]]
            wanted.contains(t) && !token_set(chosen).contains(t) && 0 <= k < chosen.len() implies text_lt(
            chosen[k]@,
            t,
        ) by {
            assert(token_set(full).contains(t));
            let j = choose|j: int| 0 <= j < token_views(full).len() && token_views(full)[j] == t;
            if j < chosen.len() {
                assert(token_views(chosen)[j] == t);
            }
            assert(chosen[k] == full[k]);
            assert(token_views(full)[j] == full[j]@);
        }
    }
    let mut copy: Vec<TokenId> = Vec::new();
    let mut i: usize = 0;
    while i < sorted.len()
        invariant
            i <= sorted@.len(),
            copy@ == sorted@.take(i as int),
        decreases sorted@.len() - i,
    {
        proof {
            assert(sorted@.take(i + 1) =~= sorted@.take(i as int).push(sorted@[i as int]));
        }
        copy.push(sorted[i].duplicate());
        i = i + 1;
    }
    assert(sorted@.take(i as int) =~= sorted@);
    let diff = subscription.set_desired_tokens(copy);
    book_store.retain_tokens(sorted);
    proof {
        assert(first_tokens(chosen, wanted, max_subscription_tokens));
        assert((|b: Book| exists|k: int| 0 <= k < chosen.len() && #[trigger] chosen[k]@ == b.token_id@) =~= kept_token(chosen));
        assert(token_views(chosen) =~= token_views(full).take(chosen.len() as int));
        assert(token_views(chosen).no_duplicates());
        token_views(chosen).unique_seq_to_set();
        let kept = old(book_store)@.filter(kept_token(chosen));
        old(book_store)@.filter_lemma(kept_token(chosen));
        assert forall|i: int| 0 <= i < kept.len() implies #[trigger] token_set(chosen).contains(kept[i].token_id@) by {
            assert(kept_token(chosen)(kept[i]));
            let k = choose|k: int| 0 <= k < chosen.len() && #[trigger] chosen[k]@ == kept[i].token_id@;
            assert(token_views(chosen)[k] == kept[i].token_id@);
        }
    }
    diff
}
/// One round of the health monitor: where telemetry is enabled, the alerts of the
/// snapshot of the stores at `now_ms`; none otherwise.
pub fn health_round(
    config: &Config,
    registry: &MarketRegistry,
    ptb_store: &PtbStore,
    book_store: &BookStore,
    evaluation_rows: &Vec<EvaluationRow>,
    counters: TelemetryCounters,
    now_ms: i64,
) -> (r: Vec<HealthAlert>)
    ensures
        !config.telemetry.enabled ==> r@.len() == 0,
        config.telemetry.enabled ==> exists|s: TelemetrySnapshot|
            #[trigger] snapshot_spec(
                s,
                registry@,
                ptb_store@,
                book_store@,
                evaluation_rows@,
                counters,
                now_ms,
                config.eval.max_book_age_ms as i64,
            ) && alerts_view(r@) == health_spec(*config, s),
{
    if !config.telemetry.enabled {
        return Vec::new();
    }
    let snapshot = collect_telemetry_snapshot(
        registry,
        ptb_store,
        book_store,
        evaluation_rows,
        counters,
        now_ms,
        config.eval.max_book_age_ms as i64,
    );
    run_health_checks(HealthCheckInput { config, snapshot: &snapshot })
}

/// After one round of the subscription updater over the markets at `now_ms`, the
/// subscription is the first `max` tokens, in text order, of those the registry's live
/// markets and its upcoming markets opening within the window want (the tokens
/// `desired_tokens_from_registry` lists); it holds at most `max` tokens; and every book
/// left in the store has a token in it.
pub proof fn lemma_subscription_round_law(
    markets: Seq<Market>,
    now_ms: i64,
    max: usize,
    desired: Seq<TokenId>,
    chosen: Seq<TokenId>,
    subscribed: Set<Seq<char>>,
    books_before: Seq<Book>,
    books_after: Seq<Book>,
)
    requires
        lists_set(
            desired,
            tokens_of(markets.filter(|m: Market| live_spec(m, now_ms))) + tokens_of(
                markets.filter(|m: Market| upcoming_spec(m, now_ms)).filter(opens_within(now_ms, UPCOMING_WINDOW_MS)),
            ),
        ),
        first_tokens(chosen, wanted_tokens(markets, now_ms), max),
        subscribed == token_set(chosen),
        books_after == books_before.filter(kept_token(chosen)),
    ensures
        first_tokens(chosen, token_set(desired), max),
        subscribed.len() <= max,
        forall|i: int| 0 <= i < books_after.len() ==> #[trigger] subscribed.contains(books_after[i].token_id@),
{
    assert(token_set(desired) == wanted_tokens(markets, now_ms));
    assert(token_views(chosen).no_duplicates()) by {
        assert forall|i: int, j: int| 0 <= i < token_views(chosen).len() && 0 <= j < token_views(chosen).len() && i != j
            implies token_views(chosen)[i] != token_views(chosen)[j] by {
            if i < j {
                assert(text_lt(chosen[i]@, chosen[j]@));
                lemma_text_lt_irreflexive(chosen[i]@);
            } else {
                assert(text_lt(chosen[j]@, chosen[i]@));
                lemma_text_lt_irreflexive(chosen[j]@);
            }
        }
    }
    token_views(chosen).unique_seq_to_set();
    books_before.filter_lemma(kept_token(chosen));
    assert forall|i: int| 0 <= i < books_after.len() implies #[trigger] subscribed.contains(books_after[i].token_id@) by {
        assert(kept_token(chosen)(books_after[i]));
        let k = choose|k: int| 0 <= k < chosen.len() && #[trigger] chosen[k]@ == books_after[i].token_id@;
        assert(token_views(chosen)[k] == books_after[i].token_id@);
    }
}

} // verus!
