//! Token ids in text order, as `String`'s `Ord` orders them.
use vstd::prelude::*;

use crate::types::ids::TokenId;

use super::subscription::{token_set, token_views};

verus! {

/// `a` comes before `b` in lexicographic order of characters. For UTF-8 text this is
/// the byte order `String` compares by.
pub open spec fn text_lt(a: Seq<char>, b: Seq<char>) -> bool
    decreases a.len(),
{
    if a.len() == 0 {
        b.len() > 0
    } else if b.len() == 0 {
        false
    } else if (a[0] as int) < (b[0] as int) {
        true
    } else if (a[0] as int) > (b[0] as int) {
        false
    } else {
        text_lt(a.drop_first(), b.drop_first())
    }
}

pub proof fn lemma_text_lt_irreflexive(a: Seq<char>)
    ensures
        !text_lt(a, a),
    decreases a.len(),
{
    if a.len() > 0 {
        lemma_text_lt_irreflexive(a.drop_first());
    }
}

pub proof fn lemma_text_lt_transitive(a: Seq<char>, b: Seq<char>, c: Seq<char>)
    requires
        text_lt(a, b),
        text_lt(b, c),
    ensures
        text_lt(a, c),
    decreases a.len(),
{
    if a.len() > 0 && b.len() > 0 && c.len() > 0 {
        if a[0] == b[0] && b[0] == c[0] {
            lemma_text_lt_transitive(a.drop_first(), b.drop_first(), c.drop_first());
        }
    }
}

pub proof fn lemma_text_lt_total(a: Seq<char>, b: Seq<char>)
    ensures
        a == b || text_lt(a, b) || text_lt(b, a),
    decreases a.len(),
{
    if a.len() > 0 && b.len() > 0 {
        if a[0] == b[0] {
            lemma_text_lt_total(a.drop_first(), b.drop_first());
            if a.drop_first() == b.drop_first() {
                assert(a =~= seq![a[0]] + a.drop_first());
                assert(b =~= seq![b[0]] + b.drop_first());
            }
        }
    } else if a.len() == 0 && b.len() == 0 {
        assert(a =~= b);
    }
}

/// Strictly increasing in text order.
pub open spec fn ascending(s: Seq<TokenId>) -> bool {
    forall|i: int, j: int| 0 <= i < j < s.len() ==> text_lt(#[trigger] s[i]@, #[trigger] s[j]@)
}

fn char_lt(a: char, b: char) -> (r: bool)
    ensures
        r == ((a as int) < (b as int)),
{
    a < b
}

/// Whether `a` comes before `b`.
pub fn token_lt(a: &TokenId, b: &TokenId) -> (r: bool)
    ensures
        r == text_lt(a@, b@),
{
    let x = a.as_str();
    let y = b.as_str();
    let n = x.unicode_len();
    let m = y.unicode_len();
    let mut i: usize = 0;
    assert(x@.skip(0) =~= x@);
    assert(y@.skip(0) =~= y@);
    while i < n && i < m
        invariant
            x@ == a@,
            y@ == b@,
            n == x@.len(),
            m == y@.len(),
            i <= n,
            i <= m,
            text_lt(x@, y@) == text_lt(x@.skip(i as int), y@.skip(i as int)),
        decreases n - i,
    {
        let c = x.get_char(i);
        let d = y.get_char(i);
        proof {
            assert(x@.skip(i as int).len() > 0 && y@.skip(i as int).len() > 0);
            assert(x@.skip(i as int)[0] == c);
            assert(y@.skip(i as int)[0] == d);
            assert(x@.skip(i as int).drop_first() =~= x@.skip(i + 1));
            assert(y@.skip(i as int).drop_first() =~= y@.skip(i + 1));
        }
        if char_lt(c, d) {
            proof {
                let xs = x@.skip(i as int);
                let ys = y@.skip(i as int);
                assert((xs[0] as int) < (ys[0] as int));
                assert(text_lt(xs, ys));
            }
            return true;
        }
        if char_lt(d, c) {
            proof {
                let xs = x@.skip(i as int);
                let ys = y@.skip(i as int);
                assert((xs[0] as int) > (ys[0] as int));
                assert(!text_lt(xs, ys));
            }
            return false;
        }
        i = i + 1;
    }
    proof {
        if i == n {
            assert(x@.skip(i as int).len() == 0);
            assert(y@.skip(i as int).len() == m - i);
        } else {
            assert(y@.skip(i as int).len() == 0);
            assert(x@.skip(i as int).len() > 0);
        }
    }
    i == n && i < m
}

/// The tokens of `v`, each once, in text order.
pub fn sorted_distinct(v: &Vec<TokenId>) -> (r: Vec<TokenId>)
    ensures
        ascending(r@),
        token_views(r@).no_duplicates(),
        token_set(r@) == token_set(v@),
{
    let mut out: Vec<TokenId> = Vec::new();
    let mut i: usize = 0;
    assert(token_set(out@) =~= token_set(v@.take(0)));
    while i < v.len()
        invariant
            i <= v@.len(),
            ascending(out@),
            token_views(out@).no_duplicates(),
            token_set(out@) == token_set(v@.take(i as int)),
        decreases v@.len() - i,
    {
        let t = &v[i];
        proof {
            assert(v@.take(i + 1) =~= v@.take(i as int).push(*t));
            crate::clob::subscription::lemma_views_push_set(v@.take(i as int), *t);
        }
        let mut p: usize = 0;
        while p < out.len() && token_lt(&out[p], t)
            invariant
                p <= out@.len(),
                forall|q: int| 0 <= q < p ==> text_lt(#[trigger] out@[q]@, t@),
            decreases out@.len() - p,
        {
            p = p + 1;
        }
        if p < out.len() && out[p].same_as(t) {
            proof {
                assert(token_views(out@)[p as int] == t@);
                assert(token_set(out@).contains(t@));
                assert(token_set(out@) =~= token_set(out@).insert(t@));
            }
        } else {
            let ghost before = out@;
            out.insert(p, t.duplicate());
            proof {
                assert(out@ == before.insert(p as int, *t));
                assert(p < before.len() ==> text_lt(t@, before[p as int]@)) by {
                    if p < before.len() {
                        lemma_text_lt_total(t@, before[p as int]@);
                    }
                }
                assert forall|x: int, y: int| 0 <= x < y < out@.len() implies text_lt(
                    #[trigger] out@[x]@,
                    #[trigger] out@[y]@,
                ) by {
                    if y < p {
                        assert(out@[x] == before[x] && out@[y] == before[y]);
                    } else if y == p {
                        assert(out@[x] == before[x]);
                    } else if x < p {
                        assert(out@[x] == before[x] && out@[y] == before[y - 1]);
                    } else if x == p {
                        assert(out@[y] == before[y - 1]);
                        if y - 1 > p {
                            lemma_text_lt_transitive(t@, before[p as int]@, before[y - 1]@);
                        }
                    } else {
                        assert(out@[x] == before[x - 1] && out@[y] == before[y - 1]);
                    }
                }
                assert forall|x: int, y: int| 0 <= x < y < token_views(out@).len() implies token_views(out@)[x]
                    != token_views(out@)[y] by {
                    lemma_text_lt_irreflexive(out@[x]@);
                }
                assert(token_set(out@) =~= token_set(before).insert(t@)) by {
                    assert forall|s: Seq<char>| #[trigger] token_set(out@).contains(s) == token_set(before).insert(
                        t@,
                    ).contains(s) by {
                        if token_views(out@).contains(s) {
                            let k = choose|k: int| 0 <= k < token_views(out@).len() && token_views(out@)[k] == s;
                            if k < p {
                                assert(token_views(before)[k] == s);
                            } else if k > p {
                                assert(token_views(before)[k - 1] == s);
                            }
                        }
                        if token_views(before).contains(s) {
                            let k = choose|k: int| 0 <= k < token_views(before).len() && token_views(before)[k] == s;
                            if k < p {
                                assert(token_views(out@)[k] == s);
                            } else {
                                assert(token_views(out@)[k + 1] == s);
                            }
                        }
                        if s == t@ {
                            assert(token_views(out@)[p as int] == s);
                        }
                    }
                }
            }
        }
        i = i + 1;
    }
    assert(v@.take(i as int) =~= v@);
    out
}

} // verus!
