//! The latest book of each token, keyed by token id.
use vstd::prelude::*;

use crate::types::book::{fresh_spec, has_usable_asks_spec, levels_view, Book};
use crate::types::ids::TokenId;

use super::freshness::{check_book_freshness, deref_opt, freshness_spec, BookFreshness};
use super::update::{normalized_book, BookStoreUpdateStats};
use crate::types::book::normalized_side;

verus! {

/// Two books looked up together.
#[derive(Debug, Clone, Copy)]
pub struct BookPair<'a> {
    pub first: &'a Book,
    pub second: &'a Book,
}

#[derive(Debug, Clone, Copy, PartialEq, Eq, Default)]
pub struct BookStoreStats {
    pub total_books: usize,
    pub usable_books: usize,
    pub stale_books: usize,
    pub books_without_usable_asks: usize,
}

/// The books, one per token id, in the order they were first inserted.
#[derive(Debug)]
pub struct BookStore {
    books: Vec<Book>,
}

/// No two books share a token id.
pub open spec fn unique_tokens(s: Seq<Book>) -> bool {
    forall|i: int, j: int| 0 <= i < j < s.len() ==> s[i].token_id@ != s[j].token_id@
}

/// Position of the book for `key`, if any.
pub open spec fn index_of_token(s: Seq<Book>, key: Seq<char>) -> Option<int> {
    if exists|i: int| 0 <= i < s.len() && #[trigger] s[i].token_id@ == key {
        Some(choose|i: int| 0 <= i < s.len() && #[trigger] s[i].token_id@ == key)
    } else {
        None
    }
}

/// The book for `key`, if any.
pub open spec fn lookup_book(s: Seq<Book>, key: Seq<char>) -> Option<Book> {
    match index_of_token(s, key) {
        Some(i) => Some(s[i]),
        None => None,
    }
}

/// Fresh and with a usable ask.
pub open spec fn book_usable(b: Book, now: i64, max_age: i64) -> bool {
    has_usable_asks_spec(levels_view(b.asks@)) && fresh_spec(b.received_at_ms, now, max_age)
}

/// Counts of the books by condition.
pub open spec fn stats_spec(s: Seq<Book>, now: i64, max_age: i64) -> (nat, nat, nat) {
    (
        s.filter(|b: Book| book_usable(b, now, max_age)).len(),
        s.filter(|b: Book| !fresh_spec(b.received_at_ms, now, max_age)).len(),
        s.filter(|b: Book| !has_usable_asks_spec(levels_view(b.asks@))).len(),
    )
}

/// Index of the last of the first `n` books with token `key`, if any.
pub open spec fn last_book_index(bs: Seq<Book>, key: Seq<char>, n: int) -> Option<int>
    decreases n,
{
    if n <= 0 || n > bs.len() {
        None
    } else if bs[n - 1].token_id@ == key {
        Some(n - 1)
    } else {
        last_book_index(bs, key, n - 1)
    }
}

/// The book `b` is `incoming` as stored: same token and times, each side normalized.
pub open spec fn stored_as(b: Book, incoming: Book) -> bool {
    &&& b.token_id@ == incoming.token_id@
    &&& b.exchange_ts_ms == incoming.exchange_ts_ms
    &&& b.received_at_ms == incoming.received_at_ms
    &&& normalized_side(levels_view(b.bids@), levels_view(incoming.bids@), false)
    &&& normalized_side(levels_view(b.asks@), levels_view(incoming.asks@), true)
}

/// After storing the first `n` of `bs` in turn over `before`, the book for `key` in
/// `after` is the last of them with that token, stored, or else the one `before` had.
pub open spec fn stored_at(before: Seq<Book>, after: Seq<Book>, bs: Seq<Book>, n: int, key: Seq<char>) -> bool {
    match last_book_index(bs, key, n) {
        Some(j) => lookup_book(after, key) is Some && stored_as(lookup_book(after, key)->0, bs[j]),
        None => lookup_book(after, key) == lookup_book(before, key),
    }
}

/// How many of the first `n` books bring a token that neither `before` nor an earlier
/// one of them has: the distinct tokens of those books that `before` lacks.
pub open spec fn new_book_tokens(before: Seq<Book>, bs: Seq<Book>, n: int) -> nat
    decreases n,
{
    if n <= 0 || n > bs.len() {
        0
    } else {
        let key = bs[n - 1].token_id@;
        new_book_tokens(before, bs, n - 1) + (if index_of_token(before, key) is None && last_book_index(
            bs,
            key,
            n - 1,
        ) is None {
            1nat
        } else {
            0nat
        })
    }
}

/// The tokens of the first `n` books.
pub open spec fn book_tokens(bs: Seq<Book>, n: int) -> Set<Seq<char>>
    decreases n,
{
    if n <= 0 || n > bs.len() {
        Set::empty()
    } else {
        book_tokens(bs, n - 1).insert(bs[n - 1].token_id@)
    }
}

/// The tokens `bs` brings that `before` lacks.
pub open spec fn added_tokens(before: Seq<Book>, bs: Seq<Book>) -> Set<Seq<char>> {
    book_tokens(bs, bs.len() as int).filter(|t: Seq<char>| index_of_token(before, t) is None)
}

proof fn lemma_book_tokens_last(bs: Seq<Book>, n: int, key: Seq<char>)
    requires
        0 <= n <= bs.len(),
    ensures
        book_tokens(bs, n).finite(),
        (last_book_index(bs, key, n) is None) == !book_tokens(bs, n).contains(key),
    decreases n,
{
    if n > 0 {
        lemma_book_tokens_last(bs, n - 1, key);
    }
}

/// The count of new tokens is the number of distinct tokens the books bring that
/// `before` lacks.
pub proof fn lemma_new_book_tokens_count(before: Seq<Book>, bs: Seq<Book>, n: int)
    requires
        0 <= n <= bs.len(),
    ensures
        new_book_tokens(before, bs, n) == book_tokens(bs, n).filter(
            |t: Seq<char>| index_of_token(before, t) is None,
        ).len(),
    decreases n,
{
    let p = |t: Seq<char>| index_of_token(before, t) is None;
    if n == 0 {
        assert(book_tokens(bs, 0).filter(p) =~= Set::<Seq<char>>::empty());
    } else {
        lemma_new_book_tokens_count(before, bs, n - 1);
        let key = bs[n - 1].token_id@;
        lemma_book_tokens_last(bs, n - 1, key);
        let prev = book_tokens(bs, n - 1).filter(p);
        assert(prev.finite()) by {
            book_tokens(bs, n - 1).lemma_len_filter(p);
        }
        if p(key) && !book_tokens(bs, n - 1).contains(key) {
            assert(book_tokens(bs, n).filter(p) =~= prev.insert(key));
        } else {
            assert(book_tokens(bs, n).filter(p) =~= prev);
        }
    }
}

pub open spec fn stored_after(before: Seq<Book>, after: Seq<Book>, bs: Seq<Book>, n: int) -> bool {
    forall|key: Seq<char>| #[trigger] stored_at(before, after, bs, n, key)
}

proof fn lemma_lookup_other(before: Seq<Book>, after: Seq<Book>, key: Seq<char>, k: Seq<char>)
    requires
        unique_tokens(before),
        unique_tokens(after),
        k != key,
        after.len() == before.len() || after.len() == before.len() + 1,
        forall|j: int| 0 <= j < after.len() && after[j].token_id@ != key ==> j < before.len() && after[j] == before[j],
        forall|j: int| 0 <= j < before.len() && before[j].token_id@ != key ==> after[j] == before[j],
    ensures
        lookup_book(after, k) == lookup_book(before, k),
{
    if exists|i: int| 0 <= i < before.len() && #[trigger] before[i].token_id@ == k {
        let i = choose|i: int| 0 <= i < before.len() && #[trigger] before[i].token_id@ == k;
        lemma_index_unique(before, i);
        assert(after[i] == before[i]);
        lemma_index_unique(after, i);
    } else {
        assert forall|j: int| 0 <= j < after.len() implies #[trigger] after[j].token_id@ != k by {
            if after[j].token_id@ == k {
                assert(after[j] == before[j]);
            }
        }
    }
}

proof fn lemma_index_unique(s: Seq<Book>, i: int)
    requires
        unique_tokens(s),
        0 <= i < s.len(),
    ensures
        index_of_token(s, s[i].token_id@) == Some(i),
{
    let k = s[i].token_id@;
    assert(s[i].token_id@ == k);
    let c = choose|c: int| 0 <= c < s.len() && #[trigger] s[c].token_id@ == k;
    if c < i {
    } else if c > i {
    }
}

/// The book for `key` in the entries, by a scan.
fn find_token(books: &Vec<Book>, key: &TokenId) -> (r: Option<usize>)
    requires
        unique_tokens(books@),
    ensures
        match r {
            Some(i) => i < books@.len() && index_of_token(books@, key@) == Some(i as int),
            None => index_of_token(books@, key@) is None,
        },
{
    let mut i: usize = 0;
    while i < books.len()
        invariant
            i <= books.len(),
            unique_tokens(books@),
            forall|j: int| 0 <= j < i ==> #[trigger] books@[j].token_id@ != key@,
        decreases books.len() - i,
    {
        if books[i].token_id.same_as(key) {
            proof {
                lemma_index_unique(books@, i as int);
            }
            return Some(i);
        }
        i = i + 1;
    }
    None
}

impl View for BookStore {
    type V = Seq<Book>;

    closed spec fn view(&self) -> Seq<Book> {
        self.books@
    }
}

impl BookStore {
    #[verifier::type_invariant]
    closed spec fn inv(self) -> bool {
        unique_tokens(self.books@)
    }

    pub fn new() -> (r: BookStore)
        ensures
            r@ == Seq::<Book>::empty(),
    {
        BookStore { books: Vec::new() }
    }

    /// No two books share a token id.
    pub fn check_unique(&self)
        ensures
            unique_tokens(self@),
    {
        proof {
            use_type_invariant(self);
        }
    }

    /// Normalizes `book` and stores it under its token id, in place of the book
    /// that id had; returns that book.
    pub fn insert_book(&mut self, book: Book) -> (r: Option<Book>)
        ensures
            unique_tokens(final(self)@),
            match index_of_token(old(self)@, book.token_id@) {
                Some(i) => r == Some(old(self)@[i]) && final(self)@.len() == old(self)@.len()
                    && normalized_book(final(self)@[i], book) && forall|j: int|
                    0 <= j < old(self)@.len() && j != i ==> final(self)@[j] == old(self)@[j],
                None => r is None && final(self)@.len() == old(self)@.len() + 1
                    && normalized_book(final(self)@.last(), book) && forall|j: int|
                    0 <= j < old(self)@.len() ==> final(self)@[j] == old(self)@[j],
            },
    {
        proof {
            use_type_invariant(&*self);
        }
        let mut book = book;
        book.normalize();
        match find_token(&self.books, &book.token_id) {
            Some(i) => {
                let mut books = Vec::new();
                std::mem::swap(&mut books, &mut self.books);
                let ghost before = books@;
                let previous = books.remove(i);
                books.insert(i, book);
                proof {
                    assert(books@ =~= before.update(i as int, book));
                    assert forall|x: int, y: int| 0 <= x < y < books@.len() implies books@[x].token_id@
                        != books@[y].token_id@ by {
                        if x != i && y != i {
                            assert(books@[x] == before[x] && books@[y] == before[y]);
                        } else if x == i {
                            assert(books@[y] == before[y]);
                        } else {
                            assert(books@[x] == before[x]);
                        }
                    }
                }
                self.books = books;
                Some(previous)
            },
            None => {
                let mut books = Vec::new();
                std::mem::swap(&mut books, &mut self.books);
                books.push(book);
                self.books = books;
                None
            },
        }
    }

    /// Stores `book`, counting a replacement where its token already had one and an
    /// insertion otherwise.
    pub fn apply_book(&mut self, book: Book) -> (r: BookStoreUpdateStats)
        ensures
            unique_tokens(final(self)@),
            index_of_token(old(self)@, book.token_id@) is Some ==> r == (BookStoreUpdateStats {
                inserted: 0,
                replaced: 1,
                skipped: 0,
            }),
            index_of_token(old(self)@, book.token_id@) is None ==> r == (BookStoreUpdateStats {
                inserted: 1,
                replaced: 0,
                skipped: 0,
            }),
            lookup_book(final(self)@, book.token_id@) is Some,
            normalized_book(lookup_book(final(self)@, book.token_id@)->0, book),
            forall|k: Seq<char>|
                k != book.token_id@ ==> #[trigger] lookup_book(final(self)@, k) == lookup_book(old(self)@, k),
            final(self)@.len() == old(self)@.len() + (if index_of_token(old(self)@, book.token_id@) is None {
                1int
            } else {
                0int
            }),
    {
        proof {
            use_type_invariant(&*self);
        }
        let ghost before = self@;
        let ghost key = book.token_id@;
        let existed = self.contains_book(&book.token_id);
        let _ = self.insert_book(book);
        proof {
            let s = self@;
            match index_of_token(before, key) {
                Some(i) => {
                    assert(s[i].token_id@ == key);
                    lemma_index_unique(s, i);
                },
                None => {
                    assert(s[s.len() - 1].token_id@ == key);
                    lemma_index_unique(s, s.len() - 1);
                },
            }
            assert forall|k: Seq<char>| k != key implies #[trigger] lookup_book(s, k) == lookup_book(before, k) by {
                lemma_lookup_other(before, s, key, k);
            }
        }
        if existed {
            BookStoreUpdateStats { inserted: 0, replaced: 1, skipped: 0 }
        } else {
            BookStoreUpdateStats { inserted: 1, replaced: 0, skipped: 0 }
        }
    }

    /// Stores each book in turn and sums the counts: each token of the books ends with
    /// the last of its books, normalized; the other tokens keep theirs.
    pub fn apply_books(&mut self, books: Vec<Book>) -> (r: BookStoreUpdateStats)
        ensures
            unique_tokens(final(self)@),
            r.inserted + r.replaced == books@.len(),
            r.skipped == 0,
            stored_after(old(self)@, final(self)@, books@, books@.len() as int),
            r.inserted == new_book_tokens(old(self)@, books@, books@.len() as int),
            r.inserted == added_tokens(old(self)@, books@).len(),
            final(self)@.len() == old(self)@.len() + r.inserted,
    {
        let mut stats = BookStoreUpdateStats::new();
        let n = books.len();
        let mut k: usize = 0;
        let ghost start = self@;
        while k < n
            invariant
                k <= n,
                n == books@.len(),
                stats.inserted + stats.replaced == k,
                stats.skipped == 0,
                start == old(self)@,
                stored_after(start, self@, books@, k as int),
                stats.inserted == new_book_tokens(start, books@, k as int),
                self@.len() == start.len() + stats.inserted,
            decreases n - k,
        {
            let ghost mid = self@;
            let d = books[k].duplicate();
            let update = self.apply_book(d);
            proof {
                let key0 = d.token_id@;
                assert(key0 == books@[k as int].token_id@);
                assert(stored_at(start, mid, books@, k as int, key0));
                assert((index_of_token(mid, key0) is None) == (index_of_token(start, key0) is None
                    && last_book_index(books@, key0, k as int) is None));
                assert forall|key: Seq<char>| #[trigger] stored_at(start, self@, books@, k as int + 1, key) by {
                    assert(stored_at(start, mid, books@, k as int, key));
                    if key != d.token_id@ {
                        assert(lookup_book(self@, key) == lookup_book(mid, key));
                    }
                }
            }
            stats.inserted = stats.inserted + update.inserted;
            stats.replaced = stats.replaced + update.replaced;
            stats.skipped = stats.skipped + update.skipped;
            k = k + 1;
        }
        proof {
            use_type_invariant(&*self);
            lemma_new_book_tokens_count(start, books@, n as int);
        }
        stats
    }

    pub fn get_book(&self, token_id: &TokenId) -> (r: Option<&Book>)
        ensures
            deref_opt(r) == lookup_book(self@, token_id@),
    {
        proof {
            use_type_invariant(self);
        }
        match find_token(&self.books, token_id) {
            Some(i) => {
                assert(lookup_book(self@, token_id@) == Some(self.books@[i as int]));
                Some(&self.books[i])
            },
            None => None,
        }
    }

    pub fn contains_book(&self, token_id: &TokenId) -> (r: bool)
        ensures
            r == (index_of_token(self@, token_id@) is Some),
    {
        proof {
            use_type_invariant(self);
        }
        find_token(&self.books, token_id).is_some()
    }

    /// Both books, where both tokens have one.
    pub fn get_book_pair<'a>(&'a self, first_token: &TokenId, second_token: &TokenId) -> (r: Option<BookPair<'a>>)
        ensures
            match (lookup_book(self@, first_token@), lookup_book(self@, second_token@)) {
                (Some(a), Some(b)) => r is Some && *r->0.first == a && *r->0.second == b,
                _ => r is None,
            },
    {
        let first = match self.get_book(first_token) {
            Some(b) => b,
            None => return None,
        };
        let second = match self.get_book(second_token) {
            Some(b) => b,
            None => return None,
        };
        Some(BookPair { first, second })
    }

    pub fn freshness(&self, token_id: &TokenId, now_ms: i64, max_book_age_ms: i64) -> (r: BookFreshness)
        ensures
            r == freshness_spec(lookup_book(self@, token_id@), now_ms, max_book_age_ms),
    {
        check_book_freshness(self.get_book(token_id), now_ms, max_book_age_ms)
    }

    pub fn is_usable(&self, token_id: &TokenId, now_ms: i64, max_book_age_ms: i64) -> (r: bool)
        ensures
            r == freshness_spec(lookup_book(self@, token_id@), now_ms, max_book_age_ms).is_usable,
    {
        self.freshness(token_id, now_ms, max_book_age_ms).is_usable
    }

    /// Removes the book of `token_id` and returns it.
    pub fn remove_book(&mut self, token_id: &TokenId) -> (r: Option<Book>)
        ensures
            unique_tokens(final(self)@),
            match index_of_token(old(self)@, token_id@) {
                Some(i) => r == Some(old(self)@[i]) && final(self)@ == old(self)@.remove(i),
                None => r is None && final(self)@ == old(self)@,
            },
    {
        proof {
            use_type_invariant(&*self);
        }
        match find_token(&self.books, token_id) {
            Some(i) => {
                let mut books = Vec::new();
                std::mem::swap(&mut books, &mut self.books);
                let ghost before = books@;
                let removed = books.remove(i);
                proof {
                    assert forall|x: int, y: int| 0 <= x < y < books@.len() implies books@[x].token_id@
                        != books@[y].token_id@ by {
                        if x < i && y < i {
                            assert(books@[x] == before[x] && books@[y] == before[y]);
                        } else if x < i {
                            assert(books@[x] == before[x] && books@[y] == before[y + 1]);
                        } else {
                            assert(books@[x] == before[x + 1] && books@[y] == before[y + 1]);
                        }
                    }
                }
                self.books = books;
                Some(removed)
            },
            None => None,
        }
    }

    /// Keeps only the books whose token is among `desired_tokens`, in their order.
    pub fn retain_tokens(&mut self, desired_tokens: Vec<TokenId>)
        ensures
            unique_tokens(final(self)@),
            final(self)@ == old(self)@.filter(
                |b: Book| exists|k: int| 0 <= k < desired_tokens@.len() && #[trigger] desired_tokens@[k]@ == b.token_id@,
            ),
    {
        proof {
            use_type_invariant(&*self);
        }
        let ghost pred = |b: Book| exists|k: int| 0 <= k < desired_tokens@.len() && #[trigger] desired_tokens@[k]@ == b.token_id@;
        let mut books = Vec::new();
        std::mem::swap(&mut books, &mut self.books);
        let ghost all = books@;
        let total = books.len();
        assert(all.take(0) =~= Seq::<Book>::empty());
        let mut kept: Vec<Book> = Vec::new();
        let mut moved: Vec<Book> = Vec::new();
        let mut i: usize = 0;
        while books.len() > 0
            invariant
                i + books@.len() == all.len(),
                all.len() == total,
                pred == (|b: Book|
                    exists|k: int| 0 <= k < desired_tokens@.len() && #[trigger] desired_tokens@[k]@ == b.token_id@),
                books@ == all.skip(i as int),
                kept@ == all.take(i as int).filter(pred),
                unique_tokens(all),
            decreases books@.len(),
        {
            let b = books.remove(0);
            proof {
                assert(all.take(i + 1) =~= all.take(i as int).push(b));
                all.take(i as int).lemma_filter_push(b, pred);
                assert(all.skip(i + 1) =~= all.skip(i as int).drop_first());
            }
            let keep = token_in(&desired_tokens, &b.token_id);
            assert(keep == pred(b));
            if keep {
                kept.push(b);
            } else {
                moved.push(b);
            }
            i = i + 1;
        }
        proof {
            assert(all.take(i as int) =~= all);
            assert forall|x: int, y: int| 0 <= x < y < kept@.len() implies kept@[x].token_id@
                != kept@[y].token_id@ by {
                lemma_filter_unique(all, pred, x, y);
            }
        }
        self.books = kept;
    }

    /// All books, in store order.
    pub fn all(&self) -> (r: &Vec<Book>)
        ensures
            r@ == self@,
    {
        &self.books
    }

    pub fn len(&self) -> (r: usize)
        ensures
            r == self@.len(),
    {
        self.books.len()
    }

    pub fn is_empty(&self) -> (r: bool)
        ensures
            r == (self@.len() == 0),
    {
        self.books.len() == 0
    }

    pub fn clear(&mut self)
        ensures
            final(self)@ == Seq::<Book>::empty(),
    {
        self.books = Vec::new();
    }

    /// Counts of all, usable, stale, and ask-less books.
    pub fn stats(&self, now_ms: i64, max_book_age_ms: i64) -> (r: BookStoreStats)
        ensures
            r.total_books == self@.len(),
            r.usable_books == stats_spec(self@, now_ms, max_book_age_ms).0,
            r.stale_books == stats_spec(self@, now_ms, max_book_age_ms).1,
            r.books_without_usable_asks == stats_spec(self@, now_ms, max_book_age_ms).2,
    {
        let ghost p1 = |b: Book| book_usable(b, now_ms, max_book_age_ms);
        let ghost p2 = |b: Book| !fresh_spec(b.received_at_ms, now_ms, max_book_age_ms);
        let ghost p3 = |b: Book| !has_usable_asks_spec(levels_view(b.asks@));
        let mut stats = BookStoreStats {
            total_books: self.books.len(),
            usable_books: 0,
            stale_books: 0,
            books_without_usable_asks: 0,
        };
        let mut i: usize = 0;
        assert(self.books@.take(0) =~= Seq::<Book>::empty());
        while i < self.books.len()
            invariant
                i <= self.books.len(),
                p1 == (|b: Book| book_usable(b, now_ms, max_book_age_ms)),
                p2 == (|b: Book| !fresh_spec(b.received_at_ms, now_ms, max_book_age_ms)),
                p3 == (|b: Book| !has_usable_asks_spec(levels_view(b.asks@))),
                stats.total_books == self.books@.len(),
                stats.usable_books == self.books@.take(i as int).filter(p1).len(),
                stats.stale_books == self.books@.take(i as int).filter(p2).len(),
                stats.books_without_usable_asks == self.books@.take(i as int).filter(p3).len(),
            decreases self.books.len() - i,
        {
            let book = &self.books[i];
            proof {
                let t = self.books@.take(i as int);
                assert(self.books@.take(i + 1) =~= t.push(*book));
                t.lemma_filter_push(*book, p1);
                t.lemma_filter_push(*book, p2);
                t.lemma_filter_push(*book, p3);
                t.filter(p1).lemma_filter_len(p1);
                t.lemma_filter_len(p1);
                t.lemma_filter_len(p2);
                t.lemma_filter_len(p3);
            }
            assert(p1(*book) == book_usable(*book, now_ms, max_book_age_ms));
            assert(p2(*book) == !fresh_spec(book.received_at_ms, now_ms, max_book_age_ms));
            assert(p3(*book) == !has_usable_asks_spec(levels_view(book.asks@)));
            if book.is_usable(now_ms, max_book_age_ms) {
                stats.usable_books = stats.usable_books + 1;
            }
            if book.is_stale(now_ms, max_book_age_ms) {
                stats.stale_books = stats.stale_books + 1;
            }
            if !book.has_usable_asks() {
                stats.books_without_usable_asks = stats.books_without_usable_asks + 1;
            }
            i = i + 1;
        }
        assert(self.books@.take(i as int) =~= self.books@);
        stats
    }
}

fn token_in(v: &Vec<TokenId>, t: &TokenId) -> (r: bool)
    ensures
        r == exists|k: int| 0 <= k < v@.len() && #[trigger] v@[k]@ == t@,
{
    let mut i: usize = 0;
    while i < v.len()
        invariant
            i <= v.len(),
            forall|k: int| 0 <= k < i ==> #[trigger] v@[k]@ != t@,
        decreases v.len() - i,
    {
        if v[i].same_as(t) {
            return true;
        }
        i = i + 1;
    }
    false
}

proof fn lemma_filter_unique(s: Seq<Book>, pred: spec_fn(Book) -> bool, x: int, y: int)
    requires
        unique_tokens(s),
        0 <= x < y < s.filter(pred).len(),
    ensures
        s.filter(pred)[x].token_id@ != s.filter(pred)[y].token_id@,
    decreases s.len(),
{
    reveal_with_fuel(Seq::filter, 1);
    if s.len() > 0 {
        let sub = s.drop_last();
        assert(unique_tokens(sub));
        if pred(s.last()) {
            assert(s.filter(pred) == sub.filter(pred).push(s.last()));
            if y < sub.filter(pred).len() {
                lemma_filter_unique(sub, pred, x, y);
            } else {
                sub.lemma_filter_contains_rev(pred, s.filter(pred)[x]);
                let c = choose|c: int| 0 <= c < sub.len() && sub[c] == s.filter(pred)[x];
                assert(s[c] == sub[c]);
            }
        } else {
            lemma_filter_unique(sub, pred, x, y);
        }
    }
}

} // verus!
