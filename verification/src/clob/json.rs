//! Books out of a decoded feed text: an array is read element by element, in order,
//! and an object's `data` member, or else its `payload` member, stands for the object.
use vstd::prelude::*;

use crate::types::book::{Book, LevelView};

use crate::market_scanner::parser::raw_time_is_safe;

use super::parser::{book_matches, message_book_spec, parse_single_book, ts_safe, ClobParseError, ClobRawMessage};

verus! {

/// A JSON value of the feed, as far as the reader looks into it.
#[derive(Debug)]
pub enum ClobJson {
    /// An array and its elements.
    Array(Vec<ClobJson>),
    /// An object: its `data` and `payload` members where it has them, and the object
    /// decoded as a message, `None` where it does not decode as one.
    Object { data: Option<Box<ClobJson>>, payload: Option<Box<ClobJson>>, message: Option<ClobRawMessage> },
    /// Any other value.
    Scalar,
}

/// A book as plain values: token, bids, asks and exchange time.
pub type BookFields = (Seq<char>, Seq<LevelView>, Seq<LevelView>, Option<int>);

pub open spec fn decode_error_text() -> Seq<char> {
    "failed to decode CLOB raw message"@
}

/// The books of one message: none, one, or the error of a level.
pub open spec fn message_books(m: ClobRawMessage) -> Result<Seq<BookFields>, Seq<char>> {
    match message_book_spec(m) {
        Err(e) => Err(e),
        Ok(None) => Ok(Seq::empty()),
        Ok(Some(f)) => Ok(seq![f]),
    }
}

/// The books of a value, in order, or the first error met.
pub open spec fn node_books(j: ClobJson) -> Result<Seq<BookFields>, Seq<char>>
    decreases j, 0int,
{
    match j {
        ClobJson::Array(items) => items_books(items@, items@.len() as int),
        ClobJson::Object { data, payload, message } => match data {
            Some(d) => node_books(*d),
            None => match payload {
                Some(p) => node_books(*p),
                None => match message {
                    Some(m) => message_books(m),
                    None => Err(decode_error_text()),
                },
            },
        },
        ClobJson::Scalar => Err(decode_error_text()),
    }
}

/// The books of the first `n` elements, in order, or the first error met.
pub open spec fn items_books(items: Seq<ClobJson>, n: int) -> Result<Seq<BookFields>, Seq<char>>
    decreases items, n,
{
    if n <= 0 || n > items.len() {
        Ok(Seq::empty())
    } else {
        match items_books(items, n - 1) {
            Err(e) => Err(e),
            Ok(prev) => match node_books(items[n - 1]) {
                Err(e) => Err(e),
                Ok(fs) => Ok(prev + fs),
            },
        }
    }
}

/// Every message in the value has a timestamp that reads without overflow.
pub open spec fn node_safe(j: ClobJson) -> bool
    decreases j, 0int,
{
    match j {
        ClobJson::Array(items) => items_safe(items@, items@.len() as int),
        ClobJson::Object { data, payload, message } => match data {
            Some(d) => node_safe(*d),
            None => match payload {
                Some(p) => node_safe(*p),
                None => match message {
                    Some(m) => ts_safe(m.timestamp),
                    None => true,
                },
            },
        },
        ClobJson::Scalar => true,
    }
}

/// Every message in the first `n` elements has a timestamp that reads.
pub open spec fn items_safe(items: Seq<ClobJson>, n: int) -> bool
    decreases items, n,
{
    if n <= 0 || n > items.len() {
        true
    } else {
        items_safe(items, n - 1) && node_safe(items[n - 1])
    }
}

/// `bs` are the books made of `fs`, one for one, received at `received_at_ms`.
pub open spec fn books_match(bs: Seq<Book>, fs: Seq<BookFields>, received_at_ms: i64) -> bool {
    &&& bs.len() == fs.len()
    &&& forall|k: int| 0 <= k < fs.len() ==> #[trigger] book_matches(bs[k], fs[k], received_at_ms)
}

/// `after` is `before` followed by the books of `res`; or `r` is the error of `res`.
pub open spec fn appended(
    before: Seq<Book>,
    after: Seq<Book>,
    res: Result<Seq<BookFields>, Seq<char>>,
    r: Result<(), ClobParseError>,
    received_at_ms: i64,
) -> bool {
    match res {
        Ok(fs) => r is Ok && after.len() >= before.len() && after.take(before.len() as int) == before && books_match(
            after.skip(before.len() as int),
            fs,
            received_at_ms,
        ),
        Err(e) => r is Err && r->Err_0.message@ == e,
    }
}

proof fn lemma_books_match_concat(a: Seq<Book>, b: Seq<Book>, fa: Seq<BookFields>, fb: Seq<BookFields>, t: i64)
    requires
        books_match(a, fa, t),
        books_match(b, fb, t),
    ensures
        books_match(a + b, fa + fb, t),
{
    assert forall|k: int| 0 <= k < (fa + fb).len() implies #[trigger] book_matches((a + b)[k], (fa + fb)[k], t) by {
        if k < fa.len() {
            assert(book_matches(a[k], fa[k], t));
        } else {
            assert(book_matches(b[k - fa.len()], fb[k - fa.len()], t));
        }
    }
}

proof fn lemma_items_error_persists(items: Seq<ClobJson>, n: int)
    requires
        0 <= n <= items.len(),
        items_books(items, n) is Err,
    ensures
        items_books(items, items.len() as int) == items_books(items, n),
    decreases items.len() - n,
{
    if n < items.len() {
        lemma_items_error_persists(items, n + 1);
    }
}

proof fn lemma_items_safe(items: Seq<ClobJson>, n: int, k: int)
    requires
        items_safe(items, n),
        0 <= k < n <= items.len(),
    ensures
        node_safe(items[k]),
    decreases n,
{
    if k < n - 1 {
        lemma_items_safe(items, n - 1, k);
    }
}

/// Appends the books of the value to `out`, in order; the first error stops it.
fn collect_books(j: &ClobJson, received_at_ms: i64, out: &mut Vec<Book>) -> (r: Result<(), ClobParseError>)
    requires
        node_safe(*j),
    ensures
        appended(old(out)@, final(out)@, node_books(*j), r, received_at_ms),
    decreases j,
{
    let ghost start = out@;
    match j {
        ClobJson::Array(items) => {
            let mut i: usize = 0;
            assert(out@.skip(start.len() as int) =~= Seq::<Book>::empty());
            assert(out@.take(start.len() as int) =~= start);
            while i < items.len()
                invariant
                    *j == ClobJson::Array(*items),
                    i <= items@.len(),
                    items_safe(items@, items@.len() as int),
                    items_books(items@, i as int) is Ok,
                    out@.len() >= start.len(),
                    out@.take(start.len() as int) == start,
                    books_match(out@.skip(start.len() as int), items_books(items@, i as int)->Ok_0, received_at_ms),
                decreases items@.len() - i,
            {
                proof {
                    lemma_items_safe(items@, items@.len() as int, i as int);
                }
                let ghost mid = out@;
                let item = &items[i];
                proof {
                    assert(decreases_to!(*j => (*j)->Array_0));
                    assert(decreases_to!((*j)->Array_0 => (*j)->Array_0@));
                    assert(decreases_to!((*j)->Array_0@ => (*j)->Array_0@[i as int]));
                }
                match collect_books(item, received_at_ms, out) {
                    Err(e) => {
                        proof {
                            assert(node_books(items@[i as int]) is Err);
                            assert(items_books(items@, i as int + 1) == node_books(items@[i as int]));
                            lemma_items_error_persists(items@, i as int + 1);
                        }
                        return Err(e);
                    },
                    Ok(()) => {
                        proof {
                            let prev = items_books(items@, i as int)->Ok_0;
                            let fs = node_books(items@[i as int])->Ok_0;
                            assert(out@.take(mid.len() as int) == mid);
                            assert(out@.take(start.len() as int) =~= mid.take(start.len() as int));
                            assert(out@.skip(start.len() as int) =~= mid.skip(start.len() as int) + out@.skip(
                                mid.len() as int,
                            ));
                            lemma_books_match_concat(
                                mid.skip(start.len() as int),
                                out@.skip(mid.len() as int),
                                prev,
                                fs,
                                received_at_ms,
                            );
                        }
                    },
                }
                i = i + 1;
            }
            Ok(())
        },
        ClobJson::Object { data, payload, message } => {
            match data {
                Some(d) => {
                    return collect_books(d, received_at_ms, out);
                },
                None => {},
            }
            match payload {
                Some(p) => {
                    return collect_books(p, received_at_ms, out);
                },
                None => {},
            }
            match message {
                Some(m) => match parse_single_book(m, received_at_ms) {
                    Ok(Some(b)) => {
                        out.push(b);
                        proof {
                            assert(out@.take(start.len() as int) =~= start);
                            assert(out@.skip(start.len() as int) =~= seq![b]);
                            let f = message_book_spec(*m)->Ok_0->0;
                            assert(book_matches(out@.skip(start.len() as int)[0], seq![f][0], received_at_ms));
                        }
                        Ok(())
                    },
                    Ok(None) => {
                        assert(out@.take(start.len() as int) =~= start);
                        assert(out@.skip(start.len() as int) =~= Seq::<Book>::empty());
                        Ok(())
                    },
                    Err(e) => Err(e),
                },
                None => Err(ClobParseError { message: "failed to decode CLOB raw message".to_owned() }),
            }
        },
        ClobJson::Scalar => Err(ClobParseError { message: "failed to decode CLOB raw message".to_owned() }),
    }
}

/// Whether every message in the value has a timestamp that reads without overflow.
pub fn clob_value_is_safe(value: &ClobJson) -> (r: bool)
    ensures
        r == node_safe(*value),
    decreases value,
{
    match value {
        ClobJson::Array(items) => {
            let mut i: usize = 0;
            while i < items.len()
                invariant
                    *value == ClobJson::Array(*items),
                    i <= items@.len(),
                    items_safe(items@, i as int),
                decreases items@.len() - i,
            {
                proof {
                    assert(decreases_to!(*value => (*value)->Array_0));
                    assert(decreases_to!((*value)->Array_0 => (*value)->Array_0@));
                    assert(decreases_to!((*value)->Array_0@ => (*value)->Array_0@[i as int]));
                }
                if !clob_value_is_safe(&items[i]) {
                    proof {
                        if items_safe(items@, items@.len() as int) {
                            lemma_items_safe(items@, items@.len() as int, i as int);
                        }
                    }
                    return false;
                }
                i = i + 1;
            }
            true
        },
        ClobJson::Object { data, payload, message } => match data {
            Some(d) => clob_value_is_safe(d),
            None => match payload {
                Some(p) => clob_value_is_safe(p),
                None => match message {
                    Some(m) => raw_time_is_safe(&m.timestamp),
                    None => true,
                },
            },
        },
        ClobJson::Scalar => true,
    }
}

/// The books of the value, in order: arrays element by element, an object by its `data`
/// member, else its `payload` member, else as a message; the first error met where a
/// value does not decode or a level does not read.
pub fn parse_clob_value(value: &ClobJson, received_at_ms: i64) -> (r: Result<Vec<Book>, ClobParseError>)
    requires
        node_safe(*value),
    ensures
        match node_books(*value) {
            Ok(fs) => r is Ok && books_match(r->Ok_0@, fs, received_at_ms),
            Err(e) => r is Err && r->Err_0.message@ == e,
        },
{
    let mut out: Vec<Book> = Vec::new();
    let res = collect_books(value, received_at_ms, &mut out);
    match res {
        Ok(()) => {
            assert(out@.skip(0) =~= out@);
            Ok(out)
        },
        Err(e) => Err(e),
    }
}

/// The books of the value; none where it does not read.
pub fn handle_clob_value(value: &ClobJson, received_at_ms: i64) -> (r: Vec<Book>)
    requires
        node_safe(*value),
    ensures
        match node_books(*value) {
            Ok(fs) => books_match(r@, fs, received_at_ms),
            Err(_) => r@.len() == 0,
        },
{
    match parse_clob_value(value, received_at_ms) {
        Ok(books) => books,
        Err(_) => Vec::new(),
    }
}

} // verus!
