//! Text helpers over `str` and `String`, specified over their character sequences.
use vstd::prelude::*;
use vstd::string::*;

verus! {

/// Unicode `White_Space` characters, the ones `char::is_whitespace` accepts.
pub open spec fn is_white(c: char) -> bool {
    ||| c == '\t'
    ||| c == '\n'
    ||| c == '\u{0B}'
    ||| c == '\u{0C}'
    ||| c == '\r'
    ||| c == ' '
    ||| c == '\u{85}'
    ||| c == '\u{A0}'
    ||| c == '\u{1680}'
    ||| ('\u{2000}' <= c && c <= '\u{200A}')
    ||| c == '\u{2028}'
    ||| c == '\u{2029}'
    ||| c == '\u{202F}'
    ||| c == '\u{205F}'
    ||| c == '\u{3000}'
}

/// Number of leading white characters.
pub open spec fn lead_white(s: Seq<char>) -> nat
    decreases s.len(),
{
    if s.len() > 0 && is_white(s[0]) {
        1 + lead_white(s.drop_first())
    } else {
        0
    }
}

/// Number of trailing white characters.
pub open spec fn trail_white(s: Seq<char>) -> nat
    decreases s.len(),
{
    if s.len() > 0 && is_white(s.last()) {
        1 + trail_white(s.drop_last())
    } else {
        0
    }
}

/// `s` without leading and trailing white space, as `str::trim` gives it.
pub open spec fn trim_spec(s: Seq<char>) -> Seq<char> {
    let t = s.skip(lead_white(s) as int);
    t.take(t.len() - trail_white(t))
}

/// Every character of `s` is white space.
pub open spec fn all_white(s: Seq<char>) -> bool {
    forall|i: int| 0 <= i < s.len() ==> is_white(#[trigger] s[i])
}

/// ASCII upper-casing of one character.
pub open spec fn upper_char(c: char) -> char {
    if 'a' <= c && c <= 'z' {
        ((c as int) - 32) as char
    } else {
        c
    }
}

/// ASCII lower-casing of one character.
pub open spec fn lower_char(c: char) -> char {
    if 'A' <= c && c <= 'Z' {
        ((c as int) + 32) as char
    } else {
        c
    }
}

pub open spec fn upper_spec(s: Seq<char>) -> Seq<char> {
    s.map_values(|c: char| upper_char(c))
}

pub open spec fn lower_spec(s: Seq<char>) -> Seq<char> {
    s.map_values(|c: char| lower_char(c))
}

/// `pat` occurs in `text` at position `i`.
pub open spec fn occurs_at(text: Seq<char>, pat: Seq<char>, i: int) -> bool {
    0 <= i && i + pat.len() <= text.len() && text.subrange(i, i + pat.len()) == pat
}

/// `pat` occurs somewhere in `text`.
pub open spec fn contains_spec(text: Seq<char>, pat: Seq<char>) -> bool {
    exists|i: int| occurs_at(text, pat, i)
}

/// Appends one character with `String::push`.
#[verifier::external_body]
fn push_char(s: &mut String, c: char)
    ensures
        final(s)@ == old(s)@.push(c),
{
    s.push(c);
}

/// `char::is_whitespace`.
pub fn is_whitespace_char(c: char) -> (r: bool)
    ensures
        r == is_white(c),
{
    c == '\t' || c == '\n' || c == '\u{0B}' || c == '\u{0C}' || c == '\r' || c == ' '
        || c == '\u{85}' || c == '\u{A0}' || c == '\u{1680}' || ('\u{2000}' <= c && c <= '\u{200A}')
        || c == '\u{2028}' || c == '\u{2029}' || c == '\u{202F}' || c == '\u{205F}' || c
        == '\u{3000}'
}

/// Character-wise equality of two strings.
pub fn str_eq(a: &str, b: &str) -> (r: bool)
    ensures
        r == (a@ == b@),
{
    let n = a.unicode_len();
    let m = b.unicode_len();
    if n != m {
        return false;
    }
    let mut i: usize = 0;
    while i < n
        invariant
            n == a@.len(),
            m == b@.len(),
            n == m,
            i <= n,
            forall|j: int| 0 <= j < i ==> a@[j] == b@[j],
        decreases n - i,
    {
        if a.get_char(i) != b.get_char(i) {
            return false;
        }
        i = i + 1;
    }
    assert(a@ =~= b@);
    true
}

proof fn lemma_lead_white_bound(s: Seq<char>)
    ensures
        lead_white(s) <= s.len(),
        forall|j: int| 0 <= j < lead_white(s) ==> is_white(#[trigger] s[j]),
        lead_white(s) < s.len() ==> !is_white(s[lead_white(s) as int]),
    decreases s.len(),
{
    if s.len() > 0 && is_white(s[0]) {
        lemma_lead_white_bound(s.drop_first());
        assert forall|j: int| 0 <= j < lead_white(s) implies is_white(#[trigger] s[j]) by {
            if j > 0 {
                assert(s[j] == s.drop_first()[j - 1]);
            }
        }
    }
}

proof fn lemma_lead_white_exact(s: Seq<char>, k: nat)
    requires
        k <= s.len(),
        forall|j: int| 0 <= j < k ==> is_white(#[trigger] s[j]),
        k < s.len() ==> !is_white(s[k as int]),
    ensures
        lead_white(s) == k,
    decreases s.len(),
{
    if k > 0 {
        assert(is_white(s[0]));
        assert forall|j: int| 0 <= j < k - 1 implies is_white(#[trigger] s.drop_first()[j]) by {
            assert(s.drop_first()[j] == s[j + 1]);
        }
        if k - 1 < s.drop_first().len() {
            assert(s.drop_first()[k - 1] == s[k as int]);
        }
        lemma_lead_white_exact(s.drop_first(), (k - 1) as nat);
    }
}

proof fn lemma_trail_white_exact(s: Seq<char>, k: nat)
    requires
        k <= s.len(),
        forall|j: int| s.len() - k <= j < s.len() ==> is_white(#[trigger] s[j]),
        k < s.len() ==> !is_white(s[s.len() - k - 1]),
    ensures
        trail_white(s) == k,
    decreases s.len(),
{
    if k > 0 {
        assert(is_white(s[s.len() - 1]));
        let t = s.drop_last();
        assert forall|j: int| t.len() - (k - 1) <= j < t.len() implies is_white(#[trigger] t[j]) by {
            assert(t[j] == s[j]);
        }
        if k - 1 < t.len() {
            assert(t[t.len() - (k - 1) - 1] == s[s.len() - k - 1]);
        }
        lemma_trail_white_exact(t, (k - 1) as nat);
    }
}

/// `s.trim()` as an owned string.
pub fn trim(s: &str) -> (r: String)
    ensures
        r@ == trim_spec(s@),
{
    let n = s.unicode_len();
    let mut start: usize = 0;
    while start < n && is_whitespace_char(s.get_char(start))
        invariant
            n == s@.len(),
            start <= n,
            forall|j: int| 0 <= j < start ==> is_white(#[trigger] s@[j]),
        decreases n - start,
    {
        start = start + 1;
    }
    proof {
        lemma_lead_white_exact(s@, start as nat);
    }
    let mut end: usize = n;
    while end > start && is_whitespace_char(s.get_char(end - 1))
        invariant
            n == s@.len(),
            start <= end <= n,
            forall|j: int| end <= j < n ==> is_white(#[trigger] s@[j]),
        decreases end,
    {
        end = end - 1;
    }
    let ghost t = s@.skip(start as int);
    proof {
        let k = (n - end) as nat;
        assert forall|j: int| t.len() - k <= j < t.len() implies is_white(#[trigger] t[j]) by {
            assert(t[j] == s@[j + start]);
        }
        if k < t.len() {
            assert(t[t.len() - k - 1] == s@[end - 1]);
        }
        lemma_trail_white_exact(t, k);
    }
    let mut out = String::new();
    let mut i: usize = start;
    while i < end
        invariant
            n == s@.len(),
            start <= i <= end <= n,
            out@ == s@.subrange(start as int, i as int),
        decreases end - i,
    {
        push_char(&mut out, s.get_char(i));
        assert(s@.subrange(start as int, i + 1) =~= s@.subrange(start as int, i as int).push(
            s@[i as int],
        ));
        i = i + 1;
    }
    assert(out@ =~= trim_spec(s@));
    out
}

proof fn lemma_trim_empty(s: Seq<char>)
    ensures
        trim_spec(s).len() == 0 <==> all_white(s),
{
    lemma_lead_white_bound(s);
    let t = s.skip(lead_white(s) as int);
    if all_white(s) {
        if lead_white(s) < s.len() {
            assert(is_white(s[lead_white(s) as int]));
        }
        assert(t.len() == 0);
        assert(trail_white(t) == 0);
    } else {
        let i = choose|i: int| 0 <= i < s.len() && !is_white(s[i]);
        assert(lead_white(s) <= i);
        assert(lead_white(s) < s.len());
        assert(!is_white(t[0]));
        lemma_trail_bound(t);
    }
}

proof fn lemma_trail_bound(t: Seq<char>)
    requires
        t.len() > 0,
        !is_white(t[0]),
    ensures
        trail_white(t) < t.len(),
    decreases t.len(),
{
    if t.len() > 1 && is_white(t.last()) {
        assert(t.drop_last()[0] == t[0]);
        lemma_trail_bound(t.drop_last());
    }
}

/// `s.trim().is_empty()`: the text holds nothing but white space.
pub fn is_blank(s: &str) -> (r: bool)
    ensures
        r == (trim_spec(s@).len() == 0),
        r == all_white(s@),
{
    proof {
        lemma_trim_empty(s@);
    }
    let n = s.unicode_len();
    let mut i: usize = 0;
    while i < n
        invariant
            n == s@.len(),
            i <= n,
            forall|j: int| 0 <= j < i ==> is_white(#[trigger] s@[j]),
        decreases n - i,
    {
        if !is_whitespace_char(s.get_char(i)) {
            assert(!is_white(s@[i as int]));
            assert(!all_white(s@));
            proof {
                lemma_trim_empty(s@);
            }
            return false;
        }
        i = i + 1;
    }
    true
}

/// ASCII upper-casing, as `str::to_ascii_uppercase` gives it.
pub fn to_ascii_uppercase(s: &str) -> (r: String)
    ensures
        r@ == upper_spec(s@),
{
    let n = s.unicode_len();
    let mut out = String::new();
    let mut i: usize = 0;
    while i < n
        invariant
            n == s@.len(),
            i <= n,
            out@ == upper_spec(s@.take(i as int)),
        decreases n - i,
    {
        let c = s.get_char(i);
        let u = if 'a' <= c && c <= 'z' {
            ((c as u32) - 32) as u8 as char
        } else {
            c
        };
        assert(u == upper_char(c)) by {
            if 'a' <= c && c <= 'z' {
                assert((((c as u32) - 32) as u8 as char) == (((c as int) - 32) as char));
            }
        }
        push_char(&mut out, u);
        assert(upper_spec(s@.take(i + 1)) =~= upper_spec(s@.take(i as int)).push(upper_char(c)));
        i = i + 1;
    }
    assert(s@.take(n as int) =~= s@);
    out
}

/// ASCII lower-casing, as `str::to_ascii_lowercase` gives it.
pub fn to_ascii_lowercase(s: &str) -> (r: String)
    ensures
        r@ == lower_spec(s@),
{
    let n = s.unicode_len();
    let mut out = String::new();
    let mut i: usize = 0;
    while i < n
        invariant
            n == s@.len(),
            i <= n,
            out@ == lower_spec(s@.take(i as int)),
        decreases n - i,
    {
        let c = s.get_char(i);
        let u = if 'A' <= c && c <= 'Z' {
            ((c as u32) + 32) as u8 as char
        } else {
            c
        };
        assert(u == lower_char(c)) by {
            if 'A' <= c && c <= 'Z' {
                assert((((c as u32) + 32) as u8 as char) == (((c as int) + 32) as char));
            }
        }
        push_char(&mut out, u);
        assert(lower_spec(s@.take(i + 1)) =~= lower_spec(s@.take(i as int)).push(lower_char(c)));
        i = i + 1;
    }
    assert(s@.take(n as int) =~= s@);
    out
}

/// Whether `pat` occurs in `text`, as `str::contains` answers it.
pub fn contains(text: &str, pat: &str) -> (r: bool)
    ensures
        r == contains_spec(text@, pat@),
{
    let n = text.unicode_len();
    let m = pat.unicode_len();
    if m > n {
        assert forall|i: int| !occurs_at(text@, pat@, i) by {}
        return false;
    }
    let mut i: usize = 0;
    while i <= n - m
        invariant
            n == text@.len(),
            m == pat@.len(),
            m <= n,
            i <= n - m + 1,
            forall|k: int| 0 <= k < i ==> !occurs_at(text@, pat@, k),
        decreases n - i,
    {
        let mut j: usize = 0;
        let mut matched = true;
        while j < m
            invariant
                n == text@.len(),
                m == pat@.len(),
                i + m <= n,
                j <= m,
                matched ==> forall|k: int| 0 <= k < j ==> text@[i + k] == pat@[k],
                !matched ==> exists|k: int| 0 <= k < m && text@[i + k] != pat@[k],
            decreases m - j,
        {
            if text.get_char(i + j) != pat.get_char(j) {
                matched = false;
            }
            j = j + 1;
        }
        if matched {
            assert(text@.subrange(i as int, i + m) =~= pat@);
            assert(occurs_at(text@, pat@, i as int));
            return true;
        }
        proof {
            let k = choose|k: int| 0 <= k < m && text@[i + k] != pat@[k];
            if occurs_at(text@, pat@, i as int) {
                assert(text@.subrange(i as int, i + m)[k] == text@[i + k]);
            }
        }
        i = i + 1;
    }
    false
}


/// The decimal digit character for `d`.
pub open spec fn digit_char(d: int) -> char {
    if d == 0 {
        '0'
    } else if d == 1 {
        '1'
    } else if d == 2 {
        '2'
    } else if d == 3 {
        '3'
    } else if d == 4 {
        '4'
    } else if d == 5 {
        '5'
    } else if d == 6 {
        '6'
    } else if d == 7 {
        '7'
    } else if d == 8 {
        '8'
    } else {
        '9'
    }
}

/// The decimal text of a natural number, without leading zeros.
pub open spec fn nat_text(n: nat) -> Seq<char>
    decreases n,
{
    if n < 10 {
        seq![digit_char(n as int)]
    } else {
        nat_text(n / 10).push(digit_char((n % 10) as int))
    }
}

/// The decimal text of an integer, with a leading minus sign when negative.
pub open spec fn int_text(n: int) -> Seq<char> {
    if n < 0 {
        seq!['-'] + nat_text((-n) as nat)
    } else {
        nat_text(n as nat)
    }
}

fn digit(d: u64) -> (r: char)
    requires
        d < 10,
    ensures
        r == digit_char(d as int),
{
    if d == 0 {
        '0'
    } else if d == 1 {
        '1'
    } else if d == 2 {
        '2'
    } else if d == 3 {
        '3'
    } else if d == 4 {
        '4'
    } else if d == 5 {
        '5'
    } else if d == 6 {
        '6'
    } else if d == 7 {
        '7'
    } else if d == 8 {
        '8'
    } else {
        '9'
    }
}

/// The decimal text of `n`, as `Display` writes it.
pub fn u64_text(n: u64) -> (r: String)
    ensures
        r@ == nat_text(n as nat),
    decreases n,
{
    if n < 10 {
        let mut s = String::new();
        push_char(&mut s, digit(n));
        assert(s@ =~= seq![digit_char(n as int)]);
        s
    } else {
        let mut s = u64_text(n / 10);
        push_char(&mut s, digit(n % 10));
        s
    }
}

/// The decimal text of `n`, as `Display` writes it.
pub fn i64_text(n: i64) -> (r: String)
    ensures
        r@ == int_text(n as int),
{
    if n < 0 {
        let m: i128 = 0i128 - (n as i128);
        let mut s = String::new();
        push_char(&mut s, '-');
        let digits = u64_text(m as u64);
        s.append(digits.as_str());
        assert(s@ =~= seq!['-'] + nat_text((-(n as int)) as nat));
        s
    } else {
        u64_text(n as u64)
    }
}


/// Trimming leaves alone a text that neither starts nor ends with white space.
pub proof fn lemma_trim_noop(s: Seq<char>)
    requires
        s.len() > 0,
        !is_white(s[0]),
        !is_white(s.last()),
    ensures
        trim_spec(s) == s,
{
    assert(lead_white(s) == 0);
    assert(s.skip(0) =~= s);
    assert(trail_white(s) == 0);
    assert(s.take(s.len() as int) =~= s);
}

/// Lower-casing leaves alone a text without ASCII capitals.
pub proof fn lemma_lower_noop(s: Seq<char>)
    requires
        forall|i: int| 0 <= i < s.len() ==> !('A' <= #[trigger] s[i] && s[i] <= 'Z'),
    ensures
        lower_spec(s) == s,
{
    assert(lower_spec(s) =~= s);
}


/// The part of `s` before the first `sep`; all of `s` without one.
pub open spec fn before_char(s: Seq<char>, sep: char) -> Seq<char>
    decreases s.len(),
{
    if s.len() == 0 {
        s
    } else if s[0] == sep {
        Seq::empty()
    } else {
        seq![s[0]] + before_char(s.drop_first(), sep)
    }
}

/// `s` with every `c` replaced by `with`.
pub open spec fn replace_spec(s: Seq<char>, c: char, with: Seq<char>) -> Seq<char>
    decreases s.len(),
{
    if s.len() == 0 {
        s
    } else {
        replace_spec(s.drop_last(), c, with) + if s.last() == c {
            with
        } else {
            seq![s.last()]
        }
    }
}

/// The first piece of `s` split at `sep`, as `s.split(sep).next()` gives it.
pub fn first_component(s: &str, sep: char) -> (r: String)
    ensures
        r@ == before_char(s@, sep),
{
    let n = s.unicode_len();
    let mut out = String::new();
    let mut i: usize = 0;
    assert(s@.skip(0) =~= s@);
    assert(out@ + before_char(s@, sep) =~= before_char(s@, sep));
    while i < n
        invariant
            n == s@.len(),
            i <= n,
            forall|k: int| 0 <= k < i ==> s@[k] != sep,
            out@ == s@.take(i as int),
            before_char(s@, sep) == out@ + before_char(s@.skip(i as int), sep),
        decreases n - i,
    {
        let c = s.get_char(i);
        if c == sep {
            proof {
                assert(s@.skip(i as int)[0] == sep);
            }
            assert(before_char(s@.skip(i as int), sep) =~= Seq::<char>::empty());
            assert(out@ + Seq::<char>::empty() =~= out@);
            return out;
        }
        proof {
            let t = s@.skip(i as int);
            assert(t[0] == c);
            assert(t.drop_first() =~= s@.skip(i + 1));
            assert(before_char(t, sep) == seq![c] + before_char(s@.skip(i + 1), sep));
            assert(s@.take(i + 1) =~= s@.take(i as int).push(c));
            assert(out@ + (seq![c] + before_char(s@.skip(i + 1), sep)) =~= out@.push(c) + before_char(
                s@.skip(i + 1),
                sep,
            ));
        }
        push_char(&mut out, c);
        i = i + 1;
    }
    proof {
        assert(s@.skip(i as int) =~= Seq::<char>::empty());
        assert(out@ + Seq::<char>::empty() =~= out@);
    }
    out
}

/// `s` with every `c` replaced by `with`, as `str::replace` gives it for one character.
pub fn replace_char(s: &str, c: char, with: &str) -> (r: String)
    ensures
        r@ == replace_spec(s@, c, with@),
{
    let n = s.unicode_len();
    let mut out = String::new();
    let mut i: usize = 0;
    assert(replace_spec(s@.take(0), c, with@) =~= Seq::<char>::empty());
    while i < n
        invariant
            n == s@.len(),
            i <= n,
            out@ == replace_spec(s@.take(i as int), c, with@),
        decreases n - i,
    {
        let x = s.get_char(i);
        proof {
            assert(s@.take(i + 1).drop_last() =~= s@.take(i as int));
            assert(s@.take(i + 1).last() == x);
        }
        if x == c {
            out.append(with);
        } else {
            push_char(&mut out, x);
            assert(out@ =~= replace_spec(s@.take(i as int), c, with@) + seq![x]);
        }
        i = i + 1;
    }
    assert(s@.take(i as int) =~= s@);
    out
}

/// An ASCII decimal digit.
pub open spec fn is_digit(c: char) -> bool {
    '0' <= c && c <= '9'
}

/// The value of a run of decimal digits.
pub open spec fn digits_value(s: Seq<char>) -> int
    decreases s.len(),
{
    if s.len() == 0 {
        0
    } else {
        digits_value(s.drop_last()) * 10 + ((s.last() as int) - ('0' as int))
    }
}

/// `s` without its leading `+` or `-`, if it has one.
pub open spec fn unsigned_part(s: Seq<char>) -> Seq<char> {
    if s.len() > 0 && (s[0] == '-' || s[0] == '+') {
        s.drop_first()
    } else {
        s
    }
}

/// The integer written in `s`: an optional `+` or `-`, then one or more decimal digits,
/// and nothing else.
pub open spec fn signed_int_spec(s: Seq<char>) -> Option<int> {
    let body = unsigned_part(s);
    if body.len() > 0 && forall|i: int| 0 <= i < body.len() ==> is_digit(#[trigger] body[i]) {
        Some(
            if s[0] == '-' {
                -digits_value(body)
            } else {
                digits_value(body)
            },
        )
    } else {
        None
    }
}

/// A run of digits is worth at least nothing and at least any of its prefixes.
proof fn lemma_digits_value_prefix(s: Seq<char>, k: int)
    requires
        0 <= k <= s.len(),
        forall|i: int| 0 <= i < s.len() ==> is_digit(#[trigger] s[i]),
    ensures
        0 <= digits_value(s.take(k)) <= digits_value(s),
    decreases s.len(),
{
    if s.len() == 0 {
        assert(s.take(k) =~= s);
    } else if k == s.len() {
        assert(s.take(k) =~= s);
        lemma_digits_value_prefix(s.drop_last(), s.len() - 1);
        assert(s.drop_last().take(s.len() - 1) =~= s.drop_last());
    } else {
        lemma_digits_value_prefix(s.drop_last(), k);
        assert(s.drop_last().take(k) =~= s.take(k));
        lemma_digits_value_prefix(s.drop_last(), s.len() - 1);
        assert(s.drop_last().take(s.len() - 1) =~= s.drop_last());
    }
}

/// The value of a decimal digit character.
fn digit_value(c: char) -> (r: Option<u32>)
    ensures
        r is Some <==> is_digit(c),
        r is Some ==> r->0 as int == (c as int) - ('0' as int),
{
    if '0' <= c && c <= '9' {
        Some((c as u32) - ('0' as u32))
    } else {
        None
    }
}

/// The integer written in `text`, where it fits in `i128`: an optional `+` or `-`,
/// then one or more decimal digits, as `i128::from_str` reads it.
pub(crate) fn parse_i128(text: &str) -> (r: Option<i128>)
    ensures
        match signed_int_spec(text@) {
            Some(v) => if i128::MIN <= v <= i128::MAX {
                r == Some(v as i128)
            } else {
                r is None
            },
            None => r is None,
        },
{
    let n = text.unicode_len();
    let ghost s = text@;
    if n == 0 {
        return None;
    }
    let first = text.get_char(0);
    let neg = first == '-';
    let start: usize = if first == '-' || first == '+' {
        1
    } else {
        0
    };
    let ghost body = s.skip(start as int);
    assert(body =~= unsigned_part(s));
    if start >= n {
        return None;
    }
    let mut acc: i128 = 0;
    let mut i: usize = start;
    assert(body.take(0) =~= Seq::<char>::empty());
    while i < n
        invariant
            start <= i <= n,
            n == s.len(),
            s == text@,
            start < n,
            neg == (s[0] == '-'),
            body == s.skip(start as int),
            body == unsigned_part(s),
            forall|j: int| 0 <= j < i - start ==> is_digit(#[trigger] body[j]),
            acc == (if neg {
                -digits_value(body.take(i - start))
            } else {
                digits_value(body.take(i - start))
            }),
        decreases n - i,
    {
        let c = text.get_char(i);
        assert(body[i - start] == c);
        let d = match digit_value(c) {
            Some(d) => d,
            None => {
                proof {
                    let kk = (i - start) as int;
                    assert(!is_digit(body[kk]));
                }
                return None;
            },
        };
        let k = i - start;
        proof {
            assert(body.take(k + 1).drop_last() =~= body.take(k as int));
            assert(body.take(k + 1).last() == c);
            assert(digits_value(body.take(k + 1)) == digits_value(body.take(k as int)) * 10 + d);
        }
        let next = match acc.checked_mul(10) {
            Some(m) => if neg {
                m.checked_sub(d as i128)
            } else {
                m.checked_add(d as i128)
            },
            None => None,
        };
        match next {
            Some(v) => {
                acc = v;
            },
            None => {
                proof {
                    if forall|j: int| 0 <= j < body.len() ==> is_digit(#[trigger] body[j]) {
                        lemma_digits_value_prefix(body.take(k + 1), k as int);
                        assert(body.take(k + 1).take(k as int) =~= body.take(k as int));
                        lemma_digits_value_prefix(body, k + 1);
                    }
                }
                return None;
            },
        }
        i = i + 1;
    }
    assert(body.take(n - start) =~= body);
    Some(acc)
}

/// The integer written in `text`, where it fits in `i64`: an optional `+` or `-`, then
/// one or more decimal digits, as `i64::from_str` reads it.
pub(crate) fn parse_i64(text: &str) -> (r: Option<i64>)
    ensures
        match signed_int_spec(text@) {
            Some(v) => if i64::MIN <= v <= i64::MAX {
                r == Some(v as i64)
            } else {
                r is None
            },
            None => r is None,
        },
{
    match parse_i128(text) {
        Some(v) => if (i64::MIN as i128) <= v && v <= (i64::MAX as i128) {
            Some(v as i64)
        } else {
            None
        },
        None => None,
    }
}

} // verus!
