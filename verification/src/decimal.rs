//! Fixed-point decimal numbers: a signed 96-bit mantissa and a power-of-ten scale.
//!
//! The value of a `Decimal` with mantissa `m` and scale `s` is `m / 10^s`.
//! Values are held as plain integers; every comparison and every arithmetic
//! operation is carried out by the `rust_decimal` crate.
use vstd::prelude::*;

use crate::text::nat_text;

verus! {

/// The largest mantissa magnitude a decimal can hold (2^96 - 1).
pub const MAX_MANTISSA: i128 = 79228162514264337593543950335i128;

/// The largest number of fractional digits a decimal can hold.
pub const MAX_SCALE: u32 = 28u32;

/// `10^n`.
pub open spec fn pow10(n: nat) -> int
    decreases n,
{
    if n == 0 {
        1
    } else {
        10 * pow10((n - 1) as nat)
    }
}

/// A decimal as plain values: (mantissa, scale).
pub type DecView = (int, nat);

/// The rational number denoted by `a` is smaller than that denoted by `b`.
pub open spec fn value_lt(a: DecView, b: DecView) -> bool {
    a.0 * pow10(b.1) < b.0 * pow10(a.1)
}

/// `a` and `b` denote the same rational number.
pub open spec fn value_eq(a: DecView, b: DecView) -> bool {
    a.0 * pow10(b.1) == b.0 * pow10(a.1)
}

pub open spec fn value_le(a: DecView, b: DecView) -> bool {
    value_lt(a, b) || value_eq(a, b)
}

/// The value zero.
pub open spec fn zero_view() -> DecView {
    (0, 0)
}

/// The value one.
pub open spec fn one_view() -> DecView {
    (1, 0)
}

/// The decimal is strictly positive.
pub open spec fn is_pos(a: DecView) -> bool {
    value_lt(zero_view(), a)
}

/// The smaller of two decimals, keeping the first one when they are equal in value.
pub open spec fn min_view(a: DecView, b: DecView) -> DecView {
    if value_lt(b, a) {
        b
    } else {
        a
    }
}

/// The larger of two decimals, keeping the first one when they are equal in value.
pub open spec fn max_view(a: DecView, b: DecView) -> DecView {
    if value_lt(a, b) {
        b
    } else {
        a
    }
}

/// A mantissa and scale that a decimal can hold.
pub open spec fn representable(a: DecView) -> bool {
    -(MAX_MANTISSA as int) <= a.0 <= MAX_MANTISSA as int && a.1 <= MAX_SCALE as nat
}

/// The exact sum of `a` and `b` at the larger of the two scales.
pub open spec fn exact_sum(a: DecView, b: DecView) -> DecView {
    let s: nat = if a.1 >= b.1 {
        a.1
    } else {
        b.1
    };
    (a.0 * pow10((s - a.1) as nat) + b.0 * pow10((s - b.1) as nat), s)
}

/// The exact difference `a - b` at the larger of the two scales.
pub open spec fn exact_difference(a: DecView, b: DecView) -> DecView {
    exact_sum(a, (-b.0, b.1))
}

/// The exact product of `a` and `b`.
pub open spec fn exact_product(a: DecView, b: DecView) -> DecView {
    (a.0 * b.0, a.1 + b.1)
}

/// What `rust_decimal::Decimal::checked_add` returns for these operands.
pub uninterp spec fn decimal_checked_add(a: DecView, b: DecView) -> Option<DecView>;

/// What `rust_decimal::Decimal::checked_sub` returns for these operands.
pub uninterp spec fn decimal_checked_sub(a: DecView, b: DecView) -> Option<DecView>;

/// What `rust_decimal::Decimal::checked_mul` returns for these operands.
pub uninterp spec fn decimal_checked_mul(a: DecView, b: DecView) -> Option<DecView>;

/// What `rust_decimal::Decimal::checked_div` returns for these operands.
pub uninterp spec fn decimal_checked_div(a: DecView, b: DecView) -> Option<DecView>;

/// What `rust_decimal::Decimal::from_str` parses from this text, if anything.
pub uninterp spec fn decimal_parse(text: Seq<char>) -> Option<DecView>;

/// The digits of the mantissa's magnitude, none for zero, padded on the left with
/// zeros to at least `scale` digits.
pub open spec fn padded_digits(a: DecView) -> Seq<char> {
    let mag: nat = if a.0 < 0 {
        (-a.0) as nat
    } else {
        a.0 as nat
    };
    let digits = if mag == 0 {
        Seq::<char>::empty()
    } else {
        nat_text(mag)
    };
    if digits.len() < a.1 {
        Seq::new((a.1 - digits.len()) as nat, |i: int| '0') + digits
    } else {
        digits
    }
}

/// The text of a decimal: a minus sign where it is negative, the whole part (`0` where
/// it has no digits), then, for a positive scale, a point and `scale` fractional digits.
pub open spec fn decimal_text(a: DecView) -> Seq<char> {
    let p = padded_digits(a);
    let whole = p.take(p.len() - a.1);
    let frac = p.skip(p.len() - a.1);
    (if a.0 < 0 {
        "-"@
    } else {
        ""@
    }) + (if whole.len() == 0 {
        "0"@
    } else {
        whole
    }) + (if a.1 > 0 {
        "."@ + frac
    } else {
        ""@
    })
}

/// Optional decimal, taken by its view.
pub open spec fn opt_view(o: Option<Decimal>) -> Option<DecView> {
    match o {
        Some(d) => Some(d@),
        None => None,
    }
}

pub proof fn lemma_pow10_pos(n: nat)
    ensures
        pow10(n) > 0,
    decreases n,
{
    if n > 0 {
        lemma_pow10_pos((n - 1) as nat);
    }
}

proof fn lemma_scaled_lt(x: int, y: int, z: int, p: int)
    requires
        p > 0,
        x * p < y * p,
    ensures
        x < y,
{
    assert(x < y) by (nonlinear_arith)
        requires
            p > 0,
            x * p < y * p,
    ;
}

/// Ordering by value is transitive through a strict step.
pub proof fn lemma_lt_le_trans(a: DecView, b: DecView, c: DecView)
    requires
        value_lt(a, b),
        value_le(b, c),
    ensures
        value_lt(a, c),
{
    lemma_pow10_pos(a.1);
    lemma_pow10_pos(b.1);
    lemma_pow10_pos(c.1);
    let (pa, pb, pc) = (pow10(a.1), pow10(b.1), pow10(c.1));
    assert(a.0 * pc * pb < c.0 * pa * pb) by (nonlinear_arith)
        requires
            pa > 0,
            pb > 0,
            pc > 0,
            a.0 * pb < b.0 * pa,
            b.0 * pc <= c.0 * pb,
    ;
    lemma_scaled_lt(a.0 * pc, c.0 * pa, 0, pb);
}

/// Ordering by value is transitive through a strict step.
pub proof fn lemma_le_lt_trans(a: DecView, b: DecView, c: DecView)
    requires
        value_le(a, b),
        value_lt(b, c),
    ensures
        value_lt(a, c),
{
    lemma_pow10_pos(a.1);
    lemma_pow10_pos(b.1);
    lemma_pow10_pos(c.1);
    let (pa, pb, pc) = (pow10(a.1), pow10(b.1), pow10(c.1));
    assert(a.0 * pc * pb < c.0 * pa * pb) by (nonlinear_arith)
        requires
            pa > 0,
            pb > 0,
            pc > 0,
            a.0 * pb <= b.0 * pa,
            b.0 * pc < c.0 * pb,
    ;
    lemma_scaled_lt(a.0 * pc, c.0 * pa, 0, pb);
}

/// Ordering by value is transitive.
pub proof fn lemma_le_trans(a: DecView, b: DecView, c: DecView)
    requires
        value_le(a, b),
        value_le(b, c),
    ensures
        value_le(a, c),
{
    if value_lt(a, b) {
        lemma_lt_le_trans(a, b, c);
    } else if value_lt(b, c) {
        lemma_le_lt_trans(a, b, c);
    } else {
        lemma_pow10_pos(a.1);
        lemma_pow10_pos(b.1);
        lemma_pow10_pos(c.1);
        let (pa, pb, pc) = (pow10(a.1), pow10(b.1), pow10(c.1));
        assert(a.0 * pc * pb == c.0 * pa * pb) by (nonlinear_arith)
            requires
                a.0 * pb == b.0 * pa,
                b.0 * pc == c.0 * pb,
        ;
        assert(a.0 * pc == c.0 * pa) by (nonlinear_arith)
            requires
                pb > 0,
                a.0 * pc * pb == c.0 * pa * pb,
        ;
    }
}

/// A fixed-point decimal number.
#[derive(Clone, Copy, Debug)]
pub struct Decimal {
    mantissa: i128,
    scale: u32,
}

impl View for Decimal {
    type V = DecView;

    closed spec fn view(&self) -> DecView {
        (self.mantissa as int, self.scale as nat)
    }
}

impl Decimal {
    #[verifier::type_invariant]
    closed spec fn inv(self) -> bool {
        &&& -MAX_MANTISSA <= self.mantissa <= MAX_MANTISSA
        &&& self.scale <= MAX_SCALE
    }

    /// Every decimal has a mantissa and scale in range.
    pub fn assert_representable(&self)
        ensures
            representable(self@),
    {
        proof {
            use_type_invariant(self);
        }
    }

    /// `num / 10^scale`.
    pub fn new(num: i64, scale: u32) -> (r: Decimal)
        requires
            scale <= MAX_SCALE,
        ensures
            r@ == (num as int, scale as nat),
    {
        Decimal { mantissa: num as i128, scale }
    }

    /// `num / 10^scale`.
    pub fn from_i128_with_scale(num: i128, scale: u32) -> (r: Decimal)
        requires
            representable((num as int, scale as nat)),
        ensures
            r@ == (num as int, scale as nat),
    {
        Decimal { mantissa: num, scale }
    }

    /// An integer as a decimal with scale zero.
    pub fn from_i64(num: i64) -> (r: Decimal)
        ensures
            r@ == (num as int, 0nat),
    {
        Decimal { mantissa: num as i128, scale: 0 }
    }

    pub fn zero() -> (r: Decimal)
        ensures
            r@ == zero_view(),
    {
        Decimal { mantissa: 0, scale: 0 }
    }

    pub fn one() -> (r: Decimal)
        ensures
            r@ == one_view(),
    {
        Decimal { mantissa: 1, scale: 0 }
    }

    pub fn mantissa(&self) -> (r: i128)
        ensures
            r as int == self@.0,
    {
        self.mantissa
    }

    pub fn scale(&self) -> (r: u32)
        ensures
            r as nat == self@.1,
    {
        self.scale
    }

    /// Parses decimal text as `rust_decimal` reads it.
    pub fn parse(text: &str) -> (r: Option<Decimal>)
        ensures
            opt_view(r) == decimal_parse(text@),
    {
        rd_from_str(text)
    }

    /// The text that `rust_decimal` prints for this decimal.
    pub fn to_text(&self) -> (r: String)
        ensures
            r@ == decimal_text(self@),
    {
        rd_to_string(self)
    }

    /// `self < other`, by the values the two decimals denote.
    pub fn lt(&self, other: &Decimal) -> (r: bool)
        ensures
            r == value_lt(self@, other@),
    {
        rd_lt(self, other)
    }

    /// `self == other`, by the values the two decimals denote.
    pub fn eq_value(&self, other: &Decimal) -> (r: bool)
        ensures
            r == value_eq(self@, other@),
    {
        rd_eq(self, other)
    }

    pub fn le(&self, other: &Decimal) -> (r: bool)
        ensures
            r == value_le(self@, other@),
    {
        self.lt(other) || self.eq_value(other)
    }

    pub fn gt(&self, other: &Decimal) -> (r: bool)
        ensures
            r == value_lt(other@, self@),
    {
        other.lt(self)
    }

    pub fn ge(&self, other: &Decimal) -> (r: bool)
        ensures
            r == value_le(other@, self@),
    {
        other.le(self)
    }

    /// The smaller value; `self` when both are equal.
    pub fn min(self, other: Decimal) -> (r: Decimal)
        ensures
            r@ == min_view(self@, other@),
    {
        if self.gt(&other) {
            other
        } else {
            self
        }
    }

    /// The larger value; `self` when both are equal.
    pub fn max(self, other: Decimal) -> (r: Decimal)
        ensures
            r@ == max_view(self@, other@),
    {
        if self.lt(&other) {
            other
        } else {
            self
        }
    }

    /// `self + other`, `None` where the sum overflows; the exact sum at the larger
    /// scale wherever that fits.
    pub fn checked_add(&self, other: &Decimal) -> (r: Option<Decimal>)
        ensures
            opt_view(r) == decimal_checked_add(self@, other@),
            representable(exact_sum(self@, other@)) ==> r is Some && value_eq(r->0@, exact_sum(self@, other@)),
    {
        rd_checked_add(self, other)
    }

    /// `self - other`, `None` where the difference overflows; the exact difference at
    /// the larger scale wherever that fits.
    pub fn checked_sub(&self, other: &Decimal) -> (r: Option<Decimal>)
        ensures
            opt_view(r) == decimal_checked_sub(self@, other@),
            representable(exact_difference(self@, other@)) ==> r is Some && value_eq(
                r->0@,
                exact_difference(self@, other@),
            ),
    {
        rd_checked_sub(self, other)
    }

    /// `self * other`, `None` where the product overflows; the exact product wherever
    /// it fits.
    pub fn checked_mul(&self, other: &Decimal) -> (r: Option<Decimal>)
        ensures
            opt_view(r) == decimal_checked_mul(self@, other@),
            representable(exact_product(self@, other@)) ==> r is Some && value_eq(
                r->0@,
                exact_product(self@, other@),
            ),
    {
        rd_checked_mul(self, other)
    }

    /// `self / other`, `None` where the divisor is zero or the quotient overflows.
    pub fn checked_div(&self, other: &Decimal) -> (r: Option<Decimal>)
        ensures
            opt_view(r) == decimal_checked_div(self@, other@),
            value_eq(other@, zero_view()) ==> r is None,
    {
        rd_checked_div(self, other)
    }
}

/// `rust_decimal::Decimal::from_str`.
///
/// Claimed of the outside code: the result depends on the text alone.
#[verifier::external_body]
fn rd_from_str(text: &str) -> (r: Option<Decimal>)
    ensures
        opt_view(r) == decimal_parse(text@),
{
    <rust_decimal::Decimal as std::str::FromStr>::from_str(text).ok().map(|d| Decimal { mantissa: d.mantissa(), scale: d.scale() })
}

/// `rust_decimal::Decimal`'s `Display`.
///
/// Claimed of the outside code: without a precision it prints the mantissa's digits,
/// zero-padded to the scale, with the point `scale` digits from the right, a `0` before
/// a point with no whole digits, and a minus sign for a negative value (a decimal here
/// is never negative zero: its sign comes from a signed mantissa).
#[verifier::external_body]
fn rd_to_string(a: &Decimal) -> (r: String)
    ensures
        r@ == decimal_text(a@),
{
    rust_decimal::Decimal::from_i128_with_scale(a.mantissa, a.scale).to_string()
}

/// `<` on `rust_decimal::Decimal`.
///
/// Claimed of the outside code: decimals are ordered by the rational numbers they
/// denote, whatever their scales.
#[verifier::external_body]
fn rd_lt(a: &Decimal, b: &Decimal) -> (r: bool)
    ensures
        r == value_lt(a@, b@),
{
    rust_decimal::Decimal::from_i128_with_scale(a.mantissa, a.scale)
        < rust_decimal::Decimal::from_i128_with_scale(b.mantissa, b.scale)
}

/// `==` on `rust_decimal::Decimal`.
///
/// Claimed of the outside code: two decimals are equal when they denote the same
/// rational number, whatever their scales.
#[verifier::external_body]
fn rd_eq(a: &Decimal, b: &Decimal) -> (r: bool)
    ensures
        r == value_eq(a@, b@),
{
    rust_decimal::Decimal::from_i128_with_scale(a.mantissa, a.scale)
        == rust_decimal::Decimal::from_i128_with_scale(b.mantissa, b.scale)
}

/// `rust_decimal::Decimal::checked_add`.
///
/// Claimed of the outside code: the result depends on the operands alone, and where
/// the exact sum at the larger scale fits in 96 bits, it is that exact sum.
#[verifier::external_body]
fn rd_checked_add(a: &Decimal, b: &Decimal) -> (r: Option<Decimal>)
    ensures
        opt_view(r) == decimal_checked_add(a@, b@),
        representable(exact_sum(a@, b@)) ==> r is Some && value_eq(r->0@, exact_sum(a@, b@)),
{
    let x = rust_decimal::Decimal::from_i128_with_scale(a.mantissa, a.scale);
    let y = rust_decimal::Decimal::from_i128_with_scale(b.mantissa, b.scale);
    x.checked_add(y).map(|d| Decimal { mantissa: d.mantissa(), scale: d.scale() })
}

/// `rust_decimal::Decimal::checked_sub`.
///
/// Claimed of the outside code: the result depends on the operands alone, and where
/// the exact difference at the larger scale fits in 96 bits, it is that exact
/// difference.
#[verifier::external_body]
fn rd_checked_sub(a: &Decimal, b: &Decimal) -> (r: Option<Decimal>)
    ensures
        opt_view(r) == decimal_checked_sub(a@, b@),
        representable(exact_difference(a@, b@)) ==> r is Some && value_eq(r->0@, exact_difference(a@, b@)),
{
    let x = rust_decimal::Decimal::from_i128_with_scale(a.mantissa, a.scale);
    let y = rust_decimal::Decimal::from_i128_with_scale(b.mantissa, b.scale);
    x.checked_sub(y).map(|d| Decimal { mantissa: d.mantissa(), scale: d.scale() })
}

/// `rust_decimal::Decimal::checked_mul`.
///
/// Claimed of the outside code: the result depends on the operands alone, and where
/// the exact product needs no more than 28 fractional digits and fits in 96 bits, it
/// is that exact product.
#[verifier::external_body]
fn rd_checked_mul(a: &Decimal, b: &Decimal) -> (r: Option<Decimal>)
    ensures
        opt_view(r) == decimal_checked_mul(a@, b@),
        representable(exact_product(a@, b@)) ==> r is Some && value_eq(r->0@, exact_product(a@, b@)),
{
    let x = rust_decimal::Decimal::from_i128_with_scale(a.mantissa, a.scale);
    let y = rust_decimal::Decimal::from_i128_with_scale(b.mantissa, b.scale);
    x.checked_mul(y).map(|d| Decimal { mantissa: d.mantissa(), scale: d.scale() })
}

/// `rust_decimal::Decimal::checked_div`.
///
/// Claimed of the outside code: the result depends on the operands alone, and a zero
/// divisor gives `None`. The quotient is rounded to what a decimal can hold; nothing
/// more is claimed of it here.
#[verifier::external_body]
fn rd_checked_div(a: &Decimal, b: &Decimal) -> (r: Option<Decimal>)
    ensures
        opt_view(r) == decimal_checked_div(a@, b@),
        value_eq(b@, zero_view()) ==> r is None,
{
    let x = rust_decimal::Decimal::from_i128_with_scale(a.mantissa, a.scale);
    let y = rust_decimal::Decimal::from_i128_with_scale(b.mantissa, b.scale);
    x.checked_div(y).map(|d| Decimal { mantissa: d.mantissa(), scale: d.scale() })
}

} // verus!
