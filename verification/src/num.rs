//! Integer helpers.
use vstd::prelude::*;

verus! {

/// `a - b`, saturating at the bounds of `i64`.
pub open spec fn sat_sub_spec(a: i64, b: i64) -> int {
    let d = a - b;
    if d > i64::MAX {
        i64::MAX as int
    } else if d < i64::MIN {
        i64::MIN as int
    } else {
        d
    }
}

/// `i64::saturating_sub`.
pub fn sat_sub(a: i64, b: i64) -> (r: i64)
    ensures
        r as int == sat_sub_spec(a, b),
{
    let d: i128 = (a as i128) - (b as i128);
    if d > (i64::MAX as i128) {
        i64::MAX
    } else if d < (i64::MIN as i128) {
        i64::MIN
    } else {
        d as i64
    }
}

} // verus!

verus! {

/// Integer division rounding toward zero, as Rust's `/` does.
pub open spec fn div_toward_zero(a: int, b: int) -> int {
    if a >= 0 {
        a / b
    } else {
        -((-a) / b)
    }
}

/// `a / b` with Rust's rounding toward zero, for a positive divisor.
pub fn div_i64(a: i64, b: i64) -> (r: i64)
    requires
        b > 0,
    ensures
        r as int == div_toward_zero(a as int, b as int),
{
    let x: i128 = a as i128;
    let y: i128 = b as i128;
    if x >= 0 {
        assert(x / y <= x) by (nonlinear_arith)
            requires
                x >= 0,
                y > 0,
        ;
        (x / y) as i64
    } else {
        let nx: i128 = -x;
        assert(nx / y <= nx && nx / y >= 0) by (nonlinear_arith)
            requires
                nx > 0,
                y > 0,
        ;
        (-(nx / y)) as i64
    }
}

} // verus!
