//! Rust's integer division and remainder on `i32`, which round toward zero.
use vstd::prelude::*;

verus! {

/// Whether `v` is representable as an `i32`.
pub open spec fn fits_i32(v: int) -> bool {
    i32::MIN <= v <= i32::MAX
}

/// Division rounding toward zero, as Rust's `/` on signed integers.
pub open spec fn tdiv(a: int, b: int) -> int {
    if (a >= 0) == (b > 0) {
        abs(a) / abs(b)
    } else {
        -(abs(a) / abs(b))
    }
}

/// Remainder of the division rounding toward zero, as Rust's `%`: it has the
/// sign of the dividend.
pub open spec fn trem(a: int, b: int) -> int {
    a - b * tdiv(a, b)
}

/// Absolute value.
pub open spec fn abs(a: int) -> int {
    if a < 0 { -a } else { a }
}

/// Division rounding toward zero by a positive divisor never grows the
/// magnitude: `|a / b| * b <= |a|`.
pub proof fn lemma_tdiv_magnitude(a: int, b: int)
    requires
        b > 0,
    ensures
        abs(tdiv(a, b)) * b <= abs(a),
        a >= 0 ==> tdiv(a, b) >= 0,
        a <= 0 ==> tdiv(a, b) <= 0,
{
    let q = abs(a) / b;
    assert(q * b <= abs(a) && q >= 0) by (nonlinear_arith) requires q == abs(a) / b, b > 0, abs(a) >= 0;
}

/// `a / b` on `i32`, rounding toward zero.
pub fn div_i32(a: i32, b: i32) -> (r: i32)
    requires
        b != 0,
        !(a == i32::MIN && b == -1),
    ensures
        r == tdiv(a as int, b as int),
{
    let wa: i64 = if a < 0 { -(a as i64) } else { a as i64 };
    let wb: i64 = if b < 0 { -(b as i64) } else { b as i64 };
    let q: i64 = wa / wb;
    assert(0 <= q <= wa) by (nonlinear_arith) requires q == wa / wb, wa >= 0, wb >= 1;
    if (a >= 0) == (b > 0) {
        assert(q == tdiv(a as int, b as int));
        if a == i32::MIN {
            assert(q <= 2147483648);
            assert(q != 2147483648) by {
                if q == 2147483648 {
                    assert(wb == 1) by (nonlinear_arith)
                        requires q == wa / wb, wa == 2147483648, wb >= 1, q == 2147483648;
                }
            }
        }
        q as i32
    } else {
        (-q) as i32
    }
}

/// The remainder of the division rounding toward zero is smaller than the
/// divisor in magnitude and has the sign of the dividend.
pub proof fn lemma_trem_bound(a: int, b: int)
    requires
        b != 0,
    ensures
        abs(trem(a, b)) < abs(b),
        a >= 0 ==> trem(a, b) >= 0,
        a <= 0 ==> trem(a, b) <= 0,
{
    let wa = abs(a);
    let wb = abs(b);
    let wq = wa / wb;
    assert(0 <= wa - wb * wq < wb) by (nonlinear_arith)
        requires wq == wa / wb, wa >= 0, wb >= 1;
    if a >= 0 && b > 0 {
        assert(trem(a, b) == wa - wb * wq);
    } else if a >= 0 && b < 0 {
        assert(b * tdiv(a, b) == wb * wq) by (nonlinear_arith)
            requires b == -wb, tdiv(a, b) == -wq;
    } else if a < 0 && b > 0 {
        assert(b * tdiv(a, b) == -(wb * wq)) by (nonlinear_arith)
            requires b == wb, tdiv(a, b) == -wq;
    } else {
        assert(b * tdiv(a, b) == -(wb * wq)) by (nonlinear_arith)
            requires b == -wb, tdiv(a, b) == wq;
    }
}

/// `a % b` on `i32`: the remainder of the division rounding toward zero.
pub fn rem_i32(a: i32, b: i32) -> (r: i32)
    requires
        b != 0,
        !(a == i32::MIN && b == -1),
    ensures
        r == trem(a as int, b as int),
{
    let q = div_i32(a, b);
    proof {
        lemma_trem_bound(a as int, b as int);
    }
    let p: i64 = (b as i64) * (q as i64);
    (a as i64 - p) as i32
}

} // verus!
