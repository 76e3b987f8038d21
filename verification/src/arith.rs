use vstd::prelude::*;

verus! {

/// Integer division rounding toward zero, as Rust's `/` on signed integers does.
pub open spec fn tdiv(a: int, b: int) -> int {
    if a >= 0 && b > 0 {
        a / b
    } else if a < 0 && b > 0 {
        -((-a) / b)
    } else if a >= 0 && b < 0 {
        -(a / (-b))
    } else {
        (-a) / (-b)
    }
}

/// Whether `x` fits in an `i64`.
pub open spec fn fits(x: int) -> bool {
    i64::MIN <= x <= i64::MAX
}

/// `a / b` for a positive divisor.
pub fn div_pos(a: i64, b: i64) -> (r: i64)
    requires
        b > 0,
    ensures
        r == tdiv(a as int, b as int),
        a >= 0 ==> 0 <= r <= a,
        a < 0 ==> a <= r <= 0,
        b > 1 ==> r != i64::MIN,
{
    let r = a / b;
    if a >= 0 {
        assert(0 <= (a as int) / (b as int) <= a) by (nonlinear_arith)
            requires
                a >= 0,
                b > 0,
        ;
    } else {
        assert(0 <= (-(a as int)) / (b as int) <= -(a as int)) by (nonlinear_arith)
            requires
                a < 0,
                b > 0,
        ;
        if b > 1 {
            assert((-(a as int)) / (b as int) < -(a as int)) by (nonlinear_arith)
                requires
                    a < 0,
                    b > 1,
            ;
        }
    }
    r
}

/// `a / b` for any divisor Rust accepts without panicking.
pub fn div_t(a: i64, b: i64) -> (r: i64)
    requires
        b != 0,
        !(a == i64::MIN && b == -1),
    ensures
        r == tdiv(a as int, b as int),
{
    if b > 0 {
        div_pos(a, b)
    } else if b == i64::MIN {
        if a == i64::MIN {
            1
        } else {
            0
        }
    } else {
        let q = div_pos(a, -b);
        -q
    }
}

} // verus!
