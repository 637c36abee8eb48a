//! Fixed-point decimal arithmetic: every price, quantity, amount of money and
//! ratio is an `i128` counting units of 10^-8.

use vstd::prelude::*;

verus! {

/// One whole unit in fixed-point representation.
pub const SCALE: i128 = 100_000_000;

/// The largest magnitude a stored fixed-point value may take (10^10 whole units).
pub const MAX_FX: i128 = 1_000_000_000_000_000_000;

/// `x` lies within the range the library stores.
pub open spec fn bounded(x: int) -> bool {
    -MAX_FX <= x <= MAX_FX
}

/// Division of `a` by a positive `b`, truncating toward zero.
pub open spec fn tdiv(a: int, b: int) -> int
    recommends
        b > 0,
{
    if a >= 0 {
        a / b
    } else {
        -((-a) / b)
    }
}

/// Fixed-point product, truncated toward zero.
pub open spec fn fmul(a: int, b: int) -> int {
    tdiv(a * b, SCALE as int)
}

/// Fixed-point quotient, truncated toward zero; zero when `b` is zero.
pub open spec fn fdiv(a: int, b: int) -> int {
    if b == 0 {
        0
    } else if b > 0 {
        tdiv(a * SCALE, b)
    } else {
        tdiv(-a * SCALE, -b)
    }
}

/// A fixed-point result kept only when it stays within the stored range.
pub open spec fn checked(x: int) -> Option<i128> {
    if bounded(x) {
        Some(x as i128)
    } else {
        None
    }
}

proof fn lemma_tdiv_bounds(a: int, b: int)
    requires
        b > 0,
    ensures
        a >= 0 ==> 0 <= tdiv(a, b) <= a,
        a < 0 ==> a <= tdiv(a, b) <= 0,
{
    if a >= 0 {
        assert(a / b <= a) by (nonlinear_arith)
            requires a >= 0, b > 0;
        assert(a / b >= 0) by (nonlinear_arith)
            requires a >= 0, b > 0;
    } else {
        assert((-a) / b <= -a) by (nonlinear_arith)
            requires -a >= 0, b > 0;
        assert((-a) / b >= 0) by (nonlinear_arith)
            requires -a >= 0, b > 0;
    }
}

/// The fixed-point product of two non-negative values is non-negative.
pub proof fn lemma_fmul_nonneg(a: int, b: int)
    requires
        a >= 0,
        b >= 0,
    ensures
        fmul(a, b) >= 0,
{
    assert(a * b >= 0) by (nonlinear_arith)
        requires a >= 0, b >= 0;
    lemma_tdiv_bounds(a * b, SCALE as int);
}

/// Scaling a non-negative value by a fraction in [0, 1] keeps it in [0, value].
pub proof fn lemma_fmul_fraction(n: int, t: int)
    requires
        n >= 0,
        0 <= t <= SCALE,
    ensures
        0 <= fmul(n, t) <= n,
{
    assert(0 <= n * t <= n * SCALE) by (nonlinear_arith)
        requires n >= 0, 0 <= t <= SCALE;
    assert((n * t) / (SCALE as int) <= n) by (nonlinear_arith)
        requires 0 <= n * t <= n * SCALE, n >= 0;
    lemma_tdiv_bounds(n * t, SCALE as int);
}

/// Truncating division of a machine integer by a positive one.
pub fn tdiv_exec(a: i128, b: i128) -> (r: i128)
    requires
        b > 0,
        a > i128::MIN,
    ensures
        r == tdiv(a as int, b as int),
{
    proof {
        lemma_tdiv_bounds(a as int, b as int);
    }
    if a >= 0 {
        a / b
    } else {
        let m: i128 = -a;
        -(m / b)
    }
}

/// Fixed-point product of two stored values; `None` when it leaves the stored range.
pub fn fx_mul(a: i128, b: i128) -> (r: Option<i128>)
    requires
        bounded(a as int),
        bounded(b as int),
    ensures
        r == checked(fmul(a as int, b as int)),
{
    assert(-1_000_000_000_000_000_000_000_000_000_000_000_000 <= (a as int) * (b as int)
        <= 1_000_000_000_000_000_000_000_000_000_000_000_000) by (nonlinear_arith)
        requires
            -MAX_FX <= a <= MAX_FX,
            -MAX_FX <= b <= MAX_FX,
    ;
    let p: i128 = a * b;
    let q = tdiv_exec(p, SCALE);
    if -MAX_FX <= q && q <= MAX_FX {
        Some(q)
    } else {
        None
    }
}

/// Fixed-point quotient of two stored values (zero for a zero divisor);
/// `None` when it leaves the stored range.
pub fn fx_div(a: i128, b: i128) -> (r: Option<i128>)
    requires
        bounded(a as int),
        bounded(b as int),
    ensures
        r == checked(fdiv(a as int, b as int)),
{
    if b == 0 {
        return Some(0);
    }
    let n: i128 = a * SCALE;
    let q: i128 = if b > 0 {
        tdiv_exec(n, b)
    } else {
        tdiv_exec(-n, -b)
    };
    if -MAX_FX <= q && q <= MAX_FX {
        Some(q)
    } else {
        None
    }
}

/// Sum of two stored values; `None` when it leaves the stored range.
pub fn fx_add(a: i128, b: i128) -> (r: Option<i128>)
    requires
        bounded(a as int),
        bounded(b as int),
    ensures
        r == checked(a + b),
{
    let s: i128 = a + b;
    if -MAX_FX <= s && s <= MAX_FX {
        Some(s)
    } else {
        None
    }
}

/// Difference of two stored values; `None` when it leaves the stored range.
pub fn fx_sub(a: i128, b: i128) -> (r: Option<i128>)
    requires
        bounded(a as int),
        bounded(b as int),
    ensures
        r == checked(a - b),
{
    let s: i128 = a - b;
    if -MAX_FX <= s && s <= MAX_FX {
        Some(s)
    } else {
        None
    }
}

} // verus!
