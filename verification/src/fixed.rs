//! Fixed-point arithmetic for the scheduler's continuous quantities.
//!
//! A raw value `x: i64` stands for the real number `x / FX_SCALE`. The scale
//! of 10^7 is fine enough to represent every constant of the update rules
//! (the acceleration coefficient 1.49455, the mapping threshold 0.9) exactly.

use vstd::prelude::*;
use vstd::arithmetic::div_mod::lemma_div_is_ordered;
use vstd::arithmetic::div_mod::lemma_div_multiples_vanish;
use vstd::arithmetic::mul::lemma_mul_upper_bound;

verus! {

/// Scale of the fixed-point representation: raw value `x` stands for `x / FX_SCALE`.
pub const FX_SCALE: i64 = 10_000_000;

/// Largest raw magnitude the fixed-point helpers accept without overflow.
pub const FX_CAP: i64 = 1_000_000_000_000;

/// Division that rounds towards zero, as the executable magnitude-based
/// division below computes it.
pub open spec fn trunc_div(a: int, b: int) -> int {
    if a >= 0 {
        a / b
    } else {
        -((-a) / b)
    }
}

/// Product of two fixed-point values, truncated back to the scale.
pub open spec fn fx_mul_spec(x: int, y: int) -> int {
    trunc_div(x * y, FX_SCALE as int)
}

/// `n1/d1 <= n2/d2`, stated by cross-multiplication (denominators positive).
pub open spec fn rat_le(n1: int, d1: int, n2: int, d2: int) -> bool {
    n1 * d2 <= n2 * d1
}

/// `n1/d1 < n2/d2`, stated by cross-multiplication (denominators positive).
pub open spec fn rat_lt(n1: int, d1: int, n2: int, d2: int) -> bool {
    n1 * d2 < n2 * d1
}

/// `n1/d1 == n2/d2`, stated by cross-multiplication (denominators positive).
pub open spec fn rat_eq(n1: int, d1: int, n2: int, d2: int) -> bool {
    n1 * d2 == n2 * d1
}

pub proof fn lemma_rat_le_trans(n1: int, d1: int, n2: int, d2: int, n3: int, d3: int)
    by (nonlinear_arith)
    requires
        d1 > 0,
        d2 > 0,
        d3 > 0,
        rat_le(n1, d1, n2, d2),
        rat_le(n2, d2, n3, d3),
    ensures
        rat_le(n1, d1, n3, d3),
{
}

pub proof fn lemma_rat_lt_le_trans(n1: int, d1: int, n2: int, d2: int, n3: int, d3: int)
    by (nonlinear_arith)
    requires
        d1 > 0,
        d2 > 0,
        d3 > 0,
        rat_lt(n1, d1, n2, d2),
        rat_le(n2, d2, n3, d3),
    ensures
        rat_lt(n1, d1, n3, d3),
{
}

pub proof fn lemma_rat_le_lt_trans(n1: int, d1: int, n2: int, d2: int, n3: int, d3: int)
    by (nonlinear_arith)
    requires
        d1 > 0,
        d2 > 0,
        d3 > 0,
        rat_le(n1, d1, n2, d2),
        rat_lt(n2, d2, n3, d3),
    ensures
        rat_lt(n1, d1, n3, d3),
{
}

/// A truncating division is bounded by the division of any magnitude bound.
pub proof fn lemma_trunc_div_bound(a: int, b: int, cap: int)
    requires
        b > 0,
        0 <= cap,
        -cap <= a <= cap,
    ensures
        -(cap / b) <= trunc_div(a, b) <= cap / b,
{
    if a >= 0 {
        lemma_div_is_ordered(a, cap, b);
        lemma_div_is_ordered(0, a, b);
    } else {
        lemma_div_is_ordered(-a, cap, b);
        lemma_div_is_ordered(0, -a, b);
    }
}

/// Bound for a fixed-point product of values below `kx` and `ky` whole units.
pub proof fn lemma_fx_mul_spec_bound(x: int, y: int, kx: int, ky: int)
    requires
        0 <= kx,
        0 <= ky,
        -(kx * FX_SCALE) <= x <= kx * FX_SCALE,
        -(ky * FX_SCALE) <= y <= ky * FX_SCALE,
    ensures
        -(kx * ky * FX_SCALE) <= fx_mul_spec(x, y) <= kx * ky * FX_SCALE,
{
    let s = FX_SCALE as int;
    let cap = kx * ky * s * s;
    assert(-cap <= x * y <= cap) by (nonlinear_arith)
        requires
            0 <= kx,
            0 <= ky,
            s > 0,
            -(kx * s) <= x <= kx * s,
            -(ky * s) <= y <= ky * s,
            cap == kx * ky * s * s,
    ;
    assert(0 <= cap) by (nonlinear_arith)
        requires
            0 <= kx,
            0 <= ky,
            s > 0,
            cap == kx * ky * s * s,
    ;
    lemma_trunc_div_bound(x * y, s, cap);
    assert(cap == s * (kx * ky * s)) by (nonlinear_arith)
        requires
            cap == kx * ky * s * s,
    ;
    lemma_div_multiples_vanish(kx * ky * s, s);
}

/// Product of two fixed-point values, rounding towards zero.
pub fn fx_mul(x: i64, y: i64) -> (r: i64)
    requires
        -FX_CAP <= x <= FX_CAP,
        -FX_CAP <= y <= FX_CAP,
    ensures
        r == fx_mul_spec(x as int, y as int),
{
    let neg: bool = (x < 0) != (y < 0);
    let xm: u64 = if x < 0 {
        (-x) as u64
    } else {
        x as u64
    };
    let ym: u64 = if y < 0 {
        (-y) as u64
    } else {
        y as u64
    };
    proof {
        assert(xm as int * ym as int <= FX_CAP * FX_CAP) by (nonlinear_arith)
            requires
                0 <= xm as int <= FX_CAP,
                0 <= ym as int <= FX_CAP,
        ;
    }
    let p: u128 = (xm as u128) * (ym as u128);
    let q: u128 = p / (FX_SCALE as u128);
    proof {
        let xi = x as int;
        let yi = y as int;
        let xa = xm as int;
        let ya = ym as int;
        let s = FX_SCALE as int;
        lemma_div_is_ordered(xa * ya, FX_CAP * FX_CAP, s);
        if neg {
            assert(xi * yi == -(xa * ya)) by (nonlinear_arith)
                requires
                    (xi < 0 <==> !(yi < 0)),
                    xa == if xi < 0 { -xi } else { xi },
                    ya == if yi < 0 { -yi } else { yi },
            ;
        } else {
            assert(xi * yi == xa * ya) by (nonlinear_arith)
                requires
                    (xi < 0 <==> yi < 0),
                    xa == if xi < 0 { -xi } else { xi },
                    ya == if yi < 0 { -yi } else { yi },
            ;
        }
    }
    if neg {
        -(q as i64)
    } else {
        q as i64
    }
}

/// Quotient of two non-negative fixed-point values, rounding down.
pub fn fx_div(x: i64, y: i64) -> (r: i64)
    requires
        0 <= x,
        0 < y,
        x * FX_SCALE <= FX_CAP * y,
    ensures
        r == (x * FX_SCALE) / (y as int),
        0 <= r <= FX_CAP,
{
    proof {
        lemma_mul_upper_bound(x as int, i64::MAX as int, FX_SCALE as int, FX_SCALE as int);
    }
    let p: u128 = (x as u128) * (FX_SCALE as u128);
    let q: u128 = p / (y as u128);
    proof {
        lemma_div_is_ordered(x as int * FX_SCALE, FX_CAP * y, y as int);
        lemma_div_multiples_vanish(FX_CAP as int, y as int);
    }
    q as i64
}

/// The exact ratio `num / den`, scaled into fixed point and rounded down.
pub fn ratio_to_fx(num: u64, den: u64) -> (r: i64)
    requires
        0 < den,
        num * FX_SCALE <= i64::MAX * den,
    ensures
        r == (num * FX_SCALE) / (den as int),
        0 <= r,
{
    proof {
        lemma_mul_upper_bound(num as int, u64::MAX as int, FX_SCALE as int, FX_SCALE as int);
    }
    let p: u128 = (num as u128) * (FX_SCALE as u128);
    let q: u128 = p / (den as u128);
    proof {
        lemma_div_is_ordered(num as int * FX_SCALE, i64::MAX * den, den as int);
        lemma_div_multiples_vanish(i64::MAX as int, den as int);
    }
    q as i64
}

/// Strict rational comparison `n1/d1 < n2/d2` by cross-multiplication.
pub fn rat_lt_exec(n1: u64, d1: u64, n2: u64, d2: u64) -> (r: bool)
    requires
        0 < d1,
        0 < d2,
    ensures
        r == rat_lt(n1 as int, d1 as int, n2 as int, d2 as int),
{
    proof {
        lemma_mul_upper_bound(n1 as int, u64::MAX as int, d2 as int, u64::MAX as int);
        lemma_mul_upper_bound(n2 as int, u64::MAX as int, d1 as int, u64::MAX as int);
    }
    (n1 as u128) * (d2 as u128) < (n2 as u128) * (d1 as u128)
}

/// Rational equality `n1/d1 == n2/d2` by cross-multiplication.
pub fn rat_eq_exec(n1: u64, d1: u64, n2: u64, d2: u64) -> (r: bool)
    requires
        0 < d1,
        0 < d2,
    ensures
        r == rat_eq(n1 as int, d1 as int, n2 as int, d2 as int),
{
    proof {
        lemma_mul_upper_bound(n1 as int, u64::MAX as int, d2 as int, u64::MAX as int);
        lemma_mul_upper_bound(n2 as int, u64::MAX as int, d1 as int, u64::MAX as int);
    }
    (n1 as u128) * (d2 as u128) == (n2 as u128) * (d1 as u128)
}

} // verus!
