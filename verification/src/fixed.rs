//! Fixed-point scalar arithmetic.
//!
//! A scalar quantity (a speed, a cooldown in seconds, one axis of a velocity)
//! is held as an `i64` that stands for the real value times [`SCALE`].
//! Multiplication of two scaled values therefore divides the wide product by
//! `SCALE`, rounding toward zero, which is the rounding the sign-magnitude
//! machine computation performs.

use vstd::prelude::*;

verus! {

use vstd::arithmetic::div_mod::lemma_div_is_ordered;
use vstd::arithmetic::div_mod::lemma_div_nonincreasing;

/// Number of fixed-point units per whole unit: a scalar `s` stands for the
/// real number `s / SCALE`.
pub const SCALE: i64 = 1000;

/// Magnitude bound on every scalar the library computes with; keeps all
/// products of two scalars inside `i64`.
pub const FIX_MAX: i64 = 1_000_000_000;

/// A scalar within the magnitude bound.
pub open spec fn in_range(a: int) -> bool {
    -FIX_MAX <= a <= FIX_MAX
}

/// Absolute value.
pub open spec fn abs(a: int) -> int {
    if a >= 0 {
        a
    } else {
        -a
    }
}

/// Division truncated toward zero (the machine's signed division), expressed
/// through Euclidean division on magnitudes.
pub open spec fn tdiv(a: int, b: int) -> int {
    if a >= 0 {
        a / b
    } else {
        -((-a) / b)
    }
}

/// `a * b / c`, truncated toward zero.
pub open spec fn scale_div(a: int, b: int, c: int) -> int {
    tdiv(a * b, c)
}

/// Product of two scaled values, as a scaled value.
pub open spec fn fmul(a: int, b: int) -> int {
    scale_div(a, b, SCALE as int)
}

/// `|a * b| == |a| * |b|`.
proof fn lemma_abs_mul(a: int, b: int)
    ensures
        abs(a * b) == abs(a) * abs(b),
{
    assert(abs(a * b) == abs(a) * abs(b)) by (nonlinear_arith);
}

/// Computes `a * b / c` truncated toward zero.
pub fn mul_div(a: i64, b: i64, c: i64) -> (r: i64)
    requires
        in_range(a as int),
        in_range(b as int),
        0 < c,
    ensures
        r == scale_div(a as int, b as int, c as int),
        abs(r as int) <= abs(a as int * b as int) / (c as int),
{
    let ua: u64 = if a < 0 {
        (-a) as u64
    } else {
        a as u64
    };
    let ub: u64 = if b < 0 {
        (-b) as u64
    } else {
        b as u64
    };
    let uc: u64 = c as u64;
    proof {
        assert(ua == abs(a as int));
        assert(ub == abs(b as int));
        assert(ua as int * ub as int <= FIX_MAX as int * FIX_MAX as int) by (nonlinear_arith)
            requires
                0 <= ua <= FIX_MAX,
                0 <= ub <= FIX_MAX,
        ;
    }
    let p: u64 = ua * ub;
    proof {
        lemma_abs_mul(a as int, b as int);
        assert(p == abs(a as int * b as int));
        lemma_div_nonincreasing(p as int, uc as int);
    }
    let q: u64 = p / uc;
    proof {
        assert(q == abs(a as int * b as int) / (c as int));
    }
    let neg: bool = (a < 0) != (b < 0);
    proof {
        if neg {
            assert(a as int * b as int <= 0) by (nonlinear_arith)
                requires
                    (a < 0 && b >= 0) || (a >= 0 && b < 0),
            ;
        } else {
            assert(a as int * b as int >= 0) by (nonlinear_arith)
                requires
                    (a < 0 && b < 0) || (a >= 0 && b >= 0),
            ;
        }
        if a as int * b as int == 0 {
            assert(q == 0);
        }
    }
    if neg {
        -(q as i64)
    } else {
        q as i64
    }
}

/// The magnitude of a truncated quotient is the quotient of the magnitude.
pub proof fn lemma_tdiv_abs(p: int, c: int)
    requires
        c > 0,
    ensures
        abs(tdiv(p, c)) == abs(p) / c,
{
    if p >= 0 {
        assert(p / c >= 0) by (nonlinear_arith)
            requires
                p >= 0,
                c > 0,
        ;
    } else {
        assert((-p) / c >= 0) by (nonlinear_arith)
            requires
                -p >= 0,
                c > 0,
        ;
    }
}

/// A scaled product of bounded factors is bounded by the scaled product of
/// the bounds.
pub proof fn lemma_fmul_bound(a: int, b: int, ma: int, mb: int)
    requires
        abs(a) <= ma,
        abs(b) <= mb,
        0 <= ma,
        0 <= mb,
    ensures
        abs(fmul(a, b)) <= ma * mb / (SCALE as int),
{
    assert(abs(a * b) <= ma * mb) by (nonlinear_arith)
        requires
            abs(a) <= ma,
            abs(b) <= mb,
            0 <= ma,
            0 <= mb,
            abs(a) == if a >= 0 {
                a
            } else {
                -a
            },
            abs(b) == if b >= 0 {
                b
            } else {
                -b
            },
            abs(a * b) == if a * b >= 0 {
                a * b
            } else {
                -(a * b)
            },
    ;
    lemma_tdiv_abs(a * b, SCALE as int);
    lemma_div_is_ordered(abs(a * b), ma * mb, SCALE as int);
}

/// Floor of the square root of a nonnegative integer (zero below zero).
pub open spec fn sqrt_floor(n: int) -> int
    decreases n,
{
    if n <= 0 {
        0
    } else {
        let r = sqrt_floor(n - 1);
        if (r + 1) * (r + 1) <= n {
            r + 1
        } else {
            r
        }
    }
}

/// Ceiling of the square root of a nonnegative integer.
pub open spec fn sqrt_ceil(n: int) -> int {
    if sqrt_floor(n) * sqrt_floor(n) == n {
        sqrt_floor(n)
    } else {
        sqrt_floor(n) + 1
    }
}

/// `sqrt_floor(n)` is the unique `r` with `r * r <= n < (r + 1) * (r + 1)`.
pub proof fn lemma_sqrt_floor_bounds(n: int)
    requires
        n >= 0,
    ensures
        0 <= sqrt_floor(n),
        sqrt_floor(n) * sqrt_floor(n) <= n,
        n < (sqrt_floor(n) + 1) * (sqrt_floor(n) + 1),
    decreases n,
{
    if n <= 0 {
    } else {
        lemma_sqrt_floor_bounds(n - 1);
        let r = sqrt_floor(n - 1);
        let s = sqrt_floor(n);
        if (r + 1) * (r + 1) <= n {
            assert(s == r + 1);
            assert(n <= (r + 1) * (r + 1));
            assert(s * s <= n) by (nonlinear_arith)
                requires
                    s == r + 1,
                    (r + 1) * (r + 1) <= n,
            ;
            assert(n < (s + 1) * (s + 1)) by (nonlinear_arith)
                requires
                    s == r + 1,
                    n <= (r + 1) * (r + 1),
                    r >= 0,
            ;
        } else {
            assert(s == r);
            assert(s * s <= n) by (nonlinear_arith)
                requires
                    s == r,
                    r * r <= n - 1,
            ;
            assert(n < (s + 1) * (s + 1)) by (nonlinear_arith)
                requires
                    s == r,
                    n < (r + 1) * (r + 1),
            ;
        }
    }
}

/// Two nonnegative integers whose squares bracket `n` the same way are equal.
pub proof fn lemma_sqrt_unique(n: int, r1: int, r2: int)
    requires
        0 <= r1,
        0 <= r2,
        r1 * r1 <= n < (r1 + 1) * (r1 + 1),
        r2 * r2 <= n < (r2 + 1) * (r2 + 1),
    ensures
        r1 == r2,
{
    assert(r1 == r2) by (nonlinear_arith)
        requires
            0 <= r1,
            0 <= r2,
            r1 * r1 <= n < (r1 + 1) * (r1 + 1),
            r2 * r2 <= n < (r2 + 1) * (r2 + 1),
    ;
}

/// The square root ceiling squares to at least `n`.
pub proof fn lemma_sqrt_ceil_bounds(n: int)
    requires
        n >= 0,
    ensures
        n <= sqrt_ceil(n) * sqrt_ceil(n),
        sqrt_floor(n) <= sqrt_ceil(n) <= sqrt_floor(n) + 1,
        n > 0 ==> sqrt_ceil(n) > 0,
{
    lemma_sqrt_floor_bounds(n);
    let s = sqrt_floor(n);
    let c = sqrt_ceil(n);
    if s * s == n {
    } else {
        assert(c == s + 1);
        assert(n <= c * c);
        if n > 0 && c <= 0 {
            assert(s * s >= 0) by (nonlinear_arith);
        }
    }
    if n > 0 && c == 0 {
        assert(c * c == 0) by (nonlinear_arith)
            requires
                c == 0,
        ;
    }
}

/// Computes the floor of the square root by bisection.
pub fn isqrt(n: u64) -> (r: u64)
    requires
        n <= 0x4000_0000_0000_0000,
    ensures
        r == sqrt_floor(n as int),
{
    let mut lo: u64 = 0;
    let mut hi: u64 = 0x8000_0001;
    proof {
        assert((0x8000_0001u64 as int) * (0x8000_0001u64 as int) > 0x4000_0000_0000_0000)
            by (nonlinear_arith);
    }
    while lo + 1 < hi
        invariant
            lo < hi <= 0x8000_0001,
            (lo as int) * (lo as int) <= n as int,
            (n as int) < (hi as int) * (hi as int),
            n <= 0x4000_0000_0000_0000,
        decreases hi - lo,
    {
        let mid: u64 = lo + (hi - lo) / 2;
        proof {
            assert(lo < mid < hi);
            assert(mid as int * mid as int <= 0x8000_0001 * 0x8000_0001) by (nonlinear_arith)
                requires
                    0 <= mid <= 0x8000_0001,
            ;
        }
        let sq: u64 = mid * mid;
        if sq <= n {
            lo = mid;
        } else {
            hi = mid;
        }
    }
    proof {
        lemma_sqrt_floor_bounds(n as int);
        lemma_sqrt_unique(n as int, lo as int, sqrt_floor(n as int));
    }
    lo
}

/// Computes the ceiling of the square root.
pub fn isqrt_ceil(n: u64) -> (r: u64)
    requires
        n <= 0x4000_0000_0000_0000,
    ensures
        r == sqrt_ceil(n as int),
{
    let r = isqrt(n);
    proof {
        lemma_sqrt_floor_bounds(n as int);
        assert(r <= 0x8000_0000) by (nonlinear_arith)
            requires
                r >= 0,
                (r as int) * (r as int) <= 0x4000_0000_0000_0000,
        ;
        assert((r as int) * (r as int) <= 0x4000_0000_0000_0000);
    }
    if r * r == n {
        r
    } else {
        r + 1
    }
}

/// Multiplies two scaled values, yielding a scaled value.
pub fn fixed_mul(a: i64, b: i64) -> (r: i64)
    requires
        in_range(a as int),
        in_range(b as int),
    ensures
        r == fmul(a as int, b as int),
        abs(r as int) <= abs(a as int * b as int) / (SCALE as int),
{
    mul_div(a, b, SCALE)
}

} // verus!
