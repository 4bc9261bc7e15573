//! Saturating fixed-point scalar arithmetic.
//!
//! A scalar is an `i64` raw value `r` standing for the real number
//! `r / FX_ONE`. Every operation clamps its mathematical result into the
//! `i64` range instead of overflowing, and division by zero saturates by the
//! sign of the dividend, so all operations are total and their results are
//! pinned exactly by the spec functions below.

use vstd::prelude::*;

verus! {

/// Scale denominator: raw value `r` stands for `r / FX_ONE`.
pub const FX_ONE: i64 = 65536;

/// Half, in raw units.
pub const FX_HALF: i64 = 32768;

/// Clamp a mathematical integer into the `i64` range.
pub open spec fn sat64(x: int) -> int {
    if x > i64::MAX as int {
        i64::MAX as int
    } else if x < i64::MIN as int {
        i64::MIN as int
    } else {
        x
    }
}

/// Division truncating toward zero (the convention of hardware division),
/// written out over Euclidean `/` on magnitudes.
pub open spec fn trunc_div(x: int, d: int) -> int
    recommends
        d != 0,
{
    if x == 0 {
        0
    } else if x > 0 && d > 0 {
        x / d
    } else if x < 0 && d < 0 {
        (x * -1) / (d * -1)
    } else if x < 0 {
        ((x * -1) / d) * -1
    } else {
        (x / (d * -1)) * -1
    }
}

pub open spec fn fx_add_spec(a: int, b: int) -> int {
    sat64(a + b)
}

pub open spec fn fx_sub_spec(a: int, b: int) -> int {
    sat64(a - b)
}

pub open spec fn fx_neg_spec(a: int) -> int {
    sat64(-a)
}

pub open spec fn fx_mul_spec(a: int, b: int) -> int {
    sat64(trunc_div(a * b, FX_ONE as int))
}

/// Division by zero saturates by the sign of the dividend, standing in for
/// the infinities that a floating-point division would produce.
pub open spec fn fx_div_spec(a: int, b: int) -> int {
    if b == 0 {
        if a > 0 {
            i64::MAX as int
        } else if a < 0 {
            i64::MIN as int
        } else {
            0
        }
    } else {
        sat64(trunc_div(a * FX_ONE, b))
    }
}

/// Largest `q <= r` with `q * q <= n` (or 0 when there is none).
pub open spec fn isqrt_from(n: int, r: int) -> int
    decreases r,
{
    if r <= 0 {
        0
    } else if r * r <= n {
        r
    } else {
        isqrt_from(n, r - 1)
    }
}

/// Integer square root, `floor(sqrt(n))` for `n >= 0`.
pub open spec fn isqrt(n: int) -> int {
    isqrt_from(n, n)
}

/// Fixed-point square root: `floor(sqrt(a / FX_ONE)) * FX_ONE` up to raw
/// rounding, computed as the integer root of `a * FX_ONE`. Negative inputs
/// yield 0.
pub open spec fn fx_sqrt_spec(a: int) -> int {
    if a <= 0 {
        0
    } else {
        isqrt(a * FX_ONE)
    }
}

pub(crate) proof fn lemma_mul_bound_i64(a: int, b: int)
    by (nonlinear_arith)
    requires
        -0x8000_0000_0000_0000 <= a <= 0x7fff_ffff_ffff_ffff,
        -0x8000_0000_0000_0000 <= b <= 0x7fff_ffff_ffff_ffff,
    ensures
        -0x4000_0000_0000_0000_0000_0000_0000_0000 <= a * b
            <= 0x4000_0000_0000_0000_0000_0000_0000_0000,
{
}

proof fn lemma_div_magnitude(x: int, d: int)
    by (nonlinear_arith)
    requires
        x >= 0,
        d >= 1,
    ensures
        0 <= x / d <= x,
{
}

/// `trunc_div` never increases magnitude for divisors of magnitude >= 1.
pub(crate) proof fn lemma_trunc_div_magnitude(x: int, d: int)
    requires
        d != 0,
        -0x4000_0000_0000_0000_0000_0000_0000_0000 <= x
            <= 0x4000_0000_0000_0000_0000_0000_0000_0000,
    ensures
        -0x4000_0000_0000_0000_0000_0000_0000_0000 <= trunc_div(x, d)
            <= 0x4000_0000_0000_0000_0000_0000_0000_0000,
{
    if x == 0 {
    } else if x > 0 && d > 0 {
        lemma_div_magnitude(x, d);
    } else if x < 0 && d < 0 {
        lemma_div_magnitude(x * -1, d * -1);
    } else if x < 0 {
        lemma_div_magnitude(x * -1, d);
    } else {
        lemma_div_magnitude(x, d * -1);
    }
}

/// Saturating addition.
pub fn fx_add(a: i64, b: i64) -> (r: i64)
    ensures
        r == fx_add_spec(a as int, b as int),
{
    match a.checked_add(b) {
        Some(r) => r,
        None => {
            if b > 0 {
                i64::MAX
            } else {
                i64::MIN
            }
        },
    }
}

/// Saturating subtraction.
pub fn fx_sub(a: i64, b: i64) -> (r: i64)
    ensures
        r == fx_sub_spec(a as int, b as int),
{
    match a.checked_sub(b) {
        Some(r) => r,
        None => {
            if b < 0 {
                i64::MAX
            } else {
                i64::MIN
            }
        },
    }
}

/// Saturating negation.
pub fn fx_neg(a: i64) -> (r: i64)
    ensures
        r == fx_neg_spec(a as int),
{
    if a == i64::MIN {
        i64::MAX
    } else {
        -a
    }
}

/// Saturating fixed-point multiplication: `(a * b) / FX_ONE`, truncated
/// toward zero.
pub fn fx_mul(a: i64, b: i64) -> (r: i64)
    ensures
        r == fx_mul_spec(a as int, b as int),
{
    proof {
        lemma_mul_bound_i64(a as int, b as int);
    }
    let p: i128 = (a as i128) * (b as i128);
    let q: i128 = match p.checked_div(FX_ONE as i128) {
        Some(q) => q,
        None => {
            proof {
                lemma_trunc_div_magnitude(p as int, FX_ONE as int);
            }
            assert(false);
            0
        },
    };
    proof {
        lemma_trunc_div_magnitude(p as int, FX_ONE as int);
    }
    if q > i64::MAX as i128 {
        i64::MAX
    } else if q < i64::MIN as i128 {
        i64::MIN
    } else {
        q as i64
    }
}

/// Saturating fixed-point division: `(a * FX_ONE) / b`, truncated toward
/// zero; division by zero saturates by the sign of `a`.
pub fn fx_div(a: i64, b: i64) -> (r: i64)
    ensures
        r == fx_div_spec(a as int, b as int),
{
    if b == 0 {
        if a > 0 {
            i64::MAX
        } else if a < 0 {
            i64::MIN
        } else {
            0
        }
    } else {
        let p: i128 = (a as i128) * 65536i128;
        let q: i128 = match p.checked_div(b as i128) {
            Some(q) => q,
            None => {
                proof {
                    lemma_trunc_div_magnitude(p as int, b as int);
                }
                assert(false);
                0
            },
        };
        proof {
            lemma_trunc_div_magnitude(p as int, b as int);
        }
        if q > i64::MAX as i128 {
            i64::MAX
        } else if q < i64::MIN as i128 {
            i64::MIN
        } else {
            q as i64
        }
    }
}

proof fn lemma_isqrt_from(n: int, r: int)
    requires
        0 <= n,
        0 <= r,
    ensures
        0 <= isqrt_from(n, r),
        isqrt_from(n, r) <= r,
        isqrt_from(n, r) * isqrt_from(n, r) <= n,
        isqrt_from(n, r) < r ==> n < (isqrt_from(n, r) + 1) * (isqrt_from(n, r) + 1),
    decreases r,
{
    if r <= 0 {
    } else if r * r <= n {
    } else {
        lemma_isqrt_from(n, r - 1);
        let q = isqrt_from(n, r - 1);
        if q == r - 1 {
            assert(n < (q + 1) * (q + 1));
        }
    }
}

/// `isqrt(n)` is the floor of the square root of `n`.
pub proof fn lemma_isqrt(n: int)
    requires
        0 <= n,
    ensures
        0 <= isqrt(n),
        isqrt(n) * isqrt(n) <= n,
        n < (isqrt(n) + 1) * (isqrt(n) + 1),
{
    lemma_isqrt_from(n, n);
    let q = isqrt(n);
    if q == n {
        assert(n * n <= n);
        assert(n <= 1) by (nonlinear_arith)
            requires
                0 <= n,
                n * n <= n,
        ;
        assert(n < (q + 1) * (q + 1)) by (nonlinear_arith)
            requires
                0 <= n <= 1,
                q == n,
        ;
    }
}

/// The floor square root is unique: any `q` within the bracketing bounds is
/// `isqrt(n)`.
proof fn lemma_isqrt_unique(n: int, q: int)
    requires
        0 <= n,
        0 <= q,
        q * q <= n,
        n < (q + 1) * (q + 1),
    ensures
        q == isqrt(n),
{
    lemma_isqrt(n);
    let s = isqrt(n);
    assert(q == s) by (nonlinear_arith)
        requires
            0 <= q,
            0 <= s,
            q * q <= n,
            n < (q + 1) * (q + 1),
            s * s <= n,
            n < (s + 1) * (s + 1),
    ;
}

/// Binary-search integer square root for inputs below 2^80.
fn isqrt_u128(n: u128) -> (r: u128)
    requires
        (n as int) < 0x1_0000_0000_0000_0000_0000,
    ensures
        r == isqrt(n as int),
{
    let mut lo: u128 = 0;
    let mut hi: u128 = 0x100_0000_0000;
    proof {
        assert((0x100_0000_0000 as int) * (0x100_0000_0000 as int) == 0x1_0000_0000_0000_0000_0000);
    }
    while lo + 1 < hi
        invariant
            lo < hi <= 0x100_0000_0000,
            (lo as int) * (lo as int) <= n as int,
            (n as int) < (hi as int) * (hi as int),
        decreases hi - lo,
    {
        let mid: u128 = lo + (hi - lo) / 2;
        proof {
            assert((mid as int) * (mid as int) < 0x1_0000_0000_0000_0000_0000_0000) by (nonlinear_arith)
                requires
                    0 <= mid as int <= 0x100_0000_0000,
            ;
        }
        if mid * mid <= n {
            lo = mid;
        } else {
            hi = mid;
        }
    }
    proof {
        assert(hi == lo + 1);
        lemma_isqrt_unique(n as int, lo as int);
    }
    lo
}

/// Saturating fixed-point square root; negative inputs yield 0.
pub fn fx_sqrt(a: i64) -> (r: i64)
    ensures
        r == fx_sqrt_spec(a as int),
{
    if a <= 0 {
        0
    } else {
        let n: u128 = (a as u128) * 65536u128;
        let r: u128 = isqrt_u128(n);
        proof {
            lemma_isqrt(n as int);
            assert((r as int) < 0x100_0000_0000) by (nonlinear_arith)
                requires
                    0 <= r as int,
                    (r as int) * (r as int) <= n as int,
                    (n as int) < 0x1_0000_0000_0000_0000_0000,
            ;
        }
        r as i64
    }
}

/// Pi in raw fixed-point units.
pub const FX_PI: i64 = 205887;

/// Coefficients of the arc-cosine polynomial approximation
/// `acos(u) ~= sqrt(1 - u) * (c0 - u*(c1 - u*(c2 - u*c3)))` for `u` in
/// `[0, 1]` (maximum error below 0.0001 radians), in raw fixed-point units.
pub const ACOS_C0: i64 = 102939;

pub const ACOS_C1: i64 = 13902;

pub const ACOS_C2: i64 = 4867;

pub const ACOS_C3: i64 = 1228;

/// The polynomial factor of the arc-cosine approximation, for `u` in
/// `[0, FX_ONE]`.
pub open spec fn acos_poly_spec(u: int) -> int {
    fx_sub_spec(
        ACOS_C0 as int,
        fx_mul_spec(
            u,
            fx_sub_spec(
                ACOS_C1 as int,
                fx_mul_spec(u, fx_sub_spec(ACOS_C2 as int, fx_mul_spec(u, ACOS_C3 as int))),
            ),
        ),
    )
}

pub open spec fn acos_core_spec(u: int) -> int {
    fx_mul_spec(fx_sqrt_spec(fx_sub_spec(FX_ONE as int, u)), acos_poly_spec(u))
}

/// Arc cosine of a fixed-point value, clamped into `[-1, 1]` first;
/// an even polynomial-and-square-root approximation mirrored about zero.
pub open spec fn fx_acos_spec(t: int) -> int {
    let u = if t < -(FX_ONE as int) {
        -(FX_ONE as int)
    } else if t > FX_ONE as int {
        FX_ONE as int
    } else {
        t
    };
    if u < 0 {
        fx_sub_spec(FX_PI as int, acos_core_spec(-u))
    } else {
        acos_core_spec(u)
    }
}

/// Arc cosine approximation used for angle weighting.
pub fn fx_acos(t: i64) -> (r: i64)
    ensures
        r == fx_acos_spec(t as int),
{
    let u: i64 = fx_clamp(t, -FX_ONE, FX_ONE);
    let (m, flip) = if u < 0 {
        (-u, true)
    } else {
        (u, false)
    };
    let poly: i64 = fx_sub(
        ACOS_C0,
        fx_mul(m, fx_sub(ACOS_C1, fx_mul(m, fx_sub(ACOS_C2, fx_mul(m, ACOS_C3))))),
    );
    let core: i64 = fx_mul(fx_sqrt(fx_sub(FX_ONE, m)), poly);
    if flip {
        fx_sub(FX_PI, core)
    } else {
        core
    }
}

/// Clamp `a` into `[lo, hi]`.
pub fn fx_clamp(a: i64, lo: i64, hi: i64) -> (r: i64)
    requires
        lo <= hi,
    ensures
        r == (if a < lo {
            lo
        } else if a > hi {
            hi
        } else {
            a
        }),
{
    if a < lo {
        lo
    } else if a > hi {
        hi
    } else {
        a
    }
}

} // verus!
