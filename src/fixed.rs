//! Fixed-point scalars: an `i64` holds a real number times `SCALE`.
//! Every operation rounds toward negative infinity and saturates at the bounds of `i64`.
use vstd::prelude::*;

verus! {

/// One unit in fixed-point representation (six decimal places).
pub const SCALE: i64 = 1_000_000;

/// Clamps an exact result into the range of `i64`.
pub open spec fn sat(x: int) -> int {
    if x > i64::MAX as int {
        i64::MAX as int
    } else if x < i64::MIN as int {
        i64::MIN as int
    } else {
        x
    }
}

pub open spec fn add_spec(a: int, b: int) -> int {
    sat(a + b)
}

pub open spec fn sub_spec(a: int, b: int) -> int {
    sat(a - b)
}

pub open spec fn mul_spec(a: int, b: int) -> int {
    sat((a * b) / (SCALE as int))
}

/// Quotient `a / b` in fixed point, rounded toward negative infinity.
pub open spec fn div_spec(a: int, b: int) -> int
    recommends
        b != 0,
{
    if b > 0 {
        sat((a * SCALE as int) / b)
    } else {
        sat((-(a * SCALE as int)) / (-b))
    }
}

/// Fixed-point square root: `sqrt(a / SCALE) * SCALE`, rounded down.
pub open spec fn sqrt_spec(a: int) -> int {
    choose|r: int| #[trigger] is_isqrt(a * SCALE as int, r)
}

/// An integer has at most one integer square root.
pub proof fn lemma_isqrt_unique(n: int, r1: int, r2: int)
    requires
        is_isqrt(n, r1),
        is_isqrt(n, r2),
    ensures
        r1 == r2,
{
    if r1 < r2 {
        assert((r1 + 1) * (r1 + 1) <= r2 * r2) by (nonlinear_arith)
            requires 0 <= r1, r1 + 1 <= r2;
    } else if r2 < r1 {
        assert((r2 + 1) * (r2 + 1) <= r1 * r1) by (nonlinear_arith)
            requires 0 <= r2, r2 + 1 <= r1;
    }
}

/// The integer square root of `n`: the largest `r` with `r * r <= n`.
pub open spec fn is_isqrt(n: int, r: int) -> bool {
    0 <= r && r * r <= n && n < (r + 1) * (r + 1)
}

fn clamp_wide(x: i128) -> (r: i64)
    ensures
        r == sat(x as int),
{
    if x > i64::MAX as i128 {
        i64::MAX
    } else if x < i64::MIN as i128 {
        i64::MIN
    } else {
        x as i64
    }
}

/// Fixed-point value of the whole number `n`.
pub fn from_int(n: i64) -> (r: i64)
    ensures
        r == sat(n * SCALE as int),
{
    proof {
        lemma_wide_product(n as int, SCALE as int);
    }
    clamp_wide(n as i128 * SCALE as i128)
}

pub fn add(a: i64, b: i64) -> (r: i64)
    ensures
        r == add_spec(a as int, b as int),
{
    clamp_wide(a as i128 + b as i128)
}

pub fn sub(a: i64, b: i64) -> (r: i64)
    ensures
        r == sub_spec(a as int, b as int),
{
    clamp_wide(a as i128 - b as i128)
}

pub fn neg(a: i64) -> (r: i64)
    ensures
        r == sat(-a),
{
    clamp_wide(-(a as i128))
}

pub fn mul(a: i64, b: i64) -> (r: i64)
    ensures
        r == mul_spec(a as int, b as int),
{
    proof {
        lemma_wide_product(a as int, b as int);
    }
    let p: i128 = a as i128 * b as i128;
    clamp_wide(floor_div(p, SCALE as i128))
}

pub fn div(a: i64, b: i64) -> (r: i64)
    requires
        b != 0,
    ensures
        r == div_spec(a as int, b as int),
{
    proof {
        lemma_wide_product(a as int, SCALE as int);
    }
    let n: i128 = a as i128 * SCALE as i128;
    if b > 0 {
        clamp_wide(floor_div(n, b as i128))
    } else {
        clamp_wide(floor_div(-n, -(b as i128)))
    }
}

pub fn sqrt(a: i64) -> (r: i64)
    requires
        a >= 0,
    ensures
        r == sqrt_spec(a as int),
        r >= 0,
{
    proof {
        lemma_wide_product(a as int, SCALE as int);
    }
    let n: i128 = a as i128 * SCALE as i128;
    let mut lo: i128 = 0;
    let mut hi: i128 = 0x400_0000_0000;
    assert(n < hi * hi) by (nonlinear_arith)
        requires n == a as int * SCALE as int, a <= 0x7fff_ffff_ffff_ffff, hi == 0x400_0000_0000int, SCALE == 1_000_000int;
    while hi - lo > 1
        invariant
            0 <= lo < hi <= 0x400_0000_0000,
            lo * lo <= n < hi * hi,
        decreases hi - lo,
    {
        let mid: i128 = lo + (hi - lo) / 2;
        assert(mid * mid <= 0x10_0000_0000_0000_0000_0000) by (nonlinear_arith)
            requires 0 <= mid <= 0x400_0000_0000int;
        if mid * mid <= n {
            lo = mid;
        } else {
            hi = mid;
        }
    }
    assert(hi == lo + 1);
    proof {
        assert(is_isqrt(n as int, lo as int));
        let c = choose|r: int| #[trigger] is_isqrt(a * SCALE as int, r);
        lemma_isqrt_unique(n as int, lo as int, c);
    }
    lo as i64
}

/// The whole part of `a`, rounded toward negative infinity.
pub fn floor(a: i64) -> (r: i64)
    ensures
        r as int == a as int / SCALE as int,
{
    let q = floor_div(a as i128, SCALE as i128);
    if a >= 0 {
        assert(0 <= a as int / 1_000_000 <= a) by (nonlinear_arith)
            requires a >= 0;
    } else {
        assert(a <= a as int / 1_000_000 < 0) by (nonlinear_arith)
            requires a < 0;
    }
    q as i64
}

/// Whether the whole part of `a` is even.
pub fn floor_is_even(a: i64) -> (r: bool)
    ensures
        r == ((a as int / SCALE as int) % 2 == 0),
{
    let q = floor(a);
    if q >= 0 {
        q % 2 == 0
    } else {
        let m: i128 = -(q as i128);
        proof {
            lemma_even_neg(m as int);
        }
        m % 2 == 0
    }
}

proof fn lemma_even_neg(m: int)
    ensures
        (m % 2 == 0) == ((-m) % 2 == 0),
{
    assert((m % 2 == 0) == ((-m) % 2 == 0)) by (nonlinear_arith);
}

/// Division rounded toward negative infinity, for a positive divisor.
fn floor_div(p: i128, d: i128) -> (q: i128)
    requires
        d > 0,
        d <= 0x1_0000_0000_0000_0000,
        -0x4000_0000_0000_0000_0000_0000_0000_0000 <= p <= 0x4000_0000_0000_0000_0000_0000_0000_0000,
    ensures
        q as int == p as int / d as int,
{
    if p >= 0 {
        p / d
    } else {
        let m: i128 = -p;
        let q: i128 = (m + d - 1) / d;
        proof {
            lemma_floor_neg(m as int, d as int);
        }
        -q
    }
}

/// The product of two `i64` values fits comfortably in an `i128`.
proof fn lemma_wide_product(a: int, b: int)
    requires
        -0x8000_0000_0000_0000 <= a <= 0x7fff_ffff_ffff_ffff,
        -0x8000_0000_0000_0000 <= b <= 0x7fff_ffff_ffff_ffff,
    ensures
        -0x4000_0000_0000_0000_0000_0000_0000_0000 <= a * b <= 0x4000_0000_0000_0000_0000_0000_0000_0000,
{
    let m: int = 0x8000_0000_0000_0000;
    assert(-(m * m) <= a * b <= m * m) by (nonlinear_arith)
        requires -m <= a <= m, -m <= b <= m;
    assert(m * m == 0x4000_0000_0000_0000_0000_0000_0000_0000) by (nonlinear_arith)
        requires m == 0x8000_0000_0000_0000int;
}

proof fn lemma_floor_neg(m: int, d: int)
    requires
        m > 0,
        d > 0,
    ensures
        (-m) / d == -((m + d - 1) / d),
{
    assert((-m) / d == -((m + d - 1) / d)) by (nonlinear_arith)
        requires m > 0, d > 0;
}

} // verus!
