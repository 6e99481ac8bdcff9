//! Fixed-point trigonometry used by the great-circle distance primitive.
//!
//! Angles are carried in nanoradians (`1e-9` rad) and the values of `sin`,
//! `cos` and the argument of `asin` are carried at a scale of `1e9`, so that
//! the whole haversine computation stays in integer arithmetic.  Each
//! executable function is pinned to a spec-level mirror of the same truncated
//! series, which is what the distance contracts are stated over.

use vstd::prelude::*;

verus! {

/// Fixed-point unit: one whole (radian, or sine value) is `1e9`.
pub const SCALE: u64 = 1_000_000_000;

/// pi/2 in nanoradians, rounded to the nearest unit.
pub const HALF_PI_NANO: u64 = 1_570_796_327;

/// pi in nanoradians, rounded to the nearest unit.
pub const PI_NANO: u64 = 3_141_592_654;

/// Nanoradians per microdegree, scaled by `1e9`: `pi / 180 * 1000 * 1e9`.
pub const NANORAD_PER_MICRODEG: u64 = 17_453_292_520;

/// Largest angle handed to `to_nanorad`: 360 degrees in microdegrees.
pub const MAX_ANGLE_MICRODEG: u64 = 360_000_000;

/// Threshold of the `asin` cofunction reduction: `sqrt(1/2)` at scale `1e9`.
pub const ASIN_SPLIT: u64 = 707_106_781;

pub(crate) proof fn lemma_mul_le(a: int, b: int, bound_a: int, bound_b: int)
    by (nonlinear_arith)
    requires
        0 <= a <= bound_a,
        0 <= b <= bound_b,
    ensures
        0 <= a * b <= bound_a * bound_b,
{
}

pub(crate) proof fn lemma_mul_le_right(a: int, b: int, k: int)
    by (nonlinear_arith)
    requires
        0 <= a,
        0 <= b <= k,
    ensures
        0 <= a * b <= a * k,
{
}

pub(crate) proof fn lemma_div_bound(a: int, bound: int, d: int)
    by (nonlinear_arith)
    requires
        0 <= a <= bound,
        1 <= d,
    ensures
        0 <= a / d <= bound / d,
{
}

/// Cancel a known multiple: `(a * k) / k == a`.
pub(crate) proof fn lemma_mul_div_cancel(a: int, k: int)
    by (nonlinear_arith)
    requires
        0 <= a,
        1 <= k,
    ensures
        a * k / k == a,
{
}

/// `a * b / s <= a * k` whenever `b <= k * s`.
pub(crate) proof fn lemma_mul_div_le(a: int, b: int, k: int, s: int)
    requires
        0 <= a,
        0 <= b <= k * s,
        1 <= s,
        0 <= k,
    ensures
        0 <= a * b / s <= a * k,
{
    lemma_mul_le_right(a, b, k * s);
    assert(a * (k * s) == (a * k) * s) by (nonlinear_arith);
    lemma_div_bound(a * b, a * k * s, s);
    lemma_mul_le(a, k, a, k);
    lemma_mul_div_cancel(a * k, s);
}

pub open spec fn spec_nanorad(d: int) -> int {
    d * 17_453_292_520 / 1_000_000_000
}

/// Converts a nonnegative angle in microdegrees to nanoradians.
pub(crate) fn to_nanorad(d: u64) -> (r: u64)
    requires
        d <= MAX_ANGLE_MICRODEG,
    ensures
        r == spec_nanorad(d as int),
        r <= 6_283_185_307,
        d <= 180_000_000 ==> r <= 3_141_592_653,
        d <= 90_000_000 ==> r <= 1_570_796_326,
{
    proof {
        lemma_mul_le(d as int, 17_453_292_520, 360_000_000, 17_453_292_520);
        lemma_div_bound(d as int * 17_453_292_520, 360_000_000int * 17_453_292_520, 1_000_000_000);
        if d <= 180_000_000 {
            lemma_mul_le(d as int, 17_453_292_520, 180_000_000, 17_453_292_520);
            lemma_div_bound(
                d as int * 17_453_292_520,
                180_000_000int * 17_453_292_520,
                1_000_000_000,
            );
        }
        if d <= 90_000_000 {
            lemma_mul_le(d as int, 17_453_292_520, 90_000_000, 17_453_292_520);
            lemma_div_bound(
                d as int * 17_453_292_520,
                90_000_000int * 17_453_292_520,
                1_000_000_000,
            );
        }
    }
    let r: u64 = d * NANORAD_PER_MICRODEG / SCALE;
    r
}

/// Truncated Taylor series of `sin` on the first quadrant, at scale `1e9`.
pub open spec fn spec_sin_nano(x: int) -> int {
    let x2 = x * x / 1_000_000_000;
    let t3 = x * x2 / 1_000_000_000 / 6;
    let t5 = t3 * x2 / 1_000_000_000 / 20;
    let t7 = t5 * x2 / 1_000_000_000 / 42;
    let t9 = t7 * x2 / 1_000_000_000 / 72;
    x + t5 + t9 - t3 - t7
}

pub(crate) fn sin_nano(x: u64) -> (r: u64)
    requires
        x <= HALF_PI_NANO,
    ensures
        r == spec_sin_nano(x as int),
        r <= x,
{
    proof {
        lemma_mul_le(x as int, x as int, 1_570_796_327, 1_570_796_327);
        lemma_div_bound(x as int * x as int, 1_570_796_327int * 1_570_796_327, 1_000_000_000);
    }
    let x2: u64 = x * x / SCALE;
    assert(x2 <= 2_467_401_100);
    proof {
        lemma_mul_le(x as int, x2 as int, 1_570_796_327, 2_467_401_100);
        lemma_mul_div_le(x as int, x2 as int, 6, 1_000_000_000);
        lemma_div_bound(x as int * x2 as int / 1_000_000_000, x as int * 6, 6);
        lemma_mul_div_cancel(x as int, 6);
    }
    let t3: u64 = x * x2 / SCALE / 6;
    assert(t3 <= x);
    proof {
        lemma_mul_le(t3 as int, x2 as int, 1_570_796_327, 2_467_401_100);
        lemma_mul_div_le(t3 as int, x2 as int, 20, 1_000_000_000);
        lemma_div_bound(t3 as int * x2 as int / 1_000_000_000, t3 as int * 20, 20);
        lemma_mul_div_cancel(t3 as int, 20);
    }
    let t5: u64 = t3 * x2 / SCALE / 20;
    assert(t5 <= t3);
    proof {
        lemma_mul_le(t5 as int, x2 as int, 1_570_796_327, 2_467_401_100);
        lemma_mul_div_le(t5 as int, x2 as int, 42, 1_000_000_000);
        lemma_div_bound(t5 as int * x2 as int / 1_000_000_000, t5 as int * 42, 42);
        lemma_mul_div_cancel(t5 as int, 42);
    }
    let t7: u64 = t5 * x2 / SCALE / 42;
    assert(t7 <= t5);
    proof {
        lemma_mul_le(t7 as int, x2 as int, 1_570_796_327, 2_467_401_100);
        lemma_mul_div_le(t7 as int, x2 as int, 72, 1_000_000_000);
        lemma_div_bound(t7 as int * x2 as int / 1_000_000_000, t7 as int * 72, 72);
        lemma_mul_div_cancel(t7 as int, 72);
    }
    let t9: u64 = t7 * x2 / SCALE / 72;
    assert(t9 <= t7);
    let r: u64 = x + t5 + t9 - t3 - t7;
    r
}

/// Truncated Taylor series of `cos` on the first quadrant, at scale `1e9`,
/// clamped below at zero.
pub open spec fn spec_cos_nano(x: int) -> int {
    let x2 = x * x / 1_000_000_000;
    let d2 = x2 / 2;
    let d4 = d2 * x2 / 1_000_000_000 / 12;
    let d6 = d4 * x2 / 1_000_000_000 / 30;
    let d8 = d6 * x2 / 1_000_000_000 / 56;
    let d10 = d8 * x2 / 1_000_000_000 / 90;
    let pos = 1_000_000_000 + d4 + d8;
    let neg = d2 + d6 + d10;
    if pos >= neg {
        pos - neg
    } else {
        0
    }
}

pub(crate) fn cos_nano(x: u64) -> (r: u64)
    requires
        x <= HALF_PI_NANO,
    ensures
        r == spec_cos_nano(x as int),
        r <= SCALE,
        x == 0 ==> r == SCALE,
{
    proof {
        lemma_mul_le(x as int, x as int, 1_570_796_327, 1_570_796_327);
        lemma_div_bound(x as int * x as int, 1_570_796_327int * 1_570_796_327, 1_000_000_000);
    }
    let x2: u64 = x * x / SCALE;
    assert(x2 <= 2_467_401_100);
    let d2: u64 = x2 / 2;
    proof {
        lemma_mul_le(d2 as int, x2 as int, 1_233_700_550, 2_467_401_100);
        lemma_mul_div_le(d2 as int, x2 as int, 12, 1_000_000_000);
        lemma_div_bound(d2 as int * x2 as int / 1_000_000_000, d2 as int * 12, 12);
        lemma_mul_div_cancel(d2 as int, 12);
    }
    let d4: u64 = d2 * x2 / SCALE / 12;
    assert(d4 <= d2);
    proof {
        lemma_mul_le(d4 as int, x2 as int, 1_233_700_550, 2_467_401_100);
        lemma_mul_div_le(d4 as int, x2 as int, 30, 1_000_000_000);
        lemma_div_bound(d4 as int * x2 as int / 1_000_000_000, d4 as int * 30, 30);
        lemma_mul_div_cancel(d4 as int, 30);
    }
    let d6: u64 = d4 * x2 / SCALE / 30;
    assert(d6 <= d4);
    proof {
        lemma_mul_le(d6 as int, x2 as int, 1_233_700_550, 2_467_401_100);
        lemma_mul_div_le(d6 as int, x2 as int, 56, 1_000_000_000);
        lemma_div_bound(d6 as int * x2 as int / 1_000_000_000, d6 as int * 56, 56);
        lemma_mul_div_cancel(d6 as int, 56);
    }
    let d8: u64 = d6 * x2 / SCALE / 56;
    assert(d8 <= d6);
    proof {
        lemma_mul_le(d8 as int, x2 as int, 1_233_700_550, 2_467_401_100);
        lemma_mul_div_le(d8 as int, x2 as int, 90, 1_000_000_000);
    }
    let d10: u64 = d8 * x2 / SCALE / 90;
    let pos: u64 = SCALE + d4 + d8;
    let neg: u64 = d2 + d6 + d10;
    if pos >= neg {
        pos - neg
    } else {
        0
    }
}

/// The integer square root, defined by counting up.
pub open spec fn spec_isqrt(x: int) -> int
    decreases x,
{
    if x <= 0 {
        0
    } else {
        let r = spec_isqrt(x - 1);
        if (r + 1) * (r + 1) <= x {
            r + 1
        } else {
            r
        }
    }
}

pub proof fn lemma_isqrt_props(x: int)
    requires
        x >= 0,
    ensures
        spec_isqrt(x) >= 0,
        spec_isqrt(x) * spec_isqrt(x) <= x,
        x < (spec_isqrt(x) + 1) * (spec_isqrt(x) + 1),
    decreases x,
{
    if x == 0 {
    } else {
        lemma_isqrt_props(x - 1);
        let r = spec_isqrt(x - 1);
        if (r + 1) * (r + 1) <= x {
            assert((r + 1) * (r + 1) < (r + 2) * (r + 2)) by (nonlinear_arith)
                requires
                    r >= 0,
            ;
            assert(x - 1 < (r + 1) * (r + 1));
        }
    }
}

pub proof fn lemma_isqrt_unique(x: int, r: int)
    requires
        x >= 0,
        r >= 0,
        r * r <= x,
        x < (r + 1) * (r + 1),
    ensures
        r == spec_isqrt(x),
{
    lemma_isqrt_props(x);
    let s = spec_isqrt(x);
    if r < s {
        assert((r + 1) * (r + 1) <= s * s) by (nonlinear_arith)
            requires
                0 <= r,
                r + 1 <= s,
        ;
    }
    if s < r {
        assert((s + 1) * (s + 1) <= r * r) by (nonlinear_arith)
            requires
                0 <= s,
                s + 1 <= r,
        ;
    }
}

/// Integer square root by binary search.
pub(crate) fn isqrt64(x: u64) -> (r: u64)
    ensures
        r == spec_isqrt(x as int),
        r * r <= x,
        x < (r + 1) * (r + 1),
{
    let mut lo: u64 = 0;
    let mut hi: u64 = 4_294_967_295;
    assert(x < (hi + 1) * (hi + 1)) by {
        assert((4_294_967_295int + 1) * (4_294_967_295int + 1) > u64::MAX);
    }
    while lo < hi
        invariant
            lo <= hi <= 4_294_967_295,
            lo * lo <= x,
            x < (hi + 1) * (hi + 1),
        decreases hi - lo,
    {
        let mid: u64 = lo + (hi - lo + 1) / 2;
        assert(lo < mid <= hi);
        proof {
            lemma_mul_le(mid as int, mid as int, 4_294_967_295, 4_294_967_295);
        }
        if mid * mid <= x {
            lo = mid;
        } else {
            hi = mid - 1;
        }
    }
    proof {
        lemma_isqrt_unique(x as int, lo as int);
    }
    lo
}

/// One term of the arcsine series: term 0 is the argument itself.
pub open spec fn spec_asin_t(s: int, x2: int, n: nat) -> int
    decreases n,
{
    if n == 0 {
        s
    } else {
        let k = n as int;
        spec_asin_t(s, x2, (n - 1) as nat) * x2 / 1_000_000_000 * ((2 * k - 1) * (2 * k - 1)) / ((2
            * k) * (2 * k + 1))
    }
}

/// Partial sum of the arcsine series up to term `n`.
pub open spec fn spec_asin_acc(s: int, x2: int, n: nat) -> int
    decreases n,
{
    if n == 0 {
        s
    } else {
        spec_asin_acc(s, x2, (n - 1) as nat) + spec_asin_t(s, x2, n)
    }
}

/// Arcsine on arguments up to `sqrt(1/2)`, at scale `1e9`.
pub open spec fn spec_asin_core(s: int) -> int {
    spec_asin_acc(s, s * s / 1_000_000_000, 15)
}

/// Arcsine on the full range `0 ..= 1e9`, reduced through the cofunction
/// identity above `sqrt(1/2)`.
pub open spec fn spec_asin_nano(s: int) -> int {
    if s > 707_106_781 {
        1_570_796_327 - spec_asin_core(spec_isqrt(1_000_000_000_000_000_000 - s * s))
    } else {
        spec_asin_core(s)
    }
}

pub proof fn lemma_asin_t_zero(n: nat)
    ensures
        spec_asin_t(0, 0, n) == 0,
    decreases n,
{
    if n > 0 {
        lemma_asin_t_zero((n - 1) as nat);
        let k = n as int;
        assert(spec_asin_t(0, 0, n) == spec_asin_t(0, 0, (n - 1) as nat) * 0 / 1_000_000_000 * ((2
            * k - 1) * (2 * k - 1)) / ((2 * k) * (2 * k + 1)));
        assert(0int * ((2 * k - 1) * (2 * k - 1)) == 0) by (nonlinear_arith);
        assert(0int / ((2 * k) * (2 * k + 1)) == 0) by (nonlinear_arith)
            requires
                k >= 1,
        ;
    }
}

pub proof fn lemma_asin_acc_zero(n: nat)
    ensures
        spec_asin_acc(0, 0, n) == 0,
    decreases n,
{
    if n > 0 {
        lemma_asin_acc_zero((n - 1) as nat);
        lemma_asin_t_zero(n);
    }
}

fn asin_core(s: u64) -> (r: u64)
    requires
        s <= ASIN_SPLIT,
    ensures
        r == spec_asin_core(s as int),
        r <= 900_000_000,
        s == 0 ==> r == 0,
{
    proof {
        lemma_mul_le(s as int, s as int, 707_106_781, 707_106_781);
        lemma_div_bound(s as int * s as int, 707_106_781int * 707_106_781, 1_000_000_000);
    }
    let x2: u64 = s * s / SCALE;
    assert(x2 <= 499_999_999);
    proof {
        lemma_mul_le(s as int, x2 as int, 707_106_781, 499_999_999);
        lemma_mul_le_right(s as int, x2 as int, 500_000_000);
        lemma_div_bound(s as int * x2 as int, s as int * 500_000_000, 1_000_000_000);
        assert(s as int * 500_000_000 / 1_000_000_000 == s as int / 2) by (nonlinear_arith);
        lemma_div_bound(s as int * x2 as int / 1_000_000_000, s as int / 2, 6);
    }
    let t1: u64 = s * x2 / SCALE / 6;
    assert(t1 <= s as int / 2 / 6);
    assert(t1 * 12 <= s) by (nonlinear_arith)
        requires
            0 <= t1,
            0 <= s,
            t1 <= s as int / 2 / 6,
    ;
    let mut acc: u64 = s + t1;
    let mut t: u64 = t1;
    let mut n: u64 = 2;
    proof {
        reveal_with_fuel(spec_asin_t, 2);
        reveal_with_fuel(spec_asin_acc, 2);
        assert(spec_asin_t(s as int, x2 as int, 1) == spec_asin_t(s as int, x2 as int, 0) * x2
            / 1_000_000_000 * ((2int * 1 - 1) * (2int * 1 - 1)) / ((2int * 1) * (2int * 1 + 1)));
        assert(spec_asin_t(s as int, x2 as int, 0) == s as int);
        assert(t1 as int == s as int * x2 as int / 1_000_000_000 / 6);
        assert(s as int * x2 as int / 1_000_000_000 * ((2int * 1 - 1) * (2int * 1 - 1)) / ((2int
            * 1) * (2int * 1 + 1)) == s as int * x2 as int / 1_000_000_000 / 6) by (nonlinear_arith);
        assert(spec_asin_t(s as int, x2 as int, 1) == s as int * x2 as int / 1_000_000_000 / 6);
        assert(t1 == spec_asin_t(s as int, x2 as int, 1));
        assert(acc == spec_asin_acc(s as int, x2 as int, 1));
    }
    while n < 16
        invariant
            2 <= n <= 16,
            x2 <= 499_999_999,
            s <= ASIN_SPLIT,
            t == spec_asin_t(s as int, x2 as int, (n - 1) as nat),
            acc == spec_asin_acc(s as int, x2 as int, (n - 1) as nat),
            t <= 707_106_781,
            acc + 2 * t <= s + 3 * t1,
            t1 * 12 <= s,
            s == 0 ==> acc == 0 && t == 0,
        decreases 16 - n,
    {
        proof {
            lemma_mul_le(t as int, x2 as int, 707_106_781, 499_999_999);
            lemma_mul_le_right(t as int, x2 as int, 500_000_000);
            lemma_div_bound(t as int * x2 as int, t as int * 500_000_000, 1_000_000_000);
            assert(t as int * 500_000_000 / 1_000_000_000 == t as int / 2) by (nonlinear_arith);
        }
        let a: u64 = t * x2 / SCALE;
        assert(a <= t / 2);
        let odd: u64 = 2 * n - 1;
        assert(odd <= 31);
        proof {
            lemma_mul_le(odd as int, odd as int, 31, 31);
            lemma_mul_le(a as int, (odd * odd) as int, 353_553_391, 961);
        }
        let oddsq: u64 = odd * odd;
        let b: u64 = a * oddsq;
        proof {
            lemma_mul_le(2 * n as int, 2 * n as int + 1, 32, 33);
        }
        let den: u64 = (2 * n) * (2 * n + 1);
        assert(den >= 20) by (nonlinear_arith)
            requires
                2 <= n <= 16,
                den == (2 * n) * (2 * n + 1),
        ;
        assert(den >= oddsq) by (nonlinear_arith)
            requires
                2 <= n <= 16,
                odd == 2 * n - 1,
                oddsq == odd * odd,
                den == (2 * n) * (2 * n + 1),
        ;
        let tn: u64 = b / den;
        proof {
            lemma_mul_le_right(a as int, oddsq as int, den as int);
            lemma_div_bound(b as int, a as int * den as int, den as int);
            lemma_mul_div_cancel(a as int, den as int);
        }
        assert(tn <= a);
        proof {
            assert(tn == spec_asin_t(s as int, x2 as int, n as nat));
            if s == 0 {
                lemma_asin_t_zero(n as nat);
            }
        }
        acc = acc + tn;
        t = tn;
        n = n + 1;
        proof {
            assert(acc == spec_asin_acc(s as int, x2 as int, (n - 1) as nat));
        }
    }
    acc
}

pub(crate) fn asin_nano(s: u64) -> (r: u64)
    requires
        s <= SCALE,
    ensures
        r == spec_asin_nano(s as int),
        r <= HALF_PI_NANO,
        s == 0 ==> r == 0,
{
    if s > ASIN_SPLIT {
        proof {
            lemma_mul_le(s as int, s as int, 1_000_000_000, 1_000_000_000);
            assert(s as int * s as int >= 707_106_782int * 707_106_782) by (nonlinear_arith)
                requires
                    s >= 707_106_782,
            ;
        }
        let c2: u64 = SCALE * SCALE - s * s;
        let t: u64 = isqrt64(c2);
        assert(t <= ASIN_SPLIT) by (nonlinear_arith)
            requires
                t * t <= c2,
                c2 <= 1_000_000_000_000_000_000 - 707_106_782int * 707_106_782,
                t >= 0,
        ;
        let core: u64 = asin_core(t);
        HALF_PI_NANO - core
    } else {
        asin_core(s)
    }
}

} // verus!
