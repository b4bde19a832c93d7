//! Small integer helpers shared by the geometry and the solvers:
//! magnitudes, minima, division that rounds toward zero, and integer
//! square roots.

use vstd::prelude::*;
use vstd::arithmetic::div_mod::lemma_fundamental_div_mod;
use vstd::arithmetic::div_mod::lemma_mod_bound;

verus! {

/// Magnitude of an integer.
pub open spec fn mag(x: int) -> int {
    if x < 0 {
        -x
    } else {
        x
    }
}

/// Smallest of three integers.
pub open spec fn min3(a: int, b: int, c: int) -> int {
    if a <= b && a <= c {
        a
    } else if b <= c {
        b
    } else {
        c
    }
}

/// Smaller of two integers.
pub open spec fn imin(a: int, b: int) -> int {
    if a <= b {
        a
    } else {
        b
    }
}

/// Division rounding toward zero — the behaviour of Rust's `/` on signed
/// integers — for a positive divisor.
pub open spec fn tdiv(a: int, b: int) -> int {
    if a >= 0 {
        a / b
    } else {
        -((-a) / b)
    }
}

/// Squaring is monotone on non-negative integers.
pub proof fn lemma_sq_mono(a: int, b: int)
    by (nonlinear_arith)
    requires
        0 <= a <= b,
    ensures
        a * a <= b * b,
{
}

/// The magnitude of a product is the product of the magnitudes, and is
/// bounded by any bounds on the factors.
pub proof fn lemma_mul_bound(a: int, b: int, ba: int, bb: int)
    requires
        mag(a) <= ba,
        mag(b) <= bb,
    ensures
        mag(a * b) == mag(a) * mag(b),
        mag(a * b) <= ba * bb,
{
    let ma = mag(a);
    let mb = mag(b);
    let mp = mag(a * b);
    assert(mp == ma * mb && mp <= ba * bb) by (nonlinear_arith)
        requires
            a < 0 ==> ma == -a,
            a >= 0 ==> ma == a,
            b < 0 ==> mb == -b,
            b >= 0 ==> mb == b,
            a * b < 0 ==> mp == -(a * b),
            a * b >= 0 ==> mp == a * b,
            ma <= ba,
            mb <= bb,
    ;
}

/// Euclidean division by a positive divisor of a non-negative dividend:
/// the quotient is non-negative and multiplying back stays within one
/// divisor of the dividend.
pub proof fn lemma_div_pos_facts(a: int, b: int)
    requires
        0 <= a,
        0 < b,
    ensures
        0 <= a / b,
        b * (a / b) <= a,
        a < b * (a / b) + b,
        a / b <= a,
{
    lemma_fundamental_div_mod(a, b);
    lemma_mod_bound(a, b);
    let q = a / b;
    let r = a % b;
    assert(0 <= q && b * q <= a && a < b * q + b && q <= a) by (nonlinear_arith)
        requires
            a == b * q + r,
            0 <= r < b,
            0 <= a,
            0 < b,
    ;
}

/// The quotient of a truncating division by a positive divisor never
/// overshoots the dividend, and the remainder is smaller than the
/// divisor in magnitude.
pub proof fn lemma_tdiv_facts(a: int, b: int)
    requires
        0 < b,
    ensures
        mag(b * tdiv(a, b)) <= mag(a),
        mag(a - b * tdiv(a, b)) < b,
        b * mag(tdiv(a, b)) <= mag(a),
        mag(tdiv(a, b)) <= mag(a),
        a >= 0 ==> 0 <= tdiv(a, b) && b * tdiv(a, b) <= a,
        a <= 0 ==> tdiv(a, b) <= 0 && a <= b * tdiv(a, b),
{
    if a >= 0 {
        lemma_div_pos_facts(a, b);
        let q = a / b;
        assert(q <= b * q) by (nonlinear_arith)
            requires
                0 <= q,
                0 < b,
        ;
    } else {
        lemma_div_pos_facts(-a, b);
        let q = (-a) / b;
        assert(tdiv(a, b) == -q);
        assert(q <= b * q) by (nonlinear_arith)
            requires
                0 <= q,
                0 < b,
        ;
        assert(b * -q == -(b * q)) by (nonlinear_arith);
    }
}

/// A dividend bounded by `b * c` yields a quotient bounded by `c`.
pub proof fn lemma_tdiv_mag_le(a: int, b: int, c: int)
    requires
        0 < b,
        0 <= c,
        mag(a) <= b * c,
    ensures
        mag(tdiv(a, b)) <= c,
{
    lemma_tdiv_facts(a, b);
    let q = tdiv(a, b);
    assert(mag(q) <= c) by (nonlinear_arith)
        requires
            b * mag(q) <= mag(a),
            mag(a) <= b * c,
            0 < b,
            0 <= mag(q),
    ;
}

/// The integer square root, defined by counting up.
pub open spec fn sqrt_floor(n: int) -> int
    decreases n,
{
    if n < 1 {
        0
    } else {
        let p = sqrt_floor(n - 1);
        if (p + 1) * (p + 1) <= n {
            p + 1
        } else {
            p
        }
    }
}

/// `sqrt_floor` squeezes its argument between two consecutive squares.
pub proof fn lemma_sqrt_floor(n: int)
    requires
        0 <= n,
    ensures
        0 <= sqrt_floor(n),
        sqrt_floor(n) * sqrt_floor(n) <= n,
        n < (sqrt_floor(n) + 1) * (sqrt_floor(n) + 1),
    decreases n,
{
    if n >= 1 {
        lemma_sqrt_floor(n - 1);
        let p = sqrt_floor(n - 1);
        if (p + 1) * (p + 1) <= n {
            assert((p + 2) * (p + 2) > (p + 1) * (p + 1)) by (nonlinear_arith)
                requires
                    0 <= p,
            ;
        }
    }
}

/// Any value squeezed between two consecutive squares is the square root.
pub proof fn lemma_sqrt_floor_unique(n: int, r: int)
    requires
        0 <= r,
        r * r <= n,
        n < (r + 1) * (r + 1),
    ensures
        r == sqrt_floor(n),
{
    lemma_sqrt_floor(n);
    let s = sqrt_floor(n);
    if r < s {
        assert(false) by (nonlinear_arith)
            requires
                0 <= r < s,
                s * s <= n,
                n < (r + 1) * (r + 1),
        ;
    }
    if s < r {
        assert(false) by (nonlinear_arith)
            requires
                0 <= s < r,
                r * r <= n,
                n < (s + 1) * (s + 1),
        ;
    }
}

/// Truncating division of wide intermediates, rounding toward zero.
pub fn tdiv_i128(a: i128, b: i128) -> (r: i128)
    requires
        0 < b,
        i128::MIN < a,
    ensures
        r as int == tdiv(a as int, b as int),
{
    proof {
        if a >= 0 {
            lemma_div_pos_facts(a as int, b as int);
        } else {
            lemma_div_pos_facts(-(a as int), b as int);
        }
    }
    let q = a.checked_div(b);
    q.unwrap()
}

/// Truncating division on machine words, rounding toward zero.
pub fn tdiv_i64(a: i64, b: i64) -> (r: i64)
    requires
        0 < b,
        i64::MIN < a,
    ensures
        r as int == tdiv(a as int, b as int),
{
    proof {
        if a >= 0 {
            lemma_div_pos_facts(a as int, b as int);
        } else {
            lemma_div_pos_facts(-(a as int), b as int);
        }
    }
    let q = a.checked_div(b);
    q.unwrap()
}

/// Integer square root by bisection.
pub fn isqrt(n: i64) -> (r: i64)
    requires
        0 <= n,
    ensures
        r == sqrt_floor(n as int),
        0 <= r,
{
    proof {
        lemma_sqrt_floor(n as int);
    }
    let mut lo: i64 = 0;
    let mut hi: i64 = 3037000500;
    assert((n as int) < (hi as int) * (hi as int)) by (nonlinear_arith)
        requires
            n <= 0x7fffffffffffffff,
            hi == 3037000500int,
    ;
    while lo + 1 < hi
        invariant
            0 <= lo < hi <= 3037000500,
            (lo as int) * (lo as int) <= n as int,
            (n as int) < (hi as int) * (hi as int),
        decreases hi - lo,
    {
        let diff = hi - lo;
        let step = (diff as u64) / 2;
        proof {
            lemma_div_pos_facts(diff as int, 2);
        }
        assert(1 <= step && step as int <= diff - 1);
        let mid = lo + step as i64;
        proof {
            lemma_sq_mono(mid as int, 3037000500);
        }
        let sq = (mid as i128) * (mid as i128);
        if sq <= n as i128 {
            lo = mid;
        } else {
            hi = mid;
        }
    }
    proof {
        lemma_sqrt_floor_unique(n as int, lo as int);
    }
    lo
}

} // verus!
