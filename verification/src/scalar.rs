//! Exact fixed-point scalar arithmetic.
//!
//! A `Scalar` holds a signed count of units of `1 / SCALE`.  Every operation
//! rounds its true rational result toward zero to the nearest unit and then
//! saturates the magnitude at `MAX_UNITS`, so each operation is a total
//! function on well-formed scalars with an exact integer-level specification.

use vstd::prelude::*;

verus! {

/// Number of units per 1.0.
pub const SCALE: i128 = 1_000_000_000_000;

/// Largest unit count a scalar may carry.
pub const MAX_UNITS: i128 = 10_000_000_000_000_000_000;

/// Magnitude saturation: clip `x` into `[-MAX_UNITS, MAX_UNITS]`.
pub open spec fn sat(x: int) -> int {
    if x > MAX_UNITS as int {
        MAX_UNITS as int
    } else if x < -(MAX_UNITS as int) {
        -(MAX_UNITS as int)
    } else {
        x
    }
}

pub open spec fn abs_units(x: int) -> int {
    if x < 0 { -x } else { x }
}

pub open spec fn add_units(a: int, b: int) -> int {
    sat(a + b)
}

pub open spec fn sub_units(a: int, b: int) -> int {
    sat(a - b)
}

/// Unit count of the product: magnitudes multiply, drop the extra scale,
/// round toward zero, saturate, reapply the sign.
pub open spec fn mul_units(a: int, b: int) -> int {
    if (a < 0) == (b < 0) {
        sat((abs_units(a) * abs_units(b)) / (SCALE as int))
    } else {
        -sat((abs_units(a) * abs_units(b)) / (SCALE as int))
    }
}

/// Unit count of the quotient, rounded toward zero.  Division by zero
/// saturates: the quotient of a non-zero value is the largest scalar of the
/// dividend's sign, and `0 / 0` is zero.
pub open spec fn div_units(a: int, b: int) -> int {
    if b == 0 {
        if a > 0 {
            MAX_UNITS as int
        } else if a < 0 {
            -(MAX_UNITS as int)
        } else {
            0
        }
    } else if (a < 0) == (b < 0) {
        sat((abs_units(a) * (SCALE as int)) / abs_units(b))
    } else {
        -sat((abs_units(a) * (SCALE as int)) / abs_units(b))
    }
}

pub open spec fn min_units(a: int, b: int) -> int {
    if a < b { a } else { b }
}

pub open spec fn max_units(a: int, b: int) -> int {
    if a > b { a } else { b }
}

/// `x` clipped into `[lo, hi]` (callers keep `lo <= hi`).
pub open spec fn clamp_units(x: int, lo: int, hi: int) -> int {
    if x < lo { lo } else if x > hi { hi } else { x }
}

/// `r` is the fixed-point square root of `v`: the largest unit count
/// whose square stays within `v` rescaled.
pub open spec fn is_sqrt(v: int, r: int) -> bool {
    &&& 0 <= r
    &&& r * r <= v * (SCALE as int)
    &&& v * (SCALE as int) < (r + 1) * (r + 1)
}

/// Unit count of the square root, rounded down; zero for non-positive
/// arguments.
pub open spec fn sqrt_units(v: int) -> int {
    if v <= 0 {
        0
    } else {
        choose|r: int| is_sqrt(v, r)
    }
}

pub proof fn lemma_sqrt_unique(v: int, r1: int, r2: int)
    requires
        is_sqrt(v, r1),
        is_sqrt(v, r2),
    ensures
        r1 == r2,
{
    if r1 < r2 {
        assert((r1 + 1) * (r1 + 1) <= r2 * r2) by (nonlinear_arith)
            requires 0 <= r1, r1 < r2;
    } else if r2 < r1 {
        assert((r2 + 1) * (r2 + 1) <= r1 * r1) by (nonlinear_arith)
            requires 0 <= r2, r2 < r1;
    }
}

/// The product of two non-negative scalars is a non-negative scalar.
pub proof fn lemma_mul_units_nonneg(a: int, b: int)
    requires
        0 <= a,
        0 <= b,
    ensures
        0 <= mul_units(a, b) <= MAX_UNITS as int,
{
    let q = (abs_units(a) * abs_units(b)) / (SCALE as int);
    assert(0 <= abs_units(a) * abs_units(b)) by (nonlinear_arith)
        requires 0 <= abs_units(a), 0 <= abs_units(b);
    vstd::arithmetic::div_mod::lemma_div_is_ordered(0, abs_units(a) * abs_units(b), SCALE as int);
    assert(0int / (SCALE as int) == 0) by (nonlinear_arith);
    assert(0 <= q);
}

/// Multiplication of non-negative scalars is monotone in both arguments.
pub proof fn lemma_mul_units_mono(a1: int, b1: int, a2: int, b2: int)
    requires
        0 <= a1 <= a2,
        0 <= b1 <= b2,
    ensures
        mul_units(a1, b1) <= mul_units(a2, b2),
{
    lemma_mul_units_nonneg(a1, b1);
    lemma_mul_units_nonneg(a2, b2);
    assert(a1 * b1 <= a2 * b2) by (nonlinear_arith)
        requires 0 <= a1 <= a2, 0 <= b1 <= b2;
    vstd::arithmetic::div_mod::lemma_div_is_ordered(a1 * b1, a2 * b2, SCALE as int);
}

/// Zero is absorbing for the scaled product.
pub proof fn lemma_mul_units_zero(c: int)
    ensures
        mul_units(c, 0) == 0,
        mul_units(0, c) == 0,
{
    assert(abs_units(c) * abs_units(0) == 0) by (nonlinear_arith);
    assert(abs_units(0) * abs_units(c) == 0) by (nonlinear_arith);
    assert(0int / (SCALE as int) == 0) by (nonlinear_arith);
}

/// A zero dividend gives a zero quotient.
pub proof fn lemma_div_units_zero_num(b: int)
    ensures
        div_units(0, b) == 0,
{
    if b != 0 {
        assert(abs_units(0) * (SCALE as int) == 0) by (nonlinear_arith);
        assert(0int / abs_units(b) == 0) by (nonlinear_arith)
            requires abs_units(b) > 0;
    }
}

/// Multiplying by one is exact.
pub proof fn lemma_mul_units_one(a: int)
    requires
        -(MAX_UNITS as int) <= a <= MAX_UNITS as int,
    ensures
        mul_units(a, SCALE as int) == a,
{
    if a >= 0 {
        vstd::arithmetic::div_mod::lemma_div_multiples_vanish(a, SCALE as int);
        assert((a * (SCALE as int)) / (SCALE as int) == a);
        assert(abs_units(a) * abs_units(SCALE as int) == a * (SCALE as int))
            by (nonlinear_arith)
            requires a >= 0;
    } else {
        vstd::arithmetic::div_mod::lemma_div_multiples_vanish(-a, SCALE as int);
        assert(((-a) * (SCALE as int)) / (SCALE as int) == -a);
        assert(abs_units(a) * abs_units(SCALE as int) == (-a) * (SCALE as int))
            by (nonlinear_arith)
            requires a < 0;
    }
}

/// Scaling a non-negative value by a factor of at least one does not
/// shrink it.
pub proof fn lemma_mul_units_amplify(h: int, c: int)
    requires
        0 <= h <= MAX_UNITS as int,
        SCALE as int <= c,
    ensures
        mul_units(h, c) >= h,
{
    lemma_mul_units_one(h);
    lemma_mul_units_mono(h, SCALE as int, h, c);
}

/// The quotient of non-negative scalars is a non-negative scalar.
pub proof fn lemma_div_units_nonneg(a: int, b: int)
    requires
        0 <= a,
        0 <= b,
    ensures
        0 <= div_units(a, b) <= MAX_UNITS as int,
{
    if b != 0 {
        assert(0 <= abs_units(a) * (SCALE as int)) by (nonlinear_arith)
            requires 0 <= abs_units(a);
        vstd::arithmetic::div_mod::lemma_div_is_ordered(
            0,
            abs_units(a) * (SCALE as int),
            abs_units(b),
        );
        assert(0int / abs_units(b) == 0) by (nonlinear_arith)
            requires abs_units(b) > 0;
    }
}

/// Division with a non-negative dividend is antitone in the divisor.
pub proof fn lemma_div_units_antitone(a: int, b1: int, b2: int)
    requires
        0 <= a,
        0 <= b1 <= b2,
    ensures
        div_units(a, b1) >= div_units(a, b2),
{
    lemma_div_units_nonneg(a, b1);
    lemma_div_units_nonneg(a, b2);
    if b1 == 0 {
        if a == 0 {
            if b2 != 0 {
                assert(abs_units(a) * (SCALE as int) == 0);
                assert(0int / abs_units(b2) == 0) by (nonlinear_arith)
                    requires abs_units(b2) > 0;
            }
        }
    } else {
        assert(0 <= abs_units(a) * (SCALE as int)) by (nonlinear_arith)
            requires 0 <= abs_units(a);
        vstd::arithmetic::div_mod::lemma_div_is_ordered_by_denominator(
            abs_units(a) * (SCALE as int),
            abs_units(b1),
            abs_units(b2),
        );
    }
}

/// A fixed-point number: `v` units of `1 / SCALE`.
#[derive(Clone, Copy, Debug)]
pub struct Scalar {
    pub(crate) v: i128,
}

impl View for Scalar {
    type V = int;

    closed spec fn view(&self) -> int {
        self.v as int
    }
}

impl Scalar {
    /// Magnitude within the saturation bound.
    pub open spec fn wf(self) -> bool {
        -(MAX_UNITS as int) <= self@ <= MAX_UNITS as int
    }

    /// Build a scalar from a raw unit count, saturating the magnitude.
    pub fn from_units(u: i128) -> (r: Scalar)
        ensures
            r@ == sat(u as int),
            r.wf(),
    {
        if u > MAX_UNITS {
            Scalar { v: MAX_UNITS }
        } else if u < -MAX_UNITS {
            Scalar { v: -MAX_UNITS }
        } else {
            Scalar { v: u }
        }
    }

    /// Build a scalar holding the integer `n`, saturating the magnitude.
    pub fn from_int(n: i128) -> (r: Scalar)
        ensures
            r@ == sat(n as int * SCALE as int),
            r.wf(),
    {
        if n >= 10_000_000 {
            Scalar { v: MAX_UNITS }
        } else if n <= -10_000_000 {
            Scalar { v: -MAX_UNITS }
        } else {
            proof {
                assert(-(MAX_UNITS as int) <= n as int * SCALE as int <= MAX_UNITS as int)
                    by (nonlinear_arith)
                    requires -10_000_000 < n < 10_000_000;
            }
            Scalar { v: n * SCALE }
        }
    }

    pub fn zero() -> (r: Scalar)
        ensures
            r@ == 0,
            r.wf(),
    {
        Scalar { v: 0 }
    }

    pub fn one() -> (r: Scalar)
        ensures
            r@ == SCALE as int,
            r.wf(),
    {
        Scalar { v: SCALE }
    }

    /// Raw unit count.
    pub fn units(self) -> (r: i128)
        ensures
            r as int == self@,
    {
        self.v
    }

    pub fn eq_val(self, o: Scalar) -> (r: bool)
        ensures
            r == (self@ == o@),
    {
        self.v == o.v
    }

    pub fn lt(self, o: Scalar) -> (r: bool)
        ensures
            r == (self@ < o@),
    {
        self.v < o.v
    }

    pub fn le(self, o: Scalar) -> (r: bool)
        ensures
            r == (self@ <= o@),
    {
        self.v <= o.v
    }

    pub fn is_zero(self) -> (r: bool)
        ensures
            r == (self@ == 0),
    {
        self.v == 0
    }

    pub fn neg(self) -> (r: Scalar)
        requires
            self.wf(),
        ensures
            r@ == -self@,
            r.wf(),
    {
        Scalar { v: -self.v }
    }

    pub fn abs(self) -> (r: Scalar)
        requires
            self.wf(),
        ensures
            r@ == abs_units(self@),
            r.wf(),
    {
        if self.v < 0 {
            Scalar { v: -self.v }
        } else {
            self
        }
    }

    pub fn add(self, o: Scalar) -> (r: Scalar)
        requires
            self.wf(),
            o.wf(),
        ensures
            r@ == add_units(self@, o@),
            r.wf(),
    {
        Scalar::from_units(self.v + o.v)
    }

    pub fn sub(self, o: Scalar) -> (r: Scalar)
        requires
            self.wf(),
            o.wf(),
        ensures
            r@ == sub_units(self@, o@),
            r.wf(),
    {
        Scalar::from_units(self.v - o.v)
    }

    pub fn mul(self, o: Scalar) -> (r: Scalar)
        requires
            self.wf(),
            o.wf(),
        ensures
            r@ == mul_units(self@, o@),
            r.wf(),
    {
        if self.v == 0 || o.v == 0 {
            proof {
                assert(abs_units(self@) * abs_units(o@) == 0) by (nonlinear_arith)
                    requires abs_units(self@) == 0 || abs_units(o@) == 0;
                assert(sat(0int / (SCALE as int)) == 0);
            }
            return Scalar { v: 0 };
        }
        let ma: u128 = if self.v < 0 { (-self.v) as u128 } else { self.v as u128 };
        let mb: u128 = if o.v < 0 { (-o.v) as u128 } else { o.v as u128 };
        proof {
            assert(ma as int == abs_units(self@));
            assert(mb as int == abs_units(o@));
            assert(ma * mb <= (MAX_UNITS as int) * (MAX_UNITS as int)) by (nonlinear_arith)
                requires
                    0 <= ma as int <= MAX_UNITS as int,
                    0 <= mb as int <= MAX_UNITS as int;
        }
        let p: u128 = (ma * mb) / (SCALE as u128);
        let mag: i128 = if p > MAX_UNITS as u128 { MAX_UNITS } else { p as i128 };
        proof {
            assert(mag as int == sat((abs_units(self@) * abs_units(o@)) / (SCALE as int)));
        }
        let neg: bool = (self.v < 0) != (o.v < 0);
        if neg {
            Scalar { v: -mag }
        } else {
            Scalar { v: mag }
        }
    }

    pub fn div(self, o: Scalar) -> (r: Scalar)
        requires
            self.wf(),
            o.wf(),
        ensures
            r@ == div_units(self@, o@),
            r.wf(),
    {
        if o.v == 0 {
            if self.v > 0 {
                Scalar { v: MAX_UNITS }
            } else if self.v < 0 {
                Scalar { v: -MAX_UNITS }
            } else {
                Scalar { v: 0 }
            }
        } else if self.v == 0 {
            proof {
                assert(abs_units(self@) * (SCALE as int) == 0);
                assert(sat(0int / abs_units(o@)) == 0) by {
                    assert(0int / abs_units(o@) == 0) by (nonlinear_arith)
                        requires abs_units(o@) != 0;
                }
            }
            Scalar { v: 0 }
        } else {
            let ma: u128 = if self.v < 0 { (-self.v) as u128 } else { self.v as u128 };
            let mb: u128 = if o.v < 0 { (-o.v) as u128 } else { o.v as u128 };
            proof {
                assert(ma as int == abs_units(self@));
                assert(mb as int == abs_units(o@));
                assert(ma * (SCALE as u128) <= (MAX_UNITS as int) * (SCALE as int))
                    by (nonlinear_arith)
                    requires 0 <= ma as int <= MAX_UNITS as int;
            }
            let p: u128 = (ma * (SCALE as u128)) / mb;
            let mag: i128 = if p > MAX_UNITS as u128 { MAX_UNITS } else { p as i128 };
            proof {
                assert(mag as int == sat((abs_units(self@) * (SCALE as int)) / abs_units(o@)));
            }
            let neg: bool = (self.v < 0) != (o.v < 0);
            if neg {
                Scalar { v: -mag }
            } else {
                Scalar { v: mag }
            }
        }
    }

    pub fn min(self, o: Scalar) -> (r: Scalar)
        ensures
            r@ == min_units(self@, o@),
    {
        if self.v < o.v {
            self
        } else {
            o
        }
    }

    pub fn max(self, o: Scalar) -> (r: Scalar)
        ensures
            r@ == max_units(self@, o@),
    {
        if self.v > o.v {
            self
        } else {
            o
        }
    }

    /// Clip into `[lo, hi]`; callers keep `lo <= hi`.
    pub fn clamp(self, lo: Scalar, hi: Scalar) -> (r: Scalar)
        requires
            lo@ <= hi@,
        ensures
            r@ == clamp_units(self@, lo@, hi@),
    {
        if self.v < lo.v {
            lo
        } else if self.v > hi.v {
            hi
        } else {
            self
        }
    }

    /// Magnitude of `self` with the sign of `dir`: the `sign` transfer used
    /// throughout the stepping engine.  A zero `dir` counts as negative,
    /// matching a comparison of the form `dir > 0`.
    pub fn with_sign_of(self, dir: Scalar) -> (r: Scalar)
        requires
            self.wf(),
        ensures
            r@ == if dir@ > 0 { abs_units(self@) } else { -abs_units(self@) },
            r.wf(),
    {
        let a = self.abs();
        if dir.v > 0 {
            a
        } else {
            Scalar { v: -a.v }
        }
    }

    /// Square root at fixed scale, rounded down: for a non-negative scalar
    /// the result `r` satisfies `r@ * r@ <= self@ * SCALE < (r@ + 1)^2`.
    /// Negative inputs give zero.
    pub fn sqrt(self) -> (r: Scalar)
        requires
            self.wf(),
        ensures
            r@ == sqrt_units(self@),
            r@ >= 0,
            r.wf(),
            self@ >= 0 ==> r@ * r@ <= self@ * (SCALE as int),
            self@ >= 0 ==> self@ * (SCALE as int) < (r@ + 1) * (r@ + 1),
            self@ <= 0 ==> r@ == 0,
    {
        if self.v <= 0 {
            proof {
                assert(self@ >= 0 ==> self@ == 0);
            }
            return Scalar { v: 0 };
        }
        let n: u128 = (self.v as u128) * (SCALE as u128);
        proof {
            assert(n as int == self@ * (SCALE as int)) by (nonlinear_arith)
                requires
                    0 < self.v as int <= MAX_UNITS as int,
                    n as int == (self.v as u128) as int * (SCALE as u128) as int,
                    (self.v as u128) as int == self.v as int,
            ;
            assert(n as int <= (MAX_UNITS as int) * (SCALE as int)) by (nonlinear_arith)
                requires 0 < self.v as int <= MAX_UNITS as int,
                         n as int == self.v as int * (SCALE as int);
        }
        let mut lo: u128 = 0;
        let mut hi: u128 = 10_000_000_000_000_000;
        proof {
            assert((hi as int) * (hi as int) > n as int) by (nonlinear_arith)
                requires
                    hi as int == 10_000_000_000_000_000,
                    n as int <= (MAX_UNITS as int) * (SCALE as int);
        }
        while lo + 1 < hi
            invariant
                0 <= (lo as int),
                (lo as int) < (hi as int),
                (hi as int) <= 10_000_000_000_000_000,
                (lo as int) * (lo as int) <= n as int,
                (n as int) < (hi as int) * (hi as int),
            decreases hi as int - lo as int,
        {
            let mid: u128 = lo + (hi - lo) / 2;
            proof {
                assert((lo as int) < (mid as int));
                assert((mid as int) < (hi as int));
                assert(mid * mid <= (10_000_000_000_000_000u128 as int) * (
                10_000_000_000_000_000u128 as int)) by (nonlinear_arith)
                    requires 0 <= mid as int <= 10_000_000_000_000_000;
            }
            if mid * mid <= n {
                lo = mid;
            } else {
                hi = mid;
            }
        }
        proof {
            assert(lo as int <= 10_000_000_000_000_000 <= MAX_UNITS as int);
            assert(is_sqrt(self@, lo as int));
            lemma_sqrt_unique(self@, lo as int, sqrt_units(self@));
        }
        Scalar { v: lo as i128 }
    }
}

} // verus!
