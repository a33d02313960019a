//! Fixed-point powers with rational exponents.
//!
//! The step-size controller raises the scaled error norm to small rational
//! powers.  An exponent `p / q` is evaluated root-first: take the `q`-th
//! root of the base (characterised exactly as the largest scalar whose
//! `q`-th fixed-point power does not exceed the base), then raise the root
//! to the integer power `p`.

use vstd::prelude::*;
use crate::scalar::{Scalar, SCALE, MAX_UNITS, mul_units, sat, abs_units};
use crate::scalar::{lemma_mul_units_nonneg, lemma_mul_units_mono};

verus! {

/// Roots are searched for below this unit count (the value 4); every base
/// up to the saturation bound has its root below it for the exponents the
/// controller uses.
pub const ROOT_CAP: i128 = 4_000_000_000_000;

/// Iterated fixed-point product: `fpow(x, 0)` is one, and each further
/// step multiplies by `x` with the rounding and saturation of `mul_units`.
pub open spec fn fpow(x: int, n: nat) -> int
    decreases n,
{
    if n == 0 {
        SCALE as int
    } else {
        mul_units(x, fpow(x, (n - 1) as nat))
    }
}

pub proof fn lemma_fpow_in_range(x: int, n: nat)
    requires
        0 <= x,
    ensures
        0 <= fpow(x, n) <= MAX_UNITS as int,
    decreases n,
{
    if n == 0 {
    } else {
        lemma_fpow_in_range(x, (n - 1) as nat);
        lemma_mul_units_nonneg(x, fpow(x, (n - 1) as nat));
    }
}

/// The fixed-point power is monotone in its base.
pub proof fn lemma_fpow_mono(x1: int, x2: int, n: nat)
    requires
        0 <= x1 <= x2,
    ensures
        fpow(x1, n) <= fpow(x2, n),
    decreases n,
{
    if n == 0 {
    } else {
        lemma_fpow_mono(x1, x2, (n - 1) as nat);
        lemma_fpow_in_range(x1, (n - 1) as nat);
        lemma_fpow_in_range(x2, (n - 1) as nat);
        lemma_mul_units_mono(x1, fpow(x1, (n - 1) as nat), x2, fpow(x2, (n - 1) as nat));
    }
}

/// A power of zero is zero once the exponent is positive.
pub proof fn lemma_fpow_zero(n: nat)
    requires
        n >= 1,
    ensures
        fpow(0, n) == 0,
{
    let b = fpow(0, (n - 1) as nat);
    assert(abs_units(0) * abs_units(b) == 0) by (nonlinear_arith);
    assert(0int / (SCALE as int) == 0) by (nonlinear_arith);
    assert(sat(0) == 0);
    assert(mul_units(0, b) == 0);
}

/// `r` is the `q`-th root of `x`: the largest unit count below the search
/// cap whose `q`-th power stays within `x`.
pub open spec fn is_root(x: int, q: nat, r: int) -> bool {
    &&& 0 <= r <= ROOT_CAP as int
    &&& fpow(r, q) <= x
    &&& (r == ROOT_CAP as int || fpow(r + 1, q) > x)
}

pub open spec fn root_units(x: int, q: nat) -> int {
    choose|r: int| is_root(x, q, r)
}

proof fn lemma_root_exists_from(x: int, q: nat, k: int)
    requires
        q >= 1,
        0 <= k <= ROOT_CAP as int,
        fpow(k, q) <= x,
    ensures
        exists|r: int| is_root(x, q, r),
    decreases ROOT_CAP as int - k,
{
    if k == ROOT_CAP as int {
        assert(is_root(x, q, k));
    } else if fpow(k + 1, q) > x {
        assert(is_root(x, q, k));
    } else {
        lemma_root_exists_from(x, q, k + 1);
    }
}

pub proof fn lemma_root_exists(x: int, q: nat)
    requires
        q >= 1,
        0 <= x,
    ensures
        is_root(x, q, root_units(x, q)),
{
    lemma_fpow_zero(q);
    lemma_root_exists_from(x, q, 0);
    let w = choose|r: int| is_root(x, q, r);
    assert(is_root(x, q, w));
}

pub proof fn lemma_root_unique(x: int, q: nat, r1: int, r2: int)
    requires
        is_root(x, q, r1),
        is_root(x, q, r2),
    ensures
        r1 == r2,
{
    if r1 < r2 {
        lemma_fpow_mono(r1 + 1, r2, q);
        assert(false);
    } else if r2 < r1 {
        lemma_fpow_mono(r2 + 1, r1, q);
        assert(false);
    }
}

/// The root is monotone in its argument.
pub proof fn lemma_root_mono(x1: int, x2: int, q: nat)
    requires
        q >= 1,
        0 <= x1 <= x2,
    ensures
        root_units(x1, q) <= root_units(x2, q),
{
    lemma_root_exists(x1, q);
    lemma_root_exists(x2, q);
    let r1 = root_units(x1, q);
    let r2 = root_units(x2, q);
    if r2 < r1 {
        lemma_fpow_mono(r2 + 1, r1, q);
        assert(false);
    }
}

/// Raise a non-negative scalar to an integer power under fixed-point
/// rounding.
pub fn pow_int(x: Scalar, n: u32) -> (r: Scalar)
    requires
        x.wf(),
        x@ >= 0,
    ensures
        r@ == fpow(x@, n as nat),
        r.wf(),
        r@ >= 0,
    {
    let mut acc = Scalar::one();
    let mut i: u32 = 0;
    proof {
        lemma_fpow_in_range(x@, 0);
    }
    while i < n
        invariant
            0 <= i <= n,
            x.wf(),
            x@ >= 0,
            acc.wf(),
            acc@ == fpow(x@, i as nat),
            acc@ >= 0,
        decreases n - i,
    {
        proof {
            lemma_fpow_in_range(x@, (i + 1) as nat);
            lemma_mul_units_nonneg(x@, acc@);
        }
        acc = x.mul(acc);
        i = i + 1;
    }
    acc
}

/// The `q`-th fixed-point root of a non-negative scalar, by binary search
/// on the exact characterisation `is_root`.
pub fn nth_root(x: Scalar, q: u32) -> (r: Scalar)
    requires
        x.wf(),
        x@ >= 0,
        q >= 1,
    ensures
        r@ == root_units(x@, q as nat),
        is_root(x@, q as nat, r@),
        r.wf(),
        r@ >= 0,
    {
    proof {
        lemma_fpow_zero(q as nat);
    }
    let mut lo: i128 = 0;
    let mut hi: i128 = ROOT_CAP + 1;
    while lo + 1 < hi
        invariant
            x.wf(),
            x@ >= 0,
            q >= 1,
            0 <= lo,
            lo < hi,
            hi <= ROOT_CAP as int + 1,
            fpow(lo as int, q as nat) <= x@,
            hi <= ROOT_CAP as int ==> fpow(hi as int, q as nat) > x@,
        decreases hi - lo,
    {
        let mid: i128 = lo + (hi - lo) / 2;
        let p = pow_int(Scalar::from_units(mid), q);
        if p.le(x) {
            lo = mid;
        } else {
            hi = mid;
        }
    }
    proof {
        assert(is_root(x@, q as nat, lo as int));
        lemma_root_exists(x@, q as nat);
        lemma_root_unique(x@, q as nat, lo as int, root_units(x@, q as nat));
    }
    Scalar::from_units(lo)
}

/// Unit count of `x` raised to `p / q`, root first.
pub open spec fn rpow_units(x: int, p: nat, q: nat) -> int {
    fpow(root_units(x, q), p)
}

/// Raise a non-negative scalar to the rational power `p / q`.
pub fn rpow(x: Scalar, p: u32, q: u32) -> (r: Scalar)
    requires
        x.wf(),
        x@ >= 0,
        q >= 1,
    ensures
        r@ == rpow_units(x@, p as nat, q as nat),
        r.wf(),
        r@ >= 0,
    {
    let root = nth_root(x, q);
    pow_int(root, p)
}

/// Raising to a rational power is monotone in the base.
pub proof fn lemma_rpow_mono(x1: int, x2: int, p: nat, q: nat)
    requires
        q >= 1,
        0 <= x1 <= x2,
    ensures
        rpow_units(x1, p, q) <= rpow_units(x2, p, q),
{
    lemma_root_mono(x1, x2, q);
    lemma_root_exists(x1, q);
    lemma_fpow_mono(root_units(x1, q), root_units(x2, q), p);
}

/// Rational powers stay within the scalar range.
pub proof fn lemma_rpow_in_range(x: int, p: nat, q: nat)
    requires
        q >= 1,
        0 <= x,
    ensures
        0 <= rpow_units(x, p, q) <= MAX_UNITS as int,
{
    lemma_root_exists(x, q);
    lemma_fpow_in_range(root_units(x, q), p);
}

} // verus!
