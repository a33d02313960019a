//! Elementwise operations on state vectors.
//!
//! A state is a `Vec<Scalar>`; every operation here returns a fresh vector
//! whose entries are pinned elementwise by the exact unit-level arithmetic
//! of the scalar module.

use vstd::prelude::*;
use crate::scalar::{Scalar, abs_units, add_units, sub_units, mul_units, div_units, max_units};

verus! {

/// Unit counts of a state vector.
pub open spec fn vals(v: Seq<Scalar>) -> Seq<int> {
    Seq::new(v.len(), |i: int| v[i]@)
}

/// Every entry is a well-formed scalar.
pub open spec fn all_wf(v: Seq<Scalar>) -> bool {
    forall|i: int| 0 <= i < v.len() ==> (#[trigger] v[i]).wf()
}

/// Every entry is zero.
pub open spec fn all_zero(v: Seq<Scalar>) -> bool {
    forall|i: int| 0 <= i < v.len() ==> (#[trigger] v[i])@ == 0
}

/// Left fold of the saturating dot product over the first `n` entries.
pub open spec fn dot_units(a: Seq<Scalar>, b: Seq<Scalar>, n: nat) -> int
    decreases n,
{
    if n == 0 {
        0
    } else {
        add_units(dot_units(a, b, (n - 1) as nat), mul_units(a[n - 1]@, b[n - 1]@))
    }
}

/// Left fold of the sum of squared ratios `(e_i / sc_i)^2` over the first
/// `n` entries, with the saturating arithmetic of the scalar module.
pub open spec fn ratio_sq_units(e: Seq<Scalar>, sc: Seq<Scalar>, n: nat) -> int
    decreases n,
{
    if n == 0 {
        0
    } else {
        add_units(
            ratio_sq_units(e, sc, (n - 1) as nat),
            mul_units(div_units(e[n - 1]@, sc[n - 1]@), div_units(e[n - 1]@, sc[n - 1]@)),
        )
    }
}

/// The same fold over raw unit sequences, for stating results of the
/// scaled norm over model-level values.
pub open spec fn ratio_sq_int(e: Seq<int>, sc: Seq<int>, n: nat) -> int
    decreases n,
{
    if n == 0 {
        0
    } else {
        add_units(
            ratio_sq_int(e, sc, (n - 1) as nat),
            mul_units(div_units(e[n - 1], sc[n - 1]), div_units(e[n - 1], sc[n - 1])),
        )
    }
}

/// Pointwise-equal inputs give the same squared-ratio fold at the unit
/// level.
pub proof fn lemma_ratio_sq_pointwise(e: Seq<Scalar>, sc: Seq<Scalar>, ei: Seq<int>, si: Seq<int>, n: nat)
    requires
        n <= e.len(),
        n <= sc.len(),
        forall|i: int| 0 <= i < n ==> (#[trigger] e[i])@ == ei[i],
        forall|i: int| 0 <= i < n ==> (#[trigger] sc[i])@ == si[i],
    ensures
        ratio_sq_units(e, sc, n) == ratio_sq_int(ei, si, n),
    decreases n,
{
    if n > 0 {
        lemma_ratio_sq_pointwise(e, sc, ei, si, (n - 1) as nat);
    }
}

/// The dot product with an all-zero left factor vanishes.
pub proof fn lemma_dot_zero(a: Seq<Scalar>, b: Seq<Scalar>, n: nat)
    requires
        n <= a.len(),
        forall|i: int| 0 <= i < n ==> (#[trigger] a[i])@ == 0,
    ensures
        dot_units(a, b, n) == 0,
    decreases n,
{
    if n > 0 {
        lemma_dot_zero(a, b, (n - 1) as nat);
        crate::scalar::lemma_mul_units_zero(b[n - 1]@);
    }
}

/// The squared-ratio sum of an all-zero vector vanishes.
pub proof fn lemma_ratio_sq_zero(e: Seq<Scalar>, sc: Seq<Scalar>, n: nat)
    requires
        n <= e.len(),
        forall|i: int| 0 <= i < n ==> (#[trigger] e[i])@ == 0,
    ensures
        ratio_sq_units(e, sc, n) == 0,
    decreases n,
{
    if n > 0 {
        lemma_ratio_sq_zero(e, sc, (n - 1) as nat);
        crate::scalar::lemma_div_units_zero_num(sc[n - 1]@);
        crate::scalar::lemma_mul_units_zero(0);
    }
}

/// A vector of `n` zero scalars.
pub fn zeros(n: usize) -> (r: Vec<Scalar>)
    ensures
        r@.len() == n,
        all_wf(r@),
        all_zero(r@),
{
    let mut r: Vec<Scalar> = Vec::new();
    let mut i: usize = 0;
    while i < n
        invariant
            i <= n,
            r@.len() == i,
            all_wf(r@),
            all_zero(r@),
        decreases n - i,
    {
        r.push(Scalar::zero());
        i = i + 1;
    }
    r
}

/// A copy of `v`.
pub fn copy_of(v: &Vec<Scalar>) -> (r: Vec<Scalar>)
    ensures
        r@.len() == v@.len(),
        forall|i: int| 0 <= i < v@.len() ==> (#[trigger] r@[i])@ == v@[i]@,
{
    let mut r: Vec<Scalar> = Vec::new();
    let mut i: usize = 0;
    while i < v.len()
        invariant
            i <= v@.len(),
            r@.len() == i,
            forall|j: int| 0 <= j < i ==> (#[trigger] r@[j])@ == v@[j]@,
        decreases v@.len() - i,
    {
        r.push(v[i]);
        i = i + 1;
    }
    r
}

/// Elementwise `a + c * x`.
pub fn add_scaled(a: &Vec<Scalar>, c: Scalar, x: &Vec<Scalar>) -> (r: Vec<Scalar>)
    requires
        a@.len() == x@.len(),
        all_wf(a@),
        all_wf(x@),
        c.wf(),
    ensures
        r@.len() == a@.len(),
        all_wf(r@),
        forall|i: int| 0 <= i < a@.len() ==> (#[trigger] r@[i])@ == add_units(
            a@[i]@,
            mul_units(c@, x@[i]@),
        ),
{
    let mut r: Vec<Scalar> = Vec::new();
    let mut i: usize = 0;
    while i < a.len()
        invariant
            i <= a@.len(),
            a@.len() == x@.len(),
            all_wf(a@),
            all_wf(x@),
            c.wf(),
            r@.len() == i,
            all_wf(r@),
            forall|j: int| 0 <= j < i ==> (#[trigger] r@[j])@ == add_units(
                a@[j]@,
                mul_units(c@, x@[j]@),
            ),
        decreases a@.len() - i,
    {
        r.push(a[i].add(c.mul(x[i])));
        i = i + 1;
    }
    r
}

/// Elementwise `c * v`.
pub fn scale(v: &Vec<Scalar>, c: Scalar) -> (r: Vec<Scalar>)
    requires
        all_wf(v@),
        c.wf(),
    ensures
        r@.len() == v@.len(),
        all_wf(r@),
        forall|i: int| 0 <= i < v@.len() ==> (#[trigger] r@[i])@ == mul_units(c@, v@[i]@),
{
    let mut r: Vec<Scalar> = Vec::new();
    let mut i: usize = 0;
    while i < v.len()
        invariant
            i <= v@.len(),
            all_wf(v@),
            c.wf(),
            r@.len() == i,
            all_wf(r@),
            forall|j: int| 0 <= j < i ==> (#[trigger] r@[j])@ == mul_units(c@, v@[j]@),
        decreases v@.len() - i,
    {
        r.push(c.mul(v[i]));
        i = i + 1;
    }
    r
}

/// Elementwise `a - b`.
pub fn sub_vec(a: &Vec<Scalar>, b: &Vec<Scalar>) -> (r: Vec<Scalar>)
    requires
        a@.len() == b@.len(),
        all_wf(a@),
        all_wf(b@),
    ensures
        r@.len() == a@.len(),
        all_wf(r@),
        forall|i: int| 0 <= i < a@.len() ==> (#[trigger] r@[i])@ == sub_units(a@[i]@, b@[i]@),
{
    let mut r: Vec<Scalar> = Vec::new();
    let mut i: usize = 0;
    while i < a.len()
        invariant
            i <= a@.len(),
            a@.len() == b@.len(),
            all_wf(a@),
            all_wf(b@),
            r@.len() == i,
            all_wf(r@),
            forall|j: int| 0 <= j < i ==> (#[trigger] r@[j])@ == sub_units(a@[j]@, b@[j]@),
        decreases a@.len() - i,
    {
        r.push(a[i].sub(b[i]));
        i = i + 1;
    }
    r
}

/// Saturating dot product.
pub fn dot(a: &Vec<Scalar>, b: &Vec<Scalar>) -> (r: Scalar)
    requires
        a@.len() == b@.len(),
        all_wf(a@),
        all_wf(b@),
    ensures
        r@ == dot_units(a@, b@, a@.len() as nat),
        r.wf(),
{
    let mut acc = Scalar::zero();
    let mut i: usize = 0;
    while i < a.len()
        invariant
            i <= a@.len(),
            a@.len() == b@.len(),
            all_wf(a@),
            all_wf(b@),
            acc.wf(),
            acc@ == dot_units(a@, b@, i as nat),
        decreases a@.len() - i,
    {
        acc = acc.add(a[i].mul(b[i]));
        i = i + 1;
    }
    acc
}

/// Tolerance scale `sc_i = atol + |y_i| * rtol`.
pub fn tol_scale(atol: Scalar, rtol: Scalar, y: &Vec<Scalar>) -> (r: Vec<Scalar>)
    requires
        atol.wf(),
        rtol.wf(),
        all_wf(y@),
    ensures
        r@.len() == y@.len(),
        all_wf(r@),
        forall|i: int| 0 <= i < y@.len() ==> (#[trigger] r@[i])@ == add_units(
            atol@,
            mul_units(abs_units(y@[i]@), rtol@),
        ),
{
    let mut r: Vec<Scalar> = Vec::new();
    let mut i: usize = 0;
    while i < y.len()
        invariant
            i <= y@.len(),
            atol.wf(),
            rtol.wf(),
            all_wf(y@),
            r@.len() == i,
            all_wf(r@),
            forall|j: int| 0 <= j < i ==> (#[trigger] r@[j])@ == add_units(
                atol@,
                mul_units(abs_units(y@[j]@), rtol@),
            ),
        decreases y@.len() - i,
    {
        r.push(atol.add(y[i].abs().mul(rtol)));
        i = i + 1;
    }
    r
}

/// Tolerance scale `sc_i = atol + max(|a_i|, |b_i|) * rtol`.
pub fn tol_scale_pair(atol: Scalar, rtol: Scalar, a: &Vec<Scalar>, b: &Vec<Scalar>) -> (r: Vec<
    Scalar,
>)
    requires
        atol.wf(),
        rtol.wf(),
        a@.len() == b@.len(),
        all_wf(a@),
        all_wf(b@),
    ensures
        r@.len() == a@.len(),
        all_wf(r@),
        forall|i: int| 0 <= i < a@.len() ==> (#[trigger] r@[i])@ == add_units(
            atol@,
            mul_units(max_units(abs_units(a@[i]@), abs_units(b@[i]@)), rtol@),
        ),
{
    let mut r: Vec<Scalar> = Vec::new();
    let mut i: usize = 0;
    while i < a.len()
        invariant
            i <= a@.len(),
            a@.len() == b@.len(),
            atol.wf(),
            rtol.wf(),
            all_wf(a@),
            all_wf(b@),
            r@.len() == i,
            all_wf(r@),
            forall|j: int| 0 <= j < i ==> (#[trigger] r@[j])@ == add_units(
                atol@,
                mul_units(max_units(abs_units(a@[j]@), abs_units(b@[j]@)), rtol@),
            ),
        decreases a@.len() - i,
    {
        r.push(atol.add(a[i].abs().max(b[i].abs()).mul(rtol)));
        i = i + 1;
    }
    r
}

/// Saturating sum of the squared ratios `(e_i / sc_i)^2`.
pub fn ratio_sq_sum(e: &Vec<Scalar>, sc: &Vec<Scalar>) -> (r: Scalar)
    requires
        e@.len() == sc@.len(),
        all_wf(e@),
        all_wf(sc@),
    ensures
        r@ == ratio_sq_units(e@, sc@, e@.len() as nat),
        r.wf(),
{
    let mut acc = Scalar::zero();
    let mut i: usize = 0;
    while i < e.len()
        invariant
            i <= e@.len(),
            e@.len() == sc@.len(),
            all_wf(e@),
            all_wf(sc@),
            acc.wf(),
            acc@ == ratio_sq_units(e@, sc@, i as nat),
        decreases e@.len() - i,
    {
        let q = e[i].div(sc[i]);
        acc = acc.add(q.mul(q));
        i = i + 1;
    }
    acc
}

} // verus!
