//! Explicit Runge-Kutta stepping engine with the Dormand-Prince 5(4)
//! pair: adaptive step-size control, dense output of order 4 and
//! stiffness detection.
//!
//! The engine owns the integration state, drives the six working stage
//! evaluations per step (the first stage of a step reuses the last
//! evaluation of the previous accepted step), forms the embedded error
//! estimate, consults the PI controller, keeps the dense-output rows up
//! to date and records the trajectory.

use vstd::prelude::*;
use vstd::pervasive::VecAdditionalExecFns;
use crate::scalar::{
    Scalar, SCALE, MAX_UNITS, sat, abs_units, add_units, sub_units, mul_units, div_units,
    min_units, max_units, sqrt_units, lemma_mul_units_amplify, lemma_mul_units_nonneg,
    lemma_mul_units_zero, lemma_div_units_zero_num,
};
use crate::vector::{
    all_wf, all_zero, zeros, copy_of, add_scaled, scale, sub_vec, dot, tol_scale, tol_scale_pair,
    ratio_sq_sum, ratio_sq_int, lemma_ratio_sq_zero, lemma_ratio_sq_pointwise,
    lemma_dot_zero, vals,
};
use crate::tableau::{Dopri54, a_units, c_units, e_units, d_units};
use crate::controller::{Controller, exp_num_units};
use crate::dop_shared::{System, Stats, OutputType, IntegrationError, zero_field};
use crate::power::rpow_units;

verus! {

/// The dense-output reporting grid: `k` saturating increments of `dx`
/// from `start`.
pub open spec fn grid_units(start: int, dx: int, k: nat) -> int
    decreases k,
{
    if k == 0 {
        start
    } else {
        add_units(grid_units(start, dx, (k - 1) as nat), dx)
    }
}

/// Walking the grid is associative: `a + b` increments from `start`
/// reach the same point as `b` increments from the `a`-th grid point.
pub proof fn lemma_grid_compose(start: int, dx: int, a: nat, b: nat)
    ensures
        grid_units(start, dx, a + b) == grid_units(grid_units(start, dx, a), dx, b),
    decreases b,
{
    if b > 0 {
        lemma_grid_compose(start, dx, a, (b - 1) as nat);
    }
}

/// State fed to stage `s + 1` of a trial step from `(x, y)` with step
/// `h`, after the first `m` weighted stage derivatives of tableau row
/// `s + 1` have been added (`m <= s`).  `k0` is the reused first-stage
/// derivative.
#[verifier::opaque]
pub open spec fn stage_state_partial<F: System>(
    f: F,
    x: int,
    h: int,
    y: Seq<Scalar>,
    k0: Vec<Scalar>,
    s: nat,
    m: nat,
) -> Seq<int>
    decreases s, m,
{
    if m == 0 || m > s {
        vals(y)
    } else {
        let prev = stage_state_partial(f, x, h, y, k0, s, (m - 1) as nat);
        let kj = stage_deriv(f, x, h, y, k0, (m - 1) as nat);
        Seq::new(
            y.len(),
            |i: int| add_units(
                prev[i],
                mul_units(mul_units(h, a_units(s as int + 1, m as int)), kj[i]),
            ),
        )
    }
}

/// Derivative of stage `j + 1` of one trial step from `(x, y)` with
/// step `h`: the reused first-stage slot `k0` for `j == 0`, else the
/// right-hand side at the stage's node and state.
#[verifier::opaque]
pub open spec fn stage_deriv<F: System>(
    f: F,
    x: int,
    h: int,
    y: Seq<Scalar>,
    k0: Vec<Scalar>,
    j: nat,
) -> Seq<int>
    decreases j, 7nat,
{
    if j == 0 || j >= 7 {
        vals(k0@)
    } else {
        let ys = stage_state_partial(f, x, h, y, k0, j, j);
        Seq::new(
            y.len(),
            |i: int| f.deriv(add_units(x, mul_units(h, c_units(j as int + 1))), ys)[i],
        )
    }
}

/// The automatic initial step estimate: scaled norms of the state and
/// its derivative pick a trial step `h0`, an explicit Euler probe
/// refines it through a curvature estimate and a fifth root, and the
/// result is capped at `100 |h0|` and `h_max` and signed with the
/// direction.
#[verifier::opaque]
pub open spec fn hinit_units<F: System>(
    f: F,
    x: int,
    posneg: int,
    h_max: int,
    y: Seq<Scalar>,
    rtol: int,
    atol: int,
) -> int {
    let n = y.len();
    let ys = vals(y);
    let f0 = Seq::new(n, |i: int| f.deriv(x, ys)[i]);
    let sc = Seq::new(n, |i: int| add_units(atol, mul_units(abs_units(ys[i]), rtol)));
    let d0 = ratio_sq_int(ys, sc, n);
    let d1 = ratio_sq_int(f0, sc, n);
    let h0a = if d0 < 100 || d1 < 100 {
        1_000_000int
    } else {
        mul_units(10_000_000_000, sqrt_units(div_units(d0, d1)))
    };
    let h0b = min_units(h0a, h_max);
    let h0 = if posneg > 0 {
        abs_units(h0b)
    } else {
        -abs_units(h0b)
    };
    let y1 = Seq::new(n, |i: int| add_units(ys[i], mul_units(h0, f0[i])));
    let f1 = Seq::new(n, |i: int| f.deriv(add_units(x, h0), y1)[i]);
    let df = Seq::new(n, |i: int| sub_units(f1[i], f0[i]));
    let d2 = div_units(sqrt_units(ratio_sq_int(df, sc, n)), h0);
    let d1rt = sqrt_units(d1);
    let dmax = max_units(d1rt, abs_units(d2));
    let h1 = if dmax == 0 {
        max_units(1_000_000, mul_units(abs_units(h0), 1_000_000_000))
    } else {
        rpow_units(max_units(div_units(10_000_000_000, max_units(d1rt, d2)), 0), 1, 5)
    };
    let m = min_units(mul_units(sat(100 * (SCALE as int)), abs_units(h0)), min_units(h1, h_max));
    if posneg > 0 {
        abs_units(m)
    } else {
        -abs_units(m)
    }
}

/// Entry `j` of every stage vector is zero.
pub open spec fn stages_zero(k: Seq<Vec<Scalar>>, dim: nat) -> bool {
    forall|i: int, j: int| 0 <= i < k.len() && 0 <= j < dim ==> (#[trigger] k[i]@[j])@ == 0
}

/// Component `i` of the error-weighted stage combination, in the
/// engine's accumulation order (the reused slot 1 carries the
/// seventh stage).
pub open spec fn err_comb_at(k: Seq<Vec<Scalar>>, i: int) -> int {
    add_units(
        add_units(
            add_units(
                add_units(
                    add_units(
                        add_units(0, mul_units(e_units(1), k[0]@[i]@)),
                        mul_units(e_units(3), k[2]@[i]@),
                    ),
                    mul_units(e_units(4), k[3]@[i]@),
                ),
                mul_units(e_units(5), k[4]@[i]@),
            ),
            mul_units(e_units(6), k[5]@[i]@),
        ),
        mul_units(e_units(7), k[1]@[i]@),
    )
}

/// Component `i` of the dense-output weighted stage combination.
pub open spec fn dense_comb_at(k: Seq<Vec<Scalar>>, i: int) -> int {
    add_units(
        add_units(
            add_units(
                add_units(
                    add_units(
                        add_units(0, mul_units(d_units(1), k[0]@[i]@)),
                        mul_units(d_units(3), k[2]@[i]@),
                    ),
                    mul_units(d_units(4), k[3]@[i]@),
                ),
                mul_units(d_units(5), k[4]@[i]@),
            ),
            mul_units(d_units(6), k[5]@[i]@),
        ),
        mul_units(d_units(7), k[1]@[i]@),
    )
}

/// Tolerance scale for the error test: `atol + max(|y_i|, |y1_i|) * rtol`.
pub open spec fn err_sc_at(
    y: Seq<Scalar>,
    y_next: Seq<Scalar>,
    atol: int,
    rtol: int,
    i: int,
) -> int {
    add_units(atol, mul_units(max_units(abs_units(y[i]@), abs_units(y_next[i]@)), rtol))
}

/// The scaled RMS norm of the embedded error estimate: the rounded
/// square root of the mean squared ratio of `h * sum e_i k_i` to the
/// elementwise tolerance.
#[verifier::opaque]
pub open spec fn err_norm_units(
    k: Seq<Vec<Scalar>>,
    y: Seq<Scalar>,
    y_next: Seq<Scalar>,
    h: int,
    atol: int,
    rtol: int,
    dim: nat,
) -> int {
    sqrt_units(
        div_units(
            ratio_sq_int(
                Seq::new(dim, |i: int| mul_units(h, err_comb_at(k, i))),
                Seq::new(dim, |i: int| err_sc_at(y, y_next, atol, rtol, i)),
                dim,
            ),
            sat(dim as int * (SCALE as int)),
        ),
    )
}

/// Forward difference of the accepted step at component `j`.
pub open spec fn ydiff_at(y: Seq<Scalar>, y_next: Seq<Scalar>, j: int) -> int {
    sub_units(y_next[j]@, y[j]@)
}

/// First correction row of the interpolant at component `j`:
/// `h * k_first - ydiff`.
pub open spec fn bspl_at(
    y: Seq<Scalar>,
    y_next: Seq<Scalar>,
    k: Seq<Vec<Scalar>>,
    h: int,
    j: int,
) -> int {
    sub_units(mul_units(h, k[0]@[j]@), ydiff_at(y, y_next, j))
}

/// Second correction row at component `j`:
/// `(ydiff - h * k_last) - bspl`.
pub open spec fn corr_at(
    y: Seq<Scalar>,
    y_next: Seq<Scalar>,
    k: Seq<Vec<Scalar>>,
    h: int,
    j: int,
) -> int {
    sub_units(
        sub_units(ydiff_at(y, y_next, j), mul_units(h, k[1]@[j]@)),
        bspl_at(y, y_next, k, h, j),
    )
}


/// Component `j` of the degree-4 dense-output interpolant at position
/// `theta`, in the engine's Horner order with `theta1 = 1 - theta`.
#[verifier::opaque]
pub open spec fn interp_units(
    r0: Seq<Scalar>,
    r1: Seq<Scalar>,
    r2: Seq<Scalar>,
    r3: Seq<Scalar>,
    r4: Seq<Scalar>,
    theta: int,
    j: int,
) -> int {
    let theta1 = sub_units(SCALE as int, theta);
    let u1 = add_units(r3[j]@, mul_units(theta1, r4[j]@));
    let u2 = add_units(r2[j]@, mul_units(theta, u1));
    let u3 = add_units(r1[j]@, mul_units(theta1, u2));
    add_units(r0[j]@, mul_units(theta, u3))
}

/// Normalised position of the grid target `g` within the last accepted
/// step.
pub open spec fn theta_units(g: int, x_old: int, h_old: int) -> int {
    div_units(sub_units(g, x_old), h_old)
}

/// No further grid target can be served: the next target lies beyond
/// the current point, or before the last step's window, or the
/// increment cannot advance it in the direction sign.
pub open spec fn dense_spent(xd: int, dx: int, x: int, x_old: int, posneg: int) -> bool {
    ||| abs_units(xd) > abs_units(x)
    ||| abs_units(x_old) > abs_units(xd)
    ||| (if posneg > 0 {
        add_units(xd, dx) <= xd
    } else {
        add_units(xd, dx) >= xd
    })
}

/// Once a saturating increment fails to advance, it keeps failing.
proof fn lemma_saturating_stall(a: int, dx: int)
    requires
        -(MAX_UNITS as int) <= a <= MAX_UNITS as int,
    ensures
        add_units(a, dx) <= a ==> add_units(add_units(a, dx), dx) <= add_units(a, dx),
        add_units(a, dx) >= a ==> add_units(add_units(a, dx), dx) >= add_units(a, dx),
{
}

/// If the clamp test `(x + 1.01 h - x_end) * sign` found no overshoot in
/// the positive direction, then a full step of `h` stays within `x_end`.
proof fn lemma_no_overshoot_pos(x: int, h: int, x_end: int)
    requires
        -(MAX_UNITS as int) <= x <= MAX_UNITS as int,
        -(MAX_UNITS as int) <= x_end <= MAX_UNITS as int,
        0 <= h <= MAX_UNITS as int,
        x <= x_end,
        sub_units(add_units(x, mul_units(h, 1_010_000_000_000)), x_end) <= 0,
    ensures
        add_units(x, h) <= x_end,
{
    lemma_mul_units_amplify(h, 1_010_000_000_000);
    let t1 = mul_units(h, 1_010_000_000_000);
    let t2 = add_units(x, t1);
    assert(t2 <= x_end);
}

/// Mirror of `lemma_no_overshoot_pos` for the negative direction.
proof fn lemma_no_overshoot_neg(x: int, h: int, x_end: int)
    requires
        -(MAX_UNITS as int) <= x <= MAX_UNITS as int,
        -(MAX_UNITS as int) <= x_end <= MAX_UNITS as int,
        -(MAX_UNITS as int) <= h <= 0,
        x >= x_end,
        sub_units(add_units(x, mul_units(h, 1_010_000_000_000)), x_end) >= 0,
    ensures
        add_units(x, h) >= x_end,
{
    lemma_mul_units_amplify(-h, 1_010_000_000_000);
    assert(mul_units(h, 1_010_000_000_000) == -mul_units(-h, 1_010_000_000_000)) by {
        if h == 0 {
            lemma_mul_units_zero(1_010_000_000_000);
        } else {
            assert(abs_units(h) == -h);
            assert(abs_units(-h) == -h);
        }
    }
    let t1 = mul_units(h, 1_010_000_000_000);
    let t2 = add_units(x, t1);
    assert(t2 >= x_end);
}

/// Stepping engine for the order 5(4) Dormand-Prince method.
pub struct Dopri5<F: System> {
    f: F,
    x: Scalar,
    x_old: Scalar,
    x_end: Scalar,
    xd: Scalar,
    dx: Scalar,
    y: Vec<Scalar>,
    rtol: Scalar,
    atol: Scalar,
    x_out: Vec<Scalar>,
    y_out: Vec<Vec<Scalar>>,
    uround: Scalar,
    h: Scalar,
    h_old: Scalar,
    n_max: u32,
    n_stiff: u32,
    coeffs: Dopri54,
    controller: Controller,
    out_type: OutputType,
    rcont0: Vec<Scalar>,
    rcont1: Vec<Scalar>,
    rcont2: Vec<Scalar>,
    rcont3: Vec<Scalar>,
    rcont4: Vec<Scalar>,
    stats: Stats,
    solout_enabled: bool,
}

impl<F: System> Dopri5<F> {
    pub closed spec fn spec_x(self) -> int {
        self.x@
    }

    pub closed spec fn spec_x_end(self) -> int {
        self.x_end@
    }

    pub closed spec fn spec_xd(self) -> int {
        self.xd@
    }

    pub closed spec fn spec_dx(self) -> int {
        self.dx@
    }

    pub closed spec fn spec_y(self) -> Seq<Scalar> {
        self.y@
    }

    pub closed spec fn spec_dim(self) -> nat {
        self.y@.len()
    }

    pub closed spec fn spec_h(self) -> int {
        self.h@
    }

    pub closed spec fn spec_stats(self) -> Stats {
        self.stats
    }

    pub closed spec fn spec_out_type(self) -> OutputType {
        self.out_type
    }

    pub closed spec fn spec_x_out(self) -> Seq<Scalar> {
        self.x_out@
    }

    pub closed spec fn spec_y_out(self) -> Seq<Vec<Scalar>> {
        self.y_out@
    }

    pub closed spec fn spec_posneg(self) -> int {
        self.controller.spec_posneg()
    }

    pub closed spec fn spec_solout_enabled(self) -> bool {
        self.solout_enabled
    }

    pub closed spec fn spec_f(self) -> F {
        self.f
    }

    pub closed spec fn spec_n_max(self) -> u32 {
        self.n_max
    }

    pub closed spec fn spec_h_old(self) -> int {
        self.h_old@
    }

    pub closed spec fn spec_uround(self) -> int {
        self.uround@
    }

    pub closed spec fn spec_x_old(self) -> int {
        self.x_old@
    }

    pub closed spec fn spec_n_stiff(self) -> u32 {
        self.n_stiff
    }

    pub closed spec fn spec_rtol(self) -> int {
        self.rtol@
    }

    pub closed spec fn spec_atol(self) -> int {
        self.atol@
    }

    pub closed spec fn spec_controller(self) -> Controller {
        self.controller
    }

    /// Row `r` of the dense-output coefficient matrix.
    pub closed spec fn spec_rcont(self, r: int) -> Seq<Scalar> {
        if r == 0 {
            self.rcont0@
        } else if r == 1 {
            self.rcont1@
        } else if r == 2 {
            self.rcont2@
        } else if r == 3 {
            self.rcont3@
        } else {
            self.rcont4@
        }
    }

    /// Direction consistency: `x` has not passed `x_end` in the
    /// direction sign, and the current step size carries that sign (or
    /// is zero, which only stands before automatic initialisation or a
    /// terminal underflow).
    pub closed spec fn dir_ok(self) -> bool {
        &&& (self.controller.spec_posneg() > 0 ==> self.x@ <= self.x_end@ && self.h@ >= 0)
        &&& (self.controller.spec_posneg() < 0 ==> self.x@ >= self.x_end@ && self.h@ <= 0)
    }

    /// Structural well-formedness: every scalar in range, every buffer of
    /// the state dimension, the controller sane, the two output sequences
    /// parallel.
    pub closed spec fn wf(self) -> bool {
        &&& self.x.wf() && self.x_old.wf() && self.x_end.wf() && self.xd.wf() && self.dx.wf()
        &&& self.rtol.wf() && self.atol.wf() && self.uround.wf() && self.h.wf()
            && self.h_old.wf()
        &&& self.rtol@ > 0 && self.atol@ > 0 && self.uround@ >= 0
        &&& all_wf(self.y@)
        &&& self.controller.wf()
        &&& self.n_stiff >= 1
        &&& self.rcont0@.len() == self.y@.len() && all_wf(self.rcont0@)
        &&& self.rcont1@.len() == self.y@.len() && all_wf(self.rcont1@)
        &&& self.rcont2@.len() == self.y@.len() && all_wf(self.rcont2@)
        &&& self.rcont3@.len() == self.y@.len() && all_wf(self.rcont3@)
        &&& self.rcont4@.len() == self.y@.len() && all_wf(self.rcont4@)
        &&& all_wf(self.x_out@)
        &&& self.x_out@.len() == self.y_out@.len()
        &&& forall|i: int| 0 <= i < self.y_out@.len() ==> (#[trigger] self.y_out@[i])@.len()
            == self.y@.len() && all_wf(self.y_out@[i]@)
        &&& self.dir_ok()
    }

    /// Law: in every well-formed engine state the step size carries the
    /// direction sign (or is zero before initialisation or at terminal
    /// underflow), and the independent variable has not passed `x_end`
    /// in that direction.  Constructors establish well-formedness and
    /// `integrate` preserves it, so this holds before every stage
    /// evaluation.
    pub proof fn lemma_direction_invariant(self)
        requires
            self.wf(),
        ensures
            self.spec_posneg() > 0 ==> self.spec_h() >= 0 && self.spec_x() <= self.spec_x_end(),
            self.spec_posneg() < 0 ==> self.spec_h() <= 0 && self.spec_x() >= self.spec_x_end(),
            self.spec_posneg() == SCALE as int || self.spec_posneg() == -(SCALE as int),
    {
        self.controller.lemma_wf_facts();
    }

    /// Room in the counters for one more run, so that the statistics
    /// never wrap.
    pub closed spec fn stats_headroom(self) -> bool {
        &&& self.stats.num_eval + 7 * (self.n_max as int) + 20 < u64::MAX as int
        &&& self.stats.accepted_steps + (self.n_max as int) + 20 < u64::MAX as int
        &&& self.stats.rejected_steps + (self.n_max as int) + 20 < u64::MAX as int
    }

    /// Default initialiser: machine-default tuning, automatic initial
    /// step size, dense output.
    ///
    /// * `f` - the system to integrate
    /// * `x` - initial value of the independent variable
    /// * `x_end` - final value of the independent variable
    /// * `dx` - increment of the dense output (ignored in sparse mode)
    /// * `y` - initial state
    /// * `rtol` / `atol` - relative and absolute error tolerances
    pub fn new(
        f: F,
        x: Scalar,
        x_end: Scalar,
        dx: Scalar,
        y: Vec<Scalar>,
        rtol: Scalar,
        atol: Scalar,
    ) -> (r: Dopri5<F>)
        requires
            x.wf(),
            x_end.wf(),
            dx.wf(),
            all_wf(y@),
            rtol.wf(),
            atol.wf(),
            rtol@ > 0,
            atol@ > 0,
        ensures
            r.wf(),
            r.stats_headroom(),
            r.spec_f() == f,
            r.spec_x() == x@,
            r.spec_x_end() == x_end@,
            r.spec_xd() == x@,
            r.spec_dx() == dx@,
            r.spec_y() == y@,
            r.spec_h() == 0,
            r.spec_x_out() =~= Seq::<Scalar>::empty(),
            r.spec_y_out() =~= Seq::<Vec<Scalar>>::empty(),
            r.spec_stats() == (Stats { num_eval: 0, accepted_steps: 0, rejected_steps: 0 }),
            r.spec_out_type() == OutputType::Dense,
            !r.spec_solout_enabled(),
            r.spec_n_max() == 100000u32,
            r.spec_x_old() == x@,
            r.spec_h_old() == 0,
            r.spec_uround() == 1,
            r.spec_n_stiff() == 1000u32,
            r.spec_controller().wf(),
            r.spec_controller().spec_alpha_num() == 17,
            r.spec_controller().spec_beta_num() == 4,
            r.spec_controller().spec_fac_max() == 10 * (SCALE as int),
            r.spec_controller().spec_fac_min() == 200_000_000_000int,
            r.spec_controller().spec_h_max() == abs_units(sub_units(x_end@, x@)),
            r.spec_controller().spec_safety() == 900_000_000_000int,
            r.spec_controller().spec_err_old() == SCALE as int,
            !r.spec_controller().spec_reject(),
            r.spec_posneg() == (if x_end@ > x@ {
                SCALE as int
            } else {
                -(SCALE as int)
            }),
            forall|row: int| 0 <= row < 5 ==> (#[trigger] r.spec_rcont(row)).len() == y@.len()
                && all_zero(r.spec_rcont(row)),
    {
        let dim = y.len();
        let posneg = Scalar::one().with_sign_of(x_end.sub(x));
        let controller = Controller::new(
            Scalar::from_units(170_000_000_000),  // alpha = 0.2 - 0.75 * beta
            Scalar::from_units(40_000_000_000),  // beta = 0.04
            Scalar::from_int(10),  // fac_max
            Scalar::from_units(200_000_000_000),  // fac_min = 0.2
            x_end.sub(x).abs(),  // h_max = |x_end - x|
            Scalar::from_units(900_000_000_000),  // safety factor = 0.9
            posneg,
        );
        Dopri5 {
            f,
            x,
            x_old: x,
            x_end,
            xd: x,
            dx,
            y,
            rtol,
            atol,
            x_out: Vec::new(),
            y_out: Vec::new(),
            uround: Scalar::from_units(1),
            h: Scalar::zero(),
            h_old: Scalar::zero(),
            n_max: 100000,
            n_stiff: 1000,
            coeffs: Dopri54::new(),
            controller,
            out_type: OutputType::Dense,
            rcont0: zeros(dim),
            rcont1: zeros(dim),
            rcont2: zeros(dim),
            rcont3: zeros(dim),
            rcont4: zeros(dim),
            stats: Stats::new(),
            solout_enabled: false,
        }
    }

    /// Advanced initialiser with explicit tuning.
    ///
    /// Beyond the arguments of `new`: the controller safety factor and
    /// `beta` gain, the growth clamps `fac_min < 1 < fac_max`, the step
    /// magnitude cap `h_max`, an initial step `h` (zero asks for
    /// automatic estimation; a non-zero value must carry the sign of
    /// `x_end - x`), the step budget `n_max`, the stiffness interval
    /// `n_stiff` and the output mode.
    pub fn from_param(
        f: F,
        x: Scalar,
        x_end: Scalar,
        dx: Scalar,
        y: Vec<Scalar>,
        rtol: Scalar,
        atol: Scalar,
        safety_factor: Scalar,
        beta: Scalar,
        fac_min: Scalar,
        fac_max: Scalar,
        h_max: Scalar,
        h: Scalar,
        n_max: u32,
        n_stiff: u32,
        out_type: OutputType,
    ) -> (r: Dopri5<F>)
        requires
            x.wf(),
            x_end.wf(),
            dx.wf(),
            all_wf(y@),
            rtol.wf(),
            atol.wf(),
            rtol@ > 0,
            atol@ > 0,
            safety_factor.wf(),
            safety_factor@ > 0,
            beta.wf(),
            0 <= beta@ <= 266_666_666_666,
            fac_min.wf(),
            0 < fac_min@ < SCALE as int,
            fac_max.wf(),
            (SCALE as int) < fac_max@,
            h_max.wf(),
            h_max@ >= 0,
            h.wf(),
            x_end@ > x@ ==> h@ >= 0,
            x_end@ <= x@ ==> h@ <= 0,
            n_stiff >= 1,
        ensures
            r.wf(),
            r.stats_headroom(),
            r.spec_f() == f,
            r.spec_x() == x@,
            r.spec_x_end() == x_end@,
            r.spec_xd() == x@,
            r.spec_dx() == dx@,
            r.spec_y() == y@,
            r.spec_h() == h@,
            r.spec_x_out() =~= Seq::<Scalar>::empty(),
            r.spec_y_out() =~= Seq::<Vec<Scalar>>::empty(),
            r.spec_stats() == (Stats { num_eval: 0, accepted_steps: 0, rejected_steps: 0 }),
            r.spec_out_type() == out_type,
            !r.spec_solout_enabled(),
            r.spec_n_max() == n_max,
            r.spec_x_old() == x@,
            r.spec_h_old() == 0,
            r.spec_uround() == 1,
            r.spec_n_stiff() == n_stiff,
            r.spec_controller().wf(),
            r.spec_controller().spec_alpha_num() == exp_num_units(
                sub_units(200_000_000_000, mul_units(beta@, 750_000_000_000)),
            ),
            r.spec_controller().spec_beta_num() == exp_num_units(beta@),
            r.spec_controller().spec_fac_max() == fac_max@,
            r.spec_controller().spec_fac_min() == fac_min@,
            r.spec_controller().spec_h_max() == h_max@,
            r.spec_controller().spec_safety() == safety_factor@,
            r.spec_controller().spec_err_old() == SCALE as int,
            !r.spec_controller().spec_reject(),
            r.spec_posneg() == (if x_end@ > x@ {
                SCALE as int
            } else {
                -(SCALE as int)
            }),
            forall|row: int| 0 <= row < 5 ==> (#[trigger] r.spec_rcont(row)).len() == y@.len()
                && all_zero(r.spec_rcont(row)),
    {
        let dim = y.len();
        let posneg = Scalar::one().with_sign_of(x_end.sub(x));
        // alpha = 0.2 - 0.75 * beta
        let alpha = Scalar::from_units(200_000_000_000).sub(
            beta.mul(Scalar::from_units(750_000_000_000)),
        );
        proof {
            assert(mul_units(beta@, 750_000_000_000) <= 200_000_000_000 && 0 <= mul_units(
                beta@,
                750_000_000_000,
            )) by {
                lemma_mul_units_nonneg(beta@, 750_000_000_000);
                assert(abs_units(beta@) * abs_units(750_000_000_000int) <= 266_666_666_666int
                    * 750_000_000_000) by (nonlinear_arith)
                    requires 0 <= beta@ <= 266_666_666_666;
                vstd::arithmetic::div_mod::lemma_div_is_ordered(
                    abs_units(beta@) * abs_units(750_000_000_000int),
                    266_666_666_666int * 750_000_000_000,
                    SCALE as int,
                );
            }
        }
        let controller = Controller::new(
            alpha,
            beta,
            fac_max,
            fac_min,
            h_max,
            safety_factor,
            posneg,
        );
        Dopri5 {
            f,
            x,
            x_old: x,
            x_end,
            xd: x,
            dx,
            y,
            rtol,
            atol,
            x_out: Vec::new(),
            y_out: Vec::new(),
            uround: Scalar::from_units(1),
            h,
            h_old: Scalar::zero(),
            n_max,
            n_stiff,
            coeffs: Dopri54::new(),
            controller,
            out_type,
            rcont0: zeros(dim),
            rcont1: zeros(dim),
            rcont2: zeros(dim),
            rcont3: zeros(dim),
            rcont4: zeros(dim),
            stats: Stats::new(),
            solout_enabled: false,
        }
    }

    /// The same engine with the early-stop flag replaced.
    pub closed spec fn with_solout(self, enabled: bool) -> Dopri5<F> {
        Dopri5 { solout_enabled: enabled, ..self }
    }

    /// Enable or disable the early-stop test of the system; it starts
    /// disabled, matching a stop test that never fires.  Nothing else
    /// changes: well-formedness, counter headroom and every observable
    /// field carry over.
    pub fn set_solout(&mut self, enabled: bool)
        ensures
            final(self).spec_solout_enabled() == enabled,
            *final(self) == old(self).with_solout(enabled),
            final(self).wf() == old(self).wf(),
            final(self).stats_headroom() == old(self).stats_headroom(),
            final(self).spec_f() == old(self).spec_f(),
            final(self).spec_x() == old(self).spec_x(),
            final(self).spec_x_old() == old(self).spec_x_old(),
            final(self).spec_x_end() == old(self).spec_x_end(),
            final(self).spec_xd() == old(self).spec_xd(),
            final(self).spec_dx() == old(self).spec_dx(),
            final(self).spec_y() == old(self).spec_y(),
            final(self).spec_h() == old(self).spec_h(),
            final(self).spec_h_old() == old(self).spec_h_old(),
            final(self).spec_uround() == old(self).spec_uround(),
            final(self).spec_stats() == old(self).spec_stats(),
            final(self).spec_out_type() == old(self).spec_out_type(),
            final(self).spec_x_out() == old(self).spec_x_out(),
            final(self).spec_y_out() == old(self).spec_y_out(),
            final(self).spec_posneg() == old(self).spec_posneg(),
            final(self).spec_n_max() == old(self).spec_n_max(),
            final(self).spec_n_stiff() == old(self).spec_n_stiff(),
            final(self).spec_controller() == old(self).spec_controller(),
            forall|r: int| #[trigger] final(self).spec_rcont(r) == old(self).spec_rcont(r),
    {
        self.solout_enabled = enabled;
    }

    /// Recorded values of the independent variable.
    pub fn x_out(&self) -> (r: &Vec<Scalar>)
        ensures
            r@ == self.spec_x_out(),
    {
        &self.x_out
    }

    /// Recorded states, parallel to `x_out`.
    pub fn y_out(&self) -> (r: &Vec<Vec<Scalar>>)
        ensures
            r@ == self.spec_y_out(),
    {
        &self.y_out
    }

    /// Estimate the initial step size: scaled norms of the state and its
    /// derivative pick a trial step, an explicit Euler probe refines it,
    /// and the result is capped and signed with the direction.
    fn hinit(&self) -> (r: Scalar)
        requires
            self.wf(),
        ensures
            r.wf(),
            r@ == hinit_units(
                self.spec_f(),
                self.spec_x(),
                self.spec_posneg(),
                self.spec_controller().spec_h_max(),
                self.spec_y(),
                self.spec_rtol(),
                self.spec_atol(),
            ),
            self.spec_posneg() > 0 ==> r@ >= 0,
            self.spec_posneg() <= 0 ==> r@ <= 0,
    {
        let ghost n = self.y@.len();
        let ghost ys = vals(self.y@);
        let ghost scs = Seq::new(
            n,
            |i: int| add_units(self.atol@, mul_units(abs_units(ys[i]), self.rtol@)),
        );
        let ghost f0s = Seq::new(n, |i: int| self.spec_f().deriv(self.x@, ys)[i]);
        let posneg = self.controller.posneg();
        let f0 = self.f.system(self.x, &self.y);
        let sc = tol_scale(self.atol, self.rtol, &self.y);
        let d0 = ratio_sq_sum(&self.y, &sc);
        let d1 = ratio_sq_sum(&f0, &sc);
        proof {
            lemma_ratio_sq_pointwise(self.y@, sc@, ys, scs, n);
            lemma_ratio_sq_pointwise(f0@, sc@, f0s, scs, n);
        }

        let tiny = Scalar::from_units(100);  // 1e-10
        let mut h0 = if d0.lt(tiny) || d1.lt(tiny) {
            Scalar::from_units(1_000_000)  // 1e-6
        } else {
            Scalar::from_units(10_000_000_000).mul(d0.div(d1).sqrt())  // 0.01 * sqrt(d0/d1)
        };
        h0 = h0.min(self.controller.h_max());
        h0 = h0.with_sign_of(posneg);

        let ghost y1s = Seq::new(n, |i: int| add_units(ys[i], mul_units(h0@, f0s[i])));
        let ghost f1s = Seq::new(n, |i: int| self.spec_f().deriv(add_units(self.x@, h0@), y1s)[i]);
        let ghost dfs = Seq::new(n, |i: int| sub_units(f1s[i], f0s[i]));
        let y1 = add_scaled(&self.y, h0, &f0);
        proof {
            assert(vals(y1@) =~= y1s);
        }
        let f1 = self.f.system(self.x.add(h0), &y1);
        let df = sub_vec(&f1, &f0);
        let d2 = ratio_sq_sum(&df, &sc).sqrt().div(h0);
        proof {
            lemma_ratio_sq_pointwise(df@, sc@, dfs, scs, n);
        }

        let d1rt = d1.sqrt();
        let dmax = d1rt.max(d2.abs());
        let h1 = if dmax.is_zero() {
            // both scaled derivative norms vanish at this resolution
            Scalar::from_units(1_000_000).max(
                h0.abs().mul(Scalar::from_units(1_000_000_000)),  // |h0| * 1e-3
            )
        } else {
            let denom = d1rt.max(d2);
            let base = Scalar::from_units(10_000_000_000).div(denom);
            crate::power::rpow(base.max(Scalar::zero()), 1, 5)
        };
        let hundred_h0 = Scalar::from_int(100).mul(h0.abs());
        let r = hundred_h0.min(h1.min(self.controller.h_max())).with_sign_of(posneg);
        proof {
            reveal(hinit_units);
        }
        r
    }

    /// Run the integration: repeat stage evaluation, error estimation and
    /// accept/reject decisions until the end of the interval, an early
    /// stop, or a terminal error condition.
    ///
    /// On top of structural soundness the contract pins down: the
    /// statistics only grow and are returned verbatim on success; a
    /// success without an early stop lands exactly on `x_end`; in sparse
    /// mode exactly the initial point plus one point per accepted step is
    /// recorded, starting at `x0`, directed, and ending at the final `x`;
    /// in dense mode the recorded abscissae are the reporting grid walked
    /// from the initial target, the grid target keeps pace with the
    /// recording, and at a success no further target was recordable; an
    /// empty interval succeeds at once with untouched statistics and the
    /// single grid point recorded; each error carries the final `x`, the
    /// step budget error only past the budget, the underflow error only
    /// under its guard, and a zero right-hand side is never reported
    /// stiff, leaves every recorded state at the initial state and
    /// rejects nothing.
    #[verifier::rlimit(100)]
    pub fn integrate(&mut self) -> (res: Result<Stats, IntegrationError>)
        requires
            old(self).wf(),
            old(self).stats_headroom(),
        ensures
            final(self).wf(),
            old(self).spec_stats().num_eval <= final(self).spec_stats().num_eval,
            old(self).spec_stats().accepted_steps <= final(self).spec_stats().accepted_steps,
            old(self).spec_stats().rejected_steps <= final(self).spec_stats().rejected_steps,
            res matches Ok(s) ==> s == final(self).spec_stats(),
            final(self).spec_x_out().len() >= old(self).spec_x_out().len(),
            final(self).spec_x_out().len() == final(self).spec_y_out().len(),
            final(self).spec_y().len() == old(self).spec_y().len(),
            forall|i: int| 0 <= i < final(self).spec_y_out().len()
                ==> (#[trigger] final(self).spec_y_out()[i])@.len() == old(self).spec_y().len(),
            (old(self).spec_out_type() == OutputType::Sparse && res is Ok)
                ==> final(self).spec_x_out().len() == old(self).spec_x_out().len() + 1
                + final(self).spec_stats().accepted_steps
                - old(self).spec_stats().accepted_steps,
            (old(self).spec_out_type() == OutputType::Dense && old(self).spec_x_out().len() == 0)
                ==> forall|k: int| 0 <= k < final(self).spec_x_out().len() ==> (
            #[trigger] final(self).spec_x_out()[k])@ == grid_units(
                old(self).spec_xd(),
                old(self).spec_dx(),
                k as nat,
            ),
            old(self).spec_x() == old(self).spec_x_end() ==> res is Ok && final(self).spec_stats()
                == old(self).spec_stats() && final(self).spec_x_out().len() == old(
                self,
            ).spec_x_out().len() + 1,
            res matches Err(IntegrationError::MaxNumStepReached { x, n_step })
                ==> x@ == final(self).spec_x() && n_step > old(self).spec_n_max(),
            res matches Err(IntegrationError::StepSizeUnderflow { x })
                ==> x@ == final(self).spec_x() && mul_units(
                100_000_000_000,
                abs_units(final(self).spec_h_old()),
            ) <= mul_units(final(self).spec_uround(), abs_units(final(self).spec_x())),
            res matches Err(IntegrationError::StiffnessDetected { x })
                ==> x@ == final(self).spec_x(),
            (old(self).spec_out_type() == OutputType::Sparse && res is Ok)
                ==> final(self).spec_x_out().last()@ == final(self).spec_x(),
            final(self).spec_x_end() == old(self).spec_x_end(),
            // success without an early stop lands exactly on the end of
            // the interval (the interval must be within the scalar range)
            (res is Ok && !old(self).spec_solout_enabled() && abs_units(
                old(self).spec_x_end() - old(self).spec_x(),
            ) <= MAX_UNITS as int) ==> final(self).spec_x() == old(self).spec_x_end(),
            // sparse recording starts at the initial point and the
            // recorded abscissae follow the direction sign
            old(self).spec_out_type() == OutputType::Sparse ==> final(self).spec_x_out()[
                old(self).spec_x_out().len() as int
            ]@ == old(self).spec_x(),
            old(self).spec_out_type() == OutputType::Sparse ==> forall|a: int|
                old(self).spec_x_out().len() <= a < final(self).spec_x_out().len() - 1 ==> (if old(
                    self,
                ).spec_posneg() > 0 {
                    (#[trigger] final(self).spec_x_out()[a])@ <= final(self).spec_x_out()[a + 1]@
                } else {
                    (#[trigger] final(self).spec_x_out()[a])@ >= final(self).spec_x_out()[a + 1]@
                }),
            // dense recording walks the grid target forward with it
            (old(self).spec_out_type() == OutputType::Dense && old(self).spec_x_out().len() == 0
                && old(self).spec_x() != old(self).spec_x_end()) ==> final(self).spec_xd()
                == grid_units(
                old(self).spec_xd(),
                old(self).spec_dx(),
                final(self).spec_x_out().len() as nat,
            ),
            // at a success without early stop no further grid target was
            // recordable from the last step
            (old(self).spec_out_type() == OutputType::Dense && res is Ok && !old(
                self,
            ).spec_solout_enabled() && old(self).spec_x() != old(self).spec_x_end())
                ==> dense_spent(
                final(self).spec_xd(),
                old(self).spec_dx(),
                final(self).spec_x(),
                final(self).spec_x_old(),
                old(self).spec_posneg(),
            ),
            // a zero field is never reported stiff
            zero_field(old(self).spec_f()) ==> !(res matches Err(
                IntegrationError::StiffnessDetected { x },
            )),
            zero_field(old(self).spec_f()) ==> final(self).spec_stats().rejected_steps == old(
                self,
            ).spec_stats().rejected_steps && forall|i: int, j: int|
                old(self).spec_y_out().len() <= i < final(self).spec_y_out().len() && 0 <= j < old(
                    self,
                ).spec_y().len() ==> (#[trigger] final(self).spec_y_out()[i]@[j])@ == old(
                    self,
                ).spec_y()[j]@,
    {
        let dim = self.y.len();
        self.x_old = self.x;
        let mut n_step: u64 = 0;
        let mut last = false;
        let mut h_new = Scalar::zero();
        let mut iasti: u32 = 0;
        let mut non_stiff: u32 = 0;
        let dirpos = Scalar::zero().lt(self.controller.posneg());

        // Save the initial point
        if matches!(self.out_type, OutputType::Sparse) {
            let yc = copy_of(&self.y);
            self.x_out.push(self.x);
            self.y_out.push(yc);
        }

        // An empty interval has nothing to integrate: record the single
        // grid point and succeed with zero steps.
        if self.x.eq_val(self.x_end) {
            if matches!(self.out_type, OutputType::Dense) {
                let yc = copy_of(&self.y);
                self.x_out.push(self.xd);
                self.y_out.push(yc);
                proof {
                    assert(self.x_out@.last()@ == grid_units(
                        old(self).spec_xd(),
                        old(self).spec_dx(),
                        0,
                    ));
                }
            }
            return Ok(self.stats);
        }

        if self.h.is_zero() {
            self.h = self.hinit();
            self.stats.num_eval = self.stats.num_eval + 2;
        }
        self.h_old = self.h;

        // First stage (reused across accepted steps)
        let k0v = self.f.system(self.x, &self.y);
        proof {
            if zero_field(self.spec_f()) {
                assert forall|i: int| 0 <= i < dim implies (#[trigger] k0v@[i])@ == 0 by {
                    assert(vals(self.y@).len() == dim);
                    assert(self.spec_f().deriv(self.x@, vals(self.y@))[i] == 0);
                }
            }
        }
        self.stats.num_eval = self.stats.num_eval + 1;
        let mut k: Vec<Vec<Scalar>> = Vec::new();
        k.push(k0v);
        let mut si: usize = 1;
        while si < 7
            invariant
                1 <= si <= 7,
                k@.len() == si,
                dim == self.spec_dim(),
                forall|i: int| 0 <= i < si ==> (#[trigger] k@[i])@.len() == dim && all_wf(
                    k@[i]@,
                ),
                k@[0] == k0v,
                forall|i: int| 1 <= i < si ==> all_zero((#[trigger] k@[i])@),
            decreases 7 - si,
        {
            k.push(zeros(dim));
            si = si + 1;
        }

        let ghost ne0 = self.stats.num_eval as int;
        let ghost acc0 = self.stats.accepted_steps as int;
        let ghost rej0 = self.stats.rejected_steps as int;
        let ghost xo0 = self.x_out@.len() as int;
        let ghost xd0 = self.xd@;

        while !last
            invariant
                self.wf(),
                dim == self.spec_dim(),
                k@.len() == 7,
                forall|i: int| 0 <= i < 7 ==> (#[trigger] k@[i])@.len() == dim && all_wf(
                    k@[i]@,
                ),
                dirpos == (self.controller.spec_posneg() > 0),
                !last,
                h_new.wf(),
                n_step <= self.n_max as u64 + 1,
                self.x_end@ == old(self).spec_x_end(),
                self.controller.spec_posneg() == old(self).spec_posneg(),
                self.solout_enabled == old(self).spec_solout_enabled(),
                dirpos ==> old(self).spec_x() <= self.x@,
                !dirpos ==> self.x@ <= old(self).spec_x(),
                self.out_type == old(self).spec_out_type(),
                self.dx@ == old(self).spec_dx(),
                self.n_max == old(self).spec_n_max(),
                old(self).spec_x() != old(self).spec_x_end(),
                // counters
                self.stats.num_eval as int == ne0 + 6 * (n_step as int),
                ne0 + 6 * (self.n_max as int + 1) < u64::MAX as int,
                acc0 + (self.n_max as int) + 10 < u64::MAX as int,
                rej0 + (self.n_max as int) + 10 < u64::MAX as int,
                ne0 >= old(self).spec_stats().num_eval,
                acc0 == old(self).spec_stats().accepted_steps as int,
                rej0 == old(self).spec_stats().rejected_steps as int,
                acc0 <= self.stats.accepted_steps as int,
                self.stats.accepted_steps as int <= acc0 + n_step as int,
                rej0 <= self.stats.rejected_steps as int,
                self.stats.rejected_steps as int <= rej0 + n_step as int,
                // output bookkeeping
                0 <= xo0 <= self.x_out@.len(),
                self.f == old(self).spec_f(),
                old(self).spec_y().len() == dim,
                old(self).spec_y_out().len() <= self.y_out@.len(),
                zero_field(old(self).spec_f()) ==> {
                    &&& forall|j: int| 0 <= j < dim ==> (#[trigger] self.y@[j])@ == old(
                        self,
                    ).spec_y()[j]@
                    &&& stages_zero(k@, dim as nat)
                    &&& self.stats.rejected_steps as int == rej0
                    &&& forall|i: int, j: int|
                        old(self).spec_y_out().len() <= i < self.y_out@.len() && 0 <= j < dim
                            ==> (#[trigger] self.y_out@[i]@[j])@ == old(self).spec_y()[j]@
                },
                self.out_type == OutputType::Sparse ==> xo0 == old(self).spec_x_out().len() + 1
                    && self.x_out@.len() == xo0 + self.stats.accepted_steps - acc0
                    && self.x_out@.len() > 0 && self.x_out@.last()@ == self.x@
                    && self.x_out@[xo0 - 1]@ == old(self).spec_x(),
                self.out_type == OutputType::Sparse ==> forall|a: int|
                    xo0 - 1 <= a < self.x_out@.len() - 1 ==> (if dirpos {
                        (#[trigger] self.x_out@[a])@ <= self.x_out@[a + 1]@
                    } else {
                        (#[trigger] self.x_out@[a])@ >= self.x_out@[a + 1]@
                    }),
                self.out_type == OutputType::Dense ==> xo0 == old(self).spec_x_out().len()
                    && xd0 == old(self).spec_xd() && self.xd@ == grid_units(
                    xd0,
                    self.dx@,
                    (self.x_out@.len() - xo0) as nat,
                ) && forall|j: int| xo0 <= j < self.x_out@.len() ==> (
                #[trigger] self.x_out@[j])@ == grid_units(xd0, self.dx@, (j - xo0) as nat),
            decreases self.n_max as int + 2 - n_step as int,
        {
            // Step budget
            if n_step > self.n_max as u64 {
                self.h_old = self.h;
                return Err(IntegrationError::MaxNumStepReached { x: self.x, n_step });
            }
            // Step-size underflow: 0.1 |h| <= uround |x|
            let guard_l = Scalar::from_units(100_000_000_000).mul(self.h.abs());
            let guard_r = self.uround.mul(self.x.abs());
            if guard_l.le(guard_r) {
                self.h_old = self.h;
                return Err(IntegrationError::StepSizeUnderflow { x: self.x });
            }
            proof {
                // direction law: past the guards the adaptive step is a
                // strictly signed move toward x_end
                self.controller.lemma_wf_facts();
                if self.h@ == 0 {
                    lemma_mul_units_zero(100_000_000_000);
                    lemma_mul_units_nonneg(self.uround@, abs_units(self.x@));
                    assert(false);
                }
                assert(self.controller.spec_posneg() > 0 ==> self.h@ > 0);
                assert(self.controller.spec_posneg() < 0 ==> self.h@ < 0);
            }
            // Last-step clamp: would 1.01 h pass x_end?
            let t1 = self.h.mul(Scalar::from_units(1_010_000_000_000));
            let t2 = self.x.add(t1);
            let t3 = t2.sub(self.x_end);
            let overshoot = if dirpos {
                Scalar::zero().lt(t3)
            } else {
                t3.lt(Scalar::zero())
            };
            if overshoot {
                self.h = self.x_end.sub(self.x);
                last = true;
            }
            n_step = n_step + 1;

            // Six working stages; the state fed to the sixth is kept for
            // the stiffness test, and the state fed to the seventh is the
            // candidate solution.
            let st = self.compute_stages(&mut k);
            let y_next = st.0;
            let y_stiff = st.1;
            self.stats.num_eval = self.stats.num_eval + 6;

            // Dense-output combination row, before acceptance is known
            if matches!(self.out_type, OutputType::Dense) {
                self.rcont4 = self.dense_combination(&k);
            }

            // Embedded error estimate and its scaled RMS norm
            let err = self.error_estimate(&k, &y_next);

            // Accept or reject, and the proposed next step
            let ok = self.controller.accept(err, self.h, &mut h_new);
            if ok {
                self.stats.accepted_steps = self.stats.accepted_steps + 1;

                // Stiffness detection; the guard below holds for any
                // positive-dimension system, so the test runs on every
                // accepted step, not only every n_stiff-th one.
                if self.stats.accepted_steps % (self.n_stiff as u64) != 0 || dim > 0 {
                    let kd = sub_vec(&k[1], &k[5]);
                    let num = dot(&kd, &kd);
                    let yd = sub_vec(&y_next, &y_stiff);
                    let den = dot(&yd, &yd);
                    let h_lamb = if Scalar::zero().lt(den) {
                        self.h.mul(num.div(den).sqrt())
                    } else {
                        Scalar::zero()
                    };
                    if Scalar::from_units(3_250_000_000_000).lt(h_lamb) {
                        non_stiff = 0;
                        if iasti < 15 {
                            iasti = iasti + 1;
                            if iasti == 15 {
                                proof {
                                    // a zero field has equal sixth and
                                    // seventh stage states, so no
                                    // stiffness signal can arise
                                    if zero_field(old(self).spec_f()) {
                                        assert forall|i: int| 0 <= i < dim implies (
                                        #[trigger] yd@[i])@ == 0 by {
                                            assert(y_next@[i]@ == self.y@[i]@);
                                            assert(y_stiff@[i]@ == self.y@[i]@);
                                        }
                                        lemma_dot_zero(yd@, yd@, yd@.len() as nat);
                                        assert(false);
                                    }
                                }
                                self.h_old = self.h;
                                return Err(IntegrationError::StiffnessDetected { x: self.x });
                            }
                        }
                    } else if non_stiff < 6 {
                        non_stiff = non_stiff + 1;
                        if non_stiff == 6 {
                            iasti = 0;
                        }
                    }
                }

                // Remaining dense-output rows: state, forward difference
                // and the two correction terms
                if matches!(self.out_type, OutputType::Dense) {
                    self.prepare_dense_rows(&y_next, &k);
                }

                let k1c = copy_of(&k[1]);
                k.set(0, k1c);
                self.y = copy_of(&y_next);
                proof {
                    if zero_field(old(self).spec_f()) {
                        assert forall|i: int, j: int| 0 <= i < 7 && 0 <= j < dim implies (
                        #[trigger] k@[i]@[j])@ == 0 by {
                            if i != 0 {
                                assert(k@[i]@[j]@ == 0);
                            }
                        }
                        assert forall|j: int| 0 <= j < dim implies (#[trigger] self.y@[j])@
                            == old(self).spec_y()[j]@ by {
                            assert(y_next@[j]@ == old(self).spec_y()[j]@);
                        }
                    }
                }
                self.x_old = self.x;
                let ghost x_pre = self.x@;
                proof {
                    self.controller.lemma_wf_facts();
                    if self.controller.spec_posneg() > 0 {
                        if last {
                            assert(self.h@ == sub_units(self.x_end@, self.x@));
                            assert(add_units(self.x@, self.h@) <= self.x_end@);
                        } else {
                            lemma_no_overshoot_pos(self.x@, self.h@, self.x_end@);
                        }
                        assert(add_units(self.x@, self.h@) >= self.x@);
                    } else {
                        if last {
                            assert(self.h@ == sub_units(self.x_end@, self.x@));
                            let d = self.x_end@ - self.x@;
                            if d >= -(MAX_UNITS as int) {
                                assert(self.h@ == d);
                            } else {
                                assert(self.h@ == -(MAX_UNITS as int));
                                assert(self.x@ - (MAX_UNITS as int) > self.x_end@);
                            }
                            assert(add_units(self.x@, self.h@) >= self.x_end@);
                        } else {
                            lemma_no_overshoot_neg(self.x@, self.h@, self.x_end@);
                        }
                        assert(add_units(self.x@, self.h@) <= self.x@);
                    }
                }
                self.x = self.x.add(self.h);
                self.h_old = self.h;

                let ghost pre_out = self.x_out@.len() as int;
                let ghost pre_xd = self.xd@;
                let ghost pre_seq = self.x_out@;
                let ghost pre_yout = self.y_out@;
                let ghost pre_rcont0 = self.rcont0@;
                self.solution_output(y_next);
                proof {
                    if self.out_type == OutputType::Sparse {
                        assert forall|a: int|
                            xo0 - 1 <= a < self.x_out@.len() - 1 implies (if dirpos {
                                (#[trigger] self.x_out@[a])@ <= self.x_out@[a + 1]@
                            } else {
                                (#[trigger] self.x_out@[a])@ >= self.x_out@[a + 1]@
                            }) by {
                            if a < pre_out - 1 {
                                assert(self.spec_x_out()[a] == pre_seq[a]);
                                assert(self.spec_x_out()[a + 1] == pre_seq[a + 1]);
                            } else {
                                assert(self.spec_x_out()[a] == pre_seq[a]);
                                assert(pre_seq[a]@ == x_pre);
                                assert(self.spec_x_out().last()@ == self.x@);
                            }
                        }
                        assert(self.spec_x_out()[xo0 - 1] == pre_seq[xo0 - 1]);
                    }
                    if self.out_type == OutputType::Dense {
                        let m = (pre_out - xo0) as nat;
                        let n = (self.x_out@.len() - pre_out) as nat;
                        lemma_grid_compose(xd0, self.dx@, m, n);
                        assert forall|j: int| xo0 <= j < self.x_out@.len() implies (
                        #[trigger] self.x_out@[j])@ == grid_units(
                            xd0,
                            self.dx@,
                            (j - xo0) as nat,
                        ) by {
                            if j < pre_out {
                                assert(pre_seq[j]@ == grid_units(
                                    xd0,
                                    self.dx@,
                                    (j - xo0) as nat,
                                ));
                                assert(self.spec_x_out()[j] == pre_seq[j]);
                            } else {
                                lemma_grid_compose(xd0, self.dx@, m, (j - pre_out) as nat);
                                assert(self.spec_x_out()[pre_out + (j - pre_out)]@ == grid_units(
                                    pre_xd,
                                    self.dx@,
                                    (j - pre_out) as nat,
                                ));
                            }
                        }
                    }
                }

                proof {
                    if zero_field(old(self).spec_f()) {
                        assert forall|i: int, j: int|
                            old(self).spec_y_out().len() <= i < self.y_out@.len() && 0 <= j < dim
                            implies (#[trigger] self.y_out@[i]@[j])@ == old(self).spec_y()[j]@ by {
                            if i < pre_out {
                                assert(self.spec_y_out()[i] == pre_yout[i]);
                                assert(pre_yout[i]@[j]@ == old(self).spec_y()[j]@);
                            } else if self.out_type == OutputType::Sparse {
                                assert(self.spec_y_out().last()@ == y_next@);
                                assert(y_next@[j]@ == old(self).spec_y()[j]@);
                            } else {
                                assert(self.spec_y_out()[i]@[j]@ == pre_rcont0[j]@);
                            }
                        }
                    }
                }
                if self.solout_enabled {
                    let stop = self.f.solout(self.x, &self.y, &k[0]);
                    if stop {
                        last = true;
                    }
                }
                if last {
                    proof {
                        if !self.solout_enabled && abs_units(
                            old(self).spec_x_end() - old(self).spec_x(),
                        ) <= MAX_UNITS as int {
                            // the terminal mark came from the clamp, whose
                            // step lands exactly on the end of the interval
                            assert(self.x@ == self.x_end@);
                        }
                    }
                    self.h_old = if dirpos {
                        h_new
                    } else {
                        h_new.neg()
                    };
                    return Ok(self.stats);
                }
            } else {
                if self.stats.accepted_steps >= 1 {
                    self.stats.rejected_steps = self.stats.rejected_steps + 1;
                }
                // a rejected trial at a clamped terminal step is not the
                // end of the run: the next iteration re-examines the clamp
                last = false;
            }
            self.h = h_new;
        }
        Ok(self.stats)
    }

    /// Drive the six working stage evaluations of one trial step and
    /// swap the seventh derivative into the reused slot.  Returns the
    /// candidate solution state and the state fed to the sixth stage
    /// (kept for the stiffness test).  A zero field leaves every stage
    /// derivative zero and both states equal to the current state.
    fn compute_stages(&self, k: &mut Vec<Vec<Scalar>>) -> (st: (Vec<Scalar>, Vec<Scalar>))
        requires
            self.wf(),
            // direction law: the step never points away from x_end
            self.spec_posneg() > 0 ==> self.spec_h() >= 0,
            self.spec_posneg() < 0 ==> self.spec_h() <= 0,
            old(k)@.len() == 7,
            forall|i: int| 0 <= i < 7 ==> (#[trigger] old(k)@[i])@.len() == self.spec_dim()
                && all_wf(old(k)@[i]@),
        ensures
            final(k)@.len() == 7,
            forall|i: int| 0 <= i < 7 ==> (#[trigger] final(k)@[i])@.len() == self.spec_dim()
                && all_wf(final(k)@[i]@),
            st.0@.len() == self.spec_dim(),
            all_wf(st.0@),
            st.1@.len() == self.spec_dim(),
            all_wf(st.1@),
            final(k)@[0] == old(k)@[0],
            forall|sj: int, i: int| 2 <= sj < 7 && 0 <= i < self.spec_dim() ==> (
            #[trigger] final(k)@[sj]@[i])@ == stage_deriv(
                self.spec_f(),
                self.spec_x(),
                self.spec_h(),
                self.spec_y(),
                old(k)@[0],
                sj as nat,
            )[i],
            forall|i: int| 0 <= i < self.spec_dim() ==> (#[trigger] final(k)@[1]@[i])@
                == stage_deriv(
                self.spec_f(),
                self.spec_x(),
                self.spec_h(),
                self.spec_y(),
                old(k)@[0],
                6,
            )[i],
            forall|i: int| 0 <= i < self.spec_dim() ==> (#[trigger] st.0@[i])@
                == stage_state_partial(
                self.spec_f(),
                self.spec_x(),
                self.spec_h(),
                self.spec_y(),
                old(k)@[0],
                6,
                6,
            )[i],
            forall|i: int| 0 <= i < self.spec_dim() ==> (#[trigger] st.1@[i])@
                == stage_state_partial(
                self.spec_f(),
                self.spec_x(),
                self.spec_h(),
                self.spec_y(),
                old(k)@[0],
                5,
                5,
            )[i],
            (zero_field(self.spec_f()) && stages_zero(old(k)@, self.spec_dim())) ==> {
                &&& stages_zero(final(k)@, self.spec_dim())
                &&& forall|j: int| 0 <= j < self.spec_dim() ==> (#[trigger] st.0@[j])@
                    == self.y@[j]@
                &&& forall|j: int| 0 <= j < self.spec_dim() ==> (#[trigger] st.1@[j])@
                    == self.y@[j]@
            },
    {
        let ghost hyp = zero_field(self.spec_f()) && stages_zero(old(k)@, self.spec_dim());
        let ghost fg = self.spec_f();
        let ghost xg = self.spec_x();
        let ghost hg = self.spec_h();
        let ghost yg = self.spec_y();
        let ghost k0g = old(k)@[0];
        let dim = self.y.len();
        let mut y_next = copy_of(&self.y);
        let mut y_stiff = copy_of(&self.y);
        let mut s: usize = 1;
        while s < 7
            invariant
                1 <= s <= 7,
                self.wf(),
                dim == self.spec_dim(),
                fg == self.spec_f() && xg == self.spec_x() && hg == self.spec_h() && yg
                    == self.spec_y(),
                k@.len() == 7,
                forall|i: int| 0 <= i < 7 ==> (#[trigger] k@[i])@.len() == dim && all_wf(
                    k@[i]@,
                ),
                k@[0] == k0g,
                forall|sj: int, i: int| 1 <= sj < s && 0 <= i < dim ==> (#[trigger] k@[sj]@[i])@
                    == stage_deriv(fg, xg, hg, yg, k0g, sj as nat)[i],
                s >= 2 ==> forall|i: int| 0 <= i < dim ==> (#[trigger] y_next@[i])@
                    == stage_state_partial(fg, xg, hg, yg, k0g, (s - 1) as nat, (
                s - 1) as nat)[i],
                s >= 6 ==> forall|i: int| 0 <= i < dim ==> (#[trigger] y_stiff@[i])@
                    == stage_state_partial(fg, xg, hg, yg, k0g, 5, 5)[i],
                y_next@.len() == dim,
                all_wf(y_next@),
                y_stiff@.len() == dim,
                all_wf(y_stiff@),
                hyp == (zero_field(self.spec_f()) && stages_zero(old(k)@, self.spec_dim())),
                hyp ==> stages_zero(k@, dim as nat),
                hyp ==> forall|j: int| 0 <= j < dim ==> (#[trigger] y_next@[j])@ == self.y@[j]@,
                hyp ==> forall|j: int| 0 <= j < dim ==> (#[trigger] y_stiff@[j])@ == self.y@[j]@,
            decreases 7 - s,
        {
            y_next = copy_of(&self.y);
            proof {
                reveal(stage_state_partial);
                assert forall|i: int| 0 <= i < dim implies (#[trigger] y_next@[i])@
                    == stage_state_partial(fg, xg, hg, yg, k0g, s as nat, 0)[i] by {}
            }
            let mut j: usize = 0;
            while j < s
                invariant
                    0 <= j <= s <= 6,
                    self.wf(),
                    dim == self.spec_dim(),
                    fg == self.spec_f() && xg == self.spec_x() && hg == self.spec_h() && yg
                        == self.spec_y(),
                    k@.len() == 7,
                    forall|i: int| 0 <= i < 7 ==> (#[trigger] k@[i])@.len() == dim && all_wf(
                        k@[i]@,
                    ),
                    k@[0] == k0g,
                    forall|sj: int, i: int| 1 <= sj < s && 0 <= i < dim ==> (
                    #[trigger] k@[sj]@[i])@ == stage_deriv(fg, xg, hg, yg, k0g, sj as nat)[
                        i
                    ],
                    forall|i: int| 0 <= i < dim ==> (#[trigger] y_next@[i])@
                        == stage_state_partial(fg, xg, hg, yg, k0g, s as nat, j as nat)[i],
                    y_next@.len() == dim,
                    all_wf(y_next@),
                    hyp ==> stages_zero(k@, dim as nat),
                    hyp ==> forall|jj: int| 0 <= jj < dim ==> (#[trigger] y_next@[jj])@
                        == self.y@[jj]@,
                decreases s - j,
            {
                let ha = self.h.mul(self.coeffs.a(s + 1, j + 1));
                y_next = add_scaled(&y_next, ha, &k[j]);
                proof {
                    reveal(stage_state_partial);
                    reveal(stage_deriv);
                    assert forall|i: int| 0 <= i < dim implies (#[trigger] y_next@[i])@
                        == stage_state_partial(fg, xg, hg, yg, k0g, s as nat, (
                    j + 1) as nat)[i] by {
                        assert(k@[j as int]@[i]@ == stage_deriv(fg, xg, hg, yg, k0g, j as nat)[
                            i
                        ]);
                    }
                    if hyp {
                        assert forall|jj: int| 0 <= jj < dim implies (#[trigger] y_next@[jj])@
                            == self.y@[jj]@ by {
                            lemma_mul_units_zero(ha@);
                        }
                    }
                }
                j = j + 1;
            }
            let ts = self.x.add(self.h.mul(self.coeffs.c(s + 1)));
            let ks = self.f.system(ts, &y_next);
            proof {
                reveal(stage_state_partial);
                reveal(stage_deriv);
                assert(vals(y_next@) =~= stage_state_partial(
                    fg,
                    xg,
                    hg,
                    yg,
                    k0g,
                    s as nat,
                    s as nat,
                ));
                assert forall|i: int| 0 <= i < dim implies (#[trigger] ks@[i])@
                    == stage_deriv(fg, xg, hg, yg, k0g, s as nat)[i] by {
                    assert(ks@[i]@ == fg.deriv(ts@, vals(y_next@))[i]);
                }
                if hyp {
                    assert forall|jj: int| 0 <= jj < dim implies (#[trigger] ks@[jj])@ == 0 by {
                        assert(vals(y_next@).len() == dim);
                        assert(self.spec_f().deriv(ts@, vals(y_next@))[jj] == 0);
                    }
                }
            }
            k.set(s, ks);
            if s == 5 {
                y_stiff = copy_of(&y_next);
            }
            s = s + 1;
        }
        let k6c = copy_of(&k[6]);
        proof {
            if hyp {
                assert forall|jj: int| 0 <= jj < dim implies (#[trigger] k6c@[jj])@ == 0 by {
                    assert(k@[6]@[jj]@ == 0);
                }
            }
        }
        k.set(1, k6c);
        proof {
            if hyp {
                assert forall|i: int, j: int| 0 <= i < 7 && 0 <= j < dim implies (
                #[trigger] k@[i]@[j])@ == 0 by {
                    if i != 1 {
                        assert(k@[i]@[j]@ == 0);
                    }
                }
            }
        }
        (y_next, y_stiff)
    }

    /// The embedded error estimate `h * sum e_i k_i` and its scaled RMS
    /// norm against the elementwise tolerance.  Zero stage derivatives
    /// give a zero error norm.
    fn error_estimate(&self, k: &Vec<Vec<Scalar>>, y_next: &Vec<Scalar>) -> (err: Scalar)
        requires
            self.wf(),
            k@.len() == 7,
            forall|i: int| 0 <= i < 7 ==> (#[trigger] k@[i])@.len() == self.spec_dim() && all_wf(
                k@[i]@,
            ),
            y_next@.len() == self.spec_dim(),
            all_wf(y_next@),
        ensures
            err.wf(),
            err@ >= 0,
            err@ == err_norm_units(
                k@,
                self.spec_y(),
                y_next@,
                self.spec_h(),
                self.spec_atol(),
                self.spec_rtol(),
                self.spec_dim(),
            ),
            stages_zero(k@, self.spec_dim()) ==> err@ == 0,
    {
        let ghost hyp = stages_zero(k@, self.spec_dim());
        let dim = self.y.len();
        let mut ev = zeros(dim);
        ev = add_scaled(&ev, self.coeffs.e(1), &k[0]);
        ev = add_scaled(&ev, self.coeffs.e(3), &k[2]);
        ev = add_scaled(&ev, self.coeffs.e(4), &k[3]);
        ev = add_scaled(&ev, self.coeffs.e(5), &k[4]);
        ev = add_scaled(&ev, self.coeffs.e(6), &k[5]);
        ev = add_scaled(&ev, self.coeffs.e(7), &k[1]);
        let ev = scale(&ev, self.h);
        proof {
            assert forall|j: int| 0 <= j < dim implies (#[trigger] ev@[j])@ == mul_units(
                self.h@,
                err_comb_at(k@, j),
            ) by {}
            if hyp {
                assert forall|j: int| 0 <= j < dim implies (#[trigger] ev@[j])@ == 0 by {
                    lemma_mul_units_zero(e_units(1));
                    lemma_mul_units_zero(e_units(3));
                    lemma_mul_units_zero(e_units(4));
                    lemma_mul_units_zero(e_units(5));
                    lemma_mul_units_zero(e_units(6));
                    lemma_mul_units_zero(e_units(7));
                    lemma_mul_units_zero(self.h@);
                }
            }
        }
        let sc = tol_scale_pair(self.atol, self.rtol, &self.y, y_next);
        let sum = ratio_sq_sum(&ev, &sc);
        let err = sum.div(Scalar::from_int(dim as i128)).sqrt();
        proof {
            reveal(err_norm_units);
            lemma_ratio_sq_pointwise(
                ev@,
                sc@,
                Seq::new(dim as nat, |i: int| mul_units(self.h@, err_comb_at(k@, i))),
                Seq::new(
                    dim as nat,
                    |i: int| err_sc_at(self.y@, y_next@, self.atol@, self.rtol@, i),
                ),
                dim as nat,
            );
            if hyp {
                lemma_ratio_sq_zero(ev@, sc@, ev@.len() as nat);
                lemma_div_units_zero_num(sat(dim as int * SCALE as int));
                assert(err@ == 0) by (nonlinear_arith)
                    requires err@ >= 0, err@ * err@ <= 0int * (SCALE as int);
            }
        }
        err
    }

    /// The dense-output combination row `h * sum d_i k_i`, formed before
    /// acceptance is known.  Zero stage derivatives give a zero row.
    fn dense_combination(&self, k: &Vec<Vec<Scalar>>) -> (row: Vec<Scalar>)
        requires
            self.wf(),
            k@.len() == 7,
            forall|i: int| 0 <= i < 7 ==> (#[trigger] k@[i])@.len() == self.spec_dim() && all_wf(
                k@[i]@,
            ),
        ensures
            row@.len() == self.spec_dim(),
            all_wf(row@),
            forall|i: int| 0 <= i < self.spec_dim() ==> (#[trigger] row@[i])@ == mul_units(
                self.spec_h(),
                dense_comb_at(k@, i),
            ),
            stages_zero(k@, self.spec_dim()) ==> all_zero(row@),
    {
        let ghost hyp = stages_zero(k@, self.spec_dim());
        let dim = self.y.len();
        let mut acc = zeros(dim);
        acc = add_scaled(&acc, self.coeffs.d(1), &k[0]);
        acc = add_scaled(&acc, self.coeffs.d(3), &k[2]);
        acc = add_scaled(&acc, self.coeffs.d(4), &k[3]);
        acc = add_scaled(&acc, self.coeffs.d(5), &k[4]);
        acc = add_scaled(&acc, self.coeffs.d(6), &k[5]);
        acc = add_scaled(&acc, self.coeffs.d(7), &k[1]);
        let row = scale(&acc, self.h);
        proof {
            if hyp {
                assert forall|j: int| 0 <= j < dim implies (#[trigger] row@[j])@ == 0 by {
                    lemma_mul_units_zero(d_units(1));
                    lemma_mul_units_zero(d_units(3));
                    lemma_mul_units_zero(d_units(4));
                    lemma_mul_units_zero(d_units(5));
                    lemma_mul_units_zero(d_units(6));
                    lemma_mul_units_zero(d_units(7));
                    lemma_mul_units_zero(self.h@);
                }
            }
        }
        row
    }

    /// Fill the state, forward-difference and correction rows of the
    /// dense-output interpolant for the step just accepted.  A stationary
    /// step (zero stages, state unchanged) leaves every correction row
    /// zero, so the interpolant is the constant state.
    fn prepare_dense_rows(&mut self, y_next: &Vec<Scalar>, k: &Vec<Vec<Scalar>>)
        requires
            old(self).wf(),
            k@.len() == 7,
            forall|i: int| 0 <= i < 7 ==> (#[trigger] k@[i])@.len() == old(self).spec_dim()
                && all_wf(k@[i]@),
            y_next@.len() == old(self).spec_dim(),
            all_wf(y_next@),
        ensures
            final(self).wf(),
            *final(self) == (Dopri5 {
                rcont0: final(self).rcont0,
                rcont1: final(self).rcont1,
                rcont2: final(self).rcont2,
                rcont3: final(self).rcont3,
                ..*old(self)
            }),
            forall|j: int| 0 <= j < old(self).spec_dim() ==> (#[trigger] final(self).rcont0@[j])@
                == old(self).y@[j]@,
            forall|j: int| 0 <= j < old(self).spec_dim() ==> (#[trigger] final(self).rcont1@[j])@
                == ydiff_at(old(self).spec_y(), y_next@, j),
            forall|j: int| 0 <= j < old(self).spec_dim() ==> (#[trigger] final(self).rcont2@[j])@
                == bspl_at(old(self).spec_y(), y_next@, k@, old(self).spec_h(), j),
            forall|j: int| 0 <= j < old(self).spec_dim() ==> (#[trigger] final(self).rcont3@[j])@
                == corr_at(old(self).spec_y(), y_next@, k@, old(self).spec_h(), j),
            (stages_zero(k@, old(self).spec_dim()) && (forall|j: int|
                0 <= j < old(self).spec_dim() ==> (#[trigger] y_next@[j])@ == old(self).y@[j]@))
                ==> all_zero(final(self).rcont1@) && all_zero(final(self).rcont2@) && all_zero(
                final(self).rcont3@,
            ),
    {
        let ghost hyp = stages_zero(k@, old(self).spec_dim()) && (forall|j: int|
            0 <= j < old(self).spec_dim() ==> (#[trigger] y_next@[j])@ == old(self).y@[j]@);
        let ydiff = sub_vec(y_next, &self.y);
        let kh = scale(&k[0], self.h);
        let bspl = sub_vec(&kh, &ydiff);
        let k1h = scale(&k[1], self.h);
        let t = sub_vec(&ydiff, &k1h);
        proof {
            if hyp {
                assert forall|j: int| 0 <= j < self.spec_dim() implies (#[trigger] ydiff@[j])@
                    == 0 && kh@[j]@ == 0 && bspl@[j]@ == 0 && k1h@[j]@ == 0 && t@[j]@ == 0 by {
                    lemma_mul_units_zero(self.h@);
                }
            }
        }
        self.rcont0 = copy_of(&self.y);
        self.rcont3 = sub_vec(&t, &bspl);
        self.rcont1 = ydiff;
        self.rcont2 = bspl;
    }

    /// Record the latest accepted step: in sparse mode the step point
    /// itself, in dense mode every grid point that the step has passed,
    /// through the degree-4 interpolant.
    fn solution_output(&mut self, y_next: Vec<Scalar>)
        requires
            old(self).wf(),
            y_next@.len() == old(self).spec_dim(),
            all_wf(y_next@),
        ensures
            final(self).wf(),
            *final(self) == (Dopri5 {
                xd: final(self).xd,
                x_out: final(self).x_out,
                y_out: final(self).y_out,
                ..*old(self)
            }),
            final(self).spec_x_out().len() >= old(self).spec_x_out().len(),
            forall|i: int| 0 <= i < old(self).spec_x_out().len() ==> final(self).spec_x_out()[i]
                == old(self).spec_x_out()[i] && final(self).spec_y_out()[i] == old(
                self,
            ).spec_y_out()[i],
            old(self).spec_out_type() == OutputType::Sparse ==> final(self).spec_x_out().len()
                == old(self).spec_x_out().len() + 1 && final(self).spec_x_out().last()@ == old(
                self,
            ).spec_x() && final(self).spec_xd() == old(self).spec_xd()
                && final(self).spec_y_out().last()@ == y_next@,
            old(self).spec_out_type() == OutputType::Dense ==> dense_spent(
                final(self).spec_xd(),
                old(self).spec_dx(),
                old(self).spec_x(),
                old(self).spec_x_old(),
                old(self).spec_posneg(),
            ),
            old(self).spec_out_type() == OutputType::Dense ==> forall|m: int, j: int|
                old(self).spec_y_out().len() <= m < final(self).spec_y_out().len() && 0 <= j < old(
                    self,
                ).rcont0@.len() ==> (#[trigger] final(self).spec_y_out()[m]@[j])@ == interp_units(
                    old(self).rcont0@,
                    old(self).rcont1@,
                    old(self).rcont2@,
                    old(self).rcont3@,
                    old(self).rcont4@,
                    theta_units(
                        final(self).spec_x_out()[m]@,
                        old(self).spec_x_old(),
                        old(self).spec_h_old(),
                    ),
                    j,
                ),
            (old(self).spec_out_type() == OutputType::Dense && all_zero(old(self).rcont1@)
                && all_zero(old(self).rcont2@) && all_zero(old(self).rcont3@) && all_zero(
                old(self).rcont4@,
            )) ==> forall|i: int, j: int|
                old(self).spec_y_out().len() <= i < final(self).spec_y_out().len() && 0 <= j < old(
                    self,
                ).rcont0@.len() ==> (#[trigger] final(self).spec_y_out()[i]@[j])@ == old(
                    self,
                ).rcont0@[j]@,
            old(self).spec_out_type() == OutputType::Dense ==> {
                let n = final(self).spec_x_out().len() - old(self).spec_x_out().len();
                &&& forall|k: int| 0 <= k < n ==> (#[trigger] final(self).spec_x_out()[old(
                    self,
                ).spec_x_out().len() + k])@ == grid_units(old(self).spec_xd(), old(self).spec_dx(), k as nat)
                &&& final(self).spec_xd() == grid_units(old(self).spec_xd(), old(self).spec_dx(), n as nat)
            },
    {
        let dirpos = Scalar::zero().lt(self.controller.posneg());
        if matches!(self.out_type, OutputType::Dense) {
            let ghost xd0 = self.xd@;
            let ghost base = self.x_out@.len() as int;
            while self.xd.abs().le(self.x.abs())
                invariant
                    self.wf(),
                    *self == (Dopri5 {
                        xd: self.xd,
                        x_out: self.x_out,
                        y_out: self.y_out,
                        ..*old(self)
                    }),
                    dirpos == (self.controller.spec_posneg() > 0),
                    y_next@.len() == self.spec_dim(),
                    all_wf(y_next@),
                    0 <= base <= self.x_out@.len(),
                    forall|i: int| 0 <= i < base ==> self.x_out@[i] == old(self).spec_x_out()[i]
                        && self.y_out@[i] == old(self).spec_y_out()[i],
                    forall|k: int| 0 <= k < self.x_out@.len() - base ==> (#[trigger] self.x_out@[
                        base + k
                    ])@ == grid_units(xd0, self.dx@, k as nat),
                    self.xd@ == grid_units(xd0, self.dx@, (self.x_out@.len() - base) as nat),
                    forall|m: int, j: int|
                        base <= m < self.y_out@.len() && 0 <= j < old(self).rcont0@.len() ==> (
                        #[trigger] self.y_out@[m]@[j])@ == interp_units(
                            old(self).rcont0@,
                            old(self).rcont1@,
                            old(self).rcont2@,
                            old(self).rcont3@,
                            old(self).rcont4@,
                            theta_units(
                                self.x_out@[m]@,
                                old(self).spec_x_old(),
                                old(self).spec_h_old(),
                            ),
                            j,
                        ),
                    (all_zero(old(self).rcont1@) && all_zero(old(self).rcont2@) && all_zero(
                        old(self).rcont3@,
                    ) && all_zero(old(self).rcont4@)) ==> forall|i: int, j: int|
                        base <= i < self.y_out@.len() && 0 <= j < old(self).rcont0@.len() ==> (
                        #[trigger] self.y_out@[i]@[j])@ == old(self).rcont0@[j]@,
                ensures
                    dense_spent(
                        self.xd@,
                        self.dx@,
                        self.x@,
                        self.x_old@,
                        self.controller.spec_posneg(),
                    ),
                decreases (if dirpos {
                    MAX_UNITS as int - self.xd@
                } else {
                    MAX_UNITS as int + self.xd@
                }),
            {
                if !self.x_old.abs().le(self.xd.abs()) {
                    // the target lies outside the last step's window; no
                    // further grid point can be served from this step
                    break;
                }
                let one = Scalar::one();
                let theta = self.xd.sub(self.x_old).div(self.h_old);
                let theta1 = one.sub(theta);
                let u1 = add_scaled(&self.rcont3, theta1, &self.rcont4);
                let u2 = add_scaled(&self.rcont2, theta, &u1);
                let u3 = add_scaled(&self.rcont1, theta1, &u2);
                let yi = add_scaled(&self.rcont0, theta, &u3);
                let prev = self.xd;
                let ghost pre_x = self.x_out@;
                let ghost pre_y = self.y_out@;
                self.x_out.push(prev);
                self.y_out.push(yi);
                let nxt = prev.add(self.dx);
                proof {
                    let n = self.x_out@.len() - base;
                    assert(n >= 1);
                    assert(self.x_out@ == pre_x.push(prev));
                    assert(self.y_out@ == pre_y.push(yi));
                    assert forall|j: int| 0 <= j < old(self).rcont0@.len() implies (
                    #[trigger] yi@[j])@ == interp_units(
                        old(self).rcont0@,
                        old(self).rcont1@,
                        old(self).rcont2@,
                        old(self).rcont3@,
                        old(self).rcont4@,
                        theta_units(prev@, old(self).spec_x_old(), old(self).spec_h_old()),
                        j,
                    ) by {
                        reveal(interp_units);
                        assert(theta@ == theta_units(
                            prev@,
                            old(self).spec_x_old(),
                            old(self).spec_h_old(),
                        ));
                        assert(theta1@ == sub_units(SCALE as int, theta@));
                    }
                    if all_zero(old(self).rcont1@) && all_zero(old(self).rcont2@) && all_zero(
                        old(self).rcont3@,
                    ) && all_zero(old(self).rcont4@) {
                        assert forall|j: int| 0 <= j < old(self).rcont0@.len() implies (
                        #[trigger] yi@[j])@ == old(self).rcont0@[j]@ by {
                            lemma_mul_units_zero(theta1@);
                            lemma_mul_units_zero(theta@);
                            assert(u1@[j]@ == 0);
                            assert(u2@[j]@ == 0);
                            assert(u3@[j]@ == 0);
                        }
                    }
                    assert(prev@ == grid_units(xd0, self.dx@, (n - 1) as nat));
                    assert(grid_units(xd0, self.dx@, n as nat) == add_units(
                        grid_units(xd0, self.dx@, (n - 1) as nat),
                        self.dx@,
                    ));
                    assert forall|k: int| 0 <= k < n implies (#[trigger] self.x_out@[base + k])@
                        == grid_units(xd0, self.dx@, k as nat) by {
                        if k < n - 1 {
                            assert(self.x_out@[base + k] == pre_x[base + k]);
                        } else {
                            assert(self.x_out@[base + k] == prev);
                        }
                    }
                    assert(nxt@ == grid_units(xd0, self.dx@, n as nat));
                }
                self.xd = nxt;
                let advanced = if dirpos {
                    prev.lt(nxt)
                } else {
                    nxt.lt(prev)
                };
                if !advanced {
                    // a degenerate increment cannot move the grid target
                    proof {
                        lemma_saturating_stall(prev@, self.dx@);
                    }
                    break;
                }
            }
        } else {
            self.x_out.push(self.x);
            self.y_out.push(y_next);
        }
    }
}

} // verus!
