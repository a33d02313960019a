//! PI step-size controller.
//!
//! Given the scaled error norm of a trial step it decides acceptance
//! (`err <= 1`) and proposes the next step size from the current and the
//! previous accepted error, with safety factor, growth clamps, a step
//! magnitude cap and a fixed direction sign.  Exponents are held as
//! numerators over the fixed denominator `EXP_DEN`.

use vstd::prelude::*;
use crate::scalar::{
    Scalar, SCALE, abs_units, mul_units, div_units, min_units, max_units, clamp_units,
    lemma_mul_units_nonneg, lemma_mul_units_mono, lemma_div_units_nonneg, lemma_div_units_antitone,
};
use crate::power::{rpow, rpow_units, lemma_rpow_mono, lemma_rpow_in_range};

verus! {

/// Denominator of the controller exponents.
pub const EXP_DEN: u32 = 100;

/// Unit count of the floor kept under the remembered error (the value
/// `1e-4`), so that the integral term never degenerates after a sequence
/// of error-free steps.
pub const ERR_OLD_FLOOR: i128 = 100_000_000;

/// Exponent numerator over `EXP_DEN` nearest to the scalar `a`.
pub open spec fn exp_num_units(a: int) -> int {
    (a * 100 + (SCALE as int) / 2) / (SCALE as int)
}

/// The raw growth factor `safety * err_old^beta / err^alpha`, clipped
/// into `[fac_min, fac_max_eff]`.
pub open spec fn growth_units(
    err: int,
    err_old: int,
    a_num: nat,
    b_num: nat,
    safety: int,
    fac_min: int,
    fac_max_eff: int,
) -> int {
    clamp_units(
        div_units(
            mul_units(safety, rpow_units(err_old, b_num, 100)),
            rpow_units(err, a_num, 100),
        ),
        fac_min,
        fac_max_eff,
    )
}

/// Magnitude of the proposed next step: the current magnitude scaled by
/// the clipped growth factor, capped at `h_max`.
pub open spec fn proposed_units(
    err: int,
    err_old: int,
    a_num: nat,
    b_num: nat,
    safety: int,
    fac_min: int,
    fac_max_eff: int,
    h_abs: int,
    h_max: int,
) -> int {
    min_units(
        h_max,
        mul_units(h_abs, growth_units(err, err_old, a_num, b_num, safety, fac_min, fac_max_eff)),
    )
}

/// PI step-size controller state.
pub struct Controller {
    alpha_num: u32,
    beta_num: u32,
    fac_max: Scalar,
    fac_min: Scalar,
    h_max: Scalar,
    safety_factor: Scalar,
    posneg: Scalar,
    err_old: Scalar,
    reject: bool,
}

impl Controller {
    /// Tunables fixed after construction, and a sane remembered error.
    pub closed spec fn wf(self) -> bool {
        &&& self.fac_min.wf()
        &&& self.fac_max.wf()
        &&& self.h_max.wf()
        &&& self.safety_factor.wf()
        &&& self.posneg.wf()
        &&& self.err_old.wf()
        &&& 0 < self.fac_min@ < SCALE as int
        &&& (SCALE as int) < self.fac_max@
        &&& self.h_max@ >= 0
        &&& self.safety_factor@ > 0
        &&& (self.posneg@ == SCALE as int || self.posneg@ == -(SCALE as int))
        &&& self.err_old@ >= 0
        &&& self.alpha_num <= 100
        &&& self.beta_num <= 100
    }

    pub closed spec fn spec_alpha_num(self) -> nat {
        self.alpha_num as nat
    }

    pub closed spec fn spec_beta_num(self) -> nat {
        self.beta_num as nat
    }

    pub closed spec fn spec_fac_max(self) -> int {
        self.fac_max@
    }

    pub closed spec fn spec_fac_min(self) -> int {
        self.fac_min@
    }

    pub closed spec fn spec_h_max(self) -> int {
        self.h_max@
    }

    pub closed spec fn spec_safety(self) -> int {
        self.safety_factor@
    }

    pub closed spec fn spec_posneg(self) -> int {
        self.posneg@
    }

    pub closed spec fn spec_err_old(self) -> int {
        self.err_old@
    }

    pub closed spec fn spec_reject(self) -> bool {
        self.reject
    }

    /// Effective growth cap: held at one on the call right after a
    /// rejection, so the step cannot grow again before an acceptance.
    pub closed spec fn spec_fac_max_eff(self) -> int {
        if self.reject {
            SCALE as int
        } else {
            self.fac_max@
        }
    }

    /// Everything but the remembered error and the rejection flag agrees.
    pub closed spec fn same_tunables(self, o: Controller) -> bool {
        &&& self.alpha_num == o.alpha_num
        &&& self.beta_num == o.beta_num
        &&& self.fac_max == o.fac_max
        &&& self.fac_min == o.fac_min
        &&& self.h_max == o.h_max
        &&& self.safety_factor == o.safety_factor
        &&& self.posneg == o.posneg
    }

    /// What a well-formed controller guarantees about its tunables,
    /// for reasoning outside this module.
    pub proof fn lemma_wf_facts(self)
        requires
            self.wf(),
        ensures
            self.spec_posneg() == SCALE as int || self.spec_posneg() == -(SCALE as int),
            self.spec_h_max() >= 0,
            0 < self.spec_fac_min() < SCALE as int,
            (SCALE as int) < self.spec_fac_max(),
            self.spec_safety() > 0,
            self.spec_err_old() >= 0,
            self.spec_fac_min() <= self.spec_fac_max_eff(),
            self.spec_fac_max_eff() == if self.spec_reject() {
                SCALE as int
            } else {
                self.spec_fac_max()
            },
            self.spec_alpha_num() <= 100,
            self.spec_beta_num() <= 100,
    {
    }

    /// Build a controller.  The exponents `alpha` and `beta` are rounded
    /// to the nearest numerator over `EXP_DEN`; the remembered error
    /// starts at one and the rejection flag clear.
    pub fn new(
        alpha: Scalar,
        beta: Scalar,
        fac_max: Scalar,
        fac_min: Scalar,
        h_max: Scalar,
        safety_factor: Scalar,
        posneg: Scalar,
    ) -> (r: Controller)
        requires
            alpha.wf(),
            beta.wf(),
            fac_max.wf(),
            fac_min.wf(),
            h_max.wf(),
            safety_factor.wf(),
            posneg.wf(),
            0 <= alpha@ <= SCALE as int,
            0 <= beta@ <= SCALE as int,
            0 < fac_min@ < SCALE as int,
            (SCALE as int) < fac_max@,
            h_max@ >= 0,
            safety_factor@ > 0,
            posneg@ == SCALE as int || posneg@ == -(SCALE as int),
        ensures
            r.wf(),
            r.spec_alpha_num() == exp_num_units(alpha@),
            r.spec_beta_num() == exp_num_units(beta@),
            r.spec_fac_max() == fac_max@,
            r.spec_fac_min() == fac_min@,
            r.spec_h_max() == h_max@,
            r.spec_safety() == safety_factor@,
            r.spec_posneg() == posneg@,
            r.spec_err_old() == SCALE as int,
            !r.spec_reject(),
    {
        let a_num = Self::to_exp_num(alpha);
        let b_num = Self::to_exp_num(beta);
        Controller {
            alpha_num: a_num,
            beta_num: b_num,
            fac_max,
            fac_min,
            h_max,
            safety_factor,
            posneg,
            err_old: Scalar::one(),
            reject: false,
        }
    }

    fn to_exp_num(a: Scalar) -> (r: u32)
        requires
            a.wf(),
            0 <= a@ <= SCALE as int,
        ensures
            r as int == exp_num_units(a@),
            r <= 100,
    {
        let u = a.units();
        let n: u128 = ((u as u128) * 100 + (SCALE as u128) / 2) / (SCALE as u128);
        proof {
            assert((a@ * 100 + (SCALE as int) / 2) / (SCALE as int) <= 100) by (nonlinear_arith)
                requires 0 <= a@ <= SCALE as int;
            assert((a@ * 100 + (SCALE as int) / 2) / (SCALE as int) >= 0) by (nonlinear_arith)
                requires 0 <= a@;
        }
        n as u32
    }

    /// Direction sign of the integration, as the scalar one with the
    /// sign of `x_end - x0`.
    pub fn posneg(&self) -> (r: Scalar)
        ensures
            r@ == self.spec_posneg(),
            self.wf() ==> r.wf(),
    {
        self.posneg
    }

    /// Magnitude cap on the step size.
    pub fn h_max(&self) -> (r: Scalar)
        ensures
            r@ == self.spec_h_max(),
            self.wf() ==> r.wf(),
    {
        self.h_max
    }

    /// Decide on the trial step: accept exactly when `err <= 1`, and
    /// propose the next step size through `h_new`.  Acceptance remembers
    /// the error (floored at `ERR_OLD_FLOOR`) for the integral term and
    /// clears the rejection flag; rejection leaves the remembered error
    /// alone and suppresses growth on the following call.
    pub fn accept(&mut self, err: Scalar, h: Scalar, h_new: &mut Scalar) -> (r: bool)
        requires
            old(self).wf(),
            err.wf(),
            err@ >= 0,
            h.wf(),
        ensures
            final(self).wf(),
            r == (err@ <= SCALE as int),
            final(self).same_tunables(*old(self)),
            final(self).spec_alpha_num() == old(self).spec_alpha_num(),
            final(self).spec_beta_num() == old(self).spec_beta_num(),
            final(self).spec_fac_max() == old(self).spec_fac_max(),
            final(self).spec_fac_min() == old(self).spec_fac_min(),
            final(self).spec_h_max() == old(self).spec_h_max(),
            final(self).spec_safety() == old(self).spec_safety(),
            final(self).spec_posneg() == old(self).spec_posneg(),
            r ==> final(self).spec_err_old() == max_units(err@, ERR_OLD_FLOOR as int)
                && !final(self).spec_reject(),
            !r ==> final(self).spec_err_old() == old(self).spec_err_old()
                && final(self).spec_reject(),
            ({
                let p = proposed_units(
                    err@,
                    old(self).spec_err_old(),
                    old(self).spec_alpha_num(),
                    old(self).spec_beta_num(),
                    old(self).spec_safety(),
                    old(self).spec_fac_min(),
                    old(self).spec_fac_max_eff(),
                    abs_units(h@),
                    old(self).spec_h_max(),
                );
                &&& 0 <= p <= old(self).spec_h_max()
                &&& final(h_new)@ == (if old(self).spec_posneg() > 0 {
                    p
                } else {
                    -p
                })
                &&& final(h_new).wf()
            }),
    {
        let fac11 = rpow(err, self.alpha_num, EXP_DEN);
        let eo_pow = rpow(self.err_old, self.beta_num, EXP_DEN);
        let numerator = self.safety_factor.mul(eo_pow);
        let fac_raw = numerator.div(fac11);
        let fac_hi = if self.reject {
            Scalar::one()
        } else {
            self.fac_max
        };
        let fac = fac_raw.clamp(self.fac_min, fac_hi);
        let grown = h.abs().mul(fac);
        proof {
            lemma_mul_units_nonneg(self.safety_factor@, eo_pow@);
            lemma_div_units_nonneg(numerator@, fac11@);
            lemma_mul_units_nonneg(abs_units(h@), fac@);
        }
        let mag = self.h_max.min(grown);
        *h_new = mag.with_sign_of(self.posneg);
        if err.le(Scalar::one()) {
            self.err_old = err.max(Scalar::from_units(ERR_OLD_FLOOR));
            self.reject = false;
            true
        } else {
            self.reject = true;
            false
        }
    }
}

/// Law: a well-formed controller's response is monotone in the error.
/// For the same controller state and current step, the step proposed for
/// the smaller of two error norms is never the smaller one.
pub proof fn lemma_controller_monotone(c: Controller, err1: int, err2: int, h_abs: int)
    requires
        c.wf(),
        0 <= err1 <= err2,
        0 <= h_abs,
    ensures
        proposed_units(
            err1,
            c.spec_err_old(),
            c.spec_alpha_num(),
            c.spec_beta_num(),
            c.spec_safety(),
            c.spec_fac_min(),
            c.spec_fac_max_eff(),
            h_abs,
            c.spec_h_max(),
        ) >= proposed_units(
            err2,
            c.spec_err_old(),
            c.spec_alpha_num(),
            c.spec_beta_num(),
            c.spec_safety(),
            c.spec_fac_min(),
            c.spec_fac_max_eff(),
            h_abs,
            c.spec_h_max(),
        ),
{
    c.lemma_wf_facts();
    lemma_step_response_monotone(
        err1,
        err2,
        c.spec_err_old(),
        c.spec_alpha_num(),
        c.spec_beta_num(),
        c.spec_safety(),
        c.spec_fac_min(),
        c.spec_fac_max_eff(),
        h_abs,
        c.spec_h_max(),
    );
}

/// Law: the controller's response is monotone in the error.  With the
/// same remembered error, tunables and current step magnitude, a smaller
/// error norm never proposes a smaller next step than a larger one; the
/// growth clamps can only flatten the response, never invert it.
pub proof fn lemma_step_response_monotone(
    err1: int,
    err2: int,
    err_old: int,
    a_num: nat,
    b_num: nat,
    safety: int,
    fac_min: int,
    fac_max_eff: int,
    h_abs: int,
    h_max: int,
)
    requires
        0 <= err1 <= err2,
        0 <= err_old,
        0 <= safety,
        0 <= fac_min <= fac_max_eff,
        0 <= h_abs,
    ensures
        proposed_units(err1, err_old, a_num, b_num, safety, fac_min, fac_max_eff, h_abs, h_max)
            >= proposed_units(
            err2,
            err_old,
            a_num,
            b_num,
            safety,
            fac_min,
            fac_max_eff,
            h_abs,
            h_max,
        ),
{
    lemma_rpow_mono(err1, err2, a_num, 100);
    lemma_rpow_in_range(err1, a_num, 100);
    lemma_rpow_in_range(err2, a_num, 100);
    lemma_rpow_in_range(err_old, b_num, 100);
    let numerator = mul_units(safety, rpow_units(err_old, b_num, 100));
    lemma_mul_units_nonneg(safety, rpow_units(err_old, b_num, 100));
    lemma_div_units_antitone(numerator, rpow_units(err1, a_num, 100), rpow_units(err2, a_num, 100));
    let g1 = growth_units(err1, err_old, a_num, b_num, safety, fac_min, fac_max_eff);
    let g2 = growth_units(err2, err_old, a_num, b_num, safety, fac_min, fac_max_eff);
    assert(g2 <= g1);
    assert(0 <= g2);
    lemma_mul_units_mono(h_abs, g2, h_abs, g1);
}

} // verus!
