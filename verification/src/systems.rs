//! Ready-made right-hand sides.
//!
//! Callers normally implement [`System`](crate::dop_shared::System)
//! themselves; the types here cover common model problems with fully
//! specified derivatives, and double as verified reference
//! implementations of the trait.

use vstd::prelude::*;
use crate::scalar::{Scalar, sat, mul_units, sub_units};
use crate::vector::{all_wf, vals, zeros};
use crate::dop_shared::System;

verus! {

/// The zero field `dy/dt = 0`: every state is stationary.
pub struct ZeroSystem {}

impl ZeroSystem {
    pub fn new() -> ZeroSystem {
        ZeroSystem {}
    }
}

impl System for ZeroSystem {
    open spec fn deriv(&self, t: int, y: Seq<int>) -> Seq<int> {
        Seq::new(y.len(), |i: int| 0int)
    }

    open spec fn stop(&self, t: int, y: Seq<int>, dy: Seq<int>) -> bool {
        false
    }

    fn system(&self, t: Scalar, y: &Vec<Scalar>) -> (dy: Vec<Scalar>) {
        zeros(y.len())
    }

    fn solout(&self, t: Scalar, y: &Vec<Scalar>, dy: &Vec<Scalar>) -> (r: bool) {
        false
    }
}

/// `ZeroSystem` really is a zero field, so the zero-derivative
/// idempotence of the stepping engine applies to it.
pub proof fn lemma_zero_system_is_zero_field(z: ZeroSystem)
    ensures
        crate::dop_shared::zero_field(z),
{
}

/// The linear field `dy_i/dt = c * y_i`.  With a negative coefficient
/// this is plain exponential decay.
pub struct LinearSystem {
    coef: Scalar,
}

impl LinearSystem {
    pub fn new(coef: Scalar) -> (r: LinearSystem)
        ensures
            r.spec_coef() == sat(coef@),
    {
        LinearSystem { coef: Scalar::from_units(coef.units()) }
    }

    pub closed spec fn spec_coef(self) -> int {
        self.coef@
    }
}

impl System for LinearSystem {
    open spec fn deriv(&self, t: int, y: Seq<int>) -> Seq<int> {
        Seq::new(y.len(), |i: int| mul_units(sat(self.spec_coef()), y[i]))
    }

    open spec fn stop(&self, t: int, y: Seq<int>, dy: Seq<int>) -> bool {
        false
    }

    fn system(&self, t: Scalar, y: &Vec<Scalar>) -> (dy: Vec<Scalar>) {
        let c = Scalar::from_units(self.coef.units());
        let mut dy: Vec<Scalar> = Vec::new();
        let mut i: usize = 0;
        while i < y.len()
            invariant
                i <= y@.len(),
                all_wf(y@),
                c.wf(),
                c@ == sat(self.spec_coef()),
                dy@.len() == i,
                all_wf(dy@),
                forall|j: int| 0 <= j < i ==> (#[trigger] dy@[j])@ == mul_units(
                    sat(self.spec_coef()),
                    y@[j]@,
                ),
            decreases y@.len() - i,
        {
            dy.push(c.mul(y[i]));
            i = i + 1;
        }
        proof {
            assert(forall|j: int| 0 <= j < dy@.len() ==> (#[trigger] dy@[j])@ == self.deriv(
                t@,
                vals(y@),
            )[j]);
        }
        dy
    }

    fn solout(&self, t: Scalar, y: &Vec<Scalar>, dy: &Vec<Scalar>) -> (r: bool) {
        false
    }
}

/// The relaxation field `dy_i/dt = rate * (target - y_i)`: every
/// component is pulled toward `target`.  A large rate makes the problem
/// stiff for explicit methods.
pub struct RelaxationSystem {
    rate: Scalar,
    target: Scalar,
}

impl RelaxationSystem {
    pub fn new(rate: Scalar, target: Scalar) -> (r: RelaxationSystem)
        ensures
            r.spec_rate() == sat(rate@),
            r.spec_target() == sat(target@),
    {
        RelaxationSystem {
            rate: Scalar::from_units(rate.units()),
            target: Scalar::from_units(target.units()),
        }
    }

    pub closed spec fn spec_rate(self) -> int {
        self.rate@
    }

    pub closed spec fn spec_target(self) -> int {
        self.target@
    }
}

impl System for RelaxationSystem {
    open spec fn deriv(&self, t: int, y: Seq<int>) -> Seq<int> {
        Seq::new(
            y.len(),
            |i: int| mul_units(sat(self.spec_rate()), sub_units(sat(self.spec_target()), y[i])),
        )
    }

    open spec fn stop(&self, t: int, y: Seq<int>, dy: Seq<int>) -> bool {
        false
    }

    fn system(&self, t: Scalar, y: &Vec<Scalar>) -> (dy: Vec<Scalar>) {
        let rate = Scalar::from_units(self.rate.units());
        let target = Scalar::from_units(self.target.units());
        let mut dy: Vec<Scalar> = Vec::new();
        let mut i: usize = 0;
        while i < y.len()
            invariant
                i <= y@.len(),
                all_wf(y@),
                rate.wf(),
                target.wf(),
                rate@ == sat(self.spec_rate()),
                target@ == sat(self.spec_target()),
                dy@.len() == i,
                all_wf(dy@),
                forall|j: int| 0 <= j < i ==> (#[trigger] dy@[j])@ == mul_units(
                    sat(self.spec_rate()),
                    sub_units(sat(self.spec_target()), y@[j]@),
                ),
            decreases y@.len() - i,
        {
            dy.push(rate.mul(target.sub(y[i])));
            i = i + 1;
        }
        proof {
            assert(forall|j: int| 0 <= j < dy@.len() ==> (#[trigger] dy@[j])@ == self.deriv(
                t@,
                vals(y@),
            )[j]);
        }
        dy
    }

    fn solout(&self, t: Scalar, y: &Vec<Scalar>, dy: &Vec<Scalar>) -> (r: bool) {
        false
    }
}

/// The relaxation field `dy_i/dt = rate * (t - y_i)`: every component
/// chases the moving target `t`.  With a large rate the solution hugs
/// the ramp while the dynamics stay fast, the classic stiff test
/// problem for explicit methods.
pub struct RampSystem {
    rate: Scalar,
}

impl RampSystem {
    pub fn new(rate: Scalar) -> (r: RampSystem)
        ensures
            r.spec_rate() == sat(rate@),
    {
        RampSystem { rate: Scalar::from_units(rate.units()) }
    }

    pub closed spec fn spec_rate(self) -> int {
        self.rate@
    }
}

impl System for RampSystem {
    open spec fn deriv(&self, t: int, y: Seq<int>) -> Seq<int> {
        Seq::new(y.len(), |i: int| mul_units(sat(self.spec_rate()), sub_units(t, y[i])))
    }

    open spec fn stop(&self, t: int, y: Seq<int>, dy: Seq<int>) -> bool {
        false
    }

    fn system(&self, t: Scalar, y: &Vec<Scalar>) -> (dy: Vec<Scalar>) {
        let rate = Scalar::from_units(self.rate.units());
        let mut dy: Vec<Scalar> = Vec::new();
        let mut i: usize = 0;
        while i < y.len()
            invariant
                i <= y@.len(),
                all_wf(y@),
                t.wf(),
                rate.wf(),
                rate@ == sat(self.spec_rate()),
                dy@.len() == i,
                all_wf(dy@),
                forall|j: int| 0 <= j < i ==> (#[trigger] dy@[j])@ == mul_units(
                    sat(self.spec_rate()),
                    sub_units(t@, y@[j]@),
                ),
            decreases y@.len() - i,
        {
            dy.push(rate.mul(t.sub(y[i])));
            i = i + 1;
        }
        proof {
            assert(forall|j: int| 0 <= j < dy@.len() ==> (#[trigger] dy@[j])@ == self.deriv(
                t@,
                vals(y@),
            )[j]);
        }
        dy
    }

    fn solout(&self, t: Scalar, y: &Vec<Scalar>, dy: &Vec<Scalar>) -> (r: bool) {
        false
    }
}

/// Exponential decay toward zero that asks the engine to stop as soon as
/// the time passes `t_stop`: an early-stop example.
pub struct StopAfter {
    coef: Scalar,
    t_stop: Scalar,
}

impl StopAfter {
    pub fn new(coef: Scalar, t_stop: Scalar) -> (r: StopAfter)
        ensures
            r.spec_coef() == sat(coef@),
            r.spec_t_stop() == sat(t_stop@),
    {
        StopAfter {
            coef: Scalar::from_units(coef.units()),
            t_stop: Scalar::from_units(t_stop.units()),
        }
    }

    pub closed spec fn spec_coef(self) -> int {
        self.coef@
    }

    pub closed spec fn spec_t_stop(self) -> int {
        self.t_stop@
    }
}

impl System for StopAfter {
    open spec fn deriv(&self, t: int, y: Seq<int>) -> Seq<int> {
        Seq::new(y.len(), |i: int| mul_units(sat(self.spec_coef()), y[i]))
    }

    open spec fn stop(&self, t: int, y: Seq<int>, dy: Seq<int>) -> bool {
        t >= sat(self.spec_t_stop())
    }

    fn system(&self, t: Scalar, y: &Vec<Scalar>) -> (dy: Vec<Scalar>) {
        let c = Scalar::from_units(self.coef.units());
        let mut dy: Vec<Scalar> = Vec::new();
        let mut i: usize = 0;
        while i < y.len()
            invariant
                i <= y@.len(),
                all_wf(y@),
                c.wf(),
                c@ == sat(self.spec_coef()),
                dy@.len() == i,
                all_wf(dy@),
                forall|j: int| 0 <= j < i ==> (#[trigger] dy@[j])@ == mul_units(
                    sat(self.spec_coef()),
                    y@[j]@,
                ),
            decreases y@.len() - i,
        {
            dy.push(c.mul(y[i]));
            i = i + 1;
        }
        proof {
            assert(forall|j: int| 0 <= j < dy@.len() ==> (#[trigger] dy@[j])@ == self.deriv(
                t@,
                vals(y@),
            )[j]);
        }
        dy
    }

    fn solout(&self, t: Scalar, y: &Vec<Scalar>, dy: &Vec<Scalar>) -> (r: bool) {
        let th = Scalar::from_units(self.t_stop.units());
        th.le(t)
    }
}

} // verus!
