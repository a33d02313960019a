//! Types shared by the stepping engine: the right-hand-side capability,
//! run statistics, the output mode and the terminal error conditions.

use vstd::prelude::*;
use crate::scalar::Scalar;
use crate::vector::{all_wf, vals};

verus! {

/// A first-order system of ordinary differential equations together with
/// an optional early-stop test, supplied by the caller of the engine.
///
/// `deriv` is the mathematical model of the right-hand side at the unit
/// level; `system` must compute exactly that model, dimension preserved.
/// The engine re-evaluates freely across accept/reject cycles, so the
/// operation must be pure.  `stop` models the early-stop test consulted
/// after every accepted step once it has been enabled.
pub trait System {
    /// Unit counts of `dy/dt` at time `t` and state `y`.
    spec fn deriv(&self, t: int, y: Seq<int>) -> Seq<int>;

    /// Model of the early-stop test at `(t, y, dy)`.
    spec fn stop(&self, t: int, y: Seq<int>, dy: Seq<int>) -> bool;

    /// Evaluate the right-hand side.
    fn system(&self, t: Scalar, y: &Vec<Scalar>) -> (dy: Vec<Scalar>)
        requires
            t.wf(),
            all_wf(y@),
        ensures
            dy@.len() == y@.len(),
            all_wf(dy@),
            forall|i: int| 0 <= i < dy@.len() ==> (#[trigger] dy@[i])@ == self.deriv(
                t@,
                vals(y@),
            )[i],
    ;

    /// Early-stop test, consulted after every accepted step.
    fn solout(&self, t: Scalar, y: &Vec<Scalar>, dy: &Vec<Scalar>) -> (r: bool)
        requires
            t.wf(),
            all_wf(y@),
            all_wf(dy@),
        ensures
            r == self.stop(t@, vals(y@), vals(dy@)),
    ;
}

/// A right-hand side that is identically zero: every derivative entry
/// vanishes, at every time and state, and the dimension is preserved.
pub open spec fn zero_field<F: System>(f: F) -> bool {
    &&& forall|t: int, ys: Seq<int>| (#[trigger] f.deriv(t, ys)).len() == ys.len()
    &&& forall|t: int, ys: Seq<int>, i: int| 0 <= i < ys.len() ==> (#[trigger] f.deriv(
        t,
        ys,
    )[i]) == 0
}

/// Step counters accumulated over one integration run.
#[derive(Clone, Copy, Debug, PartialEq, Eq, Structural)]
pub struct Stats {
    /// Number of evaluations of the right-hand side.
    pub num_eval: u64,
    /// Number of accepted steps.
    pub accepted_steps: u64,
    /// Number of rejected steps.
    pub rejected_steps: u64,
}

impl Stats {
    pub fn new() -> (r: Stats)
        ensures
            r.num_eval == 0,
            r.accepted_steps == 0,
            r.rejected_steps == 0,
    {
        Stats { num_eval: 0, accepted_steps: 0, rejected_steps: 0 }
    }
}

/// How the trajectory is recorded: at a fixed reporting increment through
/// the dense-output interpolant, or only at the accepted step points.
#[derive(Clone, Copy, Debug, PartialEq, Eq, Structural)]
pub enum OutputType {
    Dense,
    Sparse,
}

/// Terminal error conditions; each carries the independent variable at
/// which integration stopped.
#[derive(Clone, Copy, Debug)]
pub enum IntegrationError {
    /// The step budget was exhausted before the end of the interval.
    MaxNumStepReached { x: Scalar, n_step: u64 },
    /// The step size collapsed below what the resolution of the scalar
    /// type can distinguish at the current magnitude of `x`.
    StepSizeUnderflow { x: Scalar },
    /// The stiffness heuristic fired repeatedly; an explicit method is
    /// unsuitable for the problem.
    StiffnessDetected { x: Scalar },
}

} // verus!
