use ode_solvers::controller::Controller;
use ode_solvers::dop_shared::{IntegrationError, OutputType};
use ode_solvers::dopri5::Dopri5;
use ode_solvers::scalar::{Scalar, MAX_UNITS, SCALE};
use ode_solvers::systems::{LinearSystem, RampSystem, RelaxationSystem, StopAfter, ZeroSystem};

fn s_int(n: i128) -> Scalar {
    Scalar::from_int(n)
}

fn s_units(u: i128) -> Scalar {
    Scalar::from_units(u)
}

// one unit is 1e-12; tolerances below are given in units

#[test]
fn zero_derivative_idempotence() {
    // dy/dt = 0: the trajectory is constant, no step is ever rejected
    let y0 = vec![s_units(1_500_000_000_000), s_int(-2)];
    let mut solver = Dopri5::new(
        ZeroSystem::new(),
        s_int(0),
        s_int(10),
        s_int(1),
        y0,
        s_units(1_000_000),
        s_units(1_000_000),
    );
    let stats = solver.integrate().expect("integration must succeed");
    assert_eq!(stats.rejected_steps, 0);
    assert!(stats.accepted_steps > 0);
    // two evaluations for the automatic initial step, one for the first
    // stage, six per attempted step
    assert_eq!(stats.num_eval, 3 + 6 * stats.accepted_steps);
    // dense output: the full reporting grid 0, 1, ..., 10
    assert_eq!(solver.x_out().len(), 11);
    for (k, x) in solver.x_out().iter().enumerate() {
        assert_eq!(x.units(), k as i128 * SCALE);
    }
    for y in solver.y_out() {
        assert_eq!(y[0].units(), 1_500_000_000_000);
        assert_eq!(y[1].units(), -2 * SCALE);
    }
}

#[test]
fn analytic_agreement_exponential_decay() {
    // dy/dt = -y over [0, 1] with rtol = atol = 1e-10: the final state
    // must match exp(-1) to within 1e-6
    let mut solver = Dopri5::from_param(
        LinearSystem::new(s_int(-1)),
        s_int(0),
        s_int(1),
        s_units(100_000_000_000),
        vec![s_int(1)],
        s_units(100),
        s_units(100),
        s_units(900_000_000_000),
        s_units(40_000_000_000),
        s_units(200_000_000_000),
        s_int(10),
        s_int(1),
        Scalar::zero(),
        100000,
        1000,
        OutputType::Sparse,
    );
    let stats = solver.integrate().expect("integration must succeed");
    assert!(stats.accepted_steps > 0);
    let last = solver.y_out().last().expect("output recorded");
    let expected = 367_879_441_171i128; // e^-1 in units
    let diff = (last[0].units() - expected).abs();
    assert!(diff <= 1_000_000, "final state {} off by {} units", last[0].units(), diff);
    // the run ends exactly on x_end
    assert_eq!(solver.x_out().last().unwrap().units(), SCALE);
}

#[test]
fn sparse_output_length_is_accepted_steps_plus_initial() {
    let mut solver = Dopri5::from_param(
        LinearSystem::new(s_int(-1)),
        s_int(0),
        s_int(1),
        s_int(1),
        vec![s_int(1)],
        s_units(1_000_000),
        s_units(1_000_000),
        s_units(900_000_000_000),
        s_units(40_000_000_000),
        s_units(200_000_000_000),
        s_int(10),
        s_int(1),
        Scalar::zero(),
        100000,
        1000,
        OutputType::Sparse,
    );
    let stats = solver.integrate().expect("integration must succeed");
    assert_eq!(solver.x_out().len() as u64, stats.accepted_steps + 1);
    assert_eq!(solver.x_out().len(), solver.y_out().len());
}

#[test]
fn dense_output_walks_the_grid() {
    // dense mode over [0, 1] with increment 0.1: eleven grid points
    let mut solver = Dopri5::new(
        LinearSystem::new(s_int(-1)),
        s_int(0),
        s_int(1),
        s_units(100_000_000_000),
        vec![s_int(1)],
        s_units(1_000_000),
        s_units(1_000_000),
    );
    solver.integrate().expect("integration must succeed");
    assert_eq!(solver.x_out().len(), 11);
    for (k, x) in solver.x_out().iter().enumerate() {
        assert_eq!(x.units(), k as i128 * 100_000_000_000);
    }
    // the interpolant reproduces the decay: exp(-0.5) at the midpoint,
    // exp(-1) at the end, to interpolation accuracy
    let first = solver.y_out().first().unwrap()[0].units();
    let mid = solver.y_out()[5][0].units();
    let last = solver.y_out().last().unwrap()[0].units();
    assert_eq!(first, SCALE);
    assert!((mid - 606_530_659_713i128).abs() <= 500_000, "mid {}", mid);
    assert!((last - 367_879_441_171i128).abs() <= 500_000, "last {}", last);
}

#[test]
fn immediate_termination_on_empty_interval() {
    let mut solver = Dopri5::new(
        LinearSystem::new(s_int(-1)),
        s_int(2),
        s_int(2),
        s_units(100_000_000_000),
        vec![s_int(1)],
        s_units(1_000_000),
        s_units(1_000_000),
    );
    let stats = solver.integrate().expect("an empty interval succeeds");
    assert_eq!(stats.accepted_steps, 0);
    assert_eq!(stats.rejected_steps, 0);
    assert_eq!(stats.num_eval, 0);
    assert_eq!(solver.x_out().len(), 1);
    assert_eq!(solver.x_out()[0].units(), 2 * SCALE);
    assert_eq!(solver.y_out()[0][0].units(), SCALE);
}

#[test]
fn relaxation_settles_on_its_target() {
    // dy/dt = 5 (1 - y): after a while the state sits on the target
    let mut solver = Dopri5::new(
        RelaxationSystem::new(s_int(5), s_int(1)),
        s_int(0),
        s_int(4),
        s_int(1),
        vec![s_int(0)],
        s_units(1_000_000),
        s_units(1_000_000),
    );
    solver.integrate().expect("integration must succeed");
    let last = solver.y_out().last().unwrap()[0].units();
    // 1 - e^-20 is one to ten digits
    assert!((last - SCALE).abs() <= 1_000_000, "got {}", last);
}

#[test]
fn stiffness_detected_on_fast_relaxation() {
    // dy/dt = rate * (t - y) with a large rate is stiff once the state
    // hugs the ramp: the explicit method must report stiffness instead
    // of running out its budget
    let mut solver = Dopri5::from_param(
        RampSystem::new(s_int(3_000)),
        s_int(0),
        s_int(2),
        s_int(1),
        vec![s_int(0)],
        s_units(1_000_000_000),
        s_units(1_000_000_000),
        s_units(900_000_000_000),
        s_units(40_000_000_000),
        s_units(200_000_000_000),
        s_int(10),
        s_int(2),
        Scalar::zero(),
        100000,
        1000,
        OutputType::Sparse,
    );
    match solver.integrate() {
        Err(IntegrationError::StiffnessDetected { .. }) => {}
        other => panic!("expected stiffness detection, got {:?}", other.is_ok()),
    }
}

#[test]
fn max_step_budget_is_enforced() {
    let mut solver = Dopri5::from_param(
        LinearSystem::new(s_int(-1)),
        s_int(0),
        s_int(100),
        s_int(1),
        vec![s_int(1)],
        s_units(100),
        s_units(100),
        s_units(900_000_000_000),
        s_units(40_000_000_000),
        s_units(200_000_000_000),
        s_int(10),
        s_int(100),
        Scalar::zero(),
        2,
        1000,
        OutputType::Sparse,
    );
    match solver.integrate() {
        Err(IntegrationError::MaxNumStepReached { n_step, .. }) => {
            assert!(n_step > 2);
        }
        other => panic!("expected step budget error, got {:?}", other.is_ok()),
    }
}

#[test]
fn step_size_underflow_is_reported() {
    // a fixed initial step far below the resolution at |x| = 1
    let mut solver = Dopri5::from_param(
        LinearSystem::new(s_int(-1)),
        s_int(1),
        s_int(2),
        s_int(1),
        vec![s_int(1)],
        s_units(1_000_000),
        s_units(1_000_000),
        s_units(900_000_000_000),
        s_units(40_000_000_000),
        s_units(200_000_000_000),
        s_int(10),
        s_int(1),
        s_units(5),
        100000,
        1000,
        OutputType::Sparse,
    );
    match solver.integrate() {
        Err(IntegrationError::StepSizeUnderflow { x }) => {
            assert_eq!(x.units(), SCALE);
        }
        other => panic!("expected underflow error, got {:?}", other.is_ok()),
    }
}

#[test]
fn early_stop_predicate_halts_the_run() {
    let mut solver = Dopri5::from_param(
        StopAfter::new(s_int(-1), s_units(500_000_000_000)),
        s_int(0),
        s_int(10),
        s_int(1),
        vec![s_int(1)],
        s_units(1_000_000),
        s_units(1_000_000),
        s_units(900_000_000_000),
        s_units(40_000_000_000),
        s_units(200_000_000_000),
        s_int(10),
        s_int(10),
        Scalar::zero(),
        100000,
        1000,
        OutputType::Sparse,
    );
    solver.set_solout(true);
    solver.integrate().expect("stopped run still succeeds");
    let last_x = solver.x_out().last().unwrap().units();
    assert!(last_x >= 500_000_000_000, "stop fires only after t_stop");
    assert!(last_x < 10 * SCALE, "run ends well before x_end");
}

#[test]
fn backward_integration_reaches_the_start() {
    // dy/dt = -y integrated from x = 1 back to x = 0: y(0) = e * y(1)
    let mut solver = Dopri5::from_param(
        LinearSystem::new(s_int(-1)),
        s_int(1),
        s_int(0),
        s_int(1),
        vec![s_int(1)],
        s_units(10_000),
        s_units(10_000),
        s_units(900_000_000_000),
        s_units(40_000_000_000),
        s_units(200_000_000_000),
        s_int(10),
        s_int(1),
        Scalar::zero(),
        100000,
        1000,
        OutputType::Sparse,
    );
    solver.integrate().expect("backward integration succeeds");
    assert_eq!(solver.x_out().last().unwrap().units(), 0);
    let expected = 2_718_281_828_459i128; // e in units
    let got = solver.y_out().last().unwrap()[0].units();
    assert!((got - expected).abs() <= 10_000_000, "got {}", got);
}

#[test]
fn controller_accepts_exactly_up_to_one() {
    let mk = || {
        Controller::new(
            s_units(170_000_000_000),
            s_units(40_000_000_000),
            s_int(10),
            s_units(200_000_000_000),
            s_int(1),
            s_units(900_000_000_000),
            s_int(1),
        )
    };
    let mut c = mk();
    let mut h_new = Scalar::zero();
    assert!(c.accept(s_int(1), s_units(10_000_000_000), &mut h_new));
    let mut c = mk();
    assert!(!c.accept(s_units(SCALE + 1), s_units(10_000_000_000), &mut h_new));
    // a vanishing error asks for the largest allowed growth
    let mut c = mk();
    assert!(c.accept(Scalar::zero(), s_units(10_000_000_000), &mut h_new));
    assert_eq!(h_new.units(), 100_000_000_000); // 10 * h, the growth clamp
}

#[test]
fn controller_response_is_monotone_in_the_error() {
    // two fresh controllers, the same state, errors 0.5 < 0.9
    let mk = || {
        Controller::new(
            s_units(170_000_000_000),
            s_units(40_000_000_000),
            s_int(10),
            s_units(200_000_000_000),
            s_int(1),
            s_units(900_000_000_000),
            s_int(1),
        )
    };
    let h = s_units(10_000_000_000);
    let mut c1 = mk();
    let mut h1 = Scalar::zero();
    assert!(c1.accept(s_units(500_000_000_000), h, &mut h1));
    let mut c2 = mk();
    let mut h2 = Scalar::zero();
    assert!(c2.accept(s_units(900_000_000_000), h, &mut h2));
    assert!(h1.units() >= h2.units(), "h1 {} < h2 {}", h1.units(), h2.units());
}

#[test]
fn rejection_suppresses_growth_on_the_next_call() {
    let mut c = Controller::new(
        s_units(170_000_000_000),
        s_units(40_000_000_000),
        s_int(10),
        s_units(200_000_000_000),
        s_int(1),
        s_units(900_000_000_000),
        s_int(1),
    );
    let h = s_units(10_000_000_000);
    let mut h_new = Scalar::zero();
    assert!(!c.accept(s_int(2), h, &mut h_new));
    // right after a rejection even a vanishing error may not grow the step
    assert!(c.accept(Scalar::zero(), h, &mut h_new));
    assert!(h_new.units() <= h.units(), "grew to {}", h_new.units());
}

#[test]
fn scalar_saturating_arithmetic() {
    assert_eq!(s_int(3).mul(s_int(2)).units(), 6 * SCALE);
    assert_eq!(s_int(3).div(s_int(2)).units(), SCALE + SCALE / 2);
    assert_eq!(s_int(4).sqrt().units(), 2 * SCALE);
    assert_eq!(s_int(-5).abs().units(), 5 * SCALE);
    assert_eq!(s_units(MAX_UNITS).add(s_units(MAX_UNITS)).units(), MAX_UNITS);
    assert_eq!(s_int(1).div(Scalar::zero()).units(), MAX_UNITS);
    assert_eq!(Scalar::zero().div(Scalar::zero()).units(), 0);
    // rounding is toward zero
    assert_eq!(s_units(-1).mul(s_units(1)).units(), 0);
}
