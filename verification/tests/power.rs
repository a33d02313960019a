use ode_solvers::power::{nth_root, pow_int, rpow};
use ode_solvers::scalar::{Scalar, SCALE};

#[test]
fn integer_powers_are_exact_on_integers() {
    let two = Scalar::from_int(2);
    assert_eq!(pow_int(two, 0).units(), SCALE);
    assert_eq!(pow_int(two, 10).units(), 1024 * SCALE);
}

#[test]
fn roots_of_perfect_powers_are_exact() {
    assert_eq!(nth_root(Scalar::from_int(4), 2).units(), 2 * SCALE);
    assert_eq!(nth_root(Scalar::from_int(27), 3).units(), 3 * SCALE);
    assert_eq!(nth_root(Scalar::one(), 100).units(), SCALE);
}

#[test]
fn root_is_the_largest_base_within_the_target() {
    // under truncation many tiny bases have a vanishing 100th power; the
    // root of zero is the largest of them
    let r = nth_root(Scalar::zero(), 100);
    assert_eq!(pow_int(r, 100).units(), 0);
    assert!(pow_int(Scalar::from_units(r.units() + 1), 100).units() > 0);
}

#[test]
fn rational_power_matches_the_real_value() {
    // 0.5^(17/100) = 0.88896...; the kernel is exact to the last unit or so
    let r = rpow(Scalar::from_units(SCALE / 2), 17, 100);
    let expected = 888_842_681_167i128;
    assert!((r.units() - expected).abs() <= 60, "got {}", r.units());
}

#[test]
fn rational_power_is_monotone() {
    let lo = rpow(Scalar::from_units(300_000_000_000), 17, 100);
    let hi = rpow(Scalar::from_units(900_000_000_000), 17, 100);
    assert!(lo.units() <= hi.units());
}
