use ode_solvers::tableau::Dopri54;
use ode_solvers::scalar::SCALE;

#[test]
fn node_abscissae() {
    let t = Dopri54::new();
    assert_eq!(t.c(2).units(), SCALE / 5);
    assert_eq!(t.c(3).units(), 3 * SCALE / 10);
    assert_eq!(t.c(4).units(), 4 * SCALE / 5);
    assert_eq!(t.c(5).units(), 888_888_888_889);
    assert_eq!(t.c(6).units(), SCALE);
    assert_eq!(t.c(7).units(), SCALE);
}

#[test]
fn stage_rows_sum_to_the_abscissae() {
    // consistency of the tableau: sum_j a(s, j) == c(s), up to the
    // rounding of each entry to a unit
    let t = Dopri54::new();
    for s in 2..8usize {
        let mut sum: i128 = 0;
        for j in 1..s {
            sum += t.a(s, j).units();
        }
        let diff = (sum - t.c(s).units()).abs();
        assert!(diff <= 3, "row {} off by {}", s, diff);
    }
}

#[test]
fn error_weights_sum_to_zero() {
    // the embedded pair shares the quadrature order, so the difference
    // of the weight rows sums to zero
    let t = Dopri54::new();
    let mut sum: i128 = 0;
    for s in 1..8usize {
        sum += t.e(s).units();
    }
    assert!(sum.abs() <= 3, "error weights sum to {}", sum);
}

#[test]
fn selected_exact_entries() {
    let t = Dopri54::new();
    assert_eq!(t.a(2, 1).units(), 200_000_000_000);
    assert_eq!(t.a(7, 2).units(), 0);
    assert_eq!(t.e(7).units(), -25_000_000_000);
    assert_eq!(t.d(2).units(), 0);
    assert_eq!(t.a(1, 1).units(), 0); // outside the tableau reads as zero
}
