//! Butcher tableau of the Dormand-Prince 5(4) pair, with its dense-output
//! weights, held as exact fixed-point unit counts.
//!
//! `a` gives the stage combination coefficients, `c` the node abscissae,
//! `e` the embedded error-estimate weights and `d` the dense-output
//! weights.  Pure data: the accessors only look coefficients up, and any
//! index outside the tableau reads as zero.

use vstd::prelude::*;
use crate::scalar::Scalar;

verus! {

pub open spec fn a_units(s: int, j: int) -> int {
    if s == 2 && j == 1 {
        200000000000
    } else if s == 3 && j == 1 {
        75000000000
    } else if s == 3 && j == 2 {
        225000000000
    } else if s == 4 && j == 1 {
        977777777778
    } else if s == 4 && j == 2 {
        -3733333333333
    } else if s == 4 && j == 3 {
        3555555555556
    } else if s == 5 && j == 1 {
        2952598689224
    } else if s == 5 && j == 2 {
        -11595793324188
    } else if s == 5 && j == 3 {
        9822892851699
    } else if s == 5 && j == 4 {
        -290809327846
    } else if s == 6 && j == 1 {
        2846275252525
    } else if s == 6 && j == 2 {
        -10757575757576
    } else if s == 6 && j == 3 {
        8906422717743
    } else if s == 6 && j == 4 {
        278409090909
    } else if s == 6 && j == 5 {
        -273531303602
    } else if s == 7 && j == 1 {
        91145833333
    } else if s == 7 && j == 2 {
        0
    } else if s == 7 && j == 3 {
        449236298293
    } else if s == 7 && j == 4 {
        651041666667
    } else if s == 7 && j == 5 {
        -322376179245
    } else if s == 7 && j == 6 {
        130952380952
    } else {
        0
    }
}

pub open spec fn c_units(s: int) -> int {
    if s == 2 {
        200000000000
    } else if s == 3 {
        300000000000
    } else if s == 4 {
        800000000000
    } else if s == 5 {
        888888888889
    } else if s == 6 {
        1000000000000
    } else if s == 7 {
        1000000000000
    } else {
        0
    }
}

pub open spec fn e_units(s: int) -> int {
    if s == 1 {
        1232638889
    } else if s == 2 {
        0
    } else if s == 3 {
        -4252770291
    } else if s == 4 {
        36979166667
    } else if s == 5 {
        -50863797170
    } else if s == 6 {
        41904761905
    } else if s == 7 {
        -25000000000
    } else {
        0
    }
}

pub open spec fn d_units(s: int) -> int {
    if s == 1 {
        -1127017565386
    } else if s == 2 {
        0
    } else if s == 3 {
        2675424484352
    } else if s == 4 {
        -5685526961589
    } else if s == 5 {
        3521932367921
    } else if s == 6 {
        -1767281257076
    } else if s == 7 {
        2382468931778
    } else {
        0
    }
}

/// Coefficient tables of the order 5(4) Dormand-Prince pair.
pub struct Dopri54 {}

impl Dopri54 {
    #[allow(clippy::new_without_default)]
    pub fn new() -> Dopri54 {
        Dopri54 {}
    }

    /// Stage combination coefficient `a(s, j)`.
    pub fn a(&self, s: usize, j: usize) -> (r: Scalar)
        ensures
            r@ == a_units(s as int, j as int),
            r.wf(),
    {
        Scalar::from_units(
            if s == 2 && j == 1 {
                200000000000
            } else if s == 3 && j == 1 {
                75000000000
            } else if s == 3 && j == 2 {
                225000000000
            } else if s == 4 && j == 1 {
                977777777778
            } else if s == 4 && j == 2 {
                -3733333333333
            } else if s == 4 && j == 3 {
                3555555555556
            } else if s == 5 && j == 1 {
                2952598689224
            } else if s == 5 && j == 2 {
                -11595793324188
            } else if s == 5 && j == 3 {
                9822892851699
            } else if s == 5 && j == 4 {
                -290809327846
            } else if s == 6 && j == 1 {
                2846275252525
            } else if s == 6 && j == 2 {
                -10757575757576
            } else if s == 6 && j == 3 {
                8906422717743
            } else if s == 6 && j == 4 {
                278409090909
            } else if s == 6 && j == 5 {
                -273531303602
            } else if s == 7 && j == 1 {
                91145833333
            } else if s == 7 && j == 2 {
                0
            } else if s == 7 && j == 3 {
                449236298293
            } else if s == 7 && j == 4 {
                651041666667
            } else if s == 7 && j == 5 {
                -322376179245
            } else if s == 7 && j == 6 {
                130952380952
            } else {
                0
            },
        )
    }

    /// Node abscissa `c(s)`.
    pub fn c(&self, s: usize) -> (r: Scalar)
        ensures
            r@ == c_units(s as int),
            r.wf(),
    {
        Scalar::from_units(
            if s == 2 {
                200000000000
            } else if s == 3 {
                300000000000
            } else if s == 4 {
                800000000000
            } else if s == 5 {
                888888888889
            } else if s == 6 {
                1000000000000
            } else if s == 7 {
                1000000000000
            } else {
                0
            },
        )
    }

    /// Embedded error-estimate weight `e(s)`.
    pub fn e(&self, s: usize) -> (r: Scalar)
        ensures
            r@ == e_units(s as int),
            r.wf(),
    {
        Scalar::from_units(
            if s == 1 {
                1232638889
            } else if s == 2 {
                0
            } else if s == 3 {
                -4252770291
            } else if s == 4 {
                36979166667
            } else if s == 5 {
                -50863797170
            } else if s == 6 {
                41904761905
            } else if s == 7 {
                -25000000000
            } else {
                0
            },
        )
    }

    /// Dense-output weight `d(s)`.
    pub fn d(&self, s: usize) -> (r: Scalar)
        ensures
            r@ == d_units(s as int),
            r.wf(),
    {
        Scalar::from_units(
            if s == 1 {
                -1127017565386
            } else if s == 2 {
                0
            } else if s == 3 {
                2675424484352
            } else if s == 4 {
                -5685526961589
            } else if s == 5 {
                3521932367921
            } else if s == 6 {
                -1767281257076
            } else if s == 7 {
                2382468931778
            } else {
                0
            },
        )
    }
}

} // verus!
