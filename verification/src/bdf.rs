//! The explicit backward-differentiation formulas of orders two, three and four.
//!
//! The parameter `_e` is a parameter of the system that is integrated; the
//! methods do not read it.

use vstd::prelude::*;
use crate::scalar::Scalar;
use crate::function::Mapping;
use crate::multistep::{multistep, multistep_trajectory, Family};

verus! {

/// The explicit backward-differentiation formula of order two.
///
/// The trajectory holds the state after each step, beginning with the steps
/// of the starting rule; it does not hold the initial state, and never more
/// than `max_steps` records.
pub fn bdf2<T: Scalar, F: Mapping<(T, T, T), (T, T)>>(
    f: F,
    x0: T,
    z0: T,
    t0: T,
    t_end: T,
    h: T,
    _e: T,
    max_steps: usize,
) -> (result: Vec<(T, T, T)>)
    ensures
        result@ == multistep_trajectory(
            Family::Bdf,
            2,
            f,
            x0,
            z0,
            t0,
            t_end,
            h,
            max_steps as nat,
        ),
{
    multistep(Family::Bdf, 2, &f, x0, z0, t0, t_end, h, max_steps)
}

/// The explicit backward-differentiation formula of order three.
///
/// The trajectory holds the state after each step, beginning with the steps
/// of the starting rule; it does not hold the initial state, and never more
/// than `max_steps` records.
pub fn bdf3<T: Scalar, F: Mapping<(T, T, T), (T, T)>>(
    f: F,
    x0: T,
    z0: T,
    t0: T,
    t_end: T,
    h: T,
    _e: T,
    max_steps: usize,
) -> (result: Vec<(T, T, T)>)
    ensures
        result@ == multistep_trajectory(
            Family::Bdf,
            3,
            f,
            x0,
            z0,
            t0,
            t_end,
            h,
            max_steps as nat,
        ),
{
    multistep(Family::Bdf, 3, &f, x0, z0, t0, t_end, h, max_steps)
}

/// The explicit backward-differentiation formula of order four.
///
/// The trajectory holds the state after each step, beginning with the steps
/// of the starting rule; it does not hold the initial state, and never more
/// than `max_steps` records.
pub fn bdf4<T: Scalar, F: Mapping<(T, T, T), (T, T)>>(
    f: F,
    x0: T,
    z0: T,
    t0: T,
    t_end: T,
    h: T,
    _e: T,
    max_steps: usize,
) -> (result: Vec<(T, T, T)>)
    ensures
        result@ == multistep_trajectory(
            Family::Bdf,
            4,
            f,
            x0,
            z0,
            t0,
            t_end,
            h,
            max_steps as nat,
        ),
{
    multistep(Family::Bdf, 4, &f, x0, z0, t0, t_end, h, max_steps)
}

} // verus!
