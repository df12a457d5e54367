//! The Adams-Bashforth methods of orders two, three and four.
//!
//! The parameter `_e` is a parameter of the system that is integrated; the
//! methods do not read it.

use vstd::prelude::*;
use crate::scalar::Scalar;
use crate::function::Mapping;
use crate::multistep::{multistep, multistep_trajectory, Family};

verus! {

/// The two-step Adams-Bashforth method.
///
/// The trajectory holds the state after each step, beginning with the steps
/// of the starting rule; it does not hold the initial state, and never more
/// than `max_steps` records.
pub fn adams2<T: Scalar, F: Mapping<(T, T, T), (T, T)>>(
    f: F,
    x0: T,
    z0: T,
    t0: T,
    t_end: T,
    h: T,
    _e: T,
    max_steps: usize,
) -> (result: Vec<(T, T, T)>)
    ensures
        result@ == multistep_trajectory(
            Family::Adams,
            2,
            f,
            x0,
            z0,
            t0,
            t_end,
            h,
            max_steps as nat,
        ),
{
    multistep(Family::Adams, 2, &f, x0, z0, t0, t_end, h, max_steps)
}

/// The three-step Adams-Bashforth method.
///
/// The trajectory holds the state after each step, beginning with the steps
/// of the starting rule; it does not hold the initial state, and never more
/// than `max_steps` records.
pub fn adams3<T: Scalar, F: Mapping<(T, T, T), (T, T)>>(
    f: F,
    x0: T,
    z0: T,
    t0: T,
    t_end: T,
    h: T,
    _e: T,
    max_steps: usize,
) -> (result: Vec<(T, T, T)>)
    ensures
        result@ == multistep_trajectory(
            Family::Adams,
            3,
            f,
            x0,
            z0,
            t0,
            t_end,
            h,
            max_steps as nat,
        ),
{
    multistep(Family::Adams, 3, &f, x0, z0, t0, t_end, h, max_steps)
}

/// The four-step Adams-Bashforth method.
///
/// The trajectory holds the state after each step, beginning with the steps
/// of the starting rule; it does not hold the initial state, and never more
/// than `max_steps` records.
pub fn adams4<T: Scalar, F: Mapping<(T, T, T), (T, T)>>(
    f: F,
    x0: T,
    z0: T,
    t0: T,
    t_end: T,
    h: T,
    _e: T,
    max_steps: usize,
) -> (result: Vec<(T, T, T)>)
    ensures
        result@ == multistep_trajectory(
            Family::Adams,
            4,
            f,
            x0,
            z0,
            t0,
            t_end,
            h,
            max_steps as nat,
        ),
{
    multistep(Family::Adams, 4, &f, x0, z0, t0, t_end, h, max_steps)
}

} // verus!
