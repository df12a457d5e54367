//! Explicit Runge-Kutta integrators of orders one to four for a pair of
//! first-order equations `x' = f1(x, z, t)`, `z' = f2(x, z, t)`.
//!
//! All of them advance the time by adding the step `h` to it, and go on
//! while the time is at most `t_end`. A cap on the number of steps bounds
//! the run where the time would never pass `t_end`.
//!
//! The parameter `_e` of the integrators is a parameter of the system that
//! is integrated; the methods pass it along and do not read it.

use vstd::prelude::*;
use crate::scalar::Scalar;
use crate::function::Mapping;

verus! {

/// The time after `k` steps: `t0` with `h` added `k` times.
pub open spec fn time_after<T: Scalar>(t0: T, h: T, k: nat) -> T
    decreases k,
{
    if k == 0 {
        t0
    } else {
        time_after(t0, h, (k - 1) as nat).plus_spec(h)
    }
}

/// The number of the first step at or after `k` that is not taken: the
/// first whose time is not at most `t_end`, or `cap`.
pub open spec fn steps_from<T: Scalar>(t0: T, h: T, t_end: T, cap: nat, k: nat) -> nat
    decreases cap - k,
{
    if k >= cap || !time_after(t0, h, k).less_eq_spec(t_end) {
        k
    } else {
        steps_from(t0, h, t_end, cap, k + 1)
    }
}

/// The number of steps that a run from `t0` takes.
pub open spec fn step_count<T: Scalar>(t0: T, h: T, t_end: T, cap: nat) -> nat {
    steps_from(t0, h, t_end, cap, 0)
}

/// A run takes every step whose time is at most `t_end`, up to the first
/// that is not or up to the cap, and no other.
pub proof fn lemma_step_count<T: Scalar>(t0: T, h: T, t_end: T, cap: nat, k: nat)
    requires
        k <= cap,
    ensures
        k <= steps_from(t0, h, t_end, cap, k) <= cap,
        forall|j: nat|
            k <= j < steps_from(t0, h, t_end, cap, k) ==> (#[trigger] time_after(
                t0,
                h,
                j,
            )).less_eq_spec(t_end),
        steps_from(t0, h, t_end, cap, k) < cap ==> !time_after(
            t0,
            h,
            steps_from(t0, h, t_end, cap, k),
        ).less_eq_spec(t_end),
    decreases cap - k,
{
    if k < cap && time_after(t0, h, k).less_eq_spec(t_end) {
        lemma_step_count(t0, h, t_end, cap, k + 1);
    }
}

/// One half, as the quotient of one and two.
pub open spec fn half<T: Scalar>() -> T {
    T::from_int_spec(1).over_spec(T::from_int_spec(2))
}

/// The state `(x, z)` one step of the method of the given order after the
/// state `(x, z)` at time `t`.
///
/// Order one is Euler's method, order two the midpoint method, order three
/// Kutta's rule with stages at `t`, `t + h/2` and `t + h`, and order four
/// the classical rule. There are no other orders; the executable functions
/// accept these four only.
pub open spec fn rk_advance<T: Scalar, F: Mapping<(T, T, T), (T, T)>>(
    order: nat,
    f: F,
    h: T,
    x: T,
    z: T,
    t: T,
) -> (T, T) {
    let hh = half::<T>().times_spec(h);
    let k1 = f.image((x, z, t));
    let k2 = f.image((x.plus_spec(hh.times_spec(k1.0)), z.plus_spec(hh.times_spec(k1.1)), t.plus_spec(hh)));
    let two = T::from_int_spec(2);
    let sixth = h.over_spec(T::from_int_spec(6));
    if order == 1 {
        (x.plus_spec(h.times_spec(k1.0)), z.plus_spec(h.times_spec(k1.1)))
    } else if order == 2 {
        (x.plus_spec(h.times_spec(k2.0)), z.plus_spec(h.times_spec(k2.1)))
    } else if order == 3 {
        let th = two.times_spec(h);
        let k3 = f.image((x.minus_spec(h.times_spec(k1.0)).plus_spec(th.times_spec(k2.0)), z.minus_spec(h.times_spec(k1.1)).plus_spec(th.times_spec(k2.1)), t.plus_spec(h)));
        let four = T::from_int_spec(4);
        (
            x.plus_spec(sixth.times_spec(k1.0.plus_spec(four.times_spec(k2.0)).plus_spec(k3.0))),
            z.plus_spec(sixth.times_spec(k1.1.plus_spec(four.times_spec(k2.1)).plus_spec(k3.1))),
        )
    } else {
        let k3 = f.image((x.plus_spec(hh.times_spec(k2.0)), z.plus_spec(hh.times_spec(k2.1)), t.plus_spec(hh)));
        let k4 = f.image((x.plus_spec(h.times_spec(k3.0)), z.plus_spec(h.times_spec(k3.1)), t.plus_spec(h)));
        (
            x.plus_spec(
                sixth.times_spec(
                    k1.0.plus_spec(two.times_spec(k2.0)).plus_spec(two.times_spec(k3.0)).plus_spec(
                        k4.0,
                    ),
                ),
            ),
            z.plus_spec(
                sixth.times_spec(
                    k1.1.plus_spec(two.times_spec(k2.1)).plus_spec(two.times_spec(k3.1)).plus_spec(
                        k4.1,
                    ),
                ),
            ),
        )
    }
}

/// The state `(x, z)` after `k` steps from `(x0, z0)` at time `t0`.
pub open spec fn rk_point<T: Scalar, F: Mapping<(T, T, T), (T, T)>>(
    order: nat,
    f: F,
    h: T,
    x0: T,
    z0: T,
    t0: T,
    k: nat,
) -> (T, T)
    decreases k,
{
    if k == 0 {
        (x0, z0)
    } else {
        let p = rk_point(order, f, h, x0, z0, t0, (k - 1) as nat);
        rk_advance(order, f, h, p.0, p.1, time_after(t0, h, (k - 1) as nat))
    }
}

/// The entry `(t, x, z)` of the trajectory after `k` steps.
pub open spec fn rk_entry<T: Scalar, F: Mapping<(T, T, T), (T, T)>>(
    order: nat,
    f: F,
    h: T,
    x0: T,
    z0: T,
    t0: T,
    k: nat,
) -> (T, T, T) {
    let p = rk_point(order, f, h, x0, z0, t0, k);
    (time_after(t0, h, k), p.0, p.1)
}

/// The trajectory of a run: one entry for each step taken. With
/// `after == 0` a step records the state that it starts from, with
/// `after == 1` the state that it arrives at.
pub open spec fn rk_trajectory<T: Scalar, F: Mapping<(T, T, T), (T, T)>>(
    order: nat,
    after: nat,
    f: F,
    x0: T,
    z0: T,
    t0: T,
    t_end: T,
    h: T,
    cap: nat,
) -> Seq<(T, T, T)> {
    Seq::new(
        step_count(t0, h, t_end, cap),
        |k: int| rk_entry(order, f, h, x0, z0, t0, (k + after) as nat),
    )
}

/// Advances the state `(x, z)` at time `t` by one step of the given order.
pub fn advance<T: Scalar, F: Mapping<(T, T, T), (T, T)>>(
    order: usize,
    f: &F,
    h: T,
    x: T,
    z: T,
    t: T,
) -> (p: (T, T))
    requires
        1 <= order <= 4,
    ensures
        p == rk_advance(order as nat, *f, h, x, z, t),
{
    let (k1x, k1z) = f.apply((x, z, t));
    if order == 1 {
        return (x.plus(h.times(k1x)), z.plus(h.times(k1z)));
    }
    let hh = T::from_int(1).over(T::from_int(2)).times(h);
    let (k2x, k2z) = f.apply((x.plus(hh.times(k1x)), z.plus(hh.times(k1z)), t.plus(hh)));
    if order == 2 {
        return (x.plus(h.times(k2x)), z.plus(h.times(k2z)));
    }
    let two = T::from_int(2);
    let sixth = h.over(T::from_int(6));
    if order == 3 {
        let th = two.times(h);
        let (k3x, k3z) = f.apply((x.minus(h.times(k1x)).plus(th.times(k2x)), z.minus(h.times(k1z)).plus(th.times(k2z)), t.plus(h)));
        let four = T::from_int(4);
        return (
            x.plus(sixth.times(k1x.plus(four.times(k2x)).plus(k3x))),
            z.plus(sixth.times(k1z.plus(four.times(k2z)).plus(k3z))),
        );
    }
    let (k3x, k3z) = f.apply((x.plus(hh.times(k2x)), z.plus(hh.times(k2z)), t.plus(hh)));
    let (k4x, k4z) = f.apply((x.plus(h.times(k3x)), z.plus(h.times(k3z)), t.plus(h)));
    (
        x.plus(sixth.times(k1x.plus(two.times(k2x)).plus(two.times(k3x)).plus(k4x))),
        z.plus(sixth.times(k1z.plus(two.times(k2z)).plus(two.times(k3z)).plus(k4z))),
    )
}

/// Runs the method of the given order from `(x0, z0)` at `t0` while the time
/// is at most `t_end`, for at most `max_steps` steps.
pub fn integrate<T: Scalar, F: Mapping<(T, T, T), (T, T)>>(
    order: usize,
    record_after: bool,
    f: &F,
    x0: T,
    z0: T,
    t0: T,
    t_end: T,
    h: T,
    max_steps: usize,
) -> (result: Vec<(T, T, T)>)
    requires
        1 <= order <= 4,
    ensures
        result@ == rk_trajectory(
            order as nat,
            if record_after {
                1nat
            } else {
                0nat
            },
            *f,
            x0,
            z0,
            t0,
            t_end,
            h,
            max_steps as nat,
        ),
{
    let ghost after: nat = if record_after {
        1
    } else {
        0
    };
    let mut t = t0;
    let mut x = x0;
    let mut z = z0;
    let mut result: Vec<(T, T, T)> = Vec::new();
    let mut k: usize = 0;
    while k < max_steps && t.less_eq(t_end)
        invariant
            k <= max_steps,
            1 <= order <= 4,
            after == (if record_after {
                1nat
            } else {
                0nat
            }),
            t == time_after(t0, h, k as nat),
            (x, z) == rk_point(order as nat, *f, h, x0, z0, t0, k as nat),
            step_count(t0, h, t_end, max_steps as nat) == steps_from(
                t0,
                h,
                t_end,
                max_steps as nat,
                k as nat,
            ),
            result.len() == k,
            forall|j: int|
                0 <= j < k ==> #[trigger] result[j] == rk_entry(
                    order as nat,
                    *f,
                    h,
                    x0,
                    z0,
                    t0,
                    (j + after) as nat,
                ),
        decreases max_steps - k,
    {
        if !record_after {
            result.push((t, x, z));
        }
        let (xn, zn) = advance(order, f, h, x, z, t);
        x = xn;
        z = zn;
        t = t.plus(h);
        if record_after {
            result.push((t, x, z));
        }
        k += 1;
    }
    result
}

/// Euler's method. Each step records the state that it starts from.
pub fn runge_kutta1<T: Scalar, F: Mapping<(T, T, T), (T, T)>>(
    f: F,
    x0: T,
    z0: T,
    t0: T,
    t_end: T,
    h: T,
    _e: T,
    max_steps: usize,
) -> (result: Vec<(T, T, T)>)
    ensures
        result@ == rk_trajectory(1, 0, f, x0, z0, t0, t_end, h, max_steps as nat),
{
    integrate(1, false, &f, x0, z0, t0, t_end, h, max_steps)
}

/// The midpoint method. Each step records the state that it starts from.
pub fn runge_kutta2<T: Scalar, F: Mapping<(T, T, T), (T, T)>>(
    f: F,
    x0: T,
    z0: T,
    t0: T,
    t_end: T,
    h: T,
    _e: T,
    max_steps: usize,
) -> (result: Vec<(T, T, T)>)
    ensures
        result@ == rk_trajectory(2, 0, f, x0, z0, t0, t_end, h, max_steps as nat),
{
    integrate(2, false, &f, x0, z0, t0, t_end, h, max_steps)
}

/// Kutta's third-order rule. Each step records the state that it starts from.
pub fn runge_kutta3<T: Scalar, F: Mapping<(T, T, T), (T, T)>>(
    f: F,
    x0: T,
    z0: T,
    t0: T,
    t_end: T,
    h: T,
    _e: T,
    max_steps: usize,
) -> (result: Vec<(T, T, T)>)
    ensures
        result@ == rk_trajectory(3, 0, f, x0, z0, t0, t_end, h, max_steps as nat),
{
    integrate(3, false, &f, x0, z0, t0, t_end, h, max_steps)
}

/// The classical fourth-order rule. Each step records the state that it
/// arrives at, so the initial state is not part of the trajectory.
pub fn runge_kutta4<T: Scalar, F: Mapping<(T, T, T), (T, T)>>(
    f: F,
    x0: T,
    z0: T,
    t0: T,
    t_end: T,
    h: T,
    _e: T,
    max_steps: usize,
) -> (result: Vec<(T, T, T)>)
    ensures
        result@ == rk_trajectory(4, 1, f, x0, z0, t0, t_end, h, max_steps as nat),
{
    integrate(4, true, &f, x0, z0, t0, t_end, h, max_steps)
}

/// A trajectory holds one entry for each step taken, at most as many as
/// the cap allows; every step but the first not taken starts at a time that
/// is at most `t_end`.
pub proof fn lemma_trajectory_steps<T: Scalar, F: Mapping<(T, T, T), (T, T)>>(
    order: nat,
    after: nat,
    f: F,
    x0: T,
    z0: T,
    t0: T,
    t_end: T,
    h: T,
    cap: nat,
)
    ensures
        rk_trajectory(order, after, f, x0, z0, t0, t_end, h, cap).len() == step_count(
            t0,
            h,
            t_end,
            cap,
        ),
        step_count(t0, h, t_end, cap) <= cap,
        forall|k: nat|
            k < step_count(t0, h, t_end, cap) ==> (#[trigger] time_after(t0, h, k)).less_eq_spec(
                t_end,
            ),
        step_count(t0, h, t_end, cap) < cap ==> !time_after(
            t0,
            h,
            step_count(t0, h, t_end, cap),
        ).less_eq_spec(t_end),
{
    lemma_step_count(t0, h, t_end, cap, 0);
}

} // verus!
