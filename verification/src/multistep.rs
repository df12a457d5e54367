//! Adams-Bashforth and backward-differentiation integrators of orders two to
//! four for a pair of first-order equations.
//!
//! A method of order `p` is started by `p - 1` steps of the classical
//! Runge-Kutta rule. From then on every step applies the formula of the
//! method to the latest `p` states, of which the initial state is the first,
//! and is taken while the time of the latest state is at most `t_end`. The
//! time of every state is `h` after that of the state before. The
//! backward-differentiation formulas are the explicit ones: they use past
//! states and the rates at the current state only.

use vstd::prelude::*;
use crate::scalar::Scalar;
use crate::function::Mapping;
use crate::runge_kutta::{
    advance, lemma_step_count, rk_advance, rk_entry, rk_trajectory, steps_from, time_after,
};

verus! {

/// The family of a multistep formula.
#[derive(Clone, Copy, Debug, PartialEq, Eq, Structural)]
pub enum Family {
    /// Adams-Bashforth: the state moves by a combination of past rates.
    Adams,
    /// Backward differentiation, explicit: the new state is a combination of
    /// past states and the current rate.
    Bdf,
}

/// The quotient of the integers `p` and `q` as a scalar.
pub open spec fn ratio<T: Scalar>(p: i64, q: i64) -> T {
    T::from_int_spec(p).over_spec(T::from_int_spec(q))
}

/// The increment of one component by the Adams-Bashforth formula of the
/// given order, from the rate `f0` at the current state and the rates `f2`,
/// `f3` and `f4` at the second-, third- and fourth-latest entries:
/// `h/2 (3 f0 - f2)`, `h/12 (23 f0 - 16 f2 + 5 f3)` or
/// `h/24 (55 f0 - 59 f2 + 37 f3 - 9 f4)`.
pub open spec fn adams_increment<T: Scalar>(order: nat, h: T, f0: T, f2: T, f3: T, f4: T) -> T {
    if order == 2 {
        h.over_spec(T::from_int_spec(2)).times_spec(
            T::from_int_spec(3).times_spec(f0).minus_spec(f2),
        )
    } else if order == 3 {
        h.over_spec(T::from_int_spec(12)).times_spec(
            T::from_int_spec(23).times_spec(f0).minus_spec(
                T::from_int_spec(16).times_spec(f2),
            ).plus_spec(T::from_int_spec(5).times_spec(f3)),
        )
    } else {
        h.over_spec(T::from_int_spec(24)).times_spec(
            T::from_int_spec(55).times_spec(f0).minus_spec(
                T::from_int_spec(59).times_spec(f2),
            ).plus_spec(T::from_int_spec(37).times_spec(f3)).minus_spec(
                T::from_int_spec(9).times_spec(f4),
            ),
        )
    }
}

/// The new value of one component by the explicit backward-differentiation
/// formula of the given order, from the latest values `c1` to `c4` of the
/// component and its current rate `f0`:
/// `4/3 c1 - 1/3 c2 + 2/3 h f0`,
/// `18/11 c1 - 9/11 c2 + 2/11 c3 + 6/11 h f0` or
/// `48/25 c1 - 36/25 c2 + 16/25 c3 - 3/25 c4 + 12/25 h f0`.
pub open spec fn bdf_value<T: Scalar>(order: nat, h: T, f0: T, c1: T, c2: T, c3: T, c4: T) -> T {
    if order == 2 {
        ratio::<T>(4, 3).times_spec(c1).minus_spec(ratio::<T>(1, 3).times_spec(c2)).plus_spec(
            ratio::<T>(2, 3).times_spec(h).times_spec(f0),
        )
    } else if order == 3 {
        ratio::<T>(18, 11).times_spec(c1).minus_spec(ratio::<T>(9, 11).times_spec(c2)).plus_spec(
            ratio::<T>(2, 11).times_spec(c3),
        ).plus_spec(ratio::<T>(6, 11).times_spec(h).times_spec(f0))
    } else {
        ratio::<T>(48, 25).times_spec(c1).minus_spec(ratio::<T>(36, 25).times_spec(c2)).plus_spec(
            ratio::<T>(16, 25).times_spec(c3),
        ).minus_spec(ratio::<T>(3, 25).times_spec(c4)).plus_spec(
            ratio::<T>(12, 25).times_spec(h).times_spec(f0),
        )
    }
}

/// The index `j` places before `k`, and zero where there is none.
pub open spec fn back(k: nat, j: nat) -> nat {
    if k >= j {
        (k - j) as nat
    } else {
        0
    }
}

/// The state `(x, z)` after `k` steps from `(x0, z0)` at time `t0`.
///
/// The first `order - 1` steps are steps of the classical Runge-Kutta rule.
/// Every later step applies the formula of the family to the latest `order`
/// states, component by component: with `c1` the state before the step,
/// `c2` the one before that and so on, and with the rates taken at each
/// state and its own time.
pub open spec fn multistep_point<T: Scalar, F: Mapping<(T, T, T), (T, T)>>(
    family: Family,
    order: nat,
    f: F,
    h: T,
    x0: T,
    z0: T,
    t0: T,
    k: nat,
) -> (T, T)
    decreases k,
{
    if k == 0 {
        (x0, z0)
    } else if k < order {
        let p = multistep_point(family, order, f, h, x0, z0, t0, (k - 1) as nat);
        rk_advance(4, f, h, p.0, p.1, time_after(t0, h, (k - 1) as nat))
    } else {
        let c1 = multistep_point(family, order, f, h, x0, z0, t0, back(k, 1));
        let c2 = multistep_point(family, order, f, h, x0, z0, t0, back(k, 2));
        let c3 = multistep_point(family, order, f, h, x0, z0, t0, back(k, 3));
        let c4 = multistep_point(family, order, f, h, x0, z0, t0, back(k, 4));
        let f0 = f.image((c1.0, c1.1, time_after(t0, h, back(k, 1))));
        match family {
            Family::Adams => {
                let f2 = f.image((c2.0, c2.1, time_after(t0, h, back(k, 2))));
                let f3 = f.image((c3.0, c3.1, time_after(t0, h, back(k, 3))));
                let f4 = f.image((c4.0, c4.1, time_after(t0, h, back(k, 4))));
                (
                    c1.0.plus_spec(adams_increment(order, h, f0.0, f2.0, f3.0, f4.0)),
                    c1.1.plus_spec(adams_increment(order, h, f0.1, f2.1, f3.1, f4.1)),
                )
            },
            Family::Bdf => (
                bdf_value(order, h, f0.0, c1.0, c2.0, c3.0, c4.0),
                bdf_value(order, h, f0.1, c1.1, c2.1, c3.1, c4.1),
            ),
        }
    }
}

/// The record `(t, x, z)` of the state after `k` steps.
pub open spec fn multistep_entry<T: Scalar, F: Mapping<(T, T, T), (T, T)>>(
    family: Family,
    order: nat,
    f: F,
    h: T,
    x0: T,
    z0: T,
    t0: T,
    k: nat,
) -> (T, T, T) {
    let p = multistep_point(family, order, f, h, x0, z0, t0, k);
    (time_after(t0, h, k), p.0, p.1)
}

/// The number of steps of a run: the `order - 1` starting steps, and after
/// them every step whose state before it has a time of at most `t_end`, up
/// to the first that has not; never more than `cap`.
pub open spec fn multistep_count<T: Scalar>(order: nat, t0: T, h: T, t_end: T, cap: nat) -> nat {
    if cap + 1 <= order {
        cap
    } else {
        steps_from(t0, h, t_end, cap, (order - 1) as nat)
    }
}

/// The trajectory of a multistep run: one record for each step, of the
/// state that the step arrives at. The initial state is not recorded.
pub open spec fn multistep_trajectory<T: Scalar, F: Mapping<(T, T, T), (T, T)>>(
    family: Family,
    order: nat,
    f: F,
    x0: T,
    z0: T,
    t0: T,
    t_end: T,
    h: T,
    cap: nat,
) -> Seq<(T, T, T)> {
    Seq::new(
        multistep_count(order, t0, h, t_end, cap),
        |i: int| multistep_entry(family, order, f, h, x0, z0, t0, (i + 1) as nat),
    )
}

/// The quotient of two small integers.
fn quotient<T: Scalar>(p: i64, q: i64) -> (r: T)
    ensures
        r == ratio::<T>(p, q),
{
    T::from_int(p).over(T::from_int(q))
}

/// The Adams-Bashforth increment of one component.
fn increment<T: Scalar>(order: usize, h: T, f0: T, f2: T, f3: T, f4: T) -> (r: T)
    ensures
        r == adams_increment(order as nat, h, f0, f2, f3, f4),
{
    if order == 2 {
        h.over(T::from_int(2)).times(T::from_int(3).times(f0).minus(f2))
    } else if order == 3 {
        h.over(T::from_int(12)).times(
            T::from_int(23).times(f0).minus(T::from_int(16).times(f2)).plus(
                T::from_int(5).times(f3),
            ),
        )
    } else {
        h.over(T::from_int(24)).times(
            T::from_int(55).times(f0).minus(T::from_int(59).times(f2)).plus(
                T::from_int(37).times(f3),
            ).minus(T::from_int(9).times(f4)),
        )
    }
}

/// The backward-differentiation value of one component.
fn differentiated<T: Scalar>(order: usize, h: T, f0: T, c1: T, c2: T, c3: T, c4: T) -> (r: T)
    ensures
        r == bdf_value(order as nat, h, f0, c1, c2, c3, c4),
{
    if order == 2 {
        quotient::<T>(4, 3).times(c1).minus(quotient::<T>(1, 3).times(c2)).plus(
            quotient::<T>(2, 3).times(h).times(f0),
        )
    } else if order == 3 {
        quotient::<T>(18, 11).times(c1).minus(quotient::<T>(9, 11).times(c2)).plus(
            quotient::<T>(2, 11).times(c3),
        ).plus(quotient::<T>(6, 11).times(h).times(f0))
    } else {
        quotient::<T>(48, 25).times(c1).minus(quotient::<T>(36, 25).times(c2)).plus(
            quotient::<T>(16, 25).times(c3),
        ).minus(quotient::<T>(3, 25).times(c4)).plus(quotient::<T>(12, 25).times(h).times(f0))
    }
}

/// Runs the multistep method of the given family and order.
pub fn multistep<T: Scalar, F: Mapping<(T, T, T), (T, T)>>(
    family: Family,
    order: usize,
    f: &F,
    x0: T,
    z0: T,
    t0: T,
    t_end: T,
    h: T,
    max_steps: usize,
) -> (result: Vec<(T, T, T)>)
    requires
        2 <= order <= 4,
    ensures
        result@ == multistep_trajectory(
            family,
            order as nat,
            *f,
            x0,
            z0,
            t0,
            t_end,
            h,
            max_steps as nat,
        ),
{
    let mut result: Vec<(T, T, T)> = Vec::new();
    let mut c1 = (t0, x0, z0);
    let mut c2 = c1;
    let mut c3 = c1;
    let mut c4 = c1;
    let mut k: usize = 0;
    while k < order - 1 && k < max_steps
        invariant
            2 <= order <= 4,
            k <= order - 1,
            k <= max_steps,
            result.len() == k,
            c1 == multistep_entry(family, order as nat, *f, h, x0, z0, t0, k as nat),
            c2 == multistep_entry(family, order as nat, *f, h, x0, z0, t0, back(k as nat, 1)),
            c3 == multistep_entry(family, order as nat, *f, h, x0, z0, t0, back(k as nat, 2)),
            c4 == multistep_entry(family, order as nat, *f, h, x0, z0, t0, back(k as nat, 3)),
            forall|i: int|
                0 <= i < k ==> #[trigger] result[i] == multistep_entry(
                    family,
                    order as nat,
                    *f,
                    h,
                    x0,
                    z0,
                    t0,
                    (i + 1) as nat,
                ),
        decreases order - 1 - k,
    {
        let (x, z) = advance(4, f, h, c1.1, c1.2, c1.0);
        let t = c1.0.plus(h);
        c4 = c3;
        c3 = c2;
        c2 = c1;
        c1 = (t, x, z);
        result.push(c1);
        k += 1;
    }
    if k < order - 1 {
        return result;
    }
    proof {
        lemma_step_count(t0, h, t_end, max_steps as nat, k as nat);
    }
    while k < max_steps && c1.0.less_eq(t_end)
        invariant
            2 <= order <= 4,
            order - 1 <= k <= max_steps,
            result.len() == k,
            c1 == multistep_entry(family, order as nat, *f, h, x0, z0, t0, k as nat),
            c2 == multistep_entry(family, order as nat, *f, h, x0, z0, t0, back(k as nat, 1)),
            c3 == multistep_entry(family, order as nat, *f, h, x0, z0, t0, back(k as nat, 2)),
            c4 == multistep_entry(family, order as nat, *f, h, x0, z0, t0, back(k as nat, 3)),
            forall|i: int|
                0 <= i < k ==> #[trigger] result[i] == multistep_entry(
                    family,
                    order as nat,
                    *f,
                    h,
                    x0,
                    z0,
                    t0,
                    (i + 1) as nat,
                ),
            steps_from(t0, h, t_end, max_steps as nat, (order - 1) as nat) == steps_from(
                t0,
                h,
                t_end,
                max_steps as nat,
                k as nat,
            ),
        decreases max_steps - k,
    {
        let (fx, fz) = f.apply((c1.1, c1.2, c1.0));
        let x;
        let z;
        match family {
            Family::Adams => {
                let f2 = f.apply((c2.1, c2.2, c2.0));
                let f3 = if order >= 3 {
                    f.apply((c3.1, c3.2, c3.0))
                } else {
                    (fx, fz)
                };
                let f4 = if order >= 4 {
                    f.apply((c4.1, c4.2, c4.0))
                } else {
                    (fx, fz)
                };
                x = c1.1.plus(increment(order, h, fx, f2.0, f3.0, f4.0));
                z = c1.2.plus(increment(order, h, fz, f2.1, f3.1, f4.1));
            },
            Family::Bdf => {
                x = differentiated(order, h, fx, c1.1, c2.1, c3.1, c4.1);
                z = differentiated(order, h, fz, c1.2, c2.2, c3.2, c4.2);
            },
        }
        let t = c1.0.plus(h);
        c4 = c3;
        c3 = c2;
        c2 = c1;
        c1 = (t, x, z);
        result.push(c1);
        k += 1;
    }
    result
}

/// The first `order - 1` steps are those of the classical Runge-Kutta rule.
pub proof fn lemma_multistep_starts_classically<T: Scalar, F: Mapping<(T, T, T), (T, T)>>(
    family: Family,
    order: nat,
    f: F,
    h: T,
    x0: T,
    z0: T,
    t0: T,
    k: nat,
)
    requires
        k < order,
    ensures
        multistep_entry(family, order, f, h, x0, z0, t0, k) == rk_entry(4, f, h, x0, z0, t0, k),
    decreases k,
{
    if k > 0 {
        lemma_multistep_starts_classically(family, order, f, h, x0, z0, t0, (k - 1) as nat);
    }
}

/// The shape of a multistep trajectory: it holds at most `cap` records and,
/// where the cap allows, at least the `order - 1` records of the start; its
/// first record has the time `t0 + h`, and the time of every other record is
/// `h` after that of the record before; its records before the `order`-th
/// are those of the classical Runge-Kutta rule.
pub proof fn lemma_multistep_trajectory_shape<T: Scalar, F: Mapping<(T, T, T), (T, T)>>(
    family: Family,
    order: nat,
    f: F,
    x0: T,
    z0: T,
    t0: T,
    t_end: T,
    h: T,
    cap: nat,
)
    requires
        order >= 1,
    ensures
        ({
            let path = multistep_trajectory(family, order, f, x0, z0, t0, t_end, h, cap);
            &&& path.len() <= cap
            &&& cap >= order - 1 ==> path.len() >= order - 1
            &&& path.len() >= 1 ==> path[0].0 == t0.plus_spec(h)
            &&& forall|i: int| 0 <= i < path.len() - 1 ==> (#[trigger] path[i + 1]).0 == path[i].0.plus_spec(h)
            &&& forall|i: int|
                0 <= i < path.len() && i + 1 < order ==> #[trigger] path[i] == rk_entry(
                    4,
                    f,
                    h,
                    x0,
                    z0,
                    t0,
                    (i + 1) as nat,
                )
        }),
{
    let path = multistep_trajectory(family, order, f, x0, z0, t0, t_end, h, cap);
    if cap + 1 > order {
        lemma_step_count(t0, h, t_end, cap, (order - 1) as nat);
    }
    assert forall|i: int| 0 <= i < path.len() && i + 1 < order implies #[trigger] path[i] == rk_entry(
        4,
        f,
        h,
        x0,
        z0,
        t0,
        (i + 1) as nat,
    ) by {
        lemma_multistep_starts_classically(family, order, f, h, x0, z0, t0, (i + 1) as nat);
    }
    assert(time_after(t0, h, 1) == t0.plus_spec(h)) by {
        assert(time_after(t0, h, 0) == t0);
    }
}

/// Step `i` is taken: it is within the cap and begins at a time of at most
/// `t_end`.
pub open spec fn takes_step<T: Scalar>(t0: T, h: T, t_end: T, cap: nat, i: nat) -> bool {
    i < cap && time_after(t0, h, i).less_eq_spec(t_end)
}

/// A run that takes the steps from `k` up to `j` takes as many steps
/// counted from `j` as counted from `k`.
pub proof fn lemma_steps_from_later<T: Scalar>(t0: T, h: T, t_end: T, cap: nat, k: nat, j: nat)
    requires
        k <= j,
        forall|i: nat| k <= i < j ==> #[trigger] takes_step(t0, h, t_end, cap, i),
    ensures
        steps_from(t0, h, t_end, cap, k) == steps_from(t0, h, t_end, cap, j),
    decreases j - k,
{
    if k < j {
        assert(takes_step(t0, h, t_end, cap, k));
        lemma_steps_from_later(t0, h, t_end, cap, k + 1, j);
    }
}

/// Where the starting steps within the cap begin at times of at most
/// `t_end`, a multistep trajectory has the records of the classical
/// Runge-Kutta rule's trajectory one for one: as many of them, and each at
/// the same time.
pub proof fn lemma_multistep_shares_the_grid<T: Scalar, F: Mapping<(T, T, T), (T, T)>>(
    family: Family,
    order: nat,
    f: F,
    x0: T,
    z0: T,
    t0: T,
    t_end: T,
    h: T,
    cap: nat,
)
    requires
        order >= 1,
        forall|i: nat| i + 1 < order && i < cap ==> #[trigger] takes_step(t0, h, t_end, cap, i),
    ensures
        ({
            let path = multistep_trajectory(family, order, f, x0, z0, t0, t_end, h, cap);
            let classical = rk_trajectory(4, 1, f, x0, z0, t0, t_end, h, cap);
            &&& path.len() == classical.len()
            &&& forall|i: int| 0 <= i < path.len() ==> (#[trigger] path[i]).0 == classical[i].0
        }),
{
    if cap + 1 <= order {
        lemma_steps_from_later(t0, h, t_end, cap, 0, cap);
    } else {
        lemma_steps_from_later(t0, h, t_end, cap, 0, (order - 1) as nat);
    }
}

} // verus!
