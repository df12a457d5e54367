//! A two-point averaging integrator for a pair of first-order equations,
//! started by the classical Runge-Kutta rule.
//!
//! The parameter `_e` is a parameter of the system that is integrated; the
//! method does not read it.

use vstd::prelude::*;
use crate::scalar::Scalar;
use crate::function::Mapping;
use crate::runge_kutta::{
    integrate, lemma_step_count, rk_trajectory, step_count, steps_from, time_after,
};

verus! {

/// The state one averaging step after the state `(x, z)` at time `t`: each
/// component moves by `h` times the mean of its rate at `(x, z, t)` and its
/// rate at `(x - h, z - h, t - h)`.
pub open spec fn averaged_advance<T: Scalar, F: Mapping<(T, T, T), (T, T)>>(
    f: F,
    h: T,
    x: T,
    z: T,
    t: T,
) -> (T, T) {
    let now = f.image((x, z, t));
    let before = f.image((x.minus_spec(h), z.minus_spec(h), t.minus_spec(h)));
    let two = T::from_int_spec(2);
    (
        x.plus_spec(h.times_spec(now.0.plus_spec(before.0)).over_spec(two)),
        z.plus_spec(h.times_spec(now.1.plus_spec(before.1)).over_spec(two)),
    )
}

/// The state after `k` averaging steps from `(x0, z0)` at time `t0`.
pub open spec fn averaged_point<T: Scalar, F: Mapping<(T, T, T), (T, T)>>(
    f: F,
    h: T,
    x0: T,
    z0: T,
    t0: T,
    k: nat,
) -> (T, T)
    decreases k,
{
    if k == 0 {
        (x0, z0)
    } else {
        let p = averaged_point(f, h, x0, z0, t0, (k - 1) as nat);
        averaged_advance(f, h, p.0, p.1, time_after(t0, h, (k - 1) as nat))
    }
}

/// The trajectory of the averaging integrator: the entries of the classical
/// Runge-Kutta rule run from `t0` up to `t0 + 2 h`, followed by one entry
/// for each averaging step from the initial state; the steps are taken while
/// the time is at most `t_end` and the trajectory holds fewer than `cap`
/// entries.
pub open spec fn averaged_trajectory<T: Scalar, F: Mapping<(T, T, T), (T, T)>>(
    f: F,
    x0: T,
    z0: T,
    t0: T,
    t_end: T,
    h: T,
    cap: nat,
) -> Seq<(T, T, T)> {
    let start = rk_trajectory(
        4,
        1,
        f,
        x0,
        z0,
        t0,
        t0.plus_spec(T::from_int_spec(2).times_spec(h)),
        h,
        cap,
    );
    start + Seq::new(
        step_count(t0, h, t_end, (cap - start.len()) as nat),
        |k: int|
            {
                let p = averaged_point(f, h, x0, z0, t0, (k + 1) as nat);
                (time_after(t0, h, (k + 1) as nat), p.0, p.1)
            },
    )
}

/// The two-point averaging integrator.
pub fn fdb<T: Scalar, F: Mapping<(T, T, T), (T, T)>>(
    f: F,
    x0: T,
    z0: T,
    t0: T,
    t_end: T,
    h: T,
    _e: T,
    max_steps: usize,
) -> (result: Vec<(T, T, T)>)
    ensures
        result@ == averaged_trajectory(f, x0, z0, t0, t_end, h, max_steps as nat),
{
    let mut t = t0;
    let mut x = x0;
    let mut z = z0;
    let t_start = t0.plus(T::from_int(2).times(h));
    let mut result = integrate(4, true, &f, x0, z0, t0, t_start, h, max_steps);
    let ghost start = result@;
    proof {
        lemma_step_count(t0, h, t_start, max_steps as nat, 0);
    }
    let n0 = result.len();
    let cap = max_steps - n0;
    let two = T::from_int(2);
    let mut k: usize = 0;
    while k < cap && t.less_eq(t_end)
        invariant
            k <= cap,
            cap == max_steps - n0,
            n0 <= max_steps,
            n0 == start.len(),
            two == T::from_int_spec(2),
            t == time_after(t0, h, k as nat),
            (x, z) == averaged_point(f, h, x0, z0, t0, k as nat),
            result.len() == n0 + k,
            forall|j: int| 0 <= j < n0 ==> #[trigger] result[j] == start[j],
            forall|j: int|
                0 <= j < k ==> #[trigger] result[n0 + j] == ({
                    let p = averaged_point(f, h, x0, z0, t0, (j + 1) as nat);
                    (time_after(t0, h, (j + 1) as nat), p.0, p.1)
                }),
            step_count(t0, h, t_end, cap as nat) == steps_from(t0, h, t_end, cap as nat, k as nat),
        decreases cap - k,
    {
        let (fx, fz) = f.apply((x, z, t));
        let (fx_prev, fz_prev) = f.apply((x.minus(h), z.minus(h), t.minus(h)));
        let dx = h.times(fx.plus(fx_prev)).over(two);
        let dz = h.times(fz.plus(fz_prev)).over(two);
        x = x.plus(dx);
        z = z.plus(dz);
        t = t.plus(h);
        result.push((t, x, z));
        k += 1;
    }
    proof {
        let whole = averaged_trajectory(f, x0, z0, t0, t_end, h, max_steps as nat);
        assert forall|i: int| 0 <= i < n0 + k implies result@[i] == whole[i] by {
            if i >= n0 {
                let j = i - n0;
                assert(result[n0 + j] == whole[i]);
            }
        }
    }
    result
}

} // verus!
