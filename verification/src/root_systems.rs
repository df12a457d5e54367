//! Roots of two equations in two unknowns: fixed-point iteration and
//! Newton's method, whose 2x2 correction is solved in closed form from a
//! Jacobian estimated by central differences.
//!
//! The size of a step is the mean of the magnitudes of its two components.
//! A candidate is accepted only if the last step and both equations at the
//! candidate are below the tolerance in magnitude.

use vstd::prelude::*;
use crate::scalar::Scalar;
use crate::function::Mapping;
use crate::roots::RootFailure;

verus! {

/// The mean `(|dx| + |dy|) / 2` of the magnitudes of the components of a step.
pub open spec fn mean_magnitude<T: Scalar>(dx: T, dy: T) -> T {
    dx.abs_spec().plus_spec(dy.abs_spec()).over_spec(T::from_int_spec(2))
}

/// Both `f1` and `f2` are below `tolerance` in magnitude at `p`.
pub open spec fn system_satisfied<T: Scalar, F1: Mapping<(T, T), T>, F2: Mapping<(T, T), T>>(
    f1: F1,
    f2: F2,
    p: (T, T),
    tolerance: T,
) -> bool {
    f1.image((p.0, p.1)).abs_spec().less_spec(tolerance) && f2.image((p.0, p.1)).abs_spec().less_spec(
        tolerance,
    )
}

/// The iterate `(x_k, y_k)` of `x_{k+1} = g1(x_k, y_k)`, `y_{k+1} = g2(x_k, y_k)`.
pub open spec fn plane_iterate<T, G1: Mapping<(T, T), T>, G2: Mapping<(T, T), T>>(
    g1: G1,
    g2: G2,
    p0: (T, T),
    k: nat,
) -> (T, T)
    decreases k,
{
    if k == 0 {
        p0
    } else {
        let p = plane_iterate(g1, g2, p0, (k - 1) as nat);
        (g1.image((p.0, p.1)), g2.image((p.0, p.1)))
    }
}

/// The size of step `k >= 1` of the fixed-point iteration in the plane.
pub open spec fn plane_step<T: Scalar, G1: Mapping<(T, T), T>, G2: Mapping<(T, T), T>>(
    g1: G1,
    g2: G2,
    p0: (T, T),
    k: nat,
) -> T {
    let p = plane_iterate(g1, g2, p0, k);
    let q = plane_iterate(g1, g2, p0, (k - 1) as nat);
    mean_magnitude(p.0.minus_spec(q.0), p.1.minus_spec(q.1))
}

/// Fixed-point iteration in the plane for a common root of `f1` and `f2`.
///
/// Stops at the first step below `tol`. The point reached is returned with
/// the sizes of all steps if both equations hold to `tol` there, and is
/// rejected otherwise.
pub fn mpi_system<
    T: Scalar,
    G1: Mapping<(T, T), T>,
    G2: Mapping<(T, T), T>,
    F1: Mapping<(T, T), T>,
    F2: Mapping<(T, T), T>,
>(g1: G1, g2: G2, f1: F1, f2: F2, x0: T, y0: T, tol: T, max_iter: usize) -> (out: Result<
    (T, T, Vec<T>),
    RootFailure<(T, T)>,
>)
    ensures
        match out {
            Ok((x, y, errors)) => {
                let k = errors.len() as nat;
                &&& 1 <= k <= max_iter
                &&& (x, y) == plane_iterate(g1, g2, (x0, y0), k)
                &&& errors@ == Seq::new(k, |j: int| plane_step(g1, g2, (x0, y0), (j + 1) as nat))
                &&& forall|j: nat| 1 <= j < k ==> !plane_step(g1, g2, (x0, y0), j).less_spec(tol)
                &&& plane_step(g1, g2, (x0, y0), k).less_spec(tol)
                &&& system_satisfied(f1, f2, (x, y), tol)
            },
            Err(RootFailure::Rejected { steps, candidate, residual }) => {
                &&& 1 <= steps <= max_iter
                &&& candidate == plane_iterate(g1, g2, (x0, y0), steps as nat)
                &&& residual == (
                    f1.image((candidate.0, candidate.1)),
                    f2.image((candidate.0, candidate.1)),
                )
                &&& forall|j: nat|
                    1 <= j < steps ==> !plane_step(g1, g2, (x0, y0), j).less_spec(tol)
                &&& plane_step(g1, g2, (x0, y0), steps as nat).less_spec(tol)
                &&& !system_satisfied(f1, f2, candidate, tol)
            },
            Err(RootFailure::NotConverged) => forall|j: nat|
                1 <= j <= max_iter ==> !plane_step(g1, g2, (x0, y0), j).less_spec(tol),
            Err(RootFailure::Degenerate { .. }) => false,
        },
{
    let mut x = x0;
    let mut y = y0;
    let mut errors: Vec<T> = Vec::new();
    let mut k: usize = 0;
    while k < max_iter
        invariant
            k <= max_iter,
            (x, y) == plane_iterate(g1, g2, (x0, y0), k as nat),
            errors@ == Seq::new(k as nat, |j: int| plane_step(g1, g2, (x0, y0), (j + 1) as nat)),
            forall|j: nat| 1 <= j <= k ==> !plane_step(g1, g2, (x0, y0), j).less_spec(tol),
        decreases max_iter - k,
    {
        let x_new = g1.apply((x, y));
        let y_new = g2.apply((x, y));
        let error = x_new.minus(x).abs().plus(y_new.minus(y).abs()).over(T::from_int(2));
        errors.push(error);
        assert(errors@ =~= Seq::new(
            (k + 1) as nat,
            |j: int| plane_step(g1, g2, (x0, y0), (j + 1) as nat),
        ));
        if error.less(tol) {
            let r1 = f1.apply((x_new, y_new));
            let r2 = f2.apply((x_new, y_new));
            if r1.abs().less(tol) && r2.abs().less(tol) {
                return Ok((x_new, y_new, errors));
            } else {
                return Err(
                    RootFailure::Rejected {
                        steps: k + 1,
                        candidate: (x_new, y_new),
                        residual: (r1, r2),
                    },
                );
            }
        }
        x = x_new;
        y = y_new;
        k += 1;
    }
    Err(RootFailure::NotConverged)
}

/// The central difference of `f` in its first argument.
pub open spec fn partial_x<T: Scalar, F: Mapping<(T, T), T>>(f: F, x: T, y: T, h: T) -> T {
    f.image((x.plus_spec(h), y)).minus_spec(f.image((x.minus_spec(h), y))).over_spec(
        T::from_int_spec(2).times_spec(h),
    )
}

/// The central difference of `f` in its second argument.
pub open spec fn partial_y<T: Scalar, F: Mapping<(T, T), T>>(f: F, x: T, y: T, h: T) -> T {
    f.image((x, y.plus_spec(h))).minus_spec(f.image((x, y.minus_spec(h)))).over_spec(
        T::from_int_spec(2).times_spec(h),
    )
}

/// The determinant `j11 j22 - j12 j21` of the estimated Jacobian at `p`.
pub open spec fn jacobian_determinant<T: Scalar, F1: Mapping<(T, T), T>, F2: Mapping<(T, T), T>>(
    f1: F1,
    f2: F2,
    p: (T, T),
    h: T,
) -> T {
    partial_x(f1, p.0, p.1, h).times_spec(partial_y(f2, p.0, p.1, h)).minus_spec(
        partial_y(f1, p.0, p.1, h).times_spec(partial_x(f2, p.0, p.1, h)),
    )
}

/// The Newton correction at `p`: the solution of the 2x2 system with the
/// estimated Jacobian, in closed form:
/// `((-f1 j22 + f2 j12) / det, (f1 j21 - f2 j11) / det)`.
pub open spec fn newton_correction<T: Scalar, F1: Mapping<(T, T), T>, F2: Mapping<(T, T), T>>(
    f1: F1,
    f2: F2,
    p: (T, T),
    h: T,
) -> (T, T) {
    let fx = f1.image((p.0, p.1));
    let fy = f2.image((p.0, p.1));
    let j11 = partial_x(f1, p.0, p.1, h);
    let j12 = partial_y(f1, p.0, p.1, h);
    let j21 = partial_x(f2, p.0, p.1, h);
    let j22 = partial_y(f2, p.0, p.1, h);
    let det = jacobian_determinant(f1, f2, p, h);
    (
        fx.neg_spec().times_spec(j22).plus_spec(fy.times_spec(j12)).over_spec(det),
        fx.times_spec(j21).minus_spec(fy.times_spec(j11)).over_spec(det),
    )
}

/// The iterate `(x_k, y_k)` of Newton's method in the plane.
pub open spec fn newton_plane_iterate<T: Scalar, F1: Mapping<(T, T), T>, F2: Mapping<(T, T), T>>(
    f1: F1,
    f2: F2,
    h: T,
    p0: (T, T),
    k: nat,
) -> (T, T)
    decreases k,
{
    if k == 0 {
        p0
    } else {
        let p = newton_plane_iterate(f1, f2, h, p0, (k - 1) as nat);
        let d = newton_correction(f1, f2, p, h);
        (p.0.plus_spec(d.0), p.1.plus_spec(d.1))
    }
}

/// The size of step `k >= 1` of Newton's method in the plane: the mean
/// magnitude of the correction computed at `(x_{k-1}, y_{k-1})`.
pub open spec fn newton_plane_step<T: Scalar, F1: Mapping<(T, T), T>, F2: Mapping<(T, T), T>>(
    f1: F1,
    f2: F2,
    h: T,
    p0: (T, T),
    k: nat,
) -> T {
    let d = newton_correction(f1, f2, newton_plane_iterate(f1, f2, h, p0, (k - 1) as nat), h);
    mean_magnitude(d.0, d.1)
}

/// The determinant of the Jacobian at `(x_k, y_k)` is below `tol` in magnitude.
pub open spec fn newton_plane_singular<T: Scalar, F1: Mapping<(T, T), T>, F2: Mapping<(T, T), T>>(
    f1: F1,
    f2: F2,
    h: T,
    p0: (T, T),
    tol: T,
    k: nat,
) -> bool {
    jacobian_determinant(f1, f2, newton_plane_iterate(f1, f2, h, p0, k), h).abs_spec().less_spec(tol)
}

/// Step `k >= 1` is taken and the iteration goes on after it.
pub open spec fn newton_plane_goes_on<T: Scalar, F1: Mapping<(T, T), T>, F2: Mapping<(T, T), T>>(
    f1: F1,
    f2: F2,
    h: T,
    p0: (T, T),
    tol: T,
    k: nat,
) -> bool {
    !newton_plane_singular(f1, f2, h, p0, tol, (k - 1) as nat) && !newton_plane_step(
        f1,
        f2,
        h,
        p0,
        k,
    ).less_spec(tol)
}

/// Estimates the derivative of `f` in its first argument.
fn difference_x<T: Scalar, F: Mapping<(T, T), T>>(f: &F, x: T, y: T, h: T) -> (r: T)
    ensures
        r == partial_x(*f, x, y, h),
{
    f.apply((x.plus(h), y)).minus(f.apply((x.minus(h), y))).over(T::from_int(2).times(h))
}

/// Estimates the derivative of `f` in its second argument.
fn difference_y<T: Scalar, F: Mapping<(T, T), T>>(f: &F, x: T, y: T, h: T) -> (r: T)
    ensures
        r == partial_y(*f, x, y, h),
{
    f.apply((x, y.plus(h))).minus(f.apply((x, y.minus(h)))).over(T::from_int(2).times(h))
}

/// Newton's method in the plane for a common root of `f1` and `f2`.
///
/// Before each step the Jacobian is estimated by central differences of
/// step `h`; if the magnitude of its determinant is below `tol` the call
/// ends without a root. Otherwise the correction is applied, and the first
/// correction whose size is below `tol` ends the call: the point reached is
/// returned with the sizes of all steps if both equations hold to `tol`
/// there, and is rejected otherwise.
pub fn newton_system<T: Scalar, F1: Mapping<(T, T), T>, F2: Mapping<(T, T), T>>(
    f1: F1,
    f2: F2,
    x0: T,
    y0: T,
    tol: T,
    max_iter: usize,
    h: T,
) -> (out: Result<(T, T, Vec<T>), RootFailure<(T, T)>>)
    ensures
        match out {
            Ok((x, y, errors)) => {
                let k = errors.len() as nat;
                &&& 1 <= k <= max_iter
                &&& (x, y) == newton_plane_iterate(f1, f2, h, (x0, y0), k)
                &&& errors@ == Seq::new(
                    k,
                    |j: int| newton_plane_step(f1, f2, h, (x0, y0), (j + 1) as nat),
                )
                &&& forall|j: nat|
                    1 <= j < k ==> newton_plane_goes_on(f1, f2, h, (x0, y0), tol, j)
                &&& !newton_plane_singular(f1, f2, h, (x0, y0), tol, (k - 1) as nat)
                &&& newton_plane_step(f1, f2, h, (x0, y0), k).less_spec(tol)
                &&& system_satisfied(f1, f2, (x, y), tol)
            },
            Err(RootFailure::Rejected { steps, candidate, residual }) => {
                &&& 1 <= steps <= max_iter
                &&& candidate == newton_plane_iterate(f1, f2, h, (x0, y0), steps as nat)
                &&& residual == (
                    f1.image((candidate.0, candidate.1)),
                    f2.image((candidate.0, candidate.1)),
                )
                &&& forall|j: nat|
                    1 <= j < steps ==> newton_plane_goes_on(f1, f2, h, (x0, y0), tol, j)
                &&& !newton_plane_singular(f1, f2, h, (x0, y0), tol, (steps - 1) as nat)
                &&& newton_plane_step(f1, f2, h, (x0, y0), steps as nat).less_spec(tol)
                &&& !system_satisfied(f1, f2, candidate, tol)
            },
            Err(RootFailure::Degenerate { steps }) => {
                &&& steps < max_iter
                &&& forall|j: nat|
                    1 <= j <= steps ==> newton_plane_goes_on(f1, f2, h, (x0, y0), tol, j)
                &&& newton_plane_singular(f1, f2, h, (x0, y0), tol, steps as nat)
            },
            Err(RootFailure::NotConverged) => forall|j: nat|
                1 <= j <= max_iter ==> newton_plane_goes_on(f1, f2, h, (x0, y0), tol, j),
        },
{
    let mut x = x0;
    let mut y = y0;
    let mut errors: Vec<T> = Vec::new();
    let mut k: usize = 0;
    while k < max_iter
        invariant
            k <= max_iter,
            (x, y) == newton_plane_iterate(f1, f2, h, (x0, y0), k as nat),
            errors@ == Seq::new(
                k as nat,
                |j: int| newton_plane_step(f1, f2, h, (x0, y0), (j + 1) as nat),
            ),
            forall|j: nat| 1 <= j <= k ==> newton_plane_goes_on(f1, f2, h, (x0, y0), tol, j),
        decreases max_iter - k,
    {
        let fx = f1.apply((x, y));
        let fy = f2.apply((x, y));
        let j11 = difference_x(&f1, x, y, h);
        let j12 = difference_y(&f1, x, y, h);
        let j21 = difference_x(&f2, x, y, h);
        let j22 = difference_y(&f2, x, y, h);

        let det = j11.times(j22).minus(j12.times(j21));
        if det.abs().less(tol) {
            return Err(RootFailure::Degenerate { steps: k });
        }
        let delta_x = fx.neg().times(j22).plus(fy.times(j12)).over(det);
        let delta_y = fx.times(j21).minus(fy.times(j11)).over(det);
        let error = delta_x.abs().plus(delta_y.abs()).over(T::from_int(2));
        errors.push(error);
        assert(errors@ =~= Seq::new(
            (k + 1) as nat,
            |j: int| newton_plane_step(f1, f2, h, (x0, y0), (j + 1) as nat),
        ));
        x = x.plus(delta_x);
        y = y.plus(delta_y);
        if error.less(tol) {
            let r1 = f1.apply((x, y));
            let r2 = f2.apply((x, y));
            if r1.abs().less(tol) && r2.abs().less(tol) {
                return Ok((x, y, errors));
            } else {
                return Err(
                    RootFailure::Rejected { steps: k + 1, candidate: (x, y), residual: (r1, r2) },
                );
            }
        }
        k += 1;
    }
    Err(RootFailure::NotConverged)
}

} // verus!
