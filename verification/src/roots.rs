//! Roots of one equation in one unknown: fixed-point iteration and Newton's
//! method with a central-difference derivative.
//!
//! A candidate is accepted only if both the last step and the value of the
//! equation at the candidate are below the tolerance in magnitude.

use vstd::prelude::*;
use crate::scalar::Scalar;
use crate::function::Mapping;

verus! {

/// Why a root finder returned no root.
#[derive(Debug)]
pub enum RootFailure<P> {
    /// No step was below the tolerance within the allowed iterations.
    NotConverged,
    /// Step number `steps` was below the tolerance, but the equation is not
    /// satisfied to the tolerance at the point it led to.
    Rejected { steps: usize, candidate: P, residual: P },
    /// The derivative (or the determinant of the Jacobian) was below the
    /// tolerance in magnitude after `steps` steps, so no further step was taken.
    Degenerate { steps: usize },
}

/// The iterate `x_k` of `x_{k+1} = g(x_k)` from `x0`.
pub open spec fn fixed_point_iterate<T, G: Mapping<T, T>>(g: G, x0: T, k: nat) -> T
    decreases k,
{
    if k == 0 {
        x0
    } else {
        g.image(fixed_point_iterate(g, x0, (k - 1) as nat))
    }
}

/// The size `|x_k - x_{k-1}|` of step `k >= 1` of the fixed-point iteration.
pub open spec fn fixed_point_step<T: Scalar, G: Mapping<T, T>>(g: G, x0: T, k: nat) -> T {
    fixed_point_iterate(g, x0, k).minus_spec(fixed_point_iterate(g, x0, (k - 1) as nat)).abs_spec()
}

/// Fixed-point iteration `x_{k+1} = g(x_k)` for a root of `f`.
///
/// Stops at the first step below `tolerance`. The point reached is returned
/// with the sizes of all steps if `|f|` is below `tolerance` there, and is
/// rejected otherwise.
pub fn mpi_with_errors<T: Scalar, G: Mapping<T, T>, F: Mapping<T, T>>(
    g: G,
    f: F,
    x0: T,
    tolerance: T,
    max_iter: usize,
) -> (out: Result<(T, Vec<T>), RootFailure<T>>)
    ensures
        match out {
            Ok((root, errors)) => {
                let k = errors.len() as nat;
                &&& 1 <= k <= max_iter
                &&& root == fixed_point_iterate(g, x0, k)
                &&& errors@ == Seq::new(k, |j: int| fixed_point_step(g, x0, (j + 1) as nat))
                &&& forall|j: nat| 1 <= j < k ==> !fixed_point_step(g, x0, j).less_spec(tolerance)
                &&& fixed_point_step(g, x0, k).less_spec(tolerance)
                &&& f.image(root).abs_spec().less_spec(tolerance)
            },
            Err(RootFailure::Rejected { steps, candidate, residual }) => {
                &&& 1 <= steps <= max_iter
                &&& candidate == fixed_point_iterate(g, x0, steps as nat)
                &&& residual == f.image(candidate)
                &&& forall|j: nat|
                    1 <= j < steps ==> !fixed_point_step(g, x0, j).less_spec(tolerance)
                &&& fixed_point_step(g, x0, steps as nat).less_spec(tolerance)
                &&& !residual.abs_spec().less_spec(tolerance)
            },
            Err(RootFailure::NotConverged) => forall|j: nat|
                1 <= j <= max_iter ==> !fixed_point_step(g, x0, j).less_spec(tolerance),
            Err(RootFailure::Degenerate { .. }) => false,
        },
{
    let mut x = x0;
    let mut errors: Vec<T> = Vec::new();
    let mut k: usize = 0;
    while k < max_iter
        invariant
            k <= max_iter,
            x == fixed_point_iterate(g, x0, k as nat),
            errors@ == Seq::new(k as nat, |j: int| fixed_point_step(g, x0, (j + 1) as nat)),
            forall|j: nat| 1 <= j <= k ==> !fixed_point_step(g, x0, j).less_spec(tolerance),
        decreases max_iter - k,
    {
        let x_new = g.apply(x);
        let error = x_new.minus(x).abs();
        errors.push(error);
        assert(errors@ =~= Seq::new(
            (k + 1) as nat,
            |j: int| fixed_point_step(g, x0, (j + 1) as nat),
        ));
        if error.less(tolerance) {
            let residual = f.apply(x_new);
            if residual.abs().less(tolerance) {
                return Ok((x_new, errors));
            } else {
                return Err(RootFailure::Rejected { steps: k + 1, candidate: x_new, residual });
            }
        }
        x = x_new;
        k += 1;
    }
    Err(RootFailure::NotConverged)
}

/// The central difference `(f(x + h) - f(x - h)) / (2 h)`.
pub open spec fn central_difference_spec<T: Scalar, F: Mapping<T, T>>(f: F, x: T, h: T) -> T {
    f.image(x.plus_spec(h)).minus_spec(f.image(x.minus_spec(h))).over_spec(
        T::from_int_spec(2).times_spec(h),
    )
}

/// Estimates the derivative of `f` at `x` by a central difference of step `h`.
pub fn central_difference<T: Scalar, F: Mapping<T, T>>(f: &F, x: T, h: T) -> (r: T)
    ensures
        r == central_difference_spec(*f, x, h),
{
    f.apply(x.plus(h)).minus(f.apply(x.minus(h))).over(T::from_int(2).times(h))
}

/// The iterate `x_k` of Newton's method from `x0`, with the derivative
/// estimated by a central difference of step `h`.
pub open spec fn newton_iterate<T: Scalar, F: Mapping<T, T>>(f: F, h: T, x0: T, k: nat) -> T
    decreases k,
{
    if k == 0 {
        x0
    } else {
        let x = newton_iterate(f, h, x0, (k - 1) as nat);
        x.minus_spec(f.image(x).over_spec(central_difference_spec(f, x, h)))
    }
}

/// The size `|x_k - x_{k-1}|` of step `k >= 1` of Newton's method.
pub open spec fn newton_step<T: Scalar, F: Mapping<T, T>>(f: F, h: T, x0: T, k: nat) -> T {
    newton_iterate(f, h, x0, k).minus_spec(newton_iterate(f, h, x0, (k - 1) as nat)).abs_spec()
}

/// The derivative estimate at `x_k` is below `tolerance` in magnitude.
pub open spec fn newton_flat<T: Scalar, F: Mapping<T, T>>(
    f: F,
    h: T,
    x0: T,
    tolerance: T,
    k: nat,
) -> bool {
    central_difference_spec(f, newton_iterate(f, h, x0, k), h).abs_spec().less_spec(tolerance)
}

/// Step `k >= 1` is taken and the iteration goes on after it: the
/// derivative at `x_{k-1}` is not flat and the step is not below `tolerance`.
pub open spec fn newton_goes_on<T: Scalar, F: Mapping<T, T>>(
    f: F,
    h: T,
    x0: T,
    tolerance: T,
    k: nat,
) -> bool {
    !newton_flat(f, h, x0, tolerance, (k - 1) as nat) && !newton_step(f, h, x0, k).less_spec(
        tolerance,
    )
}

/// What Newton's method returns for the equation `f` from `x0` with at most
/// `cap` steps: a root after the first small step if the equation holds
/// there, the rejected candidate if it does not, the number of steps taken
/// before a flat derivative, or no convergence within the cap.
pub open spec fn is_newton_outcome<T: Scalar, F: Mapping<T, T>>(
    f: F,
    x0: T,
    tolerance: T,
    cap: nat,
    h: T,
    out: Result<(T, Vec<T>), RootFailure<T>>,
) -> bool {
    match out {
        Ok((root, errors)) => {
            let k = errors.len() as nat;
            &&& 1 <= k <= cap
            &&& root == newton_iterate(f, h, x0, k)
            &&& errors@ =~= Seq::new(k, |j: int| newton_step(f, h, x0, (j + 1) as nat))
            &&& forall|j: nat| 1 <= j < k ==> newton_goes_on(f, h, x0, tolerance, j)
            &&& !newton_flat(f, h, x0, tolerance, (k - 1) as nat)
            &&& newton_step(f, h, x0, k).less_spec(tolerance)
            &&& f.image(root).abs_spec().less_spec(tolerance)
        },
        Err(RootFailure::Rejected { steps, candidate, residual }) => {
            &&& 1 <= steps <= cap
            &&& candidate == newton_iterate(f, h, x0, steps as nat)
            &&& residual == f.image(candidate)
            &&& forall|j: nat| 1 <= j < steps ==> newton_goes_on(f, h, x0, tolerance, j)
            &&& !newton_flat(f, h, x0, tolerance, (steps - 1) as nat)
            &&& newton_step(f, h, x0, steps as nat).less_spec(tolerance)
            &&& !residual.abs_spec().less_spec(tolerance)
        },
        Err(RootFailure::Degenerate { steps }) => {
            &&& steps < cap
            &&& forall|j: nat| 1 <= j <= steps ==> newton_goes_on(f, h, x0, tolerance, j)
            &&& newton_flat(f, h, x0, tolerance, steps as nat)
        },
        Err(RootFailure::NotConverged) => forall|j: nat|
            1 <= j <= cap ==> newton_goes_on(f, h, x0, tolerance, j),
    }
}

/// Newton's method for a root of `f` from `x0`.
///
/// Before each step the derivative is estimated; if its magnitude is below
/// `tolerance` the call ends without a root. Otherwise the step is taken, and
/// the first step below `tolerance` ends the call: the point reached is
/// returned with the sizes of all steps if `|f|` is below `tolerance` there,
/// and is rejected otherwise.
pub fn newton_with_errors<T: Scalar, F: Mapping<T, T>>(
    f: F,
    x0: T,
    tolerance: T,
    max_iter: usize,
    h: T,
) -> (out: Result<(T, Vec<T>), RootFailure<T>>)
    ensures
        is_newton_outcome(f, x0, tolerance, max_iter as nat, h, out),
{
    let mut x = x0;
    let mut errors: Vec<T> = Vec::new();
    let mut k: usize = 0;
    while k < max_iter
        invariant
            k <= max_iter,
            x == newton_iterate(f, h, x0, k as nat),
            errors@ == Seq::new(k as nat, |j: int| newton_step(f, h, x0, (j + 1) as nat)),
            forall|j: nat| 1 <= j <= k ==> newton_goes_on(f, h, x0, tolerance, j),
        decreases max_iter - k,
    {
        let fx = f.apply(x);
        let dfx = central_difference(&f, x, h);
        if dfx.abs().less(tolerance) {
            return Err(RootFailure::Degenerate { steps: k });
        }
        let x_new = x.minus(fx.over(dfx));
        let error = x_new.minus(x).abs();
        errors.push(error);
        if error.less(tolerance) {
            let residual = f.apply(x_new);
            if residual.abs().less(tolerance) {
                return Ok((x_new, errors));
            } else {
                return Err(RootFailure::Rejected { steps: k + 1, candidate: x_new, residual });
            }
        }
        x = x_new;
        k += 1;
    }
    Err(RootFailure::NotConverged)
}

/// Where the derivative at `x0` is not flat, the first step is below the
/// tolerance and the equation holds to the tolerance at the point it leads
/// to, Newton's method returns that point after one step: started from a
/// root that it has found, it returns the root again within one iteration.
pub proof fn lemma_newton_settles_at_once<T: Scalar, F: Mapping<T, T>>(
    f: F,
    x0: T,
    tolerance: T,
    cap: nat,
    h: T,
    out: Result<(T, Vec<T>), RootFailure<T>>,
)
    requires
        is_newton_outcome(f, x0, tolerance, cap, h, out),
        cap >= 1,
        !newton_flat(f, h, x0, tolerance, 0),
        newton_step(f, h, x0, 1).less_spec(tolerance),
        f.image(newton_iterate(f, h, x0, 1)).abs_spec().less_spec(tolerance),
    ensures
        out matches Ok((root, errors)) && root == newton_iterate(f, h, x0, 1) && errors@
            == seq![newton_step(f, h, x0, 1)],
{
    match out {
        Ok((root, errors)) => {
            if errors.len() > 1 {
                assert(newton_goes_on(f, h, x0, tolerance, 1));
            }
            assert(errors@ =~= seq![newton_step(f, h, x0, 1)]);
        },
        Err(RootFailure::Rejected { steps, candidate, residual }) => {
            if steps > 1 {
                assert(newton_goes_on(f, h, x0, tolerance, 1));
            }
        },
        Err(RootFailure::Degenerate { steps }) => {
            if steps >= 1 {
                assert(newton_goes_on(f, h, x0, tolerance, 1));
            }
        },
        Err(RootFailure::NotConverged) => {
            assert(newton_goes_on(f, h, x0, tolerance, 1));
        },
    }
}

} // verus!
