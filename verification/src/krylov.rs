//! Residual-driven iterations for `A x = f`: gradient descent with a fixed
//! rate, the minimal-residual method and BiCGSTAB. Each starts from the zero
//! vector and stops when the Euclidean norm of a residual falls below the
//! tolerance.

use vstd::prelude::*;
use crate::scalar::Scalar;
use crate::scalar::one;
use crate::convergence::{is_outcome, Termination};
use crate::dense::{
    copy_of, dot, dot_spec, is_square, mat_vec, mat_vec_spec, minus_vec, norm, norm_spec,
    plus_vec, residual, residual_spec, rows_of, scale, scaled, transposed_mat_vec,
    transposed_mat_vec_spec, vec_minus, vec_plus, zeros, zeros_spec,
};

verus! {

/// The variables that BiCGSTAB carries from one iteration to the next.
pub struct BicgState<T> {
    pub x: Seq<T>,
    pub r: Seq<T>,
    pub p: Seq<T>,
    pub v: Seq<T>,
    pub rho: T,
    pub alpha: T,
    pub omega: T,
}

/// What the first half of a BiCGSTAB iteration computes.
pub struct BicgHalf<T> {
    pub rho: T,
    pub p: Seq<T>,
    pub v: Seq<T>,
    pub alpha: T,
    pub s: Seq<T>,
}

/// The state before the first iteration: the zero iterate, its residual, and
/// unit scalars.
pub open spec fn bicg_start<T: Scalar>(m: Seq<Seq<T>>, f: Seq<T>) -> BicgState<T> {
    BicgState {
        x: zeros_spec::<T>(m.len()),
        r: residual_spec(m, zeros_spec::<T>(m.len()), f),
        p: zeros_spec::<T>(m.len()),
        v: zeros_spec::<T>(m.len()),
        rho: one::<T>(),
        alpha: one::<T>(),
        omega: one::<T>(),
    }
}

/// The shadow residual: the residual of the zero iterate.
pub open spec fn bicg_shadow<T: Scalar>(m: Seq<Seq<T>>, f: Seq<T>) -> Seq<T> {
    residual_spec(m, zeros_spec::<T>(m.len()), f)
}

/// The first half-step from state `st`: the new `rho`, the search direction
/// (the residual itself in the first iteration, else
/// `r + beta (p - omega v)` with `beta = (rho_new / rho) (alpha / omega)`),
/// `v = A p`, `alpha = rho_new / (shadow . v)` and `s = r - alpha v`.
pub open spec fn bicg_half<T: Scalar>(
    m: Seq<Seq<T>>,
    shadow: Seq<T>,
    st: BicgState<T>,
    first: bool,
) -> BicgHalf<T> {
    let rho = dot_spec(shadow, st.r);
    let beta = rho.over_spec(st.rho).times_spec(st.alpha.over_spec(st.omega));
    let p = if first {
        st.r
    } else {
        vec_plus(st.r, scaled(beta, vec_minus(st.p, scaled(st.omega, st.v))))
    };
    let v = mat_vec_spec(m, p);
    let alpha = rho.over_spec(dot_spec(shadow, v));
    BicgHalf { rho, p, v, alpha, s: vec_minus(st.r, scaled(alpha, v)) }
}

/// The iterate that is returned when the first half-step already meets the
/// tolerance: `x + alpha p`.
pub open spec fn bicg_early_solution<T: Scalar>(st: BicgState<T>, h: BicgHalf<T>) -> Seq<T> {
    vec_plus(st.x, scaled(h.alpha, h.p))
}

/// The second half-step: `t = A s`, `omega = (t . s) / (t . t)`,
/// `x + (alpha p + omega s)` and `r = s - omega t`.
pub open spec fn bicg_full<T: Scalar>(m: Seq<Seq<T>>, st: BicgState<T>, h: BicgHalf<T>) -> BicgState<
    T,
> {
    let t = mat_vec_spec(m, h.s);
    let omega = dot_spec(t, h.s).over_spec(dot_spec(t, t));
    BicgState {
        x: vec_plus(st.x, vec_plus(scaled(h.alpha, h.p), scaled(omega, h.s))),
        r: vec_minus(h.s, scaled(omega, t)),
        p: h.p,
        v: h.v,
        rho: h.rho,
        alpha: h.alpha,
        omega,
    }
}

/// The state after `k` complete iterations.
pub open spec fn bicg_state<T: Scalar>(m: Seq<Seq<T>>, f: Seq<T>, k: nat) -> BicgState<T>
    decreases k,
{
    if k == 0 {
        bicg_start(m, f)
    } else {
        let st = bicg_state(m, f, (k - 1) as nat);
        bicg_full(m, st, bicg_half(m, bicg_shadow(m, f), st, k == 1))
    }
}

/// The first half-step of iteration `k` (counted from zero).
pub open spec fn bicg_half_at<T: Scalar>(m: Seq<Seq<T>>, f: Seq<T>, k: nat) -> BicgHalf<T> {
    bicg_half(m, bicg_shadow(m, f), bicg_state(m, f, k), k == 0)
}

/// Iteration `k` (counted from zero) breaks down: the magnitude of its new
/// `rho` is below `tiny`.
pub open spec fn bicg_breaks<T: Scalar>(m: Seq<Seq<T>>, f: Seq<T>, tiny: T, k: nat) -> bool {
    bicg_half_at(m, f, k).rho.abs_spec().less_spec(tiny)
}

/// The first half-step of iteration `k` meets the tolerance.
pub open spec fn bicg_early<T: Scalar>(m: Seq<Seq<T>>, f: Seq<T>, tol: T, k: nat) -> bool {
    norm_spec(bicg_half_at(m, f, k).s).less_spec(tol)
}

/// The second half-step of iteration `k` meets the tolerance.
pub open spec fn bicg_late<T: Scalar>(m: Seq<Seq<T>>, f: Seq<T>, tol: T, k: nat) -> bool {
    norm_spec(bicg_state(m, f, k + 1).r).less_spec(tol)
}

/// Iteration `k` runs to its end and the loop goes on.
pub open spec fn bicg_passes<T: Scalar>(m: Seq<Seq<T>>, f: Seq<T>, tol: T, tiny: T, k: nat) -> bool {
    !bicg_breaks(m, f, tiny, k) && !bicg_early(m, f, tol, k) && !bicg_late(m, f, tol, k)
}

/// The residual norms that `k` complete iterations record: two per
/// iteration, the norm of `s` and then the norm of the new `r`.
pub open spec fn bicg_trace<T: Scalar>(m: Seq<Seq<T>>, f: Seq<T>, k: nat) -> Seq<T> {
    Seq::new(
        2 * k,
        |i: int|
            if i % 2 == 0 {
                norm_spec(bicg_half_at(m, f, (i / 2) as nat).s)
            } else {
                norm_spec(bicg_state(m, f, (i / 2 + 1) as nat).r)
            },
    )
}

/// What BiCGSTAB returns for the system `m x = f`.
///
/// The iterations before the last one all run to their end. The call then
/// ends in iteration `k` (counted from zero) in one of three ways, or after
/// `cap` iterations:
/// - iteration `k` breaks down, and the iterate and the trace of `k`
///   complete iterations are returned;
/// - its first half-step meets the tolerance, and `x + alpha p` is returned
///   with one more sample;
/// - its second half-step meets the tolerance, and the iterate and the
///   trace of `k + 1` complete iterations are returned.
pub open spec fn is_bicg_outcome<T: Scalar>(
    m: Seq<Seq<T>>,
    f: Seq<T>,
    tol: T,
    tiny: T,
    cap: nat,
    out: (Seq<T>, Seq<T>, Termination),
) -> bool {
    match out.2 {
        Termination::Converged { iterations } => {
            let k = (iterations - 1) as nat;
            &&& 1 <= iterations <= cap
            &&& forall|j: nat| j < k ==> bicg_passes(m, f, tol, tiny, j)
            &&& !bicg_breaks(m, f, tiny, k)
            &&& if bicg_early(m, f, tol, k) {
                &&& out.0 == bicg_early_solution(bicg_state(m, f, k), bicg_half_at(m, f, k))
                &&& out.1 == bicg_trace(m, f, k).push(norm_spec(bicg_half_at(m, f, k).s))
            } else {
                &&& bicg_late(m, f, tol, k)
                &&& out.0 == bicg_state(m, f, k + 1).x
                &&& out.1 == bicg_trace(m, f, k + 1)
            }
        },
        Termination::Breakdown { iterations } => {
            &&& iterations < cap
            &&& forall|j: nat| j < iterations ==> bicg_passes(m, f, tol, tiny, j)
            &&& bicg_breaks(m, f, tiny, iterations as nat)
            &&& out.0 == bicg_state(m, f, iterations as nat).x
            &&& out.1 == bicg_trace(m, f, iterations as nat)
        },
        Termination::CapReached => {
            &&& forall|j: nat| j < cap ==> bicg_passes(m, f, tol, tiny, j)
            &&& out.0 == bicg_state(m, f, cap).x
            &&& out.1 == bicg_trace(m, f, cap)
        },
    }
}

/// The number of iterations that an outcome has run to their end.
pub open spec fn bicg_completed(cap: nat, end: Termination) -> nat {
    match end {
        Termination::Converged { iterations } => (iterations - 1) as nat,
        Termination::Breakdown { iterations } => iterations as nat,
        Termination::CapReached => cap,
    }
}

/// The inputs of BiCGSTAB determine its outcome: two outcomes for the same
/// system, tolerance, breakdown threshold and cap are equal.
pub proof fn lemma_bicg_outcome_unique<T: Scalar>(
    m: Seq<Seq<T>>,
    f: Seq<T>,
    tol: T,
    tiny: T,
    cap: nat,
    first: (Seq<T>, Seq<T>, Termination),
    second: (Seq<T>, Seq<T>, Termination),
)
    requires
        is_bicg_outcome(m, f, tol, tiny, cap, first),
        is_bicg_outcome(m, f, tol, tiny, cap, second),
    ensures
        first == second,
{
    let k1 = bicg_completed(cap, first.2);
    let k2 = bicg_completed(cap, second.2);
    if k1 < k2 {
        assert(bicg_passes(m, f, tol, tiny, k1));
    } else if k2 < k1 {
        assert(bicg_passes(m, f, tol, tiny, k2));
    }
}

/// An outcome records two samples for every iteration that ran to its end,
/// and one more where the first half-step of the next one met the tolerance.
pub proof fn lemma_bicg_trace_length<T: Scalar>(
    m: Seq<Seq<T>>,
    f: Seq<T>,
    tol: T,
    tiny: T,
    cap: nat,
    out: (Seq<T>, Seq<T>, Termination),
)
    requires
        is_bicg_outcome(m, f, tol, tiny, cap, out),
    ensures
        out.1.len() <= 2 * cap,
        out.2 matches Termination::Converged { iterations } ==> out.1.len() == 2 * iterations
            || out.1.len() == 2 * iterations - 1,
        out.2 matches Termination::Breakdown { iterations } ==> out.1.len() == 2 * iterations,
        out.2 is CapReached ==> out.1.len() == 2 * cap,
{
}

/// BiCGSTAB from the zero vector.
///
/// Returns the iterate, the recorded residual norms and the way the
/// iteration ended. Iteration `k` (from zero) ends the call in one of three
/// ways, tested in this order: it breaks down, and the iterate of `k`
/// complete iterations is returned; its first half-step meets the tolerance,
/// and `x + alpha p` is returned after one more sample; its second half-step
/// meets the tolerance, and the new iterate is returned after two more
/// samples. Otherwise the loop goes on, up to `max_iterations` iterations.
pub fn bicgstab_solve<T: Scalar>(
    matrix: &Vec<Vec<T>>,
    f: &Vec<T>,
    tolerance: T,
    breakdown: T,
    max_iterations: usize,
) -> (out: (Vec<T>, Vec<T>, Termination))
    requires
        is_square(rows_of(matrix), matrix.len() as nat),
        f.len() == matrix.len(),
    ensures
        is_bicg_outcome(
            rows_of(matrix),
            f@,
            tolerance,
            breakdown,
            max_iterations as nat,
            (out.0@, out.1@, out.2),
        ),
        out.0.len() == matrix.len(),
{
    let n = matrix.len();
    let ghost m = rows_of(matrix);
    let mut x: Vec<T> = zeros(n);
    let mut r = residual(matrix, &x, f);
    let r_hat = copy_of(&r);
    let mut residuals: Vec<T> = Vec::new();
    let mut rho_old = T::from_int(1);
    let mut alpha = T::from_int(1);
    let mut omega = T::from_int(1);
    let mut v: Vec<T> = zeros(n);
    let mut p: Vec<T> = zeros(n);
    let mut iteration: usize = 0;
    while iteration < max_iterations
        invariant
            iteration <= max_iterations,
            m == rows_of(matrix),
            n == matrix.len(),
            is_square(m, n as nat),
            f.len() == n,
            r_hat@ == bicg_shadow(m, f@),
            x.len() == n && r.len() == n && p.len() == n && v.len() == n && r_hat.len() == n,
            bicg_state(m, f@, iteration as nat) == (BicgState {
                x: x@,
                r: r@,
                p: p@,
                v: v@,
                rho: rho_old,
                alpha,
                omega,
            }),
            residuals@ == bicg_trace(m, f@, iteration as nat),
            forall|j: nat| j < iteration ==> bicg_passes(m, f@, tolerance, breakdown, j),
        decreases max_iterations - iteration,
    {
        let ghost half = bicg_half_at(m, f@, iteration as nat);
        let ghost before = residuals@;
        let rho_new = dot(&r_hat, &r);
        if rho_new.abs().less(breakdown) {
            return (x, residuals, Termination::Breakdown { iterations: iteration });
        }
        if iteration == 0 {
            p = copy_of(&r);
        } else {
            let beta = rho_new.over(rho_old).times(alpha.over(omega));
            let ov = scale(omega, &v);
            let pv = minus_vec(&p, &ov);
            let bp = scale(beta, &pv);
            p = plus_vec(&r, &bp);
        }
        v = mat_vec(matrix, &p);
        alpha = rho_new.over(dot(&r_hat, &v));
        let av = scale(alpha, &v);
        let s = minus_vec(&r, &av);

        let residual_norm = norm(&s);
        residuals.push(residual_norm);
        if residual_norm.less(tolerance) {
            let ap = scale(alpha, &p);
            x = plus_vec(&x, &ap);
            return (x, residuals, Termination::Converged { iterations: iteration + 1 });
        }
        let t = mat_vec(matrix, &s);
        omega = dot(&t, &s).over(dot(&t, &t));
        let ap = scale(alpha, &p);
        let os = scale(omega, &s);
        let step = plus_vec(&ap, &os);
        x = plus_vec(&x, &step);
        let ot = scale(omega, &t);
        r = minus_vec(&s, &ot);

        let residual_norm = norm(&r);
        residuals.push(residual_norm);
        assert(residuals@ =~= bicg_trace(m, f@, (iteration + 1) as nat)) by {
            assert(residuals@ == before.push(norm_spec(half.s)).push(
                norm_spec(bicg_state(m, f@, (iteration + 1) as nat).r),
            ));
        }
        if residual_norm.less(tolerance) {
            return (x, residuals, Termination::Converged { iterations: iteration + 1 });
        }
        rho_old = rho_new;
        iteration += 1;
    }
    (x, residuals, Termination::CapReached)
}

/// One step of gradient descent with a fixed rate: `x + rate * A^T (f - A x)`.
pub open spec fn descent_update<T: Scalar>(m: Seq<Seq<T>>, f: Seq<T>, rate: T, x: Seq<T>) -> Seq<T> {
    vec_plus(x, scaled(rate, transposed_mat_vec_spec(m, residual_spec(m, x, f))))
}

/// The iterate of gradient descent after `k` iterations from the zero vector.
pub open spec fn descent_iterate<T: Scalar>(m: Seq<Seq<T>>, f: Seq<T>, rate: T, k: nat) -> Seq<T>
    decreases k,
{
    if k == 0 {
        zeros_spec::<T>(m.len())
    } else {
        descent_update(m, f, rate, descent_iterate(m, f, rate, (k - 1) as nat))
    }
}

/// Gradient descent on the residual with the fixed rate `learning_rate`.
///
/// Returns the iterate, the norm of the residual of each iterate computed,
/// and the way the iteration ended; the stopping metric of an iteration is
/// the residual norm that it records.
pub fn gradient_descent_solve<T: Scalar>(
    matrix: &Vec<Vec<T>>,
    f: &Vec<T>,
    learning_rate: T,
    tolerance: T,
    max_iterations: usize,
) -> (out: (Vec<T>, Vec<T>, Termination))
    requires
        is_square(rows_of(matrix), matrix.len() as nat),
        f.len() == matrix.len(),
    ensures
        is_outcome(
            |k: nat| descent_iterate(rows_of(matrix), f@, learning_rate, k),
            |k: nat|
                norm_spec(
                    residual_spec(
                        rows_of(matrix),
                        descent_iterate(rows_of(matrix), f@, learning_rate, k),
                        f@,
                    ),
                ),
            |k: nat|
                norm_spec(
                    residual_spec(
                        rows_of(matrix),
                        descent_iterate(rows_of(matrix), f@, learning_rate, k),
                        f@,
                    ),
                ),
            tolerance,
            max_iterations as nat,
            (out.0@, out.1@, out.2),
        ),
        out.0.len() == matrix.len(),
{
    let n = matrix.len();
    let ghost m = rows_of(matrix);
    let mut x: Vec<T> = zeros(n);
    let mut r = residual(matrix, &x, f);
    let mut residuals: Vec<T> = Vec::new();
    let mut iteration: usize = 0;
    while iteration < max_iterations
        invariant
            iteration <= max_iterations,
            n == matrix.len(),
            m == rows_of(matrix),
            is_square(m, n as nat),
            f.len() == n,
            x.len() == n,
            r.len() == n,
            x@ == descent_iterate(m, f@, learning_rate, iteration as nat),
            r@ == residual_spec(m, x@, f@),
            residuals@ == Seq::new(
                iteration as nat,
                |j: int|
                    norm_spec(
                        residual_spec(m, descent_iterate(m, f@, learning_rate, (j + 1) as nat), f@),
                    ),
            ),
            forall|j: nat|
                1 <= j <= iteration ==> !(#[trigger] norm_spec(
                    residual_spec(m, descent_iterate(m, f@, learning_rate, j), f@),
                )).less_spec(tolerance),
        decreases max_iterations - iteration,
    {
        let gradient = transposed_mat_vec(matrix, &r);
        let step = scale(learning_rate, &gradient);
        x = plus_vec(&x, &step);
        r = residual(matrix, &x, f);
        let residual_norm = norm(&r);
        residuals.push(residual_norm);
        assert(residuals@ =~= Seq::new(
            (iteration + 1) as nat,
            |j: int|
                norm_spec(residual_spec(m, descent_iterate(m, f@, learning_rate, (j + 1) as nat), f@)),
        ));
        if residual_norm.less(tolerance) {
            return (x, residuals, Termination::Converged { iterations: iteration + 1 });
        }
        iteration += 1;
    }
    (x, residuals, Termination::CapReached)
}

/// One step of the minimal-residual method: with `r = f - A x`,
/// `x + alpha r` where `alpha = (r . r) / (r . A r)`.
pub open spec fn minimal_residual_update<T: Scalar>(m: Seq<Seq<T>>, f: Seq<T>, x: Seq<T>) -> Seq<T> {
    let r = residual_spec(m, x, f);
    let alpha = dot_spec(r, r).over_spec(dot_spec(r, mat_vec_spec(m, r)));
    vec_plus(x, scaled(alpha, r))
}

/// The iterate of the minimal-residual method after `k` iterations from the
/// zero vector.
pub open spec fn minimal_residual_iterate<T: Scalar>(m: Seq<Seq<T>>, f: Seq<T>, k: nat) -> Seq<T>
    decreases k,
{
    if k == 0 {
        zeros_spec::<T>(m.len())
    } else {
        minimal_residual_update(m, f, minimal_residual_iterate(m, f, (k - 1) as nat))
    }
}

/// The minimal-residual method.
///
/// Returns the iterate, the norm of the residual of each iterate computed,
/// and the way the iteration ended; the stopping metric of an iteration is
/// the residual norm that it records.
pub fn minimal_residuals_solve<T: Scalar>(
    matrix: &Vec<Vec<T>>,
    f: &Vec<T>,
    tolerance: T,
    max_iterations: usize,
) -> (out: (Vec<T>, Vec<T>, Termination))
    requires
        is_square(rows_of(matrix), matrix.len() as nat),
        f.len() == matrix.len(),
    ensures
        is_outcome(
            |k: nat| minimal_residual_iterate(rows_of(matrix), f@, k),
            |k: nat|
                norm_spec(
                    residual_spec(
                        rows_of(matrix),
                        minimal_residual_iterate(rows_of(matrix), f@, k),
                        f@,
                    ),
                ),
            |k: nat|
                norm_spec(
                    residual_spec(
                        rows_of(matrix),
                        minimal_residual_iterate(rows_of(matrix), f@, k),
                        f@,
                    ),
                ),
            tolerance,
            max_iterations as nat,
            (out.0@, out.1@, out.2),
        ),
        out.0.len() == matrix.len(),
{
    let n = matrix.len();
    let ghost m = rows_of(matrix);
    let mut x: Vec<T> = zeros(n);
    let mut r = residual(matrix, &x, f);
    let mut residuals: Vec<T> = Vec::new();
    let mut iteration: usize = 0;
    while iteration < max_iterations
        invariant
            iteration <= max_iterations,
            n == matrix.len(),
            m == rows_of(matrix),
            is_square(m, n as nat),
            f.len() == n,
            x.len() == n,
            r.len() == n,
            x@ == minimal_residual_iterate(m, f@, iteration as nat),
            r@ == residual_spec(m, x@, f@),
            residuals@ == Seq::new(
                iteration as nat,
                |j: int|
                    norm_spec(residual_spec(m, minimal_residual_iterate(m, f@, (j + 1) as nat), f@)),
            ),
            forall|j: nat|
                1 <= j <= iteration ==> !(#[trigger] norm_spec(
                    residual_spec(m, minimal_residual_iterate(m, f@, j), f@),
                )).less_spec(tolerance),
        decreases max_iterations - iteration,
    {
        let z = mat_vec(matrix, &r);
        let alpha = dot(&r, &r).over(dot(&r, &z));
        let step = scale(alpha, &r);
        x = plus_vec(&x, &step);
        r = residual(matrix, &x, f);
        let residual_norm = norm(&r);
        residuals.push(residual_norm);
        assert(residuals@ =~= Seq::new(
            (iteration + 1) as nat,
            |j: int| norm_spec(residual_spec(m, minimal_residual_iterate(m, f@, (j + 1) as nat), f@)),
        ));
        if residual_norm.less(tolerance) {
            return (x, residuals, Termination::Converged { iterations: iteration + 1 });
        }
        iteration += 1;
    }
    (x, residuals, Termination::CapReached)
}

} // verus!
