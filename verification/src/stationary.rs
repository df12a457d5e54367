//! Stationary iterations for `A x = b` from the zero vector: Jacobi,
//! Gauss-Seidel and successive over-relaxation. Each records the norm of the
//! residual of every new iterate and stops when the norm of the difference
//! of two successive iterates falls below the tolerance.

use vstd::prelude::*;
use crate::scalar::Scalar;
use crate::scalar::{one, zero};
use crate::convergence::{is_outcome, lemma_outcome_unique, Termination};
use crate::dense::{
    copy_of, dot_range, is_square, minus_vec, norm, norm_spec, range_dot, residual, residual_spec,
    rows_of, vec_minus, zeros, zeros_spec,
};

verus! {

/// The sum of `row[j] * x[j]` over the `j < n` other than `i`, accumulated
/// from zero in ascending order of `j`.
pub open spec fn skip_dot<T: Scalar>(row: Seq<T>, x: Seq<T>, i: int, n: int) -> T
    decreases n,
{
    if n <= 0 {
        zero::<T>()
    } else if n - 1 == i {
        skip_dot(row, x, i, n - 1)
    } else {
        skip_dot(row, x, i, n - 1).plus_spec(row[n - 1].times_spec(x[n - 1]))
    }
}

/// One Jacobi iteration: every entry is
/// `(b[i] - sum over j != i of m[i][j] x[j]) / m[i][i]`, from the old iterate.
pub open spec fn jacobi_update<T: Scalar>(m: Seq<Seq<T>>, b: Seq<T>, x: Seq<T>) -> Seq<T> {
    Seq::new(
        m.len(),
        |i: int| b[i].minus_spec(skip_dot(m[i], x, i, m.len() as int)).over_spec(m[i][i]),
    )
}

/// The Jacobi iterate after `k` iterations from the zero vector.
pub open spec fn jacobi_iterate<T: Scalar>(m: Seq<Seq<T>>, b: Seq<T>, k: nat) -> Seq<T>
    decreases k,
{
    if k == 0 {
        zeros_spec::<T>(m.len())
    } else {
        jacobi_update(m, b, jacobi_iterate(m, b, (k - 1) as nat))
    }
}

/// The Jacobi method.
///
/// Returns the iterate, the norm of the residual of each iterate computed,
/// and the way the iteration ended; the stopping metric of iteration `k` is
/// the norm of the difference between iterates `k` and `k - 1`.
pub fn jacobi_solve<T: Scalar>(
    matrix: &Vec<Vec<T>>,
    b: &Vec<T>,
    tolerance: T,
    max_iterations: usize,
) -> (out: (Vec<T>, Vec<T>, Termination))
    requires
        is_square(rows_of(matrix), matrix.len() as nat),
        b.len() == matrix.len(),
    ensures
        is_outcome(
            |k: nat| jacobi_iterate(rows_of(matrix), b@, k),
            |k: nat| norm_spec(residual_spec(rows_of(matrix), jacobi_iterate(rows_of(matrix), b@, k), b@)),
            |k: nat|
                norm_spec(
                    vec_minus(
                        jacobi_iterate(rows_of(matrix), b@, k),
                        jacobi_iterate(rows_of(matrix), b@, (k - 1) as nat),
                    ),
                ),
            tolerance,
            max_iterations as nat,
            (out.0@, out.1@, out.2),
        ),
        out.0.len() == matrix.len(),
{
    let n = matrix.len();
    let ghost m = rows_of(matrix);
    let mut x: Vec<T> = zeros(n);
    let mut x_new: Vec<T> = copy_of(&x);
    let mut residuals: Vec<T> = Vec::new();
    let mut iteration: usize = 0;
    while iteration < max_iterations
        invariant
            iteration <= max_iterations,
            n == matrix.len(),
            m == rows_of(matrix),
            is_square(m, n as nat),
            b.len() == n,
            x.len() == n,
            x_new.len() == n,
            x@ == jacobi_iterate(m, b@, iteration as nat),
            x_new@ == x@,
            residuals@ == Seq::new(
                iteration as nat,
                |j: int| norm_spec(residual_spec(m, jacobi_iterate(m, b@, (j + 1) as nat), b@)),
            ),
            forall|j: nat|
                1 <= j <= iteration ==> !(#[trigger] norm_spec(
                    vec_minus(jacobi_iterate(m, b@, j), jacobi_iterate(m, b@, (j - 1) as nat)),
                )).less_spec(tolerance),
        decreases max_iterations - iteration,
    {
        let mut i: usize = 0;
        while i < n
            invariant
                i <= n,
                n == matrix.len(),
                m == rows_of(matrix),
                is_square(m, n as nat),
                b.len() == n,
                x.len() == n,
                x_new.len() == n,
                forall|r: int| 0 <= r < i ==> #[trigger] x_new[r] == jacobi_update(m, b@, x@)[r],
            decreases n - i,
        {
            let mut sum = T::from_int(0);
            let mut j: usize = 0;
            while j < n
                invariant
                    j <= n,
                    i < n,
                    n == matrix.len(),
                    m.len() == n,
                    m[i as int] == matrix[i as int]@,
                    m[i as int].len() == n,
                    x.len() == n,
                    sum == skip_dot(m[i as int], x@, i as int, j as int),
                decreases n - j,
            {
                if i != j {
                    sum = sum.plus(matrix[i][j].times(x[j]));
                }
                j += 1;
            }
            let v = b[i].minus(sum).over(matrix[i][i]);
            x_new[i] = v;
            i += 1;
        }
        assert(x_new@ =~= jacobi_update(m, b@, x@));
        let res = residual(matrix, &x_new, b);
        residuals.push(norm(&res));
        assert(residuals@ =~= Seq::new(
            (iteration + 1) as nat,
            |j: int| norm_spec(residual_spec(m, jacobi_iterate(m, b@, (j + 1) as nat), b@)),
        ));
        let step = minus_vec(&x_new, &x);
        if norm(&step).less(tolerance) {
            return (x_new, residuals, Termination::Converged { iterations: iteration + 1 });
        }
        x = copy_of(&x_new);
        iteration += 1;
    }
    (x_new, residuals, Termination::CapReached)
}

/// The Gauss-Seidel value of entry `i`, given the entries already updated
/// in this sweep (`cur`, read before `i`) and the old iterate (`x`, read
/// after `i`): `(b[i] - sum1 - sum2) / m[i][i]`.
pub open spec fn seidel_entry<T: Scalar>(
    m: Seq<Seq<T>>,
    b: Seq<T>,
    x: Seq<T>,
    cur: Seq<T>,
    i: int,
) -> T {
    b[i].minus_spec(range_dot(m[i], cur, 0, i)).minus_spec(
        range_dot(m[i], x, i + 1, m.len() as int),
    ).over_spec(m[i][i])
}

/// The iterate in the course of a Gauss-Seidel sweep, when its first `i`
/// entries have been updated.
pub open spec fn seidel_sweep<T: Scalar>(m: Seq<Seq<T>>, b: Seq<T>, x: Seq<T>, i: nat) -> Seq<T>
    decreases i,
{
    if i == 0 {
        x
    } else {
        let cur = seidel_sweep(m, b, x, (i - 1) as nat);
        cur.update(i - 1, seidel_entry(m, b, x, cur, i - 1))
    }
}

/// The Gauss-Seidel iterate after `k` iterations from the zero vector.
pub open spec fn seidel_iterate<T: Scalar>(m: Seq<Seq<T>>, b: Seq<T>, k: nat) -> Seq<T>
    decreases k,
{
    if k == 0 {
        zeros_spec::<T>(m.len())
    } else {
        seidel_sweep(m, b, seidel_iterate(m, b, (k - 1) as nat), m.len())
    }
}

/// What the Gauss-Seidel method returns for `m x = b`: the outcome of the
/// iteration whose iterates are those of the method, whose samples are the
/// norms of their residuals and whose metric is the norm of the difference
/// of two successive iterates.
pub open spec fn is_seidel_outcome<T: Scalar>(
    m: Seq<Seq<T>>,
    b: Seq<T>,
    tolerance: T,
    cap: nat,
    out: (Seq<T>, Seq<T>, Termination),
) -> bool {
    is_outcome(
        |k: nat| seidel_iterate(m, b, k),
        |k: nat| norm_spec(residual_spec(m, seidel_iterate(m, b, k), b)),
        |k: nat| norm_spec(vec_minus(seidel_iterate(m, b, k), seidel_iterate(m, b, (k - 1) as nat))),
        tolerance,
        cap,
        out,
    )
}

/// What successive over-relaxation with the factor `omega` returns for
/// `m x = b`; as for Gauss-Seidel, with the relaxed iterates.
pub open spec fn is_relaxation_outcome<T: Scalar>(
    m: Seq<Seq<T>>,
    b: Seq<T>,
    omega: T,
    tolerance: T,
    cap: nat,
    out: (Seq<T>, Seq<T>, Termination),
) -> bool {
    is_outcome(
        |k: nat| relaxed_iterate(m, b, omega, k),
        |k: nat| norm_spec(residual_spec(m, relaxed_iterate(m, b, omega, k), b)),
        |k: nat|
            norm_spec(
                vec_minus(relaxed_iterate(m, b, omega, k), relaxed_iterate(m, b, omega, (k - 1) as nat)),
            ),
        tolerance,
        cap,
        out,
    )
}

/// The Gauss-Seidel method.
///
/// Returns the iterate, the norm of the residual of each iterate computed,
/// and the way the iteration ended; the stopping metric of iteration `k` is
/// the norm of the difference between iterates `k` and `k - 1`.
pub fn seidel_solve<T: Scalar>(
    matrix: &Vec<Vec<T>>,
    b: &Vec<T>,
    tolerance: T,
    max_iterations: usize,
) -> (out: (Vec<T>, Vec<T>, Termination))
    requires
        is_square(rows_of(matrix), matrix.len() as nat),
        b.len() == matrix.len(),
    ensures
        is_seidel_outcome(rows_of(matrix), b@, tolerance, max_iterations as nat, (out.0@, out.1@, out.2)),
        out.0.len() == matrix.len(),
{
    let n = matrix.len();
    let ghost m = rows_of(matrix);
    let mut x: Vec<T> = zeros(n);
    let mut residuals: Vec<T> = Vec::new();
    let mut iteration: usize = 0;
    while iteration < max_iterations
        invariant
            iteration <= max_iterations,
            n == matrix.len(),
            m == rows_of(matrix),
            is_square(m, n as nat),
            b.len() == n,
            x.len() == n,
            x@ == seidel_iterate(m, b@, iteration as nat),
            residuals@ == Seq::new(
                iteration as nat,
                |j: int| norm_spec(residual_spec(m, seidel_iterate(m, b@, (j + 1) as nat), b@)),
            ),
            forall|j: nat|
                1 <= j <= iteration ==> !(#[trigger] norm_spec(
                    vec_minus(seidel_iterate(m, b@, j), seidel_iterate(m, b@, (j - 1) as nat)),
                )).less_spec(tolerance),
        decreases max_iterations - iteration,
    {
        let mut x_new = copy_of(&x);
        let mut i: usize = 0;
        while i < n
            invariant
                i <= n,
                n == matrix.len(),
                m == rows_of(matrix),
                is_square(m, n as nat),
                b.len() == n,
                x.len() == n,
                x_new.len() == n,
                x_new@ == seidel_sweep(m, b@, x@, i as nat),
            decreases n - i,
        {
            assert(m[i as int] == matrix[i as int]@ && m[i as int].len() == n);
            let sum1 = dot_range(&matrix[i], &x_new, 0, i);
            let sum2 = dot_range(&matrix[i], &x, i + 1, n);
            let v = b[i].minus(sum1).minus(sum2).over(matrix[i][i]);
            x_new[i] = v;
            i += 1;
        }
        let res = residual(matrix, &x_new, b);
        residuals.push(norm(&res));
        assert(residuals@ =~= Seq::new(
            (iteration + 1) as nat,
            |j: int| norm_spec(residual_spec(m, seidel_iterate(m, b@, (j + 1) as nat), b@)),
        ));
        let step = minus_vec(&x_new, &x);
        if norm(&step).less(tolerance) {
            return (x_new, residuals, Termination::Converged { iterations: iteration + 1 });
        }
        x = x_new;
        iteration += 1;
    }
    (x, residuals, Termination::CapReached)
}

/// The relaxed value of entry `i`: `(1 - omega) x[i] + omega g`, with `g`
/// the Gauss-Seidel value of the entry.
pub open spec fn relaxed_entry<T: Scalar>(
    m: Seq<Seq<T>>,
    b: Seq<T>,
    omega: T,
    x: Seq<T>,
    cur: Seq<T>,
    i: int,
) -> T {
    one::<T>().minus_spec(omega).times_spec(x[i]).plus_spec(
        omega.times_spec(seidel_entry(m, b, x, cur, i)),
    )
}

/// The iterate in the course of a relaxed sweep, when its first `i` entries
/// have been updated.
pub open spec fn relaxed_sweep<T: Scalar>(
    m: Seq<Seq<T>>,
    b: Seq<T>,
    omega: T,
    x: Seq<T>,
    i: nat,
) -> Seq<T>
    decreases i,
{
    if i == 0 {
        x
    } else {
        let cur = relaxed_sweep(m, b, omega, x, (i - 1) as nat);
        cur.update(i - 1, relaxed_entry(m, b, omega, x, cur, i - 1))
    }
}

/// The iterate of successive over-relaxation after `k` iterations from the
/// zero vector.
pub open spec fn relaxed_iterate<T: Scalar>(m: Seq<Seq<T>>, b: Seq<T>, omega: T, k: nat) -> Seq<T>
    decreases k,
{
    if k == 0 {
        zeros_spec::<T>(m.len())
    } else {
        relaxed_sweep(m, b, omega, relaxed_iterate(m, b, omega, (k - 1) as nat), m.len())
    }
}

/// Successive over-relaxation with relaxation factor `omega`.
///
/// Returns the iterate, the norm of the residual of each iterate computed,
/// and the way the iteration ended; the stopping metric of iteration `k` is
/// the norm of the difference between iterates `k` and `k - 1`.
pub fn upper_relaxation_solve<T: Scalar>(
    matrix: &Vec<Vec<T>>,
    b: &Vec<T>,
    omega: T,
    tolerance: T,
    max_iterations: usize,
) -> (out: (Vec<T>, Vec<T>, Termination))
    requires
        is_square(rows_of(matrix), matrix.len() as nat),
        b.len() == matrix.len(),
    ensures
        is_relaxation_outcome(
            rows_of(matrix),
            b@,
            omega,
            tolerance,
            max_iterations as nat,
            (out.0@, out.1@, out.2),
        ),
        out.0.len() == matrix.len(),
{
    let n = matrix.len();
    let ghost m = rows_of(matrix);
    let keep = T::from_int(1).minus(omega);
    let mut x: Vec<T> = zeros(n);
    let mut residuals: Vec<T> = Vec::new();
    let mut iteration: usize = 0;
    while iteration < max_iterations
        invariant
            iteration <= max_iterations,
            n == matrix.len(),
            m == rows_of(matrix),
            is_square(m, n as nat),
            b.len() == n,
            x.len() == n,
            keep == one::<T>().minus_spec(omega),
            x@ == relaxed_iterate(m, b@, omega, iteration as nat),
            residuals@ == Seq::new(
                iteration as nat,
                |j: int| norm_spec(residual_spec(m, relaxed_iterate(m, b@, omega, (j + 1) as nat), b@)),
            ),
            forall|j: nat|
                1 <= j <= iteration ==> !(#[trigger] norm_spec(
                    vec_minus(
                        relaxed_iterate(m, b@, omega, j),
                        relaxed_iterate(m, b@, omega, (j - 1) as nat),
                    ),
                )).less_spec(tolerance),
        decreases max_iterations - iteration,
    {
        let mut x_new = copy_of(&x);
        let mut i: usize = 0;
        while i < n
            invariant
                i <= n,
                n == matrix.len(),
                m == rows_of(matrix),
                is_square(m, n as nat),
                b.len() == n,
                x.len() == n,
                x_new.len() == n,
                keep == one::<T>().minus_spec(omega),
                x_new@ == relaxed_sweep(m, b@, omega, x@, i as nat),
            decreases n - i,
        {
            assert(m[i as int] == matrix[i as int]@ && m[i as int].len() == n);
            let sum1 = dot_range(&matrix[i], &x_new, 0, i);
            let sum2 = dot_range(&matrix[i], &x, i + 1, n);
            let g = b[i].minus(sum1).minus(sum2).over(matrix[i][i]);
            let v = keep.times(x[i]).plus(omega.times(g));
            x_new[i] = v;
            i += 1;
        }
        let res = residual(matrix, &x_new, b);
        residuals.push(norm(&res));
        assert(residuals@ =~= Seq::new(
            (iteration + 1) as nat,
            |j: int| norm_spec(residual_spec(m, relaxed_iterate(m, b@, omega, (j + 1) as nat), b@)),
        ));
        let step = minus_vec(&x_new, &x);
        if norm(&step).less(tolerance) {
            return (x_new, residuals, Termination::Converged { iterations: iteration + 1 });
        }
        x = x_new;
        iteration += 1;
    }
    (x, residuals, Termination::CapReached)
}

/// A relaxation factor of one leaves the Gauss-Seidel value `g` of an entry
/// whose old value is `x` as it is: `(1 - 1) x + 1 g = g`.
pub open spec fn unit_relaxation_leaves<T: Scalar>(x: T, g: T) -> bool {
    one::<T>().minus_spec(one::<T>()).times_spec(x).plus_spec(one::<T>().times_spec(g)) == g
}

/// A relaxation factor of one leaves each of the first `i` values of the
/// Gauss-Seidel sweep from `x` as it is.
pub open spec fn sweep_is_left<T: Scalar>(m: Seq<Seq<T>>, b: Seq<T>, x: Seq<T>, i: nat) -> bool {
    forall|r: nat|
        r < i ==> unit_relaxation_leaves(
            x[r as int],
            #[trigger] seidel_entry(m, b, x, seidel_sweep(m, b, x, r), r as int),
        )
}

/// A relaxation factor of one leaves every value of the first `k`
/// Gauss-Seidel iterations as it is.
pub open spec fn iterations_are_left<T: Scalar>(m: Seq<Seq<T>>, b: Seq<T>, k: nat) -> bool {
    forall|j: nat| j < k ==> sweep_is_left(m, b, #[trigger] seidel_iterate(m, b, j), m.len())
}

/// The identities of zero and one that make a relaxation factor of one
/// leave every value as it is.
pub open spec fn has_units<T: Scalar>() -> bool {
    &&& one::<T>().minus_spec(one::<T>()) == zero::<T>()
    &&& forall|v: T| #[trigger] zero::<T>().times_spec(v) == zero::<T>()
    &&& forall|v: T| #[trigger] one::<T>().times_spec(v) == v
    &&& forall|v: T| #[trigger] zero::<T>().plus_spec(v) == v
}

/// Where zero and one act as units, a relaxation factor of one leaves every
/// value of every iteration as it is.
pub proof fn lemma_units_leave_every_value<T: Scalar>(m: Seq<Seq<T>>, b: Seq<T>, k: nat)
    requires
        has_units::<T>(),
    ensures
        iterations_are_left(m, b, k),
{
    assert forall|x: T, g: T| unit_relaxation_leaves(x, g) by {
        assert(zero::<T>().times_spec(x) == zero::<T>());
        assert(one::<T>().times_spec(g) == g);
        assert(zero::<T>().plus_spec(g) == g);
    }
}

/// With a relaxation factor of one, a relaxed sweep is a Gauss-Seidel sweep
/// as far as each of its values is left as it is.
pub proof fn lemma_unit_sweep<T: Scalar>(m: Seq<Seq<T>>, b: Seq<T>, x: Seq<T>, i: nat)
    requires
        sweep_is_left(m, b, x, i),
    ensures
        relaxed_sweep(m, b, one::<T>(), x, i) == seidel_sweep(m, b, x, i),
    decreases i,
{
    if i > 0 {
        lemma_unit_sweep(m, b, x, (i - 1) as nat);
        let cur = seidel_sweep(m, b, x, (i - 1) as nat);
        assert(unit_relaxation_leaves(x[i - 1], seidel_entry(m, b, x, cur, i - 1)));
    }
}

/// Successive over-relaxation with a relaxation factor of one produces the
/// iterates of the Gauss-Seidel method, one for one, as long as the factor
/// leaves every value as it is. (In floating point it does not leave a
/// value whose old value is infinite.)
pub proof fn lemma_unit_relaxation_is_seidel<T: Scalar>(m: Seq<Seq<T>>, b: Seq<T>, k: nat)
    requires
        iterations_are_left(m, b, k),
    ensures
        relaxed_iterate(m, b, one::<T>(), k) == seidel_iterate(m, b, k),
    decreases k,
{
    if k > 0 {
        lemma_unit_relaxation_is_seidel(m, b, (k - 1) as nat);
        let x = seidel_iterate(m, b, (k - 1) as nat);
        assert(sweep_is_left(m, b, x, m.len()));
        lemma_unit_sweep(m, b, x, m.len());
    }
}

/// With a relaxation factor of one, successive over-relaxation returns what
/// the Gauss-Seidel method returns (iterate, trace and ending), as long as
/// the factor leaves every value of the iterations within the cap as it is.
pub proof fn lemma_unit_relaxation_returns_seidel<T: Scalar>(
    m: Seq<Seq<T>>,
    b: Seq<T>,
    tolerance: T,
    cap: nat,
    relaxed: (Seq<T>, Seq<T>, Termination),
    seidel: (Seq<T>, Seq<T>, Termination),
)
    requires
        iterations_are_left(m, b, cap),
        is_relaxation_outcome(m, b, one::<T>(), tolerance, cap, relaxed),
        is_seidel_outcome(m, b, tolerance, cap, seidel),
    ensures
        relaxed == seidel,
        is_seidel_outcome(m, b, tolerance, cap, relaxed),
{
    assert forall|k: nat| k <= cap implies #[trigger] relaxed_iterate(m, b, one::<T>(), k)
        == seidel_iterate(m, b, k) by {
        lemma_unit_relaxation_is_seidel(m, b, k);
    }
    let n = relaxed.1.len();
    assert(relaxed.1 =~= Seq::new(
        n,
        |j: int| norm_spec(residual_spec(m, seidel_iterate(m, b, (j + 1) as nat), b)),
    ));
    assert(relaxed_iterate(m, b, one::<T>(), n) == seidel_iterate(m, b, n));
    if n >= 1 {
        assert(relaxed_iterate(m, b, one::<T>(), (n - 1) as nat) == seidel_iterate(
            m,
            b,
            (n - 1) as nat,
        ));
    }
    assert forall|j: nat| 1 <= j < n implies !(#[trigger] norm_spec(
        vec_minus(seidel_iterate(m, b, j), seidel_iterate(m, b, (j - 1) as nat)),
    )).less_spec(tolerance) by {
        assert(relaxed_iterate(m, b, one::<T>(), j) == seidel_iterate(m, b, j));
        assert(relaxed_iterate(m, b, one::<T>(), (j - 1) as nat) == seidel_iterate(
            m,
            b,
            (j - 1) as nat,
        ));
        let metric = |k: nat|
            norm_spec(
                vec_minus(
                    relaxed_iterate(m, b, one::<T>(), k),
                    relaxed_iterate(m, b, one::<T>(), (k - 1) as nat),
                ),
            );
        assert(!metric(j).less_spec(tolerance));
    }
    assert(is_seidel_outcome(m, b, tolerance, cap, relaxed));
    lemma_outcome_unique(
        |k: nat| seidel_iterate(m, b, k),
        |k: nat| norm_spec(residual_spec(m, seidel_iterate(m, b, k), b)),
        |k: nat| norm_spec(vec_minus(seidel_iterate(m, b, k), seidel_iterate(m, b, (k - 1) as nat))),
        tolerance,
        cap,
        relaxed,
        seidel,
    );
}

/// The values of a Gauss-Seidel sweep when its first `i` entries have been
/// updated: each of those entries holds its new value, the others their old one.
pub proof fn lemma_seidel_sweep_entries<T: Scalar>(m: Seq<Seq<T>>, b: Seq<T>, x: Seq<T>, i: nat)
    requires
        i <= x.len(),
    ensures
        seidel_sweep(m, b, x, i).len() == x.len(),
        forall|r: int|
            0 <= r < i ==> #[trigger] seidel_sweep(m, b, x, i)[r] == seidel_entry(
                m,
                b,
                x,
                seidel_sweep(m, b, x, r as nat),
                r,
            ),
        forall|r: int| i <= r < x.len() ==> #[trigger] seidel_sweep(m, b, x, i)[r] == x[r],
    decreases i,
{
    if i > 0 {
        lemma_seidel_sweep_entries(m, b, x, (i - 1) as nat);
    }
}

/// The values of a relaxed sweep when its first `i` entries have been
/// updated: each of those entries holds its new value, the others their old one.
pub proof fn lemma_relaxed_sweep_entries<T: Scalar>(
    m: Seq<Seq<T>>,
    b: Seq<T>,
    omega: T,
    x: Seq<T>,
    i: nat,
)
    requires
        i <= x.len(),
    ensures
        relaxed_sweep(m, b, omega, x, i).len() == x.len(),
        forall|r: int|
            0 <= r < i ==> #[trigger] relaxed_sweep(m, b, omega, x, i)[r] == relaxed_entry(
                m,
                b,
                omega,
                x,
                relaxed_sweep(m, b, omega, x, r as nat),
                r,
            ),
        forall|r: int| i <= r < x.len() ==> #[trigger] relaxed_sweep(m, b, omega, x, i)[r] == x[r],
    decreases i,
{
    if i > 0 {
        lemma_relaxed_sweep_entries(m, b, omega, x, (i - 1) as nat);
    }
}

/// Where a complete relaxed sweep with the factor one equals the complete
/// Gauss-Seidel sweep, the factor has left each value as it is.
pub proof fn lemma_equal_sweeps_are_left<T: Scalar>(m: Seq<Seq<T>>, b: Seq<T>, x: Seq<T>, i: nat)
    requires
        i <= x.len(),
        relaxed_sweep(m, b, one::<T>(), x, x.len()) == seidel_sweep(m, b, x, x.len()),
    ensures
        sweep_is_left(m, b, x, i),
        relaxed_sweep(m, b, one::<T>(), x, i) == seidel_sweep(m, b, x, i),
    decreases i,
{
    if i > 0 {
        let r = (i - 1) as nat;
        lemma_equal_sweeps_are_left(m, b, x, r);
        lemma_seidel_sweep_entries(m, b, x, x.len());
        lemma_relaxed_sweep_entries(m, b, one::<T>(), x, x.len());
        let cur = seidel_sweep(m, b, x, r);
        assert(seidel_sweep(m, b, x, x.len())[r as int] == seidel_entry(m, b, x, cur, r as int));
        assert(relaxed_sweep(m, b, one::<T>(), x, x.len())[r as int] == relaxed_entry(
            m,
            b,
            one::<T>(),
            x,
            cur,
            r as int,
        ));
        assert(unit_relaxation_leaves(x[r as int], seidel_entry(m, b, x, cur, r as int)));
    }
}

/// The Gauss-Seidel iterates have the size of the system.
pub proof fn lemma_seidel_iterate_len<T: Scalar>(m: Seq<Seq<T>>, b: Seq<T>, k: nat)
    ensures
        seidel_iterate(m, b, k).len() == m.len(),
    decreases k,
{
    if k > 0 {
        lemma_seidel_iterate_len(m, b, (k - 1) as nat);
        lemma_seidel_sweep_entries(m, b, seidel_iterate(m, b, (k - 1) as nat), m.len());
    }
}

/// The premise of the law is no stronger than the law: where the relaxed
/// iterates with the factor one equal the Gauss-Seidel iterates up to the
/// `k`-th, the factor has left every value of the first `k` iterations as
/// it is.
pub proof fn lemma_equal_iterates_are_left<T: Scalar>(m: Seq<Seq<T>>, b: Seq<T>, k: nat)
    requires
        forall|j: nat|
            j <= k ==> #[trigger] relaxed_iterate(m, b, one::<T>(), j) == seidel_iterate(m, b, j),
    ensures
        iterations_are_left(m, b, k),
{
    assert forall|j: nat| j < k implies sweep_is_left(
        m,
        b,
        #[trigger] seidel_iterate(m, b, j),
        m.len(),
    ) by {
        let x = seidel_iterate(m, b, j);
        lemma_seidel_iterate_len(m, b, j);
        assert(relaxed_iterate(m, b, one::<T>(), j) == x);
        assert(relaxed_iterate(m, b, one::<T>(), j + 1) == seidel_iterate(m, b, j + 1));
        lemma_equal_sweeps_are_left(m, b, x, m.len());
    }
}

} // verus!
