//! Direct solvers for a dense square system: Gaussian elimination with
//! partial pivoting, and LU decomposition without pivoting followed by two
//! triangular solves. Neither tests a pivot for zero: what a zero pivot
//! yields is what the scalar's division yields.

use vstd::prelude::*;
use crate::scalar::Scalar;
use crate::scalar::{one, zero};
use crate::dense::{copy_of, dot_range, filled, is_square, range_dot, rows_of};
use crate::elimination::{
    back_substitute, back_substituted, copy_of_rows, eliminate, eliminate_rows, eliminated,
    eliminated_rows, elimination_factor, exchange, exchanged, find_last_largest, is_system,
    last_largest, LinearSystem,
};

verus! {

/// The system after the first `i` columns have been processed: for each
/// column in turn, the row from the diagonal down with the largest magnitude
/// in that column (the last such row) is exchanged with the diagonal row,
/// and the column is eliminated below the diagonal.
pub open spec fn pivoted_elimination<T: Scalar>(s: LinearSystem<T>, i: nat) -> LinearSystem<T>
    decreases i,
{
    if i == 0 {
        s
    } else {
        let prev = pivoted_elimination(s, (i - 1) as nat);
        let p = last_largest(prev.a, i - 1, i - 1, s.b.len() as int);
        eliminated(exchanged(prev, i - 1, p), i - 1)
    }
}

/// What Gaussian elimination with partial pivoting returns for `a x = b`.
pub open spec fn gauss_solution<T: Scalar>(a: Seq<Seq<T>>, b: Seq<T>) -> Seq<T> {
    let s = pivoted_elimination(LinearSystem { a, b }, b.len());
    back_substituted(s.a, s.b, 0)
}

/// Pivoting and elimination keep the shape of the system.
pub proof fn lemma_pivoted_elimination_shape<T: Scalar>(s: LinearSystem<T>, n: nat, i: nat)
    requires
        is_system(s, n),
        i <= n,
    ensures
        is_system(pivoted_elimination(s, i), n),
    decreases i,
{
    if i > 0 {
        lemma_pivoted_elimination_shape(s, n, (i - 1) as nat);
        let prev = pivoted_elimination(s, (i - 1) as nat);
        lemma_last_largest_in_range(prev.a, i - 1, i - 1, n as int);
    }
}

/// The pivot row lies in the range that was scanned.
pub proof fn lemma_last_largest_in_range<T: Scalar>(a: Seq<Seq<T>>, col: int, lo: int, hi: int)
    requires
        lo < hi,
    ensures
        lo <= last_largest(a, col, lo, hi) < hi,
    decreases hi - lo,
{
    if hi > lo + 1 {
        lemma_last_largest_in_range(a, col, lo, hi - 1);
    }
}

/// Solves `matrix x = b` by Gaussian elimination with partial pivoting and
/// back substitution.
pub fn gauss_pivot_solve<T: Scalar>(matrix: &Vec<Vec<T>>, b: &Vec<T>) -> (x: Vec<T>)
    requires
        is_square(rows_of(matrix), matrix.len() as nat),
        b.len() == matrix.len(),
    ensures
        x@ == gauss_solution(rows_of(matrix), b@),
        x.len() == matrix.len(),
{
    let n = matrix.len();
    let ghost s0 = LinearSystem { a: rows_of(matrix), b: b@ };
    let mut a = copy_of_rows(matrix);
    let mut b = copy_of(b);
    let mut i: usize = 0;
    while i < n
        invariant
            i <= n,
            a.len() == n,
            is_system(s0, n as nat),
            (LinearSystem { a: rows_of(&a), b: b@ }) == pivoted_elimination(s0, i as nat),
        decreases n - i,
    {
        proof {
            lemma_pivoted_elimination_shape(s0, n as nat, i as nat);
        }
        let max_row = find_last_largest(&a, i);
        if max_row != i {
            exchange(&mut a, &mut b, i, max_row);
        } else {
            let ghost s = LinearSystem { a: rows_of(&a), b: b@ };
            assert(exchanged(s, i as int, i as int).a =~= s.a);
            assert(exchanged(s, i as int, i as int).b =~= s.b);
        }
        eliminate(&mut a, &mut b, i);
        i += 1;
    }
    proof {
        lemma_pivoted_elimination_shape(s0, n as nat, n as nat);
    }
    back_substitute(&a, &b)
}

/// The upper factor in the making: the matrix after the first `i` columns
/// have been eliminated below the diagonal, without any exchange of rows.
pub open spec fn lu_upper<T: Scalar>(m: Seq<Seq<T>>, i: nat) -> Seq<Seq<T>>
    decreases i,
{
    if i == 0 {
        m
    } else {
        eliminated_rows(lu_upper(m, (i - 1) as nat), i - 1)
    }
}

/// Row `r` of the lower factor with its first `cols` columns filled in: one
/// on the diagonal, the elimination factors to the left of it, zero elsewhere.
pub open spec fn lu_lower_row<T: Scalar>(m: Seq<Seq<T>>, r: int, cols: int) -> Seq<T> {
    Seq::new(
        m.len(),
        |c: int|
            if c == r {
                one::<T>()
            } else if c < r && c < cols {
                elimination_factor(lu_upper(m, c as nat), c, r)
            } else {
                zero::<T>()
            },
    )
}

/// The unit lower triangular factor.
pub open spec fn lu_lower<T: Scalar>(m: Seq<Seq<T>>) -> Seq<Seq<T>> {
    Seq::new(m.len(), |r: int| lu_lower_row(m, r, m.len() as int))
}

/// Elimination without exchanges keeps the matrix square.
pub proof fn lemma_lu_upper_shape<T: Scalar>(m: Seq<Seq<T>>, n: nat, i: nat)
    requires
        is_square(m, n),
    ensures
        is_square(lu_upper(m, i), n),
    decreases i,
{
    if i > 0 {
        lemma_lu_upper_shape(m, n, (i - 1) as nat);
    }
}

/// Factors `matrix` as `L U` with `L` unit lower triangular and `U` upper
/// triangular, by elimination without pivoting.
pub fn lu_decomposition<T: Scalar>(matrix: &Vec<Vec<T>>) -> (lu: (Vec<Vec<T>>, Vec<Vec<T>>))
    requires
        is_square(rows_of(matrix), matrix.len() as nat),
    ensures
        rows_of(&lu.0) == lu_lower(rows_of(matrix)),
        rows_of(&lu.1) == lu_upper(rows_of(matrix), matrix.len() as nat),
        is_square(rows_of(&lu.0), matrix.len() as nat),
        is_square(rows_of(&lu.1), matrix.len() as nat),
{
    let n = matrix.len();
    let ghost m = rows_of(matrix);
    let mut l: Vec<Vec<T>> = Vec::new();
    let mut r: usize = 0;
    while r < n
        invariant
            r <= n,
            m.len() == n,
            l.len() == r,
            forall|q: int| 0 <= q < r ==> (#[trigger] l[q])@ == lu_lower_row(m, q, 0),
        decreases n - r,
    {
        let mut row: Vec<T> = filled(T::from_int(0), n);
        row[r] = T::from_int(1);
        l.push(row);
        r += 1;
    }
    let mut u = copy_of_rows(matrix);
    let mut i: usize = 0;
    while i < n
        invariant
            i <= n,
            m.len() == n,
            is_square(m, n as nat),
            l.len() == n,
            u.len() == n,
            rows_of(&u) == lu_upper(m, i as nat),
            forall|q: int| 0 <= q < n ==> (#[trigger] l[q])@ == lu_lower_row(m, q, i as int),
        decreases n - i,
    {
        proof {
            lemma_lu_upper_shape(m, n as nat, i as nat);
        }
        let factors = eliminate_rows(&mut u, i);
        let mut j: usize = i + 1;
        while j < n
            invariant
                i < j <= n,
                m.len() == n,
                l.len() == n,
                factors.len() == n,
                factors@ == crate::elimination::column_factors(lu_upper(m, i as nat), i as int),
                forall|q: int|
                    0 <= q < n ==> (#[trigger] l[q])@ == lu_lower_row(
                        m,
                        q,
                        if q < j {
                            i + 1
                        } else {
                            i as int
                        },
                    ),
            decreases n - j,
        {
            l[j][i] = factors[j];
            j += 1;
        }
        i += 1;
    }
    proof {
        lemma_lu_upper_shape(m, n as nat, n as nat);
    }
    (l, u)
}

/// The first `i` entries of the solution of the unit lower triangular
/// system `l y = b`: `y[k] = b[k] - (l[k][0] y[0] + ... + l[k][k-1] y[k-1])`.
pub open spec fn forward_substituted<T: Scalar>(l: Seq<Seq<T>>, b: Seq<T>, i: nat) -> Seq<T>
    decreases i,
{
    if i == 0 {
        Seq::empty()
    } else {
        let y = forward_substituted(l, b, (i - 1) as nat);
        y.push(b[i - 1].minus_spec(range_dot(l[i - 1], y, 0, i - 1)))
    }
}

/// The substitution has computed as many entries as were asked for.
pub proof fn lemma_forward_substituted_len<T: Scalar>(l: Seq<Seq<T>>, b: Seq<T>, i: nat)
    ensures
        forward_substituted(l, b, i).len() == i,
    decreases i,
{
    if i > 0 {
        lemma_forward_substituted_len(l, b, (i - 1) as nat);
    }
}

/// Solves the unit lower triangular system `l y = b` from the first
/// unknown down. The diagonal of `l` is taken to be one and is not read.
pub fn solve_lower_triangular<T: Scalar>(l: &Vec<Vec<T>>, b: &Vec<T>) -> (y: Vec<T>)
    requires
        is_system(LinearSystem { a: rows_of(l), b: b@ }, l.len() as nat),
    ensures
        y@ == forward_substituted(rows_of(l), b@, l.len() as nat),
        y.len() == l.len(),
{
    let n = l.len();
    let mut y: Vec<T> = Vec::new();
    let mut i: usize = 0;
    while i < n
        invariant
            i <= n,
            n == l.len(),
            b.len() == n,
            is_square(rows_of(l), n as nat),
            y.len() == i,
            y@ == forward_substituted(rows_of(l), b@, i as nat),
        decreases n - i,
    {
        assert(rows_of(l)[i as int] == l[i as int]@);
        let sum = dot_range(&l[i], &y, 0, i);
        y.push(b[i].minus(sum));
        i += 1;
    }
    y
}

/// Solves the upper triangular system `u x = y` from the last unknown up.
pub fn solve_upper_triangular<T: Scalar>(u: &Vec<Vec<T>>, y: &Vec<T>) -> (x: Vec<T>)
    requires
        is_system(LinearSystem { a: rows_of(u), b: y@ }, u.len() as nat),
    ensures
        x@ == back_substituted(rows_of(u), y@, 0),
        x.len() == u.len(),
{
    back_substitute(u, y)
}

/// What the LU solve returns for `a x = b`.
pub open spec fn lu_solution<T: Scalar>(a: Seq<Seq<T>>, b: Seq<T>) -> Seq<T> {
    back_substituted(lu_upper(a, a.len()), forward_substituted(lu_lower(a), b, a.len()), 0)
}

/// Solves `matrix x = b` by LU decomposition, forward substitution on `L`
/// and back substitution on `U`.
pub fn lu_solve<T: Scalar>(matrix: &Vec<Vec<T>>, b: &Vec<T>) -> (x: Vec<T>)
    requires
        is_square(rows_of(matrix), matrix.len() as nat),
        b.len() == matrix.len(),
    ensures
        x@ == lu_solution(rows_of(matrix), b@),
        x.len() == matrix.len(),
{
    let (l, u) = lu_decomposition(matrix);
    proof {
        lemma_lu_upper_shape(rows_of(matrix), matrix.len() as nat, matrix.len() as nat);
    }
    let y = solve_lower_triangular(&l, b);
    solve_upper_triangular(&u, &y)
}

/// The lower factor is unit lower triangular: ones on the diagonal and
/// zeros above it.
pub proof fn lemma_lu_lower_is_unit_triangular<T: Scalar>(m: Seq<Seq<T>>, r: int, c: int)
    requires
        0 <= r < m.len(),
        0 <= c < m.len(),
    ensures
        r == c ==> lu_lower(m)[r][c] == one::<T>(),
        r < c ==> lu_lower(m)[r][c] == zero::<T>(),
        c < r ==> lu_lower(m)[r][c] == elimination_factor(lu_upper(m, c as nat), c, r),
{
}

} // verus!
