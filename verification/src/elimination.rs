//! The building blocks of Gaussian elimination on a dense system: choice of
//! the pivot row, exchange of two equations, elimination of one column below
//! the diagonal, and substitution in a triangular system.

use vstd::prelude::*;
use crate::scalar::Scalar;
use crate::scalar::zero;
use crate::dense::{copy_of, dot_range, is_square, range_dot, rows_of, zeros, zeros_spec};

verus! {

/// A square system of equations: the matrix `a` and the right-hand side `b`.
pub struct LinearSystem<T> {
    pub a: Seq<Seq<T>>,
    pub b: Seq<T>,
}

/// `s` has `n` equations in `n` unknowns.
pub open spec fn is_system<T>(s: LinearSystem<T>, n: nat) -> bool {
    is_square(s.a, n) && s.b.len() == n
}

/// The row among `lo..hi` whose entry in column `col` is largest in
/// magnitude; of several such rows, the last. The scan starts with `lo` and
/// moves to a later row whenever the magnitude held so far is at most that
/// of the later row.
pub open spec fn last_largest<T: Scalar>(a: Seq<Seq<T>>, col: int, lo: int, hi: int) -> int
    decreases hi - lo,
{
    if hi <= lo + 1 {
        lo
    } else {
        let p = last_largest(a, col, lo, hi - 1);
        if a[p][col].abs_spec().less_eq_spec(a[hi - 1][col].abs_spec()) {
            hi - 1
        } else {
            p
        }
    }
}

/// The row among `lo..hi` whose entry in column `col` is largest in
/// magnitude; of several such rows, the first. The scan starts with `lo` and
/// moves to a later row only when its magnitude exceeds the one held so far.
pub open spec fn first_largest<T: Scalar>(a: Seq<Seq<T>>, col: int, lo: int, hi: int) -> int
    decreases hi - lo,
{
    if hi <= lo + 1 {
        lo
    } else {
        let p = first_largest(a, col, lo, hi - 1);
        if a[p][col].abs_spec().less_spec(a[hi - 1][col].abs_spec()) {
            hi - 1
        } else {
            p
        }
    }
}

/// The system with equations `i` and `p` exchanged.
pub open spec fn exchanged<T>(s: LinearSystem<T>, i: int, p: int) -> LinearSystem<T> {
    LinearSystem {
        a: s.a.update(i, s.a[p]).update(p, s.a[i]),
        b: s.b.update(i, s.b[p]).update(p, s.b[i]),
    }
}

/// The multiple of row `i` that clears column `i` of row `j`.
pub open spec fn elimination_factor<T: Scalar>(a: Seq<Seq<T>>, i: int, j: int) -> T {
    a[j][i].over_spec(a[i][i])
}

/// `row - factor * pivot` in the columns from `i` on; the columns before
/// `i` are left as they are.
pub open spec fn reduced_row<T: Scalar>(row: Seq<T>, pivot: Seq<T>, i: int, factor: T) -> Seq<T> {
    Seq::new(
        row.len(),
        |k: int|
            if k >= i {
                row[k].minus_spec(factor.times_spec(pivot[k]))
            } else {
                row[k]
            },
    )
}

/// The factors of the elimination of column `i`, one for each row below
/// row `i`, and zero for the rows down to it.
pub open spec fn column_factors<T: Scalar>(a: Seq<Seq<T>>, i: int) -> Seq<T> {
    Seq::new(
        a.len(),
        |j: int|
            if j > i {
                elimination_factor(a, i, j)
            } else {
                zero::<T>()
            },
    )
}

/// The matrix after column `i` has been eliminated from the rows below row `i`.
pub open spec fn eliminated_rows<T: Scalar>(a: Seq<Seq<T>>, i: int) -> Seq<Seq<T>> {
    Seq::new(
        a.len(),
        |j: int|
            if j > i {
                reduced_row(a[j], a[i], i, elimination_factor(a, i, j))
            } else {
                a[j]
            },
    )
}

/// The right-hand side after the same elimination.
pub open spec fn eliminated_rhs<T: Scalar>(a: Seq<Seq<T>>, b: Seq<T>, i: int) -> Seq<T> {
    Seq::new(
        b.len(),
        |j: int|
            if j > i {
                b[j].minus_spec(elimination_factor(a, i, j).times_spec(b[i]))
            } else {
                b[j]
            },
    )
}

/// The system after column `i` has been eliminated below the diagonal.
pub open spec fn eliminated<T: Scalar>(s: LinearSystem<T>, i: int) -> LinearSystem<T> {
    LinearSystem { a: eliminated_rows(s.a, i), b: eliminated_rhs(s.a, s.b, i) }
}

/// The solution of the upper triangular system `a x = b` in the entries
/// from `i` on, and zero before `i`:
/// `x[i] = (b[i] - (a[i][i+1] x[i+1] + ... )) / a[i][i]`, from the last
/// entry up.
pub open spec fn back_substituted<T: Scalar>(a: Seq<Seq<T>>, b: Seq<T>, i: int) -> Seq<T>
    decreases b.len() - i,
{
    if i >= b.len() {
        zeros_spec::<T>(b.len())
    } else {
        let x = back_substituted(a, b, i + 1);
        x.update(
            i,
            b[i].minus_spec(range_dot(a[i], x, i + 1, b.len() as int)).over_spec(a[i][i]),
        )
    }
}

/// A copy of the matrix `m`.
pub fn copy_of_rows<T: Scalar>(m: &Vec<Vec<T>>) -> (a: Vec<Vec<T>>)
    ensures
        rows_of(&a) == rows_of(m),
{
    let mut a: Vec<Vec<T>> = Vec::new();
    let mut i: usize = 0;
    while i < m.len()
        invariant
            i <= m.len(),
            a.len() == i,
            forall|r: int| 0 <= r < i ==> (#[trigger] a[r])@ == m[r]@,
        decreases m.len() - i,
    {
        a.push(copy_of(&m[i]));
        i += 1;
    }
    a
}

/// Exchanges equations `i` and `p`.
pub fn exchange<T: Scalar>(a: &mut Vec<Vec<T>>, b: &mut Vec<T>, i: usize, p: usize)
    requires
        i < old(a).len(),
        p < old(a).len(),
        old(b).len() == old(a).len(),
    ensures
        (LinearSystem { a: rows_of(final(a)), b: final(b)@ }) == exchanged(
            LinearSystem { a: rows_of(old(a)), b: old(b)@ },
            i as int,
            p as int,
        ),
        final(a).len() == old(a).len(),
{
    let ghost before = rows_of(a);
    let row_i = copy_of(&a[i]);
    let row_p = copy_of(&a[p]);
    let bi = b[i];
    let bp = b[p];
    a[i] = row_p;
    a[p] = row_i;
    b[i] = bp;
    b[p] = bi;
    assert(rows_of(a) =~= before.update(i as int, before[p as int]).update(
        p as int,
        before[i as int],
    ));
}

/// Eliminates column `i` from the rows below row `i`, and returns the
/// factor that was used for each of those rows.
pub fn eliminate_rows<T: Scalar>(a: &mut Vec<Vec<T>>, i: usize) -> (factors: Vec<T>)
    requires
        is_square(rows_of(old(a)), old(a).len() as nat),
        i < old(a).len(),
    ensures
        rows_of(final(a)) == eliminated_rows(rows_of(old(a)), i as int),
        factors@ == column_factors(rows_of(old(a)), i as int),
        final(a).len() == old(a).len(),
{
    let n = a.len();
    let ghost a0 = rows_of(a);
    let mut factors: Vec<T> = zeros(i + 1);
    let mut j: usize = i + 1;
    while j < n
        invariant
            i < j <= n,
            a.len() == n,
            is_square(a0, n as nat),
            factors.len() == j,
            forall|r: int| 0 <= r < j ==> #[trigger] factors[r] == column_factors(a0, i as int)[r],
            forall|r: int|
                0 <= r < n ==> (#[trigger] a[r])@ == (if i < r < j {
                    reduced_row(a0[r], a0[i as int], i as int, elimination_factor(a0, i as int, r))
                } else {
                    a0[r]
                }),
        decreases n - j,
    {
        let factor = a[j][i].over(a[i][i]);
        let mut row: Vec<T> = Vec::new();
        let mut k: usize = 0;
        while k < n
            invariant
                k <= n,
                i < j < n,
                a.len() == n,
                a[j as int]@ == a0[j as int] && a[i as int]@ == a0[i as int],
                a0[j as int].len() == n && a0[i as int].len() == n,
                row.len() == k,
                forall|c: int|
                    0 <= c < k ==> #[trigger] row[c] == reduced_row(
                        a0[j as int],
                        a0[i as int],
                        i as int,
                        factor,
                    )[c],
            decreases n - k,
        {
            if k >= i {
                row.push(a[j][k].minus(factor.times(a[i][k])));
            } else {
                row.push(a[j][k]);
            }
            k += 1;
        }
        a[j] = row;
        factors.push(factor);
        j += 1;
    }
    factors
}

/// Eliminates column `i` from the equations below equation `i`.
pub fn eliminate<T: Scalar>(a: &mut Vec<Vec<T>>, b: &mut Vec<T>, i: usize)
    requires
        is_system(LinearSystem { a: rows_of(old(a)), b: old(b)@ }, old(a).len() as nat),
        i < old(a).len(),
    ensures
        (LinearSystem { a: rows_of(final(a)), b: final(b)@ }) == eliminated(
            LinearSystem { a: rows_of(old(a)), b: old(b)@ },
            i as int,
        ),
        final(a).len() == old(a).len(),
{
    let n = a.len();
    let ghost a0 = rows_of(a);
    let ghost b0 = b@;
    let factors = eliminate_rows(a, i);
    let mut j: usize = i + 1;
    while j < n
        invariant
            i < j <= n,
            b.len() == n,
            b0.len() == n,
            a0.len() == n,
            factors@ == column_factors(a0, i as int),
            forall|r: int|
                0 <= r < n ==> #[trigger] b[r] == (if i < r < j {
                    b0[r].minus_spec(elimination_factor(a0, i as int, r).times_spec(b0[i as int]))
                } else {
                    b0[r]
                }),
        decreases n - j,
    {
        let bj = b[j].minus(factors[j].times(b[i]));
        b[j] = bj;
        j += 1;
    }
    assert(b@ =~= eliminated_rhs(a0, b0, i as int));
}

/// Solves the upper triangular system `a x = b` from the last unknown up.
pub fn back_substitute<T: Scalar>(a: &Vec<Vec<T>>, b: &Vec<T>) -> (x: Vec<T>)
    requires
        is_system(LinearSystem { a: rows_of(a), b: b@ }, a.len() as nat),
    ensures
        x@ == back_substituted(rows_of(a), b@, 0),
        x.len() == a.len(),
{
    let n = a.len();
    let mut x: Vec<T> = zeros(n);
    let mut i: usize = n;
    while i > 0
        invariant
            i <= n,
            n == a.len(),
            b.len() == n,
            is_square(rows_of(a), n as nat),
            x.len() == n,
            x@ == back_substituted(rows_of(a), b@, i as int),
        decreases i,
    {
        i -= 1;
        assert(rows_of(a)[i as int] == a[i as int]@);
        let sum = dot_range(&a[i], &x, i + 1, n);
        let xi = b[i].minus(sum).over(a[i][i]);
        x[i] = xi;
    }
    x
}

/// Finds the pivot row for column `col` among the rows from `col` on: the
/// last of the rows with the largest magnitude in that column.
pub fn find_last_largest<T: Scalar>(a: &Vec<Vec<T>>, col: usize) -> (p: usize)
    requires
        is_square(rows_of(a), a.len() as nat),
        col < a.len(),
    ensures
        col <= p < a.len(),
        p == last_largest(rows_of(a), col as int, col as int, a.len() as int),
{
    let n = a.len();
    let mut best: usize = col;
    let mut k: usize = col + 1;
    while k < n
        invariant
            col <= best < k <= n,
            n == a.len(),
            is_square(rows_of(a), n as nat),
            best == last_largest(rows_of(a), col as int, col as int, k as int),
        decreases n - k,
    {
        assert(rows_of(a)[k as int] == a[k as int]@ && rows_of(a)[best as int] == a[best as int]@);
        if a[best][col].abs().less_eq(a[k][col].abs()) {
            best = k;
        }
        k += 1;
    }
    best
}

/// Finds the pivot row for column `col` among the rows from `col` on: the
/// first of the rows with the largest magnitude in that column.
pub fn find_first_largest<T: Scalar>(a: &Vec<Vec<T>>, col: usize) -> (p: usize)
    requires
        is_square(rows_of(a), a.len() as nat),
        col < a.len(),
    ensures
        col <= p < a.len(),
        p == first_largest(rows_of(a), col as int, col as int, a.len() as int),
{
    let n = a.len();
    let mut best: usize = col;
    let mut k: usize = col + 1;
    while k < n
        invariant
            col <= best < k <= n,
            n == a.len(),
            is_square(rows_of(a), n as nat),
            best == first_largest(rows_of(a), col as int, col as int, k as int),
        decreases n - k,
    {
        assert(rows_of(a)[k as int] == a[k as int]@ && rows_of(a)[best as int] == a[best as int]@);
        if a[best][col].abs().less(a[k][col].abs()) {
            best = k;
        }
        k += 1;
    }
    best
}

/// On the magnitudes of column `col` in the rows `lo..hi`, "at most" is
/// total and transitive.
pub open spec fn magnitudes_ordered<T: Scalar>(a: Seq<Seq<T>>, col: int, lo: int, hi: int) -> bool {
    &&& forall|i: int, j: int|
        lo <= i < hi && lo <= j < hi ==> (#[trigger] a[i][col].abs_spec()).less_eq_spec(
            #[trigger] a[j][col].abs_spec(),
        ) || a[j][col].abs_spec().less_eq_spec(a[i][col].abs_spec())
    &&& forall|i: int, j: int, k: int|
        lo <= i < hi && lo <= j < hi && lo <= k < hi && (#[trigger] a[i][col].abs_spec()).less_eq_spec(
            #[trigger] a[j][col].abs_spec(),
        ) && a[j][col].abs_spec().less_eq_spec(#[trigger] a[k][col].abs_spec())
            ==> a[i][col].abs_spec().less_eq_spec(a[k][col].abs_spec())
}

/// Where the magnitudes of a column are ordered, the pivot row holds a
/// largest of them: no row of the range exceeds it, and every later row of
/// the range is strictly below it.
pub proof fn lemma_last_largest_is_largest<T: Scalar>(a: Seq<Seq<T>>, col: int, lo: int, hi: int)
    requires
        lo < hi,
        magnitudes_ordered(a, col, lo, hi),
    ensures
        lo <= last_largest(a, col, lo, hi) < hi,
        forall|k: int|
            lo <= k < hi ==> (#[trigger] a[k][col].abs_spec()).less_eq_spec(
                a[last_largest(a, col, lo, hi)][col].abs_spec(),
            ),
        forall|k: int|
            last_largest(a, col, lo, hi) < k < hi ==> !a[last_largest(
                a,
                col,
                lo,
                hi,
            )][col].abs_spec().less_eq_spec(#[trigger] a[k][col].abs_spec()),
    decreases hi - lo,
{
    if hi > lo + 1 {
        lemma_last_largest_is_largest(a, col, lo, hi - 1);
        let p = last_largest(a, col, lo, hi - 1);
        let q = last_largest(a, col, lo, hi);
        let last = a[hi - 1][col].abs_spec();
        if a[p][col].abs_spec().less_eq_spec(last) {
            assert forall|k: int| lo <= k < hi implies (#[trigger] a[k][col].abs_spec()).less_eq_spec(
                a[q][col].abs_spec(),
            ) by {
                if k < hi - 1 {
                    assert(a[k][col].abs_spec().less_eq_spec(a[p][col].abs_spec()));
                }
            }
        } else {
            assert(a[p][col].abs_spec().less_eq_spec(last) || last.less_eq_spec(
                a[p][col].abs_spec(),
            ));
        }
    }
}

/// On the magnitudes of column `col` in the rows `lo..hi`, "below" is
/// irreflexive and transitive.
pub open spec fn magnitudes_strictly_ordered<T: Scalar>(
    a: Seq<Seq<T>>,
    col: int,
    lo: int,
    hi: int,
) -> bool {
    &&& forall|i: int|
        lo <= i < hi ==> !(#[trigger] a[i][col].abs_spec()).less_spec(a[i][col].abs_spec())
    &&& forall|i: int, j: int, k: int|
        lo <= i < hi && lo <= j < hi && lo <= k < hi && (#[trigger] a[i][col].abs_spec()).less_spec(
            #[trigger] a[j][col].abs_spec(),
        ) && a[j][col].abs_spec().less_spec(#[trigger] a[k][col].abs_spec())
            ==> a[i][col].abs_spec().less_spec(a[k][col].abs_spec())
}

/// Where the magnitudes of a column are strictly ordered, no row of the
/// range exceeds the pivot row that the scan for the first largest finds.
pub proof fn lemma_first_largest_is_largest<T: Scalar>(a: Seq<Seq<T>>, col: int, lo: int, hi: int)
    requires
        lo < hi,
        magnitudes_strictly_ordered(a, col, lo, hi),
    ensures
        lo <= first_largest(a, col, lo, hi) < hi,
        forall|k: int|
            lo <= k < hi ==> !a[first_largest(a, col, lo, hi)][col].abs_spec().less_spec(
                #[trigger] a[k][col].abs_spec(),
            ),
    decreases hi - lo,
{
    if hi > lo + 1 {
        lemma_first_largest_is_largest(a, col, lo, hi - 1);
        let p = first_largest(a, col, lo, hi - 1);
        let q = first_largest(a, col, lo, hi);
        if a[p][col].abs_spec().less_spec(a[hi - 1][col].abs_spec()) {
            assert forall|k: int| lo <= k < hi implies !a[q][col].abs_spec().less_spec(
                #[trigger] a[k][col].abs_spec(),
            ) by {
                if k < hi - 1 && a[q][col].abs_spec().less_spec(a[k][col].abs_spec()) {
                    assert(a[p][col].abs_spec().less_spec(a[k][col].abs_spec()));
                }
            }
        }
    }
}

} // verus!
