//! A banded test system: a matrix with a constant diagonal and ones on the
//! two diagonals next to it on either side, and a right-hand side that
//! counts from one.

use vstd::prelude::*;
use crate::scalar::Scalar;
use crate::scalar::{one, zero};
use crate::dense::{is_square, norm, norm_spec, residual, residual_spec, rows_of};

verus! {

/// The distance between two indices.
pub open spec fn index_distance(i: int, j: int) -> int {
    if i >= j {
        i - j
    } else {
        j - i
    }
}

/// Entry `(i, j)` of the banded matrix: `a` on the diagonal, one at a
/// distance of one or two from it, zero elsewhere.
pub open spec fn band_entry<T: Scalar>(a: T, i: int, j: int) -> T {
    if i == j {
        a
    } else if index_distance(i, j) <= 2 {
        one::<T>()
    } else {
        zero::<T>()
    }
}

/// The banded matrix of size `n` with `a` on its diagonal.
pub open spec fn band_matrix<T: Scalar>(n: nat, a: T) -> Seq<Seq<T>> {
    Seq::new(n, |i: int| Seq::new(n, |j: int| band_entry(a, i, j)))
}

/// Builds the banded matrix of size `n` with `a` on its diagonal.
pub fn create_custom_matrix<T: Scalar>(n: usize, a: T) -> (matrix: Vec<Vec<T>>)
    ensures
        rows_of(&matrix) == band_matrix(n as nat, a),
        is_square(rows_of(&matrix), n as nat),
{
    let mut matrix: Vec<Vec<T>> = Vec::new();
    let mut i: usize = 0;
    while i < n
        invariant
            i <= n,
            matrix.len() == i,
            forall|r: int| 0 <= r < i ==> (#[trigger] matrix[r])@ == band_matrix(n as nat, a)[r],
        decreases n - i,
    {
        let mut row: Vec<T> = Vec::new();
        let mut j: usize = 0;
        while j < n
            invariant
                j <= n,
                i < n,
                row.len() == j,
                forall|c: int| 0 <= c < j ==> #[trigger] row[c] == band_entry(a, i as int, c),
            decreases n - j,
        {
            let distance = if i >= j {
                i - j
            } else {
                j - i
            };
            if i == j {
                row.push(a);
            } else if distance <= 2 {
                row.push(T::from_int(1));
            } else {
                row.push(T::from_int(0));
            }
            j += 1;
        }
        matrix.push(row);
        i += 1;
    }
    matrix
}

/// The right-hand side of size `n`: entry `i` is `i + 1`.
pub open spec fn counting_vector<T: Scalar>(n: nat) -> Seq<T> {
    Seq::new(n, |i: int| T::from_int_spec((i + 1) as i64))
}

/// Builds the right-hand side of size `n`.
pub fn create_vector_f<T: Scalar>(n: usize) -> (f: Vec<T>)
    requires
        n <= i64::MAX,
    ensures
        f@ == counting_vector::<T>(n as nat),
{
    let mut f: Vec<T> = Vec::new();
    let mut i: usize = 0;
    while i < n
        invariant
            i <= n <= i64::MAX,
            f.len() == i,
            forall|r: int| 0 <= r < i ==> #[trigger] f[r] == T::from_int_spec((r + 1) as i64),
        decreases n - i,
    {
        f.push(T::from_int((i + 1) as i64));
        i += 1;
    }
    f
}

/// The Euclidean norm of the residual `f - matrix x`.
pub fn compute_residual_norm<T: Scalar>(matrix: &Vec<Vec<T>>, x: &Vec<T>, f: &Vec<T>) -> (r: T)
    requires
        is_square(rows_of(matrix), matrix.len() as nat),
        x.len() == matrix.len(),
        f.len() == matrix.len(),
    ensures
        r == norm_spec(residual_spec(rows_of(matrix), x@, f@)),
{
    let res = residual(matrix, x, f);
    norm(&res)
}

/// The banded matrix is symmetric.
pub proof fn lemma_band_matrix_is_symmetric<T: Scalar>(n: nat, a: T, i: int, j: int)
    requires
        0 <= i < n,
        0 <= j < n,
    ensures
        band_matrix(n, a)[i][j] == band_matrix(n, a)[j][i],
{
}

} // verus!
