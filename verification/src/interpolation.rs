//! Newton's interpolating polynomial: the table of divided differences and
//! the evaluation of the polynomial from its first row.

use vstd::prelude::*;
use crate::scalar::Scalar;
use crate::scalar::{one, zero};
use crate::dense::{filled, rows_of};

verus! {

/// The divided difference of order `j` that starts at point `i`:
/// `y[i]` for order zero, and above that the difference of the two
/// differences of order `j - 1` over `x[i + j] - x[i]`.
pub open spec fn divided_difference<T: Scalar>(x: Seq<T>, y: Seq<T>, i: int, j: nat) -> T
    decreases j,
{
    if j == 0 {
        y[i]
    } else {
        divided_difference(x, y, i + 1, (j - 1) as nat).minus_spec(
            divided_difference(x, y, i, (j - 1) as nat),
        ).over_spec(x[i + j].minus_spec(x[i]))
    }
}

/// Row `i` of the table when its first `cols` columns are filled in:
/// column `j` holds the divided difference of order `j` that starts at point
/// `i` where `i + j` is still a point, and zero elsewhere.
pub open spec fn difference_row<T: Scalar>(x: Seq<T>, y: Seq<T>, i: int, cols: int) -> Seq<T> {
    Seq::new(
        x.len(),
        |j: int|
            if j < cols && i + j < x.len() {
                divided_difference(x, y, i, j as nat)
            } else {
                zero::<T>()
            },
    )
}

/// The table of divided differences of the points `(x[i], y[i])`.
pub open spec fn difference_table<T: Scalar>(x: Seq<T>, y: Seq<T>) -> Seq<Seq<T>> {
    Seq::new(x.len(), |i: int| difference_row(x, y, i, x.len() as int))
}

/// Builds the table of divided differences of the points `(x[i], y[i])`.
pub fn divided_differences<T: Scalar>(x: &Vec<T>, y: &Vec<T>) -> (table: Vec<Vec<T>>)
    requires
        x.len() <= y.len(),
    ensures
        rows_of(&table) == difference_table(x@, y@),
{
    let n = x.len();
    let mut table: Vec<Vec<T>> = Vec::new();
    let mut i: usize = 0;
    while i < n
        invariant
            i <= n,
            n == x.len(),
            n <= y.len(),
            table.len() == i,
            forall|r: int| 0 <= r < i ==> (#[trigger] table[r])@ == difference_row(x@, y@, r, 1),
        decreases n - i,
    {
        let mut row: Vec<T> = filled(T::from_int(0), n);
        row[0] = y[i];
        table.push(row);
        i += 1;
    }
    let mut j: usize = 1;
    while j < n
        invariant
            1 <= j,
            j <= n || n == 0,
            n == x.len(),
            table.len() == n,
            forall|r: int|
                0 <= r < n ==> (#[trigger] table[r])@ == difference_row(x@, y@, r, j as int),
        decreases n - j,
    {
        let mut i: usize = 0;
        while i < n - j
            invariant
                1 <= j < n,
                i <= n - j,
                n == x.len(),
                table.len() == n,
                forall|r: int|
                    0 <= r < n ==> (#[trigger] table[r])@ == difference_row(
                        x@,
                        y@,
                        r,
                        if r < i {
                            j + 1
                        } else {
                            j as int
                        },
                    ),
            decreases n - j - i,
        {
            let v = table[i + 1][j - 1].minus(table[i][j - 1]).over(x[i + j].minus(x[i]));
            table[i][j] = v;
            i += 1;
        }
        j += 1;
    }
    table
}

/// The product `(t - x[0]) (t - x[1]) ... (t - x[i-1])`, accumulated from
/// one in ascending order of the index.
pub open spec fn node_product<T: Scalar>(x: Seq<T>, t: T, i: nat) -> T
    decreases i,
{
    if i == 0 {
        one::<T>()
    } else {
        node_product(x, t, (i - 1) as nat).times_spec(t.minus_spec(x[i - 1]))
    }
}

/// The sum of the first `n` terms of Newton's form with the coefficients
/// `c`: `c[0]`, to which `c[i]` times the product of the first `i` factors
/// is added for `i = 1, 2, ...` in turn.
pub open spec fn newton_form<T: Scalar>(x: Seq<T>, t: T, c: Seq<T>, n: nat) -> T
    decreases n,
{
    if n <= 1 {
        c[0]
    } else {
        newton_form(x, t, c, (n - 1) as nat).plus_spec(
            c[n - 1].times_spec(node_product(x, t, (n - 1) as nat)),
        )
    }
}

/// Evaluates at `target` the interpolating polynomial whose coefficients are
/// the first row of `diff_table`.
pub fn newton_polynomial<T: Scalar>(x: &Vec<T>, target: T, diff_table: &Vec<Vec<T>>) -> (r: T)
    requires
        diff_table.len() >= 1,
        diff_table[0].len() >= 1,
        diff_table[0].len() >= x.len(),
    ensures
        r == newton_form(x@, target, diff_table[0]@, x.len() as nat),
{
    let n = x.len();
    let mut result = diff_table[0][0];
    let mut product_term = T::from_int(1);
    let mut i: usize = 1;
    while i < n
        invariant
            1 <= i,
            i <= n || (n == 0 && i == 1),
            n == x.len(),
            diff_table.len() >= 1,
            diff_table[0].len() >= n,
            diff_table[0].len() >= 1,
            product_term == node_product(x@, target, (i - 1) as nat),
            result == newton_form(x@, target, diff_table[0]@, i as nat),
        decreases n - i,
    {
        product_term = product_term.times(target.minus(x[i - 1]));
        result = result.plus(diff_table[0][i].times(product_term));
        i += 1;
    }
    result
}

} // verus!
