//! When Gaussian elimination and the LU solve return the same vector.
//!
//! Both eliminate with the same factors. They differ in two ways: Gaussian
//! elimination may exchange rows, and it takes the products off the
//! right-hand side one by one where the LU solve takes off their sum. Where
//! no row is exchanged and the two ways of subtracting give the same value,
//! the solutions are equal, entry for entry.

use vstd::prelude::*;
use crate::scalar::Scalar;
use crate::scalar::zero;
use crate::dense::range_dot;
use crate::direct::{
    forward_substituted, gauss_solution, lemma_forward_substituted_len, lemma_lu_upper_shape,
    lu_lower, lu_solution, lu_upper, pivoted_elimination,
};
use crate::elimination::{elimination_factor, exchanged, is_system, last_largest, LinearSystem};

verus! {

/// In every column the largest magnitude from the diagonal down, as the
/// scan for the pivot finds it, is on the diagonal: elimination with partial
/// pivoting exchanges no rows.
pub open spec fn diagonal_pivots<T: Scalar>(m: Seq<Seq<T>>) -> bool {
    forall|i: int|
        0 <= i < m.len() ==> #[trigger] last_largest(lu_upper(m, i as nat), i, i, m.len() as int)
            == i
}

/// Taking `s` and then `p` off `b` gives what taking their sum off `b` gives.
pub open spec fn regroups<T: Scalar>(b: T, s: T, p: T) -> bool {
    b.minus_spec(s).minus_spec(p) == b.minus_spec(s.plus_spec(p))
}

/// For every equation, taking the products of the forward substitution off
/// the right-hand side one by one gives what taking off their sum gives.
pub open spec fn subtraction_regroups<T: Scalar>(m: Seq<Seq<T>>, b: Seq<T>) -> bool {
    let l = lu_lower(m);
    let y = forward_substituted(l, b, m.len());
    &&& forall|j: int| 0 <= j < m.len() ==> (#[trigger] b[j]).minus_spec(zero::<T>()) == b[j]
    &&& forall|i: int, j: int|
        0 <= i < j < m.len() ==> regroups(
            b[j],
            #[trigger] range_dot(l[j], y, 0, i),
            l[j][i].times_spec(y[i]),
        )
}

/// An inner product over a range depends on the entries of the range only.
pub proof fn lemma_range_dot_same<T: Scalar>(a: Seq<T>, y1: Seq<T>, y2: Seq<T>, lo: int, hi: int)
    requires
        forall|k: int| lo <= k < hi ==> y1[k] == y2[k],
    ensures
        range_dot(a, y1, lo, hi) == range_dot(a, y2, lo, hi),
    decreases hi - lo,
{
    if hi > lo {
        lemma_range_dot_same(a, y1, y2, lo, hi - 1);
    }
}

/// The entries of a forward substitution do not change as it goes on.
pub proof fn lemma_forward_prefix<T: Scalar>(l: Seq<Seq<T>>, b: Seq<T>, j: nat, n: nat)
    requires
        j <= n,
    ensures
        forward_substituted(l, b, j).len() == j,
        forward_substituted(l, b, n).len() == n,
        forall|k: int|
            0 <= k < j ==> #[trigger] forward_substituted(l, b, j)[k] == forward_substituted(
                l,
                b,
                n,
            )[k],
    decreases n - j,
{
    lemma_forward_substituted_len(l, b, j);
    lemma_forward_substituted_len(l, b, n);
    if j < n {
        lemma_forward_prefix(l, b, j + 1, n);
        let shorter = forward_substituted(l, b, j);
        let longer = forward_substituted(l, b, j + 1);
        assert forall|k: int| 0 <= k < j implies #[trigger] shorter[k] == forward_substituted(
            l,
            b,
            n,
        )[k] by {
            assert(shorter[k] == longer[k]);
        }
    }
}

/// Without an exchange of rows, elimination with partial pivoting produces
/// the upper factor.
pub proof fn lemma_elimination_without_exchange<T: Scalar>(m: Seq<Seq<T>>, b: Seq<T>, i: nat)
    requires
        is_system(LinearSystem { a: m, b }, m.len()),
        diagonal_pivots(m),
        i <= m.len(),
    ensures
        pivoted_elimination(LinearSystem { a: m, b }, i).a == lu_upper(m, i),
        is_system(pivoted_elimination(LinearSystem { a: m, b }, i), m.len()),
    decreases i,
{
    if i > 0 {
        let s0 = LinearSystem { a: m, b };
        lemma_elimination_without_exchange(m, b, (i - 1) as nat);
        let prev = pivoted_elimination(s0, (i - 1) as nat);
        assert(last_largest(lu_upper(m, (i - 1) as nat), i - 1, i - 1, m.len() as int) == i - 1);
        assert(exchanged(prev, i - 1, i - 1).a =~= prev.a);
        assert(exchanged(prev, i - 1, i - 1).b =~= prev.b);
        assert(exchanged(prev, i - 1, i - 1) == prev);
    }
}

/// The right-hand side of equation `j` is settled once the columns before
/// `j` have been eliminated.
pub proof fn lemma_rhs_settles<T: Scalar>(m: Seq<Seq<T>>, b: Seq<T>, j: int, i: nat)
    requires
        is_system(LinearSystem { a: m, b }, m.len()),
        diagonal_pivots(m),
        0 <= j <= i <= m.len(),
        j < m.len(),
    ensures
        pivoted_elimination(LinearSystem { a: m, b }, i).b[j] == pivoted_elimination(
            LinearSystem { a: m, b },
            j as nat,
        ).b[j],
    decreases i,
{
    if i > j {
        lemma_rhs_settles(m, b, j, (i - 1) as nat);
        lemma_elimination_without_exchange(m, b, (i - 1) as nat);
        lemma_elimination_without_exchange(m, b, i);
        let prev = pivoted_elimination(LinearSystem { a: m, b }, (i - 1) as nat);
        assert(exchanged(prev, i - 1, i - 1).a =~= prev.a);
        assert(exchanged(prev, i - 1, i - 1).b =~= prev.b);
        assert(exchanged(prev, i - 1, i - 1) == prev);
    }
}

/// After the first `i` columns, the right-hand side of a later equation `j`
/// is what is left of `b[j]` when the first `i` products of its forward
/// substitution are taken off; and the settled right-hand sides before `j`
/// are the entries of the forward substitution.
pub proof fn lemma_rhs_is_forward_substitution<T: Scalar>(m: Seq<Seq<T>>, b: Seq<T>, i: nat, j: int)
    requires
        is_system(LinearSystem { a: m, b }, m.len()),
        diagonal_pivots(m),
        subtraction_regroups(m, b),
        0 <= i <= j < m.len(),
    ensures
        pivoted_elimination(LinearSystem { a: m, b }, i).b[j] == b[j].minus_spec(
            range_dot(lu_lower(m)[j], forward_substituted(lu_lower(m), b, m.len()), 0, i as int),
        ),
    decreases j, i,
{
    let s0 = LinearSystem { a: m, b };
    let l = lu_lower(m);
    let y = forward_substituted(l, b, m.len());
    if i > 0 {
        let c = (i - 1) as nat;
        lemma_rhs_is_forward_substitution(m, b, c, j);
        lemma_elimination_without_exchange(m, b, c);
        lemma_lu_upper_shape(m, m.len(), c);
        let prev = pivoted_elimination(s0, c);
        assert(exchanged(prev, c as int, c as int).a =~= prev.a);
        assert(exchanged(prev, c as int, c as int).b =~= prev.b);
        assert(exchanged(prev, c as int, c as int) == prev);
        lemma_rhs_is_forward_substitution(m, b, c, c as int);
        lemma_forward_prefix(l, b, c, m.len());
        lemma_forward_prefix(l, b, c + 1, m.len());
        assert(forall|k: int| 0 <= k < c ==> forward_substituted(l, b, c)[k] == y[k]);
        lemma_range_dot_same(l[c as int], forward_substituted(l, b, c), y, 0, c as int);
        assert(y[c as int] == forward_substituted(l, b, c + 1)[c as int]);
        assert(prev.b[c as int] == y[c as int]);
        assert(l[j][c as int] == elimination_factor(lu_upper(m, c), c as int, j));
        assert(regroups(b[j], range_dot(l[j], y, 0, c as int), l[j][c as int].times_spec(y[c as int])));
    }
}

/// Gaussian elimination with partial pivoting and the LU solve return the
/// same vector where elimination exchanges no rows and subtraction
/// regroups.
pub proof fn lemma_lu_agrees_with_gauss<T: Scalar>(m: Seq<Seq<T>>, b: Seq<T>)
    requires
        is_system(LinearSystem { a: m, b }, m.len()),
        diagonal_pivots(m),
        subtraction_regroups(m, b),
    ensures
        lu_solution(m, b) == gauss_solution(m, b),
{
    let n = m.len();
    let s0 = LinearSystem { a: m, b };
    let l = lu_lower(m);
    let y = forward_substituted(l, b, n);
    let g = pivoted_elimination(s0, n);
    lemma_elimination_without_exchange(m, b, n);
    lemma_forward_prefix(l, b, n, n);
    assert forall|j: int| 0 <= j < n implies g.b[j] == y[j] by {
        lemma_rhs_settles(m, b, j, n);
        lemma_rhs_is_forward_substitution(m, b, j as nat, j);
        lemma_forward_prefix(l, b, j as nat, n);
        lemma_forward_prefix(l, b, (j + 1) as nat, n);
        lemma_range_dot_same(l[j], forward_substituted(l, b, j as nat), y, 0, j);
        assert(y[j] == forward_substituted(l, b, (j + 1) as nat)[j]);
    }
    assert(g.b =~= y);
}

} // verus!
