//! Least-squares fit of a polynomial: the normal equations are assembled
//! from sums of powers of the abscissae and solved by Gaussian elimination
//! with partial pivoting.

use vstd::prelude::*;
use crate::scalar::Scalar;
use crate::function::Mapping;
use crate::scalar::{power, power_spec, zero};
use crate::dense::{is_square, rows_of, zeros, zeros_spec};
use crate::elimination::{
    eliminate, eliminated, exchange, exchanged, find_first_largest, first_largest, is_system,
    LinearSystem,
};

verus! {

/// The system after the first `i` columns have been processed: for each
/// column in turn, the row from the diagonal down with the largest magnitude
/// in that column (the first such row) is exchanged with the diagonal row,
/// and the column is eliminated below the diagonal.
pub open spec fn first_pivoted_elimination<T: Scalar>(s: LinearSystem<T>, i: nat) -> LinearSystem<T>
    decreases i,
{
    if i == 0 {
        s
    } else {
        let prev = first_pivoted_elimination(s, (i - 1) as nat);
        let p = first_largest(prev.a, i - 1, i - 1, s.b.len() as int);
        eliminated(exchanged(prev, i - 1, p), i - 1)
    }
}

/// The pivot row lies in the range that was scanned.
pub proof fn lemma_first_largest_in_range<T: Scalar>(a: Seq<Seq<T>>, col: int, lo: int, hi: int)
    requires
        lo < hi,
    ensures
        lo <= first_largest(a, col, lo, hi) < hi,
    decreases hi - lo,
{
    if hi > lo + 1 {
        lemma_first_largest_in_range(a, col, lo, hi - 1);
    }
}

/// Pivoting and elimination keep the shape of the system.
pub proof fn lemma_first_pivoted_shape<T: Scalar>(s: LinearSystem<T>, n: nat, i: nat)
    requires
        is_system(s, n),
        i <= n,
    ensures
        is_system(first_pivoted_elimination(s, i), n),
    decreases i,
{
    if i > 0 {
        lemma_first_pivoted_shape(s, n, (i - 1) as nat);
        let prev = first_pivoted_elimination(s, (i - 1) as nat);
        lemma_first_largest_in_range(prev.a, i - 1, i - 1, n as int);
    }
}

/// The unknowns from `i` on and the right-hand side that is left for the
/// unknowns before `i`, in the back substitution by columns:
/// `x[i] = b[i] / a[i][i]`, after which `a[k][i] x[i]` is taken from `b[k]`
/// for every `k < i`.
pub open spec fn column_substituted<T: Scalar>(a: Seq<Seq<T>>, b: Seq<T>, i: int) -> (Seq<T>, Seq<T>)
    decreases b.len() - i,
{
    if i >= b.len() {
        (zeros_spec::<T>(b.len()), b)
    } else {
        let next = column_substituted(a, b, i + 1);
        let xi = next.1[i].over_spec(a[i][i]);
        (
            next.0.update(i, xi),
            Seq::new(
                b.len(),
                |k: int|
                    if k < i {
                        next.1[k].minus_spec(a[k][i].times_spec(xi))
                    } else {
                        next.1[k]
                    },
            ),
        )
    }
}

/// What `gaussian_elimination` returns for the system `s`.
pub open spec fn elimination_solution<T: Scalar>(s: LinearSystem<T>) -> Seq<T> {
    let t = first_pivoted_elimination(s, s.b.len());
    column_substituted(t.a, t.b, 0).0
}

/// Solves `a x = b` by Gaussian elimination with partial pivoting and back
/// substitution by columns.
pub fn gaussian_elimination<T: Scalar>(a: Vec<Vec<T>>, b: Vec<T>) -> (x: Vec<T>)
    requires
        is_system(LinearSystem { a: rows_of(&a), b: b@ }, b.len() as nat),
    ensures
        x@ == elimination_solution(LinearSystem { a: rows_of(&a), b: b@ }),
        x.len() == b.len(),
{
    let n = b.len();
    let ghost s0 = LinearSystem { a: rows_of(&a), b: b@ };
    let mut a = a;
    let mut b = b;
    let mut i: usize = 0;
    while i < n
        invariant
            i <= n,
            a.len() == n,
            s0.b.len() == n,
            is_system(s0, n as nat),
            (LinearSystem { a: rows_of(&a), b: b@ }) == first_pivoted_elimination(s0, i as nat),
        decreases n - i,
    {
        proof {
            lemma_first_pivoted_shape(s0, n as nat, i as nat);
        }
        let max_row = find_first_largest(&a, i);
        exchange(&mut a, &mut b, i, max_row);
        eliminate(&mut a, &mut b, i);
        i += 1;
    }
    proof {
        lemma_first_pivoted_shape(s0, n as nat, n as nat);
    }
    let ghost ta = rows_of(&a);
    let ghost tb = b@;
    let mut x: Vec<T> = zeros(n);
    let mut i: usize = n;
    while i > 0
        invariant
            i <= n,
            a.len() == n,
            ta == rows_of(&a),
            is_square(ta, n as nat),
            tb.len() == n,
            b.len() == n,
            x.len() == n,
            (x@, b@) == column_substituted(ta, tb, i as int),
        decreases i,
    {
        i -= 1;
        assert(ta[i as int] == a[i as int]@);
        let xi = b[i].over(a[i][i]);
        x[i] = xi;
        let ghost b1 = b@;
        let mut k: usize = 0;
        while k < i
            invariant
                k <= i < n,
                a.len() == n,
                ta == rows_of(&a),
                is_square(ta, n as nat),
                b.len() == n,
                b1.len() == n,
                forall|r: int|
                    0 <= r < n ==> #[trigger] b[r] == (if r < k {
                        b1[r].minus_spec(ta[r][i as int].times_spec(xi))
                    } else {
                        b1[r]
                    }),
            decreases i - k,
        {
            assert(ta[k as int] == a[k as int]@);
            let v = b[k].minus(a[k][i].times(xi));
            b[k] = v;
            k += 1;
        }
    }
    x
}

/// The sum of the powers `x[k]^e` over `k < n`, accumulated from zero in
/// ascending order of `k`.
pub open spec fn power_sum<T: Scalar>(x: Seq<T>, e: nat, n: nat) -> T
    decreases n,
{
    if n == 0 {
        zero::<T>()
    } else {
        power_sum(x, e, (n - 1) as nat).plus_spec(power_spec(x[n - 1], e))
    }
}

/// The sum of `y[k] x[k]^e` over `k < n`, accumulated from zero in ascending
/// order of `k`.
pub open spec fn moment<T: Scalar>(x: Seq<T>, y: Seq<T>, e: nat, n: nat) -> T
    decreases n,
{
    if n == 0 {
        zero::<T>()
    } else {
        moment(x, y, e, (n - 1) as nat).plus_spec(y[n - 1].times_spec(power_spec(x[n - 1], e)))
    }
}

/// The number of points that have both an abscissa and an ordinate.
pub open spec fn paired<T>(x: Seq<T>, y: Seq<T>) -> nat {
    if x.len() <= y.len() {
        x.len()
    } else {
        y.len()
    }
}

/// The normal equations of the fit of a polynomial of the given degree:
/// entry `(i, j)` of the matrix is the sum of the powers `i + j` of the
/// abscissae, and entry `i` of the right-hand side the sum of the ordinates
/// times the powers `i` of their abscissae.
pub open spec fn normal_equations<T: Scalar>(x: Seq<T>, y: Seq<T>, degree: nat) -> LinearSystem<T> {
    LinearSystem {
        a: Seq::new(
            degree + 1,
            |i: int| Seq::new(degree + 1, |j: int| power_sum(x, (i + j) as nat, x.len())),
        ),
        b: Seq::new(degree + 1, |i: int| moment(x, y, i as nat, paired(x, y))),
    }
}

/// The value at `t` of the polynomial with the given coefficients, lowest
/// degree first: the sum of `c[i] t^i`, accumulated from zero in ascending
/// order of `i`.
pub open spec fn polynomial_value<T: Scalar>(c: Seq<T>, t: T, n: nat) -> T
    decreases n,
{
    if n == 0 {
        zero::<T>()
    } else {
        polynomial_value(c, t, (n - 1) as nat).plus_spec(
            c[n - 1].times_spec(power_spec(t, (n - 1) as nat)),
        )
    }
}

/// A polynomial fitted to data in the least-squares sense.
pub struct LeastSquaresPolynomial<T> {
    coeffs: Vec<T>,
}

impl<T: Scalar> View for LeastSquaresPolynomial<T> {
    type V = Seq<T>;

    /// The coefficients, lowest degree first.
    closed spec fn view(&self) -> Seq<T> {
        self.coeffs@
    }
}

impl<T: Scalar> LeastSquaresPolynomial<T> {
    /// Fits a polynomial of the given degree to the points `(x[k], y[k])`.
    pub fn new(x: &Vec<T>, y: &Vec<T>, degree: usize) -> (p: Self)
        requires
            2 * degree < usize::MAX,
        ensures
            p@ == elimination_solution(normal_equations(x@, y@, degree as nat)),
    {
        let ghost s = normal_equations(x@, y@, degree as nat);
        let pairs = if x.len() <= y.len() {
            x.len()
        } else {
            y.len()
        };
        let mut a: Vec<Vec<T>> = Vec::new();
        let mut b: Vec<T> = Vec::new();
        let mut i: usize = 0;
        while i <= degree
            invariant
                i <= degree + 1,
                2 * degree < usize::MAX,
                pairs == paired(x@, y@),
                s == normal_equations(x@, y@, degree as nat),
                a.len() == i,
                b.len() == i,
                forall|r: int| 0 <= r < i ==> (#[trigger] a[r])@ == s.a[r],
                forall|r: int| 0 <= r < i ==> #[trigger] b[r] == s.b[r],
            decreases degree + 1 - i,
        {
            let mut row: Vec<T> = Vec::new();
            let mut j: usize = 0;
            while j <= degree
                invariant
                    j <= degree + 1,
                    i <= degree,
                    2 * degree < usize::MAX,
                    row.len() == j,
                    forall|c: int|
                        0 <= c < j ==> #[trigger] row[c] == power_sum(x@, (i + c) as nat, x@.len()),
                decreases degree + 1 - j,
            {
                let mut sum = T::from_int(0);
                let mut k: usize = 0;
                while k < x.len()
                    invariant
                        k <= x.len(),
                        i + j <= 2 * degree,
                        2 * degree < usize::MAX,
                        sum == power_sum(x@, (i + j) as nat, k as nat),
                    decreases x.len() - k,
                {
                    sum = sum.plus(power(x[k], i + j));
                    k += 1;
                }
                row.push(sum);
                j += 1;
            }
            a.push(row);
            let mut sum = T::from_int(0);
            let mut k: usize = 0;
            while k < pairs
                invariant
                    k <= pairs,
                    pairs <= x.len(),
                    pairs <= y.len(),
                    sum == moment(x@, y@, i as nat, k as nat),
                decreases pairs - k,
            {
                sum = sum.plus(y[k].times(power(x[k], i)));
                k += 1;
            }
            b.push(sum);
            i += 1;
        }
        assert(rows_of(&a) =~= s.a);
        assert(b@ =~= s.b);
        let coeffs = gaussian_elimination(a, b);
        LeastSquaresPolynomial { coeffs }
    }

    /// Evaluates the polynomial at `t`.
    pub fn evaluate(&self, t: T) -> (r: T)
        ensures
            r == polynomial_value(self@, t, self@.len()),
    {
        let mut sum = T::from_int(0);
        let mut i: usize = 0;
        while i < self.coeffs.len()
            invariant
                i <= self.coeffs.len(),
                sum == polynomial_value(self.coeffs@, t, i as nat),
            decreases self.coeffs.len() - i,
        {
            sum = sum.plus(self.coeffs[i].times(power(t, i)));
            i += 1;
        }
        sum
    }
}

impl<T: Scalar> Mapping<T, T> for LeastSquaresPolynomial<T> {
    /// The value of the polynomial.
    open spec fn image(&self, t: T) -> T {
        polynomial_value(self@, t, self@.len())
    }

    fn apply(&self, t: T) -> (r: T) {
        self.evaluate(t)
    }
}

} // verus!
