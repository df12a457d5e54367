//! Natural cubic spline through a set of knots.
//!
//! The second derivatives come from the tridiagonal continuity system, which
//! is solved by its own forward elimination and back substitution. On the
//! interval that starts at knot `j` the spline is
//! `a[j] + b[j] dx + c[j] dx^2 + d[j] dx^3` with `dx` the distance from that knot.

use vstd::prelude::*;
use crate::scalar::Scalar;
use crate::scalar::{power, power_spec, zero};
use crate::dense::{copy_of, zeros};

verus! {

/// The coefficients of a spline and its knots, as sequences.
pub struct SplineModel<T> {
    pub a: Seq<T>,
    pub b: Seq<T>,
    pub c: Seq<T>,
    pub d: Seq<T>,
    pub x: Seq<T>,
}

impl<T> SplineModel<T> {
    /// There are at least two knots, a value for each of them, and one set
    /// of coefficients for each interval between them.
    pub open spec fn well_formed(self) -> bool {
        &&& self.x.len() >= 2
        &&& self.a.len() >= self.x.len()
        &&& self.b.len() == self.x.len() - 1
        &&& self.c.len() == self.x.len()
        &&& self.d.len() == self.x.len() - 1
    }
}

/// The width of the interval that starts at knot `i`.
pub open spec fn knot_step<T: Scalar>(x: Seq<T>, i: int) -> T {
    x[i + 1].minus_spec(x[i])
}

/// The right-hand side of the continuity equation at knot `i`: zero at the
/// first knot, else three times the jump of the slope of the data.
pub open spec fn slope_jump<T: Scalar>(x: Seq<T>, y: Seq<T>, i: int) -> T {
    if i > 0 {
        let three = T::from_int_spec(3);
        three.over_spec(knot_step(x, i)).times_spec(y[i + 1].minus_spec(y[i])).minus_spec(
            three.over_spec(knot_step(x, i - 1)).times_spec(y[i].minus_spec(y[i - 1])),
        )
    } else {
        zero::<T>()
    }
}

/// The pair `(mu, z)` of the forward elimination at knot `i`; both are zero
/// at the first knot.
pub open spec fn spline_forward<T: Scalar>(x: Seq<T>, y: Seq<T>, i: int) -> (T, T)
    decreases i,
{
    if i <= 0 {
        (zero::<T>(), zero::<T>())
    } else {
        let prev = spline_forward(x, y, i - 1);
        let l = T::from_int_spec(2).times_spec(x[i + 1].minus_spec(x[i - 1])).minus_spec(
            knot_step(x, i - 1).times_spec(prev.0),
        );
        (
            knot_step(x, i).over_spec(l),
            slope_jump(x, y, i).minus_spec(knot_step(x, i - 1).times_spec(prev.1)).over_spec(l),
        )
    }
}

/// The quadratic coefficient at knot `j`: zero at the last knot, and
/// `z[j] - mu[j] c[j+1]` below it.
pub open spec fn spline_c<T: Scalar>(x: Seq<T>, y: Seq<T>, j: int) -> T
    decreases x.len() - j,
{
    if j >= x.len() - 1 {
        zero::<T>()
    } else {
        let f = spline_forward(x, y, j);
        f.1.minus_spec(f.0.times_spec(spline_c(x, y, j + 1)))
    }
}

/// The linear coefficient on the interval that starts at knot `j`.
pub open spec fn spline_b<T: Scalar>(x: Seq<T>, y: Seq<T>, j: int) -> T {
    let h = knot_step(x, j);
    y[j + 1].minus_spec(y[j]).over_spec(h).minus_spec(
        h.times_spec(
            spline_c(x, y, j + 1).plus_spec(T::from_int_spec(2).times_spec(spline_c(x, y, j))),
        ).over_spec(T::from_int_spec(3)),
    )
}

/// The cubic coefficient on the interval that starts at knot `j`.
pub open spec fn spline_d<T: Scalar>(x: Seq<T>, y: Seq<T>, j: int) -> T {
    spline_c(x, y, j + 1).minus_spec(spline_c(x, y, j)).over_spec(
        T::from_int_spec(3).times_spec(knot_step(x, j)),
    )
}

/// The natural cubic spline through the points `(x[i], y[i])`.
pub open spec fn natural_spline<T: Scalar>(x: Seq<T>, y: Seq<T>) -> SplineModel<T> {
    SplineModel {
        a: y,
        b: Seq::new((x.len() - 1) as nat, |j: int| spline_b(x, y, j)),
        c: Seq::new(x.len(), |j: int| spline_c(x, y, j)),
        d: Seq::new((x.len() - 1) as nat, |j: int| spline_d(x, y, j)),
        x,
    }
}

/// `t` lies in the closed interval between knots `j` and `j + 1`.
pub open spec fn in_interval<T: Scalar>(x: Seq<T>, t: T, j: int) -> bool {
    x[j].less_eq_spec(t) && t.less_eq_spec(x[j + 1])
}

/// The first interval at or after `j` that holds `t`, or the last interval
/// if none does.
pub open spec fn interval_from<T: Scalar>(x: Seq<T>, t: T, j: int) -> int
    decreases x.len() - j,
{
    if j >= x.len() - 1 {
        x.len() - 2
    } else if in_interval(x, t, j) {
        j
    } else {
        interval_from(x, t, j + 1)
    }
}

/// The cubic of interval `i` at `t`.
pub open spec fn cubic_value<T: Scalar>(s: SplineModel<T>, i: int, t: T) -> T {
    let dx = t.minus_spec(s.x[i]);
    s.a[i].plus_spec(s.b[i].times_spec(dx)).plus_spec(s.c[i].times_spec(power_spec(dx, 2))).plus_spec(
        s.d[i].times_spec(power_spec(dx, 3)),
    )
}

/// The value of the spline at `t`: the cubic of the first interval that
/// holds `t`, or of the last interval where none does.
pub open spec fn spline_value<T: Scalar>(s: SplineModel<T>, t: T) -> T {
    cubic_value(s, interval_from(s.x, t, 0), t)
}

/// A natural cubic spline.
pub struct CubicSpline<T> {
    a: Vec<T>,
    b: Vec<T>,
    c: Vec<T>,
    d: Vec<T>,
    x: Vec<T>,
}

impl<T: Scalar> View for CubicSpline<T> {
    type V = SplineModel<T>;

    closed spec fn view(&self) -> SplineModel<T> {
        SplineModel { a: self.a@, b: self.b@, c: self.c@, d: self.d@, x: self.x@ }
    }
}

impl<T: Scalar> CubicSpline<T> {
    /// Builds the natural cubic spline through the points `(x[i], y[i])`.
    pub fn new(x: &Vec<T>, y: &Vec<T>) -> (s: Self)
        requires
            1 <= x.len() <= y.len(),
        ensures
            s@ == natural_spline(x@, y@),
            x.len() >= 2 ==> s@.well_formed(),
    {
        let n = x.len();
        let a = copy_of(y);
        let mut h: Vec<T> = Vec::new();
        let mut alpha: Vec<T> = Vec::new();
        let three = T::from_int(3);
        let mut i: usize = 0;
        while i < n - 1
            invariant
                i <= n - 1,
                n == x.len(),
                n <= y.len(),
                a@ == y@,
                three == T::from_int_spec(3),
                h.len() == i && alpha.len() == i,
                forall|k: int| 0 <= k < i ==> #[trigger] h[k] == knot_step(x@, k),
                forall|k: int| 0 <= k < i ==> #[trigger] alpha[k] == slope_jump(x@, y@, k),
            decreases n - i,
        {
            let hi = x[i + 1].minus(x[i]);
            h.push(hi);
            let al = if i > 0 {
                three.over(h[i]).times(a[i + 1].minus(a[i])).minus(
                    three.over(h[i - 1]).times(a[i].minus(a[i - 1])),
                )
            } else {
                T::from_int(0)
            };
            alpha.push(al);
            i += 1;
        }
        let mut mu: Vec<T> = Vec::new();
        let mut z: Vec<T> = Vec::new();
        mu.push(T::from_int(0));
        z.push(T::from_int(0));
        let mut i: usize = 1;
        while i < n - 1
            invariant
                1 <= i,
                i <= n - 1 || n == 1,
                n == x.len(),
                h.len() == n - 1 && alpha.len() == n - 1,
                mu.len() == i && z.len() == i,
                forall|k: int| 0 <= k < n - 1 ==> #[trigger] h[k] == knot_step(x@, k),
                forall|k: int| 0 <= k < n - 1 ==> #[trigger] alpha[k] == slope_jump(x@, y@, k),
                forall|k: int| 0 <= k < i ==> #[trigger] mu[k] == spline_forward(x@, y@, k).0,
                forall|k: int| 0 <= k < i ==> #[trigger] z[k] == spline_forward(x@, y@, k).1,
            decreases n - i,
        {
            let l = T::from_int(2).times(x[i + 1].minus(x[i - 1])).minus(h[i - 1].times(mu[i - 1]));
            mu.push(h[i].over(l));
            z.push(alpha[i].minus(h[i - 1].times(z[i - 1])).over(l));
            i += 1;
        }
        let mut c: Vec<T> = zeros(n);
        let mut b: Vec<T> = zeros(n - 1);
        let mut d: Vec<T> = zeros(n - 1);
        let mut j: usize = n - 1;
        while j > 0
            invariant
                j <= n - 1,
                n == x.len(),
                n <= y.len(),
                a@ == y@,
                three == T::from_int_spec(3),
                h.len() == n - 1,
                mu.len() >= n - 1 && z.len() >= n - 1,
                c.len() == n && b.len() == n - 1 && d.len() == n - 1,
                forall|k: int| 0 <= k < n - 1 ==> #[trigger] h[k] == knot_step(x@, k),
                forall|k: int| 0 <= k < n - 1 ==> #[trigger] mu[k] == spline_forward(x@, y@, k).0,
                forall|k: int| 0 <= k < n - 1 ==> #[trigger] z[k] == spline_forward(x@, y@, k).1,
                forall|k: int| j <= k < n ==> #[trigger] c[k] == spline_c(x@, y@, k),
                forall|k: int| j <= k < n - 1 ==> #[trigger] b[k] == spline_b(x@, y@, k),
                forall|k: int| j <= k < n - 1 ==> #[trigger] d[k] == spline_d(x@, y@, k),
            decreases j,
        {
            j -= 1;
            let cj = z[j].minus(mu[j].times(c[j + 1]));
            c[j] = cj;
            let bj = a[j + 1].minus(a[j]).over(h[j]).minus(
                h[j].times(c[j + 1].plus(T::from_int(2).times(c[j]))).over(three),
            );
            b[j] = bj;
            let dj = c[j + 1].minus(c[j]).over(three.times(h[j]));
            d[j] = dj;
        }
        let xs = copy_of(x);
        let s = CubicSpline { a, b, c, d, x: xs };
        proof {
            let m = natural_spline(x@, y@);
            assert(s.b@ =~= m.b);
            assert(s.c@ =~= m.c);
            assert(s.d@ =~= m.d);
        }
        s
    }

    /// Evaluates the spline at `t`.
    pub fn evaluate(&self, t: T) -> (r: T)
        requires
            self@.well_formed(),
        ensures
            r == spline_value(self@, t),
    {
        let n = self.x.len();
        let mut i: usize = n - 2;
        let mut j: usize = 0;
        while j < n - 1
            invariant_except_break
                j <= n - 1,
                i == n - 2,
                interval_from(self.x@, t, 0) == interval_from(self.x@, t, j as int),
            invariant
                n == self.x.len(),
                n >= 2,
            ensures
                i < n - 1,
                i == interval_from(self.x@, t, 0),
            decreases n - j,
        {
            if self.x[j].less_eq(t) && t.less_eq(self.x[j + 1]) {
                i = j;
                break;
            }
            j += 1;
        }
        let dx = t.minus(self.x[i]);
        self.a[i].plus(self.b[i].times(dx)).plus(self.c[i].times(power(dx, 2))).plus(
            self.d[i].times(power(dx, 3)),
        )
    }
}

/// The interval in which the spline is evaluated is the first one that
/// holds the argument, and the last one if none does.
pub proof fn lemma_interval_is_first<T: Scalar>(x: Seq<T>, t: T, j: int)
    requires
        x.len() >= 2,
        0 <= j <= x.len() - 1,
    ensures
        j <= interval_from(x, t, j) <= x.len() - 2 || (j == x.len() - 1 && interval_from(x, t, j)
            == x.len() - 2),
        forall|k: int| j <= k < interval_from(x, t, j) ==> !in_interval(x, t, k),
        in_interval(x, t, interval_from(x, t, j)) || (interval_from(x, t, j) == x.len() - 2
            && forall|k: int| j <= k < x.len() - 1 ==> !in_interval(x, t, k)),
    decreases x.len() - j,
{
    if j < x.len() - 1 && !in_interval(x, t, j) {
        lemma_interval_is_first(x, t, j + 1);
    }
}

} // verus!
