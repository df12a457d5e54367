//! Quadrature on a sampled grid: the trapezoidal rule on the grid and on
//! every second point of it, Simpson's rule, and Runge's refinement of two
//! estimates.

use vstd::prelude::*;
use crate::scalar::Scalar;
use crate::scalar::{one, power, power_spec, zero};

verus! {

/// The area of the trapezoid between the grid points `i` and `j`:
/// `(x[j] - x[i]) (y[i] + y[j]) / 2`.
pub open spec fn trapezoid<T: Scalar>(x: Seq<T>, y: Seq<T>, i: int, j: int) -> T {
    x[j].minus_spec(x[i]).times_spec(y[i].plus_spec(y[j])).over_spec(T::from_int_spec(2))
}

/// The sum of the first `m` trapezoids on every `stride`-th grid point,
/// accumulated from zero from the left.
pub open spec fn trapezoid_sum<T: Scalar>(x: Seq<T>, y: Seq<T>, stride: int, m: nat) -> T
    decreases m,
{
    if m == 0 {
        zero::<T>()
    } else {
        trapezoid_sum(x, y, stride, (m - 1) as nat).plus_spec(
            trapezoid(x, y, stride * (m - 1), stride * m),
        )
    }
}

/// The trapezoidal rule on all the intervals of the grid.
pub fn trapezoidal_method_h<T: Scalar>(x: &Vec<T>, y: &Vec<T>) -> (integral: T)
    requires
        1 <= x.len() <= y.len(),
    ensures
        integral == trapezoid_sum(x@, y@, 1, (x.len() - 1) as nat),
{
    let n = x.len() - 1;
    let two = T::from_int(2);
    let mut integral = T::from_int(0);
    let mut i: usize = 0;
    while i < n
        invariant
            i <= n,
            n == x.len() - 1,
            x.len() <= y.len(),
            two == T::from_int_spec(2),
            integral == trapezoid_sum(x@, y@, 1, i as nat),
        decreases n - i,
    {
        let h = x[i + 1].minus(x[i]);
        integral = integral.plus(h.times(y[i].plus(y[i + 1])).over(two));
        i += 1;
    }
    integral
}

/// The trapezoidal rule on every second point of the grid, which must have
/// an even number of intervals.
pub fn trapezoidal_method_2h<T: Scalar>(x: &Vec<T>, y: &Vec<T>) -> (integral: T)
    requires
        1 <= x.len() <= y.len(),
        (x.len() - 1) % 2 == 0,
    ensures
        integral == trapezoid_sum(x@, y@, 2, ((x.len() - 1) / 2) as nat),
{
    let n = x.len() - 1;
    let two = T::from_int(2);
    let mut integral = T::from_int(0);
    let mut i: usize = 0;
    while i < n
        invariant
            i <= n,
            i % 2 == 0,
            n % 2 == 0,
            n == x.len() - 1,
            x.len() <= y.len(),
            two == T::from_int_spec(2),
            integral == trapezoid_sum(x@, y@, 2, (i / 2) as nat),
        decreases n - i,
    {
        let h = x[i + 2].minus(x[i]);
        integral = integral.plus(h.times(y[i].plus(y[i + 2])).over(two));
        i += 2;
    }
    integral
}

/// The weight of the interior sample `i` in Simpson's rule: two for even
/// `i`, four for odd `i`.
pub open spec fn simpson_weight<T: Scalar>(i: int) -> T {
    if i % 2 == 0 {
        T::from_int_spec(2)
    } else {
        T::from_int_spec(4)
    }
}

/// The weighted sum of Simpson's rule over the two end samples and the
/// interior samples before `i`: `y[0] + y[n]`, to which the weighted
/// interior samples are added in ascending order.
pub open spec fn simpson_sum<T: Scalar>(y: Seq<T>, n: int, i: nat) -> T
    decreases i,
{
    if i <= 1 {
        y[0].plus_spec(y[n])
    } else {
        simpson_sum(y, n, (i - 1) as nat).plus_spec(
            simpson_weight::<T>(i - 1).times_spec(y[i - 1]),
        )
    }
}

/// What Simpson's rule returns on a grid of `n` intervals: the weighted sum
/// times the mean width `(x[n] - x[0]) / n`, over three.
pub open spec fn simpson_value<T: Scalar>(x: Seq<T>, y: Seq<T>) -> T {
    let n = x.len() - 1;
    let h = x[n].minus_spec(x[0]).over_spec(T::from_int_spec(n as i64));
    simpson_sum(y, n, if n < 1 {
        1nat
    } else {
        n as nat
    }).times_spec(h).over_spec(T::from_int_spec(3))
}

/// Simpson's rule on the grid, which must have an even number of intervals.
pub fn simpson_method<T: Scalar>(x: &Vec<T>, y: &Vec<T>) -> (integral: T)
    requires
        1 <= x.len() <= y.len(),
        (x.len() - 1) % 2 == 0,
        x.len() - 1 <= i64::MAX,
    ensures
        integral == simpson_value(x@, y@),
{
    let n = x.len() - 1;
    let h = x[n].minus(x[0]).over(T::from_int(n as i64));
    let mut integral = y[0].plus(y[n]);
    let mut i: usize = 1;
    while i < n
        invariant
            1 <= i,
            i <= n || (n == 0 && i == 1),
            n == x.len() - 1,
            x.len() <= y.len(),
            integral == simpson_sum(y@, n as int, i as nat),
        decreases n - i,
    {
        if i % 2 == 0 {
            integral = integral.plus(T::from_int(2).times(y[i]));
        } else {
            integral = integral.plus(T::from_int(4).times(y[i]));
        }
        i += 1;
    }
    integral.times(h).over(T::from_int(3))
}

/// Runge's refinement of the estimate `i_h` on a grid by the estimate
/// `i_2h` on the grid of twice the step, for a rule of order `p`:
/// `(2^p i_h - i_2h) / (2^p - 1)`.
pub open spec fn refined<T: Scalar>(i_h: T, i_2h: T, p: nat) -> T {
    let r = power_spec(T::from_int_spec(2), p);
    r.times_spec(i_h).minus_spec(i_2h).over_spec(r.minus_spec(one::<T>()))
}

/// Refines the estimate `i_h` by the coarser estimate `i_2h`.
pub fn runge_refinement<T: Scalar>(i_h: T, i_2h: T, p: u32) -> (r: T)
    ensures
        r == refined(i_h, i_2h, p as nat),
{
    let r = power(T::from_int(2), p as usize);
    r.times(i_h).minus(i_2h).over(r.minus(T::from_int(1)))
}

} // verus!
