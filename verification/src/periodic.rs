//! A periodic boundary-value problem on a uniform grid, and the cyclic
//! tridiagonal sweep that solves its discretisation.
//!
//! Besides the two usual elimination coefficients the forward sweep carries
//! a third one, `gamma`, for the coupling of every unknown to the last one
//! that periodicity introduces.

use vstd::prelude::*;
use crate::scalar::Scalar;
use crate::scalar::{one, power, power_spec, zero};
use crate::dense::{filled, zeros};
use crate::function::Mapping;

verus! {

/// The coefficients of a cyclic tridiagonal system: sub-diagonal `a`,
/// diagonal `b`, super-diagonal `c` and right-hand side `d`.
pub struct Cyclic<T> {
    pub a: Seq<T>,
    pub b: Seq<T>,
    pub c: Seq<T>,
    pub d: Seq<T>,
}

/// The elimination coefficients `(alpha, beta, gamma)` with index `k`.
/// Index zero is unused and holds zeros; index one starts the recurrence
/// from the first equation.
pub open spec fn sweep_coefficients<T: Scalar>(s: Cyclic<T>, k: nat) -> (T, T, T)
    decreases k,
{
    if k == 0 {
        (zero::<T>(), zero::<T>(), zero::<T>())
    } else if k == 1 {
        (
            s.c[0].over_spec(s.b[0]),
            s.d[0].neg_spec().over_spec(s.b[0]),
            s.a[0].over_spec(s.b[0]),
        )
    } else {
        let n = k - 1;
        let prev = sweep_coefficients(s, n as nat);
        let den = s.b[n].minus_spec(s.a[n].times_spec(prev.0));
        (
            s.c[n].over_spec(den),
            s.d[n].neg_spec().plus_spec(s.a[n].times_spec(prev.1)).over_spec(den),
            s.a[n].times_spec(prev.2).over_spec(den),
        )
    }
}

/// The pair `(mu, nu)` that closes the forward sweep at the last equation.
pub open spec fn sweep_closure<T: Scalar>(s: Cyclic<T>) -> (T, T) {
    let last = s.b.len() - 1;
    let co = sweep_coefficients(s, last as nat);
    let den = s.b[last].neg_spec().plus_spec(s.a[last].times_spec(co.0.plus_spec(co.2)));
    (
        s.c[last].neg_spec().over_spec(den),
        s.d[last].minus_spec(s.a[last].times_spec(co.1)).over_spec(den),
    )
}

/// The pair `(mu, nu)` with index `k`, which expresses unknown `k` through
/// unknown zero; computed from the last index down.
pub open spec fn sweep_back<T: Scalar>(s: Cyclic<T>, k: int) -> (T, T)
    decreases s.b.len() - k,
{
    let close = sweep_closure(s);
    if k >= s.b.len() - 1 {
        close
    } else {
        let co = sweep_coefficients(s, (k + 1) as nat);
        let next = sweep_back(s, k + 1);
        (
            co.0.times_spec(next.0).plus_spec(co.2.times_spec(close.0)),
            co.1.plus_spec(co.0.times_spec(next.1)).plus_spec(co.2.times_spec(close.1)),
        )
    }
}

/// The last unknown: `mu y0 + nu` at the last index, with
/// `y0 = nu(0) / (1 - mu(0))`.
pub open spec fn sweep_last<T: Scalar>(s: Cyclic<T>) -> T {
    let first = sweep_back(s, 0);
    let y0 = first.1.over_spec(one::<T>().minus_spec(first.0));
    let close = sweep_back(s, s.b.len() - 1);
    close.0.times_spec(y0).plus_spec(close.1)
}

/// Unknown `k`, recovered from the last index down by
/// `y(k) = alpha(k+1) y(k+1) + beta(k+1) + gamma(k+1) y(last)`.
pub open spec fn sweep_solution<T: Scalar>(s: Cyclic<T>, k: int) -> T
    decreases s.b.len() - k,
{
    if k >= s.b.len() - 1 {
        sweep_last(s)
    } else {
        let co = sweep_coefficients(s, (k + 1) as nat);
        co.0.times_spec(sweep_solution(s, k + 1)).plus_spec(co.1).plus_spec(
            co.2.times_spec(sweep_last(s)),
        )
    }
}

/// Solves the cyclic tridiagonal system with the given coefficients by a
/// forward sweep, a closed form for the coupling to the first unknown, and a
/// backward sweep.
pub fn periodic_sweep<T: Scalar>(a: &Vec<T>, b: &Vec<T>, c: &Vec<T>, d: &Vec<T>) -> (y: Vec<T>)
    requires
        b.len() >= 2,
        a.len() == b.len(),
        c.len() == b.len(),
        d.len() == b.len(),
    ensures
        y@ == Seq::new(
            b.len() as nat,
            |k: int| sweep_solution(Cyclic { a: a@, b: b@, c: c@, d: d@ }, k),
        ),
{
    let size = b.len();
    let ghost s = Cyclic { a: a@, b: b@, c: c@, d: d@ };
    let mut alpha: Vec<T> = Vec::new();
    let mut beta: Vec<T> = Vec::new();
    let mut gamma: Vec<T> = Vec::new();
    alpha.push(T::from_int(0));
    beta.push(T::from_int(0));
    gamma.push(T::from_int(0));
    alpha.push(c[0].over(b[0]));
    beta.push(d[0].neg().over(b[0]));
    gamma.push(a[0].over(b[0]));
    let mut n: usize = 1;
    while n < size - 1
        invariant
            1 <= n <= size - 1,
            size == b.len(),
            s == (Cyclic { a: a@, b: b@, c: c@, d: d@ }),
            a.len() == size && c.len() == size && d.len() == size,
            alpha.len() == n + 1 && beta.len() == n + 1 && gamma.len() == n + 1,
            forall|k: int| 0 <= k <= n ==> #[trigger] alpha[k] == sweep_coefficients(s, k as nat).0,
            forall|k: int| 0 <= k <= n ==> #[trigger] beta[k] == sweep_coefficients(s, k as nat).1,
            forall|k: int| 0 <= k <= n ==> #[trigger] gamma[k] == sweep_coefficients(s, k as nat).2,
        decreases size - n,
    {
        let den = b[n].minus(a[n].times(alpha[n]));
        alpha.push(c[n].over(den));
        beta.push(d[n].neg().plus(a[n].times(beta[n])).over(den));
        gamma.push(a[n].times(gamma[n]).over(den));
        n += 1;
    }
    let last = size - 1;
    let den_last = b[last].neg().plus(a[last].times(alpha[last].plus(gamma[last])));
    let mu_last = c[last].neg().over(den_last);
    let nu_last = d[last].minus(a[last].times(beta[last])).over(den_last);

    let mut mu: Vec<T> = zeros(size);
    let mut nu: Vec<T> = zeros(size);
    mu[last] = mu_last;
    nu[last] = nu_last;
    let mut n: usize = last;
    while n > 0
        invariant
            n <= last,
            last == size - 1,
            size == b.len(),
            size >= 2,
            s.b.len() == size,
            (mu_last, nu_last) == sweep_closure(s),
            mu.len() == size && nu.len() == size,
            alpha.len() == size && beta.len() == size && gamma.len() == size,
            forall|k: int|
                0 <= k < size ==> #[trigger] alpha[k] == sweep_coefficients(s, k as nat).0,
            forall|k: int| 0 <= k < size ==> #[trigger] beta[k] == sweep_coefficients(s, k as nat).1,
            forall|k: int|
                0 <= k < size ==> #[trigger] gamma[k] == sweep_coefficients(s, k as nat).2,
            forall|k: int| n <= k < size ==> #[trigger] mu[k] == sweep_back(s, k).0,
            forall|k: int| n <= k < size ==> #[trigger] nu[k] == sweep_back(s, k).1,
        decreases n,
    {
        let m = alpha[n].times(mu[n]).plus(gamma[n].times(mu_last));
        let v = beta[n].plus(alpha[n].times(nu[n])).plus(gamma[n].times(nu_last));
        mu[n - 1] = m;
        nu[n - 1] = v;
        n -= 1;
    }
    let y0 = nu[0].over(T::from_int(1).minus(mu[0]));
    let mut y: Vec<T> = zeros(size);
    y[0] = y0;
    let y_last = mu[last].times(y[0]).plus(nu[last]);
    y[last] = y_last;
    let mut n: usize = last;
    while n > 0
        invariant
            n <= last,
            last == size - 1,
            size == b.len(),
            size >= 2,
            s.b.len() == size,
            y_last == sweep_last(s),
            y.len() == size,
            alpha.len() == size && beta.len() == size && gamma.len() == size,
            forall|k: int|
                0 <= k < size ==> #[trigger] alpha[k] == sweep_coefficients(s, k as nat).0,
            forall|k: int| 0 <= k < size ==> #[trigger] beta[k] == sweep_coefficients(s, k as nat).1,
            forall|k: int|
                0 <= k < size ==> #[trigger] gamma[k] == sweep_coefficients(s, k as nat).2,
            forall|k: int| n <= k < size ==> #[trigger] y[k] == sweep_solution(s, k),
        decreases n,
    {
        let v = alpha[n].times(y[n]).plus(beta[n]).plus(gamma[n].times(y_last));
        y[n - 1] = v;
        n -= 1;
    }
    y
}

/// The grid point with index `i` on a uniform grid of step `h` from zero.
pub open spec fn grid_point<T: Scalar>(h: T, i: int) -> T {
    T::from_int_spec(i as i64).times_spec(h)
}

/// The discretisation of `y'' - p_squared(x) y = f(x)` with period `n` steps of
/// width `h`: unit off-diagonals, diagonal `2 + p_squared(x_i) h^2` and right-hand
/// side `f(x_i) h^2`.
pub open spec fn periodic_system<T: Scalar, P: Mapping<T, T>, F: Mapping<T, T>>(
    p_squared: P,
    f_func: F,
    h: T,
    n: nat,
) -> Cyclic<T> {
    Cyclic {
        a: Seq::new(n, |i: int| one::<T>()),
        b: Seq::new(
            n,
            |i: int|
                T::from_int_spec(2).plus_spec(
                    p_squared.image(grid_point(h, i)).times_spec(power_spec(h, 2)),
                ),
        ),
        c: Seq::new(n, |i: int| one::<T>()),
        d: Seq::new(n, |i: int| f_func.image(grid_point(h, i)).times_spec(power_spec(h, 2))),
    }
}

/// Solves the periodic problem `y'' - p_squared(x) y = f(x)` on `n` grid points of
/// step `h`, by assembling its cyclic tridiagonal system and sweeping it.
pub fn solve_periodic<T: Scalar, P: Mapping<T, T>, F: Mapping<T, T>>(
    p_squared: P,
    f_func: F,
    h: T,
    n: usize,
) -> (y: Vec<T>)
    requires
        2 <= n <= i64::MAX,
    ensures
        y@ == Seq::new(
            n as nat,
            |k: int| sweep_solution(periodic_system(p_squared, f_func, h, n as nat), k),
        ),
{
    let ghost s = periodic_system(p_squared, f_func, h, n as nat);
    let a: Vec<T> = filled(T::from_int(1), n);
    let c: Vec<T> = filled(T::from_int(1), n);
    let h2 = power(h, 2);
    let mut b: Vec<T> = Vec::new();
    let mut d: Vec<T> = Vec::new();
    let mut i: usize = 0;
    while i < n
        invariant
            i <= n <= i64::MAX,
            h2 == power_spec(h, 2),
            s == periodic_system(p_squared, f_func, h, n as nat),
            b.len() == i && d.len() == i,
            forall|k: int| 0 <= k < i ==> #[trigger] b[k] == s.b[k],
            forall|k: int| 0 <= k < i ==> #[trigger] d[k] == s.d[k],
        decreases n - i,
    {
        let x = T::from_int(i as i64).times(h);
        b.push(T::from_int(2).plus(p_squared.apply(x).times(h2)));
        d.push(f_func.apply(x).times(h2));
        i += 1;
    }
    assert(a@ =~= s.a && b@ =~= s.b && c@ =~= s.c && d@ =~= s.d);
    periodic_sweep(&a, &b, &c, &d)
}

} // verus!
