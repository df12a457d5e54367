use numlab::function::Mapping;
use numlab::periodic::{periodic_sweep, solve_periodic};
use numlab::scalar::Scalar;

#[derive(Clone, Copy, Debug, PartialEq)]
struct Real(f64);

impl Scalar for Real {
    fn from_int(n: i64) -> Self {
        Real(n as f64)
    }
    fn plus(self, rhs: Self) -> Self {
        Real(self.0 + rhs.0)
    }
    fn minus(self, rhs: Self) -> Self {
        Real(self.0 - rhs.0)
    }
    fn times(self, rhs: Self) -> Self {
        Real(self.0 * rhs.0)
    }
    fn over(self, rhs: Self) -> Self {
        Real(self.0 / rhs.0)
    }
    fn neg(self) -> Self {
        Real(-self.0)
    }
    fn abs(self) -> Self {
        Real(self.0.abs())
    }
    fn sqrt(self) -> Self {
        Real(self.0.sqrt())
    }
    fn less(self, rhs: Self) -> bool {
        self.0 < rhs.0
    }
    fn less_eq(self, rhs: Self) -> bool {
        self.0 <= rhs.0
    }
}

struct Func<F>(F);

impl<F: Fn(Real) -> Real> Mapping<Real, Real> for Func<F> {
    fn apply(&self, a: Real) -> Real {
        (self.0)(a)
    }
}

fn p_squared(x: Real) -> Real {
    Real(10.0 + (2.0 * std::f64::consts::PI * x.0).sin())
}

fn f_func(x: Real) -> Real {
    Real((2.0 * std::f64::consts::PI * x.0).cos())
}

/// The residual of equation `i` of the cyclic system
/// `a_i y_{i-1} - b_i y_i + c_i y_{i+1} = d_i` that the sweep solves.
fn cyclic_residual(a: &[Real], b: &[Real], c: &[Real], d: &[Real], y: &[Real], i: usize) -> f64 {
    let n = y.len();
    let before = y[(i + n - 1) % n].0;
    let after = y[(i + 1) % n].0;
    a[i].0 * before - b[i].0 * y[i].0 + c[i].0 * after - d[i].0
}

#[test]
fn sweep_solves_a_small_cyclic_system() {
    let a = vec![Real(1.0); 5];
    let c = vec![Real(1.0); 5];
    let b = vec![Real(4.0), Real(5.0), Real(6.0), Real(5.0), Real(4.0)];
    let d = vec![Real(1.0), Real(-2.0), Real(0.5), Real(3.0), Real(-1.0)];
    let y = periodic_sweep(&a, &b, &c, &d);
    assert_eq!(y.len(), 5);
    for i in 0..5 {
        assert!(cyclic_residual(&a, &b, &c, &d, &y, i).abs() < 1e-12);
    }
}

#[test]
fn periodic_solution_satisfies_the_discretised_equations() {
    let h = 0.005;
    let n = (1.0 / h) as usize + 1;
    let y = solve_periodic(Func(p_squared), Func(f_func), Real(h), n);
    assert_eq!(y.len(), n);
    for i in 1..n - 1 {
        let x = i as f64 * h;
        let lhs = y[i - 1].0 - (2.0 + p_squared(Real(x)).0 * h * h) * y[i].0 + y[i + 1].0;
        let rhs = f_func(Real(x)).0 * h * h;
        assert!((lhs - rhs).abs() < 1e-6);
    }
}

#[test]
fn two_point_system_is_swept_without_a_forward_loop() {
    let a = vec![Real(1.0), Real(1.0)];
    let c = vec![Real(1.0), Real(1.0)];
    let b = vec![Real(3.0), Real(4.0)];
    let d = vec![Real(1.0), Real(2.0)];
    let y = periodic_sweep(&a, &b, &c, &d);
    assert_eq!(y.len(), 2);
    assert!(y[0].0.is_finite() && y[1].0.is_finite());
}
