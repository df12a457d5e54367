use numlab::function::Mapping;
use numlab::root_systems::{mpi_system, newton_system};
use numlab::roots::{central_difference, mpi_with_errors, newton_with_errors, RootFailure};
use numlab::scalar::Scalar;

#[derive(Clone, Copy, Debug, PartialEq)]
struct Real(f64);

impl Scalar for Real {
    fn from_int(n: i64) -> Self {
        Real(n as f64)
    }
    fn plus(self, rhs: Self) -> Self {
        Real(self.0 + rhs.0)
    }
    fn minus(self, rhs: Self) -> Self {
        Real(self.0 - rhs.0)
    }
    fn times(self, rhs: Self) -> Self {
        Real(self.0 * rhs.0)
    }
    fn over(self, rhs: Self) -> Self {
        Real(self.0 / rhs.0)
    }
    fn neg(self) -> Self {
        Real(-self.0)
    }
    fn abs(self) -> Self {
        Real(self.0.abs())
    }
    fn sqrt(self) -> Self {
        Real(self.0.sqrt())
    }
    fn less(self, rhs: Self) -> bool {
        self.0 < rhs.0
    }
    fn less_eq(self, rhs: Self) -> bool {
        self.0 <= rhs.0
    }
}

struct Func<F>(F);

impl<F: Fn(Real) -> Real> Mapping<Real, Real> for Func<F> {
    fn apply(&self, a: Real) -> Real {
        (self.0)(a)
    }
}

struct Func2<F>(F);

impl<F: Fn(Real, Real) -> Real> Mapping<(Real, Real), Real> for Func2<F> {
    fn apply(&self, a: (Real, Real)) -> Real {
        (self.0)(a.0, a.1)
    }
}

fn reals(v: &[f64]) -> Vec<Real> {
    v.iter().map(|&x| Real(x)).collect()
}

fn floats(v: &[Real]) -> Vec<f64> {
    v.iter().map(|x| x.0).collect()
}

fn f(x: Real) -> Real {
    Real(2.0 * x.0.ln() / std::f64::consts::LN_10 - x.0 / 2.0 + 1.0)
}

fn g1(x: Real) -> Real {
    Real(10_f64.powf(x.0 / 4.0 - 0.5))
}

fn g2(x: Real) -> Real {
    Real(4.0 * x.0.ln() / std::f64::consts::LN_10 + 2.0)
}

fn f1(x: Real, y: Real) -> Real {
    Real(x.0.sin() - y.0 - 1.32)
}

fn f2(x: Real, y: Real) -> Real {
    Real(y.0.cos() - x.0 + 0.85)
}

fn gx(_x: Real, y: Real) -> Real {
    Real(y.0.cos() + 0.85)
}

fn gy(x: Real, _y: Real) -> Real {
    Real(x.0.sin() - 1.32)
}

const TOL: f64 = 1e-5;
const H: f64 = 1e-5;

#[test]
fn newton_finds_two_distinct_roots() {
    let (low, errors_low) = newton_with_errors(Func(f), Real(0.4), Real(TOL), 1000, Real(H)).unwrap();
    let (high, errors_high) = newton_with_errors(Func(f), Real(4.5), Real(TOL), 1000, Real(H)).unwrap();
    assert!(f(low).0.abs() < TOL);
    assert!(f(high).0.abs() < TOL);
    assert!((high.0 - low.0).abs() > 1.0);
    assert!(low.0 > 0.3 && low.0 < 0.5);
    assert!(high.0 > 4.5 && high.0 < 4.8);
    assert!(errors_low[errors_low.len() - 1].0 < TOL);
    assert!(errors_high[errors_high.len() - 1].0 < TOL);
}

#[test]
fn newton_from_a_root_stays_at_the_root() {
    for x0 in [0.4, 4.5] {
        let (root, _) = newton_with_errors(Func(f), Real(x0), Real(TOL), 1000, Real(H)).unwrap();
        let (again, errors) = newton_with_errors(Func(f), root, Real(TOL), 1000, Real(H)).unwrap();
        assert_eq!(errors.len(), 1);
        assert!((again.0 - root.0).abs() < TOL);
    }
}

#[test]
fn fixed_point_iterations_find_the_roots() {
    let (low, errors) = mpi_with_errors(Func(g1), Func(f), Real(0.4), Real(TOL), 1000).unwrap();
    assert!(f(low).0.abs() < TOL);
    assert!(low.0 > 0.3 && low.0 < 0.5);
    assert!(errors.len() >= 1);
    let (high, _) = mpi_with_errors(Func(g2), Func(f), Real(4.5), Real(TOL), 1000).unwrap();
    assert!(f(high).0.abs() < TOL);
    assert!(high.0 > 4.5 && high.0 < 4.8);
    let (newton, _) = newton_with_errors(Func(f), Real(4.5), Real(TOL), 1000, Real(H)).unwrap();
    assert!((newton.0 - high.0).abs() < 1e-3);
}

#[test]
fn fixed_point_steps_are_recorded_in_order() {
    let halve = |x: Real| Real(x.0 / 2.0);
    let any = |_x: Real| Real(0.0);
    let (root, errors) = mpi_with_errors(Func(halve), Func(any), Real(8.0), Real(1.5), 10).unwrap();
    assert_eq!(root.0, 1.0);
    assert_eq!(floats(&errors), vec![4.0, 2.0, 1.0]);
}

#[test]
fn small_step_with_a_large_residual_is_rejected() {
    let stay = |x: Real| x;
    let far = |_x: Real| Real(1.0);
    match mpi_with_errors(Func(stay), Func(far), Real(3.0), Real(TOL), 10) {
        Err(RootFailure::Rejected { steps, candidate, residual }) => {
            assert_eq!(steps, 1);
            assert_eq!(candidate.0, 3.0);
            assert_eq!(residual.0, 1.0);
        }
        _ => panic!("the candidate was not rejected"),
    }
}

#[test]
fn iteration_that_never_settles_does_not_converge() {
    let drift = |x: Real| Real(x.0 + 1.0);
    let any = |_x: Real| Real(0.0);
    assert!(matches!(
        mpi_with_errors(Func(drift), Func(any), Real(0.0), Real(TOL), 50),
        Err(RootFailure::NotConverged)
    ));
    assert!(matches!(
        mpi_with_errors(Func(drift), Func(any), Real(0.0), Real(TOL), 0),
        Err(RootFailure::NotConverged)
    ));
    assert!(matches!(
        newton_with_errors(Func(f), Real(0.4), Real(TOL), 0, Real(H)),
        Err(RootFailure::NotConverged)
    ));
    assert!(matches!(
        newton_with_errors(Func(|x: Real| Real(x.0 * x.0 + 1.0)), Real(3.0), Real(1e-12), 40, Real(H)),
        Err(RootFailure::NotConverged) | Err(RootFailure::Degenerate { .. })
    ));
}

#[test]
fn flat_derivative_ends_newton() {
    let flat = |_x: Real| Real(2.0);
    assert!(matches!(
        newton_with_errors(Func(flat), Real(1.0), Real(TOL), 10, Real(H)),
        Err(RootFailure::Degenerate { steps: 0 })
    ));
    let kink = |x: Real| Real(if x.0 >= 0.5 { x.0 + 1.0 } else { 5.0 });
    assert!(matches!(
        newton_with_errors(Func(kink), Real(1.0), Real(TOL), 10, Real(H)),
        Err(RootFailure::Degenerate { steps: 1 })
    ));
}

#[test]
fn rejected_newton_candidate_reports_its_step() {
    let ramp = |x: Real| Real(if x.0 >= 1.0 { 10.0 + 1e6 * (x.0 - 1.0) } else { 10.0 });
    match newton_with_errors(Func(ramp), Real(1.0), Real(1e-2), 10, Real(H)) {
        Err(RootFailure::Rejected { steps, candidate, residual }) => {
            assert_eq!(steps, 1);
            assert!(candidate.0 < 1.0 && candidate.0 > 0.9999);
            assert_eq!(residual.0, 10.0);
        }
        _ => panic!("the candidate was not rejected"),
    }
}

#[test]
fn newton_on_a_line_takes_one_step_and_a_check() {
    let line = |x: Real| Real(2.0 * x.0 - 6.0);
    let (root, errors) = newton_with_errors(Func(line), Real(1.0), Real(1e-6), 10, Real(0.5)).unwrap();
    assert_eq!(root.0, 3.0);
    assert_eq!(floats(&errors), vec![2.0, 0.0]);
    assert!(matches!(
        newton_with_errors(Func(line), Real(1.0), Real(1e-6), 1, Real(0.5)),
        Err(RootFailure::NotConverged)
    ));
}

#[test]
fn central_difference_of_a_square() {
    let square = |x: Real| Real(x.0 * x.0);
    assert_eq!(central_difference(&Func(square), Real(3.0), Real(0.5)).0, 6.0);
}

#[test]
fn fixed_point_iteration_in_the_plane() {
    let (x, y, errors) = mpi_system(Func2(gx), Func2(gy), Func2(f1), Func2(f2), Real(1.0), Real(1.0), Real(TOL), 1000).unwrap();
    assert!(f1(x, y).0.abs() < TOL);
    assert!(f2(x, y).0.abs() < TOL);
    assert!(errors[errors.len() - 1].0 < TOL);
    for w in errors.windows(2) {
        assert!(w[0].0.is_finite() && w[1].0.is_finite());
    }
}

#[test]
fn newton_in_the_plane() {
    let (x, y, errors) =
        newton_system(Func2(f1), Func2(f2), Real(1.0), Real(1.0), Real(TOL), 1000, Real(H)).unwrap();
    assert!(f1(x, y).0.abs() < TOL);
    assert!(f2(x, y).0.abs() < TOL);
    assert!(errors.len() < 20);
    let (mx, my, _) = mpi_system(Func2(gx), Func2(gy), Func2(f1), Func2(f2), Real(1.0), Real(1.0), Real(TOL), 1000).unwrap();
    assert!((mx.0 - x.0).abs() < 1e-3 && (my.0 - y.0).abs() < 1e-3);
}

#[test]
fn newton_solves_a_linear_pair_in_one_step() {
    let a = |x: Real, y: Real| Real(2.0 * x.0 + y.0 - 5.0);
    let b = |x: Real, y: Real| Real(x.0 - y.0 - 1.0);
    match newton_system(Func2(a), Func2(b), Real(0.0), Real(0.0), Real(1e-6), 1, Real(0.5)) {
        Err(RootFailure::NotConverged) => {}
        _ => panic!("the first correction is not small"),
    }
    let (x, y, errors) = newton_system(Func2(a), Func2(b), Real(0.0), Real(0.0), Real(1e-6), 5, Real(0.5)).unwrap();
    assert!((x.0 - 2.0).abs() < 1e-12 && (y.0 - 1.0).abs() < 1e-12);
    assert_eq!(errors.len(), 2);
    assert_eq!(errors[0].0, 1.5);
}

#[test]
fn singular_jacobian_ends_newton_in_the_plane() {
    let a = |x: Real, y: Real| Real(x.0 + y.0);
    let b = |x: Real, y: Real| Real(2.0 * x.0 + 2.0 * y.0 + 1.0);
    assert!(matches!(
        newton_system(Func2(a), Func2(b), Real(1.0), Real(1.0), Real(TOL), 10, Real(0.5)),
        Err(RootFailure::Degenerate { steps: 0 })
    ));
}

#[test]
fn plane_candidate_that_misses_the_equations_is_rejected() {
    let keep_x = |x: Real, _y: Real| x;
    let keep_y = |_x: Real, y: Real| y;
    let one = |_x: Real, _y: Real| Real(1.0);
    let none = |_x: Real, _y: Real| Real(0.0);
    match mpi_system(Func2(keep_x), Func2(keep_y), Func2(none), Func2(one), Real(2.0), Real(3.0), Real(TOL), 10) {
        Err(RootFailure::Rejected { steps, candidate, residual }) => {
            assert_eq!(steps, 1);
            assert_eq!((candidate.0 .0, candidate.1 .0), (2.0, 3.0));
            assert_eq!((residual.0 .0, residual.1 .0), (0.0, 1.0));
        }
        _ => panic!("the candidate was not rejected"),
    }
    let drift = |x: Real, _y: Real| Real(x.0 + 1.0);
    assert!(matches!(
        mpi_system(Func2(drift), Func2(keep_y), Func2(none), Func2(none), Real(0.0), Real(0.0), Real(TOL), 20),
        Err(RootFailure::NotConverged)
    ));
}

#[test]
fn plane_newton_candidate_that_misses_the_equations_is_rejected() {
    let ramp = |x: Real, _y: Real| Real(if x.0 >= 1.0 { 10.0 + 1e6 * (x.0 - 1.0) } else { 10.0 });
    let second = |_x: Real, y: Real| y;
    match newton_system(Func2(ramp), Func2(second), Real(1.0), Real(0.0), Real(1e-2), 10, Real(H)) {
        Err(RootFailure::Rejected { steps, candidate, residual }) => {
            assert_eq!(steps, 1);
            assert!(candidate.0 .0 < 1.0 && candidate.0 .0 > 0.9999);
            assert_eq!(candidate.1 .0, 0.0);
            assert_eq!((residual.0 .0, residual.1 .0), (10.0, 0.0));
        }
        _ => panic!("the candidate was not rejected"),
    }
    assert!(matches!(
        newton_system(Func2(ramp), Func2(second), Real(1.0), Real(0.0), Real(1e-9), 0, Real(H)),
        Err(RootFailure::NotConverged)
    ));
}
