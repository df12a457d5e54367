use numlab::convergence::Termination;
use numlab::dense::{
    has_square_shape, copy_of, dot, dot_range, filled, mat_vec, minus_vec, norm, plus_vec, residual, scale,
    transposed_mat_vec, zeros,
};
use numlab::direct::{
    gauss_pivot_solve, lu_decomposition, lu_solve, solve_lower_triangular, solve_upper_triangular,
};
use numlab::elimination::{eliminate, exchange, find_first_largest, find_last_largest};
use numlab::krylov::{bicgstab_solve, gradient_descent_solve, minimal_residuals_solve};
use numlab::pentadiagonal::{compute_residual_norm, create_custom_matrix, create_vector_f};
use numlab::scalar::{power, Scalar};
use numlab::stationary::{jacobi_solve, seidel_solve, upper_relaxation_solve};

#[derive(Clone, Copy, Debug, PartialEq)]
struct Real(f64);

impl Scalar for Real {
    fn from_int(n: i64) -> Self {
        Real(n as f64)
    }
    fn plus(self, rhs: Self) -> Self {
        Real(self.0 + rhs.0)
    }
    fn minus(self, rhs: Self) -> Self {
        Real(self.0 - rhs.0)
    }
    fn times(self, rhs: Self) -> Self {
        Real(self.0 * rhs.0)
    }
    fn over(self, rhs: Self) -> Self {
        Real(self.0 / rhs.0)
    }
    fn neg(self) -> Self {
        Real(-self.0)
    }
    fn abs(self) -> Self {
        Real(self.0.abs())
    }
    fn sqrt(self) -> Self {
        Real(self.0.sqrt())
    }
    fn less(self, rhs: Self) -> bool {
        self.0 < rhs.0
    }
    fn less_eq(self, rhs: Self) -> bool {
        self.0 <= rhs.0
    }
}

fn reals(v: &[f64]) -> Vec<Real> {
    v.iter().map(|&x| Real(x)).collect()
}

fn floats(v: &[Real]) -> Vec<f64> {
    v.iter().map(|x| x.0).collect()
}

fn matrix(rows: &[&[f64]]) -> Vec<Vec<Real>> {
    rows.iter().map(|r| reals(r)).collect()
}

fn residual_norm(a: &[Vec<Real>], x: &[Real], b: &[Real]) -> f64 {
    let mut sum = 0.0;
    for i in 0..a.len() {
        let mut ax = 0.0;
        for j in 0..x.len() {
            ax += a[i][j].0 * x[j].0;
        }
        sum += (b[i].0 - ax) * (b[i].0 - ax);
    }
    sum.sqrt()
}

fn distance(x: &[Real], y: &[Real]) -> f64 {
    x.iter().zip(y.iter()).map(|(a, b)| (a.0 - b.0) * (a.0 - b.0)).sum::<f64>().sqrt()
}

fn reference_system() -> (Vec<Vec<Real>>, Vec<Real>) {
    (
        matrix(&[&[4.0, 1.0, 1.0], &[2.0, 7.0, 1.0], &[1.0, -3.0, 12.0]]),
        reals(&[5.0, 4.0, 10.0]),
    )
}

fn positive_definite() -> (Vec<Vec<Real>>, Vec<Real>) {
    (
        matrix(&[&[4.0, 1.0, 0.0], &[1.0, 3.0, 1.0], &[0.0, 1.0, 2.0]]),
        reals(&[1.0, 2.0, 3.0]),
    )
}

fn small() -> (Vec<Vec<Real>>, Vec<Real>) {
    (matrix(&[&[2.0, 1.0], &[1.0, 4.0]]), reals(&[2.0, 4.0]))
}

#[test]
fn gauss_solves_the_reference_system() {
    let (a, b) = reference_system();
    let x = gauss_pivot_solve(&a, &b);
    assert!(residual_norm(&a, &x, &b) < 1e-6);
}

#[test]
fn lu_solves_the_reference_system() {
    let (a, b) = reference_system();
    let x = lu_solve(&a, &b);
    assert!(residual_norm(&a, &x, &b) < 1e-6);
}

#[test]
fn jacobi_solves_the_reference_system() {
    let (a, b) = reference_system();
    let (x, residuals, end) = jacobi_solve(&a, &b, Real(1e-12), 10_000);
    assert!(end.converged());
    assert!(residual_norm(&a, &x, &b) < 1e-6);
    assert_eq!(end, Termination::Converged { iterations: residuals.len() });
}

#[test]
fn seidel_solves_the_reference_system() {
    let (a, b) = reference_system();
    let (x, residuals, end) = seidel_solve(&a, &b, Real(1e-12), 10_000);
    assert!(end.converged());
    assert!(residual_norm(&a, &x, &b) < 1e-6);
    assert_eq!(end, Termination::Converged { iterations: residuals.len() });
}

#[test]
fn relaxation_with_unit_factor_solves_the_reference_system() {
    let (a, b) = reference_system();
    let (x, _, end) = upper_relaxation_solve(&a, &b, Real(1.0), Real(1e-12), 10_000);
    assert!(end.converged());
    assert!(residual_norm(&a, &x, &b) < 1e-6);
}

#[test]
fn gradient_descent_solves_the_reference_system() {
    let (a, b) = reference_system();
    let (x, residuals, end) = gradient_descent_solve(&a, &b, Real(0.01), Real(1e-9), 1_000_000);
    assert!(end.converged());
    assert!(residual_norm(&a, &x, &b) < 1e-6);
    assert!(residuals[residuals.len() - 1].0 < 1e-9);
}

#[test]
fn minimal_residuals_solve_the_reference_system() {
    let (a, b) = reference_system();
    let (x, residuals, end) = minimal_residuals_solve(&a, &b, Real(1e-9), 1_000_000);
    assert!(end.converged());
    assert!(residual_norm(&a, &x, &b) < 1e-6);
    assert!(residuals[residuals.len() - 1].0 < 1e-9);
}

#[test]
fn bicgstab_solves_the_reference_system() {
    let (a, b) = reference_system();
    let (x, _, end) = bicgstab_solve(&a, &b, Real(1e-9), Real(1e-50), 1_000);
    assert!(end.converged());
    assert!(residual_norm(&a, &x, &b) < 1e-6);
}

#[test]
fn gauss_and_lu_agree() {
    let (a, b) = reference_system();
    assert!(distance(&gauss_pivot_solve(&a, &b), &lu_solve(&a, &b)) < 1e-9);
    let (a, b) = positive_definite();
    assert!(distance(&gauss_pivot_solve(&a, &b), &lu_solve(&a, &b)) < 1e-9);
}

#[test]
fn residual_methods_reach_the_direct_solution_on_a_positive_definite_system() {
    let (a, b) = positive_definite();
    let direct = gauss_pivot_solve(&a, &b);
    let eps = 1e-8;
    let (x, _, end) = gradient_descent_solve(&a, &b, Real(0.05), Real(eps), 1_000_000);
    assert!(end.converged());
    assert!(distance(&x, &direct) < 1e-6);
    let (x, _, end) = minimal_residuals_solve(&a, &b, Real(eps), 1_000_000);
    assert!(end.converged());
    assert!(distance(&x, &direct) < 1e-6);
    let (x, _, end) = bicgstab_solve(&a, &b, Real(eps), Real(1e-50), 1_000);
    assert!(end.converged());
    assert!(distance(&x, &direct) < 1e-6);
}

#[test]
fn unit_relaxation_repeats_the_seidel_iterates() {
    let (a, b) = reference_system();
    for cap in 0..25 {
        let (xs, rs, ends) = seidel_solve(&a, &b, Real(1e-10), cap);
        let (xr, rr, endr) = upper_relaxation_solve(&a, &b, Real(1.0), Real(1e-10), cap);
        assert_eq!(xs, xr);
        assert_eq!(rs, rr);
        assert_eq!(ends, endr);
    }
}

#[test]
fn one_jacobi_iteration() {
    let (a, b) = small();
    let (x, residuals, end) = jacobi_solve(&a, &b, Real(1e-12), 1);
    assert_eq!(floats(&x), vec![1.0, 1.0]);
    assert_eq!(floats(&residuals), vec![2.0_f64.sqrt()]);
    assert_eq!(end, Termination::CapReached);
}

#[test]
fn two_jacobi_iterations() {
    let (a, b) = small();
    let (x, residuals, _) = jacobi_solve(&a, &b, Real(1e-12), 2);
    assert_eq!(floats(&x), vec![0.5, 0.75]);
    assert_eq!(residuals.len(), 2);
    assert_eq!(residuals[1].0, (0.25_f64 * 0.25 + 0.5 * 0.5).sqrt());
}

#[test]
fn one_seidel_iteration() {
    let (a, b) = small();
    let (x, residuals, end) = seidel_solve(&a, &b, Real(1e-12), 1);
    assert_eq!(floats(&x), vec![1.0, 0.75]);
    assert_eq!(floats(&residuals), vec![0.75]);
    assert_eq!(end, Termination::CapReached);
}

#[test]
fn one_over_relaxed_iteration() {
    let (a, b) = small();
    let (x, _, _) = upper_relaxation_solve(&a, &b, Real(1.5), Real(1e-12), 1);
    assert_eq!(floats(&x), vec![1.5, 0.9375]);
}

#[test]
fn one_gradient_step() {
    let (a, b) = small();
    let (x, residuals, end) = gradient_descent_solve(&a, &b, Real(0.5), Real(1e-12), 1);
    assert_eq!(floats(&x), vec![4.0, 9.0]);
    assert_eq!(floats(&residuals), vec![(15.0_f64 * 15.0 + 36.0 * 36.0).sqrt()]);
    assert_eq!(end, Termination::CapReached);
}

#[test]
fn one_minimal_residual_step() {
    let (a, b) = small();
    let (x, _, _) = minimal_residuals_solve(&a, &b, Real(1e-12), 1);
    let alpha = 20.0 / 88.0;
    assert_eq!(floats(&x), vec![alpha * 2.0, alpha * 4.0]);
}

#[test]
fn stopping_rule_ends_the_iteration_at_once() {
    let (a, b) = small();
    let (x, residuals, end) = jacobi_solve(&a, &b, Real(10.0), 50);
    assert_eq!(end, Termination::Converged { iterations: 1 });
    assert_eq!(floats(&x), vec![1.0, 1.0]);
    assert_eq!(residuals.len(), 1);
}

#[test]
fn no_iterations_return_the_zero_vector() {
    let (a, b) = small();
    let zero = vec![0.0, 0.0];
    let (x, r, end) = jacobi_solve(&a, &b, Real(1e-6), 0);
    assert_eq!((floats(&x), r.len(), end), (zero.clone(), 0, Termination::CapReached));
    let (x, r, end) = seidel_solve(&a, &b, Real(1e-6), 0);
    assert_eq!((floats(&x), r.len(), end), (zero.clone(), 0, Termination::CapReached));
    let (x, r, end) = upper_relaxation_solve(&a, &b, Real(1.2), Real(1e-6), 0);
    assert_eq!((floats(&x), r.len(), end), (zero.clone(), 0, Termination::CapReached));
    let (x, r, end) = gradient_descent_solve(&a, &b, Real(0.1), Real(1e-6), 0);
    assert_eq!((floats(&x), r.len(), end), (zero.clone(), 0, Termination::CapReached));
    let (x, r, end) = minimal_residuals_solve(&a, &b, Real(1e-6), 0);
    assert_eq!((floats(&x), r.len(), end), (zero.clone(), 0, Termination::CapReached));
    let (x, r, end) = bicgstab_solve(&a, &b, Real(1e-6), Real(1e-50), 0);
    assert_eq!((floats(&x), r.len(), end), (zero, 0, Termination::CapReached));
}

#[test]
fn cap_is_reported_when_the_rule_never_holds() {
    let (a, b) = reference_system();
    let (_, residuals, end) = jacobi_solve(&a, &b, Real(0.0), 7);
    assert_eq!(end, Termination::CapReached);
    assert_eq!(residuals.len(), 7);
    assert!(!end.converged());
}

#[test]
fn bicgstab_breaks_down_on_a_zero_right_hand_side() {
    let (a, _) = small();
    let b = reals(&[0.0, 0.0]);
    let (x, residuals, end) = bicgstab_solve(&a, &b, Real(1e-9), Real(1e-50), 10);
    assert_eq!(end, Termination::Breakdown { iterations: 0 });
    assert_eq!(floats(&x), vec![0.0, 0.0]);
    assert!(residuals.is_empty());
}

#[test]
fn bicgstab_stops_in_the_first_half_step_on_the_identity() {
    let a = matrix(&[&[1.0, 0.0], &[0.0, 1.0]]);
    let b = reals(&[3.0, -2.0]);
    let (x, residuals, end) = bicgstab_solve(&a, &b, Real(1e-9), Real(1e-50), 10);
    assert_eq!(end, Termination::Converged { iterations: 1 });
    assert_eq!(floats(&x), vec![3.0, -2.0]);
    assert_eq!(floats(&residuals), vec![0.0]);
}

#[test]
fn bicgstab_records_two_samples_for_a_complete_iteration() {
    let (a, b) = reference_system();
    let (_, residuals, end) = bicgstab_solve(&a, &b, Real(0.0), Real(1e-50), 1);
    assert_eq!(end, Termination::CapReached);
    assert_eq!(residuals.len(), 2);
    let (_, residuals, end) = bicgstab_solve(&a, &b, Real(1e-9), Real(1e-50), 1_000);
    let iterations = match end {
        Termination::Converged { iterations } => iterations,
        _ => panic!("no convergence"),
    };
    assert!(residuals.len() == 2 * iterations || residuals.len() == 2 * iterations - 1);
}

#[test]
fn gauss_exchanges_rows_for_a_zero_pivot() {
    let a = matrix(&[&[0.0, 1.0], &[1.0, 0.0]]);
    let b = reals(&[2.0, 3.0]);
    assert_eq!(floats(&gauss_pivot_solve(&a, &b)), vec![3.0, 2.0]);
}

#[test]
fn lu_does_not_guard_a_zero_pivot() {
    let a = matrix(&[&[0.0, 1.0], &[1.0, 0.0]]);
    let b = reals(&[2.0, 3.0]);
    let x = lu_solve(&a, &b);
    assert!(x.iter().any(|v| !v.0.is_finite()));
}

#[test]
fn lu_factors_of_a_small_matrix() {
    let a = matrix(&[&[4.0, 3.0], &[6.0, 3.0]]);
    let (l, u) = lu_decomposition(&a);
    assert_eq!(l, matrix(&[&[1.0, 0.0], &[1.5, 1.0]]));
    assert_eq!(u, matrix(&[&[4.0, 3.0], &[0.0, -1.5]]));
}

#[test]
fn triangular_solves() {
    let l = matrix(&[&[1.0, 0.0], &[1.5, 1.0]]);
    let u = matrix(&[&[4.0, 3.0], &[0.0, -1.5]]);
    let y = solve_lower_triangular(&l, &reals(&[10.0, 12.0]));
    assert_eq!(floats(&y), vec![10.0, -3.0]);
    let x = solve_upper_triangular(&u, &y);
    assert_eq!(floats(&x), vec![1.0, 2.0]);
}

#[test]
fn empty_system_has_an_empty_solution() {
    let a: Vec<Vec<Real>> = Vec::new();
    let b: Vec<Real> = Vec::new();
    assert!(gauss_pivot_solve(&a, &b).is_empty());
    assert!(lu_solve(&a, &b).is_empty());
}

#[test]
fn pivot_among_equal_magnitudes() {
    let a = matrix(&[&[1.0, 0.0, 0.0], &[-1.0, 1.0, 0.0], &[1.0, 0.0, 1.0]]);
    assert_eq!(find_last_largest(&a, 0), 2);
    assert_eq!(find_first_largest(&a, 0), 0);
    let a = matrix(&[&[1.0, 0.0, 0.0], &[-3.0, 1.0, 0.0], &[2.0, 0.0, 1.0]]);
    assert_eq!(find_last_largest(&a, 0), 1);
    assert_eq!(find_first_largest(&a, 0), 1);
    assert_eq!(find_last_largest(&a, 2), 2);
}

#[test]
fn elimination_clears_a_column() {
    let mut a = matrix(&[&[2.0, 1.0], &[4.0, 5.0]]);
    let mut b = reals(&[3.0, 9.0]);
    eliminate(&mut a, &mut b, 0);
    assert_eq!(a, matrix(&[&[2.0, 1.0], &[0.0, 3.0]]));
    assert_eq!(floats(&b), vec![3.0, 3.0]);
    exchange(&mut a, &mut b, 0, 1);
    assert_eq!(a, matrix(&[&[0.0, 3.0], &[2.0, 1.0]]));
    assert_eq!(floats(&b), vec![3.0, 3.0]);
}

#[test]
fn banded_matrix_and_counting_vector() {
    let m: Vec<Vec<Real>> = create_custom_matrix(5, Real(10.0));
    assert_eq!(
        m,
        matrix(&[
            &[10.0, 1.0, 1.0, 0.0, 0.0],
            &[1.0, 10.0, 1.0, 1.0, 0.0],
            &[1.0, 1.0, 10.0, 1.0, 1.0],
            &[0.0, 1.0, 1.0, 10.0, 1.0],
            &[0.0, 0.0, 1.0, 1.0, 10.0],
        ])
    );
    let f: Vec<Real> = create_vector_f(3);
    assert_eq!(floats(&f), vec![1.0, 2.0, 3.0]);
    let empty: Vec<Vec<Real>> = create_custom_matrix(0, Real(1.0));
    assert!(empty.is_empty());
}

#[test]
fn residual_norm_of_a_guess() {
    let (a, b) = small();
    let r = compute_residual_norm(&a, &reals(&[1.0, 1.0]), &b);
    assert_eq!(r.0, 2.0_f64.sqrt());
}

#[test]
fn direct_solvers_on_the_banded_system() {
    let n = 100;
    let a: Vec<Vec<Real>> = create_custom_matrix(n, Real(10.0));
    let f: Vec<Real> = create_vector_f(n);
    let x = gauss_pivot_solve(&a, &f);
    assert!(compute_residual_norm(&a, &x, &f).0 <= 1e-12);
    let x = lu_solve(&a, &f);
    assert!(compute_residual_norm(&a, &x, &f).0 <= 1e-12);
}

#[test]
fn iterative_solvers_on_the_banded_system() {
    let n = 100;
    let a: Vec<Vec<Real>> = create_custom_matrix(n, Real(10.0));
    let f: Vec<Real> = create_vector_f(n);
    let direct = gauss_pivot_solve(&a, &f);
    let tol = Real(1e-12);
    let (x, _, end) = jacobi_solve(&a, &f, tol, 100_000);
    assert!(end.converged() && distance(&x, &direct) < 1e-9);
    let (x, _, end) = seidel_solve(&a, &f, tol, 100_000);
    assert!(end.converged() && distance(&x, &direct) < 1e-9);
    let (x, _, end) = minimal_residuals_solve(&a, &f, tol, 100_000);
    assert!(end.converged() && distance(&x, &direct) < 1e-9);
    let (x, _, end) = bicgstab_solve(&a, &f, tol, Real(1e-50), 100_000);
    assert!(end.converged() && distance(&x, &direct) < 1e-9);
}

#[test]
fn dense_operations() {
    let a = reals(&[1.0, 2.0, 3.0]);
    let b = reals(&[4.0, 5.0, 6.0]);
    assert_eq!(dot(&a, &b).0, 32.0);
    assert_eq!(dot_range(&a, &b, 1, 3).0, 28.0);
    assert_eq!(dot_range(&a, &b, 2, 1).0, 0.0);
    assert_eq!(norm(&reals(&[3.0, 4.0])).0, 5.0);
    assert_eq!(floats(&plus_vec(&a, &b)), vec![5.0, 7.0, 9.0]);
    assert_eq!(floats(&minus_vec(&a, &b)), vec![-3.0, -3.0, -3.0]);
    assert_eq!(floats(&scale(Real(2.0), &a)), vec![2.0, 4.0, 6.0]);
    let m = matrix(&[&[1.0, 2.0], &[3.0, 4.0]]);
    let v = reals(&[1.0, 1.0]);
    assert_eq!(floats(&mat_vec(&m, &v)), vec![3.0, 7.0]);
    assert_eq!(floats(&transposed_mat_vec(&m, &v)), vec![4.0, 6.0]);
    assert_eq!(floats(&residual(&m, &v, &reals(&[3.0, 8.0]))), vec![0.0, 1.0]);
    assert_eq!(floats(&zeros::<Real>(2)), vec![0.0, 0.0]);
    assert_eq!(floats(&filled(Real(7.0), 2)), vec![7.0, 7.0]);
    assert_eq!(floats(&copy_of(&a)), vec![1.0, 2.0, 3.0]);
    assert_eq!(power(Real(3.0), 0).0, 1.0);
    assert_eq!(power(Real(3.0), 1).0, 3.0);
    assert_eq!(power(Real(3.0), 4).0, 81.0);
}

#[test]
fn square_shape_is_recognised() {
    assert!(has_square_shape(&matrix(&[&[1.0, 2.0], &[3.0, 4.0]])));
    assert!(has_square_shape(&Vec::<Vec<Real>>::new()));
    assert!(!has_square_shape(&matrix(&[&[1.0, 2.0], &[3.0]])));
    assert!(!has_square_shape(&matrix(&[&[1.0, 2.0, 3.0], &[4.0, 5.0, 6.0]])));
    assert!(!has_square_shape(&matrix(&[&[1.0, 2.0]])));
}

#[test]
fn unit_relaxation_leaves_seidel_where_an_iterate_is_infinite() {
    let a = matrix(&[&[0.0]]);
    let b = reals(&[1.0]);
    let (xs, _, _) = seidel_solve(&a, &b, Real(1e-10), 1);
    let (xr, _, _) = upper_relaxation_solve(&a, &b, Real(1.0), Real(1e-10), 1);
    assert_eq!(xs[0].0, f64::INFINITY);
    assert_eq!(xr[0].0, f64::INFINITY);
    let (xs, _, _) = seidel_solve(&a, &b, Real(1e-10), 2);
    let (xr, _, _) = upper_relaxation_solve(&a, &b, Real(1.0), Real(1e-10), 2);
    assert_eq!(xs[0].0, f64::INFINITY);
    assert!(xr[0].0.is_nan());
}
