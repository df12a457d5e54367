use numlab::convergence::Termination;
use numlab::direct::{gauss_pivot_solve, lu_solve};
use numlab::fixed::{Fixed, SCALE};
use numlab::quadrature::{simpson_method, trapezoidal_method_h};
use numlab::scalar::{power, Scalar};
use numlab::stationary::{jacobi_solve, seidel_solve, upper_relaxation_solve};

fn fx(micro: i64) -> Fixed {
    Fixed { micro }
}

fn whole(values: &[i64]) -> Vec<Fixed> {
    values.iter().map(|&v| Fixed::from_int(v)).collect()
}

fn micros(values: &[Fixed]) -> Vec<i64> {
    values.iter().map(|v| v.micro).collect()
}

#[test]
fn scale_is_a_million() {
    assert_eq!(SCALE, 1_000_000);
    assert_eq!(Fixed::from_int(3), fx(3_000_000));
    assert_eq!(Fixed::from_int(-3), fx(-3_000_000));
    assert_eq!(Fixed::from_int(0), fx(0));
}

#[test]
fn sums_and_differences() {
    assert_eq!(fx(1_500_000).plus(fx(2_250_000)), fx(3_750_000));
    assert_eq!(fx(1_500_000).minus(fx(2_250_000)), fx(-750_000));
    assert_eq!(fx(1_500_000).neg(), fx(-1_500_000));
    assert_eq!(fx(-1_500_000).abs(), fx(1_500_000));
    assert_eq!(fx(1_500_000).abs(), fx(1_500_000));
}

#[test]
fn products_round_toward_zero() {
    assert_eq!(fx(1_500_000).times(fx(2_500_000)), fx(3_750_000));
    assert_eq!(fx(-1_500_000).times(fx(2_500_000)), fx(-3_750_000));
    assert_eq!(fx(-1_500_000).times(fx(-2_500_000)), fx(3_750_000));
    assert_eq!(fx(1).times(fx(500_000)), fx(0));
    assert_eq!(fx(-1).times(fx(500_000)), fx(0));
    assert_eq!(fx(3).times(fx(500_000)), fx(1));
    assert_eq!(fx(-3).times(fx(500_000)), fx(-1));
    assert_eq!(fx(0).times(fx(-7_000_000)), fx(0));
}

#[test]
fn quotients_round_toward_zero() {
    assert_eq!(fx(1_000_000).over(fx(3_000_000)), fx(333_333));
    assert_eq!(fx(-1_000_000).over(fx(3_000_000)), fx(-333_333));
    assert_eq!(fx(2_000_000).over(fx(-3_000_000)), fx(-666_666));
    assert_eq!(fx(-7_500_000).over(fx(-2_500_000)), fx(3_000_000));
    assert_eq!(fx(0).over(fx(5)), fx(0));
}

#[test]
fn quotient_by_zero_is_an_end_of_the_range() {
    assert_eq!(fx(1).over(fx(0)), fx(i64::MAX));
    assert_eq!(fx(-1).over(fx(0)), fx(i64::MIN));
    assert_eq!(fx(0).over(fx(0)), fx(0));
}

#[test]
fn results_out_of_range_saturate() {
    assert_eq!(Fixed::from_int(i64::MAX), fx(i64::MAX));
    assert_eq!(Fixed::from_int(i64::MIN), fx(i64::MIN));
    assert_eq!(fx(i64::MAX).plus(fx(1)), fx(i64::MAX));
    assert_eq!(fx(i64::MIN).minus(fx(1)), fx(i64::MIN));
    assert_eq!(fx(i64::MIN).neg(), fx(i64::MAX));
    assert_eq!(fx(i64::MIN).abs(), fx(i64::MAX));
    assert_eq!(fx(i64::MAX).times(fx(2_000_000)), fx(i64::MAX));
    assert_eq!(fx(i64::MAX).times(fx(-2_000_000)), fx(i64::MIN));
    assert_eq!(fx(i64::MIN).times(fx(i64::MIN)), fx(i64::MAX));
    assert_eq!(fx(i64::MAX).over(fx(1)), fx(i64::MAX));
    assert_eq!(fx(i64::MIN).over(fx(-1)), fx(i64::MAX));
}

#[test]
fn square_roots_round_down() {
    assert_eq!(fx(4_000_000).sqrt(), fx(2_000_000));
    assert_eq!(fx(2_000_000).sqrt(), fx(1_414_213));
    assert_eq!(fx(1).sqrt(), fx(1_000));
    assert_eq!(fx(0).sqrt(), fx(0));
    assert_eq!(fx(-4_000_000).sqrt(), fx(0));
    assert_eq!(fx(i64::MAX).sqrt(), fx(3_037_000_499_976));
}

#[test]
fn order_is_that_of_the_counts() {
    assert!(fx(1).less(fx(2)));
    assert!(!fx(2).less(fx(2)));
    assert!(fx(2).less_eq(fx(2)));
    assert!(!fx(3).less_eq(fx(2)));
    assert!(fx(-3).less(fx(2)));
}

#[test]
fn powers_by_repeated_multiplication() {
    assert_eq!(power(fx(1_500_000), 0), fx(1_000_000));
    assert_eq!(power(fx(1_500_000), 1), fx(1_500_000));
    assert_eq!(power(fx(1_500_000), 3), fx(3_375_000));
    assert_eq!(power(fx(-2_000_000), 3), fx(-8_000_000));
}

#[test]
fn direct_solvers_in_fixed_point() {
    let a = vec![whole(&[2, 1]), whole(&[1, 3])];
    let b = whole(&[3, 5]);
    assert_eq!(micros(&gauss_pivot_solve(&a, &b)), vec![800_000, 1_400_000]);
    assert_eq!(micros(&lu_solve(&a, &b)), vec![800_000, 1_400_000]);
}

#[test]
fn jacobi_in_fixed_point() {
    let a = vec![whole(&[2, 1]), whole(&[1, 4])];
    let b = whole(&[2, 4]);
    let (x, residuals, end) = jacobi_solve(&a, &b, fx(0), 2);
    assert_eq!(micros(&x), vec![500_000, 750_000]);
    assert_eq!(micros(&residuals), vec![1_414_213, 559_016]);
    assert_eq!(end, Termination::CapReached);
    let (x, _, end) = jacobi_solve(&a, &b, fx(2), 1_000);
    assert!(end.converged());
    assert!((x[0].micro - 571_428).abs() <= 2_000);
    assert!((x[1].micro - 857_142).abs() <= 2_000);
}

#[test]
fn unit_relaxation_repeats_seidel_in_fixed_point() {
    let a = vec![whole(&[4, 1, 1]), whole(&[2, 7, 1]), whole(&[1, -3, 12])];
    let b = whole(&[5, 4, 10]);
    for cap in 0..30 {
        let s = seidel_solve(&a, &b, fx(2), cap);
        let r = upper_relaxation_solve(&a, &b, Fixed::from_int(1), fx(2), cap);
        assert_eq!(s, r);
    }
    let a = vec![whole(&[0, 1]), whole(&[1, 0])];
    let b = whole(&[1, 1]);
    for cap in 0..5 {
        let s = seidel_solve(&a, &b, fx(2), cap);
        let r = upper_relaxation_solve(&a, &b, Fixed::from_int(1), fx(2), cap);
        assert_eq!(s, r);
    }
}

#[test]
fn quadrature_in_fixed_point() {
    let x = whole(&[0, 1, 2]);
    let y = whole(&[0, 1, 4]);
    assert_eq!(trapezoidal_method_h(&x, &y), fx(3_000_000));
    assert_eq!(simpson_method(&x, &y), fx(2_666_666));
}
