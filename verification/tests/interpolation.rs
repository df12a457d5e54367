use numlab::function::Mapping;
use numlab::interpolation::{divided_differences, newton_polynomial};
use numlab::roots::newton_with_errors;
use numlab::least_squares::{gaussian_elimination, LeastSquaresPolynomial};
use numlab::scalar::Scalar;
use numlab::spline::CubicSpline;

#[derive(Clone, Copy, Debug, PartialEq)]
struct Real(f64);

impl Scalar for Real {
    fn from_int(n: i64) -> Self {
        Real(n as f64)
    }
    fn plus(self, rhs: Self) -> Self {
        Real(self.0 + rhs.0)
    }
    fn minus(self, rhs: Self) -> Self {
        Real(self.0 - rhs.0)
    }
    fn times(self, rhs: Self) -> Self {
        Real(self.0 * rhs.0)
    }
    fn over(self, rhs: Self) -> Self {
        Real(self.0 / rhs.0)
    }
    fn neg(self) -> Self {
        Real(-self.0)
    }
    fn abs(self) -> Self {
        Real(self.0.abs())
    }
    fn sqrt(self) -> Self {
        Real(self.0.sqrt())
    }
    fn less(self, rhs: Self) -> bool {
        self.0 < rhs.0
    }
    fn less_eq(self, rhs: Self) -> bool {
        self.0 <= rhs.0
    }
}

fn reals(v: &[f64]) -> Vec<Real> {
    v.iter().map(|&x| Real(x)).collect()
}

fn floats(v: &[Real]) -> Vec<f64> {
    v.iter().map(|x| x.0).collect()
}

fn matrix(rows: &[&[f64]]) -> Vec<Vec<Real>> {
    rows.iter().map(|r| reals(r)).collect()
}

fn years() -> Vec<Real> {
    reals(&[1910.0, 1920.0, 1930.0, 1940.0, 1950.0, 1960.0, 1970.0, 1980.0, 1990.0, 2000.0])
}

fn populations() -> Vec<Real> {
    reals(&[
        92_228_496.0,
        106_021_537.0,
        123_202_624.0,
        132_164_569.0,
        151_325_798.0,
        179_323_175.0,
        203_211_926.0,
        226_545_805.0,
        248_709_873.0,
        281_421_906.0,
    ])
}

const CENSUS_2010: f64 = 308_745_538.0;

#[test]
fn divided_differences_of_a_parabola() {
    let x = reals(&[1.0, 2.0, 4.0]);
    let y = reals(&[1.0, 4.0, 16.0]);
    let table = divided_differences(&x, &y);
    assert_eq!(table, matrix(&[&[1.0, 3.0, 1.0], &[4.0, 6.0, 0.0], &[16.0, 0.0, 0.0]]));
    assert_eq!(newton_polynomial(&x, Real(3.0), &table).0, 9.0);
    assert_eq!(newton_polynomial(&x, Real(1.0), &table).0, 1.0);
    assert_eq!(newton_polynomial(&x, Real(0.0), &table).0, 0.0);
}

#[test]
fn divided_differences_of_one_point_and_of_none() {
    let table = divided_differences(&reals(&[5.0]), &reals(&[7.0]));
    assert_eq!(table, matrix(&[&[7.0]]));
    assert_eq!(newton_polynomial(&reals(&[5.0]), Real(100.0), &table).0, 7.0);
    let empty = divided_differences(&reals(&[]), &reals(&[]));
    assert!(empty.is_empty());
}

#[test]
fn newton_polynomial_passes_through_the_census_points() {
    let x = years();
    let y = populations();
    let window = 4;
    let xs = x[6..6 + window].to_vec();
    let ys = y[6..6 + window].to_vec();
    let table = divided_differences(&xs, &ys);
    for k in 0..window {
        let v = newton_polynomial(&xs, xs[k], &table).0;
        assert!((v - ys[k].0).abs() / ys[k].0 < 1e-12);
    }
    let estimate = newton_polynomial(&xs, Real(2010.0), &table).0;
    assert!((estimate - CENSUS_2010).abs() * 100.0 / CENSUS_2010 < 10.0);
}

#[test]
fn spline_through_a_line_is_the_line() {
    let x = reals(&[0.0, 1.0, 2.0, 3.0]);
    let y = reals(&[1.0, 3.0, 5.0, 7.0]);
    let s = CubicSpline::new(&x, &y);
    assert_eq!(s.evaluate(Real(1.5)).0, 4.0);
    assert_eq!(s.evaluate(Real(0.0)).0, 1.0);
    assert_eq!(s.evaluate(Real(3.0)).0, 7.0);
    assert_eq!(s.evaluate(Real(5.0)).0, 11.0);
    assert_eq!(s.evaluate(Real(-1.0)).0, 5.0 + 2.0 * (-1.0 - 2.0));
}

#[test]
fn spline_interpolates_its_knots() {
    let x = reals(&[0.0, 1.0, 2.5, 4.0, 4.5]);
    let y = reals(&[1.0, -2.0, 0.5, 3.0, 2.0]);
    let s = CubicSpline::new(&x, &y);
    for k in 0..x.len() {
        assert!((s.evaluate(x[k]).0 - y[k].0).abs() < 1e-12);
    }
    let step = 1e-6;
    for k in 1..x.len() - 1 {
        let left = s.evaluate(Real(x[k].0 - step)).0;
        let right = s.evaluate(Real(x[k].0 + step)).0;
        assert!((left - right).abs() < 1e-4);
    }
}

#[test]
fn spline_of_three_points() {
    let x = reals(&[0.0, 1.0, 2.0]);
    let y = reals(&[0.0, 1.0, 0.0]);
    let s = CubicSpline::new(&x, &y);
    assert_eq!(s.evaluate(Real(0.5)).0, 0.6875);
    assert_eq!(s.evaluate(Real(1.5)).0, 0.6875);
}

#[test]
fn spline_of_two_points_is_the_chord() {
    let s = CubicSpline::new(&reals(&[1.0, 3.0]), &reals(&[2.0, 6.0]));
    assert_eq!(s.evaluate(Real(2.0)).0, 4.0);
    assert_eq!(s.evaluate(Real(4.0)).0, 8.0);
}

#[test]
fn spline_extrapolates_the_census() {
    let s = CubicSpline::new(&years(), &populations());
    let estimate = s.evaluate(Real(2010.0)).0;
    assert!((estimate - CENSUS_2010).abs() * 100.0 / CENSUS_2010 < 5.0);
    assert!((s.evaluate(Real(1950.0)).0 - 151_325_798.0).abs() < 1e-3);
}

#[test]
fn least_squares_recovers_a_parabola() {
    let x = reals(&[-2.0, -1.0, 0.0, 1.0, 2.0, 3.0]);
    let y: Vec<Real> = x.iter().map(|t| Real(1.0 + 2.0 * t.0 + 3.0 * t.0 * t.0)).collect();
    let p = LeastSquaresPolynomial::new(&x, &y, 2);
    assert!((p.evaluate(Real(0.0)).0 - 1.0).abs() < 1e-10);
    assert!((p.evaluate(Real(2.0)).0 - 17.0).abs() < 1e-10);
    assert!((p.evaluate(Real(-3.0)).0 - 22.0).abs() < 1e-9);
}

#[test]
fn least_squares_of_degree_zero_is_the_mean() {
    let x = reals(&[1.0, 2.0, 3.0, 4.0]);
    let y = reals(&[2.0, 4.0, 6.0, 12.0]);
    let p = LeastSquaresPolynomial::new(&x, &y, 0);
    assert_eq!(p.evaluate(Real(10.0)).0, 6.0);
}

#[test]
fn least_squares_line_through_scattered_points() {
    let x = reals(&[0.0, 1.0, 2.0]);
    let y = reals(&[0.0, 1.0, 1.0]);
    let p = LeastSquaresPolynomial::new(&x, &y, 1);
    assert!((p.evaluate(Real(0.0)).0 - 1.0 / 6.0).abs() < 1e-12);
    assert!((p.evaluate(Real(2.0)).0 - 7.0 / 6.0).abs() < 1e-12);
}

#[test]
fn least_squares_uses_the_paired_points_only() {
    let x = reals(&[0.0, 1.0, 2.0]);
    let y = reals(&[3.0, 3.0, 3.0, 100.0]);
    let p = LeastSquaresPolynomial::new(&x, &y, 0);
    assert_eq!(p.evaluate(Real(0.0)).0, 3.0);
}

#[test]
fn least_squares_extrapolates_the_census() {
    let p = LeastSquaresPolynomial::new(&years(), &populations(), 2);
    let estimate = p.evaluate(Real(2010.0)).0;
    assert!((estimate - CENSUS_2010).abs() * 100.0 / CENSUS_2010 < 5.0);
}

#[test]
fn elimination_with_the_first_largest_pivot() {
    let a = matrix(&[&[0.0, 2.0], &[4.0, 0.0]]);
    let x = gaussian_elimination(a, reals(&[6.0, 8.0]));
    assert_eq!(floats(&x), vec![2.0, 3.0]);
    let a = matrix(&[&[2.0, 1.0, 1.0], &[1.0, 3.0, 2.0], &[1.0, 0.0, 0.0]]);
    let x = gaussian_elimination(a, reals(&[4.0, 5.0, 6.0]));
    assert!((x[0].0 - 6.0).abs() < 1e-12);
    assert!((x[1].0 - 15.0).abs() < 1e-12);
    assert!((x[2].0 + 23.0).abs() < 1e-12);
    assert!(gaussian_elimination(Vec::<Vec<Real>>::new(), Vec::new()).is_empty());
}

#[test]
fn fitted_polynomial_is_a_function_with_roots() {
    let x = reals(&[-1.0, 0.0, 1.0, 2.0, 3.0]);
    let y: Vec<Real> = x.iter().map(|t| Real(t.0 * t.0 - 2.0)).collect();
    let p = LeastSquaresPolynomial::new(&x, &y, 2);
    assert!((p.apply(Real(3.0)).0 - 7.0).abs() < 1e-9);
    assert_eq!(p.apply(Real(1.5)), p.evaluate(Real(1.5)));
    let (root, _) = newton_with_errors(p, Real(1.0), Real(1e-9), 100, Real(1e-6)).unwrap();
    assert!((root.0 - 2.0_f64.sqrt()).abs() < 1e-8);
}
