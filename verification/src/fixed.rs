//! A decimal fixed-point number with six fractional digits and saturating
//! arithmetic: an exact, reproducible implementation of [`Scalar`].
//!
//! Products and quotients are rounded toward zero. Whatever leaves the range
//! of the representation is replaced by the nearest end of the range, and a
//! quotient by zero by the end of the range on the side of the dividend.
//! The square of anything below a thousandth is zero, so a norm cannot tell
//! such a vector from the zero vector.

use vstd::prelude::*;
use crate::scalar::Scalar;
use crate::scalar::{one, zero};
use crate::elimination::{magnitudes_ordered, magnitudes_strictly_ordered};
use crate::stationary::{
    has_units, lemma_unit_relaxation_is_seidel, lemma_units_leave_every_value, relaxed_iterate,
    seidel_iterate,
};

verus! {

/// The number of units of the representation that make one.
pub const SCALE: i64 = 1_000_000;

/// A number held as a count of millionths.
#[derive(Clone, Copy, Debug, PartialEq, Eq, Structural)]
pub struct Fixed {
    pub micro: i64,
}

/// `v`, or the end of the range of `i64` that is nearest to it.
pub open spec fn saturate(v: int) -> i64 {
    if v > i64::MAX {
        i64::MAX
    } else if v < i64::MIN {
        i64::MIN
    } else {
        v as i64
    }
}

/// The magnitude of `v`.
pub open spec fn magnitude_of(v: int) -> int {
    if v >= 0 {
        v
    } else {
        -v
    }
}

/// The quotient of `p` by `q != 0`, rounded toward zero.
pub open spec fn quotient_toward_zero(p: int, q: int) -> int {
    if (p >= 0) == (q > 0) {
        magnitude_of(p) / magnitude_of(q)
    } else {
        -(magnitude_of(p) / magnitude_of(q))
    }
}

/// `r` is the integer part of the square root of `n`.
pub open spec fn is_floor_sqrt(n: int, r: int) -> bool {
    0 <= r && r * r <= n < (r + 1) * (r + 1)
}

/// The integer part of the square root of `n >= 0`.
pub open spec fn floor_sqrt(n: int) -> int {
    choose|r: int| is_floor_sqrt(n, r)
}

/// A number has at most one integer square root.
pub proof fn lemma_floor_sqrt_unique(n: int, r: int, s: int)
    requires
        is_floor_sqrt(n, r),
        is_floor_sqrt(n, s),
    ensures
        r == s,
{
    if r < s {
        assert((r + 1) * (r + 1) <= s * s) by (nonlinear_arith)
            requires
                0 <= r,
                r + 1 <= s,
        ;
    } else if s < r {
        assert((s + 1) * (s + 1) <= r * r) by (nonlinear_arith)
            requires
                0 <= s,
                s + 1 <= r,
        ;
    }
}

/// The magnitude of `a`.
fn magnitude(a: i64) -> (m: u128)
    ensures
        m == magnitude_of(a as int),
        m <= 0x8000_0000_0000_0000,
{
    if a >= 0 {
        a as u128
    } else {
        (-(a as i128)) as u128
    }
}

/// The number with the given sign and magnitude, saturated.
fn saturated(negative: bool, m: u128) -> (r: i64)
    ensures
        r == saturate(
            if negative {
                -(m as int)
            } else {
                m as int
            },
        ),
{
    if negative {
        if m >= 0x8000_0000_0000_0000 {
            i64::MIN
        } else {
            -(m as i64)
        }
    } else {
        if m > 0x7fff_ffff_ffff_ffff {
            i64::MAX
        } else {
            m as i64
        }
    }
}

/// The integer part of the square root of `n`.
fn integer_sqrt(n: u128) -> (r: u64)
    requires
        n < 0x1_0000_0000_0000_0000_0000_0000,
    ensures
        is_floor_sqrt(n as int, r as int),
        r < 0x1_0000_0000_0000,
{
    let mut lo: u128 = 0;
    let mut hi: u128 = 0x1_0000_0000_0000;
    while hi - lo > 1
        invariant
            lo < hi <= 0x1_0000_0000_0000,
            lo * lo <= n < hi * hi,
        decreases hi - lo,
    {
        let mid = lo + (hi - lo) / 2;
        assert(mid * mid < 0x1_0000_0000_0000_0000_0000_0000) by (nonlinear_arith)
            requires
                mid < 0x1_0000_0000_0000,
        ;
        if mid * mid <= n {
            lo = mid;
        } else {
            hi = mid;
        }
    }
    lo as u64
}

impl Scalar for Fixed {
    open spec fn from_int_spec(n: i64) -> Self {
        Fixed { micro: saturate(n * SCALE) }
    }

    open spec fn plus_spec(self, rhs: Self) -> Self {
        Fixed { micro: saturate(self.micro + rhs.micro) }
    }

    open spec fn minus_spec(self, rhs: Self) -> Self {
        Fixed { micro: saturate(self.micro - rhs.micro) }
    }

    open spec fn times_spec(self, rhs: Self) -> Self {
        Fixed { micro: saturate(quotient_toward_zero(self.micro * rhs.micro, SCALE as int)) }
    }

    open spec fn over_spec(self, rhs: Self) -> Self {
        if rhs.micro == 0 {
            Fixed {
                micro: if self.micro > 0 {
                    i64::MAX
                } else if self.micro < 0 {
                    i64::MIN
                } else {
                    0
                },
            }
        } else {
            Fixed { micro: saturate(quotient_toward_zero(self.micro * SCALE, rhs.micro as int)) }
        }
    }

    open spec fn neg_spec(self) -> Self {
        Fixed { micro: saturate(-self.micro) }
    }

    open spec fn abs_spec(self) -> Self {
        Fixed { micro: saturate(magnitude_of(self.micro as int)) }
    }

    open spec fn sqrt_spec(self) -> Self {
        if self.micro <= 0 {
            Fixed { micro: 0 }
        } else {
            Fixed { micro: floor_sqrt(self.micro * SCALE) as i64 }
        }
    }

    open spec fn less_spec(self, rhs: Self) -> bool {
        self.micro < rhs.micro
    }

    open spec fn less_eq_spec(self, rhs: Self) -> bool {
        self.micro <= rhs.micro
    }

    fn from_int(n: i64) -> (r: Self) {
        let a = magnitude(n);
        assert(a * 1_000_000 <= 0x8000_0000_0000_0000 * 1_000_000) by (nonlinear_arith)
            requires
                a <= 0x8000_0000_0000_0000,
        ;
        let m = a * 1_000_000;
        Fixed { micro: saturated(n < 0, m) }
    }

    fn plus(self, rhs: Self) -> (r: Self) {
        let sum = self.micro as i128 + rhs.micro as i128;
        Fixed {
            micro: if sum > i64::MAX as i128 {
                i64::MAX
            } else if sum < i64::MIN as i128 {
                i64::MIN
            } else {
                sum as i64
            },
        }
    }

    fn minus(self, rhs: Self) -> (r: Self) {
        let difference = self.micro as i128 - rhs.micro as i128;
        Fixed {
            micro: if difference > i64::MAX as i128 {
                i64::MAX
            } else if difference < i64::MIN as i128 {
                i64::MIN
            } else {
                difference as i64
            },
        }
    }

    fn times(self, rhs: Self) -> (r: Self) {
        let a = magnitude(self.micro);
        let b = magnitude(rhs.micro);
        assert(a * b <= 0x8000_0000_0000_0000 * 0x8000_0000_0000_0000) by (nonlinear_arith)
            requires
                a <= 0x8000_0000_0000_0000,
                b <= 0x8000_0000_0000_0000,
        ;
        assert(a * b == magnitude_of(self.micro * rhs.micro)) by (nonlinear_arith)
            requires
                a == magnitude_of(self.micro as int),
                b == magnitude_of(rhs.micro as int),
        ;
        let negative = (self.micro < 0) != (rhs.micro < 0);
        assert((self.micro * rhs.micro >= 0) == !negative || a * b == 0) by (nonlinear_arith)
            requires
                negative == ((self.micro < 0) != (rhs.micro < 0)),
                a == magnitude_of(self.micro as int),
                b == magnitude_of(rhs.micro as int),
        ;
        let m = a * b / 1_000_000;
        Fixed { micro: saturated(negative, m) }
    }

    fn over(self, rhs: Self) -> (r: Self) {
        if rhs.micro == 0 {
            return Fixed {
                micro: if self.micro > 0 {
                    i64::MAX
                } else if self.micro < 0 {
                    i64::MIN
                } else {
                    0
                },
            };
        }
        let a = magnitude(self.micro);
        let b = magnitude(rhs.micro);
        assert(a * 1_000_000 <= 0x8000_0000_0000_0000 * 1_000_000) by (nonlinear_arith)
            requires
                a <= 0x8000_0000_0000_0000,
        ;
        let negative = (self.micro < 0) != (rhs.micro < 0);
        let m = a * 1_000_000 / b;
        Fixed { micro: saturated(negative, m) }
    }

    fn neg(self) -> (r: Self) {
        Fixed { micro: saturated(self.micro >= 0, magnitude(self.micro)) }
    }

    fn abs(self) -> (r: Self) {
        Fixed { micro: saturated(false, magnitude(self.micro)) }
    }

    fn sqrt(self) -> (r: Self) {
        if self.micro <= 0 {
            return Fixed { micro: 0 };
        }
        let n = (self.micro as u128) * 1_000_000;
        let root = integer_sqrt(n);
        proof {
            let chosen = floor_sqrt(self.micro * SCALE);
            lemma_floor_sqrt_unique(self.micro * SCALE, root as int, chosen);
        }
        Fixed { micro: root as i64 }
    }

    fn less(self, rhs: Self) -> (r: bool) {
        self.micro < rhs.micro
    }

    fn less_eq(self, rhs: Self) -> (r: bool) {
        self.micro <= rhs.micro
    }
}

/// In fixed-point arithmetic zero and one act as units: `1 - 1 = 0`,
/// `0 v = 0`, `1 v = v` and `0 + v = v` for every `v`.
pub proof fn lemma_fixed_has_units()
    ensures
        has_units::<Fixed>(),
{
    assert(zero::<Fixed>().micro == 0);
    assert forall|v: Fixed| #[trigger] zero::<Fixed>().times_spec(v) == zero::<Fixed>() by {
        assert(0 * v.micro == 0);
    }
    assert forall|v: Fixed| #[trigger] one::<Fixed>().times_spec(v) == v by {
        let p = 1_000_000 * v.micro;
        if v.micro >= 0 {
            assert(p / 1_000_000 == v.micro);
        } else {
            assert((-p) / 1_000_000 == -v.micro);
        }
    }
}

/// In fixed-point arithmetic, successive over-relaxation with a relaxation
/// factor of one produces the iterates of the Gauss-Seidel method, one for
/// one, whatever the system.
pub proof fn lemma_fixed_unit_relaxation_is_seidel(m: Seq<Seq<Fixed>>, b: Seq<Fixed>, k: nat)
    ensures
        relaxed_iterate(m, b, one::<Fixed>(), k) == seidel_iterate(m, b, k),
{
    lemma_fixed_has_units();
    lemma_units_leave_every_value(m, b, k);
    lemma_unit_relaxation_is_seidel(m, b, k);
}

/// In fixed-point arithmetic the magnitudes of any column are ordered.
pub proof fn lemma_fixed_magnitudes_ordered(a: Seq<Seq<Fixed>>, col: int, lo: int, hi: int)
    ensures
        magnitudes_ordered(a, col, lo, hi),
{
}

/// In fixed-point arithmetic the magnitudes of any column are strictly
/// ordered.
pub proof fn lemma_fixed_magnitudes_strictly_ordered(
    a: Seq<Seq<Fixed>>,
    col: int,
    lo: int,
    hi: int,
)
    ensures
        magnitudes_strictly_ordered(a, col, lo, hi),
{
}

} // verus!
