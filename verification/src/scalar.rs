//! The arithmetic that every routine of this crate is written against.
//!
//! Nothing here fixes how a number is stored. A routine that takes a
//! `T: Scalar` performs a fixed sequence of the operations below, and its
//! contract names the result of that sequence exactly. Rounding, saturation
//! and the treatment of division by zero belong to the implementation of the
//! trait, not to the routines.

use vstd::prelude::*;

verus! {

/// A number with total arithmetic, a magnitude, a square root and an order.
///
/// Every operation is a function of its operands: the executable method
/// returns the value that the spec function of the same name (with `_spec`
/// appended) gives for the same operands. No algebraic law is assumed; in
/// particular `plus` need not be associative and `less` need not be total,
/// so that rounding arithmetic fits the trait as well as exact arithmetic.
///
/// The spec functions carry a default body so that an implementation made
/// outside verification only has to supply the executable methods.
pub trait Scalar: Copy {
    /// The number that stands for the integer `n`.
    open spec fn from_int_spec(n: i64) -> Self {
        arbitrary()
    }

    /// `self + rhs`.
    open spec fn plus_spec(self, rhs: Self) -> Self {
        arbitrary()
    }

    /// `self - rhs`.
    open spec fn minus_spec(self, rhs: Self) -> Self {
        arbitrary()
    }

    /// `self * rhs`.
    open spec fn times_spec(self, rhs: Self) -> Self {
        arbitrary()
    }

    /// `self / rhs`; total, whatever the implementation returns for a zero divisor.
    open spec fn over_spec(self, rhs: Self) -> Self {
        arbitrary()
    }

    /// `-self`.
    open spec fn neg_spec(self) -> Self {
        arbitrary()
    }

    /// `|self|`.
    open spec fn abs_spec(self) -> Self {
        arbitrary()
    }

    /// The square root of `self`.
    open spec fn sqrt_spec(self) -> Self {
        arbitrary()
    }

    /// `self < rhs`.
    open spec fn less_spec(self, rhs: Self) -> bool {
        arbitrary()
    }

    /// `self <= rhs`.
    open spec fn less_eq_spec(self, rhs: Self) -> bool {
        arbitrary()
    }

    fn from_int(n: i64) -> (r: Self)
        ensures
            r == Self::from_int_spec(n),
    ;

    fn plus(self, rhs: Self) -> (r: Self)
        ensures
            r == self.plus_spec(rhs),
    ;

    fn minus(self, rhs: Self) -> (r: Self)
        ensures
            r == self.minus_spec(rhs),
    ;

    fn times(self, rhs: Self) -> (r: Self)
        ensures
            r == self.times_spec(rhs),
    ;

    fn over(self, rhs: Self) -> (r: Self)
        ensures
            r == self.over_spec(rhs),
    ;

    fn neg(self) -> (r: Self)
        ensures
            r == self.neg_spec(),
    ;

    fn abs(self) -> (r: Self)
        ensures
            r == self.abs_spec(),
    ;

    fn sqrt(self) -> (r: Self)
        ensures
            r == self.sqrt_spec(),
    ;

    fn less(self, rhs: Self) -> (r: bool)
        ensures
            r == self.less_spec(rhs),
    ;

    fn less_eq(self, rhs: Self) -> (r: bool)
        ensures
            r == self.less_eq_spec(rhs),
    ;
}

/// The scalar zero.
pub open spec fn zero<T: Scalar>() -> T {
    T::from_int_spec(0)
}

/// The scalar one.
pub open spec fn one<T: Scalar>() -> T {
    T::from_int_spec(1)
}

/// `x` raised to `n` by repeated multiplication from the left:
/// one for `n == 0`, `x` for `n == 1`, and `power(x, n - 1) * x` above that.
pub open spec fn power_spec<T: Scalar>(x: T, n: nat) -> T
    decreases n,
{
    if n == 0 {
        one::<T>()
    } else if n == 1 {
        x
    } else {
        power_spec(x, (n - 1) as nat).times_spec(x)
    }
}

/// Raises `x` to the power `n`.
pub fn power<T: Scalar>(x: T, n: usize) -> (r: T)
    ensures
        r == power_spec(x, n as nat),
{
    if n == 0 {
        return T::from_int(1);
    }
    let mut acc = x;
    let mut k: usize = 1;
    while k < n
        invariant
            1 <= k <= n,
            acc == power_spec(x, k as nat),
        decreases n - k,
    {
        acc = acc.times(x);
        k += 1;
    }
    acc
}

} // verus!
