//! The Van der Pol oscillator `x'' - e (1 - x^2) x' + x = 0`, written as the
//! pair `x' = z`, `z' = e (1 - x^2) z - x`.

use vstd::prelude::*;
use crate::scalar::Scalar;
use crate::scalar::one;
use crate::function::Mapping;

verus! {

/// The right-hand side of the oscillator with damping `e`.
pub struct VanDerPol<T> {
    pub e: T,
}

impl<T: Scalar> Mapping<(T, T, T), (T, T)> for VanDerPol<T> {
    /// The rates `(z, e (1 - x^2) z - x)` in state `(x, z)`; the time does
    /// not enter.
    open spec fn image(&self, a: (T, T, T)) -> (T, T) {
        (
            a.1,
            self.e.times_spec(one::<T>().minus_spec(a.0.times_spec(a.0))).times_spec(a.1).minus_spec(
                a.0,
            ),
        )
    }

    fn apply(&self, a: (T, T, T)) -> (b: (T, T)) {
        let (x, z, _t) = a;
        (z, self.e.times(T::from_int(1).minus(x.times(x))).times(z).minus(x))
    }
}

} // verus!
