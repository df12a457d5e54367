//! Caller-supplied functions: the map whose fixed point is sought, the
//! equation whose root is sought, the right-hand side of a differential
//! equation.

use vstd::prelude::*;

verus! {

/// A function from `A` to `B`.
///
/// The argument determines the value: `apply` returns what `image` gives
/// for the same argument. A function of several scalars takes them as a
/// tuple. The spec function carries a default body so that an
/// implementation made outside verification only has to supply `apply`.
pub trait Mapping<A, B> {
    /// The value of the function at `a`.
    open spec fn image(&self, a: A) -> B {
        arbitrary()
    }

    /// Evaluates the function at `a`.
    fn apply(&self, a: A) -> (b: B)
        ensures
            b == self.image(a),
    ;
}

} // verus!
