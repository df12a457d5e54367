//! How an iteration ended.

use vstd::prelude::*;
use crate::scalar::Scalar;

verus! {

/// The way in which an iterative routine stopped.
#[derive(Clone, Copy, Debug, PartialEq, Eq, Structural)]
pub enum Termination {
    /// The stopping rule held at the end of iteration number `iterations`
    /// (counted from one); the iterate of that iteration is returned.
    Converged { iterations: usize },
    /// The cap on the number of iterations was reached without the stopping
    /// rule ever holding; the last iterate is returned.
    CapReached,
    /// A denominator of the recurrence collapsed after `iterations` complete
    /// iterations; the iterate reached so far is returned.
    Breakdown { iterations: usize },
}

impl Termination {
    /// Whether the stopping rule held.
    pub fn converged(&self) -> (r: bool)
        ensures
            r == (self is Converged),
    {
        match self {
            Termination::Converged { .. } => true,
            _ => false,
        }
    }
}

/// What every iterative solver of this crate, but BiCGSTAB, returns.
///
/// `iterate(k)` is the iterate after `k` iterations, `sample(k)` the
/// residual norm that iteration `k` records, and `metric(k)` the quantity
/// that is compared with the tolerance after iteration `k`. The call makes
/// as many iterations as it records samples; it stops after the first
/// iteration whose metric is below `tolerance`, and otherwise after `cap`
/// iterations. It returns the iterate of its last iteration.
pub open spec fn is_outcome<T: Scalar>(
    iterate: spec_fn(nat) -> Seq<T>,
    sample: spec_fn(nat) -> T,
    metric: spec_fn(nat) -> T,
    tolerance: T,
    cap: nat,
    out: (Seq<T>, Seq<T>, Termination),
) -> bool {
    let k = out.1.len();
    &&& k <= cap
    &&& out.0 == iterate(k)
    &&& out.1 =~= Seq::new(k, |j: int| sample((j + 1) as nat))
    &&& forall|j: nat| 1 <= j < k ==> !(#[trigger] metric(j)).less_spec(tolerance)
    &&& match out.2 {
        Termination::Converged { iterations } => {
            &&& iterations == k
            &&& k >= 1
            &&& metric(k).less_spec(tolerance)
        },
        Termination::CapReached => k == cap && (k >= 1 ==> !metric(k).less_spec(tolerance)),
        Termination::Breakdown { .. } => false,
    }
}

/// The stopping rule holds after some iteration from the first to the
/// `cap`-th.
pub open spec fn stops_within<T: Scalar>(metric: spec_fn(nat) -> T, tolerance: T, cap: nat) -> bool {
    exists|j: nat| 1 <= j <= cap && (#[trigger] metric(j)).less_spec(tolerance)
}

/// An outcome reports convergence exactly when the stopping rule holds
/// within the cap. It then returns the iterate of the first iteration after
/// which the rule holds, and otherwise the iterate of the last iteration;
/// either way it has recorded one sample for each iteration made.
pub proof fn lemma_outcome_stops_first<T: Scalar>(
    iterate: spec_fn(nat) -> Seq<T>,
    sample: spec_fn(nat) -> T,
    metric: spec_fn(nat) -> T,
    tolerance: T,
    cap: nat,
    out: (Seq<T>, Seq<T>, Termination),
)
    requires
        is_outcome(iterate, sample, metric, tolerance, cap, out),
    ensures
        out.2 is Converged <==> stops_within(metric, tolerance, cap),
        out.2 is CapReached <==> !stops_within(metric, tolerance, cap),
        out.2 matches Termination::Converged { iterations } ==> {
            &&& 1 <= iterations <= cap
            &&& out.1.len() == iterations
            &&& out.0 == iterate(iterations as nat)
            &&& metric(iterations as nat).less_spec(tolerance)
            &&& forall|j: nat| 1 <= j < iterations ==> !(#[trigger] metric(j)).less_spec(tolerance)
        },
        out.2 is CapReached ==> out.1.len() == cap && out.0 == iterate(cap),
{
    if out.2 is Converged {
        assert(metric(out.1.len()).less_spec(tolerance));
    }
}

/// The inputs of a solver determine its outcome: two outcomes of the same
/// iteration, tolerance and cap are equal.
pub proof fn lemma_outcome_unique<T: Scalar>(
    iterate: spec_fn(nat) -> Seq<T>,
    sample: spec_fn(nat) -> T,
    metric: spec_fn(nat) -> T,
    tolerance: T,
    cap: nat,
    first: (Seq<T>, Seq<T>, Termination),
    second: (Seq<T>, Seq<T>, Termination),
)
    requires
        is_outcome(iterate, sample, metric, tolerance, cap, first),
        is_outcome(iterate, sample, metric, tolerance, cap, second),
    ensures
        first == second,
{
    if first.1.len() < second.1.len() {
        assert(first.2 is Converged);
    } else if second.1.len() < first.1.len() {
        assert(second.2 is Converged);
    }
}

} // verus!
