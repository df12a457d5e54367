//! Classical numerical methods over an abstract scalar: direct and iterative
//! solvers for dense linear systems, root finders, interpolation, quadrature,
//! one-step and multistep integrators for a pair of first-order equations,
//! and a periodic tridiagonal boundary-value solver.
//!
//! Every routine is generic over [`scalar::Scalar`] and performs a fixed
//! sequence of its operations; the contract of the routine names the result
//! of that sequence by a spec function. What is proved is therefore the
//! structure of each method (which formula is applied to which values, in
//! which order, and when an iteration stops), for every arithmetic. How
//! close the result is to the solution of the mathematical problem depends
//! on the arithmetic and is not part of any contract.
//!
//! Where a method has a law that holds in every arithmetic, or wherever the
//! values met on the way satisfy an identity, the law is a proof function
//! beside the method.
//!
//! [`fixed::Fixed`] is an exact arithmetic that is verified here. Floating
//! point is supplied by the caller as an implementation of the trait.

pub mod scalar;
pub mod fixed;
pub mod function;
pub mod dense;
pub mod convergence;

pub mod elimination;
pub mod direct;
pub mod agreement;
pub mod stationary;
pub mod krylov;
pub mod pentadiagonal;
pub mod report;

pub mod roots;
pub mod root_systems;

pub mod interpolation;
pub mod spline;
pub mod least_squares;
pub mod quadrature;

pub mod runge_kutta;
pub mod multistep;
pub mod adams;
pub mod bdf;
pub mod fdb;
pub mod van_der_pol;

pub mod periodic;
