//! Deterministic N-body gravitational simulation core.
//!
//! The library holds everything about the simulation that can be stated and
//! proved without reasoning about IEEE-754 arithmetic: the published
//! five-body initial conditions as exact binary64 bit patterns; the
//! pairwise interaction schedule of the symplectic integrator with its
//! single-visit law; the kernel of the three operations — momentum
//! normalization, one integration step, the total energy — verified over
//! caller-supplied arithmetic, with contracts that pin which body each
//! value is read from and written to, in what order, and what never
//! changes; and a timing helper for callers that benchmark a run. The
//! floating-point arithmetic itself, which Verus does not model, is
//! supplied by the caller as plain functions over bit patterns.

pub mod kernel;
pub mod schedule;
pub mod system;
pub mod timing;

