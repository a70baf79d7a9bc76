//! A constraint-linearization compiler for a PLONK-style proof system.
//!
//! A proving protocol expresses correctness as one joint polynomial identity,
//! built by combining the constraints of many independent gate families,
//! each weighted by its own powers of a verifier-chosen random challenge.
//! This crate holds the pieces that both the prover and the verifier must
//! agree on, bit for bit:
//!
//! - [`alphas`]: the registry that hands every constraint family a
//!   non-overlapping range of challenge-power exponents,
//! - [`expr`]: the symbolic expression algebra over columns, constants and
//!   challenge powers, with feature-gated conditional subexpressions,
//! - [`polish`]: the compiler from an expression tree to a flat postfix
//!   program evaluated with an explicit stack,
//! - [`linearization`]: the composition of all families into the joint
//!   expression, the choice of the columns that are opened separately, and
//!   the partition of the joint expression into per-column coefficient
//!   programs plus a residual,
//! - [`witness`]: a small layout-driven initializer for witness grids.

pub mod alphas;
pub mod columns;
pub mod expr;
pub mod flags;
pub mod linearization;
pub mod polish;
pub mod witness;
