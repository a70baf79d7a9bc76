//! The column model: every named slot a constraint expression can reference.

use vstd::prelude::*;

verus! {

/// The fixed register width of the protocol: the number of witness columns
/// (and of coefficient columns) on every row of the execution trace.
pub const COLUMNS: usize = 15;

/// The kind of a gate. Each kind has its own selector polynomial, and the
/// gate families of the joint constraint expression are keyed by it.
#[derive(Clone, Copy, PartialEq, Eq, Structural, Debug)]
pub enum GateType {
    /// The no-op gate; also the canonical key under which the shared
    /// exponent range of all gate families is registered.
    Zero,
    /// The base-arithmetic gate.
    Generic,
    /// The hash-permutation gate.
    Poseidon,
    /// Elliptic-curve point addition.
    CompleteAdd,
    /// Variable-base scalar multiplication.
    VarBaseMul,
    /// Endomorphism-accelerated scalar multiplication.
    EndoMul,
    /// Scalar decomposition for the endomorphism trick.
    EndoMulScalar,
    /// The lookup gate.
    Lookup,
    ChaCha0,
    ChaCha1,
    ChaCha2,
    ChaChaFinal,
    RangeCheck0,
    RangeCheck1,
    ForeignFieldAdd,
    ForeignFieldMul,
    Xor16,
}

/// A named slot that a constraint expression can reference. Identity is by
/// variant and index; columns serve both as expression leaves and as the
/// elements of the evaluated-column set of the linearization.
#[derive(Clone, Copy, PartialEq, Eq, Structural, Debug)]
pub enum Column {
    /// A witness register, with `0 <= index < COLUMNS`.
    Witness(usize),
    /// A fixed coefficient slot, with `0 <= index < COLUMNS`.
    Coefficient(usize),
    /// The permutation-argument accumulator polynomial.
    Z,
    /// A sorted lookup polynomial.
    LookupSorted(usize),
    /// The lookup aggregation polynomial.
    LookupAggreg,
    /// The lookup table polynomial.
    LookupTable,
    /// The runtime lookup table polynomial.
    LookupRuntimeTable,
    /// The selector polynomial of a gate kind.
    Index(GateType),
}

} // verus!
