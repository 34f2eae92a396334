//! Errors raised before any work is handed to the proof backend.

use vstd::prelude::*;

verus! {

/// A value of a relation instance.
#[derive(Clone, Copy, Debug, PartialEq, Eq, Structural)]
pub enum FieldName {
    HCt,
    HKData,
    PkPeerOwn,
    KData,
    CtR,
    Data,
    CtData,
}

#[derive(Clone, Copy, Debug, PartialEq, Eq, Structural)]
pub enum RelationError {
    /// A required public or private value is absent.
    MissingField(FieldName),
    /// Vector lengths disagree with the batch size, or a key was made for
    /// another relation shape.
    ShapeMismatch,
    /// The constraint at this index is violated by the witness.
    WitnessInconsistent(usize),
    /// The proof backend failed; its failure is passed on unchanged.
    BackendFailure,
}

} // verus!
