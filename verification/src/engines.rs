//! The entry points of the operations.
//!
//! Every operation has two entry points. The checked one validates the
//! shapes of its arguments before it touches any buffer and reports a
//! mismatch as a typed error, with the output untouched. The unchecked one
//! takes the shapes for granted and does the work: it is the path for callers
//! that have established them once and call many times.

use crate::random::{EncryptionRandomGenerator, RecordedGenerator};
use crate::torus::UnsignedTorus;
use vstd::prelude::*;

verus! {

/// What went wrong, by kind.
#[derive(Clone, Copy, Debug, PartialEq, Eq, Structural)]
pub enum ErrorKind {
    /// The dimension or the polynomial size of a key does not fit the other
    /// arguments.
    ShapeMismatch,
    /// A list operation was handed lists of different lengths.
    CountMismatch,
    /// The engine itself failed.
    UnderlyingEngineFailure,
}

/// An engine: the owner of what the operations need beside their arguments.
pub trait AbstractEngine {
    /// The failures of the engine itself, which the errors of the
    /// operations carry through unchanged.
    type EngineError;
}

/// The failures of the default engine.
#[derive(Clone, Copy, Debug, PartialEq, Eq, Structural)]
pub enum DefaultError {
    /// A ciphertext that an operation had to make would have had more
    /// elements than a buffer can hold.
    AllocationTooLarge,
}

/// The engine that runs the operations of this library on a randomness
/// source that it owns, and that keeps the record of what it drew from it.
pub struct DefaultEngine<Scalar, Gen> {
    pub encryption_generator: RecordedGenerator<Scalar, Gen>,
}

impl<Scalar, Gen> DefaultEngine<Scalar, Gen> where
    Scalar: UnsignedTorus,
    Gen: EncryptionRandomGenerator<Scalar>,
 {
    /// An engine that draws from `encryption_generator`, with no draw made
    /// yet.
    pub fn new(encryption_generator: Gen) -> (engine: Self)
        ensures
            engine.encryption_generator.source() == encryption_generator,
            engine.encryption_generator.drawn_uniform() == Seq::<Scalar>::empty(),
            engine.encryption_generator.drawn_noise() == Seq::<Scalar>::empty(),
    {
        DefaultEngine { encryption_generator: RecordedGenerator::new(encryption_generator) }
    }
}

impl<Scalar, Gen> AbstractEngine for DefaultEngine<Scalar, Gen> {
    type EngineError = DefaultError;
}

} // verus!
