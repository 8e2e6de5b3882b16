//! The ways in which one job can fail.

use vstd::prelude::*;

verus! {

/// Why a job did not produce a payload.
#[derive(Clone, Copy, Debug, PartialEq, Eq, Structural)]
pub enum FailureKind {
    /// No connection became free within the time the worker was willing to wait.
    PoolExhausted,
    /// The store could not be reached when a connection had to be opened.
    BackendUnavailable,
    /// The query engine raised a fault while executing the document.
    ExecutionFailed,
    /// The job was submitted during or after shutdown.
    PoolShuttingDown,
    /// The engine's result could not be encoded for transport.
    SerializationFailed,
}

/// What one job ends in: the serialized payload, or the kind of its failure.
pub type JobResult = Result<String, FailureKind>;

} // verus!
