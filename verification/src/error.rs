//! Errors returned by the harness.
//!
//! Every engine failure is surfaced to the caller; nothing is retried
//! or swallowed.  Execution failures keep the engine's status code and
//! log text verbatim so tests can assert on rejection reasons.

use vstd::prelude::*;

verus! {

/// Errors of the harness, one variant per failure class.
#[derive(Debug)]
pub enum RunnerError {
    /// A funding request was malformed or the mint was rejected.
    FundingError,
    /// A fee setting holds an empty denomination or a zero gas limit.
    InvalidFeeSetting,
    /// A simulation was rejected; the log says why.
    SimulationError { log: String },
    /// The engine rejected or reverted a transaction.
    ExecutionError { code: u32, log: String },
    /// Bytes did not match the expected layout.
    DecodeError,
    /// No handler for the query path, or its request was malformed.
    QueryError,
    /// A named item does not exist.
    NotFound,
}

} // verus!
