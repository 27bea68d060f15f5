//! The library's error type.
use vstd::prelude::*;

verus! {

/// What can go wrong in a debugging session.
#[derive(Debug)]
pub enum DbugError {
    /// An input or output operation failed.
    Io(String),
    /// A payload could not be encoded or decoded.
    JsonParse(String),
    CompilationError(String),
    RuntimeError(String),
    InstrumentationError(String),
    /// The transport between the two processes failed.
    CommunicationError(String),
    /// No response arrived before the deadline.
    ResponseTimeout,
    SourceParseError(String),
    DebugPointError(String),
    VariableInspectionError(String),
    /// A command from the controller was malformed.
    CliError(String),
    NotARustProject,
    Unknown(String),
}

/// The result type of the library.
pub type DbugResult<T> = Result<T, DbugError>;

} // verus!
