use vstd::prelude::*;

verus! {

/// Errors of the library. An execution error (a check that could not be run at all) is
/// reported as `Io`, with the operating system's message.
#[derive(Debug, Clone, PartialEq)]
pub enum AppError {
    InvalidHeader { expected: String, found: String },
    Unknown,
    Error(String),
    Io(String),
}

} // verus!
