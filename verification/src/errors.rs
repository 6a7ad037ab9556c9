use vstd::prelude::*;

verus! {

/// Machine-readable error body returned to HTTP clients.
#[derive(Debug)]
pub struct ErrorJson {
    pub error: String,
}

/// Raised by the request guards when no valid session accompanies a request.
#[derive(Debug)]
pub struct UnauthorizedError;

/// Faults of the session credential lifecycle.
#[derive(Debug, Clone, Copy, PartialEq, Eq, Structural)]
pub enum SessionError {
    /// The presented credential has a bad signature, a malformed structure,
    /// or has expired; all three collapse to one kind on purpose.
    Invalid,
    /// Signing a fresh credential failed.
    SigningFailed,
}

/// Fault of the score interpretation engine: a stored range key does not
/// parse, which is an internal-consistency error, never the caller's.
#[derive(Debug, Clone, Copy, PartialEq, Eq, Structural)]
pub enum EvalError {
    ConfigCorrupt,
}

} // verus!
