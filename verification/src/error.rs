//! Error taxonomy of the bridging layer.

use vstd::prelude::*;

verus! {

/// The four classes of failure the bridging layer distinguishes.
///
/// - `Validation`: the input was rejected before any remote interaction
///   (oversized payload, out-of-range period, unknown variable name). The
///   caller can always recover by adjusting the input.
/// - `Protocol`: the device rejected a well-formed request (for example a
///   full log block) or answered with a malformed message. The local
///   resource stays in its prior state unless stated otherwise.
/// - `ResourceUnavailable`: a single-acquisition resource was already handed
///   out. Not retryable within the same connection.
/// - `ConnectionLost`: the underlying link dropped; pending operations
///   resolve with this instead of hanging.
#[derive(Clone, Copy, Debug, PartialEq, Eq, Structural)]
pub enum Error {
    Validation,
    Protocol,
    ResourceUnavailable,
    ConnectionLost,
}

impl Error {
    /// A short human-readable description of the error class.
    pub fn describe(&self) -> (r: &'static str)
        ensures
            self is Validation ==> r@ == "invalid input"@,
            self is Protocol ==> r@ == "protocol error"@,
            self is ResourceUnavailable ==> r@ == "resource unavailable"@,
            self is ConnectionLost ==> r@ == "connection lost"@,
    {
        match self {
            Error::Validation => "invalid input",
            Error::Protocol => "protocol error",
            Error::ResourceUnavailable => "resource unavailable",
            Error::ConnectionLost => "connection lost",
        }
    }
}

} // verus!
