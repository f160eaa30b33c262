use vstd::prelude::*;

verus! {

/// Failure classes surfaced by the client.
///
/// Every operation either succeeds or reports exactly one of these;
/// human-readable context strings are attached by the caller that owns
/// the console, not here.
#[derive(Clone, Copy, Debug, PartialEq, Eq, Structural)]
pub enum ApiError {
    /// Network or HTTP-layer failure, including non-2xx responses.
    Transport,
    /// The service reported that the addressed object does not exist.
    NotFound,
    /// A response body did not match the expected shape.
    Deserialization,
    /// Malformed user input, e.g. an unparsable properties document.
    Validation,
    /// No stored credential was available.
    Auth,
}

} // verus!
