use vstd::prelude::*;

verus! {

/// The kinds of failure a call handler can run into.
#[derive(Clone, Copy, Debug, PartialEq, Eq, Structural)]
pub enum ErrorKind {
    /// Malformed or missing parameters, or undecodable hex.
    ValidationError,
    /// The signing identity exists but was not unlocked.
    AccountLocked,
    /// No account is known under the given alias.
    AccountNotFound,
    /// No such block, transaction or filter.
    NotFound,
    /// The validator did not reply in time.
    Timeout,
    /// The connection to the validator was lost.
    TransportError,
    /// A cryptographic operation failed.
    SigningError,
}

} // verus!
