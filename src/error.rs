use vstd::prelude::*;

verus! {

/// Why an operation of the client failed.
#[derive(Debug, Clone, Copy, PartialEq, Eq, Structural)]
pub enum ClientError {
    /// The method is not on the allow-list; nothing was sent.
    UnsupportedMethod,
    /// An endpoint address was malformed, a connection failed, or a response
    /// body could not be read; the whole batch fails.
    TransportFailure,
    /// A hex argument of a transaction was not valid hex.
    MalformedInput,
    /// Binary encoding of a well-formed record failed.
    EncodingInvariantViolation,
    /// The private key is not a valid signing key.
    InvalidPrivateKey,
    /// No chain id was given and none has been resolved yet.
    ChainIdUnresolved,
}

} // verus!
