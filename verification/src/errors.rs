use vstd::prelude::*;

verus! {

/// A validation or processing failure raised while ingesting an upload
/// request. The first three variants report client input errors; the last
/// reports a storage or cryptographic failure on the server's side.
#[derive(Debug, PartialEq, Eq, Structural)]
pub enum UploadError {
    /// A part carried no declared name, or an empty one.
    InvalidName,
    /// A part's body held no bytes at all.
    EmptyFile,
    /// A part's accumulated body exceeded the configured cap. `size` is a
    /// lower bound on the observed byte count; `limit` is the cap.
    SizeLimitExceeded { size: usize, limit: usize },
    /// A storage or cryptographic operation failed.
    IOFailure,
}

/// A failure raised while retrieving a stored object by identifier.
#[derive(Debug, PartialEq, Eq, Structural)]
pub enum RetrieveError {
    /// No object is stored under the requested identifier.
    NotFound,
    /// The stored ciphertext failed authentication on decryption: it was
    /// tampered with or corrupted, or the key material does not match.
    AuthenticationFailure,
}

} // verus!
