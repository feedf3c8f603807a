//! The error taxonomy of the identity and key lifecycle subsystem.
//!
//! Authentication and decryption failures are reported generically: no
//! variant distinguishes an unknown username from a wrong password, and a
//! tampered ciphertext is reported only as a tag mismatch.

use vstd::prelude::*;

verus! {

/// Every recoverable failure of the subsystem.
#[derive(Clone, Copy, Debug, PartialEq, Eq, Structural)]
pub enum CryptoError {
    /// Registration found the username already taken.
    DuplicateUser,
    /// Authentication failed; deliberately silent about why.
    InvalidCredentials,
    /// A token that the issuer has never seen.
    UnknownToken,
    /// A token that was revoked earlier.
    RevokedToken,
    /// An identity id that no registered identity carries.
    UnknownIdentity,
    /// Key derivation parameters outside the accepted bounds.
    InvalidKdfParams,
    /// A requested key length that is not a positive multiple of eight bits.
    InvalidKeyLength,
    /// Text that is not a valid encoding of any byte string.
    InvalidEncoding,
    /// A ciphertext naming a generation id that was never allocated.
    UnknownKeyGeneration,
    /// A ciphertext naming a generation that refuses all operations.
    RevokedKeyGeneration,
    /// The recomputed authentication tag differs from the stored one.
    AuthenticationTagMismatch,
    /// An initial key generation already exists.
    AlreadyInitialized,
    /// No key generation exists yet.
    NotInitialized,
    /// The active generation cannot be revoked; rotate first.
    CannotRevokeActive,
}

impl CryptoError {
    /// A short stable description, for callers that render errors.
    pub fn message(&self) -> (r: &'static str)
        ensures
            r@.len() > 0,
    {
        proof {
            reveal_strlit("duplicate user");
            reveal_strlit("invalid credentials");
            reveal_strlit("unknown token");
            reveal_strlit("revoked token");
            reveal_strlit("unknown identity");
            reveal_strlit("invalid key derivation parameters");
            reveal_strlit("invalid key length");
            reveal_strlit("invalid encoding");
            reveal_strlit("unknown key generation");
            reveal_strlit("revoked key generation");
            reveal_strlit("authentication tag mismatch");
            reveal_strlit("already initialized");
            reveal_strlit("not initialized");
            reveal_strlit("cannot revoke the active generation");
        }
        match self {
            CryptoError::DuplicateUser => "duplicate user",
            CryptoError::InvalidCredentials => "invalid credentials",
            CryptoError::UnknownToken => "unknown token",
            CryptoError::RevokedToken => "revoked token",
            CryptoError::UnknownIdentity => "unknown identity",
            CryptoError::InvalidKdfParams => "invalid key derivation parameters",
            CryptoError::InvalidKeyLength => "invalid key length",
            CryptoError::InvalidEncoding => "invalid encoding",
            CryptoError::UnknownKeyGeneration => "unknown key generation",
            CryptoError::RevokedKeyGeneration => "revoked key generation",
            CryptoError::AuthenticationTagMismatch => "authentication tag mismatch",
            CryptoError::AlreadyInitialized => "already initialized",
            CryptoError::NotInitialized => "not initialized",
            CryptoError::CannotRevokeActive => "cannot revoke the active generation",
        }
    }
}

} // verus!
