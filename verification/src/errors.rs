//! Error taxonomy of the security core.
//!
//! Every fallible operation of the core returns one of these variants.
//! Messages are deliberately generic: they never carry key material,
//! plaintext, or internal state.

use vstd::prelude::*;

verus! {

/// The failure kinds that the core's command surface can report.
#[derive(Clone, Copy, Debug, PartialEq, Eq, Structural)]
pub enum CoreError {
    /// Email or password did not match a stored user.
    InvalidCredentials,
    /// Too many failed attempts for this identity inside the window.
    BruteForceBlocked,
    /// The session's inactivity timeout has elapsed.
    SessionExpired,
    /// The caller does not own the target, or no session is active.
    Unauthorized,
    /// The referenced parent object does not exist.
    NotFound,
    /// A cryptographic operation failed for a reason other than tag mismatch.
    CryptoError,
    /// An envelope failed authentication: tag mismatch, truncation, or an
    /// unknown algorithm identifier.
    AuthenticationFailure,
    /// The key-derivation input was malformed (wrong salt length).
    KeyDerivationError,
    /// The vault is under exclusive access (key rotation in progress).
    VaultBusy,
    /// Export is disabled by configuration.
    PolicyDenied,
    /// A configuration input was invalid (for example an empty charset).
    InvalidConfig,
    /// The requested export format is not offered.
    UnsupportedFormat,
    /// Registration was asked for an email that is already taken.
    EmailTaken,
    /// Registration was asked for a password below the strength policy.
    WeakPassword,
    /// The durable medium behind the store or the event log is unavailable.
    StorageUnavailable,
}

impl CoreError {
    /// The non-revealing message shown to callers for this failure kind.
    pub open spec fn spec_message(self) -> Seq<char> {
        match self {
            CoreError::InvalidCredentials => "Invalid credentials"@,
            CoreError::BruteForceBlocked => "Too many failed attempts. Please try again later."@,
            CoreError::SessionExpired => "Session expired"@,
            CoreError::Unauthorized => "Unauthorized"@,
            CoreError::NotFound => "Not found"@,
            CoreError::CryptoError => "Cryptographic operation failed"@,
            CoreError::AuthenticationFailure => "Envelope failed authentication"@,
            CoreError::KeyDerivationError => "Key derivation failed"@,
            CoreError::VaultBusy => "Vault is busy"@,
            CoreError::PolicyDenied => "Export denied by policy"@,
            CoreError::InvalidConfig => "Invalid configuration"@,
            CoreError::UnsupportedFormat => "Unsupported format"@,
            CoreError::EmailTaken => "Registration failed"@,
            CoreError::WeakPassword => "Password does not meet the strength policy"@,
            CoreError::StorageUnavailable => "Storage unavailable"@,
        }
    }

    /// A generic description of the failure, safe to surface to a caller.
    pub fn message(&self) -> (r: String)
        ensures
            r@ == self.spec_message(),
    {
        match self {
            CoreError::InvalidCredentials => String::from_str("Invalid credentials"),
            CoreError::BruteForceBlocked => String::from_str(
                "Too many failed attempts. Please try again later.",
            ),
            CoreError::SessionExpired => String::from_str("Session expired"),
            CoreError::Unauthorized => String::from_str("Unauthorized"),
            CoreError::NotFound => String::from_str("Not found"),
            CoreError::CryptoError => String::from_str("Cryptographic operation failed"),
            CoreError::AuthenticationFailure => String::from_str("Envelope failed authentication"),
            CoreError::KeyDerivationError => String::from_str("Key derivation failed"),
            CoreError::VaultBusy => String::from_str("Vault is busy"),
            CoreError::PolicyDenied => String::from_str("Export denied by policy"),
            CoreError::InvalidConfig => String::from_str("Invalid configuration"),
            CoreError::UnsupportedFormat => String::from_str("Unsupported format"),
            CoreError::EmailTaken => String::from_str("Registration failed"),
            CoreError::WeakPassword => String::from_str(
                "Password does not meet the strength policy",
            ),
            CoreError::StorageUnavailable => String::from_str("Storage unavailable"),
        }
    }
}

} // verus!
