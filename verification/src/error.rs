//! Errors of the vault layer.

use vstd::prelude::*;

verus! {

/// What can go wrong while opening or writing a vault.
///
/// Guarded no-ops of the interactive session (an empty list, a selection out
/// of range) are not errors and never reach this type.
#[derive(Clone, Copy, PartialEq, Eq, Structural, Debug)]
pub enum VaultError {
    /// The file is shorter than a salt and a nonce: not a vault at all.
    MalformedHeader,
    /// The key-derivation function refused its input.
    KeyDerivation,
    /// The operating system's randomness source failed.
    RandomSource,
    /// The serialized store is too large to seal in one chunk.
    PayloadTooLarge,
    /// The ciphertext did not authenticate: wrong password, corruption or
    /// tampering.  No partial plaintext is ever released.
    AuthenticationFailed,
    /// The ciphertext authenticated but the plaintext inside is not a
    /// serialized store.
    InvalidPayload,
}

impl VaultError {
    /// A short diagnostic for the user.
    pub fn message(&self) -> String {
        match self {
            VaultError::MalformedHeader => "the file is too short to be a vault".to_owned(),
            VaultError::KeyDerivation => "key derivation failed".to_owned(),
            VaultError::RandomSource => "the system randomness source failed".to_owned(),
            VaultError::PayloadTooLarge => "the store is too large to encrypt".to_owned(),
            VaultError::AuthenticationFailed => "wrong password or corrupted vault".to_owned(),
            VaultError::InvalidPayload => "the decrypted data is not a vault store".to_owned(),
        }
    }
}

} // verus!
