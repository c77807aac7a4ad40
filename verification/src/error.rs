//! The ways in which an operation of the session manager fails.

use vstd::prelude::*;

verus! {

/// Why an operation was refused. Every failure is returned to the caller;
/// nothing is retried.
#[derive(Clone, Copy, Debug, PartialEq, Eq, Structural)]
pub enum CryptoError {
    /// No identity has been created in this process yet.
    NotInitialized,
    /// An identity exists already; it is replaced only after an explicit reset.
    AlreadyInitialized,
    /// The conversation identifier is empty.
    InvalidConversationId,
    /// The conversation has no sending session that can still encrypt.
    NoSession,
    /// No receiving session was admitted under the conversation and session
    /// identifier that the envelope names.
    UnknownSession,
    /// A receiving session is already admitted under that identifier.
    DuplicateSession,
    /// The key material was rejected, or belongs to another session.
    InvalidKeyMaterial,
    /// The ciphertext failed authentication; no plaintext is returned.
    DecryptionFailed,
    /// The message index was already surfaced for that session.
    ReplayedMessage,
    /// A field of the envelope could not be decoded.
    MalformedEnvelope,
}

} // verus!
