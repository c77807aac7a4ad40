//! Session state for end-to-end encrypted messaging: one device identity,
//! per-conversation sending sessions, admitted receiving sessions, and the
//! envelope that carries a ciphertext between devices.

pub mod bytes;
pub mod conversations;
pub mod envelope;
pub mod error;
pub mod handle;
pub mod hex_text;
pub mod identity;
pub mod inbound;
pub mod keyed;
pub mod laws;
pub mod manager;
pub mod model;
pub mod outbound;
pub mod receiving;
pub mod wire;

pub use crate::envelope::{DecryptionResult, EncryptedMessage, MEGOLM_ALGORITHM};
pub use crate::error::CryptoError;
pub use crate::handle::{
    admit_inbound_session, create_outbound_session, decrypt_message, encrypt_message,
    get_device_keys, init_encryption, reset_encryption,
};
pub use crate::identity::DeviceKeys;
pub use crate::manager::{EncryptionManager, SessionExport};
