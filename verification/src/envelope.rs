//! The envelope in which a ciphertext travels, and what decryption hands back.

use crate::hex_text::{
    encode_hex, hex_decoding, hex_encoding, hex_to_bytes, is_hex_text, lemma_hex_round_trip,
};
use crate::identity::is_key_text;
use crate::wire::megolm_message_index;
use vstd::prelude::*;

verus! {

/// The algorithm tag of every envelope that this library makes or reads.
pub const MEGOLM_ALGORITHM: &'static str = "m.megolm.v1.aes-sha2";

/// A ciphertext with what a receiver needs to find the session for it. The
/// three binary fields are hexadecimal text.
#[derive(Debug)]
pub struct EncryptedMessage {
    pub algorithm: String,
    pub ciphertext: String,
    pub sender_key: String,
    pub session_id: String,
}

/// What an `EncryptedMessage` holds, as text.
pub struct EncryptedMessageView {
    pub algorithm: Seq<char>,
    pub ciphertext: Seq<char>,
    pub sender_key: Seq<char>,
    pub session_id: Seq<char>,
}

impl View for EncryptedMessage {
    type V = EncryptedMessageView;

    open spec fn view(&self) -> EncryptedMessageView {
        EncryptedMessageView {
            algorithm: self.algorithm@,
            ciphertext: self.ciphertext@,
            sender_key: self.sender_key@,
            session_id: self.session_id@,
        }
    }
}

impl Clone for EncryptedMessage {
    fn clone(&self) -> (copy: Self)
        ensures
            copy@ == self@,
    {
        EncryptedMessage {
            algorithm: self.algorithm.clone(),
            ciphertext: self.ciphertext.clone(),
            sender_key: self.sender_key.clone(),
            session_id: self.session_id.clone(),
        }
    }
}

/// The bytes that `text` stands for, `None` where it is not hexadecimal text.
pub open spec fn hex_bytes(text: Seq<char>) -> Option<Seq<u8>> {
    if is_hex_text(text) {
        Some(hex_decoding(text))
    } else {
        None
    }
}

impl EncryptedMessageView {
    /// The identifier of the session that the envelope names, `None` where the
    /// field is not hexadecimal text.
    pub open spec fn session(self) -> Option<Seq<u8>> {
        hex_bytes(self.session_id)
    }

    /// The Megolm message that the envelope carries, `None` where the field is
    /// not hexadecimal text.
    pub open spec fn message(self) -> Option<Seq<u8>> {
        hex_bytes(self.ciphertext)
    }

    /// The index of the message that the envelope carries, `None` where it
    /// carries no Megolm message.
    pub open spec fn message_index(self) -> Option<u32> {
        match self.message() {
            Some(message) => megolm_message_index(message),
            None => None,
        }
    }

    /// Whether the envelope names this library's algorithm and a sender key
    /// of the right form: sixty-four hexadecimal digits, of either case.
    pub open spec fn addressed(self) -> bool {
        &&& self.algorithm == MEGOLM_ALGORITHM@
        &&& is_key_text(self.sender_key)
    }

    /// What decoding the message gives: its bytes and its index, `None`
    /// where the envelope carries no Megolm message.
    pub open spec fn decoded(self) -> Option<(Seq<u8>, u32)> {
        match self.message() {
            Some(message) => match megolm_message_index(message) {
                Some(index) => Some((message, index)),
                None => None,
            },
            None => None,
        }
    }
}

/// The envelope for `message`, sent by the device with key `sender_key` under
/// the session `session_id`.
pub open spec fn sealed(message: Seq<u8>, sender_key: Seq<char>, session_id: Seq<u8>) -> EncryptedMessageView {
    EncryptedMessageView {
        algorithm: MEGOLM_ALGORITHM@,
        ciphertext: hex_encoding(message),
        sender_key,
        session_id: hex_encoding(session_id),
    }
}

/// A sealed envelope gives back the session and the message it was made for.
pub proof fn lemma_sealed_opens(message: Seq<u8>, sender_key: Seq<char>, session_id: Seq<u8>)
    ensures
        sealed(message, sender_key, session_id).session() == Some(session_id),
        sealed(message, sender_key, session_id).message() == Some(message),
        sealed(message, sender_key, session_id).message_index() == megolm_message_index(message),
        sealed(message, sender_key, session_id).addressed() == is_key_text(sender_key),
        sealed(message, sender_key, session_id).ciphertext.len() == 2 * message.len(),
        sealed(message, sender_key, session_id).session_id.len() == 2 * session_id.len(),
{
    lemma_hex_round_trip(message);
    lemma_hex_round_trip(session_id);
}

impl EncryptedMessage {
    /// The envelope for `message`, sent by the device with key `sender_key`
    /// under the session `session_id`.
    pub fn seal(message: &[u8], sender_key: &str, session_id: &[u8]) -> (envelope: EncryptedMessage)
        ensures
            envelope@ == sealed(message@, sender_key@, session_id@),
    {
        EncryptedMessage {
            algorithm: MEGOLM_ALGORITHM.to_owned(),
            ciphertext: encode_hex(message),
            sender_key: sender_key.to_owned(),
            session_id: encode_hex(session_id),
        }
    }

    /// The identifier of the session that the envelope names.
    pub fn session(&self) -> (session: Option<Vec<u8>>)
        ensures
            session is Some <==> self@.session() is Some,
            session matches Some(id) ==> self@.session() == Some(id@),
    {
        hex_to_bytes(self.session_id.as_str())
    }

    /// The Megolm message that the envelope carries.
    pub fn message(&self) -> (message: Option<Vec<u8>>)
        ensures
            message is Some <==> self@.message() is Some,
            message matches Some(bytes) ==> self@.message() == Some(bytes@),
    {
        hex_to_bytes(self.ciphertext.as_str())
    }

    /// Whether the envelope names this library's algorithm and a sender key
    /// of the right form.
    pub fn is_addressed(&self) -> (addressed: bool)
        ensures
            addressed == self@.addressed(),
    {
        let expected = MEGOLM_ALGORITHM.to_owned();
        if self.algorithm == expected {
            match hex_to_bytes(self.sender_key.as_str()) {
                Some(key) => key.len() == 32,
                None => false,
            }
        } else {
            false
        }
    }
}

/// What a successful decryption hands to the caller.
#[derive(Debug)]
pub struct DecryptionResult {
    pub plaintext: String,
    /// The key-agreement key that the envelope gave as its sender's.
    pub sender_key: String,
    /// The index of the message within its session, for ordering.
    pub message_index: u32,
}

/// What a `DecryptionResult` holds.
pub struct DecryptionResultView {
    pub plaintext: Seq<char>,
    pub sender_key: Seq<char>,
    pub message_index: u32,
}

impl View for DecryptionResult {
    type V = DecryptionResultView;

    open spec fn view(&self) -> DecryptionResultView {
        DecryptionResultView {
            plaintext: self.plaintext@,
            sender_key: self.sender_key@,
            message_index: self.message_index,
        }
    }
}

impl Clone for DecryptionResult {
    fn clone(&self) -> (copy: Self)
        ensures
            copy@ == self@,
    {
        DecryptionResult {
            plaintext: self.plaintext.clone(),
            sender_key: self.sender_key.clone(),
            message_index: self.message_index,
        }
    }
}

} // verus!
