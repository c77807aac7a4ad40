//! A receiving session: the ratchet with which this device decrypts what one
//! sending session of another device encrypted.

use crate::wire::WireMessage;
use vodozemac::megolm::{InboundGroupSession, SessionConfig, SessionKey};
use vstd::prelude::*;
use vstd::utf8::{decode_utf8, valid_utf8};

verus! {

#[verifier::external_type_specification]
#[verifier::external_body]
pub struct ExInboundGroupSession(vodozemac::megolm::InboundGroupSession);

#[verifier::external_type_specification]
#[verifier::external_body]
pub struct ExSessionKeyDecodeError(vodozemac::megolm::SessionKeyDecodeError);

#[verifier::external_type_specification]
#[verifier::external_body]
pub struct ExDecryptionError(vodozemac::megolm::DecryptionError);

#[verifier::external_type_specification]
#[verifier::external_body]
pub struct ExFromUtf8Error(std::string::FromUtf8Error);

/// What the key material `key` opens: the identifier of the session it belongs
/// to and the first message index it can decrypt; `None` where it is no
/// session key or its signature does not hold.
pub uninterp spec fn session_key_contents(key: Seq<u8>) -> Option<(Seq<u8>, u32)>;

/// What a receiving session made of the key material `key` makes of the
/// Megolm message `message`: the plaintext, or `None` where the message is
/// rejected (it is not signed by the key's session, its index lies before the
/// key's, or it fails authentication).
pub uninterp spec fn megolm_plaintext(key: Seq<u8>, message: Seq<u8>) -> Option<Seq<u8>>;

/// The text that a receiving session made of `key` reads in `message`: what
/// the plaintext encodes in UTF-8, or `None` where the message is rejected
/// or its plaintext is no text.
pub open spec fn megolm_text(key: Seq<u8>, message: Seq<u8>) -> Option<Seq<char>> {
    match megolm_plaintext(key, message) {
        Some(plaintext) => if valid_utf8(plaintext) {
            Some(decode_utf8(plaintext))
        } else {
            None
        },
        None => None,
    }
}

/// The receiving state for one sending session of another device.
///
/// `key` is the key material that the session was imported from;
/// `session_id` and `first_known_index` are read from the ratchet then. None
/// of the three is written anywhere else.
pub struct InboundSession {
    session_id: Vec<u8>,
    first_known_index: u32,
    key: Vec<u8>,
    ratchet: InboundGroupSession,
}

/// What the contracts say of a receiving session.
pub struct InboundSessionView {
    pub session_id: Seq<u8>,
    /// The first message index that the session can decrypt.
    pub first_known_index: u32,
    /// The key material that the session was imported from.
    pub key: Seq<u8>,
}

impl View for InboundSession {
    type V = InboundSessionView;

    closed spec fn view(&self) -> InboundSessionView {
        InboundSessionView {
            session_id: self.session_id@,
            first_known_index: self.first_known_index,
            key: self.key@,
        }
    }
}

/// The receiving session that the key material `key` opens, `None` where it
/// is rejected.
pub open spec fn opened(key: Seq<u8>) -> Option<InboundSessionView> {
    match session_key_contents(key) {
        Some((session_id, first_known_index)) => Some(
            InboundSessionView { session_id, first_known_index, key },
        ),
        None => None,
    }
}

/// What an imported session holds, `None` where the import failed.
pub open spec fn imported_view(imported: Option<InboundSession>) -> Option<InboundSessionView> {
    match imported {
        Some(session) => Some(session@),
        None => None,
    }
}

/// The characters of a text that may be missing.
pub open spec fn text_of(plaintext: Option<String>) -> Option<Seq<char>> {
    match plaintext {
        Some(text) => Some(text@),
        None => None,
    }
}

impl InboundSession {
    /// The session that `key` opens, or `None` where the key is rejected.
    pub fn import(key: &[u8]) -> (imported: Option<InboundSession>)
        ensures
            imported_view(imported) == opened(key@),
    {
        match import_session_key(key) {
            Ok(session) => Some(session),
            Err(_) => None,
        }
    }

    /// The identifier that the sender gave the session.
    pub fn session_id(&self) -> (id: &Vec<u8>)
        ensures
            id@ == self@.session_id,
    {
        &self.session_id
    }

    /// The first message index that the session can decrypt.
    pub fn first_known_index(&self) -> (index: u32)
        ensures
            index == self@.first_known_index,
    {
        self.first_known_index
    }

    /// The key material that the session was imported from.
    pub fn key(&self) -> (key: &Vec<u8>)
        ensures
            key@ == self@.key,
    {
        &self.key
    }

    /// The text that `message` holds, or `None` where the ratchet rejects the
    /// message or what it holds is no text. The session stays what it is.
    pub fn decrypt(&mut self, message: &WireMessage) -> (plaintext: Option<String>)
        ensures
            final(self)@ == old(self)@,
            text_of(plaintext) == megolm_text(old(self)@.key, message.bytes_spec()),
            message.index_spec() < old(self)@.first_known_index ==> plaintext is None,
    {
        match ratchet_decrypt(self, message, message.message()) {
            Ok(bytes) => text_from_bytes(bytes),
            Err(_) => None,
        }
    }
}

/// The text that `bytes` encode in UTF-8, or `None` where they encode none.
pub fn text_from_bytes(bytes: Vec<u8>) -> (text: Option<String>)
    ensures
        text is Some <==> valid_utf8(bytes@),
        text matches Some(decoded) ==> decoded@ == decode_utf8(bytes@),
{
    match string_from_utf8(bytes) {
        Ok(text) => Some(text),
        Err(_) => None,
    }
}

/// `SessionKey::from_bytes`, then `InboundGroupSession::new` with
/// `SessionConfig::version_1`, and `InboundGroupSession::session_id` and
/// `InboundGroupSession::first_known_index` read off the session, and the key
/// kept beside them. Trusted: whether the key is accepted, and the identifier
/// and index found, depend on the key's bytes alone; `session_key_contents`
/// is the name of that result.
#[verifier::external_body]
fn import_session_key(key: &[u8]) -> (imported: Result<
    InboundSession,
    vodozemac::megolm::SessionKeyDecodeError,
>)
    ensures
        match imported {
            Ok(session) => {
                &&& session_key_contents(key@) == Some(
                    (session@.session_id, session@.first_known_index),
                )
                &&& session@.key == key@
            },
            Err(_) => session_key_contents(key@) is None,
        },
{
    match SessionKey::from_bytes(key) {
        Ok(session_key) => {
            let ratchet = InboundGroupSession::new(&session_key, SessionConfig::version_1());
            Ok(
                InboundSession {
                    session_id: ratchet.session_id().into_bytes(),
                    first_known_index: ratchet.first_known_index(),
                    key: key.to_vec(),
                    ratchet,
                },
            )
        },
        Err(error) => Err(error),
    }
}

/// `InboundGroupSession::decrypt`, of which the plaintext is kept. Trusted:
/// the session's identifier, first known index and key stay. What the call
/// returns depends on the key that the session was made of and on the
/// message's bytes alone: the signature is checked against the key's signing
/// key, and the ratchet for the message's index is wound from the key's
/// ratchet, however far the session has been used; `megolm_plaintext` is the
/// name of that result. A message whose index lies before the first known
/// index is refused, since the ratchet cannot be wound back to it. `decoded`
/// is the message that the ratchet is given; `message` says which bytes and
/// index it was decoded from.
#[verifier::external_body]
fn ratchet_decrypt(
    session: &mut InboundSession,
    message: &WireMessage,
    decoded: &vodozemac::megolm::MegolmMessage,
) -> (plaintext: Result<Vec<u8>, vodozemac::megolm::DecryptionError>)
    requires
        *decoded == message.decoded(),
    ensures
        final(session)@ == old(session)@,
        match plaintext {
            Ok(bytes) => megolm_plaintext(old(session)@.key, message.bytes_spec()) == Some(
                bytes@,
            ),
            Err(_) => megolm_plaintext(old(session)@.key, message.bytes_spec()) is None,
        },
        message.index_spec() < old(session)@.first_known_index ==> plaintext is Err,
{
    match session.ratchet.decrypt(decoded) {
        Ok(decrypted) => Ok(decrypted.plaintext),
        Err(error) => Err(error),
    }
}

/// `String::from_utf8`. Trusted, as std documents it: it succeeds exactly on
/// valid UTF-8, and the string then holds the characters that the bytes encode.
#[verifier::external_body]
fn string_from_utf8(bytes: Vec<u8>) -> (text: Result<String, std::string::FromUtf8Error>)
    ensures
        text is Ok <==> valid_utf8(bytes@),
        text matches Ok(s) ==> s@ == decode_utf8(bytes@),
{
    String::from_utf8(bytes)
}

} // verus!
