//! A sending session: the ratchet with which this device encrypts for one
//! conversation.

use crate::wire::megolm_message_index;
use vodozemac::megolm::{GroupSession, SessionConfig};
use vstd::prelude::*;
use vstd::utf8::encode_utf8;

verus! {

#[verifier::external_type_specification]
#[verifier::external_body]
pub struct ExGroupSession(vodozemac::megolm::GroupSession);

/// Bytes in a session identifier: the base64 text of a public key.
pub const SESSION_ID_LENGTH: usize = 43;

/// The sending state of this device for one conversation.
///
/// `session_id` and `genesis_key` are read from the ratchet when the session
/// is made, `message_count` then and after each encryption. None of the three
/// is written anywhere else.
pub struct OutboundSession {
    session_id: Vec<u8>,
    message_count: u32,
    genesis_key: Vec<u8>,
    ratchet: GroupSession,
}

/// What the contracts say of a sending session.
pub struct OutboundSessionView {
    pub session_id: Seq<u8>,
    /// Messages encrypted so far; also the index of the next message.
    pub message_count: nat,
    /// The session key as it was exported before the first encryption. The
    /// receiving session made of it reads every message of this session.
    pub genesis_key: Seq<u8>,
}

impl OutboundSessionView {
    /// Whether the ratchet can encrypt another message.
    pub open spec fn usable(self) -> bool {
        self.message_count < u32::MAX
    }

    /// The session after one more encryption.
    pub open spec fn advanced(self) -> OutboundSessionView {
        OutboundSessionView { message_count: self.message_count + 1, ..self }
    }

    /// What holds of every session that a ratchet made: its identifier has
    /// the length of one, and its genesis key opens it from the first index.
    pub open spec fn genuine(self) -> bool {
        &&& self.session_id.len() == SESSION_ID_LENGTH
        &&& crate::inbound::session_key_contents(self.genesis_key) == Some((self.session_id, 0u32))
    }

    /// Whether `message` is what this session may make of `plaintext`: a
    /// Megolm message that carries the session's next index, and in which the
    /// receiving session made of the genesis key reads `plaintext`.
    pub open spec fn encrypts(self, plaintext: Seq<char>, message: Seq<u8>) -> bool {
        &&& message.len() > 0
        &&& megolm_message_index(message) == Some(self.message_count as u32)
        &&& crate::inbound::megolm_plaintext(self.genesis_key, message) == Some(
            encode_utf8(plaintext),
        )
    }
}

impl View for OutboundSession {
    type V = OutboundSessionView;

    closed spec fn view(&self) -> OutboundSessionView {
        OutboundSessionView {
            session_id: self.session_id@,
            message_count: self.message_count as nat,
            genesis_key: self.genesis_key@,
        }
    }
}

impl OutboundSession {
    /// A new session, with a ratchet that has encrypted nothing yet.
    pub fn start() -> (session: OutboundSession)
        ensures
            session@.message_count == 0,
            session@.genuine(),
    {
        start_group_session()
    }

    /// The session key as it was exported before the first encryption.
    pub fn genesis_key(&self) -> (key: &Vec<u8>)
        ensures
            key@ == self@.genesis_key,
    {
        &self.genesis_key
    }

    /// The identifier under which receivers know this session.
    pub fn session_id(&self) -> (id: &Vec<u8>)
        ensures
            id@ == self@.session_id,
    {
        &self.session_id
    }

    /// The number of messages encrypted so far.
    pub fn message_count(&self) -> (count: u32)
        ensures
            count == self@.message_count,
    {
        self.message_count
    }

    /// Encrypts `plaintext` and advances the ratchet; `None`, and nothing
    /// changed, where the ratchet has no index left.
    pub fn encrypt(&mut self, plaintext: &str) -> (message: Option<Vec<u8>>)
        ensures
            message is Some <==> old(self)@.usable(),
            message is None ==> final(self)@ == old(self)@,
            message matches Some(bytes) ==> {
                &&& final(self)@ == old(self)@.advanced()
                &&& old(self)@.encrypts(plaintext@, bytes@)
            },
    {
        if self.message_count < u32::MAX {
            Some(ratchet_encrypt(self, plaintext))
        } else {
            None
        }
    }

    /// The key with which another device can follow this session from its
    /// present index on.
    pub fn export_key(&self) -> (key: Vec<u8>)
        ensures
            self@.opened_by(key@),
    {
        export_session_key(self)
    }
}

impl OutboundSessionView {
    /// Whether `key` opens this session from the index at which it stands:
    /// importing it gives a receiving session with this session's identifier
    /// whose first known index is the number of messages encrypted so far.
    pub open spec fn opened_by(self, key: Seq<u8>) -> bool {
        crate::inbound::session_key_contents(key) == Some(
            (self.session_id, self.message_count as u32),
        )
    }
}

/// `GroupSession::new` with `SessionConfig::version_1`, then
/// `GroupSession::session_id`, `GroupSession::message_index` and
/// `GroupSession::session_key` (turned to bytes with `SessionKey::to_bytes`)
/// read off it. Trusted: a new ratchet stands at index zero; the identifier,
/// the unpadded base64 text of a thirty-two byte key, has forty-three bytes;
/// and the key exported is signed by the session, so that importing it gives
/// a receiving session with this identifier and first known index zero.
/// The identifier and the key are drawn at random, so nothing more is
/// promised of them.
#[verifier::external_body]
fn start_group_session() -> (session: OutboundSession)
    ensures
        session@.message_count == 0,
        session@.genuine(),
{
    let ratchet = GroupSession::new(SessionConfig::version_1());
    OutboundSession {
        session_id: ratchet.session_id().into_bytes(),
        message_count: ratchet.message_index(),
        genesis_key: ratchet.session_key().to_bytes(),
        ratchet,
    }
}

/// `GroupSession::encrypt`, the message turned to bytes with
/// `MegolmMessage::to_bytes`. Trusted: the message is not empty (it begins
/// with a version byte) and carries the index at which the ratchet stood, and
/// the ratchet then stands one further; the session identifier and the
/// genesis key stay. A receiving session whose first known index is zero
/// decrypts every message of the session, so the one made of the genesis key
/// reads in this message the bytes of `plaintext`. The ratchet counts in
/// thirty-two bits and advances with an unchecked `+= 1`, which overflows at
/// the last index, hence the `requires`.
#[verifier::external_body]
fn ratchet_encrypt(session: &mut OutboundSession, plaintext: &str) -> (message: Vec<u8>)
    requires
        old(session)@.usable(),
    ensures
        final(session)@ == old(session)@.advanced(),
        old(session)@.encrypts(plaintext@, message@),
{
    let message = session.ratchet.encrypt(plaintext);
    session.message_count = session.ratchet.message_index();
    message.to_bytes()
}

/// `GroupSession::session_key`, turned to bytes with `SessionKey::to_bytes`.
/// Trusted: the key holds the session's signing key and the index at which
/// the ratchet stands, signed by the session; so `SessionKey::from_bytes`
/// accepts these bytes, and the receiving session made of them has this
/// session's identifier and that index as its first known one. Of the bytes
/// themselves nothing is promised.
#[verifier::external_body]
fn export_session_key(session: &OutboundSession) -> (key: Vec<u8>)
    ensures
        session@.opened_by(key@),
{
    session.ratchet.session_key().to_bytes()
}

} // verus!
