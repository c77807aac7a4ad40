//! The session manager: the one authority over a device's identity and its
//! session tables.

use crate::conversations::OutboundTable;
use crate::envelope::{
    lemma_sealed_opens, DecryptionResult, DecryptionResultView, EncryptedMessage,
    EncryptedMessageView,
};
use crate::error::CryptoError;
use crate::identity::{lemma_published_is_well_formed, DeviceAccount, DeviceKeys};
use crate::inbound::{imported_view, opened, InboundSession};
use crate::outbound::SESSION_ID_LENGTH;
use crate::model::ManagerView;
use crate::receiving::InboundStore;
use crate::wire::{wire_decoded, WireMessage};
use vstd::prelude::*;
use vstd::slice::slice_to_vec;

verus! {

/// Holds the identity of a device, its sending sessions and the receiving
/// sessions it has admitted.
pub struct EncryptionManager {
    olm_account: DeviceAccount,
    outbound_sessions: OutboundTable,
    inbound_sessions: InboundStore,
    device_keys: DeviceKeys,
}

/// A session key on its way to another device, with the identifier of the
/// session it belongs to.
#[derive(Debug)]
pub struct SessionExport {
    pub session_id: Vec<u8>,
    pub key_material: Vec<u8>,
}

/// What a returned session identifier holds, or the error in its place.
pub open spec fn returned_id(result: Result<Vec<u8>, CryptoError>) -> Result<Seq<u8>, CryptoError> {
    match result {
        Ok(id) => Ok(id@),
        Err(error) => Err(error),
    }
}

/// What a returned envelope holds, or the error in its place.
pub open spec fn returned_envelope(result: Result<EncryptedMessage, CryptoError>) -> Result<
    EncryptedMessageView,
    CryptoError,
> {
    match result {
        Ok(envelope) => Ok(envelope@),
        Err(error) => Err(error),
    }
}

/// What a returned decryption holds, or the error in its place.
pub open spec fn returned_decryption(result: Result<DecryptionResult, CryptoError>) -> Result<
    DecryptionResultView,
    CryptoError,
> {
    match result {
        Ok(decrypted) => Ok(decrypted@),
        Err(error) => Err(error),
    }
}

impl View for EncryptionManager {
    type V = ManagerView;

    closed spec fn view(&self) -> ManagerView {
        ManagerView {
            user_id: self.device_keys.user_id@,
            device_id: self.device_keys.device_id@,
            account: self.olm_account@,
            outbound: self.outbound_sessions@,
            inbound: self.inbound_sessions@,
        }
    }
}

impl EncryptionManager {
    #[verifier::type_invariant]
    spec fn well_formed(self) -> bool {
        &&& self.outbound_sessions.well_formed()
        &&& self.inbound_sessions.well_formed()
        &&& self.olm_account@.well_formed()
        &&& self.device_keys@ == self@.identity()
    }

    /// A manager for `user_id`'s device `device_id`, with an account of its
    /// own and no sessions.
    pub fn new(user_id: String, device_id: String) -> (manager: Self)
        ensures
            manager@ == ManagerView::fresh(user_id@, device_id@, manager@.account),
            manager@.account.well_formed(),
    {
        let olm_account = DeviceAccount::generate();
        let device_keys = DeviceKeys::publish(user_id, device_id, &olm_account);
        EncryptionManager {
            olm_account,
            outbound_sessions: OutboundTable::new(),
            inbound_sessions: InboundStore::new(),
            device_keys,
        }
    }

    /// The identity of the device: its names, and the two public keys of its
    /// account in lower-case hexadecimal text.
    pub fn get_device_keys(&self) -> (keys: DeviceKeys)
        ensures
            keys@ == self@.identity(),
            keys@.well_formed(),
            self@.account.well_formed(),
    {
        proof {
            use_type_invariant(self);
            lemma_published_is_well_formed(self@.account, self@.user_id, self@.device_id);
        }
        self.device_keys.clone()
    }

    /// Makes a new sending session the current one of the conversation and
    /// returns its identifier. An empty conversation identifier is refused.
    /// The session that was current, if any, is kept among the superseded
    /// ones; no receiving session is touched.
    pub fn create_outbound_session(&mut self, room_id: &str) -> (result: Result<
        Vec<u8>,
        CryptoError,
    >)
        ensures
            result is Ok <==> room_id@.len() > 0,
            result matches Err(error) ==> {
                &&& error == CryptoError::InvalidConversationId
                &&& final(self)@ == old(self)@
            },
            result matches Ok(session_id) ==> {
                let created = final(self)@.outbound[room_id@].current;
                &&& session_id@.len() == SESSION_ID_LENGTH
                &&& created.genuine()
                &&& (returned_id(result), final(self)@) == old(self)@.creating(
                    room_id@,
                    session_id@,
                    created.genesis_key,
                )
            },
    {
        proof {
            use_type_invariant(&*self);
        }
        if room_id.is_empty() {
            return Err(CryptoError::InvalidConversationId);
        }
        let mut outbound = OutboundTable::new();
        core::mem::swap(&mut outbound, &mut self.outbound_sessions);
        let session_id = outbound.create(room_id);
        self.outbound_sessions = outbound;
        Ok(session_id)
    }

    /// Encrypts `content` under the current sending session of the
    /// conversation, and advances that session. Fails with `NoSession`, and
    /// changes nothing, where the conversation has no session or its session
    /// has used up its indices.
    pub fn encrypt_message(&mut self, content: &str, room_id: &str) -> (result: Result<
        EncryptedMessage,
        CryptoError,
    >)
        ensures
            final(self)@ == old(self)@.encrypting(room_id@),
            old(self)@.seals(room_id@, content@, returned_envelope(result)),
            result matches Ok(envelope) ==> {
                &&& envelope@.addressed()
                &&& envelope@.ciphertext.len() > 0
                &&& envelope@.session_id.len() == 2 * SESSION_ID_LENGTH
            },
    {
        proof {
            use_type_invariant(&*self);
            lemma_published_is_well_formed(self@.account, self@.user_id, self@.device_id);
        }
        let mut outbound = OutboundTable::new();
        core::mem::swap(&mut outbound, &mut self.outbound_sessions);
        let sealed = outbound.encrypt(room_id, content);
        self.outbound_sessions = outbound;
        match sealed {
            Some((session_id, message)) => {
                let envelope = EncryptedMessage::seal(
                    message.as_slice(),
                    self.device_keys.curve25519_key.as_str(),
                    session_id.as_slice(),
                );
                proof {
                    lemma_sealed_opens(message@, self.device_keys.curve25519_key@, session_id@);
                }
                Ok(envelope)
            },
            None => Err(CryptoError::NoSession),
        }
    }

    /// Admits the receiving session that `key_material` opens, under the
    /// identifier that its sender advertised. Refused are, in this order: an
    /// empty conversation identifier; an identifier that is admitted already
    /// (that session stays as it is); key material that the ratchet rejects
    /// or that belongs to another session than the advertised one.
    pub fn admit_inbound_session(
        &mut self,
        room_id: &str,
        session_id: &[u8],
        key_material: &[u8],
    ) -> (result: Result<(), CryptoError>)
        ensures
            (result, final(self)@) == old(self)@.accepting(
                room_id@,
                session_id@,
                opened(key_material@),
            ),
    {
        let imported = InboundSession::import(key_material);
        self.admit_imported(room_id, session_id, imported)
    }

    /// Admits `imported`, the session that importing a key gave (`None`: the
    /// key was rejected), under the identifier that its sender advertised.
    pub fn admit_imported(
        &mut self,
        room_id: &str,
        session_id: &[u8],
        imported: Option<InboundSession>,
    ) -> (result: Result<(), CryptoError>)
        ensures
            (result, final(self)@) == old(self)@.accepting(
                room_id@,
                session_id@,
                imported_view(imported),
            ),
    {
        proof {
            use_type_invariant(&*self);
        }
        let mut inbound = InboundStore::new();
        core::mem::swap(&mut inbound, &mut self.inbound_sessions);
        let result = inbound.accept(room_id, session_id, imported);
        self.inbound_sessions = inbound;
        result
    }

    /// Decrypts `encrypted` with the receiving session that it names.
    /// Refused are, in this order: an envelope whose session was not admitted
    /// for the conversation (`UnknownSession`); one with another algorithm
    /// tag, a malformed sender key, or a ciphertext that is no Megolm message
    /// (`MalformedEnvelope`); one whose message index was surfaced before
    /// (`ReplayedMessage`); one in which the session reads no text
    /// (`DecryptionFailed`). Otherwise the text is returned beside the
    /// envelope's sender key and the message's index, and the index is
    /// remembered. Only a success changes the manager.
    pub fn decrypt_message(&mut self, encrypted: &EncryptedMessage, room_id: &str) -> (result:
        Result<DecryptionResult, CryptoError>)
        ensures
            (returned_decryption(result), final(self)@) == old(self)@.reading(
                encrypted@,
                room_id@,
            ),
            result matches Ok(decrypted) ==> old(self)@.first_known_index(encrypted@, room_id@)
                <= decrypted.message_index,
    {
        let message = match encrypted.message() {
            Some(bytes) => WireMessage::decode(bytes.as_slice()),
            None => None,
        };
        self.decrypt_decoded(encrypted, room_id, message)
    }

    /// Decrypts `encrypted`, given what decoding the message it carries gave
    /// (`None`: no Megolm message).
    pub fn decrypt_decoded(
        &mut self,
        encrypted: &EncryptedMessage,
        room_id: &str,
        message: Option<WireMessage>,
    ) -> (result: Result<DecryptionResult, CryptoError>)
        ensures
            (returned_decryption(result), final(self)@) == old(self)@.reading_decoded(
                encrypted@,
                room_id@,
                wire_decoded(message),
            ),
            result matches Ok(decrypted) ==> old(self)@.first_known_index(encrypted@, room_id@)
                <= decrypted.message_index,
    {
        proof {
            use_type_invariant(&*self);
        }
        let session_id = match encrypted.session() {
            Some(session_id) => session_id,
            None => {
                return Err(CryptoError::UnknownSession);
            },
        };
        if !self.inbound_sessions.contains(room_id, session_id.as_slice()) {
            return Err(CryptoError::UnknownSession);
        }
        if !encrypted.is_addressed() || message.is_none() {
            return Err(CryptoError::MalformedEnvelope);
        }
        let message = message.unwrap();
        let mut inbound = InboundStore::new();
        core::mem::swap(&mut inbound, &mut self.inbound_sessions);
        let received = inbound.receive(room_id, session_id.as_slice(), &message);
        self.inbound_sessions = inbound;
        match received {
            Ok(plaintext) => Ok(
                DecryptionResult {
                    plaintext,
                    sender_key: encrypted.sender_key.clone(),
                    message_index: message.index(),
                },
            ),
            Err(error) => Err(error),
        }
    }

    /// The genesis key of the conversation's current sending session, for the
    /// devices that are to read every message of the session: admitted under
    /// the session's identifier, it opens the session from its first index.
    pub fn export_session_key(&self, room_id: &str) -> (result: Result<SessionExport, CryptoError>)
        ensures
            result is Ok <==> self@.outbound.dom().contains(room_id@),
            result matches Err(error) ==> error == CryptoError::NoSession,
            result matches Ok(exported) ==> {
                let current = self@.outbound[room_id@].current;
                &&& exported.session_id@ == current.session_id
                &&& exported.key_material@ == current.genesis_key
                &&& current.genuine()
            },
    {
        proof {
            use_type_invariant(self);
        }
        match self.outbound_sessions.genesis_key(room_id) {
            Some((session_id, key_material)) => Ok(SessionExport { session_id, key_material }),
            None => Err(CryptoError::NoSession),
        }
    }

    /// The key of the conversation's current sending session as it stands,
    /// for the devices that are to read only what it encrypts from now on: it
    /// opens that session from the index at which it stands.
    pub fn export_session_key_from_now(&self, room_id: &str) -> (result: Result<
        SessionExport,
        CryptoError,
    >)
        ensures
            result is Ok <==> self@.outbound.dom().contains(room_id@),
            result matches Err(error) ==> error == CryptoError::NoSession,
            result matches Ok(exported) ==> {
                &&& exported.session_id@ == self@.outbound[room_id@].current.session_id
                &&& self@.outbound[room_id@].current.opened_by(exported.key_material@)
            },
    {
        proof {
            use_type_invariant(self);
        }
        match self.outbound_sessions.export_key(room_id) {
            Some((session_id, key_material)) => Ok(SessionExport { session_id, key_material }),
            None => Err(CryptoError::NoSession),
        }
    }

    /// The key of the sending session of the conversation that has the
    /// identifier `session_id`, be it current or superseded and not yet
    /// expired; `NoSession` where the conversation holds no such session.
    pub fn export_session_key_of(&self, room_id: &str, session_id: &[u8]) -> (result: Result<
        SessionExport,
        CryptoError,
    >)
        ensures
            result is Ok <==> self@.outbound.dom().contains(room_id@)
                && self@.outbound[room_id@].holds(session_id@),
            result matches Err(error) ==> error == CryptoError::NoSession,
            result matches Ok(exported) ==> {
                &&& exported.session_id@ == session_id@
                &&& self@.outbound[room_id@].hands_out(session_id@, exported.key_material@)
            },
    {
        proof {
            use_type_invariant(self);
        }
        match self.outbound_sessions.export_key_of(room_id, session_id) {
            Some(key_material) => Ok(
                SessionExport { session_id: slice_to_vec(session_id), key_material },
            ),
            None => Err(CryptoError::NoSession),
        }
    }

    /// The identifier of the conversation's current sending session and the
    /// number of messages it has encrypted; `None` where the conversation has
    /// no sending session.
    pub fn outbound_session(&self, room_id: &str) -> (found: Option<(Vec<u8>, u32)>)
        ensures
            found is Some <==> self@.outbound.dom().contains(room_id@),
            found matches Some((session_id, message_count)) ==> {
                &&& session_id@ == self@.outbound[room_id@].current.session_id
                &&& message_count == self@.outbound[room_id@].current.message_count
            },
    {
        proof {
            use_type_invariant(self);
        }
        self.outbound_sessions.current(room_id)
    }

    /// The number of superseded sending sessions that the conversation keeps.
    pub fn superseded_count(&self, room_id: &str) -> (count: usize)
        ensures
            count == if self@.outbound.dom().contains(room_id@) {
                self@.outbound[room_id@].superseded.len()
            } else {
                0
            },
    {
        proof {
            use_type_invariant(self);
        }
        self.outbound_sessions.superseded_count(room_id)
    }

    /// Whether a receiving session is admitted under the conversation and
    /// session identifier.
    pub fn has_inbound_session(&self, room_id: &str, session_id: &[u8]) -> (found: bool)
        ensures
            found == self@.inbound.dom().contains((room_id@, session_id@)),
    {
        proof {
            use_type_invariant(self);
        }
        self.inbound_sessions.contains(room_id, session_id)
    }

    /// Drops the superseded sending sessions of the conversation, and returns
    /// how many there were. The current session stays.
    pub fn expire_superseded(&mut self, room_id: &str) -> (dropped: usize)
        ensures
            final(self)@ == old(self)@.expiring(room_id@),
            dropped == if old(self)@.outbound.dom().contains(room_id@) {
                old(self)@.outbound[room_id@].superseded.len()
            } else {
                0
            },
    {
        proof {
            use_type_invariant(&*self);
        }
        let mut outbound = OutboundTable::new();
        core::mem::swap(&mut outbound, &mut self.outbound_sessions);
        let dropped = outbound.expire_superseded(room_id);
        self.outbound_sessions = outbound;
        dropped
    }
}

} // verus!
