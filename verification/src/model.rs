//! The session manager as a state machine: what it holds, and what each
//! operation makes of it. The manager's contracts are stated over this model.
//!
//! Where an operation turns on something that is drawn at random or that a
//! caller hands in decoded (the identifier and key that a new session draws,
//! the session that key material opens, the index and text of a message),
//! that outcome is a parameter of the transition; the manager's contracts
//! say which value it takes.

use crate::conversations::{
    can_encrypt, table_after_create, table_after_expiry, OutboundTableView,
};
use crate::envelope::{sealed, DecryptionResultView, EncryptedMessageView};
use crate::error::CryptoError;
use crate::identity::{published, AccountView, DeviceKeysView};
use crate::inbound::{megolm_text, InboundSessionView};
use crate::outbound::OutboundSessionView;
use crate::receiving::{admission, reception, InboundStoreView};
use vstd::prelude::*;

verus! {

/// What a session manager holds.
pub struct ManagerView {
    /// The user that the device belongs to.
    pub user_id: Seq<char>,
    /// The device.
    pub device_id: Seq<char>,
    /// The public keys of the device's account; they never change.
    pub account: AccountView,
    /// The sending sessions, by conversation.
    pub outbound: OutboundTableView,
    /// The admitted receiving sessions, by conversation and session identifier.
    pub inbound: InboundStoreView,
}

impl ManagerView {
    /// A manager that has no session yet.
    pub open spec fn fresh(user_id: Seq<char>, device_id: Seq<char>, account: AccountView) -> ManagerView {
        ManagerView { user_id, device_id, account, outbound: Map::empty(), inbound: Map::empty() }
    }

    /// The identity that the device publishes: it is derived from the
    /// account's keys.
    pub open spec fn identity(self) -> DeviceKeysView {
        published(self.account, self.user_id, self.device_id)
    }

    /// Creating a sending session for `conversation_id`, where the new
    /// session draws the identifier `session_id` and the key `genesis_key`.
    pub open spec fn creating(
        self,
        conversation_id: Seq<char>,
        session_id: Seq<u8>,
        genesis_key: Seq<u8>,
    ) -> (Result<Seq<u8>, CryptoError>, ManagerView) {
        if conversation_id.len() == 0 {
            (Err(CryptoError::InvalidConversationId), self)
        } else {
            (
                Ok(session_id),
                ManagerView {
                    outbound: table_after_create(
                        self.outbound,
                        conversation_id,
                        OutboundSessionView { session_id, message_count: 0, genesis_key },
                    ),
                    ..self
                },
            )
        }
    }

    /// The manager after an encryption for `conversation_id` was asked for.
    pub open spec fn encrypting(self, conversation_id: Seq<char>) -> ManagerView {
        if can_encrypt(self.outbound, conversation_id) {
            ManagerView {
                outbound: self.outbound.insert(
                    conversation_id,
                    self.outbound[conversation_id].advanced(),
                ),
                ..self
            }
        } else {
            self
        }
    }

    /// Whether `result` is what an encryption of `content` for
    /// `conversation_id` may return: `NoSession` where no session can
    /// encrypt; else an envelope under the current session, from this device,
    /// whose message is one that the session may make of `content`.
    pub open spec fn seals(
        self,
        conversation_id: Seq<char>,
        content: Seq<char>,
        result: Result<EncryptedMessageView, CryptoError>,
    ) -> bool {
        if can_encrypt(self.outbound, conversation_id) {
            let current = self.outbound[conversation_id].current;
            &&& result matches Ok(envelope)
            &&& envelope.message() matches Some(message)
            &&& envelope == sealed(message, self.identity().curve25519_key, current.session_id)
            &&& current.encrypts(content, message)
        } else {
            result == Err::<EncryptedMessageView, CryptoError>(CryptoError::NoSession)
        }
    }

    /// Admitting a receiving session for `conversation_id` under the
    /// advertised `session_id`, where the key material opened `imported`.
    pub open spec fn accepting(
        self,
        conversation_id: Seq<char>,
        session_id: Seq<u8>,
        imported: Option<InboundSessionView>,
    ) -> (Result<(), CryptoError>, ManagerView) {
        let (result, inbound) = admission(self.inbound, conversation_id, session_id, imported);
        (result, ManagerView { inbound, ..self })
    }

    /// Decrypting `envelope` for `conversation_id`, where the message it
    /// carries decoded to `index` and the session's ratchet made `plaintext`
    /// of it (`None`: rejected).
    pub open spec fn decrypting(
        self,
        envelope: EncryptedMessageView,
        conversation_id: Seq<char>,
        index: Option<u32>,
        plaintext: Option<Seq<char>>,
    ) -> (Result<DecryptionResultView, CryptoError>, ManagerView) {
        match envelope.session() {
            Some(session_id) if self.inbound.dom().contains((conversation_id, session_id)) => {
                match index {
                    Some(index) if envelope.addressed() => {
                        let (text, inbound) = reception(
                            self.inbound,
                            conversation_id,
                            session_id,
                            index,
                            plaintext,
                        );
                        (
                            match text {
                                Ok(plaintext) => Ok(
                                    DecryptionResultView {
                                        plaintext,
                                        sender_key: envelope.sender_key,
                                        message_index: index,
                                    },
                                ),
                                Err(error) => Err(error),
                            },
                            ManagerView { inbound, ..self },
                        )
                    },
                    _ => (Err(CryptoError::MalformedEnvelope), self),
                }
            },
            _ => (Err(CryptoError::UnknownSession), self),
        }
    }

    /// The text that the receiving session named by `envelope` reads in the
    /// Megolm message `message`: what the session's key makes of it.
    pub open spec fn text_under(
        self,
        envelope: EncryptedMessageView,
        conversation_id: Seq<char>,
        message: Seq<u8>,
    ) -> Option<Seq<char>> {
        megolm_text(self.inbound[(conversation_id, envelope.session()->0)].key, message)
    }

    /// Decrypting `envelope` for `conversation_id`, given what decoding its
    /// message gave (bytes and index; `None`: no Megolm message): the session
    /// that the envelope names reads the message.
    pub open spec fn reading_decoded(
        self,
        envelope: EncryptedMessageView,
        conversation_id: Seq<char>,
        decoded: Option<(Seq<u8>, u32)>,
    ) -> (Result<DecryptionResultView, CryptoError>, ManagerView) {
        match decoded {
            Some((message, index)) => self.decrypting(
                envelope,
                conversation_id,
                Some(index),
                self.text_under(envelope, conversation_id, message),
            ),
            None => self.decrypting(envelope, conversation_id, None, None),
        }
    }

    /// Decrypting `envelope` for `conversation_id`.
    pub open spec fn reading(self, envelope: EncryptedMessageView, conversation_id: Seq<char>) -> (
        Result<DecryptionResultView, CryptoError>,
        ManagerView,
    ) {
        self.reading_decoded(envelope, conversation_id, envelope.decoded())
    }

    /// The first message index that the receiving session named by
    /// `envelope` can decrypt. A message before it is never decrypted.
    pub open spec fn first_known_index(
        self,
        envelope: EncryptedMessageView,
        conversation_id: Seq<char>,
    ) -> u32 {
        self.inbound[(conversation_id, envelope.session()->0)].first_known_index
    }

    /// The manager after the superseded sending sessions of
    /// `conversation_id` were expired.
    pub open spec fn expiring(self, conversation_id: Seq<char>) -> ManagerView {
        ManagerView { outbound: table_after_expiry(self.outbound, conversation_id), ..self }
    }
}

/// One call of the manager, with the outcomes that it turned on.
pub enum Operation {
    Create { conversation_id: Seq<char>, session_id: Seq<u8>, genesis_key: Seq<u8> },
    Encrypt { conversation_id: Seq<char> },
    Accept {
        conversation_id: Seq<char>,
        session_id: Seq<u8>,
        imported: Option<InboundSessionView>,
    },
    Decrypt {
        envelope: EncryptedMessageView,
        conversation_id: Seq<char>,
        index: Option<u32>,
        plaintext: Option<Seq<char>>,
    },
    Expire { conversation_id: Seq<char> },
}

/// The manager after one operation.
pub open spec fn after(state: ManagerView, operation: Operation) -> ManagerView {
    match operation {
        Operation::Create { conversation_id, session_id, genesis_key } => state.creating(
            conversation_id,
            session_id,
            genesis_key,
        ).1,
        Operation::Encrypt { conversation_id } => state.encrypting(conversation_id),
        Operation::Accept { conversation_id, session_id, imported } => state.accepting(
            conversation_id,
            session_id,
            imported,
        ).1,
        Operation::Decrypt { envelope, conversation_id, index, plaintext } => state.decrypting(
            envelope,
            conversation_id,
            index,
            plaintext,
        ).1,
        Operation::Expire { conversation_id } => state.expiring(conversation_id),
    }
}

/// The manager after the operations of `history`, first to last.
pub open spec fn after_all(state: ManagerView, history: Seq<Operation>) -> ManagerView
    decreases history.len(),
{
    if history.len() == 0 {
        state
    } else {
        after(after_all(state, history.drop_last()), history.last())
    }
}

} // verus!
