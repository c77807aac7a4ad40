//! The process-wide manager handle: one slot that holds the manager once it
//! is initialized. Every operation takes the slot; on an empty slot it fails
//! with `NotInitialized`. The caller keeps the slot behind its lock.

use crate::envelope::{DecryptionResult, EncryptedMessage};
use crate::error::CryptoError;
use crate::identity::DeviceKeys;
use crate::inbound::opened;
use crate::manager::{returned_decryption, returned_envelope, EncryptionManager};
use crate::model::ManagerView;
use crate::outbound::SESSION_ID_LENGTH;
use vstd::prelude::*;

verus! {

/// What the slot holds, `None` before initialization.
pub open spec fn held(state: Option<EncryptionManager>) -> Option<ManagerView> {
    match state {
        Some(manager) => Some(manager@),
        None => None,
    }
}

/// A result without the value it carried.
pub open spec fn outcome<T>(result: Result<T, CryptoError>) -> Result<(), CryptoError> {
    match result {
        Ok(_) => Ok(()),
        Err(error) => Err(error),
    }
}

/// Creates the identity of `user_id`'s device `device_id` and a manager with
/// no sessions. Fails, and leaves the manager that is there, where the slot
/// is taken: a new identity takes an explicit `reset_encryption` first.
pub fn init_encryption(
    state: &mut Option<EncryptionManager>,
    user_id: String,
    device_id: String,
) -> (result: Result<(), CryptoError>)
    ensures
        match *old(state) {
            Some(_) => {
                &&& result == Err::<(), CryptoError>(CryptoError::AlreadyInitialized)
                &&& *final(state) == *old(state)
            },
            None => {
                &&& result is Ok
                &&& held(*final(state)) matches Some(manager)
                &&& manager == ManagerView::fresh(user_id@, device_id@, manager.account)
                &&& manager.account.well_formed()
            },
        },
{
    if state.is_some() {
        return Err(CryptoError::AlreadyInitialized);
    }
    *state = Some(EncryptionManager::new(user_id, device_id));
    Ok(())
}

/// Empties the slot: the identity and every session are dropped. Returns
/// whether there was a manager.
pub fn reset_encryption(state: &mut Option<EncryptionManager>) -> (was_initialized: bool)
    ensures
        *final(state) is None,
        was_initialized == (*old(state) is Some),
{
    let was_initialized = state.is_some();
    *state = None;
    was_initialized
}

/// The identity of the device: its names, and the two public keys of its
/// account in lower-case hexadecimal text.
pub fn get_device_keys(state: &Option<EncryptionManager>) -> (result: Result<
    DeviceKeys,
    CryptoError,
>)
    ensures
        match held(*state) {
            Some(manager) => {
                &&& result matches Ok(keys)
                &&& keys@ == manager.identity()
                &&& keys@.well_formed()
                &&& manager.account.well_formed()
            },
            None => result matches Err(error) && error == CryptoError::NotInitialized,
        },
{
    match state {
        Some(manager) => Ok(manager.get_device_keys()),
        None => Err(CryptoError::NotInitialized),
    }
}

/// Makes a new sending session the current one of the conversation.
pub fn create_outbound_session(state: &mut Option<EncryptionManager>, room_id: String) -> (result:
    Result<(), CryptoError>)
    ensures
        match (held(*old(state)), held(*final(state))) {
            (Some(before), Some(after)) => {
                let created = after.outbound[room_id@].current;
                &&& (result, after) == (
                    outcome(before.creating(room_id@, created.session_id, created.genesis_key).0),
                    before.creating(room_id@, created.session_id, created.genesis_key).1,
                )
                &&& result is Ok ==> created.genuine()
            },
            (Some(_), None) => false,
            (None, after) => {
                &&& result == Err::<(), CryptoError>(CryptoError::NotInitialized)
                &&& after is None
            },
        },
{
    match state {
        Some(manager) => match manager.create_outbound_session(room_id.as_str()) {
            Ok(_) => Ok(()),
            Err(error) => Err(error),
        },
        None => Err(CryptoError::NotInitialized),
    }
}

/// Encrypts `content` under the current sending session of the conversation.
pub fn encrypt_message(state: &mut Option<EncryptionManager>, content: String, room_id: String) -> (result:
    Result<EncryptedMessage, CryptoError>)
    ensures
        match held(*old(state)) {
            Some(manager) => {
                &&& held(*final(state)) == Some(manager.encrypting(room_id@))
                &&& manager.seals(room_id@, content@, returned_envelope(result))
                &&& result matches Ok(envelope) ==> {
                    &&& envelope@.addressed()
                    &&& envelope@.ciphertext.len() > 0
                    &&& envelope@.session_id.len() == 2 * SESSION_ID_LENGTH
                }
            },
            None => {
                &&& result matches Err(error)
                &&& error == CryptoError::NotInitialized
                &&& *final(state) is None
            },
        },
{
    match state {
        Some(manager) => manager.encrypt_message(content.as_str(), room_id.as_str()),
        None => Err(CryptoError::NotInitialized),
    }
}

/// Admits the receiving session that `key_material` opens, under the
/// identifier that its sender advertised.
pub fn admit_inbound_session(
    state: &mut Option<EncryptionManager>,
    room_id: String,
    session_id: Vec<u8>,
    key_material: Vec<u8>,
) -> (result: Result<(), CryptoError>)
    ensures
        match held(*old(state)) {
            Some(manager) => (result, held(*final(state))) == (
                manager.accepting(room_id@, session_id@, opened(key_material@)).0,
                Some(manager.accepting(room_id@, session_id@, opened(key_material@)).1),
            ),
            None => {
                &&& result == Err::<(), CryptoError>(CryptoError::NotInitialized)
                &&& *final(state) is None
            },
        },
{
    match state {
        Some(manager) => manager.admit_inbound_session(
            room_id.as_str(),
            session_id.as_slice(),
            key_material.as_slice(),
        ),
        None => Err(CryptoError::NotInitialized),
    }
}

/// Decrypts `encrypted` with the receiving session that it names.
pub fn decrypt_message(
    state: &mut Option<EncryptionManager>,
    encrypted: EncryptedMessage,
    room_id: String,
) -> (result: Result<DecryptionResult, CryptoError>)
    ensures
        match (held(*old(state)), held(*final(state))) {
            (Some(before), Some(after)) => {
                &&& (returned_decryption(result), after) == before.reading(encrypted@, room_id@)
                &&& result matches Ok(decrypted) ==> before.first_known_index(
                    encrypted@,
                    room_id@,
                ) <= decrypted.message_index
            },
            (Some(_), None) => false,
            (None, after) => {
                &&& result matches Err(error)
                &&& error == CryptoError::NotInitialized
                &&& after is None
            },
        },
{
    match state {
        Some(manager) => manager.decrypt_message(&encrypted, room_id.as_str()),
        None => Err(CryptoError::NotInitialized),
    }
}

} // verus!
