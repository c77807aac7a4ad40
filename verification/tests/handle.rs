use feverdream_crypto::{
    admit_inbound_session, create_outbound_session, decrypt_message, encrypt_message,
    get_device_keys, init_encryption, reset_encryption, CryptoError, EncryptedMessage,
    EncryptionManager,
};

fn envelope() -> EncryptedMessage {
    EncryptedMessage {
        algorithm: "m.megolm.v1.aes-sha2".to_string(),
        ciphertext: "00".to_string(),
        sender_key: "00".repeat(32),
        session_id: "00".to_string(),
    }
}

#[test]
fn every_operation_needs_initialization() {
    let mut state: Option<EncryptionManager> = None;
    assert_eq!(get_device_keys(&state).err(), Some(CryptoError::NotInitialized));
    assert_eq!(
        create_outbound_session(&mut state, "room1".to_string()),
        Err(CryptoError::NotInitialized)
    );
    assert_eq!(
        create_outbound_session(&mut state, String::new()),
        Err(CryptoError::NotInitialized)
    );
    assert_eq!(
        encrypt_message(&mut state, "hello".to_string(), "room1".to_string()).err(),
        Some(CryptoError::NotInitialized)
    );
    assert_eq!(
        admit_inbound_session(&mut state, "room1".to_string(), vec![1], vec![2]),
        Err(CryptoError::NotInitialized)
    );
    assert_eq!(
        decrypt_message(&mut state, envelope(), "room1".to_string()).err(),
        Some(CryptoError::NotInitialized)
    );
    assert!(state.is_none());
}

#[test]
fn init_then_get_device_keys() {
    let mut state: Option<EncryptionManager> = None;
    assert_eq!(
        init_encryption(&mut state, "alice".to_string(), "DEV1".to_string()),
        Ok(())
    );
    let keys = get_device_keys(&state).unwrap();
    assert_eq!(keys.user_id, "alice");
    assert_eq!(keys.device_id, "DEV1");
    assert_eq!(keys.ed25519_key.len(), 64);
    assert_eq!(keys.curve25519_key.len(), 64);
    assert!(hex::decode(&keys.ed25519_key).is_ok());
    assert!(hex::decode(&keys.curve25519_key).is_ok());
}

#[test]
fn second_init_is_refused_until_reset() {
    let mut state: Option<EncryptionManager> = None;
    init_encryption(&mut state, "alice".to_string(), "DEV1".to_string()).unwrap();
    let first = get_device_keys(&state).unwrap();
    create_outbound_session(&mut state, "room1".to_string()).unwrap();
    assert_eq!(
        init_encryption(&mut state, "mallory".to_string(), "DEV9".to_string()),
        Err(CryptoError::AlreadyInitialized)
    );
    let still = get_device_keys(&state).unwrap();
    assert_eq!(still.user_id, "alice");
    assert_eq!(still.ed25519_key, first.ed25519_key);
    assert!(encrypt_message(&mut state, "hello".to_string(), "room1".to_string()).is_ok());

    assert!(reset_encryption(&mut state));
    assert!(!reset_encryption(&mut state));
    assert_eq!(get_device_keys(&state).err(), Some(CryptoError::NotInitialized));
    assert_eq!(
        init_encryption(&mut state, "alice".to_string(), "DEV1".to_string()),
        Ok(())
    );
    let second = get_device_keys(&state).unwrap();
    assert_ne!(second.ed25519_key, first.ed25519_key);
    assert_ne!(second.curve25519_key, first.curve25519_key);
    assert_eq!(
        encrypt_message(&mut state, "hello".to_string(), "room1".to_string()).err(),
        Some(CryptoError::NoSession)
    );
}

#[test]
fn handle_reports_the_managers_errors() {
    let mut state: Option<EncryptionManager> = None;
    init_encryption(&mut state, "alice".to_string(), "DEV1".to_string()).unwrap();
    assert_eq!(
        create_outbound_session(&mut state, String::new()),
        Err(CryptoError::InvalidConversationId)
    );
    assert_eq!(
        encrypt_message(&mut state, "hello".to_string(), "room1".to_string()).err(),
        Some(CryptoError::NoSession)
    );
    assert_eq!(
        decrypt_message(&mut state, envelope(), "room1".to_string()).err(),
        Some(CryptoError::UnknownSession)
    );
    assert_eq!(
        admit_inbound_session(&mut state, "room1".to_string(), vec![0], vec![1, 2, 3]),
        Err(CryptoError::InvalidKeyMaterial)
    );
    assert_eq!(
        admit_inbound_session(&mut state, String::new(), vec![0], vec![1, 2, 3]),
        Err(CryptoError::InvalidConversationId)
    );
}
