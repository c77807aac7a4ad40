use feverdream_crypto::{
    CryptoError, DecryptionResult, EncryptedMessage, EncryptionManager, MEGOLM_ALGORITHM,
};

fn alice() -> EncryptionManager {
    EncryptionManager::new("alice".to_string(), "DEV1".to_string())
}

fn bob() -> EncryptionManager {
    EncryptionManager::new("bob".to_string(), "DEV2".to_string())
}

fn is_lower_hex(text: &str) -> bool {
    text.chars().all(|c| c.is_ascii_digit() || ('a'..='f').contains(&c))
}

/// Alice creates a session for `room`, and Bob admits it from its first index.
fn share(sender: &mut EncryptionManager, receiver: &mut EncryptionManager, room: &str) -> Vec<u8> {
    let session_id = sender.create_outbound_session(room).unwrap();
    let exported = sender.export_session_key(room).unwrap();
    assert_eq!(exported.session_id, session_id);
    assert_eq!(
        receiver.admit_inbound_session(room, &session_id, &exported.key_material),
        Ok(())
    );
    session_id
}

#[test]
fn new_manager_publishes_well_formed_keys() {
    let manager = alice();
    let keys = manager.get_device_keys();
    assert_eq!(keys.user_id, "alice");
    assert_eq!(keys.device_id, "DEV1");
    assert_eq!(keys.ed25519_key.len(), 64);
    assert_eq!(keys.curve25519_key.len(), 64);
    assert!(is_lower_hex(&keys.ed25519_key));
    assert!(is_lower_hex(&keys.curve25519_key));
    assert_ne!(keys.ed25519_key, keys.curve25519_key);
}

#[test]
fn device_keys_stay_the_same() {
    let mut manager = alice();
    let before = manager.get_device_keys();
    manager.create_outbound_session("room1").unwrap();
    manager.encrypt_message("hello", "room1").unwrap();
    let after = manager.get_device_keys();
    assert_eq!(before.ed25519_key, after.ed25519_key);
    assert_eq!(before.curve25519_key, after.curve25519_key);
    assert_eq!(before.user_id, after.user_id);
    assert_eq!(before.device_id, after.device_id);
}

#[test]
fn two_managers_have_different_keys() {
    let first = alice().get_device_keys();
    let second = alice().get_device_keys();
    assert_ne!(first.ed25519_key, second.ed25519_key);
    assert_ne!(first.curve25519_key, second.curve25519_key);
}

#[test]
fn encrypt_before_create_fails_with_no_session() {
    let mut manager = alice();
    let result = manager.encrypt_message("hello", "room1");
    assert_eq!(result.err(), Some(CryptoError::NoSession));
    manager.create_outbound_session("room2").unwrap();
    let result = manager.encrypt_message("hello", "room1");
    assert_eq!(result.err(), Some(CryptoError::NoSession));
    assert_eq!(manager.outbound_session("room1"), None);
}

#[test]
fn create_refuses_empty_conversation() {
    let mut manager = alice();
    assert_eq!(
        manager.create_outbound_session(""),
        Err(CryptoError::InvalidConversationId)
    );
    assert_eq!(manager.outbound_session(""), None);
    assert_eq!(
        manager.encrypt_message("hello", "").err(),
        Some(CryptoError::NoSession)
    );
}

#[test]
fn create_returns_the_current_session_id() {
    let mut manager = alice();
    let session_id = manager.create_outbound_session("room1").unwrap();
    assert!(!session_id.is_empty());
    assert_eq!(manager.outbound_session("room1"), Some((session_id, 0)));
}

#[test]
fn encrypt_after_create_never_lacks_a_session() {
    let mut manager = alice();
    manager.create_outbound_session("room1").unwrap();
    for i in 0..20u32 {
        let result = manager.encrypt_message("same text", "room1");
        assert!(result.is_ok());
        assert_eq!(manager.outbound_session("room1").unwrap().1, i + 1);
    }
}

#[test]
fn repeated_encryption_gives_distinct_ciphertexts() {
    let mut manager = alice();
    manager.create_outbound_session("room1").unwrap();
    let mut seen: Vec<String> = Vec::new();
    for i in 0..12 {
        let content = if i % 2 == 0 { "same text" } else { "other text" };
        let envelope = manager.encrypt_message(content, "room1").unwrap();
        assert!(!seen.contains(&envelope.ciphertext));
        seen.push(envelope.ciphertext);
    }
}

#[test]
fn envelope_has_the_documented_shape() {
    let mut manager = alice();
    let session_id = manager.create_outbound_session("room1").unwrap();
    let envelope = manager.encrypt_message("hello", "room1").unwrap();
    assert_eq!(envelope.algorithm, "m.megolm.v1.aes-sha2");
    assert_eq!(envelope.algorithm, MEGOLM_ALGORITHM);
    assert!(!envelope.ciphertext.is_empty());
    assert!(is_lower_hex(&envelope.ciphertext));
    assert_eq!(envelope.sender_key.len(), 64);
    assert_eq!(envelope.sender_key, manager.get_device_keys().curve25519_key);
    assert_eq!(envelope.session_id, hex::encode(&session_id));
    assert_ne!(envelope.ciphertext, hex::encode("hello"));
}

#[test]
fn round_trip_returns_plaintext_and_sender_key() {
    let mut sender = alice();
    let mut receiver = bob();
    share(&mut sender, &mut receiver, "room1");
    let texts = ["hello", "", "second message", "günther ✓", "hello"];
    for (i, text) in texts.iter().enumerate() {
        let envelope = sender.encrypt_message(text, "room1").unwrap();
        let decrypted = receiver.decrypt_message(&envelope, "room1").unwrap();
        assert_eq!(decrypted.plaintext, *text);
        assert_eq!(decrypted.sender_key, sender.get_device_keys().curve25519_key);
        assert_eq!(decrypted.message_index, i as u32);
    }
}

#[test]
fn concrete_scenario_between_two_devices() {
    let mut first: Option<EncryptionManager> = None;
    let mut second: Option<EncryptionManager> = None;
    assert_eq!(
        feverdream_crypto::init_encryption(&mut first, "alice".to_string(), "DEV1".to_string()),
        Ok(())
    );
    assert_eq!(
        feverdream_crypto::init_encryption(&mut second, "bob".to_string(), "DEV2".to_string()),
        Ok(())
    );
    assert_eq!(
        feverdream_crypto::create_outbound_session(&mut first, "room1".to_string()),
        Ok(())
    );
    let exported = first.as_ref().unwrap().export_session_key("room1").unwrap();
    let envelope =
        feverdream_crypto::encrypt_message(&mut first, "hello".to_string(), "room1".to_string())
            .unwrap();
    assert_eq!(envelope.algorithm, "m.megolm.v1.aes-sha2");
    assert!(!envelope.ciphertext.is_empty());
    assert_eq!(envelope.sender_key.len(), 64);
    assert!(is_lower_hex(&envelope.sender_key));
    assert!(!envelope.session_id.is_empty());
    let session_id = hex::decode(&envelope.session_id).unwrap();
    assert_eq!(session_id, exported.session_id);
    assert_eq!(
        feverdream_crypto::admit_inbound_session(
            &mut second,
            "room1".to_string(),
            session_id,
            exported.key_material,
        ),
        Ok(())
    );
    let sender_key = envelope.sender_key.clone();
    let decrypted =
        feverdream_crypto::decrypt_message(&mut second, envelope, "room1".to_string()).unwrap();
    assert_eq!(decrypted.plaintext, "hello");
    assert_eq!(decrypted.sender_key, sender_key);
    assert_eq!(decrypted.message_index, 0);
}

#[test]
fn rotation_keeps_the_first_session_readable() {
    let mut sender = alice();
    let mut receiver = bob();
    let first_id = share(&mut sender, &mut receiver, "room1");
    let under_first = sender.encrypt_message("before rotation", "room1").unwrap();
    let second_id = sender.create_outbound_session("room1").unwrap();
    assert_ne!(first_id, second_id);
    let third_id = sender.create_outbound_session("room1").unwrap();
    assert_ne!(second_id, third_id);
    assert_eq!(sender.superseded_count("room1"), 2);
    assert_eq!(sender.outbound_session("room1"), Some((third_id, 0)));
    let decrypted = receiver.decrypt_message(&under_first, "room1").unwrap();
    assert_eq!(decrypted.plaintext, "before rotation");
}

#[test]
fn own_rotation_leaves_admitted_sessions_alone() {
    let mut device = alice();
    let session_id = device.create_outbound_session("room1").unwrap();
    let exported = device.export_session_key("room1").unwrap();
    device
        .admit_inbound_session("room1", &session_id, &exported.key_material)
        .unwrap();
    let envelope = device.encrypt_message("to myself", "room1").unwrap();
    device.create_outbound_session("room1").unwrap();
    device.create_outbound_session("room1").unwrap();
    assert!(device.has_inbound_session("room1", &session_id));
    let decrypted = device.decrypt_message(&envelope, "room1").unwrap();
    assert_eq!(decrypted.plaintext, "to myself");
    assert_eq!(device.expire_superseded("room1"), 2);
    assert!(device.has_inbound_session("room1", &session_id));
}

#[test]
fn expire_drops_only_superseded_sessions() {
    let mut manager = alice();
    assert_eq!(manager.expire_superseded("room1"), 0);
    manager.create_outbound_session("room1").unwrap();
    assert_eq!(manager.superseded_count("room1"), 0);
    manager.encrypt_message("one", "room1").unwrap();
    let current = manager.create_outbound_session("room1").unwrap();
    manager.create_outbound_session("room2").unwrap();
    manager.create_outbound_session("room2").unwrap();
    assert_eq!(manager.superseded_count("room1"), 1);
    assert_eq!(manager.superseded_count("room2"), 1);
    assert_eq!(manager.expire_superseded("room1"), 1);
    assert_eq!(manager.superseded_count("room1"), 0);
    assert_eq!(manager.superseded_count("room2"), 1);
    assert_eq!(manager.outbound_session("room1"), Some((current, 0)));
    assert!(manager.encrypt_message("two", "room1").is_ok());
    assert_eq!(manager.expire_superseded("room1"), 0);
}

#[test]
fn replay_is_rejected_the_second_time() {
    let mut sender = alice();
    let mut receiver = bob();
    share(&mut sender, &mut receiver, "room1");
    let envelope = sender.encrypt_message("once", "room1").unwrap();
    assert_eq!(
        receiver.decrypt_message(&envelope, "room1").unwrap().plaintext,
        "once"
    );
    assert_eq!(
        receiver.decrypt_message(&envelope, "room1").err(),
        Some(CryptoError::ReplayedMessage)
    );
    assert_eq!(
        receiver.decrypt_message(&envelope.clone(), "room1").err(),
        Some(CryptoError::ReplayedMessage)
    );
    let next = sender.encrypt_message("twice", "room1").unwrap();
    assert_eq!(
        receiver.decrypt_message(&next, "room1").unwrap().plaintext,
        "twice"
    );
}

#[test]
fn out_of_order_messages_are_accepted() {
    let mut sender = alice();
    let mut receiver = bob();
    share(&mut sender, &mut receiver, "room1");
    let zero = sender.encrypt_message("zero", "room1").unwrap();
    let one = sender.encrypt_message("one", "room1").unwrap();
    let two = sender.encrypt_message("two", "room1").unwrap();
    let got = receiver.decrypt_message(&two, "room1").unwrap();
    assert_eq!((got.plaintext.as_str(), got.message_index), ("two", 2));
    let got = receiver.decrypt_message(&zero, "room1").unwrap();
    assert_eq!((got.plaintext.as_str(), got.message_index), ("zero", 0));
    let got = receiver.decrypt_message(&one, "room1").unwrap();
    assert_eq!((got.plaintext.as_str(), got.message_index), ("one", 1));
    assert_eq!(
        receiver.decrypt_message(&zero, "room1").err(),
        Some(CryptoError::ReplayedMessage)
    );
}

#[test]
fn unknown_session_is_not_a_decryption_failure() {
    let mut sender = alice();
    let mut receiver = bob();
    sender.create_outbound_session("room1").unwrap();
    let envelope = sender.encrypt_message("hello", "room1").unwrap();
    assert_eq!(
        receiver.decrypt_message(&envelope, "room1").err(),
        Some(CryptoError::UnknownSession)
    );
    share(&mut sender, &mut receiver, "room2");
    assert_eq!(
        receiver.decrypt_message(&envelope, "room1").err(),
        Some(CryptoError::UnknownSession)
    );
    let other = sender.encrypt_message("hello", "room2").unwrap();
    assert_eq!(
        receiver.decrypt_message(&other, "room1").err(),
        Some(CryptoError::UnknownSession)
    );
    let mut garbled = other.clone();
    garbled.session_id = "not hex".to_string();
    garbled.algorithm = "other".to_string();
    assert_eq!(
        receiver.decrypt_message(&garbled, "room2").err(),
        Some(CryptoError::UnknownSession)
    );
    assert_eq!(
        receiver.decrypt_message(&other, "room2").unwrap().plaintext,
        "hello"
    );
}

#[test]
fn malformed_envelopes_are_refused() {
    let mut sender = alice();
    let mut receiver = bob();
    share(&mut sender, &mut receiver, "room1");
    let good = sender.encrypt_message("hello", "room1").unwrap();

    let mut wrong_algorithm = good.clone();
    wrong_algorithm.algorithm = "m.olm.v1".to_string();
    assert_eq!(
        receiver.decrypt_message(&wrong_algorithm, "room1").err(),
        Some(CryptoError::MalformedEnvelope)
    );

    let mut short_key = good.clone();
    short_key.sender_key = "abcd".to_string();
    assert_eq!(
        receiver.decrypt_message(&short_key, "room1").err(),
        Some(CryptoError::MalformedEnvelope)
    );

    let mut not_hex = good.clone();
    not_hex.ciphertext = "zz".to_string();
    assert_eq!(
        receiver.decrypt_message(&not_hex, "room1").err(),
        Some(CryptoError::MalformedEnvelope)
    );

    let mut odd = good.clone();
    odd.ciphertext.push('0');
    assert_eq!(
        receiver.decrypt_message(&odd, "room1").err(),
        Some(CryptoError::MalformedEnvelope)
    );

    let mut no_message = good.clone();
    no_message.ciphertext = "0102".to_string();
    assert_eq!(
        receiver.decrypt_message(&no_message, "room1").err(),
        Some(CryptoError::MalformedEnvelope)
    );

    let mut empty = good.clone();
    empty.ciphertext = String::new();
    assert_eq!(
        receiver.decrypt_message(&empty, "room1").err(),
        Some(CryptoError::MalformedEnvelope)
    );

    assert_eq!(
        receiver.decrypt_message(&good, "room1").unwrap().plaintext,
        "hello"
    );
}

#[test]
fn upper_case_hex_is_read() {
    let mut sender = alice();
    let mut receiver = bob();
    share(&mut sender, &mut receiver, "room1");
    let good = sender.encrypt_message("hello", "room1").unwrap();
    let shouted = EncryptedMessage {
        algorithm: good.algorithm.clone(),
        ciphertext: good.ciphertext.to_uppercase(),
        sender_key: good.sender_key.to_uppercase(),
        session_id: good.session_id.to_uppercase(),
    };
    let decrypted = receiver.decrypt_message(&shouted, "room1").unwrap();
    assert_eq!(decrypted.plaintext, "hello");
    assert_eq!(decrypted.sender_key, shouted.sender_key);
    assert_eq!(
        receiver.decrypt_message(&good, "room1").err(),
        Some(CryptoError::ReplayedMessage)
    );
}

#[test]
fn tampered_ciphertext_fails_and_leaves_no_trace() {
    let mut sender = alice();
    let mut receiver = bob();
    share(&mut sender, &mut receiver, "room1");
    let good = sender.encrypt_message("hello", "room1").unwrap();
    let mut bytes = hex::decode(&good.ciphertext).unwrap();
    let middle = bytes.len() / 2;
    bytes[middle] ^= 0x01;
    let mut tampered = good.clone();
    tampered.ciphertext = hex::encode(&bytes);
    assert_eq!(
        receiver.decrypt_message(&tampered, "room1").err(),
        Some(CryptoError::DecryptionFailed)
    );
    let decrypted: DecryptionResult = receiver.decrypt_message(&good, "room1").unwrap();
    assert_eq!(decrypted.plaintext, "hello");
}

#[test]
fn message_of_another_session_fails_decryption() {
    let mut sender = alice();
    let mut receiver = bob();
    share(&mut sender, &mut receiver, "room1");
    let first = sender.encrypt_message("under the first", "room1").unwrap();
    sender.create_outbound_session("room1").unwrap();
    let second = sender.encrypt_message("under the second", "room1").unwrap();
    let forged = EncryptedMessage {
        algorithm: second.algorithm.clone(),
        ciphertext: second.ciphertext.clone(),
        sender_key: second.sender_key.clone(),
        session_id: first.session_id.clone(),
    };
    assert_eq!(
        receiver.decrypt_message(&forged, "room1").err(),
        Some(CryptoError::DecryptionFailed)
    );
    assert_eq!(
        receiver.decrypt_message(&second, "room1").err(),
        Some(CryptoError::UnknownSession)
    );
    assert_eq!(
        receiver.decrypt_message(&first, "room1").unwrap().plaintext,
        "under the first"
    );
}

#[test]
fn key_shared_late_does_not_read_earlier_messages() {
    let mut sender = alice();
    let mut receiver = bob();
    let session_id = sender.create_outbound_session("room1").unwrap();
    let early = sender.encrypt_message("early", "room1").unwrap();
    let exported = sender.export_session_key_from_now("room1").unwrap();
    assert_eq!(exported.session_id, session_id);
    receiver
        .admit_inbound_session("room1", &session_id, &exported.key_material)
        .unwrap();
    let late = sender.encrypt_message("late", "room1").unwrap();
    assert_eq!(
        receiver.decrypt_message(&early, "room1").err(),
        Some(CryptoError::DecryptionFailed)
    );
    let decrypted = receiver.decrypt_message(&late, "room1").unwrap();
    assert_eq!(decrypted.plaintext, "late");
    assert_eq!(decrypted.message_index, 1);
}

#[test]
fn admission_errors() {
    let mut sender = alice();
    let mut receiver = bob();
    let session_id = sender.create_outbound_session("room1").unwrap();
    let exported = sender.export_session_key("room1").unwrap();
    assert_eq!(
        receiver.admit_inbound_session("", &session_id, &exported.key_material),
        Err(CryptoError::InvalidConversationId)
    );
    assert_eq!(
        receiver.admit_inbound_session("room1", &session_id, b"no key at all"),
        Err(CryptoError::InvalidKeyMaterial)
    );
    assert_eq!(
        receiver.admit_inbound_session("room1", &session_id, &[]),
        Err(CryptoError::InvalidKeyMaterial)
    );
    let mut broken = exported.key_material.clone();
    let last = broken.len() - 1;
    broken[last] ^= 0x40;
    assert_eq!(
        receiver.admit_inbound_session("room1", &session_id, &broken),
        Err(CryptoError::InvalidKeyMaterial)
    );
    assert_eq!(
        receiver.admit_inbound_session("room1", b"another identifier", &exported.key_material),
        Err(CryptoError::InvalidKeyMaterial)
    );
    assert!(!receiver.has_inbound_session("room1", &session_id));
    assert_eq!(
        receiver.admit_inbound_session("room1", &session_id, &exported.key_material),
        Ok(())
    );
    assert!(receiver.has_inbound_session("room1", &session_id));
    assert!(!receiver.has_inbound_session("room2", &session_id));
    assert_eq!(
        receiver.admit_inbound_session("room1", &session_id, &exported.key_material),
        Err(CryptoError::DuplicateSession)
    );
    assert_eq!(
        receiver.admit_inbound_session("room1", &session_id, b"no key at all"),
        Err(CryptoError::DuplicateSession)
    );
    assert_eq!(
        receiver.admit_inbound_session("room2", &session_id, &exported.key_material),
        Ok(())
    );
}

#[test]
fn duplicate_admission_does_not_reset_the_replay_record() {
    let mut sender = alice();
    let mut receiver = bob();
    let session_id = share(&mut sender, &mut receiver, "room1");
    let exported = sender.export_session_key("room1").unwrap();
    let envelope = sender.encrypt_message("once", "room1").unwrap();
    receiver.decrypt_message(&envelope, "room1").unwrap();
    assert_eq!(
        receiver.admit_inbound_session("room1", &session_id, &exported.key_material),
        Err(CryptoError::DuplicateSession)
    );
    assert_eq!(
        receiver.decrypt_message(&envelope, "room1").err(),
        Some(CryptoError::ReplayedMessage)
    );
}

#[test]
fn export_needs_a_session() {
    let mut manager = alice();
    assert_eq!(
        manager.export_session_key("room1").err(),
        Some(CryptoError::NoSession)
    );
    let session_id = manager.create_outbound_session("room1").unwrap();
    let exported = manager.export_session_key("room1").unwrap();
    assert_eq!(exported.session_id, session_id);
    assert_eq!(exported.key_material.len(), 229);
}

#[test]
fn conversations_are_kept_apart() {
    let mut sender = alice();
    let mut receiver = bob();
    let one = share(&mut sender, &mut receiver, "room1");
    let two = share(&mut sender, &mut receiver, "room2");
    assert_ne!(one, two);
    let first = sender.encrypt_message("for room one", "room1").unwrap();
    let second = sender.encrypt_message("for room two", "room2").unwrap();
    assert_eq!(first.session_id, hex::encode(&one));
    assert_eq!(second.session_id, hex::encode(&two));
    assert_eq!(sender.outbound_session("room1").unwrap().1, 1);
    assert_eq!(sender.outbound_session("room2").unwrap().1, 1);
    assert_eq!(
        receiver.decrypt_message(&second, "room2").unwrap().plaintext,
        "for room two"
    );
    assert_eq!(
        receiver.decrypt_message(&first, "room1").unwrap().plaintext,
        "for room one"
    );
}

#[test]
fn superseded_session_hands_out_its_key_until_expired() {
    let mut sender = alice();
    let mut receiver = bob();
    let first = sender.create_outbound_session("room1").unwrap();
    sender.encrypt_message("zero", "room1").unwrap();
    let late = sender.encrypt_message("one", "room1").unwrap();
    let second = sender.create_outbound_session("room1").unwrap();
    let third = sender.create_outbound_session("room1").unwrap();

    let exported = sender.export_session_key_of("room1", &first).unwrap();
    assert_eq!(exported.session_id, first);
    assert_eq!(
        receiver.admit_inbound_session("room1", &first, &exported.key_material),
        Ok(())
    );
    assert_eq!(
        receiver.decrypt_message(&late, "room1").err(),
        Some(CryptoError::DecryptionFailed)
    );
    assert_eq!(
        sender.export_session_key_of("room1", &second).unwrap().session_id,
        second
    );
    assert_eq!(
        sender.export_session_key_of("room1", &third).unwrap().session_id,
        third
    );
    assert_eq!(
        sender.export_session_key_of("room1", b"no such session").err(),
        Some(CryptoError::NoSession)
    );
    assert_eq!(
        sender.export_session_key_of("room2", &first).err(),
        Some(CryptoError::NoSession)
    );
    assert_eq!(sender.expire_superseded("room1"), 2);
    assert_eq!(
        sender.export_session_key_of("room1", &first).err(),
        Some(CryptoError::NoSession)
    );
    assert_eq!(
        sender.export_session_key_of("room1", &second).err(),
        Some(CryptoError::NoSession)
    );
    assert!(sender.export_session_key_of("room1", &third).is_ok());
}

#[test]
fn genesis_key_reads_every_message_of_the_session() {
    let mut sender = alice();
    let mut receiver = bob();
    let session_id = sender.create_outbound_session("room1").unwrap();
    let zero = sender.encrypt_message("zero", "room1").unwrap();
    let one = sender.encrypt_message("one", "room1").unwrap();
    let exported = sender.export_session_key("room1").unwrap();
    assert_eq!(exported.session_id, session_id);
    assert_eq!(
        receiver.admit_inbound_session("room1", &session_id, &exported.key_material),
        Ok(())
    );
    let two = sender.encrypt_message("two", "room1").unwrap();
    let got = receiver.decrypt_message(&one, "room1").unwrap();
    assert_eq!((got.plaintext.as_str(), got.message_index), ("one", 1));
    let got = receiver.decrypt_message(&two, "room1").unwrap();
    assert_eq!((got.plaintext.as_str(), got.message_index), ("two", 2));
    let got = receiver.decrypt_message(&zero, "room1").unwrap();
    assert_eq!((got.plaintext.as_str(), got.message_index), ("zero", 0));
    assert_eq!(got.sender_key, sender.get_device_keys().curve25519_key);
}

#[test]
fn genesis_key_does_not_change() {
    let mut sender = alice();
    sender.create_outbound_session("room1").unwrap();
    let at_start = sender.export_session_key("room1").unwrap();
    sender.encrypt_message("zero", "room1").unwrap();
    sender.encrypt_message("one", "room1").unwrap();
    let later = sender.export_session_key("room1").unwrap();
    assert_eq!(at_start.key_material, later.key_material);
    assert_eq!(at_start.session_id, later.session_id);
    let from_now = sender.export_session_key_from_now("room1").unwrap();
    assert_ne!(from_now.key_material, later.key_material);
    assert_eq!(from_now.session_id, later.session_id);
    sender.create_outbound_session("room1").unwrap();
    let rotated = sender.export_session_key("room1").unwrap();
    assert_ne!(rotated.key_material, later.key_material);
    assert_ne!(rotated.session_id, later.session_id);
}

#[test]
fn session_identifier_and_ciphertext_are_not_empty() {
    let mut manager = alice();
    let session_id = manager.create_outbound_session("room1").unwrap();
    assert_eq!(session_id.len(), 43);
    let envelope = manager.encrypt_message("", "room1").unwrap();
    assert!(!envelope.ciphertext.is_empty());
    assert_eq!(envelope.session_id.len(), 86);
    assert_eq!(envelope.sender_key.len(), 64);
}

#[test]
fn empty_text_is_encrypted_as_empty_text() {
    let mut sender = alice();
    let mut receiver = bob();
    share(&mut sender, &mut receiver, "room1");
    let empty = sender.encrypt_message("", "room1").unwrap();
    let full = sender.encrypt_message("not empty", "room1").unwrap();
    assert_eq!(receiver.decrypt_message(&full, "room1").unwrap().plaintext, "not empty");
    assert_eq!(receiver.decrypt_message(&empty, "room1").unwrap().plaintext, "");
}
