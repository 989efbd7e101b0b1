use wish_protocol::crypto::{
    build_nonce, decrypt_message, derive_session_key, encrypt_message, generate_ephemeral_key, get_public_key, zeroize_key,
};
use wish_protocol::error::ProtocolError;

#[test]
fn test_key_exchange_and_encryption() {
    let (alice_secret, alice_public) = generate_ephemeral_key();
    let (bob_secret, bob_public) = generate_ephemeral_key();

    let alice_session_key = derive_session_key(&alice_secret, &bob_public, "alice-12345678", "bob-87654321").unwrap();

    let bob_session_key = derive_session_key(&bob_secret, &alice_public, "alice-12345678", "bob-87654321").unwrap();

    assert_eq!(alice_session_key, bob_session_key);

    let message = b"Hello, Wish Protocol!";
    let counter = 1;
    let timestamp = 1234567890;
    let aad = b"\x02alice-12345678bob-87654321";

    let ciphertext = encrypt_message(&alice_session_key, counter, timestamp, message, aad).unwrap();

    let decrypted = decrypt_message(&bob_session_key, counter, timestamp, &ciphertext, aad).unwrap();

    assert_eq!(message.to_vec(), decrypted);
}

#[test]
fn test_decrypt_failure_with_wrong_key() {
    let (alice_secret, alice_public) = generate_ephemeral_key();
    let (bob_secret, _bob_public) = generate_ephemeral_key();
    let (_charlie_secret, charlie_public) = generate_ephemeral_key();

    let alice_session_key = derive_session_key(&alice_secret, &charlie_public, "alice", "charlie").unwrap();

    let bob_session_key = derive_session_key(&bob_secret, &alice_public, "alice", "bob").unwrap();

    let message = b"Secret";
    let counter = 1;
    let timestamp = 100;
    let aad = b"\x02";

    let ciphertext = encrypt_message(&alice_session_key, counter, timestamp, message, aad).unwrap();
    let result = decrypt_message(&bob_session_key, counter, timestamp, &ciphertext, aad);

    assert!(result.is_err());
}

#[test]
fn test_aad_mismatch_fails() {
    let (alice_secret, _alice_public) = generate_ephemeral_key();
    let (_bob_secret, bob_public) = generate_ephemeral_key();

    let session_key = derive_session_key(&alice_secret, &bob_public, "alice", "bob").unwrap();

    let message = b"Secret";
    let counter = 1;
    let timestamp = 100;

    let ciphertext = encrypt_message(&session_key, counter, timestamp, message, b"correct_aad").unwrap();
    let result = decrypt_message(&session_key, counter, timestamp, &ciphertext, b"wrong_aad");

    assert!(result.is_err());
}

#[test]
fn nonce_layout() {
    let n = build_nonce(0x01020304, 0x0a0b0c0d);
    assert_eq!(n, [0, 0, 0, 0, 1, 2, 3, 4, 0x0a, 0x0b, 0x0c, 0x0d]);
}

#[test]
fn zeroize_clears_the_key() {
    let mut key = [7u8; 32];
    zeroize_key(&mut key);
    assert_eq!(key, [0u8; 32]);
}

#[test]
fn public_key_matches_generated_pair() {
    let (secret, public) = generate_ephemeral_key();
    assert_eq!(get_public_key(&secret), public);
    assert_ne!(public, secret);
}

#[test]
fn key_derivation_depends_on_role_order() {
    let (a, a_pub) = generate_ephemeral_key();
    let (b, b_pub) = generate_ephemeral_key();
    let k1 = derive_session_key(&a, &b_pub, "alice", "bob").unwrap();
    let k2 = derive_session_key(&b, &a_pub, "bob", "alice").unwrap();
    assert_ne!(k1, k2);
    let k3 = derive_session_key(&b, &a_pub, "alice", "bob").unwrap();
    assert_eq!(k1, k3);
}

#[test]
fn sealing_adds_the_tag_and_changes_the_bytes() {
    let key = [9u8; 32];
    let msg = b"attack at dawn";
    let ct = encrypt_message(&key, 5, 6, msg, b"ad").unwrap();
    assert_eq!(ct.len(), msg.len() + 16);
    assert_ne!(&ct[..msg.len()], &msg[..]);
    assert_eq!(decrypt_message(&key, 5, 6, &ct, b"ad").unwrap(), msg.to_vec());
    assert_eq!(decrypt_message(&key, 5, 7, &ct, b"ad"), Err(ProtocolError::AeadAuthFailed));
    assert_eq!(decrypt_message(&key, 4, 6, &ct, b"ad"), Err(ProtocolError::AeadAuthFailed));
    let mut flipped = ct.clone();
    flipped[0] ^= 1;
    assert_eq!(decrypt_message(&key, 5, 6, &flipped, b"ad"), Err(ProtocolError::AeadAuthFailed));
    assert_eq!(decrypt_message(&key, 5, 6, &ct[..10], b"ad"), Err(ProtocolError::AeadAuthFailed));
}

#[test]
fn known_answer_of_session_key_is_stable() {
    let a = [1u8; 32];
    let b = [2u8; 32];
    let b_pub = get_public_key(&b);
    let a_pub = get_public_key(&a);
    let k1 = derive_session_key(&a, &b_pub, "r", "s").unwrap();
    let k2 = derive_session_key(&a, &b_pub, "r", "s").unwrap();
    let k3 = derive_session_key(&b, &a_pub, "r", "s").unwrap();
    assert_eq!(k1, k2);
    assert_eq!(k1, k3);
    assert_ne!(k1, [0u8; 32]);
}
