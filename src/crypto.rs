use vstd::prelude::*;
use aes_gcm::aead::{Aead, KeyInit, Payload};
use crate::bytes::{be32_bytes, u32_to_be};
use crate::error::ProtocolError;

verus! {

/// Longest plaintext, and longest associated data, that AES-256-GCM takes.
pub const AEAD_MAX_INPUT: u64 = 68719476736;

/// Bytes that sealing adds: the authentication tag.
pub const AEAD_TAG_LEN: usize = 16;

/// The X25519 public key of a 32-byte secret.
pub uninterp spec fn x25519_public_of(secret: Seq<u8>) -> Seq<u8>;

/// The X25519 shared secret of a secret and a peer's public key.
pub uninterp spec fn x25519_shared_of(secret: Seq<u8>, public: Seq<u8>) -> Seq<u8>;

/// 32 bytes of HKDF-SHA256 output key material.
pub uninterp spec fn hkdf_sha256_okm32(salt: Seq<u8>, ikm: Seq<u8>, info: Seq<u8>) -> Seq<u8>;

/// AES-256-GCM ciphertext with its tag.
pub uninterp spec fn aes256gcm_sealed(key: Seq<u8>, nonce: Seq<u8>, aad: Seq<u8>, msg: Seq<u8>) -> Seq<u8>;

/// What AES-256-GCM decryption gives: the plaintext, or nothing when the tag
/// does not verify.
pub uninterp spec fn aes256gcm_opened(key: Seq<u8>, nonce: Seq<u8>, aad: Seq<u8>, ct: Seq<u8>) -> Option<Seq<u8>>;

/// Relies on x25519_dalek's `StaticSecret::random_from_rng` over rand's
/// `OsRng`: 32 fresh random bytes, of which nothing is promised.
#[verifier::external_body]
fn random_secret() -> (r: [u8; 32]) {
    x25519_dalek::StaticSecret::random_from_rng(rand::rngs::OsRng).to_bytes()
}

/// Relies on x25519_dalek's `PublicKey::from(&StaticSecret)`: the public key
/// depends on the secret alone, and Diffie-Hellman from either end of two
/// key pairs gives the same shared secret.
#[verifier::external_body]
fn x25519_public(secret: &[u8; 32]) -> (r: [u8; 32])
    ensures
        r@ == x25519_public_of(secret@),
        forall|t: Seq<u8>|
            t.len() == 32 ==> #[trigger] x25519_shared_of(secret@, x25519_public_of(t))
                == x25519_shared_of(t, r@),
{
    x25519_dalek::PublicKey::from(&x25519_dalek::StaticSecret::from(*secret)).to_bytes()
}

/// Relies on x25519_dalek's `StaticSecret::diffie_hellman`: the shared secret
/// depends on the two keys alone.
#[verifier::external_body]
fn x25519_shared(secret: &[u8; 32], public: &[u8; 32]) -> (r: [u8; 32])
    ensures
        r@ == x25519_shared_of(secret@, public@),
{
    x25519_dalek::StaticSecret::from(*secret).diffie_hellman(
        &x25519_dalek::PublicKey::from(*public),
    ).to_bytes()
}

/// Relies on hkdf's `Hkdf::<Sha256>::new` (extract) and `expand`: expansion
/// fails only beyond 255 hash blocks, so 32 bytes always come out.
#[verifier::external_body]
fn hkdf_sha256(salt: &[u8], ikm: &[u8; 32], info: &[u8]) -> (r: Option<[u8; 32]>)
    ensures
        r is Some,
        r is Some ==> r->Some_0@ == hkdf_sha256_okm32(salt@, ikm@, info@),
{
    let mut okm = [0u8; 32];
    hkdf::Hkdf::<sha2::Sha256>::new(Some(salt), ikm).expand(info, &mut okm).ok().map(|_| okm)
}

/// Relies on aes_gcm's `Aead::encrypt` for `Aes256Gcm`: it fails only when
/// the plaintext or the associated data is longer than 2^36 bytes; the
/// ciphertext is the plaintext's length plus the tag, and decrypting it with
/// the same key, nonce and associated data gives the plaintext back.
#[verifier::external_body]
fn aes256gcm_encrypt(key: &[u8; 32], nonce: &[u8; 12], msg: &[u8], aad: &[u8]) -> (r: Option<Vec<u8>>)
    ensures
        r is Some <==> (msg@.len() <= AEAD_MAX_INPUT && aad@.len() <= AEAD_MAX_INPUT),
        r matches Some(c) ==> c@ == aes256gcm_sealed(key@, nonce@, aad@, msg@),
        r matches Some(c) ==> c@.len() == msg@.len() + AEAD_TAG_LEN,
        r matches Some(c) ==> aes256gcm_opened(key@, nonce@, aad@, c@) == Some(msg@),
{
    let cipher = aes_gcm::Aes256Gcm::new(key.into());
    cipher.encrypt(aes_gcm::Nonce::from_slice(nonce), Payload { msg, aad }).ok()
}

/// Relies on aes_gcm's `Aead::decrypt` for `Aes256Gcm`: the plaintext when
/// the tag verifies under the key, nonce and associated data, else nothing.
#[verifier::external_body]
fn aes256gcm_decrypt(key: &[u8; 32], nonce: &[u8; 12], ct: &[u8], aad: &[u8]) -> (r: Option<Vec<u8>>)
    ensures
        r is Some <==> aes256gcm_opened(key@, nonce@, aad@, ct@) is Some,
        r matches Some(p) ==> aes256gcm_opened(key@, nonce@, aad@, ct@) == Some(p@),
{
    let cipher = aes_gcm::Aes256Gcm::new(key.into());
    cipher.decrypt(aes_gcm::Nonce::from_slice(nonce), Payload { msg: ct, aad }).ok()
}

/// A secret with its public key, as key generation hands them out: the
/// public key is the secret's, and agreement with any other pair is symmetric.
pub open spec fn is_key_pair(secret: Seq<u8>, public: Seq<u8>) -> bool {
    &&& public == x25519_public_of(secret)
    &&& forall|t: Seq<u8>|
        t.len() == 32 ==> #[trigger] x25519_shared_of(secret, x25519_public_of(t))
            == x25519_shared_of(t, public)
}

/// Salt of the session-key derivation.
pub open spec fn session_key_salt() -> Seq<u8> {
    vstd::utf8::encode_utf8("WishProtocol-v2.0-SessionKey"@)
}

/// The session key: HKDF-SHA256 over the shared secret, with the requester's
/// id followed by the responder's as info, whichever side computes it.
pub open spec fn session_key_spec(
    secret: Seq<u8>,
    peer_public: Seq<u8>,
    requester_id: Seq<char>,
    responder_id: Seq<char>,
) -> Seq<u8> {
    hkdf_sha256_okm32(
        session_key_salt(),
        x25519_shared_of(secret, peer_public),
        vstd::utf8::encode_utf8(requester_id) + vstd::utf8::encode_utf8(responder_id),
    )
}

/// The nonce of a sealed frame: the counter widened to eight big-endian
/// bytes, then the timestamp as four.
pub open spec fn nonce_spec(counter: u32, timestamp: u32) -> Seq<u8> {
    seq![0u8, 0u8, 0u8, 0u8] + be32_bytes(counter) + be32_bytes(timestamp)
}

/// A key buffer after zeroing.
pub open spec fn zero_key() -> Seq<u8> {
    Seq::new(32, |_i: int| 0u8)
}

/// A fresh ephemeral key pair: the secret, then its public key.
pub fn generate_ephemeral_key() -> (r: ([u8; 32], [u8; 32]))
    ensures
        is_key_pair(r.0@, r.1@),
{
    let secret = random_secret();
    let public = x25519_public(&secret);
    (secret, public)
}

pub fn get_public_key(secret: &[u8; 32]) -> (r: [u8; 32])
    ensures
        is_key_pair(secret@, r@),
{
    x25519_public(secret)
}

pub fn derive_session_key(
    my_private: &[u8; 32],
    peer_public: &[u8; 32],
    requester_id: &str,
    responder_id: &str,
) -> (r: Result<[u8; 32], ProtocolError>)
    ensures
        r matches Ok(k) && k@ == session_key_spec(my_private@, peer_public@, requester_id@, responder_id@),
{
    let shared = x25519_shared(my_private, peer_public);
    let mut info: Vec<u8> = Vec::new();
    crate::bytes::append_bytes(&mut info, requester_id.as_bytes());
    crate::bytes::append_bytes(&mut info, responder_id.as_bytes());
    let salt = "WishProtocol-v2.0-SessionKey".as_bytes();
    match hkdf_sha256(salt, &shared, info.as_slice()) {
        Some(k) => Ok(k),
        None => Err(ProtocolError::KeyAgreementFailed),
    }
}

pub fn build_nonce(counter: u32, timestamp: u32) -> (r: [u8; 12])
    ensures
        r@ == nonce_spec(counter, timestamp),
{
    let c = u32_to_be(counter);
    let t = u32_to_be(timestamp);
    let r = [0u8, 0u8, 0u8, 0u8, c[0], c[1], c[2], c[3], t[0], t[1], t[2], t[3]];
    assert(r@ =~= nonce_spec(counter, timestamp));
    r
}

pub fn encrypt_message(
    session_key: &[u8; 32],
    counter: u32,
    timestamp: u32,
    message: &[u8],
    aad: &[u8],
) -> (r: Result<Vec<u8>, ProtocolError>)
    ensures
        r is Ok <==> (message@.len() <= AEAD_MAX_INPUT && aad@.len() <= AEAD_MAX_INPUT),
        r is Err ==> r == Err::<Vec<u8>, ProtocolError>(ProtocolError::SizeViolation),
        r matches Ok(c) ==> c@ == aes256gcm_sealed(session_key@, nonce_spec(counter, timestamp), aad@, message@),
        r matches Ok(c) ==> c@.len() == message@.len() + AEAD_TAG_LEN,
        r matches Ok(c) ==> aes256gcm_opened(session_key@, nonce_spec(counter, timestamp), aad@, c@)
            == Some(message@),
{
    let nonce = build_nonce(counter, timestamp);
    match aes256gcm_encrypt(session_key, &nonce, message, aad) {
        Some(c) => Ok(c),
        None => Err(ProtocolError::SizeViolation),
    }
}

pub fn decrypt_message(
    session_key: &[u8; 32],
    counter: u32,
    timestamp: u32,
    ciphertext: &[u8],
    aad: &[u8],
) -> (r: Result<Vec<u8>, ProtocolError>)
    ensures
        match aes256gcm_opened(session_key@, nonce_spec(counter, timestamp), aad@, ciphertext@) {
            Some(p) => r matches Ok(v) && v@ == p,
            None => r == Err::<Vec<u8>, ProtocolError>(ProtocolError::AeadAuthFailed),
        },
{
    let nonce = build_nonce(counter, timestamp);
    match aes256gcm_decrypt(session_key, &nonce, ciphertext, aad) {
        Some(p) => Ok(p),
        None => Err(ProtocolError::AeadAuthFailed),
    }
}

pub fn zeroize_key(key: &mut [u8; 32])
    ensures
        final(key)@ == zero_key(),
{
    *key = [0u8; 32];
    assert(key@ =~= zero_key());
}

/// Two peers that agree on which of them requested derive the same session
/// key from any two key pairs.
pub proof fn lemma_session_key_symmetry(
    a_secret: Seq<u8>,
    a_public: Seq<u8>,
    b_secret: Seq<u8>,
    b_public: Seq<u8>,
    requester_id: Seq<char>,
    responder_id: Seq<char>,
)
    requires
        a_secret.len() == 32,
        b_secret.len() == 32,
        is_key_pair(a_secret, a_public),
        is_key_pair(b_secret, b_public),
    ensures
        session_key_spec(a_secret, b_public, requester_id, responder_id)
            == session_key_spec(b_secret, a_public, requester_id, responder_id),
{
    assert(x25519_shared_of(a_secret, x25519_public_of(b_secret)) == x25519_shared_of(b_secret, a_public));
}

} // verus!
