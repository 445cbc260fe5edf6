//! The cryptographic primitives that the engine builds on, each reached
//! through a thin wrapper over the crate that implements it.
//!
//! A wrapper's result is named by a spec function of the wrapper's arguments;
//! beside the name stand only the facts that the callers rely on.

use vstd::prelude::*;

use crate::bytes::{array12, array32};

use blake2::Digest;
use chacha20poly1305::aead::Aead;
use chacha20poly1305::aead::KeyInit;
use ed25519_dalek::Signer;
use ed25519_dalek::Verifier;
use rand::RngCore;

verus! {

/// The 64-byte BLAKE2b digest of `data`.
pub uninterp spec fn blake2b512(data: Seq<u8>) -> Seq<u8>;

/// The X25519 public key of a 32-byte secret.
pub uninterp spec fn x25519_public(secret: Seq<u8>) -> Seq<u8>;

/// The X25519 shared secret of a 32-byte secret and a peer's public key.
pub uninterp spec fn x25519_shared(secret: Seq<u8>, public: Seq<u8>) -> Seq<u8>;

/// The Ed25519 public key of a 32-byte seed.
pub uninterp spec fn ed25519_public(seed: Seq<u8>) -> Seq<u8>;

/// The Ed25519 signature of `message` under a 32-byte seed.
pub uninterp spec fn ed25519_signature(seed: Seq<u8>, message: Seq<u8>) -> Seq<u8>;

/// Whether 32 bytes are the encoding of an Ed25519 public key.
pub uninterp spec fn ed25519_is_key(key: Seq<u8>) -> bool;

/// What Ed25519 verification says against `signature` on `message` under `key`;
/// `None` if it accepts.
pub uninterp spec fn ed25519_refusal(
    key: Seq<u8>,
    message: Seq<u8>,
    signature: Seq<u8>,
) -> Option<Seq<char>>;

/// Whether `key` is a public key and accepts `signature` on `message`.
pub open spec fn ed25519_accepts(key: Seq<u8>, message: Seq<u8>, signature: Seq<u8>) -> bool {
    ed25519_is_key(key) && ed25519_refusal(key, message, signature) is None
}

/// What ChaCha20-Poly1305 encryption makes of `message`: ciphertext, then tag.
pub uninterp spec fn chacha_sealed(
    key: Seq<u8>,
    nonce: Seq<u8>,
    associated_data: Seq<u8>,
    message: Seq<u8>,
) -> Seq<u8>;

/// What ChaCha20-Poly1305 decryption makes of `sealed`; `None` if the tag does
/// not match.
pub uninterp spec fn chacha_opened(
    key: Seq<u8>,
    nonce: Seq<u8>,
    associated_data: Seq<u8>,
    sealed: Seq<u8>,
) -> Option<Seq<u8>>;

/// The first `length` bytes that HKDF-SHA256 derives.
pub uninterp spec fn hkdf_sha256(
    salt: Seq<u8>,
    ikm: Seq<u8>,
    info: Seq<u8>,
    length: nat,
) -> Seq<u8>;

/// The number that the bytes of `bytes` from place `from` on stand for, the least
/// significant byte first.
pub open spec fn le_value(bytes: Seq<u8>, from: int) -> nat
    decreases bytes.len() - from,
{
    if 0 <= from < bytes.len() {
        bytes[from] as nat + 256 * le_value(bytes, from + 1)
    } else {
        0
    }
}

/// The coordinate that an X25519 public key encodes: its number without the top
/// bit, that is modulo 2^255, taken modulo the prime 2^255 - 19. Several byte
/// strings may encode one coordinate.
pub open spec fn x25519_coordinate(key: Seq<u8>) -> nat {
    le_value(key, 0) % 0x8000000000000000000000000000000000000000000000000000000000000000nat
        % 0x7fffffffffffffffffffffffffffffffffffffffffffffffffffffffffffffednat
}

/// Whether two byte strings encode the same X25519 public key.
pub open spec fn is_same_key(left: Seq<u8>, right: Seq<u8>) -> bool {
    x25519_coordinate(left) == x25519_coordinate(right)
}

/// The ciphertext is the sealing of the message: as long as the message and the
/// tag, and what encryption makes of the message.
pub open spec fn is_sealing(
    key: Seq<u8>,
    nonce: Seq<u8>,
    associated_data: Seq<u8>,
    message: Seq<u8>,
    sealed: Seq<u8>,
) -> bool {
    &&& message.len() + 16 == sealed.len()
    &&& cipher_accepts_length(message.len() as int)
    &&& sealed == chacha_sealed(key, nonce, associated_data, message)
}

/// The length of a message is within what one ChaCha20 nonce can encrypt: fewer
/// than 2^32 - 1 whole blocks of 64 bytes.
pub open spec fn cipher_accepts_length(length: int) -> bool {
    length / 64 < 0xffff_ffff
}

/// The lengths that pass the cipher's own test but need one block more than the
/// key stream has; the cipher panics on them.
pub open spec fn cipher_exhausted_by(length: int) -> bool {
    64 * 0xffff_fffe < length < 64 * 0xffff_ffff
}

/// The error of the ChaCha20-Poly1305 cipher.
#[verifier::external_type_specification]
#[verifier::external_body]
pub struct ExAeadError(chacha20poly1305::aead::Error);

/// `rand::thread_rng().fill_bytes` on as many bytes as are asked for. Nothing is
/// claimed of the bytes: they are random.
#[verifier::external_body]
fn random_bytes(length: usize) -> (bytes: Vec<u8>)
    ensures
        bytes@.len() == length,
{
    let mut bytes = vec![0u8; length];
    rand::thread_rng().fill_bytes(&mut bytes);
    bytes
}

/// Draws 32 random bytes.
pub(crate) fn random_32() -> (bytes: [u8; 32]) {
    array32(&random_bytes(32), 0)
}

/// Draws 12 random bytes.
pub(crate) fn random_12() -> (bytes: [u8; 12]) {
    array12(&random_bytes(12))
}

/// `blake2::Blake2b512`, fed with `data` once. The digest is a function of the
/// data and has 64 bytes.
#[verifier::external_body]
pub(crate) fn blake2b(data: &[u8]) -> (digest: [u8; 64])
    ensures
        digest@ == blake2b512(data@),
{
    let mut hasher = blake2::Blake2b512::new();
    hasher.update(data);
    hasher.finalize().into()
}

/// `x25519_dalek::PublicKey::from` on the `StaticSecret` that holds `secret`.
#[verifier::external_body]
pub(crate) fn public_of_secret(secret: &[u8; 32]) -> (public: [u8; 32])
    ensures
        public@ == x25519_public(secret@),
{
    x25519_dalek::PublicKey::from(&x25519_dalek::StaticSecret::from(*secret)).to_bytes()
}

/// `x25519_dalek::StaticSecret::diffie_hellman`. Where `public` is the public
/// key of another secret, that secret and the public key of `secret` give the
/// same result: scalar multiplication on the curve commutes.
#[verifier::external_body]
pub(crate) fn diffie_hellman(secret: &[u8; 32], public: &[u8; 32]) -> (shared: [u8; 32])
    ensures
        shared@ == x25519_shared(secret@, public@),
        forall|peer: Seq<u8>|
            peer.len() == 32 && public@ == #[trigger] x25519_public(peer) ==> shared@
                == x25519_shared(peer, x25519_public(secret@)),
{
    let secret = x25519_dalek::StaticSecret::from(*secret);
    secret.diffie_hellman(&x25519_dalek::PublicKey::from(*public)).to_bytes()
}

/// `x25519_dalek::PublicKey`'s `==`: the keys are the same where they encode the
/// same coordinate, whatever their bytes.
#[verifier::external_body]
pub(crate) fn same_public_key(left: &[u8; 32], right: &[u8; 32]) -> (same: bool)
    ensures
        same == is_same_key(left@, right@),
{
    x25519_dalek::PublicKey::from(*left) == x25519_dalek::PublicKey::from(*right)
}

/// `ed25519_dalek::SigningKey::verifying_key` of the key made from `seed`. The
/// result always decodes as a public key.
#[verifier::external_body]
pub(crate) fn identity_of_seed(seed: &[u8; 32]) -> (key: [u8; 32])
    ensures
        key@ == ed25519_public(seed@),
        ed25519_is_key(key@),
{
    ed25519_dalek::SigningKey::from_bytes(seed).verifying_key().to_bytes()
}

/// `ed25519_dalek::SigningKey::sign`. Signing is deterministic, and the public
/// key of the seed accepts the signature.
#[verifier::external_body]
pub(crate) fn sign(seed: &[u8; 32], message: &[u8]) -> (signature: [u8; 64])
    ensures
        signature@ == ed25519_signature(seed@, message@),
        ed25519_accepts(ed25519_public(seed@), message@, signature@),
{
    ed25519_dalek::SigningKey::from_bytes(seed).sign(message).to_bytes()
}

/// `ed25519_dalek::VerifyingKey::from_bytes`: whether it takes the bytes.
#[verifier::external_body]
pub(crate) fn is_identity_key(key: &[u8; 32]) -> (valid: bool)
    ensures
        valid == ed25519_is_key(key@),
{
    ed25519_dalek::VerifyingKey::from_bytes(key).is_ok()
}

/// `ed25519_dalek::VerifyingKey::verify`: the text of its error, or `None` where
/// it accepts the signature.
#[verifier::external_body]
pub(crate) fn refusal(key: &[u8; 32], message: &[u8], signature: &[u8; 64]) -> (refused: Option<
    String,
>)
    requires
        ed25519_is_key(key@),
    ensures
        match refused {
            Some(text) => ed25519_refusal(key@, message@, signature@) == Some(text@),
            None => ed25519_refusal(key@, message@, signature@) is None,
        },
{
    let key = ed25519_dalek::VerifyingKey::from_bytes(key).unwrap();
    match key.verify(message, &ed25519_dalek::Signature::from_bytes(signature)) {
        Ok(()) => None,
        Err(error) => Some(error.to_string()),
    }
}

/// `chacha20poly1305::ChaCha20Poly1305::encrypt`. It succeeds on exactly the
/// lengths that one nonce can encrypt, the result is 16 bytes longer than the
/// message, and decryption gives the message back.
#[verifier::external_body]
pub(crate) fn chacha_encrypt(
    key: &[u8; 32],
    nonce: &[u8; 12],
    associated_data: &[u8],
    message: &[u8],
) -> (sealed: Result<Vec<u8>, chacha20poly1305::aead::Error>)
    requires
        !cipher_exhausted_by(message@.len() as int),
    ensures
        sealed is Ok <==> cipher_accepts_length(message@.len() as int),
        sealed matches Ok(bytes) ==> {
            &&& bytes@ == chacha_sealed(key@, nonce@, associated_data@, message@)
            &&& bytes@.len() == message@.len() + 16
            &&& chacha_opened(key@, nonce@, associated_data@, bytes@) == Some(message@)
        },
{
    let cipher = chacha20poly1305::ChaCha20Poly1305::new(key.into());
    let payload = chacha20poly1305::aead::Payload { msg: message, aad: associated_data };
    cipher.encrypt(chacha20poly1305::Nonce::from_slice(nonce), payload)
}

/// `chacha20poly1305::ChaCha20Poly1305::decrypt`. The result is a function of
/// the arguments. It accepts exactly the sealings of some message, and returns
/// that message; a text shorter than the tag is the sealing of none.
#[verifier::external_body]
pub(crate) fn chacha_decrypt(
    key: &[u8; 32],
    nonce: &[u8; 12],
    associated_data: &[u8],
    sealed: &[u8],
) -> (opened: Result<Vec<u8>, chacha20poly1305::aead::Error>)
    requires
        !cipher_exhausted_by(sealed@.len() - 16),
    ensures
        match opened {
            Ok(message) => {
                &&& chacha_opened(key@, nonce@, associated_data@, sealed@) == Some(message@)
                &&& is_sealing(key@, nonce@, associated_data@, message@, sealed@)
                &&& forall|other: Seq<u8>| #[trigger]
                    is_sealing(key@, nonce@, associated_data@, other, sealed@) ==> other
                        == message@
            },
            Err(_) => {
                &&& chacha_opened(key@, nonce@, associated_data@, sealed@) is None
                &&& forall|other: Seq<u8>|
                    !#[trigger] is_sealing(key@, nonce@, associated_data@, other, sealed@)
            },
        },
{
    let cipher = chacha20poly1305::ChaCha20Poly1305::new(key.into());
    let payload = chacha20poly1305::aead::Payload { msg: sealed, aad: associated_data };
    cipher.decrypt(chacha20poly1305::Nonce::from_slice(nonce), payload)
}

/// `hkdf::Hkdf::<sha2::Sha256>::new` with a salt, then `expand` to `length`
/// bytes. It refuses more than 255 hash lengths, which `requires` leaves out.
#[verifier::external_body]
pub(crate) fn hkdf(salt: &[u8], ikm: &[u8], info: &[u8], length: usize) -> (okm: Vec<u8>)
    requires
        length <= 255 * 32,
    ensures
        okm@ == hkdf_sha256(salt@, ikm@, info@, length as nat),
        okm@.len() == length,
{
    let mut okm = vec![0u8; length];
    hkdf::Hkdf::<sha2::Sha256>::new(Some(salt), ikm).expand(info, &mut okm).unwrap();
    okm
}

} // verus!
