//! Identity keys, symmetric encryption and the errors of the cryptographic
//! layer. The double ratchet is in `ratchet`.

use vstd::prelude::*;

use crate::bytes::{append_bytes, append_text, array32, utf8};
use crate::primitives::{
    blake2b, blake2b512, chacha_decrypt, chacha_encrypt, chacha_opened, chacha_sealed,
    cipher_accepts_length, cipher_exhausted_by, ed25519_is_key, ed25519_public, identity_of_seed,
    is_sealing, public_of_secret, random_12, random_32, x25519_public,
};


pub use crate::ratchet::DoubleRatchetSession;

verus! {

/// What can go wrong in the cryptographic layer.
#[derive(Debug, Clone, Copy, PartialEq, Eq, Structural)]
pub enum CryptoError {
    EncryptionError,
    DecryptionError,
    InvalidSignature,
    InvalidKeyFormat,
    RatchetOutOfSync,
}

impl CryptoError {
    /// The message of an error.
    pub open spec fn text(self) -> Seq<char> {
        match self {
            CryptoError::EncryptionError => "Encryption failed"@,
            CryptoError::DecryptionError => "Decryption failed"@,
            CryptoError::InvalidSignature => "Invalid signature"@,
            CryptoError::InvalidKeyFormat => "Invalid key format"@,
            CryptoError::RatchetOutOfSync => "Ratchet out of sync"@,
        }
    }

    /// The message of an error.
    pub fn message(&self) -> (message: String)
        ensures
            message@ == self.text(),
    {
        match self {
            CryptoError::EncryptionError => "Encryption failed".to_owned(),
            CryptoError::DecryptionError => "Decryption failed".to_owned(),
            CryptoError::InvalidSignature => "Invalid signature".to_owned(),
            CryptoError::InvalidKeyFormat => "Invalid key format".to_owned(),
            CryptoError::RatchetOutOfSync => "Ratchet out of sync".to_owned(),
        }
    }
}

/// Draws a 32-byte master seed from the thread's random generator.
pub fn generate_master_seed() -> (seed: [u8; 32]) {
    random_32()
}

/// The key pairs of an identity: the Ed25519 seed that signs, and the X25519
/// pair for key agreement.
pub struct KeyDerivation {
    pub identity_key: [u8; 32],
    pub dh_secret: [u8; 32],
    pub dh_public: [u8; 32],
}

/// The Ed25519 seed of a master seed.
pub open spec fn identity_seed(master_seed: Seq<u8>) -> Seq<u8> {
    blake2b512(utf8("LOOM-ED25519-DERIVATION"@) + master_seed).subrange(0, 32)
}

/// The X25519 secret of a master seed.
pub open spec fn dh_seed(master_seed: Seq<u8>) -> Seq<u8> {
    blake2b512(utf8("LOOM-X25519-DERIVATION"@) + master_seed).subrange(0, 32)
}

/// The public identity of a master seed.
pub open spec fn identity_of(master_seed: Seq<u8>) -> Seq<u8> {
    ed25519_public(identity_seed(master_seed))
}

/// The public X25519 key of a master seed.
pub open spec fn dh_public_of(master_seed: Seq<u8>) -> Seq<u8> {
    x25519_public(dh_seed(master_seed))
}

impl KeyDerivation {
    /// The keys are those of `master_seed`.
    pub open spec fn derived_from(self, master_seed: Seq<u8>) -> bool {
        &&& self.identity_key@ == identity_seed(master_seed)
        &&& self.dh_secret@ == dh_seed(master_seed)
        &&& self.dh_public@ == dh_public_of(master_seed)
    }

    /// The public half of the identity key.
    pub fn identity_public(&self) -> (key: [u8; 32])
        ensures
            key@ == ed25519_public(self.identity_key@),
            ed25519_is_key(key@),
    {
        identity_of_seed(&self.identity_key)
    }
}

/// The first half of the digest of a label followed by a seed.
fn labelled_digest(label: &str, seed: &[u8; 32]) -> (half: [u8; 32])
    ensures
        half@ == blake2b512(utf8(label@) + seed@).subrange(0, 32),
{
    let mut data: Vec<u8> = Vec::new();
    append_text(&mut data, label);
    append_bytes(&mut data, seed);
    assert(data@ =~= utf8(label@) + seed@);
    let digest = blake2b(&data);
    array32(&digest, 0)
}

/// Derives the key pairs of a master seed.
pub fn derive_keys(master_seed: &[u8; 32]) -> (keys: KeyDerivation)
    ensures
        keys.derived_from(master_seed@),
        keys.identity_key@ == blake2b512(
            utf8("LOOM-ED25519-DERIVATION"@) + master_seed@,
        ).subrange(0, 32),
        keys.dh_secret@ == blake2b512(
            utf8("LOOM-X25519-DERIVATION"@) + master_seed@,
        ).subrange(0, 32),
        keys.dh_public@ == x25519_public(keys.dh_secret@),
{
    let identity_key = labelled_digest("LOOM-ED25519-DERIVATION", master_seed);
    let dh_secret = labelled_digest("LOOM-X25519-DERIVATION", master_seed);
    let dh_public = public_of_secret(&dh_secret);
    KeyDerivation { identity_key, dh_secret, dh_public }
}

/// `sealed` is what sealing `plaintext` gives: the ciphertext, or an error for a
/// text longer than one nonce can encrypt. Opening the ciphertext gives the
/// plaintext back.
pub open spec fn seals(
    key: Seq<u8>,
    nonce: Seq<u8>,
    associated_data: Seq<u8>,
    plaintext: Seq<u8>,
    sealed: Result<Vec<u8>, CryptoError>,
) -> bool {
    match sealed {
        Ok(ciphertext) => {
            &&& cipher_accepts_length(plaintext.len() as int)
            &&& ciphertext@ == chacha_sealed(key, nonce, associated_data, plaintext)
            &&& ciphertext@.len() == plaintext.len() + 16
            &&& chacha_opened(key, nonce, associated_data, ciphertext@) == Some(plaintext)
        },
        Err(error) => {
            &&& !cipher_accepts_length(plaintext.len() as int)
            &&& error == CryptoError::EncryptionError
        },
    }
}

/// `opened` is what opening `ciphertext` gives: the plaintext that it is the
/// sealing of, or an error where it is the sealing of none. No ciphertext is
/// shorter than its tag of 16 bytes.
pub open spec fn opens(
    key: Seq<u8>,
    nonce: Seq<u8>,
    associated_data: Seq<u8>,
    ciphertext: Seq<u8>,
    opened: Result<Vec<u8>, CryptoError>,
) -> bool {
    match opened {
        Ok(plaintext) => {
            &&& chacha_opened(key, nonce, associated_data, ciphertext) == Some(plaintext@)
            &&& plaintext@.len() + 16 == ciphertext.len()
            &&& is_sealing(key, nonce, associated_data, plaintext@, ciphertext)
            &&& forall|other: Seq<u8>| #[trigger]
                is_sealing(key, nonce, associated_data, other, ciphertext) ==> other == plaintext@
        },
        Err(error) => {
            &&& chacha_opened(key, nonce, associated_data, ciphertext) is None
            &&& forall|other: Seq<u8>|
                !#[trigger] is_sealing(key, nonce, associated_data, other, ciphertext)
            &&& error == CryptoError::DecryptionError
        },
    }
}

/// Encrypts under a given nonce.
pub fn encrypt_symmetric_with(
    key: &[u8; 32],
    nonce: &[u8; 12],
    plaintext: &[u8],
    associated_data: &[u8],
) -> (sealed: Result<Vec<u8>, CryptoError>)
    requires
        !cipher_exhausted_by(plaintext@.len() as int),
    ensures
        seals(key@, nonce@, associated_data@, plaintext@, sealed),
{
    match chacha_encrypt(key, nonce, associated_data, plaintext) {
        Ok(ciphertext) => Ok(ciphertext),
        Err(_) => Err(CryptoError::EncryptionError),
    }
}

/// Encrypts under a nonce drawn at random, which is returned with the
/// ciphertext.
pub fn encrypt_symmetric(
    key: &[u8; 32],
    plaintext: &[u8],
    associated_data: &[u8],
) -> (sealed: Result<(Vec<u8>, [u8; 12]), CryptoError>)
    requires
        !cipher_exhausted_by(plaintext@.len() as int),
    ensures
        match sealed {
            Ok((ciphertext, nonce)) => seals(
                key@,
                nonce@,
                associated_data@,
                plaintext@,
                Ok(ciphertext),
            ),
            Err(error) => {
                &&& !cipher_accepts_length(plaintext@.len() as int)
                &&& error == CryptoError::EncryptionError
            },
        },
{
    let nonce = random_12();
    match encrypt_symmetric_with(key, &nonce, plaintext, associated_data) {
        Ok(ciphertext) => Ok((ciphertext, nonce)),
        Err(error) => Err(error),
    }
}

/// Decrypts and authenticates a ciphertext.
pub fn decrypt_symmetric(
    key: &[u8; 32],
    ciphertext: &[u8],
    nonce_bytes: &[u8; 12],
    associated_data: &[u8],
) -> (opened: Result<Vec<u8>, CryptoError>)
    requires
        !cipher_exhausted_by(ciphertext@.len() - 16),
    ensures
        opens(key@, nonce_bytes@, associated_data@, ciphertext@, opened),
{
    match chacha_decrypt(key, nonce_bytes, associated_data, ciphertext) {
        Ok(plaintext) => Ok(plaintext),
        Err(_) => Err(CryptoError::DecryptionError),
    }
}

} // verus!
