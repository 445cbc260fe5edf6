//! What the host is told: tokens, errors, file names and stored flags, each said
//! of the values that it is made from.

use vstd::prelude::*;

use crate::bytes::utf8;
use crate::chat_laws::{agreement_secret, signing_secret};
use crate::crypto::CryptoError;
use crate::encoding::{base32_text, law_base32_injective, trimmed, uppercase};
use crate::engine::{token_text, LoomError};
use crate::handshake::NetworkError;
use crate::primitives::{blake2b512, ed25519_public, x25519_public};
use crate::profile::{db_filename, names_profile};
use crate::storage::flag_number;
use crate::token::{
    can_decode, checksum, code_result, parses, payload_result, token_body, LoomToken, TokenError,
};

verus! {

/// The 66 bytes of a token: the version, both keys, and the first byte of the
/// digest of all that.
pub open spec fn token_bytes(version: u8, identity: Seq<u8>, dh: Seq<u8>) -> Seq<u8> {
    let body = seq![version] + identity + dh;
    body.push(blake2b512(body)[0])
}

/// The text of a token is the Base32 form of its bytes behind the prefix, and the
/// token of an identity holds the identity's public keys.
pub proof fn law_token_text_holds_the_keys(token: LoomToken, seed: Seq<u8>)
    ensures
        token.text() == "LOOM-"@ + base32_text(
            token_bytes(token.version, token.identity_key@, token.dh_key@),
        ),
        token_text(seed) == "LOOM-"@ + base32_text(
            token_bytes(
                1,
                ed25519_public(signing_secret(seed)),
                x25519_public(agreement_secret(seed)),
            ),
        ),
{
}

/// What is made of the bytes of a token, where `sum` is what the last one should
/// be.
pub open spec fn is_made_of(payload: Seq<u8>, sum: u8, read: Result<LoomToken, TokenError>) -> bool {
    if payload.len() != 66 {
        read == Err::<LoomToken, TokenError>(TokenError::InvalidLength)
    } else if payload[0] != 1 {
        read == Err::<LoomToken, TokenError>(TokenError::UnsupportedVersion)
    } else if payload[65] != sum {
        read == Err::<LoomToken, TokenError>(TokenError::ChecksumMismatch)
    } else {
        &&& read matches Ok(token)
        &&& token.version == 1
        &&& token.identity_key@ == payload.subrange(1, 33)
        &&& token.dh_key@ == payload.subrange(33, 65)
    }
}

/// The bytes of a token are read exactly where there are 66 of them, the first is
/// the version and the last the checksum of the others; each fault has its own
/// error.
pub proof fn law_token_bytes_are_read(
    payload: Seq<u8>,
    sum: u8,
    code: Seq<char>,
    read: Result<LoomToken, TokenError>,
)
    ensures
        payload_result(payload, sum, read) ==> is_made_of(payload, sum, read),
        code_result(code, read) && code == base32_text(payload) ==> is_made_of(
            payload,
            blake2b512(payload.take(65))[0],
            read,
        ),
        code_result(code, read) && (forall|other: Seq<u8>| code != #[trigger] base32_text(other))
            ==> read == Err::<LoomToken, TokenError>(TokenError::InvalidEncoding),
{
    if code_result(code, read) && code == base32_text(payload) {
        let found = choose|found: Seq<u8>|
            code == #[trigger] base32_text(found) && payload_result(
                found,
                checksum(found.take(65)),
                read,
            );
        law_base32_injective(found, payload);
    }
}

/// The text has the prefix of a token.
pub open spec fn is_prefixed(text: Seq<char>) -> bool {
    text.len() >= 5 && text.take(5) == "LOOM-"@
}

/// A text is read as a token by what stands behind the prefix, in upper case and
/// without the white space around the whole: the bytes that it is the Base32 form
/// of decide. Every text that is short enough for the decoder can be read.
pub proof fn law_token_text_is_read(
    text: Seq<char>,
    payload: Seq<u8>,
    read: Result<LoomToken, TokenError>,
)
    ensures
        parses(text, read) && !is_prefixed(trimmed(text)) ==> read == Err::<LoomToken, TokenError>(
            TokenError::InvalidPrefix,
        ),
        parses(text, read) && is_prefixed(trimmed(text)) && uppercase(trimmed(text).skip(5))
            == base32_text(payload) ==> is_made_of(
            payload,
            blake2b512(payload.take(65))[0],
            read,
        ),
        parses(text, read) && is_prefixed(trimmed(text)) && (forall|other: Seq<u8>|
            uppercase(trimmed(text).skip(5)) != #[trigger] base32_text(other)) ==> read == Err::<
            LoomToken,
            TokenError,
        >(TokenError::InvalidEncoding),
        can_decode(text) <==> (is_prefixed(trimmed(text)) ==> utf8(
            uppercase(trimmed(text).skip(5)),
        ).len() <= usize::MAX / 8),
{
    law_token_bytes_are_read(payload, 0, uppercase(trimmed(text).skip(5)), read);
}

/// The body of a token is the version and both keys, and its checksum the first
/// byte of its digest.
pub proof fn law_token_body_holds_the_keys(version: u8, identity: Seq<u8>, dh: Seq<u8>)
    ensures
        token_body(version, identity, dh) == seq![version] + identity + dh,
        checksum(token_body(version, identity, dh)) == blake2b512(
            seq![version] + identity + dh,
        )[0],
{
}

/// An error passes on the whole message that it was made from, behind the name of
/// its kind.
pub proof fn law_error_passes_the_message_on(error: LoomError, message: Seq<char>)
    ensures
        error.is_database(message) <==> (error matches LoomError::DatabaseError { message: m }
            && m@ == message),
        error.is_network(message) <==> (error matches LoomError::NetworkError { message: m } && m@
            == message),
        error.is_crypto(message) <==> (error matches LoomError::CryptoError { message: m } && m@
            == message),
        error.is_database(message) ==> error.text() == "Database error: "@ + message,
        error.is_network(message) ==> error.text() == "Network error: "@ + message,
        error.is_crypto(message) ==> error.text() == "Crypto error: "@ + message,
        error is InvalidToken ==> error.text() == "Invalid token format"@,
        error is NoIdentity ==> error.text() == "No identity found"@,
{
}

/// What the errors of the lower layers say.
pub proof fn law_error_texts(network: NetworkError, crypto: CryptoError, token: TokenError)
    ensures
        network.text() == (match network {
            NetworkError::NoIdentitySeed => "No identity seed"@,
            NetworkError::NoSeed => "No seed"@,
            NetworkError::NoRatchetState => "No ratchet state"@,
            NetworkError::NoSession => "No ratchet session established"@,
            NetworkError::UnknownSender => "Unknown sender signature"@,
            NetworkError::InvalidPeerKeyLength => "Invalid peer pub key length"@,
            NetworkError::PeerOffline => "Peer offline or undiscovered"@,
            NetworkError::UnexpectedResponse => "Unexpected response"@,
            NetworkError::InvalidIdentityKey => "signature error: Cannot decompress Edwards point"@,
            NetworkError::MalformedSignature => "signature error"@,
            NetworkError::SignatureRejected(text) => text@,
            NetworkError::Crypto(error) => error.text(),
        }),
        crypto.text() == (match crypto {
            CryptoError::EncryptionError => "Encryption failed"@,
            CryptoError::DecryptionError => "Decryption failed"@,
            CryptoError::InvalidSignature => "Invalid signature"@,
            CryptoError::InvalidKeyFormat => "Invalid key format"@,
            CryptoError::RatchetOutOfSync => "Ratchet out of sync"@,
        }),
        token.text() == (match token {
            TokenError::InvalidPrefix => "Invalid token prefix"@,
            TokenError::InvalidEncoding => "Invalid token encoding"@,
            TokenError::InvalidLength => "Invalid token length"@,
            TokenError::ChecksumMismatch => "Checksum mismatch"@,
            TokenError::UnsupportedVersion => "Unsupported token version"@,
        }),
{
}

/// A profile is named by the argument that follows one of the two flags.
pub proof fn law_flag_names_the_profile(args: Seq<String>, i: int)
    ensures
        names_profile(args, i) <==> 0 <= i && i + 1 < args.len() && (args[i]@ == "--profile"@
            || args[i]@ == "-p"@),
{
}

/// The file of a profile's database has the profile's whole name in it, character
/// by character: letters and digits of ASCII as they are, an underscore for
/// anything else.
pub proof fn law_file_name_holds_the_profile(name: String, i: int)
    ensures
        db_filename(None) == "loom.db"@,
        db_filename(Some(name)).len() == name@.len() + 8,
        db_filename(Some(name)).take(5) == "loom_"@,
        db_filename(Some(name)).skip(name@.len() as int + 5) == ".db"@,
        0 <= i < name@.len() ==> db_filename(Some(name))[5 + i] == (if ('0' <= name@[i] <= '9') || (
        'A' <= name@[i] <= 'Z') || ('a' <= name@[i] <= 'z') {
            name@[i]
        } else {
            '_'
        }),
{
    reveal_strlit("loom_");
    reveal_strlit(".db");
    let file = db_filename(Some(name));
    assert(file.take(5) =~= "loom_"@);
    assert(file.skip(name@.len() as int + 5) =~= ".db"@);
}

/// A flag is stored as one or zero.
pub proof fn law_flag_is_stored_as_one_or_zero(flag: bool)
    ensures
        flag_number(flag) == (if flag {
            1i32
        } else {
            0i32
        }),
{
}

} // verus!
