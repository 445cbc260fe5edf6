//! Contact tokens: the public keys of an identity as a text to hand to others.
//!
//! A token is `LOOM-` and the Base32 form of 66 bytes: the version, the identity
//! key, the Diffie-Hellman key, and one byte of checksum.

use vstd::prelude::*;

use vstd::string::StringExecFns;
use vstd::string::StrSliceExecFns;

use crate::bytes::{append_bytes, array32, utf8};
use crate::encoding::{
    ascii_upper, base32_decode, base32_encode, base32_text, is_white_space, law_base32_alphabet,
    law_base32_injective, to_uppercase, trim, trimmed, trimmed_end, trimmed_start, uppercase,
};
use crate::primitives::{blake2b, blake2b512};

verus! {

/// Why a text is no token.
#[derive(Debug, Clone, Copy, PartialEq, Eq, Structural)]
pub enum TokenError {
    InvalidPrefix,
    InvalidEncoding,
    InvalidLength,
    ChecksumMismatch,
    UnsupportedVersion,
}

impl TokenError {
    /// The message of an error.
    pub open spec fn text(self) -> Seq<char> {
        match self {
            TokenError::InvalidPrefix => "Invalid token prefix"@,
            TokenError::InvalidEncoding => "Invalid token encoding"@,
            TokenError::InvalidLength => "Invalid token length"@,
            TokenError::ChecksumMismatch => "Checksum mismatch"@,
            TokenError::UnsupportedVersion => "Unsupported token version"@,
        }
    }

    /// The message of an error.
    pub fn message(&self) -> (message: String)
        ensures
            message@ == self.text(),
    {
        match self {
            TokenError::InvalidPrefix => "Invalid token prefix".to_owned(),
            TokenError::InvalidEncoding => "Invalid token encoding".to_owned(),
            TokenError::InvalidLength => "Invalid token length".to_owned(),
            TokenError::ChecksumMismatch => "Checksum mismatch".to_owned(),
            TokenError::UnsupportedVersion => "Unsupported token version".to_owned(),
        }
    }
}

/// The public keys of an identity.
pub struct LoomToken {
    pub version: u8,
    pub identity_key: [u8; 32],
    pub dh_key: [u8; 32],
}

/// The bytes of a token in front of the checksum.
pub open spec fn token_body(version: u8, identity_key: Seq<u8>, dh_key: Seq<u8>) -> Seq<u8> {
    seq![version] + identity_key + dh_key
}

/// The checksum of a token: the first byte of the digest of its body.
pub open spec fn checksum(body: Seq<u8>) -> u8 {
    blake2b512(body)[0]
}

/// The text begins with the token prefix.
pub open spec fn has_prefix(text: Seq<char>) -> bool {
    text.len() >= 5 && text.take(5) == "LOOM-"@
}

impl LoomToken {
    /// The text of a token.
    pub open spec fn text(self) -> Seq<char> {
        let body = token_body(self.version, self.identity_key@, self.dh_key@);
        "LOOM-"@ + base32_text(body.push(checksum(body)))
    }

    /// A token of the current version.
    pub fn new(identity_key: [u8; 32], dh_key: [u8; 32]) -> (token: Self)
        ensures
            token.version == 1,
            token.identity_key == identity_key,
            token.dh_key == dh_key,
    {
        LoomToken { version: 1, identity_key, dh_key }
    }

    /// The text of a token with a given checksum.
    pub fn to_string_with(&self, checksum: u8) -> (text: String)
        ensures
            text@ == "LOOM-"@ + base32_text(
                token_body(self.version, self.identity_key@, self.dh_key@).push(checksum),
            ),
    {
        let mut payload = self.body();
        payload.push(checksum);
        assert(payload@.len() == 66);
        "LOOM-".to_owned().concat(base32_encode(&payload).as_str())
    }

    /// The bytes of a token in front of the checksum.
    fn body(&self) -> (body: Vec<u8>)
        ensures
            body@ == token_body(self.version, self.identity_key@, self.dh_key@),
            body@.len() == 65,
    {
        let mut body: Vec<u8> = Vec::new();
        body.push(self.version);
        append_bytes(&mut body, &self.identity_key);
        append_bytes(&mut body, &self.dh_key);
        assert(body@ =~= token_body(self.version, self.identity_key@, self.dh_key@));
        body
    }

    /// The text of a token.
    pub fn to_string(&self) -> (text: String)
        ensures
            text@ == self.text(),
    {
        let digest = blake2b(&self.body());
        self.to_string_with(digest[0])
    }

    /// Reads the bytes of a token, whose checksum should be the given one.
    pub fn accept_payload(payload: &[u8], checksum: u8) -> (read: Result<Self, TokenError>)
        ensures
            payload_result(payload@, checksum, read),
    {
        if payload.len() != 66 {
            return Err(TokenError::InvalidLength);
        }
        let version: u8 = payload[0];
        if version != 1 {
            return Err(TokenError::UnsupportedVersion);
        }
        let identity_key = array32(payload, 1);
        let dh_key = array32(payload, 33);
        if payload[65] != checksum {
            return Err(TokenError::ChecksumMismatch);
        }
        Ok(LoomToken { version, identity_key, dh_key })
    }

    /// Reads the bytes of a token.
    pub fn from_payload(payload: &[u8]) -> (read: Result<Self, TokenError>)
        ensures
            payload_result(payload@, checksum(payload@.take(65)), read),
    {
        if payload.len() != 66 {
            return Err(TokenError::InvalidLength);
        }
        let mut body: Vec<u8> = Vec::new();
        let mut i: usize = 0;
        while i < 65
            invariant
                i <= 65,
                payload@.len() == 66,
                body@ == payload@.take(i as int),
            decreases 65 - i,
        {
            body.push(payload[i]);
            i = i + 1;
            assert(body@ =~= payload@.take(i as int));
        }
        let digest = blake2b(&body);
        Self::accept_payload(payload, digest[0])
    }

    /// Reads the Base32 part of a token, in upper case.
    pub fn from_code(code: &str) -> (read: Result<Self, TokenError>)
        requires
            utf8(code@).len() <= usize::MAX / 8,
        ensures
            code_result(code@, read),
    {
        match base32_decode(code) {
            Ok(payload) => {
                let read = Self::from_payload(&payload);
                assert(code@ == base32_text(payload@));
                read
            },
            Err(_) => Err(TokenError::InvalidEncoding),
        }
    }

    /// Reads a token. White space around it is ignored, and the Base32 part may be
    /// in either case. The upper-case form of that part must be short enough for
    /// the decoder.
    pub fn parse(token_str: &str) -> (read: Result<Self, TokenError>)
        requires
            can_decode(token_str@),
        ensures
            parses(token_str@, read),
    {
        let cleaned = trim(token_str);
        if !starts_as_token(cleaned) {
            return Err(TokenError::InvalidPrefix);
        }
        let code = cleaned.substring_char(5, cleaned.unicode_len());
        assert(code@ =~= cleaned@.skip(5));
        let upper = to_uppercase(code);
        Self::from_code(upper.as_str())
    }

    /// Reads a token; `None` for a text that is too long for the decoder.
    pub fn try_parse(token_str: &str) -> (read: Option<Result<Self, TokenError>>)
        ensures
            match read {
                Some(read) => can_decode(token_str@) && parses(token_str@, read),
                None => !can_decode(token_str@),
            },
    {
        let cleaned = trim(token_str);
        if starts_as_token(cleaned) {
            let code = cleaned.substring_char(5, cleaned.unicode_len());
            assert(code@ =~= cleaned@.skip(5));
            let upper = to_uppercase(code);
            if upper.as_str().as_bytes().len() > usize::MAX / 8 {
                return None;
            }
        }
        Some(Self::parse(token_str))
    }
}

/// The upper-case form of the Base32 part of a token is short enough for the
/// decoder.
pub open spec fn can_decode(text: Seq<char>) -> bool {
    has_prefix(trimmed(text)) ==> utf8(uppercase(trimmed(text).skip(5))).len() <= usize::MAX / 8
}

/// What the bytes of a token give, where `checksum` is what its last byte should
/// be.
pub open spec fn payload_result(
    payload: Seq<u8>,
    checksum: u8,
    read: Result<LoomToken, TokenError>,
) -> bool {
    if payload.len() != 66 {
        read == Err::<LoomToken, TokenError>(TokenError::InvalidLength)
    } else if payload[0] != 1 {
        read == Err::<LoomToken, TokenError>(TokenError::UnsupportedVersion)
    } else if payload[65] != checksum {
        read == Err::<LoomToken, TokenError>(TokenError::ChecksumMismatch)
    } else {
        &&& read matches Ok(token)
        &&& token.version == 1
        &&& token.identity_key@ == payload.subrange(1, 33)
        &&& token.dh_key@ == payload.subrange(33, 65)
    }
}

/// What the Base32 part of a token gives.
pub open spec fn code_result(code: Seq<char>, read: Result<LoomToken, TokenError>) -> bool {
    if exists|payload: Seq<u8>| code == #[trigger] base32_text(payload) {
        exists|payload: Seq<u8>|
            code == #[trigger] base32_text(payload) && payload_result(
                payload,
                checksum(payload.take(65)),
                read,
            )
    } else {
        read == Err::<LoomToken, TokenError>(TokenError::InvalidEncoding)
    }
}

/// Every character is an ASCII one.
pub open spec fn all_ascii(text: Seq<char>) -> bool {
    forall|i: int| 0 <= i < text.len() ==> (#[trigger] text[i] as int) < 128
}

/// What a text gives as a token.
pub open spec fn parses(text: Seq<char>, read: Result<LoomToken, TokenError>) -> bool {
    let cleaned = trimmed(text);
    if has_prefix(cleaned) {
        let code = cleaned.skip(5);
        &&& code_result(uppercase(code), read)
        &&& all_ascii(code) ==> code_result(code.map_values(|c: char| ascii_upper(c)), read)
    } else {
        read == Err::<LoomToken, TokenError>(TokenError::InvalidPrefix)
    }
}

/// Whether a text begins with the token prefix.
fn starts_as_token(text: &str) -> (starts: bool)
    ensures
        starts == has_prefix(text@),
{
    proof {
        reveal_strlit("LOOM-");
        if text@.len() >= 5 {
            assert(has_prefix(text@) <==> text@.take(5) =~= "LOOM-"@);
            assert(forall|i: int| 0 <= i < 5 ==> text@.take(5)[i] == text@[i]);
        }
    }
    text.unicode_len() >= 5 && text.get_char(0) == 'L' && text.get_char(1) == 'O' && text.get_char(2)
        == 'O' && text.get_char(3) == 'M' && text.get_char(4) == '-'
}

/// White space in front of a text is trimmed off.
proof fn lemma_trimmed_start(before: Seq<char>, text: Seq<char>)
    requires
        all_white_space(before),
        text.len() > 0,
        !is_white_space(text[0]),
    ensures
        trimmed_start(before + text) == text,
    decreases before.len(),
{
    let whole = before + text;
    if before.len() == 0 {
        assert(whole =~= text);
    } else {
        assert(whole[0] == before[0]);
        assert(whole.drop_first() =~= before.drop_first() + text);
        lemma_trimmed_start(before.drop_first(), text);
    }
}

/// White space behind a text is trimmed off.
proof fn lemma_trimmed_end(text: Seq<char>, after: Seq<char>)
    requires
        all_white_space(after),
        text.len() > 0,
        !is_white_space(text.last()),
    ensures
        trimmed_end(text + after) == text,
    decreases after.len(),
{
    let whole = text + after;
    if after.len() == 0 {
        assert(whole =~= text);
    } else {
        assert(whole.last() == after.last());
        assert(whole.drop_last() =~= text + after.drop_last());
        lemma_trimmed_end(text, after.drop_last());
    }
}

/// Every character is white space.
pub open spec fn all_white_space(text: Seq<char>) -> bool {
    forall|i: int| 0 <= i < text.len() ==> is_white_space(#[trigger] text[i])
}

/// The Base32 part of a token's text, in some mixture of upper and lower case.
pub open spec fn spells(code: Seq<char>, token: LoomToken) -> bool {
    let written = token.text().skip(5);
    &&& code.len() == written.len()
    &&& forall|i: int|
        0 <= i < code.len() ==> (#[trigger] code[i] as int) < 128 && ascii_upper(code[i])
            == written[i]
}

/// A token is read back from its text. White space around it and the case of the
/// letters behind the prefix make no difference.
pub proof fn law_token_is_read_back(
    token: LoomToken,
    before: Seq<char>,
    code: Seq<char>,
    after: Seq<char>,
    read: Result<LoomToken, TokenError>,
)
    requires
        token.version == 1,
        all_white_space(before),
        spells(code, token),
        all_white_space(after),
        parses(before + "LOOM-"@ + code + after, read),
    ensures
        read matches Ok(parsed) && parsed.version == 1 && parsed.identity_key@
            == token.identity_key@ && parsed.dh_key@ == token.dh_key@,
{
    reveal_strlit("LOOM-");
    let body = token_body(token.version, token.identity_key@, token.dh_key@);
    let payload = body.push(checksum(body));
    let written = base32_text(payload);
    assert(token.text() =~= "LOOM-"@ + written);
    assert(token.text().skip(5) =~= written);
    assert(payload.len() == 66);
    let inner = "LOOM-"@ + code;
    let whole = before + "LOOM-"@ + code + after;
    assert(whole =~= before + (inner + after));
    assert((inner + after)[0] == 'L');
    lemma_trimmed_start(before, inner + after);
    assert(inner.last() == code.last());
    assert(ascii_upper(code.last()) == written[written.len() - 1]);
    law_base32_alphabet(payload, written.len() - 1);
    lemma_trimmed_end(inner, after);
    assert(trimmed(whole) == inner);
    assert(inner.take(5) =~= "LOOM-"@);
    assert(inner.skip(5) =~= code);
    let upper = code.map_values(|c: char| ascii_upper(c));
    assert(upper =~= written);
    assert(code_result(upper, read));
    let found = choose|found: Seq<u8>|
        upper == #[trigger] base32_text(found) && payload_result(
            found,
            checksum(found.take(65)),
            read,
        );
    law_base32_injective(found, payload);
    assert(payload.take(65) =~= body);
    assert(payload.subrange(1, 33) =~= token.identity_key@);
    assert(payload.subrange(33, 65) =~= token.dh_key@);
}

/// The text of a token spells it.
pub proof fn law_token_text_spells(token: LoomToken)
    ensures
        token.text() == "LOOM-"@ + token.text().skip(5),
        spells(token.text().skip(5), token),
{
    reveal_strlit("LOOM-");
    let body = token_body(token.version, token.identity_key@, token.dh_key@);
    let payload = body.push(checksum(body));
    let written = token.text().skip(5);
    assert(written =~= base32_text(payload));
    assert forall|i: int| 0 <= i < written.len() implies (#[trigger] written[i] as int) < 128
        && ascii_upper(written[i]) == written[i] by {
        law_base32_alphabet(payload, i);
    }
    assert(token.text() =~= "LOOM-"@ + written);
}

/// The bytes of a token whose last one is not the checksum of the others are
/// refused.
pub proof fn law_wrong_checksum_is_refused(
    identity_key: [u8; 32],
    dh_key: [u8; 32],
    wrong: u8,
    read: Result<LoomToken, TokenError>,
)
    requires
        wrong != checksum(token_body(1, identity_key@, dh_key@)),
        code_result(base32_text(token_body(1, identity_key@, dh_key@).push(wrong)), read),
    ensures
        read == Err::<LoomToken, TokenError>(TokenError::ChecksumMismatch),
{
    let body = token_body(1, identity_key@, dh_key@);
    let payload = body.push(wrong);
    let code = base32_text(payload);
    assert(exists|found: Seq<u8>| code == #[trigger] base32_text(found));
    let found = choose|found: Seq<u8>|
        code == #[trigger] base32_text(found) && payload_result(
            found,
            checksum(found.take(65)),
            read,
        );
    law_base32_injective(found, payload);
    assert(payload.take(65) =~= body);
}

} // verus!
