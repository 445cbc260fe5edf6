use loom::engine::token_of_seed;
use loom::token::{LoomToken, TokenError};

const SEVENS_AND_NINES: &str =
    "LOOM-AEDQOBYHA4DQOBYHA4DQOBYHA4DQOBYHA4DQOBYHA4DQOBYHA4DQOCIJBEEQSCIJBEEQSCIJBEEQSCIJBEEQSCIJBEEQSCIJBEEQSCIJOA";

fn error_of(text: &str) -> TokenError {
    match LoomToken::parse(text) {
        Ok(_) => panic!("the text is a token"),
        Err(error) => error,
    }
}

#[test]
fn test_token_serialization() {
    let id_key = [7u8; 32];
    let dh_key = [9u8; 32];
    let token = LoomToken::new(id_key, dh_key);
    let token_str = token.to_string();
    assert!(token_str.starts_with("LOOM-"));

    let parsed = LoomToken::parse(&token_str).unwrap_or_else(|_| panic!("a token"));
    assert_eq!(parsed.version, 1);
    assert_eq!(parsed.identity_key, id_key);
    assert_eq!(parsed.dh_key, dh_key);
}

#[test]
fn token_text_is_exact() {
    let token = LoomToken::new([7u8; 32], [9u8; 32]);
    assert_eq!(token.to_string(), SEVENS_AND_NINES);
    assert_eq!(token.to_string_with(112), SEVENS_AND_NINES);
    assert_ne!(token.to_string_with(0), SEVENS_AND_NINES);
}

#[test]
fn token_of_a_seed_is_exact() {
    assert_eq!(
        token_of_seed(&[1u8; 32]),
        "LOOM-AENQ2N43LGTJ7ZCAGUQTIN6LH5RE56YV6KCN6VHWV4VFGETDDIZRMGGGHCEPS7VSDBCTPHVBHDBYVEUE22K5GEHTF2UL4NBAX5XY3W2BTQ"
    );
}

#[test]
fn token_may_have_white_space_around_it() {
    let text = format!(" \t\n{}\u{a0}\u{3000}\r\n", SEVENS_AND_NINES);
    let parsed = LoomToken::parse(&text).unwrap_or_else(|_| panic!("a token"));
    assert_eq!(parsed.identity_key, [7u8; 32]);
    assert_eq!(parsed.dh_key, [9u8; 32]);
}

#[test]
fn token_code_may_be_in_lower_case() {
    let text = format!("LOOM-{}", SEVENS_AND_NINES[5..].to_lowercase());
    let parsed = LoomToken::parse(&text).unwrap_or_else(|_| panic!("a token"));
    assert_eq!(parsed.identity_key, [7u8; 32]);
}

#[test]
fn token_prefix_is_in_upper_case() {
    assert_eq!(error_of(&SEVENS_AND_NINES.to_lowercase()), TokenError::InvalidPrefix);
    assert_eq!(error_of("NOTLOOM-XYZ"), TokenError::InvalidPrefix);
    assert_eq!(error_of(""), TokenError::InvalidPrefix);
    assert_eq!(error_of("LOOM"), TokenError::InvalidPrefix);
}

#[test]
fn token_code_is_canonical_base32() {
    // 8 and 9 are no symbols.
    assert_eq!(error_of("LOOM-BASE3289"), TokenError::InvalidEncoding);
    // One symbol is five bits, less than a byte.
    assert_eq!(error_of("LOOM-A"), TokenError::InvalidEncoding);
    // The last symbol has a stray bit.
    let stray = format!("{}B", &SEVENS_AND_NINES[..SEVENS_AND_NINES.len() - 1]);
    assert_eq!(error_of(&stray), TokenError::InvalidEncoding);
    assert_eq!(error_of("LOOM-\u{e9}"), TokenError::InvalidEncoding);
    // The upper-case form of this letter is two letters, both of them symbols.
    assert_eq!(error_of("LOOM-\u{df}\u{df}\u{df}\u{df}"), TokenError::InvalidLength);
}

#[test]
fn token_length_is_fixed() {
    assert_eq!(error_of("LOOM-"), TokenError::InvalidLength);
    assert_eq!(error_of("LOOM-AEDQOBYHA4DQOBYHA4DQOBYHA4DQOBYHA4DQOBYHA4DQOBYHA4DQOCIJBEEQSCIJBEEQSCIJBEEQSCIJBEEQSCIJBEEQSCIJBEEQSCIJ"), TokenError::InvalidLength);
}

#[test]
fn token_version_is_one() {
    assert_eq!(error_of("LOOM-AIDQOBYHA4DQOBYHA4DQOBYHA4DQOBYHA4DQOBYHA4DQOBYHA4DQOCIJBEEQSCIJBEEQSCIJBEEQSCIJBEEQSCIJBEEQSCIJBEEQSCIJKM"), TokenError::UnsupportedVersion);
}

#[test]
fn token_checksum_is_checked() {
    assert_eq!(error_of("LOOM-AEDQOBYHA4DQOBYHA4DQOBYHA4DQOBYHA4DQOBYHA4DQOBYHA4DQOCIJBEEQSCIJBEEQSCIJBEEQSCIJBEEQSCIJBEEQSCIJBEEQSCIJOE"), TokenError::ChecksumMismatch);
    let mut payload = vec![1u8];
    payload.extend_from_slice(&[7u8; 32]);
    payload.extend_from_slice(&[9u8; 32]);
    payload.push(112);
    assert!(LoomToken::from_payload(&payload).is_ok());
    assert!(LoomToken::accept_payload(&payload, 112).is_ok());
    assert!(matches!(
        LoomToken::accept_payload(&payload, 113),
        Err(TokenError::ChecksumMismatch)
    ));
}

#[test]
fn token_texts_are_short_enough_to_decode() {
    assert!(matches!(LoomToken::try_parse(SEVENS_AND_NINES), Some(Ok(_))));
    assert!(matches!(
        LoomToken::try_parse("NOTLOOM-XYZ"),
        Some(Err(TokenError::InvalidPrefix))
    ));
    assert!(matches!(
        LoomToken::from_code(&SEVENS_AND_NINES[5..]),
        Ok(_)
    ));
}

#[test]
fn token_errors_have_messages() {
    assert_eq!(TokenError::InvalidPrefix.message(), "Invalid token prefix");
    assert_eq!(TokenError::InvalidEncoding.message(), "Invalid token encoding");
    assert_eq!(TokenError::InvalidLength.message(), "Invalid token length");
    assert_eq!(TokenError::ChecksumMismatch.message(), "Checksum mismatch");
    assert_eq!(TokenError::UnsupportedVersion.message(), "Unsupported token version");
}
