use loom::chat::{
    first_outcome, identify_sender, reader_outcome, reader_step, receive_first_chat,
    seal_chat_message, seal_chat_message_with, sender_at, sent_record, ReaderStep, StoredSession,
};
use loom::crypto::{derive_keys, CryptoError, DoubleRatchetSession};
use loom::handshake::{
    accept_handshake, accept_handshake_with, answer_checked, begin_handshake,
    begin_handshake_with, check_signature, finish_checked, finish_handshake,
    finish_handshake_with, name_contact, NetworkError,
};
use loom::protocol::{
    EncryptedEnvelope, HandshakeInitiator, HandshakeResponder, WireMessage,
};
use serde_json::Value;

const CHAT: &str = "{\"Chat\":{\"message_id\":\"a\\\"b\\\\c\\n\\t\\u0001é\",\"peer_dh_pub\":[8,8,8,8,8,8,8,8,8,8,8,8,8,8,8,8,8,8,8,8,8,8,8,8,8,8,8,8,8,8,8,8],\"n\":7,\"pn\":300,\"ciphertext\":[0,9,10,99,100,255],\"nonce\":[5,5,5,5,5,5,5,5,5,5,5,5],\"signature\":[157,179,231,200,103,31,248,59,220,174,39,98,19,68,100,86,68,123,147,138,235,232,226,12,120,7,100,83,165,25,4,79,217,29,146,17,81,3,159,209,104,153,197,195,156,59,237,33,167,58,81,92,222,233,103,191,69,222,142,142,191,195,166,0]}}";

fn identity(seed: &[u8; 32]) -> [u8; 32] {
    derive_keys(seed).identity_public()
}

fn envelope() -> EncryptedEnvelope {
    EncryptedEnvelope::signed(
        "a\"b\\c\n\t\u{1}\u{e9}".to_string(),
        [8u8; 32],
        7,
        300,
        vec![0, 9, 10, 99, 100, 255],
        [5u8; 12],
        &derive_keys(&[1u8; 32]).identity_key,
    )
}

/// Two sessions that a handshake between the seeds 1 and 2 has linked: the
/// initiator's and the responder's.
fn linked() -> (DoubleRatchetSession, DoubleRatchetSession) {
    let (alice, bob) = ([1u8; 32], [2u8; 32]);
    let (pending, init) =
        begin_handshake(Some(alice), &identity(&bob), &derive_keys(&bob).dh_public)
            .unwrap_or_else(|_| panic!("begun"));
    let accepted = accept_handshake(Some(bob), &init).unwrap_or_else(|_| panic!("accepted"));
    let session = finish_handshake(&pending, &WireMessage::Responder(accepted.response))
        .unwrap_or_else(|_| panic!("finished"));
    (session, accepted.session)
}

#[test]
fn chat_message_on_the_wire_is_exact() {
    let keys = derive_keys(&[1u8; 32]);
    let wire = EncryptedEnvelope::sign_and_serialize(
        "a\"b\\c\n\t\u{1}\u{e9}".to_string(),
        [8u8; 32],
        7,
        300,
        vec![0, 9, 10, 99, 100, 255],
        [5u8; 12],
        &keys.identity_key,
    )
    .unwrap();
    assert_eq!(String::from_utf8(wire.clone()).unwrap(), CHAT);
    assert_eq!(envelope().to_chat_json(), wire);
    assert_eq!(WireMessage::Chat(envelope()).to_json(), wire);
}

#[test]
fn signature_has_its_full_length() {
    let signed = EncryptedEnvelope::signed(
        "id".to_string(),
        [8u8; 32],
        0,
        0,
        Vec::new(),
        [5u8; 12],
        &[1u8; 32],
    );
    assert_eq!(signed.signature.len(), 64);
}

#[test]
fn message_id_survives_json() {
    let mut id = String::new();
    for code in 0..=0x7fu32 {
        id.push(char::from_u32(code).unwrap());
    }
    id.push_str("\u{80}\u{2028}\u{1f4e1}");
    let envelope = EncryptedEnvelope::signed(
        id.clone(),
        [8u8; 32],
        u32::MAX,
        0,
        Vec::new(),
        [5u8; 12],
        &[1u8; 32],
    );
    let value: Value = serde_json::from_slice(&envelope.to_chat_json()).unwrap();
    assert_eq!(value["Chat"]["message_id"].as_str().unwrap(), id);
    assert_eq!(value["Chat"]["n"].as_u64().unwrap(), u32::MAX as u64);
    assert_eq!(value["Chat"]["pn"].as_u64().unwrap(), 0);
    assert_eq!(value["Chat"]["ciphertext"].as_array().unwrap().len(), 0);
    assert_eq!(value["Chat"]["signature"].as_array().unwrap().len(), 64);
}

#[test]
fn handshake_messages_on_the_wire_are_exact() {
    let init = WireMessage::Initiator(HandshakeInitiator {
        sender_identity: [1u8; 32],
        sender_dh: [2u8; 32],
        ephemeral_key: [3u8; 32],
        signature: vec![4, 5],
    });
    let ones = ["1"; 32].join(",");
    let twos = ["2"; 32].join(",");
    let threes = ["3"; 32].join(",");
    assert_eq!(
        String::from_utf8(init.to_json()).unwrap(),
        format!(
            "{{\"Initiator\":{{\"sender_identity\":[{}],\"sender_dh\":[{}],\"ephemeral_key\":[{}],\"signature\":[4,5]}}}}",
            ones, twos, threes
        )
    );
    let response = WireMessage::Responder(HandshakeResponder {
        ephemeral_key: [3u8; 32],
        signature: Vec::new(),
    });
    assert_eq!(
        String::from_utf8(response.to_json()).unwrap(),
        format!(
            "{{\"Responder\":{{\"ephemeral_key\":[{}],\"signature\":[]}}}}",
            threes
        )
    );
}

#[test]
fn signature_is_verified_under_the_signer() {
    let signed = envelope();
    assert!(signed.verify(&identity(&[1u8; 32])));
    assert!(!signed.verify(&identity(&[2u8; 32])));
    // Not the encoding of a point on the curve.
    assert!(!signed.verify(&[2u8; 32]));
}

#[test]
fn signature_covers_every_field() {
    let key = identity(&[1u8; 32]);
    let mut changed = envelope();
    changed.message_id.push('x');
    assert!(!changed.verify(&key));
    let mut changed = envelope();
    changed.peer_dh_pub[0] ^= 1;
    assert!(!changed.verify(&key));
    let mut changed = envelope();
    changed.n += 1;
    assert!(!changed.verify(&key));
    let mut changed = envelope();
    changed.pn += 1;
    assert!(!changed.verify(&key));
    let mut changed = envelope();
    changed.ciphertext.push(0);
    assert!(!changed.verify(&key));
    let mut changed = envelope();
    changed.nonce[11] ^= 1;
    assert!(!changed.verify(&key));
    let mut changed = envelope();
    changed.signature.pop();
    assert!(!changed.verify(&key));
}

#[test]
fn header_is_the_associated_data() {
    let mut expected = "a\"b\\c\n\t\u{1}\u{e9}".as_bytes().to_vec();
    expected.extend_from_slice(&[8u8; 32]);
    expected.extend_from_slice(&[0, 0, 0, 7]);
    expected.extend_from_slice(&[0, 0, 1, 44]);
    assert_eq!(envelope().header_bytes(), expected);
}

#[test]
fn unreadable_messages_leave_the_session_alone() {
    let (_, mut session) = linked();
    let before = session.to_bytes().unwrap();
    let alice = identity(&[1u8; 32]);
    assert_eq!(
        EncryptedEnvelope::verify_and_decrypt(None, &alice, &mut session),
        Err(CryptoError::DecryptionError)
    );
    let response = WireMessage::Responder(HandshakeResponder {
        ephemeral_key: [3u8; 32],
        signature: Vec::new(),
    });
    assert_eq!(
        EncryptedEnvelope::verify_and_decrypt(Some(response), &alice, &mut session),
        Err(CryptoError::DecryptionError)
    );
    let mut short = envelope();
    short.signature.pop();
    assert_eq!(
        EncryptedEnvelope::verify_and_decrypt(Some(WireMessage::Chat(short)), &alice, &mut session),
        Err(CryptoError::InvalidSignature)
    );
    assert_eq!(
        EncryptedEnvelope::verify_and_decrypt(
            Some(WireMessage::Chat(envelope())),
            &identity(&[2u8; 32]),
            &mut session
        ),
        Err(CryptoError::InvalidSignature)
    );
    assert_eq!(session.to_bytes().unwrap(), before);
}

#[test]
fn signed_garbage_is_not_decrypted() {
    let (_, mut session) = linked();
    let read = EncryptedEnvelope::try_verify_and_decrypt_with(
        [6u8; 32],
        Some(WireMessage::Chat(EncryptedEnvelope::signed(
            "garbage".to_string(),
            [8u8; 32],
            0,
            0,
            vec![0u8; 32],
            [5u8; 12],
            &derive_keys(&[1u8; 32]).identity_key,
        ))),
        &identity(&[1u8; 32]),
        &mut session,
    );
    assert_eq!(read, Some(Err(CryptoError::DecryptionError)));
}

#[test]
fn handshake_gives_both_sides_one_session() {
    let (alice, bob) = ([1u8; 32], [2u8; 32]);
    let bob_keys = derive_keys(&bob);
    let (pending, init) = begin_handshake_with(
        Some(alice),
        [11u8; 32],
        &identity(&bob),
        &bob_keys.dh_public,
    )
    .unwrap_or_else(|_| panic!("begun"));
    assert_eq!(init.sender_identity, identity(&alice));
    assert_eq!(init.sender_dh, derive_keys(&alice).dh_public);
    assert_eq!(init.signature.len(), 64);

    let accepted = accept_handshake_with(Some(bob), [12u8; 32], &init)
        .unwrap_or_else(|_| panic!("accepted"));
    assert_eq!(accepted.contact.public_key, identity(&alice));
    assert_eq!(accepted.contact.dh_key, derive_keys(&alice).dh_public);
    assert_eq!(
        accepted.contact.display_name,
        "Loom Contact 1b0d379b"
    );
    let waiting = accepted.session.to_state();
    assert_eq!(waiting.dhs_bytes, [12u8; 32]);
    assert_eq!(waiting.dhp_bytes, init.ephemeral_key);

    let response = WireMessage::Responder(accepted.response);
    let session = finish_handshake_with(&pending, &response, [13u8; 32])
        .unwrap_or_else(|_| panic!("finished"));
    assert_eq!(session.to_state().dhs_bytes, [13u8; 32]);

    let mut sender = session;
    let mut receiver = accepted.session;
    let (ciphertext, nonce, dh_pub, n, pn) = sender.encrypt(b"linked", b"id").unwrap();
    let mut ad = b"id".to_vec();
    ad.extend_from_slice(&dh_pub);
    ad.extend_from_slice(&n.to_be_bytes());
    ad.extend_from_slice(&pn.to_be_bytes());
    assert_eq!(
        receiver.decrypt(&ciphertext, &nonce, dh_pub, n, pn, &ad),
        Ok(b"linked".to_vec())
    );
}

#[test]
fn handshake_needs_an_identity() {
    let (_, init) = begin_handshake(Some([1u8; 32]), &[7u8; 32], &[8u8; 32])
        .unwrap_or_else(|_| panic!("begun"));
    assert!(matches!(
        begin_handshake(None, &[7u8; 32], &[8u8; 32]),
        Err(NetworkError::NoSeed)
    ));
    assert!(matches!(
        accept_handshake(None, &init),
        Err(NetworkError::NoIdentitySeed)
    ));
}

#[test]
fn handshake_for_another_recipient_is_refused() {
    let (_, init) = begin_handshake(Some([1u8; 32]), &identity(&[3u8; 32]), &[8u8; 32])
        .unwrap_or_else(|_| panic!("begun"));
    match accept_handshake(Some([2u8; 32]), &init) {
        Err(NetworkError::SignatureRejected(text)) => assert_eq!(
            text,
            "signature error: Verification equation was not satisfied"
        ),
        _ => panic!("the signature is over another identity"),
    }
}

#[test]
fn handshake_signatures_are_checked_in_order() {
    let (_, init) = begin_handshake(Some([1u8; 32]), &identity(&[2u8; 32]), &[8u8; 32])
        .unwrap_or_else(|_| panic!("begun"));
    let mut no_key = init.clone();
    no_key.sender_identity = [2u8; 32];
    no_key.signature.pop();
    let error = accept_handshake(Some([2u8; 32]), &no_key).err().unwrap();
    assert!(matches!(error, NetworkError::InvalidIdentityKey));
    assert_eq!(
        error.message(),
        "signature error: Cannot decompress Edwards point"
    );
    let mut short = init.clone();
    short.signature.pop();
    let error = accept_handshake(Some([2u8; 32]), &short).err().unwrap();
    assert!(matches!(error, NetworkError::MalformedSignature));
    assert_eq!(error.message(), "signature error");
    let mut high = init.clone();
    high.signature[63] = 0xff;
    let error = accept_handshake(Some([2u8; 32]), &high).err().unwrap();
    assert_eq!(
        error.message(),
        "signature error: Cannot use scalar with high-bit set"
    );
}

#[test]
fn outside_errors_read_as_the_library_says() {
    let key = ed25519_dalek::VerifyingKey::from_bytes(&[2u8; 32]);
    assert_eq!(
        key.err().unwrap().to_string(),
        NetworkError::InvalidIdentityKey.message()
    );
    let signature = ed25519_dalek::Signature::from_slice(&[0u8; 63]);
    assert_eq!(
        signature.err().unwrap().to_string(),
        NetworkError::MalformedSignature.message()
    );
}

#[test]
fn response_must_be_the_peers() {
    let bob = identity(&[2u8; 32]);
    let (pending, init) = begin_handshake(Some([1u8; 32]), &bob, &[8u8; 32])
        .unwrap_or_else(|_| panic!("begun"));
    assert!(matches!(
        finish_handshake(&pending, &WireMessage::Initiator(init.clone())),
        Err(NetworkError::UnexpectedResponse)
    ));
    assert!(matches!(
        finish_handshake(&pending, &WireMessage::Chat(envelope())),
        Err(NetworkError::UnexpectedResponse)
    ));
    let accepted = accept_handshake(Some([2u8; 32]), &init).unwrap_or_else(|_| panic!("accepted"));
    let mut forged = accepted.response.clone();
    forged.ephemeral_key[0] ^= 1;
    assert!(matches!(
        finish_handshake(&pending, &WireMessage::Responder(forged)),
        Err(NetworkError::SignatureRejected(_))
    ));
    assert!(finish_handshake(&pending, &WireMessage::Responder(accepted.response)).is_ok());
}

#[test]
fn signatures_are_checked_alone_too() {
    let keys = derive_keys(&[1u8; 32]);
    let signed = envelope();
    assert!(matches!(
        check_signature(&keys.identity_public(), b"something else", &signed.signature),
        Err(NetworkError::SignatureRejected(_))
    ));
    assert_eq!(
        name_contact(&[0xabu8; 32]),
        "Loom Contact abababab"
    );
}

#[test]
fn chat_message_goes_from_end_to_end() {
    let (sender, receiver) = linked();
    let sealed = seal_chat_message(Some([1u8; 32]), StoredSession::Found(sender), "gr\u{fc}\u{df}e")
        .unwrap_or_else(|_| panic!("sealed"));
    let id = sealed.envelope.message_id.clone();
    assert_eq!(id.len(), 36);
    assert_eq!(id.as_bytes()[14], b'4');
    assert_eq!(sealed.payload, sealed.envelope.to_chat_json());
    let alice = identity(&[1u8; 32]);
    let step = reader_step(
        &alice,
        StoredSession::Found(receiver),
        Some(WireMessage::Chat(sealed.envelope)),
        1234,
    );
    match step {
        ReaderStep::Deliver(received) => {
            assert_eq!(received.record.id, id);
            assert_eq!(received.record.content, "gr\u{fc}\u{df}e");
            assert_eq!(received.record.peer_key, alice);
            assert_eq!(received.record.sender_key, alice);
            assert_eq!(received.record.recipient_key, alice);
            assert_eq!(received.record.timestamp, 1234);
            assert!(!received.record.is_read);
            assert_eq!(received.session.to_state().nr, 1);
        }
        _ => panic!("the message is the peer's"),
    }
}

#[test]
fn sealing_needs_an_identity_and_a_session() {
    let (sender, receiver) = linked();
    assert!(matches!(
        seal_chat_message(None, StoredSession::Found(sender), "text"),
        Err(NetworkError::NoSeed)
    ));
    assert!(matches!(
        seal_chat_message(Some([1u8; 32]), StoredSession::Missing, "text"),
        Err(NetworkError::NoSession)
    ));
    assert!(matches!(
        seal_chat_message(Some([1u8; 32]), StoredSession::Damaged, "text"),
        Err(NetworkError::Crypto(CryptoError::DecryptionError))
    ));
    assert!(matches!(
        seal_chat_message(Some([2u8; 32]), StoredSession::Found(receiver), "text"),
        Err(NetworkError::Crypto(CryptoError::RatchetOutOfSync))
    ));
}

#[test]
fn sealing_uses_the_given_id_and_nonce() {
    let (sender, _) = linked();
    let sealed = seal_chat_message_with(
        Some([1u8; 32]),
        StoredSession::Found(sender),
        "msg1".to_string(),
        [9u8; 12],
        "Message 1",
    )
    .unwrap_or_else(|_| panic!("sealed"));
    assert_eq!(sealed.envelope.message_id, "msg1");
    assert_eq!(sealed.envelope.nonce, [9u8; 12]);
    assert_eq!(sealed.envelope.n, 0);
    assert_eq!(sealed.envelope.ciphertext.len(), 9 + 16);
    assert_eq!(sealed.session.to_state().ns, 1);
}

#[test]
fn bytes_that_are_no_text_are_replaced() {
    let (mut sender, receiver) = linked();
    let (ciphertext, nonce, dh_pub, n, pn) = sender.encrypt(b"a\xffb", b"id").unwrap();
    let envelope = EncryptedEnvelope::signed(
        "id".to_string(),
        dh_pub,
        n,
        pn,
        ciphertext,
        nonce,
        &derive_keys(&[1u8; 32]).identity_key,
    );
    let step = reader_step(
        &identity(&[1u8; 32]),
        StoredSession::Found(receiver),
        Some(WireMessage::Chat(envelope)),
        0,
    );
    match step {
        ReaderStep::Deliver(received) => assert_eq!(received.record.content, "a\u{fffd}b"),
        _ => panic!("the message is the peer's"),
    }
}

#[test]
fn reader_closes_without_a_session() {
    let (_, receiver) = linked();
    let alice = identity(&[1u8; 32]);
    assert!(matches!(
        reader_step(&alice, StoredSession::Missing, None, 0),
        ReaderStep::Close
    ));
    assert!(matches!(
        reader_step(&alice, StoredSession::Damaged, None, 0),
        ReaderStep::Close
    ));
    assert!(matches!(
        reader_step(&[2u8; 32], StoredSession::Found(receiver), None, 0),
        ReaderStep::Close
    ));
}

#[test]
fn reader_ignores_what_it_cannot_read() {
    let alice = identity(&[1u8; 32]);
    let (_, receiver) = linked();
    assert!(matches!(
        reader_step(&alice, StoredSession::Found(receiver), None, 0),
        ReaderStep::Ignore(CryptoError::DecryptionError)
    ));
    let (_, receiver) = linked();
    let foreign = EncryptedEnvelope::signed(
        "id".to_string(),
        [8u8; 32],
        0,
        0,
        vec![0u8; 32],
        [5u8; 12],
        &[77u8; 32],
    );
    assert!(matches!(
        reader_step(
            &alice,
            StoredSession::Found(receiver),
            Some(WireMessage::Chat(foreign)),
            0
        ),
        ReaderStep::Ignore(CryptoError::InvalidSignature)
    ));
}

#[test]
fn reader_stops_at_the_limit_of_the_counters() {
    let alice = identity(&[1u8; 32]);
    let (_, receiver) = linked();
    let mut state = receiver.to_state();
    state.nr = u32::MAX - 99;
    let spent = DoubleRatchetSession::from_state(state);
    assert!(matches!(
        reader_step(
            &alice,
            StoredSession::Found(spent),
            Some(WireMessage::Chat(envelope())),
            0
        ),
        ReaderStep::Exhausted
    ));
}

#[test]
fn sender_is_the_first_contact_that_verifies() {
    let alice = identity(&[1u8; 32]);
    let bob = identity(&[2u8; 32]);
    let contacts = vec![
        (vec![1u8, 2, 3], "short".to_string()),
        (bob.to_vec(), "Bob".to_string()),
        (alice.to_vec(), "Alice".to_string()),
    ];
    assert_eq!(identify_sender(&envelope(), &contacts).ok(), Some(alice));
    assert!(matches!(
        identify_sender(&envelope(), &contacts[..2].to_vec()),
        Err(NetworkError::UnknownSender)
    ));
    assert!(matches!(
        identify_sender(&envelope(), &Vec::new()),
        Err(NetworkError::UnknownSender)
    ));
    let mut short = envelope();
    short.signature.pop();
    assert!(matches!(
        identify_sender(&short, &contacts),
        Err(NetworkError::MalformedSignature)
    ));
}

#[test]
fn first_message_on_a_connection_is_recorded() {
    let (sender, receiver) = linked();
    let sealed = seal_chat_message(Some([1u8; 32]), StoredSession::Found(sender), "Where are you?")
        .unwrap_or_else(|_| panic!("sealed"));
    let alice = identity(&[1u8; 32]);
    let received = receive_first_chat(
        &sealed.envelope,
        &alice,
        StoredSession::Found(receiver),
        Some([2u8; 32]),
        99,
    )
    .unwrap_or_else(|_| panic!("received"));
    assert_eq!(received.record.content, "Where are you?");
    assert_eq!(received.record.sender_key, alice);
    assert_eq!(received.record.recipient_key, identity(&[2u8; 32]));
    assert_eq!(received.record.timestamp, 99);
    assert!(!received.record.is_read);
}

#[test]
fn first_message_fails_in_order() {
    let alice = identity(&[1u8; 32]);
    assert!(matches!(
        receive_first_chat(&envelope(), &alice, StoredSession::Missing, None, 0),
        Err(NetworkError::NoRatchetState)
    ));
    assert!(matches!(
        receive_first_chat(&envelope(), &alice, StoredSession::Damaged, None, 0),
        Err(NetworkError::Crypto(CryptoError::DecryptionError))
    ));
    let (_, receiver) = linked();
    assert!(matches!(
        receive_first_chat(&envelope(), &alice, StoredSession::Found(receiver), None, 0),
        Err(NetworkError::Crypto(CryptoError::RatchetOutOfSync))
    ));
    let (sender, receiver) = linked();
    let sealed = seal_chat_message(Some([1u8; 32]), StoredSession::Found(sender), "text")
        .unwrap_or_else(|_| panic!("sealed"));
    assert!(matches!(
        receive_first_chat(&sealed.envelope, &alice, StoredSession::Found(receiver), None, 0),
        Err(NetworkError::NoIdentitySeed)
    ));
}

#[test]
fn sent_message_is_recorded_as_read() {
    let record = sent_record(
        "id".to_string(),
        &[1u8; 32],
        &[2u8; 32],
        "text".to_string(),
        7,
    );
    assert_eq!(record.id, "id");
    assert_eq!(record.peer_key, [1u8; 32]);
    assert_eq!(record.sender_key, [2u8; 32]);
    assert_eq!(record.recipient_key, [1u8; 32]);
    assert_eq!(record.content, "text");
    assert_eq!(record.timestamp, 7);
    assert!(record.is_read);
}

#[test]
fn network_errors_have_messages() {
    assert_eq!(NetworkError::NoIdentitySeed.message(), "No identity seed");
    assert_eq!(NetworkError::NoSeed.message(), "No seed");
    assert_eq!(NetworkError::NoRatchetState.message(), "No ratchet state");
    assert_eq!(
        NetworkError::NoSession.message(),
        "No ratchet session established"
    );
    assert_eq!(NetworkError::UnknownSender.message(), "Unknown sender signature");
    assert_eq!(
        NetworkError::InvalidPeerKeyLength.message(),
        "Invalid peer pub key length"
    );
    assert_eq!(
        NetworkError::PeerOffline.message(),
        "Peer offline or undiscovered"
    );
    assert_eq!(NetworkError::UnexpectedResponse.message(), "Unexpected response");
    assert_eq!(
        NetworkError::Crypto(CryptoError::InvalidSignature).message(),
        "Invalid signature"
    );
    assert_eq!(
        NetworkError::SignatureRejected("why".to_string()).message(),
        "why"
    );
}

#[test]
fn sender_needs_a_key_of_the_right_length() {
    let contacts = vec![
        (vec![1u8, 2, 3], "short".to_string()),
        (vec![4u8; 32], "right".to_string()),
    ];
    assert!(matches!(
        sender_at(&contacts, Some(0)),
        Err(NetworkError::InvalidPeerKeyLength)
    ));
    assert_eq!(sender_at(&contacts, Some(1)).ok(), Some([4u8; 32]));
    assert!(matches!(
        sender_at(&contacts, None),
        Err(NetworkError::UnknownSender)
    ));
}

#[test]
fn checked_handshake_is_answered() {
    let (pending, init) = begin_handshake(Some([1u8; 32]), &[7u8; 32], &[8u8; 32])
        .unwrap_or_else(|_| panic!("begun"));
    let answer = answer_checked(&[2u8; 32], [12u8; 32], &init, Ok(()))
        .unwrap_or_else(|_| panic!("answered"));
    assert_eq!(answer.session.to_state().dhs_bytes, [12u8; 32]);
    assert!(matches!(
        answer_checked(&[2u8; 32], [12u8; 32], &init, Err(NetworkError::MalformedSignature)),
        Err(NetworkError::MalformedSignature)
    ));
    let session = finish_checked(&pending, &answer.response, Ok(()), [13u8; 32])
        .unwrap_or_else(|_| panic!("finished"));
    assert_eq!(session.to_state().dhp_bytes, answer.response.ephemeral_key);
    assert!(matches!(
        finish_checked(
            &pending,
            &answer.response,
            Err(NetworkError::InvalidIdentityKey),
            [13u8; 32]
        ),
        Err(NetworkError::InvalidIdentityKey)
    ));
}

#[test]
fn unverified_envelope_is_not_opened() {
    let (mut sender, mut receiver) = linked();
    let (ciphertext, nonce, dh_pub, n, pn) = sender.encrypt(b"text", b"id").unwrap();
    let sealed = EncryptedEnvelope {
        message_id: "id".to_string(),
        peer_dh_pub: dh_pub,
        n,
        pn,
        ciphertext,
        nonce,
        signature: Vec::new(),
    };
    let before = receiver.to_bytes().unwrap();
    assert_eq!(
        EncryptedEnvelope::open_with([6u8; 32], sealed.clone(), false, &mut receiver),
        Err(CryptoError::InvalidSignature)
    );
    assert_eq!(receiver.to_bytes().unwrap(), before);
    assert_eq!(
        EncryptedEnvelope::open_with([6u8; 32], sealed, true, &mut receiver),
        Ok(("id".to_string(), b"text".to_vec()))
    );
    assert_eq!(receiver.to_state().dhs_bytes, [6u8; 32]);
}

#[test]
fn outcomes_follow_what_was_read() {
    let peer = [5u8; 32];
    let (session, _) = linked();
    let read = Some(Ok(("id".to_string(), b"text".to_vec())));
    match reader_outcome(session, &peer, read, 7) {
        ReaderStep::Deliver(chat) => {
            assert_eq!(chat.record.id, "id");
            assert_eq!(chat.record.content, "text");
            assert_eq!(chat.record.recipient_key, peer);
        }
        _ => panic!("the message was read"),
    }
    let (session, _) = linked();
    assert!(matches!(
        reader_outcome(session, &peer, Some(Err(CryptoError::InvalidSignature)), 7),
        ReaderStep::Ignore(CryptoError::InvalidSignature)
    ));
    let (session, _) = linked();
    assert!(matches!(
        reader_outcome(session, &peer, None, 7),
        ReaderStep::Exhausted
    ));
    let (session, _) = linked();
    let id = "id".to_string();
    let received = first_outcome(session, &id, &peer, Ok(b"text".to_vec()), Some([2u8; 32]), 7)
        .unwrap_or_else(|_| panic!("received"));
    assert_eq!(received.record.content, "text");
    assert_eq!(received.record.recipient_key, identity(&[2u8; 32]));
    let (session, _) = linked();
    assert!(matches!(
        first_outcome(
            session,
            &id,
            &peer,
            Err(CryptoError::DecryptionError),
            None,
            7
        ),
        Err(NetworkError::Crypto(CryptoError::DecryptionError))
    ));
}
