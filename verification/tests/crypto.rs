use loom::crypto::{
    decrypt_symmetric, derive_keys, encrypt_symmetric, encrypt_symmetric_with,
    generate_master_seed, CryptoError, DoubleRatchetSession,
};
use loom::protocol::{compute_3dh_initiator, compute_3dh_responder};
use loom::ratchet::DoubleRatchetState;
use rand::RngCore;

fn unhex(text: &str) -> Vec<u8> {
    hex::decode(text).unwrap()
}

/// The public key of a secret.
fn public(secret: [u8; 32]) -> [u8; 32] {
    x25519_dalek::PublicKey::from(&x25519_dalek::StaticSecret::from(secret)).to_bytes()
}

/// The side that sends first, and the side that waits.
fn pair() -> (DoubleRatchetSession, DoubleRatchetSession) {
    let active =
        DoubleRatchetSession::initialize_active_with([3u8; 32], public([2u8; 32]), [4u8; 32]);
    let passive =
        DoubleRatchetSession::initialize_passive([2u8; 32], public([21u8; 32]), [4u8; 32]);
    (active, passive)
}

type Message = (Vec<u8>, [u8; 12], [u8; 32], u32, u32);

fn send(session: &mut DoubleRatchetSession, text: &[u8]) -> Message {
    session.encrypt(text, b"AD").unwrap()
}

fn full_ad(message: &Message) -> Vec<u8> {
    let mut ad = b"AD".to_vec();
    ad.extend_from_slice(&message.2);
    ad.extend_from_slice(&message.3.to_be_bytes());
    ad.extend_from_slice(&message.4.to_be_bytes());
    ad
}

fn receive(session: &mut DoubleRatchetSession, message: &Message) -> Result<Vec<u8>, CryptoError> {
    let (ciphertext, nonce, dh_pub, n, pn) = message;
    session.decrypt(ciphertext, nonce, *dh_pub, *n, *pn, &full_ad(message))
}

#[test]
fn test_cryptography_and_ratchet() {
    let alice_seed = generate_master_seed();
    let bob_seed = generate_master_seed();

    let alice_keys = derive_keys(&alice_seed);
    let bob_keys = derive_keys(&bob_seed);

    let mut alice_ephemeral_secret = [0u8; 32];
    rand::thread_rng().fill_bytes(&mut alice_ephemeral_secret);
    let alice_ephemeral_pub = public(alice_ephemeral_secret);

    let mut bob_ephemeral_secret = [0u8; 32];
    rand::thread_rng().fill_bytes(&mut bob_ephemeral_secret);
    let bob_ephemeral_pub = public(bob_ephemeral_secret);

    let alice_root = compute_3dh_responder(
        &alice_keys.dh_secret,
        &alice_ephemeral_secret,
        &bob_keys.dh_public,
        &bob_ephemeral_pub,
    );
    let bob_root = compute_3dh_initiator(
        &bob_keys.dh_secret,
        &bob_ephemeral_secret,
        &alice_keys.dh_public,
        &alice_ephemeral_pub,
    );
    assert_eq!(alice_root, bob_root);

    let mut alice_session = DoubleRatchetSession::initialize_passive(
        alice_ephemeral_secret,
        bob_ephemeral_pub,
        alice_root,
    );
    let mut bob_session = DoubleRatchetSession::initialize_active(
        bob_ephemeral_secret,
        alice_ephemeral_pub,
        bob_root,
    );

    let msg = b"Hello Alice!";
    let ad = b"AD";
    let (ciphertext, nonce, dh_pub, n, pn) = bob_session.encrypt(msg, ad).unwrap();

    let mut full_ad = Vec::new();
    full_ad.extend_from_slice(ad);
    full_ad.extend_from_slice(&dh_pub);
    full_ad.extend_from_slice(&n.to_be_bytes());
    full_ad.extend_from_slice(&pn.to_be_bytes());

    let decrypted = alice_session
        .decrypt(&ciphertext, &nonce, dh_pub, n, pn, &full_ad)
        .unwrap();
    assert_eq!(decrypted, msg);
}

#[test]
fn derived_keys_are_exact() {
    let keys = derive_keys(&[1u8; 32]);
    assert_eq!(
        keys.identity_key.to_vec(),
        unhex("db242ad57fb438dafaf37d98174cb09e625ee96868691a2f5c6bc3bb283c70e4")
    );
    assert_eq!(
        keys.dh_secret.to_vec(),
        unhex("0ad204990a9dbab27dab085f822514dc2ca1936033a3b8507ff099b2856b1c20")
    );
    assert_eq!(
        keys.dh_public.to_vec(),
        unhex("18c63888f97eb21845379ea138c38a9284d695d310f32ea8be3420bf6f8ddb41")
    );
    assert_eq!(
        keys.identity_public().to_vec(),
        unhex("1b0d379b59a69fe44035213437cb3f624efb15f284df54f6af2a5312631a3316")
    );
}

#[test]
fn master_seeds_differ() {
    assert_ne!(generate_master_seed(), generate_master_seed());
}

#[test]
fn root_key_is_exact() {
    let root = compute_3dh_initiator(
        &[11u8; 32],
        &[12u8; 32],
        &public([13u8; 32]),
        &public([14u8; 32]),
    );
    assert_eq!(
        root.to_vec(),
        unhex("3f8ad5ad48c595e9f41c53479c14ca5757e417175a0c5db59c5d53ff69eed9b3")
    );
    let other = compute_3dh_responder(
        &[13u8; 32],
        &[14u8; 32],
        &public([11u8; 32]),
        &public([12u8; 32]),
    );
    assert_eq!(root, other);
}

#[test]
fn symmetric_ciphertext_is_exact() {
    let sealed =
        encrypt_symmetric_with(&[1u8; 32], &[2u8; 12], b"plaintext", b"data").unwrap();
    assert_eq!(sealed, unhex("96709347e3d78da205b76d62840a0b4126a459a316a2037055"));
    assert_eq!(
        decrypt_symmetric(&[1u8; 32], &sealed, &[2u8; 12], b"data"),
        Ok(b"plaintext".to_vec())
    );
}

#[test]
fn symmetric_encryption_draws_a_nonce() {
    let (first, first_nonce) = encrypt_symmetric(&[1u8; 32], b"plaintext", b"data").unwrap();
    let (second, second_nonce) = encrypt_symmetric(&[1u8; 32], b"plaintext", b"data").unwrap();
    assert_ne!(first_nonce, second_nonce);
    assert_ne!(first, second);
    assert_eq!(
        decrypt_symmetric(&[1u8; 32], &first, &first_nonce, b"data"),
        Ok(b"plaintext".to_vec())
    );
}

#[test]
fn tampered_ciphertext_is_refused() {
    let sealed =
        encrypt_symmetric_with(&[1u8; 32], &[2u8; 12], b"plaintext", b"data").unwrap();
    let refused = Err(CryptoError::DecryptionError);
    let mut flipped = sealed.clone();
    flipped[0] ^= 1;
    assert_eq!(decrypt_symmetric(&[1u8; 32], &flipped, &[2u8; 12], b"data"), refused);
    assert_eq!(decrypt_symmetric(&[1u8; 32], &sealed, &[2u8; 12], b"Data"), refused);
    assert_eq!(decrypt_symmetric(&[1u8; 32], &sealed, &[3u8; 12], b"data"), refused);
    assert_eq!(decrypt_symmetric(&[2u8; 32], &sealed, &[2u8; 12], b"data"), refused);
    assert_eq!(decrypt_symmetric(&[1u8; 32], &sealed[..15], &[2u8; 12], b"data"), refused);
    assert_eq!(decrypt_symmetric(&[1u8; 32], b"", &[2u8; 12], b"data"), refused);
}

#[test]
fn first_message_of_a_session_is_exact() {
    let (mut active, _) = pair();
    let (ciphertext, nonce, dh_pub, n, pn) =
        active.encrypt_with([5u8; 12], b"Hello", b"AD").unwrap();
    assert_eq!(ciphertext, unhex("509a18031c9a8ec70e522dccc33357b3b069bcf569"));
    assert_eq!(nonce, [5u8; 12]);
    assert_eq!(
        dh_pub.to_vec(),
        unhex("5dfedd3b6bd47f6fa28ee15d969d5bb0ea53774d488bdaf9df1c6e0124b3ef22")
    );
    assert_eq!((n, pn), (0, 0));
    assert_eq!(
        String::from_utf8(active.to_bytes().unwrap()).unwrap(),
        "{\"dhs_bytes\":[3,3,3,3,3,3,3,3,3,3,3,3,3,3,3,3,3,3,3,3,3,3,3,3,3,3,3,3,3,3,3,3],\"dhp_bytes\":[206,141,58,209,204,182,51,236,123,112,193,120,20,165,199,110,205,2,150,133,5,13,52,71,69,186,5,135,14,88,125,89],\"rk\":[218,121,223,52,148,129,181,133,59,178,177,82,183,15,46,162,156,196,231,171,167,140,46,184,6,250,190,234,110,176,135,170],\"ck_s\":[160,222,118,187,184,81,32,126,217,143,174,3,171,220,159,215,23,168,33,66,103,113,51,197,159,61,126,177,249,21,0,67],\"ck_r\":null,\"ns\":1,\"nr\":0,\"pn\":0,\"skipped_message_keys\":[]}"
    );
}

#[test]
fn messages_are_numbered_in_order() {
    let (mut active, mut passive) = pair();
    for number in 0..5u32 {
        let text = format!("Msg {}", number);
        let message = send(&mut active, text.as_bytes());
        assert_eq!(message.3, number);
        assert_eq!(receive(&mut passive, &message), Ok(text.into_bytes()));
    }
}

#[test]
fn passive_side_cannot_send_first() {
    let (_, mut passive) = pair();
    let before = passive.to_bytes().unwrap();
    assert!(matches!(
        passive.encrypt(b"too early", b"AD"),
        Err(CryptoError::RatchetOutOfSync)
    ));
    assert_eq!(passive.to_bytes().unwrap(), before);
}

#[test]
fn conversation_turns_back_and_forth() {
    let (mut active, mut passive) = pair();
    for round in 0..4 {
        let there = format!("there {}", round);
        let message = send(&mut active, there.as_bytes());
        assert_eq!(receive(&mut passive, &message), Ok(there.into_bytes()));
        let back = format!("back {}", round);
        let message = send(&mut passive, back.as_bytes());
        assert_eq!(receive(&mut active, &message), Ok(back.into_bytes()));
    }
}

#[test]
fn messages_may_overtake_each_other() {
    let (mut active, mut passive) = pair();
    let first = send(&mut active, b"first");
    let second = send(&mut active, b"second");
    let third = send(&mut active, b"third");
    assert_eq!(receive(&mut passive, &third), Ok(b"third".to_vec()));
    assert_eq!(receive(&mut passive, &first), Ok(b"first".to_vec()));
    assert_eq!(receive(&mut passive, &second), Ok(b"second".to_vec()));
}

#[test]
fn late_message_of_the_chain_before_is_read() {
    let (mut active, mut passive) = pair();
    let first = send(&mut active, b"first");
    let late = send(&mut active, b"late");
    assert_eq!(receive(&mut passive, &first), Ok(b"first".to_vec()));
    let answer = send(&mut passive, b"answer");
    assert_eq!(receive(&mut active, &answer), Ok(b"answer".to_vec()));
    let turned = send(&mut active, b"turned");
    assert_eq!(turned.4, 2);
    assert_eq!(receive(&mut passive, &turned), Ok(b"turned".to_vec()));
    assert_eq!(receive(&mut passive, &late), Ok(b"late".to_vec()));
}

#[test]
fn kept_keys_are_saved_with_the_session() {
    let (mut active, mut passive) = pair();
    let mut last = send(&mut active, b"0");
    for _ in 1..3 {
        last = send(&mut active, b"later");
    }
    let (ciphertext, nonce, dh_pub, n, pn) = &last;
    let opened = passive.decrypt_with(
        [6u8; 32],
        ciphertext,
        nonce,
        *dh_pub,
        *n,
        *pn,
        &full_ad(&last),
    );
    assert_eq!(opened, Ok(b"later".to_vec()));
    assert_eq!(
        String::from_utf8(passive.to_bytes().unwrap()).unwrap(),
        "{\"dhs_bytes\":[6,6,6,6,6,6,6,6,6,6,6,6,6,6,6,6,6,6,6,6,6,6,6,6,6,6,6,6,6,6,6,6],\"dhp_bytes\":[93,254,221,59,107,212,127,111,162,142,225,93,150,157,91,176,234,83,119,77,72,139,218,249,223,28,110,1,36,179,239,34],\"rk\":[76,164,164,255,188,131,75,188,241,254,47,124,60,154,228,179,108,252,22,234,167,237,205,62,107,116,208,240,80,62,93,37],\"ck_s\":[202,80,99,96,141,173,25,153,214,181,177,2,115,178,92,104,113,250,52,141,218,78,56,95,162,27,42,90,183,24,172,156],\"ck_r\":[172,203,4,204,103,172,238,126,123,5,203,69,106,225,14,1,236,137,102,228,159,141,222,81,189,247,216,146,149,22,97,60],\"ns\":0,\"nr\":3,\"pn\":0,\"skipped_message_keys\":[[[[93,254,221,59,107,212,127,111,162,142,225,93,150,157,91,176,234,83,119,77,72,139,218,249,223,28,110,1,36,179,239,34],0],[188,168,86,225,69,56,216,251,19,76,253,65,4,98,112,191,121,121,121,103,16,18,228,99,167,90,96,87,238,179,59,73]],[[[93,254,221,59,107,212,127,111,162,142,225,93,150,157,91,176,234,83,119,77,72,139,218,249,223,28,110,1,36,179,239,34],1],[72,121,3,252,29,232,197,75,66,146,34,217,93,90,211,115,23,61,193,37,251,20,218,125,81,132,178,126,13,218,143,185]]]}"
    );
}

#[test]
fn restored_session_goes_on() {
    let (mut active, mut passive) = pair();
    let first = send(&mut active, b"first");
    let second = send(&mut active, b"second");
    assert_eq!(receive(&mut passive, &second), Ok(b"second".to_vec()));
    let saved = passive.to_bytes().unwrap();
    let mut restored = DoubleRatchetSession::from_state(passive.to_state());
    assert_eq!(restored.to_bytes().unwrap(), saved);
    assert_eq!(receive(&mut restored, &first), Ok(b"first".to_vec()));
    let answer = send(&mut restored, b"answer");
    assert_eq!(receive(&mut active, &answer), Ok(b"answer".to_vec()));
}

#[test]
fn later_entry_of_a_saved_key_counts() {
    let state = DoubleRatchetState {
        dhs_bytes: [1u8; 32],
        dhp_bytes: [2u8; 32],
        rk: [3u8; 32],
        ck_s: None,
        ck_r: None,
        ns: 0,
        nr: 0,
        pn: 0,
        skipped_message_keys: vec![
            ((vec![9u8; 3], 1), [4u8; 32]),
            ((vec![9u8; 3], 2), [5u8; 32]),
            ((vec![9u8; 3], 1), [6u8; 32]),
        ],
    };
    let listed = DoubleRatchetSession::from_state(state).to_state().skipped_message_keys;
    assert_eq!(listed.len(), 2);
    assert!(listed.contains(&((vec![9u8; 3], 1), [6u8; 32])));
    assert!(listed.contains(&((vec![9u8; 3], 2), [5u8; 32])));
}

#[test]
fn hundred_messages_may_be_skipped_and_no_more() {
    let (mut active, mut passive) = pair();
    let mut messages = Vec::new();
    for _ in 0..103 {
        messages.push(send(&mut active, b"text"));
    }
    let before = passive.to_bytes().unwrap();
    // Turning to the chain is allowed by the header; the number is not.
    assert_eq!(
        receive(&mut passive, &messages[101]),
        Err(CryptoError::RatchetOutOfSync)
    );
    assert_ne!(passive.to_bytes().unwrap(), before);

    let mut passive =
        DoubleRatchetSession::initialize_passive([2u8; 32], public([21u8; 32]), [4u8; 32]);
    assert_eq!(receive(&mut passive, &messages[100]), Ok(b"text".to_vec()));
    assert_eq!(passive.to_state().skipped_message_keys.len(), 100);
    assert_eq!(receive(&mut passive, &messages[0]), Ok(b"text".to_vec()));
    assert_eq!(passive.to_state().skipped_message_keys.len(), 99);
}

#[test]
fn refused_skip_in_a_chain_changes_nothing() {
    let (mut active, mut passive) = pair();
    let first = send(&mut active, b"first");
    assert_eq!(receive(&mut passive, &first), Ok(b"first".to_vec()));
    let mut far = send(&mut active, b"second");
    far.3 = 102;
    let before = passive.to_bytes().unwrap();
    assert_eq!(receive(&mut passive, &far), Err(CryptoError::RatchetOutOfSync));
    assert_eq!(passive.to_bytes().unwrap(), before);
}

#[test]
fn known_key_without_a_chain_is_out_of_sync() {
    let (_, mut passive) = pair();
    let refused = passive.decrypt(&[0u8; 20], &[0u8; 12], public([21u8; 32]), 0, 0, b"AD");
    assert_eq!(refused, Err(CryptoError::RatchetOutOfSync));
}

/// The same public key with its top bit set.
fn with_top_bit(key: [u8; 32]) -> [u8; 32] {
    let mut other = key;
    other[31] |= 0x80;
    assert_ne!(other, key);
    other
}

#[test]
fn known_key_with_its_top_bit_set_is_out_of_sync() {
    let mut passive = DoubleRatchetSession::initialize_passive([1u8; 32], [9u8; 32], [3u8; 32]);
    let before = passive.to_bytes().unwrap();
    let header = with_top_bit([9u8; 32]);
    assert_eq!(header[31], 137);
    assert_eq!(
        passive.decrypt(&[], &[0u8; 12], header, 0, 0, b"AD"),
        Err(CryptoError::RatchetOutOfSync)
    );
    assert_eq!(passive.to_bytes().unwrap(), before);
}

#[test]
fn known_key_encoded_beyond_the_prime_is_out_of_sync() {
    let mut known = [0u8; 32];
    known[0] = 9;
    // 9 + (2^255 - 19), the least significant byte first.
    let mut header = [0xffu8; 32];
    header[0] = 0xf6;
    header[31] = 0x7f;
    let mut passive = DoubleRatchetSession::initialize_passive([1u8; 32], known, [3u8; 32]);
    let before = passive.to_bytes().unwrap();
    assert_eq!(
        passive.decrypt(&[], &[0u8; 12], header, 0, 0, b"AD"),
        Err(CryptoError::RatchetOutOfSync)
    );
    assert_eq!(passive.to_bytes().unwrap(), before);

    // The neighbouring number is another key, and turns the ratchet.
    header[0] = 0xf7;
    assert_eq!(
        passive.decrypt(&[], &[0u8; 12], header, 0, 0, b"AD"),
        Err(CryptoError::DecryptionError)
    );
    assert_eq!(passive.to_state().dhp_bytes, header);
}

#[test]
fn other_encoding_of_the_key_reads_on_in_the_chain() {
    let (mut active, mut passive) = pair();
    let first = send(&mut active, b"first");
    let second = send(&mut active, b"second");
    let third = send(&mut active, b"third");
    assert_eq!(receive(&mut passive, &first), Ok(b"first".to_vec()));
    let secret = passive.to_state().dhs_bytes;

    // The message key is the right one; the text was bound to the bytes sent.
    let (ciphertext, nonce, dh_pub, n, pn) = &second;
    let header = with_top_bit(*dh_pub);
    assert_eq!(
        passive.decrypt(ciphertext, nonce, header, *n, *pn, &full_ad(&second)),
        Ok(b"second".to_vec())
    );
    let mut renamed = third.clone();
    renamed.2 = with_top_bit(third.2);
    assert_eq!(receive(&mut passive, &renamed), Err(CryptoError::DecryptionError));

    let state = passive.to_state();
    assert_eq!(state.dhs_bytes, secret);
    assert_eq!(state.dhp_bytes, *dh_pub);
    assert_eq!(state.nr, 3);
    assert!(passive.can_decrypt(20, &header, 103, 0));
}

#[test]
fn kept_keys_are_found_by_the_bytes_alone() {
    let (mut active, mut passive) = pair();
    let first = send(&mut active, b"first");
    let second = send(&mut active, b"second");
    assert_eq!(receive(&mut passive, &second), Ok(b"second".to_vec()));
    let (ciphertext, nonce, dh_pub, n, pn) = &first;
    assert_eq!(
        passive.decrypt(ciphertext, nonce, with_top_bit(*dh_pub), *n, *pn, &full_ad(&first)),
        Err(CryptoError::DecryptionError)
    );
    assert_eq!(passive.to_state().skipped_message_keys.len(), 1);
    assert_eq!(receive(&mut passive, &first), Ok(b"first".to_vec()));
}

#[test]
fn widest_gap_is_tried_and_the_next_is_refused() {
    let mut passive = DoubleRatchetSession::initialize_passive([1u8; 32], [9u8; 32], [3u8; 32]);
    assert_eq!(
        passive.decrypt(&[], &[0u8; 12], [5u8; 32], 101, 0, b"AD"),
        Err(CryptoError::RatchetOutOfSync)
    );
    let mut passive = DoubleRatchetSession::initialize_passive([1u8; 32], [9u8; 32], [3u8; 32]);
    assert_eq!(
        passive.decrypt(&[], &[0u8; 12], [5u8; 32], 100, 0, b"AD"),
        Err(CryptoError::DecryptionError)
    );
    assert_eq!(passive.to_state().skipped_message_keys.len(), 100);
}

#[test]
fn text_shorter_than_the_tag_is_refused() {
    for length in 0..16usize {
        assert_eq!(
            decrypt_symmetric(&[1u8; 32], &vec![0u8; length], &[2u8; 12], b"AD"),
            Err(CryptoError::DecryptionError)
        );
    }
}

#[test]
fn sending_in_a_row_moves_the_chain_alone() {
    let (mut active, _) = pair();
    let before = active.to_state();
    let mut chain_keys = vec![before.ck_s];
    for number in 0..6u32 {
        let message = send(&mut active, b"text");
        assert_eq!(message.2, public([3u8; 32]));
        assert_eq!(message.3, number);
        assert_eq!(message.4, 0);
        let state = active.to_state();
        assert_eq!(state.ns, number + 1);
        assert!(!chain_keys.contains(&state.ck_s));
        chain_keys.push(state.ck_s);
        assert_eq!(state.dhs_bytes, before.dhs_bytes);
        assert_eq!(state.dhp_bytes, before.dhp_bytes);
        assert_eq!(state.rk, before.rk);
        assert_eq!(state.ck_r, before.ck_r);
        assert_eq!(state.nr, before.nr);
        assert_eq!(state.pn, before.pn);
        assert!(state.skipped_message_keys.is_empty());
    }
}

#[test]
fn messages_come_in_any_order() {
    // Multiples of a number prime to 101 visit every message once.
    for step in [1usize, 7, 50, 100] {
        let (mut active, mut passive) = pair();
        let mut messages = Vec::new();
        for number in 0..101 {
            messages.push(send(&mut active, format!("Msg {}", number).as_bytes()));
        }
        let mut number = 100;
        for _ in 0..101 {
            assert_eq!(
                receive(&mut passive, &messages[number]),
                Ok(format!("Msg {}", number).into_bytes())
            );
            number = (number + step) % 101;
        }
        assert!(passive.to_state().skipped_message_keys.is_empty());
        assert_eq!(passive.to_state().nr, 101);
    }
}

#[test]
fn kept_key_is_spent_by_a_forged_message() {
    let (mut active, mut passive) = pair();
    let first = send(&mut active, b"first");
    let second = send(&mut active, b"second");
    assert_eq!(receive(&mut passive, &second), Ok(b"second".to_vec()));
    let mut forged = first.clone();
    forged.0[0] ^= 1;
    assert_eq!(receive(&mut passive, &forged), Err(CryptoError::DecryptionError));
    let (ciphertext, nonce, dh_pub, n, _) = &first;
    assert_eq!(
        passive.decrypt_skipped(ciphertext, nonce, *dh_pub, *n, &full_ad(&first)),
        Err(CryptoError::DecryptionError)
    );
}

#[test]
fn kept_key_opens_its_message() {
    let (mut active, mut passive) = pair();
    let first = send(&mut active, b"first");
    let second = send(&mut active, b"second");
    assert_eq!(receive(&mut passive, &second), Ok(b"second".to_vec()));
    let (ciphertext, nonce, dh_pub, n, _) = &first;
    assert_eq!(
        passive.decrypt_skipped(ciphertext, nonce, *dh_pub, *n, &full_ad(&first)),
        Ok(b"first".to_vec())
    );
    assert!(passive.to_state().skipped_message_keys.is_empty());
}

#[test]
fn counters_are_checked_before_their_limit() {
    let state = |ns: u32, nr: u32| DoubleRatchetState {
        dhs_bytes: [1u8; 32],
        dhp_bytes: [2u8; 32],
        rk: [3u8; 32],
        ck_s: Some([4u8; 32]),
        ck_r: Some([5u8; 32]),
        ns,
        nr,
        pn: 0,
        skipped_message_keys: Vec::new(),
    };
    let session = DoubleRatchetSession::from_state(state(u32::MAX - 1, 0));
    assert!(session.can_encrypt(5));
    let session = DoubleRatchetSession::from_state(state(u32::MAX, 0));
    assert!(!session.can_encrypt(5));
    let session = DoubleRatchetSession::from_state(state(0, u32::MAX - 100));
    assert!(session.can_decrypt(20, &[2u8; 32], u32::MAX - 1, 0));
    assert!(!session.can_decrypt(20, &[2u8; 32], u32::MAX, 0));
    let session = DoubleRatchetSession::from_state(state(0, u32::MAX - 99));
    assert!(!session.can_decrypt(20, &[2u8; 32], 0, 0));
    let session = DoubleRatchetSession::from_state(state(0, 0));
    assert!(session.can_decrypt(20, &[9u8; 32], 5, 5));
    assert!(session.can_decrypt(0, &[2u8; 32], 0, 0));
}

#[test]
fn crypto_errors_have_messages() {
    assert_eq!(CryptoError::EncryptionError.message(), "Encryption failed");
    assert_eq!(CryptoError::DecryptionError.message(), "Decryption failed");
    assert_eq!(CryptoError::InvalidSignature.message(), "Invalid signature");
    assert_eq!(CryptoError::InvalidKeyFormat.message(), "Invalid key format");
    assert_eq!(CryptoError::RatchetOutOfSync.message(), "Ratchet out of sync");
}

#[test]
fn message_is_read_only_once() {
    let (mut active, mut passive) = pair();
    let first = send(&mut active, b"first");
    let second = send(&mut active, b"second");
    assert_eq!(receive(&mut passive, &first), Ok(b"first".to_vec()));
    let saved = passive.to_state();
    assert_eq!(receive(&mut passive, &first), Err(CryptoError::DecryptionError));
    // The session as it was saved before goes on.
    let mut passive = DoubleRatchetSession::from_state(saved);
    assert_eq!(receive(&mut passive, &second), Ok(b"second".to_vec()));
}

#[test]
fn sending_leaves_kept_keys_alone() {
    let (mut active, mut passive) = pair();
    let first = send(&mut active, b"first");
    let second = send(&mut active, b"second");
    assert_eq!(receive(&mut passive, &second), Ok(b"second".to_vec()));
    let kept = passive.to_state().skipped_message_keys;
    send(&mut passive, b"answer");
    assert_eq!(passive.to_state().skipped_message_keys, kept);
    assert_eq!(receive(&mut passive, &first), Ok(b"first".to_vec()));
}

#[test]
fn turn_stays_due_while_old_messages_come_in() {
    let (mut active, mut passive) = pair();
    let first = send(&mut active, b"first");
    let second = send(&mut active, b"second");
    let third = send(&mut active, b"third");
    assert_eq!(receive(&mut passive, &second), Ok(b"second".to_vec()));
    let answer = send(&mut passive, b"answer");
    assert_eq!(receive(&mut passive, &third), Ok(b"third".to_vec()));
    assert_eq!(receive(&mut passive, &first), Ok(b"first".to_vec()));
    assert_eq!(receive(&mut active, &answer), Ok(b"answer".to_vec()));
}

#[test]
fn different_sessions_are_saved_differently() {
    let (mut active, passive) = pair();
    let before = active.to_bytes().unwrap();
    assert_ne!(before, passive.to_bytes().unwrap());
    send(&mut active, b"first");
    assert_ne!(before, active.to_bytes().unwrap());
}
