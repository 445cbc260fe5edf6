//! Chat messages: sealing one for a peer, finding out who sent one, and the step
//! that a connection takes for each one that comes in.

use vstd::prelude::*;

use crate::bytes::utf8;
use crate::crypto::{derive_keys, identity_of, identity_seed, CryptoError, DoubleRatchetSession};
use crate::encoding::{from_utf8_lossy, is_uuid, lossy_text, random_uuid};
use crate::handshake::NetworkError;
use crate::primitives::{
    cipher_accepts_length, ed25519_is_key, ed25519_signature, is_identity_key, random_12,
    random_32,
};
use crate::protocol::{can_read, reads, EncryptedEnvelope, WireMessage};
use crate::ratchet::{decrypts, encrypts, RatchetView, Sealed};
use crate::storage::{stored_key, MessageRecord};

verus! {

/// What the database has of the session with a peer: nothing, bytes that are no
/// session, or the session.
pub enum StoredSession {
    Missing,
    Damaged,
    Found(DoubleRatchetSession),
}

/// A message ready to be sent: the session after it, the envelope, and the bytes
/// that go over the wire.
pub struct SealedChat {
    pub session: DoubleRatchetSession,
    pub envelope: EncryptedEnvelope,
    pub payload: Vec<u8>,
}

/// A message that came in: the session after it, and the record to store.
pub struct ReceivedChat {
    pub session: DoubleRatchetSession,
    pub record: MessageRecord,
}

/// What the ratchet put into an envelope.
pub open spec fn contents(envelope: EncryptedEnvelope) -> Sealed {
    (envelope.ciphertext, envelope.nonce, envelope.peer_dh_pub, envelope.n, envelope.pn)
}

/// What sealing a message gives. It needs an identity, and a session that may
/// send.
pub open spec fn seals_chat(
    seed: Option<[u8; 32]>,
    stored: StoredSession,
    message_id: Seq<char>,
    content: Seq<char>,
    sealed: Result<SealedChat, NetworkError>,
) -> bool {
    match (seed, stored) {
        (None, _) => sealed == Err::<SealedChat, NetworkError>(NetworkError::NoSeed),
        (Some(_), StoredSession::Missing) => sealed == Err::<SealedChat, NetworkError>(
            NetworkError::NoSession,
        ),
        (Some(_), StoredSession::Damaged) => sealed == Err::<SealedChat, NetworkError>(
            NetworkError::Crypto(CryptoError::DecryptionError),
        ),
        (Some(seed), StoredSession::Found(session)) => match sealed {
            Ok(chat) => {
                &&& session@.ck_s is Some
                &&& encrypts(
                    session@,
                    chat.session@,
                    utf8(content),
                    utf8(message_id),
                    Ok(contents(chat.envelope)),
                )
                &&& chat.envelope.message_id@ == message_id
                &&& chat.envelope.signature@ == ed25519_signature(
                    identity_seed(seed@),
                    chat.envelope.signed_bytes(),
                )
                &&& chat.envelope.signed_by(identity_of(seed@))
                &&& chat.payload@ == WireMessage::Chat(chat.envelope).json()
                &&& session@.agreed() ==> chat.session@.agreed()
            },
            Err(error) => if session@.ck_s is None {
                error == NetworkError::Crypto(CryptoError::RatchetOutOfSync)
            } else {
                &&& !cipher_accepts_length(utf8(content).len() as int)
                &&& error == NetworkError::Crypto(CryptoError::EncryptionError)
            },
        },
    }
}

/// Seals a message under a given id and nonce.
pub fn seal_chat_message_with(
    seed: Option<[u8; 32]>,
    stored: StoredSession,
    message_id: String,
    nonce: [u8; 12],
    content: &str,
) -> (sealed: Result<SealedChat, NetworkError>)
    requires
        seed is Some ==> (stored matches StoredSession::Found(session) ==> session@.can_send(
            utf8(content@).len() as int,
        )),
    ensures
        seals_chat(seed, stored, message_id@, content@, sealed),
        sealed matches Ok(chat) ==> chat.envelope.nonce@ == nonce@,
{
    let seed = match seed {
        Some(seed) => seed,
        None => {
            return Err(NetworkError::NoSeed);
        },
    };
    let keys = derive_keys(&seed);
    let mut session = match stored {
        StoredSession::Missing => {
            return Err(NetworkError::NoSession);
        },
        StoredSession::Damaged => {
            return Err(NetworkError::Crypto(CryptoError::DecryptionError));
        },
        StoredSession::Found(session) => session,
    };
    let encrypted = session.encrypt_with(nonce, content.as_bytes(), message_id.as_str().as_bytes());
    let (ciphertext, nonce, dh_pub, n, pn) = match encrypted {
        Ok(parts) => parts,
        Err(error) => {
            return Err(NetworkError::Crypto(error));
        },
    };
    let envelope = EncryptedEnvelope::signed(
        message_id,
        dh_pub,
        n,
        pn,
        ciphertext,
        nonce,
        &keys.identity_key,
    );
    let payload = envelope.to_chat_json();
    Ok(SealedChat { session, envelope, payload })
}

/// Seals a message; its id is a new UUID, and the nonce is drawn at random.
pub fn seal_chat_message(seed: Option<[u8; 32]>, stored: StoredSession, content: &str) -> (sealed:
    Result<SealedChat, NetworkError>)
    requires
        seed is Some ==> (stored matches StoredSession::Found(session) ==> session@.can_send(
            utf8(content@).len() as int,
        )),
    ensures
        exists|message_id: Seq<char>|
            is_uuid(message_id) && #[trigger] seals_chat(
                seed,
                stored,
                message_id,
                content@,
                sealed,
            ),
{
    let message_id = random_uuid();
    let ghost id = message_id@;
    let sealed = seal_chat_message_with(seed, stored, message_id, random_12(), content);
    assert(is_uuid(id) && seals_chat(seed, stored, id, content@, sealed));
    sealed
}

/// The record of a message that was sent. The sender has read it.
pub fn sent_record(
    message_id: String,
    peer_identity: &[u8; 32],
    own_identity: &[u8; 32],
    content: String,
    now: i64,
) -> (record: MessageRecord)
    ensures
        record.id@ == message_id@,
        record.peer_key@ == peer_identity@,
        record.sender_key@ == own_identity@,
        record.recipient_key@ == peer_identity@,
        record.content@ == content@,
        record.timestamp == now,
        record.is_read,
{
    MessageRecord {
        id: message_id,
        peer_key: *peer_identity,
        sender_key: *own_identity,
        recipient_key: *peer_identity,
        content,
        timestamp: now,
        is_read: true,
    }
}

/// The record of a message that came in from a peer: not read yet.
pub open spec fn is_received_record(
    record: MessageRecord,
    message_id: Seq<char>,
    peer: Seq<u8>,
    recipient: Seq<u8>,
    plaintext: Seq<u8>,
    now: i64,
) -> bool {
    &&& record.id@ == message_id
    &&& record.peer_key@ == peer
    &&& record.sender_key@ == peer
    &&& record.recipient_key@ == recipient
    &&& record.content@ == lossy_text(plaintext)
    &&& vstd::utf8::valid_utf8(plaintext) ==> utf8(record.content@) == plaintext
    &&& record.timestamp == now
    &&& !record.is_read
}

/// The record of a message that came in from a peer.
fn received_record(
    message_id: String,
    peer: &[u8; 32],
    recipient: &[u8; 32],
    plaintext: &[u8],
    now: i64,
) -> (record: MessageRecord)
    ensures
        is_received_record(record, message_id@, peer@, recipient@, plaintext@, now),
{
    MessageRecord {
        id: message_id,
        peer_key: *peer,
        sender_key: *peer,
        recipient_key: *recipient,
        content: from_utf8_lossy(plaintext),
        timestamp: now,
        is_read: false,
    }
}

/// The key that a contact's signatures are verified under. A stored key of the
/// wrong length stands for 32 zeros.
pub open spec fn verification_key(stored: Seq<u8>) -> Seq<u8> {
    if stored.len() == 32 {
        stored
    } else {
        Seq::new(32, |i: int| 0u8)
    }
}

/// The contact's key verifies the envelope's signature.
pub open spec fn sent_by(envelope: EncryptedEnvelope, contact: (Vec<u8>, String)) -> bool {
    envelope.signed_by(verification_key(contact.0@))
}

/// Who sent an envelope: the first contact whose key verifies it. A signature of
/// the wrong length comes from nobody.
pub open spec fn identifies(
    envelope: EncryptedEnvelope,
    contacts: Seq<(Vec<u8>, String)>,
    sender: Result<[u8; 32], NetworkError>,
) -> bool {
    if envelope.signature@.len() != 64 {
        sender == Err::<[u8; 32], NetworkError>(NetworkError::MalformedSignature)
    } else if exists|i: int| 0 <= i < contacts.len() && #[trigger] sent_by(envelope, contacts[i]) {
        exists|i: int|
            0 <= i < contacts.len() && #[trigger] sent_by(envelope, contacts[i]) && (forall|j: int|
                0 <= j < i ==> !#[trigger] sent_by(envelope, contacts[j])) && if contacts[i].0@.len()
                == 32 {
                sender matches Ok(key) && key@ == contacts[i].0@
            } else {
                sender == Err::<[u8; 32], NetworkError>(NetworkError::InvalidPeerKeyLength)
            }
    } else {
        sender == Err::<[u8; 32], NetworkError>(NetworkError::UnknownSender)
    }
}

/// The key that a contact's signatures are verified under.
fn key_to_verify(stored: &Vec<u8>) -> (key: [u8; 32])
    ensures
        key@ == verification_key(stored@),
{
    if stored.len() == 32 {
        stored_key(stored)
    } else {
        let key: [u8; 32] = [0u8; 32];
        assert(key@ =~= verification_key(stored@));
        key
    }
}

/// Finds out which contact sent an envelope.
pub fn identify_sender(envelope: &EncryptedEnvelope, contacts: &Vec<(Vec<u8>, String)>) -> (sender:
    Result<[u8; 32], NetworkError>)
    ensures
        identifies(*envelope, contacts@, sender),
{
    if envelope.signature.len() != 64 {
        return Err(NetworkError::MalformedSignature);
    }
    let mut i: usize = 0;
    while i < contacts.len()
        invariant
            i <= contacts@.len(),
            envelope.signature@.len() == 64,
            forall|j: int| 0 <= j < i ==> !#[trigger] sent_by(*envelope, contacts@[j]),
        decreases contacts@.len() - i,
    {
        let key = key_to_verify(&contacts[i].0);
        if envelope.verify(&key) {
            assert(sent_by(*envelope, contacts@[i as int]));
            return sender_at(contacts, Some(i));
        }
        i = i + 1;
    }
    sender_at(contacts, None)
}

/// The identity of the contact whose key verified an envelope, if one did. Its
/// stored key must have the right length.
pub fn sender_at(contacts: &Vec<(Vec<u8>, String)>, found: Option<usize>) -> (sender: Result<
    [u8; 32],
    NetworkError,
>)
    requires
        found matches Some(i) ==> i < contacts@.len(),
    ensures
        match found {
            Some(i) => if contacts@[i as int].0@.len() == 32 {
                sender matches Ok(key) && key@ == contacts@[i as int].0@
            } else {
                sender == Err::<[u8; 32], NetworkError>(NetworkError::InvalidPeerKeyLength)
            },
            None => sender == Err::<[u8; 32], NetworkError>(NetworkError::UnknownSender),
        },
{
    match found {
        Some(i) => if contacts[i].0.len() == 32 {
            Ok(stored_key(&contacts[i].0))
        } else {
            Err(NetworkError::InvalidPeerKeyLength)
        },
        None => Err(NetworkError::UnknownSender),
    }
}

/// What the first message on a connection gives, once its sender is known. The
/// message is decrypted before the own identity is looked at.
pub open spec fn receives_first(
    fresh: Seq<u8>,
    envelope: EncryptedEnvelope,
    peer: Seq<u8>,
    stored: StoredSession,
    seed: Option<[u8; 32]>,
    now: i64,
    received: Result<ReceivedChat, NetworkError>,
) -> bool {
    match stored {
        StoredSession::Missing => received == Err::<ReceivedChat, NetworkError>(
            NetworkError::NoRatchetState,
        ),
        StoredSession::Damaged => received == Err::<ReceivedChat, NetworkError>(
            NetworkError::Crypto(CryptoError::DecryptionError),
        ),
        StoredSession::Found(session) => exists|after: RatchetView, opened: Result<
            Vec<u8>,
            CryptoError,
        >| #[trigger]
            decrypts(
                session@,
                after,
                fresh,
                envelope.ciphertext@,
                envelope.nonce@,
                envelope.peer_dh_pub@,
                envelope.n as nat,
                envelope.pn as nat,
                envelope.associated_data(),
                opened,
            ) && comes_first(
                after,
                envelope.message_id@,
                peer,
                opened,
                seed,
                now,
                received,
            ) && (session@.agreed() ==> (received matches Ok(chat) ==> chat.session@.agreed())),
    }
}

/// What comes of the first message on a connection, where `opened` is what
/// decrypting it gave.
pub open spec fn comes_first(
    session: RatchetView,
    message_id: Seq<char>,
    peer: Seq<u8>,
    opened: Result<Vec<u8>, CryptoError>,
    seed: Option<[u8; 32]>,
    now: i64,
    received: Result<ReceivedChat, NetworkError>,
) -> bool {
    match (opened, seed) {
        (Err(error), _) => received == Err::<ReceivedChat, NetworkError>(
            NetworkError::Crypto(error),
        ),
        (Ok(_), None) => received == Err::<ReceivedChat, NetworkError>(
            NetworkError::NoIdentitySeed,
        ),
        (Ok(plaintext), Some(seed)) => {
            &&& received matches Ok(chat)
            &&& chat.session@ == session
            &&& is_received_record(
                chat.record,
                message_id,
                peer,
                identity_of(seed@),
                plaintext@,
                now,
            )
        },
    }
}

/// Decides what comes of the first message on a connection, once it has been
/// decrypted.
pub fn first_outcome(
    session: DoubleRatchetSession,
    message_id: &String,
    peer: &[u8; 32],
    opened: Result<Vec<u8>, CryptoError>,
    seed: Option<[u8; 32]>,
    now: i64,
) -> (received: Result<ReceivedChat, NetworkError>)
    ensures
        comes_first(session@, message_id@, peer@, opened, seed, now, received),
{
    let plaintext = match opened {
        Ok(plaintext) => plaintext,
        Err(error) => {
            return Err(NetworkError::Crypto(error));
        },
    };
    let seed = match seed {
        Some(seed) => seed,
        None => {
            return Err(NetworkError::NoIdentitySeed);
        },
    };
    let own_identity = derive_keys(&seed).identity_public();
    let record = received_record(message_id.clone(), peer, &own_identity, &plaintext, now);
    Ok(ReceivedChat { session, record })
}

/// Takes in the first message on a connection, whose sender is known, with a
/// given secret for the sending chain that a turn of the ratchet starts.
pub fn receive_first_chat_with(
    fresh: [u8; 32],
    envelope: &EncryptedEnvelope,
    peer: &[u8; 32],
    stored: StoredSession,
    seed: Option<[u8; 32]>,
    now: i64,
) -> (received: Result<ReceivedChat, NetworkError>)
    requires
        stored matches StoredSession::Found(session) ==> session@.can_receive(
            envelope.ciphertext@.len() as int,
            envelope.peer_dh_pub@,
            envelope.n as nat,
            envelope.pn as nat,
        ),
    ensures
        receives_first(fresh@, *envelope, peer@, stored, seed, now, received),
{
    let mut session = match stored {
        StoredSession::Missing => {
            return Err(NetworkError::NoRatchetState);
        },
        StoredSession::Damaged => {
            return Err(NetworkError::Crypto(CryptoError::DecryptionError));
        },
        StoredSession::Found(session) => session,
    };
    let associated_data = envelope.header_bytes();
    let opened = session.decrypt_with(
        fresh,
        &envelope.ciphertext,
        &envelope.nonce,
        envelope.peer_dh_pub,
        envelope.n,
        envelope.pn,
        &associated_data,
    );
    first_outcome(session, &envelope.message_id, peer, opened, seed, now)
}

/// Takes in the first message on a connection, whose sender is known.
pub fn receive_first_chat(
    envelope: &EncryptedEnvelope,
    peer: &[u8; 32],
    stored: StoredSession,
    seed: Option<[u8; 32]>,
    now: i64,
) -> (received: Result<ReceivedChat, NetworkError>)
    requires
        stored matches StoredSession::Found(session) ==> session@.can_receive(
            envelope.ciphertext@.len() as int,
            envelope.peer_dh_pub@,
            envelope.n as nat,
            envelope.pn as nat,
        ),
    ensures
        exists|fresh: Seq<u8>|
            fresh.len() == 32 && #[trigger] receives_first(
                fresh,
                *envelope,
                peer@,
                stored,
                seed,
                now,
                received,
            ),
{
    let fresh = random_32();
    let received = receive_first_chat_with(fresh, envelope, peer, stored, seed, now);
    assert(fresh@.len() == 32);
    received
}

/// What a connection does with a message that came in.
pub enum ReaderStep {
    /// There is no session to read with: the connection is given up.
    Close,
    /// The message could not be read; nothing is stored.
    Ignore(CryptoError),
    /// The message was read: the record and the session are stored.
    Deliver(ReceivedChat),
    /// The counters of the session do not allow another message.
    Exhausted,
}

/// What a connection does with a message that came in from a peer.
pub open spec fn steps(
    fresh: Seq<u8>,
    peer: Seq<u8>,
    stored: StoredSession,
    wire: Option<WireMessage>,
    now: i64,
    step: ReaderStep,
) -> bool {
    match stored {
        StoredSession::Found(session) => if !ed25519_is_key(peer) {
            step == ReaderStep::Close
        } else if !can_read(wire, peer, session@) {
            step == ReaderStep::Exhausted
        } else {
            exists|after: RatchetView, read: Result<(String, Vec<u8>), CryptoError>| #[trigger]
                reads(wire, peer, fresh, session@, after, read) && comes_of(
                    after,
                    peer,
                    Some(read),
                    now,
                    step,
                ) && (session@.agreed() ==> (step matches ReaderStep::Deliver(chat)
                    ==> chat.session@.agreed()))
        },
        _ => step == ReaderStep::Close,
    }
}

/// What comes of reading a message: what was read is delivered, together with the
/// session that read it; what could not be read is ignored.
pub open spec fn comes_of(
    session: RatchetView,
    peer: Seq<u8>,
    read: Option<Result<(String, Vec<u8>), CryptoError>>,
    now: i64,
    step: ReaderStep,
) -> bool {
    match read {
        Some(Ok((message_id, plaintext))) => {
            &&& step matches ReaderStep::Deliver(chat)
            &&& chat.session@ == session
            &&& is_received_record(chat.record, message_id@, peer, peer, plaintext@, now)
        },
        Some(Err(error)) => step == ReaderStep::Ignore(error),
        None => step == ReaderStep::Exhausted,
    }
}

/// Decides what comes of a message that a session has read; `None` stands for one
/// that its counters did not allow it to read.
pub fn reader_outcome(
    session: DoubleRatchetSession,
    peer_identity: &[u8; 32],
    read: Option<Result<(String, Vec<u8>), CryptoError>>,
    now: i64,
) -> (step: ReaderStep)
    ensures
        comes_of(session@, peer_identity@, read, now, step),
{
    match read {
        Some(Ok((message_id, plaintext))) => {
            let record = received_record(message_id, peer_identity, peer_identity, &plaintext, now);
            ReaderStep::Deliver(ReceivedChat { session, record })
        },
        Some(Err(error)) => ReaderStep::Ignore(error),
        None => ReaderStep::Exhausted,
    }
}

/// Decides what to do with a message that came in on the connection of a peer,
/// with a given secret for the sending chain that a turn of the ratchet starts.
/// `None` stands for bytes that are no message.
pub fn reader_step_with(
    fresh: [u8; 32],
    peer_identity: &[u8; 32],
    stored: StoredSession,
    wire: Option<WireMessage>,
    now: i64,
) -> (step: ReaderStep)
    ensures
        steps(fresh@, peer_identity@, stored, wire, now, step),
{
    let mut session = match stored {
        StoredSession::Found(session) => session,
        _ => {
            return ReaderStep::Close;
        },
    };
    if !is_identity_key(peer_identity) {
        return ReaderStep::Close;
    }
    let read = EncryptedEnvelope::try_verify_and_decrypt_with(
        fresh,
        wire,
        peer_identity,
        &mut session,
    );
    reader_outcome(session, peer_identity, read, now)
}

/// Decides what to do with a message that came in on the connection of a peer.
pub fn reader_step(
    peer_identity: &[u8; 32],
    stored: StoredSession,
    wire: Option<WireMessage>,
    now: i64,
) -> (step: ReaderStep)
    ensures
        exists|fresh: Seq<u8>|
            fresh.len() == 32 && #[trigger] steps(
                fresh,
                peer_identity@,
                stored,
                wire,
                now,
                step,
            ),
{
    let fresh = random_32();
    let step = reader_step_with(fresh, peer_identity, stored, wire, now);
    assert(fresh@.len() == 32);
    step
}

} // verus!
