//! From one end of a conversation to the other: what is sealed for a peer is what
//! the peer's side stores.

use vstd::prelude::*;

use crate::bytes::utf8;
use crate::chat::{
    comes_first, comes_of, contents, identifies, receives_first, seals_chat, sent_by, steps,
    ReaderStep, ReceivedChat, SealedChat, StoredSession,
};
use crate::conversation::{law_message_is_read, sends_on, within_reach};
use crate::crypto::{identity_of, CryptoError, DoubleRatchetSession};
use crate::handshake::NetworkError;
use crate::primitives::ed25519_is_key;
use crate::protocol::{can_read, plaintext_of, reads, EncryptedEnvelope, WireMessage};
use crate::ratchet::{decrypts, DoubleRatchetState, RatchetView};

verus! {

/// The bytes of a text are its UTF-8 form, every character of it, one after the
/// other.
pub proof fn law_text_is_written_whole(text: Seq<char>)
    ensures
        utf8(text) == vstd::utf8::encode_utf8(text),
        vstd::utf8::decode_utf8(utf8(text)) == text,
{
    vstd::utf8::encode_utf8_decode_utf8(text);
}

/// A text can be read off its UTF-8 bytes.
pub proof fn law_utf8_is_read_back(left: Seq<char>, right: Seq<char>)
    requires
        utf8(left) == utf8(right),
    ensures
        left == right,
        vstd::utf8::valid_utf8(utf8(left)),
{
    vstd::utf8::encode_utf8_decode_utf8(left);
    vstd::utf8::encode_utf8_decode_utf8(right);
    vstd::utf8::encode_utf8_valid_utf8(left);
}

/// A session that was saved and loaded is the one it was.
pub proof fn law_saved_session_is_restored(
    session: DoubleRatchetSession,
    state: DoubleRatchetState,
    restored: DoubleRatchetSession,
)
    requires
        state@ == session@,
        restored@ == state@,
    ensures
        restored@ == session@,
        session@.agreed() ==> restored@.agreed(),
{
}

/// The receiver of a sealed message, within whose reach it is, opens it to the
/// text that was sealed.
proof fn lemma_chat_opens(
    seed: [u8; 32],
    sender: DoubleRatchetSession,
    message_id: Seq<char>,
    content: Seq<char>,
    chat: SealedChat,
    first: Seq<u8>,
    later: RatchetView,
    receiver: RatchetView,
    after: RatchetView,
    fresh: Seq<u8>,
    opened: Result<Vec<u8>, CryptoError>,
)
    requires
        seals_chat(
            Some(seed),
            StoredSession::Found(sender),
            message_id,
            content,
            Ok(chat),
        ),
        sends_on(sender@, chat.envelope.peer_dh_pub@, first),
        within_reach(
            receiver,
            later,
            chat.envelope.peer_dh_pub@,
            first,
            chat.envelope.n as nat,
            chat.envelope.pn as nat,
        ),
        decrypts(
            receiver,
            after,
            fresh,
            chat.envelope.ciphertext@,
            chat.envelope.nonce@,
            chat.envelope.peer_dh_pub@,
            chat.envelope.n as nat,
            chat.envelope.pn as nat,
            chat.envelope.associated_data(),
            opened,
        ),
    ensures
        opened matches Ok(plaintext) && plaintext@ == utf8(content),
{
    law_message_is_read(
        sender@,
        chat.session@,
        utf8(content),
        utf8(message_id),
        contents(chat.envelope),
        later,
        receiver,
        after,
        first,
        fresh,
        opened,
    );
}

/// A message that was sealed is delivered by the reader at the other end: with its
/// id, its text as it was typed, and the sender's identity.
pub proof fn law_sealed_message_is_delivered(
    seed: [u8; 32],
    sender: DoubleRatchetSession,
    message_id: Seq<char>,
    content: Seq<char>,
    chat: SealedChat,
    first: Seq<u8>,
    later: RatchetView,
    receiver: DoubleRatchetSession,
    fresh: Seq<u8>,
    now: i64,
    step: ReaderStep,
)
    requires
        seals_chat(
            Some(seed),
            StoredSession::Found(sender),
            message_id,
            content,
            Ok(chat),
        ),
        sends_on(sender@, chat.envelope.peer_dh_pub@, first),
        within_reach(
            receiver@,
            later,
            chat.envelope.peer_dh_pub@,
            first,
            chat.envelope.n as nat,
            chat.envelope.pn as nat,
        ),
        can_read(Some(WireMessage::Chat(chat.envelope)), identity_of(seed@), receiver@),
        steps(
            fresh,
            identity_of(seed@),
            StoredSession::Found(receiver),
            Some(WireMessage::Chat(chat.envelope)),
            now,
            step,
        ),
    ensures
        step matches ReaderStep::Deliver(received) && {
            &&& received.record.id@ == message_id
            &&& received.record.content@ == content
            &&& received.record.peer_key@ == identity_of(seed@)
            &&& received.record.sender_key@ == identity_of(seed@)
            &&& received.record.timestamp == now
            &&& !received.record.is_read
        },
{
    let wire = Some(WireMessage::Chat(chat.envelope));
    let peer = identity_of(seed@);
    assert(ed25519_is_key(peer));
    let (after, read) = choose|after: RatchetView, read: Result<(String, Vec<u8>), CryptoError>|
        #[trigger] reads(wire, peer, fresh, receiver@, after, read) && comes_of(
            after,
            peer,
            Some(read),
            now,
            step,
        );
    lemma_chat_opens(
        seed,
        sender,
        message_id,
        content,
        chat,
        first,
        later,
        receiver@,
        after,
        fresh,
        plaintext_of(read),
    );
    law_utf8_is_read_back(content, content);
    let received = step->Deliver_0;
    law_utf8_is_read_back(received.record.content@, content);
}

/// A sealed message that opens a connection is delivered as well: with its id, its
/// text as it was typed, the sender's identity and the recipient's.
pub proof fn law_sealed_message_opens_a_connection(
    seed: [u8; 32],
    sender: DoubleRatchetSession,
    message_id: Seq<char>,
    content: Seq<char>,
    chat: SealedChat,
    first: Seq<u8>,
    later: RatchetView,
    receiver: DoubleRatchetSession,
    own_seed: [u8; 32],
    fresh: Seq<u8>,
    now: i64,
    received: Result<ReceivedChat, NetworkError>,
)
    requires
        seals_chat(
            Some(seed),
            StoredSession::Found(sender),
            message_id,
            content,
            Ok(chat),
        ),
        sends_on(sender@, chat.envelope.peer_dh_pub@, first),
        within_reach(
            receiver@,
            later,
            chat.envelope.peer_dh_pub@,
            first,
            chat.envelope.n as nat,
            chat.envelope.pn as nat,
        ),
        receives_first(
            fresh,
            chat.envelope,
            identity_of(seed@),
            StoredSession::Found(receiver),
            Some(own_seed),
            now,
            received,
        ),
    ensures
        received matches Ok(delivered) && {
            &&& delivered.record.id@ == message_id
            &&& delivered.record.content@ == content
            &&& delivered.record.peer_key@ == identity_of(seed@)
            &&& delivered.record.sender_key@ == identity_of(seed@)
            &&& delivered.record.recipient_key@ == identity_of(own_seed@)
            &&& delivered.record.timestamp == now
            &&& !delivered.record.is_read
        },
{
    let envelope = chat.envelope;
    let peer = identity_of(seed@);
    let (after, opened) = choose|after: RatchetView, opened: Result<Vec<u8>, CryptoError>|
        #[trigger] decrypts(
            receiver@,
            after,
            fresh,
            envelope.ciphertext@,
            envelope.nonce@,
            envelope.peer_dh_pub@,
            envelope.n as nat,
            envelope.pn as nat,
            envelope.associated_data(),
            opened,
        ) && comes_first(
            after,
            envelope.message_id@,
            peer,
            opened,
            Some(own_seed),
            now,
            received,
        );
    lemma_chat_opens(
        seed,
        sender,
        message_id,
        content,
        chat,
        first,
        later,
        receiver@,
        after,
        fresh,
        opened,
    );
    law_utf8_is_read_back(content, content);
    law_utf8_is_read_back(received->Ok_0.record.content@, content);
}

/// Only a chat message that the peer signed is delivered.
pub proof fn law_delivered_message_was_signed(
    fresh: Seq<u8>,
    peer: Seq<u8>,
    stored: StoredSession,
    wire: Option<WireMessage>,
    now: i64,
    step: ReaderStep,
)
    requires
        steps(fresh, peer, stored, wire, now, step),
        step is Deliver,
    ensures
        wire matches Some(WireMessage::Chat(envelope)) && envelope.signed_by(peer)
            && step->Deliver_0.record.id@ == envelope.message_id@,
{
}

/// A message that the peer did not sign, or that is no chat message, is ignored;
/// nothing of it reaches the session.
pub proof fn law_unsigned_message_is_ignored(
    fresh: Seq<u8>,
    peer: Seq<u8>,
    session: DoubleRatchetSession,
    wire: Option<WireMessage>,
    now: i64,
    step: ReaderStep,
)
    requires
        steps(fresh, peer, StoredSession::Found(session), wire, now, step),
        ed25519_is_key(peer),
        wire matches Some(WireMessage::Chat(envelope)) ==> !envelope.signed_by(peer),
    ensures
        step == ReaderStep::Ignore(
            if wire matches Some(WireMessage::Chat(_)) {
                CryptoError::InvalidSignature
            } else {
                CryptoError::DecryptionError
            },
        ),
{
}

/// The sender of a message is found among the contacts: it is the first one whose
/// key verifies the signature.
pub proof fn law_sender_is_found(
    envelope: EncryptedEnvelope,
    contacts: Seq<(Vec<u8>, String)>,
    i: int,
    sender: Result<[u8; 32], NetworkError>,
)
    requires
        identifies(envelope, contacts, sender),
        0 <= i < contacts.len(),
        contacts[i].0@.len() == 32,
        envelope.signed_by(contacts[i].0@),
        forall|j: int| 0 <= j < i ==> !#[trigger] sent_by(envelope, contacts[j]),
    ensures
        sender matches Ok(key) && key@ == contacts[i].0@,
{
    assert(sent_by(envelope, contacts[i]));
}

} // verus!
