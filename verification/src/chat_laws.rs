//! What sealing, reading and showing a chat message owe the two people who talk,
//! said of the identity, the session and the text that go in and of what comes
//! out.

use vstd::prelude::*;

use crate::bytes::utf8;
use crate::chat::{
    comes_first, comes_of, identifies, receives_first, seals_chat, sent_by, steps, ReaderStep,
    ReceivedChat, SealedChat, StoredSession,
};
use crate::conversation::{sends_on, within_reach};
use crate::crypto::{
    dh_public_of, dh_seed, identity_of, identity_seed, CryptoError, DoubleRatchetSession,
    KeyDerivation,
};
use crate::delivery::{
    law_sealed_message_is_delivered, law_sealed_message_opens_a_connection,
};
use crate::encoding::lossy_text;
use crate::engine::{shows, UIMessage};
use crate::handshake::NetworkError;
use crate::json::{bytes_json, decimal, string_json};
use crate::primitives::{
    blake2b512, chacha_opened, chacha_sealed, ed25519_is_key, ed25519_public,
    ed25519_refusal, ed25519_signature, x25519_public,
};
use crate::protocol::{can_read, plaintext_of, reads, EncryptedEnvelope, WireMessage};
use crate::ratchet::{decrypts, RatchetView};
use crate::ratchet_laws::{
    chain_step, four_bytes, law_header_is_bound_whole, law_ordinary_message_can_be_received,
    law_sending_seals_under_the_next_key,
};
use crate::storage::MessageRecord;

verus! {

/// The secret that an identity signs with: half of the digest of a label and the
/// whole seed.
pub open spec fn signing_secret(seed: Seq<u8>) -> Seq<u8> {
    blake2b512(utf8("LOOM-ED25519-DERIVATION"@) + seed).subrange(0, 32)
}

/// The secret that an identity agrees on keys with: half of the digest of another
/// label and the whole seed.
pub open spec fn agreement_secret(seed: Seq<u8>) -> Seq<u8> {
    blake2b512(utf8("LOOM-X25519-DERIVATION"@) + seed).subrange(0, 32)
}

/// The keys of an identity come from the whole of its seed, unchanged: each secret
/// is half of the digest of its label followed by the 32 bytes of the seed, and
/// the public keys are those of the secrets.
pub proof fn law_keys_come_from_the_whole_seed(seed: Seq<u8>, keys: KeyDerivation)
    ensures
        keys.derived_from(seed) <==> {
            &&& keys.identity_key@ == signing_secret(seed)
            &&& keys.dh_secret@ == agreement_secret(seed)
            &&& keys.dh_public@ == x25519_public(agreement_secret(seed))
        },
        identity_seed(seed) == signing_secret(seed),
        dh_seed(seed) == agreement_secret(seed),
        identity_of(seed) == ed25519_public(signing_secret(seed)),
        dh_public_of(seed) == x25519_public(agreement_secret(seed)),
{
}

/// What an identity's secret is the digest of ends with the seed, byte for byte:
/// seeds that differ anywhere are hashed as different inputs.
pub proof fn law_seeds_are_hashed_apart(left: Seq<u8>, right: Seq<u8>)
    requires
        left.len() == 32,
        right.len() == 32,
        left != right,
    ensures
        exists|a: Seq<u8>, b: Seq<u8>|
            {
                &&& identity_seed(left) == #[trigger] blake2b512(a).subrange(0, 32)
                &&& identity_seed(right) == #[trigger] blake2b512(b).subrange(0, 32)
                &&& a == utf8("LOOM-ED25519-DERIVATION"@) + left
                &&& b == utf8("LOOM-ED25519-DERIVATION"@) + right
                &&& a != b
            },
        exists|a: Seq<u8>, b: Seq<u8>|
            {
                &&& dh_seed(left) == #[trigger] blake2b512(a).subrange(0, 32)
                &&& dh_seed(right) == #[trigger] blake2b512(b).subrange(0, 32)
                &&& a == utf8("LOOM-X25519-DERIVATION"@) + left
                &&& b == utf8("LOOM-X25519-DERIVATION"@) + right
                &&& a != b
            },
{
    let ed = utf8("LOOM-ED25519-DERIVATION"@);
    let dh = utf8("LOOM-X25519-DERIVATION"@);
    if ed + left == ed + right {
        crate::wire_form::lemma_strip(ed, left, right);
    }
    if dh + left == dh + right {
        crate::wire_form::lemma_strip(dh, left, right);
    }
    assert(identity_seed(left) == blake2b512(ed + left).subrange(0, 32));
    assert(identity_seed(right) == blake2b512(ed + right).subrange(0, 32));
    assert(dh_seed(left) == blake2b512(dh + left).subrange(0, 32));
    assert(dh_seed(right) == blake2b512(dh + right).subrange(0, 32));
}

/// An envelope as JSON with a given signature: an object with its seven members.
pub open spec fn envelope_text(envelope: EncryptedEnvelope, signature: Seq<u8>) -> Seq<u8> {
    utf8("{\"message_id\":"@) + string_json(envelope.message_id@) + utf8(",\"peer_dh_pub\":"@)
        + bytes_json(envelope.peer_dh_pub@) + utf8(",\"n\":"@) + decimal(envelope.n as nat) + utf8(
        ",\"pn\":"@,
    ) + decimal(envelope.pn as nat) + utf8(",\"ciphertext\":"@) + bytes_json(envelope.ciphertext@)
        + utf8(",\"nonce\":"@) + bytes_json(envelope.nonce@) + utf8(",\"signature\":"@)
        + bytes_json(signature) + utf8("}"@)
}

/// What the ciphertext of an envelope is bound to: the message id and the whole
/// header.
pub open spec fn bound_to(envelope: EncryptedEnvelope) -> Seq<u8> {
    utf8(envelope.message_id@) + envelope.peer_dh_pub@ + four_bytes(envelope.n as int)
        + four_bytes(envelope.pn as int)
}

/// The holder of `key` has signed every member of the envelope but the signature.
pub open spec fn vouches_for(key: Seq<u8>, envelope: EncryptedEnvelope) -> bool {
    &&& envelope.signature@.len() == 64
    &&& ed25519_is_key(key)
    &&& ed25519_refusal(
        key,
        envelope_text(envelope, Seq::empty()),
        envelope.signature@,
    ) is None
}

/// An envelope goes over the wire whole, its signature is looked for on all the
/// rest of it, and its ciphertext is bound to its id and header.
pub proof fn law_envelope_is_written_whole(envelope: EncryptedEnvelope, key: Seq<u8>)
    ensures
        envelope.json() == envelope_text(envelope, envelope.signature@),
        WireMessage::Chat(envelope).json() == utf8("{\"Chat\":"@) + envelope_text(
            envelope,
            envelope.signature@,
        ) + utf8("}"@),
        envelope.signed_bytes() == envelope_text(envelope, Seq::empty()),
        envelope.signed_by(key) <==> vouches_for(key, envelope),
        envelope.associated_data() == bound_to(envelope),
{
    law_header_is_bound_whole(
        utf8(envelope.message_id@),
        envelope.peer_dh_pub@,
        envelope.n as nat,
        envelope.pn as nat,
    );
}

/// With an identity and a session that has a sending chain, every text that one
/// nonce can encrypt is sealed, however many have been sent before: as the next
/// message of the session, under the next key of its chain, with the id and the
/// signature of the identity on the whole envelope. The session then stands one
/// message further, and can send again.
pub proof fn law_sealing_succeeds(
    seed: [u8; 32],
    session: DoubleRatchetSession,
    message_id: Seq<char>,
    content: Seq<char>,
    sealed: Result<SealedChat, NetworkError>,
)
    requires
        seals_chat(Some(seed), StoredSession::Found(session), message_id, content, sealed),
        session@.ck_s is Some,
        utf8(content).len() / 64 < 0xffff_ffff,
    ensures
        sealed is Ok,
        ({
            let chat = sealed->Ok_0;
            let envelope = chat.envelope;
            let key = chain_step(session@.ck_s->0).subrange(32, 64);
            &&& envelope.message_id@ == message_id
            &&& envelope.peer_dh_pub@ == x25519_public(session@.dhs)
            &&& envelope.n == session@.ns
            &&& envelope.pn == session@.pn
            &&& envelope.ciphertext@ == chacha_sealed(
                key,
                envelope.nonce@,
                bound_to(envelope),
                utf8(content),
            )
            &&& chacha_opened(key, envelope.nonce@, bound_to(envelope), envelope.ciphertext@)
                == Some(utf8(content))
            &&& envelope.signature@ == ed25519_signature(
                signing_secret(seed@),
                envelope_text(envelope, Seq::empty()),
            )
            &&& vouches_for(ed25519_public(signing_secret(seed@)), envelope)
            &&& chat.payload@ == utf8("{\"Chat\":"@) + envelope_text(envelope, envelope.signature@)
                + utf8("}"@)
            &&& chat.session@ == (RatchetView {
                ck_s: Some(chain_step(session@.ck_s->0).subrange(0, 32)),
                ns: session@.ns + 1,
                ..session@
            })
        }),
{
    if let Ok(chat) = sealed {
        law_sending_seals_under_the_next_key(
            session@,
            chat.session@,
            utf8(content),
            utf8(message_id),
            Ok(crate::chat::contents(chat.envelope)),
        );
        law_envelope_is_written_whole(chat.envelope, identity_of(seed@));
    }
}

/// Sealing is refused for one of these reasons only: there is no identity, no
/// session, a session that cannot be read, one without a sending chain, or a text
/// that is too long for the cipher.
pub proof fn law_sealing_is_refused_for_a_reason(
    seed: Option<[u8; 32]>,
    stored: StoredSession,
    message_id: Seq<char>,
    content: Seq<char>,
    sealed: Result<SealedChat, NetworkError>,
)
    requires
        seals_chat(seed, stored, message_id, content, sealed),
    ensures
        seed is None ==> sealed == Err::<SealedChat, NetworkError>(NetworkError::NoSeed),
        seed is Some && stored is Missing ==> sealed == Err::<SealedChat, NetworkError>(
            NetworkError::NoSession,
        ),
        seed is Some && stored is Damaged ==> sealed == Err::<SealedChat, NetworkError>(
            NetworkError::Crypto(CryptoError::DecryptionError),
        ),
        seed is Some ==> (stored matches StoredSession::Found(session) ==> {
            &&& session@.ck_s is None ==> sealed == Err::<SealedChat, NetworkError>(
                NetworkError::Crypto(CryptoError::RatchetOutOfSync),
            )
            &&& session@.ck_s is Some && utf8(content).len() / 64 >= 0xffff_ffff ==> sealed == Err::<
                SealedChat,
                NetworkError,
            >(NetworkError::Crypto(CryptoError::EncryptionError))
        }),
{
}

/// Whatever a peer signs can be read as long as the counters of the session go on:
/// a chat message of any number below the last one, from a session that has
/// received fewer than 2^32 - 100, of a length that the cipher can finish. What is
/// not signed, or no chat message, can always be looked at.
pub proof fn law_ordinary_message_can_be_read(
    wire: Option<WireMessage>,
    key: Seq<u8>,
    session: RatchetView,
)
    requires
        wire matches Some(WireMessage::Chat(envelope)) ==> !vouches_for(key, envelope) || {
            &&& session.skipped.contains_key((envelope.peer_dh_pub@, envelope.n as nat))
                || session.nr + 100 <= 0xffff_ffff && envelope.n < 0xffff_ffff
            &&& !(64 * 0xffff_fffe < envelope.ciphertext@.len() - 16 < 64 * 0xffff_ffff)
        },
    ensures
        can_read(wire, key, session),
{
    if let Some(WireMessage::Chat(envelope)) = wire {
        law_envelope_is_written_whole(envelope, key);
        if vouches_for(key, envelope) {
            law_ordinary_message_can_be_received(
                session,
                envelope.ciphertext@.len() as int,
                envelope.peer_dh_pub@,
                envelope.n as nat,
                envelope.pn as nat,
            );
        }
    }
}

/// What `read` says of a message is what the session made of it, with the id of
/// the envelope.
pub open spec fn passes_on(
    opened: Result<Vec<u8>, CryptoError>,
    message_id: Seq<char>,
    read: Result<(String, Vec<u8>), CryptoError>,
) -> bool {
    match opened {
        Ok(plaintext) => read matches Ok((id, text)) && id@ == message_id && text@ == plaintext@,
        Err(error) => read == Err::<(String, Vec<u8>), CryptoError>(error),
    }
}

/// A chat message that the holder of the key has signed goes to the session, with
/// all that its ciphertext is bound to, and what the session makes of it is
/// returned with the message's id. Anything else is refused, and the session stays
/// as it is.
pub proof fn law_signed_message_goes_to_the_session(
    wire: Option<WireMessage>,
    key: Seq<u8>,
    fresh: Seq<u8>,
    before: RatchetView,
    after: RatchetView,
    read: Result<(String, Vec<u8>), CryptoError>,
)
    requires
        reads(wire, key, fresh, before, after, read),
    ensures
        match wire {
            Some(WireMessage::Chat(envelope)) => if vouches_for(key, envelope) {
                exists|opened: Result<Vec<u8>, CryptoError>| #[trigger]
                    decrypts(
                        before,
                        after,
                        fresh,
                        envelope.ciphertext@,
                        envelope.nonce@,
                        envelope.peer_dh_pub@,
                        envelope.n as nat,
                        envelope.pn as nat,
                        bound_to(envelope),
                        opened,
                    ) && passes_on(opened, envelope.message_id@, read)
            } else {
                &&& after == before
                &&& read == Err::<(String, Vec<u8>), CryptoError>(CryptoError::InvalidSignature)
            },
            _ => {
                &&& after == before
                &&& read == Err::<(String, Vec<u8>), CryptoError>(CryptoError::DecryptionError)
            },
        },
{
    if let Some(WireMessage::Chat(envelope)) = wire {
        law_envelope_is_written_whole(envelope, key);
        if vouches_for(key, envelope) {
            let opened = plaintext_of(read);
            assert(decrypts(
                before,
                after,
                fresh,
                envelope.ciphertext@,
                envelope.nonce@,
                envelope.peer_dh_pub@,
                envelope.n as nat,
                envelope.pn as nat,
                bound_to(envelope),
                opened,
            ));
            assert(passes_on(opened, envelope.message_id@, read));
        }
    }
}

/// The record of a message that came in.
pub open spec fn is_record(
    record: MessageRecord,
    message_id: Seq<char>,
    peer: Seq<u8>,
    recipient: Seq<u8>,
    plaintext: Seq<u8>,
    now: i64,
) -> bool {
    &&& record.id@ == message_id
    &&& record.peer_key@ == peer
    &&& record.sender_key@ == peer
    &&& record.recipient_key@ == recipient
    &&& record.content@ == lossy_text(plaintext)
    &&& vstd::utf8::valid_utf8(plaintext) ==> utf8(record.content@) == plaintext
    &&& record.timestamp == now
    &&& !record.is_read
}

/// A message that the peer has signed, and that the counters allow, is delivered
/// whenever the session opens it: the session as it then stands, and the whole
/// text with the id, the peer and the time. Where the session does not open it, it
/// is ignored for the reason that the session gave.
pub proof fn law_opened_message_is_delivered(
    fresh: Seq<u8>,
    peer: Seq<u8>,
    session: DoubleRatchetSession,
    envelope: EncryptedEnvelope,
    now: i64,
    step: ReaderStep,
)
    requires
        steps(
            fresh,
            peer,
            StoredSession::Found(session),
            Some(WireMessage::Chat(envelope)),
            now,
            step,
        ),
        vouches_for(peer, envelope),
        session@.skipped.contains_key((envelope.peer_dh_pub@, envelope.n as nat)) || session@.nr
            + 100 <= 0xffff_ffff && envelope.n < 0xffff_ffff,
        !(64 * 0xffff_fffe < envelope.ciphertext@.len() - 16 < 64 * 0xffff_ffff),
    ensures
        exists|after: RatchetView, opened: Result<Vec<u8>, CryptoError>| #[trigger]
            decrypts(
                session@,
                after,
                fresh,
                envelope.ciphertext@,
                envelope.nonce@,
                envelope.peer_dh_pub@,
                envelope.n as nat,
                envelope.pn as nat,
                bound_to(envelope),
                opened,
            ) && match opened {
                Ok(plaintext) => {
                    &&& step matches ReaderStep::Deliver(chat)
                    &&& chat.session@ == after
                    &&& is_record(
                        chat.record,
                        envelope.message_id@,
                        peer,
                        peer,
                        plaintext@,
                        now,
                    )
                },
                Err(error) => step == ReaderStep::Ignore(error),
            },
{
    let wire = Some(WireMessage::Chat(envelope));
    law_envelope_is_written_whole(envelope, peer);
    law_ordinary_message_can_be_read(wire, peer, session@);
    let (after, read) = choose|after: RatchetView, read: Result<(String, Vec<u8>), CryptoError>|
        #[trigger] reads(wire, peer, fresh, session@, after, read) && comes_of(
            after,
            peer,
            Some(read),
            now,
            step,
        );
    law_signed_message_goes_to_the_session(wire, peer, fresh, session@, after, read);
    let opened = choose|opened: Result<Vec<u8>, CryptoError>| #[trigger]
        decrypts(
            session@,
            after,
            fresh,
            envelope.ciphertext@,
            envelope.nonce@,
            envelope.peer_dh_pub@,
            envelope.n as nat,
            envelope.pn as nat,
            bound_to(envelope),
            opened,
        ) && passes_on(opened, envelope.message_id@, read);
    assert(decrypts(
        session@,
        after,
        fresh,
        envelope.ciphertext@,
        envelope.nonce@,
        envelope.peer_dh_pub@,
        envelope.n as nat,
        envelope.pn as nat,
        bound_to(envelope),
        opened,
    ));
}

/// What else a connection does with what comes in: it is given up where there is
/// no session or the peer's key is none; what the peer did not sign is ignored; and
/// only a signed message at the very end of the counters, or of a length that the
/// cipher cannot finish, is turned away unread.
pub proof fn law_other_messages_are_turned_away(
    fresh: Seq<u8>,
    peer: Seq<u8>,
    stored: StoredSession,
    wire: Option<WireMessage>,
    now: i64,
    step: ReaderStep,
)
    requires
        steps(fresh, peer, stored, wire, now, step),
    ensures
        step is Close <==> !(stored is Found) || !ed25519_is_key(peer),
        stored is Found && ed25519_is_key(peer) ==> match wire {
            Some(WireMessage::Chat(envelope)) => !vouches_for(peer, envelope) ==> step
                == ReaderStep::Ignore(CryptoError::InvalidSignature),
            _ => step == ReaderStep::Ignore(CryptoError::DecryptionError),
        },
        step is Exhausted ==> {
            &&& stored matches StoredSession::Found(session)
            &&& wire matches Some(WireMessage::Chat(envelope))
            &&& vouches_for(peer, envelope)
            &&& !session@.skipped.contains_key((envelope.peer_dh_pub@, envelope.n as nat)) && (
            session@.nr + 100 > 0xffff_ffff || envelope.n == 0xffff_ffff) || 64 * 0xffff_fffe
                < envelope.ciphertext@.len() - 16 < 64 * 0xffff_ffff
        },
{
    if let Some(WireMessage::Chat(envelope)) = wire {
        law_envelope_is_written_whole(envelope, peer);
        if let StoredSession::Found(session) = stored {
            if step is Exhausted && (session@.skipped.contains_key(
                (envelope.peer_dh_pub@, envelope.n as nat),
            ) || session@.nr + 100 <= 0xffff_ffff && envelope.n < 0xffff_ffff) && !(64
                * 0xffff_fffe < envelope.ciphertext@.len() - 16 < 64 * 0xffff_ffff) {
                law_ordinary_message_can_be_read(wire, peer, session@);
            }
        }
    }
}

/// The first message on a connection comes to what the session makes of it: its
/// error, or the session as it then stands and the whole text, from the peer to
/// the own identity. It needs a session that can be read and an identity.
pub proof fn law_first_message_is_taken_in(
    fresh: Seq<u8>,
    envelope: EncryptedEnvelope,
    peer: Seq<u8>,
    stored: StoredSession,
    seed: Option<[u8; 32]>,
    now: i64,
    received: Result<ReceivedChat, NetworkError>,
)
    requires
        receives_first(fresh, envelope, peer, stored, seed, now, received),
    ensures
        match stored {
            StoredSession::Missing => received == Err::<ReceivedChat, NetworkError>(
                NetworkError::NoRatchetState,
            ),
            StoredSession::Damaged => received == Err::<ReceivedChat, NetworkError>(
                NetworkError::Crypto(CryptoError::DecryptionError),
            ),
            StoredSession::Found(session) => exists|
                after: RatchetView,
                opened: Result<Vec<u8>, CryptoError>,
            | #[trigger]
                decrypts(
                    session@,
                    after,
                    fresh,
                    envelope.ciphertext@,
                    envelope.nonce@,
                    envelope.peer_dh_pub@,
                    envelope.n as nat,
                    envelope.pn as nat,
                    bound_to(envelope),
                    opened,
                ) && match (opened, seed) {
                    (Ok(plaintext), Some(seed)) => {
                        &&& received matches Ok(chat)
                        &&& chat.session@ == after
                        &&& is_record(
                            chat.record,
                            envelope.message_id@,
                            peer,
                            ed25519_public(signing_secret(seed@)),
                            plaintext@,
                            now,
                        )
                    },
                    (Ok(_), None) => received == Err::<ReceivedChat, NetworkError>(
                        NetworkError::NoIdentitySeed,
                    ),
                    (Err(error), _) => received == Err::<ReceivedChat, NetworkError>(
                        NetworkError::Crypto(error),
                    ),
                },
        },
{
    law_envelope_is_written_whole(envelope, peer);
    if let StoredSession::Found(session) = stored {
        let (after, opened) = choose|after: RatchetView, opened: Result<Vec<u8>, CryptoError>|
            #[trigger] decrypts(
                session@,
                after,
                fresh,
                envelope.ciphertext@,
                envelope.nonce@,
                envelope.peer_dh_pub@,
                envelope.n as nat,
                envelope.pn as nat,
                envelope.associated_data(),
                opened,
            ) && comes_first(
                after,
                envelope.message_id@,
                peer,
                opened,
                seed,
                now,
                received,
            );
        assert(decrypts(
            session@,
            after,
            fresh,
            envelope.ciphertext@,
            envelope.nonce@,
            envelope.peer_dh_pub@,
            envelope.n as nat,
            envelope.pn as nat,
            bound_to(envelope),
            opened,
        ));
    }
}

/// The decisions that follow decryption: a text that was opened is delivered with
/// the session that opened it, an error is passed on, and what could not be read is
/// reported as that.
pub proof fn law_outcomes_follow_the_text(
    session: RatchetView,
    message_id: Seq<char>,
    peer: Seq<u8>,
    opened: Result<Vec<u8>, CryptoError>,
    seed: Option<[u8; 32]>,
    now: i64,
    received: Result<ReceivedChat, NetworkError>,
    read: Option<Result<(String, Vec<u8>), CryptoError>>,
    step: ReaderStep,
)
    ensures
        comes_first(session, message_id, peer, opened, seed, now, received) ==> match (
            opened,
            seed,
        ) {
            (Ok(plaintext), Some(seed)) => {
                &&& received matches Ok(chat)
                &&& chat.session@ == session
                &&& is_record(
                    chat.record,
                    message_id,
                    peer,
                    ed25519_public(signing_secret(seed@)),
                    plaintext@,
                    now,
                )
            },
            (Ok(_), None) => received == Err::<ReceivedChat, NetworkError>(
                NetworkError::NoIdentitySeed,
            ),
            (Err(error), _) => received == Err::<ReceivedChat, NetworkError>(
                NetworkError::Crypto(error),
            ),
        },
        comes_of(session, peer, read, now, step) ==> match read {
            Some(Ok((id, plaintext))) => {
                &&& step matches ReaderStep::Deliver(chat)
                &&& chat.session@ == session
                &&& is_record(chat.record, id@, peer, peer, plaintext@, now)
            },
            Some(Err(error)) => step == ReaderStep::Ignore(error),
            None => step is Exhausted,
        },
{
}

/// A sealed message reaches the other side as it was typed, with nothing assumed
/// of the receiver but that the message is within its reach and its counter is not
/// at its end.
pub proof fn law_sealed_message_arrives(
    seed: [u8; 32],
    sender: DoubleRatchetSession,
    message_id: Seq<char>,
    content: Seq<char>,
    chat: SealedChat,
    first: Seq<u8>,
    later: RatchetView,
    receiver: DoubleRatchetSession,
    fresh: Seq<u8>,
    now: i64,
    step: ReaderStep,
    shown: UIMessage,
)
    requires
        seals_chat(
            Some(seed),
            StoredSession::Found(sender),
            message_id,
            content,
            Ok(chat),
        ),
        sends_on(sender@, chat.envelope.peer_dh_pub@, first),
        within_reach(
            receiver@,
            later,
            chat.envelope.peer_dh_pub@,
            first,
            chat.envelope.n as nat,
            chat.envelope.pn as nat,
        ),
        sender@.ns < 0xffff_ffff,
        receiver@.nr + 100 <= 0xffff_ffff,
        !(64 * 0xffff_fffe < utf8(content).len() < 64 * 0xffff_ffff),
        steps(
            fresh,
            identity_of(seed@),
            StoredSession::Found(receiver),
            Some(WireMessage::Chat(chat.envelope)),
            now,
            step,
        ),
    ensures
        step is Deliver,
        ({
            let record = step->Deliver_0.record;
            &&& record.id@ == message_id
            &&& record.content@ == content
            &&& record.peer_key@ == ed25519_public(signing_secret(seed@))
            &&& record.sender_key@ == ed25519_public(signing_secret(seed@))
            &&& record.timestamp == now
            &&& !record.is_read
            &&& shows(shown, record) ==> shown.content@ == content && shown.id@ == message_id
        }),
{
    let wire = Some(WireMessage::Chat(chat.envelope));
    law_sending_seals_under_the_next_key(
        sender@,
        chat.session@,
        utf8(content),
        utf8(message_id),
        Ok(crate::chat::contents(chat.envelope)),
    );
    law_ordinary_message_can_be_read(wire, identity_of(seed@), receiver@);
    law_sealed_message_is_delivered(
        seed,
        sender,
        message_id,
        content,
        chat,
        first,
        later,
        receiver,
        fresh,
        now,
        step,
    );
}

/// A sealed message that opens a connection arrives as it was typed as well.
pub proof fn law_sealed_first_message_arrives(
    seed: [u8; 32],
    sender: DoubleRatchetSession,
    message_id: Seq<char>,
    content: Seq<char>,
    chat: SealedChat,
    first: Seq<u8>,
    later: RatchetView,
    receiver: DoubleRatchetSession,
    own_seed: [u8; 32],
    fresh: Seq<u8>,
    now: i64,
    received: Result<ReceivedChat, NetworkError>,
    shown: UIMessage,
)
    requires
        seals_chat(
            Some(seed),
            StoredSession::Found(sender),
            message_id,
            content,
            Ok(chat),
        ),
        sends_on(sender@, chat.envelope.peer_dh_pub@, first),
        within_reach(
            receiver@,
            later,
            chat.envelope.peer_dh_pub@,
            first,
            chat.envelope.n as nat,
            chat.envelope.pn as nat,
        ),
        receives_first(
            fresh,
            chat.envelope,
            identity_of(seed@),
            StoredSession::Found(receiver),
            Some(own_seed),
            now,
            received,
        ),
    ensures
        received is Ok,
        ({
            let record = received->Ok_0.record;
            &&& record.id@ == message_id
            &&& record.content@ == content
            &&& record.recipient_key@ == ed25519_public(signing_secret(own_seed@))
            &&& shows(shown, record) ==> shown.content@ == content && shown.id@ == message_id
        }),
{
    law_sealed_message_opens_a_connection(
        seed,
        sender,
        message_id,
        content,
        chat,
        first,
        later,
        receiver,
        own_seed,
        fresh,
        now,
        received,
    );
}

/// The host is shown a stored message whole: the same id, the two identities, the
/// text with every one of its characters, the time and the mark.
pub proof fn law_stored_message_is_shown_whole(message: UIMessage, record: MessageRecord)
    ensures
        shows(message, record) <==> {
            &&& message.id@ == record.id@
            &&& message.sender@ == record.sender_key@
            &&& message.recipient@ == record.recipient_key@
            &&& message.content@ == record.content@
            &&& message.timestamp == record.timestamp
            &&& message.is_read == record.is_read
        },
        shows(message, record) ==> message.content@.len() == record.content@.len() && forall|i: int|
            0 <= i < record.content@.len() ==> #[trigger] message.content@[i]
                == record.content@[i],
{
}

/// The key that a contact's signatures are looked for under: the stored one, or 32
/// zeros in place of one of another length.
pub open spec fn looked_for_under(stored: Seq<u8>) -> Seq<u8> {
    if stored.len() == 32 {
        stored
    } else {
        seq![0u8; 32]
    }
}

/// The sender of an envelope is the first contact whose key vouches for it, and no
/// other; a contact whose stored key has another length cannot be the sender, and
/// a signature of another length has none.
pub proof fn law_sender_is_the_first_who_vouches(
    envelope: EncryptedEnvelope,
    contacts: Seq<(Vec<u8>, String)>,
    sender: Result<[u8; 32], NetworkError>,
    i: int,
)
    requires
        identifies(envelope, contacts, sender),
    ensures
        envelope.signature@.len() != 64 ==> sender == Err::<[u8; 32], NetworkError>(
            NetworkError::MalformedSignature,
        ),
        envelope.signature@.len() == 64 && (forall|j: int|
            0 <= j < contacts.len() ==> !vouches_for(
                looked_for_under((#[trigger] contacts[j]).0@),
                envelope,
            )) ==> sender == Err::<[u8; 32], NetworkError>(NetworkError::UnknownSender),
        0 <= i < contacts.len() && vouches_for(looked_for_under(contacts[i].0@), envelope) && (
        forall|j: int|
            0 <= j < i ==> !vouches_for(
                looked_for_under((#[trigger] contacts[j]).0@),
                envelope,
            )) ==> if contacts[i].0@.len() == 32 {
            sender matches Ok(key) && key@ == contacts[i].0@
        } else {
            sender == Err::<[u8; 32], NetworkError>(NetworkError::InvalidPeerKeyLength)
        },
{
    assert forall|j: int| 0 <= j < contacts.len() implies sent_by(
        envelope,
        #[trigger] contacts[j],
    ) == vouches_for(looked_for_under(contacts[j].0@), envelope) by {
        let stored = contacts[j].0@;
        assert(crate::chat::verification_key(stored) =~= looked_for_under(stored));
        law_envelope_is_written_whole(envelope, looked_for_under(stored));
    }
}

} // verus!
