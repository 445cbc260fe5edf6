//! What a handshake owes its two parties, said of the seeds, the keys and the
//! signatures that go in and of what comes out.

use vstd::prelude::*;

use crate::bytes::utf8;
use crate::chat_laws::{agreement_secret, signing_secret};
use crate::crypto::DoubleRatchetSession;
use crate::encoding::{hex_text, hex_value};
use crate::handshake::{
    accepted, answers, begins, contact_name, finishes, is_answer, is_finish, refused_as,
    AcceptedHandshake, NetworkError, PendingHandshake,
};
use crate::primitives::{
    ed25519_is_key, ed25519_public, ed25519_refusal, ed25519_signature, hkdf_sha256,
    x25519_public, x25519_shared,
};
use crate::protocol::{
    initiator_root, responder_root, root_key, HandshakeInitiator, HandshakeResponder, WireMessage,
};
use crate::ratchet::RatchetView;

verus! {

/// The root key of three exchanged secrets, in this order.
pub open spec fn root_of(one: Seq<u8>, two: Seq<u8>, three: Seq<u8>) -> Seq<u8> {
    hkdf_sha256(
        utf8("LOOM-HANDSHAKE-SALT"@),
        one + two + three,
        utf8("LOOM-SHARED-ROOT-KEY"@),
        32,
    )
}

/// The root key takes all three exchanges in: each side's static secret with the
/// other's ephemeral key, and the two ephemeral ones. The responder has them in
/// the order in which the initiator has them.
pub proof fn law_root_takes_all_three_exchanges(
    one: Seq<u8>,
    two: Seq<u8>,
    three: Seq<u8>,
    static_secret: Seq<u8>,
    ephemeral_secret: Seq<u8>,
    peer_static: Seq<u8>,
    peer_ephemeral: Seq<u8>,
)
    ensures
        root_key(one, two, three) == root_of(one, two, three),
        initiator_root(static_secret, ephemeral_secret, peer_static, peer_ephemeral) == root_of(
            x25519_shared(static_secret, peer_ephemeral),
            x25519_shared(ephemeral_secret, peer_static),
            x25519_shared(ephemeral_secret, peer_ephemeral),
        ),
        responder_root(static_secret, ephemeral_secret, peer_static, peer_ephemeral) == root_of(
            x25519_shared(ephemeral_secret, peer_static),
            x25519_shared(static_secret, peer_ephemeral),
            x25519_shared(ephemeral_secret, peer_ephemeral),
        ),
{
}

/// The holder of `key` has signed the bytes.
pub open spec fn has_signed(key: Seq<u8>, bytes: Seq<u8>, signature: Seq<u8>) -> bool {
    &&& ed25519_is_key(key)
    &&& signature.len() == 64
    &&& ed25519_refusal(key, bytes, signature) is None
}

/// A signature is accepted exactly where its holder has signed the bytes, and the
/// reason for a refusal is the first that applies: the key, the length, or what
/// verification says.
pub proof fn law_signature_is_accepted_or_refused(
    key: Seq<u8>,
    bytes: Seq<u8>,
    signature: Seq<u8>,
    error: NetworkError,
)
    ensures
        accepted(key, bytes, signature) <==> has_signed(key, bytes, signature),
        refused_as(key, bytes, signature, error) ==> if !ed25519_is_key(key) {
            error == NetworkError::InvalidIdentityKey
        } else if signature.len() != 64 {
            error == NetworkError::MalformedSignature
        } else {
            error matches NetworkError::SignatureRejected(text) && ed25519_refusal(
                key,
                bytes,
                signature,
            ) == Some(text@)
        },
{
}

/// With an identity a handshake always begins: the first message carries both
/// public keys of the identity and the ephemeral key, with a signature on the
/// ephemeral key and the peer's identity; what is kept are the secrets to finish
/// with and the peer's keys as they were given.
pub proof fn law_handshake_begins(
    seed: Option<[u8; 32]>,
    ephemeral: Seq<u8>,
    peer_identity: Seq<u8>,
    peer_dh: Seq<u8>,
    begun: Result<(PendingHandshake, HandshakeInitiator), NetworkError>,
)
    requires
        begins(seed, ephemeral, peer_identity, peer_dh, begun),
    ensures
        match seed {
            Some(seed) => {
                &&& begun matches Ok((pending, init))
                &&& init.sender_identity@ == ed25519_public(signing_secret(seed@))
                &&& init.sender_dh@ == x25519_public(agreement_secret(seed@))
                &&& init.ephemeral_key@ == x25519_public(ephemeral)
                &&& init.signature@ == ed25519_signature(
                    signing_secret(seed@),
                    x25519_public(ephemeral) + peer_identity,
                )
                &&& has_signed(
                    ed25519_public(signing_secret(seed@)),
                    x25519_public(ephemeral) + peer_identity,
                    init.signature@,
                )
                &&& pending.peer_identity@ == peer_identity
                &&& pending.peer_dh@ == peer_dh
                &&& pending.static_secret@ == agreement_secret(seed@)
                &&& pending.ephemeral_secret@ == ephemeral
                &&& pending.ephemeral_key@ == x25519_public(ephemeral)
            },
            None => begun == Err::<(PendingHandshake, HandshakeInitiator), NetworkError>(
                NetworkError::NoSeed,
            ),
        },
{
}

/// What a responder gives for a good handshake: a session that waits on the root
/// of the three exchanges, the initiator's own keys as a contact, and its ephemeral
/// key with a signature on both ephemeral keys.
pub open spec fn is_given(
    seed: Seq<u8>,
    ephemeral: Seq<u8>,
    init: HandshakeInitiator,
    given: AcceptedHandshake,
) -> bool {
    &&& given.session@ == RatchetView::passive(
        ephemeral,
        init.ephemeral_key@,
        root_of(
            x25519_shared(ephemeral, init.sender_dh@),
            x25519_shared(agreement_secret(seed), init.ephemeral_key@),
            x25519_shared(ephemeral, init.ephemeral_key@),
        ),
    )
    &&& given.contact.public_key@ == init.sender_identity@
    &&& given.contact.dh_key@ == init.sender_dh@
    &&& given.contact.display_name@ == "Loom Contact "@ + hex_text(init.sender_identity@).take(8)
    &&& given.response.ephemeral_key@ == x25519_public(ephemeral)
    &&& given.response.signature@ == ed25519_signature(
        signing_secret(seed),
        x25519_public(ephemeral) + init.ephemeral_key@,
    )
    &&& has_signed(
        ed25519_public(signing_secret(seed)),
        x25519_public(ephemeral) + init.ephemeral_key@,
        given.response.signature@,
    )
}

/// A handshake is answered exactly where its sender has signed the ephemeral key
/// together with this side's identity, whoever the sender is; it is refused for a
/// bad signature or for want of an identity, and for nothing else.
pub proof fn law_handshake_is_answered(
    seed: Option<[u8; 32]>,
    ephemeral: Seq<u8>,
    init: HandshakeInitiator,
    answer: Result<AcceptedHandshake, NetworkError>,
)
    requires
        answers(seed, ephemeral, init, answer),
    ensures
        match seed {
            Some(seed) => {
                let signed = init.ephemeral_key@ + ed25519_public(signing_secret(seed@));
                if has_signed(init.sender_identity@, signed, init.signature@) {
                    answer matches Ok(given) && is_given(seed@, ephemeral, init, given)
                } else {
                    answer matches Err(error) && refused_as(
                        init.sender_identity@,
                        signed,
                        init.signature@,
                        error,
                    )
                }
            },
            None => answer == Err::<AcceptedHandshake, NetworkError>(
                NetworkError::NoIdentitySeed,
            ),
        },
{
    if let Some(seed) = seed {
        law_answer_is_given(seed@, ephemeral, init, answer->Ok_0);
    }
}

/// The answer that is given to a handshake whose signature is good.
pub proof fn law_answer_is_given(
    seed: Seq<u8>,
    ephemeral: Seq<u8>,
    init: HandshakeInitiator,
    given: AcceptedHandshake,
)
    ensures
        is_answer(seed, ephemeral, init, given) ==> is_given(seed, ephemeral, init, given),
{
    law_root_takes_all_three_exchanges(
        Seq::empty(),
        Seq::empty(),
        Seq::empty(),
        agreement_secret(seed),
        ephemeral,
        init.sender_dh@,
        init.ephemeral_key@,
    );
}

/// The session that the answer to a handshake starts: the active side, on the root
/// of the three exchanges, with the responder's ephemeral key as the peer's.
pub open spec fn is_started(
    pending: PendingHandshake,
    answer: HandshakeResponder,
    fresh: Seq<u8>,
    session: DoubleRatchetSession,
) -> bool {
    session@ == RatchetView::active(
        fresh,
        answer.ephemeral_key@,
        root_of(
            x25519_shared(pending.static_secret@, answer.ephemeral_key@),
            x25519_shared(pending.ephemeral_secret@, pending.peer_dh@),
            x25519_shared(pending.ephemeral_secret@, answer.ephemeral_key@),
        ),
    )
}

/// A handshake is finished exactly where the answer is a responder's and the peer
/// has signed both ephemeral keys; it is refused for a bad signature or for another
/// kind of message, and for nothing else.
pub proof fn law_handshake_is_finished(
    pending: PendingHandshake,
    response: WireMessage,
    fresh: Seq<u8>,
    finished: Result<DoubleRatchetSession, NetworkError>,
)
    requires
        finishes(pending, response, fresh, finished),
    ensures
        match response {
            WireMessage::Responder(answer) => {
                let signed = answer.ephemeral_key@ + pending.ephemeral_key@;
                if has_signed(pending.peer_identity@, signed, answer.signature@) {
                    finished matches Ok(session) && is_started(pending, answer, fresh, session)
                } else {
                    finished matches Err(error) && refused_as(
                        pending.peer_identity@,
                        signed,
                        answer.signature@,
                        error,
                    )
                }
            },
            _ => finished == Err::<DoubleRatchetSession, NetworkError>(
                NetworkError::UnexpectedResponse,
            ),
        },
{
}

/// The session that a good answer starts.
pub proof fn law_session_is_started(
    pending: PendingHandshake,
    answer: HandshakeResponder,
    fresh: Seq<u8>,
    session: DoubleRatchetSession,
)
    ensures
        is_finish(pending, answer, fresh, session) ==> is_started(pending, answer, fresh, session),
{
}

/// An unknown peer is stored under a name that holds the first four bytes of its
/// identity, in two hexadecimal digits each.
pub proof fn law_contact_name_holds_the_identity(identity: Seq<u8>, i: int)
    requires
        identity.len() == 32,
        0 <= i < 4,
    ensures
        contact_name(identity).len() == 21,
        contact_name(identity).take(13) == "Loom Contact "@,
        hex_value(contact_name(identity)[13 + 2 * i]) == Some(identity[i] as int / 16),
        hex_value(contact_name(identity)[13 + 2 * i + 1]) == Some(identity[i] as int % 16),
{
    reveal_strlit("Loom Contact ");
    let hex = hex_text(identity);
    assert(contact_name(identity).take(13) =~= "Loom Contact "@);
    assert((2 * i) % 2 == 0 && (2 * i) / 2 == i);
    assert((2 * i + 1) % 2 == 1 && (2 * i + 1) / 2 == i);
    assert(hex[2 * i] == crate::encoding::hex_char(identity[i] as int / 16));
    assert(hex[2 * i + 1] == crate::encoding::hex_char(identity[i] as int % 16));
    assert(contact_name(identity)[13 + 2 * i] == hex[2 * i]);
    assert(contact_name(identity)[13 + 2 * i + 1] == hex[2 * i + 1]);
}

} // verus!
