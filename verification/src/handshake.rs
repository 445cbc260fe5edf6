//! The handshake that starts a conversation: what the initiator sends, what the
//! responder checks and answers, and the session that each side starts.

use vstd::prelude::*;

use vstd::string::StringExecFns;
use vstd::string::StrSliceExecFns;

use crate::bytes::{append_bytes, array64, copied};
use crate::conversation::{awaits, law_sessions_start_linked};
use crate::crypto::{
    derive_keys, dh_public_of, dh_seed, identity_of, identity_seed, CryptoError,
    DoubleRatchetSession,
};
use crate::encoding::{hex_encode, hex_text};
use crate::primitives::{
    ed25519_accepts, ed25519_is_key, ed25519_refusal, ed25519_signature, is_identity_key, is_same_key,
    public_of_secret, random_32, refusal, sign, x25519_public,
};
use crate::protocol::{
    compute_3dh_initiator, compute_3dh_responder, initiator_root, responder_root,
    HandshakeInitiator, HandshakeResponder, WireMessage,
};
use crate::ratchet::RatchetView;

verus! {

/// Why a handshake or a message did not go through.
pub enum NetworkError {
    NoIdentitySeed,
    NoSeed,
    NoRatchetState,
    NoSession,
    UnknownSender,
    InvalidPeerKeyLength,
    PeerOffline,
    UnexpectedResponse,
    InvalidIdentityKey,
    MalformedSignature,
    SignatureRejected(String),
    Crypto(CryptoError),
}

impl NetworkError {
    /// The message of an error.
    pub open spec fn text(self) -> Seq<char> {
        match self {
            NetworkError::NoIdentitySeed => "No identity seed"@,
            NetworkError::NoSeed => "No seed"@,
            NetworkError::NoRatchetState => "No ratchet state"@,
            NetworkError::NoSession => "No ratchet session established"@,
            NetworkError::UnknownSender => "Unknown sender signature"@,
            NetworkError::InvalidPeerKeyLength => "Invalid peer pub key length"@,
            NetworkError::PeerOffline => "Peer offline or undiscovered"@,
            NetworkError::UnexpectedResponse => "Unexpected response"@,
            NetworkError::InvalidIdentityKey => "signature error: Cannot decompress Edwards point"@,
            NetworkError::MalformedSignature => "signature error"@,
            NetworkError::SignatureRejected(text) => text@,
            NetworkError::Crypto(error) => error.text(),
        }
    }

    /// The message of an error.
    pub fn message(&self) -> (message: String)
        ensures
            message@ == self.text(),
    {
        match self {
            NetworkError::NoIdentitySeed => "No identity seed".to_owned(),
            NetworkError::NoSeed => "No seed".to_owned(),
            NetworkError::NoRatchetState => "No ratchet state".to_owned(),
            NetworkError::NoSession => "No ratchet session established".to_owned(),
            NetworkError::UnknownSender => "Unknown sender signature".to_owned(),
            NetworkError::InvalidPeerKeyLength => "Invalid peer pub key length".to_owned(),
            NetworkError::PeerOffline => "Peer offline or undiscovered".to_owned(),
            NetworkError::UnexpectedResponse => "Unexpected response".to_owned(),
            NetworkError::InvalidIdentityKey => {
                "signature error: Cannot decompress Edwards point".to_owned()
            },
            NetworkError::MalformedSignature => "signature error".to_owned(),
            NetworkError::SignatureRejected(text) => text.as_str().to_owned(),
            NetworkError::Crypto(error) => error.message(),
        }
    }
}

/// The signature is one of 64 bytes that `key` accepts on `message`.
pub open spec fn accepted(key: Seq<u8>, message: Seq<u8>, signature: Seq<u8>) -> bool {
    &&& signature.len() == 64
    &&& ed25519_accepts(key, message, signature)
}

/// Why a signature is not accepted: the key is none, or the signature has the
/// wrong length, or verification refuses it.
pub open spec fn refused_as(
    key: Seq<u8>,
    message: Seq<u8>,
    signature: Seq<u8>,
    error: NetworkError,
) -> bool {
    if !ed25519_is_key(key) {
        error == NetworkError::InvalidIdentityKey
    } else if signature.len() != 64 {
        error == NetworkError::MalformedSignature
    } else {
        &&& ed25519_refusal(key, message, signature) matches Some(why)
        &&& error matches NetworkError::SignatureRejected(text)
        &&& text@ == why
    }
}

/// Checks a signature.
pub fn check_signature(key: &[u8; 32], message: &[u8], signature: &[u8]) -> (checked: Result<
    (),
    NetworkError,
>)
    ensures
        match checked {
            Ok(()) => accepted(key@, message@, signature@),
            Err(error) => {
                &&& !accepted(key@, message@, signature@)
                &&& refused_as(key@, message@, signature@, error)
            },
        },
{
    if !is_identity_key(key) {
        return Err(NetworkError::InvalidIdentityKey);
    }
    match array64(signature) {
        Some(bytes) => match refusal(key, message, &bytes) {
            Some(text) => Err(NetworkError::SignatureRejected(text)),
            None => Ok(()),
        },
        None => Err(NetworkError::MalformedSignature),
    }
}

/// What the initiator keeps while it waits for the answer.
pub struct PendingHandshake {
    pub peer_identity: [u8; 32],
    pub peer_dh: [u8; 32],
    pub static_secret: [u8; 32],
    pub ephemeral_secret: [u8; 32],
    pub ephemeral_key: [u8; 32],
}

/// A contact to be stored.
pub struct NewContact {
    pub public_key: [u8; 32],
    pub dh_key: [u8; 32],
    pub display_name: String,
}

/// What comes of a handshake on the responder's side: the session, the contact
/// and the answer.
pub struct AcceptedHandshake {
    pub session: DoubleRatchetSession,
    pub contact: NewContact,
    pub response: HandshakeResponder,
}

/// The name under which an unknown peer is stored.
pub open spec fn contact_name(identity: Seq<u8>) -> Seq<char> {
    "Loom Contact "@ + hex_text(identity).take(8)
}

/// What beginning a handshake gives.
pub open spec fn begins(
    seed: Option<[u8; 32]>,
    ephemeral: Seq<u8>,
    peer_identity: Seq<u8>,
    peer_dh: Seq<u8>,
    begun: Result<(PendingHandshake, HandshakeInitiator), NetworkError>,
) -> bool {
    match seed {
        Some(seed) => {
            &&& begun matches Ok((pending, init))
            &&& pending.peer_identity@ == peer_identity
            &&& pending.peer_dh@ == peer_dh
            &&& pending.static_secret@ == dh_seed(seed@)
            &&& pending.ephemeral_secret@ == ephemeral
            &&& pending.ephemeral_key@ == x25519_public(ephemeral)
            &&& init.sender_identity@ == identity_of(seed@)
            &&& init.sender_dh@ == dh_public_of(seed@)
            &&& init.ephemeral_key@ == x25519_public(ephemeral)
            &&& init.signature@ == ed25519_signature(
                identity_seed(seed@),
                x25519_public(ephemeral) + peer_identity,
            )
            &&& accepted(
                init.sender_identity@,
                init.ephemeral_key@ + peer_identity,
                init.signature@,
            )
        },
        None => begun == Err::<(PendingHandshake, HandshakeInitiator), NetworkError>(
            NetworkError::NoSeed,
        ),
    }
}

/// The answer to a handshake whose signature is good: a session that waits, the
/// initiator as a contact, and a response that this side has signed.
pub open spec fn is_answer(
    seed: Seq<u8>,
    ephemeral: Seq<u8>,
    init: HandshakeInitiator,
    answer: AcceptedHandshake,
) -> bool {
    &&& answer.session@ == RatchetView::passive(
        ephemeral,
        init.ephemeral_key@,
        responder_root(dh_seed(seed), ephemeral, init.sender_dh@, init.ephemeral_key@),
    )
    &&& answer.contact.public_key == init.sender_identity
    &&& answer.contact.dh_key == init.sender_dh
    &&& answer.contact.display_name@ == contact_name(init.sender_identity@)
    &&& answer.response.ephemeral_key@ == x25519_public(ephemeral)
    &&& answer.response.signature@ == ed25519_signature(
        identity_seed(seed),
        x25519_public(ephemeral) + init.ephemeral_key@,
    )
    &&& accepted(
        identity_of(seed),
        answer.response.ephemeral_key@ + init.ephemeral_key@,
        answer.response.signature@,
    )
}

/// What answering a handshake gives. The initiator must have signed its ephemeral
/// key together with this side's identity.
pub open spec fn answers(
    seed: Option<[u8; 32]>,
    ephemeral: Seq<u8>,
    init: HandshakeInitiator,
    answer: Result<AcceptedHandshake, NetworkError>,
) -> bool {
    match seed {
        Some(seed) => {
            let signed = init.ephemeral_key@ + identity_of(seed@);
            if accepted(init.sender_identity@, signed, init.signature@) {
                answer matches Ok(given) && is_answer(seed@, ephemeral, init, given)
            } else {
                &&& answer matches Err(error)
                &&& refused_as(init.sender_identity@, signed, init.signature@, error)
            }
        },
        None => answer == Err::<AcceptedHandshake, NetworkError>(NetworkError::NoIdentitySeed),
    }
}

/// The session that an answer with a good signature starts. Whoever holds the
/// peer's secrets has computed the same root key.
pub open spec fn is_finish(
    pending: PendingHandshake,
    answer: HandshakeResponder,
    fresh: Seq<u8>,
    session: DoubleRatchetSession,
) -> bool {
    let root = initiator_root(
        pending.static_secret@,
        pending.ephemeral_secret@,
        pending.peer_dh@,
        answer.ephemeral_key@,
    );
    &&& session@ == RatchetView::active(fresh, answer.ephemeral_key@, root)
    &&& session@.agreed()
    &&& forall|peer_static: Seq<u8>, peer_ephemeral: Seq<u8>|
        peer_static.len() == 32 && peer_ephemeral.len() == 32 && pending.peer_dh@
            == #[trigger] x25519_public(peer_static) && answer.ephemeral_key@
            == #[trigger] x25519_public(peer_ephemeral) ==> root == responder_root(
            peer_static,
            peer_ephemeral,
            x25519_public(pending.static_secret@),
            x25519_public(pending.ephemeral_secret@),
        )
}

/// What the answer to a handshake gives. The peer must have signed both ephemeral
/// keys.
pub open spec fn finishes(
    pending: PendingHandshake,
    response: WireMessage,
    fresh: Seq<u8>,
    finished: Result<DoubleRatchetSession, NetworkError>,
) -> bool {
    match response {
        WireMessage::Responder(answer) => {
            let signed = answer.ephemeral_key@ + pending.ephemeral_key@;
            if accepted(pending.peer_identity@, signed, answer.signature@) {
                finished matches Ok(session) && is_finish(pending, answer, fresh, session)
            } else {
                &&& finished matches Err(error)
                &&& refused_as(pending.peer_identity@, signed, answer.signature@, error)
            }
        },
        _ => finished == Err::<DoubleRatchetSession, NetworkError>(
            NetworkError::UnexpectedResponse,
        ),
    }
}

/// The two keys one after the other.
fn joined(first: &[u8; 32], second: &[u8; 32]) -> (both: Vec<u8>)
    ensures
        both@ == first@ + second@,
{
    let mut both = copied(first);
    append_bytes(&mut both, second);
    both
}

/// The name under which an unknown peer is stored.
pub fn name_contact(identity: &[u8; 32]) -> (name: String)
    ensures
        name@ == contact_name(identity@),
{
    let hex = hex_encode(identity);
    let start = hex.as_str().substring_char(0, 8);
    assert(start@ =~= hex_text(identity@).take(8));
    "Loom Contact ".to_owned().concat(start)
}

/// Begins a handshake with a given ephemeral secret.
pub fn begin_handshake_with(
    seed: Option<[u8; 32]>,
    ephemeral: [u8; 32],
    peer_identity: &[u8; 32],
    peer_dh: &[u8; 32],
) -> (begun: Result<(PendingHandshake, HandshakeInitiator), NetworkError>)
    ensures
        begins(seed, ephemeral@, peer_identity@, peer_dh@, begun),
{
    let seed = match seed {
        Some(seed) => seed,
        None => {
            return Err(NetworkError::NoSeed);
        },
    };
    let keys = derive_keys(&seed);
    let ephemeral_key = public_of_secret(&ephemeral);
    let signature = sign(&keys.identity_key, &joined(&ephemeral_key, peer_identity));
    let init = HandshakeInitiator {
        sender_identity: keys.identity_public(),
        sender_dh: keys.dh_public,
        ephemeral_key,
        signature: copied(&signature),
    };
    let pending = PendingHandshake {
        peer_identity: *peer_identity,
        peer_dh: *peer_dh,
        static_secret: keys.dh_secret,
        ephemeral_secret: ephemeral,
        ephemeral_key,
    };
    Ok((pending, init))
}

/// Begins a handshake; the ephemeral secret is drawn at random.
pub fn begin_handshake(
    seed: Option<[u8; 32]>,
    peer_identity: &[u8; 32],
    peer_dh: &[u8; 32],
) -> (begun: Result<(PendingHandshake, HandshakeInitiator), NetworkError>)
    ensures
        exists|ephemeral: Seq<u8>|
            ephemeral.len() == 32 && #[trigger] begins(
                seed,
                ephemeral,
                peer_identity@,
                peer_dh@,
                begun,
            ),
{
    let ephemeral = random_32();
    let begun = begin_handshake_with(seed, ephemeral, peer_identity, peer_dh);
    assert(ephemeral@.len() == 32);
    begun
}

/// Answers a handshake with a given ephemeral secret.
pub fn accept_handshake_with(
    seed: Option<[u8; 32]>,
    ephemeral: [u8; 32],
    init: &HandshakeInitiator,
) -> (answer: Result<AcceptedHandshake, NetworkError>)
    ensures
        answers(seed, ephemeral@, *init, answer),
{
    let seed = match seed {
        Some(seed) => seed,
        None => {
            return Err(NetworkError::NoIdentitySeed);
        },
    };
    let keys = derive_keys(&seed);
    let identity = keys.identity_public();
    let checked = check_signature(
        &init.sender_identity,
        &joined(&init.ephemeral_key, &identity),
        &init.signature,
    );
    answer_checked(&seed, ephemeral, init, checked)
}

/// Answers a handshake whose signature has been checked, with a given ephemeral
/// secret.
pub fn answer_checked(
    seed: &[u8; 32],
    ephemeral: [u8; 32],
    init: &HandshakeInitiator,
    checked: Result<(), NetworkError>,
) -> (answer: Result<AcceptedHandshake, NetworkError>)
    ensures
        match checked {
            Ok(()) => answer matches Ok(given) && is_answer(seed@, ephemeral@, *init, given),
            Err(error) => answer == Err::<AcceptedHandshake, NetworkError>(error),
        },
{
    match checked {
        Ok(()) => {},
        Err(error) => {
            return Err(error);
        },
    }
    let keys = derive_keys(seed);
    let ephemeral_key = public_of_secret(&ephemeral);
    let shared_root = compute_3dh_responder(
        &keys.dh_secret,
        &ephemeral,
        &init.sender_dh,
        &init.ephemeral_key,
    );
    let session = DoubleRatchetSession::initialize_passive(
        ephemeral,
        init.ephemeral_key,
        shared_root,
    );
    let signature = sign(&keys.identity_key, &joined(&ephemeral_key, &init.ephemeral_key));
    let contact = NewContact {
        public_key: init.sender_identity,
        dh_key: init.sender_dh,
        display_name: name_contact(&init.sender_identity),
    };
    let response = HandshakeResponder { ephemeral_key, signature: copied(&signature) };
    Ok(AcceptedHandshake { session, contact, response })
}

/// Answers a handshake; the ephemeral secret is drawn at random.
pub fn accept_handshake(seed: Option<[u8; 32]>, init: &HandshakeInitiator) -> (answer: Result<
    AcceptedHandshake,
    NetworkError,
>)
    ensures
        exists|ephemeral: Seq<u8>|
            ephemeral.len() == 32 && #[trigger] answers(seed, ephemeral, *init, answer),
{
    let ephemeral = random_32();
    let answer = accept_handshake_with(seed, ephemeral, init);
    assert(ephemeral@.len() == 32);
    answer
}

/// Finishes a handshake, with a given secret for the first sending chain.
pub fn finish_handshake_with(
    pending: &PendingHandshake,
    response: &WireMessage,
    fresh: [u8; 32],
) -> (finished: Result<DoubleRatchetSession, NetworkError>)
    ensures
        finishes(*pending, *response, fresh@, finished),
{
    let answer = match response {
        WireMessage::Responder(answer) => answer,
        _ => {
            return Err(NetworkError::UnexpectedResponse);
        },
    };
    let checked = check_signature(
        &pending.peer_identity,
        &joined(&answer.ephemeral_key, &pending.ephemeral_key),
        &answer.signature,
    );
    finish_checked(pending, answer, checked, fresh)
}

/// Finishes a handshake whose answer has been checked, with a given secret for the
/// first sending chain.
pub fn finish_checked(
    pending: &PendingHandshake,
    answer: &HandshakeResponder,
    checked: Result<(), NetworkError>,
    fresh: [u8; 32],
) -> (finished: Result<DoubleRatchetSession, NetworkError>)
    ensures
        match checked {
            Ok(()) => finished matches Ok(session) && is_finish(
                *pending,
                *answer,
                fresh@,
                session,
            ),
            Err(error) => finished == Err::<DoubleRatchetSession, NetworkError>(error),
        },
{
    match checked {
        Ok(()) => {},
        Err(error) => {
            return Err(error);
        },
    }
    let shared_root = compute_3dh_initiator(
        &pending.static_secret,
        &pending.ephemeral_secret,
        &pending.peer_dh,
        &answer.ephemeral_key,
    );
    Ok(DoubleRatchetSession::initialize_active_with(fresh, answer.ephemeral_key, shared_root))
}

/// Finishes a handshake; the secret of the first sending chain is drawn at random.
pub fn finish_handshake(pending: &PendingHandshake, response: &WireMessage) -> (finished: Result<
    DoubleRatchetSession,
    NetworkError,
>)
    ensures
        exists|fresh: Seq<u8>|
            fresh.len() == 32 && #[trigger] finishes(*pending, *response, fresh, finished),
{
    let fresh = random_32();
    let finished = finish_handshake_with(pending, response, fresh);
    assert(fresh@.len() == 32);
    finished
}

/// A handshake between two parties that each know the other's keys succeeds on
/// both sides, and links their sessions: the responder awaits the chain on which
/// the initiator sends. The secret of that chain is new, so that its public key
/// is not the ephemeral key of the handshake.
pub proof fn law_handshake_links_sessions(
    initiator_seed: [u8; 32],
    responder_seed: [u8; 32],
    initiator_ephemeral: Seq<u8>,
    responder_ephemeral: Seq<u8>,
    fresh: Seq<u8>,
    begun: Result<(PendingHandshake, HandshakeInitiator), NetworkError>,
    answer: Result<AcceptedHandshake, NetworkError>,
    finished: Result<DoubleRatchetSession, NetworkError>,
)
    requires
        dh_seed(responder_seed@).len() == 32,
        responder_ephemeral.len() == 32,
        begins(
            Some(initiator_seed),
            initiator_ephemeral,
            identity_of(responder_seed@),
            dh_public_of(responder_seed@),
            begun,
        ),
        answers(Some(responder_seed), responder_ephemeral, begun->Ok_0.1, answer),
        finishes(
            begun->Ok_0.0,
            WireMessage::Responder(answer->Ok_0.response),
            fresh,
            finished,
        ),
        !is_same_key(x25519_public(fresh), x25519_public(initiator_ephemeral)),
    ensures
        begun is Ok,
        answer is Ok,
        finished is Ok,
        ({
            let responder = answer->Ok_0.session@;
            let initiator = finished->Ok_0@;
            awaits(responder, initiator, x25519_public(fresh), initiator.ck_s->0)
        }),
        answer->Ok_0.contact.public_key@ == identity_of(initiator_seed@),
        answer->Ok_0.contact.dh_key@ == dh_public_of(initiator_seed@),
{
    let pending = begun->Ok_0.0;
    let init = begun->Ok_0.1;
    let response = answer->Ok_0.response;
    assert(pending.peer_dh@ == x25519_public(dh_seed(responder_seed@)));
    assert(response.ephemeral_key@ == x25519_public(responder_ephemeral));
    let root = initiator_root(
        pending.static_secret@,
        pending.ephemeral_secret@,
        pending.peer_dh@,
        response.ephemeral_key@,
    );
    assert(root == responder_root(
        dh_seed(responder_seed@),
        responder_ephemeral,
        init.sender_dh@,
        init.ephemeral_key@,
    ));
    law_sessions_start_linked(fresh, responder_ephemeral, init.ephemeral_key@, root);
}

} // verus!
