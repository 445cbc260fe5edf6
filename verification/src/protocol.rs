//! The messages of the protocol: the two halves of the handshake, the shared root
//! key that comes out of it, and the signed envelopes of the chat.

use vstd::prelude::*;

use crate::bytes::{append_bytes, append_text, array32, array64, be_bytes, copied, utf8};
use crate::crypto::CryptoError;
use crate::json::{bytes_json, decimal, put_bytes, put_number, put_string, string_json};
use crate::primitives::{
    diffie_hellman, ed25519_accepts, ed25519_public, ed25519_signature, hkdf, hkdf_sha256,
    is_identity_key, random_32, refusal, sign, x25519_public, x25519_shared,
};
use crate::ratchet::{decrypts, with_header, DoubleRatchetSession, RatchetView};

verus! {

/// The first message of a handshake. The signature is over the ephemeral key and
/// the recipient's identity.
#[derive(Debug, Clone)]
pub struct HandshakeInitiator {
    pub sender_identity: [u8; 32],
    pub sender_dh: [u8; 32],
    pub ephemeral_key: [u8; 32],
    pub signature: Vec<u8>,
}

/// The answer to a handshake. The signature is over the two ephemeral keys, the
/// responder's first.
#[derive(Debug, Clone)]
pub struct HandshakeResponder {
    pub ephemeral_key: [u8; 32],
    pub signature: Vec<u8>,
}

/// An encrypted chat message with the header of its ratchet. The signature is
/// over all the other fields.
#[derive(Debug, Clone)]
pub struct EncryptedEnvelope {
    pub message_id: String,
    pub peer_dh_pub: [u8; 32],
    pub n: u32,
    pub pn: u32,
    pub ciphertext: Vec<u8>,
    pub nonce: [u8; 12],
    pub signature: Vec<u8>,
}

/// What goes over a connection.
#[derive(Debug, Clone)]
pub enum WireMessage {
    Initiator(HandshakeInitiator),
    Responder(HandshakeResponder),
    Chat(EncryptedEnvelope),
}

/// The root key of three Diffie-Hellman secrets.
pub open spec fn root_key(dh1: Seq<u8>, dh2: Seq<u8>, dh3: Seq<u8>) -> Seq<u8> {
    hkdf_sha256(
        utf8("LOOM-HANDSHAKE-SALT"@),
        dh1 + dh2 + dh3,
        utf8("LOOM-SHARED-ROOT-KEY"@),
        32,
    )
}

/// The root key as the initiator of a handshake computes it.
pub open spec fn initiator_root(
    static_secret: Seq<u8>,
    ephemeral_secret: Seq<u8>,
    peer_static_pub: Seq<u8>,
    peer_ephemeral_pub: Seq<u8>,
) -> Seq<u8> {
    root_key(
        x25519_shared(static_secret, peer_ephemeral_pub),
        x25519_shared(ephemeral_secret, peer_static_pub),
        x25519_shared(ephemeral_secret, peer_ephemeral_pub),
    )
}

/// The root key as the responder of a handshake computes it.
pub open spec fn responder_root(
    static_secret: Seq<u8>,
    ephemeral_secret: Seq<u8>,
    peer_static_pub: Seq<u8>,
    peer_ephemeral_pub: Seq<u8>,
) -> Seq<u8> {
    root_key(
        x25519_shared(ephemeral_secret, peer_static_pub),
        x25519_shared(static_secret, peer_ephemeral_pub),
        x25519_shared(ephemeral_secret, peer_ephemeral_pub),
    )
}

/// Derives the root key of three Diffie-Hellman secrets.
pub fn derive_root(dh1: &[u8; 32], dh2: &[u8; 32], dh3: &[u8; 32]) -> (root: [u8; 32])
    ensures
        root@ == root_key(dh1@, dh2@, dh3@),
        root@ == hkdf_sha256(
            utf8("LOOM-HANDSHAKE-SALT"@),
            dh1@ + dh2@ + dh3@,
            utf8("LOOM-SHARED-ROOT-KEY"@),
            32,
        ),
{
    let mut ikm: Vec<u8> = Vec::new();
    append_bytes(&mut ikm, dh1);
    append_bytes(&mut ikm, dh2);
    append_bytes(&mut ikm, dh3);
    assert(ikm@ =~= dh1@ + dh2@ + dh3@);
    let okm = hkdf(
        "LOOM-HANDSHAKE-SALT".as_bytes(),
        &ikm,
        "LOOM-SHARED-ROOT-KEY".as_bytes(),
        32,
    );
    assert(okm@.subrange(0, 32) =~= okm@);
    array32(&okm, 0)
}

/// Computes the root key on the initiator's side. It is the one that the
/// responder computes from the initiator's public keys.
pub fn compute_3dh_initiator(
    static_secret: &[u8; 32],
    ephemeral_secret: &[u8; 32],
    peer_static_pub: &[u8; 32],
    peer_ephemeral_pub: &[u8; 32],
) -> (root: [u8; 32])
    ensures
        root@ == initiator_root(
            static_secret@,
            ephemeral_secret@,
            peer_static_pub@,
            peer_ephemeral_pub@,
        ),
        forall|peer_static: Seq<u8>, peer_ephemeral: Seq<u8>|
            peer_static.len() == 32 && peer_ephemeral.len() == 32 && peer_static_pub@
                == #[trigger] x25519_public(peer_static) && peer_ephemeral_pub@
                == #[trigger] x25519_public(peer_ephemeral) ==> root@ == responder_root(
                peer_static,
                peer_ephemeral,
                x25519_public(static_secret@),
                x25519_public(ephemeral_secret@),
            ),
{
    let dh1 = diffie_hellman(static_secret, peer_ephemeral_pub);
    let dh2 = diffie_hellman(ephemeral_secret, peer_static_pub);
    let dh3 = diffie_hellman(ephemeral_secret, peer_ephemeral_pub);
    derive_root(&dh1, &dh2, &dh3)
}

/// Computes the root key on the responder's side. It is the one that the
/// initiator computes from the responder's public keys.
pub fn compute_3dh_responder(
    static_secret: &[u8; 32],
    ephemeral_secret: &[u8; 32],
    peer_static_pub: &[u8; 32],
    peer_ephemeral_pub: &[u8; 32],
) -> (root: [u8; 32])
    ensures
        root@ == responder_root(
            static_secret@,
            ephemeral_secret@,
            peer_static_pub@,
            peer_ephemeral_pub@,
        ),
        forall|peer_static: Seq<u8>, peer_ephemeral: Seq<u8>|
            peer_static.len() == 32 && peer_ephemeral.len() == 32 && peer_static_pub@
                == #[trigger] x25519_public(peer_static) && peer_ephemeral_pub@
                == #[trigger] x25519_public(peer_ephemeral) ==> root@ == initiator_root(
                peer_static,
                peer_ephemeral,
                x25519_public(static_secret@),
                x25519_public(ephemeral_secret@),
            ),
{
    let dh1 = diffie_hellman(ephemeral_secret, peer_static_pub);
    let dh2 = diffie_hellman(static_secret, peer_ephemeral_pub);
    let dh3 = diffie_hellman(ephemeral_secret, peer_ephemeral_pub);
    derive_root(&dh1, &dh2, &dh3)
}

impl HandshakeInitiator {
    /// The message as JSON.
    pub open spec fn json(self) -> Seq<u8> {
        utf8("{\"sender_identity\":"@) + bytes_json(self.sender_identity@) + utf8(
            ",\"sender_dh\":"@,
        ) + bytes_json(self.sender_dh@) + utf8(",\"ephemeral_key\":"@) + bytes_json(
            self.ephemeral_key@,
        ) + utf8(",\"signature\":"@) + bytes_json(self.signature@) + utf8("}"@)
    }
}

impl HandshakeResponder {
    /// The message as JSON.
    pub open spec fn json(self) -> Seq<u8> {
        utf8("{\"ephemeral_key\":"@) + bytes_json(self.ephemeral_key@) + utf8(",\"signature\":"@)
            + bytes_json(self.signature@) + utf8("}"@)
    }
}

/// The fields of an envelope as JSON.
pub open spec fn envelope_json(
    message_id: Seq<char>,
    peer_dh_pub: Seq<u8>,
    n: nat,
    pn: nat,
    ciphertext: Seq<u8>,
    nonce: Seq<u8>,
    signature: Seq<u8>,
) -> Seq<u8> {
    utf8("{\"message_id\":"@) + string_json(message_id) + utf8(",\"peer_dh_pub\":"@) + bytes_json(
        peer_dh_pub,
    ) + utf8(",\"n\":"@) + decimal(n) + utf8(",\"pn\":"@) + decimal(pn) + utf8(
        ",\"ciphertext\":"@,
    ) + bytes_json(ciphertext) + utf8(",\"nonce\":"@) + bytes_json(nonce) + utf8(
        ",\"signature\":"@,
    ) + bytes_json(signature) + utf8("}"@)
}

/// Writes the fields of an envelope as JSON.
fn envelope_to_json(envelope: &EncryptedEnvelope, signature: &[u8]) -> (json: Vec<u8>)
    ensures
        json@ == envelope_json(
            envelope.message_id@,
            envelope.peer_dh_pub@,
            envelope.n as nat,
            envelope.pn as nat,
            envelope.ciphertext@,
            envelope.nonce@,
            signature@,
        ),
{
    let mut json: Vec<u8> = Vec::new();
    put_string(&mut json, "{\"message_id\":", envelope.message_id.as_str());
    put_bytes(&mut json, ",\"peer_dh_pub\":", &envelope.peer_dh_pub);
    put_number(&mut json, ",\"n\":", envelope.n);
    put_number(&mut json, ",\"pn\":", envelope.pn);
    put_bytes(&mut json, ",\"ciphertext\":", &envelope.ciphertext);
    put_bytes(&mut json, ",\"nonce\":", &envelope.nonce);
    put_bytes(&mut json, ",\"signature\":", signature);
    append_text(&mut json, "}");
    assert(json@ =~= envelope_json(
        envelope.message_id@,
        envelope.peer_dh_pub@,
        envelope.n as nat,
        envelope.pn as nat,
        envelope.ciphertext@,
        envelope.nonce@,
        signature@,
    ));
    json
}

impl WireMessage {
    /// The message as JSON: an object with the variant's name as its only key.
    pub open spec fn json(self) -> Seq<u8> {
        match self {
            WireMessage::Initiator(message) => utf8("{\"Initiator\":"@) + message.json() + utf8(
                "}"@,
            ),
            WireMessage::Responder(message) => utf8("{\"Responder\":"@) + message.json() + utf8(
                "}"@,
            ),
            WireMessage::Chat(envelope) => utf8("{\"Chat\":"@) + envelope.json() + utf8("}"@),
        }
    }

    /// Writes the message as JSON.
    pub fn to_json(&self) -> (json: Vec<u8>)
        ensures
            json@ == self.json(),
    {
        let mut json: Vec<u8> = Vec::new();
        match self {
            WireMessage::Initiator(message) => {
                append_text(&mut json, "{\"Initiator\":");
                put_bytes(&mut json, "{\"sender_identity\":", &message.sender_identity);
                put_bytes(&mut json, ",\"sender_dh\":", &message.sender_dh);
                put_bytes(&mut json, ",\"ephemeral_key\":", &message.ephemeral_key);
                put_bytes(&mut json, ",\"signature\":", &message.signature);
                append_text(&mut json, "}");
                append_text(&mut json, "}");
            },
            WireMessage::Responder(message) => {
                append_text(&mut json, "{\"Responder\":");
                put_bytes(&mut json, "{\"ephemeral_key\":", &message.ephemeral_key);
                put_bytes(&mut json, ",\"signature\":", &message.signature);
                append_text(&mut json, "}");
                append_text(&mut json, "}");
            },
            WireMessage::Chat(envelope) => {
                json = envelope.to_chat_json();
            },
        }
        assert(json@ =~= self.json());
        json
    }
}

impl EncryptedEnvelope {
    /// The envelope as JSON.
    pub open spec fn json(self) -> Seq<u8> {
        envelope_json(
            self.message_id@,
            self.peer_dh_pub@,
            self.n as nat,
            self.pn as nat,
            self.ciphertext@,
            self.nonce@,
            self.signature@,
        )
    }

    /// The bytes that the signature is over: the envelope as JSON, with an empty
    /// signature.
    pub open spec fn signed_bytes(self) -> Seq<u8> {
        envelope_json(
            self.message_id@,
            self.peer_dh_pub@,
            self.n as nat,
            self.pn as nat,
            self.ciphertext@,
            self.nonce@,
            Seq::empty(),
        )
    }

    /// Whether the holder of `key` signed the envelope.
    pub open spec fn signed_by(self, key: Seq<u8>) -> bool {
        &&& self.signature@.len() == 64
        &&& ed25519_accepts(key, self.signed_bytes(), self.signature@)
    }

    /// The associated data of the ciphertext: the message id, then the header.
    pub open spec fn associated_data(self) -> Seq<u8> {
        with_header(utf8(self.message_id@), self.peer_dh_pub@, self.n as nat, self.pn as nat)
    }

    /// The associated data of the ciphertext: the message id, then the header.
    pub fn header_bytes(&self) -> (bytes: Vec<u8>)
        ensures
            bytes@ == self.associated_data(),
    {
        let mut bytes: Vec<u8> = Vec::new();
        append_text(&mut bytes, self.message_id.as_str());
        append_bytes(&mut bytes, &self.peer_dh_pub);
        append_bytes(&mut bytes, &be_bytes(self.n));
        append_bytes(&mut bytes, &be_bytes(self.pn));
        assert(bytes@ =~= self.associated_data());
        bytes
    }

    /// Whether the holder of `key` signed the envelope.
    pub fn verify(&self, key: &[u8; 32]) -> (signed: bool)
        ensures
            signed == self.signed_by(key@),
    {
        let nothing: Vec<u8> = Vec::new();
        let unsigned = envelope_to_json(self, &nothing);
        assert(nothing@ =~= Seq::<u8>::empty());
        match array64(&self.signature) {
            Some(signature) => is_identity_key(key) && refusal(key, &unsigned, &signature).is_none(),
            None => false,
        }
    }

    /// Writes the envelope as the JSON of a chat message.
    pub fn to_chat_json(&self) -> (json: Vec<u8>)
        ensures
            json@ == WireMessage::Chat(*self).json(),
    {
        let mut json: Vec<u8> = Vec::new();
        append_text(&mut json, "{\"Chat\":");
        append_bytes(&mut json, &envelope_to_json(self, &self.signature));
        append_text(&mut json, "}");
        assert(json@ =~= WireMessage::Chat(*self).json());
        json
    }

    /// Puts a message into an envelope and signs it.
    pub fn signed(
        message_id: String,
        peer_dh_pub: [u8; 32],
        n: u32,
        pn: u32,
        ciphertext: Vec<u8>,
        nonce: [u8; 12],
        signing_key: &[u8; 32],
    ) -> (envelope: Self)
        ensures
            envelope.message_id@ == message_id@,
            envelope.peer_dh_pub == peer_dh_pub,
            envelope.n == n,
            envelope.pn == pn,
            envelope.ciphertext@ == ciphertext@,
            envelope.nonce == nonce,
            envelope.signature@ == ed25519_signature(signing_key@, envelope.signed_bytes()),
            envelope.signed_by(ed25519_public(signing_key@)),
    {
        let mut envelope = EncryptedEnvelope {
            message_id,
            peer_dh_pub,
            n,
            pn,
            ciphertext,
            nonce,
            signature: Vec::new(),
        };
        let nothing: Vec<u8> = Vec::new();
        let unsigned = envelope_to_json(&envelope, &nothing);
        assert(nothing@ =~= Seq::<u8>::empty());
        let signature = sign(signing_key, &unsigned);
        envelope.signature = copied(&signature);
        envelope
    }

    /// Puts a message into an envelope, signs it, and writes it as the JSON of a
    /// chat message. It never fails.
    pub fn sign_and_serialize(
        message_id: String,
        peer_dh_pub: [u8; 32],
        n: u32,
        pn: u32,
        ciphertext: Vec<u8>,
        nonce: [u8; 12],
        signing_key: &[u8; 32],
    ) -> (wire: Result<Vec<u8>, CryptoError>)
        ensures
            ({
                let unsigned = envelope_json(
                    message_id@,
                    peer_dh_pub@,
                    n as nat,
                    pn as nat,
                    ciphertext@,
                    nonce@,
                    Seq::empty(),
                );
                let signature = ed25519_signature(signing_key@, unsigned);
                &&& wire matches Ok(json)
                &&& json@ == utf8("{\"Chat\":"@) + envelope_json(
                    message_id@,
                    peer_dh_pub@,
                    n as nat,
                    pn as nat,
                    ciphertext@,
                    nonce@,
                    signature,
                ) + utf8("}"@)
                &&& signature.len() == 64
                &&& ed25519_accepts(ed25519_public(signing_key@), unsigned, signature)
            }),
    {
        let envelope = Self::signed(
            message_id,
            peer_dh_pub,
            n,
            pn,
            ciphertext,
            nonce,
            signing_key,
        );
        Ok(envelope.to_chat_json())
    }

    /// Verifies a chat message and decrypts it, with a given secret for the
    /// sending chain that a turn of the ratchet starts.
    pub fn verify_and_decrypt_with(
        fresh: [u8; 32],
        wire: Option<WireMessage>,
        verifying_key: &[u8; 32],
        ratchet: &mut DoubleRatchetSession,
    ) -> (read: Result<(String, Vec<u8>), CryptoError>)
        requires
            can_read(wire, verifying_key@, old(ratchet)@),
        ensures
            reads(wire, verifying_key@, fresh@, old(ratchet)@, final(ratchet)@, read),
            old(ratchet)@.agreed() ==> final(ratchet)@.agreed(),
    {
        let envelope = match wire {
            Some(WireMessage::Chat(envelope)) => envelope,
            _ => {
                return Err(CryptoError::DecryptionError);
            },
        };
        let verified = envelope.verify(verifying_key);
        Self::open_with(fresh, envelope, verified, ratchet)
    }

    /// Decrypts a message whose signature has been checked, with a given secret
    /// for the sending chain that a turn of the ratchet starts.
    pub fn open_with(
        fresh: [u8; 32],
        envelope: EncryptedEnvelope,
        verified: bool,
        ratchet: &mut DoubleRatchetSession,
    ) -> (read: Result<(String, Vec<u8>), CryptoError>)
        requires
            verified ==> old(ratchet)@.can_receive(
                envelope.ciphertext@.len() as int,
                envelope.peer_dh_pub@,
                envelope.n as nat,
                envelope.pn as nat,
            ),
        ensures
            opens_envelope(envelope, verified, fresh@, old(ratchet)@, final(ratchet)@, read),
            old(ratchet)@.agreed() ==> final(ratchet)@.agreed(),
    {
        if !verified {
            return Err(CryptoError::InvalidSignature);
        }
        let associated_data = envelope.header_bytes();
        let opened = ratchet.decrypt_with(
            fresh,
            &envelope.ciphertext,
            &envelope.nonce,
            envelope.peer_dh_pub,
            envelope.n,
            envelope.pn,
            &associated_data,
        );
        match opened {
            Ok(plaintext) => Ok((envelope.message_id, plaintext)),
            Err(error) => Err(error),
        }
    }

    /// Verifies a chat message and decrypts it; `None` stands for bytes that are
    /// no message at all. Where the ratchet turns, the secret of the new sending
    /// chain is drawn at random.
    pub fn verify_and_decrypt(
        wire: Option<WireMessage>,
        verifying_key: &[u8; 32],
        ratchet: &mut DoubleRatchetSession,
    ) -> (read: Result<(String, Vec<u8>), CryptoError>)
        requires
            can_read(wire, verifying_key@, old(ratchet)@),
        ensures
            exists|fresh: Seq<u8>|
                fresh.len() == 32 && #[trigger] reads(
                    wire,
                    verifying_key@,
                    fresh,
                    old(ratchet)@,
                    final(ratchet)@,
                    read,
                ),
            old(ratchet)@.agreed() ==> final(ratchet)@.agreed(),
    {
        let fresh = random_32();
        let read = Self::verify_and_decrypt_with(fresh, wire, verifying_key, ratchet);
        assert(fresh@.len() == 32);
        read
    }

    /// Verifies a chat message and decrypts it, where the counters of the session
    /// allow it; `None` where they do not, and the session stays as it is.
    pub fn try_verify_and_decrypt_with(
        fresh: [u8; 32],
        wire: Option<WireMessage>,
        verifying_key: &[u8; 32],
        ratchet: &mut DoubleRatchetSession,
    ) -> (read: Option<Result<(String, Vec<u8>), CryptoError>>)
        ensures
            match read {
                Some(read) => {
                    &&& can_read(wire, verifying_key@, old(ratchet)@)
                    &&& reads(wire, verifying_key@, fresh@, old(ratchet)@, final(ratchet)@, read)
                },
                None => {
                    &&& !can_read(wire, verifying_key@, old(ratchet)@)
                    &&& final(ratchet)@ == old(ratchet)@
                },
            },
            old(ratchet)@.agreed() ==> final(ratchet)@.agreed(),
    {
        let ready: bool = match &wire {
            Some(WireMessage::Chat(envelope)) => ratchet.can_decrypt(
                envelope.ciphertext.len(),
                &envelope.peer_dh_pub,
                envelope.n,
                envelope.pn,
            ) || !envelope.verify(verifying_key),
            _ => true,
        };
        if ready {
            Some(Self::verify_and_decrypt_with(fresh, wire, verifying_key, ratchet))
        } else {
            None
        }
    }
}

/// The session's counters allow the message to be read, if it is one that the
/// holder of `key` signed.
pub open spec fn can_read(wire: Option<WireMessage>, key: Seq<u8>, ratchet: RatchetView) -> bool {
    match wire {
        Some(WireMessage::Chat(envelope)) => envelope.signed_by(key) ==> ratchet.can_receive(
            envelope.ciphertext@.len() as int,
            envelope.peer_dh_pub@,
            envelope.n as nat,
            envelope.pn as nat,
        ),
        _ => true,
    }
}

/// The plaintext of a message that was read, without its id.
pub open spec fn plaintext_of(read: Result<(String, Vec<u8>), CryptoError>) -> Result<
    Vec<u8>,
    CryptoError,
> {
    match read {
        Ok((_, plaintext)) => Ok(plaintext),
        Err(error) => Err(error),
    }
}

/// What opening an envelope does to a session, and what it returns, where
/// `verified` says whether its signature is good. An unsigned envelope is refused
/// and leaves the session as it is.
pub open spec fn opens_envelope(
    envelope: EncryptedEnvelope,
    verified: bool,
    fresh: Seq<u8>,
    before: RatchetView,
    after: RatchetView,
    read: Result<(String, Vec<u8>), CryptoError>,
) -> bool {
    if verified {
        &&& decrypts(
            before,
            after,
            fresh,
            envelope.ciphertext@,
            envelope.nonce@,
            envelope.peer_dh_pub@,
            envelope.n as nat,
            envelope.pn as nat,
            envelope.associated_data(),
            plaintext_of(read),
        )
        &&& read matches Ok((id, _)) ==> id@ == envelope.message_id@
    } else {
        &&& after == before
        &&& read == Err::<(String, Vec<u8>), CryptoError>(CryptoError::InvalidSignature)
    }
}

/// What reading a message does to a session, and what it returns. Only a chat
/// message that the holder of `key` signed reaches the session; anything else is
/// refused and leaves it as it is.
pub open spec fn reads(
    wire: Option<WireMessage>,
    key: Seq<u8>,
    fresh: Seq<u8>,
    before: RatchetView,
    after: RatchetView,
    read: Result<(String, Vec<u8>), CryptoError>,
) -> bool {
    match wire {
        Some(WireMessage::Chat(envelope)) => opens_envelope(
            envelope,
            envelope.signed_by(key),
            fresh,
            before,
            after,
            read,
        ),
        _ => {
            &&& after == before
            &&& read == Err::<(String, Vec<u8>), CryptoError>(CryptoError::DecryptionError)
        },
    }
}

} // verus!
