//! The double ratchet: one party's side of an encrypted conversation.
//!
//! Every message is encrypted under a key of its own. Each direction has a chain
//! of message keys, and whenever the conversation changes direction a fresh
//! Diffie-Hellman exchange starts two new chains. Keys of messages that have not
//! arrived yet are kept, so that messages may come out of order.

use vstd::prelude::*;

use crate::bytes::{append_bytes, append_text, array32, be32, be_bytes, copied, same_bytes, utf8};
use crate::crypto::{
    decrypt_symmetric, encrypt_symmetric_with, opens, seals, CryptoError,
};
use crate::json::{bytes_json, decimal, put_bytes, put_number};
use crate::primitives::{
    cipher_accepts_length, cipher_exhausted_by, diffie_hellman, hkdf, hkdf_sha256,
    is_same_key, public_of_secret, random_12, random_32, same_public_key, x25519_public, x25519_shared,
};
use crate::table::{map_of, Table, TableKey};

verus! {

/// The most message keys that one message may make a session skip.
pub const MAX_SKIP: u32 = 100;

/// A session as a mathematical value: the own Diffie-Hellman secret, the peer's
/// public key, the root key, the two chain keys, the counters and the keys that
/// were kept, by the peer's public key and the message number.
#[verifier::ext_equal]
pub struct RatchetView {
    pub dhs: Seq<u8>,
    pub dhp: Seq<u8>,
    pub rk: Seq<u8>,
    pub ck_s: Option<Seq<u8>>,
    pub ck_r: Option<Seq<u8>>,
    pub ns: nat,
    pub nr: nat,
    pub pn: nat,
    pub skipped: Map<(Seq<u8>, nat), Seq<u8>>,
}

/// The root step: the next root key and a new chain key.
pub open spec fn kdf_rk(rk: Seq<u8>, dh_out: Seq<u8>) -> (Seq<u8>, Seq<u8>) {
    let okm = hkdf_sha256(rk, dh_out, utf8("LOOM-DOUBLE-RATCHET-KDF-RK"@), 64);
    (okm.subrange(0, 32), okm.subrange(32, 64))
}

/// The chain step: the next chain key and a message key.
pub open spec fn kdf_ck(ck: Seq<u8>) -> (Seq<u8>, Seq<u8>) {
    let okm = hkdf_sha256(ck, Seq::empty(), utf8("LOOM-DOUBLE-RATCHET-KDF-CK"@), 64);
    (okm.subrange(0, 32), okm.subrange(32, 64))
}

/// The chain key after `steps` steps.
pub open spec fn chain_key(ck: Seq<u8>, steps: nat) -> Seq<u8>
    decreases steps,
{
    if steps == 0 {
        ck
    } else {
        kdf_ck(chain_key(ck, (steps - 1) as nat)).0
    }
}

/// The message key that lies `steps` steps ahead in a chain.
pub open spec fn message_key(ck: Seq<u8>, steps: nat) -> Seq<u8> {
    kdf_ck(chain_key(ck, steps)).1
}

/// The keys of messages `from` to `until` of the chain whose next key is number
/// `from`.
pub open spec fn chain_keys(dhp: Seq<u8>, ck: Seq<u8>, from: nat, until: nat) -> Map<
    (Seq<u8>, nat),
    Seq<u8>,
> {
    Map::new(
        |slot: (Seq<u8>, nat)| slot.0 == dhp && from <= slot.1 < until,
        |slot: (Seq<u8>, nat)| message_key(ck, (slot.1 - from) as nat),
    )
}

/// The associated data of a message: what the caller gave, then the header.
pub open spec fn with_header(
    associated_data: Seq<u8>,
    dh_pub: Seq<u8>,
    n: nat,
    pn: nat,
) -> Seq<u8> {
    associated_data + dh_pub + be32(n) + be32(pn)
}

impl RatchetView {
    /// The state of the party that may send first.
    pub open spec fn active(fresh: Seq<u8>, peer_dh_pub: Seq<u8>, shared_root: Seq<u8>) -> Self {
        let (rk, ck_s) = kdf_rk(shared_root, x25519_shared(fresh, peer_dh_pub));
        RatchetView {
            dhs: fresh,
            dhp: peer_dh_pub,
            rk,
            ck_s: Some(ck_s),
            ck_r: None,
            ns: 0,
            nr: 0,
            pn: 0,
            skipped: Map::empty(),
        }
    }

    /// The state of the party that waits for the first message.
    pub open spec fn passive(
        ephemeral: Seq<u8>,
        peer_dh_pub: Seq<u8>,
        shared_root: Seq<u8>,
    ) -> Self {
        RatchetView {
            dhs: ephemeral,
            dhp: peer_dh_pub,
            rk: shared_root,
            ck_s: None,
            ck_r: None,
            ns: 0,
            nr: 0,
            pn: 0,
            skipped: Map::empty(),
        }
    }

    /// The state after one message was sent.
    pub open spec fn sent(self) -> Self {
        match self.ck_s {
            Some(ck) => RatchetView { ck_s: Some(kdf_ck(ck).0), ns: self.ns + 1, ..self },
            None => self,
        }
    }

    /// The key of the next message to send.
    pub open spec fn sending_key(self) -> Seq<u8>
        recommends
            self.ck_s is Some,
    {
        kdf_ck(self.ck_s->0).1
    }

    /// Whether the receiving chain may move on to message `until`.
    pub open spec fn may_skip(self, until: nat) -> bool {
        until <= self.nr + MAX_SKIP
    }

    /// The state after the receiving chain has moved on to message `until`; the
    /// keys that it passed are kept.
    pub open spec fn skip(self, until: nat) -> Self {
        match self.ck_r {
            Some(ck) if self.nr < until => RatchetView {
                ck_r: Some(chain_key(ck, (until - self.nr) as nat)),
                nr: until,
                skipped: self.skipped.union_prefer_right(
                    chain_keys(self.dhp, ck, self.nr, until),
                ),
                ..self
            },
            _ => self,
        }
    }

    /// The state after a turn of the ratchet: a receiving chain from the peer's
    /// new key, and a sending chain from the fresh secret.
    pub open spec fn turn(self, fresh: Seq<u8>, peer_dh_pub: Seq<u8>) -> Self {
        let (rk_r, ck_r) = kdf_rk(self.rk, x25519_shared(self.dhs, peer_dh_pub));
        let (rk_s, ck_s) = kdf_rk(rk_r, x25519_shared(fresh, peer_dh_pub));
        RatchetView {
            dhs: fresh,
            dhp: peer_dh_pub,
            rk: rk_s,
            ck_s: Some(ck_s),
            ck_r: Some(ck_r),
            ns: 0,
            nr: 0,
            pn: self.ns,
            skipped: self.skipped,
        }
    }

    /// Whether a public key is the peer's current one, in whatever encoding.
    pub open spec fn knows(self, dh_pub: Seq<u8>) -> bool {
        is_same_key(dh_pub, self.dhp)
    }

    /// Whether the key of a message was kept.
    pub open spec fn keeps(self, dh_pub: Seq<u8>, n: nat) -> bool {
        self.skipped.contains_key((dh_pub, n))
    }

    /// Whether the message with this header comes within reach of a key. It does
    /// not where too many messages would have to be skipped, or where nothing
    /// has been received and the header names the key that is known already.
    pub open spec fn finds_key(self, dh_pub: Seq<u8>, n: nat, pn: nat) -> bool {
        ||| self.keeps(dh_pub, n)
        ||| self.knows(dh_pub) && self.may_skip(n) && self.ck_r is Some
        ||| !self.knows(dh_pub) && self.may_skip(pn) && n <= MAX_SKIP
    }

    /// What the header of a message does to a session: the next state, and the
    /// message key where there is one.
    pub open spec fn receive(self, fresh: Seq<u8>, dh_pub: Seq<u8>, n: nat, pn: nat) -> (
        Self,
        Option<Seq<u8>>,
    ) {
        if self.keeps(dh_pub, n) {
            let rest = RatchetView { skipped: self.skipped.remove((dh_pub, n)), ..self };
            (rest, Some(self.skipped[(dh_pub, n)]))
        } else if !self.knows(dh_pub) {
            if self.may_skip(pn) {
                self.skip(pn).turn(fresh, dh_pub).receive_in_chain(n)
            } else {
                (self, None)
            }
        } else {
            self.receive_in_chain(n)
        }
    }

    /// What message number `n` of the current receiving chain does to a session.
    pub open spec fn receive_in_chain(self, n: nat) -> (Self, Option<Seq<u8>>) {
        if !self.may_skip(n) {
            (self, None)
        } else {
            let there = self.skip(n);
            match there.ck_r {
                Some(ck) => (
                    RatchetView { ck_r: Some(kdf_ck(ck).0), nr: there.nr + 1, ..there },
                    Some(kdf_ck(ck).1),
                ),
                None => (there, None),
            }
        }
    }

    /// The two ends of the last key exchange agree: whoever holds the secret of
    /// the peer's public key computes the secret that the sending chain came
    /// from. A session starts with it, and every operation keeps it.
    pub open spec fn agreed(self) -> bool {
        self.ck_s is Some ==> forall|secret: Seq<u8>|
            secret.len() == 32 && self.dhp == #[trigger] x25519_public(secret) ==> x25519_shared(
                self.dhs,
                self.dhp,
            ) == x25519_shared(secret, x25519_public(self.dhs))
    }

    /// The counters are far enough below their limit for the next message, and
    /// the message is not of a length that the cipher cannot finish.
    pub open spec fn can_send(self, length: int) -> bool {
        self.ck_s is Some ==> self.ns < u32::MAX && !cipher_exhausted_by(length)
    }

    /// The counters are far enough below their limit for a message with this
    /// header.
    pub open spec fn counters_suffice(self, dh_pub: Seq<u8>, n: nat) -> bool {
        self.keeps(dh_pub, n) || {
            &&& self.nr + MAX_SKIP <= u32::MAX
            &&& self.knows(dh_pub) && self.ck_r is Some && n == u32::MAX ==> !self.may_skip(n)
        }
    }

    /// The counters are far enough below their limit for a message with this
    /// header, and its ciphertext is not of a length that the cipher cannot
    /// finish.
    pub open spec fn can_receive(self, length: int, dh_pub: Seq<u8>, n: nat, pn: nat) -> bool {
        &&& self.counters_suffice(dh_pub, n)
        &&& self.finds_key(dh_pub, n, pn) ==> !cipher_exhausted_by(length - 16)
    }
}

/// The result of decrypting under a key that may be missing.
pub open spec fn opens_with(
    key: Option<Seq<u8>>,
    nonce: Seq<u8>,
    associated_data: Seq<u8>,
    ciphertext: Seq<u8>,
    opened: Result<Vec<u8>, CryptoError>,
) -> bool {
    match key {
        Some(key) => opens(key, nonce, associated_data, ciphertext, opened),
        None => opened == Err::<Vec<u8>, CryptoError>(CryptoError::RatchetOutOfSync),
    }
}

/// What sending a message gives: the ciphertext, its nonce and the header.
pub type Sealed = (Vec<u8>, [u8; 12], [u8; 32], u32, u32);

/// What encrypting a message does to a session, and what it returns. A session
/// without a sending chain refuses; a text that is too long for the cipher is
/// refused after the chain has moved on.
pub open spec fn encrypts(
    before: RatchetView,
    after: RatchetView,
    plaintext: Seq<u8>,
    associated_data: Seq<u8>,
    sealed: Result<Sealed, CryptoError>,
) -> bool {
    if before.ck_s is None {
        &&& after == before
        &&& sealed == Err::<Sealed, CryptoError>(CryptoError::RatchetOutOfSync)
    } else {
        &&& after == before.sent()
        &&& match sealed {
            Ok((ciphertext, nonce, dh_pub, n, pn)) => {
                &&& dh_pub@ == x25519_public(before.dhs)
                &&& n == before.ns
                &&& pn == before.pn
                &&& seals(
                    before.sending_key(),
                    nonce@,
                    with_header(associated_data, dh_pub@, n as nat, pn as nat),
                    plaintext,
                    Ok(ciphertext),
                )
            },
            Err(error) => {
                &&& !cipher_accepts_length(plaintext.len() as int)
                &&& error == CryptoError::EncryptionError
            },
        }
    }
}

/// What decrypting a message does to a session, and what it returns, where
/// `fresh` is the secret for a new sending chain.
pub open spec fn decrypts(
    before: RatchetView,
    after: RatchetView,
    fresh: Seq<u8>,
    ciphertext: Seq<u8>,
    nonce: Seq<u8>,
    dh_pub: Seq<u8>,
    n: nat,
    pn: nat,
    associated_data: Seq<u8>,
    opened: Result<Vec<u8>, CryptoError>,
) -> bool {
    let (state, key) = before.receive(fresh, dh_pub, n, pn);
    &&& after == state
    &&& opens_with(key, nonce, associated_data, ciphertext, opened)
}

/// The place of a message: the peer's public key of its chain, and its number.
pub struct MessageSlot {
    pub dh: Vec<u8>,
    pub n: u32,
}

impl View for MessageSlot {
    type V = (Seq<u8>, nat);

    open spec fn view(&self) -> (Seq<u8>, nat) {
        (self.dh@, self.n as nat)
    }
}

impl TableKey for MessageSlot {
    fn same(&self, other: &Self) -> (same: bool) {
        self.n == other.n && same_bytes(&self.dh, &other.dh)
    }
}

/// The bytes of an optional key.
pub open spec fn bytes_of(key: Option<[u8; 32]>) -> Option<Seq<u8>> {
    match key {
        Some(bytes) => Some(bytes@),
        None => None,
    }
}

/// The kept keys by their bytes.
pub open spec fn key_bytes(keys: Map<(Seq<u8>, nat), [u8; 32]>) -> Map<(Seq<u8>, nat), Seq<u8>> {
    keys.map_values(|key: [u8; 32]| key@)
}

/// One party's side of a conversation.
pub struct DoubleRatchetSession {
    dhs: [u8; 32],
    dhp: [u8; 32],
    rk: [u8; 32],
    ck_s: Option<[u8; 32]>,
    ck_r: Option<[u8; 32]>,
    ns: u32,
    nr: u32,
    pn: u32,
    skipped: Table<MessageSlot, [u8; 32]>,
}

impl View for DoubleRatchetSession {
    type V = RatchetView;

    closed spec fn view(&self) -> RatchetView {
        RatchetView {
            dhs: self.dhs@,
            dhp: self.dhp@,
            rk: self.rk@,
            ck_s: bytes_of(self.ck_s),
            ck_r: bytes_of(self.ck_r),
            ns: self.ns as nat,
            nr: self.nr as nat,
            pn: self.pn as nat,
            skipped: key_bytes(self.skipped@),
        }
    }
}

/// An entry of the keys that a saved session keeps.
pub type KeptKey = ((Vec<u8>, u32), [u8; 32]);

/// A session as it is saved.
pub struct DoubleRatchetState {
    pub dhs_bytes: [u8; 32],
    pub dhp_bytes: [u8; 32],
    pub rk: [u8; 32],
    pub ck_s: Option<[u8; 32]>,
    pub ck_r: Option<[u8; 32]>,
    pub ns: u32,
    pub nr: u32,
    pub pn: u32,
    pub skipped_message_keys: Vec<KeptKey>,
}

/// The place that an entry is for.
pub open spec fn place_of(entry: KeptKey) -> (Seq<u8>, nat) {
    (entry.0.0@, entry.0.1 as nat)
}

/// The keys that a list of entries stands for; a later entry replaces an earlier
/// one for the same message.
pub open spec fn kept_keys(entries: Seq<KeptKey>) -> Map<(Seq<u8>, nat), Seq<u8>>
    decreases entries.len(),
{
    if entries.len() == 0 {
        Map::empty()
    } else {
        kept_keys(entries.drop_last()).insert(place_of(entries.last()), entries.last().1@)
    }
}

impl View for DoubleRatchetState {
    type V = RatchetView;

    open spec fn view(&self) -> RatchetView {
        RatchetView {
            dhs: self.dhs_bytes@,
            dhp: self.dhp_bytes@,
            rk: self.rk@,
            ck_s: bytes_of(self.ck_s),
            ck_r: bytes_of(self.ck_r),
            ns: self.ns as nat,
            nr: self.nr as nat,
            pn: self.pn as nat,
            skipped: kept_keys(self.skipped_message_keys@),
        }
    }
}

/// An optional key as JSON.
pub open spec fn optional_json(key: Option<[u8; 32]>) -> Seq<u8> {
    match key {
        Some(bytes) => bytes_json(bytes@),
        None => utf8("null"@),
    }
}

/// An entry of the kept keys as JSON.
pub open spec fn kept_key_json(entry: KeptKey) -> Seq<u8> {
    utf8("[["@) + bytes_json(entry.0.0@) + utf8(","@) + decimal(entry.0.1 as nat) + utf8("],"@)
        + bytes_json(entry.1@) + utf8("]"@)
}

/// The kept keys as JSON, without the brackets around them.
pub open spec fn kept_keys_json(entries: Seq<KeptKey>) -> Seq<u8>
    decreases entries.len(),
{
    if entries.len() == 0 {
        Seq::empty()
    } else if entries.len() == 1 {
        kept_key_json(entries[0])
    } else {
        kept_keys_json(entries.drop_last()) + utf8(","@) + kept_key_json(entries.last())
    }
}

impl DoubleRatchetState {
    /// No message has two kept keys.
    pub open spec fn lists_once(self) -> bool {
        forall|i: int, j: int|
            0 <= i < j < self.skipped_message_keys@.len() ==> place_of(
                #[trigger] self.skipped_message_keys@[i],
            ) != place_of(#[trigger] self.skipped_message_keys@[j])
    }

    /// The state as JSON.
    pub open spec fn json(self) -> Seq<u8> {
        utf8("{\"dhs_bytes\":"@) + bytes_json(self.dhs_bytes@) + utf8(",\"dhp_bytes\":"@)
            + bytes_json(self.dhp_bytes@) + utf8(",\"rk\":"@) + bytes_json(self.rk@) + utf8(
            ",\"ck_s\":"@,
        ) + optional_json(self.ck_s) + utf8(",\"ck_r\":"@) + optional_json(self.ck_r) + utf8(
            ",\"ns\":"@,
        ) + decimal(self.ns as nat) + utf8(",\"nr\":"@) + decimal(self.nr as nat) + utf8(
            ",\"pn\":"@,
        ) + decimal(self.pn as nat) + utf8(",\"skipped_message_keys\":["@) + kept_keys_json(
            self.skipped_message_keys@,
        ) + utf8("]}"@)
    }

    /// Writes the state as JSON.
    pub fn to_json(&self) -> (json: Vec<u8>)
        ensures
            json@ == self.json(),
    {
        let mut json: Vec<u8> = Vec::new();
        put_bytes(&mut json, "{\"dhs_bytes\":", &self.dhs_bytes);
        put_bytes(&mut json, ",\"dhp_bytes\":", &self.dhp_bytes);
        put_bytes(&mut json, ",\"rk\":", &self.rk);
        put_optional(&mut json, ",\"ck_s\":", &self.ck_s);
        put_optional(&mut json, ",\"ck_r\":", &self.ck_r);
        put_number(&mut json, ",\"ns\":", self.ns);
        put_number(&mut json, ",\"nr\":", self.nr);
        put_number(&mut json, ",\"pn\":", self.pn);
        append_text(&mut json, ",\"skipped_message_keys\":[");
        append_bytes(&mut json, &kept_keys_to_json(&self.skipped_message_keys));
        append_text(&mut json, "]}");
        assert(json@ =~= self.json());
        json
    }
}

/// Appends a literal piece of JSON and then an optional key.
fn put_optional(json: &mut Vec<u8>, before: &str, key: &Option<[u8; 32]>)
    ensures
        final(json)@ == old(json)@ + utf8(before@) + optional_json(*key),
{
    match key {
        Some(bytes) => put_bytes(json, before, bytes),
        None => {
            append_text(json, before);
            append_text(json, "null");
        },
    }
}

/// Writes the kept keys as JSON, without the brackets around them.
fn kept_keys_to_json(entries: &Vec<KeptKey>) -> (json: Vec<u8>)
    ensures
        json@ == kept_keys_json(entries@),
{
    let mut json: Vec<u8> = Vec::new();
    let mut i: usize = 0;
    while i < entries.len()
        invariant
            i <= entries@.len(),
            json@ == kept_keys_json(entries@.take(i as int)),
        decreases entries@.len() - i,
    {
        let ghost done = json@;
        if i > 0 {
            append_text(&mut json, ",");
        }
        put_bytes(&mut json, "[[", &entries[i].0.0);
        put_number(&mut json, ",", entries[i].0.1);
        put_bytes(&mut json, "],", &entries[i].1);
        append_text(&mut json, "]");
        proof {
            let entry = entries@[i as int];
            let next = entries@.take(i + 1);
            assert(next.drop_last() =~= entries@.take(i as int));
            assert(next.last() == entry);
            if i > 0 {
                assert(json@ =~= done + utf8(","@) + kept_key_json(entry));
            } else {
                assert(json@ =~= kept_key_json(entry));
            }
        }
        i = i + 1;
    }
    assert(entries@.take(entries@.len() as int) =~= entries@);
    json
}

/// Whether the cipher cannot finish a text of this length.
pub(crate) fn exhausts_cipher(length: usize) -> (exhausted: bool)
    ensures
        exhausted == cipher_exhausted_by(length as int),
{
    let length: u64 = length as u64;
    64 * 0xffff_fffe < length && length < 64 * 0xffff_ffff
}

/// The place of a message of the chain with public key `dh_pub`.
fn slot(dh_pub: &[u8; 32], n: u32) -> (slot: MessageSlot)
    ensures
        slot@ == (dh_pub@, n as nat),
{
    MessageSlot { dh: copied(dh_pub), n }
}

impl DoubleRatchetSession {
    /// Starts the side that may send first, with a given secret for its first
    /// chain.
    pub fn initialize_active_with(
        fresh: [u8; 32],
        peer_dh_pub: [u8; 32],
        shared_root: [u8; 32],
    ) -> (session: Self)
        ensures
            session@ == RatchetView::active(fresh@, peer_dh_pub@, shared_root@),
            session@.agreed(),
    {
        let dh_out = diffie_hellman(&fresh, &peer_dh_pub);
        let (rk, ck_s) = Self::kdf_rk(&shared_root, &dh_out);
        let session = DoubleRatchetSession {
            dhs: fresh,
            dhp: peer_dh_pub,
            rk,
            ck_s: Some(ck_s),
            ck_r: None,
            ns: 0,
            nr: 0,
            pn: 0,
            skipped: Table::new(),
        };
        assert(session@ =~= RatchetView::active(fresh@, peer_dh_pub@, shared_root@));
        session
    }

    /// Starts the side that may send first. The secret of its first chain is
    /// drawn at random; the ephemeral secret of the handshake has served its
    /// purpose in the shared root.
    pub fn initialize_active(
        _ephemeral_secret: [u8; 32],
        peer_dh_pub: [u8; 32],
        shared_root: [u8; 32],
    ) -> (session: Self)
        ensures
            session@.dhs.len() == 32,
            session@ == RatchetView::active(session@.dhs, peer_dh_pub@, shared_root@),
            session@.agreed(),
    {
        let fresh = random_32();
        Self::initialize_active_with(fresh, peer_dh_pub, shared_root)
    }

    /// Starts the side that waits for the first message.
    pub fn initialize_passive(
        ephemeral_secret: [u8; 32],
        peer_dh_pub: [u8; 32],
        shared_root: [u8; 32],
    ) -> (session: Self)
        ensures
            session@ == RatchetView::passive(ephemeral_secret@, peer_dh_pub@, shared_root@),
            session@.agreed(),
    {
        let session = DoubleRatchetSession {
            dhs: ephemeral_secret,
            dhp: peer_dh_pub,
            rk: shared_root,
            ck_s: None,
            ck_r: None,
            ns: 0,
            nr: 0,
            pn: 0,
            skipped: Table::new(),
        };
        assert(session@ =~= RatchetView::passive(ephemeral_secret@, peer_dh_pub@, shared_root@));
        session
    }

    /// The root step.
    fn kdf_rk(rk: &[u8; 32], dh_out: &[u8; 32]) -> (next: ([u8; 32], [u8; 32]))
        ensures
            (next.0@, next.1@) == kdf_rk(rk@, dh_out@),
    {
        let okm = hkdf(rk, dh_out, "LOOM-DOUBLE-RATCHET-KDF-RK".as_bytes(), 64);
        (array32(&okm, 0), array32(&okm, 32))
    }

    /// The chain step.
    fn kdf_ck(ck: &[u8; 32]) -> (next: ([u8; 32], [u8; 32]))
        ensures
            (next.0@, next.1@) == kdf_ck(ck@),
    {
        let nothing: Vec<u8> = Vec::new();
        let okm = hkdf(ck, &nothing, "LOOM-DOUBLE-RATCHET-KDF-CK".as_bytes(), 64);
        assert(nothing@ =~= Seq::<u8>::empty());
        (array32(&okm, 0), array32(&okm, 32))
    }

    /// Turns the ratchet.
    fn dh_ratchet(&mut self, fresh: [u8; 32], peer_dh_pub: [u8; 32])
        ensures
            final(self)@ == old(self)@.turn(fresh@, peer_dh_pub@),
            final(self)@.agreed(),
    {
        self.pn = self.ns;
        self.ns = 0;
        self.nr = 0;
        self.dhp = peer_dh_pub;

        let dh_out = diffie_hellman(&self.dhs, &self.dhp);
        let (next_rk, ck_r) = Self::kdf_rk(&self.rk, &dh_out);
        self.rk = next_rk;
        self.ck_r = Some(ck_r);

        self.dhs = fresh;
        let dh_out_new = diffie_hellman(&self.dhs, &self.dhp);
        let (next_rk_s, ck_s) = Self::kdf_rk(&self.rk, &dh_out_new);
        self.rk = next_rk_s;
        self.ck_s = Some(ck_s);
        assert(self@ =~= old(self)@.turn(fresh@, peer_dh_pub@));
    }

    /// Moves the receiving chain on to message `until_n` and keeps the keys that
    /// it passes.
    fn skip_message_keys(&mut self, until_n: u32) -> (moved: Result<(), CryptoError>)
        requires
            old(self)@.nr + MAX_SKIP <= u32::MAX,
        ensures
            old(self)@.may_skip(until_n as nat) ==> moved is Ok && final(self)@ == old(self)@.skip(
                until_n as nat,
            ),
            !old(self)@.may_skip(until_n as nat) ==> moved == Err::<(), CryptoError>(
                CryptoError::RatchetOutOfSync,
            ) && final(self)@ == old(self)@,
    {
        if self.nr + MAX_SKIP < until_n {
            return Err(CryptoError::RatchetOutOfSync);
        }
        if let Some(ck) = self.ck_r {
            let mut current_ck = ck;
            let ghost before = self@;
            assert(before.skipped =~= before.skipped.union_prefer_right(
                chain_keys(before.dhp, ck@, before.nr, before.nr),
            ));
            while self.nr < until_n
                invariant
                    before.nr <= self.nr,
                    self.nr <= until_n || self.nr == before.nr,
                    current_ck@ == chain_key(ck@, (self.nr - before.nr) as nat),
                    before.ck_r == Some(ck@),
                    self@ == (RatchetView {
                        nr: self.nr as nat,
                        skipped: before.skipped.union_prefer_right(
                            chain_keys(before.dhp, ck@, before.nr, self.nr as nat),
                        ),
                        ..before
                    }),
                decreases until_n - self.nr,
            {
                let (next_ck, mk) = Self::kdf_ck(&current_ck);
                let ghost passed = self@;
                let place = slot(&self.dhp, self.nr);
                self.skipped.insert(place, mk);
                current_ck = next_ck;
                self.nr = self.nr + 1;
                proof {
                    assert(self@.skipped =~= passed.skipped.insert((before.dhp, passed.nr), mk@));
                    assert(self@.skipped =~= before.skipped.union_prefer_right(
                        chain_keys(before.dhp, ck@, before.nr, self.nr as nat),
                    ));
                }
            }
            self.ck_r = Some(current_ck);
            assert(self@ =~= before.skip(until_n as nat));
        }
        Ok(())
    }

    /// Whether a plaintext of this length can be sent now.
    pub fn can_encrypt(&self, length: usize) -> (ready: bool)
        ensures
            ready == self@.can_send(length as int),
    {
        match self.ck_s {
            Some(_) => self.ns < u32::MAX && !exhausts_cipher(length),
            None => true,
        }
    }

    /// Whether a ciphertext of this length with this header can be received now.
    pub fn can_decrypt(
        &self,
        length: usize,
        peer_dh_pub: &[u8; 32],
        n: u32,
        pn: u32,
    ) -> (ready: bool)
        ensures
            ready == self@.can_receive(length as int, peer_dh_pub@, n as nat, pn as nat),
    {
        let fits: bool = length < 16 || !exhausts_cipher(length - 16);
        if self.keeps_key(peer_dh_pub, n) {
            return fits;
        }
        if self.nr > u32::MAX - MAX_SKIP {
            return false;
        }
        let limit: u32 = self.nr + MAX_SKIP;
        if same_public_key(peer_dh_pub, &self.dhp) {
            if self.ck_r.is_none() || n > limit {
                true
            } else {
                n != u32::MAX && fits
            }
        } else {
            pn > limit || n > MAX_SKIP || fits
        }
    }

    /// Whether the key of a message was kept.
    fn keeps_key(&self, peer_dh_pub: &[u8; 32], n: u32) -> (kept: bool)
        ensures
            kept == self@.keeps(peer_dh_pub@, n as nat),
    {
        self.skipped.get(&slot(peer_dh_pub, n)).is_some()
    }

    /// Encrypts the next message under a given nonce.
    pub fn encrypt_with(
        &mut self,
        nonce: [u8; 12],
        plaintext: &[u8],
        associated_data: &[u8],
    ) -> (sealed: Result<Sealed, CryptoError>)
        requires
            old(self)@.can_send(plaintext@.len() as int),
        ensures
            encrypts(old(self)@, final(self)@, plaintext@, associated_data@, sealed),
            sealed matches Ok((_, used, _, _, _)) ==> used@ == nonce@,
            old(self)@.agreed() ==> final(self)@.agreed(),
    {
        let ck = match self.ck_s {
            Some(ck) => ck,
            None => {
                return Err(CryptoError::RatchetOutOfSync);
            },
        };
        let (next_ck, mk) = Self::kdf_ck(&ck);
        self.ck_s = Some(next_ck);

        let dh_pub = public_of_secret(&self.dhs);
        let n: u32 = self.ns;
        self.ns = self.ns + 1;
        assert(self@ =~= old(self)@.sent());

        let mut full_ad: Vec<u8> = Vec::new();
        append_bytes(&mut full_ad, associated_data);
        append_bytes(&mut full_ad, &dh_pub);
        append_bytes(&mut full_ad, &be_bytes(n));
        append_bytes(&mut full_ad, &be_bytes(self.pn));
        assert(full_ad@ =~= with_header(associated_data@, dh_pub@, n as nat, self.pn as nat));

        match encrypt_symmetric_with(&mk, &nonce, plaintext, &full_ad) {
            Ok(ciphertext) => Ok((ciphertext, nonce, dh_pub, n, self.pn)),
            Err(error) => Err(error),
        }
    }

    /// Encrypts the next message under a nonce drawn at random. Returns the
    /// ciphertext, the nonce, and the header: the public key of the sending
    /// chain, the number of the message in it, and the length of the chain
    /// before.
    pub fn encrypt(
        &mut self,
        plaintext: &[u8],
        associated_data: &[u8],
    ) -> (sealed: Result<Sealed, CryptoError>)
        requires
            old(self)@.can_send(plaintext@.len() as int),
        ensures
            encrypts(old(self)@, final(self)@, plaintext@, associated_data@, sealed),
            old(self)@.agreed() ==> final(self)@.agreed(),
    {
        let nonce = random_12();
        self.encrypt_with(nonce, plaintext, associated_data)
    }

    /// Decrypts a message, with a given secret for the sending chain that a turn
    /// of the ratchet starts.
    pub fn decrypt_with(
        &mut self,
        fresh: [u8; 32],
        ciphertext: &[u8],
        nonce_bytes: &[u8; 12],
        peer_dh_pub: [u8; 32],
        n: u32,
        pn: u32,
        associated_data: &[u8],
    ) -> (opened: Result<Vec<u8>, CryptoError>)
        requires
            old(self)@.can_receive(
                ciphertext@.len() as int,
                peer_dh_pub@,
                n as nat,
                pn as nat,
            ),
        ensures
            decrypts(
                old(self)@,
                final(self)@,
                fresh@,
                ciphertext@,
                nonce_bytes@,
                peer_dh_pub@,
                n as nat,
                pn as nat,
                associated_data@,
                opened,
            ),
            old(self)@.agreed() ==> final(self)@.agreed(),
    {
        if self.keeps_key(&peer_dh_pub, n) {
            return self.decrypt_skipped(ciphertext, nonce_bytes, peer_dh_pub, n, associated_data);
        }
        if !same_public_key(&peer_dh_pub, &self.dhp) {
            match self.skip_message_keys(pn) {
                Ok(()) => {},
                Err(error) => {
                    return Err(error);
                },
            }
            self.dh_ratchet(fresh, peer_dh_pub);
        }
        match self.skip_message_keys(n) {
            Ok(()) => {},
            Err(error) => {
                return Err(error);
            },
        }
        let ghost there = self@;
        let ck = match self.ck_r {
            Some(ck) => ck,
            None => {
                return Err(CryptoError::RatchetOutOfSync);
            },
        };
        let (next_ck, mk) = Self::kdf_ck(&ck);
        self.ck_r = Some(next_ck);
        self.nr = self.nr + 1;
        assert(self@ =~= RatchetView {
            ck_r: Some(kdf_ck(ck@).0),
            nr: there.nr + 1,
            ..there
        });
        decrypt_symmetric(&mk, ciphertext, nonce_bytes, associated_data)
    }

    /// Decrypts a message. Where the ratchet turns, the secret of the new sending
    /// chain is drawn at random.
    pub fn decrypt(
        &mut self,
        ciphertext: &[u8],
        nonce_bytes: &[u8; 12],
        peer_dh_pub: [u8; 32],
        n: u32,
        pn: u32,
        associated_data: &[u8],
    ) -> (opened: Result<Vec<u8>, CryptoError>)
        requires
            old(self)@.can_receive(
                ciphertext@.len() as int,
                peer_dh_pub@,
                n as nat,
                pn as nat,
            ),
        ensures
            exists|fresh: Seq<u8>|
                fresh.len() == 32 && #[trigger] decrypts(
                    old(self)@,
                    final(self)@,
                    fresh,
                    ciphertext@,
                    nonce_bytes@,
                    peer_dh_pub@,
                    n as nat,
                    pn as nat,
                    associated_data@,
                    opened,
                ),
            old(self)@.agreed() ==> final(self)@.agreed(),
    {
        let fresh = random_32();
        let opened = self.decrypt_with(
            fresh,
            ciphertext,
            nonce_bytes,
            peer_dh_pub,
            n,
            pn,
            associated_data,
        );
        assert(fresh@.len() == 32);
        opened
    }

    /// Decrypts a message whose key was kept. The key is spent even if the
    /// message is not authentic.
    pub fn decrypt_skipped(
        &mut self,
        ciphertext: &[u8],
        nonce_bytes: &[u8; 12],
        peer_dh_pub: [u8; 32],
        n: u32,
        associated_data: &[u8],
    ) -> (opened: Result<Vec<u8>, CryptoError>)
        requires
            old(self)@.keeps(peer_dh_pub@, n as nat) ==> !cipher_exhausted_by(
                ciphertext@.len() - 16,
            ),
        ensures
            final(self)@ == (RatchetView {
                skipped: old(self)@.skipped.remove((peer_dh_pub@, n as nat)),
                ..old(self)@
            }),
            if old(self)@.keeps(peer_dh_pub@, n as nat) {
                opens(
                    old(self)@.skipped[(peer_dh_pub@, n as nat)],
                    nonce_bytes@,
                    associated_data@,
                    ciphertext@,
                    opened,
                )
            } else {
                opened == Err::<Vec<u8>, CryptoError>(CryptoError::DecryptionError)
            },
    {
        let taken = self.skipped.remove(&slot(&peer_dh_pub, n));
        assert(self@.skipped =~= old(self)@.skipped.remove((peer_dh_pub@, n as nat)));
        match taken {
            Some(key) => decrypt_symmetric(&key, ciphertext, nonce_bytes, associated_data),
            None => Err(CryptoError::DecryptionError),
        }
    }

    /// The session as it is saved.
    pub fn to_state(&self) -> (state: DoubleRatchetState)
        ensures
            state@ == self@,
            state.lists_once(),
    {
        let entries = self.skipped.entries();
        let mut listed: Vec<KeptKey> = Vec::new();
        let mut i: usize = 0;
        assert(key_bytes(map_of(entries@.take(0))) =~= kept_keys(listed@));
        while i < entries.len()
            invariant
                i <= entries@.len(),
                listed@.len() == i,
                forall|j: int|
                    0 <= j < i ==> place_of(#[trigger] listed@[j]) == entries@[j].0@,
                kept_keys(listed@) == key_bytes(map_of(entries@.take(i as int))),
            decreases entries@.len() - i,
        {
            let ghost before = listed@;
            let dh = copied(&entries[i].0.dh);
            listed.push(((dh, entries[i].0.n), entries[i].1));
            proof {
                let next = entries@.take(i + 1);
                assert(next.drop_last() =~= entries@.take(i as int));
                assert(listed@.drop_last() =~= before);
                assert(key_bytes(map_of(next)) =~= key_bytes(map_of(next.drop_last())).insert(
                    next.last().0@,
                    next.last().1@,
                ));
            }
            i = i + 1;
        }
        assert(entries@.take(entries@.len() as int) =~= entries@);
        let state = DoubleRatchetState {
            dhs_bytes: self.dhs,
            dhp_bytes: self.dhp,
            rk: self.rk,
            ck_s: self.ck_s,
            ck_r: self.ck_r,
            ns: self.ns,
            nr: self.nr,
            pn: self.pn,
            skipped_message_keys: listed,
        };
        assert(state@ =~= self@);
        state
    }

    /// The session that was saved.
    pub fn from_state(state: DoubleRatchetState) -> (session: Self)
        ensures
            session@ == state@,
    {
        let mut skipped: Table<MessageSlot, [u8; 32]> = Table::new();
        let entries = &state.skipped_message_keys;
        let mut i: usize = 0;
        assert(key_bytes(skipped@) =~= kept_keys(entries@.take(0)));
        while i < entries.len()
            invariant
                i <= entries@.len(),
                key_bytes(skipped@) == kept_keys(entries@.take(i as int)),
            decreases entries@.len() - i,
        {
            let ghost before = skipped@;
            let place = MessageSlot { dh: copied(&entries[i].0.0), n: entries[i].0.1 };
            skipped.insert(place, entries[i].1);
            proof {
                let next = entries@.take(i + 1);
                assert(next.drop_last() =~= entries@.take(i as int));
                assert(key_bytes(skipped@) =~= key_bytes(before).insert(
                    place_of(next.last()),
                    next.last().1@,
                ));
            }
            i = i + 1;
        }
        assert(entries@.take(entries@.len() as int) =~= entries@);
        let session = DoubleRatchetSession {
            dhs: state.dhs_bytes,
            dhp: state.dhp_bytes,
            rk: state.rk,
            ck_s: state.ck_s,
            ck_r: state.ck_r,
            ns: state.ns,
            nr: state.nr,
            pn: state.pn,
            skipped,
        };
        assert(session@ =~= state@);
        session
    }

    /// The session as JSON, for saving. It never fails.
    pub fn to_bytes(&self) -> (saved: Result<Vec<u8>, CryptoError>)
        ensures
            saved is Ok,
            exists|state: DoubleRatchetState|
                state@ == self@ && state.lists_once() && saved->Ok_0@ == #[trigger] state.json(),
    {
        let state = self.to_state();
        Ok(state.to_json())
    }
}

} // verus!
