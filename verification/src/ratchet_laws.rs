//! What a session owes its owner, said of what goes into an operation and what
//! comes out of it: the bytes that are sealed, the key that a message is read
//! under, and what is left of the session afterwards.

use vstd::prelude::*;

use crate::bytes::utf8;
use crate::crypto::{opens, seals, CryptoError};
use crate::primitives::{
    chacha_opened, chacha_sealed, hkdf_sha256, is_same_key, x25519_public, x25519_shared,
};
use crate::ratchet::{
    chain_key, chain_keys, decrypts, encrypts, kdf_ck, kept_keys, place_of, with_header,
    DoubleRatchetState, KeptKey, RatchetView, Sealed,
};

verus! {

/// The 64 bytes that one step along a chain of message keys derives: the next
/// chain key, then the key of the message.
pub open spec fn chain_step(ck: Seq<u8>) -> Seq<u8> {
    hkdf_sha256(ck, Seq::empty(), utf8("LOOM-DOUBLE-RATCHET-KDF-CK"@), 64)
}

/// The 64 bytes that a key exchange derives: the next root key, then the first
/// key of a chain.
pub open spec fn root_step(rk: Seq<u8>, exchanged: Seq<u8>) -> Seq<u8> {
    hkdf_sha256(rk, exchanged, utf8("LOOM-DOUBLE-RATCHET-KDF-RK"@), 64)
}

/// A 32-bit number as four bytes, the most significant one first.
pub open spec fn four_bytes(n: int) -> Seq<u8> {
    seq![
        (n / 0x1000000 % 256) as u8,
        (n / 0x10000 % 256) as u8,
        (n / 0x100 % 256) as u8,
        (n % 256) as u8,
    ]
}

/// What a ciphertext gives under a key: the text that it opens to, or the error of
/// one that is not authentic.
pub open spec fn gives(
    key: Seq<u8>,
    nonce: Seq<u8>,
    associated_data: Seq<u8>,
    ciphertext: Seq<u8>,
    opened: Result<Vec<u8>, CryptoError>,
) -> bool {
    match chacha_opened(key, nonce, associated_data, ciphertext) {
        Some(plaintext) => opened matches Ok(bytes) && bytes@ == plaintext,
        None => opened == Err::<Vec<u8>, CryptoError>(CryptoError::DecryptionError),
    }
}

/// The session after its receiving chain has passed one message: the chain is one
/// step on, and the key of the message is kept.
pub open spec fn one_passed(session: RatchetView) -> RatchetView {
    RatchetView {
        ck_r: Some(chain_step(session.ck_r->0).subrange(0, 32)),
        nr: session.nr + 1,
        skipped: session.skipped.insert(
            (session.dhp, session.nr),
            chain_step(session.ck_r->0).subrange(32, 64),
        ),
        ..session
    }
}

/// The session after a new public key of the peer has come in: a receiving chain
/// from the exchange with the old secret, a sending chain from the exchange with
/// the fresh one, the length of the old sending chain, and every key that was
/// kept.
pub open spec fn turned_to(session: RatchetView, fresh: Seq<u8>, dh: Seq<u8>) -> RatchetView {
    let incoming = root_step(session.rk, x25519_shared(session.dhs, dh));
    let outgoing = root_step(incoming.subrange(0, 32), x25519_shared(fresh, dh));
    RatchetView {
        dhs: fresh,
        dhp: dh,
        rk: outgoing.subrange(0, 32),
        ck_s: Some(outgoing.subrange(32, 64)),
        ck_r: Some(incoming.subrange(32, 64)),
        ns: 0,
        nr: 0,
        pn: session.ns,
        skipped: session.skipped,
    }
}

/// The four bytes of a number tell it.
pub proof fn law_four_bytes_tell_the_number(n: int)
    requires
        0 <= n < 0x1_0000_0000,
    ensures
        crate::bytes::be32(n as nat) == four_bytes(n),
        ({
            let bytes = crate::bytes::be32(n as nat);
            &&& bytes.len() == 4
            &&& bytes[0] as int * 0x1000000 + bytes[1] as int * 0x10000 + bytes[2] as int * 0x100
                + bytes[3] as int == n
        }),
{
    assert(crate::bytes::be32(n as nat) =~= four_bytes(n));
    let a = n / 0x1000000;
    let b = n / 0x10000 % 256;
    let c = n / 0x100 % 256;
    assert(a % 256 == a);
    assert(n / 0x10000 == 256 * a + b);
    assert(n / 0x100 == 256 * (n / 0x10000) + c);
    assert(n == 256 * (n / 0x100) + n % 256);
}

/// What a message is bound to is what the caller gave, then the whole public key,
/// then the two numbers, each in four bytes.
pub proof fn law_header_is_bound_whole(associated_data: Seq<u8>, dh: Seq<u8>, n: nat, pn: nat)
    ensures
        with_header(associated_data, dh, n, pn) == associated_data + dh + four_bytes(n as int)
            + four_bytes(pn as int),
{
    assert(crate::bytes::be32(n) =~= four_bytes(n as int));
    assert(crate::bytes::be32(pn) =~= four_bytes(pn as int));
}

/// A new session has nothing behind it. The active side can send at once, on a
/// chain from the exchange of its fresh secret with the peer's key; the passive
/// side has the shared root and no chain.
pub proof fn law_sessions_start_fresh(secret: Seq<u8>, peer: Seq<u8>, shared_root: Seq<u8>)
    ensures
        ({
            let derived = root_step(shared_root, x25519_shared(secret, peer));
            RatchetView::active(secret, peer, shared_root) == (RatchetView {
                dhs: secret,
                dhp: peer,
                rk: derived.subrange(0, 32),
                ck_s: Some(derived.subrange(32, 64)),
                ck_r: None,
                ns: 0,
                nr: 0,
                pn: 0,
                skipped: Map::empty(),
            })
        }),
        RatchetView::passive(secret, peer, shared_root) == (RatchetView {
            dhs: secret,
            dhp: peer,
            rk: shared_root,
            ck_s: None,
            ck_r: None,
            ns: 0,
            nr: 0,
            pn: 0,
            skipped: Map::empty(),
        }),
{
}

/// Sealing succeeds on every text that one nonce can encrypt, and gives what the
/// cipher makes of it; opening gives the text that a ciphertext is the sealing of,
/// and an error for any other.
pub proof fn law_what_was_sealed_is_opened(
    key: Seq<u8>,
    nonce: Seq<u8>,
    associated_data: Seq<u8>,
    plaintext: Seq<u8>,
    sealed: Result<Vec<u8>, CryptoError>,
    ciphertext: Seq<u8>,
    opened: Result<Vec<u8>, CryptoError>,
)
    ensures
        seals(key, nonce, associated_data, plaintext, sealed) ==> if plaintext.len() / 64
            < 0xffff_ffff {
            &&& sealed matches Ok(bytes)
            &&& bytes@ == chacha_sealed(key, nonce, associated_data, plaintext)
            &&& bytes@.len() == plaintext.len() + 16
        } else {
            sealed == Err::<Vec<u8>, CryptoError>(CryptoError::EncryptionError)
        },
        opens(key, nonce, associated_data, ciphertext, opened) ==> gives(
            key,
            nonce,
            associated_data,
            ciphertext,
            opened,
        ),
        opens(key, nonce, associated_data, ciphertext, opened) && ciphertext.len() < 16 ==> opened
            == Err::<Vec<u8>, CryptoError>(CryptoError::DecryptionError),
        seals(key, nonce, associated_data, plaintext, sealed) && sealed is Ok && ciphertext
            == sealed->Ok_0@ && opens(key, nonce, associated_data, ciphertext, opened) ==> (
        opened matches Ok(bytes) && bytes@ == plaintext),
{
}

/// A session with a sending chain seals every text that one nonce can encrypt,
/// whatever its counters are: under the next key of the chain, bound to the
/// caller's data and the header, with the session's public key and the number of
/// the message in the header. Sending moves the chain and the counter alone.
pub proof fn law_sending_seals_under_the_next_key(
    before: RatchetView,
    after: RatchetView,
    plaintext: Seq<u8>,
    associated_data: Seq<u8>,
    sealed: Result<Sealed, CryptoError>,
)
    requires
        encrypts(before, after, plaintext, associated_data, sealed),
        before.ck_s is Some,
    ensures
        plaintext.len() / 64 < 0xffff_ffff ==> sealed is Ok,
        plaintext.len() / 64 >= 0xffff_ffff ==> sealed == Err::<Sealed, CryptoError>(
            CryptoError::EncryptionError,
        ),
        sealed matches Ok((ciphertext, nonce, dh, n, pn)) ==> {
            let key = chain_step(before.ck_s->0).subrange(32, 64);
            let bound = associated_data + dh@ + four_bytes(n as int) + four_bytes(pn as int);
            &&& dh@ == x25519_public(before.dhs)
            &&& n == before.ns
            &&& pn == before.pn
            &&& ciphertext@ == chacha_sealed(key, nonce@, bound, plaintext)
            &&& ciphertext@.len() == plaintext.len() + 16
            &&& chacha_opened(key, nonce@, bound, ciphertext@) == Some(plaintext)
        },
        after == (RatchetView {
            ck_s: Some(chain_step(before.ck_s->0).subrange(0, 32)),
            ns: before.ns + 1,
            ..before
        }),
{
    if let Ok((_, _, dh, n, pn)) = sealed {
        law_header_is_bound_whole(associated_data, dh@, n as nat, pn as nat);
    }
}

/// A session without a sending chain refuses to send and stays as it is.
pub proof fn law_no_chain_no_sending(
    before: RatchetView,
    after: RatchetView,
    plaintext: Seq<u8>,
    associated_data: Seq<u8>,
    sealed: Result<Sealed, CryptoError>,
)
    requires
        encrypts(before, after, plaintext, associated_data, sealed),
        before.ck_s is None,
    ensures
        after == before,
        sealed == Err::<Sealed, CryptoError>(CryptoError::RatchetOutOfSync),
{
}

/// A message whose key was kept is read under that key, whatever has happened to
/// the session since, and takes nothing but that key away.
pub proof fn law_kept_key_reads_its_message(
    before: RatchetView,
    after: RatchetView,
    fresh: Seq<u8>,
    ciphertext: Seq<u8>,
    nonce: Seq<u8>,
    dh: Seq<u8>,
    n: nat,
    pn: nat,
    associated_data: Seq<u8>,
    opened: Result<Vec<u8>, CryptoError>,
)
    requires
        decrypts(
            before,
            after,
            fresh,
            ciphertext,
            nonce,
            dh,
            n,
            pn,
            associated_data,
            opened,
        ),
        before.skipped.contains_key((dh, n)),
    ensures
        gives(before.skipped[(dh, n)], nonce, associated_data, ciphertext, opened),
        after == (RatchetView { skipped: before.skipped.remove((dh, n)), ..before }),
{
}

/// A message of the chain that the session receives on, with no gap before it, is
/// read under the next key of the chain, however many came before. The session is
/// one step further, and nothing else of it changes.
pub proof fn law_next_message_is_read(
    before: RatchetView,
    after: RatchetView,
    fresh: Seq<u8>,
    ciphertext: Seq<u8>,
    nonce: Seq<u8>,
    dh: Seq<u8>,
    n: nat,
    pn: nat,
    associated_data: Seq<u8>,
    opened: Result<Vec<u8>, CryptoError>,
)
    requires
        decrypts(
            before,
            after,
            fresh,
            ciphertext,
            nonce,
            dh,
            n,
            pn,
            associated_data,
            opened,
        ),
        !before.skipped.contains_key((dh, n)),
        is_same_key(dh, before.dhp),
        before.ck_r is Some,
        n <= before.nr,
    ensures
        gives(
            chain_step(before.ck_r->0).subrange(32, 64),
            nonce,
            associated_data,
            ciphertext,
            opened,
        ),
        after == (RatchetView {
            ck_r: Some(chain_step(before.ck_r->0).subrange(0, 32)),
            nr: before.nr + 1,
            ..before
        }),
{
}

/// The chain key one step on, and what follows from it.
proof fn lemma_chain_goes_on(ck: Seq<u8>, steps: nat)
    ensures
        chain_key(ck, steps + 1) == chain_key(kdf_ck(ck).0, steps),
    decreases steps,
{
    if steps > 0 {
        lemma_chain_goes_on(ck, (steps - 1) as nat);
    } else {
        assert(chain_key(ck, 0) == ck);
        assert(chain_key(ck, 1) == kdf_ck(chain_key(ck, 0)).0);
        assert(chain_key(kdf_ck(ck).0, 0) == kdf_ck(ck).0);
    }
}

/// Moving on to a message further along passes one message first.
proof fn lemma_skip_one_first(session: RatchetView, until: nat)
    requires
        session.ck_r is Some,
        session.nr < until,
    ensures
        session.skip(until) == one_passed(session).skip(until),
{
    let ck = session.ck_r->0;
    let next = kdf_ck(ck).0;
    let passed = one_passed(session);
    let left = session.skip(until);
    let right = passed.skip(until);
    lemma_chain_goes_on(ck, (until - session.nr - 1) as nat);
    assert(passed.ck_r == Some(next));
    assert(chain_key(next, 0) == next);
    assert(chain_key(ck, 0) == ck);
    assert forall|slot: (Seq<u8>, nat)|
        left.skipped.contains_key(slot) == right.skipped.contains_key(slot) && (
        left.skipped.contains_key(slot) ==> left.skipped[slot] == right.skipped[slot]) by {
        if slot.0 == session.dhp && session.nr < slot.1 && slot.1 < until {
            lemma_chain_goes_on(ck, (slot.1 - session.nr - 1) as nat);
            assert(chain_keys(session.dhp, ck, session.nr, until).contains_key(slot));
            assert(chain_keys(session.dhp, next, session.nr + 1, until).contains_key(slot));
        }
    }
    assert(left.skipped =~= right.skipped);
}

/// A gap of up to a hundred messages is passed one message at a time, each leaving
/// its key behind: the session reads on as if it stood behind the first message of
/// the gap with that message's key kept. The gap is before the message itself, or,
/// where the message starts a new chain, at the end of the old one.
pub proof fn law_gap_is_passed_message_by_message(
    before: RatchetView,
    after: RatchetView,
    fresh: Seq<u8>,
    ciphertext: Seq<u8>,
    nonce: Seq<u8>,
    dh: Seq<u8>,
    n: nat,
    pn: nat,
    associated_data: Seq<u8>,
    opened: Result<Vec<u8>, CryptoError>,
)
    requires
        !before.skipped.contains_key((dh, n)),
        before.ck_r is Some,
        before.nr < (if is_same_key(dh, before.dhp) {
            n
        } else {
            pn
        }) <= before.nr + 100,
    ensures
        decrypts(before, after, fresh, ciphertext, nonce, dh, n, pn, associated_data, opened)
            == decrypts(
            one_passed(before),
            after,
            fresh,
            ciphertext,
            nonce,
            dh,
            n,
            pn,
            associated_data,
            opened,
        ),
{
    let passed = one_passed(before);
    assert(!passed.keeps(dh, n));
    if is_same_key(dh, before.dhp) {
        lemma_skip_one_first(before, n);
    } else {
        lemma_skip_one_first(before, pn);
    }
    assert(before.receive(fresh, dh, n, pn) == passed.receive(fresh, dh, n, pn));
}

/// A message under a new public key, with no gap at the end of the old chain, turns
/// the session: it is read as the message of its number on the new chain, and
/// every kept key is still there.
pub proof fn law_new_key_turns_the_session(
    before: RatchetView,
    after: RatchetView,
    fresh: Seq<u8>,
    ciphertext: Seq<u8>,
    nonce: Seq<u8>,
    dh: Seq<u8>,
    n: nat,
    pn: nat,
    associated_data: Seq<u8>,
    opened: Result<Vec<u8>, CryptoError>,
)
    requires
        !before.skipped.contains_key((dh, n)),
        !is_same_key(dh, before.dhp),
        pn <= before.nr || before.ck_r is None && pn <= before.nr + 100,
    ensures
        decrypts(before, after, fresh, ciphertext, nonce, dh, n, pn, associated_data, opened)
            == decrypts(
            turned_to(before, fresh, dh),
            after,
            fresh,
            ciphertext,
            nonce,
            dh,
            n,
            pn,
            associated_data,
            opened,
        ),
{
    let turned = turned_to(before, fresh, dh);
    assert(before.skip(pn) == before);
    assert(before.turn(fresh, dh) == turned);
    assert(turned.knows(dh));
    assert(!turned.keeps(dh, n));
}

/// A gap of more than a hundred messages is refused, and nothing of the session
/// changes.
pub proof fn law_wide_gap_is_refused(
    before: RatchetView,
    after: RatchetView,
    fresh: Seq<u8>,
    ciphertext: Seq<u8>,
    nonce: Seq<u8>,
    dh: Seq<u8>,
    n: nat,
    pn: nat,
    associated_data: Seq<u8>,
    opened: Result<Vec<u8>, CryptoError>,
)
    requires
        decrypts(
            before,
            after,
            fresh,
            ciphertext,
            nonce,
            dh,
            n,
            pn,
            associated_data,
            opened,
        ),
        !before.skipped.contains_key((dh, n)),
        (if is_same_key(dh, before.dhp) {
            n
        } else {
            pn
        }) > before.nr + 100,
    ensures
        after == before,
        opened == Err::<Vec<u8>, CryptoError>(CryptoError::RatchetOutOfSync),
{
}

/// A session that has received nothing does not read a message under the key that
/// it knows already, and stays as it is.
pub proof fn law_nothing_to_read_with(
    before: RatchetView,
    after: RatchetView,
    fresh: Seq<u8>,
    ciphertext: Seq<u8>,
    nonce: Seq<u8>,
    dh: Seq<u8>,
    n: nat,
    pn: nat,
    associated_data: Seq<u8>,
    opened: Result<Vec<u8>, CryptoError>,
)
    requires
        decrypts(
            before,
            after,
            fresh,
            ciphertext,
            nonce,
            dh,
            n,
            pn,
            associated_data,
            opened,
        ),
        !before.skipped.contains_key((dh, n)),
        is_same_key(dh, before.dhp),
        before.ck_r is None,
    ensures
        after == before,
        opened == Err::<Vec<u8>, CryptoError>(CryptoError::RatchetOutOfSync),
{
}

/// Receiving a message loses no kept key but its own, of whatever chain the key is.
/// The key itself stays what it was, except where the session derives the key of
/// that very place anew: on the chain that it receives on, from its next message
/// on, and on a chain that the message makes it turn to.
pub proof fn law_receiving_loses_no_other_key(
    before: RatchetView,
    after: RatchetView,
    fresh: Seq<u8>,
    ciphertext: Seq<u8>,
    nonce: Seq<u8>,
    dh: Seq<u8>,
    n: nat,
    pn: nat,
    associated_data: Seq<u8>,
    opened: Result<Vec<u8>, CryptoError>,
    place: (Seq<u8>, nat),
)
    requires
        decrypts(
            before,
            after,
            fresh,
            ciphertext,
            nonce,
            dh,
            n,
            pn,
            associated_data,
            opened,
        ),
        before.skipped.contains_key(place),
        place != (dh, n),
    ensures
        after.skipped.contains_key(place),
        (place.0 != before.dhp || place.1 < before.nr) && (place.0 != dh || is_same_key(
            dh,
            before.dhp,
        ) || before.skipped.contains_key((dh, n))) ==> after.skipped[place]
            == before.skipped[place],
{
}

/// Receiving keeps no key but those of the messages that it passes.
pub proof fn law_receiving_keeps_passed_messages_only(
    before: RatchetView,
    after: RatchetView,
    fresh: Seq<u8>,
    ciphertext: Seq<u8>,
    nonce: Seq<u8>,
    dh: Seq<u8>,
    n: nat,
    pn: nat,
    associated_data: Seq<u8>,
    opened: Result<Vec<u8>, CryptoError>,
    place: (Seq<u8>, nat),
)
    requires
        decrypts(
            before,
            after,
            fresh,
            ciphertext,
            nonce,
            dh,
            n,
            pn,
            associated_data,
            opened,
        ),
        after.skipped.contains_key(place),
        !before.skipped.contains_key(place),
    ensures
        (place.0 == before.dhp && before.nr <= place.1 < before.nr + 100) || (place.0 == dh
            && place.1 < n),
{
}

/// What may happen to a session between two moments: a message is sent, or one is
/// received that is not the message at `place`, on a chain other than that
/// message's.
pub open spec fn happens_meanwhile(
    before: RatchetView,
    after: RatchetView,
    place: (Seq<u8>, nat),
) -> bool {
    ||| exists|plaintext: Seq<u8>, data: Seq<u8>, sealed: Result<Sealed, CryptoError>|
        encrypts(before, after, plaintext, data, sealed)
    ||| exists|
        fresh: Seq<u8>,
        ciphertext: Seq<u8>,
        nonce: Seq<u8>,
        dh: Seq<u8>,
        n: nat,
        pn: nat,
        data: Seq<u8>,
        opened: Result<Vec<u8>, CryptoError>,
    |
        (dh != place.0 || before.skipped.contains_key((dh, n)) && n != place.1) && (
        before.dhp != place.0 || place.1 < before.nr) && #[trigger] decrypts(
            before,
            after,
            fresh,
            ciphertext,
            nonce,
            dh,
            n,
            pn,
            data,
            opened,
        )
}

/// A kept key waits for its message through any number of sent and received
/// messages and any number of turns of the conversation.
pub proof fn law_kept_key_waits(states: Seq<RatchetView>, place: (Seq<u8>, nat))
    requires
        states.len() > 0,
        states[0].skipped.contains_key(place),
        forall|i: int|
            0 <= i < states.len() - 1 ==> happens_meanwhile(
                #[trigger] states[i],
                states[i + 1],
                place,
            ),
    ensures
        states.last().skipped.contains_key(place),
        states.last().skipped[place] == states[0].skipped[place],
    decreases states.len(),
{
    if states.len() > 1 {
        let rest = states.drop_last();
        assert forall|i: int| 0 <= i < rest.len() - 1 implies happens_meanwhile(
            #[trigger] rest[i],
            rest[i + 1],
            place,
        ) by {
            assert(happens_meanwhile(states[i], states[i + 1], place));
        }
        law_kept_key_waits(rest, place);
        let before = states[states.len() - 2];
        assert(happens_meanwhile(before, states[states.len() - 1], place));
        assert(rest.last() == before);
    }
}

/// Every session with a sending chain can send until its counter is used up, and
/// every text that the cipher can finish; one without a chain can always be asked.
pub proof fn law_ordinary_text_can_be_sent(session: RatchetView, length: int)
    requires
        session.ns < 0xffff_ffff,
        !(64 * 0xffff_fffe < length < 64 * 0xffff_ffff),
    ensures
        session.can_send(length),
{
}

/// Every message whose number is below the last one can be taken in by every
/// session that has received fewer than 2^32 - 100, whatever the header says, if
/// the cipher can finish it; one whose key was kept, by every session.
pub proof fn law_ordinary_message_can_be_received(
    session: RatchetView,
    length: int,
    dh: Seq<u8>,
    n: nat,
    pn: nat,
)
    requires
        session.skipped.contains_key((dh, n)) || session.nr + 100 <= 0xffff_ffff && n
            < 0xffff_ffff,
        !(64 * 0xffff_fffe < length - 16 < 64 * 0xffff_ffff),
    ensures
        session.can_receive(length, dh, n, pn),
{
}

/// What is kept under a place in a saved list is the key of the last entry for it.
proof fn lemma_kept(entries: Seq<KeptKey>, i: int)
    requires
        0 <= i < entries.len(),
        forall|j: int| i < j < entries.len() ==> place_of(#[trigger] entries[j]) != place_of(
            entries[i],
        ),
    ensures
        kept_keys(entries).contains_key(place_of(entries[i])),
        kept_keys(entries)[place_of(entries[i])] == entries[i].1@,
    decreases entries.len(),
{
    if i < entries.len() - 1 {
        let rest = entries.drop_last();
        assert(entries.last() == entries[entries.len() - 1]);
        assert(rest[i] == entries[i]);
        assert forall|j: int| i < j < rest.len() implies place_of(#[trigger] rest[j]) != place_of(
            rest[i],
        ) by {
            assert(rest[j] == entries[j]);
        }
        lemma_kept(rest, i);
    }
}

/// Every place that a saved list has a key for is that of an entry.
proof fn lemma_kept_of_entry(entries: Seq<KeptKey>, place: (Seq<u8>, nat))
    requires
        kept_keys(entries).contains_key(place),
    ensures
        exists|i: int| 0 <= i < entries.len() && place_of(#[trigger] entries[i]) == place,
    decreases entries.len(),
{
    let rest = entries.drop_last();
    if place_of(entries.last()) == place {
        assert(place_of(entries[entries.len() - 1]) == place);
    } else {
        lemma_kept_of_entry(rest, place);
        let i = choose|i: int| 0 <= i < rest.len() && place_of(#[trigger] rest[i]) == place;
        assert(place_of(entries[i]) == place);
    }
}

/// A saved session tells the whole session: both keys, the root, both chains, the
/// three counters, and every kept key under the public key and number of its
/// message.
pub proof fn law_saved_session_tells_everything(
    state: DoubleRatchetState,
    i: int,
    place: (Seq<u8>, nat),
)
    ensures
        state@.dhs == state.dhs_bytes@,
        state@.dhp == state.dhp_bytes@,
        state@.rk == state.rk@,
        state@.ck_s is Some <==> state.ck_s is Some,
        state.ck_s matches Some(key) ==> state@.ck_s == Some(key@),
        state@.ck_r is Some <==> state.ck_r is Some,
        state.ck_r matches Some(key) ==> state@.ck_r == Some(key@),
        state@.ns == state.ns,
        state@.nr == state.nr,
        state@.pn == state.pn,
        ({
            let entries = state.skipped_message_keys@;
            0 <= i < entries.len() && (forall|j: int|
                i < j < entries.len() ==> (#[trigger] entries[j]).0.0@ != entries[i].0.0@
                    || entries[j].0.1 != entries[i].0.1) ==> {
                let kept = (entries[i].0.0@, entries[i].0.1 as nat);
                state@.skipped.contains_key(kept) && state@.skipped[kept] == entries[i].1@
            }
        }),
        state@.skipped.contains_key(place) ==> exists|k: int|
            0 <= k < state.skipped_message_keys@.len() && (
            #[trigger] state.skipped_message_keys@[k]).0.0@ == place.0
                && state.skipped_message_keys@[k].0.1 == place.1,
{
    let entries = state.skipped_message_keys@;
    if 0 <= i < entries.len() && (forall|j: int|
        i < j < entries.len() ==> (#[trigger] entries[j]).0.0@ != entries[i].0.0@
            || entries[j].0.1 != entries[i].0.1) {
        lemma_kept(entries, i);
    }
    if state@.skipped.contains_key(place) {
        lemma_kept_of_entry(entries, place);
        let k = choose|k: int| 0 <= k < entries.len() && place_of(#[trigger] entries[k]) == place;
        assert(state.skipped_message_keys@[k].0.0@ == place.0);
    }
}

} // verus!
