//! What two double-ratchet sessions owe each other.
//!
//! A message is read by the session at the other end whether it comes in order,
//! ahead of others or late, in the same direction or at a turn of the
//! conversation. The laws speak of a chain by its public key and its first chain
//! key: message number `n` of the chain is encrypted under
//! `message_key(first, n)`.

use vstd::prelude::*;

use crate::crypto::CryptoError;
use crate::primitives::{is_same_key, le_value, x25519_public, x25519_shared};
use crate::ratchet::{
    chain_key, chain_keys, decrypts, encrypts, kdf_ck, kdf_rk, message_key, with_header,
    RatchetView, Sealed, MAX_SKIP,
};

verus! {

/// The session sends on the chain: its public key is `dh`, and its chain key is
/// the one for message number `ns`.
pub open spec fn sends_on(sender: RatchetView, dh: Seq<u8>, first: Seq<u8>) -> bool {
    &&& x25519_public(sender.dhs) == dh
    &&& sender.ck_s == Some(chain_key(first, sender.ns))
}

/// The session receives on the chain: its chain key is the one for message
/// number `nr`, and every key of the chain that it keeps is that of an earlier
/// message.
pub open spec fn follows(receiver: RatchetView, dh: Seq<u8>, first: Seq<u8>) -> bool {
    &&& receiver.dhp == dh
    &&& receiver.ck_r == Some(chain_key(first, receiver.nr))
    &&& keeps_rightly(receiver, dh, first, receiver.nr)
}

/// Every key of the chain that the session keeps is the key of that message, and
/// the message is one of the first `until`.
pub open spec fn keeps_rightly(
    receiver: RatchetView,
    dh: Seq<u8>,
    first: Seq<u8>,
    until: nat,
) -> bool {
    forall|n: nat| #[trigger]
        receiver.keeps(dh, n) ==> n < until && receiver.skipped[(dh, n)] == message_key(first, n)
}

/// The receiver has seen nothing of the sender's chain yet, and the first message
/// of it turns the receiver's ratchet to that chain.
pub open spec fn awaits(
    receiver: RatchetView,
    sender: RatchetView,
    dh: Seq<u8>,
    first: Seq<u8>,
) -> bool {
    &&& sends_on(sender, dh, first)
    &&& sender.dhp == x25519_public(receiver.dhs)
    &&& !receiver.knows(dh)
    &&& forall|n: nat| !#[trigger] receiver.keeps(dh, n)
    &&& kdf_rk(receiver.rk, x25519_shared(receiver.dhs, dh)) == (sender.rk, first)
}

/// The chain key of a session that follows a chain, `steps` further on.
proof fn lemma_chain_key_adds(first: Seq<u8>, done: nat, steps: nat)
    ensures
        chain_key(chain_key(first, done), steps) == chain_key(first, done + steps),
    decreases steps,
{
    if steps > 0 {
        lemma_chain_key_adds(first, done, (steps - 1) as nat);
    }
}

/// A session refuses a message exactly where no key is within reach.
pub proof fn law_key_within_reach(
    receiver: RatchetView,
    fresh: Seq<u8>,
    dh: Seq<u8>,
    n: nat,
    pn: nat,
)
    ensures
        receiver.receive(fresh, dh, n, pn).1 is Some <==> receiver.finds_key(dh, n, pn),
{
}

/// A message that would skip too many others changes nothing.
pub proof fn law_refused_skip_changes_nothing(
    receiver: RatchetView,
    fresh: Seq<u8>,
    dh: Seq<u8>,
    n: nat,
    pn: nat,
)
    requires
        !receiver.keeps(dh, n),
        if receiver.knows(dh) {
            n > receiver.nr + MAX_SKIP
        } else {
            pn > receiver.nr + MAX_SKIP
        },
    ensures
        receiver.receive(fresh, dh, n, pn) == (receiver, None::<Seq<u8>>),
{
}

/// One move of the receiving chain keeps no more than the allowed number of
/// keys, all of them of the chain that it moves along, and drops none.
pub proof fn law_skip_is_bounded(receiver: RatchetView, until: nat)
    requires
        receiver.may_skip(until),
    ensures
        forall|dh: Seq<u8>, n: nat| #[trigger]
            receiver.skip(until).keeps(dh, n) ==> receiver.keeps(dh, n) || (dh == receiver.dhp
                && receiver.nr <= n < until <= receiver.nr + MAX_SKIP),
        forall|dh: Seq<u8>, n: nat| #[trigger]
            receiver.keeps(dh, n) ==> receiver.skip(until).keeps(dh, n),
{
    assert forall|dh: Seq<u8>, n: nat| #[trigger] receiver.keeps(dh, n) implies receiver.skip(
        until,
    ).keeps(dh, n) by {}
}

/// The side that waits for the first message cannot send one.
pub proof fn law_passive_side_cannot_send_first(
    ephemeral: Seq<u8>,
    peer_dh_pub: Seq<u8>,
    shared_root: Seq<u8>,
    after: RatchetView,
    plaintext: Seq<u8>,
    associated_data: Seq<u8>,
    sealed: Result<Sealed, CryptoError>,
)
    requires
        encrypts(
            RatchetView::passive(ephemeral, peer_dh_pub, shared_root),
            after,
            plaintext,
            associated_data,
            sealed,
        ),
    ensures
        sealed == Err::<Sealed, CryptoError>(CryptoError::RatchetOutOfSync),
        after == RatchetView::passive(ephemeral, peer_dh_pub, shared_root),
{
}

/// Two sessions that start from one root key, each from the other's public key,
/// fit together: the passive side awaits the chain that the active side sends
/// on. The active side's first secret is new, so that its public key is not the
/// one that the passive side knows already.
pub proof fn law_sessions_start_linked(
    fresh: Seq<u8>,
    ephemeral: Seq<u8>,
    known: Seq<u8>,
    shared_root: Seq<u8>,
)
    requires
        ephemeral.len() == 32,
        RatchetView::active(fresh, x25519_public(ephemeral), shared_root).agreed(),
        !is_same_key(x25519_public(fresh), known),
    ensures
        awaits(
            RatchetView::passive(ephemeral, known, shared_root),
            RatchetView::active(fresh, x25519_public(ephemeral), shared_root),
            x25519_public(fresh),
            kdf_rk(shared_root, x25519_shared(fresh, x25519_public(ephemeral))).1,
        ),
{
    let active = RatchetView::active(fresh, x25519_public(ephemeral), shared_root);
    let passive = RatchetView::passive(ephemeral, known, shared_root);
    assert(active.dhp == x25519_public(ephemeral));
    assert forall|n: nat| !#[trigger] passive.keeps(x25519_public(fresh), n) by {}
}

/// Sending stays on the chain: message number `ns` is encrypted under the key of
/// that number, and the next message is the next one.
pub proof fn law_sending_moves_along_the_chain(sender: RatchetView, dh: Seq<u8>, first: Seq<u8>)
    requires
        sends_on(sender, dh, first),
    ensures
        sender.sending_key() == message_key(first, sender.ns),
        sends_on(sender.sent(), dh, first),
        sender.sent().ns == sender.ns + 1,
        forall|receiver: RatchetView| #[trigger]
            awaits(receiver, sender, dh, first) ==> awaits(receiver, sender.sent(), dh, first),
{
}

/// Sending leaves alone what a session receives: the chain that it follows and
/// the keys that it keeps.
pub proof fn law_sending_leaves_receiving_alone(
    session: RatchetView,
    dh: Seq<u8>,
    first: Seq<u8>,
    until: nat,
)
    ensures
        follows(session, dh, first) ==> follows(session.sent(), dh, first),
        keeps_rightly(session, dh, first, until) ==> keeps_rightly(
            session.sent(),
            dh,
            first,
            until,
        ),
{
    if keeps_rightly(session, dh, first, until) {
        assert forall|n: nat| #[trigger] session.sent().keeps(dh, n) implies n < until
            && session.sent().skipped[(dh, n)] == message_key(first, n) by {
            assert(session.keeps(dh, n));
        }
    }
    if follows(session, dh, first) {
        assert forall|n: nat| #[trigger] session.sent().keeps(dh, n) implies n < session.nr
            && session.sent().skipped[(dh, n)] == message_key(first, n) by {
            assert(session.keeps(dh, n));
        }
    }
}

/// A message of the chain that comes in order or ahead of others is read under
/// its own key. The session goes on with the message after it and keeps the keys
/// of those that it passed; its own sending side stays as it was.
pub proof fn law_message_in_order_or_ahead(
    receiver: RatchetView,
    fresh: Seq<u8>,
    dh: Seq<u8>,
    first: Seq<u8>,
    n: nat,
    pn: nat,
)
    requires
        follows(receiver, dh, first),
        receiver.nr <= n <= receiver.nr + MAX_SKIP,
    ensures
        receiver.receive(fresh, dh, n, pn).1 == Some(message_key(first, n)),
        ({
            let after = receiver.receive(fresh, dh, n, pn).0;
            &&& follows(after, dh, first)
            &&& after.nr == n + 1
            &&& after.skipped == receiver.skipped.union_prefer_right(
                chain_keys(dh, receiver.ck_r->0, receiver.nr, n),
            )
            &&& forall|m: nat| receiver.nr <= m < n ==> #[trigger] after.keeps(dh, m)
            &&& !after.keeps(dh, n)
            &&& after.dhs == receiver.dhs
            &&& after.rk == receiver.rk
            &&& after.ck_s == receiver.ck_s
            &&& after.ns == receiver.ns
            &&& after.pn == receiver.pn
        }),
{
    let ck = receiver.ck_r->0;
    let after = receiver.receive(fresh, dh, n, pn).0;
    assert(!receiver.keeps(dh, n));
    lemma_chain_key_adds(first, receiver.nr, (n - receiver.nr) as nat);
    assert(chain_key(ck, 0) == ck);
    assert(receiver.skipped =~= receiver.skipped.union_prefer_right(chain_keys(dh, ck, n, n)));
    assert(after.skipped =~= receiver.skipped.union_prefer_right(
        chain_keys(dh, ck, receiver.nr, n),
    ));
    assert(chain_key(first, n + 1) == kdf_ck(chain_key(first, n)).0);
    assert forall|m: nat| #[trigger] after.keeps(dh, m) implies m < n + 1 && after.skipped[(dh, m)]
        == message_key(first, m) by {
        if receiver.nr <= m < n {
            lemma_chain_key_adds(first, receiver.nr, (m - receiver.nr) as nat);
        } else {
            assert(receiver.keeps(dh, m));
        }
    }
}

/// What the last of 32 bytes counts for in the number that the bytes from place
/// `from` on stand for.
spec fn top_weight(from: int) -> int
    decreases 31 - from,
{
    if from < 31 {
        256 * top_weight(from + 1)
    } else {
        1
    }
}

/// Bytes that agree up to the top bit stand for numbers that differ by that bit.
proof fn lemma_top_bit(low: Seq<u8>, high: Seq<u8>, from: int)
    requires
        low.len() == 32,
        high.len() == 32,
        forall|i: int| 0 <= i < 31 ==> #[trigger] low[i] == high[i],
        high[31] == low[31] + 128,
        0 <= from <= 31,
    ensures
        le_value(high, from) == le_value(low, from) + 128 * top_weight(from),
    decreases 31 - from,
{
    if from < 31 {
        lemma_top_bit(low, high, from + 1);
        assert(low[from] == high[from]);
    } else {
        assert(le_value(low, 32) == 0 && le_value(high, 32) == 0);
    }
}

/// The top bit of a public key is not looked at: with or without it, the bytes
/// encode the same key.
pub proof fn law_top_bit_is_ignored(key: Seq<u8>, other: Seq<u8>)
    requires
        key.len() == 32,
        other.len() == 32,
        forall|i: int| 0 <= i < 31 ==> #[trigger] key[i] == other[i],
        key[31] as int % 128 == other[31] as int % 128,
    ensures
        is_same_key(key, other),
{
    assert(top_weight(0)
        == 0x0100000000000000000000000000000000000000000000000000000000000000) by {
        reveal_with_fuel(top_weight, 32);
    }
    if key[31] < other[31] {
        lemma_top_bit(key, other, 0);
    } else if key[31] > other[31] {
        lemma_top_bit(other, key, 0);
    } else {
        assert(key =~= other);
    }
}

/// A header may name the current chain in another encoding of its public key: the
/// message is read on in that chain, like one that names it byte for byte. Only a
/// kept key is found by the bytes alone.
pub proof fn law_other_encoding_reads_on(
    receiver: RatchetView,
    fresh: Seq<u8>,
    other: Seq<u8>,
    n: nat,
    pn: nat,
)
    requires
        receiver.knows(other),
        !receiver.keeps(other, n),
        !receiver.keeps(receiver.dhp, n),
    ensures
        receiver.receive(fresh, other, n, pn) == receiver.receive(fresh, receiver.dhp, n, pn),
        receiver.ck_r is None && receiver.may_skip(n) ==> receiver.receive(fresh, other, n, pn) == (
            receiver,
            None::<Seq<u8>>,
        ),
{
}

/// A message that comes late is read under the key that was kept for it. Only
/// that key is spent; nothing else changes.
pub proof fn law_late_message(
    receiver: RatchetView,
    fresh: Seq<u8>,
    dh: Seq<u8>,
    first: Seq<u8>,
    until: nat,
    n: nat,
    pn: nat,
)
    requires
        keeps_rightly(receiver, dh, first, until),
        receiver.keeps(dh, n),
    ensures
        receiver.receive(fresh, dh, n, pn).1 == Some(message_key(first, n)),
        receiver.receive(fresh, dh, n, pn).0 == (RatchetView {
            skipped: receiver.skipped.remove((dh, n)),
            ..receiver
        }),
        keeps_rightly(receiver.receive(fresh, dh, n, pn).0, dh, first, until),
        follows(receiver, dh, first) ==> follows(
            receiver.receive(fresh, dh, n, pn).0,
            dh,
            first,
        ),
{
    let after = receiver.receive(fresh, dh, n, pn).0;
    assert forall|m: nat| #[trigger] after.keeps(dh, m) implies receiver.keeps(dh, m)
        && after.skipped[(dh, m)] == receiver.skipped[(dh, m)] by {}
}

/// A message that was read is never read under its own key again: when it comes a
/// second time, the session tries the key of the next message.
pub proof fn law_message_key_is_used_once(
    receiver: RatchetView,
    fresh: Seq<u8>,
    dh: Seq<u8>,
    first: Seq<u8>,
    n: nat,
    pn: nat,
)
    requires
        follows(receiver, dh, first),
        n < receiver.nr,
        !receiver.keeps(dh, n),
    ensures
        receiver.receive(fresh, dh, n, pn).1 == Some(message_key(first, receiver.nr)),
        !receiver.receive(fresh, dh, n, pn).0.keeps(dh, n),
{
}

/// The first message that arrives of a chain that the session awaits, whichever
/// of its messages it is, turns the ratchet: it is read under its own key, the
/// session follows the chain from there, and every message of the chain before
/// it that had not arrived keeps its key.
pub proof fn law_turn_of_the_conversation(
    receiver: RatchetView,
    sender: RatchetView,
    fresh: Seq<u8>,
    dh: Seq<u8>,
    first: Seq<u8>,
    n: nat,
    pn: nat,
)
    requires
        awaits(receiver, sender, dh, first),
        n <= MAX_SKIP,
        receiver.may_skip(pn),
    ensures
        receiver.receive(fresh, dh, n, pn).1 == Some(message_key(first, n)),
        ({
            let after = receiver.receive(fresh, dh, n, pn).0;
            &&& follows(after, dh, first)
            &&& after.nr == n + 1
            &&& after.pn == receiver.ns
            &&& after.ns == 0
            &&& forall|m: nat| m < n ==> #[trigger] after.keeps(dh, m)
            &&& !after.keeps(dh, n)
        }),
{
    let turned = receiver.skip(pn).turn(fresh, dh);
    assert(!receiver.keeps(dh, n));
    assert(turned.ck_r == Some(chain_key(first, 0)));
    assert forall|m: nat| !#[trigger] turned.keeps(dh, m) by {
        assert(!receiver.keeps(dh, m));
    }
    assert(follows(turned, dh, first));
    law_message_in_order_or_ahead(turned, fresh, dh, first, n, pn);
    assert(turned.receive(fresh, dh, n, pn) == turned.receive_in_chain(n));
}

/// A turn of the conversation loses nothing of the chain before: with the length
/// of that chain in the header, every message of it that had not arrived keeps
/// its key.
pub proof fn law_turn_keeps_the_chain_before(
    receiver: RatchetView,
    fresh: Seq<u8>,
    old_dh: Seq<u8>,
    old_first: Seq<u8>,
    dh: Seq<u8>,
    n: nat,
    pn: nat,
)
    requires
        follows(receiver, old_dh, old_first),
        !receiver.knows(dh),
        !receiver.keeps(dh, n),
        receiver.may_skip(pn),
    ensures
        ({
            let after = receiver.receive(fresh, dh, n, pn).0;
            let until = if pn > receiver.nr {
                pn
            } else {
                receiver.nr
            };
            &&& keeps_rightly(after, old_dh, old_first, until)
            &&& forall|m: nat| receiver.nr <= m < pn ==> #[trigger] after.keeps(old_dh, m)
            &&& forall|m: nat| #[trigger] receiver.keeps(old_dh, m) ==> after.keeps(old_dh, m)
        }),
{
    let ck = receiver.ck_r->0;
    let passed = receiver.skip(pn);
    let turned = passed.turn(fresh, dh);
    let after = receiver.receive(fresh, dh, n, pn).0;
    let until = if pn > receiver.nr {
        pn
    } else {
        receiver.nr
    };
    assert(after == turned.receive_in_chain(n).0);
    assert forall|m: nat| true implies after.keeps(old_dh, m) == #[trigger] passed.keeps(old_dh, m)
        && (passed.keeps(old_dh, m) ==> after.skipped[(old_dh, m)] == passed.skipped[(
        old_dh,
        m,
    )]) by {}
    assert forall|m: nat| #[trigger] after.keeps(old_dh, m) implies m < until && after.skipped[(
        old_dh,
        m,
    )] == message_key(old_first, m) by {
        assert(passed.keeps(old_dh, m));
        if receiver.nr <= m < pn {
            lemma_chain_key_adds(old_first, receiver.nr, (m - receiver.nr) as nat);
        } else {
            assert(receiver.keeps(old_dh, m));
        }
    }
    assert forall|m: nat| receiver.nr <= m < pn implies #[trigger] after.keeps(old_dh, m) by {
        assert(passed.keeps(old_dh, m));
    }
    assert forall|m: nat| #[trigger] receiver.keeps(old_dh, m) implies after.keeps(old_dh, m) by {
        assert(passed.keeps(old_dh, m));
    }
}

/// After a turn the conversation can turn back: the sender of the message that
/// turned it awaits the chain on which its receiver now sends. The receiver's
/// fresh secret is new, so that the sender has never seen its public key.
pub proof fn law_turn_can_be_answered(
    receiver: RatchetView,
    sender: RatchetView,
    fresh: Seq<u8>,
    dh: Seq<u8>,
    first: Seq<u8>,
    n: nat,
    pn: nat,
)
    requires
        awaits(receiver, sender, dh, first),
        n <= MAX_SKIP,
        receiver.may_skip(pn),
        sender.dhs.len() == 32,
        receiver.receive(fresh, dh, n, pn).0.agreed(),
        !sender.knows(x25519_public(fresh)),
        forall|m: nat| !#[trigger] sender.keeps(x25519_public(fresh), m),
    ensures
        ({
            let after = receiver.receive(fresh, dh, n, pn).0;
            awaits(sender, after, x25519_public(fresh), after.ck_s->0)
        }),
{
    let after = receiver.receive(fresh, dh, n, pn).0;
    let turned = receiver.skip(pn).turn(fresh, dh);
    assert(!receiver.keeps(dh, n));
    assert(after == turned.receive_in_chain(n).0);
    assert(after.dhs == fresh && after.dhp == dh && after.ns == 0);
    assert(after.dhp == x25519_public(sender.dhs));
    assert(chain_key(after.ck_s->0, 0) == after.ck_s->0);
}

/// A turn that is due stays due while either side still receives messages that
/// do not turn its own ratchet: messages of the chain that it follows, and late
/// ones whose keys were kept.
pub proof fn law_turn_stays_due(
    receiver: RatchetView,
    sender: RatchetView,
    dh: Seq<u8>,
    first: Seq<u8>,
    fresh: Seq<u8>,
    other_dh: Seq<u8>,
    n: nat,
    pn: nat,
)
    requires
        awaits(receiver, sender, dh, first),
    ensures
        receiver.knows(other_dh) || receiver.keeps(other_dh, n) ==> awaits(
            receiver.receive(fresh, other_dh, n, pn).0,
            sender,
            dh,
            first,
        ),
        sender.knows(other_dh) || sender.keeps(other_dh, n) ==> awaits(
            receiver,
            sender.receive(fresh, other_dh, n, pn).0,
            dh,
            first,
        ),
{
    let after = receiver.receive(fresh, other_dh, n, pn).0;
    if receiver.knows(other_dh) || receiver.keeps(other_dh, n) {
        assert forall|m: nat| !#[trigger] after.keeps(dh, m) by {
            assert(!receiver.keeps(dh, m));
        }
    }
}

/// Message number `n` of the chain is within the session's reach: next or ahead
/// on the chain that it follows, late with its key kept, or on the chain that it
/// awaits.
pub open spec fn within_reach(
    receiver: RatchetView,
    sender: RatchetView,
    dh: Seq<u8>,
    first: Seq<u8>,
    n: nat,
    pn: nat,
) -> bool {
    ||| follows(receiver, dh, first) && receiver.nr <= n <= receiver.nr + MAX_SKIP
    ||| receiver.keeps(dh, n) && exists|until: nat| #[trigger]
        keeps_rightly(receiver, dh, first, until)
    ||| awaits(receiver, sender, dh, first) && n <= MAX_SKIP && receiver.may_skip(pn)
}

/// What one session encrypts the other decrypts: a message that is within the
/// receiver's reach when it arrives gives the plaintext back, whatever has been
/// sent or received in between.
pub proof fn law_message_is_read(
    sender: RatchetView,
    sent: RatchetView,
    plaintext: Seq<u8>,
    associated_data: Seq<u8>,
    sealed: Sealed,
    later: RatchetView,
    receiver: RatchetView,
    after: RatchetView,
    first: Seq<u8>,
    fresh: Seq<u8>,
    opened: Result<Vec<u8>, CryptoError>,
)
    requires
        sends_on(sender, sealed.2@, first),
        encrypts(sender, sent, plaintext, associated_data, Ok(sealed)),
        within_reach(receiver, later, sealed.2@, first, sealed.3 as nat, sealed.4 as nat),
        decrypts(
            receiver,
            after,
            fresh,
            sealed.0@,
            sealed.1@,
            sealed.2@,
            sealed.3 as nat,
            sealed.4 as nat,
            with_header(associated_data, sealed.2@, sealed.3 as nat, sealed.4 as nat),
            opened,
        ),
    ensures
        opened matches Ok(bytes) && bytes@ == plaintext,
{
    let dh = sealed.2@;
    let n = sealed.3 as nat;
    let pn = sealed.4 as nat;
    if follows(receiver, dh, first) && receiver.nr <= n <= receiver.nr + MAX_SKIP {
        law_message_in_order_or_ahead(receiver, fresh, dh, first, n, pn);
    } else if receiver.keeps(dh, n) && exists|until: nat| #[trigger]
        keeps_rightly(receiver, dh, first, until) {
        let until = choose|until: nat| #[trigger] keeps_rightly(receiver, dh, first, until);
        law_late_message(receiver, fresh, dh, first, until, n, pn);
    } else {
        law_turn_of_the_conversation(receiver, later, fresh, dh, first, n, pn);
    }
}

} // verus!
