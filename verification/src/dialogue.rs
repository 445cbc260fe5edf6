//! The two sessions of a conversation as a whole. At any time one side speaks: the
//! other has not yet seen the chain it sends on. What holds between the two is set
//! up by the handshake and kept by everything either side may do, so that every
//! message finds its key.

use vstd::prelude::*;

use crate::conversation::{
    awaits, follows, keeps_rightly, law_late_message, law_message_in_order_or_ahead,
    law_sending_leaves_receiving_alone, law_sending_moves_along_the_chain,
    law_sessions_start_linked, law_turn_can_be_answered, law_turn_of_the_conversation,
    law_turn_stays_due, sends_on,
};
use crate::primitives::{is_same_key, x25519_public, x25519_shared};
use crate::ratchet::{kdf_rk, message_key, RatchetView, MAX_SKIP};

verus! {

/// Two chains: the one that the speaker sends on, and the one on which the
/// listener may still send and the speaker receives. Each is given by its public
/// key and its first chain key.
pub struct Chains {
    pub dh: Seq<u8>,
    pub first: Seq<u8>,
    pub back_dh: Seq<u8>,
    pub back_first: Seq<u8>,
}

/// The two sessions fit together: the listener awaits the speaker's chain, and if
/// the listener can send at all, the speaker follows it.
pub open spec fn in_dialogue(speaker: RatchetView, listener: RatchetView, chains: Chains) -> bool {
    &&& awaits(listener, speaker, chains.dh, chains.first)
    &&& listener.ck_s is Some ==> {
        &&& sends_on(listener, chains.back_dh, chains.back_first)
        &&& follows(speaker, chains.back_dh, chains.back_first)
        &&& speaker.nr <= listener.ns
    }
}

/// The public key has never been used in the conversation: the session neither
/// knows it nor keeps keys of its chain.
pub open spec fn unseen(session: RatchetView, dh: Seq<u8>) -> bool {
    &&& !session.knows(dh)
    &&& forall|n: nat| !#[trigger] session.keeps(dh, n)
}

/// A conversation starts with the active side speaking.
pub proof fn law_dialogue_starts(
    fresh: Seq<u8>,
    ephemeral: Seq<u8>,
    known: Seq<u8>,
    shared_root: Seq<u8>,
    back_dh: Seq<u8>,
    back_first: Seq<u8>,
)
    requires
        ephemeral.len() == 32,
        RatchetView::active(fresh, x25519_public(ephemeral), shared_root).agreed(),
        !is_same_key(x25519_public(fresh), known),
    ensures
        in_dialogue(
            RatchetView::active(fresh, x25519_public(ephemeral), shared_root),
            RatchetView::passive(ephemeral, known, shared_root),
            (Chains {
                dh: x25519_public(fresh),
                first: kdf_rk(shared_root, x25519_shared(fresh, x25519_public(ephemeral))).1,
                back_dh,
                back_first,
            }),
        ),
{
    law_sessions_start_linked(fresh, ephemeral, known, shared_root);
}

/// The speaker may go on speaking: each message has the next key of its chain.
pub proof fn law_speaker_sends(speaker: RatchetView, listener: RatchetView, chains: Chains)
    requires
        in_dialogue(speaker, listener, chains),
    ensures
        in_dialogue(speaker.sent(), listener, chains),
        speaker.sending_key() == message_key(chains.first, speaker.ns),
{
    law_sending_moves_along_the_chain(speaker, chains.dh, chains.first);
    law_sending_leaves_receiving_alone(speaker, chains.back_dh, chains.back_first, speaker.nr);
}

/// The listener may send on its chain as well, if it has one.
pub proof fn law_listener_sends(speaker: RatchetView, listener: RatchetView, chains: Chains)
    requires
        in_dialogue(speaker, listener, chains),
        listener.ck_s is Some,
    ensures
        in_dialogue(speaker, listener.sent(), chains),
        listener.sending_key() == message_key(chains.back_first, listener.ns),
{
    law_sending_moves_along_the_chain(listener, chains.back_dh, chains.back_first);
    assert forall|n: nat| !#[trigger] listener.sent().keeps(chains.dh, n) by {
        assert(!listener.keeps(chains.dh, n));
    }
}

/// The speaker reads a message of the listener that is next, ahead or late: it
/// finds the message's own key.
pub proof fn law_speaker_reads(
    speaker: RatchetView,
    listener: RatchetView,
    chains: Chains,
    fresh: Seq<u8>,
    n: nat,
    pn: nat,
)
    requires
        in_dialogue(speaker, listener, chains),
        listener.ck_s is Some,
        n < listener.ns,
        speaker.keeps(chains.back_dh, n) || speaker.nr <= n <= speaker.nr + MAX_SKIP,
    ensures
        speaker.receive(fresh, chains.back_dh, n, pn).1 == Some(
            message_key(chains.back_first, n),
        ),
        in_dialogue(speaker.receive(fresh, chains.back_dh, n, pn).0, listener, chains),
{
    law_turn_stays_due(
        listener,
        speaker,
        chains.dh,
        chains.first,
        fresh,
        chains.back_dh,
        n,
        pn,
    );
    if speaker.keeps(chains.back_dh, n) {
        law_late_message(
            speaker,
            fresh,
            chains.back_dh,
            chains.back_first,
            speaker.nr,
            n,
            pn,
        );
    } else {
        law_message_in_order_or_ahead(
            speaker,
            fresh,
            chains.back_dh,
            chains.back_first,
            n,
            pn,
        );
    }
}

/// The listener reads a message of the speaker, any one within the limit of what
/// may be skipped: it finds the message's own key, and now it is the listener who
/// speaks. The secret that it draws is new, so that the other side has not seen
/// its public key.
pub proof fn law_listener_reads_and_speaks(
    speaker: RatchetView,
    listener: RatchetView,
    chains: Chains,
    fresh: Seq<u8>,
    n: nat,
    pn: nat,
)
    requires
        in_dialogue(speaker, listener, chains),
        n < speaker.ns,
        n <= MAX_SKIP,
        listener.may_skip(pn),
        speaker.dhs.len() == 32,
        listener.receive(fresh, chains.dh, n, pn).0.agreed(),
        unseen(speaker, x25519_public(fresh)),
    ensures
        listener.receive(fresh, chains.dh, n, pn).1 == Some(message_key(chains.first, n)),
        ({
            let after = listener.receive(fresh, chains.dh, n, pn).0;
            in_dialogue(
                after,
                speaker,
                (Chains {
                    dh: x25519_public(fresh),
                    first: after.ck_s->0,
                    back_dh: chains.dh,
                    back_first: chains.first,
                }),
            )
        }),
{
    law_turn_of_the_conversation(listener, speaker, fresh, chains.dh, chains.first, n, pn);
    law_turn_can_be_answered(listener, speaker, fresh, chains.dh, chains.first, n, pn);
}

/// A message of a chain gone by, whose key was kept, is read under its own key on
/// either side, and the conversation stays where it is.
pub proof fn law_old_message_is_read(
    speaker: RatchetView,
    listener: RatchetView,
    chains: Chains,
    fresh: Seq<u8>,
    dh: Seq<u8>,
    first: Seq<u8>,
    until: nat,
    n: nat,
    pn: nat,
)
    requires
        in_dialogue(speaker, listener, chains),
    ensures
        listener.keeps(dh, n) && keeps_rightly(listener, dh, first, until) ==> {
            &&& listener.receive(fresh, dh, n, pn).1 == Some(message_key(first, n))
            &&& in_dialogue(speaker, listener.receive(fresh, dh, n, pn).0, chains)
        },
        speaker.keeps(dh, n) && keeps_rightly(speaker, dh, first, until) ==> {
            &&& speaker.receive(fresh, dh, n, pn).1 == Some(message_key(first, n))
            &&& in_dialogue(speaker.receive(fresh, dh, n, pn).0, listener, chains)
        },
{
    law_turn_stays_due(listener, speaker, chains.dh, chains.first, fresh, dh, n, pn);
    if listener.keeps(dh, n) && keeps_rightly(listener, dh, first, until) {
        law_late_message(listener, fresh, dh, first, until, n, pn);
    }
    if speaker.keeps(dh, n) && keeps_rightly(speaker, dh, first, until) {
        law_late_message(speaker, fresh, dh, first, until, n, pn);
        let after = speaker.receive(fresh, dh, n, pn).0;
        if listener.ck_s is Some {
            assert forall|m: nat| #[trigger] after.keeps(chains.back_dh, m) implies m < after.nr
                && after.skipped[(chains.back_dh, m)] == message_key(chains.back_first, m) by {
                assert(speaker.keeps(chains.back_dh, m));
            }
        }
    }
}

/// The listener reads what still comes of the speaker's chain before: it finds the
/// message's own key, and the conversation stays where it is.
pub proof fn law_listener_reads_the_chain_before(
    speaker: RatchetView,
    listener: RatchetView,
    chains: Chains,
    fresh: Seq<u8>,
    dh: Seq<u8>,
    first: Seq<u8>,
    n: nat,
    pn: nat,
)
    requires
        in_dialogue(speaker, listener, chains),
        follows(listener, dh, first),
        listener.nr <= n <= listener.nr + MAX_SKIP,
    ensures
        listener.receive(fresh, dh, n, pn).1 == Some(message_key(first, n)),
        in_dialogue(speaker, listener.receive(fresh, dh, n, pn).0, chains),
        follows(listener.receive(fresh, dh, n, pn).0, dh, first),
{
    law_turn_stays_due(listener, speaker, chains.dh, chains.first, fresh, dh, n, pn);
    law_message_in_order_or_ahead(listener, fresh, dh, first, n, pn);
}

} // verus!
