//! Several messages of one chain: sent in a row, and delivered in any order.

use vstd::prelude::*;

use crate::conversation::{
    awaits, follows, law_late_message, law_message_in_order_or_ahead,
    law_turn_of_the_conversation,
};
use crate::crypto::{seals, CryptoError};
use crate::primitives::{cipher_accepts_length, x25519_public};
use crate::ratchet::{
    chain_key, decrypts, encrypts, message_key, with_header, RatchetView, Sealed, MAX_SKIP,
};

verus! {

/// The session encrypts the plaintexts one after the other, with nothing in
/// between: `states[i]` is its state before plaintext number `i`.
pub open spec fn sends_in_a_row(
    states: Seq<RatchetView>,
    plaintexts: Seq<Seq<u8>>,
    associated_data: Seq<Seq<u8>>,
    results: Seq<Result<Sealed, CryptoError>>,
) -> bool {
    &&& states.len() == results.len() + 1
    &&& plaintexts.len() == results.len()
    &&& associated_data.len() == results.len()
    &&& forall|i: int|
        0 <= i < results.len() ==> encrypts(
            states[i],
            states[i + 1],
            plaintexts[i],
            associated_data[i],
            #[trigger] results[i],
        )
}

/// The state of a session that has sent `count` messages more on its chain:
/// only the chain key and the number of the next message have moved.
pub open spec fn sent_times(session: RatchetView, count: nat) -> RatchetView {
    RatchetView {
        ck_s: Some(chain_key(session.ck_s->0, count)),
        ns: session.ns + count,
        ..session
    }
}

/// The state of the session before plaintext number `i` of a row.
proof fn lemma_state_in_a_row(
    states: Seq<RatchetView>,
    plaintexts: Seq<Seq<u8>>,
    associated_data: Seq<Seq<u8>>,
    results: Seq<Result<Sealed, CryptoError>>,
    i: nat,
)
    requires
        sends_in_a_row(states, plaintexts, associated_data, results),
        states[0].ck_s is Some,
        i <= results.len(),
    ensures
        states[i as int] == sent_times(states[0], i),
    decreases i,
{
    if i > 0 {
        lemma_state_in_a_row(states, plaintexts, associated_data, results, (i - 1) as nat);
        assert(encrypts(
            states[i - 1],
            states[i as int],
            plaintexts[i - 1],
            associated_data[i - 1],
            results[i - 1],
        ));
    } else {
        assert(chain_key(states[0].ck_s->0, 0) == states[0].ck_s->0);
    }
}

/// Messages that are sent in a row lie on one chain: they carry the same public
/// key and the same length of the chain before, their numbers count up from the
/// first, and each is encrypted under the message key of its own place in the
/// chain. Sending moves the chain key and the counter, and nothing else of the
/// session. Only a plaintext that is too long for the cipher is refused.
pub proof fn law_messages_in_a_row(
    states: Seq<RatchetView>,
    plaintexts: Seq<Seq<u8>>,
    associated_data: Seq<Seq<u8>>,
    results: Seq<Result<Sealed, CryptoError>>,
)
    requires
        sends_in_a_row(states, plaintexts, associated_data, results),
        states[0].ck_s is Some,
    ensures
        forall|i: int|
            0 <= i <= results.len() ==> #[trigger] states[i] == sent_times(states[0], i as nat),
        forall|i: int|
            0 <= i < results.len() ==> (#[trigger] results[i] is Ok <==> cipher_accepts_length(
                plaintexts[i].len() as int,
            )),
        forall|i: int|
            0 <= i < results.len() ==> (#[trigger] results[i] matches Ok(sealed) ==> {
                &&& sealed.2@ == x25519_public(states[0].dhs)
                &&& sealed.3 == states[0].ns + i
                &&& sealed.4 == states[0].pn
                &&& seals(
                    message_key(states[0].ck_s->0, i as nat),
                    sealed.1@,
                    with_header(associated_data[i], sealed.2@, sealed.3 as nat, sealed.4 as nat),
                    plaintexts[i],
                    Ok(sealed.0),
                )
            }),
{
    assert forall|i: int| 0 <= i <= results.len() implies #[trigger] states[i] == sent_times(
        states[0],
        i as nat,
    ) by {
        lemma_state_in_a_row(states, plaintexts, associated_data, results, i as nat);
    }
    assert forall|i: int| 0 <= i < results.len() implies encrypts(
        sent_times(states[0], i as nat),
        states[i + 1],
        plaintexts[i],
        associated_data[i],
        #[trigger] results[i],
    ) by {
        assert(states[i] == sent_times(states[0], i as nat));
    }
}

/// The session decrypts messages of a row one after the other: delivery number
/// `j` brings message number `order[j]`, and `states[j]` is the session's state
/// before it.
pub open spec fn receives_in_order(
    states: Seq<RatchetView>,
    fresh: Seq<Seq<u8>>,
    order: Seq<nat>,
    messages: Seq<Sealed>,
    associated_data: Seq<Seq<u8>>,
    opened: Seq<Result<Vec<u8>, CryptoError>>,
) -> bool {
    &&& states.len() == order.len() + 1
    &&& fresh.len() == order.len()
    &&& opened.len() == order.len()
    &&& forall|j: int|
        0 <= j < order.len() ==> {
            let message = messages[#[trigger] order[j] as int];
            decrypts(
                states[j],
                states[j + 1],
                fresh[j],
                message.0@,
                message.1@,
                message.2@,
                message.3 as nat,
                message.4 as nat,
                with_header(
                    associated_data[order[j] as int],
                    message.2@,
                    message.3 as nat,
                    message.4 as nat,
                ),
                opened[j],
            )
        }
}

/// The session follows the chain and has read exactly the messages in `taken`:
/// it keeps the keys of those that it passed and has not read.
pub open spec fn has_read(
    receiver: RatchetView,
    dh: Seq<u8>,
    first: Seq<u8>,
    taken: Seq<nat>,
    count: nat,
) -> bool {
    &&& follows(receiver, dh, first)
    &&& receiver.nr <= count
    &&& forall|j: int| 0 <= j < taken.len() ==> #[trigger] taken[j] < receiver.nr
    &&& forall|n: nat| #[trigger]
        receiver.keeps(dh, n) <==> n < receiver.nr && !taken.contains(n)
}

/// What a sequence holds after one more element.
proof fn lemma_push_contains(taken: Seq<nat>, n: nat, m: nat)
    ensures
        taken.push(n).contains(m) <==> taken.contains(m) || m == n,
{
    if taken.contains(m) {
        let j = choose|j: int| 0 <= j < taken.len() && taken[j] == m;
        assert(taken.push(n)[j] == m);
    }
    assert(taken.push(n)[taken.len() as int] == n);
}

/// The first delivery turns the ratchet.
proof fn lemma_first_delivery(
    receiver: RatchetView,
    sender: RatchetView,
    fresh: Seq<u8>,
    dh: Seq<u8>,
    first: Seq<u8>,
    count: nat,
    n: nat,
    pn: nat,
)
    requires
        awaits(receiver, sender, dh, first),
        receiver.may_skip(pn),
        n < count <= MAX_SKIP + 1,
    ensures
        receiver.receive(fresh, dh, n, pn).1 == Some(message_key(first, n)),
        has_read(receiver.receive(fresh, dh, n, pn).0, dh, first, seq![n], count),
{
    law_turn_of_the_conversation(receiver, sender, fresh, dh, first, n, pn);
    let after = receiver.receive(fresh, dh, n, pn).0;
    assert forall|m: nat| #[trigger] after.keeps(dh, m) <==> m < after.nr && !seq![n].contains(
        m,
    ) by {
        assert(seq![n][0] == n);
    }
}

/// Every further delivery reads its message, late or ahead.
proof fn lemma_next_delivery(
    receiver: RatchetView,
    fresh: Seq<u8>,
    dh: Seq<u8>,
    first: Seq<u8>,
    taken: Seq<nat>,
    count: nat,
    n: nat,
    pn: nat,
)
    requires
        has_read(receiver, dh, first, taken, count),
        n < count <= MAX_SKIP + 1,
        !taken.contains(n),
    ensures
        receiver.receive(fresh, dh, n, pn).1 == Some(message_key(first, n)),
        has_read(receiver.receive(fresh, dh, n, pn).0, dh, first, taken.push(n), count),
{
    let after = receiver.receive(fresh, dh, n, pn).0;
    if n < receiver.nr {
        assert(receiver.keeps(dh, n));
        law_late_message(receiver, fresh, dh, first, receiver.nr, n, pn);
        assert forall|m: nat| #[trigger] after.keeps(dh, m) <==> m < after.nr && !taken.push(
            n,
        ).contains(m) by {
            lemma_push_contains(taken, n, m);
            assert(after.keeps(dh, m) <==> receiver.keeps(dh, m) && m != n);
        }
    } else {
        law_message_in_order_or_ahead(receiver, fresh, dh, first, n, pn);
        assert forall|m: nat| #[trigger] after.keeps(dh, m) <==> m < after.nr && !taken.push(
            n,
        ).contains(m) by {
            lemma_push_contains(taken, n, m);
            assert(after.keeps(dh, m) <==> receiver.keeps(dh, m) || receiver.nr <= m < n);
        }
    }
}

/// What the session has read after the first `j` deliveries of a row.
proof fn lemma_deliveries(
    states: Seq<RatchetView>,
    sender: RatchetView,
    fresh: Seq<Seq<u8>>,
    order: Seq<nat>,
    messages: Seq<Sealed>,
    associated_data: Seq<Seq<u8>>,
    opened: Seq<Result<Vec<u8>, CryptoError>>,
    dh: Seq<u8>,
    first: Seq<u8>,
    pn: nat,
    j: int,
)
    requires
        awaits(states[0], sender, dh, first),
        states[0].may_skip(pn),
        messages.len() <= MAX_SKIP + 1,
        receives_in_order(states, fresh, order, messages, associated_data, opened),
        order.no_duplicates(),
        forall|i: int| 0 <= i < order.len() ==> #[trigger] order[i] < messages.len(),
        forall|i: int|
            0 <= i < messages.len() ==> {
                &&& (#[trigger] messages[i]).2@ == dh
                &&& messages[i].3 == i
                &&& messages[i].4 == pn
            },
        0 <= j < order.len(),
    ensures
        states[j].receive(fresh[j], dh, order[j], pn).1 == Some(
            message_key(first, order[j]),
        ),
        has_read(states[j + 1], dh, first, order.take(j + 1), messages.len()),
    decreases j,
{
    let n = order[j];
    let message = messages[n as int];
    assert(states[j + 1] == states[j].receive(fresh[j], dh, n, pn).0);
    if j == 0 {
        lemma_first_delivery(states[0], sender, fresh[0], dh, first, messages.len(), n, pn);
        assert(order.take(1) =~= seq![n]);
    } else {
        lemma_deliveries(
            states,
            sender,
            fresh,
            order,
            messages,
            associated_data,
            opened,
            dh,
            first,
            pn,
            j - 1,
        );
        let taken = order.take(j);
        if taken.contains(n) {
            let i = choose|i: int| 0 <= i < taken.len() && taken[i] == n;
            assert(order[i] == order[j]);
        }
        lemma_next_delivery(
            states[j],
            fresh[j],
            dh,
            first,
            taken,
            messages.len(),
            n,
            pn,
        );
        assert(order.take(j + 1) =~= taken.push(n));
    }
}

/// Messages of a new chain may come in any order: of up to as many as may be
/// skipped and one more, each that arrives gives its own plaintext back,
/// whichever came before it. What the session then keeps of the chain is the
/// keys of the messages that it passed and that have not come; when all have
/// come, it keeps none.
pub proof fn law_messages_in_any_order(
    senders: Seq<RatchetView>,
    plaintexts: Seq<Seq<u8>>,
    associated_data: Seq<Seq<u8>>,
    messages: Seq<Sealed>,
    receivers: Seq<RatchetView>,
    fresh: Seq<Seq<u8>>,
    order: Seq<nat>,
    opened: Seq<Result<Vec<u8>, CryptoError>>,
    dh: Seq<u8>,
    first: Seq<u8>,
)
    requires
        sends_in_a_row(
            senders,
            plaintexts,
            associated_data,
            messages.map_values(|sealed: Sealed| Ok::<Sealed, CryptoError>(sealed)),
        ),
        senders[0].ns == 0,
        messages.len() <= MAX_SKIP + 1,
        awaits(receivers[0], senders[0], dh, first),
        receivers[0].may_skip(senders[0].pn),
        receives_in_order(receivers, fresh, order, messages, associated_data, opened),
        order.no_duplicates(),
        forall|j: int| 0 <= j < order.len() ==> #[trigger] order[j] < messages.len(),
    ensures
        forall|j: int|
            0 <= j < order.len() ==> (#[trigger] opened[j] matches Ok(bytes) && bytes@
                == plaintexts[order[j] as int]),
        order.len() > 0 ==> has_read(receivers.last(), dh, first, order, messages.len()),
        (forall|n: nat| n < messages.len() ==> #[trigger] order.contains(n)) ==> forall|n: nat|
            !#[trigger] receivers.last().keeps(dh, n),
{
    let results = messages.map_values(|sealed: Sealed| Ok::<Sealed, CryptoError>(sealed));
    let pn = senders[0].pn;
    law_messages_in_a_row(senders, plaintexts, associated_data, results);
    assert(senders[0].ck_s == Some(first));
    assert forall|i: int| 0 <= i < messages.len() implies {
        &&& (#[trigger] messages[i]).2@ == dh
        &&& messages[i].3 == i
        &&& messages[i].4 == pn
        &&& seals(
            message_key(first, i as nat),
            messages[i].1@,
            with_header(associated_data[i], dh, i as nat, pn),
            plaintexts[i],
            Ok(messages[i].0),
        )
    } by {
        assert(results[i] == Ok::<Sealed, CryptoError>(messages[i]));
    }
    assert forall|j: int| 0 <= j < order.len() implies (#[trigger] opened[j] matches Ok(bytes)
        && bytes@ == plaintexts[order[j] as int]) by {
        lemma_deliveries(
            receivers,
            senders[0],
            fresh,
            order,
            messages,
            associated_data,
            opened,
            dh,
            first,
            pn,
            j,
        );
        let message = messages[order[j] as int];
        assert(message.3 == order[j]);
    }
    if order.len() > 0 {
        lemma_deliveries(
            receivers,
            senders[0],
            fresh,
            order,
            messages,
            associated_data,
            opened,
            dh,
            first,
            pn,
            order.len() - 1,
        );
        assert(order.take(order.len() as int) =~= order);
    }
}

/// Where the receiver stands after the first `j` messages of a chain have come in
/// order.
proof fn lemma_in_order(
    senders: Seq<RatchetView>,
    plaintexts: Seq<Seq<u8>>,
    associated_data: Seq<Seq<u8>>,
    messages: Seq<Sealed>,
    receivers: Seq<RatchetView>,
    fresh: Seq<Seq<u8>>,
    opened: Seq<Result<Vec<u8>, CryptoError>>,
    dh: Seq<u8>,
    first: Seq<u8>,
    j: int,
)
    requires
        sends_in_a_row(
            senders,
            plaintexts,
            associated_data,
            messages.map_values(|sealed: Sealed| Ok::<Sealed, CryptoError>(sealed)),
        ),
        senders[0].ns == 0,
        awaits(receivers[0], senders[0], dh, first),
        receivers[0].may_skip(senders[0].pn),
        receives_in_order(
            receivers,
            fresh,
            Seq::new(messages.len(), |i: int| i as nat),
            messages,
            associated_data,
            opened,
        ),
        0 <= j < messages.len(),
    ensures
        opened[j] matches Ok(bytes) && bytes@ == plaintexts[j],
        follows(receivers[j + 1], dh, first),
        receivers[j + 1].nr == j + 1,
    decreases j,
{
    let results = messages.map_values(|sealed: Sealed| Ok::<Sealed, CryptoError>(sealed));
    let order = Seq::new(messages.len(), |i: int| i as nat);
    let pn = senders[0].pn;
    law_messages_in_a_row(senders, plaintexts, associated_data, results);
    assert(senders[0].ck_s == Some(first));
    assert(results[j] == Ok::<Sealed, CryptoError>(messages[j]));
    let message = messages[j];
    assert(order[j] == j);
    assert(message.2@ == dh && message.3 == j && message.4 == pn);
    assert(receivers[j + 1] == receivers[j].receive(fresh[j], dh, j as nat, pn).0);
    if j == 0 {
        law_turn_of_the_conversation(receivers[0], senders[0], fresh[0], dh, first, 0, pn);
    } else {
        lemma_in_order(
            senders,
            plaintexts,
            associated_data,
            messages,
            receivers,
            fresh,
            opened,
            dh,
            first,
            j - 1,
        );
        law_message_in_order_or_ahead(receivers[j], fresh[j], dh, first, j as nat, pn);
    }
}

/// However many messages are sent in a row and come in order, each gives its own
/// plaintext back: nothing but the counter bounds their number.
pub proof fn law_long_row_is_read(
    senders: Seq<RatchetView>,
    plaintexts: Seq<Seq<u8>>,
    associated_data: Seq<Seq<u8>>,
    messages: Seq<Sealed>,
    receivers: Seq<RatchetView>,
    fresh: Seq<Seq<u8>>,
    opened: Seq<Result<Vec<u8>, CryptoError>>,
    dh: Seq<u8>,
    first: Seq<u8>,
    j: int,
)
    requires
        sends_in_a_row(
            senders,
            plaintexts,
            associated_data,
            messages.map_values(|sealed: Sealed| Ok::<Sealed, CryptoError>(sealed)),
        ),
        senders[0].ns == 0,
        awaits(receivers[0], senders[0], dh, first),
        receivers[0].may_skip(senders[0].pn),
        receives_in_order(
            receivers,
            fresh,
            Seq::new(messages.len(), |i: int| i as nat),
            messages,
            associated_data,
            opened,
        ),
        0 <= j < messages.len(),
    ensures
        opened[j] matches Ok(bytes) && bytes@ == plaintexts[j],
        receivers[j + 1].nr == j + 1,
{
    lemma_in_order(
        senders,
        plaintexts,
        associated_data,
        messages,
        receivers,
        fresh,
        opened,
        dh,
        first,
        j,
    );
}

} // verus!
