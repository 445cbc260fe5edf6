//! The JSON form of a saved session loses nothing: the session can be told from
//! the bytes.

use vstd::prelude::*;

use crate::bytes::utf8;
use crate::json::{bytes_json, decimal};
use crate::ratchet::{
    bytes_of, kept_key_json, kept_keys, kept_keys_json, optional_json, place_of,
    DoubleRatchetState, KeptKey,
};
use crate::wire_form::{law_bytes_form, law_number_form, lemma_strip, lemma_regroup};

verus! {

/// Two entries are for the same message and hold the same key.
pub open spec fn same_entry(left: KeptKey, right: KeptKey) -> bool {
    place_of(left) == place_of(right) && left.1@ == right.1@
}

/// Two lists hold the same entries in the same order.
pub open spec fn same_entries(left: Seq<KeptKey>, right: Seq<KeptKey>) -> bool {
    &&& left.len() == right.len()
    &&& forall|i: int| 0 <= i < left.len() ==> same_entry(#[trigger] left[i], right[i])
}

/// The first bytes of the small pieces.
proof fn lemma_pieces()
    ensures
        utf8("],"@).len() == 2,
        utf8("],"@)[0] == 0x5d,
        utf8(","@) == seq![0x2cu8],
        utf8("]}"@).len() == 2,
        utf8("]}"@)[0] == 0x5d,
        utf8("[["@).len() == 2,
        utf8("[["@)[0] == 0x5b,
        utf8("null"@).len() == 4,
        utf8("null"@)[0] == 0x6e,
{
    reveal_strlit("],");
    reveal_strlit(",");
    reveal_strlit("]}");
    reveal_strlit("[[");
    reveal_strlit("null");
    vstd::utf8::is_ascii_chars_encode_utf8("],"@);
    vstd::utf8::is_ascii_chars_encode_utf8(","@);
    vstd::utf8::is_ascii_chars_encode_utf8("]}"@);
    vstd::utf8::is_ascii_chars_encode_utf8("[["@);
    vstd::utf8::is_ascii_chars_encode_utf8("null"@);
    assert("],"@[0] == ']');
    assert(","@[0] == ',');
    assert("]}"@[0] == ']');
    assert("[["@[0] == '[');
    assert("null"@[0] == 'n');
    assert(utf8(","@) =~= seq![0x2cu8]);
}

/// The JSON of an entry and what follows it, piece by piece.
proof fn lemma_entry_split(entry: KeptKey, rest: Seq<u8>)
    ensures
        kept_key_json(entry) + rest == utf8("[["@) + (bytes_json(entry.0.0@) + (utf8(","@) + (
        decimal(entry.0.1 as nat) + (utf8("],"@) + (bytes_json(entry.1@) + (utf8("]"@)
            + rest)))))),
{
    let a = utf8("[["@);
    let b = bytes_json(entry.0.0@);
    let c = utf8(","@);
    let d = decimal(entry.0.1 as nat);
    let e = utf8("],"@);
    let f = bytes_json(entry.1@);
    let g = utf8("]"@);
    lemma_regroup(a + b + c + d + e + f, g, rest);
    lemma_regroup(a + b + c + d + e, f, g + rest);
    lemma_regroup(a + b + c + d, e, f + (g + rest));
    lemma_regroup(a + b + c, d, e + (f + (g + rest)));
    lemma_regroup(a + b, c, d + (e + (f + (g + rest))));
    lemma_regroup(a, b, c + (d + (e + (f + (g + rest)))));
}

/// An entry and what follows it can be told apart.
proof fn lemma_entry(left: KeptKey, left_rest: Seq<u8>, right: KeptKey, right_rest: Seq<u8>)
    requires
        kept_key_json(left) + left_rest == kept_key_json(right) + right_rest,
    ensures
        same_entry(left, right),
        left_rest == right_rest,
{
    lemma_pieces();
    lemma_entry_split(left, left_rest);
    lemma_entry_split(right, right_rest);
    let l3 = utf8("]"@) + left_rest;
    let r3 = utf8("]"@) + right_rest;
    let l2 = bytes_json(left.1@) + l3;
    let r2 = bytes_json(right.1@) + r3;
    let l1 = decimal(left.0.1 as nat) + (utf8("],"@) + l2);
    let r1 = decimal(right.0.1 as nat) + (utf8("],"@) + r2);
    let l0 = bytes_json(left.0.0@) + (utf8(","@) + l1);
    let r0 = bytes_json(right.0.0@) + (utf8(","@) + r1);
    lemma_strip(utf8("[["@), l0, r0);
    law_bytes_form(left.0.0@, utf8(","@) + l1, right.0.0@, utf8(","@) + r1);
    lemma_strip(utf8(","@), l1, r1);
    assert((utf8("],"@) + l2)[0] == 0x5d);
    assert((utf8("],"@) + r2)[0] == 0x5d);
    law_number_form(left.0.1 as nat, utf8("],"@) + l2, right.0.1 as nat, utf8("],"@) + r2);
    lemma_strip(utf8("],"@), l2, r2);
    law_bytes_form(left.1@, l3, right.1@, r3);
    lemma_strip(utf8("]"@), left_rest, right_rest);
}

/// What follows the first entry of a list.
spec fn behind_first(entries: Seq<KeptKey>) -> Seq<u8> {
    if entries.len() <= 1 {
        Seq::empty()
    } else {
        utf8(","@) + kept_keys_json(entries.drop_first())
    }
}

/// A list starts with its first entry.
proof fn lemma_entries_front(entries: Seq<KeptKey>)
    requires
        entries.len() > 0,
    ensures
        kept_keys_json(entries) == kept_key_json(entries[0]) + behind_first(entries),
    decreases entries.len(),
{
    if entries.len() == 1 {
        assert(kept_key_json(entries[0]) + behind_first(entries) =~= kept_key_json(entries[0]));
    } else {
        let front = entries.drop_last();
        let comma = utf8(","@);
        let last = kept_key_json(entries.last());
        lemma_entries_front(front);
        assert(front[0] == entries[0]);
        lemma_regroup(kept_key_json(entries[0]), behind_first(front), comma);
        lemma_regroup(kept_key_json(entries[0]), behind_first(front) + comma, last);
        assert(entries.drop_first().last() == entries.last());
        if entries.len() == 2 {
            assert(entries.drop_first()[0] == entries[1]);
            assert(behind_first(front) + comma + last =~= comma + last);
        } else {
            assert(entries.drop_first().drop_last() =~= front.drop_first());
            let middle = kept_keys_json(front.drop_first());
            assert(behind_first(front) + comma + last =~= comma + (middle + comma + last));
        }
    }
}

/// A list, closed by a bracket, and what follows it can be told apart.
proof fn lemma_entries(
    left: Seq<KeptKey>,
    left_rest: Seq<u8>,
    right: Seq<KeptKey>,
    right_rest: Seq<u8>,
)
    requires
        left_rest.len() > 0,
        right_rest.len() > 0,
        left_rest[0] == 0x5d,
        right_rest[0] == 0x5d,
        kept_keys_json(left) + left_rest == kept_keys_json(right) + right_rest,
    ensures
        same_entries(left, right),
        left_rest == right_rest,
    decreases left.len(),
{
    lemma_pieces();
    let whole = kept_keys_json(left) + left_rest;
    if left.len() > 0 {
        lemma_entries_front(left);
        lemma_regroup(kept_key_json(left[0]), behind_first(left), left_rest);
        lemma_entry_split(left[0], behind_first(left) + left_rest);
        assert(whole[0] == 0x5b);
    } else {
        assert(whole =~= left_rest);
    }
    if right.len() > 0 {
        lemma_entries_front(right);
        lemma_regroup(kept_key_json(right[0]), behind_first(right), right_rest);
        lemma_entry_split(right[0], behind_first(right) + right_rest);
        assert(whole[0] == 0x5b);
    } else {
        assert(whole =~= right_rest);
    }
    if left.len() > 0 && right.len() > 0 {
        let l = behind_first(left) + left_rest;
        let r = behind_first(right) + right_rest;
        lemma_entry(left[0], l, right[0], r);
        if left.len() == 1 {
            assert(l =~= left_rest);
            assert(l[0] == 0x5d);
        } else {
            lemma_regroup(utf8(","@), kept_keys_json(left.drop_first()), left_rest);
            assert(l[0] == 0x2c);
        }
        if right.len() == 1 {
            assert(r =~= right_rest);
            assert(r[0] == 0x5d);
        } else {
            lemma_regroup(utf8(","@), kept_keys_json(right.drop_first()), right_rest);
            assert(r[0] == 0x2c);
        }
        if left.len() > 1 {
            lemma_strip(
                utf8(","@),
                kept_keys_json(left.drop_first()) + left_rest,
                kept_keys_json(right.drop_first()) + right_rest,
            );
            lemma_entries(left.drop_first(), left_rest, right.drop_first(), right_rest);
            assert forall|i: int| 0 <= i < left.len() implies same_entry(
                #[trigger] left[i],
                right[i],
            ) by {
                if i > 0 {
                    assert(left[i] == left.drop_first()[i - 1]);
                    assert(right[i] == right.drop_first()[i - 1]);
                }
            }
        }
    }
}

/// An optional key and what follows it can be told apart.
proof fn lemma_optional(
    left: Option<[u8; 32]>,
    left_rest: Seq<u8>,
    right: Option<[u8; 32]>,
    right_rest: Seq<u8>,
)
    requires
        optional_json(left) + left_rest == optional_json(right) + right_rest,
    ensures
        bytes_of(left) == bytes_of(right),
        left_rest == right_rest,
{
    lemma_pieces();
    let whole = optional_json(left) + left_rest;
    assert(whole[0] == (if left is Some { 0x5bu8 } else { 0x6eu8 }));
    assert(whole[0] == (if right is Some { 0x5bu8 } else { 0x6eu8 }));
    match (left, right) {
        (Some(a), Some(b)) => {
            law_bytes_form(a@, left_rest, b@, right_rest);
        },
        _ => {
            lemma_strip(utf8("null"@), left_rest, right_rest);
        },
    }
}

/// Lists with the same entries stand for the same keys.
proof fn lemma_same_keys(left: Seq<KeptKey>, right: Seq<KeptKey>)
    requires
        same_entries(left, right),
    ensures
        kept_keys(left) == kept_keys(right),
    decreases left.len(),
{
    if left.len() > 0 {
        assert(same_entry(left[left.len() - 1], right[right.len() - 1]));
        assert forall|i: int| 0 <= i < left.drop_last().len() implies same_entry(
            #[trigger] left.drop_last()[i],
            right.drop_last()[i],
        ) by {
            assert(same_entry(left[i], right[i]));
        }
        lemma_same_keys(left.drop_last(), right.drop_last());
    }
}

/// The JSON of a saved session from its counters on.
spec fn state_end(state: DoubleRatchetState) -> Seq<u8> {
    utf8(",\"ns\":"@) + (decimal(state.ns as nat) + (utf8(",\"nr\":"@) + (decimal(state.nr as nat)
        + (utf8(",\"pn\":"@) + (decimal(state.pn as nat) + (utf8(",\"skipped_message_keys\":["@)
        + (kept_keys_json(state.skipped_message_keys@) + utf8("]}"@))))))))
}

/// The JSON of a saved session, piece by piece.
proof fn lemma_state_split(state: DoubleRatchetState)
    ensures
        state.json() == utf8("{\"dhs_bytes\":"@) + (bytes_json(state.dhs_bytes@) + (utf8(
            ",\"dhp_bytes\":"@,
        ) + (bytes_json(state.dhp_bytes@) + (utf8(",\"rk\":"@) + (bytes_json(state.rk@) + (utf8(
            ",\"ck_s\":"@,
        ) + (optional_json(state.ck_s) + (utf8(",\"ck_r\":"@) + (optional_json(state.ck_r)
            + state_end(state)))))))))),
{
    let a = utf8("{\"dhs_bytes\":"@);
    let b = bytes_json(state.dhs_bytes@);
    let c = utf8(",\"dhp_bytes\":"@);
    let d = bytes_json(state.dhp_bytes@);
    let e = utf8(",\"rk\":"@);
    let f = bytes_json(state.rk@);
    let g = utf8(",\"ck_s\":"@);
    let h = optional_json(state.ck_s);
    let i = utf8(",\"ck_r\":"@);
    let j = optional_json(state.ck_r);
    let k = utf8(",\"ns\":"@);
    let l = decimal(state.ns as nat);
    let m = utf8(",\"nr\":"@);
    let o = decimal(state.nr as nat);
    let p = utf8(",\"pn\":"@);
    let q = decimal(state.pn as nat);
    let r = utf8(",\"skipped_message_keys\":["@);
    let s = kept_keys_json(state.skipped_message_keys@);
    let t = utf8("]}"@);
    lemma_regroup(a + b + c + d + e + f + g + h + i + j + k + l + m + o + p + q + r, s, t);
    let s17 = s + t;
    lemma_regroup(a + b + c + d + e + f + g + h + i + j + k + l + m + o + p + q, r, s17);
    let s16 = r + s17;
    lemma_regroup(a + b + c + d + e + f + g + h + i + j + k + l + m + o + p, q, s16);
    let s15 = q + s16;
    lemma_regroup(a + b + c + d + e + f + g + h + i + j + k + l + m + o, p, s15);
    let s14 = p + s15;
    lemma_regroup(a + b + c + d + e + f + g + h + i + j + k + l + m, o, s14);
    let s13 = o + s14;
    lemma_regroup(a + b + c + d + e + f + g + h + i + j + k + l, m, s13);
    let s12 = m + s13;
    lemma_regroup(a + b + c + d + e + f + g + h + i + j + k, l, s12);
    let s11 = l + s12;
    lemma_regroup(a + b + c + d + e + f + g + h + i + j, k, s11);
    let s10 = k + s11;
    lemma_regroup(a + b + c + d + e + f + g + h + i, j, s10);
    let s9 = j + s10;
    lemma_regroup(a + b + c + d + e + f + g + h, i, s9);
    let s8 = i + s9;
    lemma_regroup(a + b + c + d + e + f + g, h, s8);
    let s7 = h + s8;
    lemma_regroup(a + b + c + d + e + f, g, s7);
    let s6 = g + s7;
    lemma_regroup(a + b + c + d + e, f, s6);
    let s5 = f + s6;
    lemma_regroup(a + b + c + d, e, s5);
    let s4 = e + s5;
    lemma_regroup(a + b + c, d, s4);
    let s3 = d + s4;
    lemma_regroup(a + b, c, s3);
    let s2 = c + s3;
    lemma_regroup(a, b, s2);
}

/// The pieces that follow the counters start with a comma.
proof fn lemma_state_pieces()
    ensures
        forall|rest: Seq<u8>|
            (#[trigger] (utf8(",\"nr\":"@) + rest)).len() > 0 && (utf8(",\"nr\":"@) + rest)[0]
                == 0x2c,
        forall|rest: Seq<u8>|
            (#[trigger] (utf8(",\"pn\":"@) + rest)).len() > 0 && (utf8(",\"pn\":"@) + rest)[0]
                == 0x2c,
        forall|rest: Seq<u8>|
            (#[trigger] (utf8(",\"skipped_message_keys\":["@) + rest)).len() > 0 && (utf8(
                ",\"skipped_message_keys\":["@,
            ) + rest)[0] == 0x2c,
{
    reveal_strlit(",\"nr\":");
    reveal_strlit(",\"pn\":");
    reveal_strlit(",\"skipped_message_keys\":[");
    vstd::utf8::is_ascii_chars_encode_utf8(",\"nr\":"@);
    vstd::utf8::is_ascii_chars_encode_utf8(",\"pn\":"@);
    vstd::utf8::is_ascii_chars_encode_utf8(",\"skipped_message_keys\":["@);
    assert(",\"nr\":"@[0] == ',');
    assert(",\"pn\":"@[0] == ',');
    assert(",\"skipped_message_keys\":["@[0] == ',');
    assert(utf8(",\"nr\":"@)[0] == 0x2c);
    assert(utf8(",\"pn\":"@)[0] == 0x2c);
    assert(utf8(",\"skipped_message_keys\":["@)[0] == 0x2c);
}

/// The counters and the kept keys can be told from the JSON.
proof fn lemma_state_end(left: DoubleRatchetState, right: DoubleRatchetState)
    requires
        state_end(left) == state_end(right),
    ensures
        left.ns == right.ns,
        left.nr == right.nr,
        left.pn == right.pn,
        same_entries(left.skipped_message_keys@, right.skipped_message_keys@),
{
    lemma_state_pieces();
    lemma_pieces();
    let l3 = kept_keys_json(left.skipped_message_keys@) + utf8("]}"@);
    let r3 = kept_keys_json(right.skipped_message_keys@) + utf8("]}"@);
    let piece = utf8(",\"skipped_message_keys\":["@);
    let l2 = decimal(left.pn as nat) + (piece + l3);
    let r2 = decimal(right.pn as nat) + (piece + r3);
    let l1 = decimal(left.nr as nat) + (utf8(",\"pn\":"@) + l2);
    let r1 = decimal(right.nr as nat) + (utf8(",\"pn\":"@) + r2);
    let l0 = decimal(left.ns as nat) + (utf8(",\"nr\":"@) + l1);
    let r0 = decimal(right.ns as nat) + (utf8(",\"nr\":"@) + r1);
    lemma_strip(utf8(",\"ns\":"@), l0, r0);
    law_number_form(
        left.ns as nat,
        utf8(",\"nr\":"@) + l1,
        right.ns as nat,
        utf8(",\"nr\":"@) + r1,
    );
    lemma_strip(utf8(",\"nr\":"@), l1, r1);
    law_number_form(
        left.nr as nat,
        utf8(",\"pn\":"@) + l2,
        right.nr as nat,
        utf8(",\"pn\":"@) + r2,
    );
    lemma_strip(utf8(",\"pn\":"@), l2, r2);
    law_number_form(left.pn as nat, piece + l3, right.pn as nat, piece + r3);
    lemma_strip(piece, l3, r3);
    lemma_entries(
        left.skipped_message_keys@,
        utf8("]}"@),
        right.skipped_message_keys@,
        utf8("]}"@),
    );
}

/// Two saved sessions with the same bytes are the same session.
pub proof fn law_saved_form(left: DoubleRatchetState, right: DoubleRatchetState)
    requires
        left.json() == right.json(),
    ensures
        left@ == right@,
{
    lemma_state_split(left);
    lemma_state_split(right);
    let b = utf8(",\"dhp_bytes\":"@);
    let c = utf8(",\"rk\":"@);
    let d = utf8(",\"ck_s\":"@);
    let e = utf8(",\"ck_r\":"@);
    let l4 = optional_json(left.ck_r) + state_end(left);
    let r4 = optional_json(right.ck_r) + state_end(right);
    let l3 = optional_json(left.ck_s) + (e + l4);
    let r3 = optional_json(right.ck_s) + (e + r4);
    let l2 = bytes_json(left.rk@) + (d + l3);
    let r2 = bytes_json(right.rk@) + (d + r3);
    let l1 = bytes_json(left.dhp_bytes@) + (c + l2);
    let r1 = bytes_json(right.dhp_bytes@) + (c + r2);
    let l0 = bytes_json(left.dhs_bytes@) + (b + l1);
    let r0 = bytes_json(right.dhs_bytes@) + (b + r1);
    lemma_strip(utf8("{\"dhs_bytes\":"@), l0, r0);
    law_bytes_form(left.dhs_bytes@, b + l1, right.dhs_bytes@, b + r1);
    lemma_strip(b, l1, r1);
    law_bytes_form(left.dhp_bytes@, c + l2, right.dhp_bytes@, c + r2);
    lemma_strip(c, l2, r2);
    law_bytes_form(left.rk@, d + l3, right.rk@, d + r3);
    lemma_strip(d, l3, r3);
    lemma_optional(left.ck_s, e + l4, right.ck_s, e + r4);
    lemma_strip(e, l4, r4);
    lemma_optional(left.ck_r, state_end(left), right.ck_r, state_end(right));
    lemma_state_end(left, right);
    lemma_same_keys(left.skipped_message_keys@, right.skipped_message_keys@);
}

/// A session is saved as an object with its nine members in their order; a chain
/// that is not there is null, and the kept keys are a list of places and keys, with
/// commas between them and no place twice.
pub proof fn law_session_is_saved_whole(
    state: DoubleRatchetState,
    entries: Seq<KeptKey>,
    entry: KeptKey,
    i: int,
    j: int,
)
    ensures
        state.json() == utf8("{\"dhs_bytes\":"@) + bytes_json(state.dhs_bytes@) + utf8(
            ",\"dhp_bytes\":"@,
        ) + bytes_json(state.dhp_bytes@) + utf8(",\"rk\":"@) + bytes_json(state.rk@) + utf8(
            ",\"ck_s\":"@,
        ) + (match state.ck_s {
            Some(key) => bytes_json(key@),
            None => utf8("null"@),
        }) + utf8(",\"ck_r\":"@) + (match state.ck_r {
            Some(key) => bytes_json(key@),
            None => utf8("null"@),
        }) + utf8(",\"ns\":"@) + decimal(state.ns as nat) + utf8(",\"nr\":"@) + decimal(
            state.nr as nat,
        ) + utf8(",\"pn\":"@) + decimal(state.pn as nat) + utf8(
            ",\"skipped_message_keys\":["@,
        ) + kept_keys_json(state.skipped_message_keys@) + utf8("]}"@),
        kept_keys_json(Seq::empty()) == Seq::<u8>::empty(),
        kept_key_json(entry) == utf8("[["@) + bytes_json(entry.0.0@) + utf8(","@) + decimal(
            entry.0.1 as nat,
        ) + utf8("],"@) + bytes_json(entry.1@) + utf8("]"@),
        kept_keys_json(entries.push(entry)) == (if entries.len() == 0 {
            kept_key_json(entry)
        } else {
            kept_keys_json(entries) + utf8(","@) + kept_key_json(entry)
        }),
        state.lists_once() && 0 <= i < j < state.skipped_message_keys@.len() ==> (
        state.skipped_message_keys@[i].0.0@ != state.skipped_message_keys@[j].0.0@
            || state.skipped_message_keys@[i].0.1 != state.skipped_message_keys@[j].0.1),
{
    assert(entries.push(entry).drop_last() =~= entries);
    if state.lists_once() && 0 <= i < j < state.skipped_message_keys@.len() {
        assert(place_of(state.skipped_message_keys@[i]) != place_of(
            state.skipped_message_keys@[j],
        ));
    }
}

} // verus!
