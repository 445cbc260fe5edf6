//! The JSON forms lose nothing: what was written can be told from the bytes. In
//! particular, a signature is over every field of an envelope.

use vstd::prelude::*;

use crate::bytes::utf8;
use crate::delivery::law_utf8_is_read_back;
use crate::json::{
    bytes_json, decimal, elements_json, escaped, escaped_byte, hex_digit, string_json,
};
use crate::protocol::{
    envelope_json, EncryptedEnvelope, HandshakeInitiator, HandshakeResponder, WireMessage,
};

verus! {

/// What follows a common beginning is the same.
pub(crate) proof fn lemma_strip(start: Seq<u8>, left: Seq<u8>, right: Seq<u8>)
    requires
        start + left == start + right,
    ensures
        left == right,
{
    assert((start + left).len() == start.len() + left.len());
    assert((start + right).len() == start.len() + right.len());
    assert forall|i: int| 0 <= i < left.len() implies left[i] == right[i] by {
        assert(left[i] == (start + left)[start.len() + i]);
        assert(right[i] == (start + right)[start.len() + i]);
    }
    assert(left =~= right);
}

/// Concatenation associates.
pub(crate) proof fn lemma_regroup(first: Seq<u8>, second: Seq<u8>, third: Seq<u8>)
    ensures
        (first + second) + third == first + (second + third),
{
    assert((first + second) + third =~= first + (second + third));
}

/// Two texts that are the same, each cut where the first byte of another kind
/// stands, are cut at the same place.
proof fn lemma_cut(
    left: Seq<u8>,
    left_rest: Seq<u8>,
    right: Seq<u8>,
    right_rest: Seq<u8>,
    kind: spec_fn(u8) -> bool,
)
    requires
        left + left_rest == right + right_rest,
        forall|i: int| 0 <= i < left.len() ==> kind(#[trigger] left[i]),
        forall|i: int| 0 <= i < right.len() ==> kind(#[trigger] right[i]),
        left_rest.len() > 0,
        right_rest.len() > 0,
        !kind(left_rest[0]),
        !kind(right_rest[0]),
    ensures
        left == right,
        left_rest == right_rest,
{
    let whole = left + left_rest;
    assert(whole[left.len() as int] == left_rest[0]);
    assert(whole[right.len() as int] == right_rest[0]);
    if left.len() < right.len() {
        assert(whole[left.len() as int] == right[left.len() as int]);
    } else if right.len() < left.len() {
        assert(whole[right.len() as int] == left[right.len() as int]);
    }
    assert(left =~= whole.take(left.len() as int));
    assert(right =~= whole.take(right.len() as int));
    assert(left_rest =~= whole.skip(left.len() as int));
    assert(right_rest =~= whole.skip(right.len() as int));
}

/// The byte is a decimal digit.
pub open spec fn is_digit(byte: u8) -> bool {
    48 <= byte <= 57
}

/// Decimal digits are digits.
proof fn lemma_decimal_digits(n: nat, i: int)
    requires
        0 <= i < decimal(n).len(),
    ensures
        is_digit(decimal(n)[i]),
    decreases n,
{
    if n >= 10 && i < decimal(n).len() - 1 {
        lemma_decimal_digits(n / 10, i);
    }
}

proof fn lemma_decimal_not_empty(n: nat)
    ensures
        decimal(n).len() > 0,
{
}

/// A number can be read off its digits.
proof fn lemma_decimal_injective(left: nat, right: nat)
    requires
        decimal(left) == decimal(right),
    ensures
        left == right,
    decreases left,
{
    let text = decimal(left);
    if left < 10 {
        if right >= 10 {
            lemma_decimal_not_empty(right / 10);
            assert(text.len() == 1);
            assert(text.len() == decimal(right / 10).len() + 1);
        } else {
            assert(text[0] == (48 + left) as u8);
            assert(text[0] == (48 + right) as u8);
        }
    } else if right < 10 {
        lemma_decimal_not_empty(left / 10);
        assert(text.len() == 1);
        assert(text.len() == decimal(left / 10).len() + 1);
    } else {
        assert(text.drop_last() =~= decimal(left / 10));
        assert(text.drop_last() =~= decimal(right / 10));
        lemma_decimal_injective(left / 10, right / 10);
        assert(text.last() == (48 + left % 10) as u8);
        assert(text.last() == (48 + right % 10) as u8);
    }
}

/// A number and what follows it, which is no digit, can be told apart.
pub proof fn law_number_form(left: nat, left_rest: Seq<u8>, right: nat, right_rest: Seq<u8>)
    requires
        decimal(left) + left_rest == decimal(right) + right_rest,
        left_rest.len() > 0,
        right_rest.len() > 0,
        !is_digit(left_rest[0]),
        !is_digit(right_rest[0]),
    ensures
        left == right,
        left_rest == right_rest,
{
    assert forall|i: int| 0 <= i < decimal(left).len() implies is_digit(
        #[trigger] decimal(left)[i],
    ) by {
        lemma_decimal_digits(left, i);
    }
    assert forall|i: int| 0 <= i < decimal(right).len() implies is_digit(
        #[trigger] decimal(right)[i],
    ) by {
        lemma_decimal_digits(right, i);
    }
    lemma_cut(
        decimal(left),
        left_rest,
        decimal(right),
        right_rest,
        |byte: u8| is_digit(byte),
    );
    lemma_decimal_injective(left, right);
}

/// Between the brackets of an array stand digits and commas.
proof fn lemma_elements_kind(bytes: Seq<u8>, i: int)
    requires
        0 <= i < elements_json(bytes).len(),
    ensures
        is_digit(elements_json(bytes)[i]) || elements_json(bytes)[i] == 0x2c,
    decreases bytes.len(),
{
    if bytes.len() == 1 {
        lemma_decimal_digits(bytes[0] as nat, i);
    } else if bytes.len() > 1 {
        let front = elements_json(bytes.drop_last());
        if i < front.len() {
            lemma_elements_kind(bytes.drop_last(), i);
        } else if i > front.len() {
            lemma_decimal_digits(bytes.last() as nat, i - front.len() - 1);
        }
    }
}

/// The last comma of a text, with digits only behind it, is in one place.
proof fn lemma_last_comma(left: Seq<u8>, left_last: Seq<u8>, right: Seq<u8>, right_last: Seq<u8>)
    requires
        left + seq![0x2cu8] + left_last == right + seq![0x2cu8] + right_last,
        forall|i: int| 0 <= i < left_last.len() ==> is_digit(#[trigger] left_last[i]),
        forall|i: int| 0 <= i < right_last.len() ==> is_digit(#[trigger] right_last[i]),
    ensures
        left == right,
        left_last == right_last,
{
    let whole = left + seq![0x2cu8] + left_last;
    assert(whole.len() == left.len() + 1 + left_last.len());
    assert(whole.len() == right.len() + 1 + right_last.len());
    assert(whole[left.len() as int] == 0x2c);
    assert(whole[right.len() as int] == 0x2c);
    if left.len() < right.len() {
        assert(whole[right.len() as int] == left_last[right.len() - left.len() - 1]);
    } else if right.len() < left.len() {
        assert(whole[left.len() as int] == right_last[left.len() - right.len() - 1]);
    }
    assert(left =~= whole.take(left.len() as int));
    assert(right =~= whole.take(right.len() as int));
    assert(left_last =~= whole.skip(left.len() as int + 1));
    assert(right_last =~= whole.skip(right.len() as int + 1));
}

/// The digits of a byte.
proof fn lemma_byte_digits(byte: u8)
    ensures
        forall|i: int|
            0 <= i < decimal(byte as nat).len() ==> is_digit(#[trigger] decimal(byte as nat)[i]),
        decimal(byte as nat).len() > 0,
{
    assert forall|i: int| 0 <= i < decimal(byte as nat).len() implies is_digit(
        #[trigger] decimal(byte as nat)[i],
    ) by {
        lemma_decimal_digits(byte as nat, i);
    }
}

/// The elements of an array of bytes can be read off its text.
proof fn lemma_elements_injective(left: Seq<u8>, right: Seq<u8>)
    requires
        elements_json(left) == elements_json(right),
    ensures
        left == right,
    decreases left.len(),
{
    let text = elements_json(left);
    if left.len() >= 1 {
        lemma_byte_digits(left[0]);
        lemma_byte_digits(left.last());
    }
    if right.len() >= 1 {
        lemma_byte_digits(right[0]);
        lemma_byte_digits(right.last());
    }
    if left.len() == 0 || right.len() == 0 {
        assert(left =~= right);
    } else if left.len() == 1 && right.len() == 1 {
        lemma_decimal_injective(left[0] as nat, right[0] as nat);
        assert(left =~= right);
    } else if left.len() == 1 {
        let comma = elements_json(right.drop_last()).len() as int;
        assert(text[comma] == 0x2c);
        assert(is_digit(decimal(left[0] as nat)[comma]));
    } else if right.len() == 1 {
        let comma = elements_json(left.drop_last()).len() as int;
        assert(text[comma] == 0x2c);
        assert(is_digit(decimal(right[0] as nat)[comma]));
    } else {
        lemma_last_comma(
            elements_json(left.drop_last()),
            decimal(left.last() as nat),
            elements_json(right.drop_last()),
            decimal(right.last() as nat),
        );
        lemma_elements_injective(left.drop_last(), right.drop_last());
        lemma_decimal_injective(left.last() as nat, right.last() as nat);
        assert(left =~= left.drop_last().push(left.last()));
        assert(right =~= right.drop_last().push(right.last()));
    }
}

/// An array of bytes and what follows it can be told apart.
pub proof fn law_bytes_form(
    left: Seq<u8>,
    left_rest: Seq<u8>,
    right: Seq<u8>,
    right_rest: Seq<u8>,
)
    requires
        bytes_json(left) + left_rest == bytes_json(right) + right_rest,
    ensures
        left == right,
        left_rest == right_rest,
{
    let open = seq![0x5bu8];
    let close = seq![0x5du8];
    let a = elements_json(left);
    let b = elements_json(right);
    assert(bytes_json(left) + left_rest =~= open + (a + (close + left_rest)));
    assert(bytes_json(right) + right_rest =~= open + (b + (close + right_rest)));
    lemma_strip(open, a + (close + left_rest), b + (close + right_rest));
    assert forall|i: int| 0 <= i < a.len() implies #[trigger] a[i] != 0x5d by {
        lemma_elements_kind(left, i);
    }
    assert forall|i: int| 0 <= i < b.len() implies #[trigger] b[i] != 0x5d by {
        lemma_elements_kind(right, i);
    }
    lemma_cut(a, close + left_rest, b, close + right_rest, |byte: u8| byte != 0x5d);
    lemma_elements_injective(left, right);
    lemma_strip(close, left_rest, right_rest);
}

/// An escaped text starts with its first byte, escaped.
proof fn lemma_escaped_front(bytes: Seq<u8>)
    requires
        bytes.len() > 0,
    ensures
        escaped(bytes) == escaped_byte(bytes[0]) + escaped(bytes.drop_first()),
    decreases bytes.len(),
{
    let front = bytes.drop_last();
    if bytes.len() == 1 {
        assert(escaped(front) =~= Seq::<u8>::empty());
        assert(escaped(bytes.drop_first()) =~= Seq::<u8>::empty());
        assert(escaped(bytes) =~= escaped_byte(bytes[0]) + escaped(bytes.drop_first()));
    } else {
        lemma_escaped_front(front);
        assert(front.drop_first() =~= bytes.drop_first().drop_last());
        assert(bytes.drop_first().last() == bytes.last());
        assert(escaped(bytes) =~= escaped_byte(bytes[0]) + (escaped(front.drop_first())
            + escaped_byte(bytes.last())));
    }
}

/// A hexadecimal digit has one value.
proof fn lemma_hex_digit_injective(left: int, right: int)
    requires
        0 <= left < 16,
        0 <= right < 16,
        hex_digit(left) == hex_digit(right),
    ensures
        left == right,
{
}

/// An escaped byte and what follows it can be told apart.
proof fn lemma_escaped_byte(left: u8, left_rest: Seq<u8>, right: u8, right_rest: Seq<u8>)
    requires
        escaped_byte(left) + left_rest == escaped_byte(right) + right_rest,
    ensures
        left == right,
        left_rest == right_rest,
{
    let whole = escaped_byte(left) + left_rest;
    assert(whole[0] == escaped_byte(left)[0]);
    assert(whole[0] == escaped_byte(right)[0]);
    if whole[0] == 0x5c {
        assert(whole[1] == escaped_byte(left)[1]);
        assert(whole[1] == escaped_byte(right)[1]);
        if whole[1] == 0x75 {
            assert(whole[4] == escaped_byte(left)[4]);
            assert(whole[4] == escaped_byte(right)[4]);
            assert(whole[5] == escaped_byte(left)[5]);
            assert(whole[5] == escaped_byte(right)[5]);
            lemma_hex_digit_injective(left as int / 16, right as int / 16);
            lemma_hex_digit_injective(left as int % 16, right as int % 16);
            assert(left as int == 16 * (left as int / 16) + left as int % 16);
            assert(right as int == 16 * (right as int / 16) + right as int % 16);
        }
    }
    assert(left == right);
    lemma_strip(escaped_byte(left), left_rest, right_rest);
}

/// The text in quotes and what follows it can be told apart.
proof fn lemma_escaped(left: Seq<u8>, left_rest: Seq<u8>, right: Seq<u8>, right_rest: Seq<u8>)
    requires
        escaped(left) + (seq![0x22u8] + left_rest) == escaped(right) + (seq![0x22u8] + right_rest),
    ensures
        left == right,
        left_rest == right_rest,
    decreases left.len(),
{
    let quote = seq![0x22u8];
    let whole = escaped(left) + (quote + left_rest);
    if left.len() > 0 {
        lemma_escaped_front(left);
        assert(whole =~= escaped_byte(left[0]) + (escaped(left.drop_first()) + (quote
            + left_rest)));
        assert(whole[0] == escaped_byte(left[0])[0]);
    } else {
        assert(whole =~= quote + left_rest);
        assert(whole[0] == 0x22);
    }
    if right.len() > 0 {
        lemma_escaped_front(right);
        assert(whole =~= escaped_byte(right[0]) + (escaped(right.drop_first()) + (quote
            + right_rest)));
        assert(whole[0] == escaped_byte(right[0])[0]);
    } else {
        assert(whole =~= quote + right_rest);
        assert(whole[0] == 0x22);
    }
    if left.len() > 0 && right.len() > 0 {
        lemma_escaped_byte(
            left[0],
            escaped(left.drop_first()) + (quote + left_rest),
            right[0],
            escaped(right.drop_first()) + (quote + right_rest),
        );
        lemma_escaped(left.drop_first(), left_rest, right.drop_first(), right_rest);
        assert(left =~= seq![left[0]] + left.drop_first());
        assert(right =~= seq![right[0]] + right.drop_first());
    } else {
        assert(left =~= right);
        lemma_strip(quote, left_rest, right_rest);
    }
}

/// A string value and what follows it can be told apart.
pub proof fn law_string_form(
    left: Seq<char>,
    left_rest: Seq<u8>,
    right: Seq<char>,
    right_rest: Seq<u8>,
)
    requires
        string_json(left) + left_rest == string_json(right) + right_rest,
    ensures
        left == right,
        left_rest == right_rest,
{
    let quote = seq![0x22u8];
    let a = escaped(utf8(left));
    let b = escaped(utf8(right));
    assert(string_json(left) + left_rest =~= quote + (a + (quote + left_rest)));
    assert(string_json(right) + right_rest =~= quote + (b + (quote + right_rest)));
    lemma_strip(quote, a + (quote + left_rest), b + (quote + right_rest));
    lemma_escaped(utf8(left), left_rest, utf8(right), right_rest);
    law_utf8_is_read_back(left, right);
}

/// A piece of JSON that starts with a comma does not start with a digit.
proof fn lemma_starts_with_comma(piece: Seq<char>, rest: Seq<u8>)
    requires
        piece.len() > 0,
        piece[0] == ',',
        vstd::utf8::is_ascii_chars(piece),
    ensures
        (utf8(piece) + rest).len() > 0,
        !is_digit((utf8(piece) + rest)[0]),
{
    vstd::utf8::is_ascii_chars_encode_utf8(piece);
    assert(utf8(piece)[0] == piece[0] as u8);
    assert((utf8(piece) + rest)[0] == utf8(piece)[0]);
}

/// The pieces that follow the numbers of an envelope start with a comma.
proof fn lemma_pieces_after_numbers()
    ensures
        forall|rest: Seq<u8>|
            (#[trigger] (utf8(",\"pn\":"@) + rest)).len() > 0 && !is_digit(
                (utf8(",\"pn\":"@) + rest)[0],
            ),
        forall|rest: Seq<u8>|
            (#[trigger] (utf8(",\"ciphertext\":"@) + rest)).len() > 0 && !is_digit(
                (utf8(",\"ciphertext\":"@) + rest)[0],
            ),
{
    reveal_strlit(",\"pn\":");
    reveal_strlit(",\"ciphertext\":");
    assert forall|rest: Seq<u8>|
        (#[trigger] (utf8(",\"pn\":"@) + rest)).len() > 0 && !is_digit(
            (utf8(",\"pn\":"@) + rest)[0],
        ) by {
        lemma_starts_with_comma(",\"pn\":"@, rest);
    }
    assert forall|rest: Seq<u8>|
        (#[trigger] (utf8(",\"ciphertext\":"@) + rest)).len() > 0 && !is_digit(
            (utf8(",\"ciphertext\":"@) + rest)[0],
        ) by {
        lemma_starts_with_comma(",\"ciphertext\":"@, rest);
    }
}

/// The JSON of an envelope from its ciphertext on.
spec fn envelope_end(ciphertext: Seq<u8>, nonce: Seq<u8>, signature: Seq<u8>, rest: Seq<u8>) -> Seq<
    u8,
> {
    utf8(",\"ciphertext\":"@) + (bytes_json(ciphertext) + (utf8(",\"nonce\":"@) + (bytes_json(nonce)
        + (utf8(",\"signature\":"@) + (bytes_json(signature) + (utf8("}"@) + rest))))))
}

proof fn lemma_envelope_end(
    left_ciphertext: Seq<u8>,
    left_nonce: Seq<u8>,
    left_signature: Seq<u8>,
    left_rest: Seq<u8>,
    right_ciphertext: Seq<u8>,
    right_nonce: Seq<u8>,
    right_signature: Seq<u8>,
    right_rest: Seq<u8>,
)
    requires
        envelope_end(left_ciphertext, left_nonce, left_signature, left_rest) == envelope_end(
            right_ciphertext,
            right_nonce,
            right_signature,
            right_rest,
        ),
    ensures
        left_ciphertext == right_ciphertext,
        left_nonce == right_nonce,
        left_signature == right_signature,
        left_rest == right_rest,
{
    let l3 = utf8("}"@) + left_rest;
    let r3 = utf8("}"@) + right_rest;
    let l2 = bytes_json(left_signature) + l3;
    let r2 = bytes_json(right_signature) + r3;
    let l1 = bytes_json(left_nonce) + (utf8(",\"signature\":"@) + l2);
    let r1 = bytes_json(right_nonce) + (utf8(",\"signature\":"@) + r2);
    let l0 = bytes_json(left_ciphertext) + (utf8(",\"nonce\":"@) + l1);
    let r0 = bytes_json(right_ciphertext) + (utf8(",\"nonce\":"@) + r1);
    lemma_strip(utf8(",\"ciphertext\":"@), l0, r0);
    law_bytes_form(
        left_ciphertext,
        utf8(",\"nonce\":"@) + l1,
        right_ciphertext,
        utf8(",\"nonce\":"@) + r1,
    );
    lemma_strip(utf8(",\"nonce\":"@), l1, r1);
    law_bytes_form(
        left_nonce,
        utf8(",\"signature\":"@) + l2,
        right_nonce,
        utf8(",\"signature\":"@) + r2,
    );
    lemma_strip(utf8(",\"signature\":"@), l2, r2);
    law_bytes_form(left_signature, l3, right_signature, r3);
    lemma_strip(utf8("}"@), left_rest, right_rest);
}

/// The JSON of an envelope up to its ciphertext, and then the rest.
proof fn lemma_envelope_split(
    message_id: Seq<char>,
    peer_dh_pub: Seq<u8>,
    n: nat,
    pn: nat,
    ciphertext: Seq<u8>,
    nonce: Seq<u8>,
    signature: Seq<u8>,
    rest: Seq<u8>,
)
    ensures
        envelope_json(message_id, peer_dh_pub, n, pn, ciphertext, nonce, signature) + rest == utf8(
            "{\"message_id\":"@,
        ) + (string_json(message_id) + (utf8(",\"peer_dh_pub\":"@) + (bytes_json(peer_dh_pub) + (utf8(
            ",\"n\":"@,
        ) + (decimal(n) + (utf8(",\"pn\":"@) + (decimal(pn) + envelope_end(
            ciphertext,
            nonce,
            signature,
            rest,
        )))))))),
{
    let a = utf8("{\"message_id\":"@);
    let b = string_json(message_id);
    let c = utf8(",\"peer_dh_pub\":"@);
    let d = bytes_json(peer_dh_pub);
    let e = utf8(",\"n\":"@);
    let f = decimal(n);
    let g = utf8(",\"pn\":"@);
    let h = decimal(pn);
    let i = utf8(",\"ciphertext\":"@);
    let j = bytes_json(ciphertext);
    let k = utf8(",\"nonce\":"@);
    let l = bytes_json(nonce);
    let m = utf8(",\"signature\":"@);
    let o = bytes_json(signature);
    let p = utf8("}"@);
    let s14 = p + rest;
    lemma_regroup(a + b + c + d + e + f + g + h + i + j + k + l + m + o, p, rest);
    let s13 = o + s14;
    lemma_regroup(a + b + c + d + e + f + g + h + i + j + k + l + m, o, s14);
    let s12 = m + s13;
    lemma_regroup(a + b + c + d + e + f + g + h + i + j + k + l, m, s13);
    let s11 = l + s12;
    lemma_regroup(a + b + c + d + e + f + g + h + i + j + k, l, s12);
    let s10 = k + s11;
    lemma_regroup(a + b + c + d + e + f + g + h + i + j, k, s11);
    let s9 = j + s10;
    lemma_regroup(a + b + c + d + e + f + g + h + i, j, s10);
    let s8 = i + s9;
    lemma_regroup(a + b + c + d + e + f + g + h, i, s9);
    let s7 = h + s8;
    lemma_regroup(a + b + c + d + e + f + g, h, s8);
    let s6 = g + s7;
    lemma_regroup(a + b + c + d + e + f, g, s7);
    let s5 = f + s6;
    lemma_regroup(a + b + c + d + e, f, s6);
    let s4 = e + s5;
    lemma_regroup(a + b + c + d, e, s5);
    let s3 = d + s4;
    lemma_regroup(a + b + c, d, s4);
    let s2 = c + s3;
    lemma_regroup(a + b, c, s3);
    let s1 = b + s2;
    lemma_regroup(a, b, s2);
}

/// An envelope and what follows it can be told from the JSON, field by field.
pub proof fn law_envelope_form(
    left: EncryptedEnvelope,
    left_signature: Seq<u8>,
    left_rest: Seq<u8>,
    right: EncryptedEnvelope,
    right_signature: Seq<u8>,
    right_rest: Seq<u8>,
)
    requires
        envelope_json(
            left.message_id@,
            left.peer_dh_pub@,
            left.n as nat,
            left.pn as nat,
            left.ciphertext@,
            left.nonce@,
            left_signature,
        ) + left_rest == envelope_json(
            right.message_id@,
            right.peer_dh_pub@,
            right.n as nat,
            right.pn as nat,
            right.ciphertext@,
            right.nonce@,
            right_signature,
        ) + right_rest,
    ensures
        left.message_id@ == right.message_id@,
        left.peer_dh_pub@ == right.peer_dh_pub@,
        left.n == right.n,
        left.pn == right.pn,
        left.ciphertext@ == right.ciphertext@,
        left.nonce@ == right.nonce@,
        left_signature == right_signature,
        left_rest == right_rest,
{
    lemma_envelope_split(
        left.message_id@,
        left.peer_dh_pub@,
        left.n as nat,
        left.pn as nat,
        left.ciphertext@,
        left.nonce@,
        left_signature,
        left_rest,
    );
    lemma_envelope_split(
        right.message_id@,
        right.peer_dh_pub@,
        right.n as nat,
        right.pn as nat,
        right.ciphertext@,
        right.nonce@,
        right_signature,
        right_rest,
    );
    lemma_pieces_after_numbers();
    let l4 = envelope_end(left.ciphertext@, left.nonce@, left_signature, left_rest);
    let r4 = envelope_end(right.ciphertext@, right.nonce@, right_signature, right_rest);
    let l3 = decimal(left.pn as nat) + l4;
    let r3 = decimal(right.pn as nat) + r4;
    let l2 = decimal(left.n as nat) + (utf8(",\"pn\":"@) + l3);
    let r2 = decimal(right.n as nat) + (utf8(",\"pn\":"@) + r3);
    let l1 = bytes_json(left.peer_dh_pub@) + (utf8(",\"n\":"@) + l2);
    let r1 = bytes_json(right.peer_dh_pub@) + (utf8(",\"n\":"@) + r2);
    let l0 = string_json(left.message_id@) + (utf8(",\"peer_dh_pub\":"@) + l1);
    let r0 = string_json(right.message_id@) + (utf8(",\"peer_dh_pub\":"@) + r1);
    lemma_strip(utf8("{\"message_id\":"@), l0, r0);
    law_string_form(
        left.message_id@,
        utf8(",\"peer_dh_pub\":"@) + l1,
        right.message_id@,
        utf8(",\"peer_dh_pub\":"@) + r1,
    );
    lemma_strip(utf8(",\"peer_dh_pub\":"@), l1, r1);
    law_bytes_form(
        left.peer_dh_pub@,
        utf8(",\"n\":"@) + l2,
        right.peer_dh_pub@,
        utf8(",\"n\":"@) + r2,
    );
    lemma_strip(utf8(",\"n\":"@), l2, r2);
    law_number_form(
        left.n as nat,
        utf8(",\"pn\":"@) + l3,
        right.n as nat,
        utf8(",\"pn\":"@) + r3,
    );
    lemma_strip(utf8(",\"pn\":"@), l3, r3);
    law_number_form(left.pn as nat, l4, right.pn as nat, r4);
    lemma_envelope_end(
        left.ciphertext@,
        left.nonce@,
        left_signature,
        left_rest,
        right.ciphertext@,
        right.nonce@,
        right_signature,
        right_rest,
    );
}

/// A signature is over every field: two envelopes with the same signed bytes are
/// the same but for their signatures.
pub proof fn law_signature_covers_every_field(left: EncryptedEnvelope, right: EncryptedEnvelope)
    requires
        left.signed_bytes() == right.signed_bytes(),
    ensures
        left.message_id@ == right.message_id@,
        left.peer_dh_pub@ == right.peer_dh_pub@,
        left.n == right.n,
        left.pn == right.pn,
        left.ciphertext@ == right.ciphertext@,
        left.nonce@ == right.nonce@,
{
    let none = Seq::<u8>::empty();
    law_envelope_form(left, none, none, right, none, none);
}

/// The bytes that go over the wire tell every field of a chat message.
pub proof fn law_chat_form(left: EncryptedEnvelope, right: EncryptedEnvelope)
    requires
        WireMessage::Chat(left).json() == WireMessage::Chat(right).json(),
    ensures
        left.message_id@ == right.message_id@,
        left.peer_dh_pub@ == right.peer_dh_pub@,
        left.n == right.n,
        left.pn == right.pn,
        left.ciphertext@ == right.ciphertext@,
        left.nonce@ == right.nonce@,
        left.signature@ == right.signature@,
{
    let start = utf8("{\"Chat\":"@);
    let end = utf8("}"@);
    assert(WireMessage::Chat(left).json() =~= start + (left.json() + end));
    assert(WireMessage::Chat(right).json() =~= start + (right.json() + end));
    lemma_strip(start, left.json() + end, right.json() + end);
    law_envelope_form(left, left.signature@, end, right, right.signature@, end);
}

/// The JSON of the first message of a handshake, piece by piece.
proof fn lemma_initiator_split(message: HandshakeInitiator)
    ensures
        WireMessage::Initiator(message).json() == utf8("{\"Initiator\":"@) + (utf8(
            "{\"sender_identity\":"@,
        ) + (bytes_json(message.sender_identity@) + (utf8(",\"sender_dh\":"@) + (bytes_json(
            message.sender_dh@,
        ) + (utf8(",\"ephemeral_key\":"@) + (bytes_json(message.ephemeral_key@) + (utf8(
            ",\"signature\":"@,
        ) + (bytes_json(message.signature@) + (utf8("}"@) + utf8("}"@)))))))))),
{
    let start = utf8("{\"Initiator\":"@);
    let a = utf8("{\"sender_identity\":"@);
    let b = bytes_json(message.sender_identity@);
    let c = utf8(",\"sender_dh\":"@);
    let d = bytes_json(message.sender_dh@);
    let e = utf8(",\"ephemeral_key\":"@);
    let f = bytes_json(message.ephemeral_key@);
    let g = utf8(",\"signature\":"@);
    let h = bytes_json(message.signature@);
    let i = utf8("}"@);
    lemma_regroup(start, message.json(), i);
    let s8 = i + i;
    lemma_regroup(a + b + c + d + e + f + g + h, i, i);
    let s7 = h + s8;
    lemma_regroup(a + b + c + d + e + f + g, h, s8);
    let s6 = g + s7;
    lemma_regroup(a + b + c + d + e + f, g, s7);
    let s5 = f + s6;
    lemma_regroup(a + b + c + d + e, f, s6);
    let s4 = e + s5;
    lemma_regroup(a + b + c + d, e, s5);
    let s3 = d + s4;
    lemma_regroup(a + b + c, d, s4);
    let s2 = c + s3;
    lemma_regroup(a + b, c, s3);
    let s1 = b + s2;
    lemma_regroup(a, b, s2);
}

/// The bytes that go over the wire tell every field of the first message of a
/// handshake.
pub proof fn law_initiator_form(left: HandshakeInitiator, right: HandshakeInitiator)
    requires
        WireMessage::Initiator(left).json() == WireMessage::Initiator(right).json(),
    ensures
        left.sender_identity@ == right.sender_identity@,
        left.sender_dh@ == right.sender_dh@,
        left.ephemeral_key@ == right.ephemeral_key@,
        left.signature@ == right.signature@,
{
    let a = utf8("{\"Initiator\":"@);
    let b = utf8("{\"sender_identity\":"@);
    let c = utf8(",\"sender_dh\":"@);
    let d = utf8(",\"ephemeral_key\":"@);
    let e = utf8(",\"signature\":"@);
    let end = utf8("}"@) + utf8("}"@);
    let l3 = bytes_json(left.signature@) + end;
    let r3 = bytes_json(right.signature@) + end;
    let l2 = bytes_json(left.ephemeral_key@) + (e + l3);
    let r2 = bytes_json(right.ephemeral_key@) + (e + r3);
    let l1 = bytes_json(left.sender_dh@) + (d + l2);
    let r1 = bytes_json(right.sender_dh@) + (d + r2);
    let l0 = bytes_json(left.sender_identity@) + (c + l1);
    let r0 = bytes_json(right.sender_identity@) + (c + r1);
    lemma_initiator_split(left);
    lemma_initiator_split(right);
    lemma_strip(a, b + l0, b + r0);
    lemma_strip(b, l0, r0);
    law_bytes_form(left.sender_identity@, c + l1, right.sender_identity@, c + r1);
    lemma_strip(c, l1, r1);
    law_bytes_form(left.sender_dh@, d + l2, right.sender_dh@, d + r2);
    lemma_strip(d, l2, r2);
    law_bytes_form(left.ephemeral_key@, e + l3, right.ephemeral_key@, e + r3);
    lemma_strip(e, l3, r3);
    law_bytes_form(left.signature@, end, right.signature@, end);
}

/// The JSON of the answer to a handshake, piece by piece.
proof fn lemma_responder_split(message: HandshakeResponder)
    ensures
        WireMessage::Responder(message).json() == utf8("{\"Responder\":"@) + (utf8(
            "{\"ephemeral_key\":"@,
        ) + (bytes_json(message.ephemeral_key@) + (utf8(",\"signature\":"@) + (bytes_json(
            message.signature@,
        ) + (utf8("}"@) + utf8("}"@)))))),
{
    let start = utf8("{\"Responder\":"@);
    let a = utf8("{\"ephemeral_key\":"@);
    let b = bytes_json(message.ephemeral_key@);
    let c = utf8(",\"signature\":"@);
    let d = bytes_json(message.signature@);
    let e = utf8("}"@);
    lemma_regroup(start, message.json(), e);
    let s4 = e + e;
    lemma_regroup(a + b + c + d, e, e);
    let s3 = d + s4;
    lemma_regroup(a + b + c, d, s4);
    let s2 = c + s3;
    lemma_regroup(a + b, c, s3);
    let s1 = b + s2;
    lemma_regroup(a, b, s2);
}

/// The bytes that go over the wire tell every field of the answer to a handshake.
pub proof fn law_responder_form(left: HandshakeResponder, right: HandshakeResponder)
    requires
        WireMessage::Responder(left).json() == WireMessage::Responder(right).json(),
    ensures
        left.ephemeral_key@ == right.ephemeral_key@,
        left.signature@ == right.signature@,
{
    let a = utf8("{\"Responder\":"@);
    let b = utf8("{\"ephemeral_key\":"@);
    let c = utf8(",\"signature\":"@);
    let end = utf8("}"@) + utf8("}"@);
    let l1 = bytes_json(left.signature@) + end;
    let r1 = bytes_json(right.signature@) + end;
    let l0 = bytes_json(left.ephemeral_key@) + (c + l1);
    let r0 = bytes_json(right.ephemeral_key@) + (c + r1);
    lemma_responder_split(left);
    lemma_responder_split(right);
    lemma_strip(a, b + l0, b + r0);
    lemma_strip(b, l0, r0);
    law_bytes_form(left.ephemeral_key@, c + l1, right.ephemeral_key@, c + r1);
    lemma_strip(c, l1, r1);
    law_bytes_form(left.signature@, end, right.signature@, end);
}

/// The kinds of messages can be told apart on the wire.
pub proof fn law_kinds_differ_on_the_wire(left: WireMessage, right: WireMessage)
    requires
        left.json() == right.json(),
    ensures
        left is Initiator <==> right is Initiator,
        left is Responder <==> right is Responder,
        left is Chat <==> right is Chat,
{
    lemma_third_byte(left);
    lemma_third_byte(right);
}

/// The third byte of a message is the initial of its kind.
proof fn lemma_third_byte(message: WireMessage)
    ensures
        message.json().len() > 2,
        message.json()[2] == (match message {
            WireMessage::Initiator(_) => 0x49u8,
            WireMessage::Responder(_) => 0x52u8,
            WireMessage::Chat(_) => 0x43u8,
        }),
{
    reveal_strlit("{\"Initiator\":");
    reveal_strlit("{\"Responder\":");
    reveal_strlit("{\"Chat\":");
    vstd::utf8::is_ascii_chars_encode_utf8("{\"Initiator\":"@);
    vstd::utf8::is_ascii_chars_encode_utf8("{\"Responder\":"@);
    vstd::utf8::is_ascii_chars_encode_utf8("{\"Chat\":"@);
    assert("{\"Initiator\":"@[2] == 'I');
    assert("{\"Responder\":"@[2] == 'R');
    assert("{\"Chat\":"@[2] == 'C');
    assert(utf8("{\"Initiator\":"@)[2] == 0x49);
    assert(utf8("{\"Responder\":"@)[2] == 0x52);
    assert(utf8("{\"Chat\":"@)[2] == 0x43);
}

/// A message of the handshake is written as an object with its members in their
/// order, under the name of its kind.
pub proof fn law_handshake_is_written_whole(init: HandshakeInitiator, answer: HandshakeResponder)
    ensures
        WireMessage::Initiator(init).json() == utf8("{\"Initiator\":"@) + (utf8(
            "{\"sender_identity\":"@,
        ) + bytes_json(init.sender_identity@) + utf8(",\"sender_dh\":"@) + bytes_json(
            init.sender_dh@,
        ) + utf8(",\"ephemeral_key\":"@) + bytes_json(init.ephemeral_key@) + utf8(
            ",\"signature\":"@,
        ) + bytes_json(init.signature@) + utf8("}"@)) + utf8("}"@),
        WireMessage::Responder(answer).json() == utf8("{\"Responder\":"@) + (utf8(
            "{\"ephemeral_key\":"@,
        ) + bytes_json(answer.ephemeral_key@) + utf8(",\"signature\":"@) + bytes_json(
            answer.signature@,
        ) + utf8("}"@)) + utf8("}"@),
{
}

} // verus!
