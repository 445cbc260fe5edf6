//! The JSON texts that go over the wire and into the signature.
//!
//! Strings, numbers and byte arrays are written by `serde_json`; the objects
//! around them are put together here.

use vstd::prelude::*;

use crate::bytes::{append_bytes, append_text, utf8};

verus! {

/// A hexadecimal digit in lower case.
pub open spec fn hex_digit(value: int) -> u8 {
    if value < 10 {
        (48 + value) as u8
    } else {
        (87 + value) as u8
    }
}

/// A byte of a string as JSON writes it. The quote and the backslash get a
/// backslash in front; of the control characters, backspace, tab, line feed, form
/// feed and carriage return are written `\b`, `\t`, `\n`, `\f` and `\r`, the
/// others `\u00` and two hexadecimal digits.
pub open spec fn escaped_byte(byte: u8) -> Seq<u8> {
    if byte == 0x22 || byte == 0x5c {
        seq![0x5cu8, byte]
    } else if byte == 0x08 {
        seq![0x5cu8, 0x62u8]
    } else if byte == 0x09 {
        seq![0x5cu8, 0x74u8]
    } else if byte == 0x0a {
        seq![0x5cu8, 0x6eu8]
    } else if byte == 0x0c {
        seq![0x5cu8, 0x66u8]
    } else if byte == 0x0d {
        seq![0x5cu8, 0x72u8]
    } else if byte < 0x20 {
        seq![
            0x5cu8,
            0x75u8,
            0x30u8,
            0x30u8,
            hex_digit(byte as int / 16),
            hex_digit(byte as int % 16),
        ]
    } else {
        seq![byte]
    }
}

/// The bytes of a string as JSON writes them.
pub open spec fn escaped(bytes: Seq<u8>) -> Seq<u8>
    decreases bytes.len(),
{
    if bytes.len() == 0 {
        Seq::empty()
    } else {
        escaped(bytes.drop_last()) + escaped_byte(bytes.last())
    }
}

/// The decimal digits of a number.
pub open spec fn decimal(n: nat) -> Seq<u8>
    decreases n,
{
    if n < 10 {
        seq![(48 + n) as u8]
    } else {
        decimal(n / 10).push((48 + n % 10) as u8)
    }
}

/// A string value.
pub open spec fn string_json(text: Seq<char>) -> Seq<u8> {
    seq![0x22u8] + escaped(utf8(text)) + seq![0x22u8]
}

/// The elements of an array of bytes, with commas between them.
pub open spec fn elements_json(bytes: Seq<u8>) -> Seq<u8>
    decreases bytes.len(),
{
    if bytes.len() == 0 {
        Seq::empty()
    } else if bytes.len() == 1 {
        decimal(bytes[0] as nat)
    } else {
        elements_json(bytes.drop_last()) + seq![0x2cu8] + decimal(bytes.last() as nat)
    }
}

/// An array of bytes.
pub open spec fn bytes_json(bytes: Seq<u8>) -> Seq<u8> {
    seq![0x5bu8] + elements_json(bytes) + seq![0x5du8]
}

/// `serde_json::to_vec` on a string: the string in quotes, with the quote, the
/// backslash and the control characters escaped.
#[verifier::external_body]
pub(crate) fn string_to_json(text: &str) -> (json: Vec<u8>)
    ensures
        json@ == string_json(text@),
{
    serde_json::to_vec(text).unwrap()
}

/// `serde_json::to_vec` on a 32-bit number: its decimal digits.
#[verifier::external_body]
pub(crate) fn number_to_json(n: u32) -> (json: Vec<u8>)
    ensures
        json@ == decimal(n as nat),
{
    serde_json::to_vec(&n).unwrap()
}

/// `serde_json::to_vec` on a byte slice: the numbers between square brackets,
/// with commas and no blanks.
#[verifier::external_body]
pub(crate) fn bytes_to_json(bytes: &[u8]) -> (json: Vec<u8>)
    ensures
        json@ == bytes_json(bytes@),
{
    serde_json::to_vec(bytes).unwrap()
}

/// Appends a literal piece of JSON and then a string value.
pub(crate) fn put_string(json: &mut Vec<u8>, before: &str, text: &str)
    ensures
        final(json)@ == old(json)@ + utf8(before@) + string_json(text@),
{
    append_text(json, before);
    append_bytes(json, &string_to_json(text));
}

/// Appends a literal piece of JSON and then a number.
pub(crate) fn put_number(json: &mut Vec<u8>, before: &str, n: u32)
    ensures
        final(json)@ == old(json)@ + utf8(before@) + decimal(n as nat),
{
    append_text(json, before);
    append_bytes(json, &number_to_json(n));
}

/// Appends a literal piece of JSON and then an array of bytes.
pub(crate) fn put_bytes(json: &mut Vec<u8>, before: &str, bytes: &[u8])
    ensures
        final(json)@ == old(json)@ + utf8(before@) + bytes_json(bytes@),
{
    append_text(json, before);
    append_bytes(json, &bytes_to_json(bytes));
}

} // verus!
