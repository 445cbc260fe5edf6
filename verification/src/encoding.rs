//! Text encodings: hexadecimal, Base32, and the little of Unicode that tokens and
//! messages need.

use vstd::prelude::*;

use crate::bytes::utf8;

verus! {

/// A lower-case hexadecimal digit.
pub open spec fn hex_char(value: int) -> char {
    if value < 10 {
        (48 + value) as char
    } else {
        (87 + value) as char
    }
}

/// The value of a hexadecimal digit of either case.
pub open spec fn hex_value(c: char) -> Option<int> {
    if '0' <= c <= '9' {
        Some(c as int - 48)
    } else if 'a' <= c <= 'f' {
        Some(c as int - 87)
    } else if 'A' <= c <= 'F' {
        Some(c as int - 55)
    } else {
        None
    }
}

/// The lower-case hexadecimal text of a byte string.
pub open spec fn hex_text(bytes: Seq<u8>) -> Seq<char> {
    Seq::new(
        2 * bytes.len(),
        |i: int|
            hex_char(
                if i % 2 == 0 {
                    bytes[i / 2] as int / 16
                } else {
                    bytes[i / 2] as int % 16
                },
            ),
    )
}

/// The text is the hexadecimal form of the bytes, in either case.
pub open spec fn is_hex_of(text: Seq<char>, bytes: Seq<u8>) -> bool {
    &&& text.len() == 2 * bytes.len()
    &&& forall|i: int|
        0 <= i < bytes.len() ==> {
            &&& hex_value(text[2 * i]) == Some(#[trigger] bytes[i] as int / 16)
            &&& hex_value(text[2 * i + 1]) == Some(bytes[i] as int % 16)
        }
}

/// Bit `j` of a byte, the most significant one first.
pub open spec fn bit_of(byte: int, j: int) -> int {
    if j == 0 {
        byte / 128
    } else if j == 1 {
        byte / 64 % 2
    } else if j == 2 {
        byte / 32 % 2
    } else if j == 3 {
        byte / 16 % 2
    } else if j == 4 {
        byte / 8 % 2
    } else if j == 5 {
        byte / 4 % 2
    } else if j == 6 {
        byte / 2 % 2
    } else {
        byte % 2
    }
}

/// Bit `k` of a byte string; zero behind the end.
#[verifier::opaque]
pub open spec fn bit(bytes: Seq<u8>, k: int) -> int {
    if 0 <= k < 8 * bytes.len() {
        bit_of(bytes[k / 8] as int, k % 8)
    } else {
        0
    }
}

/// The value of five bits from bit `k` on.
pub open spec fn quintet(bytes: Seq<u8>, k: int) -> int {
    16 * bit(bytes, k) + 8 * bit(bytes, k + 1) + 4 * bit(bytes, k + 2) + 2 * bit(bytes, k + 3)
        + bit(bytes, k + 4)
}

/// The Base32 symbol of a five-bit value: the letters, then the digits from 2.
pub open spec fn base32_symbol(value: int) -> char {
    if value < 26 {
        (65 + value) as char
    } else {
        (24 + value) as char
    }
}

/// The Base32 text of a byte string, without padding.
pub open spec fn base32_text(bytes: Seq<u8>) -> Seq<char> {
    Seq::new(
        ((8 * bytes.len() + 4) / 5) as nat,
        |i: int| base32_symbol(quintet(bytes, 5 * i)),
    )
}

/// White space: the characters that trimming takes off.
pub open spec fn is_white_space(c: char) -> bool {
    ||| '\u{9}' <= c <= '\u{d}'
    ||| c == ' '
    ||| c == '\u{85}'
    ||| c == '\u{a0}'
    ||| c == '\u{1680}'
    ||| '\u{2000}' <= c <= '\u{200a}'
    ||| c == '\u{2028}'
    ||| c == '\u{2029}'
    ||| c == '\u{202f}'
    ||| c == '\u{205f}'
    ||| c == '\u{3000}'
}

/// A text without the white space at its start.
pub open spec fn trimmed_start(text: Seq<char>) -> Seq<char>
    decreases text.len(),
{
    if text.len() > 0 && is_white_space(text[0]) {
        trimmed_start(text.drop_first())
    } else {
        text
    }
}

/// A text without the white space at its end.
pub open spec fn trimmed_end(text: Seq<char>) -> Seq<char>
    decreases text.len(),
{
    if text.len() > 0 && is_white_space(text.last()) {
        trimmed_end(text.drop_last())
    } else {
        text
    }
}

/// A text without the white space at both ends.
pub open spec fn trimmed(text: Seq<char>) -> Seq<char> {
    trimmed_end(trimmed_start(text))
}

/// An ASCII character in upper case.
pub open spec fn ascii_upper(c: char) -> char {
    if 'a' <= c <= 'z' {
        (c as int - 32) as char
    } else {
        c
    }
}

/// A text in upper case, as Unicode has it.
pub uninterp spec fn uppercase(text: Seq<char>) -> Seq<char>;

/// The text of a byte string, with what is not UTF-8 replaced.
pub uninterp spec fn lossy_text(bytes: Seq<u8>) -> Seq<char>;

/// The error of `hex`.
#[verifier::external_type_specification]
#[verifier::external_body]
pub struct ExFromHexError(hex::FromHexError);

/// The error of `data_encoding`.
#[verifier::external_type_specification]
#[verifier::external_body]
pub struct ExDecodeError(data_encoding::DecodeError);

/// `hex::encode`: two lower-case digits for each byte.
#[verifier::external_body]
pub(crate) fn hex_encode(bytes: &[u8]) -> (text: String)
    ensures
        text@ == hex_text(bytes@),
{
    hex::encode(bytes)
}

/// `hex::decode`: it takes exactly the texts that are two digits, of either case,
/// for each byte.
#[verifier::external_body]
pub(crate) fn hex_decode(text: &str) -> (decoded: Result<Vec<u8>, hex::FromHexError>)
    ensures
        match decoded {
            Ok(bytes) => is_hex_of(text@, bytes@),
            Err(_) => forall|bytes: Seq<u8>| !is_hex_of(text@, bytes),
        },
{
    hex::decode(text)
}

/// `data_encoding::BASE32_NOPAD.encode`: five bits for each symbol, the last one
/// filled up with zeros. It panics on more than `usize::MAX / 512` bytes.
#[verifier::external_body]
pub(crate) fn base32_encode(bytes: &[u8]) -> (text: String)
    requires
        bytes@.len() <= usize::MAX / 512,
    ensures
        text@ == base32_text(bytes@),
{
    data_encoding::BASE32_NOPAD.encode(bytes)
}

/// `data_encoding::BASE32_NOPAD.decode`: it takes exactly the texts that encoding
/// gives; wrong symbols, impossible lengths and stray trailing bits are refused.
/// It panics on more than `usize::MAX / 8` bytes.
#[verifier::external_body]
pub(crate) fn base32_decode(text: &str) -> (decoded: Result<Vec<u8>, data_encoding::DecodeError>)
    requires
        utf8(text@).len() <= usize::MAX / 8,
    ensures
        match decoded {
            Ok(bytes) => text@ == base32_text(bytes@),
            Err(_) => forall|bytes: Seq<u8>| text@ != #[trigger] base32_text(bytes),
        },
{
    data_encoding::BASE32_NOPAD.decode(text.as_bytes())
}

/// `str::trim`: the text without the white space at both ends.
#[verifier::external_body]
pub(crate) fn trim(text: &str) -> (cleaned: &str)
    ensures
        cleaned@ == trimmed(text@),
{
    text.trim()
}

/// `str::to_uppercase`. Of a text in ASCII it changes the letters only, each into
/// the upper-case one; beyond ASCII nothing more is said than that the result
/// depends on the text alone.
#[verifier::external_body]
pub(crate) fn to_uppercase(text: &str) -> (upper: String)
    ensures
        upper@ == uppercase(text@),
        (forall|i: int| 0 <= i < text@.len() ==> (#[trigger] text@[i] as int) < 128) ==> upper@
            == text@.map_values(|c: char| ascii_upper(c)),
{
    text.to_uppercase()
}

/// `String::from_utf8_lossy`. Bytes that are UTF-8 give the text that they encode;
/// of others nothing more is said than that the result depends on the bytes
/// alone.
#[verifier::external_body]
pub(crate) fn from_utf8_lossy(bytes: &[u8]) -> (text: String)
    ensures
        text@ == lossy_text(bytes@),
        vstd::utf8::valid_utf8(bytes@) ==> utf8(text@) == bytes@,
{
    String::from_utf8_lossy(bytes).into_owned()
}

/// The text is a random UUID: five groups of lower-case hexadecimal digits, with
/// the version and the variant in their places.
pub open spec fn is_uuid(text: Seq<char>) -> bool {
    &&& text.len() == 36
    &&& forall|i: int|
        0 <= i < 36 ==> if i == 8 || i == 13 || i == 18 || i == 23 {
            #[trigger] text[i] == '-'
        } else {
            '0' <= text[i] <= '9' || 'a' <= text[i] <= 'f'
        }
    &&& text[14] == '4'
    &&& text[19] == '8' || text[19] == '9' || text[19] == 'a' || text[19] == 'b'
}

/// `uuid::Uuid::new_v4` as text. Nothing is claimed of the random digits.
#[verifier::external_body]
pub(crate) fn random_uuid() -> (text: String)
    ensures
        is_uuid(text@),
{
    uuid::Uuid::new_v4().to_string()
}

/// `String::push`: the character at the end of the text.
pub assume_specification[ String::push ](text: &mut String, c: char)
    ensures
        final(text)@ == old(text)@.push(c),
;

/// A digit has the value that it was written for.
proof fn lemma_hex_digit(value: int)
    requires
        0 <= value < 16,
    ensures
        hex_value(hex_char(value)) == Some(value),
{
}

/// The two digits of a byte.
proof fn lemma_hex_at(bytes: Seq<u8>, i: int)
    requires
        0 <= i < bytes.len(),
    ensures
        hex_value(hex_text(bytes)[2 * i]) == Some(bytes[i] as int / 16),
        hex_value(hex_text(bytes)[2 * i + 1]) == Some(bytes[i] as int % 16),
{
    assert((2 * i) % 2 == 0 && (2 * i) / 2 == i);
    assert((2 * i + 1) % 2 == 1 && (2 * i + 1) / 2 == i);
    assert(hex_text(bytes)[2 * i] == hex_char(bytes[i] as int / 16));
    assert(hex_text(bytes)[2 * i + 1] == hex_char(bytes[i] as int % 16));
    lemma_hex_digit(bytes[i] as int / 16);
    lemma_hex_digit(bytes[i] as int % 16);
}

/// The hexadecimal text of a byte string decodes to it, and to nothing else.
pub proof fn law_hex_decodes(bytes: Seq<u8>, decoded: Seq<u8>)
    ensures
        is_hex_of(hex_text(bytes), decoded) <==> decoded == bytes,
{
    let text = hex_text(bytes);
    assert forall|i: int| 0 <= i < bytes.len() implies {
        &&& hex_value(text[2 * i]) == Some(#[trigger] bytes[i] as int / 16)
        &&& hex_value(text[2 * i + 1]) == Some(bytes[i] as int % 16)
    } by {
        lemma_hex_at(bytes, i);
    }
    if is_hex_of(text, decoded) {
        assert forall|i: int| 0 <= i < bytes.len() implies decoded[i] == bytes[i] by {
            lemma_hex_at(bytes, i);
            let high = decoded[i] as int / 16;
            let low = decoded[i] as int % 16;
            assert(hex_value(text[2 * i]) == Some(high));
            assert(hex_value(text[2 * i + 1]) == Some(low));
            assert(decoded[i] as int == 16 * high + low);
            assert(bytes[i] as int == 16 * (bytes[i] as int / 16) + bytes[i] as int % 16);
        }
        assert(decoded =~= bytes);
    }
}

/// A five-bit value can be read off its symbol.
proof fn lemma_symbol_injective(a: int, b: int)
    requires
        0 <= a < 32,
        0 <= b < 32,
        base32_symbol(a) == base32_symbol(b),
    ensures
        a == b,
{
    let x = base32_symbol(a) as int;
    let y = base32_symbol(b) as int;
    assert(x == if a < 26 { 65 + a } else { 24 + a });
    assert(y == if b < 26 { 65 + b } else { 24 + b });
}

proof fn lemma_bit_range(bytes: Seq<u8>, k: int)
    ensures
        0 <= bit(bytes, k) <= 1,
{
    reveal(bit);
}

proof fn lemma_quintet_range(bytes: Seq<u8>, k: int)
    ensures
        0 <= quintet(bytes, k) < 32,
{
    lemma_bit_range(bytes, k);
    lemma_bit_range(bytes, k + 1);
    lemma_bit_range(bytes, k + 2);
    lemma_bit_range(bytes, k + 3);
    lemma_bit_range(bytes, k + 4);
}

/// Two byte strings whose five-bit groups are the same have the same bits.
proof fn lemma_same_bit(left: Seq<u8>, right: Seq<u8>, k: int)
    requires
        left.len() == right.len(),
        0 <= k < 8 * left.len(),
        base32_text(left) == base32_text(right),
    ensures
        bit(left, k) == bit(right, k),
{
    let i = k / 5;
    let b = 5 * i;
    assert(0 <= i < base32_text(left).len());
    assert(base32_text(left)[i] == base32_symbol(quintet(left, b)));
    assert(base32_text(right)[i] == base32_symbol(quintet(right, b)));
    lemma_quintet_range(left, b);
    lemma_quintet_range(right, b);
    lemma_symbol_injective(quintet(left, b), quintet(right, b));
    lemma_bit_range(left, b);
    lemma_bit_range(left, b + 1);
    lemma_bit_range(left, b + 2);
    lemma_bit_range(left, b + 3);
    lemma_bit_range(left, b + 4);
    lemma_bit_range(right, b);
    lemma_bit_range(right, b + 1);
    lemma_bit_range(right, b + 2);
    lemma_bit_range(right, b + 3);
    lemma_bit_range(right, b + 4);
    assert(k == b || k == b + 1 || k == b + 2 || k == b + 3 || k == b + 4);
}

/// A byte is the sum of its bits.
proof fn lemma_bits_of_byte(byte: int)
    requires
        0 <= byte < 256,
    ensures
        byte == 128 * bit_of(byte, 0) + 64 * bit_of(byte, 1) + 32 * bit_of(byte, 2) + 16 * bit_of(
            byte,
            3,
        ) + 8 * bit_of(byte, 4) + 4 * bit_of(byte, 5) + 2 * bit_of(byte, 6) + bit_of(byte, 7),
{
    assert(byte / 64 == 2 * (byte / 128) + byte / 64 % 2);
    assert(byte / 32 == 2 * (byte / 64) + byte / 32 % 2);
    assert(byte / 16 == 2 * (byte / 32) + byte / 16 % 2);
    assert(byte / 8 == 2 * (byte / 16) + byte / 8 % 2);
    assert(byte / 4 == 2 * (byte / 8) + byte / 4 % 2);
    assert(byte / 2 == 2 * (byte / 4) + byte / 2 % 2);
}

/// The bits of a byte stand together in the byte string.
proof fn lemma_bit_at(bytes: Seq<u8>, i: int, j: int)
    requires
        0 <= i < bytes.len(),
        0 <= j < 8,
    ensures
        bit(bytes, 8 * i + j) == bit_of(bytes[i] as int, j),
{
    reveal(bit);
    assert((8 * i + j) / 8 == i);
    assert((8 * i + j) % 8 == j);
}

/// Where all the bits of two byte strings are the same, so are their bytes.
proof fn lemma_same_byte(left: Seq<u8>, right: Seq<u8>, i: int)
    requires
        left.len() == right.len(),
        0 <= i < left.len(),
        base32_text(left) == base32_text(right),
    ensures
        left[i] == right[i],
{
    assert forall|j: int| 0 <= j < 8 implies #[trigger] bit_of(left[i] as int, j) == bit_of(
        right[i] as int,
        j,
    ) by {
        lemma_bit_at(left, i, j);
        lemma_bit_at(right, i, j);
        lemma_same_bit(left, right, 8 * i + j);
    }
    lemma_bits_of_byte(left[i] as int);
    lemma_bits_of_byte(right[i] as int);
}

/// Different byte strings have different Base32 texts.
pub proof fn law_base32_injective(left: Seq<u8>, right: Seq<u8>)
    requires
        base32_text(left) == base32_text(right),
    ensures
        left == right,
{
    assert(base32_text(left).len() == (8 * left.len() + 4) / 5);
    assert(base32_text(right).len() == (8 * right.len() + 4) / 5);
    assert(left.len() == right.len());
    assert forall|i: int| 0 <= i < left.len() implies left[i] == right[i] by {
        lemma_same_byte(left, right, i);
    }
    assert(left =~= right);
}

/// Every symbol of a Base32 text is an upper-case letter or a digit from 2 to 7.
pub proof fn law_base32_alphabet(bytes: Seq<u8>, i: int)
    requires
        0 <= i < base32_text(bytes).len(),
    ensures
        'A' <= base32_text(bytes)[i] <= 'Z' || '2' <= base32_text(bytes)[i] <= '7',
{
    lemma_quintet_range(bytes, 5 * i);
}

} // verus!
