//! Fixed-size byte arrays, big-endian numbers and small byte-string helpers.

use vstd::prelude::*;

verus! {

/// The four big-endian bytes of a 32-bit number, most significant byte first.
pub open spec fn be32(n: nat) -> Seq<u8> {
    seq![
        ((n / 0x1000000) % 256) as u8,
        ((n / 0x10000) % 256) as u8,
        ((n / 0x100) % 256) as u8,
        (n % 256) as u8,
    ]
}

/// The UTF-8 bytes of a text.
pub open spec fn utf8(text: Seq<char>) -> Seq<u8> {
    vstd::utf8::encode_utf8(text)
}

/// Writes `n` as four big-endian bytes.
pub fn be_bytes(n: u32) -> (bytes: [u8; 4])
    ensures
        bytes@ == be32(n as nat),
{
    let bytes: [u8; 4] = [
        ((n / 0x1000000) % 256) as u8,
        ((n / 0x10000) % 256) as u8,
        ((n / 0x100) % 256) as u8,
        (n % 256) as u8,
    ];
    assert(bytes@ =~= be32(n as nat));
    bytes
}

/// Copies the 32 bytes of `bytes` that start at `from` into an array.
pub fn array32(bytes: &[u8], from: usize) -> (array: [u8; 32])
    requires
        from + 32 <= bytes@.len(),
    ensures
        array@ == bytes@.subrange(from as int, from + 32),
{
    let length: usize = bytes.len();
    let mut array: [u8; 32] = [0u8; 32];
    let mut i: usize = 0;
    while i < 32
        invariant
            i <= 32,
            from + 32 <= length == bytes@.len(),
            forall|j: int| 0 <= j < i ==> array@[j] == bytes@[from + j],
        decreases 32 - i,
    {
        array[i] = bytes[from + i];
        i = i + 1;
    }
    assert(array@ =~= bytes@.subrange(from as int, from + 32));
    array
}

/// Copies 12 bytes into an array.
pub fn array12(bytes: &[u8]) -> (array: [u8; 12])
    requires
        bytes@.len() == 12,
    ensures
        array@ == bytes@,
{
    let mut array: [u8; 12] = [0u8; 12];
    let mut i: usize = 0;
    while i < 12
        invariant
            i <= 12,
            bytes@.len() == 12,
            forall|j: int| 0 <= j < i ==> array@[j] == bytes@[j],
        decreases 12 - i,
    {
        array[i] = bytes[i];
        i = i + 1;
    }
    assert(array@ =~= bytes@);
    array
}

/// Copies 64 bytes into an array; `None` if there are not 64.
pub fn array64(bytes: &[u8]) -> (array: Option<[u8; 64]>)
    ensures
        match array {
            Some(a) => a@ == bytes@,
            None => bytes@.len() != 64,
        },
{
    if bytes.len() != 64 {
        return None;
    }
    let mut array: [u8; 64] = [0u8; 64];
    let mut i: usize = 0;
    while i < 64
        invariant
            i <= 64,
            bytes@.len() == 64,
            forall|j: int| 0 <= j < i ==> array@[j] == bytes@[j],
        decreases 64 - i,
    {
        array[i] = bytes[i];
        i = i + 1;
    }
    assert(array@ =~= bytes@);
    Some(array)
}

/// Whether two byte strings are equal.
pub fn same_bytes(left: &[u8], right: &[u8]) -> (same: bool)
    ensures
        same == (left@ == right@),
{
    if left.len() != right.len() {
        return false;
    }
    let mut i: usize = 0;
    while i < left.len()
        invariant
            left@.len() == right@.len(),
            i <= left@.len(),
            forall|j: int| 0 <= j < i ==> left@[j] == right@[j],
        decreases left@.len() - i,
    {
        if left[i] != right[i] {
            return false;
        }
        i = i + 1;
    }
    assert(left@ =~= right@);
    true
}

/// Appends `tail` to `bytes`.
pub fn append_bytes(bytes: &mut Vec<u8>, tail: &[u8])
    ensures
        final(bytes)@ == old(bytes)@ + tail@,
{
    bytes.extend_from_slice(tail);
    assert(bytes@ =~= old(bytes)@ + tail@);
}

/// Copies a byte slice into a vector.
pub fn copied(bytes: &[u8]) -> (vec: Vec<u8>)
    ensures
        vec@ == bytes@,
{
    let mut vec: Vec<u8> = Vec::new();
    append_bytes(&mut vec, bytes);
    assert(vec@ =~= bytes@);
    vec
}

/// Appends the UTF-8 bytes of `text` to `bytes`.
pub fn append_text(bytes: &mut Vec<u8>, text: &str)
    ensures
        final(bytes)@ == old(bytes)@ + utf8(text@),
{
    append_bytes(bytes, text.as_bytes());
}

} // verus!
