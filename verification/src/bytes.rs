//! Big-endian fields inside byte sequences.

use byteorder::{BigEndian, ByteOrder};
use vstd::prelude::*;

verus! {

/// The 16-bit big-endian number stored at `at`.
pub open spec fn be16(s: Seq<u8>, at: int) -> int {
    s[at] * 256 + s[at + 1]
}

/// The 32-bit big-endian number stored at `at`.
pub open spec fn be32(s: Seq<u8>, at: int) -> int {
    s[at] * 0x100_0000 + s[at + 1] * 0x1_0000 + s[at + 2] * 0x100 + s[at + 3]
}

/// `s` with the 16-bit number `value` stored big-endian at `at`.
pub open spec fn put16(s: Seq<u8>, at: int, value: int) -> Seq<u8> {
    s.update(at, (value / 256) as u8).update(at + 1, (value % 256) as u8)
}

/// `s` with the bytes of `part` stored from `at` on.
pub open spec fn put(s: Seq<u8>, at: int, part: Seq<u8>) -> Seq<u8> {
    s.take(at) + part + s.skip(at + part.len())
}

/// Reading back a stored 16-bit number gives that number, and no byte outside
/// the field has changed.
pub proof fn lemma_put16(s: Seq<u8>, at: int, value: int)
    requires
        0 <= at,
        at + 2 <= s.len(),
        0 <= value < 0x1_0000,
    ensures
        put16(s, at, value).len() == s.len(),
        be16(put16(s, at, value), at) == value,
        forall|i: int|
            0 <= i < s.len() && i != at && i != at + 1 ==> #[trigger] put16(s, at, value)[i]
                == s[i],
{
}

/// `BigEndian::read_u16` of the crate `byteorder`: the first two bytes of `buf`
/// read as one number, most significant byte first. It panics on fewer bytes.
#[verifier::external_body]
pub(crate) fn read_u16(buf: &[u8]) -> (value: u16)
    requires
        buf@.len() >= 2,
    ensures
        value == be16(buf@, 0),
{
    BigEndian::read_u16(buf)
}

/// `BigEndian::read_u32` of the crate `byteorder`: the first four bytes of `buf`
/// read as one number, most significant byte first. It panics on fewer bytes.
#[verifier::external_body]
pub(crate) fn read_u32(buf: &[u8]) -> (value: u32)
    requires
        buf@.len() >= 4,
    ensures
        value == be32(buf@, 0),
{
    BigEndian::read_u32(buf)
}

/// `BigEndian::write_u16` of the crate `byteorder`: the first two bytes of `buf`
/// become `value`, most significant byte first, and the other bytes stay. It
/// panics on fewer bytes.
#[verifier::external_body]
pub(crate) fn write_u16(buf: &mut [u8], value: u16)
    requires
        old(buf)@.len() >= 2,
    ensures
        final(buf)@ == put16(old(buf)@, 0, value as int),
{
    BigEndian::write_u16(buf, value)
}

/// The number stored at `at`.
pub(crate) fn read_u16_at(buf: &[u8], at: usize) -> (value: u16)
    requires
        at + 2 <= buf.len(),
    ensures
        value == be16(buf@, at as int),
{
    read_u16(&buf[at..at + 2])
}

/// The number stored at `at`.
pub(crate) fn read_u32_at(buf: &[u8], at: usize) -> (value: u32)
    requires
        at + 4 <= buf.len(),
    ensures
        value == be32(buf@, at as int),
{
    read_u32(&buf[at..at + 4])
}

/// Stores `value` at `at`.
pub(crate) fn write_u16_at(buf: &mut [u8], at: usize, value: u16)
    requires
        at + 2 <= old(buf)@.len(),
    ensures
        final(buf)@ == put16(old(buf)@, at as int, value as int),
{
    let ghost before: Seq<u8> = buf@;
    let (head, tail) = buf.split_at_mut(at);
    assert(head@ + tail@ == before);
    write_u16(tail, value);
    assert(head@ + tail@ == put16(before, at as int, value as int));
}

/// Stores the bytes of `part` from `at` on.
pub(crate) fn write_at(buf: &mut [u8], at: usize, part: &[u8])
    requires
        at + part.len() <= old(buf).len(),
    ensures
        final(buf)@ == put(old(buf)@, at as int, part@),
{
    let ghost before: Seq<u8> = buf@;
    let mut i: usize = 0;
    while i < part.len()
        invariant
            i <= part@.len(),
            at + part.len() <= buf.len(),
            buf.len() == before.len(),
            buf@ == put(before, at as int, part@.take(i as int)),
        decreases part@.len() - i,
    {
        buf[at + i] = part[i];
        i = i + 1;
        assert(buf@ =~= put(before, at as int, part@.take(i as int)));
    }
    assert(part@.take(i as int) =~= part@);
}

/// The sixteen bytes stored from `at` on.
pub(crate) fn read_16_bytes(buf: &[u8], at: usize) -> (bytes: [u8; 16])
    requires
        at + 16 <= buf.len(),
    ensures
        bytes@ == buf@.subrange(at as int, at + 16),
{
    let mut bytes: [u8; 16] = [0;16];
    let mut i: usize = 0;
    while i < 16
        invariant
            i <= 16,
            at + 16 <= buf.len(),
            forall|j: int| 0 <= j < i ==> bytes@[j] == buf@[at + j],
        decreases 16 - i,
    {
        bytes[i] = buf[at + i];
        i = i + 1;
    }
    assert(bytes@ =~= buf@.subrange(at as int, at + 16));
    bytes
}

/// Law: numbers are stored most significant byte first.
pub proof fn law_numbers_are_big_endian(s: Seq<u8>, at: int)
    ensures
        be16(s, at) == s[at] * 256 + s[at + 1],
        be32(s, at) == ((s[at] * 256 + s[at + 1]) * 256 + s[at + 2]) * 256 + s[at + 3],
{
}

/// Law: storing a part puts just its bytes there and leaves every other byte.
pub proof fn law_storing_touches_the_part_alone(s: Seq<u8>, at: int, part: Seq<u8>, i: int)
    requires
        0 <= at,
        at + part.len() <= s.len(),
        0 <= i < s.len(),
    ensures
        put(s, at, part).len() == s.len(),
        put(s, at, part)[i] == if at <= i < at + part.len() {
            part[i - at]
        } else {
            s[i]
        },
{
}

} // verus!
