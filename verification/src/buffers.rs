//! The byte buffers of the `bytes` crate, as far as the library uses them.
//!
//! `held` and `filled` name what a buffer contains; the wrappers say what each
//! buffer operation does to it.
use bytes::BufMut;
use vstd::prelude::*;

verus! {

/// The immutable byte buffer `bytes::Bytes`.
#[verifier::external_type_specification]
#[verifier::external_body]
pub struct ExBytes(bytes::Bytes);

/// The growable byte buffer `bytes::BytesMut`.
#[verifier::external_type_specification]
#[verifier::external_body]
pub struct ExBytesMut(bytes::BytesMut);

/// The bytes that a `bytes::Bytes` contains.
pub uninterp spec fn held(buffer: bytes::Bytes) -> Seq<u8>;

/// The bytes that a `bytes::BytesMut` contains.
pub uninterp spec fn filled(buffer: bytes::BytesMut) -> Seq<u8>;

/// How many bytes a `BytesMut` is asked to contain at most.
///
/// The crate grows a buffer by doubling its capacity and panics where the new
/// capacity exceeds `isize::MAX`; up to half of that no growth can panic.
pub open spec fn buffer_limit() -> int {
    isize::MAX / 2
}

/// The four bytes of `value`, most significant first.
pub open spec fn be32(value: u32) -> Seq<u8> {
    seq![
        (value / 0x100_0000) as u8,
        ((value / 0x1_0000) % 0x100) as u8,
        ((value / 0x100) % 0x100) as u8,
        (value % 0x100) as u8,
    ]
}

/// The number whose bytes, most significant first, are the first four of `bytes`.
pub open spec fn from_be32(bytes: Seq<u8>) -> u32 {
    (bytes[0] * 0x100_0000 + bytes[1] * 0x1_0000 + bytes[2] * 0x100 + bytes[3]) as u32
}

/// The eight bytes of `value`, most significant first.
pub open spec fn be64(value: u64) -> Seq<u8> {
    be32((value / 0x1_0000_0000) as u32) + be32((value % 0x1_0000_0000) as u32)
}

/// The number whose bytes, most significant first, are the first eight of `bytes`.
pub open spec fn from_be64(bytes: Seq<u8>) -> u64 {
    (from_be32(bytes) * 0x1_0000_0000 + from_be32(bytes.skip(4))) as u64
}

/// The two's complement reading of a signed number as an unsigned one.
pub open spec fn i64_bits(value: i64) -> u64 {
    value as u64
}

/// Reading the four bytes of a number gives the number back.
pub proof fn lemma_be32_round_trip(value: u32)
    ensures
        be32(value).len() == 4,
        from_be32(be32(value)) == value,
{
}

/// Four bytes are the bytes of the number that they read as.
pub proof fn lemma_from_be32_round_trip(bytes: Seq<u8>)
    requires
        bytes.len() == 4,
    ensures
        be32(from_be32(bytes)) == bytes,
{
    let high = bytes[0] as int;
    let upper = bytes[1] as int;
    let lower = bytes[2] as int;
    let low = bytes[3] as int;
    let value = from_be32(bytes) as int;
    assert(value == high * 0x100_0000 + upper * 0x1_0000 + lower * 0x100 + low);
    assert(value / 0x100_0000 == high);
    assert(value / 0x1_0000 == high * 0x100 + upper);
    assert(value / 0x100 == high * 0x1_0000 + upper * 0x100 + lower);
    assert((high * 0x100 + upper) % 0x100 == upper);
    assert((high * 0x1_0000 + upper * 0x100 + lower) % 0x100 == lower);
    assert(value % 0x100 == low);
    assert(be32(from_be32(bytes)) =~= bytes);
}

/// Reading the eight bytes of a number gives the number back.
pub proof fn lemma_be64_round_trip(value: u64)
    ensures
        be64(value).len() == 8,
        from_be64(be64(value)) == value,
{
    let high = (value / 0x1_0000_0000) as u32;
    let low = (value % 0x1_0000_0000) as u32;
    lemma_be32_round_trip(high);
    lemma_be32_round_trip(low);
    assert(be64(value).skip(4) =~= be32(low));
}

/// Eight bytes are the bytes of the number that they read as.
pub proof fn lemma_from_be64_round_trip(bytes: Seq<u8>)
    requires
        bytes.len() == 8,
    ensures
        be64(from_be64(bytes)) == bytes,
{
    lemma_from_be32_round_trip(bytes.take(4));
    lemma_from_be32_round_trip(bytes.skip(4));
    assert(be64(from_be64(bytes)) =~= bytes.take(4) + bytes.skip(4));
    assert(bytes =~= bytes.take(4) + bytes.skip(4));
}

/// A signed number is recovered from its two's complement reading.
pub proof fn lemma_i64_bits_round_trip(value: i64, bits: u64)
    ensures
        i64_bits(value) as i64 == value,
        i64_bits(bits as i64) == bits,
{
    assert((value as u64) as i64 == value) by (bit_vector);
    assert((bits as i64) as u64 == bits) by (bit_vector);
}

/// `BytesMut::new`: a buffer that contains nothing.
#[verifier::external_body]
pub(crate) fn new_buffer() -> (buffer: bytes::BytesMut)
    ensures
        filled(buffer) == Seq::<u8>::empty(),
{
    bytes::BytesMut::new()
}

/// `BufMut::put_u8` on a `BytesMut`: appends the byte.
#[verifier::external_body]
pub(crate) fn put_u8(buffer: &mut bytes::BytesMut, value: u8)
    requires
        filled(*old(buffer)).len() + 1 <= buffer_limit(),
    ensures
        filled(*final(buffer)) == filled(*old(buffer)).push(value),
{
    buffer.put_u8(value)
}

/// `BufMut::put_u32` on a `BytesMut`: appends the number, most significant byte first.
#[verifier::external_body]
pub(crate) fn put_u32(buffer: &mut bytes::BytesMut, value: u32)
    requires
        filled(*old(buffer)).len() + 4 <= buffer_limit(),
    ensures
        filled(*final(buffer)) == filled(*old(buffer)) + be32(value),
{
    buffer.put_u32(value)
}

/// `BufMut::put_u64` on a `BytesMut`: appends the number, most significant byte first.
#[verifier::external_body]
pub(crate) fn put_u64(buffer: &mut bytes::BytesMut, value: u64)
    requires
        filled(*old(buffer)).len() + 8 <= buffer_limit(),
    ensures
        filled(*final(buffer)) == filled(*old(buffer)) + be64(value),
{
    buffer.put_u64(value)
}

/// `BufMut::put_i64` on a `BytesMut`: appends the two's complement of the
/// number, most significant byte first.
#[verifier::external_body]
pub(crate) fn put_i64(buffer: &mut bytes::BytesMut, value: i64)
    requires
        filled(*old(buffer)).len() + 8 <= buffer_limit(),
    ensures
        filled(*final(buffer)) == filled(*old(buffer)) + be64(i64_bits(value)),
{
    buffer.put_i64(value)
}

/// `BytesMut::extend_from_slice`: appends the bytes of the slice.
#[verifier::external_body]
pub(crate) fn extend_from_slice(buffer: &mut bytes::BytesMut, bytes: &[u8])
    requires
        filled(*old(buffer)).len() + bytes@.len() <= buffer_limit(),
    ensures
        filled(*final(buffer)) == filled(*old(buffer)) + bytes@,
{
    buffer.extend_from_slice(bytes)
}

/// `AsRef<[u8]>` of `BytesMut`: the contents as a slice.
#[verifier::external_body]
pub(crate) fn filled_slice(buffer: &bytes::BytesMut) -> (bytes: &[u8])
    ensures
        bytes@ == filled(*buffer),
{
    buffer.as_ref()
}

/// `BytesMut::freeze`: the same contents, immutable.
#[verifier::external_body]
pub(crate) fn freeze(buffer: bytes::BytesMut) -> (frozen: bytes::Bytes)
    ensures
        held(frozen) == filled(buffer),
{
    buffer.freeze()
}

/// `Bytes::copy_from_slice`: a buffer that contains the bytes of the slice.
#[verifier::external_body]
pub(crate) fn copy_from_slice(bytes: &[u8]) -> (buffer: bytes::Bytes)
    ensures
        held(buffer) == bytes@,
{
    bytes::Bytes::copy_from_slice(bytes)
}

/// `AsRef<[u8]>` of `Bytes`: the contents as a slice.
#[verifier::external_body]
pub(crate) fn held_slice(buffer: &bytes::Bytes) -> (bytes: &[u8])
    ensures
        bytes@ == held(*buffer),
{
    buffer.as_ref()
}

/// `Bytes::clone`: another handle on the same contents.
pub assume_specification[ <bytes::Bytes as core::clone::Clone>::clone ](
    buffer: &bytes::Bytes,
) -> (copy: bytes::Bytes)
    ensures
        held(copy) == held(*buffer),
;

/// Reads the four bytes as a number, most significant first.
pub fn read_be32(bytes: &[u8]) -> (value: u32)
    requires
        bytes@.len() >= 4,
    ensures
        value == from_be32(bytes@),
{
    bytes[0] as u32 * 0x100_0000 + bytes[1] as u32 * 0x1_0000 + bytes[2] as u32 * 0x100
        + bytes[3] as u32
}

/// Reads the eight bytes as a number, most significant first.
pub fn read_be64(bytes: &[u8]) -> (value: u64)
    requires
        bytes@.len() >= 8,
    ensures
        value == from_be64(bytes@),
{
    let high: u32 = read_be32(bytes);
    let tail = &bytes[4..bytes.len()];
    let low: u32 = read_be32(tail);
    assert(tail@ =~= bytes@.skip(4));
    high as u64 * 0x1_0000_0000 + low as u64
}

} // verus!
