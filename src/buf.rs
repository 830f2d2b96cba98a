//! The byte cursor that the decoders consume from, and the big-endian
//! integer encodings they read.

use vstd::prelude::*;

verus! {

#[verifier::external_type_specification]
#[verifier::external_body]
pub struct ExBytesMut(bytes::BytesMut);

/// The bytes that a buffer currently holds, front first.
pub uninterp spec fn bytes_of(b: bytes::BytesMut) -> Seq<u8>;

/// The value of two bytes read as a big-endian unsigned integer.
pub open spec fn be_u16(s: Seq<u8>) -> int {
    (s[0] as int) * 0x100 + (s[1] as int)
}

/// The value of four bytes read as a big-endian unsigned integer.
pub open spec fn be_u32(s: Seq<u8>) -> int {
    (s[0] as int) * 0x100_0000 + (s[1] as int) * 0x1_0000 + (s[2] as int) * 0x100 + (s[3] as int)
}

/// The value of eight bytes read as a big-endian unsigned integer.
pub open spec fn be_u64(s: Seq<u8>) -> int {
    be_u32(s.subrange(0, 4)) * 0x1_0000_0000 + be_u32(s.subrange(4, 8))
}

/// `after` is what is left of `before` once some bytes were taken off its
/// front.
pub open spec fn consumed_front(before: Seq<u8>, after: Seq<u8>) -> bool {
    after.len() <= before.len() && after == before.skip(before.len() - after.len())
}

/// Taking bytes off the front twice is taking bytes off the front.
pub proof fn lemma_consumed_front_trans(a: Seq<u8>, b: Seq<u8>, c: Seq<u8>)
    requires
        consumed_front(a, b),
        consumed_front(b, c),
    ensures
        consumed_front(a, c),
{
    assert(c =~= a.skip(a.len() - c.len()));
}

/// Relies on `BytesMut::len`: the number of bytes held.
#[verifier::external_body]
pub(crate) fn buf_len(b: &bytes::BytesMut) -> (r: usize)
    ensures
        r == bytes_of(*b).len(),
{
    b.len()
}

/// Relies on `Buf::get_u8` for `BytesMut`: takes the first byte off the front.
#[verifier::external_body]
pub(crate) fn buf_get_u8(b: &mut bytes::BytesMut) -> (r: u8)
    requires
        bytes_of(*old(b)).len() >= 1,
    ensures
        r == bytes_of(*old(b))[0],
        bytes_of(*final(b)) == bytes_of(*old(b)).skip(1),
{
    bytes::Buf::get_u8(b)
}

/// Relies on `Buf::get_u16` for `BytesMut`: takes two bytes off the front and
/// reads them as a big-endian integer.
#[verifier::external_body]
pub(crate) fn buf_get_u16(b: &mut bytes::BytesMut) -> (r: u16)
    requires
        bytes_of(*old(b)).len() >= 2,
    ensures
        r as int == be_u16(bytes_of(*old(b)).take(2)),
        bytes_of(*final(b)) == bytes_of(*old(b)).skip(2),
{
    bytes::Buf::get_u16(b)
}

/// Relies on `Buf::get_u32` for `BytesMut`: takes four bytes off the front and
/// reads them as a big-endian integer.
#[verifier::external_body]
pub(crate) fn buf_get_u32(b: &mut bytes::BytesMut) -> (r: u32)
    requires
        bytes_of(*old(b)).len() >= 4,
    ensures
        r as int == be_u32(bytes_of(*old(b)).take(4)),
        bytes_of(*final(b)) == bytes_of(*old(b)).skip(4),
{
    bytes::Buf::get_u32(b)
}

/// Relies on `Buf::get_u64` for `BytesMut`: takes eight bytes off the front and
/// reads them as a big-endian integer.
#[verifier::external_body]
pub(crate) fn buf_get_u64(b: &mut bytes::BytesMut) -> (r: u64)
    requires
        bytes_of(*old(b)).len() >= 8,
    ensures
        r as int == be_u64(bytes_of(*old(b)).take(8)),
        bytes_of(*final(b)) == bytes_of(*old(b)).skip(8),
{
    bytes::Buf::get_u64(b)
}

/// Relies on `BytesMut::split_to`: the first `at` bytes move to the result,
/// the rest stay.
#[verifier::external_body]
pub(crate) fn buf_split_to(b: &mut bytes::BytesMut, at: usize) -> (r: bytes::BytesMut)
    requires
        at <= bytes_of(*old(b)).len(),
    ensures
        bytes_of(r) == bytes_of(*old(b)).take(at as int),
        bytes_of(*final(b)) == bytes_of(*old(b)).skip(at as int),
{
    b.split_to(at)
}

/// Relies on `BytesMut::from(&[u8])`: a buffer holding a copy of the slice.
#[verifier::external_body]
pub(crate) fn buf_from_slice(s: &[u8]) -> (r: bytes::BytesMut)
    ensures
        bytes_of(r) == s@,
{
    bytes::BytesMut::from(s)
}

/// Relies on `BytesMut::to_vec` (through its slice): a copy of the bytes held.
#[verifier::external_body]
pub(crate) fn buf_to_vec(b: &bytes::BytesMut) -> (r: Vec<u8>)
    ensures
        r@ == bytes_of(*b),
{
    b.to_vec()
}

} // verus!
