//! Fixed-width values that the decoders read from the front of a buffer.

use vstd::prelude::*;
use crate::buf::{
    be_u16, be_u32, be_u64, buf_get_u16, buf_get_u32, buf_get_u64, buf_get_u8, buf_len, bytes_of,
};
use crate::error::{ParseError, Report};

verus! {

/// A value with a fixed-width big-endian wire encoding.
pub trait Mp4Value: Sized {
    /// The number of bytes of the encoding.
    spec fn encoded_len() -> nat;

    /// The value that the first `encoded_len()` bytes of `s` encode.
    spec fn decode_spec(s: Seq<u8>) -> Self;

    /// The number of bytes of the encoding.
    fn encoded_size() -> (r: usize)
        ensures
            r == Self::encoded_len(),
            1 <= r <= 8,
    ;

    /// Reads one value from the front of `buf`, failing as a truncated box
    /// when too few bytes remain; then `buf` is left as it was.
    fn parse(buf: &mut bytes::BytesMut) -> (r: Result<Self, Report<ParseError>>)
        ensures
            r is Ok <==> bytes_of(*old(buf)).len() >= Self::encoded_len(),
            r matches Ok(v) ==> v == Self::decode_spec(bytes_of(*old(buf)))
                && bytes_of(*final(buf)) == bytes_of(*old(buf)).skip(Self::encoded_len() as int),
            r matches Err(e) ==> e.terminal() == ParseError::TruncatedBox
                && bytes_of(*final(buf)) == bytes_of(*old(buf)),
    ;
}

/// An unsigned integer that can declare how many entries follow it.
pub trait ArrayCount: Mp4Value {
    /// The value as a number.
    spec fn as_nat(self) -> nat;

    /// The largest count the type holds.
    spec fn max_count() -> nat;

    /// The value as a 64-bit number.
    fn to_u64(&self) -> (r: u64)
        ensures
            r == self.as_nat(),
            r <= Self::max_count(),
    ;

    /// The count `n`.
    fn from_len(n: usize) -> (r: Self)
        requires
            n <= Self::max_count(),
        ensures
            r.as_nat() == n,
    ;
}

fn truncated<T>(what: &'static str) -> (r: Result<T, Report<ParseError>>)
    ensures
        r matches Err(e) && e.terminal() == ParseError::TruncatedBox,
{
    Err(Report::new(ParseError::TruncatedBox).while_parsing_type(what))
}

impl Mp4Value for u8 {
    open spec fn encoded_len() -> nat {
        1
    }

    open spec fn decode_spec(s: Seq<u8>) -> u8 {
        s[0]
    }

    fn encoded_size() -> (r: usize) {
        1
    }

    fn parse(buf: &mut bytes::BytesMut) -> (r: Result<u8, Report<ParseError>>) {
        if buf_len(buf) < 1 {
            return truncated("u8");
        }
        Ok(buf_get_u8(buf))
    }
}

impl Mp4Value for u16 {
    open spec fn encoded_len() -> nat {
        2
    }

    open spec fn decode_spec(s: Seq<u8>) -> u16 {
        be_u16(s.take(2)) as u16
    }

    fn encoded_size() -> (r: usize) {
        2
    }

    fn parse(buf: &mut bytes::BytesMut) -> (r: Result<u16, Report<ParseError>>) {
        if buf_len(buf) < 2 {
            return truncated("u16");
        }
        Ok(buf_get_u16(buf))
    }
}

impl Mp4Value for u32 {
    open spec fn encoded_len() -> nat {
        4
    }

    open spec fn decode_spec(s: Seq<u8>) -> u32 {
        be_u32(s.take(4)) as u32
    }

    fn encoded_size() -> (r: usize) {
        4
    }

    fn parse(buf: &mut bytes::BytesMut) -> (r: Result<u32, Report<ParseError>>) {
        if buf_len(buf) < 4 {
            return truncated("u32");
        }
        Ok(buf_get_u32(buf))
    }
}

impl Mp4Value for u64 {
    open spec fn encoded_len() -> nat {
        8
    }

    open spec fn decode_spec(s: Seq<u8>) -> u64 {
        be_u64(s.take(8)) as u64
    }

    fn encoded_size() -> (r: usize) {
        8
    }

    fn parse(buf: &mut bytes::BytesMut) -> (r: Result<u64, Report<ParseError>>) {
        if buf_len(buf) < 8 {
            return truncated("u64");
        }
        Ok(buf_get_u64(buf))
    }
}

impl ArrayCount for u16 {
    open spec fn as_nat(self) -> nat {
        self as nat
    }

    open spec fn max_count() -> nat {
        u16::MAX as nat
    }

    fn to_u64(&self) -> (r: u64) {
        *self as u64
    }

    fn from_len(n: usize) -> (r: u16) {
        n as u16
    }
}

impl ArrayCount for u32 {
    open spec fn as_nat(self) -> nat {
        self as nat
    }

    open spec fn max_count() -> nat {
        u32::MAX as nat
    }

    fn to_u64(&self) -> (r: u64) {
        *self as u64
    }

    fn from_len(n: usize) -> (r: u32) {
        n as u32
    }
}

impl ArrayCount for u64 {
    open spec fn as_nat(self) -> nat {
        self as nat
    }

    open spec fn max_count() -> nat {
        u64::MAX as nat
    }

    fn to_u64(&self) -> (r: u64) {
        *self
    }

    fn from_len(n: usize) -> (r: u64) {
        n as u64
    }
}

} // verus!
