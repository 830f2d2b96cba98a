//! Box headers and full-box headers, and the primitive field decoder that
//! reports a short buffer as a truncated box.

use vstd::prelude::*;
use crate::buf::{be_u32, be_u64, buf_get_u32, buf_get_u64, buf_get_u8, buf_len, bytes_of};
use crate::error::{ParseError, Report};

verus! {

/// A four-byte box type code.
#[derive(Clone, Copy, Debug)]
pub struct FourCC {
    pub value: [u8; 4],
}

/// The size field of a box header.
#[derive(Clone, Copy, Debug, PartialEq, Eq, Structural)]
pub enum BoxSize {
    /// A 32-bit size, counting the header.
    Size(u32),
    /// A 64-bit "large size", counting the header.
    Ext(u64),
    /// The box extends to the end of the enclosing buffer.
    UntilEof,
}

/// A box header: its type code and declared size.
#[derive(Clone, Copy, Debug)]
pub struct BoxHeader {
    pub box_type: FourCC,
    pub box_size: BoxSize,
}

/// A full-box header: a version byte and 24 bits of flags.
#[derive(Clone, Copy, Debug, PartialEq, Eq, Structural)]
pub struct FullBoxHeader {
    pub version: u8,
    pub flags: u32,
}

/// The four type-code bytes at `s[at..at + 4]`.
pub open spec fn four_cc_at(s: Seq<u8>, at: int) -> FourCC {
    FourCC { value: [s[at], s[at + 1], s[at + 2], s[at + 3]] }
}

/// The number of bytes a header occupies.
pub open spec fn header_len(h: BoxHeader) -> int {
    match h.box_size {
        BoxSize::Ext(_) => 16,
        _ => 8,
    }
}

/// Decoding a box header from the front of `s`.
pub open spec fn box_header_spec(s: Seq<u8>) -> Result<BoxHeader, ParseError> {
    if s.len() < 8 {
        Err(ParseError::TruncatedBox)
    } else {
        let size = be_u32(s.take(4));
        let box_type = four_cc_at(s, 4);
        if size == 1 {
            if s.len() < 16 {
                Err(ParseError::TruncatedBox)
            } else if be_u64(s.subrange(8, 16)) < 16 {
                Err(ParseError::InvalidBoxLayout)
            } else {
                Ok(BoxHeader { box_type, box_size: BoxSize::Ext(be_u64(s.subrange(8, 16)) as u64) })
            }
        } else if size == 0 {
            Ok(BoxHeader { box_type, box_size: BoxSize::UntilEof })
        } else if size < 8 {
            Err(ParseError::InvalidBoxLayout)
        } else {
            Ok(BoxHeader { box_type, box_size: BoxSize::Size(size as u32) })
        }
    }
}

/// Decoding a full-box header from the front of `s`.
pub open spec fn full_box_header_spec(s: Seq<u8>) -> FullBoxHeader {
    FullBoxHeader {
        version: s[0],
        flags: ((s[1] as int) * 0x1_0000 + (s[2] as int) * 0x100 + (s[3] as int)) as u32,
    }
}

impl BoxHeader {
    /// Decodes a box header from the front of `buf`.
    pub fn parse(buf: &mut bytes::BytesMut) -> (r: Result<BoxHeader, Report<ParseError>>)
        ensures
            match box_header_spec(bytes_of(*old(buf))) {
                Ok(h) => r == Ok::<BoxHeader, Report<ParseError>>(h)
                    && bytes_of(*final(buf)) == bytes_of(*old(buf)).skip(header_len(h)),
                Err(k) => r matches Err(e) && e.terminal() == k,
            },
    {
        let ghost s = bytes_of(*buf);
        if buf_len(buf) < 8 {
            return Err(Report::new(ParseError::TruncatedBox).attach_printable("box header"));
        }
        let size = buf_get_u32(buf);
        let b0 = buf_get_u8(buf);
        let b1 = buf_get_u8(buf);
        let b2 = buf_get_u8(buf);
        let b3 = buf_get_u8(buf);
        let box_type = FourCC { value: [b0, b1, b2, b3] };
        assert(bytes_of(*buf) == s.skip(8));
        assert(box_type == four_cc_at(s, 4));
        if size == 1 {
            if buf_len(buf) < 8 {
                return Err(Report::new(ParseError::TruncatedBox).attach_printable("box header"));
            }
            let large = buf_get_u64(buf);
            assert(s.skip(8).take(8) =~= s.subrange(8, 16));
            assert(bytes_of(*buf) =~= s.skip(16));
            if large < 16 {
                return Err(
                    Report::new(ParseError::InvalidBoxLayout).attach_printable("box header"),
                );
            }
            Ok(BoxHeader { box_type, box_size: BoxSize::Ext(large) })
        } else if size == 0 {
            Ok(BoxHeader { box_type, box_size: BoxSize::UntilEof })
        } else if size < 8 {
            Err(Report::new(ParseError::InvalidBoxLayout).attach_printable("box header"))
        } else {
            Ok(BoxHeader { box_type, box_size: BoxSize::Size(size) })
        }
    }
}

impl FullBoxHeader {
    /// Decodes a version byte and three flag bytes from the front of `buf`.
    pub fn parse(buf: &mut bytes::BytesMut) -> (r: Result<FullBoxHeader, Report<ParseError>>)
        ensures
            r is Ok <==> bytes_of(*old(buf)).len() >= 4,
            r matches Ok(h) ==> h == full_box_header_spec(bytes_of(*old(buf)))
                && bytes_of(*final(buf)) == bytes_of(*old(buf)).skip(4),
            r matches Err(e) ==> e.terminal() == ParseError::TruncatedBox
                && bytes_of(*final(buf)) == bytes_of(*old(buf)),
    {
        let ghost s = bytes_of(*buf);
        if buf_len(buf) < 4 {
            return Err(Report::new(ParseError::TruncatedBox).attach_printable("full box header"));
        }
        let version = buf_get_u8(buf);
        let f0 = buf_get_u8(buf);
        let f1 = buf_get_u8(buf);
        let f2 = buf_get_u8(buf);
        let flags: u32 = (f0 as u32) * 0x1_0000 + (f1 as u32) * 0x100 + (f2 as u32);
        assert(bytes_of(*buf) =~= s.skip(4));
        Ok(FullBoxHeader { version, flags })
    }
}

impl Default for FullBoxHeader {
    /// The zero-filled header.
    fn default() -> (r: Self)
        ensures
            r.version == 0 && r.flags == 0,
    {
        FullBoxHeader { version: 0, flags: 0 }
    }
}

} // verus!
