//! Box dispatch: decode a header, cut out exactly the declared body, decode
//! the body by its type code, and decode a buffer as a sequence of boxes.

use vstd::prelude::*;
use crate::buf::{buf_from_slice, buf_len, buf_split_to, buf_to_vec, bytes_of};
use crate::error::{Error, ParseError, Report};
use crate::header::{box_header_spec, header_len, BoxHeader, BoxSize};
use crate::stsz::{lemma_stsz_truncated, stsz_spec, StszBox, StszView};

verus! {

/// What a decoded box body holds.
pub enum BoxDataView {
    Stsz(StszView),
    Unknown(Seq<u8>),
}

/// Whether a header's type code is `stsz`.
pub open spec fn is_stsz(h: BoxHeader) -> bool {
    h.box_type.value@ == seq![0x73u8, 0x74u8, 0x73u8, 0x7au8]
}

/// The total size a header declares, counting the header, where `available`
/// bytes start at the header.
pub open spec fn declared_size(h: BoxHeader, available: int) -> int {
    match h.box_size {
        BoxSize::Size(n) => n as int,
        BoxSize::Ext(n) => n as int,
        BoxSize::UntilEof => available,
    }
}

/// Decoding one box from the front of `s`: its header, what its body holds,
/// and the number of bytes it occupies.
pub open spec fn box_spec(s: Seq<u8>) -> Result<(BoxHeader, BoxDataView, int), ParseError> {
    match box_header_spec(s) {
        Err(k) => Err(k),
        Ok(h) => {
            let total = declared_size(h, s.len() as int);
            if total > s.len() {
                Err(ParseError::TruncatedBox)
            } else {
                let body = s.subrange(header_len(h), total);
                if is_stsz(h) {
                    match stsz_spec(body) {
                        Ok(v) => Ok((h, BoxDataView::Stsz(v), total)),
                        Err(k) => Err(k),
                    }
                } else {
                    Ok((h, BoxDataView::Unknown(body), total))
                }
            }
        },
    }
}

/// Decoding all of `s` as a sequence of boxes.
pub open spec fn boxes_spec(s: Seq<u8>) -> Result<Seq<(BoxHeader, BoxDataView)>, ParseError>
    decreases s.len(),
{
    if s.len() == 0 {
        Ok(Seq::empty())
    } else {
        match box_spec(s) {
            Err(k) => Err(k),
            Ok((h, d, used)) => if used <= 0 {
                Err(ParseError::InvalidBoxLayout)
            } else {
                match boxes_spec(s.skip(used)) {
                    Err(k) => Err(k),
                    Ok(rest) => Ok(seq![(h, d)] + rest),
                }
            },
        }
    }
}

/// A decoded box body.
#[derive(Clone, Debug)]
pub enum BoxData {
    /// A sample-size box.
    Stsz(StszBox),
    /// A box with no decoder, kept as its raw body bytes.
    Unknown(Vec<u8>),
}

impl View for BoxData {
    type V = BoxDataView;

    open spec fn view(&self) -> BoxDataView {
        match self {
            BoxData::Stsz(b) => BoxDataView::Stsz(b@),
            BoxData::Unknown(v) => BoxDataView::Unknown(v@),
        }
    }
}

/// A decoded box: its header and body.
#[derive(Clone, Debug)]
pub struct Mp4Box {
    pub header: BoxHeader,
    pub data: BoxData,
}

impl View for Mp4Box {
    type V = (BoxHeader, BoxDataView);

    open spec fn view(&self) -> (BoxHeader, BoxDataView) {
        (self.header, self.data@)
    }
}

fn header_is_stsz(h: &BoxHeader) -> (r: bool)
    ensures
        r == is_stsz(*h),
{
    let v = h.box_type.value;
    let r = v[0] == 0x73u8 && v[1] == 0x74u8 && v[2] == 0x73u8 && v[3] == 0x7au8;
    proof {
        if r {
            assert(v@ =~= seq![0x73u8, 0x74u8, 0x73u8, 0x7au8]);
        }
    }
    r
}

/// Decodes one box from the front of `buf`: the header, then exactly the
/// declared body, which is handed to the decoder of its type and must be
/// consumed whole. The box's bytes leave `buf`; the rest stay.
pub fn parse_box(buf: &mut bytes::BytesMut) -> (r: Result<Mp4Box, Report<ParseError>>)
    ensures
        match box_spec(bytes_of(*old(buf))) {
            Ok((h, d, used)) => r matches Ok(b) && b@ == (h, d)
                && bytes_of(*final(buf)) == bytes_of(*old(buf)).skip(used),
            Err(k) => r matches Err(e) && e.terminal() == k,
        },
{
    let ghost s = bytes_of(*buf);
    let available = buf_len(buf);
    let header = match BoxHeader::parse(buf) {
        Ok(h) => h,
        Err(e) => return Err(e),
    };
    let hl: usize = match header.box_size {
        BoxSize::Ext(_) => 16,
        _ => 8,
    };
    let total: u64 = match header.box_size {
        BoxSize::Size(n) => n as u64,
        BoxSize::Ext(n) => n,
        BoxSize::UntilEof => available as u64,
    };
    if total > available as u64 {
        return Err(Report::new(ParseError::TruncatedBox).attach_printable("box body"));
    }
    let mut body = buf_split_to(buf, (total as usize) - hl);
    assert(bytes_of(body) =~= s.subrange(hl as int, total as int));
    assert(bytes_of(*buf) =~= s.skip(total as int));
    let data = if header_is_stsz(&header) {
        match StszBox::parse(&mut body) {
            Ok(b) => BoxData::Stsz(b),
            Err(e) => return Err(e),
        }
    } else {
        BoxData::Unknown(buf_to_vec(&body))
    };
    Ok(Mp4Box { header, data })
}

/// Decodes all of `data` as a sequence of boxes, failing on the first box
/// that does not decode.
pub fn parse(data: &[u8]) -> (r: Result<Vec<Mp4Box>, Error<ParseError>>)
    ensures
        match boxes_spec(data@) {
            Ok(v) => r matches Ok(boxes) && boxes@.map_values(|b: Mp4Box| b@) == v,
            Err(k) => r matches Err(Error::Parse(e)) && e.terminal() == k,
        },
{
    let mut buf = buf_from_slice(data);
    let mut out: Vec<Mp4Box> = Vec::new();
    loop
        invariant
            boxes_spec(data@) == match boxes_spec(bytes_of(buf)) {
                Ok(rest) => Ok(out@.map_values(|b: Mp4Box| b@) + rest),
                Err(k) => Err(k),
            },
        decreases bytes_of(buf).len(),
    {
        let ghost s = bytes_of(buf);
        if buf_len(&buf) == 0 {
            assert(out@.map_values(|b: Mp4Box| b@) + Seq::empty() =~= out@.map_values(|b: Mp4Box| b@));
            return Ok(out);
        }
        let b = match parse_box(&mut buf) {
            Ok(b) => b,
            Err(e) => return Err(Error::Parse(e.attach_printable("while parsing box sequence"))),
        };
        let ghost used = box_spec(s)->Ok_0.2;
        proof {
            assert(used > 0);
        }
        let ghost prev = out@.map_values(|b: Mp4Box| b@);
        out.push(b);
        proof {
            assert(out@.map_values(|b: Mp4Box| b@) =~= prev.push(b@));
            match boxes_spec(bytes_of(buf)) {
                Ok(rest) => {
                    assert(prev + (seq![b@] + rest) =~= prev.push(b@) + rest);
                },
                Err(_) => {},
            }
        }
    }
}


/// Cutting bytes off the end of an encoded box that decodes makes it fail as
/// a truncated box, never decode to something else. (A box of an unknown type
/// whose size runs to the end of the buffer has no fixed length, so cutting it
/// short only shortens its raw body; it is left out.)
pub proof fn lemma_box_truncated(s: Seq<u8>, m: int)
    requires
        box_spec(s) is Ok,
        !(box_spec(s)->Ok_0.0.box_size is UntilEof) || is_stsz(box_spec(s)->Ok_0.0),
        0 <= m < box_spec(s)->Ok_0.2,
    ensures
        box_spec(s.take(m)) == Err::<(BoxHeader, BoxDataView, int), ParseError>(
            ParseError::TruncatedBox,
        ),
{
    let t = s.take(m);
    if m >= 8 {
        assert(t.take(4) =~= s.take(4));
        assert(crate::header::four_cc_at(t, 4) == crate::header::four_cc_at(s, 4));
        if m >= 16 {
            assert(t.subrange(8, 16) =~= s.subrange(8, 16));
        }
        let h = box_spec(s)->Ok_0.0;
        if box_header_spec(t) is Ok {
            assert(box_header_spec(t)->Ok_0 == h);
            if h.box_size is UntilEof {
                let body = s.subrange(8, s.len() as int);
                lemma_stsz_truncated(body, m - 8);
                assert(t.subrange(8, m) =~= body.take(m - 8));
            }
        }
    }
}

} // verus!
