//! The sample-size box: either one size shared by every sample, or a table
//! of per-sample sizes.

use vstd::prelude::*;
use crate::array::{bounded_array_spec, BoundedArray};
use crate::buf::{buf_len, bytes_of, consumed_front, lemma_consumed_front_trans};
use crate::error::{ParseError, Report};
use crate::header::{full_box_header_spec, FourCC, FullBoxHeader};
use crate::value::Mp4Value;

verus! {

/// What a decoded sample-size box holds.
pub enum StszView {
    /// Every one of `count` samples is `size` bytes long.
    Fixed { header: FullBoxHeader, size: u32, count: u32 },
    /// Each sample's size is listed.
    Variable { header: FullBoxHeader, entries: Seq<u32> },
}

impl StszView {
    /// The size of every sample, in order.
    pub open spec fn sample_sizes(self) -> Seq<u32> {
        match self {
            StszView::Fixed { size, count, .. } => Seq::new(count as nat, |i: int| size),
            StszView::Variable { entries, .. } => entries,
        }
    }

    /// The number of bytes this box body occupies on the wire.
    pub open spec fn encoded_len(self) -> int {
        match self {
            StszView::Fixed { .. } => 12,
            StszView::Variable { entries, .. } => 12 + 4 * (entries.len() as int),
        }
    }
}

/// Decoding a whole sample-size box body `s`.
pub open spec fn stsz_spec(s: Seq<u8>) -> Result<StszView, ParseError> {
    if s.len() < 8 {
        Err(ParseError::TruncatedBox)
    } else {
        let header = full_box_header_spec(s);
        let size = <u32 as Mp4Value>::decode_spec(s.skip(4));
        if size != 0 {
            if s.len() < 12 {
                Err(ParseError::TruncatedBox)
            } else if s.len() > 12 {
                Err(ParseError::InvalidInput)
            } else {
                Ok(StszView::Fixed { header, size, count: <u32 as Mp4Value>::decode_spec(s.skip(8)) })
            }
        } else {
            match bounded_array_spec::<u32, u32>(s.skip(8)) {
                Err(k) => Err(k),
                Ok((entries, used)) => if s.len() > 8 + used {
                    Err(ParseError::InvalidInput)
                } else {
                    Ok(StszView::Variable { header, entries })
                },
            }
        }
    }
}

/// The number of bytes left over after a sample-size box body `s` (of at
/// least eight bytes) has been decoded.
pub open spec fn stsz_residual(s: Seq<u8>) -> int {
    if <u32 as Mp4Value>::decode_spec(s.skip(4)) != 0 {
        s.len() - 12
    } else {
        match bounded_array_spec::<u32, u32>(s.skip(8)) {
            Ok((_, used)) => s.len() - 8 - used,
            Err(_) => 0,
        }
    }
}

/// The sample-size box. Which shape it has is read from the wire: a zero size
/// field selects the table of entries.
#[derive(Clone, Debug)]
pub enum StszBox {
    FixedSize { header: FullBoxHeader, size: u32, number_of_samples: u32 },
    VariableSize { header: FullBoxHeader, entries: BoundedArray<u32, u32> },
}

impl View for StszBox {
    type V = StszView;

    open spec fn view(&self) -> StszView {
        match self {
            StszBox::FixedSize { header, size, number_of_samples } => StszView::Fixed {
                header: *header,
                size: *size,
                count: *number_of_samples,
            },
            StszBox::VariableSize { header, entries } => StszView::Variable {
                header: *header,
                entries: entries@,
            },
        }
    }
}

/// One decimal digit as text.
pub open spec fn digit_char(d: int) -> char {
    if d == 0 { '0' } else if d == 1 { '1' } else if d == 2 { '2' } else if d == 3 { '3' }
    else if d == 4 { '4' } else if d == 5 { '5' } else if d == 6 { '6' } else if d == 7 { '7' }
    else if d == 8 { '8' } else { '9' }
}

/// A number written in decimal.
pub open spec fn decimal_spec(n: nat) -> Seq<char>
    decreases n,
{
    if n < 10 {
        seq![digit_char(n as int)]
    } else {
        decimal_spec(n / 10) + seq![digit_char((n % 10) as int)]
    }
}

fn digit_text(d: u64) -> (r: &'static str)
    requires
        d < 10,
    ensures
        r@ == seq![digit_char(d as int)],
{
    let r = if d == 0 { "0" } else if d == 1 { "1" } else if d == 2 { "2" } else if d == 3 { "3" }
    else if d == 4 { "4" } else if d == 5 { "5" } else if d == 6 { "6" } else if d == 7 { "7" }
    else if d == 8 { "8" } else { "9" };
    proof {
        reveal_strlit("0"); reveal_strlit("1"); reveal_strlit("2"); reveal_strlit("3");
        reveal_strlit("4"); reveal_strlit("5"); reveal_strlit("6"); reveal_strlit("7");
        reveal_strlit("8"); reveal_strlit("9");
        assert(r@ =~= seq![digit_char(d as int)]);
    }
    r
}

/// Writes `n` in decimal.
pub fn decimal_text(n: u64) -> (r: String)
    ensures
        r@ == decimal_spec(n as nat),
    decreases n,
{
    if n < 10 {
        String::from_str(digit_text(n))
    } else {
        let mut s = decimal_text(n / 10);
        s.append(digit_text(n % 10));
        s
    }
}

/// The message for `n` bytes left over in a box body.
pub open spec fn extra_data_text(n: nat) -> Seq<char> {
    decimal_spec(n) + " bytes of extra unparsed data"@
}

/// Fails with "extra unparsed data" when `buf` still holds bytes.
pub fn ensure_consumed(buf: &bytes::BytesMut, box_type: &str) -> (r: Result<(), Report<ParseError>>)
    ensures
        r is Ok <==> bytes_of(*buf).len() == 0,
        r matches Err(e) ==> e.terminal() == ParseError::InvalidInput
            && e.trail() == seq![extra_data_text(bytes_of(*buf).len()), box_type@],
{
    let left = buf_len(buf);
    if left == 0 {
        return Ok(());
    }
    let mut m = decimal_text(left as u64);
    m.append(" bytes of extra unparsed data");
    proof {
        reveal_strlit(" bytes of extra unparsed data");
    }
    let e = Report::new(ParseError::InvalidInput).attach_printable(m.as_str()).attach_printable(
        box_type,
    );
    assert(e.trail() =~= seq![extra_data_text(bytes_of(*buf).len()), box_type@]);
    Err(e)
}

impl StszBox {
    /// The box's type code, `stsz`.
    pub fn name() -> (r: FourCC)
        ensures
            r.value@ == seq![0x73u8, 0x74u8, 0x73u8, 0x7au8],
    {
        let r = FourCC { value: [0x73u8, 0x74u8, 0x73u8, 0x7au8] };
        assert(r.value@ =~= seq![0x73u8, 0x74u8, 0x73u8, 0x7au8]);
        r
    }

    /// Every fixed size is nonzero and every table fits its count field.
    pub open spec fn wf(&self) -> bool {
        match self {
            StszBox::FixedSize { size, .. } => *size != 0,
            StszBox::VariableSize { entries, .. } => entries.wf(),
        }
    }

    /// The shape where every one of `number_of_samples` samples is `size`
    /// bytes long; a zero size has no such shape.
    pub fn fixed(header: FullBoxHeader, size: u32, number_of_samples: u32) -> (r: Option<Self>)
        ensures
            size == 0 ==> r is None,
            size != 0 ==> (r matches Some(b) && b.wf()
                && b@ == (StszView::Fixed { header, size, count: number_of_samples })),
    {
        if size == 0 {
            None
        } else {
            Some(StszBox::FixedSize { header, size, number_of_samples })
        }
    }

    /// The shape that lists each sample's size.
    pub fn variable(header: FullBoxHeader, entries: BoundedArray<u32, u32>) -> (r: Self)
        requires
            entries.wf(),
        ensures
            r.wf(),
            r@ == (StszView::Variable { header, entries: entries@ }),
    {
        StszBox::VariableSize { header, entries }
    }

    /// Decodes a whole sample-size box body held in `buf`: a full-box header,
    /// a size field, then either a sample count (size nonzero) or a table of
    /// entries (size zero). Bytes left over fail the decode.
    pub fn parse(buf: &mut bytes::BytesMut) -> (r: Result<StszBox, Report<ParseError>>)
        ensures
            match stsz_spec(bytes_of(*old(buf))) {
                Ok(v) => r matches Ok(b) && b@ == v && b.wf() && bytes_of(*final(buf)).len() == 0,
                Err(k) => r matches Err(e) && e.terminal() == k,
            },
            consumed_front(bytes_of(*old(buf)), bytes_of(*final(buf))),
            bytes_of(*old(buf)).len() < 4 ==> (r matches Err(e) && e.trail().len() > 0
                && e.trail().last() == "stsz: header"@),
            4 <= bytes_of(*old(buf)).len() < 8 ==> (r matches Err(e) && e.trail().len() > 0
                && e.trail().last() == "stsz: size"@),
            8 <= bytes_of(*old(buf)).len() < 12
                && <u32 as Mp4Value>::decode_spec(bytes_of(*old(buf)).skip(4)) != 0
                ==> (r matches Err(e) && e.trail().len() > 0
                && e.trail().last() == "stsz: number_of_samples"@),
            8 <= bytes_of(*old(buf)).len()
                && <u32 as Mp4Value>::decode_spec(bytes_of(*old(buf)).skip(4)) == 0
                && bounded_array_spec::<u32, u32>(bytes_of(*old(buf)).skip(8)) is Err
                ==> (r matches Err(e) && e.trail().len() > 0
                && e.trail().last() == "stsz: entries"@),
            8 <= bytes_of(*old(buf)).len() && stsz_residual(bytes_of(*old(buf))) > 0
                ==> (r matches Err(e) && e.trail() == seq![
                extra_data_text(stsz_residual(bytes_of(*old(buf))) as nat),
                "stsz"@,
            ]),
    {
        let ghost s = bytes_of(*buf);
        let header = match FullBoxHeader::parse(buf) {
            Ok(h) => h,
            Err(e) => {
                assert(s.skip(0) =~= s);
                return Err(e.attach_printable("stsz: header"));
            },
        };
        let size = match u32::parse(buf) {
            Ok(v) => v,
            Err(e) => {
                assert(bytes_of(*buf) =~= s.skip(s.len() - bytes_of(*buf).len()));
                return Err(e.attach_printable("stsz: size"));
            },
        };
        assert(s.skip(4).skip(4) =~= s.skip(8));
        let result = if size != 0 {
            let count = match u32::parse(buf) {
                Ok(v) => v,
                Err(e) => {
                    assert(bytes_of(*buf) =~= s.skip(s.len() - bytes_of(*buf).len()));
                    return Err(e.attach_printable("stsz: number_of_samples"));
                },
            };
            assert(bytes_of(*buf) =~= s.skip(12));
            StszBox::FixedSize { header, size, number_of_samples: count }
        } else {
            assert(bytes_of(*buf) =~= s.skip(8));
            let ghost mid = bytes_of(*buf);
            assert(consumed_front(s, mid));
            let entries = match BoundedArray::parse(buf) {
                Ok(a) => a,
                Err(e) => {
                    proof {
                        lemma_consumed_front_trans(s, mid, bytes_of(*buf));
                    }
                    return Err(e.attach_printable("stsz: entries"));
                },
            };
            StszBox::VariableSize { header, entries }
        };
        assert(bytes_of(*buf) =~= s.skip(s.len() - bytes_of(*buf).len()));
        assert(bytes_of(*buf).len() == stsz_residual(s));
        match ensure_consumed(buf, "stsz") {
            Ok(()) => Ok(result),
            Err(e) => Err(e),
        }
    }

    /// The number of samples the box describes.
    pub fn sample_count(&self) -> (r: u32)
        requires
            self.wf(),
        ensures
            r == self@.sample_sizes().len(),
    {
        match self {
            StszBox::FixedSize { number_of_samples, .. } => *number_of_samples,
            StszBox::VariableSize { entries, .. } => *entries.entry_count(),
        }
    }

    /// The size of sample `i`.
    pub fn sample_size(&self, i: u32) -> (r: u32)
        requires
            self.wf(),
            i < self@.sample_sizes().len(),
        ensures
            r == self@.sample_sizes()[i as int],
    {
        match self {
            StszBox::FixedSize { size, .. } => *size,
            StszBox::VariableSize { entries, .. } => entries.entries()[i as usize],
        }
    }

    /// The size of every sample, in order: the fixed size repeated once per
    /// sample, or the listed sizes.
    pub fn sample_sizes(&self) -> (r: Vec<u32>)
        requires
            self.wf(),
        ensures
            r@ == self@.sample_sizes(),
            r@.len() == match self@ {
                StszView::Fixed { count, .. } => count as nat,
                StszView::Variable { entries, .. } => entries.len(),
            },
    {
        let n = self.sample_count();
        let mut out: Vec<u32> = Vec::new();
        let mut i: u32 = 0;
        while i < n
            invariant
                self.wf(),
                n == self@.sample_sizes().len(),
                i <= n,
                out@ == self@.sample_sizes().take(i as int),
            decreases n - i,
        {
            out.push(self.sample_size(i));
            i = i + 1;
            assert(out@ =~= self@.sample_sizes().take(i as int));
        }
        assert(out@ =~= self@.sample_sizes());
        out
    }
}

impl Default for StszBox {
    /// The table shape with no entries and a zeroed header.
    fn default() -> (r: Self)
        ensures
            r@ == (StszView::Variable { header: FullBoxHeader { version: 0, flags: 0 }, entries: Seq::empty() }),
            r.wf(),
    {
        let entries = BoundedArray::default();
        assert(entries@ =~= Seq::<u32>::empty());
        StszBox::VariableSize { header: FullBoxHeader::default(), entries }
    }
}


/// A decoded sample-size box body is consumed exactly: its length is the
/// length of what was decoded, and the same body with any one byte appended
/// fails as input left over, with one byte counted as left over.
pub proof fn lemma_stsz_exact(s: Seq<u8>, extra: u8)
    requires
        stsz_spec(s) is Ok,
    ensures
        stsz_spec(s)->Ok_0.encoded_len() == s.len(),
        stsz_spec(s.push(extra)) == Err::<StszView, ParseError>(ParseError::InvalidInput),
        stsz_residual(s.push(extra)) == 1,
{
    let t = s.push(extra);
    assert(t.skip(4).take(4) =~= s.skip(4).take(4));
    if s.len() >= 12 {
        assert(t.skip(8).take(4) =~= s.skip(8).take(4));
    }
}

/// Cutting any number of bytes off the end of a body that decodes makes it
/// fail as a truncated box.
pub proof fn lemma_stsz_truncated(s: Seq<u8>, m: int)
    requires
        stsz_spec(s) is Ok,
        0 <= m < s.len(),
    ensures
        stsz_spec(s.take(m)) == Err::<StszView, ParseError>(ParseError::TruncatedBox),
{
    let t = s.take(m);
    if m >= 8 {
        assert(t.skip(4).take(4) =~= s.skip(4).take(4));
        if m >= 12 {
            assert(t.skip(8).take(4) =~= s.skip(8).take(4));
        }
    }
}

/// A table-shaped body that declares zero entries decodes, to an empty list
/// of sample sizes.
pub proof fn lemma_stsz_zero_entries(header: Seq<u8>)
    requires
        header.len() == 4,
    ensures
        stsz_spec(header + seq![0u8, 0u8, 0u8, 0u8, 0u8, 0u8, 0u8, 0u8]) is Ok,
        stsz_spec(header + seq![0u8, 0u8, 0u8, 0u8, 0u8, 0u8, 0u8, 0u8])->Ok_0 == (StszView::Variable {
            header: full_box_header_spec(header),
            entries: Seq::empty(),
        }),
        stsz_spec(header + seq![0u8, 0u8, 0u8, 0u8, 0u8, 0u8, 0u8, 0u8])->Ok_0.sample_sizes().len() == 0,
{
    let s = header + seq![0u8, 0u8, 0u8, 0u8, 0u8, 0u8, 0u8, 0u8];
    assert(s.skip(4).take(4) =~= seq![0u8, 0u8, 0u8, 0u8]);
    assert(s.skip(8).take(4) =~= seq![0u8, 0u8, 0u8, 0u8]);
    assert(full_box_header_spec(s) == full_box_header_spec(header));
    assert(crate::array::array_entries::<u32>(s.skip(8), 4, 0) =~= Seq::<u32>::empty());
}

} // verus!
