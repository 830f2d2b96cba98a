use bytes::BytesMut;
use mediasan::array::BoundedArray;
use mediasan::error::ParseError;
use mediasan::header::FullBoxHeader;
use mediasan::value::Mp4Value;
use mediasan::stsz::{StszBox, decimal_text, ensure_consumed};

fn be(v: u32) -> [u8; 4] {
    v.to_be_bytes()
}

fn body(parts: &[u32]) -> Vec<u8> {
    let mut out = Vec::new();
    for p in parts {
        out.extend_from_slice(&be(*p));
    }
    out
}

fn decode(bytes: &[u8]) -> Result<StszBox, ParseError> {
    let mut buf = BytesMut::from(bytes);
    StszBox::parse(&mut buf).map_err(|e| e.into_inner())
}

#[test]
fn variable_shape_yields_listed_sizes() {
    let b = decode(&body(&[0, 0, 3, 10, 20, 30])).unwrap();
    assert!(matches!(b, StszBox::VariableSize { .. }));
    assert_eq!(b.sample_sizes(), vec![10, 20, 30]);
    assert_eq!(b.sample_count(), 3);
    assert_eq!(b.sample_size(1), 20);
}

#[test]
fn fixed_shape_repeats_size() {
    let b = decode(&body(&[0, 42, 5])).unwrap();
    match b {
        StszBox::FixedSize { size, number_of_samples, .. } => {
            assert_eq!(size, 42);
            assert_eq!(number_of_samples, 5);
        }
        StszBox::VariableSize { .. } => panic!("wrong shape"),
    }
    assert_eq!(b.sample_sizes(), vec![42, 42, 42, 42, 42]);
    assert_eq!(b.sample_count(), 5);
}

#[test]
fn zero_entries_decode_to_empty() {
    let b = decode(&body(&[0, 0, 0])).unwrap();
    assert!(matches!(b, StszBox::VariableSize { .. }));
    assert_eq!(b.sample_sizes(), Vec::<u32>::new());
    assert_eq!(b.sample_count(), 0);
}

#[test]
fn header_fields_are_read() {
    let mut bytes = vec![1u8, 0x0a, 0x0b, 0x0c];
    bytes.extend_from_slice(&body(&[7, 1]));
    let b = decode(&bytes).unwrap();
    match b {
        StszBox::FixedSize { header, .. } => {
            assert_eq!(header.version, 1);
            assert_eq!(header.flags, 0x0a0b0c);
        }
        StszBox::VariableSize { .. } => panic!("wrong shape"),
    }
}

#[test]
fn extra_trailing_byte_is_rejected() {
    for extra in [0u8, 1, 0xff] {
        let mut fixed = body(&[0, 42, 5]);
        fixed.push(extra);
        assert_eq!(decode(&fixed).unwrap_err(), ParseError::InvalidInput);
        let mut variable = body(&[0, 0, 2, 1, 2]);
        variable.push(extra);
        assert_eq!(decode(&variable).unwrap_err(), ParseError::InvalidInput);
    }
}

#[test]
fn extra_data_report_names_byte_count() {
    let mut bytes = body(&[0, 42, 5]);
    bytes.extend_from_slice(&[9, 9, 9]);
    let mut buf = BytesMut::from(&bytes[..]);
    let report = StszBox::parse(&mut buf).unwrap_err();
    assert_eq!(*report.get_ref(), ParseError::InvalidInput);
    assert!(report.debug_string().contains("3 bytes of extra unparsed data"));
}

#[test]
fn every_truncation_is_rejected() {
    for valid in [body(&[0, 42, 5]), body(&[0, 0, 3, 10, 20, 30]), body(&[0, 0, 0])] {
        for cut in 1..=valid.len() {
            let short = &valid[..valid.len() - cut];
            assert_eq!(decode(short).unwrap_err(), ParseError::TruncatedBox, "cut {cut}");
        }
    }
}

#[test]
fn huge_declared_count_is_truncation() {
    assert_eq!(decode(&body(&[0, 0, u32::MAX, 1])).unwrap_err(), ParseError::TruncatedBox);
}

#[test]
fn default_is_empty_table() {
    let b = StszBox::default();
    match &b {
        StszBox::VariableSize { header, entries } => {
            assert_eq!(*header, FullBoxHeader { version: 0, flags: 0 });
            assert_eq!(*entries.entry_count(), 0);
        }
        StszBox::FixedSize { .. } => panic!("default must be the table shape"),
    }
    assert!(b.sample_sizes().is_empty());
}

#[test]
fn bounded_array_reads_declared_count() {
    let mut buf = BytesMut::from(&body(&[2, 5, 6, 7])[..]);
    let a = BoundedArray::<u32, u32>::parse(&mut buf).ok().unwrap();
    assert_eq!(*a.entry_count(), 2);
    assert_eq!(a.entries(), &vec![5, 6]);
    assert_eq!(&buf[..], &be(7)[..]);
    let mut short = BytesMut::from(&body(&[3, 5, 6])[..]);
    let err = BoundedArray::<u32, u32>::parse(&mut short).err().unwrap();
    assert_eq!(err.into_inner(), ParseError::TruncatedBox);
    assert_eq!(*BoundedArray::<u32, u32>::new(vec![1, 2, 3]).entry_count(), 3);
}

#[test]
fn bounded_array_of_other_widths() {
    let mut buf = BytesMut::from(&[0u8, 2, 0, 0, 0, 0, 0, 0, 0, 1, 0xff, 0, 0, 0, 0, 0, 0, 2, 9][..]);
    let a = BoundedArray::<u16, u64>::parse(&mut buf).ok().unwrap();
    assert_eq!(*a.entry_count(), 2);
    assert_eq!(a.entries(), &vec![1u64, 0xff00_0000_0000_0002]);
    assert_eq!(&buf[..], &[9u8][..]);
    let mut empty = BytesMut::from(&[0u8, 0, 0, 0, 0, 0, 0, 0][..]);
    let e = BoundedArray::<u64, u8>::parse(&mut empty).ok().unwrap();
    assert!(e.entries().is_empty());
    assert!(empty.is_empty());
    let mut cut = BytesMut::from(&[0u8][..]);
    let err = BoundedArray::<u16, u8>::parse(&mut cut).err().unwrap();
    assert_eq!(err.into_inner(), ParseError::TruncatedBox);
}

#[test]
fn primitive_field_reads_big_endian() {
    let mut buf = BytesMut::from(&[0x01u8, 0x02, 0x03, 0x04, 0x05][..]);
    assert_eq!(u32::parse(&mut buf).ok().unwrap(), 0x01020304);
    assert_eq!(buf.len(), 1);
    assert_eq!(u32::parse(&mut buf).err().unwrap().into_inner(), ParseError::TruncatedBox);
    assert_eq!(buf.len(), 1);
    assert_eq!(u8::parse(&mut buf).ok().unwrap(), 5);
    let mut wide = BytesMut::from(&[1u8, 2, 3, 4, 5, 6, 7, 8, 9, 10][..]);
    assert_eq!(u16::parse(&mut wide).ok().unwrap(), 0x0102);
    assert_eq!(u64::parse(&mut wide).ok().unwrap(), 0x030405060708090a);
    assert!(u8::parse(&mut wide).is_err());
    assert_eq!(u64::encoded_size(), 8);
}

#[test]
fn decimal_and_consumption_check() {
    assert_eq!(decimal_text(0), "0");
    assert_eq!(decimal_text(1234567890), "1234567890");
    assert!(ensure_consumed(&BytesMut::new(), "stsz").is_ok());
    let report = ensure_consumed(&BytesMut::from(&[1u8, 2][..]), "stsz").unwrap_err();
    assert_eq!(report.debug_string(), "invalid input\n - 2 bytes of extra unparsed data\n - stsz");
}

#[test]
fn box_name_is_stsz() {
    assert_eq!(StszBox::name().value, *b"stsz");
}

#[test]
fn named_constructors() {
    let h = FullBoxHeader { version: 0, flags: 0 };
    assert!(StszBox::fixed(h, 0, 3).is_none());
    let b = StszBox::fixed(h, 9, 2).unwrap();
    assert_eq!(b.sample_sizes(), vec![9, 9]);
    let v = StszBox::variable(h, BoundedArray::new(vec![4, 5]));
    assert_eq!(v.sample_sizes(), vec![4, 5]);
}

fn failure_trail(bytes: &[u8]) -> (ParseError, String, usize) {
    let mut buf = BytesMut::from(bytes);
    let before = buf.len();
    let report = StszBox::parse(&mut buf).err().unwrap();
    let left = buf.len();
    assert_eq!(&bytes[before - left..], &buf[..]);
    (*report.get_ref(), report.render(), left)
}

#[test]
fn failures_name_the_field() {
    let (k, text, _) = failure_trail(&[0, 0]);
    assert_eq!(k, ParseError::TruncatedBox);
    assert!(text.ends_with(" - stsz: header"));
    let (_, text, _) = failure_trail(&[0, 0, 0, 0, 0, 0]);
    assert!(text.ends_with(" - stsz: size"));
    let (k, text, _) = failure_trail(&[0, 0, 0, 0, 0, 0, 0, 42, 0, 0]);
    assert_eq!(k, ParseError::TruncatedBox);
    assert!(text.ends_with(" - stsz: number_of_samples"));
    let (_, text, _) = failure_trail(&body(&[0, 0, 2, 1]));
    assert!(text.ends_with(" - stsz: entries"));
}

#[test]
fn one_extra_byte_report() {
    let (k, text, left) = failure_trail(&[0, 0, 0, 0, 0, 0, 0, 42, 0, 0, 0, 5, 0xff]);
    assert_eq!(k, ParseError::InvalidInput);
    assert_eq!(text, "invalid input\n - 1 bytes of extra unparsed data\n - stsz");
    assert_eq!(left, 1);
}
