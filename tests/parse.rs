use bytes::BytesMut;
use mediasan::error::{Error, ParseError};
use mediasan::header::{BoxHeader, BoxSize};
use mediasan::parse::{parse, parse_box, BoxData};
use mediasan::stsz::StszBox;

fn boxed(kind: &[u8; 4], payload: &[u8]) -> Vec<u8> {
    let mut out = ((payload.len() + 8) as u32).to_be_bytes().to_vec();
    out.extend_from_slice(kind);
    out.extend_from_slice(payload);
    out
}

fn stsz_payload() -> Vec<u8> {
    let mut p = vec![0u8; 8];
    p.extend_from_slice(&2u32.to_be_bytes());
    p.extend_from_slice(&100u32.to_be_bytes());
    p.extend_from_slice(&200u32.to_be_bytes());
    p
}

fn parse_err(bytes: &[u8]) -> ParseError {
    match parse(bytes) {
        Err(Error::Parse(r)) => r.into_inner(),
        Err(Error::Io(_)) => panic!("parsing never does I/O"),
        Ok(_) => panic!("expected failure"),
    }
}

#[test]
fn parses_sequence_of_boxes() {
    let mut data = boxed(b"free", &[1, 2, 3]);
    data.extend(boxed(b"stsz", &stsz_payload()));
    let boxes = parse(&data).ok().unwrap();
    assert_eq!(boxes.len(), 2);
    assert_eq!(boxes[0].header.box_type.value, *b"free");
    assert_eq!(boxes[0].header.box_size, BoxSize::Size(11));
    match &boxes[0].data {
        BoxData::Unknown(v) => assert_eq!(v, &vec![1, 2, 3]),
        BoxData::Stsz(_) => panic!("wrong kind"),
    }
    match &boxes[1].data {
        BoxData::Stsz(b) => assert_eq!(b.sample_sizes(), vec![100, 200]),
        BoxData::Unknown(_) => panic!("wrong kind"),
    }
}

#[test]
fn empty_input_is_no_boxes() {
    assert_eq!(parse(&[]).ok().unwrap().len(), 0);
}

#[test]
fn large_size_header() {
    let mut data = 1u32.to_be_bytes().to_vec();
    data.extend_from_slice(b"mdat");
    data.extend_from_slice(&18u64.to_be_bytes());
    data.extend_from_slice(&[7, 8]);
    let mut buf = BytesMut::from(&data[..]);
    let b = parse_box(&mut buf).ok().unwrap();
    assert_eq!(b.header.box_size, BoxSize::Ext(18));
    assert!(buf.is_empty());
    match b.data {
        BoxData::Unknown(v) => assert_eq!(v, vec![7, 8]),
        BoxData::Stsz(_) => panic!("wrong kind"),
    }
}

#[test]
fn size_zero_runs_to_end() {
    let mut data = 0u32.to_be_bytes().to_vec();
    data.extend_from_slice(b"stsz");
    data.extend_from_slice(&stsz_payload());
    let boxes = parse(&data).ok().unwrap();
    assert_eq!(boxes[0].header.box_size, BoxSize::UntilEof);
    assert!(matches!(boxes[0].data, BoxData::Stsz(StszBox::VariableSize { .. })));
}

#[test]
fn leaves_following_bytes() {
    let mut data = boxed(b"free", &[]);
    data.extend_from_slice(&[0xaa, 0xbb]);
    let mut buf = BytesMut::from(&data[..]);
    let b = parse_box(&mut buf).ok().unwrap();
    let BoxHeader { box_size, .. } = b.header;
    assert_eq!(box_size, BoxSize::Size(8));
    assert_eq!(&buf[..], &[0xaa, 0xbb]);
}

#[test]
fn declared_size_beyond_buffer_is_truncation() {
    let mut data = boxed(b"free", &[1, 2, 3, 4]);
    data.pop();
    assert_eq!(parse_err(&data), ParseError::TruncatedBox);
    assert_eq!(parse_err(&[0, 0, 0]), ParseError::TruncatedBox);
}

#[test]
fn size_smaller_than_header_is_invalid_layout() {
    let mut data = 4u32.to_be_bytes().to_vec();
    data.extend_from_slice(b"free");
    assert_eq!(parse_err(&data), ParseError::InvalidBoxLayout);
    let mut large = 1u32.to_be_bytes().to_vec();
    large.extend_from_slice(b"free");
    large.extend_from_slice(&8u64.to_be_bytes());
    assert_eq!(parse_err(&large), ParseError::InvalidBoxLayout);
}

#[test]
fn stsz_box_with_extra_body_byte_fails() {
    let mut payload = stsz_payload();
    payload.push(0);
    assert_eq!(parse_err(&boxed(b"stsz", &payload)), ParseError::InvalidInput);
}

#[test]
fn truncated_stsz_box_fails() {
    let full = boxed(b"stsz", &stsz_payload());
    for cut in 1..=full.len() {
        let mut buf = BytesMut::from(&full[..full.len() - cut]);
        let err = parse_box(&mut buf).err().unwrap();
        assert_eq!(*err.get_ref(), ParseError::TruncatedBox);
    }
}
