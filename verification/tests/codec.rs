use bytes::{Bytes, BytesMut};
use qqbot::codec::LengthDelimitedCodec;
use qqbot::error::RQError;

#[test]
fn encode_writes_a_big_endian_length_then_the_payload() {
    let mut codec = LengthDelimitedCodec::new();
    let mut dst = BytesMut::new();
    codec.encode(Bytes::from_static(b"abc"), &mut dst).unwrap();
    assert_eq!(&dst[..], &[0, 0, 0, 3, b'a', b'b', b'c']);
}

#[test]
fn decode_reads_back_an_encoded_frame_and_leaves_the_rest() {
    let mut codec = LengthDelimitedCodec::new();
    let mut buf = BytesMut::new();
    codec.encode(Bytes::from_static(b"hello"), &mut buf).unwrap();
    buf.extend_from_slice(&[0, 0]);
    let frame = codec.decode(&mut buf).unwrap().unwrap();
    assert_eq!(&frame[..], b"hello");
    assert_eq!(&buf[..], &[0, 0]);
    assert!(codec.decode(&mut buf).unwrap().is_none());
}

#[test]
fn decode_waits_for_the_whole_payload() {
    let mut codec = LengthDelimitedCodec::new();
    let mut buf = BytesMut::from(&[0u8, 0, 0, 4, 1, 2][..]);
    assert!(codec.decode(&mut buf).unwrap().is_none());
    assert_eq!(&buf[..], &[1, 2]);
    buf.extend_from_slice(&[3, 4, 5]);
    let frame = codec.decode(&mut buf).unwrap().unwrap();
    assert_eq!(&frame[..], &[1, 2, 3, 4]);
    assert_eq!(&buf[..], &[5]);
}

#[test]
fn decode_waits_for_a_whole_head() {
    let mut codec = LengthDelimitedCodec::new();
    let mut buf = BytesMut::from(&[0u8, 0][..]);
    assert!(codec.decode(&mut buf).unwrap().is_none());
    assert_eq!(&buf[..], &[0, 0]);
}

#[test]
fn decode_refuses_a_frame_over_the_maximum() {
    let mut codec = LengthDelimitedCodec::builder().max_frame_length(3).new_codec();
    let mut buf = BytesMut::from(&[0u8, 0, 0, 4, 1, 2, 3, 4][..]);
    match codec.decode(&mut buf) {
        Err(RQError::IO(m)) => assert_eq!(m, "InvalidData LengthDelimitedCodecError"),
        _ => panic!("frame over the maximum was accepted"),
    }
}

#[test]
fn encode_refuses_a_frame_over_the_maximum() {
    let mut codec = LengthDelimitedCodec::builder().max_frame_length(2).new_codec();
    let mut dst = BytesMut::new();
    assert!(codec.encode(Bytes::from_static(b"abc"), &mut dst).is_err());
    assert!(dst.is_empty());
}

#[test]
fn decode_refuses_a_length_that_overflows_after_adjustment() {
    let mut codec = LengthDelimitedCodec::builder().length_adjustment(-4).new_codec();
    let mut buf = BytesMut::from(&[0u8, 0, 0, 2, 9, 9][..]);
    match codec.decode(&mut buf) {
        Err(RQError::IO(m)) => assert_eq!(m, "provided length would overflow after adjustment"),
        _ => panic!("negative length was accepted"),
    }
}

#[test]
fn client_format_counts_the_head_in_the_length() {
    let mut codec = LengthDelimitedCodec::builder()
        .length_field_length(4)
        .length_adjustment(-4)
        .new_codec();
    let mut dst = BytesMut::new();
    codec.encode(Bytes::from_static(b"xy"), &mut dst).unwrap();
    assert_eq!(&dst[..], &[0, 0, 0, 6, b'x', b'y']);
    let frame = codec.decode(&mut dst).unwrap().unwrap();
    assert_eq!(&frame[..], b"xy");
}

#[test]
fn little_endian_two_byte_length() {
    let mut codec = LengthDelimitedCodec::builder()
        .little_endian()
        .length_field_length(2)
        .new_codec();
    let mut dst = BytesMut::new();
    codec.encode(Bytes::from_static(&[7; 3]), &mut dst).unwrap();
    assert_eq!(&dst[..], &[3, 0, 7, 7, 7]);
}

#[test]
fn offset_and_skip_drop_the_head() {
    let mut codec = LengthDelimitedCodec::builder()
        .length_field_offset(1)
        .length_field_length(1)
        .num_skip(2)
        .new_codec();
    let mut buf = BytesMut::from(&[0xAAu8, 2, b'o', b'k', 1][..]);
    let frame = codec.decode(&mut buf).unwrap().unwrap();
    assert_eq!(&frame[..], b"ok");
    assert_eq!(&buf[..], &[1]);
}

#[test]
fn decoding_does_not_depend_on_how_input_is_split() {
    let mut enc = LengthDelimitedCodec::new();
    let mut all = BytesMut::new();
    enc.encode(Bytes::from_static(b"one"), &mut all).unwrap();
    enc.encode(Bytes::from_static(b"second"), &mut all).unwrap();
    all.extend_from_slice(&[0, 0]);
    let whole: Vec<u8> = all.to_vec();
    let frames_of = |c: &mut LengthDelimitedCodec, b: &mut BytesMut, out: &mut Vec<Vec<u8>>| {
        while let Some(f) = c.decode(b).unwrap() {
            out.push(f.to_vec());
        }
    };
    let mut once = LengthDelimitedCodec::new();
    let mut buf = BytesMut::from(&whole[..]);
    let mut expected = Vec::new();
    frames_of(&mut once, &mut buf, &mut expected);
    assert_eq!(expected, vec![b"one".to_vec(), b"second".to_vec()]);
    for split in 0..=whole.len() {
        let mut c = LengthDelimitedCodec::new();
        let mut b = BytesMut::from(&whole[..split]);
        let mut got = Vec::new();
        frames_of(&mut c, &mut b, &mut got);
        b.extend_from_slice(&whole[split..]);
        frames_of(&mut c, &mut b, &mut got);
        assert_eq!(got, expected);
        assert_eq!(&b[..], &buf[..]);
    }
}
