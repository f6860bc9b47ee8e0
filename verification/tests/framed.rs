use bytes::BytesMut;
use qqbot::codec::LengthDelimitedCodec;
use qqbot::framed::{
    Decoded, Framed, FramedParts, ReadAction, ReadFrame, ReadOutcome, ReadStep, WriteFrame,
};
use qqbot::processor::client_framed;

#[test]
fn new_framed_waits_to_read() {
    let mut f = Framed::new(7u32, LengthDelimitedCodec::new());
    assert_eq!(*f.get_ref(), 7);
    assert!(f.read_buffer().is_empty());
    assert!(f.write_buffer().is_empty());
    assert_eq!(f.poll_action(), ReadAction::Read);
}

#[test]
fn get_mut_changes_the_transport() {
    let mut f = Framed::new(1u8, LengthDelimitedCodec::new());
    *f.get_mut() = 2;
    assert_eq!(f.into_inner(), 2);
}

#[test]
fn parts_round_trip_keeps_the_buffers() {
    let mut parts = FramedParts::new("io", 5u8);
    parts.read_buf.extend_from_slice(&[1, 2]);
    parts.write_buf.extend_from_slice(&[3]);
    let f = Framed::from_parts(parts);
    assert_eq!(*f.codec(), 5);
    assert_eq!(&f.read_buffer()[..], &[1, 2]);
    let back = f.into_parts();
    assert_eq!(back.io, "io");
    assert_eq!(&back.read_buf[..], &[1, 2]);
    assert_eq!(&back.write_buf[..], &[3]);
}

#[test]
fn from_parts_with_bytes_decodes_first() {
    let mut parts = FramedParts::new((), 0u8);
    parts.read_buf.extend_from_slice(&[1]);
    let mut f = Framed::from_parts(parts);
    assert_eq!(f.poll_action(), ReadAction::Decode);
}

#[test]
fn map_codec_keeps_transport_and_buffers() {
    let mut f = Framed::new(3u16, 10u32);
    f.read_buffer_mut().extend_from_slice(&[9]);
    *f.codec_mut() += 1;
    let g = f.map_codec(|c| c * 2);
    assert_eq!(*g.codec(), 22);
    assert_eq!(*g.get_ref(), 3);
    assert_eq!(&g.read_buffer()[..], &[9]);
}

#[test]
fn read_machine_frames_then_reads_then_ends() {
    let mut r = ReadFrame::default();
    assert_eq!(r.poll_action(), ReadAction::Read);
    assert_eq!(r.on_read(ReadOutcome::Bytes(4)), ReadStep::Continue);
    assert_eq!(r.poll_action(), ReadAction::Decode);
    assert_eq!(r.on_decoded(false, Decoded::Frame), ReadStep::Yield);
    assert_eq!(r.poll_action(), ReadAction::Decode);
    assert_eq!(r.on_decoded(false, Decoded::Nothing), ReadStep::Continue);
    assert_eq!(r.poll_action(), ReadAction::Read);
    assert_eq!(r.on_read(ReadOutcome::Bytes(0)), ReadStep::Continue);
    assert_eq!(r.poll_action(), ReadAction::DecodeEof);
    assert_eq!(r.on_decoded(true, Decoded::Nothing), ReadStep::End);
    assert_eq!(r.poll_action(), ReadAction::Read);
    assert_eq!(r.on_read(ReadOutcome::Bytes(0)), ReadStep::End);
    assert_eq!(r.on_read(ReadOutcome::Bytes(0)), ReadStep::End);
}

#[test]
fn read_machine_error_pauses_then_reads() {
    let mut r = ReadFrame::default();
    assert_eq!(r.on_read(ReadOutcome::Bytes(2)), ReadStep::Continue);
    assert_eq!(r.on_decoded(false, Decoded::Failed), ReadStep::Fail);
    assert_eq!(r.poll_action(), ReadAction::End);
    assert!(!r.has_errored && !r.is_readable);
    assert_eq!(r.poll_action(), ReadAction::Read);
    assert_eq!(r.on_read(ReadOutcome::Failed), ReadStep::Fail);
    assert_eq!(r.poll_action(), ReadAction::End);
    assert_eq!(r.on_read(ReadOutcome::Pending), ReadStep::Pending);
}

#[test]
fn read_frame_from_empty_or_full_buffer() {
    let r = ReadFrame::from_buffer(BytesMut::from(&[1u8, 2][..]));
    assert!(r.is_readable && !r.eof && !r.has_errored);
    assert_eq!(&r.buffer[..], &[1, 2]);
    assert!(r.buffer.capacity() >= 8192);
}

#[test]
fn write_frame_backpressure_and_writes() {
    let mut w = WriteFrame::from_buffer(BytesMut::from(&[1u8, 2, 3][..]));
    assert!(!w.needs_flush());
    assert!(w.has_pending());
    match w.on_written(0) {
        Err(qqbot::error::RQError::IO(m)) => assert_eq!(m, "failed to write frame to transport"),
        _ => panic!("a write of nothing was accepted"),
    }
    w.on_written(2).unwrap();
    assert_eq!(&w.buffer[..], &[3]);
    w.on_written(1).unwrap();
    assert!(!w.has_pending());
    let full = WriteFrame::from_buffer(BytesMut::from(&vec![0u8; 8192][..]));
    assert!(full.needs_flush());
}

#[test]
fn client_framed_uses_the_client_format() {
    let f = client_framed(0u8);
    assert_eq!(*f.get_ref(), 0);
    let mut codec = f.into_parts().codec;
    let mut buf = BytesMut::from(&[0u8, 0, 0, 5, 42][..]);
    let frame = codec.decode(&mut buf).unwrap().unwrap();
    assert_eq!(&frame[..], &[42]);
}

#[test]
fn sent_frames_decode_from_the_read_side() {
    let mut out = Framed::new((), LengthDelimitedCodec::new());
    out.start_send(bytes::Bytes::from_static(b"ping")).unwrap();
    assert!(out.has_pending_writes());
    assert!(!out.needs_flush());
    assert_eq!(&out.write_buffer()[..], &[0, 0, 0, 4, b'p', b'i', b'n', b'g']);
    let written = out.write_buffer().to_vec();
    out.on_written(written.len()).unwrap();
    assert!(!out.has_pending_writes());

    let mut inp = Framed::new((), LengthDelimitedCodec::new());
    inp.read_buffer_mut().extend_from_slice(&written[..6]);
    assert!(inp.decode_frame().unwrap().is_none());
    inp.read_buffer_mut().extend_from_slice(&written[6..]);
    let frame = inp.decode_frame().unwrap().unwrap();
    assert_eq!(&frame[..], b"ping");
    assert!(inp.read_buffer().is_empty());
}

#[test]
fn write_buffer_mut_fills_the_write_side() {
    let mut f = Framed::new((), LengthDelimitedCodec::new());
    f.write_buffer_mut().extend_from_slice(&[1, 2, 3]);
    assert!(f.has_pending_writes());
    assert!(f.on_written(0).is_err());
    f.on_written(2).unwrap();
    assert_eq!(&f.write_buffer()[..], &[3]);
}
