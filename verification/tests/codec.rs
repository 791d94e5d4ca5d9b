use wavecrux_sigrok_bridge::frame::{
    encode_frame, frame_length, header_outcome, CodecError, FrameReader, FrameWriter, IoErrorKind, MAX_MESSAGE_BYTES,
};

fn written(w: &mut FrameWriter) -> Vec<u8> {
    w.get_mut().clone()
}

#[test]
fn round_trips_a_single_frame() {
    let body = b"hello world";
    let mut w = FrameWriter::new(Vec::new());
    w.write_frame(body).unwrap();

    let mut r = FrameReader::new(written(&mut w));
    let got = r.read_frame().unwrap();
    assert_eq!(got, body);
}

#[test]
fn round_trips_three_back_to_back_frames() {
    let mut w = FrameWriter::new(Vec::new());
    w.write_frame(b"first").unwrap();
    w.write_frame(b"").unwrap();
    w.write_frame(b"third frame, larger payload").unwrap();
    let mut r = FrameReader::new(written(&mut w));
    assert_eq!(r.read_frame().unwrap(), b"first");
    assert_eq!(r.read_frame().unwrap(), b"");
    assert_eq!(r.read_frame().unwrap(), b"third frame, larger payload");
    // Subsequent read returns peer-closed.
    assert!(matches!(r.read_frame().unwrap_err(), CodecError::PeerClosed));
}

#[test]
fn rejects_oversize_frame_at_read() {
    let mut buf: Vec<u8> = Vec::new();
    buf.extend_from_slice(&(MAX_MESSAGE_BYTES + 1).to_le_bytes());
    // No body needs to follow; the reader fails on the length.
    let mut r = FrameReader::new(buf);
    let err = r.read_frame().unwrap_err();
    assert!(matches!(err, CodecError::FrameTooLarge { .. }));
}

#[test]
fn write_then_read_preserves_unicode() {
    let body = "annotation: 日本語 + ñ + 🚀".as_bytes();
    let mut w = FrameWriter::new(Vec::new());
    w.write_frame(body).unwrap();
    let got = FrameReader::new(written(&mut w)).read_frame().unwrap();
    assert_eq!(got, body);
}

#[test]
fn frame_bytes_are_little_endian_length_then_body() {
    let bytes = encode_frame(b"abc").unwrap();
    assert_eq!(bytes, vec![3, 0, 0, 0, b'a', b'b', b'c']);
    let big = vec![7u8; 0x0102];
    let bytes = encode_frame(&big).unwrap();
    assert_eq!(&bytes[..4], &[0x02, 0x01, 0x00, 0x00]);
    assert_eq!(bytes.len(), 4 + 0x0102);
}

#[test]
fn frame_length_reads_header_little_endian() {
    assert_eq!(frame_length([1, 0, 0, 0]), Ok(1));
    assert_eq!(frame_length([0x00, 0x00, 0x00, 0x01]), Ok(MAX_MESSAGE_BYTES));
    assert_eq!(
        frame_length([0x01, 0x00, 0x00, 0x01]),
        Err(CodecError::FrameTooLarge { actual: MAX_MESSAGE_BYTES + 1, limit: MAX_MESSAGE_BYTES })
    );
}

#[test]
fn writer_refuses_oversize_body_and_writes_nothing() {
    let body = vec![0u8; MAX_MESSAGE_BYTES as usize + 1];
    let mut w = FrameWriter::new(vec![9u8]);
    let err = w.write_frame(&body).unwrap_err();
    assert_eq!(
        err,
        CodecError::FrameTooLarge { actual: MAX_MESSAGE_BYTES + 1, limit: MAX_MESSAGE_BYTES }
    );
    assert_eq!(written(&mut w), vec![9u8]);
}

#[test]
fn body_at_the_cap_is_accepted() {
    let body = vec![5u8; MAX_MESSAGE_BYTES as usize];
    let mut w = FrameWriter::new(Vec::new());
    w.write_frame(&body).unwrap();
    let got = FrameReader::new(written(&mut w)).read_frame().unwrap();
    assert_eq!(got.len(), MAX_MESSAGE_BYTES as usize);
}

#[test]
fn truncated_body_or_header_is_an_io_error_and_empty_stream_is_peer_closed() {
    let mut r = FrameReader::new(vec![5, 0, 0, 0, b'a', b'b']);
    assert_eq!(r.read_frame().unwrap_err(), CodecError::Io(IoErrorKind::UnexpectedEof));
    let mut r = FrameReader::new(vec![5, 0]);
    assert_eq!(r.read_frame().unwrap_err(), CodecError::Io(IoErrorKind::UnexpectedEof));
    let mut r = FrameReader::new(Vec::new());
    assert_eq!(r.read_frame().unwrap_err(), CodecError::PeerClosed);
}

#[test]
fn oversize_header_consumes_only_the_header() {
    let mut buf: Vec<u8> = Vec::new();
    buf.extend_from_slice(&(MAX_MESSAGE_BYTES + 1).to_le_bytes());
    buf.extend_from_slice(&[2, 0, 0, 0, b'o', b'k']);
    let mut r = FrameReader::new(buf);
    assert!(matches!(r.read_frame().unwrap_err(), CodecError::FrameTooLarge { .. }));
    assert_eq!(r.read_frame().unwrap(), b"ok");
}

#[test]
fn codec_error_messages() {
    assert_eq!(CodecError::PeerClosed.message(), "peer closed the pipe");
    assert_eq!(
        CodecError::FrameTooLarge { actual: 17, limit: 16 }.message(),
        "frame too large: 17 bytes (limit 16)"
    );
}

#[test]
fn header_outcome_follows_what_the_stream_yielded() {
    assert_eq!(header_outcome(&[]), Err(CodecError::PeerClosed));
    assert_eq!(header_outcome(&[5, 0]), Err(CodecError::Io(IoErrorKind::UnexpectedEof)));
    assert_eq!(header_outcome(&[5, 0, 0, 0]), Ok(5));
    assert_eq!(
        header_outcome(&[0, 0, 0, 2]),
        Err(CodecError::FrameTooLarge { actual: 0x0200_0000, limit: MAX_MESSAGE_BYTES })
    );
}
