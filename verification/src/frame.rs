//! Length-prefixed framing for the IPC protocol.
//!
//! Each message on the pipe is a little-endian `u32` byte count followed
//! by that many bytes of UTF-8 JSON.  Bodies longer than
//! [`MAX_MESSAGE_BYTES`] are refused on both the writing and the reading
//! side, before any JSON parsing happens.

use vstd::prelude::*;
use byteorder::{ByteOrder, LittleEndian};

verus! {

/// Maximum bytes in a single IPC message (16 MiB).
pub const MAX_MESSAGE_BYTES: u32 = 16777216;

/// Number of bytes in a frame header.
pub const HEADER_BYTES: usize = 4;

/// The four little-endian bytes of `n`.
pub open spec fn le_bytes(n: u32) -> Seq<u8> {
    seq![(n & 0xff) as u8, ((n >> 8) & 0xff) as u8, ((n >> 16) & 0xff) as u8, ((n >> 24) & 0xff) as u8]
}

/// The `u32` whose little-endian bytes are `b0 b1 b2 b3`.
pub open spec fn le_value(b0: u8, b1: u8, b2: u8, b3: u8) -> u32 {
    (b0 as u32) | (b1 as u32) << 8 | (b2 as u32) << 16 | (b3 as u32) << 24
}

/// The value of the first four bytes of `s`, read little-endian.
pub open spec fn header_value(s: Seq<u8>) -> u32 {
    le_value(s[0], s[1], s[2], s[3])
}

/// Reading back the bytes of `n` gives `n`.
pub proof fn lemma_le_roundtrip(n: u32)
    ensures
        header_value(le_bytes(n)) == n,
{
    let b = le_bytes(n);
    assert(b[0] == (n & 0xff) as u8);
    assert(b[1] == ((n >> 8) & 0xff) as u8);
    assert(b[2] == ((n >> 16) & 0xff) as u8);
    assert(b[3] == ((n >> 24) & 0xff) as u8);
    assert(n == le_value((n & 0xff) as u8, ((n >> 8) & 0xff) as u8, ((n >> 16) & 0xff) as u8,
        ((n >> 24) & 0xff) as u8)) by (bit_vector);
}

/// `byteorder`'s `LittleEndian::read_u32`: the value of the first four
/// bytes of `buf`, least significant first.  It panics on a buffer
/// shorter than four bytes, which the array type rules out.
#[verifier::external_body]
fn read_u32_le(buf: [u8; 4]) -> (n: u32)
    ensures
        n == header_value(buf@),
{
    LittleEndian::read_u32(&buf)
}

/// `byteorder`'s `LittleEndian::write_u32` into a fresh four-byte array:
/// the bytes of `n`, least significant first.
#[verifier::external_body]
fn write_u32_le(n: u32) -> (b: [u8; 4])
    ensures
        b@ == le_bytes(n),
{
    let mut b = [0u8; 4];
    LittleEndian::write_u32(&mut b, n);
    b
}


/// Why an underlying read failed.
#[derive(Clone, Copy, Debug, PartialEq, Eq, Structural)]
pub enum IoErrorKind {
    /// The stream ended in the middle of a frame.
    UnexpectedEof,
    /// Any other failure of the underlying stream.
    Other,
}

/// Codec-level errors. Higher layers convert these into protocol-level
/// errors that the peer can interpret.
#[derive(Clone, Copy, Debug, PartialEq, Eq, Structural)]
pub enum CodecError {
    /// The underlying stream failed.
    Io(IoErrorKind),
    /// The stream ended before a frame began.
    PeerClosed,
    /// A frame's length exceeds [`MAX_MESSAGE_BYTES`].
    FrameTooLarge { actual: u32, limit: u32 },
}

/// The bytes of one frame carrying `body`: its length, then the body.
pub open spec fn frame_bytes(body: Seq<u8>) -> Seq<u8> {
    le_bytes(body.len() as u32) + body
}

/// What writing `body` as one frame produces: the frame's bytes, or the
/// error for a body that is too long.
pub open spec fn encode_spec(body: Seq<u8>) -> Result<Seq<u8>, CodecError> {
    if body.len() > u32::MAX {
        Err(CodecError::FrameTooLarge { actual: u32::MAX, limit: MAX_MESSAGE_BYTES })
    } else if body.len() > MAX_MESSAGE_BYTES {
        Err(CodecError::FrameTooLarge { actual: body.len() as u32, limit: MAX_MESSAGE_BYTES })
    } else {
        Ok(frame_bytes(body))
    }
}

/// What reading one frame from the byte stream `s` (which ends after its
/// last byte) gives, and the bytes left unread afterwards.
///
///   * no bytes at all: the peer closed before a frame began;
///   * one to three bytes: the stream ended inside a header, an I/O error;
///   * a length above the cap: refused, only the header is consumed;
///   * a body cut short by the end of the stream: an I/O error;
///   * otherwise the body, and the stream after it.
pub open spec fn decode_spec(s: Seq<u8>) -> (Result<Seq<u8>, CodecError>, Seq<u8>) {
    if s.len() == 0 {
        (Err(CodecError::PeerClosed), Seq::empty())
    } else if s.len() < 4 {
        (Err(CodecError::Io(IoErrorKind::UnexpectedEof)), Seq::empty())
    } else if header_value(s) > MAX_MESSAGE_BYTES {
        (
            Err(CodecError::FrameTooLarge { actual: header_value(s), limit: MAX_MESSAGE_BYTES }),
            s.skip(4),
        )
    } else if s.len() - 4 < header_value(s) {
        (Err(CodecError::Io(IoErrorKind::UnexpectedEof)), Seq::empty())
    } else {
        (Ok(s.subrange(4, 4 + header_value(s))), s.skip(4 + header_value(s)))
    }
}

/// Checks a frame header: the body length it announces, or
/// `FrameTooLarge` when that length exceeds the cap.
pub fn frame_length(header: [u8; 4]) -> (r: Result<u32, CodecError>)
    ensures
        header_value(header@) <= MAX_MESSAGE_BYTES ==> r == Ok::<u32, CodecError>(header_value(header@)),
        header_value(header@) > MAX_MESSAGE_BYTES ==> r == Err::<u32, CodecError>(
            CodecError::FrameTooLarge { actual: header_value(header@), limit: MAX_MESSAGE_BYTES },
        ),
{
    let len = read_u32_le(header);
    if len > MAX_MESSAGE_BYTES {
        Err(CodecError::FrameTooLarge { actual: len, limit: MAX_MESSAGE_BYTES })
    } else {
        Ok(len)
    }
}

/// What a header read from a stream gives, where `got` is what the stream
/// yielded before it ended or the four header bytes were in: the
/// announced length for a full header within the cap, `FrameTooLarge`
/// above it; for a stream that ended first, the error [`decode_spec`]
/// gives for it (`PeerClosed` when it ended before the first byte, an
/// I/O error inside the header).
pub fn header_outcome(got: &[u8]) -> (r: Result<u32, CodecError>)
    requires
        got@.len() <= 4,
    ensures
        got@.len() < 4 ==> r is Err && decode_spec(got@).0 == Err::<Seq<u8>, CodecError>(r->Err_0),
        got@.len() == 4 && header_value(got@) <= MAX_MESSAGE_BYTES ==> r == Ok::<u32, CodecError>(header_value(got@)),
        got@.len() == 4 && header_value(got@) > MAX_MESSAGE_BYTES ==> r == Err::<u32, CodecError>(
            CodecError::FrameTooLarge { actual: header_value(got@), limit: MAX_MESSAGE_BYTES },
        ),
{
    if got.len() == 0 {
        Err(CodecError::PeerClosed)
    } else if got.len() < 4 {
        Err(CodecError::Io(IoErrorKind::UnexpectedEof))
    } else {
        let header: [u8; 4] = [got[0], got[1], got[2], got[3]];
        assert(header@ =~= got@);
        frame_length(header)
    }
}

/// The bytes of one frame carrying `body`, or the error for a body longer
/// than the cap.
pub fn encode_frame(body: &[u8]) -> (r: Result<Vec<u8>, CodecError>)
    ensures
        match r {
            Ok(bytes) => encode_spec(body@) == Ok::<Seq<u8>, CodecError>(bytes@),
            Err(e) => encode_spec(body@) == Err::<Seq<u8>, CodecError>(e),
        },
{
    if body.len() > 4294967295usize {
        return Err(CodecError::FrameTooLarge { actual: u32::MAX, limit: MAX_MESSAGE_BYTES });
    }
    let len = body.len() as u32;
    if len > MAX_MESSAGE_BYTES {
        return Err(CodecError::FrameTooLarge { actual: len, limit: MAX_MESSAGE_BYTES });
    }
    let header = write_u32_le(len);
    let mut out: Vec<u8> = Vec::new();
    out.push(header[0]);
    out.push(header[1]);
    out.push(header[2]);
    out.push(header[3]);
    assert(out@ == le_bytes(len));
    let mut i: usize = 0;
    while i < body.len()
        invariant
            i <= body@.len(),
            out@ == le_bytes(len) + body@.subrange(0, i as int),
        decreases body@.len() - i,
    {
        out.push(body[i]);
        i = i + 1;
        assert(body@.subrange(0, i as int) == body@.subrange(0, i - 1 as int).push(body@[i - 1]));
    }
    assert(body@.subrange(0, body@.len() as int) == body@);
    Ok(out)
}

/// Reads length-prefixed frames from a byte stream held in memory; the
/// stream ends after its last byte.
pub struct FrameReader {
    inner: Vec<u8>,
    pos: usize,
}

impl FrameReader {
    #[verifier::type_invariant]
    closed spec fn inv(&self) -> bool {
        self.pos <= self.inner@.len()
    }

    /// The bytes not yet read.
    pub closed spec fn remaining(&self) -> Seq<u8> {
        self.inner@.skip(self.pos as int)
    }

    /// A reader positioned at the start of `inner`.
    pub fn new(inner: Vec<u8>) -> (r: Self)
        ensures
            r.remaining() == inner@,
    {
        let r = Self { inner, pos: 0 };
        assert(r.inner@.skip(0) == r.inner@);
        r
    }

    /// Reads one frame and returns its body.
    ///
    /// Returns [`CodecError::PeerClosed`] when the stream ends before a
    /// frame begins; a frame (its header included) cut short by the end
    /// of the stream is an
    /// [`CodecError::Io`] error; a length above the cap is
    /// [`CodecError::FrameTooLarge`].
    pub fn read_frame(&mut self) -> (r: Result<Vec<u8>, CodecError>)
        ensures
            final(self).remaining() == decode_spec(old(self).remaining()).1,
            match r {
                Ok(body) => decode_spec(old(self).remaining()).0 == Ok::<Seq<u8>, CodecError>(body@),
                Err(e) => decode_spec(old(self).remaining()).0 == Err::<Seq<u8>, CodecError>(e),
            },
    {
        proof {
            use_type_invariant(&*self);
        }
        let ghost s = self.remaining();
        let avail = self.inner.len() - self.pos;
        if avail < 4 {
            self.pos = self.inner.len();
            assert(self.inner@.skip(self.inner@.len() as int) == Seq::<u8>::empty());
            if avail == 0 {
                return Err(CodecError::PeerClosed);
            }
            return Err(CodecError::Io(IoErrorKind::UnexpectedEof));
        }
        let p = self.pos;
        let header: [u8; 4] = [self.inner[p], self.inner[p + 1], self.inner[p + 2], self.inner[p + 3]];
        assert(header@ =~= s.subrange(0, 4));
        let len = match frame_length(header) {
            Ok(n) => n,
            Err(e) => {
                self.pos = p + 4;
                assert(self.inner@.skip(p + 4) =~= s.skip(4));
                return Err(e);
            },
        };
        if avail - 4 < len as usize {
            self.pos = self.inner.len();
            assert(self.inner@.skip(self.inner@.len() as int) == Seq::<u8>::empty());
            return Err(CodecError::Io(IoErrorKind::UnexpectedEof));
        }
        let start = p + 4;
        let end = start + len as usize;
        let mut body: Vec<u8> = Vec::new();
        let mut i = start;
        while i < end
            invariant
                start <= i <= end,
                end <= self.inner@.len(),
                body@ == self.inner@.subrange(start as int, i as int),
            decreases end - i,
        {
            body.push(self.inner[i]);
            i = i + 1;
            assert(self.inner@.subrange(start as int, i as int)
                == self.inner@.subrange(start as int, i - 1 as int).push(self.inner@[i - 1]));
        }
        self.pos = end;
        assert(body@ =~= s.subrange(4, 4 + len as int));
        assert(self.inner@.skip(end as int) =~= s.skip(4 + len as int));
        Ok(body)
    }
}

/// Writes length-prefixed frames to a byte sink held in memory.
pub struct FrameWriter {
    inner: Vec<u8>,
}

impl FrameWriter {
    /// Everything written so far, after the sink's initial contents.
    pub closed spec fn written(&self) -> Seq<u8> {
        self.inner@
    }

    /// A writer that appends to `inner`.
    pub fn new(inner: Vec<u8>) -> (w: Self)
        ensures
            w.written() == inner@,
    {
        Self { inner }
    }

    /// Writes a single frame whose body is `body`; a body longer than the
    /// cap is refused and nothing is written.
    pub fn write_frame(&mut self, body: &[u8]) -> (r: Result<(), CodecError>)
        ensures
            match encode_spec(body@) {
                Ok(bytes) => r is Ok && final(self).written() == old(self).written() + bytes,
                Err(e) => r == Err::<(), CodecError>(e) && final(self).written() == old(self).written(),
            },
    {
        let mut bytes = encode_frame(body)?;
        self.inner.append(&mut bytes);
        Ok(())
    }

    /// Borrows the underlying sink for advanced use.
    pub fn get_mut(&mut self) -> (sink: &mut Vec<u8>)
        ensures
            sink@ == old(self).written(),
            final(self).written() == final(sink)@,
    {
        &mut self.inner
    }
}

// ── Laws ─────────────────────────────────────────────────────────────

/// Reading a frame gives back exactly the body that was written, and
/// leaves whatever followed the frame unread.
pub proof fn lemma_read_returns_written(body: Seq<u8>, rest: Seq<u8>)
    requires
        body.len() <= MAX_MESSAGE_BYTES,
    ensures
        encode_spec(body) == Ok::<Seq<u8>, CodecError>(frame_bytes(body)),
        decode_spec(frame_bytes(body) + rest) == (Ok::<Seq<u8>, CodecError>(body), rest),
{
    let s = frame_bytes(body) + rest;
    lemma_le_roundtrip(body.len() as u32);
    assert(s.subrange(0, 4) =~= le_bytes(body.len() as u32));
    assert(header_value(s) == header_value(le_bytes(body.len() as u32)));
    assert(s.subrange(4, 4 + body.len() as int) =~= body);
    assert(s.skip(4 + body.len() as int) =~= rest);
}

/// The bytes of the frames carrying `bodies`, one after the other.
pub open spec fn frames_bytes(bodies: Seq<Seq<u8>>) -> Seq<u8>
    decreases bodies.len(),
{
    if bodies.len() == 0 {
        Seq::empty()
    } else {
        frame_bytes(bodies[0]) + frames_bytes(bodies.drop_first())
    }
}

/// Frames written back to back are read back one at a time, in order,
/// and once they are all read the reader reports that the peer closed.
pub proof fn lemma_frames_read_in_order(bodies: Seq<Seq<u8>>)
    requires
        forall|i: int| 0 <= i < bodies.len() ==> (#[trigger] bodies[i]).len() <= MAX_MESSAGE_BYTES,
    ensures
        bodies.len() == 0 ==> decode_spec(frames_bytes(bodies)) == (
            Err::<Seq<u8>, CodecError>(CodecError::PeerClosed),
            Seq::<u8>::empty(),
        ),
        bodies.len() > 0 ==> decode_spec(frames_bytes(bodies)) == (
            Ok::<Seq<u8>, CodecError>(bodies[0]),
            frames_bytes(bodies.drop_first()),
        ),
{
    if bodies.len() > 0 {
        lemma_read_returns_written(bodies[0], frames_bytes(bodies.drop_first()));
    }
}

/// A header that announces more than the cap is refused whatever
/// follows it, and only the header is consumed.
pub proof fn lemma_oversize_header_refused(len: u32, rest: Seq<u8>)
    requires
        len > MAX_MESSAGE_BYTES,
    ensures
        decode_spec(le_bytes(len) + rest) == (
            Err::<Seq<u8>, CodecError>(CodecError::FrameTooLarge { actual: len, limit: MAX_MESSAGE_BYTES }),
            rest,
        ),
{
    let s = le_bytes(len) + rest;
    lemma_le_roundtrip(len);
    assert(s.subrange(0, 4) =~= le_bytes(len));
    assert(header_value(s) == header_value(le_bytes(len)));
    assert(s.skip(4) =~= rest);
}

} // verus!
