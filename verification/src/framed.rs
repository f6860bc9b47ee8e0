//! A transport framed by a codec: the read and write buffers, and the
//! decisions that turn a byte stream into a stream of frames and back.
//! Reading and writing the transport is the caller's work; these functions
//! say what to do next and keep the buffers' state.
use vstd::prelude::*;
use bytes::BytesMut;
use crate::buf::{
    bm_advance, bm_capacity, bm_len, bm_reserve, bm_with_capacity, bytes_mut_contents,
    reserve_fits,
};
use bytes::Bytes;
use crate::buf::bytes_contents;
use crate::codec::{
    decode_defined, decode_result_is, decode_step, encode_defined, encode_result_is,
    LengthDelimitedCodec,
};
use crate::error::RQError;

verus! {

/// The capacity that a frame buffer starts with, and is grown to.
pub const INITIAL_CAPACITY: usize = 8192;

/// Buffered bytes to be written at which a sender must flush first.
pub const BACKPRESSURE_BOUNDARY: usize = 8192;

/// The state flags of the read side.
#[derive(Debug, Clone, Copy, PartialEq, Eq, Structural)]
pub struct ReadFlags {
    /// The transport reported the end of its input.
    pub eof: bool,
    /// Bytes were read that the codec has not yet been asked about.
    pub is_readable: bool,
    /// An error was reported; the next poll ends the stream.
    pub has_errored: bool,
}

/// The read side: its flags and the bytes read but not yet framed.
#[derive(Debug)]
pub struct ReadFrame {
    pub eof: bool,
    pub is_readable: bool,
    pub buffer: BytesMut,
    pub has_errored: bool,
}

/// The write side: the bytes encoded but not yet written.
pub struct WriteFrame {
    pub buffer: BytesMut,
}

/// Both sides of a framed transport.
pub struct RWFrames {
    pub read: ReadFrame,
    pub write: WriteFrame,
}

impl ReadFrame {
    /// The read side's flags.
    pub open spec fn flags(&self) -> ReadFlags {
        ReadFlags { eof: self.eof, is_readable: self.is_readable, has_errored: self.has_errored }
    }

    /// The bytes read but not yet framed.
    pub open spec fn contents(&self) -> Seq<u8> {
        bytes_mut_contents(self.buffer)
    }
}

impl Default for ReadFrame {
    fn default() -> (r: Self)
        ensures
            r.flags() == (ReadFlags { eof: false, is_readable: false, has_errored: false }),
            r.contents() == Seq::<u8>::empty(),
    {
        ReadFrame {
            eof: false,
            is_readable: false,
            buffer: bm_with_capacity(INITIAL_CAPACITY),
            has_errored: false,
        }
    }
}

impl Default for WriteFrame {
    fn default() -> (r: Self)
        ensures
            bytes_mut_contents(r.buffer) == Seq::<u8>::empty(),
    {
        WriteFrame { buffer: bm_with_capacity(INITIAL_CAPACITY) }
    }
}

impl Default for RWFrames {
    fn default() -> (r: Self)
        ensures
            r.read.flags() == (ReadFlags { eof: false, is_readable: false, has_errored: false }),
            r.read.contents() == Seq::<u8>::empty(),
            bytes_mut_contents(r.write.buffer) == Seq::<u8>::empty(),
    {
        RWFrames { read: ReadFrame::default(), write: WriteFrame::default() }
    }
}

/// Grows `buffer` to the initial capacity when it has less; its bytes stay.
/// Returns the capacity it had.
fn grow_to_initial(buffer: &mut BytesMut) -> (size: usize)
    ensures
        bytes_mut_contents(*final(buffer)) == bytes_mut_contents(*old(buffer)),
        size >= bytes_mut_contents(*old(buffer)).len(),
{
    let size = bm_capacity(buffer);
    if size < INITIAL_CAPACITY {
        proof {
            assert(reserve_fits(bytes_mut_contents(*buffer).len() as int, INITIAL_CAPACITY - size));
        }
        bm_reserve(buffer, INITIAL_CAPACITY - size);
    }
    size
}

impl ReadFrame {
    /// A read side that starts from bytes already read. It counts as
    /// readable when the buffer had room; its bytes stay as they are.
    pub fn from_buffer(buffer: BytesMut) -> (r: Self)
        ensures
            r.contents() == bytes_mut_contents(buffer),
            !r.eof && !r.has_errored,
            bytes_mut_contents(buffer).len() > 0 ==> r.is_readable,
    {
        let mut buffer = buffer;
        let size = grow_to_initial(&mut buffer);
        ReadFrame { buffer, is_readable: size > 0, eof: false, has_errored: false }
    }
}

impl WriteFrame {
    /// A write side that starts from bytes not yet written; they stay.
    pub fn from_buffer(buffer: BytesMut) -> (r: Self)
        ensures
            bytes_mut_contents(r.buffer) == bytes_mut_contents(buffer),
    {
        let mut buffer = buffer;
        let _ = grow_to_initial(&mut buffer);
        WriteFrame { buffer }
    }
}

/// What the read side does next.
#[derive(Debug, Clone, Copy, PartialEq, Eq, Structural)]
pub enum ReadAction {
    /// End the stream for now: an error was reported.
    End,
    /// Ask the codec for the last frames, the input having ended.
    DecodeEof,
    /// Ask the codec for a frame.
    Decode,
    /// Read more bytes from the transport.
    Read,
}

/// What the codec answered.
#[derive(Debug, Clone, Copy, PartialEq, Eq, Structural)]
pub enum Decoded {
    /// A frame.
    Frame,
    /// No whole frame yet.
    Nothing,
    /// An error.
    Failed,
}

/// What the transport answered to a read.
#[derive(Debug, Clone, Copy, PartialEq, Eq, Structural)]
pub enum ReadOutcome {
    /// Not ready yet.
    Pending,
    /// An error.
    Failed,
    /// This many bytes were read; none means the end of the input.
    Bytes(usize),
}

/// What a poll of the frame stream comes to after a step.
#[derive(Debug, Clone, Copy, PartialEq, Eq, Structural)]
pub enum ReadStep {
    /// Hand out the frame.
    Yield,
    /// Hand out the error.
    Fail,
    /// The stream has no item now: it ended, or paused after an error.
    End,
    /// Wait for the transport.
    Pending,
    /// Go on with the next action.
    Continue,
}

/// The next action, and the flags after choosing it.
pub open spec fn poll_action_of(f: ReadFlags) -> (ReadAction, ReadFlags) {
    if f.has_errored {
        (ReadAction::End, ReadFlags { eof: f.eof, is_readable: false, has_errored: false })
    } else if f.is_readable && f.eof {
        (ReadAction::DecodeEof, f)
    } else if f.is_readable {
        (ReadAction::Decode, f)
    } else {
        (ReadAction::Read, f)
    }
}

/// The step that the codec's answer leads to, and the flags after it;
/// `at_eof` tells whether the codec was asked for the last frames.
pub open spec fn after_decode_of(f: ReadFlags, at_eof: bool, d: Decoded) -> (ReadStep, ReadFlags) {
    match d {
        Decoded::Failed => (ReadStep::Fail, ReadFlags { has_errored: true, ..f }),
        Decoded::Frame => (ReadStep::Yield, f),
        Decoded::Nothing => if at_eof {
            (ReadStep::End, ReadFlags { is_readable: false, ..f })
        } else {
            (ReadStep::Continue, ReadFlags { is_readable: false, ..f })
        },
    }
}

/// The step that a read leads to, and the flags after it.
pub open spec fn after_read_of(f: ReadFlags, r: ReadOutcome) -> (ReadStep, ReadFlags) {
    match r {
        ReadOutcome::Pending => (ReadStep::Pending, f),
        ReadOutcome::Failed => (ReadStep::Fail, ReadFlags { has_errored: true, ..f }),
        ReadOutcome::Bytes(n) => if n == 0 && f.eof {
            (ReadStep::End, f)
        } else {
            (ReadStep::Continue, ReadFlags { eof: n == 0, is_readable: true, ..f })
        },
    }
}

impl ReadFrame {
    /// Chooses what to do next. Before a read, room for one more byte is
    /// made, so that a read of nothing means the end of the input; only
    /// then must the buffer have room to grow.
    pub fn poll_action(&mut self) -> (r: ReadAction)
        requires
            poll_action_of(old(self).flags()).0 == ReadAction::Read ==> reserve_fits(
                old(self).contents().len() as int,
                1,
            ),
        ensures
            (r, final(self).flags()) == poll_action_of(old(self).flags()),
            final(self).contents() == old(self).contents(),
    {
        if self.has_errored {
            self.is_readable = false;
            self.has_errored = false;
            return ReadAction::End;
        }
        if self.is_readable {
            if self.eof {
                return ReadAction::DecodeEof;
            }
            return ReadAction::Decode;
        }
        bm_reserve(&mut self.buffer, 1);
        ReadAction::Read
    }

    /// Takes the codec's answer.
    pub fn on_decoded(&mut self, at_eof: bool, d: Decoded) -> (r: ReadStep)
        ensures
            (r, final(self).flags()) == after_decode_of(old(self).flags(), at_eof, d),
            final(self).buffer == old(self).buffer,
    {
        match d {
            Decoded::Failed => {
                self.has_errored = true;
                ReadStep::Fail
            },
            Decoded::Frame => ReadStep::Yield,
            Decoded::Nothing => {
                self.is_readable = false;
                if at_eof {
                    ReadStep::End
                } else {
                    ReadStep::Continue
                }
            },
        }
    }

    /// Takes the transport's answer to a read.
    pub fn on_read(&mut self, r: ReadOutcome) -> (s: ReadStep)
        ensures
            (s, final(self).flags()) == after_read_of(old(self).flags(), r),
            final(self).buffer == old(self).buffer,
    {
        match r {
            ReadOutcome::Pending => ReadStep::Pending,
            ReadOutcome::Failed => {
                self.has_errored = true;
                ReadStep::Fail
            },
            ReadOutcome::Bytes(n) => {
                if n == 0 {
                    if self.eof {
                        return ReadStep::End;
                    }
                    self.eof = true;
                } else {
                    self.eof = false;
                }
                self.is_readable = true;
                ReadStep::Continue
            },
        }
    }
}

/// After an error, from the codec or from the transport, the next poll ends
/// the stream and clears the error, and the poll after that reads again.
pub proof fn law_error_pauses_then_reads(f: ReadFlags, at_eof: bool, d: Decoded, r: ReadOutcome)
    requires
        d == Decoded::Failed || r == ReadOutcome::Failed,
    ensures
        ({
            let g = if d == Decoded::Failed {
                after_decode_of(f, at_eof, d).1
            } else {
                after_read_of(f, r).1
            };
            let (a1, g1) = poll_action_of(g);
            &&& a1 == ReadAction::End
            &&& !g1.is_readable && !g1.has_errored
            &&& poll_action_of(g1).0 == ReadAction::Read
        }),
{
}

/// Once the input has ended and its last frames are out, every further
/// poll reads nothing and ends again, the flags staying as they are.
pub proof fn law_end_of_input_is_final(f: ReadFlags)
    requires
        f.eof,
        !f.is_readable,
        !f.has_errored,
    ensures
        poll_action_of(f) == (ReadAction::Read, f),
        after_read_of(f, ReadOutcome::Bytes(0)) == (ReadStep::End, f),
{
}

/// Bytes read lead to a call of the codec: for frames while input goes on,
/// for the last frames when the input has just ended.
pub proof fn law_read_leads_to_decoding(f: ReadFlags, n: usize)
    requires
        !f.has_errored,
        !(n == 0 && f.eof),
    ensures
        after_read_of(f, ReadOutcome::Bytes(n)).0 == ReadStep::Continue,
        poll_action_of(after_read_of(f, ReadOutcome::Bytes(n)).1).0 == (if n == 0 {
            ReadAction::DecodeEof
        } else {
            ReadAction::Decode
        }),
{
}

/// Why a flush fails when the transport takes no byte.
pub open spec fn write_zero_error() -> Seq<char> {
    "failed to write frame to transport"@
}

impl WriteFrame {
    /// The bytes encoded but not yet written.
    pub open spec fn contents(&self) -> Seq<u8> {
        bytes_mut_contents(self.buffer)
    }

    /// Whether a sender must flush before the next frame: the buffer has
    /// reached the backpressure boundary.
    pub fn needs_flush(&self) -> (r: bool)
        ensures
            r == (self.contents().len() >= BACKPRESSURE_BOUNDARY),
    {
        bm_len(&self.buffer) >= BACKPRESSURE_BOUNDARY
    }

    /// Whether bytes remain to be written before the transport is flushed.
    pub fn has_pending(&self) -> (r: bool)
        ensures
            r == (self.contents().len() > 0),
    {
        bm_len(&self.buffer) > 0
    }

    /// Takes the number of bytes the transport wrote from the front of the
    /// buffer: they leave it; none written is an error.
    pub fn on_written(&mut self, n: usize) -> (r: Result<(), RQError>)
        requires
            n <= old(self).contents().len(),
        ensures
            n == 0 ==> (r matches Err(RQError::IO(m)) && m@ == write_zero_error()),
            n == 0 ==> final(self).contents() == old(self).contents(),
            n > 0 ==> r is Ok && final(self).contents() == old(self).contents().skip(n as int),
    {
        if n == 0 {
            return Err(RQError::IO(String::from_str("failed to write frame to transport")));
        }
        bm_advance(&mut self.buffer, n);
        Ok(())
    }
}

/// A stream that, once it has ended, is never polled again: its callers
/// treat it as never terminated.
pub trait FusedAlways {}

/// A transport, its codec and the state of framing.
pub struct FramedImpl<T, U, State> {
    pub inner: T,
    pub state: State,
    pub codec: U,
}

/// A transport read and written in frames through a codec.
pub struct Framed<T, U> {
    inner: FramedImpl<T, U, RWFrames>,
}

impl<T, U> FusedAlways for Framed<T, U> {}

/// A framed transport taken apart.
pub struct FramedParts<T, U> {
    /// The transport.
    pub io: T,
    /// The codec.
    pub codec: U,
    /// Bytes read but not yet framed.
    pub read_buf: BytesMut,
    /// Bytes encoded but not yet written.
    pub write_buf: BytesMut,
}

impl<T, U> FramedParts<T, U> {
    /// The parts of a framed transport with nothing buffered.
    pub fn new(io: T, codec: U) -> (r: Self)
        ensures
            r.io == io,
            r.codec == codec,
            bytes_mut_contents(r.read_buf) == Seq::<u8>::empty(),
            bytes_mut_contents(r.write_buf) == Seq::<u8>::empty(),
    {
        FramedParts {
            io,
            codec,
            read_buf: crate::buf::bm_new(),
            write_buf: crate::buf::bm_new(),
        }
    }
}

impl<T, U> Framed<T, U> {
    /// The transport.
    pub closed spec fn io(&self) -> T {
        self.inner.inner
    }

    /// The codec.
    pub closed spec fn codec_spec(&self) -> U {
        self.inner.codec
    }

    /// The read side.
    pub closed spec fn read_side(&self) -> ReadFrame {
        self.inner.state.read
    }

    /// The write side.
    pub closed spec fn write_side(&self) -> WriteFrame {
        self.inner.state.write
    }

    /// Frames `inner` with `codec`, with empty buffers and the read side
    /// waiting to read.
    pub fn new(inner: T, codec: U) -> (r: Self)
        ensures
            r.io() == inner,
            r.codec_spec() == codec,
            r.read_side().flags() == (ReadFlags {
                eof: false,
                is_readable: false,
                has_errored: false,
            }),
            r.read_side().contents() == Seq::<u8>::empty(),
            r.write_side().contents() == Seq::<u8>::empty(),
    {
        Framed { inner: FramedImpl { inner, codec, state: RWFrames::default() } }
    }

    /// Puts a framed transport back together; bytes already read count as
    /// readable.
    pub fn from_parts(parts: FramedParts<T, U>) -> (r: Self)
        ensures
            r.io() == parts.io,
            r.codec_spec() == parts.codec,
            r.read_side().contents() == bytes_mut_contents(parts.read_buf),
            r.write_side().contents() == bytes_mut_contents(parts.write_buf),
            !r.read_side().eof && !r.read_side().has_errored,
            bytes_mut_contents(parts.read_buf).len() > 0 ==> r.read_side().is_readable,
    {
        Framed {
            inner: FramedImpl {
                inner: parts.io,
                codec: parts.codec,
                state: RWFrames {
                    read: ReadFrame::from_buffer(parts.read_buf),
                    write: WriteFrame::from_buffer(parts.write_buf),
                },
            },
        }
    }

    /// The transport.
    pub fn get_ref(&self) -> (r: &T)
        ensures
            *r == self.io(),
    {
        &self.inner.inner
    }

    /// The transport, to be changed in place.
    pub fn get_mut(&mut self) -> (r: &mut T)
        ensures
            *r == old(self).io(),
            final(self).io() == *final(r),
            final(self).codec_spec() == old(self).codec_spec(),
            final(self).read_side() == old(self).read_side(),
            final(self).write_side() == old(self).write_side(),
    {
        &mut self.inner.inner
    }

    /// The codec.
    pub fn codec(&self) -> (r: &U)
        ensures
            *r == self.codec_spec(),
    {
        &self.inner.codec
    }

    /// The codec, to be changed in place.
    pub fn codec_mut(&mut self) -> (r: &mut U)
        ensures
            *r == old(self).codec_spec(),
            final(self).codec_spec() == *final(r),
            final(self).io() == old(self).io(),
            final(self).read_side() == old(self).read_side(),
            final(self).write_side() == old(self).write_side(),
    {
        &mut self.inner.codec
    }

    /// The same transport and buffers with the codec that `map` makes of
    /// this one.
    pub fn map_codec<C, F: FnOnce(U) -> C>(self, map: F) -> (r: Framed<T, C>)
        requires
            map.requires((self.codec_spec(),)),
        ensures
            map.ensures((self.codec_spec(),), r.codec_spec()),
            r.io() == self.io(),
            r.read_side().contents() == self.read_side().contents(),
            r.write_side().contents() == self.write_side().contents(),
            !r.read_side().eof && !r.read_side().has_errored,
            self.read_side().contents().len() > 0 ==> r.read_side().is_readable,
    {
        let parts = self.into_parts();
        let codec = map(parts.codec);
        Framed::from_parts(
            FramedParts {
                io: parts.io,
                codec,
                read_buf: parts.read_buf,
                write_buf: parts.write_buf,
            },
        )
    }

    /// The bytes read but not yet framed.
    pub fn read_buffer(&self) -> (r: &BytesMut)
        ensures
            *r == self.read_side().buffer,
    {
        &self.inner.state.read.buffer
    }

    /// The read buffer, to be changed in place: a read fills it.
    pub fn read_buffer_mut(&mut self) -> (r: &mut BytesMut)
        ensures
            *r == old(self).read_side().buffer,
            final(self).read_side().buffer == *final(r),
            final(self).read_side().flags() == old(self).read_side().flags(),
            final(self).io() == old(self).io(),
            final(self).codec_spec() == old(self).codec_spec(),
            final(self).write_side() == old(self).write_side(),
    {
        &mut self.inner.state.read.buffer
    }

    /// The bytes encoded but not yet written.
    pub fn write_buffer(&self) -> (r: &BytesMut)
        ensures
            *r == self.write_side().buffer,
    {
        &self.inner.state.write.buffer
    }

    /// The write buffer, to be changed in place: the codec fills it.
    pub fn write_buffer_mut(&mut self) -> (r: &mut BytesMut)
        ensures
            *r == old(self).write_side().buffer,
            final(self).write_side().buffer == *final(r),
            final(self).io() == old(self).io(),
            final(self).codec_spec() == old(self).codec_spec(),
            final(self).read_side() == old(self).read_side(),
    {
        &mut self.inner.state.write.buffer
    }

    /// The transport, the rest being dropped.
    pub fn into_inner(self) -> (r: T)
        ensures
            r == self.io(),
    {
        self.inner.inner
    }

    /// The transport, the codec and both buffers.
    pub fn into_parts(self) -> (r: FramedParts<T, U>)
        ensures
            r.io == self.io(),
            r.codec == self.codec_spec(),
            bytes_mut_contents(r.read_buf) == self.read_side().contents(),
            bytes_mut_contents(r.write_buf) == self.write_side().contents(),
    {
        FramedParts {
            io: self.inner.inner,
            codec: self.inner.codec,
            read_buf: self.inner.state.read.buffer,
            write_buf: self.inner.state.write.buffer,
        }
    }

    /// Chooses what the read side does next; see `ReadFrame::poll_action`.
    pub fn poll_action(&mut self) -> (r: ReadAction)
        requires
            poll_action_of(old(self).read_side().flags()).0 == ReadAction::Read ==> reserve_fits(
                old(self).read_side().contents().len() as int,
                1,
            ),
        ensures
            (r, final(self).read_side().flags()) == poll_action_of(old(self).read_side().flags()),
            final(self).read_side().contents() == old(self).read_side().contents(),
            final(self).io() == old(self).io(),
            final(self).codec_spec() == old(self).codec_spec(),
            final(self).write_side() == old(self).write_side(),
    {
        self.inner.state.read.poll_action()
    }

    /// Takes the codec's answer; see `ReadFrame::on_decoded`.
    pub fn on_decoded(&mut self, at_eof: bool, d: Decoded) -> (r: ReadStep)
        ensures
            (r, final(self).read_side().flags()) == after_decode_of(
                old(self).read_side().flags(),
                at_eof,
                d,
            ),
            final(self).read_side().buffer == old(self).read_side().buffer,
            final(self).io() == old(self).io(),
            final(self).codec_spec() == old(self).codec_spec(),
            final(self).write_side() == old(self).write_side(),
    {
        self.inner.state.read.on_decoded(at_eof, d)
    }

    /// Whether a sender must flush before the next frame.
    pub fn needs_flush(&self) -> (r: bool)
        ensures
            r == (self.write_side().contents().len() >= BACKPRESSURE_BOUNDARY),
    {
        self.inner.state.write.needs_flush()
    }

    /// Whether bytes remain to be written before the transport is flushed.
    pub fn has_pending_writes(&self) -> (r: bool)
        ensures
            r == (self.write_side().contents().len() > 0),
    {
        self.inner.state.write.has_pending()
    }

    /// Takes the number of bytes the transport wrote; see
    /// `WriteFrame::on_written`.
    pub fn on_written(&mut self, n: usize) -> (r: Result<(), RQError>)
        requires
            n <= old(self).write_side().contents().len(),
        ensures
            n == 0 ==> (r matches Err(RQError::IO(m)) && m@ == write_zero_error()),
            n == 0 ==> final(self).write_side().contents() == old(self).write_side().contents(),
            n > 0 ==> r is Ok && final(self).write_side().contents() == old(
                self,
            ).write_side().contents().skip(n as int),
            final(self).io() == old(self).io(),
            final(self).codec_spec() == old(self).codec_spec(),
            final(self).read_side() == old(self).read_side(),
    {
        self.inner.state.write.on_written(n)
    }

    /// Takes the transport's answer to a read; see `ReadFrame::on_read`.
    pub fn on_read(&mut self, r: ReadOutcome) -> (s: ReadStep)
        ensures
            (s, final(self).read_side().flags()) == after_read_of(old(self).read_side().flags(), r),
            final(self).read_side().buffer == old(self).read_side().buffer,
            final(self).io() == old(self).io(),
            final(self).codec_spec() == old(self).codec_spec(),
            final(self).write_side() == old(self).write_side(),
    {
        self.inner.state.read.on_read(r)
    }
}

/// Bytes appended through `read_buffer_mut` are appended to the read side,
/// after the bytes it held, and nothing else of the framed transport
/// changes: `lent` is the buffer that `read_buffer_mut` lent out, `back` the
/// buffer it held when the borrow ended.
pub proof fn law_read_buffer_mut_appends<T, U>(
    before: Framed<T, U>,
    after: Framed<T, U>,
    lent: BytesMut,
    back: BytesMut,
    bytes: Seq<u8>,
)
    requires
        lent == before.read_side().buffer,
        after.read_side().buffer == back,
        after.read_side().flags() == before.read_side().flags(),
        after.io() == before.io(),
        after.codec_spec() == before.codec_spec(),
        after.write_side() == before.write_side(),
        bytes_mut_contents(back) == bytes_mut_contents(lent) + bytes,
    ensures
        after.read_side().contents() == before.read_side().contents() + bytes,
        after.read_side().flags() == before.read_side().flags(),
        after.write_side().contents() == before.write_side().contents(),
        after.io() == before.io(),
        after.codec_spec() == before.codec_spec(),
{
}

/// Bytes appended through `write_buffer_mut` are appended to the write
/// side, after the bytes it held, and nothing else of the framed transport
/// changes: `lent` is the buffer that `write_buffer_mut` lent out, `back`
/// the buffer it held when the borrow ended.
pub proof fn law_write_buffer_mut_appends<T, U>(
    before: Framed<T, U>,
    after: Framed<T, U>,
    lent: BytesMut,
    back: BytesMut,
    bytes: Seq<u8>,
)
    requires
        lent == before.write_side().buffer,
        after.write_side().buffer == back,
        after.io() == before.io(),
        after.codec_spec() == before.codec_spec(),
        after.read_side() == before.read_side(),
        bytes_mut_contents(back) == bytes_mut_contents(lent) + bytes,
    ensures
        after.write_side().contents() == before.write_side().contents() + bytes,
        after.read_side().contents() == before.read_side().contents(),
        after.read_side().flags() == before.read_side().flags(),
        after.io() == before.io(),
        after.codec_spec() == before.codec_spec(),
{
}

impl<T> Framed<T, LengthDelimitedCodec> {
    /// Encodes `item` as one frame at the end of the write buffer.
    pub fn start_send(&mut self, item: Bytes) -> (r: Result<(), RQError>)
        requires
            encode_defined(
                old(self).codec_spec()@.format,
                bytes_contents(item),
                old(self).write_side().contents(),
            ),
        ensures
            encode_result_is(
                old(self).codec_spec()@.format,
                bytes_contents(item),
                old(self).write_side().contents(),
                final(self).write_side().contents(),
                r,
            ),
            final(self).codec_spec() == old(self).codec_spec(),
            final(self).io() == old(self).io(),
            final(self).read_side() == old(self).read_side(),
    {
        self.inner.codec.encode(item, &mut self.inner.state.write.buffer)
    }

    /// Asks the codec for the next frame in the read buffer; the read
    /// side's flags stay for `on_decoded` to change.
    pub fn decode_frame(&mut self) -> (r: Result<Option<BytesMut>, RQError>)
        requires
            decode_defined(old(self).codec_spec()@, old(self).read_side().contents()),
        ensures
            ({
                let step = decode_step(old(self).codec_spec()@, old(self).read_side().contents());
                &&& final(self).codec_spec()@.format == old(self).codec_spec()@.format
                &&& final(self).codec_spec()@.pending == step.pending
                &&& final(self).read_side().contents() == step.rest
                &&& decode_result_is(r, step.outcome)
            }),
            final(self).read_side().flags() == old(self).read_side().flags(),
            final(self).io() == old(self).io(),
            final(self).write_side() == old(self).write_side(),
    {
        self.inner.codec.decode(&mut self.inner.state.read.buffer)
    }
}

} // verus!
