//! A codec for frames delimited by a head that holds their length.
use vstd::prelude::*;
use vstd::string::*;
use bytes::{Bytes, BytesMut};
use crate::buf::{
    be_bytes, be_value, bm_advance, bm_chunk, bm_extend_from_slice, bm_from_slice, bm_get_uint,
    bm_get_uint_le, bm_len, bm_put_uint, bm_put_uint_le, bm_reserve, bm_split_to, bytes_as_slice,
    bytes_contents, bytes_mut_contents, le_bytes, le_value, lemma_bytes_len, lemma_bytes_roundtrip, pow256,
    reserve_fits,
};
use crate::error::{RQError, is_io_error};
use crate::framed::{Framed, ReadFlags};

verus! {

/// The wire format that a `Builder` describes.
pub struct FrameFormat {
    /// Frames whose length field holds more than this are refused.
    pub max_frame_len: usize,
    /// Number of bytes of the length field.
    pub length_field_len: usize,
    /// Number of bytes in the head before the length field.
    pub length_field_offset: usize,
    /// Added to the length field's value to give the frame's length.
    pub length_adjustment: isize,
    /// Bytes to drop before the payload; when absent, the offset and the
    /// length field.
    pub num_skip: Option<usize>,
    /// Byte order of the length field.
    pub big_endian: bool,
}

impl FrameFormat {
    /// The length field has between one and eight bytes.
    pub open spec fn wf(self) -> bool {
        1 <= self.length_field_len <= 8
    }

    /// Bytes up to the end of the length field.
    pub open spec fn fields_len(self) -> int {
        self.length_field_offset + self.length_field_len
    }

    /// Bytes that must be present before the head is read.
    pub open spec fn head_len(self) -> int {
        let s: int = match self.num_skip {
            Some(k) => k as int,
            None => 0,
        };
        if self.fields_len() >= s {
            self.fields_len()
        } else {
            s
        }
    }

    /// Bytes dropped before the payload.
    pub open spec fn skip_len(self) -> int {
        match self.num_skip {
            Some(k) => k as int,
            None => self.fields_len(),
        }
    }

    /// The number in the length field of a head at the front of `src`.
    pub open spec fn length_field(self, src: Seq<u8>) -> nat {
        let field = src.subrange(self.length_field_offset as int, self.fields_len());
        if self.big_endian {
            be_value(field)
        } else {
            le_value(field)
        }
    }

    /// The length field that announces a payload of `v` bytes.
    pub open spec fn header(self, v: nat) -> Seq<u8> {
        if self.big_endian {
            be_bytes(v, self.length_field_len as nat)
        } else {
            le_bytes(v, self.length_field_len as nat)
        }
    }
}

/// Configures a `LengthDelimitedCodec`.
#[derive(Debug, Clone, Copy)]
pub struct Builder {
    max_frame_len: usize,
    length_field_len: usize,
    length_field_offset: usize,
    length_adjustment: isize,
    num_skip: Option<usize>,
    length_field_is_big_endian: bool,
}

impl View for Builder {
    type V = FrameFormat;

    closed spec fn view(&self) -> FrameFormat {
        FrameFormat {
            max_frame_len: self.max_frame_len,
            length_field_len: self.length_field_len,
            length_field_offset: self.length_field_offset,
            length_adjustment: self.length_adjustment,
            num_skip: self.num_skip,
            big_endian: self.length_field_is_big_endian,
        }
    }
}

impl Builder {
    #[verifier::type_invariant]
    spec fn inv(self) -> bool {
        1 <= self.length_field_len <= 8
    }

    /// The format of the default builder.
    pub open spec fn default_format() -> FrameFormat {
        FrameFormat {
            max_frame_len: 8388608usize,
            length_field_len: 4,
            length_field_offset: 0,
            length_adjustment: 0,
            num_skip: None,
            big_endian: true,
        }
    }

    /// A builder for frames with a four-byte big-endian length, no offset, no
    /// adjustment, and at most 8 MiB.
    pub fn new() -> (r: Self)
        ensures
            r@ == Self::default_format(),
            r@.wf(),
    {
        Self {
            max_frame_len: 8 * 1024 * 1024,
            length_field_len: 4,
            length_field_offset: 0,
            length_adjustment: 0,
            num_skip: None,
            length_field_is_big_endian: true,
        }
    }

    /// The length field is read and written most significant byte first.
    pub fn big_endian(&mut self) -> (r: &mut Self)
        ensures
            r@ == (FrameFormat { big_endian: true, ..old(self)@ }),
            r@.wf(),
            *final(self) == *final(r),
    {
        proof {
            use_type_invariant(&*self);
        }
        self.length_field_is_big_endian = true;
        self
    }

    /// The length field is read and written least significant byte first.
    pub fn little_endian(&mut self) -> (r: &mut Self)
        ensures
            r@ == (FrameFormat { big_endian: false, ..old(self)@ }),
            r@.wf(),
            *final(self) == *final(r),
    {
        proof {
            use_type_invariant(&*self);
        }
        self.length_field_is_big_endian = false;
        self
    }

    /// Frames longer than `val` bytes are refused.
    pub fn max_frame_length(&mut self, val: usize) -> (r: &mut Self)
        ensures
            r@ == (FrameFormat { max_frame_len: val, ..old(self)@ }),
            r@.wf(),
            *final(self) == *final(r),
    {
        proof {
            use_type_invariant(&*self);
        }
        self.max_frame_len = val;
        self
    }

    /// The length field has `val` bytes, between one and eight: other
    /// lengths are refused with a panic.
    pub fn length_field_length(&mut self, val: usize) -> (r: &mut Self)
        requires
            0 < val <= 8,
        ensures
            r@ == (FrameFormat { length_field_len: val, ..old(self)@ }),
            r@.wf(),
            *final(self) == *final(r),
    {
        self.length_field_len = val;
        self
    }

    /// The head holds `val` bytes before the length field.
    pub fn length_field_offset(&mut self, val: usize) -> (r: &mut Self)
        ensures
            r@ == (FrameFormat { length_field_offset: val, ..old(self)@ }),
            r@.wf(),
            *final(self) == *final(r),
    {
        proof {
            use_type_invariant(&*self);
        }
        self.length_field_offset = val;
        self
    }

    /// The frame's length is the length field's value plus `val`.
    pub fn length_adjustment(&mut self, val: isize) -> (r: &mut Self)
        ensures
            r@ == (FrameFormat { length_adjustment: val, ..old(self)@ }),
            r@.wf(),
            *final(self) == *final(r),
    {
        proof {
            use_type_invariant(&*self);
        }
        self.length_adjustment = val;
        self
    }

    /// `val` bytes are dropped before the payload.
    pub fn num_skip(&mut self, val: usize) -> (r: &mut Self)
        ensures
            r@ == (FrameFormat { num_skip: Some(val), ..old(self)@ }),
            r@.wf(),
            *final(self) == *final(r),
    {
        proof {
            use_type_invariant(&*self);
        }
        self.num_skip = Some(val);
        self
    }

    /// A codec in this format, waiting for a head.
    pub fn new_codec(&self) -> (r: LengthDelimitedCodec)
        ensures
            r@ == (CodecState { format: self@, pending: None }),
            r@.format.wf(),
    {
        proof {
            use_type_invariant(self);
        }
        LengthDelimitedCodec { builder: *self, state: DecodeState::Head }
    }

    /// `inner` framed by a codec in this format.
    pub fn new_framed<T>(&self, inner: T) -> (r: Framed<T, LengthDelimitedCodec>)
        ensures
            r.io() == inner,
            r.codec_spec()@ == (CodecState { format: self@, pending: None }),
            r.read_side().flags() == (ReadFlags {
                eof: false,
                is_readable: false,
                has_errored: false,
            }),
            r.read_side().contents() == Seq::<u8>::empty(),
            r.write_side().contents() == Seq::<u8>::empty(),
    {
        Framed::new(inner, self.new_codec())
    }

    fn num_head_bytes(&self) -> (r: usize)
        requires
            self@.fields_len() <= usize::MAX,
        ensures
            r == self@.head_len(),
    {
        let num = self.length_field_offset + self.length_field_len;
        let skip = match self.num_skip {
            Some(k) => k,
            None => 0,
        };
        if num >= skip {
            num
        } else {
            skip
        }
    }

    fn get_num_skip(&self) -> (r: usize)
        requires
            self@.fields_len() <= usize::MAX,
        ensures
            r == self@.skip_len(),
    {
        let fields = self.length_field_offset + self.length_field_len;
        match self.num_skip {
            Some(k) => k,
            None => fields,
        }
    }
}

/// What a codec knows: its format, and the payload length of a head already
/// read, if any.
pub struct CodecState {
    pub format: FrameFormat,
    pub pending: Option<usize>,
}

#[derive(Debug, Clone, Copy)]
enum DecodeState {
    Head,
    Data(usize),
}

/// What one call of `decode` comes to.
pub enum DecodeOutcome {
    /// A whole frame was split off; these are its bytes.
    Frame(Seq<u8>),
    /// More bytes are needed.
    Incomplete,
    /// The length field holds more than the maximum frame length.
    FrameTooLong,
    /// The length field plus the adjustment is negative or over `usize::MAX`.
    LengthOverflow,
}

/// One step of decoding: its outcome, the length of a head read whose
/// payload is still awaited, and the bytes left in the buffer.
pub struct DecodeStep {
    pub outcome: DecodeOutcome,
    pub pending: Option<usize>,
    pub rest: Seq<u8>,
}

/// Waiting for a payload of `n` bytes at the front of `src`.
pub open spec fn data_step(n: usize, src: Seq<u8>) -> DecodeStep {
    if src.len() < n {
        DecodeStep { outcome: DecodeOutcome::Incomplete, pending: Some(n), rest: src }
    } else {
        DecodeStep {
            outcome: DecodeOutcome::Frame(src.take(n as int)),
            pending: None,
            rest: src.skip(n as int),
        }
    }
}

/// The payload length that the head at the front of `src` announces.
pub open spec fn announced_len(f: FrameFormat, src: Seq<u8>) -> int {
    f.length_field(src) + f.length_adjustment
}

/// What `decode` does, from the codec's state and the bytes buffered.
pub open spec fn decode_step(st: CodecState, src: Seq<u8>) -> DecodeStep {
    let f = st.format;
    match st.pending {
        Some(n) => data_step(n, src),
        None => {
            if src.len() < f.head_len() {
                DecodeStep { outcome: DecodeOutcome::Incomplete, pending: None, rest: src }
            } else if f.length_field(src) > f.max_frame_len {
                DecodeStep { outcome: DecodeOutcome::FrameTooLong, pending: None, rest: src }
            } else if announced_len(f, src) < 0 || announced_len(f, src) > usize::MAX {
                DecodeStep { outcome: DecodeOutcome::LengthOverflow, pending: None, rest: src }
            } else {
                data_step(announced_len(f, src) as usize, src.skip(f.skip_len()))
            }
        },
    }
}

/// Decoding a payload of `n` bytes from `src` does not panic: when the frame
/// is whole, the head length is computed and reserved.
pub open spec fn data_step_defined(f: FrameFormat, n: usize, src: Seq<u8>) -> bool {
    src.len() < n || (f.fields_len() <= usize::MAX && reserve_fits(
        src.len() - n,
        f.head_len(),
    ))
}

/// The inputs on which `decode` does not panic: the head's sizes fit in a
/// `usize`, a negative adjustment can be negated, and what is reserved fits.
pub open spec fn decode_defined(st: CodecState, src: Seq<u8>) -> bool {
    let f = st.format;
    match st.pending {
        Some(n) => data_step_defined(f, n, src),
        None => {
            &&& f.fields_len() <= usize::MAX
            &&& (src.len() < f.head_len() || f.length_field(src) > f.max_frame_len || {
                let n = announced_len(f, src);
                let rest = src.skip(f.skip_len());
                &&& f.length_adjustment != isize::MIN
                &&& (n < 0 || n > usize::MAX || (reserve_fits(rest.len() as int, n)
                    && data_step_defined(f, n as usize, rest)))
            })
        },
    }
}

/// The result of `decode` is the outcome `o`: the frame's bytes, nothing,
/// or the I/O error with the codec's message.
pub open spec fn decode_result_is(r: Result<Option<BytesMut>, RQError>, o: DecodeOutcome) -> bool {
    match o {
        DecodeOutcome::Frame(bytes) => r matches Ok(Some(b)) && bytes_mut_contents(b) == bytes,
        DecodeOutcome::Incomplete => r matches Ok(None),
        DecodeOutcome::FrameTooLong => r matches Err(e) && is_io_error(
            e,
            "InvalidData LengthDelimitedCodecError"@,
        ),
        DecodeOutcome::LengthOverflow => r matches Err(e) && is_io_error(
            e,
            "provided length would overflow after adjustment"@,
        ),
    }
}

/// What one call of `encode` comes to.
pub enum EncodeOutcome {
    /// These bytes were appended.
    Written(Seq<u8>),
    /// The payload is longer than the maximum frame length.
    FrameTooLong,
    /// The payload length minus the adjustment is negative or over
    /// `usize::MAX`.
    LengthOverflow,
}

/// The value written in the length field for a payload of `len` bytes.
pub open spec fn written_len(f: FrameFormat, len: int) -> int {
    len - f.length_adjustment
}

/// What `encode` appends for the payload `data`: the length field, then the
/// payload. A length that does not fit in the field is cut to its lowest bytes.
pub open spec fn encode_outcome(f: FrameFormat, data: Seq<u8>) -> EncodeOutcome {
    if data.len() > f.max_frame_len {
        EncodeOutcome::FrameTooLong
    } else if written_len(f, data.len() as int) < 0 || written_len(f, data.len() as int)
        > usize::MAX {
        EncodeOutcome::LengthOverflow
    } else {
        EncodeOutcome::Written(f.header(written_len(f, data.len() as int) as nat) + data)
    }
}

/// The result of `encode` and the buffer after it, from the buffer before
/// it: the frame appended, or the error with the codec's message and the
/// buffer as it was.
pub open spec fn encode_result_is(
    f: FrameFormat,
    data: Seq<u8>,
    before: Seq<u8>,
    after: Seq<u8>,
    r: Result<(), RQError>,
) -> bool {
    match encode_outcome(f, data) {
        EncodeOutcome::Written(w) => r is Ok && after == before + w,
        EncodeOutcome::FrameTooLong => (r matches Err(e) && is_io_error(
            e,
            "InvalidInput LengthDelimitedCodecError"@,
        )) && after == before,
        EncodeOutcome::LengthOverflow => (r matches Err(e) && is_io_error(
            e,
            "provided length would overflow after adjustment"@,
        )) && after == before,
    }
}

/// The inputs on which `encode` does not panic: a negative adjustment can be
/// negated, and the head and payload fit where they are reserved.
pub open spec fn encode_defined(f: FrameFormat, data: Seq<u8>, dst: Seq<u8>) -> bool {
    data.len() > f.max_frame_len || {
        let v = written_len(f, data.len() as int);
        &&& f.length_adjustment != isize::MIN
        &&& (v < 0 || v > usize::MAX || (f.length_field_len + v <= usize::MAX && reserve_fits(
            dst.len() as int,
            f.length_field_len + v,
        ) && reserve_fits(dst.len() + f.length_field_len, data.len() as int)))
    }
}

/// A frame that `encode` writes is read back whole by a codec of the same
/// format waiting for a head, and the bytes after it are left as they were.
/// This holds when the head is only the length field (no offset, nothing more
/// skipped) and the value written fits in the field and under the maximum.
pub proof fn law_decode_reads_back_encoded_frame(f: FrameFormat, data: Seq<u8>, rest: Seq<u8>)
    requires
        f.wf(),
        f.length_field_offset == 0,
        f.num_skip is None || f.num_skip == Some(f.length_field_len),
        data.len() <= f.max_frame_len,
        0 <= written_len(f, data.len() as int),
        written_len(f, data.len() as int) < pow256(f.length_field_len as nat),
        written_len(f, data.len() as int) <= f.max_frame_len,
    ensures
        encode_outcome(f, data) matches EncodeOutcome::Written(w) && decode_step(
            CodecState { format: f, pending: None },
            w + rest,
        ) == (DecodeStep { outcome: DecodeOutcome::Frame(data), pending: None, rest: rest }),
{
    let v = written_len(f, data.len() as int) as nat;
    let k = f.length_field_len as nat;
    let head = f.header(v);
    lemma_bytes_len(v, k);
    lemma_bytes_roundtrip(v, k);
    let src = head + data + rest;
    assert(encode_outcome(f, data) == EncodeOutcome::Written(head + data));
    assert((head + data) + rest =~= src);
    assert(src.subrange(0, k as int) =~= head);
    assert(f.length_field(src) == v);
    assert(announced_len(f, src) == data.len());
    assert(src.skip(f.skip_len()) =~= data + rest);
    assert((data + rest).take(data.len() as int) =~= data);
    assert((data + rest).skip(data.len() as int) =~= rest);
}

/// With no count of bytes to skip set, the bytes before the length field and
/// the length field itself are both dropped: a frame that `encode` writes,
/// preceded by as many bytes as the field's offset, is read back whole, and
/// the bytes after it are left as they were. This holds when the value written
/// fits in the field and under the maximum.
pub proof fn law_decode_drops_offset_and_field(
    f: FrameFormat,
    pre: Seq<u8>,
    data: Seq<u8>,
    rest: Seq<u8>,
)
    requires
        f.wf(),
        f.num_skip is None,
        pre.len() == f.length_field_offset,
        data.len() <= f.max_frame_len,
        0 <= written_len(f, data.len() as int),
        written_len(f, data.len() as int) < pow256(f.length_field_len as nat),
        written_len(f, data.len() as int) <= f.max_frame_len,
    ensures
        encode_outcome(f, data) matches EncodeOutcome::Written(w) && decode_step(
            CodecState { format: f, pending: None },
            pre + w + rest,
        ) == (DecodeStep { outcome: DecodeOutcome::Frame(data), pending: None, rest: rest }),
{
    let v = written_len(f, data.len() as int) as nat;
    let k = f.length_field_len as nat;
    let o = f.length_field_offset as int;
    let head = f.header(v);
    lemma_bytes_len(v, k);
    lemma_bytes_roundtrip(v, k);
    let src = pre + head + data + rest;
    assert(encode_outcome(f, data) == EncodeOutcome::Written(head + data));
    assert(pre + (head + data) + rest =~= src);
    assert(src.subrange(o, o + k) =~= head);
    assert(f.length_field(src) == v);
    assert(announced_len(f, src) == data.len());
    assert(f.skip_len() == o + k);
    assert(src.skip(f.skip_len()) =~= data + rest);
    assert((data + rest).take(data.len() as int) =~= data);
    assert((data + rest).skip(data.len() as int) =~= rest);
}

/// The round trip of `law_decode_reads_back_encoded_frame` runs without a
/// panic: encoding into an empty buffer and decoding what it wrote (and any
/// bytes after it) are both defined, where the adjustment can be negated
/// (negating `isize::MIN` panics) and the bytes involved fit in `isize::MAX`
/// (a larger buffer overflows its capacity).
pub proof fn law_round_trip_is_defined(f: FrameFormat, data: Seq<u8>, rest: Seq<u8>)
    requires
        f.wf(),
        f.length_field_offset == 0,
        f.num_skip is None || f.num_skip == Some(f.length_field_len),
        data.len() <= f.max_frame_len,
        0 <= written_len(f, data.len() as int),
        written_len(f, data.len() as int) < pow256(f.length_field_len as nat),
        written_len(f, data.len() as int) <= f.max_frame_len,
        f.length_adjustment != isize::MIN,
        f.length_field_len + written_len(f, data.len() as int) + 2 * data.len() + rest.len()
            <= isize::MAX,
    ensures
        encode_defined(f, data, Seq::empty()),
        encode_outcome(f, data) matches EncodeOutcome::Written(w) && decode_defined(
            CodecState { format: f, pending: None },
            w + rest,
        ),
{
    law_decode_reads_back_encoded_frame(f, data, rest);
    let v = written_len(f, data.len() as int) as nat;
    let k = f.length_field_len as nat;
    lemma_bytes_len(v, k);
    lemma_bytes_roundtrip(v, k);
    let head = f.header(v);
    let src = head + data + rest;
    assert(encode_outcome(f, data) == EncodeOutcome::Written(head + data));
    assert((head + data) + rest =~= src);
    assert(src.subrange(0, k as int) =~= head);
    assert(f.length_field(src) == v);
    assert(src.skip(f.skip_len()) =~= data + rest);
}

/// Bytes that arrive after a whole frame change nothing of how that frame is
/// read: the same frame comes out, and the new bytes stay behind the rest.
pub proof fn law_decode_frame_ignores_later_bytes(st: CodecState, src: Seq<u8>, more: Seq<u8>)
    requires
        decode_step(st, src).outcome is Frame,
    ensures
        decode_step(st, src + more) == (DecodeStep {
            outcome: decode_step(st, src).outcome,
            pending: decode_step(st, src).pending,
            rest: decode_step(st, src).rest + more,
        }),
{
    let f = st.format;
    let all = src + more;
    match st.pending {
        Some(n) => {
            assert(all.take(n as int) =~= src.take(n as int));
            assert(all.skip(n as int) =~= src.skip(n as int) + more);
        },
        None => {
            assert(all.subrange(f.length_field_offset as int, f.fields_len()) =~= src.subrange(
                f.length_field_offset as int,
                f.fields_len(),
            ));
            let n = announced_len(f, src);
            let r = src.skip(f.skip_len());
            assert(all.skip(f.skip_len()) =~= r + more);
            assert((r + more).take(n) =~= r.take(n));
            assert((r + more).skip(n) =~= r.skip(n) + more);
        },
    }
}

/// A codec that has read a head stays waiting, with the same length, until
/// the whole payload is there.
pub proof fn law_decode_waits_for_payload(st: CodecState, src: Seq<u8>)
    requires
        st.pending matches Some(n) && src.len() < n,
    ensures
        decode_step(st, src) == (DecodeStep {
            outcome: DecodeOutcome::Incomplete,
            pending: st.pending,
            rest: src,
        }),
{
}

/// The frames that repeated `decode` calls give from `src` in state `st`,
/// until a call has no whole frame, with the payload length then awaited and
/// the bytes then left; nothing when a call fails first, or when more than
/// `fuel` frames come.
pub open spec fn drain(st: CodecState, src: Seq<u8>, fuel: nat) -> Option<
    (Seq<Seq<u8>>, Option<usize>, Seq<u8>),
>
    decreases fuel,
{
    let step = decode_step(st, src);
    match step.outcome {
        DecodeOutcome::Frame(f) => if fuel == 0 {
            None
        } else {
            match drain(
                CodecState { format: st.format, pending: step.pending },
                step.rest,
                (fuel - 1) as nat,
            ) {
                Some((fs, p, r)) => Some((seq![f] + fs, p, r)),
                None => None,
            }
        },
        DecodeOutcome::Incomplete => Some((Seq::empty(), step.pending, step.rest)),
        _ => None,
    }
}

/// A call that finds no whole frame leaves the codec where a call on the
/// same bytes and more would start: once more bytes arrive, it decodes as
/// if they had come with the rest.
proof fn lemma_incomplete_then_more(st: CodecState, src: Seq<u8>, more: Seq<u8>)
    requires
        decode_step(st, src).outcome is Incomplete,
    ensures
        decode_step(
            CodecState { format: st.format, pending: decode_step(st, src).pending },
            decode_step(st, src).rest + more,
        ) == decode_step(st, src + more),
{
    let f = st.format;
    let all = src + more;
    match st.pending {
        Some(n) => {
            assert(CodecState { format: st.format, pending: Some(n) } == st);
        },
        None => {
            if src.len() < f.head_len() {
                assert(CodecState { format: st.format, pending: None } == st);
            } else {
                assert(all.subrange(f.length_field_offset as int, f.fields_len()) =~= src.subrange(
                    f.length_field_offset as int,
                    f.fields_len(),
                ));
                assert(f.length_field(all) == f.length_field(src));
                assert(all.skip(f.skip_len()) =~= src.skip(f.skip_len()) + more);
            }
        },
    }
}

proof fn lemma_drain_same_step(a: CodecState, x: Seq<u8>, b: CodecState, y: Seq<u8>, fuel: nat)
    requires
        a.format == b.format,
        decode_step(a, x) == decode_step(b, y),
    ensures
        drain(a, x, fuel) == drain(b, y, fuel),
{
}

proof fn lemma_drain_more_fuel(st: CodecState, src: Seq<u8>, fuel: nat, more_fuel: nat)
    requires
        fuel <= more_fuel,
        drain(st, src, fuel) is Some,
    ensures
        drain(st, src, more_fuel) == drain(st, src, fuel),
    decreases fuel,
{
    let step = decode_step(st, src);
    if step.outcome is Frame {
        lemma_drain_more_fuel(
            CodecState { format: st.format, pending: step.pending },
            step.rest,
            (fuel - 1) as nat,
            (more_fuel - 1) as nat,
        );
    }
}

/// Decoding does not depend on how the input is split into reads: the
/// frames that the first part gives, then those that the rest gives once
/// it is appended to what was left, are the frames that the whole input
/// gives, and both end waiting for the same payload with the same bytes
/// left.
pub proof fn law_decode_split_reads(
    st: CodecState,
    b1: Seq<u8>,
    b2: Seq<u8>,
    f1: nat,
    f2: nat,
)
    requires
        drain(st, b1, f1) is Some,
        drain(
            CodecState { format: st.format, pending: drain(st, b1, f1).unwrap().1 },
            drain(st, b1, f1).unwrap().2 + b2,
            f2,
        ) is Some,
    ensures
        ({
            let (fs1, p1, r1) = drain(st, b1, f1).unwrap();
            let (fs2, p2, r2) = drain(CodecState { format: st.format, pending: p1 }, r1 + b2, f2).unwrap();
            drain(st, b1 + b2, f1 + f2) == Some((fs1 + fs2, p2, r2))
        }),
    decreases f1,
{
    let step = decode_step(st, b1);
    let (fs1, p1, r1) = drain(st, b1, f1).unwrap();
    let st1 = CodecState { format: st.format, pending: p1 };
    let (fs2, p2, r2) = drain(st1, r1 + b2, f2).unwrap();
    match step.outcome {
        DecodeOutcome::Frame(f) => {
            let nst = CodecState { format: st.format, pending: step.pending };
            law_decode_frame_ignores_later_bytes(st, b1, b2);
            law_decode_split_reads(nst, step.rest, b2, (f1 - 1) as nat, f2);
            let (gs1, q1, s1) = drain(nst, step.rest, (f1 - 1) as nat).unwrap();
            assert(fs1 == seq![f] + gs1);
            assert(decode_step(st, b1 + b2).rest == step.rest + b2);
            assert(f1 + f2 - 1 == (f1 - 1) + f2);
            assert(seq![f] + (gs1 + fs2) =~= fs1 + fs2);
        },
        DecodeOutcome::Incomplete => {
            lemma_incomplete_then_more(st, b1, b2);
            lemma_drain_same_step(st1, r1 + b2, st, b1 + b2, f2);
            lemma_drain_more_fuel(st, b1 + b2, f2, f1 + f2);
            assert(fs1 =~= Seq::<Seq<u8>>::empty());
            assert(fs1 + fs2 =~= fs2);
        },
        _ => {},
    }
}

/// An error when the number of bytes read is more than the maximum frame
/// length.
pub struct LengthDelimitedCodecError {
    _priv: (),
}

/// A codec for frames delimited by a head that holds their length.
#[derive(Debug, Clone)]
pub struct LengthDelimitedCodec {
    builder: Builder,
    state: DecodeState,
}

impl View for LengthDelimitedCodec {
    type V = CodecState;

    closed spec fn view(&self) -> CodecState {
        CodecState {
            format: self.builder@,
            pending: match self.state {
                DecodeState::Head => None,
                DecodeState::Data(n) => Some(n),
            },
        }
    }
}

impl LengthDelimitedCodec {
    /// A codec in the default format, waiting for a head.
    pub fn new() -> (r: Self)
        ensures
            r@ == (CodecState { format: Builder::default_format(), pending: None }),
            r@.format.wf(),
    {
        Self { builder: Builder::new(), state: DecodeState::Head }
    }

    /// A builder in the default format.
    pub fn builder() -> (r: Builder)
        ensures
            r@ == Builder::default_format(),
            r@.wf(),
    {
        Builder::new()
    }

    fn decode_head(&mut self, src: &mut BytesMut) -> (r: Result<Option<usize>, RQError>)
        requires
            old(self)@.pending is None,
            decode_defined(old(self)@, bytes_mut_contents(*old(src))),
        ensures
            *final(self) == *old(self),
            ({
                let f = old(self)@.format;
                let s = bytes_mut_contents(*old(src));
                if s.len() < f.head_len() {
                    r matches Ok(None) && bytes_mut_contents(*final(src)) == s
                } else if f.length_field(s) > f.max_frame_len {
                    r matches Err(e)
                        && is_io_error(e, "InvalidData LengthDelimitedCodecError"@)
                        && bytes_mut_contents(*final(src)) == s
                } else if announced_len(f, s) < 0 || announced_len(f, s) > usize::MAX {
                    r matches Err(e) && is_io_error(
                        e,
                        "provided length would overflow after adjustment"@,
                    ) && bytes_mut_contents(*final(src)) == s
                } else {
                    r == Ok::<Option<usize>, RQError>(Some(announced_len(f, s) as usize))
                        && bytes_mut_contents(*final(src)) == s.skip(f.skip_len())
                }
            }),
    {
        proof {
            use_type_invariant(&self.builder);
        }
        let head_len = self.builder.num_head_bytes();
        let field_len = self.builder.length_field_len;
        if bm_len(src) < head_len {
            return Ok(None);
        }
        let ghost s = bytes_mut_contents(*src);
        let ghost f = self@.format;
        let n = {
            let mut src = bm_from_slice(bm_chunk(src));
            bm_advance(&mut src, self.builder.length_field_offset);
            proof {
                assert(bytes_mut_contents(src).take(field_len as int) =~= s.subrange(
                    f.length_field_offset as int,
                    f.fields_len(),
                ));
            }
            let n = if self.builder.length_field_is_big_endian {
                bm_get_uint(&mut src, field_len)
            } else {
                bm_get_uint_le(&mut src, field_len)
            };
            if n > self.builder.max_frame_len as u64 {
                return Err(RQError::IO(String::from_str("InvalidData LengthDelimitedCodecError")));
            }
            let n = n as usize;
            let n = if self.builder.length_adjustment < 0 {
                n.checked_sub((-self.builder.length_adjustment) as usize)
            } else {
                n.checked_add(self.builder.length_adjustment as usize)
            };
            match n {
                Some(n) => n,
                None => {
                    return Err(
                        RQError::IO(
                            String::from_str("provided length would overflow after adjustment"),
                        ),
                    );
                },
            }
        };
        let num_skip = self.builder.get_num_skip();
        if num_skip > 0 {
            bm_advance(src, num_skip);
        }
        proof {
            if num_skip == 0 {
                assert(s.skip(0) =~= s);
            }
        }
        bm_reserve(src, n);
        Ok(Some(n))
    }

    fn decode_data(&self, n: usize, src: &mut BytesMut) -> (r: Option<BytesMut>)
        ensures
            ({
                let s = bytes_mut_contents(*old(src));
                if s.len() < n {
                    r is None && bytes_mut_contents(*final(src)) == s
                } else {
                    r matches Some(b) && bytes_mut_contents(b) == s.take(n as int)
                        && bytes_mut_contents(*final(src)) == s.skip(n as int)
                }
            }),
    {
        if bm_len(src) < n {
            return None;
        }
        Some(bm_split_to(src, n))
    }

    /// Appends `data` to `dst` as one frame: its length field, then its bytes.
    pub fn encode(&mut self, data: Bytes, dst: &mut BytesMut) -> (r: Result<(), RQError>)
        requires
            encode_defined(old(self)@.format, bytes_contents(data), bytes_mut_contents(*old(dst))),
        ensures
            *final(self) == *old(self),
            encode_result_is(
                old(self)@.format,
                bytes_contents(data),
                bytes_mut_contents(*old(dst)),
                bytes_mut_contents(*final(dst)),
                r,
            ),
    {
        proof {
            use_type_invariant(&self.builder);
        }
        let n = bytes_as_slice(&data).len();
        if n > self.builder.max_frame_len {
            return Err(RQError::IO(String::from_str("InvalidInput LengthDelimitedCodecError")));
        }
        let n = if self.builder.length_adjustment < 0 {
            n.checked_add((-self.builder.length_adjustment) as usize)
        } else {
            n.checked_sub(self.builder.length_adjustment as usize)
        };
        let n = match n {
            Some(n) => n,
            None => {
                return Err(
                    RQError::IO(String::from_str("provided length would overflow after adjustment")),
                );
            },
        };
        bm_reserve(dst, self.builder.length_field_len + n);
        if self.builder.length_field_is_big_endian {
            bm_put_uint(dst, n as u64, self.builder.length_field_len);
        } else {
            bm_put_uint_le(dst, n as u64, self.builder.length_field_len);
        }
        proof {
            lemma_bytes_len(n as nat, self.builder.length_field_len as nat);
        }
        bm_extend_from_slice(dst, bytes_as_slice(&data));
        proof {
            let f = self@.format;
            let w = f.header(n as nat) + bytes_contents(data);
            assert(bytes_mut_contents(*dst) =~= bytes_mut_contents(*old(dst)) + w);
        }
        Ok(())
    }

    /// Splits the next whole frame off the front of `src`, if there is one.
    /// A head is read once; while its payload is incomplete the codec keeps
    /// its length and returns nothing.
    pub fn decode(&mut self, src: &mut BytesMut) -> (r: Result<Option<BytesMut>, RQError>)
        requires
            decode_defined(old(self)@, bytes_mut_contents(*old(src))),
        ensures
            ({
                let step = decode_step(old(self)@, bytes_mut_contents(*old(src)));
                &&& final(self)@.format == old(self)@.format
                &&& final(self)@.pending == step.pending
                &&& bytes_mut_contents(*final(src)) == step.rest
                &&& decode_result_is(r, step.outcome)
            }),
    {
        proof {
            use_type_invariant(&self.builder);
        }
        let n = match self.state {
            DecodeState::Head => match self.decode_head(src)? {
                Some(n) => {
                    self.state = DecodeState::Data(n);
                    n
                },
                None => return Ok(None),
            },
            DecodeState::Data(n) => n,
        };
        match self.decode_data(n, src) {
            Some(data) => {
                self.state = DecodeState::Head;
                let head = self.builder.num_head_bytes();
                bm_reserve(src, head);
                Ok(Some(data))
            },
            None => Ok(None),
        }
    }
}

} // verus!
