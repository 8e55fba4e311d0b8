//! Length-prefixed framing: every frame is a four-byte big-endian length
//! followed by exactly that many payload bytes.

use vstd::prelude::*;
use crate::error::{ErrorView, ProtocolError};

verus! {

/// Number of bytes in the length prefix.
pub const HEADER_LEN: usize = 4;

/// Largest payload, in bytes, that a frame may carry (8 MiB).
pub const MAX_FRAME_LEN: usize = 8388608;

/// The four bytes that spell `n`, most significant first.
pub open spec fn be32(n: nat) -> Seq<u8> {
    seq![
        ((n / 0x100_0000) % 0x100) as u8,
        ((n / 0x1_0000) % 0x100) as u8,
        ((n / 0x100) % 0x100) as u8,
        (n % 0x100) as u8,
    ]
}

/// The number that the first four bytes of `bytes` spell, most significant
/// first.
pub open spec fn be32_value(bytes: Seq<u8>) -> nat
    recommends
        bytes.len() >= 4,
{
    (bytes[0] as nat) * 0x100_0000 + (bytes[1] as nat) * 0x1_0000 + (bytes[2] as nat) * 0x100
        + (bytes[3] as nat)
}

/// The bytes of the frame that carries `payload`.
pub open spec fn frame_of(payload: Seq<u8>) -> Seq<u8> {
    be32(payload.len()) + payload
}

/// What stands at the front of a buffer of received bytes.
pub enum Head {
    /// Not enough bytes yet for a whole frame.
    Incomplete,
    /// The length prefix announces more than [`MAX_FRAME_LEN`] bytes.
    Oversized,
    /// A whole frame, and the bytes that follow it.
    Frame { payload: Seq<u8>, rest: Seq<u8> },
}

/// Reads the front of `buf`.
pub open spec fn head_of(buf: Seq<u8>) -> Head {
    if buf.len() < HEADER_LEN {
        Head::Incomplete
    } else if be32_value(buf) > MAX_FRAME_LEN {
        Head::Oversized
    } else if buf.len() < HEADER_LEN + be32_value(buf) {
        Head::Incomplete
    } else {
        Head::Frame {
            payload: buf.subrange(HEADER_LEN as int, HEADER_LEN + be32_value(buf)),
            rest: buf.subrange(HEADER_LEN + be32_value(buf), buf.len() as int),
        }
    }
}

/// What a stream that has ended decodes to: the payloads of its frames, in
/// order of arrival, and whether it ended between two frames.
pub struct Decoded {
    pub frames: Seq<Seq<u8>>,
    pub clean: bool,
}

/// Decodes a whole stream. Decoding stops at the first place where no
/// complete, acceptable frame stands; the stream is clean only if that place
/// is its end.
pub open spec fn decode_stream(stream: Seq<u8>) -> Decoded
    decreases stream.len(),
{
    if stream.len() == 0 {
        Decoded { frames: Seq::empty(), clean: true }
    } else {
        match head_of(stream) {
            Head::Frame { payload, rest } => {
                let after = decode_stream(rest);
                Decoded { frames: seq![payload] + after.frames, clean: after.clean }
            },
            _ => Decoded { frames: Seq::empty(), clean: false },
        }
    }
}

/// The frames of `payloads`, one after the other.
pub open spec fn stream_of(payloads: Seq<Seq<u8>>) -> Seq<u8>
    decreases payloads.len(),
{
    if payloads.len() == 0 {
        Seq::empty()
    } else {
        frame_of(payloads[0]) + stream_of(payloads.subrange(1, payloads.len() as int))
    }
}

/// Appends `src` to `dst`.
pub fn append_bytes(dst: &mut Vec<u8>, src: &[u8])
    ensures
        final(dst)@ == old(dst)@ + src@,
{
    let mut i: usize = 0;
    while i < src.len()
        invariant
            i <= src@.len(),
            dst@ == old(dst)@ + src@.subrange(0, i as int),
        decreases src@.len() - i,
    {
        dst.push(src[i]);
        i += 1;
    }
}

/// Reads the length prefix at the front of `bytes`.
fn read_be32(bytes: &Vec<u8>) -> (n: usize)
    requires
        bytes@.len() >= HEADER_LEN,
    ensures
        n == be32_value(bytes@),
{
    let n: u64 = (bytes[0] as u64) * 0x100_0000 + (bytes[1] as u64) * 0x1_0000 + (bytes[2] as u64)
        * 0x100 + (bytes[3] as u64);
    n as usize
}

/// Wraps `payload` in a frame.
///
/// A payload of more than [`MAX_FRAME_LEN`] bytes cannot be framed and is
/// refused with [`ProtocolError::Framing`]; every other payload is framed.
pub fn encode_frame(payload: &[u8]) -> (r: Result<Vec<u8>, ProtocolError>)
    ensures
        payload@.len() <= MAX_FRAME_LEN ==> r is Ok && r->Ok_0@ == frame_of(payload@),
        payload@.len() > MAX_FRAME_LEN ==> r is Err && r->Err_0@ == ErrorView::Framing,
{
    let n: usize = payload.len();
    if n > MAX_FRAME_LEN {
        return Err(ProtocolError::Framing);
    }
    let mut out: Vec<u8> = Vec::new();
    out.push(((n / 0x100_0000) % 0x100) as u8);
    out.push(((n / 0x1_0000) % 0x100) as u8);
    out.push(((n / 0x100) % 0x100) as u8);
    out.push((n % 0x100) as u8);
    append_bytes(&mut out, payload);
    Ok(out)
}

/// Collects the bytes of a stream as they arrive and hands out its frames.
///
/// The view of a decoder is the sequence of bytes that have arrived and
/// belong to no frame handed out so far.
pub struct FrameDecoder {
    buffer: Vec<u8>,
}

impl View for FrameDecoder {
    type V = Seq<u8>;

    closed spec fn view(&self) -> Seq<u8> {
        self.buffer@
    }
}

impl FrameDecoder {
    /// A decoder that has seen no bytes.
    pub fn new() -> (d: FrameDecoder)
        ensures
            d@ == Seq::<u8>::empty(),
    {
        FrameDecoder { buffer: Vec::new() }
    }

    /// Number of bytes that wait for the rest of their frame.
    pub fn pending(&self) -> (n: usize)
        ensures
            n == self@.len(),
    {
        self.buffer.len()
    }

    /// Takes in bytes that arrived, in the order in which they arrived.
    pub fn push(&mut self, bytes: &[u8])
        ensures
            final(self)@ == old(self)@ + bytes@,
    {
        append_bytes(&mut self.buffer, bytes);
    }

    /// Hands out the next frame's payload, if a whole frame has arrived.
    ///
    /// Returns `Ok(None)` while the frame at the front is incomplete, and
    /// [`ProtocolError::Framing`] when its length prefix announces more than
    /// [`MAX_FRAME_LEN`] bytes; in both cases the decoder is unchanged.
    pub fn next_frame(&mut self) -> (r: Result<Option<Vec<u8>>, ProtocolError>)
        ensures
            match head_of(old(self)@) {
                Head::Incomplete => r is Ok && r->Ok_0 is None && final(self)@ == old(self)@,
                Head::Oversized => r is Err && r->Err_0@ == ErrorView::Framing && final(self)@
                    == old(self)@,
                Head::Frame { payload, rest } => r is Ok && r->Ok_0 is Some && r->Ok_0->Some_0@
                    == payload && final(self)@ == rest,
            },
    {
        if self.buffer.len() < HEADER_LEN {
            return Ok(None);
        }
        let n: usize = read_be32(&self.buffer);
        if n > MAX_FRAME_LEN {
            return Err(ProtocolError::Framing);
        }
        if self.buffer.len() - HEADER_LEN < n {
            return Ok(None);
        }
        let rest: Vec<u8> = self.buffer.split_off(HEADER_LEN + n);
        let payload: Vec<u8> = self.buffer.split_off(HEADER_LEN);
        self.buffer = rest;
        Ok(Some(payload))
    }

    /// Closes the stream: succeeds if it ended between two frames, and fails
    /// with [`ProtocolError::Framing`] if part of a frame is left over.
    pub fn finish(&self) -> (r: Result<(), ProtocolError>)
        ensures
            self@.len() == 0 ==> r is Ok,
            self@.len() > 0 ==> r is Err && r->Err_0@ == ErrorView::Framing,
    {
        if self.buffer.len() == 0 {
            Ok(())
        } else {
            Err(ProtocolError::Framing)
        }
    }
}

/// The payloads, each by its view, in order.
pub open spec fn payloads_view(frames: Seq<Vec<u8>>) -> Seq<Seq<u8>> {
    Seq::new(frames.len(), |i: int| frames[i]@)
}

/// Decodes a stream that has ended: the payloads of the frames that stand
/// whole at its front, in order, and whether the stream ended cleanly.
///
/// The end is an error, [`ProtocolError::Framing`], unless the stream ends
/// between two frames; the frames before the error are still returned.
pub fn read_frames(stream: &[u8]) -> (r: (Vec<Vec<u8>>, Result<(), ProtocolError>))
    ensures
        payloads_view(r.0@) == decode_stream(stream@).frames,
        decode_stream(stream@).clean ==> r.1 is Ok,
        !decode_stream(stream@).clean ==> r.1 is Err && r.1->Err_0@ == ErrorView::Framing,
{
    let mut decoder = FrameDecoder::new();
    decoder.push(stream);
    let mut frames: Vec<Vec<u8>> = Vec::new();
    loop
        invariant
            decode_stream(stream@).frames == payloads_view(frames@) + decode_stream(
                decoder@,
            ).frames,
            decode_stream(stream@).clean == decode_stream(decoder@).clean,
        decreases decoder@.len(),
    {
        match decoder.next_frame() {
            Ok(Some(payload)) => {
                frames.push(payload);
            },
            Ok(None) => {
                let end = decoder.finish();
                return (frames, end);
            },
            Err(e) => {
                return (frames, Err(e));
            },
        }
    }
}

/// A length prefix reads back as the length it was written for.
pub proof fn lemma_be32_round_trip(n: nat)
    requires
        n < 0x1_0000_0000,
    ensures
        be32(n).len() == 4,
        be32_value(be32(n)) == n,
{
}

/// A frame at the front of a buffer is read back whole, whatever follows it.
pub proof fn lemma_frame_round_trip(payload: Seq<u8>, rest: Seq<u8>)
    requires
        payload.len() <= MAX_FRAME_LEN,
    ensures
        head_of(frame_of(payload) + rest) == (Head::Frame { payload, rest }),
{
    let buf = frame_of(payload) + rest;
    lemma_be32_round_trip(payload.len());
    assert(buf.subrange(0, HEADER_LEN as int) =~= be32(payload.len()));
    assert(buf.subrange(HEADER_LEN as int, HEADER_LEN + payload.len()) =~= payload);
    assert(buf.subrange(HEADER_LEN + payload.len(), buf.len() as int) =~= rest);
}

/// Bytes that arrive later do not change what was read before: a whole frame
/// at the front stays that frame, with the new bytes behind what followed it,
/// and a length prefix that announced too much still does.
pub proof fn lemma_head_of_longer(buf: Seq<u8>, more: Seq<u8>)
    ensures
        head_of(buf) is Frame ==> head_of(buf + more) == (Head::Frame {
            payload: head_of(buf)->payload,
            rest: head_of(buf)->rest + more,
        }),
        head_of(buf) is Oversized ==> head_of(buf + more) is Oversized,
{
    if buf.len() >= HEADER_LEN {
        let longer = buf + more;
        if head_of(buf) is Frame {
            let n = be32_value(buf);
            assert(longer.subrange(HEADER_LEN as int, HEADER_LEN + n) =~= buf.subrange(
                HEADER_LEN as int,
                HEADER_LEN + n,
            ));
            assert(longer.subrange(HEADER_LEN + n, longer.len() as int) =~= buf.subrange(
                HEADER_LEN + n,
                buf.len() as int,
            ) + more);
        }
    }
}

/// A stream made of whole frames decodes to their payloads and ends cleanly.
pub proof fn lemma_stream_round_trip(payloads: Seq<Seq<u8>>)
    requires
        forall|i: int| 0 <= i < payloads.len() ==> (#[trigger] payloads[i]).len() <= MAX_FRAME_LEN,
    ensures
        decode_stream(stream_of(payloads)) == (Decoded { frames: payloads, clean: true }),
    decreases payloads.len(),
{
    if payloads.len() == 0 {
        assert(payloads =~= Seq::empty());
    } else {
        let tail = payloads.subrange(1, payloads.len() as int);
        lemma_frame_round_trip(payloads[0], stream_of(tail));
        lemma_stream_round_trip(tail);
        assert(seq![payloads[0]] + tail =~= payloads);
    }
}

/// A stream that ends inside a frame is not clean: when whole frames are
/// followed by at least one byte of a frame whose announced length never
/// arrives in full, the frames before it are delivered and the end is an
/// error.
pub proof fn lemma_truncated_stream(payloads: Seq<Seq<u8>>, cut: Seq<u8>)
    requires
        forall|i: int| 0 <= i < payloads.len() ==> (#[trigger] payloads[i]).len() <= MAX_FRAME_LEN,
        cut.len() > 0,
        cut.len() < HEADER_LEN || cut.len() < HEADER_LEN + be32_value(cut),
    ensures
        decode_stream(stream_of(payloads) + cut) == (Decoded { frames: payloads, clean: false }),
    decreases payloads.len(),
{
    if payloads.len() == 0 {
        assert(payloads =~= Seq::empty());
    } else {
        let tail = payloads.subrange(1, payloads.len() as int);
        lemma_frame_round_trip(payloads[0], stream_of(tail) + cut);
        assert(stream_of(payloads) + cut =~= frame_of(payloads[0]) + (stream_of(tail) + cut));
        lemma_truncated_stream(tail, cut);
        assert(seq![payloads[0]] + tail =~= payloads);
    }
}

} // verus!
