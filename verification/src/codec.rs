//! The wire format for the log stream: each frame is one tag byte (stdout
//! or stderr), an eight-byte little-endian payload length, and the payload
//! itself. Encoding and decoding are pure; decoding distinguishes "need
//! more data" from a protocol violation (an unknown tag byte).

use vstd::prelude::*;
use vstd::slice::{slice_index_get, slice_subrange, slice_to_vec};

verus! {

/// Tag byte marking a frame that carries bytes of the child's stdout.
pub const STDOUT_TAG: u8 = 1;

/// Tag byte marking a frame that carries bytes of the child's stderr.
pub const STDERR_TAG: u8 = 2;

/// Bytes of the fixed prefix of every frame: the tag and the length field.
pub const PREFIX_SIZE: usize = 9;

/// Whether a tag byte names one of the two output streams.
pub open spec fn valid_tag(tag: u8) -> bool {
    tag == STDOUT_TAG || tag == STDERR_TAG
}

/// The eight little-endian bytes of a 64-bit length field.
pub open spec fn u64_le_spec(v: u64) -> Seq<u8> {
    seq![
        (v & 0xff) as u8,
        ((v >> 8) & 0xff) as u8,
        ((v >> 16) & 0xff) as u8,
        ((v >> 24) & 0xff) as u8,
        ((v >> 32) & 0xff) as u8,
        ((v >> 40) & 0xff) as u8,
        ((v >> 48) & 0xff) as u8,
        ((v >> 56) & 0xff) as u8,
    ]
}

/// The 64-bit value read little-endian from eight bytes.
pub open spec fn le_to_u64_spec(b: Seq<u8>) -> u64 {
    (b[0] as u64) | ((b[1] as u64) << 8) | ((b[2] as u64) << 16) | ((b[3] as u64) << 24)
        | ((b[4] as u64) << 32) | ((b[5] as u64) << 40) | ((b[6] as u64) << 48)
        | ((b[7] as u64) << 56)
}

/// Reading back the bytes written for a value gives the value.
pub proof fn lemma_le_u64_roundtrip(v: u64)
    ensures
        le_to_u64_spec(u64_le_spec(v)) == v,
{
    let s = u64_le_spec(v);
    assert(((v & 0xff) as u8 as u64) | (((v >> 8) & 0xff) as u8 as u64) << 8 | (((v >> 16)
        & 0xff) as u8 as u64) << 16 | (((v >> 24) & 0xff) as u8 as u64) << 24 | (((v >> 32)
        & 0xff) as u8 as u64) << 32 | (((v >> 40) & 0xff) as u8 as u64) << 40 | (((v >> 48)
        & 0xff) as u8 as u64) << 48 | (((v >> 56) & 0xff) as u8 as u64) << 56 == v)
        by (bit_vector);
}

/// Writing back the value read from eight bytes gives the same bytes.
pub proof fn lemma_u64_le_roundtrip(b: Seq<u8>)
    requires
        b.len() == 8,
    ensures
        u64_le_spec(le_to_u64_spec(b)) == b,
{
    let b0 = b[0];
    let b1 = b[1];
    let b2 = b[2];
    let b3 = b[3];
    let b4 = b[4];
    let b5 = b[5];
    let b6 = b[6];
    let b7 = b[7];
    let v = le_to_u64_spec(b);
    assert(v == (b0 as u64) | ((b1 as u64) << 8) | ((b2 as u64) << 16) | ((b3 as u64) << 24) | ((
    b4 as u64) << 32) | ((b5 as u64) << 40) | ((b6 as u64) << 48) | ((b7 as u64) << 56));
    assert((v & 0xff) as u8 == b0 && ((v >> 8) & 0xff) as u8 == b1 && ((v >> 16) & 0xff) as u8
        == b2 && ((v >> 24) & 0xff) as u8 == b3 && ((v >> 32) & 0xff) as u8 == b4 && ((v >> 40)
        & 0xff) as u8 == b5 && ((v >> 48) & 0xff) as u8 == b6 && ((v >> 56) & 0xff) as u8 == b7)
        by (bit_vector)
        requires
            v == (b0 as u64) | ((b1 as u64) << 8) | ((b2 as u64) << 16) | ((b3 as u64) << 24) | ((
            b4 as u64) << 32) | ((b5 as u64) << 40) | ((b6 as u64) << 48) | ((b7 as u64) << 56),
    ;
    assert(u64_le_spec(v) =~= b);
}

/// One decoded frame: a chunk of the child's stdout or of its stderr.
#[derive(Debug, Clone, PartialEq, Eq)]
pub enum Frame {
    /// Bytes read from the child's stdout.
    Stdout(Vec<u8>),
    /// Bytes read from the child's stderr.
    Stderr(Vec<u8>),
}

/// A protocol violation: the tag byte of a complete frame named neither
/// output stream. Fatal to the connection that produced it.
#[derive(Debug, Copy, Clone, PartialEq, Eq, Structural)]
pub struct FrameError;

impl Frame {
    /// The tag byte of this frame.
    pub open spec fn tag_spec(&self) -> u8 {
        match *self {
            Frame::Stdout(_) => STDOUT_TAG,
            Frame::Stderr(_) => STDERR_TAG,
        }
    }

    /// The payload bytes of this frame.
    pub open spec fn payload_spec(&self) -> Seq<u8> {
        match *self {
            Frame::Stdout(ref p) => p@,
            Frame::Stderr(ref p) => p@,
        }
    }

    /// The tag byte of this frame.
    pub fn tag(&self) -> (r: u8)
        ensures
            r == self.tag_spec(),
    {
        match *self {
            Frame::Stdout(_) => STDOUT_TAG,
            Frame::Stderr(_) => STDERR_TAG,
        }
    }

    /// The payload bytes of this frame.
    pub fn payload(&self) -> (r: &Vec<u8>)
        ensures
            r@ == self.payload_spec(),
    {
        match *self {
            Frame::Stdout(ref p) => p,
            Frame::Stderr(ref p) => p,
        }
    }
}

/// The encoding of one frame: the tag, the payload length in eight
/// little-endian bytes, then the payload.
pub open spec fn spec_encode(tag: u8, payload: Seq<u8>) -> Seq<u8> {
    seq![tag] + u64_le_spec(payload.len() as u64) + payload
}

/// The length in bytes that the frame at the head of `bytes` declares for
/// itself: the fixed prefix plus the length field's value. Meaningful only
/// when at least the prefix is present.
pub open spec fn spec_frame_len(bytes: Seq<u8>) -> int {
    PREFIX_SIZE + le_to_u64_spec(bytes.subrange(1, PREFIX_SIZE as int))
}

/// Whether `bytes` begins with a complete frame: the prefix is present and
/// the declared payload does not extend past the available bytes.
pub open spec fn has_complete_frame(bytes: Seq<u8>) -> bool {
    bytes.len() >= PREFIX_SIZE && spec_frame_len(bytes) <= bytes.len()
}

impl Frame {
    /// Encode this frame for the wire.
    pub fn encode(&self) -> (r: Vec<u8>)
        ensures
            r@ == spec_encode(self.tag_spec(), self.payload_spec()),
    {
        match *self {
            Frame::Stdout(ref p) => encode(STDOUT_TAG, p.as_slice()),
            Frame::Stderr(ref p) => encode(STDERR_TAG, p.as_slice()),
        }
    }

    /// Decode the frame at the head of `bytes`, if a complete one is there.
    ///
    /// Returns `Ok(None)` when fewer bytes than the prefix are available or
    /// the declared payload extends past the end: more data is needed.
    /// Returns an error only for a complete frame whose tag byte names
    /// neither stream. On success also returns how many bytes the frame
    /// occupied.
    pub fn parse(bytes: &[u8]) -> (r: Result<Option<(Frame, usize)>, FrameError>)
        ensures
            !has_complete_frame(bytes@) ==> r == Ok::<Option<(Frame, usize)>, FrameError>(None),
            has_complete_frame(bytes@) && !valid_tag(bytes@[0]) ==> r == Err::<
                Option<(Frame, usize)>,
                FrameError,
            >(FrameError),
            has_complete_frame(bytes@) && valid_tag(bytes@[0]) ==> (r matches Ok(pair)
                && pair matches Some((frame, consumed)) && frame.tag_spec() == bytes@[0]
                && frame.payload_spec() == bytes@.subrange(
                PREFIX_SIZE as int,
                spec_frame_len(bytes@),
            ) && consumed == spec_frame_len(bytes@)),
    {
        if bytes.len() < PREFIX_SIZE {
            return Ok(None);
        }
        let b0 = *slice_index_get(bytes, 1);
        let b1 = *slice_index_get(bytes, 2);
        let b2 = *slice_index_get(bytes, 3);
        let b3 = *slice_index_get(bytes, 4);
        let b4 = *slice_index_get(bytes, 5);
        let b5 = *slice_index_get(bytes, 6);
        let b6 = *slice_index_get(bytes, 7);
        let b7 = *slice_index_get(bytes, 8);
        let len64: u64 = (b0 as u64) | ((b1 as u64) << 8) | ((b2 as u64) << 16) | ((
        b3 as u64) << 24) | ((b4 as u64) << 32) | ((b5 as u64) << 40) | ((b6 as u64) << 48) | ((
        b7 as u64) << 56);
        proof {
            assert(bytes@.subrange(1, PREFIX_SIZE as int) =~= seq![b0, b1, b2, b3, b4, b5, b6, b7]);
        }
        let avail = bytes.len() - PREFIX_SIZE;
        if len64 > avail as u64 {
            return Ok(None);
        }
        let len = len64 as usize;
        let data_end = PREFIX_SIZE + len;
        let tag = *slice_index_get(bytes, 0);
        if tag != STDOUT_TAG && tag != STDERR_TAG {
            return Err(FrameError);
        }
        let payload = slice_to_vec(slice_subrange(bytes, PREFIX_SIZE, data_end));
        let frame = if tag == STDOUT_TAG {
            Frame::Stdout(payload)
        } else {
            Frame::Stderr(payload)
        };
        Ok(Some((frame, data_end)))
    }
}

/// Encode one frame for the wire: the tag byte, the payload length in
/// eight little-endian bytes, then the payload.
pub fn encode(tag: u8, payload: &[u8]) -> (r: Vec<u8>)
    ensures
        r@ == spec_encode(tag, payload@),
{
    let len: u64 = payload.len() as u64;
    let mut r: Vec<u8> = Vec::new();
    r.push(tag);
    r.push((len & 0xff) as u8);
    r.push(((len >> 8) & 0xff) as u8);
    r.push(((len >> 16) & 0xff) as u8);
    r.push(((len >> 24) & 0xff) as u8);
    r.push(((len >> 32) & 0xff) as u8);
    r.push(((len >> 40) & 0xff) as u8);
    r.push(((len >> 48) & 0xff) as u8);
    r.push(((len >> 56) & 0xff) as u8);
    let mut i: usize = 0;
    while i < payload.len()
        invariant
            i <= payload@.len(),
            r@ == seq![tag] + u64_le_spec(payload@.len() as u64) + payload@.subrange(0, i as int),
        decreases payload@.len() - i,
    {
        r.push(*slice_index_get(payload, i));
        proof {
            assert(payload@.subrange(0, i + 1) =~= payload@.subrange(0, i as int).push(
                payload@[i as int],
            ));
        }
        i += 1;
    }
    proof {
        assert(payload@.subrange(0, payload@.len() as int) =~= payload@);
        assert(r@ =~= spec_encode(tag, payload@));
    }
    r
}

/// A frame's encoding put before any other bytes begins with exactly that
/// frame: the head is complete, carries the frame's tag and payload, and
/// what follows the frame is untouched.
pub proof fn lemma_encode_prefix(tag: u8, payload: Seq<u8>, rest: Seq<u8>)
    requires
        payload.len() <= u64::MAX,
    ensures
        ({
            let s = spec_encode(tag, payload) + rest;
            &&& has_complete_frame(s)
            &&& s[0] == tag
            &&& spec_frame_len(s) == PREFIX_SIZE + payload.len()
            &&& s.subrange(PREFIX_SIZE as int, spec_frame_len(s)) == payload
            &&& s.skip(spec_frame_len(s)) == rest
        }),
{
    let s = spec_encode(tag, payload) + rest;
    assert(s.subrange(1, PREFIX_SIZE as int) =~= u64_le_spec(payload.len() as u64));
    lemma_le_u64_roundtrip(payload.len() as u64);
    assert(spec_frame_len(s) == PREFIX_SIZE + payload.len());
    assert(s.subrange(PREFIX_SIZE as int, spec_frame_len(s)) =~= payload);
    assert(s.skip(spec_frame_len(s)) =~= rest);
}

/// Round trip: decoding an encoded frame yields the same tag and payload
/// and consumes exactly the prefix plus the payload's length.
pub proof fn lemma_round_trip(tag: u8, payload: Seq<u8>)
    requires
        payload.len() <= u64::MAX,
    ensures
        ({
            let enc = spec_encode(tag, payload);
            &&& has_complete_frame(enc)
            &&& enc[0] == tag
            &&& spec_frame_len(enc) == PREFIX_SIZE + payload.len()
            &&& enc.subrange(PREFIX_SIZE as int, spec_frame_len(enc)) == payload
        }),
{
    lemma_encode_prefix(tag, payload, Seq::empty());
    assert(spec_encode(tag, payload) + Seq::<u8>::empty() =~= spec_encode(tag, payload));
}

/// The bytes a complete frame occupies at the head of a stream are
/// exactly the encoding of the tag and payload read out of them: what a
/// decoder consumes for a frame is what an encoder would have written for
/// it.
pub proof fn lemma_consumed_is_encoding(bytes: Seq<u8>)
    requires
        has_complete_frame(bytes),
    ensures
        bytes.take(spec_frame_len(bytes)) == spec_encode(
            bytes[0],
            bytes.subrange(PREFIX_SIZE as int, spec_frame_len(bytes)),
        ),
{
    let len = spec_frame_len(bytes);
    let payload = bytes.subrange(PREFIX_SIZE as int, len);
    lemma_u64_le_roundtrip(bytes.subrange(1, PREFIX_SIZE as int));
    assert(u64_le_spec(payload.len() as u64) == bytes.subrange(1, PREFIX_SIZE as int));
    assert(bytes.take(len) =~= spec_encode(bytes[0], payload));
}

/// The concatenated encodings of a sequence of frames, each given as a tag
/// and a payload.
pub open spec fn spec_encode_all(frames: Seq<(u8, Seq<u8>)>) -> Seq<u8>
    decreases frames.len(),
{
    if frames.len() == 0 {
        Seq::empty()
    } else {
        spec_encode(frames[0].0, frames[0].1) + spec_encode_all(frames.skip(1))
    }
}

/// The frames read greedily off the head of a byte stream: as long as a
/// complete frame with a valid tag is at the head, take it and continue
/// after it.
pub open spec fn spec_decode_stream(bytes: Seq<u8>) -> Seq<(u8, Seq<u8>)>
    decreases bytes.len(),
{
    if has_complete_frame(bytes) && valid_tag(bytes[0]) {
        seq![(bytes[0], bytes.subrange(PREFIX_SIZE as int, spec_frame_len(bytes)))]
            + spec_decode_stream(bytes.skip(spec_frame_len(bytes)))
    } else {
        Seq::empty()
    }
}

/// Appending one frame to a sequence appends its encoding to the stream.
pub proof fn lemma_encode_all_push(frames: Seq<(u8, Seq<u8>)>, frame: (u8, Seq<u8>))
    ensures
        spec_encode_all(frames.push(frame)) == spec_encode_all(frames) + spec_encode(
            frame.0,
            frame.1,
        ),
    decreases frames.len(),
{
    if frames.len() == 0 {
        let p = frames.push(frame);
        assert(p[0] == frame);
        assert(p.skip(1) =~= Seq::<(u8, Seq<u8>)>::empty());
        assert(spec_encode_all(p.skip(1)) == Seq::<u8>::empty());
        assert(spec_encode_all(p) == spec_encode(p[0].0, p[0].1) + spec_encode_all(p.skip(1)));
        assert(spec_encode_all(p) =~= spec_encode(frame.0, frame.1));
        assert(spec_encode_all(frames) + spec_encode(frame.0, frame.1) =~= spec_encode(
            frame.0,
            frame.1,
        ));
    } else {
        assert(frames.push(frame).skip(1) =~= frames.skip(1).push(frame));
        lemma_encode_all_push(frames.skip(1), frame);
        assert(spec_encode_all(frames.push(frame)) =~= spec_encode_all(frames) + spec_encode(
            frame.0,
            frame.1,
        ));
    }
}

/// Well-formed frames put before any other bytes decode off the head of
/// the stream exactly, in their original order, leaving the other bytes
/// to decode on their own.
pub proof fn lemma_stream_frames_prefix(frames: Seq<(u8, Seq<u8>)>, rest: Seq<u8>)
    requires
        forall|i: int|
            0 <= i < frames.len() ==> valid_tag(#[trigger] frames[i].0) && frames[i].1.len()
                <= u64::MAX,
    ensures
        spec_decode_stream(spec_encode_all(frames) + rest) == frames + spec_decode_stream(rest),
    decreases frames.len(),
{
    if frames.len() == 0 {
        assert(spec_encode_all(frames) + rest =~= rest);
        assert(frames + spec_decode_stream(rest) =~= spec_decode_stream(rest));
    } else {
        let tag = frames[0].0;
        let payload = frames[0].1;
        let tail = spec_encode_all(frames.skip(1)) + rest;
        let s = spec_encode(tag, payload) + tail;
        assert(spec_encode_all(frames) + rest =~= s);
        lemma_encode_prefix(tag, payload, tail);
        lemma_stream_frames_prefix(frames.skip(1), rest);
        assert(s.subrange(PREFIX_SIZE as int, spec_frame_len(s)) == payload);
        assert(spec_decode_stream(s) =~= seq![(tag, payload)] + (frames.skip(1)
            + spec_decode_stream(rest)));
        assert(frames + spec_decode_stream(rest) =~= seq![(tag, payload)] + (frames.skip(1)
            + spec_decode_stream(rest)));
    }
}

/// Every well-formed frame written into a stream is read back exactly
/// once, in the original order, with its payload intact: decoding the
/// concatenation of the frames' encodings returns precisely that sequence
/// of frames.
pub proof fn lemma_stream_frames(frames: Seq<(u8, Seq<u8>)>)
    requires
        forall|i: int|
            0 <= i < frames.len() ==> valid_tag(#[trigger] frames[i].0) && frames[i].1.len()
                <= u64::MAX,
    ensures
        spec_decode_stream(spec_encode_all(frames)) == frames,
{
    lemma_stream_frames_prefix(frames, Seq::empty());
    assert(spec_encode_all(frames) + Seq::<u8>::empty() =~= spec_encode_all(frames));
    assert(spec_decode_stream(Seq::<u8>::empty()) =~= Seq::<(u8, Seq<u8>)>::empty());
    assert(frames + Seq::<(u8, Seq<u8>)>::empty() =~= frames);
}

/// The wire format is unambiguous: two sequences of well-formed frames
/// with the same encoded stream are the same sequence, so a decoded
/// stream answers to exactly one history of writes.
#[verifier::rlimit(100)]
#[verifier::spinoff_prover]
pub proof fn lemma_encoding_injective(frames1: Seq<(u8, Seq<u8>)>, frames2: Seq<(u8, Seq<u8>)>)
    requires
        forall|i: int|
            0 <= i < frames1.len() ==> valid_tag(#[trigger] frames1[i].0) && frames1[i].1.len()
                <= u64::MAX,
        forall|i: int|
            0 <= i < frames2.len() ==> valid_tag(#[trigger] frames2[i].0) && frames2[i].1.len()
                <= u64::MAX,
        spec_encode_all(frames1) == spec_encode_all(frames2),
    ensures
        frames1 == frames2,
{
    lemma_stream_frames(frames1);
    lemma_stream_frames(frames2);
    assert(frames1 == spec_decode_stream(spec_encode_all(frames1)));
    assert(frames2 == spec_decode_stream(spec_encode_all(frames2)));
}

} // verus!
