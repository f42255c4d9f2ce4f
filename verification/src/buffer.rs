//! A streaming buffer: a fixed-capacity byte store with a read cursor and
//! a write cursor. Network reads are staged into the free space and
//! committed with [`Buffer::advance`]; complete frames are taken off the
//! front with [`Buffer::read_frame`]. When committing fills the buffer and
//! consumed bytes can be reclaimed, the unconsumed bytes are compacted to
//! the front, so a legitimate stream is never starved of space merely
//! because of historical consumption.

use vstd::prelude::*;
use vstd::slice::slice_subrange;

use crate::codec::{has_complete_frame, spec_frame_len, valid_tag, Frame, FrameError, PREFIX_SIZE};

verus! {

/// Capacity of a buffer made by [`Buffer::new`].
pub const DEFAULT_SIZE: usize = 4096;

/// Whether `n` is a power of two.
pub open spec fn is_pow2(n: int) -> bool
    decreases n,
{
    if n <= 0 {
        false
    } else if n == 1 {
        true
    } else {
        n % 2 == 0 && is_pow2(n / 2)
    }
}

/// A byte buffer with a read cursor and a write cursor. Bytes before the
/// read cursor are consumed and reclaimable; bytes between the cursors are
/// buffered but not yet parsed; bytes from the write cursor to the end are
/// free space for the next read.
pub struct Buffer {
    inner: Vec<u8>,
    read_cursor: usize,
    write_cursor: usize,
}

impl Buffer {
    /// Total capacity in bytes.
    pub closed spec fn capacity_spec(&self) -> int {
        self.inner@.len() as int
    }

    /// The cursor invariant: the read cursor is at or before the write
    /// cursor, which is at or before the end of the storage.
    pub open spec fn wf(&self) -> bool {
        0 <= self.read_pos() <= self.write_pos() <= self.capacity_spec()
    }

    /// Position of the read cursor.
    pub closed spec fn read_pos(&self) -> int {
        self.read_cursor as int
    }

    /// Position of the write cursor.
    pub closed spec fn write_pos(&self) -> int {
        self.write_cursor as int
    }

    /// The buffered-but-unparsed bytes, between the two cursors.
    pub closed spec fn contents(&self) -> Seq<u8> {
        self.inner@.subrange(self.read_cursor as int, self.write_cursor as int)
    }

    /// The first `n` bytes of free space: what a read staged there and the
    /// next [`Buffer::advance`] would commit.
    pub closed spec fn staged(&self, n: int) -> Seq<u8> {
        self.inner@.subrange(self.write_cursor as int, self.write_cursor + n)
    }

    /// Number of free bytes after the write cursor.
    pub open spec fn free_spec(&self) -> int {
        self.capacity_spec() - self.write_pos()
    }

    /// A buffer of the default capacity, empty, cursors at the front.
    pub fn new() -> (r: Self)
        ensures
            r.wf(),
            r.contents() == Seq::<u8>::empty(),
            r.read_pos() == 0,
            r.write_pos() == 0,
            r.capacity_spec() == DEFAULT_SIZE,
    {
        let r = Buffer { inner: vec![0u8; DEFAULT_SIZE], read_cursor: 0, write_cursor: 0 };
        proof {
            assert(r.contents() =~= Seq::<u8>::empty());
        }
        r
    }

    /// An empty buffer whose capacity is the smallest power of two at or
    /// above `cap`; `None` when no such power of two fits in `usize`.
    pub fn with_capacity(cap: usize) -> (r: Option<Self>)
        ensures
            r matches Some(b) ==> b.wf() && b.contents() == Seq::<u8>::empty() && b.read_pos() == 0
                && b.write_pos() == 0 && is_pow2(b.capacity_spec()) && b.capacity_spec() >= cap && (
            b.capacity_spec() == 1 || b.capacity_spec() < 2 * cap),
            r is None <==> cap > usize::MAX / 2 + 1,
    {
        if cap > usize::MAX / 2 + 1 {
            return None;
        }
        let mut p: usize = 1;
        while p < cap
            invariant
                1 <= p,
                is_pow2(p as int),
                p == 1 || (p as int) < 2 * (cap as int),
                cap <= usize::MAX / 2 + 1,
            decreases 2 * cap - p,
        {
            proof {
                assert(is_pow2(2 * (p as int)));
            }
            p = p * 2;
        }
        let r = Buffer { inner: vec![0u8; p], read_cursor: 0, write_cursor: 0 };
        proof {
            assert(r.contents() =~= Seq::<u8>::empty());
        }
        Some(r)
    }

    /// Whether the buffer has no free space left.
    pub fn full(&self) -> (r: bool)
        requires
            self.wf(),
        ensures
            r == (self.free_spec() == 0),
    {
        self.write_cursor == self.inner.len()
    }

    /// Number of free bytes: how much the next read may stage.
    pub fn available(&self) -> (r: usize)
        requires
            self.wf(),
        ensures
            r as int == self.free_spec(),
    {
        self.inner.len() - self.write_cursor
    }

    /// Stage `data` in the free space, starting at the write cursor. The
    /// bytes are not part of the contents until committed with
    /// [`Buffer::advance`].
    pub fn copy_in(&mut self, data: &[u8])
        requires
            old(self).wf(),
            data@.len() <= old(self).free_spec(),
        ensures
            final(self).wf(),
            final(self).capacity_spec() == old(self).capacity_spec(),
            final(self).read_pos() == old(self).read_pos(),
            final(self).write_pos() == old(self).write_pos(),
            final(self).contents() == old(self).contents(),
            final(self).staged(data@.len() as int) == data@,
    {
        let total = self.inner.len();
        let mut i: usize = 0;
        while i < data.len()
            invariant
                old(self).wf(),
                data@.len() <= old(self).free_spec(),
                i <= data@.len(),
                self.read_cursor == old(self).read_cursor,
                self.write_cursor == old(self).write_cursor,
                self.inner@.len() == old(self).inner@.len(),
                total == self.inner@.len(),
                forall|j: int|
                    0 <= j < i ==> self.inner@[old(self).write_cursor + j] == data@[j],
                forall|j: int|
                    0 <= j < self.inner@.len() && !(old(self).write_cursor <= j < old(self).write_cursor + i) ==> self.inner@[j] == old(self).inner@[j],
            decreases data@.len() - i,
        {
            let idx = self.write_cursor + i;
            let b = *vstd::slice::slice_index_get(data, i);
            self.inner[idx] = b;
            i += 1;
        }
        proof {
            assert(final(self).contents() =~= old(self).contents());
            assert(final(self).staged(data@.len() as int) =~= data@);
        }
    }

    /// Commit `len` freshly staged bytes, extending the write cursor. If
    /// this fills the buffer and consumed bytes sit before the read
    /// cursor, the unconsumed bytes are compacted to the front so free
    /// space reappears. The contents gain exactly the committed bytes.
    pub fn advance(&mut self, len: usize)
        requires
            old(self).wf(),
            old(self).write_pos() + len <= old(self).capacity_spec(),
        ensures
            final(self).wf(),
            final(self).capacity_spec() == old(self).capacity_spec(),
            final(self).contents() == old(self).contents() + old(self).staged(len as int),
            if old(self).read_pos() > 0 && old(self).write_pos() + len == old(self).capacity_spec() {
                final(self).read_pos() == 0 && final(self).write_pos() == old(self).write_pos()
                    + len - old(self).read_pos()
            } else {
                final(self).read_pos() == old(self).read_pos() && final(self).write_pos() == old(self).write_pos() + len
            },
    {
        let total = self.inner.len();
        self.write_cursor = self.write_cursor + len;
        if self.read_cursor > 0 && self.write_cursor == total {
            let rc = self.read_cursor;
            let wc = self.write_cursor;
            let count = wc - rc;
            let ghost mid = self.inner@;
            let mut i: usize = 0;
            while i < count
                invariant
                    rc > 0,
                    rc + count == wc <= mid.len(),
                    self.inner@.len() == mid.len(),
                    i <= count,
                    forall|j: int| 0 <= j < i ==> self.inner@[j] == mid[rc + j],
                    forall|j: int| i <= j < mid.len() ==> self.inner@[j] == mid[j],
                decreases count - i,
            {
                let b = self.inner[rc + i];
                self.inner[i] = b;
                i += 1;
            }
            self.write_cursor = count;
            self.read_cursor = 0;
            proof {
                assert(final(self).contents() =~= old(self).contents() + old(self).staged(
                    len as int,
                ));
            }
        } else {
            proof {
                assert(final(self).contents() =~= old(self).contents() + old(self).staged(
                    len as int,
                ));
            }
        }
    }

    /// Take the frame at the head of the contents, if a complete one is
    /// there.
    ///
    /// Returns `Ok(None)`, with nothing changed, when more data is needed.
    /// Surfaces the decode error, with nothing changed, on a protocol
    /// violation. On success the consumed frame's bytes leave the
    /// contents; if that drains the buffer, both cursors return to the
    /// front so the whole capacity is contiguous free space again.
    pub fn read_frame(&mut self) -> (r: Result<Option<Frame>, FrameError>)
        requires
            old(self).wf(),
        ensures
            final(self).wf(),
            final(self).capacity_spec() == old(self).capacity_spec(),
            !has_complete_frame(old(self).contents()) ==> r == Ok::<Option<Frame>, FrameError>(None)
                && *final(self) == *old(self),
            has_complete_frame(old(self).contents()) && !valid_tag(old(self).contents()[0]) ==> r
                == Err::<Option<Frame>, FrameError>(FrameError) && *final(self) == *old(self),
            has_complete_frame(old(self).contents()) && valid_tag(old(self).contents()[0]) ==> (
            r matches Ok(opt) && opt matches Some(frame) && frame.tag_spec() == old(self).contents()[0] && frame.payload_spec() == old(self).contents().subrange(
                PREFIX_SIZE as int,
                spec_frame_len(old(self).contents()),
            ) && final(self).contents() == old(self).contents().skip(
                spec_frame_len(old(self).contents()),
            ) && (final(self).contents().len() == 0 ==> final(self).read_pos() == 0 && final(self).write_pos() == 0) && (final(self).contents().len() > 0 ==> final(self).read_pos()
                == old(self).read_pos() + spec_frame_len(old(self).contents()) && final(self).write_pos() == old(self).write_pos())),
    {
        let r = self.read_cursor;
        let w = self.write_cursor;
        let bytes = slice_subrange(self.inner.as_slice(), r, w);
        let (frame, len) = match Frame::parse(bytes) {
            Ok(Some(x)) => x,
            Ok(None) => {
                return Ok(None);
            },
            Err(e) => {
                return Err(e);
            },
        };
        if r + len == w {
            self.read_cursor = 0;
            self.write_cursor = 0;
        } else {
            self.read_cursor = r + len;
        }
        proof {
            assert(final(self).contents() =~= old(self).contents().skip(
                spec_frame_len(old(self).contents()),
            ));
        }
        Ok(Some(frame))
    }
}

/// The streaming invariant: the bytes committed so far are exactly the
/// encodings of the frames returned so far, followed by the
/// buffered-but-unparsed contents. [`Buffer::advance`] and
/// [`Buffer::read_frame`] preserve it step by step, whatever the
/// interleaving and chunk sizes.
pub open spec fn stream_trace(
    committed: Seq<u8>,
    returned: Seq<(u8, Seq<u8>)>,
    contents: Seq<u8>,
) -> bool {
    committed == crate::codec::spec_encode_all(returned) + contents
}

/// Committing a chunk — what [`Buffer::advance`] does to the contents —
/// keeps the streaming invariant.
pub proof fn lemma_trace_commit(
    committed: Seq<u8>,
    returned: Seq<(u8, Seq<u8>)>,
    contents: Seq<u8>,
    chunk: Seq<u8>,
)
    requires
        stream_trace(committed, returned, contents),
    ensures
        stream_trace(committed + chunk, returned, contents + chunk),
{
    assert(crate::codec::spec_encode_all(returned) + (contents + chunk) =~= (
    crate::codec::spec_encode_all(returned) + contents) + chunk);
}

/// Taking the complete frame at the head of the contents — what a
/// successful [`Buffer::read_frame`] does — keeps the streaming
/// invariant: the frame joins the returned sequence exactly once, and
/// only its bytes leave the contents.
pub proof fn lemma_trace_take(
    committed: Seq<u8>,
    returned: Seq<(u8, Seq<u8>)>,
    contents: Seq<u8>,
)
    requires
        stream_trace(committed, returned, contents),
        has_complete_frame(contents),
    ensures
        stream_trace(
            committed,
            returned.push(
                (contents[0], contents.subrange(PREFIX_SIZE as int, spec_frame_len(contents))),
            ),
            contents.skip(spec_frame_len(contents)),
        ),
{
    let len = spec_frame_len(contents);
    let payload = contents.subrange(PREFIX_SIZE as int, len);
    crate::codec::lemma_consumed_is_encoding(contents);
    crate::codec::lemma_encode_all_push(returned, (contents[0], payload));
    assert(contents =~= contents.take(len) + contents.skip(len));
    assert(crate::codec::spec_encode_all(returned.push((contents[0], payload)))
        + contents.skip(len) =~= crate::codec::spec_encode_all(returned) + contents);
}

/// Every well-formed frame fed into the buffer comes back exactly once,
/// in its original order, with its payload intact, whatever the
/// interleaving of commits and reads and whatever the chunk sizes: at
/// any point of a run that keeps the streaming invariant, the frames
/// returned so far are exactly the leading complete frames of the
/// committed bytes, and the unparsed contents hold what remains.
pub proof fn lemma_trace_frames_exact(
    committed: Seq<u8>,
    returned: Seq<(u8, Seq<u8>)>,
    contents: Seq<u8>,
)
    requires
        stream_trace(committed, returned, contents),
        forall|i: int|
            0 <= i < returned.len() ==> crate::codec::valid_tag(#[trigger] returned[i].0)
                && returned[i].1.len() <= u64::MAX,
    ensures
        crate::codec::spec_decode_stream(committed) == returned
            + crate::codec::spec_decode_stream(contents),
{
    crate::codec::lemma_stream_frames_prefix(returned, contents);
}

} // verus!
