//! The log forwarder's bookkeeping. Per wakeup the forwarder reads one
//! chunk from the child, frames it with the codec, and writes the frame
//! to every attached sink; the decisions in that round are pure and live
//! here. A read that returned data names the stream's tag to frame with;
//! a zero-byte read closes that stream and emits nothing, and the
//! forwarder is done once both streams have closed. Newly attached sinks
//! are merged into the active set before each write pass, and a sink
//! whose write failed is dropped from the set silently, leaving the
//! others — and their order — untouched.

use vstd::prelude::*;

use crate::codec::{STDERR_TAG, STDOUT_TAG};

verus! {

/// Which of the child's two output streams are still open. Each closes
/// when a read on it returns zero bytes.
#[derive(Debug, Copy, Clone, PartialEq, Eq, Structural)]
pub struct ForwardState {
    /// Whether the child's stdout pipe is still open.
    pub stdout_open: bool,
    /// Whether the child's stderr pipe is still open.
    pub stderr_open: bool,
}

impl ForwardState {
    /// A fresh forwarder serves both streams.
    pub fn new() -> (r: Self)
        ensures
            r.stdout_open,
            r.stderr_open,
    {
        ForwardState { stdout_open: true, stderr_open: true }
    }

    /// One read's decision: a read that returned data yields the
    /// stream's tag, to frame the chunk with; a zero-byte read closes
    /// that stream — it emits no frame, and the other stream is served
    /// on.
    pub fn on_read(&mut self, from_stdout: bool, n: usize) -> (r: Option<u8>)
        ensures
            n > 0 ==> *final(self) == *old(self) && r == Some(
                if from_stdout {
                    STDOUT_TAG
                } else {
                    STDERR_TAG
                },
            ),
            n == 0 ==> r is None && (if from_stdout {
                !final(self).stdout_open && final(self).stderr_open == old(self).stderr_open
            } else {
                !final(self).stderr_open && final(self).stdout_open == old(self).stdout_open
            }),
    {
        if n > 0 {
            Some(
                if from_stdout {
                    STDOUT_TAG
                } else {
                    STDERR_TAG
                },
            )
        } else {
            if from_stdout {
                self.stdout_open = false;
            } else {
                self.stderr_open = false;
            }
            None
        }
    }

    /// Whether the forwarder is done: both streams have closed.
    pub fn finished(&self) -> (r: bool)
        ensures
            r == (!self.stdout_open && !self.stderr_open),
    {
        !self.stdout_open && !self.stderr_open
    }
}

/// Merge the sinks attached since the last pass into the active set:
/// they join at the end, in attachment order, and the pending list is
/// left empty for the next attachments.
pub fn merge_pending<S>(active: &mut Vec<S>, pending: &mut Vec<S>)
    ensures
        final(active)@ == old(active)@ + old(pending)@,
        final(pending)@ == Seq::<S>::empty(),
{
    active.append(pending);
}

/// Of `sinks`, those whose flag is set, in their original order.
pub open spec fn spec_keep<S>(sinks: Seq<S>, ok: Seq<bool>) -> Seq<S>
    decreases sinks.len(),
{
    if sinks.len() == 0 {
        Seq::empty()
    } else if ok.len() > 0 && ok[0] {
        seq![sinks[0]] + spec_keep(sinks.skip(1), ok.skip(1))
    } else {
        spec_keep(sinks.skip(1), ok.skip(1))
    }
}

/// Keep the sinks whose write succeeded, dropping the others silently:
/// `ok[i]` reports sink `i`'s write. The kept sinks stay in order, so a
/// remote disconnect never disturbs delivery to the remaining sinks.
pub fn prune_failed<S>(sinks: Vec<S>, ok: &Vec<bool>) -> (r: Vec<S>)
    requires
        ok@.len() == sinks@.len(),
    ensures
        r@ == spec_keep(sinks@, ok@),
{
    let mut r: Vec<S> = Vec::new();
    let mut rest = sinks;
    let mut i: usize = 0;
    let total = ok.len();
    proof {
        assert(ok@.skip(0) =~= ok@);
        assert(r@ + spec_keep(rest@, ok@) =~= spec_keep(rest@, ok@));
    }
    while rest.len() > 0
        invariant
            total == ok@.len(),
            i + rest@.len() == ok@.len(),
            spec_keep(sinks@, ok@) == r@ + spec_keep(rest@, ok@.skip(i as int)),
        decreases rest@.len(),
    {
        let ghost s = rest@;
        let ghost r0 = r@;
        let head = rest.remove(0);
        let keep = *vstd::slice::slice_index_get(ok.as_slice(), i);
        if keep {
            r.push(head);
        }
        i += 1;
        proof {
            assert(s.remove(0) =~= s.skip(1));
            assert(ok@.skip(i - 1)[0] == ok@[i - 1]);
            assert(ok@.skip(i - 1).skip(1) =~= ok@.skip(i as int));
            assert(r@ + spec_keep(rest@, ok@.skip(i as int)) =~= r0 + spec_keep(
                s,
                ok@.skip(i - 1),
            ));
        }
    }
    r
}

} // verus!
