//! The decisions of the loop that runs a future to completion on one thread.
//!
//! Each turn polls the future; a ready future ends the loop, and otherwise the
//! submissions the future queued are handed to the ring before the thread waits.

use vstd::prelude::*;

use crate::reactor::Submission;

verus! {

/// What the loop does after a poll.
pub enum BlockOnStep<T> {
    /// The future is done: return its output.
    Finish(T),
    /// Submit these entries as one batch, then wait on the ring.
    SubmitAndWait(Vec<Submission>),
}

/// One turn of the loop: `polled` is the poll's output, if the future is
/// ready, and `buffer` the submissions queued by pending operations.
/// A pending future takes every queued submission, in order, and leaves the
/// buffer empty.
pub fn block_on_step<T>(polled: Option<T>, buffer: &mut Vec<Submission>) -> (step: BlockOnStep<T>)
    ensures
        polled matches Some(out) ==> (step == BlockOnStep::Finish(out) && final(buffer)@ == old(buffer)@),
        polled is None ==> (step matches BlockOnStep::SubmitAndWait(batch) && batch@ == old(buffer)@
            && final(buffer)@ == Seq::<Submission>::empty()),
{
    match polled {
        Some(out) => BlockOnStep::Finish(out),
        None => {
            let mut batch: Vec<Submission> = Vec::new();
            std::mem::swap(&mut batch, buffer);
            BlockOnStep::SubmitAndWait(batch)
        },
    }
}

} // verus!
