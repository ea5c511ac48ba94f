//! The decisions of the copy loop.
//!
//! The caller owns the output and does the writing. A [`CopyJob`] tells it
//! what to do next, and is told how each write ended. Chunks are handed out
//! in file order, one at a time, so a plain appending writer keeps the bytes
//! in their order.

use vstd::prelude::*;
use crate::chunk::{
    Chunk, chunk_at, chunk_count, chunk_total, lemma_chunk_bounds, lemma_chunk_total_sign,
    lemma_chunks_are_contiguous, planned, reach,
};
use crate::copy::{chunk_bytes, kept};

verus! {

/// What the caller is to do next.
#[derive(Clone, Copy, Debug, PartialEq, Eq)]
pub enum CopyAction {
    /// Append these bytes of the input to the output.
    Write(Chunk),
    /// Everything is written: flush and close the output.
    Finish,
    /// A write failed: give up and report the failure.
    Abort,
}

/// How a write that was asked for ended.
#[derive(Clone, Copy, Debug, PartialEq, Eq)]
pub enum WriteOutcome {
    /// The whole chunk is in the output.
    Written,
    /// The write failed; the output may hold a part of the chunk.
    Failed,
}

/// Mathematical model of a [`CopyJob`].
pub struct JobView {
    /// The boundary: the job copies `[0, end)`.
    pub end: int,
    /// The chunk size.
    pub size: int,
    /// How many chunks were written.
    pub done: int,
    /// Whether a write failed.
    pub failed: bool,
}

impl JobView {
    /// The state of a job that has written nothing yet.
    pub open spec fn fresh(end: int, size: int) -> JobView {
        JobView { end, size, done: 0, failed: false }
    }

    /// What every job satisfies.
    pub open spec fn valid(self) -> bool {
        &&& self.size > 0
        &&& 0 <= self.end <= usize::MAX
        &&& 0 <= self.done <= chunk_total(self.end, self.size)
    }

    /// The number of bytes written so far.
    pub open spec fn written(self) -> int {
        reach(self.end, self.size, self.done)
    }

    /// Whether a chunk is still to be written.
    pub open spec fn pending(self) -> bool {
        !self.failed && self.done < chunk_total(self.end, self.size)
    }

    /// Whether the whole range was written.
    pub open spec fn complete(self) -> bool {
        !self.failed && self.done >= chunk_total(self.end, self.size)
    }

    /// The action that this state asks for.
    pub open spec fn action(self) -> CopyAction {
        if self.failed {
            CopyAction::Abort
        } else if self.done < chunk_total(self.end, self.size) {
            CopyAction::Write(planned(self.end, self.size, self.done))
        } else {
            CopyAction::Finish
        }
    }

    /// The state after the pending write ended with `outcome`. Where no
    /// write is pending the state stays as it is.
    pub open spec fn after(self, outcome: WriteOutcome) -> JobView {
        if !self.pending() {
            self
        } else {
            match outcome {
                WriteOutcome::Written => JobView { done: self.done + 1, ..self },
                WriteOutcome::Failed => JobView { failed: true, ..self },
            }
        }
    }

    /// The state after a run of outcomes, the first of them first.
    pub open spec fn after_all(self, outcomes: Seq<WriteOutcome>) -> JobView
        decreases outcomes.len(),
    {
        if outcomes.len() == 0 {
            self
        } else {
            self.after_all(outcomes.drop_last()).after(outcomes.last())
        }
    }
}

/// What an output that was empty at the start holds after a run of
/// outcomes, where the caller appended each chunk that it was asked to
/// write. A failed write is taken to have added nothing.
pub open spec fn appended(job: JobView, raw: Seq<u8>, outcomes: Seq<WriteOutcome>) -> Seq<u8>
    decreases outcomes.len(),
{
    if outcomes.len() == 0 {
        Seq::empty()
    } else {
        let before = job.after_all(outcomes.drop_last());
        let output = appended(job, raw, outcomes.drop_last());
        if before.pending() && outcomes.last() is Written {
            output + chunk_bytes(raw, job.end, job.size, before.done)
        } else {
            output
        }
    }
}

/// Progress is monotone: no outcome lowers the number of bytes written, and
/// it never passes the boundary.
pub proof fn lemma_progress_is_monotone(job: JobView, outcome: WriteOutcome)
    requires
        job.valid(),
    ensures
        job.after(outcome).valid(),
        job.written() <= job.after(outcome).written() <= job.end,
        0 <= job.written(),
{
    if job.done < chunk_total(job.end, job.size) {
        lemma_chunk_bounds(job.end, job.size, job.done);
        lemma_chunks_are_contiguous(job.end, job.size, job.done);
    }
}

/// A chunk that is asked for starts where the output ends, and it is the next
/// chunk of the plan: appending it moves the progress by its length.
pub proof fn lemma_write_continues_output(job: JobView)
    requires
        job.valid(),
        job.pending(),
    ensures
        job.action() == CopyAction::Write(planned(job.end, job.size, job.done)),
        planned(job.end, job.size, job.done).start == job.written(),
        job.after(WriteOutcome::Written).written() == job.written() + planned(
            job.end,
            job.size,
            job.done,
        ).len,
{
    lemma_chunk_bounds(job.end, job.size, job.done);
    lemma_chunks_are_contiguous(job.end, job.size, job.done);
}

/// Whatever the outcomes were: while no write has failed the output holds
/// exactly the bytes of the input up to the progress, and when the job asks
/// to finish, it holds the kept content, all of it.
pub proof fn lemma_output_is_kept_prefix(
    end: int,
    size: int,
    raw: Seq<u8>,
    outcomes: Seq<WriteOutcome>,
)
    requires
        size > 0,
        0 <= end <= raw.len(),
        end <= usize::MAX,
    ensures
        ({
            let job = JobView::fresh(end, size);
            let last = job.after_all(outcomes);
            &&& last.valid()
            &&& last.end == end
            &&& last.size == size
            &&& !last.failed ==> appended(job, raw, outcomes) == kept(raw, last.written())
            &&& last.action() == CopyAction::Finish ==> appended(job, raw, outcomes) == kept(
                raw,
                end,
            )
        }),
    decreases outcomes.len(),
{
    let job = JobView::fresh(end, size);
    lemma_chunk_total_sign(end, size);
    if outcomes.len() == 0 {
        assert(appended(job, raw, outcomes) =~= kept(raw, job.written()));
    } else {
        lemma_output_is_kept_prefix(end, size, raw, outcomes.drop_last());
        let before = job.after_all(outcomes.drop_last());
        let last = job.after_all(outcomes);
        lemma_progress_is_monotone(before, outcomes.last());
        if before.pending() {
            lemma_write_continues_output(before);
            lemma_chunk_bounds(end, size, before.done);
            if outcomes.last() is Written {
                assert(appended(job, raw, outcomes) =~= kept(raw, last.written()));
            }
        }
    }
}

/// A failure is final: once a write has failed, the job asks to abort
/// whatever is reported to it afterwards, and its progress stands still.
pub proof fn lemma_failure_is_final(job: JobView, outcomes: Seq<WriteOutcome>)
    requires
        job.failed,
    ensures
        job.after_all(outcomes) == job,
        job.after_all(outcomes).action() == CopyAction::Abort,
    decreases outcomes.len(),
{
    if outcomes.len() > 0 {
        lemma_failure_is_final(job, outcomes.drop_last());
    }
}

/// Two runs over the same input and boundary that both come to their end
/// leave the same output, whatever their chunk sizes.
pub proof fn lemma_finished_runs_agree(
    end: int,
    raw: Seq<u8>,
    first_size: int,
    first: Seq<WriteOutcome>,
    second_size: int,
    second: Seq<WriteOutcome>,
)
    requires
        first_size > 0,
        second_size > 0,
        0 <= end <= raw.len(),
        end <= usize::MAX,
        JobView::fresh(end, first_size).after_all(first).action() == CopyAction::Finish,
        JobView::fresh(end, second_size).after_all(second).action() == CopyAction::Finish,
    ensures
        appended(JobView::fresh(end, first_size), raw, first) == appended(
            JobView::fresh(end, second_size),
            raw,
            second,
        ),
        appended(JobView::fresh(end, first_size), raw, first).len() == end,
{
    lemma_output_is_kept_prefix(end, first_size, raw, first);
    lemma_output_is_kept_prefix(end, second_size, raw, second);
}

/// The state of one copy: the boundary, the chunk size and how far it got.
/// The number of chunks is kept beside them; the model leaves it out,
/// because the boundary and the chunk size determine it.
#[derive(Debug)]
pub struct CopyJob {
    end: usize,
    chunk_size: usize,
    count: usize,
    done: usize,
    failed: bool,
}

impl View for CopyJob {
    type V = JobView;

    closed spec fn view(&self) -> JobView {
        JobView {
            end: self.end as int,
            size: self.chunk_size as int,
            done: self.done as int,
            failed: self.failed,
        }
    }
}

impl CopyJob {
    #[verifier::type_invariant]
    spec fn well_formed(self) -> bool {
        &&& self.chunk_size > 0
        &&& self.count == chunk_total(self.end as int, self.chunk_size as int)
        &&& self.done <= self.count
    }

    /// A job that copies `[0, end)` of an input of `raw_len` bytes. There is
    /// none for a chunk size of zero or a boundary behind the input's end.
    pub fn new(raw_len: usize, end: usize, chunk_size: usize) -> (job: Option<CopyJob>)
        ensures
            job is Some <==> chunk_size > 0 && end <= raw_len,
            job is Some ==> job.unwrap()@ == JobView::fresh(end as int, chunk_size as int),
            job is Some ==> job.unwrap()@.valid(),
    {
        if chunk_size == 0 || end > raw_len {
            None
        } else {
            let count = chunk_count(end, chunk_size);
            Some(CopyJob { end, chunk_size, count, done: 0, failed: false })
        }
    }

    /// What the caller is to do next.
    pub fn next_action(&self) -> (action: CopyAction)
        ensures
            action == self@.action(),
            self@.valid(),
    {
        proof {
            use_type_invariant(self);
        }
        if self.failed {
            CopyAction::Abort
        } else if self.done < self.count {
            CopyAction::Write(chunk_at(self.end, self.chunk_size, self.done))
        } else {
            CopyAction::Finish
        }
    }

    /// Takes note of how the pending write ended.
    pub fn record(&mut self, outcome: WriteOutcome)
        ensures
            final(self)@ == old(self)@.after(outcome),
            final(self)@.valid(),
    {
        proof {
            use_type_invariant(&*self);
        }
        if !self.failed && self.done < self.count {
            match outcome {
                WriteOutcome::Written => {
                    *self = CopyJob {
                        end: self.end,
                        chunk_size: self.chunk_size,
                        count: self.count,
                        done: self.done + 1,
                        failed: false,
                    };
                },
                WriteOutcome::Failed => {
                    *self = CopyJob {
                        end: self.end,
                        chunk_size: self.chunk_size,
                        count: self.count,
                        done: self.done,
                        failed: true,
                    };
                },
            }
        }
    }

    /// The number of bytes written so far.
    pub fn progress(&self) -> (written: usize)
        ensures
            written == self@.written(),
            written <= self@.end,
    {
        proof {
            use_type_invariant(self);
        }
        if self.done >= self.count {
            self.end
        } else {
            proof {
                lemma_chunk_bounds(self.end as int, self.chunk_size as int, self.done as int);
            }
            self.done * self.chunk_size
        }
    }

    /// The boundary that the job copies up to.
    pub fn end(&self) -> (end: usize)
        ensures
            end == self@.end,
    {
        self.end
    }

    /// Whether the whole range was written.
    pub fn is_complete(&self) -> (complete: bool)
        ensures
            complete == self@.complete(),
    {
        proof {
            use_type_invariant(self);
        }
        !self.failed && self.done >= self.count
    }

    /// Whether a write failed.
    pub fn has_failed(&self) -> (failed: bool)
        ensures
            failed == self@.failed,
    {
        self.failed
    }
}

} // verus!
