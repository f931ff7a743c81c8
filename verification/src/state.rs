//! The resumable task state as a mathematical value, and the steps that a
//! task takes from one state to the next.

use vstd::prelude::*;
use crate::monitor::clamp_percent;
use crate::planner::chunk_end;
use crate::sizer::next_slice_budget;
use crate::transform::with_chunk;

verus! {

/// Everything that a task is at a chunk boundary.
#[verifier::ext_equal]
pub struct TaskState {
    /// The bytes to transform; never changed.
    pub source: Seq<u8>,
    /// The parameter of the per-byte transform.
    pub parameter: u8,
    /// At most this many bytes go into one chunk.
    pub slice_budget: nat,
    /// The bytes before the cursor have been processed.
    pub cursor: nat,
    /// The output buffer.
    pub output: Seq<u8>,
    /// How often the task has been suspended.
    pub yield_count: nat,
    /// Where the cursor stood when the current episode began.
    pub episode_start: nat,
    /// The percentages of the quantum charged in the current episode.
    pub consumed: nat,
}

impl TaskState {
    /// The length of the source, and of the output.
    pub open spec fn len(self) -> nat {
        self.source.len()
    }

    /// The invariant of a task: the output is as long as the source, the
    /// cursor lies within it and not before the start of the episode, and the
    /// slice budget is positive.
    pub open spec fn wf(self) -> bool {
        &&& self.output.len() == self.source.len()
        &&& self.episode_start <= self.cursor <= self.source.len()
        &&& self.slice_budget >= 1
    }

    /// Whether the cursor has reached the end.
    pub open spec fn complete(self) -> bool {
        self.cursor >= self.len()
    }

    /// Where the next chunk ends.
    pub open spec fn chunk_end(self) -> nat {
        chunk_end(self.cursor as int, self.slice_budget as int, self.len() as int) as nat
    }

    /// The state after the next chunk has been planned and executed.
    pub open spec fn after_chunk(self) -> TaskState {
        TaskState {
            cursor: self.chunk_end(),
            output: with_chunk(
                self.output,
                self.source,
                self.parameter,
                self.cursor as int,
                self.chunk_end() as int,
            ),
            ..self
        }
    }

    /// The state after a chunk has been charged with a percentage of the
    /// quantum: the clamped percentage is added to the episode's total.
    pub open spec fn charged(self, percent: int) -> TaskState {
        TaskState { consumed: self.consumed + clamp_percent(percent) as nat, ..self }
    }

    /// The bytes processed in the current episode.
    pub open spec fn bytes_processed(self) -> nat {
        (self.cursor - self.episode_start) as nat
    }

    /// The state in which the next episode begins after a suspension here:
    /// the slice budget is adapted, the suspension is counted, and the
    /// episode's tally starts afresh at the cursor.
    pub open spec fn rescheduled(self) -> TaskState {
        TaskState {
            slice_budget: next_slice_budget(
                self.bytes_processed() as int,
                self.consumed as int,
            ) as nat,
            yield_count: self.yield_count + 1,
            episode_start: self.cursor,
            consumed: 0,
            ..self
        }
    }
}

/// A chunk keeps the invariant, ends within the buffer, and moves the cursor
/// forward while bytes are left.
pub proof fn lemma_after_chunk(s: TaskState)
    requires
        s.wf(),
    ensures
        s.after_chunk().wf(),
        s.cursor <= s.after_chunk().cursor <= s.len(),
        !s.complete() ==> s.cursor < s.after_chunk().cursor,
        s.complete() ==> s.after_chunk() == s,
{
    if s.complete() {
        assert(s.after_chunk().output =~= s.output);
    }
}

/// Charging and rescheduling keep the invariant and leave the cursor and the
/// output as they are.
pub proof fn lemma_settled(s: TaskState, percent: int)
    requires
        s.wf(),
    ensures
        s.charged(percent).wf(),
        s.charged(percent).rescheduled().wf(),
        s.charged(percent).rescheduled().cursor == s.cursor,
        s.charged(percent).rescheduled().output == s.output,
{
}

} // verus!
