//! The entry points of a task, and the episode that runs between two
//! suspensions.
//!
//! An episode never calls the host. It runs one chunk and says whether the
//! task is complete; if it is not, the caller measures what the chunk cost,
//! charges the host with it, and hands the host's answer back. The episode
//! then either goes on or packages the task as a continuation.

use vstd::prelude::*;
use crate::monitor::fix_range;
use crate::planner::plan_chunk_end;
use crate::sizer::{adjust_slice_size, next_slice_budget};
use crate::state::TaskState;
use crate::transform::{apply_xor, lemma_full_chunk, transformed};

verus! {

/// The slice budget with which a fresh task begins: 4 MiB.
pub const DEFAULT_MAX_BYTES_PER_SLICE: u64 = 4 * 1024 * 1024;

/// The largest value that the transform parameter may have.
pub const MAX_PARAMETER: u32 = 255;

/// The one error of the entry points: an argument is out of range or a
/// resume tuple is malformed.
#[derive(Clone, Copy, Debug, PartialEq, Eq)]
pub struct ArgumentError;

/// A suspended task, as it is handed to the host: the resume fields that come
/// back, beside the source, when the task goes on.
#[derive(Debug, PartialEq, Eq)]
pub struct Continuation {
    /// The parameter of the per-byte transform.
    pub parameter: u32,
    /// The slice budget for the next episode.
    pub slice_budget: u64,
    /// The offset at which the next episode begins.
    pub cursor: u64,
    /// The output buffer, transformed up to the cursor.
    pub output: Vec<u8>,
    /// How often the task has been suspended.
    pub yield_count: u64,
}

/// What an entry point answers.
#[derive(Debug, PartialEq, Eq)]
pub enum Reply {
    /// The source was empty: it goes back as it came, with no yield count.
    Unchanged,
    /// The task is complete.
    Done { output: Vec<u8>, yield_count: u64 },
    /// The task is to be scheduled with this continuation.
    Yield(Continuation),
}

/// Whether the resume fields are in range for a source: the parameter is a
/// byte, the slice budget is positive, the cursor lies within the source, the
/// output is as long as the source, and the yield count leaves room for one
/// more suspension.
pub open spec fn valid_resume(source: Seq<u8>, continuation: Continuation) -> bool {
    &&& continuation.parameter <= MAX_PARAMETER
    &&& continuation.slice_budget >= 1
    &&& continuation.cursor <= source.len()
    &&& continuation.output@.len() == source.len()
    &&& continuation.yield_count < u64::MAX
}

/// The state in which the episode begins that resumes a continuation.
pub open spec fn resumed(source: Seq<u8>, continuation: Continuation) -> TaskState {
    TaskState {
        source,
        parameter: continuation.parameter as u8,
        slice_budget: continuation.slice_budget as nat,
        cursor: continuation.cursor as nat,
        output: continuation.output@,
        yield_count: continuation.yield_count as nat,
        episode_start: continuation.cursor as nat,
        consumed: 0,
    }
}

/// Whether a continuation carries the task that is suspended in state `s`:
/// the adapted slice budget, the cursor and the output as they are, and one
/// suspension more.
pub open spec fn suspends(s: TaskState, continuation: Continuation) -> bool {
    &&& continuation.parameter == s.parameter
    &&& continuation.slice_budget == next_slice_budget(
        s.bytes_processed() as int,
        s.consumed as int,
    )
    &&& continuation.cursor == s.cursor
    &&& continuation.output@ == s.output
    &&& continuation.yield_count == s.yield_count + 1
}

/// One episode of a task, at a chunk boundary and ready for the next chunk.
pub struct Episode<'a> {
    source: &'a [u8],
    parameter: u8,
    slice_budget: u64,
    cursor: usize,
    output: Vec<u8>,
    yield_count: u64,
    episode_start: usize,
    consumed: u128,
}

/// An episode whose last chunk did not reach the end and has not been
/// charged yet.
pub struct Pending<'a> {
    episode: Episode<'a>,
}

/// What running one chunk leads to.
pub enum Progress<'a> {
    /// The chunk reached the end: the output and the number of suspensions.
    Complete { output: Vec<u8>, yield_count: u64 },
    /// Bytes are left: the chunk is to be charged.
    Pending(Pending<'a>),
}

/// What charging a chunk leads to.
pub enum Settlement<'a> {
    /// The quantum is not used up: the episode goes on with the next chunk.
    Continue(Episode<'a>),
    /// The quantum is used up: the task is suspended.
    Suspend(Continuation),
}

impl<'a> View for Episode<'a> {
    type V = TaskState;

    closed spec fn view(&self) -> TaskState {
        TaskState {
            source: self.source@,
            parameter: self.parameter,
            slice_budget: self.slice_budget as nat,
            cursor: self.cursor as nat,
            output: self.output@,
            yield_count: self.yield_count as nat,
            episode_start: self.episode_start as nat,
            consumed: self.consumed as nat,
        }
    }
}

impl<'a> View for Pending<'a> {
    type V = TaskState;

    closed spec fn view(&self) -> TaskState {
        self.episode@
    }
}

impl<'a> Episode<'a> {
    #[verifier::type_invariant]
    closed spec fn inv(self) -> bool {
        &&& self@.wf()
        &&& self.consumed <= 100 * (self.cursor - self.episode_start)
        &&& self.yield_count < u64::MAX
    }

    /// Takes up a suspended task: checks the resume fields against the source
    /// and begins the next episode at the continuation's cursor.
    pub fn resume(source: &'a [u8], continuation: Continuation) -> (r: Result<
        Episode<'a>,
        ArgumentError,
    >)
        ensures
            valid_resume(source@, continuation) ==> (r matches Ok(episode) && episode@
                == resumed(source@, continuation) && episode@.wf()),
            !valid_resume(source@, continuation) ==> r is Err,
    {
        let len: usize = source.len();
        let Continuation { parameter, slice_budget, cursor, output, yield_count } = continuation;
        if parameter > MAX_PARAMETER || slice_budget < 1 || cursor > len as u64 || output.len()
            != len || yield_count == u64::MAX {
            return Err(ArgumentError);
        }
        Ok(
            Episode {
                source,
                parameter: parameter as u8,
                slice_budget,
                cursor: cursor as usize,
                output,
                yield_count,
                episode_start: cursor as usize,
                consumed: 0,
            },
        )
    }

    /// The offset up to which the task has been processed.
    pub fn cursor(&self) -> (cursor: usize)
        ensures
            cursor == self@.cursor,
            self@.wf(),
    {
        proof {
            use_type_invariant(self);
        }
        self.cursor
    }

    /// Plans the next chunk and executes it. Where the chunk reaches the end
    /// of the source the task is complete and hands out its output; nothing is
    /// charged for that chunk. Otherwise the chunk awaits its charge.
    pub fn run_chunk(self) -> (progress: Progress<'a>)
        ensures
            self@.wf(),
            self@.after_chunk().complete() ==> (progress matches Progress::Complete {
                output,
                yield_count,
            } && output@ == self@.after_chunk().output && yield_count == self@.yield_count),
            !self@.after_chunk().complete() ==> (progress matches Progress::Pending(pending)
                && pending@ == self@.after_chunk()),
    {
        proof {
            use_type_invariant(&self);
        }
        let Episode {
            source,
            parameter,
            slice_budget,
            cursor,
            mut output,
            yield_count,
            episode_start,
            consumed,
        } = self;
        let len: usize = source.len();
        let end: usize = plan_chunk_end(cursor, slice_budget, len);
        apply_xor(source, output.as_mut_slice(), parameter, cursor, end);
        if end == len {
            Progress::Complete { output, yield_count }
        } else {
            Progress::Pending(
                Pending {
                    episode: Episode {
                        source,
                        parameter,
                        slice_budget,
                        cursor: end,
                        output,
                        yield_count,
                        episode_start,
                        consumed,
                    },
                },
            )
        }
    }
}

impl<'a> Pending<'a> {
    #[verifier::type_invariant]
    closed spec fn inv(self) -> bool {
        &&& self.episode.inv()
        &&& self.episode.episode_start < self.episode.cursor < self.episode.source@.len()
        &&& self.episode.consumed + 100 <= 100 * (self.episode.cursor
            - self.episode.episode_start)
    }

    /// The offset up to which the task has been processed.
    pub fn cursor(&self) -> (cursor: usize)
        ensures
            cursor == self@.cursor,
            self@.wf(),
            self@.episode_start < self@.cursor < self@.len(),
    {
        proof {
            use_type_invariant(self);
        }
        self.episode.cursor
    }

    /// Charges the last chunk with a percentage of the quantum and acts on
    /// the host's answer to that charge.
    ///
    /// The clamped percentage is added to the episode's total. Where the host
    /// found the quantum exhausted, the slice budget is adapted to what the
    /// episode achieved, the suspension is counted, and the task is packaged
    /// for the next episode. Otherwise the episode goes on.
    pub fn settle(self, percent: i32, exhausted: bool) -> (settlement: Settlement<'a>)
        ensures
            self@.wf(),
            self@.episode_start < self@.cursor < self@.len(),
            exhausted ==> (settlement matches Settlement::Suspend(continuation) && suspends(
                self@.charged(percent as int),
                continuation,
            ) && valid_resume(self@.source, continuation) == (self@.yield_count + 1 < u64::MAX)),
            !exhausted ==> (settlement matches Settlement::Continue(episode) && episode@
                == self@.charged(percent as int)),
    {
        proof {
            use_type_invariant(&self);
        }
        let Pending { episode } = self;
        let Episode {
            source,
            parameter,
            slice_budget,
            cursor,
            output,
            yield_count,
            episode_start,
            consumed,
        } = episode;
        let consumed: u128 = consumed + fix_range(percent) as u128;
        if exhausted {
            let bytes_processed: u64 = (cursor - episode_start) as u64;
            Settlement::Suspend(
                Continuation {
                    parameter: parameter as u32,
                    slice_budget: adjust_slice_size(bytes_processed, consumed),
                    cursor: cursor as u64,
                    output,
                    yield_count: yield_count + 1,
                },
            )
        } else {
            Settlement::Continue(
                Episode {
                    source,
                    parameter,
                    slice_budget,
                    cursor,
                    output,
                    yield_count,
                    episode_start,
                    consumed,
                },
            )
        }
    }
}

/// The continuation with which a fresh task over `source` is scheduled: the
/// default slice budget, the cursor at the start, a zeroed output of the
/// source's length, and no suspension yet.
pub open spec fn fresh(source: Seq<u8>, parameter: u32, continuation: Continuation) -> bool {
    &&& continuation.parameter == parameter
    &&& continuation.slice_budget == DEFAULT_MAX_BYTES_PER_SLICE
    &&& continuation.cursor == 0
    &&& continuation.output@ == Seq::new(source.len(), |i: int| 0u8)
    &&& continuation.yield_count == 0
}

/// Transforms the whole source in one uninterrupted chunk.
///
/// A parameter that is no byte is refused. An empty source goes back as it
/// came. Otherwise the answer is the transformed buffer, with a yield count
/// of zero.
pub fn exor(source: &[u8], parameter: u32) -> (r: Result<Reply, ArgumentError>)
    ensures
        parameter > MAX_PARAMETER ==> r is Err,
        parameter <= MAX_PARAMETER && source@.len() == 0 ==> r matches Ok(Reply::Unchanged),
        parameter <= MAX_PARAMETER && source@.len() > 0 ==> (r matches Ok(
            Reply::Done { output, yield_count },
        ) && output@ == transformed(source@, parameter as u8) && yield_count == 0),
{
    if parameter > MAX_PARAMETER {
        return Err(ArgumentError);
    }
    let len: usize = source.len();
    if len == 0 {
        return Ok(Reply::Unchanged);
    }
    let mut output: Vec<u8> = vec![0u8; len];
    let ghost zeroed = output@;
    apply_xor(source, output.as_mut_slice(), parameter as u8, 0, len);
    proof {
        lemma_full_chunk(zeroed, source@, parameter as u8);
    }
    Ok(Reply::Done { output, yield_count: 0 })
}

/// Begins a task that yields to the host between episodes.
///
/// A parameter that is no byte is refused. An empty source goes back as it
/// came. Otherwise nothing is transformed yet: the answer is the continuation
/// with which the first episode is to be scheduled.
pub fn exor_yield(source: &[u8], parameter: u32) -> (r: Result<Reply, ArgumentError>)
    ensures
        parameter > MAX_PARAMETER ==> r is Err,
        parameter <= MAX_PARAMETER && source@.len() == 0 ==> r matches Ok(Reply::Unchanged),
        parameter <= MAX_PARAMETER && source@.len() > 0 ==> (r matches Ok(
            Reply::Yield(continuation),
        ) && fresh(source@, parameter, continuation) && valid_resume(source@, continuation)),
{
    if parameter > MAX_PARAMETER {
        return Err(ArgumentError);
    }
    let len: usize = source.len();
    if len == 0 {
        return Ok(Reply::Unchanged);
    }
    let output: Vec<u8> = vec![0u8; len];
    assert(output@ =~= Seq::new(source@.len(), |i: int| 0u8));
    Ok(
        Reply::Yield(
            Continuation {
                parameter,
                slice_budget: DEFAULT_MAX_BYTES_PER_SLICE,
                cursor: 0,
                output,
                yield_count: 0,
            },
        ),
    )
}

} // verus!
