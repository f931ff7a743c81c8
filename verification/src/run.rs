//! A whole run of a task, from any state to completion, under any behaviour
//! of the host, and what holds of every such run.

use vstd::prelude::*;
use crate::planner::tiles;
use crate::state::{lemma_after_chunk, lemma_settled, TaskState};
use crate::task::{fresh, resumed, suspends, valid_resume, Continuation};
use crate::transform::{
    lemma_adjoining_chunks, lemma_full_chunk, transformed, with_chunk, xor_byte,
};

verus! {

/// What the caller learns after a chunk that did not reach the end: the
/// percentage to charge, and the host's answer to the charge.
pub struct Verdict {
    pub percent: int,
    pub exhausted: bool,
}

/// The state in which the next chunk is planned, after the chunk that led to
/// `s` has been charged and the host has answered.
pub open spec fn settled(s: TaskState, verdict: Verdict) -> TaskState {
    if verdict.exhausted {
        s.charged(verdict.percent).rescheduled()
    } else {
        s.charged(verdict.percent)
    }
}

/// The state in which a task ends that starts in `s`, where `host` gives the
/// verdict on the chunk that ends at a given offset.
pub open spec fn run(s: TaskState, host: spec_fn(nat) -> Verdict) -> TaskState
    decreases s.len() - s.cursor,
    when s.wf()
    via run_decreases
{
    let t = s.after_chunk();
    if t.complete() {
        t
    } else {
        run(settled(t, host(t.cursor)), host)
    }
}

#[via_fn]
proof fn run_decreases(s: TaskState, host: spec_fn(nat) -> Verdict) {
    lemma_after_chunk(s);
}

/// The chunks that a run executes, each as the pair of its start and its end.
pub open spec fn chunks(s: TaskState, host: spec_fn(nat) -> Verdict) -> Seq<(nat, nat)>
    decreases s.len() - s.cursor,
    when s.wf()
    via chunks_decreases
{
    let t = s.after_chunk();
    if s.complete() {
        Seq::empty()
    } else if t.complete() {
        seq![(s.cursor, t.cursor)]
    } else {
        seq![(s.cursor, t.cursor)] + chunks(settled(t, host(t.cursor)), host)
    }
}

#[via_fn]
proof fn chunks_decreases(s: TaskState, host: spec_fn(nat) -> Verdict) {
    lemma_after_chunk(s);
}

/// How often a run is suspended.
pub open spec fn suspensions(s: TaskState, host: spec_fn(nat) -> Verdict) -> nat
    decreases s.len() - s.cursor,
    when s.wf()
    via suspensions_decreases
{
    let t = s.after_chunk();
    if t.complete() {
        0
    } else if host(t.cursor).exhausted {
        1 + suspensions(settled(t, host(t.cursor)), host)
    } else {
        suspensions(settled(t, host(t.cursor)), host)
    }
}

#[via_fn]
proof fn suspensions_decreases(s: TaskState, host: spec_fn(nat) -> Verdict) {
    lemma_after_chunk(s);
}

/// Exact partition: whatever the slice budget at the start and whatever the
/// host charges and answers, the chunks of a run tile the range from the
/// cursor to the end of the buffer.
pub proof fn lemma_chunks_partition(s: TaskState, host: spec_fn(nat) -> Verdict)
    requires
        s.wf(),
    ensures
        tiles(chunks(s, host), s.cursor, s.len()),
    decreases s.len() - s.cursor,
{
    lemma_after_chunk(s);
    let t = s.after_chunk();
    if s.complete() {
    } else if t.complete() {
    } else {
        let next = settled(t, host(t.cursor));
        lemma_settled(t, host(t.cursor).percent);
        lemma_chunks_partition(next, host);
        let rest = chunks(next, host);
        let all = chunks(s, host);
        assert(all == seq![(s.cursor, t.cursor)] + rest);
        assert(rest.len() > 0);
        assert forall|k: int| 0 <= k < all.len() implies (#[trigger] all[k]).0 < all[k].1 by {
            if k > 0 {
                assert(all[k] == rest[k - 1]);
            }
        }
        assert forall|k: int| 0 <= k < all.len() - 1 implies (#[trigger] all[k]).1 == all[k
            + 1].0 by {
            assert(all[k + 1] == rest[k]);
            if k > 0 {
                assert(all[k] == rest[k - 1]);
                assert(rest[k - 1].1 == rest[k - 1 + 1].0);
            }
        }
        assert(all[all.len() - 1] == rest[rest.len() - 1]);
    }
}

/// A run ends with the cursor at the end of the buffer, the source and the
/// parameter as they were, the output before the starting cursor untouched
/// and the output from there on transformed.
pub proof fn lemma_run_output(s: TaskState, host: spec_fn(nat) -> Verdict)
    requires
        s.wf(),
    ensures
        run(s, host).cursor == s.len(),
        run(s, host).source == s.source,
        run(s, host).parameter == s.parameter,
        run(s, host).output == with_chunk(
            s.output,
            s.source,
            s.parameter,
            s.cursor as int,
            s.len() as int,
        ),
    decreases s.len() - s.cursor,
{
    lemma_after_chunk(s);
    let t = s.after_chunk();
    if t.complete() {
    } else {
        let next = settled(t, host(t.cursor));
        lemma_settled(t, host(t.cursor).percent);
        lemma_run_output(next, host);
        lemma_adjoining_chunks(
            s.output,
            s.source,
            s.parameter,
            s.cursor as int,
            t.cursor as int,
            s.len() as int,
        );
    }
}

/// Transform correctness: a run from the start of the buffer ends with the
/// element-wise transform of the source as its output, however the buffer
/// was cut into chunks and whatever the output held before.
pub proof fn lemma_run_transforms(s: TaskState, host: spec_fn(nat) -> Verdict)
    requires
        s.wf(),
        s.cursor == 0,
    ensures
        run(s, host).output == transformed(s.source, s.parameter),
        forall|i: int|
            0 <= i < s.len() ==> run(s, host).output[i] == xor_byte(
                s.source[i],
                s.parameter,
            ),
{
    lemma_run_output(s, host);
    lemma_full_chunk(s.output, s.source, s.parameter);
}

/// Resumption transparency: two runs over the same source with the same
/// parameter end with the same output, whatever their slice budgets and
/// wherever their hosts suspend them.
pub proof fn lemma_resumption_transparent(
    s1: TaskState,
    host1: spec_fn(nat) -> Verdict,
    s2: TaskState,
    host2: spec_fn(nat) -> Verdict,
)
    requires
        s1.wf(),
        s2.wf(),
        s1.cursor == 0,
        s2.cursor == 0,
        s1.source == s2.source,
        s1.parameter == s2.parameter,
    ensures
        run(s1, host1).output == run(s2, host2).output,
{
    lemma_run_transforms(s1, host1);
    lemma_run_transforms(s2, host2);
}

/// A run counts its suspensions, and nothing else, in the yield count.
pub proof fn lemma_run_yield_count(s: TaskState, host: spec_fn(nat) -> Verdict)
    requires
        s.wf(),
    ensures
        run(s, host).yield_count == s.yield_count + suspensions(s, host),
    decreases s.len() - s.cursor,
{
    lemma_after_chunk(s);
    let t = s.after_chunk();
    if !t.complete() {
        lemma_settled(t, host(t.cursor).percent);
        lemma_run_yield_count(settled(t, host(t.cursor)), host);
    }
}

/// A host that never finds the quantum exhausted suspends no run.
pub proof fn lemma_uninterrupted(s: TaskState, host: spec_fn(nat) -> Verdict)
    requires
        s.wf(),
        forall|offset: nat| !(#[trigger] host(offset)).exhausted,
    ensures
        suspensions(s, host) == 0,
        run(s, host).yield_count == s.yield_count,
    decreases s.len() - s.cursor,
{
    lemma_after_chunk(s);
    lemma_run_yield_count(s, host);
    let t = s.after_chunk();
    if !t.complete() {
        lemma_settled(t, host(t.cursor).percent);
        lemma_uninterrupted(settled(t, host(t.cursor)), host);
    }
}

/// A single chunk that covers the whole buffer completes the task at once:
/// the run is that chunk, and nothing is charged or suspended.
pub proof fn lemma_single_chunk(s: TaskState, host: spec_fn(nat) -> Verdict)
    requires
        s.wf(),
        s.cursor == 0,
        s.len() > 0,
        s.slice_budget >= s.len(),
    ensures
        run(s, host) == s.after_chunk(),
        chunks(s, host) == seq![(0nat, s.len())],
        suspensions(s, host) == 0,
        run(s, host).output == transformed(s.source, s.parameter),
{
    lemma_after_chunk(s);
    lemma_run_transforms(s, host);
}

/// A task that begins with the continuation of a fresh start and runs to its
/// end gives the output that the uninterrupted transform gives, whatever the
/// host charges and answers; its yield count is the number of its
/// suspensions.
pub proof fn lemma_fresh_run(
    source: Seq<u8>,
    parameter: u32,
    continuation: Continuation,
    host: spec_fn(nat) -> Verdict,
)
    requires
        fresh(source, parameter, continuation),
        valid_resume(source, continuation),
    ensures
        run(resumed(source, continuation), host).output == transformed(source, parameter as u8),
        run(resumed(source, continuation), host).yield_count == suspensions(
            resumed(source, continuation),
            host,
        ),
        tiles(chunks(resumed(source, continuation), host), 0, source.len()),
{
    let s = resumed(source, continuation);
    lemma_run_transforms(s, host);
    lemma_run_yield_count(s, host);
    lemma_chunks_partition(s, host);
}

/// Suspending after a charge and resuming the continuation is the step that
/// a run takes where the host finds the quantum exhausted.
pub proof fn lemma_suspension_step(s: TaskState, percent: int, continuation: Continuation)
    requires
        s.wf(),
        suspends(s.charged(percent), continuation),
    ensures
        resumed(s.source, continuation) == settled(s, Verdict { percent, exhausted: true }),
        resumed(s.source, continuation).wf(),
{
    lemma_settled(s, percent);
}

} // verus!
