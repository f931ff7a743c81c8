//! The chunk planner: where the next chunk ends.

use vstd::prelude::*;

verus! {

/// The end of the chunk that starts at `cursor`: the slice budget further on,
/// or the end of the buffer where that comes first.
pub open spec fn chunk_end(cursor: int, slice_budget: int, len: int) -> int {
    if cursor + slice_budget < len {
        cursor + slice_budget
    } else {
        len
    }
}

/// Plans the next chunk `[cursor, end)` of a buffer of `len` bytes.
///
/// While bytes are left and the budget is at least one byte the chunk is not
/// empty, so every chunk moves the cursor forward.
pub fn plan_chunk_end(cursor: usize, slice_budget: u64, len: usize) -> (end: usize)
    ensures
        end == chunk_end(cursor as int, slice_budget as int, len as int),
        cursor < len && slice_budget >= 1 ==> cursor < end,
        cursor <= len ==> cursor <= end <= len,
{
    if cursor >= len {
        len
    } else {
        let left: usize = len - cursor;
        if slice_budget >= left as u64 {
            len
        } else {
            cursor + slice_budget as usize
        }
    }
}

/// Whether the ranges tile `[lo, hi)`: none is empty, the first starts at
/// `lo`, each starts where the one before it ends, and the last ends at `hi`.
pub open spec fn tiles(ranges: Seq<(nat, nat)>, lo: nat, hi: nat) -> bool {
    &&& ranges.len() == 0 ==> lo == hi
    &&& ranges.len() > 0 ==> ranges[0].0 == lo && ranges[ranges.len() - 1].1 == hi
    &&& forall|k: int| 0 <= k < ranges.len() ==> (#[trigger] ranges[k]).0 < ranges[k].1
    &&& forall|k: int|
        0 <= k < ranges.len() - 1 ==> (#[trigger] ranges[k]).1 == ranges[k + 1].0
}

/// Whether offset `i` lies in the range.
pub open spec fn within(range: (nat, nat), i: nat) -> bool {
    range.0 <= i < range.1
}

/// In a tiling the starts of the ranges increase, and all ranges lie within
/// the tiled range.
pub proof fn lemma_tiles_ordered(ranges: Seq<(nat, nat)>, lo: nat, hi: nat, j: int, k: int)
    requires
        tiles(ranges, lo, hi),
        0 <= j <= k < ranges.len(),
    ensures
        lo <= ranges[j].0,
        ranges[k].1 <= hi,
        j < k ==> ranges[j].1 <= ranges[k].0,
    decreases k - j,
{
    if j < k {
        lemma_tiles_ordered(ranges, lo, hi, j + 1, k);
        lemma_tiles_ordered(ranges, lo, hi, j, k - 1);
    } else {
        lemma_tiles_start(ranges, lo, hi, j);
        lemma_tiles_end(ranges, lo, hi, k);
    }
}

proof fn lemma_tiles_start(ranges: Seq<(nat, nat)>, lo: nat, hi: nat, j: int)
    requires
        tiles(ranges, lo, hi),
        0 <= j < ranges.len(),
    ensures
        lo <= ranges[j].0,
    decreases j,
{
    if j > 0 {
        lemma_tiles_start(ranges, lo, hi, j - 1);
        assert(ranges[j - 1].1 == ranges[j - 1 + 1].0);
    }
}

proof fn lemma_tiles_end(ranges: Seq<(nat, nat)>, lo: nat, hi: nat, k: int)
    requires
        tiles(ranges, lo, hi),
        0 <= k < ranges.len(),
    ensures
        ranges[k].1 <= hi,
    decreases ranges.len() - k,
{
    if k < ranges.len() - 1 {
        lemma_tiles_end(ranges, lo, hi, k + 1);
        assert(ranges[k].1 == ranges[k + 1].0);
    }
}

/// A tiling has no gap: every offset of the tiled range lies in one of the
/// ranges.
pub proof fn lemma_tiles_cover(ranges: Seq<(nat, nat)>, lo: nat, hi: nat, i: nat) -> (k: int)
    requires
        tiles(ranges, lo, hi),
        lo <= i < hi,
    ensures
        0 <= k < ranges.len(),
        within(ranges[k], i),
    decreases ranges.len(),
{
    let last = ranges.len() - 1;
    if ranges[last].0 <= i {
        last
    } else {
        let front = ranges.subrange(0, last);
        assert(ranges[last - 1].1 == ranges[last - 1 + 1].0);
        assert forall|k: int| 0 <= k < front.len() - 1 implies (#[trigger] front[k]).1 == front[k
            + 1].0 by {
            assert(ranges[k].1 == ranges[k + 1].0);
        }
        assert(tiles(front, lo, ranges[last].0));
        lemma_tiles_cover(front, lo, ranges[last].0, i)
    }
}

/// A tiling has no overlap: no offset lies in two of the ranges.
pub proof fn lemma_tiles_disjoint(
    ranges: Seq<(nat, nat)>,
    lo: nat,
    hi: nat,
    j: int,
    k: int,
    i: nat,
)
    requires
        tiles(ranges, lo, hi),
        0 <= j < ranges.len(),
        0 <= k < ranges.len(),
        within(ranges[j], i),
        within(ranges[k], i),
    ensures
        j == k,
        lo <= i < hi,
{
    if j < k {
        lemma_tiles_ordered(ranges, lo, hi, j, k);
    } else if k < j {
        lemma_tiles_ordered(ranges, lo, hi, k, j);
    } else {
        lemma_tiles_ordered(ranges, lo, hi, j, j);
    }
}

/// The chunks planned from `cursor` to the end of a buffer of `len` bytes,
/// where `budgets` gives the slice budget in force at each offset.
pub open spec fn planned_chunks(cursor: nat, len: nat, budgets: spec_fn(nat) -> nat) -> Seq<
    (nat, nat),
>
    decreases len - cursor,
{
    let end = chunk_end(cursor as int, budgets(cursor) as int, len as int) as nat;
    if cursor >= len || end <= cursor {
        Seq::empty()
    } else {
        seq![(cursor, end)] + planned_chunks(end, len, budgets)
    }
}

/// Progress guarantee: while bytes are left and the budget is at least one
/// byte, the planned chunk ends beyond the cursor, and never beyond the end
/// of the buffer.
pub proof fn lemma_chunk_progress(cursor: int, slice_budget: int, len: int)
    requires
        cursor < len,
        slice_budget >= 1,
    ensures
        cursor < chunk_end(cursor, slice_budget, len) <= len,
{
}

/// Exact partition: for any length and any slice budgets of at least one
/// byte, however they change from chunk to chunk, the planned chunks tile the
/// range from the cursor to the end of the buffer.
pub proof fn lemma_planned_chunks_tile(cursor: nat, len: nat, budgets: spec_fn(nat) -> nat)
    requires
        cursor <= len,
        forall|offset: nat| offset < len ==> #[trigger] budgets(offset) >= 1,
    ensures
        tiles(planned_chunks(cursor, len, budgets), cursor, len),
    decreases len - cursor,
{
    if cursor < len {
        let end = chunk_end(cursor as int, budgets(cursor) as int, len as int) as nat;
        lemma_planned_chunks_tile(end, len, budgets);
        let rest = planned_chunks(end, len, budgets);
        let all = planned_chunks(cursor, len, budgets);
        assert(all == seq![(cursor, end)] + rest);
        assert forall|k: int| 0 <= k < all.len() implies (#[trigger] all[k]).0 < all[k].1 by {
            if k > 0 {
                assert(all[k] == rest[k - 1]);
            }
        }
        assert forall|k: int| 0 <= k < all.len() - 1 implies (#[trigger] all[k]).1 == all[k
            + 1].0 by {
            assert(all[k + 1] == rest[k]);
            if k > 0 {
                assert(all[k] == rest[k - 1]);
                assert(rest[k - 1].1 == rest[k - 1 + 1].0);
            }
        }
        if rest.len() > 0 {
            assert(all[all.len() - 1] == rest[rest.len() - 1]);
        }
    }
}

} // verus!
