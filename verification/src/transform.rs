//! The transform executor: applies the per-byte transform over one chunk.

use vstd::prelude::*;

verus! {

/// The per-byte transform: exclusive or with the parameter.
pub open spec fn xor_byte(byte: u8, parameter: u8) -> u8 {
    byte ^ parameter
}

/// The element-wise transform of a whole buffer.
pub open spec fn transformed(source: Seq<u8>, parameter: u8) -> Seq<u8> {
    Seq::new(source.len(), |i: int| xor_byte(source[i], parameter))
}

/// `output` after the chunk `[start, end)` has been executed: the positions of
/// the chunk that the source has hold the transform of the source's byte,
/// every other position holds what it held before.
pub open spec fn with_chunk(
    output: Seq<u8>,
    source: Seq<u8>,
    parameter: u8,
    start: int,
    end: int,
) -> Seq<u8> {
    Seq::new(
        output.len(),
        |i: int|
            if start <= i < end && i < source.len() {
                xor_byte(source[i], parameter)
            } else {
                output[i]
            },
    )
}

/// Executing the chunk that covers a whole buffer gives the transform of the
/// buffer, whatever the output held before.
pub proof fn lemma_full_chunk(output: Seq<u8>, source: Seq<u8>, parameter: u8)
    requires
        output.len() == source.len(),
    ensures
        with_chunk(output, source, parameter, 0, source.len() as int) == transformed(
            source,
            parameter,
        ),
{
    assert(with_chunk(output, source, parameter, 0, source.len() as int) =~= transformed(
        source,
        parameter,
    ));
}

/// Two adjoining chunks executed one after the other give what the single
/// chunk over both ranges gives.
pub proof fn lemma_adjoining_chunks(
    output: Seq<u8>,
    source: Seq<u8>,
    parameter: u8,
    start: int,
    mid: int,
    end: int,
)
    requires
        start <= mid <= end,
    ensures
        with_chunk(with_chunk(output, source, parameter, start, mid), source, parameter, mid, end)
            == with_chunk(output, source, parameter, start, end),
{
    assert(with_chunk(
        with_chunk(output, source, parameter, start, mid),
        source,
        parameter,
        mid,
        end,
    ) =~= with_chunk(output, source, parameter, start, end));
}

/// Writes the transform of `source[i]` to `target[i]` for every `i` of the
/// half-open range `[start, end)` that both buffers have, in increasing order,
/// each position once. Nothing outside the range is touched.
pub fn apply_xor(source: &[u8], target: &mut [u8], byte: u8, start: usize, end: usize)
    ensures
        final(target)@ == with_chunk(old(target)@, source@, byte, start as int, end as int),
{
    let ghost before = target@;
    let mut stop: usize = end;
    if source.len() < stop {
        stop = source.len();
    }
    if target.len() < stop {
        stop = target.len();
    }
    let mut i: usize = start;
    while i < stop
        invariant
            start <= i || stop <= i,
            stop <= end,
            stop <= source@.len(),
            stop <= target@.len(),
            stop == end || stop == source@.len() || stop == target@.len(),
            target@.len() == before.len(),
            forall|j: int| start <= j < i && j < stop ==> target@[j] == xor_byte(source@[j], byte),
            forall|j: int|
                0 <= j < target@.len() && !(start <= j < i && j < stop) ==> target@[j] == before[j],
        decreases stop - i,
    {
        target[i] = source[i] ^ byte;
        i = i + 1;
    }
    assert(target@ =~= with_chunk(before, source@, byte, start as int, end as int));
}

} // verus!
