use bitwise_nif::task::{
    exor, exor_yield, Continuation, Episode, Progress, Reply, Settlement,
};

struct RunLog {
    output: Vec<u8>,
    yield_count: u64,
    chunks: Vec<(usize, usize)>,
    budgets: Vec<u64>,
}

/// Runs a task to its end; `host` gives the percentage and the answer for the
/// chunk that ends at the offset it is called with.
fn run_to_the_end(
    source: &[u8],
    start: Continuation,
    mut host: impl FnMut(usize) -> (i32, bool),
) -> RunLog {
    let mut chunks = Vec::new();
    let mut budgets = vec![start.slice_budget];
    let mut continuation = start;
    loop {
        let mut episode = Episode::resume(source, continuation).expect("a valid continuation");
        loop {
            let from = episode.cursor();
            match episode.run_chunk() {
                Progress::Complete { output, yield_count } => {
                    if from < source.len() {
                        chunks.push((from, source.len()));
                    }
                    return RunLog { output, yield_count, chunks, budgets };
                }
                Progress::Pending(pending) => {
                    let to = pending.cursor();
                    chunks.push((from, to));
                    let (percent, exhausted) = host(to);
                    match pending.settle(percent, exhausted) {
                        Settlement::Continue(next) => episode = next,
                        Settlement::Suspend(next) => {
                            budgets.push(next.slice_budget);
                            continuation = next;
                            break;
                        }
                    }
                }
            }
        }
    }
}

fn start_with(len: usize, parameter: u32, slice_budget: u64) -> Continuation {
    Continuation { parameter, slice_budget, cursor: 0, output: vec![0u8; len], yield_count: 0 }
}

fn bytes(len: usize) -> Vec<u8> {
    let mut v = Vec::with_capacity(len);
    let mut x: u32 = 12345;
    for _ in 0..len {
        x = x.wrapping_mul(1103515245).wrapping_add(12345);
        v.push((x >> 16) as u8);
    }
    v
}

fn xor_of(source: &[u8], parameter: u8) -> Vec<u8> {
    source.iter().map(|b| b ^ parameter).collect()
}

fn assert_tiles(chunks: &[(usize, usize)], len: usize) {
    let mut at = 0;
    for &(from, to) in chunks {
        assert_eq!(from, at);
        assert!(from < to);
        at = to;
    }
    assert_eq!(at, len);
}

#[test]
fn example_2() {
    let source = [0x01u8, 0x02, 0x03, 0x04, 0x05];
    let log = run_to_the_end(&source, start_with(5, 0xF0, 2), |_| (100, true));
    assert_eq!(log.chunks, vec![(0, 2), (2, 4), (4, 5)]);
    assert_eq!(log.yield_count, 2);
    assert_eq!(log.budgets, vec![2, 2, 2]);
    assert_eq!(log.output, vec![0xF1, 0xF2, 0xF3, 0xF4, 0xF5]);
}

#[test]
fn an_uninterrupted_run_never_yields() {
    let source = bytes(50);
    let log = run_to_the_end(&source, start_with(50, 0x5A, 7), |_| (100, false));
    assert_eq!(log.yield_count, 0);
    assert_eq!(log.chunks.len(), 8);
    assert_tiles(&log.chunks, 50);
    assert_eq!(log.output, xor_of(&source, 0x5A));
}

#[test]
fn a_fresh_task_over_a_small_buffer_is_a_single_chunk() {
    let source = bytes(1000);
    let start = match exor_yield(&source, 9) {
        Ok(Reply::Yield(continuation)) => continuation,
        other => panic!("{:?}", other),
    };
    let log = run_to_the_end(&source, start, |_| (100, true));
    assert_eq!(log.chunks, vec![(0, 1000)]);
    assert_eq!(log.yield_count, 0);
    assert_eq!(log.output, xor_of(&source, 9));
}

#[test]
fn interruptions_do_not_change_the_output() {
    let source = bytes(257);
    let whole = match exor(&source, 0xC3) {
        Ok(Reply::Done { output, yield_count }) => {
            assert_eq!(yield_count, 0);
            output
        }
        other => panic!("{:?}", other),
    };
    assert_eq!(whole, xor_of(&source, 0xC3));
    for budget in [1u64, 2, 3, 10, 64, 256, 257, 1000] {
        for pattern in 0u32..6 {
            let mut calls = 0u32;
            let log = run_to_the_end(&source, start_with(257, 0xC3, budget), |offset| {
                calls += 1;
                match pattern {
                    0 => (100, true),
                    1 => (100, false),
                    2 => (60, calls % 2 == 0),
                    3 => (250, calls % 3 == 0),
                    4 => (1, offset % 5 == 0),
                    _ => (-4, calls % 7 == 1),
                }
            });
            assert_eq!(log.output, whole);
            assert_tiles(&log.chunks, 257);
        }
    }
}

#[test]
fn the_yield_count_is_the_number_of_suspensions() {
    let source = bytes(40);
    let mut exhausted = 0u64;
    let log = run_to_the_end(&source, start_with(40, 1, 3), |offset| {
        let stop = offset % 2 == 0;
        if stop {
            exhausted += 1;
        }
        (30, stop)
    });
    assert_eq!(log.yield_count, exhausted);
    assert_eq!(log.budgets.len() as u64, exhausted + 1);
    assert_tiles(&log.chunks, 40);
    assert_eq!(log.output, xor_of(&source, 1));
}

#[test]
fn an_overshoot_shrinks_the_next_chunks() {
    let source = bytes(1000);
    let mut calls = 0;
    let log = run_to_the_end(&source, start_with(1000, 0x77, 100), |_| {
        calls += 1;
        (100, calls % 4 == 0)
    });
    // Four chunks of the budget make 400 percent: the budget is quartered.
    assert_eq!(log.budgets[0], 100);
    assert_eq!(log.budgets[1], 100);
    assert_eq!(log.chunks[..4], [(0, 100), (100, 200), (200, 300), (300, 400)]);
    assert_eq!(log.chunks[4], (400, 500));
    assert_tiles(&log.chunks, 1000);
    assert_eq!(log.output, xor_of(&source, 0x77));
    for pair in log.budgets.windows(2) {
        assert!(pair[1] >= 1);
    }
}

#[test]
fn a_budget_of_one_byte_still_reaches_the_end() {
    let source = bytes(9);
    let log = run_to_the_end(&source, start_with(9, 0xFF, 1), |_| (100, true));
    assert_eq!(log.chunks.len(), 9);
    assert_tiles(&log.chunks, 9);
    assert_eq!(log.yield_count, 8);
    assert_eq!(log.output, xor_of(&source, 0xFF));
}

#[test]
fn two_episodes_of_two_quanta_halve_the_budget() {
    let source = bytes(64);
    let mut calls = 0;
    let log = run_to_the_end(&source, start_with(64, 0, 8), |_| {
        calls += 1;
        (100, calls % 2 == 0)
    });
    // Each episode runs two chunks at 100 percent each: 200 percent over the
    // bytes of both chunks halves them again.
    assert_eq!(log.budgets[..4], [8, 8, 8, 8]);
    assert_tiles(&log.chunks, 64);
    assert_eq!(log.output, source);
}

#[test]
fn a_buffer_beyond_the_default_budget_takes_two_chunks() {
    let len = 4 * 1024 * 1024 + 5;
    let source = vec![0xA5u8; len];
    let start = match exor_yield(&source, 0xFF) {
        Ok(Reply::Yield(continuation)) => continuation,
        other => panic!("{:?}", other),
    };
    let log = run_to_the_end(&source, start, |_| (100, true));
    assert_eq!(log.chunks, vec![(0, 4 * 1024 * 1024), (4 * 1024 * 1024, len)]);
    assert_eq!(log.yield_count, 1);
    assert_eq!(log.budgets, vec![4 * 1024 * 1024, 4 * 1024 * 1024]);
    assert!(log.output.iter().all(|b| *b == 0x5A));
    assert_eq!(log.output.len(), len);
}
