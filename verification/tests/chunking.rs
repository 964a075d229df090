//! Chunk-buffering behaviour, driven through the resume protocol.

use streamies::chunks::{ReadyChunks, TryReadyChunksResult};
use streamies::protocol::{SourceEvent, StepOutcome};

/// Drive the infallible chunker over a scripted event sequence, collecting
/// everything it emits. A `Suspend` directive ends the current resume; the
/// next event continues the script.
fn run_chunks(capacity: usize, events: Vec<SourceEvent<i32>>) -> Vec<Vec<i32>> {
    let mut machine = ReadyChunks::new(capacity);
    let mut out = Vec::new();
    for ev in events {
        match machine.step(ev) {
            StepOutcome::Emit(chunk) => out.push(chunk),
            StepOutcome::Suspend => {}
            StepOutcome::End => break,
            StepOutcome::Again => {}
        }
    }
    out
}

/// Drive the fallible chunker as a host runtime would: each resume first
/// drains the deferred register, then feeds events until a directive settles
/// the resume.
fn run_try_chunks(
    capacity: usize,
    events: Vec<SourceEvent<Result<i32, i32>>>,
) -> Vec<Result<Vec<i32>, i32>> {
    let mut machine = TryReadyChunksResult::new(capacity);
    let mut out = Vec::new();
    let mut events = events.into_iter();
    loop {
        // One resume call starts here.
        if let Some(e) = machine.begin() {
            out.push(Err(e));
            continue;
        }
        loop {
            let ev = match events.next() {
                Some(ev) => ev,
                None => return out,
            };
            match machine.step(ev) {
                StepOutcome::Emit(Ok(chunk)) => {
                    out.push(Ok(chunk));
                    break;
                }
                StepOutcome::Emit(Err(e)) => {
                    out.push(Err(e));
                    break;
                }
                StepOutcome::Suspend => break,
                StepOutcome::End => return out,
                StepOutcome::Again => {}
            }
        }
    }
}

fn items(values: Vec<i32>) -> Vec<SourceEvent<i32>> {
    let mut evs: Vec<SourceEvent<i32>> = values.into_iter().map(SourceEvent::Item).collect();
    evs.push(SourceEvent::End);
    evs
}

#[test]
fn chunks_of_two() {
    // Capacity 2 over [1, 2, 3]: a full chunk, then the trailing partial one.
    assert_eq!(run_chunks(2, items(vec![1, 2, 3])), vec![vec![1, 2], vec![3]]);
}

#[test]
fn chunks_exact_fit() {
    assert_eq!(
        run_chunks(2, items(vec![1, 2, 3, 4])),
        vec![vec![1, 2], vec![3, 4]]
    );
}

#[test]
fn chunks_empty_source() {
    assert_eq!(run_chunks(2, items(vec![])), Vec::<Vec<i32>>::new());
}

#[test]
fn chunks_capacity_one() {
    assert_eq!(
        run_chunks(1, items(vec![7, 8])),
        vec![vec![7], vec![8]]
    );
}

#[test]
fn chunks_flush_on_suspension() {
    // A suspension with something buffered flushes a partial chunk at once.
    let evs = vec![
        SourceEvent::Item(1),
        SourceEvent::Suspended,
        SourceEvent::Item(2),
        SourceEvent::Item(3),
        SourceEvent::Item(4),
        SourceEvent::End,
    ];
    assert_eq!(run_chunks(3, evs), vec![vec![1], vec![2, 3, 4]]);
}

#[test]
fn chunks_suspension_with_empty_buffer_waits() {
    let evs = vec![
        SourceEvent::Suspended,
        SourceEvent::Item(1),
        SourceEvent::Item(2),
        SourceEvent::End,
    ];
    assert_eq!(run_chunks(2, evs), vec![vec![1, 2]]);
}

#[test]
fn chunks_concat_recovers_input() {
    // Concatenating every emitted chunk reproduces the input exactly.
    let input = vec![5, 1, 4, 1, 5, 9, 2, 6, 5, 3, 5];
    for capacity in 1..5 {
        let chunks = run_chunks(capacity, items(input.clone()));
        let concat: Vec<i32> = chunks.into_iter().flatten().collect();
        assert_eq!(concat, input);
    }
}

#[test]
fn try_chunks_flush_then_deferred_errors() {
    // [Ok1, Ok2, Ok3, Err4, Err5, Ok6, Ok7] at capacity 2:
    // the buffered chunk flushes before the error, each error gets its own
    // resume, and buffering then continues.
    let evs: Vec<SourceEvent<Result<i32, i32>>> = vec![
        SourceEvent::Item(Ok(1)),
        SourceEvent::Item(Ok(2)),
        SourceEvent::Item(Ok(3)),
        SourceEvent::Item(Err(4)),
        SourceEvent::Item(Err(5)),
        SourceEvent::Item(Ok(6)),
        SourceEvent::Item(Ok(7)),
        SourceEvent::End,
    ];
    assert_eq!(
        run_try_chunks(2, evs),
        vec![Ok(vec![1, 2]), Ok(vec![3]), Err(4), Err(5), Ok(vec![6, 7])]
    );
}

#[test]
fn try_chunks_error_with_empty_buffer_is_immediate() {
    let evs: Vec<SourceEvent<Result<i32, i32>>> = vec![
        SourceEvent::Item(Err(9)),
        SourceEvent::Item(Ok(1)),
        SourceEvent::End,
    ];
    assert_eq!(run_try_chunks(3, evs), vec![Err(9), Ok(vec![1])]);
}

#[test]
fn try_chunks_round_trip_recovers_successes() {
    // Chunking then concatenating recovers the error-free input exactly.
    let evs: Vec<SourceEvent<Result<i32, i32>>> = vec![
        SourceEvent::Item(Ok(1)),
        SourceEvent::Item(Err(-1)),
        SourceEvent::Item(Ok(2)),
        SourceEvent::Item(Ok(3)),
        SourceEvent::Item(Ok(4)),
        SourceEvent::Suspended,
        SourceEvent::Item(Ok(5)),
        SourceEvent::Item(Err(-2)),
        SourceEvent::Item(Err(-3)),
        SourceEvent::Item(Ok(6)),
        SourceEvent::End,
    ];
    let out = run_try_chunks(3, evs);
    let successes: Vec<i32> = out
        .iter()
        .filter_map(|r| r.as_ref().ok())
        .flatten()
        .copied()
        .collect();
    assert_eq!(successes, vec![1, 2, 3, 4, 5, 6]);
    let errors: Vec<i32> = out.iter().filter_map(|r| r.as_ref().err()).copied().collect();
    assert_eq!(errors, vec![-1, -2, -3]);
}

#[test]
fn chunks_size_estimate_divides_by_capacity() {
    let machine: ReadyChunks<i32> = ReadyChunks::new(2);
    assert_eq!(machine.size_estimate(5, Some(7)), (2, Some(7)));
    assert_eq!(machine.size_estimate(0, None), (0, None));
}

#[test]
fn try_chunks_size_estimate_counts_deferred_error() {
    let mut machine: TryReadyChunksResult<i32, i32> = TryReadyChunksResult::new(2);
    assert_eq!(machine.size_estimate(3, Some(4)), (3, Some(4)));
    machine.begin();
    machine.step(SourceEvent::Item(Ok(1)));
    machine.step(SourceEvent::Item(Err(8)));
    assert_eq!(machine.size_estimate(3, Some(4)), (4, Some(5)));
    assert_eq!(machine.size_estimate(usize::MAX, Some(usize::MAX)), (usize::MAX, Some(usize::MAX)));
}
