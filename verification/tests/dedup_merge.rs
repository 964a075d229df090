//! Deduplication and round-robin merging, driven through the resume protocol.

use streamies::dedup::{Unique, UniqueBy, UniqueByOk, UniqueOk};
use streamies::merge::MergeRoundRobin;
use streamies::protocol::{SourceEvent, StepOutcome};

fn run_unique(values: Vec<u64>) -> Vec<u64> {
    let mut machine = Unique::new();
    let mut out = Vec::new();
    for v in values {
        match machine.step(SourceEvent::Item(v)) {
            StepOutcome::Emit(t) => out.push(t),
            StepOutcome::Again => {}
            _ => unreachable!(),
        }
    }
    assert!(matches!(machine.step(SourceEvent::End), StepOutcome::End));
    out
}

fn run_unique_by_len(values: Vec<&'static str>) -> Vec<&'static str> {
    let mut machine: UniqueBy<usize> = UniqueBy::new();
    let mut out = Vec::new();
    for v in values {
        // The host runtime applies the caller's key function.
        let key = v.len();
        match machine.step(SourceEvent::Item((v, key))) {
            StepOutcome::Emit(t) => out.push(t),
            StepOutcome::Again => {}
            _ => unreachable!(),
        }
    }
    out
}

#[test]
fn unique_keeps_first_occurrences() {
    assert_eq!(
        run_unique(vec![10, 20, 30, 20, 40, 10, 50]),
        vec![10, 20, 30, 40, 50]
    );
}

#[test]
fn unique_output_never_longer_than_input() {
    let input = vec![1, 1, 1, 1];
    let out = run_unique(input.clone());
    assert!(out.len() <= input.len());
    assert_eq!(out, vec![1]);
}

#[test]
fn unique_empty_input() {
    assert_eq!(run_unique(vec![]), Vec::<u64>::new());
}

#[test]
fn unique_by_length_keeps_first_of_each_length() {
    assert_eq!(
        run_unique_by_len(vec!["a", "bb", "aa", "c", "ccc"]),
        vec!["a", "bb", "ccc"]
    );
}

#[test]
fn unique_ok_passes_errors_through() {
    let data: Vec<Result<u64, u64>> = vec![Ok(10), Ok(20), Ok(30), Ok(20), Ok(40), Err(10), Ok(50)];
    let mut machine = UniqueOk::new();
    let mut out = Vec::new();
    for v in data {
        match machine.step(SourceEvent::Item(v)) {
            StepOutcome::Emit(r) => out.push(r),
            StepOutcome::Again => {}
            _ => unreachable!(),
        }
    }
    // The error 10 passes through even though Ok(10) was already seen, and
    // it is not recorded against later successes.
    assert_eq!(
        out,
        vec![Ok(10), Ok(20), Ok(30), Ok(40), Err(10), Ok(50)]
    );
}

#[test]
fn unique_by_ok_passes_errors_through() {
    let data: Vec<Result<&str, &str>> = vec![Ok("a"), Ok("bb"), Ok("aa"), Err("c"), Ok("ccc")];
    let mut machine: UniqueByOk<usize> = UniqueByOk::new();
    let mut out = Vec::new();
    for v in data {
        let ev = match v {
            Ok(s) => SourceEvent::Item(Ok((s, s.len()))),
            Err(e) => SourceEvent::Item(Err(e)),
        };
        match machine.step(ev) {
            StepOutcome::Emit(r) => out.push(r),
            StepOutcome::Again => {}
            _ => unreachable!(),
        }
    }
    assert_eq!(out, vec![Ok("a"), Ok("bb"), Err("c"), Ok("ccc")]);
}

#[test]
fn unique_suspension_leaves_no_partial_state() {
    let mut machine = Unique::new();
    assert!(matches!(
        machine.step(SourceEvent::Item(1u64)),
        StepOutcome::Emit(1)
    ));
    assert!(matches!(machine.step(SourceEvent::Suspended), StepOutcome::Suspend));
    // The key memory persists across the suspension; nothing else does.
    assert!(matches!(machine.step(SourceEvent::Item(1u64)), StepOutcome::Again));
    assert!(matches!(
        machine.step(SourceEvent::Item(2u64)),
        StepOutcome::Emit(2)
    ));
}

/// Drive a round-robin merge over two scripted sides, collecting emissions.
fn run_merge(nb_first: usize, nb_second: usize, a: Vec<&'static str>, b: Vec<&'static str>) -> Vec<&'static str> {
    let mut machine = MergeRoundRobin::new(nb_first, nb_second);
    let mut a = a.into_iter();
    let mut b = b.into_iter();
    let mut out = Vec::new();
    while !machine.is_terminated() {
        let ev = if machine.poll_first() {
            match a.next() {
                Some(t) => SourceEvent::Item(t),
                None => SourceEvent::End,
            }
        } else {
            match b.next() {
                Some(t) => SourceEvent::Item(t),
                None => SourceEvent::End,
            }
        };
        match machine.step(ev) {
            StepOutcome::Emit(t) => out.push(t),
            StepOutcome::Again => {}
            StepOutcome::End => break,
            StepOutcome::Suspend => unreachable!(),
        }
    }
    out
}

#[test]
fn merge_round_robin_quotas_one_two() {
    assert_eq!(
        run_merge(1, 2, vec!["a", "a"], vec!["b", "b", "b", "b", "c"]),
        vec!["a", "b", "b", "a", "b", "b", "c"]
    );
}

#[test]
fn merge_survivor_serves_alone() {
    assert_eq!(
        run_merge(2, 2, vec!["a"], vec!["b", "b", "b", "b", "b"]),
        vec!["a", "b", "b", "b", "b", "b"]
    );
}

#[test]
fn merge_suspension_preserves_side_and_quota() {
    let mut machine = MergeRoundRobin::new(2, 1);
    assert!(machine.poll_first());
    assert!(matches!(machine.step::<i32>(SourceEvent::Item(1)), StepOutcome::Emit(1)));
    // Suspension does not force a side switch.
    assert!(matches!(machine.step::<i32>(SourceEvent::Suspended), StepOutcome::Suspend));
    assert!(machine.poll_first());
    assert!(matches!(machine.step::<i32>(SourceEvent::Item(2)), StepOutcome::Emit(2)));
    // The first side's quota of 2 is now spent: the second side's turn.
    assert!(!machine.poll_first());
}

#[test]
fn merge_size_estimate_saturates() {
    let machine = MergeRoundRobin::new(1, 1);
    assert_eq!(machine.size_estimate(3, Some(4), 5, Some(6)), (8, Some(10)));
    assert_eq!(machine.size_estimate(usize::MAX, Some(usize::MAX), 1, Some(1)), (usize::MAX, None));
    assert_eq!(machine.size_estimate(1, None, 1, Some(2)), (2, None));
}

#[test]
fn merge_size_estimate_after_one_side_ends() {
    let mut machine = MergeRoundRobin::new(1, 1);
    assert!(matches!(machine.step::<i32>(SourceEvent::End), StepOutcome::Again));
    // Only the second side is left; its estimate passes through.
    assert_eq!(machine.size_estimate(9, Some(9), 5, Some(6)), (5, Some(6)));
}
