//! Flattening, error-dropping, awaiting and the two-branch combinator,
//! driven through the resume protocol.

use streamies::await_value::AwaitValue;
use streamies::branch::{
    ExtractFutureOk, FutureResult, ResultExt, TransposeFutureErr, TransposeStart,
};
use streamies::flatten::{FlattenOk, FlattenOkIter, FlattenOkResult};
use streamies::nullify::NullifyErr;
use streamies::protocol::{SourceEvent, StepOutcome};

/// Drive the sequence-flattening adapter: the outer script yields inner
/// sequences modelled as item vectors; the driver resumes whichever source
/// the machine designates.
fn run_flatten_ok(outer: Vec<Result<Vec<i32>, i32>>) -> Vec<Result<i32, i32>> {
    let mut machine: FlattenOk<std::vec::IntoIter<i32>> = FlattenOk::new();
    let mut outer = outer.into_iter();
    let mut out = Vec::new();
    loop {
        if machine.has_inner() {
            let mut inner = machine.take_inner();
            let ev = match inner.next() {
                Some(t) => SourceEvent::Item(t),
                None => SourceEvent::End,
            };
            match machine.on_inner_event::<i32, i32>(inner, ev) {
                StepOutcome::Emit(r) => out.push(r),
                StepOutcome::Again => {}
                _ => unreachable!(),
            }
        } else {
            let ev = match outer.next() {
                Some(Ok(v)) => SourceEvent::Item(Ok(v.into_iter())),
                Some(Err(e)) => SourceEvent::Item(Err(e)),
                None => SourceEvent::End,
            };
            match machine.on_outer_event::<i32, i32>(ev) {
                StepOutcome::Emit(r) => out.push(r),
                StepOutcome::Again => {}
                StepOutcome::End => break,
                StepOutcome::Suspend => unreachable!(),
            }
        }
    }
    assert!(machine.is_terminated());
    out
}

#[test]
fn flatten_ok_positions_errors_in_outer_order() {
    assert_eq!(
        run_flatten_ok(vec![Ok(vec![1, 2, 3]), Err(4), Ok(vec![5, 6])]),
        vec![Ok(1), Ok(2), Ok(3), Err(4), Ok(5), Ok(6)]
    );
}

#[test]
fn flatten_ok_empty_inner_sequences() {
    assert_eq!(
        run_flatten_ok(vec![Ok(vec![]), Err(7), Ok(vec![]), Ok(vec![8])]),
        vec![Err(7), Ok(8)]
    );
}

#[test]
fn flatten_ok_iter_drains_each_iterable() {
    let mut machine: FlattenOkIter<std::ops::Range<i32>> = FlattenOkIter::new();
    let outer: Vec<Result<std::ops::Range<i32>, ()>> = vec![Ok(0..3), Err(()), Ok(10..13)];
    let mut outer = outer.into_iter();
    let mut out = Vec::new();
    loop {
        if machine.has_iter() {
            let mut it = machine.take_iter();
            let item = it.next();
            match machine.on_iter_next::<i32, ()>(it, item) {
                StepOutcome::Emit(r) => out.push(r),
                StepOutcome::Again => {}
                _ => unreachable!(),
            }
        } else {
            let ev = match outer.next() {
                Some(Ok(range)) => SourceEvent::Item(Ok(range)),
                Some(Err(e)) => SourceEvent::Item(Err(e)),
                None => SourceEvent::End,
            };
            match machine.on_outer_event::<i32, ()>(ev) {
                StepOutcome::Emit(r) => out.push(r),
                StepOutcome::Again => {}
                StepOutcome::End => break,
                StepOutcome::Suspend => unreachable!(),
            }
        }
    }
    assert_eq!(
        out,
        vec![Ok(0), Ok(1), Ok(2), Err(()), Ok(10), Ok(11), Ok(12)]
    );
}

#[test]
fn flatten_ok_result_merges_both_error_levels() {
    let mut machine = FlattenOkResult::new();
    let data: Vec<Result<Result<i32, i32>, i32>> = vec![Ok(Ok(1)), Ok(Err(2)), Err(3)];
    let mut out = Vec::new();
    for v in data {
        match machine.step(SourceEvent::Item(v)) {
            StepOutcome::Emit(r) => out.push(r),
            _ => unreachable!(),
        }
    }
    assert!(matches!(machine.step::<i32, i32>(SourceEvent::End), StepOutcome::End));
    assert!(machine.is_terminated());
    assert_eq!(out, vec![Ok(1), Err(2), Err(3)]);
}

#[test]
fn nullify_err_keeps_only_successes() {
    let mut machine = NullifyErr::new();
    let data: Vec<Result<i32, &str>> = vec![Ok(1), Err("x"), Ok(2), Err("y"), Ok(3)];
    let mut out = Vec::new();
    for v in data {
        match machine.step(SourceEvent::Item(v)) {
            StepOutcome::Emit(t) => out.push(t),
            StepOutcome::Again => {}
            _ => unreachable!(),
        }
    }
    assert!(matches!(machine.step::<i32, &str>(SourceEvent::End), StepOutcome::End));
    assert_eq!(out, vec![1, 2, 3]);
}

/// Resolve a two-branch combinator the way the host runtime would, with the
/// branch computations modelled as already-known values.
fn resolve<T, E>(mut fr: FutureResult<T, E>) -> Result<T, E> {
    if fr.has_ok() {
        let v = fr.take_ok();
        assert!(fr.is_spent());
        Ok(v)
    } else if fr.has_err() {
        let e = fr.take_err();
        assert!(fr.is_spent());
        Err(e)
    } else {
        panic!("FutureResult has no future saved.")
    }
}

#[test]
fn branch_ok_resolves_success() {
    assert_eq!(resolve(FutureResult::<i32, i32>::ok(5)), Ok(5));
}

#[test]
fn branch_err_resolves_error() {
    assert_eq!(resolve(FutureResult::<i32, &str>::err("x")), Err("x"));
}

#[test]
fn branch_is_spent_after_resolution() {
    let mut fr = FutureResult::<i32, i32>::ok(5);
    assert!(!fr.is_spent());
    let _ = fr.take_ok();
    // Resuming now is a contract violation, not a value: the host runtime
    // checks this flag and treats a resumed spent combinator as fatal.
    assert!(fr.is_spent());
}

#[test]
fn extract_future_populates_the_matching_branch() {
    assert_eq!(resolve(Ok::<i32, i32>(5).extract_future()), Ok(5));
    assert_eq!(resolve(Err::<i32, i32>(6).extract_future()), Err(6));
}

#[test]
fn extract_future_ok_wraps_error_as_ready() {
    let fr = Ok::<i32, String>(5).extract_future_ok();
    assert_eq!(resolve(fr).map_err(|rv| rv.into_value()), Ok(5));
    let fr = Err::<i32, String>("Hello there!".to_string()).extract_future_ok();
    assert_eq!(
        resolve(fr).map_err(|rv| rv.into_value()),
        Err("Hello there!".to_string())
    );
}

#[test]
fn extract_future_err_wraps_success_as_ready() {
    let fr = Ok::<i32, i32>(5).extract_future_err();
    assert_eq!(resolve(fr).map(|rv| rv.into_value()), Ok(5));
    let fr = Err::<i32, i32>(6).extract_future_err();
    assert_eq!(resolve(fr).map(|rv| rv.into_value()), Err(6));
}

#[test]
fn extract_future_ok_over_a_source() {
    let mut machine = ExtractFutureOk::new();
    let data: Vec<Result<i32, i32>> = vec![Ok(1), Ok(2), Err(3)];
    let mut out = Vec::new();
    for v in data {
        match machine.step(SourceEvent::Item(v)) {
            StepOutcome::Emit(fr) => out.push(resolve(fr).map_err(|rv| rv.into_value())),
            _ => unreachable!(),
        }
    }
    assert!(matches!(machine.step::<i32, i32>(SourceEvent::End), StepOutcome::End));
    assert_eq!(out, vec![Ok(1), Ok(2), Err(3)]);
}

#[test]
fn transpose_resolves_plain_value_at_once() {
    let mut machine: TransposeFutureErr<i32, i32> = TransposeFutureErr::new(Ok(5));
    assert!(!machine.is_spent());
    match machine.begin() {
        TransposeStart::Resolved(v) => assert_eq!(v, 5),
        TransposeStart::AwaitError(_) => unreachable!(),
    }
    assert!(machine.is_spent());
}

#[test]
fn transpose_awaits_the_error_computation() {
    let mut machine: TransposeFutureErr<i32, &str> = TransposeFutureErr::new(Err("late"));
    match machine.begin() {
        TransposeStart::Resolved(_) => unreachable!(),
        TransposeStart::AwaitError(fe) => {
            // Suspended: the computation goes back until it completes.
            machine.keep_waiting(fe);
        }
    }
    assert!(!machine.is_spent());
    match machine.begin() {
        TransposeStart::Resolved(_) => unreachable!(),
        TransposeStart::AwaitError(fe) => assert_eq!(fe, "late"),
    }
    assert!(machine.is_spent());
}

#[test]
fn await_value_drives_one_computation_at_a_time() {
    // Computations modelled as already-known values.
    let mut machine: AwaitValue<i32> = AwaitValue::new();
    let data = vec![5, 6];
    let mut source = data.into_iter();
    let mut out = Vec::new();
    loop {
        if machine.has_held() {
            let f = machine.take_held();
            match machine.finish(f * 10) {
                StepOutcome::Emit(v) => out.push(v),
                _ => unreachable!(),
            }
        } else {
            let ev = match source.next() {
                Some(f) => SourceEvent::Item(f),
                None => SourceEvent::End,
            };
            match machine.on_source_event::<i32>(ev) {
                StepOutcome::Again => {}
                StepOutcome::End => break,
                _ => unreachable!(),
            }
        }
    }
    assert_eq!(out, vec![50, 60]);
}

#[test]
fn await_value_size_estimate_counts_held_computation() {
    let mut machine: AwaitValue<i32> = AwaitValue::new();
    assert_eq!(machine.size_estimate(2, Some(2)), (2, Some(2)));
    assert!(matches!(
        machine.on_source_event::<i32>(SourceEvent::Item(1)),
        StepOutcome::Again
    ));
    assert_eq!(machine.size_estimate(1, Some(1)), (2, Some(2)));
    assert_eq!(machine.size_estimate(usize::MAX, None), (usize::MAX, None));
}
