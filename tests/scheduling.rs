use script_runtime::dyn_import::{DynamicImportTracker, Settlement};
use script_runtime::error::RuntimeError;
use script_runtime::event_loop::{decide, EventLoop, LoopStatus, PromiseState};
use script_runtime::ops::{OpResult, PendingOps, RefClass};

#[test]
fn completed_ops_come_out_ref_first() {
    let mut ops = PendingOps::new();
    assert!(ops.dispatch(1, RefClass::Unref));
    assert!(ops.dispatch(2, RefClass::Ref));
    assert!(ops.dispatch(3, RefClass::Ref));
    assert!(!ops.dispatch(2, RefClass::Unref));
    assert!(ops.resolve(1, OpResult::Value(vec![1])));
    assert!(ops.resolve(3, OpResult::Error("TypeError".to_string(), "bad".to_string())));
    assert!(ops.resolve(2, OpResult::Value(vec![2])));
    assert!(!ops.resolve(2, OpResult::Value(vec![9])));
    let out = ops.poll_completed();
    let ids: Vec<u64> = out.iter().map(|(id, _)| *id).collect();
    assert_eq!(ids, vec![3, 2, 1]);
    assert!(ops.poll_completed().is_empty());
    assert!(!ops.has_pending_ops());
}

#[test]
fn only_ref_ops_count_as_pending() {
    let mut ops = PendingOps::new();
    ops.dispatch(10, RefClass::Unref);
    assert!(!ops.has_pending_ops());
    ops.dispatch(11, RefClass::Ref);
    assert!(ops.has_pending_ops());
}

#[test]
fn loop_verdicts() {
    assert_eq!(decide(false, false, false, false), LoopStatus::Complete);
    assert_eq!(decide(true, false, false, true), LoopStatus::Pending);
    assert_eq!(decide(false, true, false, true), LoopStatus::Pending);
    assert_eq!(
        decide(false, false, false, true),
        LoopStatus::Failed(RuntimeError::UnresolvedPromiseDeadlock)
    );
    assert_eq!(
        decide(false, false, true, false),
        LoopStatus::Failed(RuntimeError::UnresolvedPromiseDeadlock)
    );
}

#[test]
fn unref_op_does_not_hold_the_loop() {
    let mut el = EventLoop::new();
    assert!(el.dispatch_op(1, RefClass::Unref));
    assert!(el.begin_tick().is_empty());
    let report = el.end_tick(PromiseState::Pending, &[]);
    assert_eq!(report.status, LoopStatus::Complete);
}

#[test]
fn ref_op_holds_the_loop_until_resolved() {
    let mut el = EventLoop::new();
    assert!(el.dispatch_op(1, RefClass::Ref));
    for _ in 0..3 {
        el.begin_tick();
        assert_eq!(el.end_tick(PromiseState::Pending, &[]).status, LoopStatus::Pending);
    }
    assert!(el.resolve_op(1, OpResult::Value(vec![])));
    assert_eq!(el.begin_tick().len(), 1);
    assert_eq!(el.end_tick(PromiseState::Pending, &[]).status, LoopStatus::Complete);
}

#[test]
fn unsettled_main_evaluation_is_a_deadlock() {
    let mut el = EventLoop::new();
    assert!(el.evaluate_main(42));
    assert!(!el.evaluate_main(43));
    el.begin_tick();
    let report = el.end_tick(PromiseState::Pending, &[]);
    assert_eq!(report.main, None);
    assert_eq!(
        report.status,
        LoopStatus::Failed(RuntimeError::UnresolvedPromiseDeadlock)
    );
}

#[test]
fn rejected_main_evaluation_is_reported() {
    let mut el = EventLoop::new();
    el.evaluate_main(42);
    let report = el.end_tick(PromiseState::Rejected, &[]);
    assert_eq!(report.main, Some(Err(RuntimeError::RuntimeException)));
    assert_eq!(report.status, LoopStatus::Complete);
}

/// Runs ticks until the verdict is no longer pending; the op resolves just
/// before tick `n + 1`.
fn ticks_until_ready(n: usize) -> (usize, LoopStatus) {
    let mut el = EventLoop::new();
    el.dispatch_op(7, RefClass::Ref);
    let mut ticks = 0;
    loop {
        if ticks == n {
            el.resolve_op(7, OpResult::Value(vec![]));
        }
        el.begin_tick();
        let report = el.end_tick(PromiseState::Pending, &[]);
        ticks += 1;
        if report.status != LoopStatus::Pending {
            return (ticks, report.status);
        }
    }
}

#[test]
fn ref_op_resolving_after_n_ticks_takes_n_plus_one() {
    for n in 0..5 {
        assert_eq!(ticks_until_ready(n), (n + 1, LoopStatus::Complete));
    }
}

#[test]
fn each_import_settles_exactly_once() {
    let mut t = DynamicImportTracker::new();
    let a = t.begin();
    let b = t.begin();
    assert_eq!((a, b), (0, 1));
    assert!(t.is_pending(a));
    assert!(t.complete(a, 4));
    assert!(!t.fail(a, RuntimeError::ModuleLoadError));
    assert!(!t.complete(a, 5));
    assert!(t.fail(b, RuntimeError::ModuleLoadError));
    assert!(!t.complete(b, 1));
    assert!(!t.complete(9, 1));
    assert_eq!(t.settlement(a), Some(Settlement::Completed(4)));
    assert_eq!(t.settlement(b), Some(Settlement::Failed(RuntimeError::ModuleLoadError)));
    assert_eq!(t.settlement(2), None);
    assert!(!t.is_pending(a));
}

#[test]
fn dynamic_import_evaluations_settle_in_queue_order() {
    let mut el = EventLoop::new();
    let a = el.begin_dyn_import();
    let b = el.begin_dyn_import();
    let c = el.begin_dyn_import();
    assert!(el.dyn_import_loaded(a, 1, 100));
    assert!(el.dyn_import_loaded(b, 2, 101));
    assert!(!el.dyn_import_loaded(a, 1, 100));
    // c is still loading: the loop waits for it.
    let report = el.end_tick(
        PromiseState::Pending,
        &[PromiseState::Pending, PromiseState::Fulfilled],
    );
    assert_eq!(report.settled, vec![(b, Settlement::Completed(2))]);
    assert_eq!(report.status, LoopStatus::Pending);
    assert!(el.dyn_import_failed(c, RuntimeError::ModuleLoadError));
    // Only a's evaluation is left, with nothing that could settle it.
    let report = el.end_tick(PromiseState::Pending, &[PromiseState::Pending]);
    assert!(report.settled.is_empty());
    assert_eq!(
        report.status,
        LoopStatus::Failed(RuntimeError::UnresolvedPromiseDeadlock)
    );
    let report = el.end_tick(PromiseState::Pending, &[PromiseState::Rejected]);
    assert_eq!(
        report.settled,
        vec![(a, Settlement::Failed(RuntimeError::RuntimeException))]
    );
    assert_eq!(report.status, LoopStatus::Complete);
}

#[test]
fn imports_settle_once_under_mixed_outcomes() {
    let mut el = EventLoop::new();
    let mut seed: u64 = 0x2545_f491;
    let mut ids = Vec::new();
    for _ in 0..40 {
        ids.push(el.begin_dyn_import());
    }
    // Each load either fails or finishes loading, at random.
    let mut evaluating = Vec::new();
    for (k, id) in ids.iter().enumerate() {
        seed = seed.wrapping_mul(6364136223846793005).wrapping_add(1442695040888963407);
        if (seed >> 33) % 3 == 0 {
            assert!(el.dyn_import_failed(*id, RuntimeError::ModuleLoadError));
            assert!(!el.dyn_import_failed(*id, RuntimeError::ModuleLoadError));
        } else {
            assert!(el.dyn_import_loaded(*id, k, 1000 + k as u64));
            evaluating.push(*id);
        }
    }
    // Evaluations settle at random over several ticks.
    let mut settled = Vec::new();
    let mut queue = evaluating.clone();
    while !queue.is_empty() {
        let states: Vec<PromiseState> = queue
            .iter()
            .map(|_| {
                seed = seed.wrapping_mul(6364136223846793005).wrapping_add(1442695040888963407);
                match (seed >> 33) % 3 {
                    0 => PromiseState::Fulfilled,
                    1 => PromiseState::Rejected,
                    _ => PromiseState::Pending,
                }
            })
            .collect();
        let report = el.end_tick(PromiseState::Pending, &states);
        let mut kept = Vec::new();
        for (id, st) in queue.iter().zip(states.iter()) {
            if *st == PromiseState::Pending {
                kept.push(*id);
            } else {
                settled.push(*id);
            }
        }
        let reported: Vec<u64> = report.settled.iter().map(|(id, _)| *id).collect();
        let expected: Vec<u64> = queue
            .iter()
            .zip(states.iter())
            .filter(|(_, st)| **st != PromiseState::Pending)
            .map(|(id, _)| *id)
            .collect();
        assert_eq!(reported, expected);
        queue = kept;
    }
    settled.sort();
    let mut all = evaluating.clone();
    all.sort();
    assert_eq!(settled, all);
    let report = el.end_tick(PromiseState::Pending, &[]);
    assert_eq!(report.status, LoopStatus::Complete);
}
