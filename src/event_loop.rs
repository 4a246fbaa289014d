//! The event-loop driver: one cooperative tick is split in two halves
//! around the engine's own work. `begin_tick` hands out the finished op
//! results; the host delivers them, drains the engine's task queues and
//! advances module loads; `end_tick` then takes the promise states the engine
//! reports and decides whether the loop is complete, pending, or stuck.
use vstd::prelude::*;
use crate::dyn_import::{DynamicImportTracker, ImportLedger, Settlement, lemma_settle_wf};
use crate::error::RuntimeError;
use crate::ops::{OpResult, PendingOps, RefClass, index_of_id, lemma_remove_distinct};

verus! {

/// The state of an engine promise.
#[derive(Debug, Clone, Copy, PartialEq, Eq, Structural)]
pub enum PromiseState {
    Pending,
    Fulfilled,
    Rejected,
}

/// What a tick concludes about the loop.
#[derive(Debug, Clone, Copy, PartialEq, Eq, Structural)]
pub enum LoopStatus {
    /// Nothing is outstanding: the loop is done.
    Complete,
    /// Work is outstanding: call the tick again after the next wakeup.
    Pending,
    /// The loop cannot go on.
    Failed(RuntimeError),
}

/// A dynamically imported module whose evaluation promise has not settled.
#[derive(Debug, Clone, Copy, PartialEq, Eq, Structural)]
pub struct DynEval {
    pub load_id: u64,
    pub module_id: usize,
    pub promise: u64,
}

/// The loop's verdict from what is still outstanding: `Ref` ops, dynamic
/// imports still loading, dynamic imports still evaluating, the main
/// module's evaluation. An evaluation left waiting with no op and no load
/// that could ever settle it is a deadlock.
pub open spec fn loop_status(ops: bool, loads: bool, dyn_evals: bool, main_eval: bool) -> LoopStatus {
    if !ops && !loads && !dyn_evals && !main_eval {
        LoopStatus::Complete
    } else if !ops && !loads {
        LoopStatus::Failed(RuntimeError::UnresolvedPromiseDeadlock)
    } else {
        LoopStatus::Pending
    }
}

/// Computes `loop_status`.
pub fn decide(ops: bool, loads: bool, dyn_evals: bool, main_eval: bool) -> (r: LoopStatus)
    ensures
        r == loop_status(ops, loads, dyn_evals, main_eval),
{
    if !ops && !loads && !dyn_evals && !main_eval {
        LoopStatus::Complete
    } else if !ops && !loads {
        LoopStatus::Failed(RuntimeError::UnresolvedPromiseDeadlock)
    } else {
        LoopStatus::Pending
    }
}

/// The reported state of the `i`-th evaluation; a missing report counts as
/// still pending.
pub open spec fn state_at(states: Seq<PromiseState>, i: int) -> PromiseState {
    if 0 <= i < states.len() {
        states[i]
    } else {
        PromiseState::Pending
    }
}

/// The first `n` evaluations whose promise is still pending, in order.
pub open spec fn kept(evals: Seq<DynEval>, states: Seq<PromiseState>, n: nat) -> Seq<DynEval>
    decreases n,
{
    if n == 0 {
        Seq::empty()
    } else {
        let rest = kept(evals, states, (n - 1) as nat);
        if state_at(states, n - 1) == PromiseState::Pending {
            rest.push(evals[n - 1])
        } else {
            rest
        }
    }
}

/// How the first `n` evaluations settle, in order.
pub open spec fn outcomes(evals: Seq<DynEval>, states: Seq<PromiseState>, n: nat) -> Seq<
    (u64, Settlement),
>
    decreases n,
{
    if n == 0 {
        Seq::empty()
    } else {
        let rest = outcomes(evals, states, (n - 1) as nat);
        let e = evals[n - 1];
        match state_at(states, n - 1) {
            PromiseState::Fulfilled => rest.push((e.load_id, Settlement::Completed(e.module_id))),
            PromiseState::Rejected => rest.push(
                (e.load_id, Settlement::Failed(RuntimeError::RuntimeException)),
            ),
            PromiseState::Pending => rest,
        }
    }
}

/// Settles each of `outs` in turn.
pub open spec fn settle_all(l: ImportLedger, outs: Seq<(u64, Settlement)>) -> ImportLedger
    decreases outs.len(),
{
    if outs.len() == 0 {
        l
    } else {
        let h = settle_all(l, outs.drop_last());
        h.settle(outs.last().0, outs.last().1)
    }
}

/// What `end_tick` reports.
pub struct TickReport {
    /// The loop's verdict after this tick.
    pub status: LoopStatus,
    /// How the main module's evaluation ended, if it ended in this tick.
    pub main: Option<Result<(), RuntimeError>>,
    /// The dynamic imports settled in this tick, in queue order.
    pub settled: Vec<(u64, Settlement)>,
}

/// The event-loop driver of one runtime.
pub struct EventLoop {
    ops: PendingOps,
    imports: DynamicImportTracker,
    loads: Vec<u64>,
    evals: Vec<DynEval>,
    main_eval: Option<u64>,
    rejections: Vec<u64>,
}

impl EventLoop {
    pub closed spec fn ops(&self) -> PendingOps {
        self.ops
    }

    pub closed spec fn ledger(&self) -> ImportLedger {
        self.imports@
    }

    /// Dynamic imports still loading.
    pub closed spec fn loads(&self) -> Seq<u64> {
        self.loads@
    }

    /// Dynamic imports whose module is evaluating, in queue order.
    pub closed spec fn evals(&self) -> Seq<DynEval> {
        self.evals@
    }

    /// Promises rejected with no handler, waiting to be reported, oldest first.
    pub closed spec fn rejections(&self) -> Seq<u64> {
        self.rejections@
    }

    /// The promise of the main module's evaluation, while it is unsettled.
    pub closed spec fn main_eval(&self) -> Option<u64> {
        self.main_eval
    }

    pub closed spec fn wf(&self) -> bool {
        &&& self.ops.wf()
        &&& self.imports@.wf()
        &&& crate::ops::distinct_ids(self.loads@)
        &&& forall|id: u64| #[trigger] self.loads@.contains(id) ==> self.imports@.pending.contains(id)
        &&& forall|k: int| 0 <= k < self.evals@.len() ==> ((#[trigger] self.evals@[k]).load_id as nat)
            < self.imports@.next_id && !self.loads@.contains(self.evals@[k].load_id)
    }

    /// The verdict the current state gives.
    pub open spec fn status(&self) -> LoopStatus {
        loop_status(
            self.ops().refs().len() > 0,
            self.loads().len() > 0,
            self.evals().len() > 0,
            self.main_eval() is Some,
        )
    }

    /// Records a dispatched async op (see `PendingOps::dispatch`).
    pub fn dispatch_op(&mut self, promise_id: u64, class: RefClass) -> (r: bool)
        requires
            old(self).wf(),
        ensures
            final(self).wf(),
            r == !old(self).ops().outstanding(promise_id),
            !r ==> final(self).ops().refs() == old(self).ops().refs(),
            r && class == RefClass::Ref ==> final(self).ops().refs() == old(self).ops().refs().push(promise_id),
            r && class == RefClass::Unref ==> final(self).ops().refs() == old(self).ops().refs(),
            final(self).ops().ready_ref() == old(self).ops().ready_ref(),
            final(self).ops().ready_unref() == old(self).ops().ready_unref(),
            final(self).loads() == old(self).loads(),
            final(self).evals() == old(self).evals(),
            final(self).main_eval() == old(self).main_eval(),
            final(self).ledger() == old(self).ledger(),
    {
        let r = self.ops.dispatch(promise_id, class);
        proof {
            assert(self.loads@ == old(self).loads());
            assert(self.evals() == old(self).evals());
            assert(self.imports@ == old(self).ledger());
        }
        r
    }

    /// Takes the result of an outstanding op (see `PendingOps::resolve`).
    pub fn resolve_op(&mut self, promise_id: u64, result: OpResult) -> (r: bool)
        requires
            old(self).wf(),
        ensures
            final(self).wf(),
            r == old(self).ops().outstanding(promise_id),
            forall|id: u64| #[trigger] final(self).ops().refs().contains(id) <==> (old(self).ops().refs().contains(id) && id != promise_id),
            final(self).loads() == old(self).loads(),
            final(self).evals() == old(self).evals(),
            final(self).main_eval() == old(self).main_eval(),
            final(self).ledger() == old(self).ledger(),
    {
        let r = self.ops.resolve(promise_id, result);
        proof {
            assert(self.loads@ == old(self).loads());
            assert(self.evals() == old(self).evals());
            assert(self.imports@ == old(self).ledger());
        }
        r
    }

    /// Starts a dynamic import: a fresh load id, loading until
    /// `dyn_import_loaded` or `dyn_import_failed`.
    pub fn begin_dyn_import(&mut self) -> (r: u64)
        requires
            old(self).wf(),
            old(self).ledger().next_id < u64::MAX,
        ensures
            final(self).wf(),
            r as nat == old(self).ledger().next_id,
            final(self).ledger() == old(self).ledger().begin(),
            final(self).loads() == old(self).loads().push(r),
            final(self).ops() == old(self).ops(),
            final(self).evals() == old(self).evals(),
            final(self).main_eval() == old(self).main_eval(),
    {
        let id = self.imports.begin();
        proof {
            let l = old(self).imports@;
            assert(!old(self).loads@.contains(id)) by {
                if old(self).loads@.contains(id) {
                    assert(l.pending.contains(id));
                }
            }
            assert(self.imports@.pending == l.pending.push(id));
            assert forall|x: u64| #[trigger] self.imports@.pending.contains(x) <== l.pending.contains(x) by {
                if l.pending.contains(x) {
                    let k = choose|k: int| 0 <= k < l.pending.len() && l.pending[k] == x;
                    assert(self.imports@.pending[k] == x);
                }
            }
            assert(self.imports@.pending[l.pending.len() as int] == id);
        }
        self.loads.push(id);
        proof {
            let l = old(self).imports@;
            assert forall|i: int, j: int| 0 <= i < self.loads@.len() && 0 <= j < self.loads@.len() && i != j
                implies self.loads@[i] != self.loads@[j] by {
                let n = old(self).loads@.len() as int;
                if i == n {
                    assert(old(self).loads@.contains(old(self).loads@[j]));
                } else if j == n {
                    assert(old(self).loads@.contains(old(self).loads@[i]));
                }
            }
            assert forall|x: u64| #[trigger] self.loads@.contains(x) implies self.imports@.pending.contains(x) by {
                let k = choose|k: int| 0 <= k < self.loads@.len() && self.loads@[k] == x;
                if k < old(self).loads@.len() {
                    assert(old(self).loads@[k] == x);
                    assert(old(self).loads@.contains(x));
                }
            }
            assert forall|k: int| 0 <= k < self.evals@.len() implies !self.loads@.contains(
                (#[trigger] self.evals@[k]).load_id,
            ) by {
                let e = self.evals@[k];
                assert(e == old(self).evals@[k]);
                assert((e.load_id as nat) < l.next_id);
                if self.loads@.contains(e.load_id) {
                    let m = choose|m: int| 0 <= m < self.loads@.len() && self.loads@[m] == e.load_id;
                    if m < old(self).loads@.len() {
                        assert(old(self).loads@[m] == e.load_id);
                        assert(old(self).loads@.contains(e.load_id));
                    }
                }
            }
        }
        id
    }

    /// The load of `load_id` finished and evaluation of `module_id` began
    /// with the engine promise `promise`: the import moves to the back of the
    /// evaluation queue. Refused (`false`, nothing changed) unless `load_id`
    /// is loading.
    pub fn dyn_import_loaded(&mut self, load_id: u64, module_id: usize, promise: u64) -> (r: bool)
        requires
            old(self).wf(),
        ensures
            final(self).wf(),
            r == old(self).loads().contains(load_id),
            r ==> final(self).loads() == old(self).loads().remove(old(self).loads().index_of(load_id)),
            r ==> final(self).evals() == old(self).evals().push(
                DynEval { load_id, module_id, promise },
            ),
            !r ==> final(self).loads() == old(self).loads() && final(self).evals() == old(self).evals(),
            final(self).ops() == old(self).ops(),
            final(self).ledger() == old(self).ledger(),
            final(self).main_eval() == old(self).main_eval(),
    {
        match index_of_id(&self.loads, load_id) {
            Some(i) => {
                proof {
                    lemma_remove_distinct(self.loads@, i as int);
                    assert(self.loads@.contains(load_id));
                    assert(self.loads@.index_of(load_id) == i as int) by {
                        let k = self.loads@.index_of(load_id);
                        assert(self.loads@[k] == load_id);
                    }
                    assert(self.imports@.pending.contains(load_id));
                }
                self.loads.remove(i);
                self.evals.push(DynEval { load_id, module_id, promise });
                proof {
                    assert forall|x: u64| #[trigger] self.loads@.contains(x) implies self.imports@.pending.contains(x) by {
                        assert(old(self).loads@.contains(x));
                    }
                    assert forall|k: int| 0 <= k < self.evals@.len() implies ((#[trigger] self.evals@[k]).load_id as nat)
                        < self.imports@.next_id && !self.loads@.contains(self.evals@[k].load_id) by {
                        if k < old(self).evals().len() {
                            assert(self.evals@[k] == old(self).evals@[k]);
                        }
                    }
                }
                true
            },
            None => false,
        }
    }

    /// The load of `load_id` failed with `error`: the import is settled as
    /// failed. Refused (`false`, nothing changed) unless `load_id` is loading.
    pub fn dyn_import_failed(&mut self, load_id: u64, error: RuntimeError) -> (r: bool)
        requires
            old(self).wf(),
        ensures
            final(self).wf(),
            r == old(self).loads().contains(load_id),
            r ==> final(self).loads() == old(self).loads().remove(old(self).loads().index_of(load_id)),
            r ==> final(self).ledger() == old(self).ledger().settle(load_id, Settlement::Failed(error)),
            !r ==> final(self).loads() == old(self).loads() && final(self).ledger() == old(self).ledger(),
            final(self).evals() == old(self).evals(),
            final(self).ops() == old(self).ops(),
            final(self).main_eval() == old(self).main_eval(),
    {
        match index_of_id(&self.loads, load_id) {
            Some(i) => {
                proof {
                    lemma_remove_distinct(self.loads@, i as int);
                    assert(self.loads@.contains(load_id));
                    assert(self.loads@.index_of(load_id) == i as int) by {
                        let k = self.loads@.index_of(load_id);
                        assert(self.loads@[k] == load_id);
                    }
                    assert(self.imports@.can_settle(load_id));
                    lemma_settle_wf(self.imports@, load_id, Settlement::Failed(error));
                }
                self.loads.remove(i);
                self.imports.fail(load_id, error);
                proof {
                    assert forall|x: u64| #[trigger] self.loads@.contains(x) implies self.imports@.pending.contains(x) by {
                        assert(old(self).loads@.contains(x));
                    }
                    assert forall|k: int| 0 <= k < self.evals@.len() implies ((#[trigger] self.evals@[k]).load_id as nat)
                        < self.imports@.next_id && !self.loads@.contains(self.evals@[k].load_id) by {
                        assert(self.evals@[k] == old(self).evals@[k]);
                    }
                }
                true
            },
            None => false,
        }
    }

    /// The main module's evaluation began with the engine promise `promise`.
    /// Refused (`false`, nothing changed) while another is unsettled.
    pub fn evaluate_main(&mut self, promise: u64) -> (r: bool)
        requires
            old(self).wf(),
        ensures
            final(self).wf(),
            r == old(self).main_eval() is None,
            r ==> final(self).main_eval() == Some(promise),
            !r ==> final(self).main_eval() == old(self).main_eval(),
            final(self).ops() == old(self).ops(),
            final(self).loads() == old(self).loads(),
            final(self).evals() == old(self).evals(),
            final(self).ledger() == old(self).ledger(),
    {
        if self.main_eval.is_some() {
            return false;
        }
        self.main_eval = Some(promise);
        true
    }

    /// First half of a tick: every finished op result, those of `Ref` ops
    /// first, each class in order of arrival, for one batched delivery.
    pub fn begin_tick(&mut self) -> (r: Vec<(u64, OpResult)>)
        requires
            old(self).wf(),
        ensures
            final(self).wf(),
            r@ == old(self).ops().ready_ref() + old(self).ops().ready_unref(),
            final(self).ops().ready_ref() == Seq::<(u64, OpResult)>::empty(),
            final(self).ops().ready_unref() == Seq::<(u64, OpResult)>::empty(),
            final(self).ops().refs() == old(self).ops().refs(),
            final(self).ops().unrefs() == old(self).ops().unrefs(),
            final(self).loads() == old(self).loads(),
            final(self).evals() == old(self).evals(),
            final(self).ledger() == old(self).ledger(),
            final(self).main_eval() == old(self).main_eval(),
            final(self).status() == old(self).status(),
    {
        let r = self.ops.poll_completed();
        proof {
            assert(self.loads@ == old(self).loads());
            assert(self.evals() == old(self).evals());
            assert(self.imports@ == old(self).ledger());
        }
        r
    }

    /// Second half of a tick. `dyn_states[i]` is the state of the promise of
    /// the `i`-th queued evaluation (a missing entry counts as pending) and
    /// `main_state` that of the main module's evaluation. Settled imports
    /// are completed or failed in queue order, pending ones stay queued in
    /// order; a settled main evaluation is reported and cleared. The report
    /// ends with the loop's verdict on what is left.
    pub fn end_tick(&mut self, main_state: PromiseState, dyn_states: &[PromiseState]) -> (r: TickReport)
        requires
            old(self).wf(),
        ensures
            final(self).wf(),
            final(self).evals() == kept(old(self).evals(), dyn_states@, old(self).evals().len()),
            r.settled@ == outcomes(old(self).evals(), dyn_states@, old(self).evals().len()),
            final(self).ledger() == settle_all(old(self).ledger(), r.settled@),
            old(self).main_eval() is None ==> r.main is None && final(self).main_eval() is None,
            old(self).main_eval() is Some && main_state == PromiseState::Fulfilled ==> r.main == Some(
                Ok::<(), RuntimeError>(()),
            ) && final(self).main_eval() is None,
            old(self).main_eval() is Some && main_state == PromiseState::Rejected ==> r.main == Some(
                Err::<(), RuntimeError>(RuntimeError::RuntimeException),
            ) && final(self).main_eval() is None,
            old(self).main_eval() is Some && main_state == PromiseState::Pending ==> r.main is None
                && final(self).main_eval() == old(self).main_eval(),
            final(self).ops() == old(self).ops(),
            final(self).loads() == old(self).loads(),
            r.status == final(self).status(),
    {
        let n = self.evals.len();
        let mut queue: Vec<DynEval> = Vec::new();
        std::mem::swap(&mut queue, &mut self.evals);
        let ghost old_evals = queue@;
        let ghost start = self.imports@;
        let mut settled: Vec<(u64, Settlement)> = Vec::new();
        let mut i: usize = 0;
        while i < n
            invariant
                n == old_evals.len(),
                queue@ == old_evals,
                old_evals == old(self).evals(),
                start == old(self).ledger(),
                i <= n,
                self.imports.wf(),
                self.ops == old(self).ops,
                self.loads == old(self).loads,
                self.main_eval == old(self).main_eval,
                self.imports@.next_id == start.next_id,
                forall|x: u64| #[trigger] self.loads@.contains(x) ==> self.imports@.pending.contains(x),
                self.evals@ == kept(old_evals, dyn_states@, i as nat),
                forall|k: int| 0 <= k < old_evals.len() ==> ((#[trigger] old_evals[k]).load_id as nat)
                    < start.next_id && !self.loads@.contains(old_evals[k].load_id),
                settled@ == outcomes(old_evals, dyn_states@, i as nat),
                self.imports@ == settle_all(start, settled@),
                forall|k: int| 0 <= k < self.evals@.len() ==> ((#[trigger] self.evals@[k]).load_id as nat)
                    < start.next_id && !self.loads@.contains(self.evals@[k].load_id),
            decreases n - i,
        {
            let e = queue[i];
            let st = if i < dyn_states.len() {
                dyn_states[i]
            } else {
                PromiseState::Pending
            };
            proof {
                assert(old(self).evals@[i as int] == e);
                assert(!self.loads@.contains(e.load_id));
            }
            let ghost before = settled@;
            let ghost prev_evals = self.evals@;
            match st {
                PromiseState::Pending => {
                    self.evals.push(e);
                },
                PromiseState::Fulfilled => {
                    let s = Settlement::Completed(e.module_id);
                    proof {
                        if self.imports@.can_settle(e.load_id) {
                            lemma_settle_wf(self.imports@, e.load_id, s);
                        }
                    }
                    self.imports.complete(e.load_id, e.module_id);
                    settled.push((e.load_id, s));
                },
                PromiseState::Rejected => {
                    let s = Settlement::Failed(RuntimeError::RuntimeException);
                    proof {
                        if self.imports@.can_settle(e.load_id) {
                            lemma_settle_wf(self.imports@, e.load_id, s);
                        }
                    }
                    self.imports.fail(e.load_id, RuntimeError::RuntimeException);
                    settled.push((e.load_id, s));
                },
            }
            proof {
                if st != PromiseState::Pending {
                    assert(settled@.drop_last() =~= before);
                }
                assert forall|k: int| 0 <= k < self.evals@.len() implies ((#[trigger] self.evals@[k]).load_id as nat)
                    < start.next_id && !self.loads@.contains(self.evals@[k].load_id) by {
                    if k == self.evals@.len() - 1 && st == PromiseState::Pending {
                        assert(self.evals@[k] == e);
                    } else {
                        assert(self.evals@[k] == prev_evals[k]);
                    }
                }
            }
            i = i + 1;
        }
        let main = match self.main_eval {
            None => None,
            Some(p) => match main_state {
                PromiseState::Pending => None,
                PromiseState::Fulfilled => {
                    self.main_eval = None;
                    Some(Ok(()))
                },
                PromiseState::Rejected => {
                    self.main_eval = None;
                    Some(Err(RuntimeError::RuntimeException))
                },
            },
        };
        let status = decide(
            self.ops.has_pending_ops(),
            self.loads.len() > 0,
            self.evals.len() > 0,
            self.main_eval.is_some(),
        );
        TickReport { status, main, settled }
    }

    /// The engine saw `promise` rejected with no handler.
    pub fn report_rejection(&mut self, promise: u64)
        requires
            old(self).wf(),
        ensures
            final(self).wf(),
            final(self).rejections() == old(self).rejections().push(promise),
            final(self).ops() == old(self).ops(),
            final(self).loads() == old(self).loads(),
            final(self).evals() == old(self).evals(),
            final(self).ledger() == old(self).ledger(),
            final(self).main_eval() == old(self).main_eval(),
    {
        self.rejections.push(promise);
    }

    /// The oldest unreported rejection, removed from the queue. A tick
    /// reports one at most, so that reporting one cannot start an unbounded
    /// chain of others within the same tick.
    pub fn take_rejection(&mut self) -> (r: Option<u64>)
        requires
            old(self).wf(),
        ensures
            final(self).wf(),
            old(self).rejections().len() == 0 ==> r is None && final(self).rejections() == old(
                self,
            ).rejections(),
            old(self).rejections().len() > 0 ==> r == Some(old(self).rejections()[0])
                && final(self).rejections() == old(self).rejections().drop_first(),
            final(self).ops() == old(self).ops(),
            final(self).loads() == old(self).loads(),
            final(self).evals() == old(self).evals(),
            final(self).ledger() == old(self).ledger(),
            final(self).main_eval() == old(self).main_eval(),
    {
        if self.rejections.len() == 0 {
            return None;
        }
        let p = self.rejections.remove(0);
        assert(self.rejections@ =~= old(self).rejections@.drop_first());
        Some(p)
    }

    /// Nothing outstanding.
    pub fn new() -> (r: Self)
        ensures
            r.wf(),
            r.ops().refs() == Seq::<u64>::empty(),
            r.ops().unrefs() == Seq::<u64>::empty(),
            r.loads() == Seq::<u64>::empty(),
            r.evals() == Seq::<DynEval>::empty(),
            r.main_eval() is None,
            r.rejections() == Seq::<u64>::empty(),
            r.ledger() == (ImportLedger { next_id: 0, pending: Seq::empty(), settled: Seq::empty() }),
    {
        EventLoop {
            ops: PendingOps::new(),
            imports: DynamicImportTracker::new(),
            loads: Vec::new(),
            evals: Vec::new(),
            main_eval: None,
            rejections: Vec::new(),
        }
    }
}

/// Outstanding `Unref` ops alone never keep the loop alive: with no `Ref` op,
/// no dynamic import and no main evaluation outstanding, the verdict is
/// `Complete` whatever `Unref` ops are still waiting.
pub proof fn law_unref_ops_do_not_hold_loop(el: EventLoop)
    requires
        el.ops().refs().len() == 0,
        el.loads().len() == 0,
        el.evals().len() == 0,
        el.main_eval() is None,
    ensures
        el.status() == LoopStatus::Complete,
{
}

/// An outstanding `Ref` op keeps the loop pending; once it is resolved and
/// nothing else is outstanding, the verdict is `Complete`.
pub proof fn law_ref_op_holds_loop_until_resolved(before: EventLoop, after: EventLoop, promise_id: u64)
    requires
        before.ops().refs() == seq![promise_id],
        forall|id: u64| #[trigger] after.ops().refs().contains(id) <==> (before.ops().refs().contains(id)
            && id != promise_id),
        after.loads().len() == 0,
        after.evals().len() == 0,
        after.main_eval() is None,
    ensures
        before.status() == LoopStatus::Pending,
        after.status() == LoopStatus::Complete,
{
    if after.ops().refs().len() > 0 {
        assert(after.ops().refs().contains(after.ops().refs()[0]));
    }
}

/// A main-module evaluation left unsettled with no `Ref` op and no dynamic
/// import outstanding is reported as a deadlock, not as pending.
pub proof fn law_unsettled_main_is_deadlock(el: EventLoop)
    requires
        el.main_eval() is Some,
        el.ops().refs().len() == 0,
        el.loads().len() == 0,
    ensures
        el.status() == LoopStatus::Failed(RuntimeError::UnresolvedPromiseDeadlock),
{
}

} // verus!
