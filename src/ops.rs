//! In-flight asynchronous ops. An op is outstanding from dispatch until its
//! result arrives; its result then waits in the ready queue of its class
//! until the next drain hands it to the engine.
use vstd::prelude::*;

verus! {

/// Whether an outstanding op keeps the event loop alive.
#[derive(Debug, Clone, Copy, PartialEq, Eq, Structural)]
pub enum RefClass {
    /// Keeps the loop alive while outstanding.
    Ref,
    /// Does not keep the loop alive (a timer that should not block exit).
    Unref,
}

/// What an op produced: a value, or an error kind and message.
#[derive(Debug, Clone)]
pub enum OpResult {
    Value(Vec<u8>),
    Error(String, String),
}

/// No id occurs twice in `ids`.
pub open spec fn distinct_ids(ids: Seq<u64>) -> bool {
    forall|i: int, j: int| 0 <= i < ids.len() && 0 <= j < ids.len() && i != j ==> ids[i] != ids[j]
}

/// The pending-op scheduler.
pub struct PendingOps {
    refs: Vec<u64>,
    unrefs: Vec<u64>,
    ready_ref: Vec<(u64, OpResult)>,
    ready_unref: Vec<(u64, OpResult)>,
}

pub fn index_of_id(ids: &Vec<u64>, id: u64) -> (r: Option<usize>)
    ensures
        match r {
            Some(i) => i < ids@.len() && ids@[i as int] == id,
            None => !ids@.contains(id),
        },
{
    let mut i: usize = 0;
    while i < ids.len()
        invariant
            i <= ids@.len(),
            forall|k: int| 0 <= k < i ==> ids@[k] != id,
        decreases ids@.len() - i,
    {
        if ids[i] == id {
            return Some(i);
        }
        i = i + 1;
    }
    None
}

/// Removing one entry keeps the others distinct and drops exactly that id.
pub proof fn lemma_remove_distinct(ids: Seq<u64>, i: int)
    requires
        distinct_ids(ids),
        0 <= i < ids.len(),
    ensures
        distinct_ids(ids.remove(i)),
        !ids.remove(i).contains(ids[i]),
        forall|x: u64| x != ids[i] ==> (ids.remove(i).contains(x) <==> ids.contains(x)),
{
    let r = ids.remove(i);
    assert forall|x: u64| x != ids[i] implies (r.contains(x) <==> ids.contains(x)) by {
        if ids.contains(x) {
            let k = choose|k: int| 0 <= k < ids.len() && ids[k] == x;
            if k < i {
                assert(r[k] == x);
            } else {
                assert(r[k - 1] == x);
            }
        }
    }
}

impl PendingOps {
    /// Promise ids of the outstanding `Ref` ops, in dispatch order.
    pub closed spec fn refs(&self) -> Seq<u64> {
        self.refs@
    }

    /// Promise ids of the outstanding `Unref` ops, in dispatch order.
    pub closed spec fn unrefs(&self) -> Seq<u64> {
        self.unrefs@
    }

    /// Results of `Ref` ops not yet handed out, in order of arrival.
    pub closed spec fn ready_ref(&self) -> Seq<(u64, OpResult)> {
        self.ready_ref@
    }

    /// Results of `Unref` ops not yet handed out, in order of arrival.
    pub closed spec fn ready_unref(&self) -> Seq<(u64, OpResult)> {
        self.ready_unref@
    }

    /// `id` belongs to an outstanding op of either class.
    pub open spec fn outstanding(&self, id: u64) -> bool {
        self.refs().contains(id) || self.unrefs().contains(id)
    }

    pub open spec fn wf(&self) -> bool {
        &&& distinct_ids(self.refs())
        &&& distinct_ids(self.unrefs())
        &&& forall|id: u64| self.refs().contains(id) ==> !self.unrefs().contains(id)
    }

    /// No op outstanding, no result waiting.
    pub fn new() -> (r: Self)
        ensures
            r.wf(),
            r.refs() == Seq::<u64>::empty(),
            r.unrefs() == Seq::<u64>::empty(),
            r.ready_ref() == Seq::<(u64, OpResult)>::empty(),
            r.ready_unref() == Seq::<(u64, OpResult)>::empty(),
    {
        PendingOps {
            refs: Vec::new(),
            unrefs: Vec::new(),
            ready_ref: Vec::new(),
            ready_unref: Vec::new(),
        }
    }

    /// Records a dispatched async op under its promise id. Refused (`false`,
    /// nothing changed) when an op with that id is still outstanding.
    pub fn dispatch(&mut self, promise_id: u64, class: RefClass) -> (r: bool)
        requires
            old(self).wf(),
        ensures
            final(self).wf(),
            r == !old(self).outstanding(promise_id),
            final(self).ready_ref() == old(self).ready_ref(),
            final(self).ready_unref() == old(self).ready_unref(),
            !r ==> final(self).refs() == old(self).refs() && final(self).unrefs() == old(
                self,
            ).unrefs(),
            r && class == RefClass::Ref ==> final(self).refs() == old(self).refs().push(promise_id)
                && final(self).unrefs() == old(self).unrefs(),
            r && class == RefClass::Unref ==> final(self).unrefs() == old(self).unrefs().push(
                promise_id,
            ) && final(self).refs() == old(self).refs(),
    {
        if index_of_id(&self.refs, promise_id).is_some() || index_of_id(
            &self.unrefs,
            promise_id,
        ).is_some() {
            return false;
        }
        match class {
            RefClass::Ref => {
                self.refs.push(promise_id);
                proof {
                    assert forall|i: int, j: int|
                        0 <= i < self.refs@.len() && 0 <= j < self.refs@.len() && i != j
                        implies self.refs@[i] != self.refs@[j] by {
                        if i == old(self).refs@.len() {
                            assert(old(self).refs@.contains(old(self).refs@[j]));
                        } else if j == old(self).refs@.len() {
                            assert(old(self).refs@.contains(old(self).refs@[i]));
                        }
                    }
                    assert forall|id: u64| self.refs().contains(id) implies !self.unrefs().contains(id) by {
                        if id != promise_id {
                            let k = choose|k: int| 0 <= k < self.refs@.len() && self.refs@[k] == id;
                            assert(old(self).refs@[k] == id);
                        }
                    }
                }
            },
            RefClass::Unref => {
                self.unrefs.push(promise_id);
                proof {
                    assert forall|i: int, j: int|
                        0 <= i < self.unrefs@.len() && 0 <= j < self.unrefs@.len() && i != j
                        implies self.unrefs@[i] != self.unrefs@[j] by {
                        if i == old(self).unrefs@.len() {
                            assert(old(self).unrefs@.contains(old(self).unrefs@[j]));
                        } else if j == old(self).unrefs@.len() {
                            assert(old(self).unrefs@.contains(old(self).unrefs@[i]));
                        }
                    }
                    assert forall|id: u64| self.refs().contains(id) implies !self.unrefs().contains(id) by {
                        if id != promise_id && self.unrefs().contains(id) {
                            let k = choose|k: int| 0 <= k < self.unrefs@.len() && self.unrefs@[k] == id;
                            assert(old(self).unrefs@[k] == id);
                        }
                    }
                }
            },
        }
        true
    }

    /// Takes the result of the op with `promise_id`: the op stops being
    /// outstanding and its result joins the ready queue of its class.
    /// `false`, and nothing changed, when no such op is outstanding.
    pub fn resolve(&mut self, promise_id: u64, result: OpResult) -> (r: bool)
        requires
            old(self).wf(),
        ensures
            final(self).wf(),
            r == old(self).outstanding(promise_id),
            !final(self).outstanding(promise_id),
            forall|id: u64| id != promise_id ==> (final(self).outstanding(id) <==> old(
                self,
            ).outstanding(id)),
            forall|id: u64| #[trigger] final(self).refs().contains(id) <==> (old(self).refs().contains(id) && id != promise_id),
            !r ==> final(self).ready_ref() == old(self).ready_ref() && final(self).ready_unref()
                == old(self).ready_unref(),
            r && old(self).refs().contains(promise_id) ==> final(self).ready_ref() == old(
                self,
            ).ready_ref().push((promise_id, result)) && final(self).ready_unref() == old(
                self,
            ).ready_unref(),
            r && old(self).unrefs().contains(promise_id) ==> final(self).ready_unref() == old(
                self,
            ).ready_unref().push((promise_id, result)) && final(self).ready_ref() == old(
                self,
            ).ready_ref(),
    {
        match index_of_id(&self.refs, promise_id) {
            Some(i) => {
                proof {
                    lemma_remove_distinct(self.refs@, i as int);
                }
                self.refs.remove(i);
                self.ready_ref.push((promise_id, result));
                return true;
            },
            None => {},
        }
        match index_of_id(&self.unrefs, promise_id) {
            Some(i) => {
                proof {
                    lemma_remove_distinct(self.unrefs@, i as int);
                }
                self.unrefs.remove(i);
                self.ready_unref.push((promise_id, result));
                true
            },
            None => false,
        }
    }

    /// Hands out every waiting result: those of `Ref` ops first, then those
    /// of `Unref` ops, each in order of arrival. Both queues are left empty.
    pub fn poll_completed(&mut self) -> (r: Vec<(u64, OpResult)>)
        requires
            old(self).wf(),
        ensures
            final(self).wf(),
            r@ == old(self).ready_ref() + old(self).ready_unref(),
            final(self).ready_ref() == Seq::<(u64, OpResult)>::empty(),
            final(self).ready_unref() == Seq::<(u64, OpResult)>::empty(),
            final(self).refs() == old(self).refs(),
            final(self).unrefs() == old(self).unrefs(),
    {
        let mut out: Vec<(u64, OpResult)> = Vec::new();
        std::mem::swap(&mut out, &mut self.ready_ref);
        let mut rest: Vec<(u64, OpResult)> = Vec::new();
        std::mem::swap(&mut rest, &mut self.ready_unref);
        out.append(&mut rest);
        out
    }

    /// Whether an outstanding `Ref` op keeps the loop alive.
    pub fn has_pending_ops(&self) -> (r: bool)
        ensures
            r == (self.refs().len() > 0),
    {
        self.refs.len() > 0
    }
}

} // verus!
