//! Bookkeeping of dynamic `import()` calls: each load id is handed out once
//! and then settled once, either completed with a module id or failed.
use vstd::prelude::*;
use crate::error::RuntimeError;
use crate::ops::{distinct_ids, index_of_id, lemma_remove_distinct};

verus! {

/// How a dynamic import ended.
#[derive(Debug, Clone, Copy, PartialEq, Eq, Structural)]
pub enum Settlement {
    /// The promise was resolved with the namespace of this module.
    Completed(usize),
    /// The promise was rejected with this error.
    Failed(RuntimeError),
}

/// The mathematical model of a `DynamicImportTracker`.
pub ghost struct ImportLedger {
    /// The next load id to hand out; every smaller id has been handed out.
    pub next_id: nat,
    /// Load ids handed out and not yet settled.
    pub pending: Seq<u64>,
    /// Settled load ids with their outcome, in order of settlement.
    pub settled: Seq<(u64, Settlement)>,
}

impl ImportLedger {
    pub open spec fn settled_ids(self) -> Seq<u64> {
        self.settled.map_values(|e: (u64, Settlement)| e.0)
    }

    pub open spec fn wf(self) -> bool {
        &&& distinct_ids(self.pending)
        &&& distinct_ids(self.settled_ids())
        &&& forall|id: u64| self.pending.contains(id) ==> !self.settled_ids().contains(id)
        &&& forall|id: u64| (self.pending.contains(id) || self.settled_ids().contains(id))
            <==> (id as nat) < self.next_id
    }

    /// Whether settling `id` is accepted: it is handed out and not settled.
    pub open spec fn can_settle(self, id: u64) -> bool {
        self.pending.contains(id)
    }

    /// The ledger after settling `id` with `s`; unchanged when not accepted.
    pub open spec fn settle(self, id: u64, s: Settlement) -> ImportLedger {
        if self.can_settle(id) {
            ImportLedger {
                pending: self.pending.remove(self.pending.index_of(id)),
                settled: self.settled.push((id, s)),
                ..self
            }
        } else {
            self
        }
    }

    /// The ledger after handing out the next id.
    pub open spec fn begin(self) -> ImportLedger {
        ImportLedger { next_id: self.next_id + 1, pending: self.pending.push(self.next_id as u64), ..self }
    }
}

pub proof fn lemma_settle_wf(l: ImportLedger, id: u64, s: Settlement)
    requires
        l.wf(),
        l.can_settle(id),
    ensures
        l.settle(id, s).wf(),
        !l.settle(id, s).can_settle(id),
        l.settle(id, s).settled.last() == (id, s),
        l.settle(id, s).next_id == l.next_id,
        forall|x: u64| x != id ==> (l.settle(id, s).pending.contains(x) <==> l.pending.contains(x)),
{
    let h = l.settle(id, s);
    let k = l.pending.index_of(id);
    assert(l.pending[k] == id);
    lemma_remove_distinct(l.pending, k);
    assert(h.settled_ids() =~= l.settled_ids().push(id));
    assert forall|i: int, j: int| 0 <= i < h.settled_ids().len() && 0 <= j < h.settled_ids().len() && i != j
        implies h.settled_ids()[i] != h.settled_ids()[j] by {
        let n = l.settled_ids().len() as int;
        if i == n {
            assert(l.settled_ids().contains(l.settled_ids()[j]));
        } else if j == n {
            assert(l.settled_ids().contains(l.settled_ids()[i]));
        }
    }
    assert forall|x: u64| h.settled_ids().contains(x) <==> (l.settled_ids().contains(x) || x == id) by {
        if h.settled_ids().contains(x) {
            let i = choose|i: int| 0 <= i < h.settled_ids().len() && h.settled_ids()[i] == x;
            if i < l.settled_ids().len() {
                assert(l.settled_ids()[i] == x);
            }
        }
        if l.settled_ids().contains(x) {
            let i = choose|i: int| 0 <= i < l.settled_ids().len() && l.settled_ids()[i] == x;
            assert(h.settled_ids()[i] == x);
        }
        if x == id {
            assert(h.settled_ids()[l.settled_ids().len() as int] == x);
        }
    }
    assert forall|x: u64| h.pending.contains(x) implies !h.settled_ids().contains(x) by {}
    assert forall|x: u64| (h.pending.contains(x) || h.settled_ids().contains(x)) <==> (x as nat)
        < h.next_id by {
        if x == id {
            assert(l.pending.contains(x));
        }
    }
}

/// A load id that has been handed out is settled by exactly one call: the
/// first settlement is accepted, and every later one, completion or failure,
/// is refused and changes nothing.
pub proof fn law_settle_exactly_once(l: ImportLedger, id: u64, first: Settlement, second: Settlement)
    requires
        l.wf(),
        l.can_settle(id),
    ensures
        l.settle(id, first).wf(),
        l.settle(id, first).settled.last() == (id, first),
        !l.settle(id, first).can_settle(id),
        l.settle(id, first).settle(id, second) == l.settle(id, first),
{
    lemma_settle_wf(l, id, first);
}

/// Tracks dynamic imports from `begin` to their settlement.
pub struct DynamicImportTracker {
    next_id: u64,
    pending: Vec<u64>,
    settled: Vec<(u64, Settlement)>,
}

impl DynamicImportTracker {
    pub closed spec fn view(&self) -> ImportLedger {
        ImportLedger { next_id: self.next_id as nat, pending: self.pending@, settled: self.settled@ }
    }

    pub open spec fn wf(&self) -> bool {
        self@.wf()
    }

    /// No load handed out yet.
    pub fn new() -> (r: Self)
        ensures
            r.wf(),
            r@ == (ImportLedger { next_id: 0, pending: Seq::empty(), settled: Seq::empty() }),
    {
        let r = DynamicImportTracker { next_id: 0, pending: Vec::new(), settled: Vec::new() };
        assert(r@.settled_ids() =~= Seq::<u64>::empty());
        r
    }

    /// Hands out a fresh load id, pending until settled.
    pub fn begin(&mut self) -> (r: u64)
        requires
            old(self).wf(),
            old(self)@.next_id < u64::MAX,
        ensures
            final(self).wf(),
            r as nat == old(self)@.next_id,
            final(self)@ == old(self)@.begin(),
    {
        let id = self.next_id;
        proof {
            assert(!self@.pending.contains(id)) by {
                if self@.pending.contains(id) {
                    assert((id as nat) < self@.next_id);
                }
            }
            assert(!self@.settled_ids().contains(id)) by {
                if self@.settled_ids().contains(id) {
                    assert((id as nat) < self@.next_id);
                }
            }
        }
        self.pending.push(id);
        self.next_id = id + 1;
        proof {
            let h = self@;
            let l = old(self)@;
            assert forall|i: int, j: int| 0 <= i < h.pending.len() && 0 <= j < h.pending.len() && i != j
                implies h.pending[i] != h.pending[j] by {
                if i == l.pending.len() {
                    assert(l.pending.contains(l.pending[j]));
                } else if j == l.pending.len() {
                    assert(l.pending.contains(l.pending[i]));
                }
            }
            assert forall|x: u64| h.pending.contains(x) <==> (l.pending.contains(x) || x == id) by {
                if h.pending.contains(x) {
                    let i = choose|i: int| 0 <= i < h.pending.len() && h.pending[i] == x;
                    if i < l.pending.len() {
                        assert(l.pending[i] == x);
                    }
                }
                if l.pending.contains(x) {
                    let i = choose|i: int| 0 <= i < l.pending.len() && l.pending[i] == x;
                    assert(h.pending[i] == x);
                }
                if x == id {
                    assert(h.pending[l.pending.len() as int] == x);
                }
            }
        }
        id
    }

    fn settle(&mut self, load_id: u64, s: Settlement) -> (r: bool)
        requires
            old(self).wf(),
        ensures
            final(self).wf(),
            r == old(self)@.can_settle(load_id),
            final(self)@ == old(self)@.settle(load_id, s),
    {
        match index_of_id(&self.pending, load_id) {
            Some(i) => {
                proof {
                    lemma_settle_wf(self@, load_id, s);
                    lemma_remove_distinct(self@.pending, i as int);
                    assert(self@.pending.index_of(load_id) == i) by {
                        assert(self@.pending.contains(load_id));
                        let k = self@.pending.index_of(load_id);
                        assert(self@.pending[k] == load_id);
                    }
                }
                self.pending.remove(i);
                self.settled.push((load_id, s));
                true
            },
            None => false,
        }
    }

    /// Resolves the import `load_id` with the namespace of `module_id`.
    /// Refused (`false`, nothing changed) unless `load_id` is pending.
    pub fn complete(&mut self, load_id: u64, module_id: usize) -> (r: bool)
        requires
            old(self).wf(),
        ensures
            final(self).wf(),
            r == old(self)@.can_settle(load_id),
            final(self)@ == old(self)@.settle(load_id, Settlement::Completed(module_id)),
    {
        self.settle(load_id, Settlement::Completed(module_id))
    }

    /// Rejects the import `load_id` with `error`. Refused (`false`, nothing
    /// changed) unless `load_id` is pending.
    pub fn fail(&mut self, load_id: u64, error: RuntimeError) -> (r: bool)
        requires
            old(self).wf(),
        ensures
            final(self).wf(),
            r == old(self)@.can_settle(load_id),
            final(self)@ == old(self)@.settle(load_id, Settlement::Failed(error)),
    {
        self.settle(load_id, Settlement::Failed(error))
    }

    /// Whether `load_id` is handed out and not yet settled.
    pub fn is_pending(&self, load_id: u64) -> (r: bool)
        requires
            self.wf(),
        ensures
            r == self@.can_settle(load_id),
    {
        index_of_id(&self.pending, load_id).is_some()
    }

    /// The outcome of `load_id`, once settled.
    pub fn settlement(&self, load_id: u64) -> (r: Option<Settlement>)
        requires
            self.wf(),
        ensures
            r is None <==> !self@.settled_ids().contains(load_id),
            r matches Some(s) ==> self@.settled.contains((load_id, s)),
    {
        let mut i: usize = 0;
        while i < self.settled.len()
            invariant
                i <= self.settled@.len(),
                forall|k: int| 0 <= k < i ==> self.settled@[k].0 != load_id,
            decreases self.settled@.len() - i,
        {
            if self.settled[i].0 == load_id {
                assert(self@.settled[i as int] == (load_id, self.settled@[i as int].1));
                assert(self@.settled_ids()[i as int] == load_id);
                return Some(self.settled[i].1);
            }
            i = i + 1;
        }
        proof {
            if self@.settled_ids().contains(load_id) {
                let k = choose|k: int| 0 <= k < self@.settled_ids().len() && self@.settled_ids()[k] == load_id;
                assert(self.settled@[k].0 == load_id);
            }
        }
        None
    }
}

} // verus!
