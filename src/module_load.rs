//! The recursive module load: fetches a root module, then every module it
//! reaches that is not yet registered, each once, in source import order.
//! The host fetches and compiles what `next_request` names and hands the
//! result to `module_loaded`; the load registers it and queues its imports.
use vstd::prelude::*;
use crate::error::RuntimeError;
use crate::module_map::{ModuleGraph, ModuleMap};
use crate::text::{chars_of, copy_text};

verus! {

/// What started a load.
#[derive(Debug, Clone, Copy, PartialEq, Eq, Structural)]
pub enum LoadKind {
    /// The entry module of the runtime.
    Main,
    /// A dynamic `import()` from script.
    DynamicImport,
}

/// Where a load stands. It only moves forward.
#[derive(Debug, Clone, Copy, PartialEq, Eq, Structural)]
pub enum LoadState {
    LoadingRoot,
    LoadingImports,
    Done,
}

/// The rank of a state in its forward order.
pub open spec fn rank(s: LoadState) -> nat {
    match s {
        LoadState::LoadingRoot => 0,
        LoadState::LoadingImports => 1,
        LoadState::Done => 2,
    }
}

/// A fetch to make: a specifier, and the module that imports it (none for
/// the root).
pub type Request = (Seq<char>, Seq<char>);

/// Queues, in order, each of `imports` that is neither known to `g` nor
/// queued before, with `referrer` as the importing module.
pub open spec fn enqueue(
    g: ModuleGraph,
    pending: Seq<Request>,
    queued: Seq<Seq<char>>,
    referrer: Seq<char>,
    imports: Seq<Seq<char>>,
) -> (Seq<Request>, Seq<Seq<char>>)
    decreases imports.len(),
{
    if imports.len() == 0 {
        (pending, queued)
    } else {
        let pq = enqueue(g, pending, queued, referrer, imports.drop_last());
        let x = imports.last();
        if g.known(x) || pq.1.contains(x) {
            pq
        } else {
            (pq.0.push((x, referrer)), pq.1.push(x))
        }
    }
}

/// Queueing never repeats itself: what `enqueue` adds to `queued` are
/// specifiers that were neither known nor queued before, each once, and it
/// adds to `pending` exactly those, in the same order. So within one load no
/// module is fetched twice, however its imports cycle.
pub proof fn law_enqueue_fresh(
    g: ModuleGraph,
    pending: Seq<Request>,
    queued: Seq<Seq<char>>,
    referrer: Seq<char>,
    imports: Seq<Seq<char>>,
)
    requires
        crate::op_table::distinct_names(queued),
    ensures
        ({
            let (p2, q2) = enqueue(g, pending, queued, referrer, imports);
            &&& crate::op_table::distinct_names(q2)
            &&& q2.len() >= queued.len()
            &&& q2.subrange(0, queued.len() as int) == queued
            &&& p2.len() == pending.len() + (q2.len() - queued.len())
            &&& p2.subrange(0, pending.len() as int) == pending
            &&& forall|k: int| queued.len() <= k < q2.len() ==> !g.known(#[trigger] q2[k])
                && p2[pending.len() + k - queued.len()] == (q2[k], referrer)
        }),
    decreases imports.len(),
{
    if imports.len() > 0 {
        law_enqueue_fresh(g, pending, queued, referrer, imports.drop_last());
        let (p1, q1) = enqueue(g, pending, queued, referrer, imports.drop_last());
        let x = imports.last();
        if !(g.known(x) || q1.contains(x)) {
            let p2 = p1.push((x, referrer));
            let q2 = q1.push(x);
            assert(q2.subrange(0, queued.len() as int) =~= q1.subrange(0, queued.len() as int));
            assert(p2.subrange(0, pending.len() as int) =~= p1.subrange(0, pending.len() as int));
            assert forall|i: int, j: int| 0 <= i < q2.len() && 0 <= j < q2.len() && i != j
                implies q2[i] != q2[j] by {
                if i == q1.len() {
                    assert(q1.contains(q1[j]));
                } else if j == q1.len() {
                    assert(q1.contains(q1[i]));
                }
            }
        }
    }
}

/// One load of a module graph.
pub struct RecursiveModuleLoad {
    id: u64,
    kind: LoadKind,
    state: LoadState,
    root: Vec<char>,
    root_module_id: Option<usize>,
    pending: Vec<(Vec<char>, Vec<char>)>,
    queued: Vec<Vec<char>>,
    error: Option<RuntimeError>,
}

impl RecursiveModuleLoad {
    pub closed spec fn id(&self) -> u64 {
        self.id
    }

    pub closed spec fn kind(&self) -> LoadKind {
        self.kind
    }

    pub closed spec fn state(&self) -> LoadState {
        self.state
    }

    pub closed spec fn root(&self) -> Seq<char> {
        self.root@
    }

    pub closed spec fn root_module_id(&self) -> Option<usize> {
        self.root_module_id
    }

    /// Fetches still to make, in order.
    pub closed spec fn pending(&self) -> Seq<Request> {
        self.pending@.map_values(|p: (Vec<char>, Vec<char>)| (p.0@, p.1@))
    }

    /// Every specifier this load has queued for fetching.
    pub closed spec fn queued(&self) -> Seq<Seq<char>> {
        self.queued@.map_values(|v: Vec<char>| v@)
    }

    /// The error that aborted the load, if any.
    pub closed spec fn error(&self) -> Option<RuntimeError> {
        self.error
    }

    pub open spec fn wf(&self) -> bool {
        &&& self.state() == LoadState::LoadingRoot ==> self.pending().len() == 0
            && self.root_module_id() is None && self.error() is None
        &&& self.state() == LoadState::LoadingImports ==> self.pending().len() > 0
            && self.root_module_id() is Some && self.error() is None
        &&& self.state() == LoadState::Done ==> self.pending().len() == 0
        &&& self.error() is None && self.state() == LoadState::Done ==> self.root_module_id() is Some
    }

    /// A load of `root`, which has fetched nothing yet.
    pub fn new(id: u64, kind: LoadKind, root: &str) -> (r: Self)
        ensures
            r.wf(),
            r.id() == id,
            r.kind() == kind,
            r.state() == LoadState::LoadingRoot,
            r.root() == root@,
            r.root_module_id() is None,
            r.pending() == Seq::<Request>::empty(),
            r.queued() == Seq::<Seq<char>>::empty(),
            r.error() is None,
    {
        let r = RecursiveModuleLoad {
            id,
            kind,
            state: LoadState::LoadingRoot,
            root: chars_of(root),
            root_module_id: None,
            pending: Vec::new(),
            queued: Vec::new(),
            error: None,
        };
        assert(r.pending() =~= Seq::<Request>::empty());
        assert(r.queued() =~= Seq::<Seq<char>>::empty());
        r
    }

    /// The load's id.
    pub fn get_id(&self) -> (r: u64)
        ensures
            r == self.id(),
    {
        self.id
    }

    /// Where the load stands.
    pub fn get_state(&self) -> (r: LoadState)
        ensures
            r == self.state(),
    {
        self.state
    }

    /// The id of the root module, once it is registered.
    pub fn get_root_module_id(&self) -> (r: Option<usize>)
        ensures
            r == self.root_module_id(),
    {
        self.root_module_id
    }

    /// The error that aborted the load, if any.
    pub fn get_error(&self) -> (r: Option<RuntimeError>)
        ensures
            r == self.error(),
    {
        self.error
    }

    /// Whether the load is over, completed or aborted.
    pub fn is_done(&self) -> (r: bool)
        ensures
            r == (self.state() == LoadState::Done),
    {
        self.state == LoadState::Done
    }

    /// The next fetch to make: the root while it is loading, else the oldest
    /// queued import; `None` once the load is over.
    pub fn next_request(&self) -> (r: Option<(Vec<char>, Vec<char>)>)
        requires
            self.wf(),
        ensures
            self.state() == LoadState::Done ==> r is None,
            self.state() == LoadState::LoadingRoot ==> (r matches Some(q) && q.0@ == self.root()
                && q.1@ == Seq::<char>::empty()),
            self.state() == LoadState::LoadingImports ==> (r matches Some(q) && (q.0@, q.1@)
                == self.pending()[0]),
    {
        match self.state {
            LoadState::Done => None,
            LoadState::LoadingRoot => Some((copy_text(&self.root), Vec::new())),
            LoadState::LoadingImports => {
                let q = &self.pending[0];
                Some((copy_text(&q.0), copy_text(&q.1)))
            },
        }
    }

    /// The module fetched for the current request arrived, compiled, as
    /// `specifier` with the resolved specifiers it imports. A module not yet
    /// known is registered (as the entry module when it is the root of a
    /// `Main` load) and each of its imports that is neither known nor queued
    /// before is queued behind the others, in source order; a known one is
    /// not fetched twice and its imports are not queued again. The load is
    /// `Done` when nothing is left to fetch. Returns the module's id.
    pub fn module_loaded(&mut self, map: &mut ModuleMap, specifier: &str, imports: &[&str]) -> (r: usize)
        requires
            old(self).wf(),
            old(self).state() != LoadState::Done,
            old(map).wf(),
        ensures
            final(map).wf(),
            final(self).wf(),
            final(map)@ == old(map)@.register(
                specifier@,
                old(self).kind() == LoadKind::Main && old(self).state() == LoadState::LoadingRoot,
                imports@.map_values(|t: &str| t@),
            ),
            final(map)@.lookup(specifier@) == Some(r as nat),
            old(self).state() == LoadState::LoadingRoot ==> final(self).root_module_id() == Some(r),
            old(self).state() == LoadState::LoadingImports ==> final(self).root_module_id() == old(
                self,
            ).root_module_id(),
            (final(self).pending(), final(self).queued()) == if old(map)@.known(specifier@) {
                (Self::remaining(*old(self)), old(self).queued())
            } else {
                enqueue(
                    final(map)@,
                    Self::remaining(*old(self)),
                    old(self).queued(),
                    specifier@,
                    imports@.map_values(|t: &str| t@),
                )
            },
            final(self).state() == if final(self).pending().len() == 0 {
                LoadState::Done
            } else {
                LoadState::LoadingImports
            },
            rank(old(self).state()) < rank(final(self).state()) || final(self).state() == old(
                self,
            ).state(),
            final(self).id() == old(self).id(),
            final(self).kind() == old(self).kind(),
            final(self).root() == old(self).root(),
            final(self).error() == old(self).error(),
    {
        let key = chars_of(specifier);
        let found = map.lookup_chars(&key);
        let is_main = self.kind == LoadKind::Main && self.state == LoadState::LoadingRoot;
        let ghost g0 = map@;
        let ghost imps = imports@.map_values(|t: &str| t@);
        let id = match found {
            Some(id) => id,
            None => {
                let id = map.len();
                let _ = map.register(specifier, is_main, imports);
                proof {
                    let g = map@;
                    assert(g.specs[id as int] == key@);
                    crate::module_map::lemma_index_of_distinct(g.specs, id as int);
                }
                id
            },
        };
        if self.state == LoadState::LoadingImports {
            self.pending.remove(0);
            proof {
                assert(self.pending() =~= old(self).pending().drop_first());
            }
        }
        if found.is_none() {
            let kids = ModuleMap::texts_of(imports);
            let mut i: usize = 0;
            while i < kids.len()
                invariant
                    map.wf(),
                    kids@.map_values(|v: Vec<char>| v@) == imps,
                    i <= kids@.len(),
                    key@ == specifier@,
                    self.id == old(self).id,
                    self.kind == old(self).kind,
                    self.root@ == old(self).root@,
                    self.error == old(self).error,
                    self.state == old(self).state,
                    self.root_module_id == old(self).root_module_id,
                    (self.pending(), self.queued()) == enqueue(
                        map@,
                        Self::remaining(*old(self)),
                        old(self).queued(),
                        key@,
                        imps.subrange(0, i as int),
                    ),
                decreases kids@.len() - i,
            {
                let x = &kids[i];
                proof {
                    assert(imps.subrange(0, i + 1).drop_last() =~= imps.subrange(0, i as int));
                    assert(imps.subrange(0, i + 1).last() == x@);
                }
                let is_known = map.lookup_chars(x).is_some();
                let pos = ModuleMap::position_in(&self.queued, x);
                if !is_known && pos.is_none() {
                    proof {
                        assert(!map@.known(x@));
                    }
                    let ghost p0 = self.pending();
                    let ghost q0 = self.queued();
                    self.pending.push((copy_text(x), copy_text(&key)));
                    self.queued.push(copy_text(x));
                    proof {
                        assert(self.pending() =~= p0.push((x@, key@)));
                        assert(self.queued() =~= q0.push(x@));
                    }
                } else {
                    proof {
                        if !is_known {
                            let j = pos.unwrap();
                            assert(self.queued()[j as int] == x@);
                            assert(self.queued().contains(x@));
                        }
                    }
                }
                i = i + 1;
            }
            proof {
                assert(imps.subrange(0, i as int) =~= imps);
            }
        }
        if self.state == LoadState::LoadingRoot {
            self.root_module_id = Some(id);
        }
        if self.pending.len() == 0 {
            self.state = LoadState::Done;
        } else {
            self.state = LoadState::LoadingImports;
        }
        id
    }

    /// The fetches left once the current one is answered.
    pub open spec fn remaining(l: Self) -> Seq<Request> {
        if l.state() == LoadState::LoadingImports {
            l.pending().drop_first()
        } else {
            l.pending()
        }
    }

    /// Before the root is fetched: when `map` already knows the root, the
    /// load is over at once with that module as its root and nothing is
    /// fetched (`true`); otherwise nothing changes (`false`).
    pub fn reuse_registered_root(&mut self, map: &ModuleMap) -> (r: bool)
        requires
            old(self).wf(),
            old(self).state() == LoadState::LoadingRoot,
            map.wf(),
        ensures
            final(self).wf(),
            r == map@.known(old(self).root()),
            r ==> final(self).state() == LoadState::Done,
            r ==> (final(self).root_module_id() matches Some(i) && map@.lookup(old(self).root())
                == Some(i as nat)),
            !r ==> *final(self) == *old(self),
            final(self).pending() == old(self).pending(),
            final(self).queued() == old(self).queued(),
            final(self).id() == old(self).id(),
            final(self).kind() == old(self).kind(),
            final(self).root() == old(self).root(),
            final(self).error() == old(self).error(),
    {
        match map.lookup_chars(&self.root) {
            Some(id) => {
                self.root_module_id = Some(id);
                self.state = LoadState::Done;
                true
            },
            None => false,
        }
    }

    /// A fetch or compile failed with `error`: the whole load is aborted.
    pub fn fail(&mut self, error: RuntimeError)
        requires
            old(self).wf(),
            old(self).state() != LoadState::Done,
        ensures
            final(self).wf(),
            final(self).state() == LoadState::Done,
            final(self).error() == Some(error),
            final(self).pending() == Seq::<Request>::empty(),
            final(self).root_module_id() == old(self).root_module_id(),
            final(self).queued() == old(self).queued(),
            final(self).id() == old(self).id(),
            final(self).kind() == old(self).kind(),
            final(self).root() == old(self).root(),
    {
        self.state = LoadState::Done;
        self.error = Some(error);
        self.pending = Vec::new();
        assert(self.pending() =~= Seq::<Request>::empty());
    }
}

} // verus!
