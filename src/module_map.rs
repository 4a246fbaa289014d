//! The module graph registry: canonical specifiers with their ids, the
//! import list of each module, and a one-hop alias table for redirected
//! specifiers.
use vstd::prelude::*;
use crate::error::RuntimeError;
use crate::op_table::distinct_names;
use crate::text::{chars_of, same_text};

verus! {

/// The mathematical model of a `ModuleMap`.
pub ghost struct ModuleGraph {
    /// Canonical specifier of each module, indexed by module id.
    pub specs: Seq<Seq<char>>,
    /// Whether each module is an entry module.
    pub mains: Seq<bool>,
    /// The resolved import specifiers of each module, in source order.
    pub imports: Seq<Seq<Seq<char>>>,
    /// Alias specifiers, and the module id each one redirects to.
    pub alias_from: Seq<Seq<char>>,
    pub alias_to: Seq<nat>,
}

impl ModuleGraph {
    pub open spec fn empty() -> ModuleGraph {
        ModuleGraph {
            specs: Seq::empty(),
            mains: Seq::empty(),
            imports: Seq::empty(),
            alias_from: Seq::empty(),
            alias_to: Seq::empty(),
        }
    }

    pub open spec fn wf(self) -> bool {
        &&& self.mains.len() == self.specs.len()
        &&& self.imports.len() == self.specs.len()
        &&& self.alias_to.len() == self.alias_from.len()
        &&& distinct_names(self.specs)
        &&& distinct_names(self.alias_from)
        &&& forall|j: int| 0 <= j < self.alias_from.len() ==> !self.specs.contains(
            #[trigger] self.alias_from[j],
        )
        &&& forall|j: int| 0 <= j < self.alias_to.len() ==> #[trigger] self.alias_to[j]
            < self.specs.len()
    }

    /// `s` is a canonical specifier or an alias.
    pub open spec fn known(self, s: Seq<char>) -> bool {
        self.specs.contains(s) || self.alias_from.contains(s)
    }

    /// The module id that `s` names: its own if canonical, else the one its
    /// alias points at.
    pub open spec fn lookup(self, s: Seq<char>) -> Option<nat> {
        if self.specs.contains(s) {
            Some(self.specs.index_of(s) as nat)
        } else if self.alias_from.contains(s) {
            Some(self.alias_to[self.alias_from.index_of(s)])
        } else {
            None
        }
    }

    /// Ids of those of `imports` that are known, in order.
    pub open spec fn known_ids(self, imports: Seq<Seq<char>>) -> Seq<nat>
        decreases imports.len(),
    {
        if imports.len() == 0 {
            Seq::empty()
        } else {
            let rest = self.known_ids(imports.drop_last());
            match self.lookup(imports.last()) {
                Some(i) => rest.push(i),
                None => rest,
            }
        }
    }

    /// The ids of the modules that module `id` imports and that are known.
    pub open spec fn children(self, id: nat) -> Seq<nat> {
        self.known_ids(self.imports[id as int])
    }

    pub open spec fn register_result(self, s: Seq<char>) -> Result<nat, RuntimeError> {
        if self.known(s) {
            Err(RuntimeError::DuplicateModule)
        } else {
            Ok(self.specs.len())
        }
    }

    /// The graph after registering `s`; unchanged when the registration is refused.
    pub open spec fn register(self, s: Seq<char>, main: bool, imports: Seq<Seq<char>>) -> ModuleGraph {
        if self.known(s) {
            self
        } else {
            ModuleGraph {
                specs: self.specs.push(s),
                mains: self.mains.push(main),
                imports: self.imports.push(imports),
                ..self
            }
        }
    }

    pub open spec fn alias_result(self, from: Seq<char>, to: Seq<char>) -> Result<(), RuntimeError> {
        if !self.known(to) {
            Err(RuntimeError::ModuleResolutionError)
        } else if self.known(from) {
            Err(RuntimeError::DuplicateModule)
        } else {
            Ok(())
        }
    }

    /// The graph after redirecting `from` to the module `to` names; unchanged
    /// when refused.
    pub open spec fn alias(self, from: Seq<char>, to: Seq<char>) -> ModuleGraph {
        if self.alias_result(from, to) is Ok {
            ModuleGraph {
                alias_from: self.alias_from.push(from),
                alias_to: self.alias_to.push(self.lookup(to).unwrap()),
                ..self
            }
        } else {
            self
        }
    }
}

/// Distinct entries have distinct indices: the one holding `s` is `index_of(s)`.
pub proof fn lemma_index_of_distinct(names: Seq<Seq<char>>, i: int)
    requires
        distinct_names(names),
        0 <= i < names.len(),
    ensures
        names.contains(names[i]),
        names.index_of(names[i]) == i,
{
    assert(names.contains(names[i]));
}

/// Registers each entry (specifier, entry flag, imports) in turn; `None` as
/// soon as one registration is refused.
pub open spec fn register_all(g: ModuleGraph, entries: Seq<(Seq<char>, bool, Seq<Seq<char>>)>) -> Option<
    ModuleGraph,
>
    decreases entries.len(),
{
    if entries.len() == 0 {
        Some(g)
    } else {
        match register_all(g, entries.drop_last()) {
            Some(h) => {
                let e = entries.last();
                if h.register_result(e.0) is Ok {
                    Some(h.register(e.0, e.1, e.2))
                } else {
                    None
                }
            },
            None => None,
        }
    }
}

/// Registering a specifier that has just been registered is always refused
/// with `DuplicateModule`, whatever the two calls' imports.
pub proof fn law_register_twice(
    g: ModuleGraph,
    s: Seq<char>,
    main: bool,
    imports: Seq<Seq<char>>,
)
    ensures
        g.register(s, main, imports).register_result(s) == Err::<nat, RuntimeError>(
            RuntimeError::DuplicateModule,
        ),
{
    if !g.known(s) {
        let h = g.register(s, main, imports);
        assert(h.specs[h.specs.len() - 1] == s);
        assert(h.specs.contains(s));
    }
}

/// Registering pairwise distinct specifiers that are not yet known never
/// fails, whatever each one imports.
pub proof fn law_register_distinct(
    g: ModuleGraph,
    entries: Seq<(Seq<char>, bool, Seq<Seq<char>>)>,
)
    requires
        forall|i: int, j: int| 0 <= i < entries.len() && 0 <= j < entries.len() && i != j
            ==> entries[i].0 != entries[j].0,
        forall|i: int| 0 <= i < entries.len() ==> !g.known(#[trigger] entries[i].0),
    ensures
        register_all(g, entries) is Some,
        forall|s: Seq<char>| register_all(g, entries).unwrap().known(s) <==> (g.known(s) || exists|i: int|
            0 <= i < entries.len() && entries[i].0 == s),
    decreases entries.len(),
{
    if entries.len() > 0 {
        let init = entries.drop_last();
        law_register_distinct(g, init);
        let h = register_all(g, init).unwrap();
        let e = entries.last();
        let n = entries.len() - 1;
        assert(!h.known(e.0)) by {
            assert(!g.known(entries[n].0));
            if exists|i: int| 0 <= i < init.len() && init[i].0 == e.0 {
                let i = choose|i: int| 0 <= i < init.len() && init[i].0 == e.0;
                assert(entries[i].0 == entries[n].0);
            }
        }
        let h2 = h.register(e.0, e.1, e.2);
        assert forall|s: Seq<char>| h2.known(s) <==> (g.known(s) || exists|i: int|
            0 <= i < entries.len() && entries[i].0 == s) by {
            assert(h2.specs == h.specs.push(e.0));
            if h2.specs.contains(s) && s != e.0 {
                let k = choose|k: int| 0 <= k < h2.specs.len() && h2.specs[k] == s;
                assert(h.specs[k] == s);
            }
            if h.specs.contains(s) {
                let k = choose|k: int| 0 <= k < h.specs.len() && h.specs[k] == s;
                assert(h2.specs[k] == s);
            }
            if s == e.0 {
                assert(h2.specs[h.specs.len() as int] == s);
                assert(entries[n].0 == s);
            }
            if exists|i: int| 0 <= i < entries.len() && entries[i].0 == s {
                let i = choose|i: int| 0 <= i < entries.len() && entries[i].0 == s;
                if i < n {
                    assert(init[i].0 == s);
                }
            }
            if exists|i: int| 0 <= i < init.len() && init[i].0 == s {
                let i = choose|i: int| 0 <= i < init.len() && init[i].0 == s;
                assert(entries[i].0 == s);
            }
        }
    } else {
        assert forall|s: Seq<char>| register_all(g, entries).unwrap().known(s) <==> (g.known(s)
            || exists|i: int| 0 <= i < entries.len() && entries[i].0 == s) by {}
    }
}

/// After `x` is aliased to a known `y`, both name the module `y` named before.
pub proof fn law_alias_transparent(g: ModuleGraph, x: Seq<char>, y: Seq<char>)
    requires
        g.wf(),
        g.known(y),
        !g.known(x),
    ensures
        g.alias(x, y).lookup(x) == g.alias(x, y).lookup(y),
        g.alias(x, y).lookup(y) == g.lookup(y),
        g.alias(x, y).lookup(y) is Some,
{
    let h = g.alias(x, y);
    let n = g.alias_from.len() as int;
    assert(h.alias_from == g.alias_from.push(x));
    assert(h.specs == g.specs);
    assert(distinct_names(h.alias_from)) by {
        assert forall|i: int, j: int| 0 <= i < h.alias_from.len() && 0 <= j < h.alias_from.len() && i != j
            implies h.alias_from[i] != h.alias_from[j] by {
            if i == n {
                assert(g.alias_from.contains(g.alias_from[j]));
            } else if j == n {
                assert(g.alias_from.contains(g.alias_from[i]));
            }
        }
    }
    assert(h.alias_from[n] == x);
    lemma_index_of_distinct(h.alias_from, n);
    if !g.specs.contains(y) {
        let k = g.alias_from.index_of(y);
        assert(g.alias_from[k] == y);
        assert(h.alias_from[k] == y);
        lemma_index_of_distinct(h.alias_from, k);
        lemma_index_of_distinct(g.alias_from, k);
    }
}

/// Registry of the module graph of one runtime.
pub struct ModuleMap {
    specs: Vec<Vec<char>>,
    mains: Vec<bool>,
    imports: Vec<Vec<Vec<char>>>,
    alias_from: Vec<Vec<char>>,
    alias_to: Vec<usize>,
}

impl ModuleMap {
    pub closed spec fn view(&self) -> ModuleGraph {
        ModuleGraph {
            specs: self.specs@.map_values(|v: Vec<char>| v@),
            mains: self.mains@,
            imports: self.imports@.map_values(
                |vv: Vec<Vec<char>>| vv@.map_values(|v: Vec<char>| v@),
            ),
            alias_from: self.alias_from@.map_values(|v: Vec<char>| v@),
            alias_to: self.alias_to@.map_values(|x: usize| x as nat),
        }
    }

    pub open spec fn wf(&self) -> bool {
        self@.wf()
    }

    /// An empty registry.
    pub fn new() -> (r: Self)
        ensures
            r.wf(),
            r@ == ModuleGraph::empty(),
    {
        let r = ModuleMap {
            specs: Vec::new(),
            mains: Vec::new(),
            imports: Vec::new(),
            alias_from: Vec::new(),
            alias_to: Vec::new(),
        };
        assert(r@.specs =~= Seq::<Seq<char>>::empty());
        assert(r@.mains =~= Seq::<bool>::empty());
        assert(r@.imports =~= Seq::<Seq<Seq<char>>>::empty());
        assert(r@.alias_from =~= Seq::<Seq<char>>::empty());
        assert(r@.alias_to =~= Seq::<nat>::empty());
        r
    }

    /// Number of registered modules.
    pub fn len(&self) -> (r: usize)
        requires
            self.wf(),
        ensures
            r == self@.specs.len(),
    {
        self.specs.len()
    }

    pub(crate) fn position_in(names: &Vec<Vec<char>>, s: &Vec<char>) -> (r: Option<usize>)
        ensures
            match r {
                Some(i) => i < names@.len() && names@[i as int]@ == s@,
                None => !names@.map_values(|v: Vec<char>| v@).contains(s@),
            },
    {
        let ghost view = names@.map_values(|v: Vec<char>| v@);
        let mut i: usize = 0;
        while i < names.len()
            invariant
                i <= names@.len(),
                view == names@.map_values(|v: Vec<char>| v@),
                forall|k: int| 0 <= k < i ==> view[k] != s@,
            decreases names@.len() - i,
        {
            if same_text(&names[i], s) {
                return Some(i);
            }
            i = i + 1;
        }
        None
    }

    pub(crate) fn lookup_chars(&self, s: &Vec<char>) -> (r: Option<usize>)
        requires
            self.wf(),
        ensures
            r matches Some(i) ==> self@.lookup(s@) == Some(i as nat),
            r is None ==> self@.lookup(s@) is None,
    {
        match Self::position_in(&self.specs, s) {
            Some(i) => {
                proof {
                    lemma_index_of_distinct(self@.specs, i as int);
                }
                Some(i)
            },
            None => match Self::position_in(&self.alias_from, s) {
                Some(j) => {
                    proof {
                        lemma_index_of_distinct(self@.alias_from, j as int);
                    }
                    Some(self.alias_to[j])
                },
                None => None,
            },
        }
    }

    pub(crate) fn texts_of(items: &[&str]) -> (r: Vec<Vec<char>>)
        ensures
            r@.map_values(|v: Vec<char>| v@) == items@.map_values(|t: &str| t@),
    {
        let mut out: Vec<Vec<char>> = Vec::new();
        let mut i: usize = 0;
        while i < items.len()
            invariant
                i <= items@.len(),
                out@.map_values(|v: Vec<char>| v@) == items@.subrange(0, i as int).map_values(
                    |t: &str| t@,
                ),
            decreases items@.len() - i,
        {
            let t = chars_of(items[i]);
            let ghost prev = out@;
            out.push(t);
            proof {
                assert(out@.map_values(|v: Vec<char>| v@) =~= prev.map_values(|v: Vec<char>| v@).push(
                    items@[i as int]@,
                ));
                assert(items@.subrange(0, i + 1).map_values(|t: &str| t@) =~= items@.subrange(
                    0,
                    i as int,
                ).map_values(|t: &str| t@).push(items@[i as int]@));
            }
            i = i + 1;
        }
        assert(items@.subrange(0, i as int) =~= items@);
        out
    }

    /// Registers a module under `specifier` with the resolved specifiers it
    /// imports, in source order. The new id is the number of modules
    /// registered before; a specifier that is already registered or aliased
    /// is refused with `DuplicateModule` and leaves the registry unchanged.
    pub fn register(&mut self, specifier: &str, main: bool, imports: &[&str]) -> (r: Result<
        usize,
        RuntimeError,
    >)
        requires
            old(self).wf(),
        ensures
            final(self).wf(),
            r matches Ok(id) ==> old(self)@.register_result(specifier@) == Ok::<nat, RuntimeError>(
                id as nat,
            ),
            r matches Err(e) ==> old(self)@.register_result(specifier@) == Err::<nat, RuntimeError>(
                e,
            ),
            final(self)@ == old(self)@.register(
                specifier@,
                main,
                imports@.map_values(|t: &str| t@),
            ),
    {
        let key = chars_of(specifier);
        if self.lookup_chars(&key).is_some() {
            return Err(RuntimeError::DuplicateModule);
        }
        let kids = Self::texts_of(imports);
        let id = self.specs.len();
        proof {
            assert(!self@.specs.contains(key@));
            assert(!self@.alias_from.contains(key@));
        }
        self.specs.push(key);
        self.mains.push(main);
        self.imports.push(kids);
        proof {
            let g = old(self)@.register(specifier@, main, imports@.map_values(|t: &str| t@));
            assert(self@.specs =~= g.specs);
            assert(self@.mains =~= g.mains);
            assert(self@.imports =~= g.imports);
            assert(self@.alias_from =~= g.alias_from);
            assert(self@.alias_to =~= g.alias_to);
            assert forall|j: int| 0 <= j < self@.alias_from.len() implies !self@.specs.contains(
                #[trigger] self@.alias_from[j],
            ) by {
                assert(old(self)@.alias_from.contains(self@.alias_from[j]));
                if self@.specs.contains(self@.alias_from[j]) {
                    let k = choose|k: int| 0 <= k < self@.specs.len() && self@.specs[k] == self@.alias_from[j];
                    if k < old(self)@.specs.len() {
                        assert(old(self)@.specs.contains(self@.alias_from[j]));
                    }
                }
            }
            assert forall|i: int, j: int| 0 <= i < self@.specs.len() && 0 <= j < self@.specs.len() && i != j
                implies self@.specs[i] != self@.specs[j] by {
                if i == old(self)@.specs.len() {
                    assert(old(self)@.specs.contains(old(self)@.specs[j]));
                } else if j == old(self)@.specs.len() {
                    assert(old(self)@.specs.contains(old(self)@.specs[i]));
                }
            }
        }
        Ok(id)
    }

    /// Redirects `from` to the module that `to` names. Refused with
    /// `ModuleResolutionError` when `to` is unknown, and with `DuplicateModule`
    /// when `from` is already registered or aliased; a refusal leaves the
    /// registry unchanged.
    pub fn alias(&mut self, from: &str, to: &str) -> (r: Result<(), RuntimeError>)
        requires
            old(self).wf(),
        ensures
            final(self).wf(),
            r == old(self)@.alias_result(from@, to@),
            final(self)@ == old(self)@.alias(from@, to@),
    {
        let target = chars_of(to);
        let source = chars_of(from);
        let id = match self.lookup_chars(&target) {
            Some(id) => id,
            None => {
                return Err(RuntimeError::ModuleResolutionError);
            },
        };
        if self.lookup_chars(&source).is_some() {
            return Err(RuntimeError::DuplicateModule);
        }
        proof {
            assert(!self@.specs.contains(source@));
            assert(!self@.alias_from.contains(source@));
            if self@.specs.contains(target@) {
                let k = self@.specs.index_of(target@);
                assert(0 <= k < self@.specs.len());
            } else {
                let k = self@.alias_from.index_of(target@);
                assert(0 <= k < self@.alias_from.len());
                assert(self@.alias_to[k] < self@.specs.len());
            }
        }
        self.alias_from.push(source);
        self.alias_to.push(id);
        proof {
            let g = old(self)@.alias(from@, to@);
            assert(self@.specs =~= g.specs);
            assert(self@.mains =~= g.mains);
            assert(self@.imports =~= g.imports);
            assert(self@.alias_from =~= g.alias_from);
            assert(self@.alias_to =~= g.alias_to);
            assert forall|i: int, j: int| 0 <= i < self@.alias_from.len() && 0 <= j < self@.alias_from.len() && i != j
                implies self@.alias_from[i] != self@.alias_from[j] by {
                if i == old(self)@.alias_from.len() {
                    assert(old(self)@.alias_from.contains(old(self)@.alias_from[j]));
                } else if j == old(self)@.alias_from.len() {
                    assert(old(self)@.alias_from.contains(old(self)@.alias_from[i]));
                }
            }
        }
        Ok(())
    }

    /// The ids of the known modules that module `id` imports, in source
    /// order; `None` when no module has that id.
    pub fn get_children(&self, id: usize) -> (r: Option<Vec<usize>>)
        requires
            self.wf(),
        ensures
            id >= self@.specs.len() ==> r is None,
            id < self@.specs.len() ==> (r matches Some(v) && v@.map_values(|x: usize| x as nat)
                == self@.children(id as nat)),
    {
        if id >= self.imports.len() {
            return None;
        }
        let imps = &self.imports[id];
        let ghost iv = imps@.map_values(|v: Vec<char>| v@);
        assert(iv == self@.imports[id as int]);
        let mut out: Vec<usize> = Vec::new();
        let mut k: usize = 0;
        while k < imps.len()
            invariant
                self.wf(),
                k <= imps@.len(),
                iv == imps@.map_values(|v: Vec<char>| v@),
                out@.map_values(|x: usize| x as nat) == self@.known_ids(iv.subrange(0, k as int)),
            decreases imps@.len() - k,
        {
            let found = self.lookup_chars(&imps[k]);
            proof {
                assert(iv.subrange(0, k + 1).drop_last() =~= iv.subrange(0, k as int));
                assert(iv.subrange(0, k + 1).last() == iv[k as int]);
            }
            match found {
                Some(c) => {
                    out.push(c);
                },
                None => {},
            }
            k = k + 1;
            assert(out@.map_values(|x: usize| x as nat) =~= self@.known_ids(
                iv.subrange(0, k as int),
            ));
        }
        assert(iv.subrange(0, k as int) =~= iv);
        Some(out)
    }

    /// Whether module `id` is an entry module; `None` when no module has
    /// that id.
    pub fn is_main(&self, id: usize) -> (r: Option<bool>)
        requires
            self.wf(),
        ensures
            id < self@.specs.len() ==> r == Some(self@.mains[id as int]),
            id >= self@.specs.len() ==> r is None,
    {
        if id < self.mains.len() {
            Some(self.mains[id])
        } else {
            None
        }
    }

    /// The id of the module `specifier` names, through one alias hop at most.
    pub fn get_id(&self, specifier: &str) -> (r: Option<usize>)
        requires
            self.wf(),
        ensures
            r matches Some(i) ==> self@.lookup(specifier@) == Some(i as nat),
            r is None ==> self@.lookup(specifier@) is None,
    {
        let key = chars_of(specifier);
        self.lookup_chars(&key)
    }

    /// Whether `specifier` is registered or aliased.
    pub fn is_registered(&self, specifier: &str) -> (r: bool)
        requires
            self.wf(),
        ensures
            r == self@.known(specifier@),
    {
        let key = chars_of(specifier);
        self.lookup_chars(&key).is_some()
    }
}

} // verus!
