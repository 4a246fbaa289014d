//! The op registry, which hands out sequential ids, and the per-runtime
//! resource bag shared by all op handlers.
use vstd::prelude::*;
use crate::error::RuntimeError;
use crate::text::{chars_of, same_text};

verus! {

/// No name occurs twice in `names`.
pub open spec fn distinct_names(names: Seq<Seq<char>>) -> bool {
    forall|i: int, j: int| 0 <= i < names.len() && 0 <= j < names.len() && i != j
        ==> names[i] != names[j]
}

/// Registry of host operations. An op's id is its position in registration order.
pub struct OpTable<H> {
    names: Vec<Vec<char>>,
    handlers: Vec<H>,
}

impl<H> OpTable<H> {
    /// The registered names, indexed by op id.
    pub closed spec fn names(&self) -> Seq<Seq<char>> {
        self.names@.map_values(|n: Vec<char>| n@)
    }

    /// The registered handlers, indexed by op id.
    pub closed spec fn handlers(&self) -> Seq<H> {
        self.handlers@
    }

    pub closed spec fn wf(&self) -> bool {
        &&& self.names@.len() == self.handlers@.len()
        &&& distinct_names(self.names())
    }

    /// An empty table.
    pub fn new() -> (r: Self)
        ensures
            r.wf(),
            r.names() == Seq::<Seq<char>>::empty(),
    {
        let r = OpTable { names: Vec::new(), handlers: Vec::new() };
        assert(r.names() =~= Seq::<Seq<char>>::empty());
        r
    }

    /// Number of registered ops.
    pub fn len(&self) -> (r: usize)
        requires
            self.wf(),
        ensures
            r == self.names().len(),
    {
        self.names.len()
    }

    fn find(&self, name: &Vec<char>) -> (r: Option<usize>)
        requires
            self.wf(),
        ensures
            match r {
                Some(i) => i < self.names().len() && self.names()[i as int] == name@,
                None => !self.names().contains(name@),
            },
    {
        let mut i: usize = 0;
        while i < self.names.len()
            invariant
                i <= self.names@.len(),
                forall|k: int| 0 <= k < i ==> self.names()[k] != name@,
            decreases self.names@.len() - i,
        {
            if same_text(&self.names[i], name) {
                return Some(i);
            }
            i = i + 1;
        }
        None
    }

    /// The id of the op registered under `name`, if any.
    pub fn get_id(&self, name: &str) -> (r: Option<usize>)
        requires
            self.wf(),
        ensures
            match r {
                Some(i) => i < self.names().len() && self.names()[i as int] == name@,
                None => !self.names().contains(name@),
            },
    {
        let key = chars_of(name);
        self.find(&key)
    }

    /// Registers `handler` under `name`. The new id is the number of ops
    /// registered before; a name already taken is refused with `DuplicateOp`
    /// and leaves the table unchanged.
    pub fn register(&mut self, name: &str, handler: H) -> (r: Result<usize, RuntimeError>)
        requires
            old(self).wf(),
        ensures
            final(self).wf(),
            old(self).names().contains(name@) ==> r == Err::<usize, RuntimeError>(
                RuntimeError::DuplicateOp,
            ) && final(self).names() == old(self).names() && final(self).handlers() == old(
                self,
            ).handlers(),
            !old(self).names().contains(name@) ==> r == Ok::<usize, RuntimeError>(
                old(self).names().len() as usize,
            ) && final(self).names() == old(self).names().push(name@) && final(self).handlers()
                == old(self).handlers().push(handler),
    {
        let key = chars_of(name);
        match self.find(&key) {
            Some(_) => Err(RuntimeError::DuplicateOp),
            None => {
                let id = self.names.len();
                proof {
                    assert forall|k: int| 0 <= k < self.names@.len() implies self.names()[k]
                        != key@ by {
                        assert(self.names().contains(self.names()[k]));
                    }
                }
                self.names.push(key);
                self.handlers.push(handler);
                proof {
                    assert(self.names() =~= old(self).names().push(name@));
                }
                Ok(id)
            },
        }
    }

    /// Runs the handler of op `id` on `arg`, synchronously: `None` when no op
    /// has that id, else what the handler returned.
    pub fn dispatch<A, R>(&self, id: usize, arg: A) -> (r: Option<R>) where H: Fn(A) -> R
        requires
            self.wf(),
            id < self.handlers().len() ==> self.handlers()[id as int].requires((arg,)),
        ensures
            id >= self.handlers().len() ==> r is None,
            id < self.handlers().len() ==> (r matches Some(x) && self.handlers()[id as int].ensures(
                (arg,),
                x,
            )),
    {
        if id < self.handlers.len() {
            let h = &self.handlers[id];
            Some(h(arg))
        } else {
            None
        }
    }

    /// The handler registered under `id`, if any.
    pub fn handler(&self, id: usize) -> (r: Option<&H>)
        requires
            self.wf(),
        ensures
            id < self.handlers().len() ==> r == Some(&self.handlers()[id as int]),
            id >= self.handlers().len() ==> r is None,
    {
        if id < self.handlers.len() {
            Some(&self.handlers[id])
        } else {
            None
        }
    }
}

/// The resource bag shared by all ops of one runtime: at most one value per
/// tag.
pub struct OpState<V> {
    entries: Vec<(u64, V)>,
    contents: Ghost<Map<u64, V>>,
}

impl<V> OpState<V> {
    /// What the bag holds, by tag.
    pub closed spec fn view(&self) -> Map<u64, V> {
        self.contents@
    }

    pub closed spec fn wf(&self) -> bool {
        &&& forall|i: int, j: int|
            0 <= i < self.entries@.len() && 0 <= j < self.entries@.len() && i != j
                ==> self.entries@[i].0 != self.entries@[j].0
        &&& forall|i: int| 0 <= i < self.entries@.len()
            ==> #[trigger] self.contents@.contains_key(self.entries@[i].0)
            && self.contents@[self.entries@[i].0] == self.entries@[i].1
        &&& forall|t: u64| #[trigger] self.contents@.contains_key(t)
            ==> exists|i: int| 0 <= i < self.entries@.len() && self.entries@[i].0 == t
    }

    /// An empty bag.
    pub fn new() -> (r: Self)
        ensures
            r.wf(),
            r@ == Map::<u64, V>::empty(),
    {
        OpState { entries: Vec::new(), contents: Ghost(Map::empty()) }
    }

    fn position(&self, tag: u64) -> (r: Option<usize>)
        requires
            self.wf(),
        ensures
            match r {
                Some(i) => i < self.entries@.len() && self.entries@[i as int].0 == tag,
                None => !self@.contains_key(tag),
            },
    {
        let mut i: usize = 0;
        while i < self.entries.len()
            invariant
                i <= self.entries@.len(),
                forall|k: int| 0 <= k < i ==> self.entries@[k].0 != tag,
            decreases self.entries@.len() - i,
        {
            if self.entries[i].0 == tag {
                return Some(i);
            }
            i = i + 1;
        }
        None
    }

    /// Whether a value is stored under `tag`.
    pub fn has(&self, tag: u64) -> (r: bool)
        requires
            self.wf(),
        ensures
            r == self@.contains_key(tag),
    {
        self.position(tag).is_some()
    }

    /// Stores `value` under `tag`, replacing what was there.
    pub fn put(&mut self, tag: u64, value: V)
        requires
            old(self).wf(),
        ensures
            final(self).wf(),
            final(self)@ == old(self)@.insert(tag, value),
    {
        let ghost g = value;
        let pos = self.position(tag);
        let at: usize = match pos {
            Some(i) => {
                self.entries.set(i, (tag, value));
                i
            },
            None => {
                self.entries.push((tag, value));
                self.entries.len() - 1
            },
        };
        self.contents = Ghost(self.contents@.insert(tag, g));
        proof {
            assert(self.entries@[at as int] == (tag, g));
            assert forall|t: u64| #[trigger] self.contents@.contains_key(t) implies exists|i: int|
                0 <= i < self.entries@.len() && self.entries@[i].0 == t by {
                if t != tag {
                    let i = choose|i: int|
                        0 <= i < old(self).entries@.len() && old(self).entries@[i].0 == t;
                    assert(self.entries@[i].0 == t);
                } else {
                    assert(self.entries@[at as int].0 == t);
                }
            }
        }
    }

    /// The value stored under `tag`, or `MissingResource`.
    pub fn borrow(&self, tag: u64) -> (r: Result<&V, RuntimeError>)
        requires
            self.wf(),
        ensures
            self@.contains_key(tag) ==> r == Ok::<&V, RuntimeError>(&self@[tag]),
            !self@.contains_key(tag) ==> r == Err::<&V, RuntimeError>(RuntimeError::MissingResource),
    {
        match self.position(tag) {
            Some(i) => Ok(&self.entries[i].1),
            None => Err(RuntimeError::MissingResource),
        }
    }
}

} // verus!
