//! The runtime facade: one module registry, op table, op state and event
//! loop per instance, with fresh ids for the loads it starts.
use vstd::prelude::*;
use crate::error::RuntimeError;
use crate::event_loop::EventLoop;
use crate::module_load::{LoadKind, LoadState, RecursiveModuleLoad};
use crate::module_map::{ModuleGraph, ModuleMap};
use crate::op_table::{OpState, OpTable};

verus! {

/// The orchestration state of one runtime instance.
pub struct Runtime<H, V> {
    modules: ModuleMap,
    op_table: OpTable<H>,
    op_state: OpState<V>,
    event_loop: EventLoop,
    next_load: u64,
    terminating: bool,
}

impl<H, V> Runtime<H, V> {
    pub closed spec fn modules(&self) -> ModuleGraph {
        self.modules@
    }

    pub closed spec fn op_names(&self) -> Seq<Seq<char>> {
        self.op_table.names()
    }

    pub closed spec fn resources(&self) -> Map<u64, V> {
        self.op_state@
    }

    pub closed spec fn event_loop(&self) -> EventLoop {
        self.event_loop
    }

    /// Whether script execution has been stopped by force.
    pub closed spec fn terminating(&self) -> bool {
        self.terminating
    }

    /// The id the next load will get.
    pub closed spec fn next_load(&self) -> u64 {
        self.next_load
    }

    pub closed spec fn wf(&self) -> bool {
        &&& self.modules.wf()
        &&& self.op_table.wf()
        &&& self.op_state.wf()
        &&& self.event_loop.wf()
    }

    /// A runtime with nothing registered, loaded or outstanding.
    pub fn new() -> (r: Self)
        ensures
            r.wf(),
            r.modules() == ModuleGraph::empty(),
            r.op_names() == Seq::<Seq<char>>::empty(),
            r.resources() == Map::<u64, V>::empty(),
            r.event_loop().status() == crate::event_loop::LoopStatus::Complete,
            r.next_load() == 0,
            !r.terminating(),
    {
        Runtime {
            modules: ModuleMap::new(),
            op_table: OpTable::new(),
            op_state: OpState::new(),
            event_loop: EventLoop::new(),
            next_load: 0,
            terminating: false,
        }
    }

    /// Registers an op (see `OpTable::register`).
    pub fn register_op(&mut self, name: &str, handler: H) -> (r: Result<usize, RuntimeError>)
        requires
            old(self).wf(),
        ensures
            final(self).wf(),
            old(self).op_names().contains(name@) ==> r == Err::<usize, RuntimeError>(
                RuntimeError::DuplicateOp,
            ) && final(self).op_names() == old(self).op_names(),
            !old(self).op_names().contains(name@) ==> r == Ok::<usize, RuntimeError>(
                old(self).op_names().len() as usize,
            ) && final(self).op_names() == old(self).op_names().push(name@),
            final(self).modules() == old(self).modules(),
            final(self).resources() == old(self).resources(),
            final(self).next_load() == old(self).next_load(),
    {
        self.op_table.register(name, handler)
    }

    /// Stores a resource shared by the ops (see `OpState::put`).
    pub fn put_resource(&mut self, tag: u64, value: V)
        requires
            old(self).wf(),
        ensures
            final(self).wf(),
            final(self).resources() == old(self).resources().insert(tag, value),
            final(self).modules() == old(self).modules(),
            final(self).op_names() == old(self).op_names(),
            final(self).next_load() == old(self).next_load(),
    {
        self.op_state.put(tag, value)
    }

    /// Starts loading `specifier` as the entry module, under a fresh load id.
    pub fn load_main_module(&mut self, specifier: &str) -> (r: RecursiveModuleLoad)
        requires
            old(self).wf(),
            old(self).next_load() < u64::MAX,
        ensures
            final(self).wf(),
            r.wf(),
            r.id() == old(self).next_load(),
            r.kind() == LoadKind::Main,
            r.state() == LoadState::LoadingRoot,
            r.root() == specifier@,
            final(self).next_load() == old(self).next_load() + 1,
            final(self).modules() == old(self).modules(),
    {
        let id = self.next_load;
        self.next_load = id + 1;
        RecursiveModuleLoad::new(id, LoadKind::Main, specifier)
    }

    /// Hands a fetched module to `load`, registering it in this runtime's
    /// module map (see `RecursiveModuleLoad::module_loaded`).
    pub fn module_loaded(&mut self, load: &mut RecursiveModuleLoad, specifier: &str, imports: &[&str]) -> (r: usize)
        requires
            old(self).wf(),
            old(load).wf(),
            old(load).state() != LoadState::Done,
        ensures
            final(self).wf(),
            final(load).wf(),
            final(self).modules() == old(self).modules().register(
                specifier@,
                old(load).kind() == LoadKind::Main && old(load).state() == LoadState::LoadingRoot,
                imports@.map_values(|t: &str| t@),
            ),
            final(self).modules().lookup(specifier@) == Some(r as nat),
            final(self).next_load() == old(self).next_load(),
    {
        load.module_loaded(&mut self.modules, specifier, imports)
    }

    /// The id of the module `specifier` names (see `ModuleMap::get_id`).
    pub fn get_module_id(&self, specifier: &str) -> (r: Option<usize>)
        requires
            self.wf(),
        ensures
            r matches Some(i) ==> self.modules().lookup(specifier@) == Some(i as nat),
            r is None ==> self.modules().lookup(specifier@) is None,
    {
        self.modules.get_id(specifier)
    }

    /// Begins evaluating the entry module, whose engine promise is
    /// `promise` (see `EventLoop::evaluate_main`).
    pub fn mod_evaluate(&mut self, promise: u64) -> (r: bool)
        requires
            old(self).wf(),
        ensures
            final(self).wf(),
            r == old(self).event_loop().main_eval() is None,
            r ==> final(self).event_loop().main_eval() == Some(promise),
            final(self).event_loop().ops() == old(self).event_loop().ops(),
            final(self).modules() == old(self).modules(),
    {
        self.event_loop.evaluate_main(promise)
    }
    /// The module registry, to read.
    pub fn module_map(&self) -> (r: &ModuleMap)
        requires
            self.wf(),
        ensures
            r.wf(),
            r@ == self.modules(),
    {
        &self.modules
    }

    /// The event loop, to drive: dispatch and resolve ops, run ticks.
    pub fn event_loop_mut(&mut self) -> (r: &mut EventLoop)
        requires
            old(self).wf(),
        ensures
            *r == old(self).event_loop(),
            r.wf(),
            final(self).event_loop() == *final(r),
            final(r).wf() ==> final(self).wf(),
            final(self).modules() == old(self).modules(),
            final(self).op_names() == old(self).op_names(),
            final(self).resources() == old(self).resources(),
            final(self).next_load() == old(self).next_load(),
    {
        &mut self.event_loop
    }
    /// Stops script execution by force (a timeout, a heap limit): until the
    /// stop is cancelled, running script fails with `ExecutionTerminated`.
    /// Ops already in flight are not cancelled.
    pub fn terminate_execution(&mut self)
        requires
            old(self).wf(),
        ensures
            final(self).wf(),
            final(self).terminating(),
            final(self).event_loop() == old(self).event_loop(),
            final(self).modules() == old(self).modules(),
            final(self).op_names() == old(self).op_names(),
            final(self).resources() == old(self).resources(),
            final(self).next_load() == old(self).next_load(),
    {
        self.terminating = true;
    }

    /// Lifts a forced stop, so that script can run again.
    pub fn cancel_terminate_execution(&mut self)
        requires
            old(self).wf(),
        ensures
            final(self).wf(),
            !final(self).terminating(),
            final(self).event_loop() == old(self).event_loop(),
            final(self).modules() == old(self).modules(),
            final(self).op_names() == old(self).op_names(),
            final(self).resources() == old(self).resources(),
            final(self).next_load() == old(self).next_load(),
    {
        self.terminating = false;
    }

    /// Whether script may run now: `ExecutionTerminated` while stopped.
    pub fn check_execution(&self) -> (r: Result<(), RuntimeError>)
        ensures
            self.terminating() ==> r == Err::<(), RuntimeError>(RuntimeError::ExecutionTerminated),
            !self.terminating() ==> r == Ok::<(), RuntimeError>(()),
    {
        if self.terminating {
            Err(RuntimeError::ExecutionTerminated)
        } else {
            Ok(())
        }
    }
}

} // verus!
