use vstd::prelude::*;

verus! {

/// Every failure the runtime core can report.
#[derive(Debug, Clone, Copy, PartialEq, Eq, Structural)]
pub enum RuntimeError {
    /// Source text failed to compile.
    CompileError,
    /// Script threw and nothing caught it.
    RuntimeException,
    /// A specifier could not be resolved.
    ModuleResolutionError,
    /// Fetching a module failed.
    ModuleLoadError,
    /// A specifier was registered twice.
    DuplicateModule,
    /// An op name was registered twice.
    DuplicateOp,
    /// The op state holds no resource under the requested tag.
    MissingResource,
    /// The engine stopped script execution by force.
    ExecutionTerminated,
    /// A module evaluation is pending and nothing left can ever settle it.
    UnresolvedPromiseDeadlock,
}

} // verus!
