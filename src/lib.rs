//! Orchestration core of an embeddable script runtime: op registry and op
//! state, module graph bookkeeping, recursive module loading, pending-op
//! scheduling, dynamic-import tracking and the event-loop tick decision.
//! The script engine and the module fetcher stay with the host, which feeds
//! their results in as plain values. A small shell lexer's streams and
//! nesting parser live in `lexer`.
use vstd::prelude::*;

pub mod error;
pub mod text;
pub mod op_table;
pub mod lexer;
pub mod module_map;
pub mod module_load;
pub mod ops;
pub mod dyn_import;
pub mod event_loop;
pub mod runtime;

verus! {

} // verus!
