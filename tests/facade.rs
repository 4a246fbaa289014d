use script_runtime::error::RuntimeError;
use script_runtime::module_load::LoadState;
use script_runtime::op_table::OpTable;
use script_runtime::runtime::Runtime;
use script_runtime::event_loop::{LoopStatus, PromiseState};
use script_runtime::ops::{OpResult, RefClass};

fn negate(x: i64) -> i64 {
    -x
}

#[test]
fn sync_dispatch_runs_the_handler() {
    let mut table: OpTable<fn(i64) -> i64> = OpTable::new();
    table.register("op_negate", negate).unwrap();
    assert_eq!(table.dispatch(0, 5), Some(-5));
    assert_eq!(table.dispatch(1, 5), None);
}

#[test]
fn runtime_registers_ops_and_loads_main() {
    let mut rt: Runtime<fn(i64) -> i64, String> = Runtime::new();
    assert_eq!(rt.register_op("op_negate", negate), Ok(0));
    assert_eq!(rt.register_op("op_negate", negate), Err(RuntimeError::DuplicateOp));
    rt.put_resource(1, "agent".to_string());
    let mut load = rt.load_main_module("file:///a.js");
    assert_eq!(load.get_id(), 0);
    let second = rt.load_main_module("file:///other.js");
    assert_eq!(second.get_id(), 1);
    let a = rt.module_loaded(&mut load, "file:///a.js", &["file:///b.js"]);
    assert_eq!(load.get_state(), LoadState::LoadingImports);
    let b = rt.module_loaded(&mut load, "file:///b.js", &["file:///a.js"]);
    assert_eq!(load.get_state(), LoadState::Done);
    assert_eq!(rt.get_module_id("file:///a.js"), Some(a));
    assert_eq!(rt.get_module_id("file:///b.js"), Some(b));
    assert!(rt.mod_evaluate(9));
    assert!(!rt.mod_evaluate(10));
}

#[test]
fn runtime_event_loop_runs_to_completion() {
    let mut rt: Runtime<fn(i64) -> i64, String> = Runtime::new();
    let mut load = rt.load_main_module("file:///a.js");
    rt.module_loaded(&mut load, "file:///a.js", &[]);
    assert_eq!(rt.module_map().len(), 1);
    assert!(rt.mod_evaluate(1));
    let el = rt.event_loop_mut();
    assert!(el.dispatch_op(5, RefClass::Ref));
    el.begin_tick();
    assert_eq!(el.end_tick(PromiseState::Pending, &[]).status, LoopStatus::Pending);
    el.resolve_op(5, OpResult::Value(vec![]));
    assert_eq!(el.begin_tick().len(), 1);
    let report = el.end_tick(PromiseState::Fulfilled, &[]);
    assert_eq!(report.main, Some(Ok(())));
    assert_eq!(report.status, LoopStatus::Complete);
}

#[test]
fn termination_is_recoverable() {
    let mut rt: Runtime<fn(i64) -> i64, String> = Runtime::new();
    assert_eq!(rt.check_execution(), Ok(()));
    rt.terminate_execution();
    assert_eq!(rt.check_execution(), Err(RuntimeError::ExecutionTerminated));
    rt.cancel_terminate_execution();
    assert_eq!(rt.check_execution(), Ok(()));
}

#[test]
fn entry_module_is_marked_main() {
    let mut rt: Runtime<fn(i64) -> i64, String> = Runtime::new();
    let mut load = rt.load_main_module("file:///a.js");
    rt.module_loaded(&mut load, "file:///a.js", &["file:///b.js"]);
    rt.module_loaded(&mut load, "file:///b.js", &[]);
    assert_eq!(rt.module_map().is_main(0), Some(true));
    assert_eq!(rt.module_map().is_main(1), Some(false));
    assert_eq!(rt.module_map().is_main(2), None);
}
