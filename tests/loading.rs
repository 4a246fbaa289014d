use script_runtime::error::RuntimeError;
use script_runtime::event_loop::{EventLoop, LoopStatus, PromiseState};
use script_runtime::ops::{OpResult, RefClass};
use script_runtime::module_load::{LoadKind, LoadState, RecursiveModuleLoad};
use script_runtime::module_map::ModuleMap;

fn text(s: &str) -> Vec<char> {
    s.chars().collect()
}

/// Answers each request of `load` from `sources` (specifier, imports) until
/// the load is over; returns the number of fetches made.
fn drive(load: &mut RecursiveModuleLoad, map: &mut ModuleMap, sources: &[(&str, &[&str])]) -> usize {
    let mut fetches = 0;
    while let Some((spec, _referrer)) = load.next_request() {
        let name: String = spec.iter().collect();
        let found = sources.iter().find(|(s, _)| *s == name.as_str());
        match found {
            Some((s, imports)) => {
                load.module_loaded(map, s, imports);
            }
            None => {
                load.fail(RuntimeError::ModuleLoadError);
            }
        }
        fetches += 1;
    }
    fetches
}

#[test]
fn cyclic_graph_loads_once() {
    let mut map = ModuleMap::new();
    let mut load = RecursiveModuleLoad::new(1, LoadKind::Main, "file:///a.js");
    let sources: &[(&str, &[&str])] = &[
        ("file:///a.js", &["file:///b.js"]),
        ("file:///b.js", &["file:///a.js"]),
    ];
    let fetches = drive(&mut load, &mut map, sources);
    assert_eq!(fetches, 2);
    assert_eq!(load.get_state(), LoadState::Done);
    assert!(load.is_done());
    assert_eq!(load.get_error(), None);
    assert_eq!(map.len(), 2);
    let a = map.get_id("file:///a.js").unwrap();
    let b = map.get_id("file:///b.js").unwrap();
    assert_eq!(load.get_root_module_id(), Some(a));
    assert!(map.get_children(a).unwrap().contains(&b));
    assert!(map.get_children(b).unwrap().contains(&a));
}

#[test]
fn root_request_then_imports_in_source_order() {
    let mut map = ModuleMap::new();
    let mut load = RecursiveModuleLoad::new(3, LoadKind::Main, "file:///main.js");
    assert_eq!(load.get_id(), 3);
    assert_eq!(load.next_request(), Some((text("file:///main.js"), vec![])));
    let id = load.module_loaded(
        &mut map,
        "file:///main.js",
        &["file:///z.js", "file:///y.js", "file:///z.js"],
    );
    assert_eq!(id, 0);
    assert_eq!(load.get_state(), LoadState::LoadingImports);
    assert_eq!(load.get_root_module_id(), Some(0));
    assert_eq!(
        load.next_request(),
        Some((text("file:///z.js"), text("file:///main.js")))
    );
    load.module_loaded(&mut map, "file:///z.js", &["file:///y.js"]);
    assert_eq!(
        load.next_request(),
        Some((text("file:///y.js"), text("file:///main.js")))
    );
    load.module_loaded(&mut map, "file:///y.js", &[]);
    assert_eq!(load.get_state(), LoadState::Done);
    assert_eq!(load.next_request(), None);
    assert_eq!(map.get_children(0), Some(vec![1, 2, 1]));
}

#[test]
fn root_without_imports_is_done_at_once() {
    let mut map = ModuleMap::new();
    let mut load = RecursiveModuleLoad::new(0, LoadKind::DynamicImport, "file:///leaf.js");
    let id = load.module_loaded(&mut map, "file:///leaf.js", &[]);
    assert_eq!(id, 0);
    assert_eq!(load.get_state(), LoadState::Done);
    assert_eq!(load.get_root_module_id(), Some(0));
}

#[test]
fn failed_fetch_aborts_the_load() {
    let mut map = ModuleMap::new();
    let mut load = RecursiveModuleLoad::new(5, LoadKind::Main, "file:///a.js");
    let sources: &[(&str, &[&str])] = &[("file:///a.js", &["file:///gone.js", "file:///b.js"])];
    let fetches = drive(&mut load, &mut map, sources);
    assert_eq!(fetches, 2);
    assert!(load.is_done());
    assert_eq!(load.get_error(), Some(RuntimeError::ModuleLoadError));
    assert_eq!(load.next_request(), None);
    assert_eq!(map.len(), 1);
}

#[test]
fn dynamic_import_twice_resolves_to_same_module() {
    let mut map = ModuleMap::new();
    let mut main = RecursiveModuleLoad::new(0, LoadKind::Main, "file:///main.js");
    main.module_loaded(&mut map, "file:///main.js", &[]);

    let sources: &[(&str, &[&str])] = &[("file:///b.js", &[])];
    let mut first = RecursiveModuleLoad::new(1, LoadKind::DynamicImport, "file:///b.js");
    assert!(!first.reuse_registered_root(&map));
    assert_eq!(drive(&mut first, &mut map, sources), 1);

    // The second import of the same specifier fetches nothing.
    let mut second = RecursiveModuleLoad::new(2, LoadKind::DynamicImport, "file:///b.js");
    assert!(second.reuse_registered_root(&map));
    assert!(second.is_done());
    assert_eq!(second.next_request(), None);
    assert_eq!(drive(&mut second, &mut map, sources), 0);
    assert_eq!(first.get_root_module_id(), second.get_root_module_id());
    assert_eq!(second.get_root_module_id(), Some(1));
    assert_eq!(map.len(), 2);
}

#[test]
fn known_module_arriving_again_queues_nothing() {
    let mut map = ModuleMap::new();
    map.register("file:///b.js", false, &[]).unwrap();
    let mut load = RecursiveModuleLoad::new(4, LoadKind::DynamicImport, "file:///b.js");
    let id = load.module_loaded(&mut map, "file:///b.js", &["file:///never.js"]);
    assert_eq!(id, 0);
    assert!(load.is_done());
    assert_eq!(map.len(), 1);
    assert!(!map.is_registered("file:///never.js"));
}

#[test]
fn main_load_then_evaluation_completes() {
    let mut map = ModuleMap::new();
    let mut load = RecursiveModuleLoad::new(0, LoadKind::Main, "file:///a.js");
    let sources: &[(&str, &[&str])] = &[("file:///a.js", &["file:///b.js"]), ("file:///b.js", &[])];
    drive(&mut load, &mut map, sources);
    let a = load.get_root_module_id().unwrap();
    assert_eq!(map.get_children(a), Some(vec![1]));

    let mut el = EventLoop::new();
    assert!(el.evaluate_main(100));
    // a.js's top level dispatches one op.
    assert!(el.dispatch_op(1, RefClass::Ref));
    let report = el.end_tick(PromiseState::Pending, &[]);
    assert_eq!(report.status, LoopStatus::Pending);
    assert!(el.resolve_op(1, OpResult::Value(vec![1])));
    let delivered = el.begin_tick();
    assert_eq!(delivered.len(), 1);
    assert_eq!(delivered[0].0, 1);
    let report = el.end_tick(PromiseState::Fulfilled, &[]);
    assert_eq!(report.main, Some(Ok(())));
    assert_eq!(report.status, LoopStatus::Complete);
}
