use script_runtime::error::RuntimeError;
use script_runtime::module_map::ModuleMap;
use script_runtime::op_table::{OpState, OpTable};

fn double(x: u32) -> u32 {
    x * 2
}

fn triple(x: u32) -> u32 {
    x * 3
}

#[test]
fn op_ids_follow_registration_order() {
    let mut table: OpTable<fn(u32) -> u32> = OpTable::new();
    assert_eq!(table.register("op_double", double), Ok(0));
    assert_eq!(table.register("op_triple", triple), Ok(1));
    assert_eq!(table.len(), 2);
    assert_eq!(table.get_id("op_triple"), Some(1));
    assert_eq!(table.get_id("op_missing"), None);
    let h = table.handler(1).unwrap();
    assert_eq!(h(5), 15);
    assert!(table.handler(2).is_none());
}

#[test]
fn duplicate_op_is_refused() {
    let mut table: OpTable<fn(u32) -> u32> = OpTable::new();
    assert_eq!(table.register("op_double", double), Ok(0));
    assert_eq!(table.register("op_double", triple), Err(RuntimeError::DuplicateOp));
    assert_eq!(table.len(), 1);
    let h = table.handler(0).unwrap();
    assert_eq!(h(5), 10);
}

#[test]
fn op_state_put_replace_and_missing() {
    let mut state: OpState<String> = OpState::new();
    assert_eq!(state.borrow(7), Err(RuntimeError::MissingResource));
    assert!(!state.has(7));
    state.put(7, "first".to_string());
    assert_eq!(state.borrow(7), Ok(&"first".to_string()));
    state.put(7, "second".to_string());
    assert_eq!(state.borrow(7), Ok(&"second".to_string()));
    state.put(9, "other".to_string());
    assert_eq!(state.borrow(9), Ok(&"other".to_string()));
    assert_eq!(state.borrow(7), Ok(&"second".to_string()));
}

#[test]
fn registering_twice_is_duplicate_module() {
    let mut map = ModuleMap::new();
    assert_eq!(map.register("file:///a.js", true, &["file:///b.js"]), Ok(0));
    assert_eq!(
        map.register("file:///a.js", false, &[]),
        Err(RuntimeError::DuplicateModule)
    );
    assert_eq!(map.len(), 1);
}

#[test]
fn distinct_specifiers_register_in_order() {
    let mut map = ModuleMap::new();
    assert_eq!(map.register("file:///a.js", true, &["file:///b.js"]), Ok(0));
    assert_eq!(map.register("file:///b.js", false, &["file:///c.js"]), Ok(1));
    assert_eq!(map.register("file:///c.js", false, &[]), Ok(2));
    assert_eq!(map.get_id("file:///b.js"), Some(1));
    assert!(map.is_registered("file:///c.js"));
    assert!(!map.is_registered("file:///d.js"));
}

#[test]
fn alias_resolves_to_target_id() {
    let mut map = ModuleMap::new();
    map.register("file:///x.js", false, &[]).unwrap();
    map.register("file:///y.js", false, &[]).unwrap();
    assert_eq!(map.alias("file:///short.js", "file:///y.js"), Ok(()));
    assert_eq!(map.get_id("file:///short.js"), map.get_id("file:///y.js"));
    assert_eq!(map.get_id("file:///short.js"), Some(1));
    assert!(map.is_registered("file:///short.js"));
}

#[test]
fn alias_to_unknown_target_is_refused() {
    let mut map = ModuleMap::new();
    assert_eq!(
        map.alias("file:///short.js", "file:///nowhere.js"),
        Err(RuntimeError::ModuleResolutionError)
    );
    assert_eq!(map.get_id("file:///short.js"), None);
}

#[test]
fn alias_of_known_specifier_is_refused() {
    let mut map = ModuleMap::new();
    map.register("file:///x.js", false, &[]).unwrap();
    map.register("file:///y.js", false, &[]).unwrap();
    assert_eq!(
        map.alias("file:///x.js", "file:///y.js"),
        Err(RuntimeError::DuplicateModule)
    );
    assert_eq!(map.get_id("file:///x.js"), Some(0));
}

#[test]
fn alias_then_register_same_specifier_is_duplicate() {
    let mut map = ModuleMap::new();
    map.register("file:///y.js", false, &[]).unwrap();
    map.alias("file:///x.js", "file:///y.js").unwrap();
    assert_eq!(
        map.register("file:///x.js", false, &[]),
        Err(RuntimeError::DuplicateModule)
    );
}

#[test]
fn children_follow_source_order_and_skip_unknown() {
    let mut map = ModuleMap::new();
    map.register("file:///a.js", true, &["file:///c.js", "file:///missing.js", "file:///b.js"])
        .unwrap();
    map.register("file:///b.js", false, &[]).unwrap();
    map.register("file:///c.js", false, &[]).unwrap();
    assert_eq!(map.get_children(0), Some(vec![2, 1]));
    assert_eq!(map.get_children(1), Some(vec![]));
    assert_eq!(map.get_children(3), None);
}
