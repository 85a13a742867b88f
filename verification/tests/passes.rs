//! Tests for the pass framework: ordering resolution, the data map, and
//! the pipeline run.

use hieratika::context::SourceContext;
use hieratika::errors::Error;
use hieratika::module_map::{BuildModuleMap, ModuleMap};
use hieratika::pass::{
    ExternalPass, Pass, PassDataOps, PassManager, MODULE_MAP_PASS_KEY,
};
use hieratika::pass_data::PassDataMap;

fn external(key: usize, depends: Vec<usize>) -> Pass {
    Pass::External(ExternalPass {
        key,
        depends,
        invalidates: Vec::new(),
    })
}

fn empty_context() -> SourceContext {
    SourceContext::create(
        "m".to_string(),
        "e-m:e-i8:8:32-i16:16:32-i64:64-i128:128-n32:64-S128".to_string(),
        Vec::new(),
        Vec::new(),
    )
}

#[test]
fn pass_ordering_validity() {
    // An acyclic dependency graph resolves to an order in which every pass
    // appears after all its declared dependencies.
    let passes = vec![
        external(4, vec![2, 3]),
        external(3, vec![2]),
        external(2, Vec::new()),
    ];
    let manager = PassManager::new(passes).expect("an acyclic graph must schedule");
    let order: Vec<usize> = manager.passes().iter().map(|p| p.key()).collect();
    let pos = |k: usize| order.iter().position(|x| *x == k).unwrap();
    assert!(pos(2) < pos(3));
    assert!(pos(2) < pos(4));
    assert!(pos(3) < pos(4));
}

#[test]
fn pass_ordering_rejects_cycles() {
    // A cyclic dependency graph is a construction-time error.
    let passes = vec![external(2, vec![3]), external(3, vec![2])];
    let result = PassManager::new(passes);
    assert!(matches!(result, Err(Error::InvalidPassOrdering(_))));
}

#[test]
fn pass_ordering_rejects_missing_dependencies() {
    let passes = vec![external(2, vec![9])];
    assert!(matches!(
        PassManager::new(passes),
        Err(Error::InvalidPassOrdering(_))
    ));
}

#[test]
fn data_map_isolation() {
    // Data written under one pass identity is invisible under another,
    // even though the value types coincide.
    let mut map: PassDataMap<u64> = PassDataMap::new();
    map.put_key(10, 42);
    assert_eq!(map.get_key(11), None);
    assert_eq!(map.get_key(10), Some(&42));
    map.clear_key(10);
    assert_eq!(map.get_key(10), None);
}

#[test]
fn returns_correct_data_type() {
    // Running the module mapping pass yields data viewable as its concrete
    // output type.
    let ctx = empty_context();
    let data = PassDataMap::new();
    let pass = Pass::ModuleMap(BuildModuleMap::new());
    let dyn_return_data = pass.run(ctx, &data).expect("the pass must succeed");
    assert!(ModuleMap::view_as(&dyn_return_data.data).is_some());
}

#[test]
fn pipeline_publishes_module_map() {
    let manager = PassManager::new_default();
    let result = manager.run(empty_context()).expect("the pipeline must succeed");
    let entry = result.data.get_key(MODULE_MAP_PASS_KEY);
    assert!(entry.is_some());
    assert!(ModuleMap::view_as(entry.unwrap()).is_some());
}

#[test]
fn invalidated_outputs_are_evicted() {
    // A later pass that invalidates an earlier pass's output evicts that
    // output from the final data map.
    let passes = vec![
        external(2, Vec::new()),
        Pass::External(ExternalPass {
            key: 3,
            depends: vec![2],
            invalidates: vec![2],
        }),
    ];
    let manager = PassManager::new(passes).expect("the graph is acyclic");
    let result = manager.run(empty_context()).expect("the pipeline must succeed");
    assert!(result.data.get_key(2).is_none());
    assert!(result.data.get_key(3).is_some());
}

#[test]
fn dupe_preserves_identity() {
    let p = external(7, vec![2]);
    let d = p.dupe();
    assert_eq!(d.key(), 7);
    assert_eq!(d.depends(), vec![2]);
}

#[test]
fn typed_data_access() {
    let ctx = empty_context();
    let data = PassDataMap::new();
    let pass = Pass::ModuleMap(BuildModuleMap::new());
    let mut rd = pass.run(ctx, &data).expect("the pass must succeed");

    assert!(ModuleMap::is(&rd.data));
    let name = ModuleMap::unwrap_as(&rd.data).module_name.clone();
    assert_eq!(name, "m");

    // Writes through the mutable view land in the erased value.
    ModuleMap::view_as_mut(&mut rd.data)
        .expect("the data is a module map")
        .module_name = "renamed".to_string();
    assert_eq!(ModuleMap::unwrap_as(&rd.data).module_name, "renamed");
}

#[test]
fn reserved_pass_key_is_rejected() {
    // The module mapping pass's identity cannot be claimed by another
    // pass kind.
    let passes = vec![external(1, Vec::new())];
    assert!(matches!(PassManager::new(passes), Err(Error::ReservedPassKey)));
}
