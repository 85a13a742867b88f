//! Tests for the module mapping pass and its layout checks.

use hieratika::context::{
    FunctionDescription, GlobalDescription, GlobalVisibility, Linkage, SourceContext,
};
use hieratika::data_layout::DataLayout;
use hieratika::errors::Error;
use hieratika::llvm::TopLevelEntryKind;
use hieratika::module_map::{BuildModuleMap, ModuleMap};
use hieratika::special_intrinsics::SpecialIntrinsics;
use hieratika::typesystem::LLVMType;

#[test]
fn generates_random_names_for_anon_modules() {
    let map_1 = ModuleMap::new("", DataLayout::new("").unwrap());
    let map_2 = ModuleMap::new("", DataLayout::new("").unwrap());

    assert_ne!(map_1.module_name, map_2.module_name);
}

#[test]
fn unsupported_layout_rejection() {
    // A descriptor placing allocations in address space one must fail with
    // the dedicated error, not a generic failure.
    let pass = BuildModuleMap::new();
    let result = pass.process_data_layout("e-A1");
    assert!(matches!(
        result,
        Err(Error::UnsupportedAdditionalAddressSpaces)
    ));
}

#[test]
fn nonintegral_pointer_rejection() {
    let pass = BuildModuleMap::new();
    let result = pass.process_data_layout("e-ni:1");
    assert!(matches!(
        result,
        Err(Error::UnsupportedNonIntegralPointerConfiguration)
    ));
}

#[test]
fn garbled_layout_rejection() {
    let pass = BuildModuleMap::new();
    let result = pass.process_data_layout("e-zzz");
    assert!(matches!(
        result,
        Err(Error::InvalidDataLayoutSpecification(_, _))
    ));
}

#[test]
fn maps_globals_and_functions() {
    let global = GlobalDescription {
        name: "counter".to_string(),
        is_declaration: false,
        typ: LLVMType::I64,
        is_const: true,
        alignment: 8,
        linkage: Linkage::Private,
        visibility: GlobalVisibility::Default,
        is_initialized: true,
    };
    let func = FunctionDescription {
        name: "work".to_string(),
        is_declaration: false,
        typ: LLVMType::make_function(LLVMType::Void, vec![LLVMType::I64]),
        linkage: Linkage::External,
        visibility: GlobalVisibility::Default,
        intrinsic_id: 0,
    };
    let ctx = SourceContext::create(
        "unit".to_string(),
        "e-m:e-i64:64".to_string(),
        vec![global],
        vec![func],
    );
    let map = BuildModuleMap::new()
        .map_module(&ctx)
        .expect("a supported module must map");

    assert_eq!(map.module_name, "unit");
    let g = map
        .get_global(&"counter".to_string())
        .expect("the global must be mapped");
    assert_eq!(g.kind, TopLevelEntryKind::Definition);
    assert_eq!(g.alignment, 8);
    assert!(g.is_const);
    assert!(g.is_initialized);
    assert_eq!(g.linkage, Linkage::Private);

    let f = map
        .get_function(&"work".to_string())
        .expect("the function must be mapped");
    assert_eq!(f.kind, TopLevelEntryKind::Definition);
    assert!(!f.intrinsic);
    assert_eq!(f.linkage, Linkage::External);

    // Functions are not recorded as globals, nor globals as functions.
    assert!(map.get_global(&"work".to_string()).is_none());
    assert!(map.get_function(&"counter".to_string()).is_none());
}

#[test]
fn special_intrinsics_override_descriptions() {
    // A function named like a debug intrinsic takes its information from
    // the special intrinsics table, whatever its description says.
    let func = FunctionDescription {
        name: "llvm.dbg.declare".to_string(),
        is_declaration: false,
        typ: LLVMType::Void,
        linkage: Linkage::Private,
        visibility: GlobalVisibility::Hidden,
        intrinsic_id: 0,
    };
    let ctx = SourceContext::create("unit".to_string(), "".to_string(), Vec::new(), vec![func]);
    let map = BuildModuleMap::new().map_module(&ctx).unwrap();
    let f = map.get_function(&"llvm.dbg.declare".to_string()).unwrap();
    assert!(f.intrinsic);
    assert_eq!(f.kind, TopLevelEntryKind::Declaration);
    assert_eq!(f.linkage, Linkage::External);
    assert_eq!(f.visibility, GlobalVisibility::Default);
}

#[test]
fn contains_dbg_declare() {
    assert!(SpecialIntrinsics::new()
        .info_for(&"llvm.dbg.declare".to_string())
        .is_some());
}

#[test]
fn contains_dbg_value() {
    assert!(SpecialIntrinsics::new()
        .info_for(&"llvm.dbg.value".to_string())
        .is_some());
}

#[test]
fn contains_dbg_assign() {
    assert!(SpecialIntrinsics::new()
        .info_for(&"llvm.dbg.assign".to_string())
        .is_some());
}
