//! Tests for the compiler wiring and the type language.

use hieratika::compile::{CodeGenerator, CompilerBuilder};
use hieratika::context::SourceContext;
use hieratika::errors::Error;
use hieratika::pass_data::PassDataMap;
use hieratika::typesystem::LLVMType;

fn context() -> SourceContext {
    SourceContext::create(
        "adder".to_string(),
        "e-m:e-i8:8:32-i16:16:32-i64:64-i128:128-n32:64-S128".to_string(),
        Vec::new(),
        Vec::new(),
    )
}

#[test]
fn compiler_runs_on_a_supported_module() {
    let compiler = CompilerBuilder::new(context()).build();
    let result = compiler.run();
    assert!(result.is_ok());
    assert_eq!(result.unwrap().module_name, "adder");
}

#[test]
fn compiler_rejects_unsupported_layouts() {
    let ctx = SourceContext::create(
        "bad".to_string(),
        "e-A1".to_string(),
        Vec::new(),
        Vec::new(),
    );
    let compiler = CompilerBuilder::new(ctx).build();
    assert!(matches!(
        compiler.run(),
        Err(Error::UnsupportedAdditionalAddressSpaces)
    ));
}

#[test]
fn errors_on_invalid_name() {
    let cg = CodeGenerator::new("", PassDataMap::new(), context());
    assert!(cg.is_err());
}

#[test]
fn type_constructors_build_the_expected_shapes() {
    let arr = LLVMType::make_array(33, LLVMType::I8);
    assert_eq!(
        arr,
        LLVMType::Array {
            count: 33,
            ty: Box::new(LLVMType::I8)
        }
    );

    let st = LLVMType::make_struct(true, vec![arr]);
    assert!(matches!(&st, LLVMType::Structure { packed: true, .. }));

    let f = LLVMType::make_function(LLVMType::I64, vec![LLVMType::I64, LLVMType::I64]);
    assert!(matches!(&f, LLVMType::Function { .. }));
}

#[test]
fn type_predicates() {
    assert!(LLVMType::I64.is_prim());
    assert!(LLVMType::I64.is_integral());
    assert!(!LLVMType::I64.is_float());
    assert!(LLVMType::Half.is_float());
    assert!(LLVMType::make_array(4, LLVMType::I8).is_compound());
    assert!(LLVMType::make_struct(false, vec![]).is_compound());
}

#[test]
fn type_unification_is_structural_equality() {
    let a = LLVMType::make_function(LLVMType::Void, vec![LLVMType::Ptr, LLVMType::I32]);
    let b = LLVMType::make_function(LLVMType::Void, vec![LLVMType::Ptr, LLVMType::I32]);
    let c = LLVMType::make_function(LLVMType::Void, vec![LLVMType::Ptr]);
    assert!(a.unifies_with(&b));
    assert!(!a.unifies_with(&c));
    assert!(a.unifies_with(&a.duplicate()));
}

#[test]
fn type_rendering() {
    assert_eq!(LLVMType::I64.to_string(), "i64");
    assert_eq!(
        LLVMType::make_array(33, LLVMType::I8).to_string(),
        "[i8; 33]"
    );
    assert_eq!(
        LLVMType::make_struct(true, vec![LLVMType::Ptr, LLVMType::I8]).to_string(),
        "<{ ptr, i8 }>"
    );
    assert_eq!(
        LLVMType::make_function(LLVMType::I64, vec![LLVMType::I64, LLVMType::I64]).to_string(),
        "(i64, i64) -> i64"
    );
}
