//! Tests for the polyfill name mapping.

use hieratika::polyfill::PolyfillMap;

#[test]
fn llvm_lookup_works() {
    let map = PolyfillMap::default();

    assert_eq!(
        map.llvm(&"__llvm_uadd_with_overflow_i64_i64".to_string())
            .unwrap(),
        "llvm.uadd.with.overflow.i64"
    );
}

#[test]
fn polyfill_lookup_works() {
    let map = PolyfillMap::default();

    assert_eq!(
        map.polyfill(&"llvm.uadd.with.overflow.i64".to_string())
            .unwrap(),
        "__llvm_uadd_with_overflow_i64_i64"
    );
}

#[test]
fn of_opcode_works() {
    let opcode_name = "my_opcode";
    let tys_1 = vec!["i8".to_string(), "i64".to_string()];
    let tys_2 = vec!["i1".to_string()];
    let tys_3: Vec<String> = Vec::new();

    assert_eq!(
        PolyfillMap::of_opcode(opcode_name, &tys_1),
        "__llvm_my_opcode_i8_i64"
    );
    assert_eq!(
        PolyfillMap::of_opcode(opcode_name, &tys_2),
        "__llvm_my_opcode_i1"
    );
    assert_eq!(
        PolyfillMap::of_opcode(opcode_name, &tys_3),
        "__llvm_my_opcode_void"
    );
}
