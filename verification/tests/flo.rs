//! Tests for the object representation: construction, symbol tables,
//! finalization gating, and the serialized round trip.

use hieratika::flo::FlatLoweredObject;
use hieratika::poison::Poisonable;
use hieratika::symbols::SymbolTable;
use hieratika::types::{Block, BlockExit, Signature, Type, Variable, VariableLinkage};
use hieratika::PoisonType;

fn plain_variable(typ: Type) -> Variable {
    Variable {
        typ,
        linkage: VariableLinkage::Local,
        poison: PoisonType::Valid,
        diagnostics: Vec::new(),
        location: None,
    }
}

#[test]
fn finalization_gating() {
    // A non-partial object holding an undefined-poisoned block must refuse
    // to emit.
    let mut flo = FlatLoweredObject::new("gated");
    flo.blocks.insert(Block::get_poison_value(PoisonType::Undefined));
    assert!(flo.to_str().is_err());

    // The same content under a partial object emits.
    let mut partial = FlatLoweredObject::new_partial("gated");
    partial.blocks.insert(Block::get_poison_value(PoisonType::Undefined));
    assert!(partial.to_str().is_ok());
}

#[test]
fn unreachable_blocks_are_tolerated() {
    let mut flo = FlatLoweredObject::new("tolerant");
    flo.blocks.insert(Block::get_poison_value(PoisonType::Unreachable));
    assert!(flo.to_str().is_ok());
}

#[test]
fn symbol_replacement() {
    // Inserting "f" -> 3 and then "f" -> 7 leaves lookup of "f" returning 7
    // only, and 3 unreachable by symbol.
    let mut table = SymbolTable::new();
    table.insert("f".to_string(), 3);
    table.insert("f".to_string(), 7);
    assert_eq!(table.get_by_left(&"f".to_string()), Some(7));
    assert_eq!(table.get_by_right(7), Some(&"f".to_string()));
    assert_eq!(table.get_by_right(3), None);
}

#[test]
fn symbol_right_replacement() {
    // Inserting a pair that collides on the identifier side replaces the
    // old pair atomically.
    let mut table = SymbolTable::new();
    table.insert("f".to_string(), 3);
    table.insert("g".to_string(), 3);
    assert_eq!(table.get_by_left(&"g".to_string()), Some(3));
    assert_eq!(table.get_by_left(&"f".to_string()), None);
    assert_eq!(table.get_by_right(3), Some(&"g".to_string()));
}

#[test]
fn end_to_end_scenario() {
    // Construct an object named "add" with one function block over three
    // variables, serialize it, deserialize it, and compare field for field.
    let mut flo = FlatLoweredObject::new("add");

    let v1 = flo.variables.insert(plain_variable(Type::Signed64));
    let v2 = flo.variables.insert(plain_variable(Type::Signed64));
    let v3 = flo.variables.insert(plain_variable(Type::Signed64));

    let block = Block {
        signature: Some(Signature {
            params: vec![v1, v2],
            returns: vec![v3],
            can_panic: false,
            location: None,
        }),
        poison: PoisonType::Valid,
        statements: Vec::new(),
        exit: BlockExit::Return(vec![v3]),
        diagnostics: Vec::new(),
    };
    let block_id = flo.blocks.insert(block);
    flo.entry_point = Some(block_id);
    flo.symbols.code.insert("add".to_string(), block_id);

    let encoded = flo.to_str().expect("the object is clean and must emit");
    let decoded = FlatLoweredObject::from_str(&encoded).expect("the emitted text must load");
    assert_eq!(decoded, flo);
}

#[test]
fn partial_round_trip_keeps_the_flag() {
    let mut flo = FlatLoweredObject::new_partial("wip");
    flo.blocks.insert(Block::get_poison_value(PoisonType::Undefined));
    let encoded = flo.to_str().expect("partial objects emit");
    let decoded = FlatLoweredObject::from_str(&encoded).expect("partial objects load");
    assert!(decoded.is_partial());
    assert_eq!(decoded, flo);
}

#[test]
fn malformed_text_is_rejected() {
    assert!(FlatLoweredObject::from_str("not an object").is_err());
    assert!(FlatLoweredObject::from_str("( s3:abc 4 ").is_err());
    assert!(FlatLoweredObject::from_str("").is_err());
}
