//! Tests for the intern tables and the poison mechanism.

use hieratika::intern::{InternTable, NULL_INTERNED_ID, RESERVED_UNDEFINED_ID};
use hieratika::poison::Poisonable;
use hieratika::types::{Type, Variable, VariableLinkage};
use hieratika::PoisonType;

fn plain_variable(typ: Type) -> Variable {
    Variable {
        typ,
        linkage: VariableLinkage::Local,
        poison: PoisonType::Valid,
        diagnostics: Vec::new(),
        location: None,
    }
}

#[test]
fn intern_round_trip() {
    let mut table: InternTable<Variable> = InternTable::new();
    let v = plain_variable(Type::Signed64);
    let id = table.insert(v.clone());
    assert_eq!(table.get(id), &v);

    let w = plain_variable(Type::Bool);
    let id2 = table.insert(w.clone());
    assert_eq!(table.get(id2), &w);
    assert_eq!(table.get(id), &v);
}

#[test]
fn sentinel_invariants() {
    let table: InternTable<Variable> = InternTable::new();
    let null_entry = table.get(NULL_INTERNED_ID);
    assert!(Variable::is_poisoned(null_entry));
    assert_eq!(null_entry.poison, PoisonType::NullInternedValue);

    let undef_entry = table.get(RESERVED_UNDEFINED_ID);
    assert!(Variable::is_poisoned(undef_entry));
    assert_eq!(undef_entry.poison, PoisonType::Undefined);
}

#[test]
fn no_identifier_reuse() {
    let mut table: InternTable<Variable> = InternTable::new();
    let mut ids: Vec<usize> = Vec::new();
    for _ in 0..8 {
        ids.push(table.insert(plain_variable(Type::Unsigned8)));
    }
    for (i, id) in ids.iter().enumerate() {
        assert_ne!(*id, NULL_INTERNED_ID);
        assert_ne!(*id, RESERVED_UNDEFINED_ID);
        for other in ids.iter().skip(i + 1) {
            assert_ne!(id, other);
        }
    }
}

#[test]
fn swap_preserves_identity() {
    let mut table: InternTable<Variable> = InternTable::new();
    let v1 = plain_variable(Type::Signed32);
    let v2 = plain_variable(Type::Signed64);
    let id = table.insert(v1.clone());
    let previous = table.swap(id, v2.clone());
    assert_eq!(previous, v1);
    assert_eq!(table.get(id), &v2);
}

#[test]
fn forward_reference_via_placeholder() {
    // A forward-declared entity starts as an undefined placeholder and is
    // swapped for its definition once that definition is available.
    let mut table: InternTable<Variable> = InternTable::new();
    let placeholder = Variable::get_poison_value(PoisonType::Undefined);
    let id = table.insert(placeholder);
    assert!(Variable::is_poisoned(table.get(id)));

    let real = plain_variable(Type::Pointer);
    table.swap(id, real.clone());
    assert!(!Variable::is_poisoned(table.get(id)));
    assert_eq!(table.get(id), &real);
}

#[test]
fn poison_markers_observable() {
    let poisoned = Variable::get_poison_value(PoisonType::Poison("bad".to_string()));
    assert!(Variable::is_poisoned(&poisoned));
    assert!(!Variable::is_poisoned(&plain_variable(Type::Bool)));
    assert!(PoisonType::Undefined.is_poisoned());
    assert!(!PoisonType::Valid.is_poisoned());
}
