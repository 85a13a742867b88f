//! Utilities for working with the source IR's concepts inside the codebase:
//! the kind of a top-level entry, and the capability of carrying a type.

use vstd::prelude::*;

use crate::typesystem::LLVMType;

verus! {

/// The type of top-level entry that is encountered in a module.
#[derive(Clone, Copy, Debug, PartialEq, Eq, Structural)]
pub enum TopLevelEntryKind {
    /// A declaration of an external symbol: name, attributes and signature.
    Declaration,

    /// A definition of a symbol: name, attributes, signature and body.
    Definition,
}

/// Objects that have a type of the compiler's type language ascribed to
/// them.
pub trait HasLLVMType {
    /// The type ascribed to the implementing object.
    spec fn spec_type(&self) -> LLVMType;

    /// Gets the type for the implementing object.
    fn get_type(&self) -> (r: LLVMType)
        ensures
            LLVMType::type_eq(r, self.spec_type());
}

impl HasLLVMType for LLVMType {
    open spec fn spec_type(&self) -> LLVMType {
        *self
    }

    fn get_type(&self) -> (r: LLVMType) {
        self.duplicate()
    }
}

} // verus!
