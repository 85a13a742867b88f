//! The source compilation context: a plain, queryable description of the
//! module being compiled.
//!
//! Module ingestion is an external collaborator: whatever reads the source
//! representation hands the library this structure, which exposes, per
//! top-level symbol, its definition or declaration kind, resolved type,
//! linkage and visibility, and, for globals, constness, initialization and
//! alignment, together with the module's textual data-layout descriptor.

use vstd::prelude::*;

use crate::typesystem::LLVMType;

verus! {

/// The linkage of a top-level symbol.
#[derive(Clone, Copy, Debug, PartialEq, Eq, Structural)]
pub enum Linkage {
    /// The symbol is externally visible.
    External,

    /// The symbol is local to the translation unit.
    Internal,

    /// The symbol is private to the module.
    Private,

    /// The symbol may be merged with an equally named symbol at link time.
    LinkOnce,

    /// The symbol is weak and may be overridden.
    Weak,

    /// The symbol names an appending array.
    Appending,

    /// The symbol is a common block.
    Common,

    /// The symbol is an external weak reference.
    ExternalWeak,
}

/// The visibility of a top-level symbol.
#[derive(Clone, Copy, Debug, PartialEq, Eq, Structural)]
pub enum GlobalVisibility {
    /// The symbol uses the default visibility.
    Default,

    /// The symbol is hidden.
    Hidden,

    /// The symbol is protected.
    Protected,
}

/// A plain description of a module-level global.
#[derive(Debug, PartialEq, Eq)]
pub struct GlobalDescription {
    /// The symbol name of the global.
    pub name: String,

    /// Whether the global is a bare declaration, without a definition.
    pub is_declaration: bool,

    /// The type of the global's value.
    pub typ: LLVMType,

    /// Whether the global is constant.
    pub is_const: bool,

    /// The alignment of the global value.
    pub alignment: usize,

    /// The linkage of the global.
    pub linkage: Linkage,

    /// The visibility of the global.
    pub visibility: GlobalVisibility,

    /// Whether the global carries an initializer.
    pub is_initialized: bool,
}

/// A plain description of a module-level function.
#[derive(Debug, PartialEq, Eq)]
pub struct FunctionDescription {
    /// The symbol name of the function.
    pub name: String,

    /// Whether the function is a bare declaration, without a body.
    pub is_declaration: bool,

    /// The type of the function.
    pub typ: LLVMType,

    /// The linkage of the function.
    pub linkage: Linkage,

    /// The visibility of the function.
    pub visibility: GlobalVisibility,

    /// The source IR's intrinsic identifier; zero when the function is not
    /// an intrinsic.
    pub intrinsic_id: u32,
}

/// The source compilation context: the module's name, its data-layout
/// descriptor, and its top-level globals and functions.
#[derive(Debug, PartialEq, Eq)]
pub struct SourceContext {
    /// The name of the module; empty for an anonymous module.
    pub module_name: String,

    /// The textual data-layout descriptor embedded in the module.
    pub data_layout: String,

    /// The globals of the module, in order of appearance.
    pub globals: Vec<GlobalDescription>,

    /// The functions of the module, in order of appearance.
    pub functions: Vec<FunctionDescription>,
}

impl SourceContext {
    /// Creates a source context from the module's plain description.
    pub fn create(
        module_name: String,
        data_layout: String,
        globals: Vec<GlobalDescription>,
        functions: Vec<FunctionDescription>,
    ) -> (r: SourceContext)
        ensures
            r.module_name@ == module_name@,
            r.data_layout@ == data_layout@,
            r.globals@ == globals@,
            r.functions@ == functions@,
    {
        SourceContext { module_name, data_layout, globals, functions }
    }
}

} // verus!
