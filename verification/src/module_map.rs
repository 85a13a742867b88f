//! The analysis pass that generates a map of the top-level structure of the
//! module being compiled: its name, its data layout, and its function and
//! global entries. The resulting [`ModuleMap`] is intended for downstream
//! consistency checking during code generation.

use vstd::prelude::*;
use vstd::string::{StrSliceExecFns, StringExecFns};

use crate::context::{
    FunctionDescription, GlobalDescription, GlobalVisibility, Linkage, SourceContext,
};
use crate::data_layout::{
    add_defaults, dash_parts, fold_layout, initial_layout, lemma_same_pointer_spaces, DataLayout,
    DataLayoutV, layout_matches,
};
use crate::errors::Error;
use crate::llvm::TopLevelEntryKind;
use crate::named::{find_name, has_name, value_of_name};
use crate::special_intrinsics::{standard_intrinsics, SpecialIntrinsics};
use crate::typesystem::LLVMType;

verus! {

/// The information necessary to describe the conventions and operations
/// needed to call a function.
#[derive(Debug, PartialEq, Eq)]
pub struct FunctionInfo {
    /// The type of function entity that was encountered here.
    pub kind: TopLevelEntryKind,

    /// Set if this function is a source-IR intrinsic, and unset otherwise.
    pub intrinsic: bool,

    /// The type of the function.
    pub typ: LLVMType,

    /// The linkage of the function.
    pub linkage: Linkage,

    /// The visibility of the function.
    pub visibility: GlobalVisibility,
}

/// Structural equality of two function descriptions.
pub open spec fn func_info_matches(a: FunctionInfo, b: FunctionInfo) -> bool {
    &&& a.kind == b.kind
    &&& a.intrinsic == b.intrinsic
    &&& LLVMType::type_eq(a.typ, b.typ)
    &&& a.linkage == b.linkage
    &&& a.visibility == b.visibility
}

impl FunctionInfo {
    /// Returns a deep copy of this description, structurally equal to the
    /// original.
    pub fn duplicate(&self) -> (r: FunctionInfo)
        ensures
            func_info_matches(r, *self),
    {
        FunctionInfo {
            kind: self.kind,
            intrinsic: self.intrinsic,
            typ: self.typ.duplicate(),
            linkage: self.linkage,
            visibility: self.visibility,
        }
    }
}

/// The information necessary to describe the conventions and operations
/// needed to access a global.
#[derive(Debug, PartialEq, Eq)]
pub struct GlobalInfo {
    /// The type of global entity that was encountered here.
    pub kind: TopLevelEntryKind,

    /// The type of the global.
    pub typ: LLVMType,

    /// The linkage of the global.
    pub linkage: Linkage,

    /// The visibility of the global.
    pub visibility: GlobalVisibility,

    /// The alignment of the global value.
    pub alignment: usize,

    /// `true` if this global is constant, and `false` otherwise.
    pub is_const: bool,

    /// `true` if this global is initialized, and `false` otherwise.
    pub is_initialized: bool,
}

/// Whether `info` is the mapping of the plain global description `d`.
pub open spec fn global_info_from(info: GlobalInfo, d: GlobalDescription) -> bool {
    &&& info.kind == (if d.is_declaration {
        TopLevelEntryKind::Declaration
    } else {
        TopLevelEntryKind::Definition
    })
    &&& LLVMType::type_eq(info.typ, d.typ)
    &&& info.linkage == d.linkage
    &&& info.visibility == d.visibility
    &&& info.alignment == d.alignment
    &&& info.is_const == d.is_const
    &&& info.is_initialized == d.is_initialized
}

/// Whether `info` is the direct mapping of the plain function description
/// `d`, for a function that is not a specially handled intrinsic.
pub open spec fn func_info_from(info: FunctionInfo, d: FunctionDescription) -> bool {
    &&& info.kind == (if d.is_declaration {
        TopLevelEntryKind::Declaration
    } else {
        TopLevelEntryKind::Definition
    })
    &&& info.intrinsic == (d.intrinsic_id != 0)
    &&& LLVMType::type_eq(info.typ, d.typ)
    &&& info.linkage == d.linkage
    &&& info.visibility == d.visibility
}

/// The parsed and defaulted value of a data-layout descriptor, if the
/// descriptor is grammatical.
pub open spec fn parsed_layout(s: Seq<char>) -> Option<DataLayoutV> {
    match fold_layout(dash_parts(s, 0), initial_layout()) {
        Some(v) => Some(add_defaults(v)),
        None => None,
    }
}

/// Whether the layout asks for any address space beyond the default zero.
pub open spec fn has_extra_address_spaces(v: DataLayoutV) -> bool {
    ||| v.alloc_address_space != 0
    ||| v.global_address_space != 0
    ||| v.program_address_space != 0
    ||| exists|i: int|
        0 <= i < v.pointer_layouts.len() && (#[trigger] v.pointer_layouts[i]).address_space != 0
}

/// Whether the layout is supported by this target: a single address space,
/// and no non-integral pointers.
pub open spec fn layout_supported(v: DataLayoutV) -> bool {
    !has_extra_address_spaces(v) && v.nointptr_address_spaces.len() == 0
}

/// Whether the descriptor `s` parses to a supported layout, so that module
/// mapping accepts it.
pub open spec fn layout_accepted(s: Seq<char>) -> bool {
    parsed_layout(s) is Some && layout_supported(parsed_layout(s)->Some_0)
}

/// The exact error a rejected descriptor draws: the dedicated
/// address-space or non-integral-pointer error for a parseable but
/// unsupported layout, and the parse error otherwise.
pub open spec fn layout_error(s: Seq<char>, e: Error) -> bool {
    match parsed_layout(s) {
        Some(v) => {
            ||| (has_extra_address_spaces(v) && e == Error::UnsupportedAdditionalAddressSpaces)
            ||| (!has_extra_address_spaces(v) && v.nointptr_address_spaces.len() != 0 && e
                == Error::UnsupportedNonIntegralPointerConfiguration)
        },
        None => e is InvalidDataLayoutSpecification,
    }
}

/// The relation module mapping establishes between a source context and
/// its map, relative to the special-intrinsics table consulted: the name
/// rule, the accepted layout, and the pointwise mapping of every global
/// and function.
pub open spec fn module_map_of(
    m: ModuleMap,
    module: SourceContext,
    table: Seq<(String, FunctionInfo)>,
) -> bool {
    &&& layout_accepted(module.data_layout@)
    &&& layout_matches(m.data_layout, parsed_layout(module.data_layout@)->Some_0)
    &&& module.module_name@.len() > 0 ==> m.module_name@ == module.module_name@
    &&& module.module_name@.len() == 0 ==> m.module_name@.len() == 64
    &&& m.globals@.len() == module.globals@.len()
    &&& forall|j: int|
        0 <= j < module.globals@.len() ==> (#[trigger] m.globals@[j]).0@
            == module.globals@[j].name@ && global_info_from(m.globals@[j].1, module.globals@[j])
    &&& m.functions@.len() == module.functions@.len()
    &&& forall|j: int|
        0 <= j < module.functions@.len() ==> (#[trigger] m.functions@[j]).0@
            == module.functions@[j].name@ && (has_name(table, module.functions@[j].name@)
            ==> func_info_matches(
            m.functions@[j].1,
            value_of_name(table, module.functions@[j].name@),
        )) && (!has_name(table, module.functions@[j].name@) ==> func_info_from(
            m.functions@[j].1,
            module.functions@[j],
        ))
}

/// The module map that results from executing this analysis pass: the
/// module's name, its data layout, and its globals and functions in order
/// of appearance.
#[derive(Debug, PartialEq, Eq)]
pub struct ModuleMap {
    /// The name for the module.
    pub module_name: String,

    /// The data layout provided for this module.
    pub data_layout: DataLayout,

    /// The globals contained within the module, by name.
    pub globals: Vec<(String, GlobalInfo)>,

    /// The functions contained within the module, by name.
    pub functions: Vec<(String, FunctionInfo)>,
}

impl ModuleMap {
    /// Creates a new, empty instance of the output data for the module
    /// mapping pass.
    ///
    /// An anonymous module — one whose name is empty — receives a freshly
    /// generated random name, so that every mapped module can be told apart.
    pub fn new(name: &str, data_layout: DataLayout) -> (r: ModuleMap)
        ensures
            r.globals@.len() == 0,
            r.functions@.len() == 0,
            r.data_layout == data_layout,
            name@.len() > 0 ==> r.module_name@ == name@,
            name@.len() == 0 ==> r.module_name@.len() == 64,
    {
        let module_name = if name.unicode_len() == 0 {
            random_module_name()
        } else {
            name.to_owned()
        };
        ModuleMap { module_name, data_layout, globals: Vec::new(), functions: Vec::new() }
    }

    /// Creates a new boxed instance of the output data for the module
    /// mapping pass.
    pub fn new_dyn(name: &str, data_layout: DataLayout) -> (r: Box<ModuleMap>)
        ensures
            r.globals@.len() == 0,
            r.functions@.len() == 0,
            r.data_layout == data_layout,
            name@.len() > 0 ==> r.module_name@ == name@,
            name@.len() == 0 ==> r.module_name@.len() == 64,
    {
        Box::new(ModuleMap::new(name, data_layout))
    }

    /// Looks up the information for the global named `name`.
    pub fn get_global(&self, name: &String) -> (r: Option<&GlobalInfo>)
        ensures
            match r {
                Some(info) => has_name(self.globals@, name@) && *info == value_of_name(
                    self.globals@,
                    name@,
                ),
                None => !has_name(self.globals@, name@),
            },
    {
        find_name(&self.globals, name)
    }

    /// Looks up the information for the function named `name`.
    pub fn get_function(&self, name: &String) -> (r: Option<&FunctionInfo>)
        ensures
            match r {
                Some(info) => has_name(self.functions@, name@) && *info == value_of_name(
                    self.functions@,
                    name@,
                ),
                None => !has_name(self.functions@, name@),
            },
    {
        find_name(&self.functions, name)
    }
}

/// Relies on `rand::random`: fills a 32-byte array with random bytes. The
/// result depends on the process's entropy source, so nothing is promised
/// of its value.
#[verifier::external_body]
fn random_bytes() -> (r: [u8; 32])
    ensures
        r@.len() == 32,
{
    rand::random()
}

/// The lower-case hex digit string for a nibble value.
fn hex_str(d: u8) -> (r: &'static str)
    requires
        d < 16,
    ensures
        r@.len() == 1,
{
    proof {
        reveal_strlit("0");
        reveal_strlit("1");
        reveal_strlit("2");
        reveal_strlit("3");
        reveal_strlit("4");
        reveal_strlit("5");
        reveal_strlit("6");
        reveal_strlit("7");
        reveal_strlit("8");
        reveal_strlit("9");
        reveal_strlit("a");
        reveal_strlit("b");
        reveal_strlit("c");
        reveal_strlit("d");
        reveal_strlit("e");
        reveal_strlit("f");
    }
    if d == 0 {
        "0"
    } else if d == 1 {
        "1"
    } else if d == 2 {
        "2"
    } else if d == 3 {
        "3"
    } else if d == 4 {
        "4"
    } else if d == 5 {
        "5"
    } else if d == 6 {
        "6"
    } else if d == 7 {
        "7"
    } else if d == 8 {
        "8"
    } else if d == 9 {
        "9"
    } else if d == 10 {
        "a"
    } else if d == 11 {
        "b"
    } else if d == 12 {
        "c"
    } else if d == 13 {
        "d"
    } else if d == 14 {
        "e"
    } else {
        "f"
    }
}

/// Generates a random 64-character hexadecimal module name.
///
/// The underlying generator cannot be relied upon to be cryptographically
/// secure, and the result depends on the machine's entropy: only its shape
/// is specified.
fn random_module_name() -> (r: String)
    ensures
        r@.len() == 64,
{
    let bytes = random_bytes();
    let mut out = String::new();
    let mut i: usize = 0;
    while i < 32
        invariant
            i <= 32,
            bytes@.len() == 32,
            out@.len() == 2 * i,
        decreases 32 - i,
    {
        let b = bytes[i];
        let hi = b >> 4;
        let lo = b & 15;
        proof {
            assert(b >> 4 < 16) by (bit_vector);
            assert(b & 15 < 16) by (bit_vector);
        }
        out.append(hex_str(hi));
        out.append(hex_str(lo));
        i += 1;
    }
    out
}

/// Generates a map of the top-level structure of the module being compiled.
#[derive(Debug, PartialEq, Eq)]
pub struct BuildModuleMap {
    /// The source-IR intrinsics that need to be handled specially.
    special_intrinsics: SpecialIntrinsics,
}

impl BuildModuleMap {
    /// The intrinsics table this pass consults.
    pub closed spec fn intrinsics_table(self) -> Seq<(String, FunctionInfo)> {
        self.special_intrinsics.raw()
    }

    /// Creates a new instance of the module mapping pass, consulting the
    /// canonical special-intrinsics table.
    ///
    /// This pass depends on the results of no other passes, and, being
    /// purely analytical, invalidates none.
    pub fn new() -> (r: BuildModuleMap)
        ensures
            standard_intrinsics(r.intrinsics_table()),
    {
        BuildModuleMap { special_intrinsics: SpecialIntrinsics::new() }
    }

    /// Creates a new boxed instance of the module mapping pass.
    pub fn new_dyn() -> (r: Box<BuildModuleMap>)
        ensures
            standard_intrinsics(r.intrinsics_table()),
    {
        Box::new(BuildModuleMap::new())
    }

    /// Processes the data layout declaration from the module.
    ///
    /// The target supports a single address space, numbered zero, and no
    /// non-integral pointers; a layout asking for anything else is rejected
    /// with the matching error, exactly.
    pub fn process_data_layout(&self, layout_string: &str) -> (r: Result<DataLayout, Error>)
        ensures
            match r {
                Ok(l) => {
                    &&& layout_accepted(layout_string@)
                    &&& layout_matches(l, parsed_layout(layout_string@)->Some_0)
                },
                Err(e) => !layout_accepted(layout_string@) && layout_error(layout_string@, e),
            },
    {
        let layout = match DataLayout::new(layout_string) {
            Ok(l) => l,
            Err(e) => {
                return Err(e);
            },
        };
        let ghost v = parsed_layout(layout_string@)->Some_0;
        // Any pointer layout outside address space zero is unsupported.
        let n = layout.pointer_layouts.len();
        let mut i: usize = 0;
        while i < n
            invariant
                i <= n,
                n == layout.pointer_layouts@.len(),
                parsed_layout(layout_string@) is Some,
                v == parsed_layout(layout_string@)->Some_0,
                layout_matches(layout, v),
                forall|j: int|
                    0 <= j < i ==> (#[trigger] layout.pointer_layouts@[j]).address_space == 0,
            decreases n - i,
        {
            if layout.pointer_layouts[i].address_space != 0 {
                proof {
                    broadcast use vstd::seq_lib::group_to_multiset_ensures;

                    let bad = layout.pointer_layouts@[i as int];
                    assert(layout.pointer_layouts@.contains(bad));
                    assert(layout.pointer_layouts@.to_multiset().count(bad) > 0);
                    assert(v.pointer_layouts.contains(bad));
                    let j = choose|j: int|
                        0 <= j < v.pointer_layouts.len() && v.pointer_layouts[j] == bad;
                    assert(v.pointer_layouts[j].address_space != 0);
                    assert(has_extra_address_spaces(v));
                }
                return Err(Error::UnsupportedAdditionalAddressSpaces);
            }
            i += 1;
        }
        if layout.alloc_address_space != 0 || layout.global_address_space != 0
            || layout.program_address_space != 0 {
            return Err(Error::UnsupportedAdditionalAddressSpaces);
        }
        if layout.nointptr_address_spaces.address_spaces.len() != 0 {
            proof {
                assert(v.nointptr_address_spaces.len() != 0);
                assert(!has_extra_address_spaces(v)) by {
                    lemma_same_pointer_spaces(layout.pointer_layouts@, v.pointer_layouts);
                }
            }
            return Err(Error::UnsupportedNonIntegralPointerConfiguration);
        }
        proof {
            assert(!has_extra_address_spaces(v)) by {
                lemma_same_pointer_spaces(layout.pointer_layouts@, v.pointer_layouts);
            }
        }
        Ok(layout)
    }

    /// Gathers the data for a module-level global and writes it into the
    /// `mod_map`.
    pub fn map_global(&self, global: &GlobalDescription, mod_map: &mut ModuleMap)
        ensures
            final(mod_map).globals@.len() == old(mod_map).globals@.len() + 1,
            forall|j: int|
                0 <= j < old(mod_map).globals@.len() ==> final(mod_map).globals@[j] == old(
                    mod_map,
                ).globals@[j],
            final(mod_map).globals@.last().0@ == global.name@,
            global_info_from(final(mod_map).globals@.last().1, *global),
            final(mod_map).functions@ == old(mod_map).functions@,
            final(mod_map).module_name == old(mod_map).module_name,
            final(mod_map).data_layout == old(mod_map).data_layout,
    {
        let kind = if global.is_declaration {
            TopLevelEntryKind::Declaration
        } else {
            TopLevelEntryKind::Definition
        };
        let info = GlobalInfo {
            kind,
            typ: global.typ.duplicate(),
            linkage: global.linkage,
            visibility: global.visibility,
            alignment: global.alignment,
            is_const: global.is_const,
            is_initialized: global.is_initialized,
        };
        let name = global.name.clone();
        mod_map.globals.push((name, info));
    }

    /// Gathers the data for a module-level function and writes it into the
    /// `mod_map`.
    ///
    /// A function named in the special intrinsics table takes its
    /// information from there; any other function is mapped directly from
    /// its description.
    pub fn map_function(&self, func: &FunctionDescription, mod_map: &mut ModuleMap)
        ensures
            final(mod_map).functions@.len() == old(mod_map).functions@.len() + 1,
            forall|j: int|
                0 <= j < old(mod_map).functions@.len() ==> final(mod_map).functions@[j] == old(
                    mod_map,
                ).functions@[j],
            final(mod_map).functions@.last().0@ == func.name@,
            has_name(self.intrinsics_table(), func.name@) ==> func_info_matches(
                final(mod_map).functions@.last().1,
                value_of_name(self.intrinsics_table(), func.name@),
            ),
            !has_name(self.intrinsics_table(), func.name@) ==> func_info_from(
                final(mod_map).functions@.last().1,
                *func,
            ),
            final(mod_map).globals@ == old(mod_map).globals@,
            final(mod_map).module_name == old(mod_map).module_name,
            final(mod_map).data_layout == old(mod_map).data_layout,
    {
        let name = func.name.clone();
        match self.special_intrinsics.info_for(&name) {
            Some(intrinsic) => {
                let info = intrinsic.duplicate();
                mod_map.functions.push((name, info));
            },
            None => {
                let kind = if func.is_declaration {
                    TopLevelEntryKind::Declaration
                } else {
                    TopLevelEntryKind::Definition
                };
                let info = FunctionInfo {
                    kind,
                    intrinsic: func.intrinsic_id != 0,
                    typ: func.typ.duplicate(),
                    linkage: func.linkage,
                    visibility: func.visibility,
                };
                mod_map.functions.push((name, info));
            },
        }
    }

    /// Generates a module map for the provided module in the source
    /// context, returning the module map if successful.
    pub fn map_module(&self, module: &SourceContext) -> (r: Result<ModuleMap, Error>)
        ensures
            match r {
                Ok(m) => module_map_of(m, *module, self.intrinsics_table()),
                Err(e) => !layout_accepted(module.data_layout@) && layout_error(
                    module.data_layout@,
                    e,
                ),
            },
    {
        let data_layout = match self.process_data_layout(module.data_layout.as_str()) {
            Ok(l) => l,
            Err(e) => {
                return Err(e);
            },
        };
        let mut mod_map = ModuleMap::new(module.module_name.as_str(), data_layout);
        let gn = module.globals.len();
        let mut i: usize = 0;
        while i < gn
            invariant
                i <= gn,
                gn == module.globals@.len(),
                mod_map.globals@.len() == i,
                forall|j: int|
                    0 <= j < i ==> (#[trigger] mod_map.globals@[j]).0@ == module.globals@[j].name@
                        && global_info_from(mod_map.globals@[j].1, module.globals@[j]),
                mod_map.functions@.len() == 0,
                parsed_layout(module.data_layout@) is Some,
                layout_matches(mod_map.data_layout, parsed_layout(module.data_layout@)->Some_0),
                layout_supported(parsed_layout(module.data_layout@)->Some_0),
                module.module_name@.len() > 0 ==> mod_map.module_name@ == module.module_name@,
                module.module_name@.len() == 0 ==> mod_map.module_name@.len() == 64,
            decreases gn - i,
        {
            self.map_global(&module.globals[i], &mut mod_map);
            i += 1;
        }
        let fnn = module.functions.len();
        let mut k: usize = 0;
        while k < fnn
            invariant
                k <= fnn,
                fnn == module.functions@.len(),
                mod_map.functions@.len() == k,
                forall|j: int|
                    0 <= j < k ==> (#[trigger] mod_map.functions@[j]).0@
                        == module.functions@[j].name@ && (has_name(
                        self.intrinsics_table(),
                        module.functions@[j].name@,
                    ) ==> func_info_matches(
                        mod_map.functions@[j].1,
                        value_of_name(self.intrinsics_table(), module.functions@[j].name@),
                    )) && (!has_name(self.intrinsics_table(), module.functions@[j].name@)
                        ==> func_info_from(mod_map.functions@[j].1, module.functions@[j])),
                gn == module.globals@.len(),
                mod_map.globals@.len() == gn,
                forall|j: int|
                    0 <= j < gn ==> (#[trigger] mod_map.globals@[j]).0@ == module.globals@[j].name@
                        && global_info_from(mod_map.globals@[j].1, module.globals@[j]),
                parsed_layout(module.data_layout@) is Some,
                layout_matches(mod_map.data_layout, parsed_layout(module.data_layout@)->Some_0),
                layout_supported(parsed_layout(module.data_layout@)->Some_0),
                module.module_name@.len() > 0 ==> mod_map.module_name@ == module.module_name@,
                module.module_name@.len() == 0 ==> mod_map.module_name@.len() == 64,
            decreases fnn - k,
        {
            self.map_function(&module.functions[k], &mut mod_map);
            k += 1;
        }
        Ok(mod_map)
    }
}

} // verus!
