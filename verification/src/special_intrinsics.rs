//! Source-IR intrinsic functions whose signatures cannot be introspected
//! and are instead handled by delegating to known signatures: the debug
//! intrinsics taking metadata-typed arguments.

use vstd::prelude::*;
use vstd::string::StringExecFns;

use crate::context::{GlobalVisibility, Linkage};
use crate::llvm::TopLevelEntryKind;
use crate::module_map::FunctionInfo;
use crate::named::{find_name, has_name, lemma_name_index_props, name_index, value_of_name};
use crate::typesystem::LLVMType;

verus! {

/// Whether `info` describes an external debug intrinsic declaration taking
/// `arity` metadata arguments and returning nothing.
pub open spec fn debug_intrinsic_info(info: FunctionInfo, arity: int) -> bool {
    &&& info.kind == TopLevelEntryKind::Declaration
    &&& info.intrinsic
    &&& info.linkage == Linkage::External
    &&& info.visibility == GlobalVisibility::Default
    &&& info.typ matches LLVMType::Function { return_type, parameter_types } && *return_type
        == LLVMType::Void && parameter_types@.len() == arity && (forall|j: int|
        0 <= j < arity ==> parameter_types@[j] == LLVMType::Metadata)
}

/// The canonical special-intrinsics table: exactly the three debug
/// intrinsics, in this order, and nothing else.
pub open spec fn standard_intrinsics(s: Seq<(String, FunctionInfo)>) -> bool {
    &&& s.len() == 3
    &&& s[0].0@ == "llvm.dbg.declare"@
    &&& debug_intrinsic_info(s[0].1, 3)
    &&& s[1].0@ == "llvm.dbg.value"@
    &&& debug_intrinsic_info(s[1].1, 3)
    &&& s[2].0@ == "llvm.dbg.assign"@
    &&& debug_intrinsic_info(s[2].1, 5)
}

/// A registry of source-IR intrinsic functions that need to be handled
/// specially.
#[derive(Debug, PartialEq, Eq)]
pub struct SpecialIntrinsics {
    /// The intrinsics that need to be handled specially, by name.
    intrinsics: Vec<(String, FunctionInfo)>,
}

impl SpecialIntrinsics {
    /// The table of intrinsics, in order.
    pub closed spec fn raw(self) -> Seq<(String, FunctionInfo)> {
        self.intrinsics@
    }

    /// Builds a metadata-taking debug intrinsic signature of the given
    /// arity.
    fn debug_intrinsic(arity: usize) -> (r: FunctionInfo)
        ensures
            debug_intrinsic_info(r, arity as int),
    {
        let mut params: Vec<LLVMType> = Vec::new();
        let mut i: usize = 0;
        while i < arity
            invariant
                i <= arity,
                params@.len() == i,
                forall|j: int| 0 <= j < i ==> params@[j] == LLVMType::Metadata,
            decreases arity - i,
        {
            params.push(LLVMType::Metadata);
            i += 1;
        }
        FunctionInfo {
            kind: TopLevelEntryKind::Declaration,
            intrinsic: true,
            typ: LLVMType::make_function(LLVMType::Void, params),
            linkage: Linkage::External,
            visibility: GlobalVisibility::Default,
        }
    }

    /// Constructs the special intrinsics mapping, providing the appropriate
    /// metadata for the intrinsics handled specially.
    pub fn new() -> (r: SpecialIntrinsics)
        ensures
            standard_intrinsics(r.raw()),
            has_name(r.raw(), "llvm.dbg.declare"@),
            debug_intrinsic_info(value_of_name(r.raw(), "llvm.dbg.declare"@), 3),
            has_name(r.raw(), "llvm.dbg.value"@),
            debug_intrinsic_info(value_of_name(r.raw(), "llvm.dbg.value"@), 3),
            has_name(r.raw(), "llvm.dbg.assign"@),
            debug_intrinsic_info(value_of_name(r.raw(), "llvm.dbg.assign"@), 5),
    {
        let mut intrinsics: Vec<(String, FunctionInfo)> = Vec::new();
        intrinsics.push(
            (String::from_str("llvm.dbg.declare"), SpecialIntrinsics::debug_intrinsic(3)),
        );
        intrinsics.push((String::from_str("llvm.dbg.value"), SpecialIntrinsics::debug_intrinsic(3)));
        intrinsics.push(
            (String::from_str("llvm.dbg.assign"), SpecialIntrinsics::debug_intrinsic(5)),
        );
        let r = SpecialIntrinsics { intrinsics };
        proof {
            reveal_strlit("llvm.dbg.declare");
            reveal_strlit("llvm.dbg.value");
            reveal_strlit("llvm.dbg.assign");
            let s = r.intrinsics@;
            assert(s.len() == 3);
            assert(name_index(s, "llvm.dbg.declare"@) == 0);
            let t1 = s.subrange(1, 3);
            assert(t1[0].0@ == "llvm.dbg.value"@);
            assert(name_index(t1, "llvm.dbg.value"@) == 0);
            assert(name_index(s, "llvm.dbg.value"@) == 1);
            let t2 = t1.subrange(1, 2);
            assert(t2[0].0@ == "llvm.dbg.assign"@);
            assert(name_index(t2, "llvm.dbg.assign"@) == 0);
            assert(name_index(t1, "llvm.dbg.assign"@) == 1);
            assert(name_index(s, "llvm.dbg.assign"@) == 2);
        }
        r
    }

    /// Gets the function information for `function_name` if it exists, and
    /// returns `None` otherwise.
    pub fn info_for(&self, function_name: &String) -> (r: Option<&FunctionInfo>)
        ensures
            match r {
                Some(info) => has_name(self.raw(), function_name@) && *info == value_of_name(
                    self.raw(),
                    function_name@,
                ),
                None => !has_name(self.raw(), function_name@),
            },
    {
        find_name(&self.intrinsics, function_name)
    }

    /// Gets the function information for `function_name`, which must exist
    /// in the special intrinsics container.
    pub fn info_for_unchecked(&self, function_name: &String) -> (r: &FunctionInfo)
        requires
            has_name(self.raw(), function_name@),
        ensures
            *r == value_of_name(self.raw(), function_name@),
    {
        match self.info_for(function_name) {
            Some(info) => info,
            // Unreachable: the requires clause guarantees the name is known.
            None => vstd::pervasive::unreached(),
        }
    }
}

} // verus!
