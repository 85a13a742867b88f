//! The compiler's internal representation of the source IR's types, without
//! being tied to any foreign context handle.
//!
//! The enum deliberately does not match the source type system one to one:
//! it restricts the allowable types, particularly the integers, to the ones
//! this compiler cares about.

use vstd::prelude::*;
use vstd::string::{StrSliceExecFns, StringExecFns};

verus! {

/// A representation of the source IR's types for use within the compiler.
///
/// This type has value semantics; a reference to it is never stored.
#[derive(Debug, PartialEq, Eq)]
pub enum LLVMType {
    /// The boolean type, represented in the source IR by the 1-bit integer.
    Bool,

    /// The 8-bit wide integer type.
    I8,

    /// The 16-bit wide integer type.
    I16,

    /// The 32-bit wide integer type.
    I32,

    /// The 64-bit wide integer type.
    I64,

    /// The 128-bit wide integer type.
    I128,

    /// The 16-bit floating-point type.
    Half,

    /// The 32-bit floating-point type.
    Float,

    /// The 64-bit floating-point type.
    Double,

    /// The pointer type, always in the base address space.
    Ptr,

    /// The type of no value.
    Void,

    /// A sequential arrangement of a number of elements of one type.
    Array {
        /// The number of elements in the array type.
        count: usize,
        /// The type of elements in the array type.
        ty: Box<LLVMType>,
    },

    /// A number of element types laid out together in memory, accessed by
    /// index.
    Structure {
        /// If the structure is packed, it has one-byte alignment with no
        /// padding between elements.
        packed: bool,
        /// The element types in the structure type, in order.
        elements: Vec<LLVMType>,
    },

    /// A function signature.
    Function {
        /// The type returned from the function.
        return_type: Box<LLVMType>,
        /// The types of the parameters to the function, matched
        /// positionally.
        parameter_types: Vec<LLVMType>,
    },

    /// Embedded metadata used as a value has this type.
    Metadata,
}

impl LLVMType {
    /// Builds an array type of `elem_count` elements of type `elem_type`.
    pub fn make_array(elem_count: usize, elem_type: LLVMType) -> (r: LLVMType)
        ensures
            r == (LLVMType::Array { count: elem_count, ty: Box::new(elem_type) }),
    {
        LLVMType::Array { count: elem_count, ty: Box::new(elem_type) }
    }

    /// Creates a struct type from the provided `elem_types` and whether it
    /// is `packed`.
    pub fn make_struct(packed: bool, elem_types: Vec<LLVMType>) -> (r: LLVMType)
        ensures
            r matches LLVMType::Structure { packed: p, elements } && p == packed && elements@
                == elem_types@,
    {
        LLVMType::Structure { packed, elements: elem_types }
    }

    /// Creates a function type from the provided `return_type` and
    /// `param_types`.
    pub fn make_function(return_type: LLVMType, param_types: Vec<LLVMType>) -> (r: LLVMType)
        ensures
            r matches LLVMType::Function { return_type: rt, parameter_types } && *rt == return_type
                && parameter_types@ == param_types@,
    {
        LLVMType::Function { return_type: Box::new(return_type), parameter_types: param_types }
    }

    /// Structural equality of two types, field by field.
    pub open spec fn type_eq(a: LLVMType, b: LLVMType) -> bool
        decreases a, 0int,
    {
        match (a, b) {
            (LLVMType::Bool, LLVMType::Bool) => true,
            (LLVMType::I8, LLVMType::I8) => true,
            (LLVMType::I16, LLVMType::I16) => true,
            (LLVMType::I32, LLVMType::I32) => true,
            (LLVMType::I64, LLVMType::I64) => true,
            (LLVMType::I128, LLVMType::I128) => true,
            (LLVMType::Half, LLVMType::Half) => true,
            (LLVMType::Float, LLVMType::Float) => true,
            (LLVMType::Double, LLVMType::Double) => true,
            (LLVMType::Ptr, LLVMType::Ptr) => true,
            (LLVMType::Void, LLVMType::Void) => true,
            (LLVMType::Metadata, LLVMType::Metadata) => true,
            (LLVMType::Array { count: c1, ty: t1 }, LLVMType::Array { count: c2, ty: t2 }) => c1
                == c2 && LLVMType::type_eq(*t1, *t2),
            (
                LLVMType::Structure { packed: p1, elements: e1 },
                LLVMType::Structure { packed: p2, elements: e2 },
            ) => p1 == p2 && LLVMType::list_eq(e1, e2, 0),
            (
                LLVMType::Function { return_type: r1, parameter_types: a1 },
                LLVMType::Function { return_type: r2, parameter_types: a2 },
            ) => LLVMType::type_eq(*r1, *r2) && LLVMType::list_eq(a1, a2, 0),
            _ => false,
        }
    }

    /// Elementwise structural equality of two type lists from index `k` on.
    pub open spec fn list_eq(a: Vec<LLVMType>, b: Vec<LLVMType>, k: int) -> bool
        decreases a, a@.len() - k,
    {
        if a@.len() != b@.len() {
            false
        } else if k < 0 || k >= a@.len() {
            true
        } else {
            LLVMType::type_eq(a@[k], b@[k]) && LLVMType::list_eq(a, b, k + 1)
        }
    }

    /// Elementwise equality from `k` on is equivalent to the pointwise
    /// statement.
    pub proof fn lemma_list_eq_iff(a: Vec<LLVMType>, b: Vec<LLVMType>, k: int)
        requires
            0 <= k <= a@.len(),
        ensures
            LLVMType::list_eq(a, b, k) <==> (a@.len() == b@.len() && forall|j: int|
                k <= j < a@.len() ==> LLVMType::type_eq(#[trigger] a@[j], b@[j])),
        decreases a@.len() - k,
    {
        if k < a@.len() {
            LLVMType::lemma_list_eq_iff(a, b, k + 1);
        }
    }

    /// Checks if the type represented by `self` unifies with the type
    /// represented by `other`.
    ///
    /// This is currently purely an equality check; it exists so that more
    /// complex unification rules can be introduced seamlessly if needed.
    pub fn unifies_with(&self, other: &LLVMType) -> (r: bool)
        ensures
            r == LLVMType::type_eq(*self, *other),
        decreases self, 0int,
    {
        match (self, other) {
            (LLVMType::Bool, LLVMType::Bool) => true,
            (LLVMType::I8, LLVMType::I8) => true,
            (LLVMType::I16, LLVMType::I16) => true,
            (LLVMType::I32, LLVMType::I32) => true,
            (LLVMType::I64, LLVMType::I64) => true,
            (LLVMType::I128, LLVMType::I128) => true,
            (LLVMType::Half, LLVMType::Half) => true,
            (LLVMType::Float, LLVMType::Float) => true,
            (LLVMType::Double, LLVMType::Double) => true,
            (LLVMType::Ptr, LLVMType::Ptr) => true,
            (LLVMType::Void, LLVMType::Void) => true,
            (LLVMType::Metadata, LLVMType::Metadata) => true,
            (
                LLVMType::Array { count: c1, ty: t1 },
                LLVMType::Array { count: c2, ty: t2 },
            ) => c1 == c2 && t1.unifies_with(t2),
            (
                LLVMType::Structure { packed: p1, elements: e1 },
                LLVMType::Structure { packed: p2, elements: e2 },
            ) => p1 == p2 && LLVMType::all_unify(e1, e2, 0),
            (
                LLVMType::Function { return_type: r1, parameter_types: a1 },
                LLVMType::Function { return_type: r2, parameter_types: a2 },
            ) => r1.unifies_with(r2) && LLVMType::all_unify(a1, a2, 0),
            _ => false,
        }
    }

    /// Checks whether two type lists are equal elementwise from `k` on.
    fn all_unify(a: &Vec<LLVMType>, b: &Vec<LLVMType>, k: usize) -> (r: bool)
        requires
            k <= a@.len(),
        ensures
            r == LLVMType::list_eq(*a, *b, k as int),
        decreases *a, a@.len() - k,
    {
        if a.len() != b.len() {
            return false;
        }
        if k >= a.len() {
            return true;
        }
        a[k].unifies_with(&b[k]) && LLVMType::all_unify(a, b, k + 1)
    }

    /// Returns a deep copy of this type, structurally equal to the
    /// original.
    pub fn duplicate(&self) -> (r: LLVMType)
        ensures
            LLVMType::type_eq(r, *self),
        decreases self, 0int,
    {
        match self {
            LLVMType::Bool => LLVMType::Bool,
            LLVMType::I8 => LLVMType::I8,
            LLVMType::I16 => LLVMType::I16,
            LLVMType::I32 => LLVMType::I32,
            LLVMType::I64 => LLVMType::I64,
            LLVMType::I128 => LLVMType::I128,
            LLVMType::Half => LLVMType::Half,
            LLVMType::Float => LLVMType::Float,
            LLVMType::Double => LLVMType::Double,
            LLVMType::Ptr => LLVMType::Ptr,
            LLVMType::Void => LLVMType::Void,
            LLVMType::Metadata => LLVMType::Metadata,
            LLVMType::Array { count, ty } => LLVMType::Array {
                count: *count,
                ty: Box::new(ty.duplicate()),
            },
            LLVMType::Structure { packed, elements } => {
                let copies = LLVMType::duplicate_all(elements);
                proof {
                    LLVMType::lemma_list_eq_iff(copies, *elements, 0);
                }
                LLVMType::Structure { packed: *packed, elements: copies }
            },
            LLVMType::Function { return_type, parameter_types } => {
                let ret = return_type.duplicate();
                let copies = LLVMType::duplicate_all(parameter_types);
                proof {
                    LLVMType::lemma_list_eq_iff(copies, *parameter_types, 0);
                }
                LLVMType::Function { return_type: Box::new(ret), parameter_types: copies }
            },
        }
    }

    /// Returns a deep copy of a type list, elementwise structurally equal to
    /// the original.
    fn duplicate_all(a: &Vec<LLVMType>) -> (r: Vec<LLVMType>)
        ensures
            r@.len() == a@.len(),
            forall|j: int| 0 <= j < a@.len() ==> LLVMType::type_eq(#[trigger] r@[j], a@[j]),
        decreases *a, 0int,
    {
        let n = a.len();
        let mut out: Vec<LLVMType> = Vec::new();
        let mut i: usize = 0;
        while i < n
            invariant
                i <= n,
                n == a@.len(),
                out@.len() == i,
                forall|j: int| 0 <= j < i ==> LLVMType::type_eq(#[trigger] out@[j], a@[j]),
            decreases n - i,
        {
            let c = a[i].duplicate();
            out.push(c);
            i += 1;
        }
        out
    }

    /// Returns `true` if `self` is a primitive type, and `false` otherwise.
    pub fn is_prim(&self) -> (r: bool)
        ensures
            r == !(self is Array || self is Structure || self is Function || self is I16),
    {
        matches!(
            self,
            LLVMType::Bool
                | LLVMType::I8
                | LLVMType::I32
                | LLVMType::I64
                | LLVMType::I128
                | LLVMType::Half
                | LLVMType::Float
                | LLVMType::Double
                | LLVMType::Ptr
                | LLVMType::Void
                | LLVMType::Metadata
        )
    }

    /// Returns `true` if `self` is a compound type, and `false` otherwise.
    pub fn is_compound(&self) -> (r: bool)
        ensures
            r == (self is Array || self is Structure || self is Function || self is I16),
    {
        !self.is_prim()
    }

    /// Returns `true` if `self` is an integral type, and `false` otherwise.
    pub fn is_integral(&self) -> (r: bool)
        ensures
            r == (self is Bool || self is I8 || self is I16 || self is I32 || self is I64
                || self is I128),
    {
        matches!(
            self,
            LLVMType::Bool
                | LLVMType::I8
                | LLVMType::I16
                | LLVMType::I32
                | LLVMType::I64
                | LLVMType::I128
        )
    }

    /// Returns `true` if `self` is a floating-point type, and `false`
    /// otherwise.
    pub fn is_float(&self) -> (r: bool)
        ensures
            r == (self is Half || self is Float || self is Double),
    {
        matches!(self, LLVMType::Half | LLVMType::Float | LLVMType::Double)
    }

    /// The textual rendering of this type.
    pub open spec fn render(self) -> Seq<char>
        decreases self, 0int,
    {
        match self {
            LLVMType::Bool => "bool"@,
            LLVMType::I8 => "i8"@,
            LLVMType::I16 => "i16"@,
            LLVMType::I32 => "i32"@,
            LLVMType::I64 => "i64"@,
            LLVMType::I128 => "i128"@,
            LLVMType::Half => "half"@,
            LLVMType::Float => "float"@,
            LLVMType::Double => "double"@,
            LLVMType::Ptr => "ptr"@,
            LLVMType::Void => "void"@,
            LLVMType::Metadata => "metadata"@,
            LLVMType::Array { count, ty } => "["@ + ty.render() + "; "@
                + crate::format::dec_string_of(count as int) + "]"@,
            LLVMType::Structure { packed, elements } => {
                if packed {
                    "<{ "@ + LLVMType::render_list(elements, 0) + " }>"@
                } else {
                    "{ "@ + LLVMType::render_list(elements, 0) + " }"@
                }
            },
            LLVMType::Function { return_type, parameter_types } => "("@ + LLVMType::render_list(
                parameter_types,
                0,
            ) + ") -> "@ + return_type.render(),
        }
    }

    /// The comma-separated rendering of the types of `elems` from index `k`
    /// on.
    pub open spec fn render_list(elems: Vec<LLVMType>, k: int) -> Seq<char>
        decreases elems, elems@.len() - k,
    {
        if k < 0 || k >= elems@.len() {
            Seq::empty()
        } else if k == elems@.len() - 1 {
            elems@[k].render()
        } else {
            elems@[k].render() + ", "@ + LLVMType::render_list(elems, k + 1)
        }
    }

    /// Renders this type for a reader, matching the source IR's conventions
    /// where reasonable; array types use bracket syntax for clarity.
    pub fn to_string(&self) -> (r: String)
        ensures
            r@ == self.render(),
        decreases self, 0int,
    {
        let out = match self {
            LLVMType::Bool => String::from_str("bool"),
            LLVMType::I8 => String::from_str("i8"),
            LLVMType::I16 => String::from_str("i16"),
            LLVMType::I32 => String::from_str("i32"),
            LLVMType::I64 => String::from_str("i64"),
            LLVMType::I128 => String::from_str("i128"),
            LLVMType::Half => String::from_str("half"),
            LLVMType::Float => String::from_str("float"),
            LLVMType::Double => String::from_str("double"),
            LLVMType::Ptr => String::from_str("ptr"),
            LLVMType::Void => String::from_str("void"),
            LLVMType::Metadata => String::from_str("metadata"),
            LLVMType::Array { count, ty } => {
                let mut out = String::from_str("[");
                let inner = ty.to_string();
                out.append(inner.as_str());
                out.append("; ");
                let digits = crate::format::usize_to_string(*count);
                out.append(digits.as_str());
                out.append("]");
                out
            },
            LLVMType::Structure { packed, elements } => {
                let mut out = if *packed {
                    String::from_str("<{ ")
                } else {
                    String::from_str("{ ")
                };
                let list = LLVMType::to_string_list(elements, 0);
                out.append(list.as_str());
                if *packed {
                    out.append(" }>");
                } else {
                    out.append(" }");
                }
                out
            },
            LLVMType::Function { return_type, parameter_types } => {
                let mut out = String::from_str("(");
                let list = LLVMType::to_string_list(parameter_types, 0);
                out.append(list.as_str());
                out.append(") -> ");
                let ret = return_type.to_string();
                out.append(ret.as_str());
                out
            },
        };
        proof {
            assert(out@ =~= self.render());
        }
        out
    }

    /// Renders the types of `elems` from index `k` on, separated by commas.
    fn to_string_list(elems: &Vec<LLVMType>, k: usize) -> (r: String)
        requires
            k <= elems@.len(),
        ensures
            r@ == LLVMType::render_list(*elems, k as int),
        decreases *elems, elems@.len() - k,
    {
        let n = elems.len();
        if k >= n {
            String::new()
        } else if k == n - 1 {
            elems[k].to_string()
        } else {
            let mut s = elems[k].to_string();
            s.append(", ");
            let rest = LLVMType::to_string_list(elems, k + 1);
            s.append(rest.as_str());
            s
        }
    }
}

} // verus!
