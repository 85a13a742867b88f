//! A polyfill is an implementation of an operation the target CPU does not
//! support, written in terms of operations it does. This module holds the
//! bidirectional mapping between the source-IR names of such operations and
//! the names of the polyfills implementing them, so symbols not part of the
//! current translation unit can be linked externally.

use vstd::prelude::*;
use vstd::string::{StrSliceExecFns, StringExecFns};

pub mod mappings;

use crate::polyfill::mappings::{
    LLVM_UADD_WITH_OVERFLOW_I64_NAME, LLVM_UADD_WITH_OVERFLOW_I64_POLYFILL,
};

verus! {

/// The bidirectional hash map of the outside collection this module builds
/// on, declared so its values can flow through verified code.
#[verifier::external_type_specification]
#[verifier::external_body]
#[verifier::reject_recursive_types(L)]
#[verifier::reject_recursive_types(R)]
#[verifier::reject_recursive_types(LS)]
#[verifier::reject_recursive_types(RS)]
pub struct ExBiHashMap<L, R, LS, RS>(bimap::BiHashMap<L, R, LS, RS>);

/// The underlying bidirectional map from source-IR names to polyfill
/// names.
pub type NamePairs = bimap::BiMap<String, String>;

/// The pairs a name-to-polyfill map holds, as a map from the source-IR name
/// to the polyfill name.
pub uninterp spec fn polyfill_pairs(m: bimap::BiMap<String, String>) -> Map<Seq<char>, Seq<char>>;

/// Relies on `bimap::BiHashMap::new` to create the backing map; what the
/// fresh map holds is pinned by clearing it before first use.
#[verifier::external_body]
fn bimap_new() -> (r: NamePairs) {
    bimap::BiMap::new()
}

/// Relies on `bimap::BiHashMap::clear`: afterwards the map holds no pairs
/// at all — every key it held before is gone.
#[verifier::external_body]
fn bimap_clear(m: &mut bimap::BiMap<String, String>)
    ensures
        polyfill_pairs(*final(m)) == polyfill_pairs(*old(m)).remove_keys(
            polyfill_pairs(*old(m)).dom(),
        ),
{
    m.clear();
}

/// Relies on `bimap::BiHashMap::insert`: any pair sharing the new pair's
/// left value or right value is removed, and the new pair is added.
#[verifier::external_body]
fn bimap_insert(m: &mut bimap::BiMap<String, String>, left: String, right: String)
    ensures
        polyfill_pairs(*final(m)) == Map::new(
            |k: Seq<char>|
                (polyfill_pairs(*old(m)).dom().contains(k) && k != left@ && polyfill_pairs(
                    *old(m),
                )[k] != right@) || k == left@,
            |k: Seq<char>|
                if k == left@ {
                    right@
                } else {
                    polyfill_pairs(*old(m))[k]
                },
        ),
{
    m.insert(left, right);
}

/// Relies on `bimap::BiHashMap::get_by_left`: returns the right value of
/// the pair carrying the given left value, if that pair is present.
#[verifier::external_body]
fn bimap_get_by_left<'a>(m: &'a bimap::BiMap<String, String>, left: &String) -> (r: Option<
    &'a String,
>)
    ensures
        match r {
            Some(v) => polyfill_pairs(*m).dom().contains(left@) && polyfill_pairs(*m)[left@]
                == v@,
            None => !polyfill_pairs(*m).dom().contains(left@),
        },
{
    m.get_by_left(left)
}

/// Relies on `bimap::BiHashMap::get_by_right`: returns the left value of
/// the pair carrying the given right value, if such a pair is present; the
/// map holds at most one such pair.
#[verifier::external_body]
fn bimap_get_by_right<'a>(m: &'a bimap::BiMap<String, String>, right: &String) -> (r: Option<
    &'a String,
>)
    ensures
        match r {
            Some(v) => polyfill_pairs(*m).dom().contains(v@) && polyfill_pairs(*m)[v@] == right@,
            None => forall|k: Seq<char>|
                polyfill_pairs(*m).dom().contains(k) ==> polyfill_pairs(*m)[k] != right@,
        },
{
    m.get_by_right(right)
}

/// A bidirectional mapping from the source-IR names of operations to the
/// internal names of the corresponding polyfills.
///
/// Some source-IR opcodes map to potentially multiple implementations; for
/// such opcodes the expected name is given by [`PolyfillMap::of_opcode`].
#[derive(Debug)]
pub struct PolyfillMap {
    /// The mapping from source-IR names to the corresponding polyfill
    /// names.
    mapping: bimap::BiMap<String, String>,
}

impl PolyfillMap {
    /// The pairs of this map, from source-IR name to polyfill name.
    pub closed spec fn pairs(self) -> Map<Seq<char>, Seq<char>> {
        polyfill_pairs(self.mapping)
    }

    /// Constructs a new polyfill map from the provided `mapping`.
    pub fn new(mapping: bimap::BiMap<String, String>) -> (r: PolyfillMap)
        ensures
            r.pairs() == polyfill_pairs(mapping),
    {
        PolyfillMap { mapping }
    }

    /// Queries for the polyfill name that corresponds to the provided
    /// source-IR name, if it exists.
    pub fn polyfill(&self, llvm_name: &String) -> (r: Option<&String>)
        ensures
            match r {
                Some(v) => self.pairs().dom().contains(llvm_name@) && self.pairs()[llvm_name@]
                    == v@,
                None => !self.pairs().dom().contains(llvm_name@),
            },
    {
        bimap_get_by_left(&self.mapping, llvm_name)
    }

    /// Queries for the source-IR name that corresponds to the provided
    /// polyfill name, if it exists.
    pub fn llvm(&self, polyfill_name: &String) -> (r: Option<&String>)
        ensures
            match r {
                Some(v) => self.pairs().dom().contains(v@) && self.pairs()[v@] == polyfill_name@,
                None => forall|k: Seq<char>|
                    self.pairs().dom().contains(k) ==> self.pairs()[k] != polyfill_name@,
            },
    {
        bimap_get_by_right(&self.mapping, polyfill_name)
    }

    /// The expected polyfill name for an opcode applied at the given
    /// argument types, underscore-joined; an opcode with no argument types
    /// uses `void` in their place.
    ///
    /// This is a purely syntactic transformation: type aliases must already
    /// be resolved.
    pub fn of_opcode(opcode: &str, types: &Vec<String>) -> (r: String)
        ensures
            r@ == "__llvm_"@ + opcode@ + "_"@ + (if types@.len() == 0 {
                "void"@
            } else {
                PolyfillMap::joined_types(*types, 0)
            }),
    {
        let mut out = String::from_str("__llvm_");
        out.append(opcode);
        out.append("_");
        if types.len() == 0 {
            out.append("void");
            proof {
                assert(out@ =~= "__llvm_"@ + opcode@ + "_"@ + "void"@);
            }
        } else {
            let joined = PolyfillMap::join_from(types, 0);
            out.append(joined.as_str());
            proof {
                assert(out@ =~= "__llvm_"@ + opcode@ + "_"@ + PolyfillMap::joined_types(
                    *types,
                    0,
                ));
            }
        }
        out
    }

    /// The underscore-joined rendering of the types of `v` from index `k`
    /// on.
    pub open spec fn joined_types(v: Vec<String>, k: int) -> Seq<char>
        decreases v, v@.len() - k,
    {
        if k < 0 || k >= v@.len() {
            Seq::empty()
        } else if k == v@.len() - 1 {
            v@[k]@
        } else {
            v@[k]@ + "_"@ + PolyfillMap::joined_types(v, k + 1)
        }
    }

    /// Joins the types of `v` from index `k` on with underscores.
    fn join_from(v: &Vec<String>, k: usize) -> (r: String)
        requires
            k <= v@.len(),
        ensures
            r@ == PolyfillMap::joined_types(*v, k as int),
        decreases v@.len() - k,
    {
        let n = v.len();
        if k >= n {
            String::new()
        } else if k == n - 1 {
            v[k].clone()
        } else {
            let mut s = v[k].clone();
            s.append("_");
            let rest = PolyfillMap::join_from(v, k + 1);
            s.append(rest.as_str());
            s
        }
    }
}

impl Default for PolyfillMap {
    /// The default mapping from opcodes and builtins to the corresponding
    /// polyfill names.
    fn default() -> (r: PolyfillMap)
        ensures
            r.pairs() == Map::<Seq<char>, Seq<char>>::empty().insert(
                LLVM_UADD_WITH_OVERFLOW_I64_NAME@,
                LLVM_UADD_WITH_OVERFLOW_I64_POLYFILL@,
            ),
    {
        let mut mapping = bimap_new();
        bimap_clear(&mut mapping);
        bimap_insert(
            &mut mapping,
            String::from_str(LLVM_UADD_WITH_OVERFLOW_I64_NAME),
            String::from_str(LLVM_UADD_WITH_OVERFLOW_I64_POLYFILL),
        );
        PolyfillMap::new(mapping)
    }
}

} // verus!
