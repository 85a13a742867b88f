//! The default polyfill mappings used by the compiler.

use vstd::prelude::*;

verus! {

/// The source-IR name of the 64-bit unsigned overflowing addition
/// intrinsic.
pub const LLVM_UADD_WITH_OVERFLOW_I64_NAME: &'static str = "llvm.uadd.with.overflow.i64";

/// The polyfill name implementing the 64-bit unsigned overflowing addition
/// intrinsic.
pub const LLVM_UADD_WITH_OVERFLOW_I64_POLYFILL: &'static str =
    "__llvm_uadd_with_overflow_i64_i64";

} // verus!
