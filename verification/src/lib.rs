//! The front-end core of a compiler that lowers a virtual-ISA program
//! representation into a serializable intermediate object format.
//!
//! The crate has two tightly coupled halves:
//!
//! - The object representation: a content-addressed, interned data model of
//!   blocks, statements, variables, types, diagnostics and locations, with a
//!   formal partial-validity ("poison") mechanism and a textual serialization
//!   format.
//! - The pass framework: a scheduler that resolves a dependency-respecting
//!   execution order over a set of named passes and threads a keyed result
//!   map between them.

pub mod compile;
pub mod constant;
pub mod context;
pub mod data_layout;
pub mod errors;
pub mod flo;
pub mod format;
pub mod intern;
pub mod llvm;
pub mod module_map;
pub mod named;
pub mod parsing;
pub mod pass;
pub mod polyfill;
pub mod pass_data;
pub mod typesystem;
pub mod poison;
pub mod special_intrinsics;
pub mod symbols;
pub mod types;

pub use poison::PoisonType;
