//! Useful constants for the data-layout rules.

use vstd::prelude::*;

verus! {

/// The size of a byte on the target architecture, in bits.
pub const BYTE_SIZE: usize = 8;

} // verus!
