//! The poison mechanism: a capability that every interned value type
//! implements, marking a slot as valid, reserved, or intentionally invalid.

use vstd::prelude::*;

verus! {

/// Indicates whether a containing object is a _poison value_, and thus should
/// not be included in reasonable use.
#[derive(Clone, Debug, PartialEq, Eq)]
pub enum PoisonType {
    /// The object is not a poison value.
    Valid,

    /// The value has been manually poisoned, along with an informational
    /// message regarding why.
    Poison(String),

    /// The entry refers to an object that is declared, but not yet defined.
    Undefined,

    /// A block that never should be reached, or a variable that should not
    /// ever be accessed.
    Unreachable,

    /// The value of the reserved null interned entry, which sits at
    /// identifier zero and guards against logic bugs.
    NullInternedValue,
}

impl PoisonType {
    /// Returns true iff the given `PoisonType` indicates a poison.
    pub fn is_poisoned(&self) -> (r: bool)
        ensures
            r == (*self != PoisonType::Valid),
    {
        !(matches!(self, PoisonType::Valid))
    }
}

impl Default for PoisonType {
    fn default() -> (r: Self)
        ensures
            r == PoisonType::Valid,
    {
        PoisonType::Valid
    }
}

/// A capability for values that can be considered poisoned.
///
/// Two structural shapes satisfy it: record types carry an explicit `poison`
/// field, and sum-type entities represent poisoning as a dedicated variant.
/// Either way, `poison_of` names the marker a value carries, and the two
/// methods construct and observe it.
pub trait Poisonable: Sized {
    /// The poison marker carried by this value.
    spec fn poison_of(&self) -> PoisonType;

    /// Returns a poison value of type `Self` carrying the given marker.
    fn get_poison_value(typ: PoisonType) -> (r: Self)
        ensures
            r.poison_of() == typ;

    /// Returns whether the given value is poisoned.
    fn is_poisoned(value: &Self) -> (r: bool)
        ensures
            r == (value.poison_of() != PoisonType::Valid);

    /// Returns whether the given value's marker is tolerated at non-partial
    /// emission: only a valid or intentionally unreachable entity may then
    /// be present under a non-reserved identifier.
    fn emission_tolerable(value: &Self) -> (r: bool)
        ensures
            r == (value.poison_of() is Valid || value.poison_of() is Unreachable);
}

} // verus!
