//! The data model of the object format: blocks, statements, variables,
//! types, diagnostics and locations, each carrying a poison marker and
//! referring to other entities only by interned identifier.

use vstd::prelude::*;

use crate::poison::{Poisonable, PoisonType};

verus! {

/// A reference to a [`Block`] in the object's interning tables.
pub type BlockId = usize;

/// A reference to a [`Statement`] in the object's interning tables.
pub type StatementId = usize;

/// A reference to a [`Variable`] in the object's interning tables.
pub type VariableId = usize;

/// A reference to an [`ArrayType`] in the object's interning tables.
pub type ArrayTypeId = usize;

/// A reference to a [`StructType`] in the object's interning tables.
pub type StructTypeId = usize;

/// A reference to a [`Diagnostic`] in the object's interning tables.
pub type DiagnosticId = usize;

/// A reference to a [`Location`] in the object's interning tables.
pub type LocationId = usize;

/// A reference to a [`MatchArm`] in the object's interning tables.
pub type MatchArmId = usize;

/// A string symbol that can be used to find a function at link time.
pub type FunctionSymbol = String;

/// A string symbol that can be used to find a variable at link time.
pub type DataSymbol = String;

/// A Signature contains the metadata necessary to call a function.
///
/// Signatures are stored within the relevant [`Block`], and thus are not
/// interned.
#[derive(Clone, Debug, PartialEq, Eq)]
pub struct Signature {
    /// The parameters expected to be passed to this function during a call.
    pub params: Vec<VariableId>,

    /// The values returned by the eventual `Return` block exit.
    pub returns: Vec<VariableId>,

    /// Set to true if any part of the function path can panic.
    pub can_panic: bool,

    /// The source location associated with this function, if available.
    pub location: Option<LocationId>,
}

/// The action performed once the execution of a [`Block`] is complete.
#[derive(Clone, Debug, PartialEq, Eq)]
pub enum BlockExit {
    /// Control flow returns to the caller with the listed variables.
    Return(Vec<VariableId>),

    /// A panic is generated, with a format string and printed variables.
    Panic(String, Vec<VariableId>),

    /// Execution continues at the block with the provided identifier.
    Goto(BlockId),

    /// Execution continues at the block of the first matching arm.
    Match(Vec<MatchArmId>),

    /// **For internal use:** the exit is unspecified, e.g. as part of a
    /// poisoned [`Block`]. Encountering it during final emission is an error.
    Unspecified,
}

/// A Block is a linear, single-entry code path composed of a series of
/// [`Statement`]s and terminating in a [`BlockExit`].
#[derive(Clone, Debug, PartialEq, Eq)]
pub struct Block {
    /// Metadata present iff this block is an entry point to a function.
    pub signature: Option<Signature>,

    /// The poison marker of this block; usually not a poison.
    pub poison: PoisonType,

    /// The ordered list of statements executed in this block.
    pub statements: Vec<StatementId>,

    /// The action performed after all statements of this block.
    pub exit: BlockExit,

    /// Any diagnostic metadata tagged onto this block.
    pub diagnostics: Vec<DiagnosticId>,
}

/// A reference to a block: either local by identifier, or to be resolved by
/// symbol at link time.
#[derive(Clone, Debug, PartialEq, Eq)]
pub enum BlockRef {
    /// A block in the local translation unit.
    Local(BlockId),

    /// A block identified by a mangled symbol name, resolved at link time.
    External(String),

    /// A symbol located in the implementation's runtime library.
    Builtin(String),

    /// **For internal use:** the target is unspecified, e.g. as part of a
    /// poisoned entity.
    Unspecified,
}

/// Assigns a constant value to a given SSA variable.
#[derive(Clone, Debug, PartialEq, Eq)]
pub struct AssignConstStatement {
    /// The variable to be assigned to.
    pub variable: VariableId,

    /// The constant value to be assigned.
    pub value: ConstantValue,

    /// Any diagnostics associated with this statement.
    pub diagnostics: Vec<DiagnosticId>,

    /// The source location associated with this statement, if available.
    pub location: Option<LocationId>,
}

/// Calls a target function.
#[derive(Clone, Debug, PartialEq, Eq)]
pub struct CallStatement {
    /// A reference to the block to be called.
    pub block: BlockRef,

    /// The inputs to the call.
    pub input: Vec<VariableId>,

    /// The values received from the call as return values.
    pub outputs: Vec<VariableId>,

    /// Any diagnostics associated with this statement.
    pub diagnostics: Vec<DiagnosticId>,

    /// The source location associated with this statement, if available.
    pub location: Option<LocationId>,
}

/// Constructs a new instance of a constructable type; the type of the
/// constructed object is determined by the type of the target variable.
#[derive(Clone, Debug, PartialEq, Eq)]
pub struct ConstructStatement {
    /// The variable the constructed object is to be bound to.
    pub target: VariableId,

    /// The variables used to initialize the constructed object.
    pub initializier: Vec<VariableId>,

    /// Any diagnostics associated with this statement.
    pub diagnostics: Vec<DiagnosticId>,

    /// The source location associated with this statement, if available.
    pub location: Option<LocationId>,
}

/// Breaks a composite type into variables equivalent to each of its members.
#[derive(Clone, Debug, PartialEq, Eq)]
pub struct DestructureStatement {
    /// The single variable to be deconstructed into its constituent parts.
    pub whole: VariableId,

    /// The variables made equivalent to the components, in order.
    pub parts: Vec<VariableId>,

    /// Any diagnostics associated with this statement.
    pub diagnostics: Vec<DiagnosticId>,

    /// The source location associated with this statement, if available.
    pub location: Option<LocationId>,
}

/// Takes a snapshot of a given variable's value at the current time.
#[derive(Clone, Debug, PartialEq, Eq)]
pub struct SnapStatement {
    /// The variable the snapshot is bound to.
    pub target: VariableId,

    /// The variable of which a snapshot is taken.
    pub source: VariableId,

    /// Any diagnostics associated with this statement.
    pub diagnostics: Vec<DiagnosticId>,

    /// The source location associated with this statement, if available.
    pub location: Option<LocationId>,
}

/// Dereferences a snapshot, binding a new variable to the value captured at
/// snapshot time.
#[derive(Clone, Debug, PartialEq, Eq)]
pub struct DesnapStatement {
    /// The snapshot variable to be converted back into a concrete value.
    pub snap: VariableId,

    /// The variable populated with the snapshotted value.
    pub target: VariableId,

    /// Any diagnostics associated with this statement.
    pub diagnostics: Vec<DiagnosticId>,

    /// The source location associated with this statement, if available.
    pub location: Option<LocationId>,
}

/// Describes a single step in program execution.
#[derive(Clone, Debug, PartialEq, Eq)]
pub enum Statement {
    /// Assigns a constant value to an SSA variable.
    AssignConst(AssignConstStatement),

    /// Calls a function, either locally or by symbol name.
    Call(CallStatement),

    /// Constructs a new instance of a composite type.
    Construct(ConstructStatement),

    /// Breaks a composite type into variables equivalent to its members.
    Destructure(DestructureStatement),

    /// Takes a snapshot of a given variable's value.
    Snap(SnapStatement),

    /// Dereferences a snapshot.
    Desnap(DesnapStatement),

    /// **For internal use:** this statement is poisoned.
    Poisoned(PoisonType),
}

/// Specifies where a given variable's storage lives.
#[derive(Clone, Debug, PartialEq, Eq)]
pub enum VariableLinkage {
    /// The variable exists directly in this translation unit.
    Local,

    /// The variable exists in another translation unit, resolved by symbol.
    External(String),

    /// The variable is provided by the compiler implementation.
    Builtin(String),

    /// **For internal use:** the linkage is unspecified, e.g. as part of a
    /// poisoned [`Variable`].
    Unspecified,
}

/// The simple or composite type of an SSA variable.
#[derive(Clone, Debug, PartialEq, Eq)]
pub enum Type {
    /// The empty type.
    Void,

    /// The boolean type.
    Bool,

    /// An enumeration discriminant type.
    Enum,

    /// The 8-bit unsigned integer type.
    Unsigned8,

    /// The 16-bit unsigned integer type.
    Unsigned16,

    /// The 32-bit unsigned integer type.
    Unsigned32,

    /// The 64-bit unsigned integer type.
    Unsigned64,

    /// The 128-bit unsigned integer type.
    Unsigned128,

    /// The 8-bit signed integer type.
    Signed8,

    /// The 16-bit signed integer type.
    Signed16,

    /// The 32-bit signed integer type.
    Signed32,

    /// The 64-bit signed integer type.
    Signed64,

    /// The 128-bit signed integer type.
    Signed128,

    /// The 32-bit floating-point type.
    Float,

    /// The 64-bit floating-point type.
    Double,

    /// The pointer type.
    Pointer,

    /// The snapshot type.
    Snapshot,

    /// A fixed-size array type, referred to by identifier.
    Array(ArrayTypeId),

    /// A struct type, referred to by identifier.
    Struct(StructTypeId),

    /// **For internal use:** the type is unspecified, e.g. as part of a
    /// poisoned [`Variable`].
    Unspecified,
}

impl Type {
    /// Returns true iff the given type is composite, and thus can be used
    /// with `Construct` or `Destructure`.
    pub fn is_composite(&self) -> (r: bool)
        ensures
            r == (self is Array || self is Struct),
    {
        matches!(self, Type::Array(_)) || matches!(self, Type::Struct(_))
    }
}

/// Represents an SSA variable, simple or composite, with basic metadata.
#[derive(Clone, Debug, PartialEq, Eq)]
pub struct Variable {
    /// The type of the variable.
    pub typ: Type,

    /// Whether this variable is local to this translation unit or linked
    /// later, with the information necessary to link it.
    pub linkage: VariableLinkage,

    /// The poison marker of this variable; usually not a poison.
    pub poison: PoisonType,

    /// Any diagnostics associated with this variable.
    pub diagnostics: Vec<DiagnosticId>,

    /// The source location associated with this variable, if available.
    pub location: Option<LocationId>,
}

/// A fixed-size, contiguous array of a single element type. The size is part
/// of the type.
#[derive(Clone, Debug, PartialEq, Eq)]
pub struct ArrayType {
    /// The single type of all members in the type.
    pub member_type: Type,

    /// The length of the array, in elements.
    pub length: usize,

    /// Any diagnostics associated with this type.
    pub diagnostics: Vec<DiagnosticId>,

    /// The source location associated with this type, if available.
    pub location: Option<LocationId>,

    /// The poison marker of this type; usually not a poison.
    pub poison: PoisonType,
}

/// An ordered list of types that can be destructured to access their parts.
#[derive(Clone, Debug, PartialEq, Eq)]
pub struct StructType {
    /// The types of each member of this composite type, in order.
    pub members: Vec<Type>,

    /// Any diagnostics associated with this type.
    pub diagnostics: Vec<DiagnosticId>,

    /// The source location associated with this type, if available.
    pub location: Option<LocationId>,

    /// The poison marker of this type; usually not a poison.
    pub poison: PoisonType,
}

/// A simple string message that can be associated with a given object, with
/// an optional associated [`Location`].
#[derive(Clone, Debug, PartialEq, Eq)]
pub struct Diagnostic {
    /// The core string for the message.
    pub message: String,

    /// The poison marker of this diagnostic; usually not a poison.
    pub poison: PoisonType,

    /// The source location associated with this diagnostic, if available.
    pub location: Option<LocationId>,
}

/// A simple pointer to a piece of source material, for diagnostic and
/// debugging purposes.
#[derive(Clone, Debug, PartialEq, Eq)]
pub struct Location {
    /// The source context being described, usually a file path.
    pub source: String,

    /// The line number in the relevant source file, if available; zero is
    /// never used as a line number.
    pub line: Option<u32>,

    /// The column number in the relevant source file, if available; zero is
    /// never used as a column number.
    pub col: Option<u32>,

    /// The poison marker of this location; usually not a poison.
    pub poison: PoisonType,
}

/// A single arm of a match exit: directs control flow to the target block if
/// the condition variable, of boolean type, is true.
#[derive(Clone, Debug, PartialEq, Eq)]
pub struct MatchArm {
    /// A variable of boolean type that determines whether this arm is taken.
    pub condition: VariableId,

    /// The target for the jump if the match condition is met.
    pub target_block: BlockRef,

    /// The poison marker of this arm; usually not a poison.
    pub poison: PoisonType,

    /// Any diagnostics associated with this arm.
    pub diagnostics: Vec<DiagnosticId>,

    /// The source location associated with this arm, if available.
    pub location: Option<LocationId>,
}

/// A simple constant with a fixed type.
#[derive(Clone, Debug, PartialEq, Eq)]
pub struct ConstantValue {
    /// The constant value; should fit within the constraints of the
    /// specified type.
    pub value: u128,

    /// The type of the constant.
    pub typ: Type,
}

impl Poisonable for Block {
    open spec fn poison_of(&self) -> PoisonType {
        self.poison
    }

    fn get_poison_value(typ: PoisonType) -> (r: Self) {
        Block {
            signature: None,
            poison: typ,
            statements: Vec::new(),
            exit: BlockExit::Unspecified,
            diagnostics: Vec::new(),
        }
    }

    fn is_poisoned(value: &Self) -> (r: bool) {
        value.poison.is_poisoned()
    }

    fn emission_tolerable(value: &Self) -> (r: bool) {
        matches!(value.poison, PoisonType::Valid | PoisonType::Unreachable)
    }
}

impl Poisonable for MatchArm {
    open spec fn poison_of(&self) -> PoisonType {
        self.poison
    }

    fn get_poison_value(typ: PoisonType) -> (r: Self) {
        MatchArm {
            condition: 0,
            target_block: BlockRef::Unspecified,
            poison: typ,
            diagnostics: Vec::new(),
            location: None,
        }
    }

    fn is_poisoned(value: &Self) -> (r: bool) {
        value.poison.is_poisoned()
    }

    fn emission_tolerable(value: &Self) -> (r: bool) {
        matches!(value.poison, PoisonType::Valid | PoisonType::Unreachable)
    }
}

impl Poisonable for Variable {
    open spec fn poison_of(&self) -> PoisonType {
        self.poison
    }

    fn get_poison_value(typ: PoisonType) -> (r: Self) {
        Variable {
            typ: Type::Unspecified,
            linkage: VariableLinkage::Unspecified,
            poison: typ,
            diagnostics: Vec::new(),
            location: None,
        }
    }

    fn is_poisoned(value: &Self) -> (r: bool) {
        value.poison.is_poisoned()
    }

    fn emission_tolerable(value: &Self) -> (r: bool) {
        matches!(value.poison, PoisonType::Valid | PoisonType::Unreachable)
    }
}

impl Poisonable for Diagnostic {
    open spec fn poison_of(&self) -> PoisonType {
        self.poison
    }

    fn get_poison_value(typ: PoisonType) -> (r: Self) {
        Diagnostic { message: String::new(), poison: typ, location: None }
    }

    fn is_poisoned(value: &Self) -> (r: bool) {
        value.poison.is_poisoned()
    }

    fn emission_tolerable(value: &Self) -> (r: bool) {
        matches!(value.poison, PoisonType::Valid | PoisonType::Unreachable)
    }
}

impl Poisonable for Location {
    open spec fn poison_of(&self) -> PoisonType {
        self.poison
    }

    fn get_poison_value(typ: PoisonType) -> (r: Self) {
        Location { source: String::new(), line: None, col: None, poison: typ }
    }

    fn is_poisoned(value: &Self) -> (r: bool) {
        value.poison.is_poisoned()
    }

    fn emission_tolerable(value: &Self) -> (r: bool) {
        matches!(value.poison, PoisonType::Valid | PoisonType::Unreachable)
    }
}

impl Poisonable for ArrayType {
    open spec fn poison_of(&self) -> PoisonType {
        self.poison
    }

    fn get_poison_value(typ: PoisonType) -> (r: Self) {
        ArrayType {
            member_type: Type::Unspecified,
            length: 0,
            diagnostics: Vec::new(),
            location: None,
            poison: typ,
        }
    }

    fn is_poisoned(value: &Self) -> (r: bool) {
        value.poison.is_poisoned()
    }

    fn emission_tolerable(value: &Self) -> (r: bool) {
        matches!(value.poison, PoisonType::Valid | PoisonType::Unreachable)
    }
}

impl Poisonable for StructType {
    open spec fn poison_of(&self) -> PoisonType {
        self.poison
    }

    fn get_poison_value(typ: PoisonType) -> (r: Self) {
        StructType { members: Vec::new(), diagnostics: Vec::new(), location: None, poison: typ }
    }

    fn is_poisoned(value: &Self) -> (r: bool) {
        value.poison.is_poisoned()
    }

    fn emission_tolerable(value: &Self) -> (r: bool) {
        matches!(value.poison, PoisonType::Valid | PoisonType::Unreachable)
    }
}

impl Poisonable for Statement {
    open spec fn poison_of(&self) -> PoisonType {
        match *self {
            Statement::Poisoned(t) => t,
            _ => PoisonType::Valid,
        }
    }

    fn get_poison_value(typ: PoisonType) -> (r: Self) {
        Statement::Poisoned(typ)
    }

    fn is_poisoned(value: &Self) -> (r: bool) {
        match value {
            Statement::Poisoned(t) => t.is_poisoned(),
            _ => false,
        }
    }

    fn emission_tolerable(value: &Self) -> (r: bool) {
        match value {
            Statement::Poisoned(t) => matches!(t, PoisonType::Valid | PoisonType::Unreachable),
            _ => true,
        }
    }
}

} // verus!
