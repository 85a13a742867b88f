//! The in-memory object representation: the serializable unit this compiler
//! builds toward.
//!
//! The object owns one intern table per entity kind, two bidirectional
//! symbol tables, and pipeline metadata. It is mutated incrementally during
//! construction, and validated for poison-freedom when serialized, unless
//! it was created in partial mode.

use vstd::prelude::*;
use vstd::string::{StrSliceExecFns, StringExecFns};

use crate::errors::Error;
use crate::format::{lemma_tokens_text_push, render_tokens, token_text, tokenize, tokens_text, Token};
use crate::intern::{InternTable, NULL_INTERNED_ID, RESERVED_UNDEFINED_ID};
use crate::poison::{Poisonable, PoisonType};
use crate::symbols::SymbolTable;
use crate::types::{
    ArrayType, Block, BlockExit, BlockRef, ConstantValue, Diagnostic, Location, MatchArm,
    Signature, Statement, StructType, Type, Variable, VariableLinkage,
    AssignConstStatement, CallStatement, ConstructStatement, DesnapStatement,
    DestructureStatement, SnapStatement,
};

verus! {

/// The two symbol tables of an object: function symbols to block
/// identifiers, and data symbols to variable identifiers.
#[derive(Debug, PartialEq, Eq)]
pub struct SymbolTables {
    /// The symbol table for function-pointing symbols.
    pub code: SymbolTable,

    /// The symbol table for data-pointing symbols.
    pub data: SymbolTable,
}

impl SymbolTables {
    /// Creates a new set of empty symbol tables.
    pub fn new() -> (r: SymbolTables)
        ensures
            r.code.wf(),
            r.data.wf(),
            r.code.raw().len() == 0,
            r.data.raw().len() == 0,
    {
        SymbolTables { code: SymbolTable::new(), data: SymbolTable::new() }
    }
}

/// The two type-definition tables of an object.
#[derive(Debug, PartialEq, Eq)]
pub struct TypeTables {
    /// Stores the definitions of the array types.
    pub arrays: InternTable<ArrayType>,

    /// Stores the definitions of the struct types.
    pub structs: InternTable<StructType>,
}

impl TypeTables {
    /// Creates a new set of empty type tables.
    pub fn new() -> (r: TypeTables)
        ensures
            r.arrays.wf(),
            r.structs.wf(),
            crate::intern::fresh_table(r.arrays),
            crate::intern::fresh_table(r.structs),
            r.arrays.cursor() == 1,
            r.structs.cursor() == 1,
    {
        TypeTables { arrays: InternTable::new(), structs: InternTable::new() }
    }
}

/// Whether an entry's poison marker is tolerated at non-partial emission:
/// only a valid or intentionally unreachable entity may be reachable then.
pub open spec fn entry_poison_ok(p: PoisonType) -> bool {
    p is Valid || p is Unreachable
}

/// Whether every non-reserved entry of the table carries a tolerated poison
/// marker.
pub open spec fn table_clean<V: Poisonable>(t: InternTable<V>) -> bool {
    forall|id: usize|
        #![trigger t.value_of(id)]
        t.contains_id(id) && id != NULL_INTERNED_ID && id != RESERVED_UNDEFINED_ID
            ==> entry_poison_ok(t.value_of(id).poison_of())
}

/// Checks every non-reserved entry of the table for a tolerated poison
/// marker.
fn check_table_clean<V: Poisonable>(t: &InternTable<V>) -> (r: bool)
    requires
        t.wf(),
    ensures
        r == table_clean(*t),
{
    let ghost s = t.raw();
    let entries = t.entries();
    let n = entries.len();
    let mut i: usize = 0;
    while i < n
        invariant
            i <= n,
            n == s.len(),
            s == t.raw(),
            t.wf(),
            entries@ == s,
            forall|k: int|
                0 <= k < i ==> ((#[trigger] s[k]).0 == NULL_INTERNED_ID || s[k].0
                    == RESERVED_UNDEFINED_ID || entry_poison_ok(s[k].1.poison_of())),
        decreases n - i,
    {
        let id = entries[i].0;
        if id != NULL_INTERNED_ID && id != RESERVED_UNDEFINED_ID {
            if !V::emission_tolerable(&entries[i].1) {
                proof {
                    crate::intern::lemma_key_index_props(s, id);
                    let w = crate::intern::key_index(s, id);
                    if w != i as int {
                        assert(s[w].0 == s[i as int].0);
                        assert(false);
                    }
                    assert(t.value_of(id) == s[i as int].1);
                }
                return false;
            }
        }
        i += 1;
    }
    proof {
        assert forall|id: usize|
            t.contains_id(id) && id != NULL_INTERNED_ID && id
                != RESERVED_UNDEFINED_ID implies entry_poison_ok(
            (#[trigger] t.value_of(id)).poison_of(),
        ) by {
            crate::intern::lemma_key_index_props(s, id);
            let w = crate::intern::key_index(s, id);
            assert(s[w].0 == id);
            assert(entry_poison_ok(s[w].1.poison_of()));
        }
    }
    true
}

/// The core, in-memory representation of a serialized object. It is used
/// for building, linking and mutating the object.
#[derive(Debug, PartialEq, Eq)]
pub struct FlatLoweredObject {
    /// The name associated with this translation unit; empty when there is
    /// none.
    pub module_name: String,

    /// The protocol version for this object, filled at emission time when
    /// absent.
    pub version: Option<String>,

    /// The time at which this object was generated, filled at emission time
    /// when absent.
    pub time: Option<String>,

    /// The entry point for this object, when the object is executable.
    pub entry_point: Option<usize>,

    /// The symbol tables for this object: every name the object refers to.
    pub symbols: SymbolTables,

    /// Every block of code referenced in the symbol table or internally.
    pub blocks: InternTable<Block>,

    /// The statements the blocks are composed of.
    pub statements: InternTable<Statement>,

    /// Every arm that can be taken when a block exits through a match.
    pub match_arms: InternTable<MatchArm>,

    /// An entry for each variable in the program, whatever its lifetime.
    pub variables: InternTable<Variable>,

    /// The definitions of the array and struct types.
    pub types: TypeTables,

    /// The diagnostic messages associated with the object's entities.
    pub diagnostics: InternTable<Diagnostic>,

    /// The source locations associated with the object's entities.
    pub locations: InternTable<Location>,

    /// The blocks to be executed when the program starts, in order.
    pub initializers: Vec<usize>,

    /// The blocks to be executed when the program ends, in order.
    pub finalizers: Vec<usize>,

    /// When set, emitting and loading tolerate poison markers in referenced
    /// places, so an object can be serialized mid-construction.
    pub allow_incomplete: bool,
}

impl FlatLoweredObject {
    /// The structural conditions every object satisfies: each table keeps
    /// its intern invariants, and each symbol table maps both ways without
    /// duplicates.
    pub open spec fn wf(self) -> bool {
        &&& self.blocks.wf()
        &&& self.statements.wf()
        &&& self.match_arms.wf()
        &&& self.variables.wf()
        &&& self.types.arrays.wf()
        &&& self.types.structs.wf()
        &&& self.diagnostics.wf()
        &&& self.locations.wf()
        &&& self.symbols.code.wf()
        &&& self.symbols.data.wf()
    }

    /// Whether the object was created in partial mode.
    pub open spec fn allow_incomplete_spec(self) -> bool {
        self.allow_incomplete
    }

    /// Whether every entity of every table carries a tolerated poison
    /// marker.
    pub open spec fn clean(self) -> bool {
        &&& table_clean(self.blocks)
        &&& table_clean(self.statements)
        &&& table_clean(self.match_arms)
        &&& table_clean(self.variables)
        &&& table_clean(self.types.arrays)
        &&& table_clean(self.types.structs)
        &&& table_clean(self.diagnostics)
        &&& table_clean(self.locations)
    }

    /// A freshly constructed object named `name`: empty header metadata,
    /// empty symbol tables, all eight intern tables holding only their
    /// reserved entries with their cursors at one, and no initializers or
    /// finalizers.
    pub open spec fn fresh_object(self, name: Seq<char>) -> bool {
        &&& self.module_name@ == name
        &&& self.version is None
        &&& self.time is None
        &&& self.entry_point is None
        &&& self.symbols.code.raw().len() == 0
        &&& self.symbols.data.raw().len() == 0
        &&& crate::intern::fresh_table(self.blocks)
        &&& crate::intern::fresh_table(self.statements)
        &&& crate::intern::fresh_table(self.match_arms)
        &&& crate::intern::fresh_table(self.variables)
        &&& crate::intern::fresh_table(self.types.arrays)
        &&& crate::intern::fresh_table(self.types.structs)
        &&& crate::intern::fresh_table(self.diagnostics)
        &&& crate::intern::fresh_table(self.locations)
        &&& self.blocks.cursor() == 1
        &&& self.statements.cursor() == 1
        &&& self.match_arms.cursor() == 1
        &&& self.variables.cursor() == 1
        &&& self.types.arrays.cursor() == 1
        &&& self.types.structs.cursor() == 1
        &&& self.diagnostics.cursor() == 1
        &&& self.locations.cursor() == 1
        &&& self.initializers@.len() == 0
        &&& self.finalizers@.len() == 0
    }

    /// Creates a new, empty object.
    pub fn new(module_name: &str) -> (r: FlatLoweredObject)
        ensures
            r.wf(),
            r.fresh_object(module_name@),
            !r.allow_incomplete_spec(),
            r.clean(),
    {
        let r = FlatLoweredObject {
            module_name: module_name.to_owned(),
            version: None,
            time: None,
            entry_point: None,
            symbols: SymbolTables::new(),
            blocks: InternTable::new(),
            statements: InternTable::new(),
            match_arms: InternTable::new(),
            variables: InternTable::new(),
            types: TypeTables::new(),
            diagnostics: InternTable::new(),
            locations: InternTable::new(),
            initializers: Vec::new(),
            finalizers: Vec::new(),
            allow_incomplete: false,
        };
        proof {
            lemma_fresh_clean(r.blocks);
            lemma_fresh_clean(r.statements);
            lemma_fresh_clean(r.match_arms);
            lemma_fresh_clean(r.variables);
            lemma_fresh_clean(r.types.arrays);
            lemma_fresh_clean(r.types.structs);
            lemma_fresh_clean(r.diagnostics);
            lemma_fresh_clean(r.locations);
        }
        r
    }

    /// Creates a new partial object: identical to a newly created one
    /// except that it allows emission while still incomplete.
    pub fn new_partial(module_name: &str) -> (r: FlatLoweredObject)
        ensures
            r.wf(),
            r.fresh_object(module_name@),
            r.allow_incomplete_spec(),
            r.clean(),
    {
        let mut s = FlatLoweredObject::new(module_name);
        s.allow_incomplete = true;
        s
    }

    /// Whether this object was created in partial mode.
    pub fn is_partial(&self) -> (r: bool)
        ensures
            r == self.allow_incomplete_spec(),
    {
        self.allow_incomplete
    }

    /// Walks each of the tables and reports whether any entity carries a
    /// poison marker not tolerated at emission.
    pub fn check_unexpected_poison(&self) -> (r: bool)
        requires
            self.wf(),
        ensures
            r == self.clean(),
    {
        check_table_clean(&self.blocks) && check_table_clean(&self.statements)
            && check_table_clean(&self.match_arms) && check_table_clean(&self.variables)
            && check_table_clean(&self.types.arrays) && check_table_clean(&self.types.structs)
            && check_table_clean(&self.diagnostics) && check_table_clean(&self.locations)
    }

    /// Produces the serialized textual form of the object: exactly the
    /// canonical encoding [`flo_chars`] of its value.
    ///
    /// Emission fails exactly when the object holds an entity whose poison
    /// marker is not tolerated and the object is not partial.
    pub fn to_str(&self) -> (r: Result<String, Error>)
        requires
            self.wf(),
        ensures
            match r {
                Ok(s) => (self.allow_incomplete_spec() || self.clean()) && s@ == flo_chars(*self),
                Err(e) => {
                    &&& !self.allow_incomplete_spec()
                    &&& !self.clean()
                    &&& e == Error::UnexpectedPoison
                },
            },
    {
        if !self.allow_incomplete {
            if !self.check_unexpected_poison() {
                return Err(Error::UnexpectedPoison);
            }
        }
        let tokens = encode_flo(self);
        Ok(render_tokens(&tokens))
    }

    /// Decodes an object from its serialized textual form, tolerating
    /// objects flagged as partial.
    ///
    /// Only canonical encodings are accepted: the decoded object is
    /// validated by re-emission against the input, so whatever loads is a
    /// structurally well-formed object whose encoding is the input text,
    /// every poison marker included. Text that is not such an encoding is
    /// rejected.
    pub fn from_str_partial(encoded: &str) -> (r: Result<FlatLoweredObject, Error>)
        ensures
            match r {
                Ok(o) => o.wf() && flo_chars(o) == encoded@,
                Err(e) => e is InvalidObjectText,
            },
    {
        let tokens = match tokenize(encoded) {
            Some(ts) => ts,
            None => {
                return Err(Error::InvalidObjectText(String::from_str(
                    "the text is not a stream of object tokens",
                )));
            },
        };
        let decoded = match decode_flo(&tokens) {
            Some(o) => o,
            None => {
                return Err(Error::InvalidObjectText(String::from_str(
                    "the token stream does not describe an object",
                )));
            },
        };
        // Accept only the canonical encoding: the decoded object must
        // re-emit to exactly the input text.
        let reencoded = encode_flo(&decoded);
        let rendered = render_tokens(&reencoded);
        let original = encoded.to_owned();
        if rendered != original {
            return Err(Error::InvalidObjectText(String::from_str(
                "the text is not the canonical encoding of the object it describes",
            )));
        }
        Ok(decoded)
    }

    /// Decodes an object from its serialized textual form, validating
    /// poison-freedom unless the loaded object is flagged as partial.
    ///
    /// As with the partial variant, only canonical encodings are accepted,
    /// so the loaded object's encoding is the input text itself.
    pub fn from_str(encoded: &str) -> (r: Result<FlatLoweredObject, Error>)
        ensures
            match r {
                Ok(o) => {
                    &&& o.wf()
                    &&& flo_chars(o) == encoded@
                    &&& o.allow_incomplete_spec() || o.clean()
                },
                Err(e) => e is InvalidObjectText || e == Error::UnexpectedPoison,
            },
    {
        let o = match FlatLoweredObject::from_str_partial(encoded) {
            Ok(o) => o,
            Err(e) => {
                return Err(e);
            },
        };
        if !o.is_partial() {
            if !o.check_unexpected_poison() {
                return Err(Error::UnexpectedPoison);
            }
        }
        Ok(o)
    }
}

/// A freshly constructed table has only the reserved entries, whose markers
/// are tolerated by construction of the cleanliness condition.
proof fn lemma_fresh_clean<V: Poisonable>(t: InternTable<V>)
    requires
        crate::intern::fresh_table(t),
    ensures
        table_clean(t),
{
    assert forall|id: usize|
        t.contains_id(id) && id != NULL_INTERNED_ID && id
            != RESERVED_UNDEFINED_ID implies entry_poison_ok(
        (#[trigger] t.value_of(id)).poison_of(),
    ) by {
        assert(!t.contains_id(id));
    }
}

/// The finalization-gating law: an object that is not partial and holds,
/// under a non-reserved identifier, a block whose poison marker is not
/// tolerated, is not clean, so its emission fails; the same content under a
/// partial object emits.
pub proof fn lemma_finalization_gating(flo: FlatLoweredObject, id: usize)
    requires
        flo.blocks.contains_id(id),
        id != NULL_INTERNED_ID,
        id != RESERVED_UNDEFINED_ID,
        !entry_poison_ok(flo.blocks.value_of(id).poison_of()),
    ensures
        !flo.clean(),
{
    assert(!table_clean(flo.blocks));
}

// ------------------------------------------------------------------
// The token-level encoder and decoder for the object format. Every value is
// written positionally; enums carry a small numeric tag. The decoder
// rebuilds intern and symbol tables through their checked constructors, so
// whatever it accepts is structurally well-formed.
// ------------------------------------------------------------------

// The character-level specification of the serialized form. Each spec
// function below gives the exact text an entity serializes to, and each
// encoding function is proved to append exactly that text's tokens.

/// The text of one number token.
pub open spec fn num_chars(v: usize) -> Seq<char> {
    crate::format::dec_string_of(v as int).push(' ')
}

/// The text of one string token carrying the characters `s`.
pub open spec fn text_chars(s: Seq<char>) -> Seq<char> {
    seq!['s'] + crate::format::dec_string_of(s.len() as int) + seq![':'] + s + seq![' ']
}

/// The text of an opening parenthesis token.
pub open spec fn open_chars() -> Seq<char> {
    seq!['(', ' ']
}

/// The text of a closing parenthesis token.
pub open spec fn close_chars() -> Seq<char> {
    seq![')', ' ']
}

/// The text of an optional number: a list of zero or one numbers.
pub open spec fn opt_num_chars(v: Option<usize>) -> Seq<char> {
    open_chars() + (match v {
        Some(x) => num_chars(x),
        None => Seq::empty(),
    }) + close_chars()
}

/// The text of an optional 32-bit number.
pub open spec fn opt_u32_chars(v: Option<u32>) -> Seq<char> {
    open_chars() + (match v {
        Some(x) => num_chars(x as usize),
        None => Seq::empty(),
    }) + close_chars()
}

/// The text of an optional string.
pub open spec fn opt_text_chars(v: Option<String>) -> Seq<char> {
    open_chars() + (match v {
        Some(x) => text_chars(x@),
        None => Seq::empty(),
    }) + close_chars()
}

/// The text of the numbers of `s` from index `k` on.
pub open spec fn num_seq_chars(s: Seq<usize>, k: int) -> Seq<char>
    decreases s.len() - k,
{
    if k < 0 || k >= s.len() {
        Seq::empty()
    } else {
        num_chars(s[k]) + num_seq_chars(s, k + 1)
    }
}

/// The text of a parenthesized number list.
pub open spec fn num_list_chars(s: Seq<usize>) -> Seq<char> {
    open_chars() + num_seq_chars(s, 0) + close_chars()
}

/// The text of a 128-bit constant, split into four 32-bit numbers from the
/// most significant down.
pub open spec fn u128_chars(v: u128) -> Seq<char> {
    num_chars(((v >> 96) as u32) as usize) + num_chars(((v >> 64) as u32) as usize) + num_chars(
        ((v >> 32) as u32) as usize,
    ) + num_chars((v as u32) as usize)
}

/// The text of a poison marker.
pub open spec fn poison_chars(p: PoisonType) -> Seq<char> {
    match p {
        PoisonType::Valid => num_chars(0),
        PoisonType::Poison(msg) => num_chars(1) + text_chars(msg@),
        PoisonType::Undefined => num_chars(2),
        PoisonType::Unreachable => num_chars(3),
        PoisonType::NullInternedValue => num_chars(4),
    }
}

/// The text of a variable type.
pub open spec fn typ_chars(t: Type) -> Seq<char> {
    match t {
        Type::Void => num_chars(0),
        Type::Bool => num_chars(1),
        Type::Enum => num_chars(2),
        Type::Unsigned8 => num_chars(3),
        Type::Unsigned16 => num_chars(4),
        Type::Unsigned32 => num_chars(5),
        Type::Unsigned64 => num_chars(6),
        Type::Unsigned128 => num_chars(7),
        Type::Signed8 => num_chars(8),
        Type::Signed16 => num_chars(9),
        Type::Signed32 => num_chars(10),
        Type::Signed64 => num_chars(11),
        Type::Signed128 => num_chars(12),
        Type::Float => num_chars(13),
        Type::Double => num_chars(14),
        Type::Pointer => num_chars(15),
        Type::Snapshot => num_chars(16),
        Type::Array(id) => num_chars(17) + num_chars(id),
        Type::Struct(id) => num_chars(18) + num_chars(id),
        Type::Unspecified => num_chars(19),
    }
}

/// The text of the types of `s` from index `k` on.
pub open spec fn typ_seq_chars(s: Seq<Type>, k: int) -> Seq<char>
    decreases s.len() - k,
{
    if k < 0 || k >= s.len() {
        Seq::empty()
    } else {
        typ_chars(s[k]) + typ_seq_chars(s, k + 1)
    }
}

/// The text of a parenthesized type list.
pub open spec fn typ_list_chars(s: Seq<Type>) -> Seq<char> {
    open_chars() + typ_seq_chars(s, 0) + close_chars()
}

/// The text of a block reference.
pub open spec fn block_ref_chars(b: BlockRef) -> Seq<char> {
    match b {
        BlockRef::Local(id) => num_chars(0) + num_chars(id),
        BlockRef::External(sym) => num_chars(1) + text_chars(sym@),
        BlockRef::Builtin(sym) => num_chars(2) + text_chars(sym@),
        BlockRef::Unspecified => num_chars(3),
    }
}

/// The text of a variable linkage.
pub open spec fn linkage_chars(l: VariableLinkage) -> Seq<char> {
    match l {
        VariableLinkage::Local => num_chars(0),
        VariableLinkage::External(sym) => num_chars(1) + text_chars(sym@),
        VariableLinkage::Builtin(sym) => num_chars(2) + text_chars(sym@),
        VariableLinkage::Unspecified => num_chars(3),
    }
}

/// The text of a block exit.
pub open spec fn exit_chars(e: BlockExit) -> Seq<char> {
    match e {
        BlockExit::Return(vars) => num_chars(0) + num_list_chars(vars@),
        BlockExit::Panic(msg, vars) => num_chars(1) + text_chars(msg@) + num_list_chars(vars@),
        BlockExit::Goto(id) => num_chars(2) + num_chars(id),
        BlockExit::Match(arms) => num_chars(3) + num_list_chars(arms@),
        BlockExit::Unspecified => num_chars(4),
    }
}

/// The text of a function signature.
pub open spec fn signature_chars(s: Signature) -> Seq<char> {
    open_chars() + num_list_chars(s.params@) + num_list_chars(s.returns@) + num_chars(
        if s.can_panic {
            1
        } else {
            0
        },
    ) + opt_num_chars(s.location) + close_chars()
}

/// The text of a block.
pub open spec fn block_chars(b: Block) -> Seq<char> {
    open_chars() + (match b.signature {
        Some(sig) => num_chars(1) + signature_chars(sig),
        None => num_chars(0),
    }) + poison_chars(b.poison) + num_list_chars(b.statements@) + exit_chars(b.exit)
        + num_list_chars(b.diagnostics@) + close_chars()
}

/// The text of a statement.
pub open spec fn statement_chars(st: Statement) -> Seq<char> {
    open_chars() + (match st {
        Statement::AssignConst(a) => num_chars(0) + num_chars(a.variable) + u128_chars(
            a.value.value,
        ) + typ_chars(a.value.typ) + num_list_chars(a.diagnostics@) + opt_num_chars(a.location),
        Statement::Call(c) => num_chars(1) + block_ref_chars(c.block) + num_list_chars(c.input@)
            + num_list_chars(c.outputs@) + num_list_chars(c.diagnostics@) + opt_num_chars(
            c.location,
        ),
        Statement::Construct(c) => num_chars(2) + num_chars(c.target) + num_list_chars(
            c.initializier@,
        ) + num_list_chars(c.diagnostics@) + opt_num_chars(c.location),
        Statement::Destructure(d) => num_chars(3) + num_chars(d.whole) + num_list_chars(d.parts@)
            + num_list_chars(d.diagnostics@) + opt_num_chars(d.location),
        Statement::Snap(sn) => num_chars(4) + num_chars(sn.target) + num_chars(sn.source)
            + num_list_chars(sn.diagnostics@) + opt_num_chars(sn.location),
        Statement::Desnap(d) => num_chars(5) + num_chars(d.snap) + num_chars(d.target)
            + num_list_chars(d.diagnostics@) + opt_num_chars(d.location),
        Statement::Poisoned(p) => num_chars(6) + poison_chars(p),
    }) + close_chars()
}

/// The text of a match arm.
pub open spec fn match_arm_chars(a: MatchArm) -> Seq<char> {
    open_chars() + num_chars(a.condition) + block_ref_chars(a.target_block) + poison_chars(
        a.poison,
    ) + num_list_chars(a.diagnostics@) + opt_num_chars(a.location) + close_chars()
}

/// The text of a variable.
pub open spec fn variable_chars(v: Variable) -> Seq<char> {
    open_chars() + typ_chars(v.typ) + linkage_chars(v.linkage) + poison_chars(v.poison)
        + num_list_chars(v.diagnostics@) + opt_num_chars(v.location) + close_chars()
}

/// The text of an array type definition.
pub open spec fn array_type_chars(a: ArrayType) -> Seq<char> {
    open_chars() + typ_chars(a.member_type) + num_chars(a.length) + num_list_chars(
        a.diagnostics@,
    ) + opt_num_chars(a.location) + poison_chars(a.poison) + close_chars()
}

/// The text of a struct type definition.
pub open spec fn struct_type_chars(st: StructType) -> Seq<char> {
    open_chars() + typ_list_chars(st.members@) + num_list_chars(st.diagnostics@) + opt_num_chars(
        st.location,
    ) + poison_chars(st.poison) + close_chars()
}

/// The text of a diagnostic.
pub open spec fn diagnostic_chars(d: Diagnostic) -> Seq<char> {
    open_chars() + text_chars(d.message@) + poison_chars(d.poison) + opt_num_chars(d.location)
        + close_chars()
}

/// The text of a source location.
pub open spec fn location_chars(l: Location) -> Seq<char> {
    open_chars() + text_chars(l.source@) + opt_u32_chars(l.line) + opt_u32_chars(l.col)
        + poison_chars(l.poison) + close_chars()
}

/// The text of the symbol pairs of `s` from index `k` on.
pub open spec fn sym_seq_chars(s: Seq<(Seq<char>, usize)>, k: int) -> Seq<char>
    decreases s.len() - k,
{
    if k < 0 || k >= s.len() {
        Seq::empty()
    } else {
        text_chars(s[k].0) + num_chars(s[k].1) + sym_seq_chars(s, k + 1)
    }
}

/// The text of a symbol table.
pub open spec fn symbol_table_chars(t: SymbolTable) -> Seq<char> {
    open_chars() + sym_seq_chars(t.raw(), 0) + close_chars()
}

/// The text of the block entries of `s` from index `k` on.
pub open spec fn block_entries_chars(s: Seq<(usize, Block)>, k: int) -> Seq<char>
    decreases s.len() - k,
{
    if k < 0 || k >= s.len() {
        Seq::empty()
    } else {
        num_chars(s[k].0) + block_chars(s[k].1) + block_entries_chars(s, k + 1)
    }
}

/// The text of the statement entries of `s` from index `k` on.
pub open spec fn statement_entries_chars(s: Seq<(usize, Statement)>, k: int) -> Seq<char>
    decreases s.len() - k,
{
    if k < 0 || k >= s.len() {
        Seq::empty()
    } else {
        num_chars(s[k].0) + statement_chars(s[k].1) + statement_entries_chars(s, k + 1)
    }
}

/// The text of the match arm entries of `s` from index `k` on.
pub open spec fn match_arm_entries_chars(s: Seq<(usize, MatchArm)>, k: int) -> Seq<char>
    decreases s.len() - k,
{
    if k < 0 || k >= s.len() {
        Seq::empty()
    } else {
        num_chars(s[k].0) + match_arm_chars(s[k].1) + match_arm_entries_chars(s, k + 1)
    }
}

/// The text of the variable entries of `s` from index `k` on.
pub open spec fn variable_entries_chars(s: Seq<(usize, Variable)>, k: int) -> Seq<char>
    decreases s.len() - k,
{
    if k < 0 || k >= s.len() {
        Seq::empty()
    } else {
        num_chars(s[k].0) + variable_chars(s[k].1) + variable_entries_chars(s, k + 1)
    }
}

/// The text of the array type entries of `s` from index `k` on.
pub open spec fn array_entries_chars(s: Seq<(usize, ArrayType)>, k: int) -> Seq<char>
    decreases s.len() - k,
{
    if k < 0 || k >= s.len() {
        Seq::empty()
    } else {
        num_chars(s[k].0) + array_type_chars(s[k].1) + array_entries_chars(s, k + 1)
    }
}

/// The text of the struct type entries of `s` from index `k` on.
pub open spec fn struct_entries_chars(s: Seq<(usize, StructType)>, k: int) -> Seq<char>
    decreases s.len() - k,
{
    if k < 0 || k >= s.len() {
        Seq::empty()
    } else {
        num_chars(s[k].0) + struct_type_chars(s[k].1) + struct_entries_chars(s, k + 1)
    }
}

/// The text of the diagnostic entries of `s` from index `k` on.
pub open spec fn diagnostic_entries_chars(s: Seq<(usize, Diagnostic)>, k: int) -> Seq<char>
    decreases s.len() - k,
{
    if k < 0 || k >= s.len() {
        Seq::empty()
    } else {
        num_chars(s[k].0) + diagnostic_chars(s[k].1) + diagnostic_entries_chars(s, k + 1)
    }
}

/// The text of the location entries of `s` from index `k` on.
pub open spec fn location_entries_chars(s: Seq<(usize, Location)>, k: int) -> Seq<char>
    decreases s.len() - k,
{
    if k < 0 || k >= s.len() {
        Seq::empty()
    } else {
        num_chars(s[k].0) + location_chars(s[k].1) + location_entries_chars(s, k + 1)
    }
}

/// The serialized text of the whole object: header, symbol tables, the
/// eight entity tables with their cursors, the initializer and finalizer
/// lists, and the partial-mode flag.
pub open spec fn flo_chars(flo: FlatLoweredObject) -> Seq<char> {
    open_chars() + text_chars(flo.module_name@) + opt_text_chars(flo.version) + opt_text_chars(
        flo.time,
    ) + opt_num_chars(flo.entry_point) + symbol_table_chars(flo.symbols.code)
        + symbol_table_chars(flo.symbols.data) + open_chars() + num_chars(flo.blocks.cursor())
        + block_entries_chars(flo.blocks.raw(), 0) + close_chars() + open_chars() + num_chars(
        flo.statements.cursor(),
    ) + statement_entries_chars(flo.statements.raw(), 0) + close_chars() + open_chars()
        + num_chars(flo.match_arms.cursor()) + match_arm_entries_chars(flo.match_arms.raw(), 0)
        + close_chars() + open_chars() + num_chars(flo.variables.cursor())
        + variable_entries_chars(flo.variables.raw(), 0) + close_chars() + open_chars()
        + num_chars(flo.types.arrays.cursor()) + array_entries_chars(flo.types.arrays.raw(), 0)
        + close_chars() + open_chars() + num_chars(flo.types.structs.cursor())
        + struct_entries_chars(flo.types.structs.raw(), 0) + close_chars() + open_chars()
        + num_chars(flo.diagnostics.cursor()) + diagnostic_entries_chars(flo.diagnostics.raw(), 0)
        + close_chars() + open_chars() + num_chars(flo.locations.cursor())
        + location_entries_chars(flo.locations.raw(), 0) + close_chars() + num_list_chars(
        flo.initializers@,
    ) + num_list_chars(flo.finalizers@) + num_chars(
        if flo.allow_incomplete {
            1
        } else {
            0
        },
    ) + close_chars()
}

// The encoding functions: each appends tokens whose text is exactly the
// corresponding spec function's text.

fn push_num(out: &mut Vec<Token>, v: usize)
    ensures
        tokens_text(final(out)@) == tokens_text(old(out)@) + num_chars(v),
{
    let ghost pre = out@;
    out.push(Token::Num(v));
    proof {
        lemma_tokens_text_push(pre, Token::Num(v));
    }
}

fn push_text(out: &mut Vec<Token>, s: &String)
    ensures
        tokens_text(final(out)@) == tokens_text(old(out)@) + text_chars(s@),
{
    let ghost pre = out@;
    let copy = s.clone();
    out.push(Token::Text(copy));
    proof {
        lemma_tokens_text_push(pre, out@.last());
        assert(token_text(out@.last()) =~= text_chars(s@));
    }
}

fn push_open(out: &mut Vec<Token>)
    ensures
        tokens_text(final(out)@) == tokens_text(old(out)@) + open_chars(),
{
    let ghost pre = out@;
    out.push(Token::Open);
    proof {
        lemma_tokens_text_push(pre, Token::Open);
        assert(token_text(Token::Open) =~= open_chars());
    }
}

fn push_close(out: &mut Vec<Token>)
    ensures
        tokens_text(final(out)@) == tokens_text(old(out)@) + close_chars(),
{
    let ghost pre = out@;
    out.push(Token::Close);
    proof {
        lemma_tokens_text_push(pre, Token::Close);
        assert(token_text(Token::Close) =~= close_chars());
    }
}

fn encode_opt_num(out: &mut Vec<Token>, v: &Option<usize>)
    ensures
        tokens_text(final(out)@) == tokens_text(old(out)@) + opt_num_chars(*v),
{
    push_open(out);
    match v {
        Some(x) => push_num(out, *x),
        None => {},
    }
    push_close(out);
    proof {
        assert(tokens_text(out@) =~= tokens_text(old(out)@) + opt_num_chars(*v));
    }
}

fn encode_opt_u32(out: &mut Vec<Token>, v: &Option<u32>)
    ensures
        tokens_text(final(out)@) == tokens_text(old(out)@) + opt_u32_chars(*v),
{
    push_open(out);
    match v {
        Some(x) => push_num(out, *x as usize),
        None => {},
    }
    push_close(out);
    proof {
        assert(tokens_text(out@) =~= tokens_text(old(out)@) + opt_u32_chars(*v));
    }
}

fn encode_opt_text(out: &mut Vec<Token>, v: &Option<String>)
    ensures
        tokens_text(final(out)@) == tokens_text(old(out)@) + opt_text_chars(*v),
{
    push_open(out);
    match v {
        Some(x) => push_text(out, x),
        None => {},
    }
    push_close(out);
    proof {
        assert(tokens_text(out@) =~= tokens_text(old(out)@) + opt_text_chars(*v));
    }
}

fn encode_nums(out: &mut Vec<Token>, v: &Vec<usize>, k: usize)
    requires
        k <= v@.len(),
    ensures
        tokens_text(final(out)@) == tokens_text(old(out)@) + num_seq_chars(v@, k as int),
    decreases v@.len() - k,
{
    if k < v.len() {
        push_num(out, v[k]);
        encode_nums(out, v, k + 1);
        proof {
            assert(tokens_text(out@) =~= tokens_text(old(out)@) + num_seq_chars(v@, k as int));
        }
    }
}

fn encode_num_list(out: &mut Vec<Token>, v: &Vec<usize>)
    ensures
        tokens_text(final(out)@) == tokens_text(old(out)@) + num_list_chars(v@),
{
    push_open(out);
    encode_nums(out, v, 0);
    push_close(out);
    proof {
        assert(tokens_text(out@) =~= tokens_text(old(out)@) + num_list_chars(v@));
    }
}

fn encode_u128(out: &mut Vec<Token>, v: u128)
    ensures
        tokens_text(final(out)@) == tokens_text(old(out)@) + u128_chars(v),
{
    push_num(out, ((v >> 96) as u32) as usize);
    push_num(out, ((v >> 64) as u32) as usize);
    push_num(out, ((v >> 32) as u32) as usize);
    push_num(out, (v as u32) as usize);
    proof {
        assert(tokens_text(out@) =~= tokens_text(old(out)@) + u128_chars(v));
    }
}

fn encode_poison(out: &mut Vec<Token>, p: &PoisonType)
    ensures
        tokens_text(final(out)@) == tokens_text(old(out)@) + poison_chars(*p),
{
    match p {
        PoisonType::Valid => push_num(out, 0),
        PoisonType::Poison(msg) => {
            push_num(out, 1);
            push_text(out, msg);
        },
        PoisonType::Undefined => push_num(out, 2),
        PoisonType::Unreachable => push_num(out, 3),
        PoisonType::NullInternedValue => push_num(out, 4),
    }
    proof {
        assert(tokens_text(out@) =~= tokens_text(old(out)@) + poison_chars(*p));
    }
}

fn encode_typ(out: &mut Vec<Token>, t: &Type)
    ensures
        tokens_text(final(out)@) == tokens_text(old(out)@) + typ_chars(*t),
{
    match t {
        Type::Void => push_num(out, 0),
        Type::Bool => push_num(out, 1),
        Type::Enum => push_num(out, 2),
        Type::Unsigned8 => push_num(out, 3),
        Type::Unsigned16 => push_num(out, 4),
        Type::Unsigned32 => push_num(out, 5),
        Type::Unsigned64 => push_num(out, 6),
        Type::Unsigned128 => push_num(out, 7),
        Type::Signed8 => push_num(out, 8),
        Type::Signed16 => push_num(out, 9),
        Type::Signed32 => push_num(out, 10),
        Type::Signed64 => push_num(out, 11),
        Type::Signed128 => push_num(out, 12),
        Type::Float => push_num(out, 13),
        Type::Double => push_num(out, 14),
        Type::Pointer => push_num(out, 15),
        Type::Snapshot => push_num(out, 16),
        Type::Array(id) => {
            push_num(out, 17);
            push_num(out, *id);
        },
        Type::Struct(id) => {
            push_num(out, 18);
            push_num(out, *id);
        },
        Type::Unspecified => push_num(out, 19),
    }
    proof {
        assert(tokens_text(out@) =~= tokens_text(old(out)@) + typ_chars(*t));
    }
}

fn encode_typs(out: &mut Vec<Token>, v: &Vec<Type>, k: usize)
    requires
        k <= v@.len(),
    ensures
        tokens_text(final(out)@) == tokens_text(old(out)@) + typ_seq_chars(v@, k as int),
    decreases v@.len() - k,
{
    if k < v.len() {
        encode_typ(out, &v[k]);
        encode_typs(out, v, k + 1);
        proof {
            assert(tokens_text(out@) =~= tokens_text(old(out)@) + typ_seq_chars(v@, k as int));
        }
    }
}

fn encode_typ_list(out: &mut Vec<Token>, v: &Vec<Type>)
    ensures
        tokens_text(final(out)@) == tokens_text(old(out)@) + typ_list_chars(v@),
{
    push_open(out);
    encode_typs(out, v, 0);
    push_close(out);
    proof {
        assert(tokens_text(out@) =~= tokens_text(old(out)@) + typ_list_chars(v@));
    }
}

fn encode_block_ref(out: &mut Vec<Token>, b: &BlockRef)
    ensures
        tokens_text(final(out)@) == tokens_text(old(out)@) + block_ref_chars(*b),
{
    match b {
        BlockRef::Local(id) => {
            push_num(out, 0);
            push_num(out, *id);
        },
        BlockRef::External(sym) => {
            push_num(out, 1);
            push_text(out, sym);
        },
        BlockRef::Builtin(sym) => {
            push_num(out, 2);
            push_text(out, sym);
        },
        BlockRef::Unspecified => push_num(out, 3),
    }
    proof {
        assert(tokens_text(out@) =~= tokens_text(old(out)@) + block_ref_chars(*b));
    }
}

fn encode_linkage(out: &mut Vec<Token>, l: &VariableLinkage)
    ensures
        tokens_text(final(out)@) == tokens_text(old(out)@) + linkage_chars(*l),
{
    match l {
        VariableLinkage::Local => push_num(out, 0),
        VariableLinkage::External(sym) => {
            push_num(out, 1);
            push_text(out, sym);
        },
        VariableLinkage::Builtin(sym) => {
            push_num(out, 2);
            push_text(out, sym);
        },
        VariableLinkage::Unspecified => push_num(out, 3),
    }
    proof {
        assert(tokens_text(out@) =~= tokens_text(old(out)@) + linkage_chars(*l));
    }
}

fn encode_exit(out: &mut Vec<Token>, e: &BlockExit)
    ensures
        tokens_text(final(out)@) == tokens_text(old(out)@) + exit_chars(*e),
{
    match e {
        BlockExit::Return(vars) => {
            push_num(out, 0);
            encode_num_list(out, vars);
        },
        BlockExit::Panic(msg, vars) => {
            push_num(out, 1);
            push_text(out, msg);
            encode_num_list(out, vars);
        },
        BlockExit::Goto(id) => {
            push_num(out, 2);
            push_num(out, *id);
        },
        BlockExit::Match(arms) => {
            push_num(out, 3);
            encode_num_list(out, arms);
        },
        BlockExit::Unspecified => push_num(out, 4),
    }
    proof {
        assert(tokens_text(out@) =~= tokens_text(old(out)@) + exit_chars(*e));
    }
}

fn encode_signature(out: &mut Vec<Token>, s: &Signature)
    ensures
        tokens_text(final(out)@) == tokens_text(old(out)@) + signature_chars(*s),
{
    push_open(out);
    encode_num_list(out, &s.params);
    encode_num_list(out, &s.returns);
    push_num(out, if s.can_panic { 1 } else { 0 });
    encode_opt_num(out, &s.location);
    push_close(out);
    proof {
        assert(tokens_text(out@) =~= tokens_text(old(out)@) + signature_chars(*s));
    }
}

fn encode_block(out: &mut Vec<Token>, b: &Block)
    ensures
        tokens_text(final(out)@) == tokens_text(old(out)@) + block_chars(*b),
{
    push_open(out);
    match &b.signature {
        Some(sig) => {
            push_num(out, 1);
            encode_signature(out, sig);
        },
        None => push_num(out, 0),
    }
    encode_poison(out, &b.poison);
    encode_num_list(out, &b.statements);
    encode_exit(out, &b.exit);
    encode_num_list(out, &b.diagnostics);
    push_close(out);
    proof {
        assert(tokens_text(out@) =~= tokens_text(old(out)@) + block_chars(*b));
    }
}

#[verifier::rlimit(100)]
fn encode_statement(out: &mut Vec<Token>, st: &Statement)
    ensures
        tokens_text(final(out)@) == tokens_text(old(out)@) + statement_chars(*st),
{
    push_open(out);
    match st {
        Statement::AssignConst(a) => {
            push_num(out, 0);
            push_num(out, a.variable);
            encode_u128(out, a.value.value);
            encode_typ(out, &a.value.typ);
            encode_num_list(out, &a.diagnostics);
            encode_opt_num(out, &a.location);
        },
        Statement::Call(c) => {
            push_num(out, 1);
            encode_block_ref(out, &c.block);
            encode_num_list(out, &c.input);
            encode_num_list(out, &c.outputs);
            encode_num_list(out, &c.diagnostics);
            encode_opt_num(out, &c.location);
        },
        Statement::Construct(c) => {
            push_num(out, 2);
            push_num(out, c.target);
            encode_num_list(out, &c.initializier);
            encode_num_list(out, &c.diagnostics);
            encode_opt_num(out, &c.location);
        },
        Statement::Destructure(d) => {
            push_num(out, 3);
            push_num(out, d.whole);
            encode_num_list(out, &d.parts);
            encode_num_list(out, &d.diagnostics);
            encode_opt_num(out, &d.location);
        },
        Statement::Snap(sn) => {
            push_num(out, 4);
            push_num(out, sn.target);
            push_num(out, sn.source);
            encode_num_list(out, &sn.diagnostics);
            encode_opt_num(out, &sn.location);
        },
        Statement::Desnap(d) => {
            push_num(out, 5);
            push_num(out, d.snap);
            push_num(out, d.target);
            encode_num_list(out, &d.diagnostics);
            encode_opt_num(out, &d.location);
        },
        Statement::Poisoned(p) => {
            push_num(out, 6);
            encode_poison(out, p);
        },
    }
    push_close(out);
    proof {
        assert(tokens_text(out@) =~= tokens_text(old(out)@) + statement_chars(*st));
    }
}

fn encode_match_arm(out: &mut Vec<Token>, a: &MatchArm)
    ensures
        tokens_text(final(out)@) == tokens_text(old(out)@) + match_arm_chars(*a),
{
    push_open(out);
    push_num(out, a.condition);
    encode_block_ref(out, &a.target_block);
    encode_poison(out, &a.poison);
    encode_num_list(out, &a.diagnostics);
    encode_opt_num(out, &a.location);
    push_close(out);
    proof {
        assert(tokens_text(out@) =~= tokens_text(old(out)@) + match_arm_chars(*a));
    }
}

fn encode_variable(out: &mut Vec<Token>, v: &Variable)
    ensures
        tokens_text(final(out)@) == tokens_text(old(out)@) + variable_chars(*v),
{
    push_open(out);
    encode_typ(out, &v.typ);
    encode_linkage(out, &v.linkage);
    encode_poison(out, &v.poison);
    encode_num_list(out, &v.diagnostics);
    encode_opt_num(out, &v.location);
    push_close(out);
    proof {
        assert(tokens_text(out@) =~= tokens_text(old(out)@) + variable_chars(*v));
    }
}

fn encode_array_type(out: &mut Vec<Token>, a: &ArrayType)
    ensures
        tokens_text(final(out)@) == tokens_text(old(out)@) + array_type_chars(*a),
{
    push_open(out);
    encode_typ(out, &a.member_type);
    push_num(out, a.length);
    encode_num_list(out, &a.diagnostics);
    encode_opt_num(out, &a.location);
    encode_poison(out, &a.poison);
    push_close(out);
    proof {
        assert(tokens_text(out@) =~= tokens_text(old(out)@) + array_type_chars(*a));
    }
}

fn encode_struct_type(out: &mut Vec<Token>, st: &StructType)
    ensures
        tokens_text(final(out)@) == tokens_text(old(out)@) + struct_type_chars(*st),
{
    push_open(out);
    encode_typ_list(out, &st.members);
    encode_num_list(out, &st.diagnostics);
    encode_opt_num(out, &st.location);
    encode_poison(out, &st.poison);
    push_close(out);
    proof {
        assert(tokens_text(out@) =~= tokens_text(old(out)@) + struct_type_chars(*st));
    }
}

fn encode_diagnostic(out: &mut Vec<Token>, d: &Diagnostic)
    ensures
        tokens_text(final(out)@) == tokens_text(old(out)@) + diagnostic_chars(*d),
{
    push_open(out);
    push_text(out, &d.message);
    encode_poison(out, &d.poison);
    encode_opt_num(out, &d.location);
    push_close(out);
    proof {
        assert(tokens_text(out@) =~= tokens_text(old(out)@) + diagnostic_chars(*d));
    }
}

fn encode_location(out: &mut Vec<Token>, l: &Location)
    ensures
        tokens_text(final(out)@) == tokens_text(old(out)@) + location_chars(*l),
{
    push_open(out);
    push_text(out, &l.source);
    encode_opt_u32(out, &l.line);
    encode_opt_u32(out, &l.col);
    encode_poison(out, &l.poison);
    push_close(out);
    proof {
        assert(tokens_text(out@) =~= tokens_text(old(out)@) + location_chars(*l));
    }
}

fn encode_sym_pairs(out: &mut Vec<Token>, pairs: &Vec<(String, usize)>, k: usize)
    requires
        k <= pairs@.len(),
    ensures
        tokens_text(final(out)@) == tokens_text(old(out)@) + sym_seq_chars(
            pairs@.map_values(|p: (String, usize)| (p.0@, p.1)),
            k as int,
        ),
    decreases pairs@.len() - k,
{
    let ghost s = pairs@.map_values(|p: (String, usize)| (p.0@, p.1));
    if k < pairs.len() {
        push_text(out, &pairs[k].0);
        push_num(out, pairs[k].1);
        encode_sym_pairs(out, pairs, k + 1);
        proof {
            assert(s[k as int] == (pairs@[k as int].0@, pairs@[k as int].1));
            assert(tokens_text(out@) =~= tokens_text(old(out)@) + sym_seq_chars(s, k as int));
        }
    } else {
        proof {
            assert(s.len() == pairs@.len());
        }
    }
}

fn encode_symbol_table(out: &mut Vec<Token>, t: &SymbolTable)
    ensures
        tokens_text(final(out)@) == tokens_text(old(out)@) + symbol_table_chars(*t),
{
    push_open(out);
    let pairs = t.pairs();
    proof {
        assert(pairs@.map_values(|p: (String, usize)| (p.0@, p.1)) == t.raw());
    }
    encode_sym_pairs(out, pairs, 0);
    push_close(out);
    proof {
        assert(tokens_text(out@) =~= tokens_text(old(out)@) + symbol_table_chars(*t));
    }
}

fn encode_block_entries(out: &mut Vec<Token>, entries: &Vec<(usize, Block)>, k: usize)
    requires
        k <= entries@.len(),
    ensures
        tokens_text(final(out)@) == tokens_text(old(out)@) + block_entries_chars(
            entries@,
            k as int,
        ),
    decreases entries@.len() - k,
{
    if k < entries.len() {
        push_num(out, entries[k].0);
        encode_block(out, &entries[k].1);
        encode_block_entries(out, entries, k + 1);
        proof {
            assert(tokens_text(out@) =~= tokens_text(old(out)@) + block_entries_chars(
                entries@,
                k as int,
            ));
        }
    }
}

fn encode_block_table(out: &mut Vec<Token>, t: &InternTable<Block>)
    ensures
        tokens_text(final(out)@) == tokens_text(old(out)@) + open_chars() + num_chars(t.cursor())
            + block_entries_chars(t.raw(), 0) + close_chars(),
{
    push_open(out);
    push_num(out, t.cursor_value());
    encode_block_entries(out, t.entries(), 0);
    push_close(out);
    proof {
        assert(tokens_text(out@) =~= tokens_text(old(out)@) + open_chars() + num_chars(t.cursor())
            + block_entries_chars(t.raw(), 0) + close_chars());
    }
}

fn encode_statement_entries(out: &mut Vec<Token>, entries: &Vec<(usize, Statement)>, k: usize)
    requires
        k <= entries@.len(),
    ensures
        tokens_text(final(out)@) == tokens_text(old(out)@) + statement_entries_chars(
            entries@,
            k as int,
        ),
    decreases entries@.len() - k,
{
    if k < entries.len() {
        push_num(out, entries[k].0);
        encode_statement(out, &entries[k].1);
        encode_statement_entries(out, entries, k + 1);
        proof {
            assert(tokens_text(out@) =~= tokens_text(old(out)@) + statement_entries_chars(
                entries@,
                k as int,
            ));
        }
    }
}

fn encode_statement_table(out: &mut Vec<Token>, t: &InternTable<Statement>)
    ensures
        tokens_text(final(out)@) == tokens_text(old(out)@) + open_chars() + num_chars(t.cursor())
            + statement_entries_chars(t.raw(), 0) + close_chars(),
{
    push_open(out);
    push_num(out, t.cursor_value());
    encode_statement_entries(out, t.entries(), 0);
    push_close(out);
    proof {
        assert(tokens_text(out@) =~= tokens_text(old(out)@) + open_chars() + num_chars(t.cursor())
            + statement_entries_chars(t.raw(), 0) + close_chars());
    }
}

fn encode_match_arm_entries(out: &mut Vec<Token>, entries: &Vec<(usize, MatchArm)>, k: usize)
    requires
        k <= entries@.len(),
    ensures
        tokens_text(final(out)@) == tokens_text(old(out)@) + match_arm_entries_chars(
            entries@,
            k as int,
        ),
    decreases entries@.len() - k,
{
    if k < entries.len() {
        push_num(out, entries[k].0);
        encode_match_arm(out, &entries[k].1);
        encode_match_arm_entries(out, entries, k + 1);
        proof {
            assert(tokens_text(out@) =~= tokens_text(old(out)@) + match_arm_entries_chars(
                entries@,
                k as int,
            ));
        }
    }
}

fn encode_match_arm_table(out: &mut Vec<Token>, t: &InternTable<MatchArm>)
    ensures
        tokens_text(final(out)@) == tokens_text(old(out)@) + open_chars() + num_chars(t.cursor())
            + match_arm_entries_chars(t.raw(), 0) + close_chars(),
{
    push_open(out);
    push_num(out, t.cursor_value());
    encode_match_arm_entries(out, t.entries(), 0);
    push_close(out);
    proof {
        assert(tokens_text(out@) =~= tokens_text(old(out)@) + open_chars() + num_chars(t.cursor())
            + match_arm_entries_chars(t.raw(), 0) + close_chars());
    }
}

fn encode_variable_entries(out: &mut Vec<Token>, entries: &Vec<(usize, Variable)>, k: usize)
    requires
        k <= entries@.len(),
    ensures
        tokens_text(final(out)@) == tokens_text(old(out)@) + variable_entries_chars(
            entries@,
            k as int,
        ),
    decreases entries@.len() - k,
{
    if k < entries.len() {
        push_num(out, entries[k].0);
        encode_variable(out, &entries[k].1);
        encode_variable_entries(out, entries, k + 1);
        proof {
            assert(tokens_text(out@) =~= tokens_text(old(out)@) + variable_entries_chars(
                entries@,
                k as int,
            ));
        }
    }
}

fn encode_variable_table(out: &mut Vec<Token>, t: &InternTable<Variable>)
    ensures
        tokens_text(final(out)@) == tokens_text(old(out)@) + open_chars() + num_chars(t.cursor())
            + variable_entries_chars(t.raw(), 0) + close_chars(),
{
    push_open(out);
    push_num(out, t.cursor_value());
    encode_variable_entries(out, t.entries(), 0);
    push_close(out);
    proof {
        assert(tokens_text(out@) =~= tokens_text(old(out)@) + open_chars() + num_chars(t.cursor())
            + variable_entries_chars(t.raw(), 0) + close_chars());
    }
}

fn encode_array_entries(out: &mut Vec<Token>, entries: &Vec<(usize, ArrayType)>, k: usize)
    requires
        k <= entries@.len(),
    ensures
        tokens_text(final(out)@) == tokens_text(old(out)@) + array_entries_chars(
            entries@,
            k as int,
        ),
    decreases entries@.len() - k,
{
    if k < entries.len() {
        push_num(out, entries[k].0);
        encode_array_type(out, &entries[k].1);
        encode_array_entries(out, entries, k + 1);
        proof {
            assert(tokens_text(out@) =~= tokens_text(old(out)@) + array_entries_chars(
                entries@,
                k as int,
            ));
        }
    }
}

fn encode_array_table(out: &mut Vec<Token>, t: &InternTable<ArrayType>)
    ensures
        tokens_text(final(out)@) == tokens_text(old(out)@) + open_chars() + num_chars(t.cursor())
            + array_entries_chars(t.raw(), 0) + close_chars(),
{
    push_open(out);
    push_num(out, t.cursor_value());
    encode_array_entries(out, t.entries(), 0);
    push_close(out);
    proof {
        assert(tokens_text(out@) =~= tokens_text(old(out)@) + open_chars() + num_chars(t.cursor())
            + array_entries_chars(t.raw(), 0) + close_chars());
    }
}

fn encode_struct_entries(out: &mut Vec<Token>, entries: &Vec<(usize, StructType)>, k: usize)
    requires
        k <= entries@.len(),
    ensures
        tokens_text(final(out)@) == tokens_text(old(out)@) + struct_entries_chars(
            entries@,
            k as int,
        ),
    decreases entries@.len() - k,
{
    if k < entries.len() {
        push_num(out, entries[k].0);
        encode_struct_type(out, &entries[k].1);
        encode_struct_entries(out, entries, k + 1);
        proof {
            assert(tokens_text(out@) =~= tokens_text(old(out)@) + struct_entries_chars(
                entries@,
                k as int,
            ));
        }
    }
}

fn encode_struct_table(out: &mut Vec<Token>, t: &InternTable<StructType>)
    ensures
        tokens_text(final(out)@) == tokens_text(old(out)@) + open_chars() + num_chars(t.cursor())
            + struct_entries_chars(t.raw(), 0) + close_chars(),
{
    push_open(out);
    push_num(out, t.cursor_value());
    encode_struct_entries(out, t.entries(), 0);
    push_close(out);
    proof {
        assert(tokens_text(out@) =~= tokens_text(old(out)@) + open_chars() + num_chars(t.cursor())
            + struct_entries_chars(t.raw(), 0) + close_chars());
    }
}

fn encode_diagnostic_entries(out: &mut Vec<Token>, entries: &Vec<(usize, Diagnostic)>, k: usize)
    requires
        k <= entries@.len(),
    ensures
        tokens_text(final(out)@) == tokens_text(old(out)@) + diagnostic_entries_chars(
            entries@,
            k as int,
        ),
    decreases entries@.len() - k,
{
    if k < entries.len() {
        push_num(out, entries[k].0);
        encode_diagnostic(out, &entries[k].1);
        encode_diagnostic_entries(out, entries, k + 1);
        proof {
            assert(tokens_text(out@) =~= tokens_text(old(out)@) + diagnostic_entries_chars(
                entries@,
                k as int,
            ));
        }
    }
}

fn encode_diagnostic_table(out: &mut Vec<Token>, t: &InternTable<Diagnostic>)
    ensures
        tokens_text(final(out)@) == tokens_text(old(out)@) + open_chars() + num_chars(t.cursor())
            + diagnostic_entries_chars(t.raw(), 0) + close_chars(),
{
    push_open(out);
    push_num(out, t.cursor_value());
    encode_diagnostic_entries(out, t.entries(), 0);
    push_close(out);
    proof {
        assert(tokens_text(out@) =~= tokens_text(old(out)@) + open_chars() + num_chars(t.cursor())
            + diagnostic_entries_chars(t.raw(), 0) + close_chars());
    }
}

fn encode_location_entries(out: &mut Vec<Token>, entries: &Vec<(usize, Location)>, k: usize)
    requires
        k <= entries@.len(),
    ensures
        tokens_text(final(out)@) == tokens_text(old(out)@) + location_entries_chars(
            entries@,
            k as int,
        ),
    decreases entries@.len() - k,
{
    if k < entries.len() {
        push_num(out, entries[k].0);
        encode_location(out, &entries[k].1);
        encode_location_entries(out, entries, k + 1);
        proof {
            assert(tokens_text(out@) =~= tokens_text(old(out)@) + location_entries_chars(
                entries@,
                k as int,
            ));
        }
    }
}

fn encode_location_table(out: &mut Vec<Token>, t: &InternTable<Location>)
    ensures
        tokens_text(final(out)@) == tokens_text(old(out)@) + open_chars() + num_chars(t.cursor())
            + location_entries_chars(t.raw(), 0) + close_chars(),
{
    push_open(out);
    push_num(out, t.cursor_value());
    encode_location_entries(out, t.entries(), 0);
    push_close(out);
    proof {
        assert(tokens_text(out@) =~= tokens_text(old(out)@) + open_chars() + num_chars(t.cursor())
            + location_entries_chars(t.raw(), 0) + close_chars());
    }
}

/// Encodes the whole object as tokens whose text is exactly
/// [`flo_chars`].
#[verifier::rlimit(100)]
#[verifier::spinoff_prover]
fn encode_flo(flo: &FlatLoweredObject) -> (r: Vec<Token>)
    ensures
        tokens_text(r@) == flo_chars(*flo),
{
    let mut out: Vec<Token> = Vec::new();
    proof {
        assert(tokens_text(out@) =~= Seq::<char>::empty());
    }
    push_open(&mut out);
    push_text(&mut out, &flo.module_name);
    encode_opt_text(&mut out, &flo.version);
    encode_opt_text(&mut out, &flo.time);
    encode_opt_num(&mut out, &flo.entry_point);
    encode_symbol_table(&mut out, &flo.symbols.code);
    encode_symbol_table(&mut out, &flo.symbols.data);
    encode_block_table(&mut out, &flo.blocks);
    encode_statement_table(&mut out, &flo.statements);
    encode_match_arm_table(&mut out, &flo.match_arms);
    encode_variable_table(&mut out, &flo.variables);
    encode_array_table(&mut out, &flo.types.arrays);
    encode_struct_table(&mut out, &flo.types.structs);
    encode_diagnostic_table(&mut out, &flo.diagnostics);
    encode_location_table(&mut out, &flo.locations);
    encode_num_list(&mut out, &flo.initializers);
    encode_num_list(&mut out, &flo.finalizers);
    push_num(&mut out, if flo.allow_incomplete { 1 } else { 0 });
    push_close(&mut out);
    proof {
        assert(Seq::<char>::empty() + open_chars() =~= open_chars());
        assert(tokens_text(out@) == flo_chars(*flo));
    }
    out
}

// ---------------------- decoding ----------------------

/// Reads one number token.
fn read_num(toks: &Vec<Token>, i: usize) -> (r: Option<(usize, usize)>)
    ensures
        r matches Some(p) ==> i < p.1 <= toks@.len(),
{
    if i >= toks.len() {
        return None;
    }
    match &toks[i] {
        Token::Num(v) => Some((*v, i + 1)),
        _ => None,
    }
}

/// Reads one string token.
fn read_text(toks: &Vec<Token>, i: usize) -> (r: Option<(String, usize)>)
    ensures
        r matches Some(p) ==> i < p.1 <= toks@.len(),
{
    if i >= toks.len() {
        return None;
    }
    match &toks[i] {
        Token::Text(s) => Some((s.clone(), i + 1)),
        _ => None,
    }
}

/// Reads an opening parenthesis.
fn read_open(toks: &Vec<Token>, i: usize) -> (r: Option<usize>)
    ensures
        r matches Some(j) ==> i < j <= toks@.len(),
{
    if i >= toks.len() {
        return None;
    }
    match &toks[i] {
        Token::Open => Some(i + 1),
        _ => None,
    }
}

/// Reads a closing parenthesis.
fn read_close(toks: &Vec<Token>, i: usize) -> (r: Option<usize>)
    ensures
        r matches Some(j) ==> i < j <= toks@.len(),
{
    if i >= toks.len() {
        return None;
    }
    match &toks[i] {
        Token::Close => Some(i + 1),
        _ => None,
    }
}

/// Whether the next token closes the current list.
fn peek_close(toks: &Vec<Token>, i: usize) -> (r: bool) {
    if i >= toks.len() {
        return false;
    }
    matches!(&toks[i], Token::Close)
}

fn decode_opt_num(toks: &Vec<Token>, i: usize) -> (r: Option<(Option<usize>, usize)>)
    ensures
        r matches Some(p) ==> i < p.1 <= toks@.len(),
{
    let i = read_open(toks, i)?;
    if peek_close(toks, i) {
        let i = read_close(toks, i)?;
        Some((None, i))
    } else {
        let (v, i) = read_num(toks, i)?;
        let i = read_close(toks, i)?;
        Some((Some(v), i))
    }
}

fn decode_opt_u32(toks: &Vec<Token>, i: usize) -> (r: Option<(Option<u32>, usize)>)
    ensures
        r matches Some(p) ==> i < p.1 <= toks@.len(),
{
    let (v, i) = decode_opt_num(toks, i)?;
    match v {
        Some(x) => {
            if x > u32::MAX as usize {
                None
            } else {
                Some((Some(x as u32), i))
            }
        },
        None => Some((None, i)),
    }
}

fn decode_opt_text(toks: &Vec<Token>, i: usize) -> (r: Option<(Option<String>, usize)>)
    ensures
        r matches Some(p) ==> i < p.1 <= toks@.len(),
{
    let i = read_open(toks, i)?;
    if peek_close(toks, i) {
        let i = read_close(toks, i)?;
        Some((None, i))
    } else {
        let (v, i) = read_text(toks, i)?;
        let i = read_close(toks, i)?;
        Some((Some(v), i))
    }
}

fn decode_num_list(toks: &Vec<Token>, i: usize) -> (r: Option<(Vec<usize>, usize)>)
    ensures
        r matches Some(p) ==> i < p.1 <= toks@.len(),
{
    let mut j = read_open(toks, i)?;
    let mut out: Vec<usize> = Vec::new();
    while !peek_close(toks, j)
        invariant
            i < j,
            j <= toks@.len(),
        decreases toks@.len() - j,
    {
        let (v, j2) = read_num(toks, j)?;
        out.push(v);
        j = j2;
    }
    let j = read_close(toks, j)?;
    Some((out, j))
}

fn decode_u128(toks: &Vec<Token>, i: usize) -> (r: Option<(u128, usize)>)
    ensures
        r matches Some(p) ==> i < p.1 <= toks@.len(),
{
    let (a, i) = read_num(toks, i)?;
    let (b, i) = read_num(toks, i)?;
    let (c, i) = read_num(toks, i)?;
    let (d, i) = read_num(toks, i)?;
    let m = u32::MAX as usize;
    if a > m || b > m || c > m || d > m {
        return None;
    }
    let v = ((a as u128) << 96) | ((b as u128) << 64) | ((c as u128) << 32) | (d as u128);
    Some((v, i))
}

fn decode_poison(toks: &Vec<Token>, i: usize) -> (r: Option<(PoisonType, usize)>)
    ensures
        r matches Some(p) ==> i < p.1 <= toks@.len(),
{
    let (tag, i) = read_num(toks, i)?;
    if tag == 0 {
        Some((PoisonType::Valid, i))
    } else if tag == 1 {
        let (msg, i) = read_text(toks, i)?;
        Some((PoisonType::Poison(msg), i))
    } else if tag == 2 {
        Some((PoisonType::Undefined, i))
    } else if tag == 3 {
        Some((PoisonType::Unreachable, i))
    } else if tag == 4 {
        Some((PoisonType::NullInternedValue, i))
    } else {
        None
    }
}

fn decode_typ(toks: &Vec<Token>, i: usize) -> (r: Option<(Type, usize)>)
    ensures
        r matches Some(p) ==> i < p.1 <= toks@.len(),
{
    let (tag, i) = read_num(toks, i)?;
    if tag == 0 {
        Some((Type::Void, i))
    } else if tag == 1 {
        Some((Type::Bool, i))
    } else if tag == 2 {
        Some((Type::Enum, i))
    } else if tag == 3 {
        Some((Type::Unsigned8, i))
    } else if tag == 4 {
        Some((Type::Unsigned16, i))
    } else if tag == 5 {
        Some((Type::Unsigned32, i))
    } else if tag == 6 {
        Some((Type::Unsigned64, i))
    } else if tag == 7 {
        Some((Type::Unsigned128, i))
    } else if tag == 8 {
        Some((Type::Signed8, i))
    } else if tag == 9 {
        Some((Type::Signed16, i))
    } else if tag == 10 {
        Some((Type::Signed32, i))
    } else if tag == 11 {
        Some((Type::Signed64, i))
    } else if tag == 12 {
        Some((Type::Signed128, i))
    } else if tag == 13 {
        Some((Type::Float, i))
    } else if tag == 14 {
        Some((Type::Double, i))
    } else if tag == 15 {
        Some((Type::Pointer, i))
    } else if tag == 16 {
        Some((Type::Snapshot, i))
    } else if tag == 17 {
        let (id, i) = read_num(toks, i)?;
        Some((Type::Array(id), i))
    } else if tag == 18 {
        let (id, i) = read_num(toks, i)?;
        Some((Type::Struct(id), i))
    } else if tag == 19 {
        Some((Type::Unspecified, i))
    } else {
        None
    }
}

fn decode_typ_list(toks: &Vec<Token>, i: usize) -> (r: Option<(Vec<Type>, usize)>)
    ensures
        r matches Some(p) ==> i < p.1 <= toks@.len(),
{
    let mut j = read_open(toks, i)?;
    let mut out: Vec<Type> = Vec::new();
    while !peek_close(toks, j)
        invariant
            i < j,
            j <= toks@.len(),
        decreases toks@.len() - j,
    {
        let (v, j2) = decode_typ(toks, j)?;
        out.push(v);
        j = j2;
    }
    let j = read_close(toks, j)?;
    Some((out, j))
}

fn decode_block_ref(toks: &Vec<Token>, i: usize) -> (r: Option<(BlockRef, usize)>)
    ensures
        r matches Some(p) ==> i < p.1 <= toks@.len(),
{
    let (tag, i) = read_num(toks, i)?;
    if tag == 0 {
        let (id, i) = read_num(toks, i)?;
        Some((BlockRef::Local(id), i))
    } else if tag == 1 {
        let (s, i) = read_text(toks, i)?;
        Some((BlockRef::External(s), i))
    } else if tag == 2 {
        let (s, i) = read_text(toks, i)?;
        Some((BlockRef::Builtin(s), i))
    } else if tag == 3 {
        Some((BlockRef::Unspecified, i))
    } else {
        None
    }
}

fn decode_linkage(toks: &Vec<Token>, i: usize) -> (r: Option<(VariableLinkage, usize)>)
    ensures
        r matches Some(p) ==> i < p.1 <= toks@.len(),
{
    let (tag, i) = read_num(toks, i)?;
    if tag == 0 {
        Some((VariableLinkage::Local, i))
    } else if tag == 1 {
        let (s, i) = read_text(toks, i)?;
        Some((VariableLinkage::External(s), i))
    } else if tag == 2 {
        let (s, i) = read_text(toks, i)?;
        Some((VariableLinkage::Builtin(s), i))
    } else if tag == 3 {
        Some((VariableLinkage::Unspecified, i))
    } else {
        None
    }
}

fn decode_exit(toks: &Vec<Token>, i: usize) -> (r: Option<(BlockExit, usize)>)
    ensures
        r matches Some(p) ==> i < p.1 <= toks@.len(),
{
    let (tag, i) = read_num(toks, i)?;
    if tag == 0 {
        let (vars, i) = decode_num_list(toks, i)?;
        Some((BlockExit::Return(vars), i))
    } else if tag == 1 {
        let (msg, i) = read_text(toks, i)?;
        let (vars, i) = decode_num_list(toks, i)?;
        Some((BlockExit::Panic(msg, vars), i))
    } else if tag == 2 {
        let (id, i) = read_num(toks, i)?;
        Some((BlockExit::Goto(id), i))
    } else if tag == 3 {
        let (arms, i) = decode_num_list(toks, i)?;
        Some((BlockExit::Match(arms), i))
    } else if tag == 4 {
        Some((BlockExit::Unspecified, i))
    } else {
        None
    }
}

fn decode_signature(toks: &Vec<Token>, i: usize) -> (r: Option<(Signature, usize)>)
    ensures
        r matches Some(p) ==> i < p.1 <= toks@.len(),
{
    let i = read_open(toks, i)?;
    let (params, i) = decode_num_list(toks, i)?;
    let (rets, i) = decode_num_list(toks, i)?;
    let (cp, i) = read_num(toks, i)?;
    if cp > 1 {
        return None;
    }
    let (location, i) = decode_opt_num(toks, i)?;
    let i = read_close(toks, i)?;
    Some((Signature { params, returns: rets, can_panic: cp == 1, location }, i))
}

fn decode_block(toks: &Vec<Token>, i: usize) -> (r: Option<(Block, usize)>)
    ensures
        r matches Some(p) ==> i < p.1 <= toks@.len(),
{
    let i = read_open(toks, i)?;
    let (has_sig, i) = read_num(toks, i)?;
    let (signature, i) = if has_sig == 1 {
        let (s, i) = decode_signature(toks, i)?;
        (Some(s), i)
    } else if has_sig == 0 {
        (None, i)
    } else {
        return None;
    };
    let (poison, i) = decode_poison(toks, i)?;
    let (statements, i) = decode_num_list(toks, i)?;
    let (exit, i) = decode_exit(toks, i)?;
    let (diagnostics, i) = decode_num_list(toks, i)?;
    let i = read_close(toks, i)?;
    Some((Block { signature, poison, statements, exit, diagnostics }, i))
}

fn decode_statement(toks: &Vec<Token>, i: usize) -> (r: Option<(Statement, usize)>)
    ensures
        r matches Some(p) ==> i < p.1 <= toks@.len(),
{
    let i = read_open(toks, i)?;
    let (tag, i) = read_num(toks, i)?;
    let (st, i): (Statement, usize) = if tag == 0 {
        let (variable, i) = read_num(toks, i)?;
        let (value, i) = decode_u128(toks, i)?;
        let (typ, i) = decode_typ(toks, i)?;
        let (diagnostics, i) = decode_num_list(toks, i)?;
        let (location, i) = decode_opt_num(toks, i)?;
        (
            Statement::AssignConst(
                AssignConstStatement {
                    variable,
                    value: ConstantValue { value, typ },
                    diagnostics,
                    location,
                },
            ),
            i,
        )
    } else if tag == 1 {
        let (block, i) = decode_block_ref(toks, i)?;
        let (input, i) = decode_num_list(toks, i)?;
        let (outputs, i) = decode_num_list(toks, i)?;
        let (diagnostics, i) = decode_num_list(toks, i)?;
        let (location, i) = decode_opt_num(toks, i)?;
        (Statement::Call(CallStatement { block, input, outputs, diagnostics, location }), i)
    } else if tag == 2 {
        let (target, i) = read_num(toks, i)?;
        let (initializier, i) = decode_num_list(toks, i)?;
        let (diagnostics, i) = decode_num_list(toks, i)?;
        let (location, i) = decode_opt_num(toks, i)?;
        (
            Statement::Construct(
                ConstructStatement { target, initializier, diagnostics, location },
            ),
            i,
        )
    } else if tag == 3 {
        let (whole, i) = read_num(toks, i)?;
        let (parts, i) = decode_num_list(toks, i)?;
        let (diagnostics, i) = decode_num_list(toks, i)?;
        let (location, i) = decode_opt_num(toks, i)?;
        (
            Statement::Destructure(DestructureStatement { whole, parts, diagnostics, location }),
            i,
        )
    } else if tag == 4 {
        let (target, i) = read_num(toks, i)?;
        let (source, i) = read_num(toks, i)?;
        let (diagnostics, i) = decode_num_list(toks, i)?;
        let (location, i) = decode_opt_num(toks, i)?;
        (Statement::Snap(SnapStatement { target, source, diagnostics, location }), i)
    } else if tag == 5 {
        let (snap, i) = read_num(toks, i)?;
        let (target, i) = read_num(toks, i)?;
        let (diagnostics, i) = decode_num_list(toks, i)?;
        let (location, i) = decode_opt_num(toks, i)?;
        (Statement::Desnap(DesnapStatement { snap, target, diagnostics, location }), i)
    } else if tag == 6 {
        let (p, i) = decode_poison(toks, i)?;
        (Statement::Poisoned(p), i)
    } else {
        return None;
    };
    let i = read_close(toks, i)?;
    Some((st, i))
}

fn decode_match_arm(toks: &Vec<Token>, i: usize) -> (r: Option<(MatchArm, usize)>)
    ensures
        r matches Some(p) ==> i < p.1 <= toks@.len(),
{
    let i = read_open(toks, i)?;
    let (condition, i) = read_num(toks, i)?;
    let (target_block, i) = decode_block_ref(toks, i)?;
    let (poison, i) = decode_poison(toks, i)?;
    let (diagnostics, i) = decode_num_list(toks, i)?;
    let (location, i) = decode_opt_num(toks, i)?;
    let i = read_close(toks, i)?;
    Some((MatchArm { condition, target_block, poison, diagnostics, location }, i))
}

fn decode_variable(toks: &Vec<Token>, i: usize) -> (r: Option<(Variable, usize)>)
    ensures
        r matches Some(p) ==> i < p.1 <= toks@.len(),
{
    let i = read_open(toks, i)?;
    let (typ, i) = decode_typ(toks, i)?;
    let (linkage, i) = decode_linkage(toks, i)?;
    let (poison, i) = decode_poison(toks, i)?;
    let (diagnostics, i) = decode_num_list(toks, i)?;
    let (location, i) = decode_opt_num(toks, i)?;
    let i = read_close(toks, i)?;
    Some((Variable { typ, linkage, poison, diagnostics, location }, i))
}

fn decode_array_type(toks: &Vec<Token>, i: usize) -> (r: Option<(ArrayType, usize)>)
    ensures
        r matches Some(p) ==> i < p.1 <= toks@.len(),
{
    let i = read_open(toks, i)?;
    let (member_type, i) = decode_typ(toks, i)?;
    let (length, i) = read_num(toks, i)?;
    let (diagnostics, i) = decode_num_list(toks, i)?;
    let (location, i) = decode_opt_num(toks, i)?;
    let (poison, i) = decode_poison(toks, i)?;
    let i = read_close(toks, i)?;
    Some((ArrayType { member_type, length, diagnostics, location, poison }, i))
}

fn decode_struct_type(toks: &Vec<Token>, i: usize) -> (r: Option<(StructType, usize)>)
    ensures
        r matches Some(p) ==> i < p.1 <= toks@.len(),
{
    let i = read_open(toks, i)?;
    let (members, i) = decode_typ_list(toks, i)?;
    let (diagnostics, i) = decode_num_list(toks, i)?;
    let (location, i) = decode_opt_num(toks, i)?;
    let (poison, i) = decode_poison(toks, i)?;
    let i = read_close(toks, i)?;
    Some((StructType { members, diagnostics, location, poison }, i))
}

fn decode_diagnostic(toks: &Vec<Token>, i: usize) -> (r: Option<(Diagnostic, usize)>)
    ensures
        r matches Some(p) ==> i < p.1 <= toks@.len(),
{
    let i = read_open(toks, i)?;
    let (message, i) = read_text(toks, i)?;
    let (poison, i) = decode_poison(toks, i)?;
    let (location, i) = decode_opt_num(toks, i)?;
    let i = read_close(toks, i)?;
    Some((Diagnostic { message, poison, location }, i))
}

fn decode_location(toks: &Vec<Token>, i: usize) -> (r: Option<(Location, usize)>)
    ensures
        r matches Some(p) ==> i < p.1 <= toks@.len(),
{
    let i = read_open(toks, i)?;
    let (source, i) = read_text(toks, i)?;
    let (line, i) = decode_opt_u32(toks, i)?;
    let (col, i) = decode_opt_u32(toks, i)?;
    let (poison, i) = decode_poison(toks, i)?;
    let i = read_close(toks, i)?;
    Some((Location { source, line, col, poison }, i))
}

fn decode_symbol_table(toks: &Vec<Token>, i: usize) -> (r: Option<(SymbolTable, usize)>)
    ensures
        r matches Some(p) ==> p.0.wf() && i < p.1 <= toks@.len(),
{
    let mut j = read_open(toks, i)?;
    let mut pairs: Vec<(String, usize)> = Vec::new();
    while !peek_close(toks, j)
        invariant
            i < j,
            j <= toks@.len(),
        decreases toks@.len() - j,
    {
        let (name, j2) = read_text(toks, j)?;
        let (id, j3) = read_num(toks, j2)?;
        pairs.push((name, id));
        j = j3;
    }
    let j = read_close(toks, j)?;
    match SymbolTable::from_pairs(pairs) {
        Some(t) => Some((t, j)),
        None => None,
    }
}

fn decode_flo(toks: &Vec<Token>) -> (r: Option<FlatLoweredObject>)
    ensures
        r matches Some(o) ==> o.wf(),
{
    let i = read_open(toks, 0)?;
    let (module_name, i) = read_text(toks, i)?;
    let (version, i) = decode_opt_text(toks, i)?;
    let (time, i) = decode_opt_text(toks, i)?;
    let (entry_point, i) = decode_opt_num(toks, i)?;
    let (code, i) = decode_symbol_table(toks, i)?;
    let (data, i) = decode_symbol_table(toks, i)?;
    let (blocks, i) = decode_block_table(toks, i)?;
    let (statements, i) = decode_statement_table(toks, i)?;
    let (match_arms, i) = decode_match_arm_table(toks, i)?;
    let (variables, i) = decode_variable_table(toks, i)?;
    let (arrays, i) = decode_array_table(toks, i)?;
    let (structs, i) = decode_struct_table(toks, i)?;
    let (diagnostics, i) = decode_diagnostic_table(toks, i)?;
    let (locations, i) = decode_location_table(toks, i)?;
    let (initializers, i) = decode_num_list(toks, i)?;
    let (finalizers, i) = decode_num_list(toks, i)?;
    let (flag, i) = read_num(toks, i)?;
    if flag > 1 {
        return None;
    }
    let i = read_close(toks, i)?;
    if i != toks.len() {
        return None;
    }
    Some(
        FlatLoweredObject {
            module_name,
            version,
            time,
            entry_point,
            symbols: SymbolTables { code, data },
            blocks,
            statements,
            match_arms,
            variables,
            types: TypeTables { arrays, structs },
            diagnostics,
            locations,
            initializers,
            finalizers,
            allow_incomplete: flag == 1,
        },
    )
}

fn decode_block_table(toks: &Vec<Token>, i: usize) -> (r: Option<(InternTable<Block>, usize)>)
    ensures
        r matches Some(p) ==> p.0.wf() && i < p.1 <= toks@.len(),
{
    let j0 = read_open(toks, i)?;
    let (cursor, jc) = read_num(toks, j0)?;
    let mut j = jc;
    let mut entries: Vec<(usize, Block)> = Vec::new();
    while !peek_close(toks, j)
        invariant
            i < j,
            j <= toks@.len(),
        decreases toks@.len() - j,
    {
        let (id, j2) = read_num(toks, j)?;
        let (b, j3) = decode_block(toks, j2)?;
        entries.push((id, b));
        j = j3;
    }
    let j = read_close(toks, j)?;
    match InternTable::from_parts(entries, cursor) {
        Some(t) => Some((t, j)),
        None => None,
    }
}

fn decode_statement_table(toks: &Vec<Token>, i: usize) -> (r: Option<
    (InternTable<Statement>, usize),
>)
    ensures
        r matches Some(p) ==> p.0.wf() && i < p.1 <= toks@.len(),
{
    let j0 = read_open(toks, i)?;
    let (cursor, jc) = read_num(toks, j0)?;
    let mut j = jc;
    let mut entries: Vec<(usize, Statement)> = Vec::new();
    while !peek_close(toks, j)
        invariant
            i < j,
            j <= toks@.len(),
        decreases toks@.len() - j,
    {
        let (id, j2) = read_num(toks, j)?;
        let (b, j3) = decode_statement(toks, j2)?;
        entries.push((id, b));
        j = j3;
    }
    let j = read_close(toks, j)?;
    match InternTable::from_parts(entries, cursor) {
        Some(t) => Some((t, j)),
        None => None,
    }
}

fn decode_match_arm_table(toks: &Vec<Token>, i: usize) -> (r: Option<
    (InternTable<MatchArm>, usize),
>)
    ensures
        r matches Some(p) ==> p.0.wf() && i < p.1 <= toks@.len(),
{
    let j0 = read_open(toks, i)?;
    let (cursor, jc) = read_num(toks, j0)?;
    let mut j = jc;
    let mut entries: Vec<(usize, MatchArm)> = Vec::new();
    while !peek_close(toks, j)
        invariant
            i < j,
            j <= toks@.len(),
        decreases toks@.len() - j,
    {
        let (id, j2) = read_num(toks, j)?;
        let (b, j3) = decode_match_arm(toks, j2)?;
        entries.push((id, b));
        j = j3;
    }
    let j = read_close(toks, j)?;
    match InternTable::from_parts(entries, cursor) {
        Some(t) => Some((t, j)),
        None => None,
    }
}

fn decode_variable_table(toks: &Vec<Token>, i: usize) -> (r: Option<
    (InternTable<Variable>, usize),
>)
    ensures
        r matches Some(p) ==> p.0.wf() && i < p.1 <= toks@.len(),
{
    let j0 = read_open(toks, i)?;
    let (cursor, jc) = read_num(toks, j0)?;
    let mut j = jc;
    let mut entries: Vec<(usize, Variable)> = Vec::new();
    while !peek_close(toks, j)
        invariant
            i < j,
            j <= toks@.len(),
        decreases toks@.len() - j,
    {
        let (id, j2) = read_num(toks, j)?;
        let (b, j3) = decode_variable(toks, j2)?;
        entries.push((id, b));
        j = j3;
    }
    let j = read_close(toks, j)?;
    match InternTable::from_parts(entries, cursor) {
        Some(t) => Some((t, j)),
        None => None,
    }
}

fn decode_array_table(toks: &Vec<Token>, i: usize) -> (r: Option<(InternTable<ArrayType>, usize)>)
    ensures
        r matches Some(p) ==> p.0.wf() && i < p.1 <= toks@.len(),
{
    let j0 = read_open(toks, i)?;
    let (cursor, jc) = read_num(toks, j0)?;
    let mut j = jc;
    let mut entries: Vec<(usize, ArrayType)> = Vec::new();
    while !peek_close(toks, j)
        invariant
            i < j,
            j <= toks@.len(),
        decreases toks@.len() - j,
    {
        let (id, j2) = read_num(toks, j)?;
        let (b, j3) = decode_array_type(toks, j2)?;
        entries.push((id, b));
        j = j3;
    }
    let j = read_close(toks, j)?;
    match InternTable::from_parts(entries, cursor) {
        Some(t) => Some((t, j)),
        None => None,
    }
}

fn decode_struct_table(toks: &Vec<Token>, i: usize) -> (r: Option<
    (InternTable<StructType>, usize),
>)
    ensures
        r matches Some(p) ==> p.0.wf() && i < p.1 <= toks@.len(),
{
    let j0 = read_open(toks, i)?;
    let (cursor, jc) = read_num(toks, j0)?;
    let mut j = jc;
    let mut entries: Vec<(usize, StructType)> = Vec::new();
    while !peek_close(toks, j)
        invariant
            i < j,
            j <= toks@.len(),
        decreases toks@.len() - j,
    {
        let (id, j2) = read_num(toks, j)?;
        let (b, j3) = decode_struct_type(toks, j2)?;
        entries.push((id, b));
        j = j3;
    }
    let j = read_close(toks, j)?;
    match InternTable::from_parts(entries, cursor) {
        Some(t) => Some((t, j)),
        None => None,
    }
}

fn decode_diagnostic_table(toks: &Vec<Token>, i: usize) -> (r: Option<
    (InternTable<Diagnostic>, usize),
>)
    ensures
        r matches Some(p) ==> p.0.wf() && i < p.1 <= toks@.len(),
{
    let j0 = read_open(toks, i)?;
    let (cursor, jc) = read_num(toks, j0)?;
    let mut j = jc;
    let mut entries: Vec<(usize, Diagnostic)> = Vec::new();
    while !peek_close(toks, j)
        invariant
            i < j,
            j <= toks@.len(),
        decreases toks@.len() - j,
    {
        let (id, j2) = read_num(toks, j)?;
        let (b, j3) = decode_diagnostic(toks, j2)?;
        entries.push((id, b));
        j = j3;
    }
    let j = read_close(toks, j)?;
    match InternTable::from_parts(entries, cursor) {
        Some(t) => Some((t, j)),
        None => None,
    }
}

fn decode_location_table(toks: &Vec<Token>, i: usize) -> (r: Option<
    (InternTable<Location>, usize),
>)
    ensures
        r matches Some(p) ==> p.0.wf() && i < p.1 <= toks@.len(),
{
    let j0 = read_open(toks, i)?;
    let (cursor, jc) = read_num(toks, j0)?;
    let mut j = jc;
    let mut entries: Vec<(usize, Location)> = Vec::new();
    while !peek_close(toks, j)
        invariant
            i < j,
            j <= toks@.len(),
        decreases toks@.len() - j,
    {
        let (id, j2) = read_num(toks, j)?;
        let (b, j3) = decode_location(toks, j2)?;
        entries.push((id, b));
        j = j3;
    }
    let j = read_close(toks, j)?;
    match InternTable::from_parts(entries, cursor) {
        Some(t) => Some((t, j)),
        None => None,
    }
}

} // verus!
