//! The pass framework: passes as named, dependency-aware units of work, and
//! the manager that resolves a valid execution order over them and threads
//! the accumulated pass data between them.
//!
//! A pass identity is an explicit stable integer key rather than a runtime
//! type identity, so the identity of a pass is the same whether it is taken
//! from a concrete pass value or from its kind.

use vstd::multiset::Multiset;
use vstd::prelude::*;
use vstd::seq_lib::group_seq_properties;
use vstd::string::StringExecFns;

use crate::context::SourceContext;
use crate::errors::Error;
use crate::module_map::{BuildModuleMap, ModuleMap};
use crate::pass_data::{clear_post, put_post, PassDataMap, PassKey};

verus! {

/// The stable identity of the module mapping pass.
pub const MODULE_MAP_PASS_KEY: PassKey = 1;

/// The type-erased output of a pass.
#[derive(Debug, PartialEq, Eq)]
pub enum PassData {
    /// The output of the module mapping pass.
    ModuleMap(ModuleMap),

    /// The output of a pass whose work lives outside the library: the
    /// library records only that the pass has run.
    Unit,
}

/// Typed access to a type-erased [`PassData`] value.
pub trait PassDataOps: Sized {
    /// Whether the erased value holds this concrete type.
    spec fn held_in(d: PassData) -> bool;

    /// The concrete value held; meaningful only when `held_in(d)`.
    spec fn value_in(d: PassData) -> Self;

    /// Checks whether the erased value holds this concrete type.
    fn is(d: &PassData) -> (r: bool)
        ensures
            r == Self::held_in(*d);

    /// Views the erased value as this concrete type, if it holds one.
    fn view_as(d: &PassData) -> (r: Option<&Self>)
        ensures
            match r {
                Some(v) => Self::held_in(*d) && *v == Self::value_in(*d),
                None => !Self::held_in(*d),
            };

    /// Views the erased value as this concrete type; the caller must know
    /// it holds one.
    fn unwrap_as(d: &PassData) -> (r: &Self)
        requires
            Self::held_in(*d),
        ensures
            *r == Self::value_in(*d);

    /// The erased form of a concrete value.
    spec fn wrapped(v: Self) -> PassData;

    /// Views the erased value mutably as this concrete type, if it holds
    /// one. Whatever the caller writes through the reference lands,
    /// re-erased, in the original value.
    fn view_as_mut(d: &mut PassData) -> (r: Option<&mut Self>)
        ensures
            match r {
                Some(v) => Self::held_in(*old(d)) && *v == Self::value_in(*old(d)) && *final(d)
                    == Self::wrapped(*final(v)),
                None => !Self::held_in(*old(d)) && *final(d) == *old(d),
            };

    /// Views the erased value mutably as this concrete type; the caller
    /// must know it holds one. Whatever the caller writes through the
    /// reference lands, re-erased, in the original value.
    fn unwrap_as_mut(d: &mut PassData) -> (r: &mut Self)
        requires
            Self::held_in(*old(d)),
        ensures
            *r == Self::value_in(*old(d)),
            *final(d) == Self::wrapped(*final(r));
}

impl PassDataOps for ModuleMap {
    open spec fn held_in(d: PassData) -> bool {
        d is ModuleMap
    }

    open spec fn value_in(d: PassData) -> ModuleMap {
        d->ModuleMap_0
    }

    fn is(d: &PassData) -> (r: bool) {
        matches!(d, PassData::ModuleMap(_))
    }

    fn view_as(d: &PassData) -> (r: Option<&ModuleMap>) {
        match d {
            PassData::ModuleMap(m) => Some(m),
            _ => None,
        }
    }

    fn unwrap_as(d: &PassData) -> (r: &ModuleMap) {
        match d {
            PassData::ModuleMap(m) => m,
            // Unreachable: the requires clause guarantees the variant.
            _ => vstd::pervasive::unreached(),
        }
    }

    open spec fn wrapped(v: ModuleMap) -> PassData {
        PassData::ModuleMap(v)
    }

    fn view_as_mut(d: &mut PassData) -> (r: Option<&mut ModuleMap>) {
        match d {
            PassData::ModuleMap(m) => Some(m),
            _ => None,
        }
    }

    fn unwrap_as_mut(d: &mut PassData) -> (r: &mut ModuleMap) {
        match d {
            PassData::ModuleMap(m) => m,
            // Unreachable: the requires clause guarantees the variant.
            _ => vstd::pervasive::unreached(),
        }
    }
}

/// Operations available on a concrete pass kind rather than a pass value:
/// its stable identity.
pub trait ConcretePass {
    /// The stable identity of the pass kind.
    spec fn spec_key() -> PassKey;

    /// Gets the stable identity of the pass kind. It is the same key a pass
    /// value of this kind reports.
    fn key() -> (r: PassKey)
        ensures
            r == Self::spec_key();
}

impl ConcretePass for BuildModuleMap {
    open spec fn spec_key() -> PassKey {
        MODULE_MAP_PASS_KEY
    }

    fn key() -> (r: PassKey) {
        MODULE_MAP_PASS_KEY
    }
}

/// A concrete pass data kind is tied to the pass that produces it.
pub trait ConcretePassData: PassDataOps {
    /// The identity of the pass this data belongs to.
    spec fn producing_key() -> PassKey;
}

impl ConcretePassData for ModuleMap {
    open spec fn producing_key() -> PassKey {
        MODULE_MAP_PASS_KEY
    }
}

/// A mapping from pass keys to type-erased pass data.
pub type DynPassDataMap = PassDataMap<PassData>;

/// The data returned when executing a pass.
#[derive(Debug, PartialEq, Eq)]
pub struct PassReturnData<T> {
    /// The possibly transformed source context.
    pub source_context: SourceContext,

    /// The data returned by the pass.
    pub data: T,
}

impl<T> PassReturnData<T> {
    /// Creates a new instance of the pass return data.
    pub fn new(source_context: SourceContext, data: T) -> (r: PassReturnData<T>)
        ensures
            r.source_context == source_context,
            r.data == data,
    {
        PassReturnData { source_context, data }
    }
}

/// Pass return data carrying a type-erased output.
pub type DynPassReturnData = PassReturnData<PassData>;

/// A pass whose work lives outside the library: the library holds its
/// identity and its declared scheduling relations, and running it records
/// only that it has run. The work itself is performed by whatever drives
/// the pipeline.
#[derive(Debug, PartialEq, Eq)]
pub struct ExternalPass {
    /// The stable identity of the pass.
    pub key: PassKey,

    /// The passes whose output this pass requires.
    pub depends: Vec<PassKey>,

    /// The passes whose previously published output this pass invalidates.
    pub invalidates: Vec<PassKey>,
}

/// A pass: a self-contained, dependency-aware unit of work.
#[derive(Debug, PartialEq, Eq)]
pub enum Pass {
    /// The standard analysis pass that maps the module's structure.
    ModuleMap(BuildModuleMap),

    /// A pass whose work lives outside the library.
    External(ExternalPass),
}

impl Pass {
    /// The stable identity of this pass. A pass of the module mapping kind
    /// reports exactly the kind's key, so the identity is the same whether
    /// it is derived from the value or from the kind.
    pub open spec fn key_spec(self) -> PassKey {
        match self {
            Pass::ModuleMap(_) => MODULE_MAP_PASS_KEY,
            Pass::External(e) => e.key,
        }
    }

    /// The identities of the passes whose output this pass requires.
    pub open spec fn depends_spec(self) -> Seq<PassKey> {
        match self {
            Pass::ModuleMap(_) => Seq::empty(),
            Pass::External(e) => e.depends@,
        }
    }

    /// The identities of the passes this pass invalidates.
    pub open spec fn invalidates_spec(self) -> Seq<PassKey> {
        match self {
            Pass::ModuleMap(_) => Seq::empty(),
            Pass::External(e) => e.invalidates@,
        }
    }

    /// Gets the stable identity of this pass.
    pub fn key(&self) -> (r: PassKey)
        ensures
            r == self.key_spec(),
    {
        match self {
            Pass::ModuleMap(_) => MODULE_MAP_PASS_KEY,
            Pass::External(e) => e.key,
        }
    }

    /// Gets the identities of the passes whose output this pass requires.
    pub fn depends(&self) -> (r: Vec<PassKey>)
        ensures
            r@ == self.depends_spec(),
    {
        match self {
            Pass::ModuleMap(_) => Vec::new(),
            Pass::External(e) => copy_keys(&e.depends),
        }
    }

    /// Gets the identities of the passes this pass invalidates.
    pub fn invalidates(&self) -> (r: Vec<PassKey>)
        ensures
            r@ == self.invalidates_spec(),
    {
        match self {
            Pass::ModuleMap(_) => Vec::new(),
            Pass::External(e) => copy_keys(&e.invalidates),
        }
    }

    /// Returns an independent duplicate of this pass with the same identity
    /// and scheduling relations.
    pub fn dupe(&self) -> (r: Pass)
        ensures
            r.key_spec() == self.key_spec(),
            r.depends_spec() == self.depends_spec(),
            r.invalidates_spec() == self.invalidates_spec(),
    {
        match self {
            Pass::ModuleMap(_) => Pass::ModuleMap(BuildModuleMap::new()),
            Pass::External(e) => Pass::External(
                ExternalPass {
                    key: e.key,
                    depends: copy_keys(&e.depends),
                    invalidates: copy_keys(&e.invalidates),
                },
            ),
        }
    }

    /// The special-intrinsics table a module mapping pass consults; the
    /// empty table for any other kind.
    pub open spec fn table_spec(self) -> Seq<(String, crate::module_map::FunctionInfo)> {
        match self {
            Pass::ModuleMap(p) => p.intrinsics_table(),
            Pass::External(_) => Seq::empty(),
        }
    }

    /// Whether running this pass on a context with the given data-layout
    /// descriptor succeeds: an external pass always does, and the module
    /// mapping pass succeeds exactly on accepted layouts.
    pub open spec fn accepts(self, layout: Seq<char>) -> bool {
        self is External || crate::module_map::layout_accepted(layout)
    }

    /// Executes the pass on the provided `context`, returning the context —
    /// unchanged, as this library's passes transform nothing — and the
    /// pass's output: the module map for the module mapping kind, and the
    /// unit record for an external pass. A module mapping pass fails
    /// exactly on a rejected data layout, with the layout's own error.
    pub fn run(&self, context: SourceContext, pass_data: &DynPassDataMap) -> (r: Result<
        DynPassReturnData,
        Error,
    >)
        ensures
            r is Ok <==> self.accepts(context.data_layout@),
            match r {
                Ok(rd) => {
                    &&& rd.source_context == context
                    &&& (rd.data is ModuleMap <==> self is ModuleMap)
                    &&& self is ModuleMap ==> crate::module_map::module_map_of(
                        rd.data->ModuleMap_0,
                        context,
                        self.table_spec(),
                    )
                    &&& self is External ==> rd.data == PassData::Unit
                },
                Err(e) => self is ModuleMap && crate::module_map::layout_error(
                    context.data_layout@,
                    e,
                ),
            },
    {
        match self {
            Pass::ModuleMap(p) => {
                let mm = match p.map_module(&context) {
                    Ok(m) => m,
                    Err(e) => {
                        return Err(e);
                    },
                };
                Ok(PassReturnData::new(context, PassData::ModuleMap(mm)))
            },
            Pass::External(_) => Ok(PassReturnData::new(context, PassData::Unit)),
        }
    }
}

/// Copies a vector of pass keys.
fn copy_keys(keys: &Vec<PassKey>) -> (r: Vec<PassKey>)
    ensures
        r@ == keys@,
{
    let n = keys.len();
    let mut out: Vec<PassKey> = Vec::new();
    let mut i: usize = 0;
    while i < n
        invariant
            i <= n,
            n == keys@.len(),
            out@ =~= keys@.subrange(0, i as int),
        decreases n - i,
    {
        out.push(keys[i]);
        proof {
            assert(keys@.subrange(0, i + 1) =~= keys@.subrange(0, i as int).push(
                keys@[i as int],
            ));
        }
        i += 1;
    }
    proof {
        assert(keys@.subrange(0, n as int) =~= keys@);
    }
    out
}

/// Whether some pass of `s` has the identity `k`.
pub open spec fn provides(s: Seq<Pass>, k: PassKey) -> bool {
    exists|i: int| 0 <= i < s.len() && (#[trigger] s[i]).key_spec() == k
}

/// Whether every dependency of the pass `p` is provided by some pass of
/// `done`.
pub open spec fn deps_provided(done: Seq<Pass>, p: Pass) -> bool {
    forall|d: int|
        #![trigger p.depends_spec()[d]]
        0 <= d < p.depends_spec().len() ==> provides(done, p.depends_spec()[d])
}

/// Whether `s` is a valid execution order: every pass appears after all the
/// passes it depends on.
pub open spec fn valid_order(s: Seq<Pass>) -> bool {
    forall|i: int|
        0 <= i < s.len() ==> deps_provided(s.subrange(0, i), #[trigger] s[i])
}

/// A stuck configuration: a split of the passes into a scheduled part and a
/// nonempty remainder in which every pass still depends on an identity the
/// scheduled part does not provide. Such a configuration witnesses an
/// unsatisfiable dependency set — a dependency cycle, or a dependency on an
/// identity no pass provides.
pub open spec fn stuck_split(passes: Seq<Pass>, done: Seq<Pass>, rem: Seq<Pass>) -> bool {
    &&& done.to_multiset().add(rem.to_multiset()) == passes.to_multiset()
    &&& rem.len() > 0
    &&& forall|j: int| 0 <= j < rem.len() ==> !deps_provided(done, #[trigger] rem[j])
}

/// Whether no pass claims an identity reserved for another pass kind: an
/// external pass never carries the module mapping pass's identity, so two
/// different pass kinds never collide.
pub open spec fn keys_reserved_ok(s: Seq<Pass>) -> bool {
    forall|i: int| 0 <= i < s.len() ==> ((#[trigger] s[i]) is External ==> s[i].key_spec()
        != MODULE_MAP_PASS_KEY)
}

/// Whether the passes admit no valid order: some split of them is stuck.
pub open spec fn unschedulable(passes: Seq<Pass>) -> bool {
    exists|done: Seq<Pass>, rem: Seq<Pass>| stuck_split(passes, done, rem)
}

/// Whether some pass counted by the multiset has the identity `k`.
pub open spec fn provides_ms(ms: Multiset<Pass>, k: PassKey) -> bool {
    exists|p: Pass| ms.count(p) > 0 && (#[trigger] p.key_spec()) == k
}

/// Whether every dependency of `p` is provided by some pass counted by the
/// multiset.
pub open spec fn deps_provided_ms(ms: Multiset<Pass>, p: Pass) -> bool {
    forall|d: int|
        #![trigger p.depends_spec()[d]]
        0 <= d < p.depends_spec().len() ==> provides_ms(ms, p.depends_spec()[d])
}

/// Providing a key is the same over a sequence and over its multiset.
proof fn lemma_provides_to_ms(s: Seq<Pass>, k: PassKey)
    ensures
        provides(s, k) == provides_ms(s.to_multiset(), k),
{
    broadcast use group_seq_properties;

    if provides(s, k) {
        let i = choose|i: int| 0 <= i < s.len() && (#[trigger] s[i]).key_spec() == k;
        assert(s.contains(s[i]));
        assert(s.to_multiset().count(s[i]) > 0);
    }
    if provides_ms(s.to_multiset(), k) {
        let p = choose|p: Pass| s.to_multiset().count(p) > 0 && (#[trigger] p.key_spec()) == k;
        assert(s.contains(p));
        let i = choose|i: int| 0 <= i < s.len() && s[i] == p;
        assert(s[i].key_spec() == k);
    }
}

/// In any valid order whose passes split into a scheduled multiset and a
/// nonempty remainder, some pass of the remainder has all its dependencies
/// provided by the scheduled part alone.
proof fn lemma_valid_order_has_ready(s: Seq<Pass>, donems: Multiset<Pass>, remms: Multiset<Pass>)
    requires
        valid_order(s),
        s.to_multiset() == donems.add(remms),
        remms.len() > 0,
    ensures
        exists|p: Pass|
            remms.count(p) > 0 && #[trigger] deps_provided_ms(donems, p),
    decreases s.len(),
{
    broadcast use group_seq_properties;
    broadcast use vstd::multiset::group_multiset_axioms;

    if s.len() == 0 {
        assert(s.to_multiset().len() == 0);
        assert(false);
    } else {
        let last = s.last();
        let t = s.drop_last();
        assert(s =~= t.push(last));
        assert(s.to_multiset() =~= t.to_multiset().insert(last));
        assert(valid_order(t)) by {
            assert forall|i: int| 0 <= i < t.len() implies deps_provided(
                t.subrange(0, i),
                #[trigger] t[i],
            ) by {
                assert(t[i] == s[i]);
                assert(t.subrange(0, i) =~= s.subrange(0, i));
                assert(deps_provided(s.subrange(0, i), s[i]));
            }
        }
        if remms.count(last) > 0 {
            let remms2 = remms.remove(last);
            if remms2.len() == 0 {
                // The remainder is exactly the final pass, whose
                // dependencies the rest of the order provides.
                assert(t.to_multiset() =~= donems) by {
                    assert forall|x: Pass|
                        t.to_multiset().count(x) == donems.count(x) by {
                        assert(s.to_multiset().count(x) == donems.count(x) + remms.count(x));
                        if x == last {
                            assert(remms.count(x) == 1) by {
                                if remms.count(x) > 1 {
                                    assert(remms2.count(x) >= 1);
                                    vstd::multiset::axiom_count_le_len::<Pass>(remms2, x);
                                }
                            }
                        } else {
                            assert(remms.count(x) == 0) by {
                                if remms.count(x) > 0 {
                                    assert(remms2.count(x) > 0);
                                    vstd::multiset::axiom_count_le_len::<Pass>(remms2, x);
                                }
                            }
                        }
                    }
                }
                assert(deps_provided_ms(donems, last)) by {
                    assert(s[s.len() - 1] == last);
                    assert(deps_provided(s.subrange(0, s.len() - 1), last));
                    assert(s.subrange(0, s.len() - 1) =~= t);
                    assert forall|d: int|
                        #![trigger last.depends_spec()[d]]
                        0 <= d < last.depends_spec().len() implies provides_ms(
                        donems,
                        last.depends_spec()[d],
                    ) by {
                        assert(provides(t, last.depends_spec()[d]));
                        lemma_provides_to_ms(t, last.depends_spec()[d]);
                    }
                }
            } else {
                assert(t.to_multiset() =~= donems.add(remms2)) by {
                    assert forall|x: Pass|
                        t.to_multiset().count(x) == donems.count(x) + remms2.count(x) by {
                        assert(s.to_multiset().count(x) == donems.count(x) + remms.count(x));
                    }
                }
                lemma_valid_order_has_ready(t, donems, remms2);
                let p = choose|p: Pass|
                    remms2.count(p) > 0 && #[trigger] deps_provided_ms(donems, p);
                assert(remms.count(p) > 0);
            }
        } else {
            // The final pass was already scheduled; peel it off the
            // scheduled side and recurse.
            assert(donems.count(last) > 0) by {
                assert(s.to_multiset().count(last) > 0);
            }
            let donems2 = donems.remove(last);
            assert(t.to_multiset() =~= donems2.add(remms)) by {
                assert forall|x: Pass|
                    t.to_multiset().count(x) == donems2.count(x) + remms.count(x) by {
                    assert(s.to_multiset().count(x) == donems.count(x) + remms.count(x));
                }
            }
            lemma_valid_order_has_ready(t, donems2, remms);
            let p = choose|p: Pass|
                remms.count(p) > 0 && #[trigger] deps_provided_ms(donems2, p);
            assert(deps_provided_ms(donems, p)) by {
                assert forall|d: int|
                    #![trigger p.depends_spec()[d]]
                    0 <= d < p.depends_spec().len() implies provides_ms(
                    donems,
                    p.depends_spec()[d],
                ) by {
                    assert(provides_ms(donems2, p.depends_spec()[d]));
                    let w = choose|w: Pass|
                        donems2.count(w) > 0 && (#[trigger] w.key_spec()) == p.depends_spec()[d];
                    assert(donems.count(w) > 0);
                }
            }
        }
    }
}

/// The scheduling law, refusal side: passes that admit a stuck split admit
/// no valid execution order at all, so a manager that refuses a pass set
/// refuses one that no ordering could have satisfied.
pub proof fn lemma_stuck_split_unschedulable(
    passes: Seq<Pass>,
    done: Seq<Pass>,
    rem: Seq<Pass>,
    order: Seq<Pass>,
)
    requires
        stuck_split(passes, done, rem),
    ensures
        !(order.to_multiset() == passes.to_multiset() && valid_order(order)),
{
    broadcast use group_seq_properties;

    if order.to_multiset() == passes.to_multiset() && valid_order(order) {
        assert(rem.to_multiset().len() == rem.len());
        lemma_valid_order_has_ready(order, done.to_multiset(), rem.to_multiset());
        let p = choose|p: Pass|
            rem.to_multiset().count(p) > 0 && #[trigger] deps_provided_ms(done.to_multiset(), p);
        assert(rem.contains(p));
        let j = choose|j: int| 0 <= j < rem.len() && rem[j] == p;
        assert(!deps_provided(done, rem[j]));
        let d = choose|d: int|
            0 <= d < p.depends_spec().len() && !provides(done, #[trigger] p.depends_spec()[d]);
        assert(provides_ms(done.to_multiset(), p.depends_spec()[d]));
        lemma_provides_to_ms(done, p.depends_spec()[d]);
        assert(false);
    }
}

/// Checks whether some pass of `s` has the identity `k`.
fn provided_in(s: &Vec<Pass>, k: PassKey) -> (r: bool)
    ensures
        r == provides(s@, k),
{
    let n = s.len();
    let mut i: usize = 0;
    while i < n
        invariant
            i <= n,
            n == s@.len(),
            forall|j: int| 0 <= j < i ==> (#[trigger] s@[j]).key_spec() != k,
        decreases n - i,
    {
        if s[i].key() == k {
            return true;
        }
        i += 1;
    }
    false
}

/// Checks whether every dependency of `p` is provided by `done`.
fn deps_satisfied(done: &Vec<Pass>, p: &Pass) -> (r: bool)
    ensures
        r == deps_provided(done@, *p),
{
    let deps = p.depends();
    let n = deps.len();
    let mut i: usize = 0;
    while i < n
        invariant
            i <= n,
            n == deps@.len(),
            deps@ == p.depends_spec(),
            forall|d: int| 0 <= d < i ==> provides(done@, p.depends_spec()[d]),
        decreases n - i,
    {
        if !provided_in(done, deps[i]) {
            proof {
                assert(!provides(done@, p.depends_spec()[i as int]));
            }
            return false;
        }
        i += 1;
    }
    true
}

/// Finds a pass of `remaining` whose dependencies are all provided by
/// `done`, if any.
fn find_ready(done: &Vec<Pass>, remaining: &Vec<Pass>) -> (r: Option<usize>)
    ensures
        match r {
            Some(p) => p < remaining@.len() && deps_provided(done@, remaining@[p as int]),
            None => forall|q: int|
                0 <= q < remaining@.len() ==> !deps_provided(done@, #[trigger] remaining@[q]),
        },
{
    let n = remaining.len();
    let mut j: usize = 0;
    while j < n
        invariant
            j <= n,
            n == remaining@.len(),
            forall|q: int| 0 <= q < j ==> !deps_provided(done@, #[trigger] remaining@[q]),
        decreases n - j,
    {
        if deps_satisfied(done, &remaining[j]) {
            return Some(j);
        }
        j += 1;
    }
    None
}

/// The data returned when executing all passes via the pass manager.
#[derive(Debug, PartialEq, Eq)]
pub struct PassManagerReturnData {
    /// The transformed source context.
    pub context: SourceContext,

    /// A mapping from pass key to the data returned by the pass.
    pub data: DynPassDataMap,
}

impl PassManagerReturnData {
    /// Creates a new pass manager return data element wrapping the
    /// transformed `context` and the result `data` from all the passes.
    pub fn new(context: SourceContext, data: DynPassDataMap) -> (r: PassManagerReturnData)
        ensures
            r.context == context,
            r.data == data,
    {
        PassManagerReturnData { context, data }
    }
}

/// No pass at a position in `(q, n)` of the order invalidates the output
/// of the pass at position `q`.
pub open spec fn survives_upto(s: Seq<Pass>, q: int, n: int) -> bool {
    forall|j: int, d: int|
        #![trigger s[j].invalidates_spec()[d]]
        q < j < n && 0 <= d < s[j].invalidates_spec().len() ==> s[j].invalidates_spec()[d] != s[
            q
        ].key_spec()
}

/// Some pass among the first `n` of the order provides the key `k`, and
/// its output survives every later pass before position `n`.
pub open spec fn provides_surviving_upto(s: Seq<Pass>, n: int, k: PassKey) -> bool {
    exists|q: int| 0 <= q < n && (#[trigger] s[q]).key_spec() == k && survives_upto(s, q, n)
}

/// What a pass's output is: the module mapping pass publishes a module map
/// of the context, relative to its own intrinsics table; an external pass
/// publishes the unit record.
pub open spec fn output_of(p: Pass, context: SourceContext, d: PassData) -> bool {
    match p {
        Pass::ModuleMap(b) => d is ModuleMap && crate::module_map::module_map_of(
            d->ModuleMap_0,
            context,
            b.intrinsics_table(),
        ),
        Pass::External(_) => d == PassData::Unit,
    }
}

/// The data `d` stored under `k` is the output of some pass among the
/// first `n` that provides `k` and whose output survives to position `n`.
pub open spec fn stored_upto(
    s: Seq<Pass>,
    n: int,
    context: SourceContext,
    k: PassKey,
    d: PassData,
) -> bool {
    exists|q: int|
        0 <= q < n && (#[trigger] s[q]).key_spec() == k && survives_upto(s, q, n) && output_of(
            s[q],
            context,
            d,
        )
}

/// Whether some module mapping pass of the order survives to the end, so
/// that the pipeline publishes a module map.
pub open spec fn module_map_published(s: Seq<Pass>) -> bool {
    exists|q: int|
        0 <= q < s.len() && (#[trigger] s[q]) is ModuleMap && survives_upto(s, q, s.len() as int)
}

/// Whether every pass of the order accepts the context's data layout, so
/// that the whole pipeline runs to completion.
pub open spec fn pipeline_accepts(s: Seq<Pass>, layout: Seq<char>) -> bool {
    forall|i: int| 0 <= i < s.len() ==> (#[trigger] s[i]).accepts(layout)
}

/// A manager for passes within the compiler.
///
/// Its primary task is to resolve a pass ordering that respects the
/// dependencies declared between passes, so that orderings need no costly
/// manual validation.
#[derive(Debug, PartialEq, Eq)]
pub struct PassManager {
    /// The passes, in the resolved execution order.
    pass_ordering: Vec<Pass>,
}

impl PassManager {
    /// The resolved execution order.
    pub closed spec fn ordering(self) -> Seq<Pass> {
        self.pass_ordering@
    }

    /// Generates a valid pass ordering from `passes` wherever possible.
    ///
    /// On success the result is a permutation of the input in which every
    /// pass appears after all the passes it depends on. On failure the
    /// input admits a stuck configuration: an unsatisfiable dependency set.
    pub fn generate_pass_ordering(passes: Vec<Pass>) -> (r: Result<Vec<Pass>, Error>)
        ensures
            match r {
                Ok(o) => {
                    &&& o@.to_multiset() == passes@.to_multiset()
                    &&& valid_order(o@)
                },
                Err(e) => {
                    &&& unschedulable(passes@)
                    &&& e is InvalidPassOrdering
                },
            },
    {
        broadcast use group_seq_properties;

        let ghost all = passes@;
        let mut remaining = passes;
        let mut result: Vec<Pass> = Vec::new();
        proof {
            assert(result@.to_multiset().add(remaining@.to_multiset()) =~= all.to_multiset());
        }
        while remaining.len() > 0
            invariant
                all == passes@,
                result@.to_multiset().add(remaining@.to_multiset()) == all.to_multiset(),
                valid_order(result@),
            decreases remaining@.len(),
        {
            match find_ready(&result, &remaining) {
                Some(p) => {
                    let ghost pre_rem = remaining@;
                    let ghost pre_res = result@;
                    let chosen = remaining.remove(p);
                    result.push(chosen);
                    proof {
                        pre_rem.to_multiset_ensures();
                        pre_res.to_multiset_ensures();
                        assert(pre_rem.remove(p as int).to_multiset() =~= pre_rem.to_multiset()
                            .remove(pre_rem[p as int]));
                        assert(pre_res.push(chosen).to_multiset() =~= pre_res.to_multiset().insert(
                            chosen,
                        ));
                        assert(result@.to_multiset().add(remaining@.to_multiset())
                            =~= all.to_multiset());
                        // The appended pass has its dependencies provided by
                        // the passes before it.
                        assert forall|i: int|
                            0 <= i < result@.len() implies deps_provided(
                            result@.subrange(0, i),
                            #[trigger] result@[i],
                        ) by {
                            if i < pre_res.len() {
                                assert(result@[i] == pre_res[i]);
                                assert(result@.subrange(0, i) =~= pre_res.subrange(0, i));
                                assert(deps_provided(pre_res.subrange(0, i), pre_res[i]));
                                assert forall|d: int|
                                    #![trigger result@[i].depends_spec()[d]]
                                    0 <= d < result@[i].depends_spec().len() implies provides(
                                    result@.subrange(0, i),
                                    result@[i].depends_spec()[d],
                                ) by {}
                            } else {
                                assert(result@[i] == chosen);
                                assert(result@.subrange(0, i) =~= pre_res);
                                assert(deps_provided(pre_res, chosen));
                            }
                        }
                    }
                },
                None => {
                    proof {
                        assert(stuck_split(all, result@, remaining@));
                        assert(unschedulable(all));
                    }
                    let msg = String::from_str(
                        "the passes have a dependency cycle or depend on a pass that is not present",
                    );
                    return Err(Error::InvalidPassOrdering(msg));
                },
            }
        }
        proof {
            assert(remaining@ =~= Seq::<Pass>::empty());
            remaining@.to_multiset_ensures();
            assert(remaining@.to_multiset().len() == 0);
            assert(result@.to_multiset() =~= all.to_multiset()) by {
                assert forall|x: Pass|
                    all.to_multiset().count(x) == result@.to_multiset().count(x) by {
                    assert(result@.to_multiset().add(remaining@.to_multiset()).count(x)
                        == result@.to_multiset().count(x) + remaining@.to_multiset().count(x));
                    assert(remaining@.to_multiset().count(x) == 0) by {
                        vstd::multiset::axiom_count_le_len::<Pass>(remaining@.to_multiset(), x);
                    }
                }
            }
        }
        Ok(result)
    }

    /// Creates a new pass manager wrapping the provided passes, resolving a
    /// valid execution order for them. An unsatisfiable dependency set, or
    /// a pass claiming an identity reserved for another kind, is a
    /// construction-time error, so a constructed manager always runs
    /// soundly identified passes in a valid order.
    pub fn new(passes: Vec<Pass>) -> (r: Result<PassManager, Error>)
        ensures
            match r {
                Ok(m) => {
                    &&& m.ordering().to_multiset() == passes@.to_multiset()
                    &&& valid_order(m.ordering())
                    &&& keys_reserved_ok(passes@)
                },
                Err(e) => {
                    ||| (e == Error::ReservedPassKey && !keys_reserved_ok(passes@))
                    ||| (e is InvalidPassOrdering && keys_reserved_ok(passes@) && unschedulable(
                        passes@,
                    ))
                },
            },
    {
        let n = passes.len();
        let mut i: usize = 0;
        while i < n
            invariant
                i <= n,
                n == passes@.len(),
                forall|q: int|
                    0 <= q < i ==> ((#[trigger] passes@[q]) is External ==> passes@[q].key_spec()
                        != MODULE_MAP_PASS_KEY),
            decreases n - i,
        {
            match &passes[i] {
                Pass::External(e) => {
                    if e.key == MODULE_MAP_PASS_KEY {
                        return Err(Error::ReservedPassKey);
                    }
                },
                Pass::ModuleMap(_) => {},
            }
            i += 1;
        }
        match PassManager::generate_pass_ordering(passes) {
            Ok(pass_ordering) => Ok(PassManager { pass_ordering }),
            Err(e) => Err(e),
        }
    }

    /// The default pipeline: the standard module mapping analysis pass,
    /// which has no dependencies.
    pub fn new_default() -> (r: PassManager)
        ensures
            r.ordering().len() == 1,
            r.ordering()[0] is ModuleMap,
            valid_order(r.ordering()),
    {
        let mut passes: Vec<Pass> = Vec::new();
        passes.push(Pass::ModuleMap(BuildModuleMap::new()));
        let r = PassManager { pass_ordering: passes };
        proof {
            assert forall|i: int|
                0 <= i < r.ordering().len() implies deps_provided(
                r.ordering().subrange(0, i),
                #[trigger] r.ordering()[i],
            ) by {
                assert(r.ordering()[i].depends_spec().len() == 0);
            }
        }
        r
    }

    /// Gets the current pass ordering, which always respects the declared
    /// dependencies of the passes.
    pub fn passes(&self) -> (r: &Vec<Pass>)
        ensures
            r@ == self.ordering(),
    {
        &self.pass_ordering
    }

    /// Executes the pass ordering on the provided `context`.
    ///
    /// The passes run in sequence, threading the context from one pass to
    /// the next; this library's passes leave it unchanged, so on success
    /// the returned context is the argument. After each pass runs, the
    /// entries of the passes it invalidates are evicted from the data map
    /// and its own output is inserted under its own identity; the final
    /// map holds an entry for exactly the identities with a surviving
    /// provider, and each entry is the output of such a provider. The
    /// first pass failure aborts the remaining schedule with that pass's
    /// own error.
    pub fn run(&self, context: SourceContext) -> (r: Result<PassManagerReturnData, Error>)
        ensures
            r is Ok <==> pipeline_accepts(self.ordering(), context.data_layout@),
            match r {
                Ok(rd) => {
                    &&& rd.context == context
                    &&& rd.data.wf()
                    &&& forall|k: PassKey| #[trigger]
                        rd.data.contains_key(k) <==> provides_surviving_upto(
                            self.ordering(),
                            self.ordering().len() as int,
                            k,
                        )
                    &&& forall|k: PassKey| #[trigger]
                        rd.data.contains_key(k) ==> stored_upto(
                            self.ordering(),
                            self.ordering().len() as int,
                            context,
                            k,
                            rd.data.data_of(k),
                        )
                },
                Err(e) => crate::module_map::layout_error(context.data_layout@, e),
            },
    {
        let ghost s = self.ordering();
        let ghost orig = context;
        let mut pass_data_map: DynPassDataMap = PassDataMap::new();
        let mut ctx = context;
        let n = self.pass_ordering.len();
        let mut i: usize = 0;
        proof {
            assert forall|k: PassKey| !provides_surviving_upto(s, 0, k) by {}
        }
        while i < n
            invariant
                i <= n,
                n == s.len(),
                s == self.ordering(),
                orig == context,
                ctx == orig,
                pass_data_map.wf(),
                forall|q: int| 0 <= q < i ==> (#[trigger] s[q]).accepts(orig.data_layout@),
                forall|k: PassKey| #[trigger]
                    pass_data_map.contains_key(k) <==> provides_surviving_upto(s, i as int, k),
                forall|k: PassKey| #[trigger]
                    pass_data_map.contains_key(k) ==> stored_upto(
                        s,
                        i as int,
                        orig,
                        k,
                        pass_data_map.data_of(k),
                    ),
            decreases n - i,
        {
            let rd = match self.pass_ordering[i].run(ctx, &pass_data_map) {
                Ok(rd) => rd,
                Err(e) => {
                    proof {
                        assert(!s[i as int].accepts(orig.data_layout@));
                        assert(!pipeline_accepts(s, orig.data_layout@));
                    }
                    return Err(e);
                },
            };
            proof {
                assert(output_of(s[i as int], orig, rd.data));
            }
            ctx = rd.source_context;
            // Evict the outputs this pass invalidates, then record its own.
            let invalidated = self.pass_ordering[i].invalidates();
            let m = invalidated.len();
            let mut k: usize = 0;
            while k < m
                invariant
                    k <= m,
                    m == invalidated@.len(),
                    invalidated@ == s[i as int].invalidates_spec(),
                    i < n,
                    n == s.len(),
                    s == self.ordering(),
                    pass_data_map.wf(),
                    forall|kk: PassKey| #[trigger]
                        pass_data_map.contains_key(kk) <==> (provides_surviving_upto(
                            s,
                            i as int,
                            kk,
                        ) && (forall|d: int|
                            0 <= d < k ==> (#[trigger] invalidated@[d]) != kk)),
                    forall|kk: PassKey| #[trigger]
                        pass_data_map.contains_key(kk) ==> stored_upto(
                            s,
                            i as int,
                            orig,
                            kk,
                            pass_data_map.data_of(kk),
                        ),
                decreases m - k,
            {
                let ghost pre_map = pass_data_map;
                let cleared = invalidated[k];
                pass_data_map.clear_key(cleared);
                proof {
                    assert forall|kk: PassKey| #[trigger]
                        pass_data_map.contains_key(kk) <==> (provides_surviving_upto(
                        s,
                        i as int,
                        kk,
                    ) && (forall|d: int|
                        0 <= d < k + 1 ==> (#[trigger] invalidated@[d]) != kk)) by {
                        if kk == cleared {
                            assert(!pass_data_map.contains_key(kk));
                            assert(invalidated@[k as int] == kk);
                        } else {
                            assert(pass_data_map.contains_key(kk) == pre_map.contains_key(kk));
                        }
                    }
                    assert forall|kk: PassKey| #[trigger]
                        pass_data_map.contains_key(kk) implies stored_upto(
                        s,
                        i as int,
                        orig,
                        kk,
                        pass_data_map.data_of(kk),
                    ) by {
                        assert(kk != cleared);
                        assert(pass_data_map.data_of(kk) == pre_map.data_of(kk));
                    }
                }
                k += 1;
            }
            let ghost pre_put = pass_data_map;
            let own_key = self.pass_ordering[i].key();
            pass_data_map.put_key(own_key, rd.data);
            proof {
                assert forall|kk: PassKey| #[trigger]
                    pass_data_map.contains_key(kk) <==> provides_surviving_upto(
                    s,
                    i + 1,
                    kk,
                ) by {
                    if kk == s[i as int].key_spec() {
                        assert(pass_data_map.contains_key(kk));
                        assert(survives_upto(s, i as int, i + 1));
                        assert(0 <= (i as int) && (i as int) < i + 1 && s[i as int].key_spec() == kk
                            && survives_upto(s, i as int, i + 1));
                        assert(provides_surviving_upto(s, i + 1, kk));
                    } else {
                        assert(pass_data_map.contains_key(kk) == pre_put.contains_key(kk));
                        if pre_put.contains_key(kk) {
                            let q = choose|q: int|
                                0 <= q < i as int && (#[trigger] s[q]).key_spec() == kk
                                    && survives_upto(s, q, i as int);
                            assert(survives_upto(s, q, i + 1)) by {
                                assert forall|j: int, d: int|
                                    #![trigger s[j].invalidates_spec()[d]]
                                    q < j < i + 1 && 0 <= d
                                        < s[j].invalidates_spec().len() implies s[
                                    j].invalidates_spec()[d] != s[q].key_spec() by {
                                    if j == i as int {
                                        assert(invalidated@[d] != kk);
                                    }
                                }
                            }
                            assert(provides_surviving_upto(s, i + 1, kk));
                        }
                        if provides_surviving_upto(s, i + 1, kk) {
                            let q = choose|q: int|
                                0 <= q < i + 1 && (#[trigger] s[q]).key_spec() == kk
                                    && survives_upto(s, q, i + 1);
                            assert(q != i as int);
                            assert(survives_upto(s, q, i as int)) by {
                                assert forall|j: int, d: int|
                                    #![trigger s[j].invalidates_spec()[d]]
                                    q < j < i as int && 0 <= d
                                        < s[j].invalidates_spec().len() implies s[
                                    j].invalidates_spec()[d] != s[q].key_spec() by {}
                            }
                            assert(provides_surviving_upto(s, i as int, kk));
                            assert forall|d: int|
                                0 <= d < m implies (#[trigger] invalidated@[d]) != kk by {
                                assert(s[i as int].invalidates_spec()[d] != s[q].key_spec());
                            }
                            assert(pre_put.contains_key(kk));
                        }
                    }
                }
                assert forall|kk: PassKey| #[trigger]
                    pass_data_map.contains_key(kk) implies stored_upto(
                    s,
                    i + 1,
                    orig,
                    kk,
                    pass_data_map.data_of(kk),
                ) by {
                    if kk == s[i as int].key_spec() {
                        assert(pass_data_map.data_of(kk) == rd.data);
                        assert(survives_upto(s, i as int, i + 1));
                        assert(0 <= (i as int) && (i as int) < i + 1 && s[i as int].key_spec() == kk
                            && survives_upto(s, i as int, i + 1) && output_of(
                            s[i as int],
                            orig,
                            rd.data,
                        ));
                    } else {
                        assert(pass_data_map.data_of(kk) == pre_put.data_of(kk));
                        assert(pre_put.contains_key(kk));
                        let q = choose|q: int|
                            0 <= q < i as int && (#[trigger] s[q]).key_spec() == kk
                                && survives_upto(s, q, i as int) && output_of(
                                s[q],
                                orig,
                                pre_put.data_of(kk),
                            );
                        assert(survives_upto(s, q, i + 1)) by {
                            assert forall|j: int, d: int|
                                #![trigger s[j].invalidates_spec()[d]]
                                q < j < i + 1 && 0 <= d < s[j].invalidates_spec().len() implies s[
                                j].invalidates_spec()[d] != s[q].key_spec() by {
                                if j == i as int {
                                    assert(invalidated@[d] != kk);
                                }
                            }
                        }
                        assert(0 <= q < i + 1 && s[q].key_spec() == kk && survives_upto(
                            s,
                            q,
                            i + 1,
                        ) && output_of(s[q], orig, pass_data_map.data_of(kk)));
                    }
                }
            }
            i += 1;
        }
        Ok(PassManagerReturnData::new(ctx, pass_data_map))
    }
}

impl<T> PassDataMap<T> {
    /// Gets a reference to the last-written data for the pass `P`, if any
    /// exists.
    pub fn get<P: ConcretePass>(&self) -> (r: Option<&T>)
        ensures
            match r {
                Some(d) => self.contains_key(P::spec_key()) && *d == self.data_of(P::spec_key()),
                None => !self.contains_key(P::spec_key()),
            },
    {
        self.get_key(P::key())
    }

    /// Writes `data` into the container for the pass `P`, overwriting any
    /// existing data for that pass.
    pub fn put<P: ConcretePass>(&mut self, data: T)
        requires
            old(self).wf(),
        ensures
            final(self).wf(),
            put_post(*old(self), *final(self), P::spec_key(), data),
    {
        self.put_key(P::key(), data)
    }

    /// Clears the data for the pass `P`, if any exists.
    pub fn clear<P: ConcretePass>(&mut self)
        requires
            old(self).wf(),
        ensures
            final(self).wf(),
            clear_post(*old(self), *final(self), P::spec_key()),
    {
        self.clear_key(P::key())
    }
}

/// The data-map isolation law: writing data under one pass identity leaves
/// every other identity exactly as it was; in particular, an identity that
/// held no data still holds none, whatever the shapes of the outputs.
pub proof fn lemma_data_map_isolation<T>(
    pre: PassDataMap<T>,
    post: PassDataMap<T>,
    written: PassKey,
    other: PassKey,
    data: T,
)
    requires
        put_post(pre, post, written, data),
        other != written,
        !pre.contains_key(other),
    ensures
        !post.contains_key(other),
{
}

} // verus!
