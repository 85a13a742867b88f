//! Tables of interned objects.
//!
//! An intern table maps small integer identifiers to values. Two identifiers
//! are reserved: identifier zero always holds a value poisoned with
//! [`PoisonType::NullInternedValue`], and [`RESERVED_UNDEFINED_ID`] always
//! holds a value poisoned with [`PoisonType::Undefined`]. All other
//! identifiers are allocated monotonically by an internal cursor that skips
//! any identifier already occupied, so an identifier is never reused within a
//! table's lifetime.

use vstd::pervasive::unreached;
use vstd::prelude::*;

use crate::poison::{Poisonable, PoisonType};

verus! {

/// The identifier of the reserved null entry present in every table.
pub const NULL_INTERNED_ID: usize = 0;

/// The identifier of the reserved entry that always holds a value poisoned as
/// undefined.
pub const RESERVED_UNDEFINED_ID: usize = 0xdecea5ed;

/// The index of the first entry of `s` whose identifier is `id`, or `-1` when
/// no entry has that identifier.
pub open spec fn key_index<V>(s: Seq<(usize, V)>, id: usize) -> int
    decreases s.len(),
{
    if s.len() == 0 {
        -1
    } else if s[0].0 == id {
        0
    } else {
        let r = key_index(s.subrange(1, s.len() as int), id);
        if r < 0 {
            -1
        } else {
            r + 1
        }
    }
}

/// Whether some entry of `s` carries the identifier `id`.
pub open spec fn seq_contains_key<V>(s: Seq<(usize, V)>, id: usize) -> bool {
    key_index(s, id) >= 0
}

pub proof fn lemma_key_index_props<V>(s: Seq<(usize, V)>, id: usize)
    ensures
        key_index(s, id) >= 0 ==> 0 <= key_index(s, id) < s.len() && s[key_index(s, id)].0 == id,
        key_index(s, id) < 0 ==> key_index(s, id) == -1,
        key_index(s, id) < 0 ==> forall|i: int| 0 <= i < s.len() ==> (#[trigger] s[i]).0 != id,
        forall|i: int| 0 <= i < key_index(s, id) ==> (#[trigger] s[i]).0 != id,
    decreases s.len(),
{
    if s.len() > 0 && s[0].0 != id {
        let t = s.subrange(1, s.len() as int);
        lemma_key_index_props(t, id);
        assert forall|i: int| 1 <= i < s.len() implies s[i] == t[i - 1] by {}
    }
}

pub proof fn lemma_key_index_push<V>(s: Seq<(usize, V)>, p: (usize, V), id: usize)
    ensures
        key_index(s.push(p), id) == if key_index(s, id) >= 0 {
            key_index(s, id)
        } else if p.0 == id {
            s.len() as int
        } else {
            -1
        },
    decreases s.len(),
{
    let sp = s.push(p);
    if s.len() == 0 {
        assert(sp[0] == p);
        assert(sp.subrange(1, sp.len() as int) =~= Seq::<(usize, V)>::empty());
        assert(key_index(sp.subrange(1, sp.len() as int), id) == -1);
    } else {
        assert(sp[0] == s[0]);
        let t = s.subrange(1, s.len() as int);
        lemma_key_index_push(t, p, id);
        assert(sp.subrange(1, sp.len() as int) =~= t.push(p));
    }
}

pub proof fn lemma_key_index_update<V>(s: Seq<(usize, V)>, i: int, p: (usize, V), id: usize)
    requires
        0 <= i < s.len(),
        s[i].0 == p.0,
    ensures
        key_index(s.update(i, p), id) == key_index(s, id),
    decreases s.len(),
{
    let su = s.update(i, p);
    if i == 0 {
        if s[0].0 != id {
            assert(su.subrange(1, su.len() as int) =~= s.subrange(1, s.len() as int));
        }
    } else {
        assert(su[0] == s[0]);
        if s[0].0 != id {
            let t = s.subrange(1, s.len() as int);
            lemma_key_index_update(t, i - 1, p, id);
            assert(su.subrange(1, su.len() as int) =~= t.update(i - 1, p));
        }
    }
}

/// The structural conditions an intern table maintains: identifiers are
/// unique, the two reserved entries are present, and the cursor points to a
/// free identifier past every allocated one (the reserved undefined
/// identifier excepted, which the cursor may still have to skip).
pub open spec fn parts_valid<V>(s: Seq<(usize, V)>, next_id: usize) -> bool {
    &&& forall|i: int, j: int|
        0 <= i < j < s.len() ==> (#[trigger] s[i]).0 != (#[trigger] s[j]).0
    &&& seq_contains_key(s, NULL_INTERNED_ID)
    &&& seq_contains_key(s, RESERVED_UNDEFINED_ID)
    &&& next_id >= 1
    &&& !seq_contains_key(s, next_id)
    &&& forall|i: int|
        0 <= i < s.len() ==> ((#[trigger] s[i]).0 < next_id || s[i].0 == RESERVED_UNDEFINED_ID)
}

/// Finds the position of the entry of `entries` carrying `id`, if any.
pub(crate) fn find_key<V>(entries: &Vec<(usize, V)>, id: usize) -> (r: Option<usize>)
    ensures
        match r {
            Some(i) => key_index(entries@, id) == i as int,
            None => key_index(entries@, id) == -1,
        },
{
    let ghost s = entries@;
    let n = entries.len();
    let mut i: usize = 0;
    while i < n
        invariant
            n == s.len(),
            i <= n,
            s == entries@,
            forall|j: int| 0 <= j < i ==> (#[trigger] s[j]).0 != id,
        decreases n - i,
    {
        if entries[i].0 == id {
            proof {
                lemma_key_index_props(s, id);
            }
            return Some(i);
        }
        i += 1;
    }
    proof {
        lemma_key_index_props(s, id);
    }
    None
}

/// A table of interned objects, mapping integer identifiers to values.
#[derive(Debug, PartialEq, Eq)]
pub struct InternTable<V> {
    /// The allocated entries, in allocation order.
    entries: Vec<(usize, V)>,

    /// The next identifier the allocator will try.
    next_id: usize,
}

impl<V> InternTable<V> {
    /// The entries of the table, in allocation order.
    pub closed spec fn raw(self) -> Seq<(usize, V)> {
        self.entries@
    }

    /// The next identifier the internal cursor will try.
    pub closed spec fn cursor(self) -> usize {
        self.next_id
    }

    /// The structural conditions every table constructed by this module
    /// satisfies; methods preserve it.
    pub open spec fn wf(self) -> bool {
        parts_valid(self.raw(), self.cursor())
    }

    /// Whether `id` has been allocated in this table.
    pub open spec fn contains_id(self, id: usize) -> bool {
        seq_contains_key(self.raw(), id)
    }

    /// The value stored under `id`; meaningful only when `contains_id(id)`.
    pub open spec fn value_of(self, id: usize) -> V {
        self.raw()[key_index(self.raw(), id)].1
    }
}

/// The relation between a table before and after `insert` returned `id` for
/// the value `v`: the identifier is fresh and not a reserved sentinel, the
/// value is stored under it, and every other identifier is untouched.
pub open spec fn insert_post<V>(
    pre: InternTable<V>,
    post: InternTable<V>,
    id: usize,
    v: V,
) -> bool {
    &&& !pre.contains_id(id)
    &&& id != NULL_INTERNED_ID
    &&& id != RESERVED_UNDEFINED_ID
    &&& post.contains_id(id)
    &&& post.value_of(id) == v
    &&& forall|k: usize| k != id ==> (#[trigger] post.contains_id(k)) == pre.contains_id(k)
    &&& forall|k: usize|
        k != id && pre.contains_id(k) ==> (#[trigger] post.value_of(k)) == pre.value_of(k)
    &&& post.raw() == pre.raw().push((id, v))
}

/// The relation between a table before and after `swap(id, v)` returned
/// `prev`: the previous value comes back, the new value is stored under `id`,
/// and every other identifier is untouched.
pub open spec fn swap_post<V>(
    pre: InternTable<V>,
    post: InternTable<V>,
    id: usize,
    v: V,
    prev: V,
) -> bool {
    &&& prev == pre.value_of(id)
    &&& post.contains_id(id)
    &&& post.value_of(id) == v
    &&& forall|k: usize| (#[trigger] post.contains_id(k)) == pre.contains_id(k)
    &&& forall|k: usize|
        k != id && pre.contains_id(k) ==> (#[trigger] post.value_of(k)) == pre.value_of(k)
}

/// A freshly constructed table: the two reserved entries, suitably poisoned,
/// and nothing else.
pub open spec fn fresh_table<V: Poisonable>(t: InternTable<V>) -> bool {
    &&& forall|id: usize|
        #[trigger] t.contains_id(id) <==> (id == NULL_INTERNED_ID || id == RESERVED_UNDEFINED_ID)
    &&& t.value_of(NULL_INTERNED_ID).poison_of() == PoisonType::NullInternedValue
    &&& t.value_of(RESERVED_UNDEFINED_ID).poison_of() == PoisonType::Undefined
}

impl<V: Poisonable> InternTable<V> {
    /// Creates a new intern table holding only the two reserved entries.
    pub fn new() -> (r: InternTable<V>)
        ensures
            fresh_table(r),
            r.wf(),
            r.cursor() == 1,
    {
        let null_value = V::get_poison_value(PoisonType::NullInternedValue);
        let undef_value = V::get_poison_value(PoisonType::Undefined);
        let mut entries: Vec<(usize, V)> = Vec::new();
        entries.push((NULL_INTERNED_ID, null_value));
        entries.push((RESERVED_UNDEFINED_ID, undef_value));
        let r = InternTable { entries, next_id: 1 };
        proof {
            let s = r.entries@;
            assert(s.len() == 2);
            assert(s[0].0 == NULL_INTERNED_ID);
            assert(s[1].0 == RESERVED_UNDEFINED_ID);
            assert(key_index(s, NULL_INTERNED_ID) == 0);
            let t = s.subrange(1, 2);
            assert(t[0].0 == RESERVED_UNDEFINED_ID);
            assert(t.subrange(1, 1) =~= Seq::<(usize, V)>::empty());
            assert(key_index(t, RESERVED_UNDEFINED_ID) == 0);
            assert(key_index(s, RESERVED_UNDEFINED_ID) == 1);
            assert(!seq_contains_key(s, 1usize)) by {
                lemma_key_index_props(s, 1usize);
            }
            assert forall|id: usize| #![trigger r.contains_id(id)]
                r.contains_id(id) <==> (id == NULL_INTERNED_ID || id
                == RESERVED_UNDEFINED_ID) by {
                lemma_key_index_props(s, id);
            }
        }
        r
    }

    /// Finds the position of `id` among the entries, if it is present.
    fn index_of_key(&self, id: usize) -> (r: Option<usize>)
        ensures
            match r {
                Some(i) => key_index(self.raw(), id) == i as int,
                None => key_index(self.raw(), id) == -1,
            },
    {
        find_key(&self.entries, id)
    }

    /// Whether `id` has been allocated in this table.
    pub fn contains(&self, id: usize) -> (r: bool)
        ensures
            r == self.contains_id(id),
    {
        self.index_of_key(id).is_some()
    }

    /// Reserves a new slot by finding the next available integer identifier.
    ///
    /// The returned identifier is not yet present in the table; the caller
    /// stores an entry under it. The cursor is advanced past the allocated
    /// identifier, skipping any identifier already occupied.
    fn allocate_id(&mut self) -> (id: usize)
        requires
            old(self).wf(),
            old(self).cursor() < usize::MAX,
        ensures
            id == old(self).cursor(),
            !old(self).contains_id(id),
            id != NULL_INTERNED_ID,
            id != RESERVED_UNDEFINED_ID,
            final(self).raw() == old(self).raw(),
            !final(self).contains_id(final(self).cursor()),
            id < final(self).cursor() <= id + 2,
            forall|i: int|
                0 <= i < final(self).raw().len() ==> ((#[trigger] final(self).raw()[i]).0
                    < final(self).cursor() || final(self).raw()[i].0 == RESERVED_UNDEFINED_ID),
    {
        proof {
            lemma_key_index_props(self.entries@, self.next_id);
        }
        let allocated_id = self.next_id;
        let mut next_id = allocated_id + 1;
        while self.contains(next_id)
            invariant
                self == old(self),
                old(self).wf(),
                allocated_id == old(self).cursor(),
                allocated_id < next_id <= allocated_id + 2,
                next_id == allocated_id + 1 || next_id == RESERVED_UNDEFINED_ID + 1,
            decreases RESERVED_UNDEFINED_ID + 2 - next_id,
        {
            proof {
                lemma_key_index_props(self.entries@, next_id);
                // Only the reserved undefined identifier can lie at or past
                // the cursor, so at most one skip ever happens.
                assert(next_id == RESERVED_UNDEFINED_ID);
            }
            next_id += 1;
        }
        proof {
            lemma_key_index_props(self.entries@, next_id);
            assert(allocated_id != RESERVED_UNDEFINED_ID) by {
                lemma_key_index_props(self.entries@, RESERVED_UNDEFINED_ID);
            }
        }
        self.next_id = next_id;
        allocated_id
    }

    /// Inserts a new value into the intern table, returning its identifier.
    ///
    /// The identifier is fresh: it was never allocated before, and is not one
    /// of the reserved sentinels. The cursor bound is a machine limit: the
    /// cursor only ever grows, and must remain representable.
    pub fn insert(&mut self, v: V) -> (id: usize)
        requires
            old(self).wf(),
            old(self).cursor() < usize::MAX,
        ensures
            insert_post(*old(self), *final(self), id, v),
            final(self).wf(),
            id == old(self).cursor(),
            old(self).cursor() < final(self).cursor() <= old(self).cursor() + 2,
    {
        let ghost pre = *self;
        let id = self.allocate_id();
        let ghost mid = *self;
        self.entries.push((id, v));
        proof {
            let s = mid.entries@;
            lemma_key_index_props(s, id);
            assert forall|k: usize| #![trigger key_index(self.entries@, k)]
                key_index(self.entries@, k) == (if key_index(s, k) >= 0 {
                    key_index(s, k)
                } else if k == id {
                    s.len() as int
                } else {
                    -1
                }) by {
                lemma_key_index_push(s, (id, v), k);
            }
            assert(seq_contains_key(self.entries@, NULL_INTERNED_ID));
            assert(seq_contains_key(self.entries@, RESERVED_UNDEFINED_ID));
            assert(!seq_contains_key(self.entries@, self.next_id));
            assert forall|i: int| 0 <= i < self.entries@.len() implies ((
            #[trigger] self.entries@[i]).0 < self.next_id || self.entries@[i].0
                == RESERVED_UNDEFINED_ID) by {
                if i < s.len() {
                    assert(self.entries@[i] == s[i]);
                }
            }
            assert(self.wf());
            assert forall|k: usize| k != id && pre.contains_id(k) implies (
            #[trigger] self.value_of(k)) == pre.value_of(k) by {
                lemma_key_index_props(s, k);
            }
        }
        id
    }

    /// Retrieves the value stored under `id`.
    ///
    /// Callers must not construct identifiers out of thin air: `id` must have
    /// been allocated in this table.
    pub fn get(&self, id: usize) -> (r: &V)
        requires
            self.contains_id(id),
        ensures
            *r == self.value_of(id),
    {
        let idx_opt = self.index_of_key(id);
        proof {
            lemma_key_index_props(self.raw(), id);
        }
        match idx_opt {
            Some(i) => &self.entries[i].1,
            // Unreachable: the requires clause guarantees the key is present.
            None => unreached(),
        }
    }

    /// Replaces the value at an already-allocated `id`, returning the
    /// previous value.
    ///
    /// This is the mechanism for forward references: a placeholder entry,
    /// poisoned as undefined, is swapped for its final definition once that
    /// definition is available.
    pub fn swap(&mut self, id: usize, v: V) -> (prev: V)
        requires
            old(self).wf(),
            old(self).contains_id(id),
        ensures
            swap_post(*old(self), *final(self), id, v, prev),
            final(self).wf(),
            final(self).cursor() == old(self).cursor(),
    {
        let ghost pre = *self;
        let idx_opt = self.index_of_key(id);
        proof {
            lemma_key_index_props(self.raw(), id);
        }
        match idx_opt {
            Some(i) => {
                let pair = self.entries.remove(i);
                self.entries.insert(i, (id, v));
                proof {
                    let s = pre.entries@;
                    assert(self.entries@ =~= s.update(i as int, (id, v)));
                    assert forall|k: usize| #![trigger key_index(self.entries@, k)]
                        key_index(self.entries@, k) == key_index(s, k) by {
                        lemma_key_index_update(s, i as int, (id, v), k);
                    }
                    assert forall|a: int| 0 <= a < self.entries@.len() implies (
                    #[trigger] self.entries@[a]).0 == s[a].0 by {}
                    assert(self.wf());
                    assert forall|k: usize| k != id && pre.contains_id(k) implies (
                    #[trigger] self.value_of(k)) == pre.value_of(k) by {
                        lemma_key_index_props(s, k);
                    }
                }
                pair.1
            },
            // Unreachable: the requires clause guarantees the key is present.
            None => unreached(),
        }
    }

    /// The entries of the table in allocation order, for serialization.
    pub fn entries(&self) -> (r: &Vec<(usize, V)>)
        ensures
            r@ == self.raw(),
    {
        &self.entries
    }

    /// The current value of the allocation cursor, for serialization.
    pub fn cursor_value(&self) -> (r: usize)
        ensures
            r == self.cursor(),
    {
        self.next_id
    }

    /// Reassembles a table from entries and a cursor, as read back from a
    /// serialized form. Returns `None` unless the parts satisfy the table's
    /// structural conditions.
    pub fn from_parts(entries: Vec<(usize, V)>, next_id: usize) -> (r: Option<InternTable<V>>)
        ensures
            match r {
                Some(t) => {
                    &&& parts_valid(entries@, next_id)
                    &&& t.wf()
                    &&& t.raw() == entries@
                    &&& t.cursor() == next_id
                },
                None => !parts_valid(entries@, next_id),
            },
    {
        let n = entries.len();
        // Uniqueness of identifiers.
        let mut i: usize = 0;
        while i < n
            invariant
                i <= n,
                n == entries@.len(),
                forall|a: int, b: int|
                    0 <= a < b < entries@.len() && a < i ==> (#[trigger] entries@[a]).0 != (
                    #[trigger] entries@[b]).0,
            decreases n - i,
        {
            let mut j: usize = i + 1;
            while j < n
                invariant
                    i < j <= n,
                    n == entries@.len(),
                    forall|b: int| i < b < j ==> (#[trigger] entries@[b]).0 != entries@[i as int].0,
                decreases n - j,
            {
                if entries[j].0 == entries[i].0 {
                    return None;
                }
                j += 1;
            }
            i += 1;
        }
        // Cursor lower bound.
        if next_id < 1 {
            return None;
        }
        // Presence of the reserved entries and freeness of the cursor.
        let has_null = find_key(&entries, NULL_INTERNED_ID).is_some();
        let has_undef = find_key(&entries, RESERVED_UNDEFINED_ID).is_some();
        let cursor_free = find_key(&entries, next_id).is_none();
        if !has_null || !has_undef || !cursor_free {
            return None;
        }
        // The bound every identifier obeys relative to the cursor.
        let mut k: usize = 0;
        while k < n
            invariant
                k <= n,
                n == entries@.len(),
                forall|a: int|
                    0 <= a < k ==> ((#[trigger] entries@[a]).0 < next_id || entries@[a].0
                        == RESERVED_UNDEFINED_ID),
            decreases n - k,
        {
            let key = entries[k].0;
            if !(key < next_id || key == RESERVED_UNDEFINED_ID) {
                return None;
            }
            k += 1;
        }
        Some(InternTable { entries, next_id })
    }
}

/// The intern round-trip law: a value inserted under a fresh identifier is
/// exactly what a subsequent lookup of that identifier returns.
pub proof fn lemma_intern_round_trip<V>(
    pre: InternTable<V>,
    post: InternTable<V>,
    id: usize,
    v: V,
)
    requires
        insert_post(pre, post, id, v),
    ensures
        post.contains_id(id),
        post.value_of(id) == v,
{
}

/// The sentinel law: a freshly constructed table holds, at identifier zero, a
/// value poisoned as the null interned value, and at the reserved undefined
/// identifier, a value poisoned as undefined — and nothing else.
pub proof fn lemma_sentinel_invariants<V: Poisonable>(t: InternTable<V>)
    requires
        fresh_table(t),
    ensures
        t.contains_id(NULL_INTERNED_ID),
        t.value_of(NULL_INTERNED_ID).poison_of() == PoisonType::NullInternedValue,
        t.contains_id(RESERVED_UNDEFINED_ID),
        t.value_of(RESERVED_UNDEFINED_ID).poison_of() == PoisonType::Undefined,
        forall|id: usize|
            id != NULL_INTERNED_ID && id != RESERVED_UNDEFINED_ID ==> !(
            #[trigger] t.contains_id(id)),
{
    assert(t.contains_id(NULL_INTERNED_ID));
    assert(t.contains_id(RESERVED_UNDEFINED_ID));
}

/// One step of the no-reuse argument: an insertion never disturbs what the
/// table already contains.
proof fn lemma_insert_preserves_contains<V>(
    pre: InternTable<V>,
    post: InternTable<V>,
    id: usize,
    v: V,
    k: usize,
)
    requires
        insert_post(pre, post, id, v),
        pre.contains_id(k),
    ensures
        post.contains_id(k),
{
    if k != id {
        assert(post.contains_id(k) == pre.contains_id(k));
    }
}

/// After insertion `i` of a chain, its identifier stays contained in every
/// state up to and including state `j`.
proof fn lemma_contained_from_step<V>(
    states: Seq<InternTable<V>>,
    ids: Seq<usize>,
    vals: Seq<V>,
    i: int,
    j: int,
)
    requires
        states.len() == ids.len() + 1,
        vals.len() == ids.len(),
        forall|k: int|
            0 <= k < ids.len() ==> insert_post(
                #[trigger] states[k],
                states[k + 1],
                ids[k],
                vals[k],
            ),
        0 <= i < ids.len(),
        i < j <= ids.len(),
    ensures
        states[j].contains_id(ids[i]),
    decreases j - i,
{
    if j == i + 1 {
        assert(insert_post(states[i], states[i + 1], ids[i], vals[i]));
    } else {
        lemma_contained_from_step(states, ids, vals, i, j - 1);
        assert(insert_post(states[j - 1], states[j], ids[j - 1], vals[j - 1]));
        lemma_insert_preserves_contains(states[j - 1], states[j], ids[j - 1], vals[j - 1], ids[i]);
    }
}

/// The no-reuse law: a run of insertions into a table yields pairwise
/// distinct identifiers, none of which is a reserved sentinel.
///
/// The run is given as the chain of table states `states` it passes through,
/// with `ids[i]` and `vals[i]` the identifier and value of the insertion that
/// took state `i` to state `i + 1`.
pub proof fn lemma_no_identifier_reuse<V>(
    states: Seq<InternTable<V>>,
    ids: Seq<usize>,
    vals: Seq<V>,
)
    requires
        states.len() == ids.len() + 1,
        vals.len() == ids.len(),
        forall|i: int|
            0 <= i < ids.len() ==> insert_post(
                #[trigger] states[i],
                states[i + 1],
                ids[i],
                vals[i],
            ),
    ensures
        forall|i: int, j: int| 0 <= i < j < ids.len() ==> ids[i] != ids[j],
        forall|i: int|
            0 <= i < ids.len() ==> (#[trigger] ids[i]) != NULL_INTERNED_ID && ids[i]
                != RESERVED_UNDEFINED_ID,
{
    let n = ids.len() as int;
    assert forall|i: int, j: int| 0 <= i < j < n implies ids[i] != ids[j] by {
        lemma_contained_from_step(states, ids, vals, i, j);
        assert(states[j].contains_id(ids[i]));
        assert(insert_post(states[j], states[j + 1], ids[j], vals[j]));
        assert(!states[j].contains_id(ids[j]));
    }
    assert forall|i: int|
        0 <= i < n implies (#[trigger] ids[i]) != NULL_INTERNED_ID && ids[i]
        != RESERVED_UNDEFINED_ID by {
        assert(insert_post(states[i], states[i + 1], ids[i], vals[i]));
    }
}

/// The swap law: swapping a new value into the slot an insertion allocated
/// returns the inserted value, and a subsequent lookup sees the new value.
pub proof fn lemma_swap_preserves_identity<V>(
    s0: InternTable<V>,
    s1: InternTable<V>,
    s2: InternTable<V>,
    id: usize,
    v1: V,
    v2: V,
    prev: V,
)
    requires
        insert_post(s0, s1, id, v1),
        swap_post(s1, s2, id, v2, prev),
    ensures
        prev == v1,
        s2.contains_id(id),
        s2.value_of(id) == v2,
{
}

} // verus!
