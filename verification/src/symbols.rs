//! Bidirectional symbol tables: maps between string symbols and interned
//! identifiers, searchable by either side.
//!
//! Inserting a pair where either side already occurs **replaces** the
//! existing pair atomically: the old counterpart on the other side becomes
//! unreachable by symbol, though any interned entity it referred to is
//! untouched. This replacement policy is deliberate and is stated by
//! [`symbol_insert_post`].

use vstd::prelude::*;

verus! {

/// The index of the first pair of `s` whose symbol is `n`, or `-1`.
pub open spec fn left_index(s: Seq<(Seq<char>, usize)>, n: Seq<char>) -> int
    decreases s.len(),
{
    if s.len() == 0 {
        -1
    } else if s[0].0 == n {
        0
    } else {
        let r = left_index(s.subrange(1, s.len() as int), n);
        if r < 0 {
            -1
        } else {
            r + 1
        }
    }
}

/// The index of the first pair of `s` whose identifier is `id`, or `-1`.
pub open spec fn right_index(s: Seq<(Seq<char>, usize)>, id: usize) -> int
    decreases s.len(),
{
    if s.len() == 0 {
        -1
    } else if s[0].1 == id {
        0
    } else {
        let r = right_index(s.subrange(1, s.len() as int), id);
        if r < 0 {
            -1
        } else {
            r + 1
        }
    }
}

/// Whether some pair of `s` carries the symbol `n`.
pub open spec fn has_left(s: Seq<(Seq<char>, usize)>, n: Seq<char>) -> bool {
    left_index(s, n) >= 0
}

/// The identifier paired with the symbol `n`.
pub open spec fn value_for(s: Seq<(Seq<char>, usize)>, n: Seq<char>) -> usize {
    s[left_index(s, n)].1
}

/// Whether some pair of `s` carries the identifier `id`.
pub open spec fn has_right(s: Seq<(Seq<char>, usize)>, id: usize) -> bool {
    right_index(s, id) >= 0
}

/// The symbol paired with the identifier `id`.
pub open spec fn symbol_for(s: Seq<(Seq<char>, usize)>, id: usize) -> Seq<char> {
    s[right_index(s, id)].0
}

pub proof fn lemma_left_index_props(s: Seq<(Seq<char>, usize)>, n: Seq<char>)
    ensures
        left_index(s, n) >= 0 ==> 0 <= left_index(s, n) < s.len() && s[left_index(s, n)].0 == n,
        left_index(s, n) < 0 ==> left_index(s, n) == -1,
        left_index(s, n) < 0 ==> forall|i: int| 0 <= i < s.len() ==> (#[trigger] s[i]).0 != n,
        forall|i: int| 0 <= i < left_index(s, n) ==> (#[trigger] s[i]).0 != n,
    decreases s.len(),
{
    if s.len() > 0 && s[0].0 != n {
        let t = s.subrange(1, s.len() as int);
        lemma_left_index_props(t, n);
        assert forall|i: int| 1 <= i < s.len() implies s[i] == t[i - 1] by {}
    }
}

pub proof fn lemma_right_index_props(s: Seq<(Seq<char>, usize)>, id: usize)
    ensures
        right_index(s, id) >= 0 ==> 0 <= right_index(s, id) < s.len() && s[right_index(s, id)].1
            == id,
        right_index(s, id) < 0 ==> right_index(s, id) == -1,
        right_index(s, id) < 0 ==> forall|i: int| 0 <= i < s.len() ==> (#[trigger] s[i]).1 != id,
        forall|i: int| 0 <= i < right_index(s, id) ==> (#[trigger] s[i]).1 != id,
    decreases s.len(),
{
    if s.len() > 0 && s[0].1 != id {
        let t = s.subrange(1, s.len() as int);
        lemma_right_index_props(t, id);
        assert forall|i: int| 1 <= i < s.len() implies s[i] == t[i - 1] by {}
    }
}

pub proof fn lemma_left_index_push(s: Seq<(Seq<char>, usize)>, p: (Seq<char>, usize), n: Seq<char>)
    ensures
        left_index(s.push(p), n) == if left_index(s, n) >= 0 {
            left_index(s, n)
        } else if p.0 == n {
            s.len() as int
        } else {
            -1
        },
    decreases s.len(),
{
    let sp = s.push(p);
    if s.len() == 0 {
        assert(sp[0] == p);
        assert(sp.subrange(1, sp.len() as int) =~= Seq::<(Seq<char>, usize)>::empty());
        assert(left_index(sp.subrange(1, sp.len() as int), n) == -1);
    } else {
        assert(sp[0] == s[0]);
        let t = s.subrange(1, s.len() as int);
        lemma_left_index_push(t, p, n);
        assert(sp.subrange(1, sp.len() as int) =~= t.push(p));
    }
}

pub proof fn lemma_right_index_push(s: Seq<(Seq<char>, usize)>, p: (Seq<char>, usize), id: usize)
    ensures
        right_index(s.push(p), id) == if right_index(s, id) >= 0 {
            right_index(s, id)
        } else if p.1 == id {
            s.len() as int
        } else {
            -1
        },
    decreases s.len(),
{
    let sp = s.push(p);
    if s.len() == 0 {
        assert(sp[0] == p);
        assert(sp.subrange(1, sp.len() as int) =~= Seq::<(Seq<char>, usize)>::empty());
        assert(right_index(sp.subrange(1, sp.len() as int), id) == -1);
    } else {
        assert(sp[0] == s[0]);
        let t = s.subrange(1, s.len() as int);
        lemma_right_index_push(t, p, id);
        assert(sp.subrange(1, sp.len() as int) =~= t.push(p));
    }
}

/// Whether the symbols of `s` are pairwise distinct.
pub open spec fn lefts_distinct(s: Seq<(Seq<char>, usize)>) -> bool {
    forall|i: int, j: int| 0 <= i < j < s.len() ==> (#[trigger] s[i]).0 != (#[trigger] s[j]).0
}

/// Whether the identifiers of `s` are pairwise distinct.
pub open spec fn rights_distinct(s: Seq<(Seq<char>, usize)>) -> bool {
    forall|i: int, j: int| 0 <= i < j < s.len() ==> (#[trigger] s[i]).1 != (#[trigger] s[j]).1
}

/// The pairs of `s` that collide with neither the symbol `sym` nor the
/// identifier `id`, in order.
pub open spec fn remove_both(
    s: Seq<(Seq<char>, usize)>,
    sym: Seq<char>,
    id: usize,
) -> Seq<(Seq<char>, usize)>
    decreases s.len(),
{
    if s.len() == 0 {
        s
    } else {
        let rest = remove_both(s.drop_last(), sym, id);
        if s.last().0 != sym && s.last().1 != id {
            rest.push(s.last())
        } else {
            rest
        }
    }
}

/// What filtering the colliding pairs away does to every lookup.
pub proof fn lemma_remove_both_props(s: Seq<(Seq<char>, usize)>, sym: Seq<char>, id: usize)
    ensures
        lefts_distinct(s) && rights_distinct(s) ==> lefts_distinct(remove_both(s, sym, id))
            && rights_distinct(remove_both(s, sym, id)),
        forall|j: int|
            0 <= j < remove_both(s, sym, id).len() ==> (#[trigger] remove_both(s, sym, id)[j]).0
                != sym && remove_both(s, sym, id)[j].1 != id,
        forall|n: Seq<char>|
            #![trigger has_left(remove_both(s, sym, id), n)]
            n != sym && lefts_distinct(s) && rights_distinct(s) ==> {
                &&& has_left(remove_both(s, sym, id), n) == (has_left(s, n) && value_for(s, n)
                    != id)
                &&& (has_left(s, n) && value_for(s, n) != id ==> value_for(
                    remove_both(s, sym, id),
                    n,
                ) == value_for(s, n))
            },
        forall|j: usize|
            #![trigger has_right(remove_both(s, sym, id), j)]
            j != id && lefts_distinct(s) && rights_distinct(s) ==> {
                &&& has_right(remove_both(s, sym, id), j) == (has_right(s, j) && symbol_for(s, j)
                    != sym)
                &&& (has_right(s, j) && symbol_for(s, j) != sym ==> symbol_for(
                    remove_both(s, sym, id),
                    j,
                ) == symbol_for(s, j))
            },
    decreases s.len(),
{
    let r = remove_both(s, sym, id);
    if s.len() == 0 {
    } else {
        let t = s.drop_last();
        let p = s.last();
        let rt = remove_both(t, sym, id);
        assert(t =~= s.subrange(0, s.len() - 1));
        assert forall|i: int, j: int|
            0 <= i < j < t.len() implies t[i] == s[i] && t[j] == s[j] by {}
        lemma_remove_both_props(t, sym, id);
        if lefts_distinct(s) && rights_distinct(s) {
            assert(lefts_distinct(t));
            assert(rights_distinct(t));
            // The last pair's symbol and identifier occur nowhere in `t`.
            assert forall|i: int| 0 <= i < t.len() implies (#[trigger] t[i]).0 != p.0 && t[i].1
                != p.1 by {
                assert(s[i] == t[i]);
                assert(s[s.len() - 1] == p);
            }
            assert(s =~= t.push(p));
            lemma_left_push_facts(s, t, p, sym, id);
            lemma_right_push_facts(s, t, p, sym, id);
        } else {
            if p.0 != sym && p.1 != id {
                assert forall|j: int| 0 <= j < r.len() implies (#[trigger] r[j]).0 != sym
                    && r[j].1 != id by {
                    if j < rt.len() {
                        assert(r[j] == rt[j]);
                    }
                }
            }
        }
    }
}

/// The left-lookup clauses of [`lemma_remove_both_props`], one recursion
/// step.
proof fn lemma_left_push_facts(
    s: Seq<(Seq<char>, usize)>,
    t: Seq<(Seq<char>, usize)>,
    p: (Seq<char>, usize),
    sym: Seq<char>,
    id: usize,
)
    requires
        lefts_distinct(s),
        rights_distinct(s),
        lefts_distinct(t),
        rights_distinct(t),
        s == t.push(p),
        forall|i: int| 0 <= i < t.len() ==> (#[trigger] t[i]).0 != p.0 && t[i].1 != p.1,
        lefts_distinct(remove_both(t, sym, id)),
        rights_distinct(remove_both(t, sym, id)),
        forall|j: int|
            0 <= j < remove_both(t, sym, id).len() ==> (#[trigger] remove_both(t, sym, id)[j]).0
                != sym && remove_both(t, sym, id)[j].1 != id,
        forall|n: Seq<char>|
            #![trigger has_left(remove_both(t, sym, id), n)]
            n != sym ==> {
                &&& has_left(remove_both(t, sym, id), n) == (has_left(t, n) && value_for(t, n)
                    != id)
                &&& (has_left(t, n) && value_for(t, n) != id ==> value_for(
                    remove_both(t, sym, id),
                    n,
                ) == value_for(t, n))
            },
    ensures
        lefts_distinct(remove_both(s, sym, id)),
        forall|j: int|
            0 <= j < remove_both(s, sym, id).len() ==> (#[trigger] remove_both(s, sym, id)[j]).0
                != sym && remove_both(s, sym, id)[j].1 != id,
        forall|n: Seq<char>|
            #![trigger has_left(remove_both(s, sym, id), n)]
            n != sym ==> {
                &&& has_left(remove_both(s, sym, id), n) == (has_left(s, n) && value_for(s, n)
                    != id)
                &&& (has_left(s, n) && value_for(s, n) != id ==> value_for(
                    remove_both(s, sym, id),
                    n,
                ) == value_for(s, n))
            },
{
    let rt = remove_both(t, sym, id);
    let r = remove_both(s, sym, id);
    assert(s.drop_last() =~= t);
    assert(s.last() == p);
    let keep = p.0 != sym && p.1 != id;
    if keep {
        assert(r == rt.push(p));
        assert forall|j: int| 0 <= j < r.len() implies (#[trigger] r[j]).0 != sym && r[j].1
            != id by {
            if j < rt.len() {
                assert(r[j] == rt[j]);
            }
        }
        assert forall|i: int, j: int|
            0 <= i < j < r.len() implies (#[trigger] r[i]).0 != (#[trigger] r[j]).0 by {
            if j == r.len() - 1 {
                assert(r[i] == rt[i]);
                lemma_remove_member(t, sym, id, i);
            }
        }
    } else {
        assert(r == rt);
    }
    assert forall|n: Seq<char>| n != sym implies {
        &&& (#[trigger] has_left(r, n)) == (has_left(s, n) && value_for(s, n) != id)
        &&& (has_left(s, n) && value_for(s, n) != id ==> value_for(r, n) == value_for(s, n))
    } by {
        lemma_left_index_push(t, p, n);
        if keep {
            lemma_left_index_push(rt, p, n);
        }
        lemma_left_index_props(t, n);
        lemma_left_index_props(rt, n);
        assert(has_left(rt, n) == (has_left(t, n) && value_for(t, n) != id));
        if left_index(t, n) >= 0 {
            assert(s[left_index(t, n)] == t[left_index(t, n)]);
        }
        if has_left(t, n) && value_for(t, n) != id {
            assert(value_for(rt, n) == value_for(t, n));
        }
    }
}

/// The right-lookup clauses of [`lemma_remove_both_props`], one recursion
/// step.
proof fn lemma_right_push_facts(
    s: Seq<(Seq<char>, usize)>,
    t: Seq<(Seq<char>, usize)>,
    p: (Seq<char>, usize),
    sym: Seq<char>,
    id: usize,
)
    requires
        lefts_distinct(s),
        rights_distinct(s),
        lefts_distinct(t),
        rights_distinct(t),
        s == t.push(p),
        forall|i: int| 0 <= i < t.len() ==> (#[trigger] t[i]).0 != p.0 && t[i].1 != p.1,
        rights_distinct(remove_both(t, sym, id)),
        forall|j: int|
            0 <= j < remove_both(t, sym, id).len() ==> (#[trigger] remove_both(t, sym, id)[j]).0
                != sym && remove_both(t, sym, id)[j].1 != id,
        forall|j: usize|
            #![trigger has_right(remove_both(t, sym, id), j)]
            j != id ==> {
                &&& has_right(remove_both(t, sym, id), j) == (has_right(t, j) && symbol_for(t, j)
                    != sym)
                &&& (has_right(t, j) && symbol_for(t, j) != sym ==> symbol_for(
                    remove_both(t, sym, id),
                    j,
                ) == symbol_for(t, j))
            },
    ensures
        rights_distinct(remove_both(s, sym, id)),
        forall|j: usize|
            #![trigger has_right(remove_both(s, sym, id), j)]
            j != id ==> {
                &&& has_right(remove_both(s, sym, id), j) == (has_right(s, j) && symbol_for(s, j)
                    != sym)
                &&& (has_right(s, j) && symbol_for(s, j) != sym ==> symbol_for(
                    remove_both(s, sym, id),
                    j,
                ) == symbol_for(s, j))
            },
{
    let rt = remove_both(t, sym, id);
    let r = remove_both(s, sym, id);
    assert(s.drop_last() =~= t);
    assert(s.last() == p);
    let keep = p.0 != sym && p.1 != id;
    if keep {
        assert(r == rt.push(p));
        assert forall|i: int, j: int|
            0 <= i < j < r.len() implies (#[trigger] r[i]).1 != (#[trigger] r[j]).1 by {
            if j == r.len() - 1 {
                assert(r[i] == rt[i]);
                lemma_remove_member(t, sym, id, i);
            }
        }
    } else {
        assert(r == rt);
    }
    assert forall|j: usize| j != id implies {
        &&& (#[trigger] has_right(r, j)) == (has_right(s, j) && symbol_for(s, j) != sym)
        &&& (has_right(s, j) && symbol_for(s, j) != sym ==> symbol_for(r, j) == symbol_for(s, j))
    } by {
        lemma_right_index_push(t, p, j);
        if keep {
            lemma_right_index_push(rt, p, j);
        }
        lemma_right_index_props(t, j);
        lemma_right_index_props(rt, j);
        assert(has_right(rt, j) == (has_right(t, j) && symbol_for(t, j) != sym));
        if right_index(t, j) >= 0 {
            assert(s[right_index(t, j)] == t[right_index(t, j)]);
        }
        if has_right(t, j) && symbol_for(t, j) != sym {
            assert(symbol_for(rt, j) == symbol_for(t, j));
        }
    }
}

/// Every pair of the filtered sequence is a pair of the original.
proof fn lemma_remove_member(s: Seq<(Seq<char>, usize)>, sym: Seq<char>, id: usize, j: int)
    requires
        0 <= j < remove_both(s, sym, id).len(),
    ensures
        exists|k: int|
            0 <= k < s.len() && (#[trigger] s[k]) == remove_both(s, sym, id)[j],
    decreases s.len(),
{
    let r = remove_both(s, sym, id);
    if s.len() > 0 {
        let t = s.drop_last();
        let rt = remove_both(t, sym, id);
        if j < rt.len() {
            lemma_remove_member(t, sym, id, j);
            let k = choose|k: int| 0 <= k < t.len() && (#[trigger] t[k]) == rt[j];
            assert(s[k] == t[k]);
            assert(r[j] == rt[j]);
        } else {
            assert(s[s.len() - 1] == s.last());
            assert(r[j] == s.last());
        }
    }
}

/// A bidirectional map between string symbols and interned identifiers.
#[derive(Debug, PartialEq, Eq)]
pub struct SymbolTable {
    /// The pairs of the map, each symbol and each identifier occurring at
    /// most once.
    pairs: Vec<(String, usize)>,
}

/// The relation between a symbol table before and after `insert(sym, id)`:
/// every pair colliding with either side of the new pair is dropped, and the
/// new pair is appended.
pub open spec fn symbol_insert_post(
    pre: SymbolTable,
    post: SymbolTable,
    sym: Seq<char>,
    id: usize,
) -> bool {
    post.raw() == remove_both(pre.raw(), sym, id).push((sym, id))
}

impl SymbolTable {
    /// The pairs of the table, in order, with symbols as character
    /// sequences.
    pub closed spec fn raw(self) -> Seq<(Seq<char>, usize)> {
        self.pairs@.map_values(|p: (String, usize)| (p.0@, p.1))
    }

    /// Symbols and identifiers are each pairwise distinct; methods preserve
    /// this.
    pub open spec fn wf(self) -> bool {
        lefts_distinct(self.raw()) && rights_distinct(self.raw())
    }

    /// Whether the table maps the symbol `n`.
    pub open spec fn contains_symbol(self, n: Seq<char>) -> bool {
        has_left(self.raw(), n)
    }

    /// The identifier the symbol `n` maps to.
    pub open spec fn id_of(self, n: Seq<char>) -> usize {
        value_for(self.raw(), n)
    }

    /// Whether the table maps some symbol to the identifier `id`.
    pub open spec fn contains_id(self, id: usize) -> bool {
        has_right(self.raw(), id)
    }

    /// The symbol that maps to the identifier `id`.
    pub open spec fn symbol_of(self, id: usize) -> Seq<char> {
        symbol_for(self.raw(), id)
    }

    /// Creates an empty symbol table.
    pub fn new() -> (r: SymbolTable)
        ensures
            r.wf(),
            r.raw() == Seq::<(Seq<char>, usize)>::empty(),
    {
        let r = SymbolTable { pairs: Vec::new() };
        proof {
            assert(r.raw() =~= Seq::<(Seq<char>, usize)>::empty());
        }
        r
    }

    /// Inserts the pair `(symbol, id)`, atomically replacing any pair that
    /// shares its symbol or its identifier.
    pub fn insert(&mut self, symbol: String, id: usize)
        requires
            old(self).wf(),
        ensures
            final(self).wf(),
            symbol_insert_post(*old(self), *final(self), symbol@, id),
    {
        let ghost olds = self.pairs@;
        let n = self.pairs.len();
        let mut kept: Vec<(String, usize)> = Vec::new();
        let mut i: usize = 0;
        while i < n
            invariant
                i <= n,
                n == olds.len(),
                olds == self.pairs@,
                kept@.map_values(|p: (String, usize)| (p.0@, p.1)) == remove_both(
                    olds.subrange(0, i as int).map_values(|p: (String, usize)| (p.0@, p.1)),
                    symbol@,
                    id,
                ),
            decreases n - i,
        {
            let ghost prefix = olds.subrange(0, i as int).map_values(
                |p: (String, usize)| (p.0@, p.1),
            );
            let ghost prefix2 = olds.subrange(0, i as int + 1).map_values(
                |p: (String, usize)| (p.0@, p.1),
            );
            proof {
                assert(prefix2.drop_last() =~= prefix);
                assert(prefix2.last() == (olds[i as int].0@, olds[i as int].1));
            }
            let keep = !(self.pairs[i].0 == symbol) && self.pairs[i].1 != id;
            if keep {
                let ghost pre_kept = kept@;
                kept.push((self.pairs[i].0.clone(), self.pairs[i].1));
                proof {
                    assert(kept@.map_values(|p: (String, usize)| (p.0@, p.1)) =~= pre_kept
                        .map_values(|p: (String, usize)| (p.0@, p.1)).push(prefix2.last()));
                }
            }
            i += 1;
        }
        proof {
            assert(olds.subrange(0, n as int) =~= olds);
        }
        let ghost kept_view = kept@.map_values(|p: (String, usize)| (p.0@, p.1));
        kept.push((symbol, id));
        proof {
            assert(kept@.map_values(|p: (String, usize)| (p.0@, p.1)) =~= kept_view.push(
                (symbol@, id),
            ));
        }
        self.pairs = kept;
        proof {
            lemma_remove_both_props(olds.map_values(|p: (String, usize)| (p.0@, p.1)), symbol@, id);
            let rb = remove_both(
                olds.map_values(|p: (String, usize)| (p.0@, p.1)),
                symbol@,
                id,
            );
            let fin = self.raw();
            assert(fin == rb.push((symbol@, id)));
            assert forall|i1: int, j1: int|
                0 <= i1 < j1 < fin.len() implies (#[trigger] fin[i1]).0 != (#[trigger] fin[j1]).0
                && fin[i1].1 != fin[j1].1 by {
                if j1 == fin.len() - 1 {
                    assert(fin[i1] == rb[i1]);
                } else {
                    assert(fin[i1] == rb[i1]);
                    assert(fin[j1] == rb[j1]);
                }
            }
        }
    }

    /// Looks up the identifier for `symbol`, returning `None` when absent.
    pub fn get_by_left(&self, symbol: &String) -> (r: Option<usize>)
        ensures
            match r {
                Some(id) => self.contains_symbol(symbol@) && self.id_of(symbol@) == id,
                None => !self.contains_symbol(symbol@),
            },
    {
        let ghost s = self.raw();
        let n = self.pairs.len();
        let mut i: usize = 0;
        while i < n
            invariant
                i <= n,
                n == s.len(),
                s == self.raw(),
                forall|j: int| 0 <= j < i ==> (#[trigger] s[j]).0 != symbol@,
            decreases n - i,
        {
            if self.pairs[i].0 == *symbol {
                proof {
                    assert(s[i as int].0 == symbol@);
                    lemma_left_index_props(s, symbol@);
                }
                return Some(self.pairs[i].1);
            }
            proof {
                assert(s[i as int] == (self.pairs@[i as int].0@, self.pairs@[i as int].1));
            }
            i += 1;
        }
        proof {
            lemma_left_index_props(s, symbol@);
        }
        None
    }

    /// Looks up the symbol for `id`, returning `None` when absent.
    pub fn get_by_right(&self, id: usize) -> (r: Option<&String>)
        ensures
            match r {
                Some(sym) => self.contains_id(id) && self.symbol_of(id) == sym@,
                None => !self.contains_id(id),
            },
    {
        let ghost s = self.raw();
        let n = self.pairs.len();
        let mut i: usize = 0;
        while i < n
            invariant
                i <= n,
                n == s.len(),
                s == self.raw(),
                forall|j: int| 0 <= j < i ==> (#[trigger] s[j]).1 != id,
            decreases n - i,
        {
            if self.pairs[i].1 == id {
                proof {
                    assert(s[i as int].1 == id);
                    lemma_right_index_props(s, id);
                }
                return Some(&self.pairs[i].0);
            }
            proof {
                assert(s[i as int] == (self.pairs@[i as int].0@, self.pairs@[i as int].1));
            }
            i += 1;
        }
        proof {
            lemma_right_index_props(s, id);
        }
        None
    }

    /// The pairs of the table in insertion order, for serialization.
    pub fn pairs(&self) -> (r: &Vec<(String, usize)>)
        ensures
            r@.map_values(|p: (String, usize)| (p.0@, p.1)) == self.raw(),
    {
        &self.pairs
    }

    /// Reassembles a table from pairs read back from a serialized form.
    /// Returns `None` unless symbols and identifiers are each pairwise
    /// distinct.
    pub fn from_pairs(pairs: Vec<(String, usize)>) -> (r: Option<SymbolTable>)
        ensures
            match r {
                Some(t) => {
                    &&& t.wf()
                    &&& t.raw() == pairs@.map_values(|p: (String, usize)| (p.0@, p.1))
                },
                None => !(lefts_distinct(pairs@.map_values(|p: (String, usize)| (p.0@, p.1)))
                    && rights_distinct(pairs@.map_values(|p: (String, usize)| (p.0@, p.1)))),
            },
    {
        let ghost s = pairs@.map_values(|p: (String, usize)| (p.0@, p.1));
        let n = pairs.len();
        let mut i: usize = 0;
        while i < n
            invariant
                i <= n,
                n == s.len(),
                s == pairs@.map_values(|p: (String, usize)| (p.0@, p.1)),
                forall|a: int, b: int|
                    0 <= a < b < s.len() && a < i ==> (#[trigger] s[a]).0 != (#[trigger] s[b]).0
                        && s[a].1 != s[b].1,
            decreases n - i,
        {
            let mut j: usize = i + 1;
            while j < n
                invariant
                    i < j <= n,
                    n == s.len(),
                    s == pairs@.map_values(|p: (String, usize)| (p.0@, p.1)),
                    forall|b: int|
                        i < b < j ==> (#[trigger] s[b]).0 != s[i as int].0 && s[b].1
                            != s[i as int].1,
                decreases n - j,
            {
                if pairs[j].0 == pairs[i].0 || pairs[j].1 == pairs[i].1 {
                    proof {
                        assert(s[j as int] == (pairs@[j as int].0@, pairs@[j as int].1));
                        assert(s[i as int] == (pairs@[i as int].0@, pairs@[i as int].1));
                        if s[j as int].0 == s[i as int].0 {
                            assert(!lefts_distinct(s));
                        } else {
                            assert(!rights_distinct(s));
                        }
                    }
                    return None;
                }
                proof {
                    assert(s[j as int] == (pairs@[j as int].0@, pairs@[j as int].1));
                    assert(s[i as int] == (pairs@[i as int].0@, pairs@[i as int].1));
                }
                j += 1;
            }
            i += 1;
        }
        Some(SymbolTable { pairs })
    }
}

/// The symbol-replacement law: after mapping a symbol to one identifier and
/// then to a second, looking the symbol up yields the second identifier
/// only, and the first identifier is no longer reachable by any symbol.
pub proof fn lemma_symbol_replacement(
    s0: SymbolTable,
    s1: SymbolTable,
    s2: SymbolTable,
    sym: Seq<char>,
    id1: usize,
    id2: usize,
)
    requires
        s0.wf(),
        s1.wf(),
        s2.wf(),
        symbol_insert_post(s0, s1, sym, id1),
        symbol_insert_post(s1, s2, sym, id2),
        id1 != id2,
    ensures
        s2.contains_symbol(sym),
        s2.id_of(sym) == id2,
        !s2.contains_id(id1),
{
    let r1 = remove_both(s1.raw(), sym, id2);
    lemma_remove_both_props(s1.raw(), sym, id2);
    lemma_left_index_push(r1, (sym, id2), sym);
    lemma_left_index_props(r1, sym);
    lemma_right_index_push(r1, (sym, id2), id2);
    // The pair carrying `id1` in `s1` is the one carrying `sym`, which the
    // second insertion removes.
    lemma_right_index_push(r1, (sym, id2), id1);
    lemma_right_index_props(r1, id1);
    if has_right(r1, id1) {
        let w = right_index(r1, id1);
        assert(r1[w].1 == id1);
        // Where does this pair come from?  `s1` ends with `(sym, id1)`, and
        // every other pair of `s1` avoids both `sym` and `id1`; filtering by
        // `sym` removes the final pair, so `id1` cannot survive.
        let p0 = remove_both(s0.raw(), sym, id1);
        lemma_remove_both_props(s0.raw(), sym, id1);
        assert(s1.raw() == p0.push((sym, id1)));
        lemma_remove_last_collision(s1.raw(), sym, id2, id1);
        assert(false);
    }
    // The left lookup of `sym` finds the appended pair.
    let f = s2.raw();
    assert(f == r1.push((sym, id2)));
    if left_index(r1, sym) >= 0 {
        assert(r1[left_index(r1, sym)].0 == sym);
        lemma_remove_both_props(s1.raw(), sym, id2);
        assert(false);
    }
}

/// In a sequence whose final pair carries `sym` and `id1`, and whose other
/// pairs avoid `id1`, filtering pairs that collide with `sym` leaves no pair
/// carrying `id1`.
proof fn lemma_remove_last_collision(s: Seq<(Seq<char>, usize)>, sym: Seq<char>, id2: usize, id1: usize)
    requires
        s.len() > 0,
        s.last().0 == sym,
        s.last().1 == id1,
        forall|i: int| 0 <= i < s.len() - 1 ==> (#[trigger] s[i]).1 != id1,
    ensures
        !has_right(remove_both(s, sym, id2), id1),
{
    let t = s.drop_last();
    let rt = remove_both(t, sym, id2);
    assert(remove_both(s, sym, id2) == rt);
    lemma_right_index_props(rt, id1);
    if has_right(rt, id1) {
        let w = right_index(rt, id1);
        lemma_remove_member(t, sym, id2, w);
        let k = choose|k: int| 0 <= k < t.len() && (#[trigger] t[k]) == rt[w];
        assert(s[k] == t[k]);
        assert(false);
    }
}

} // verus!
