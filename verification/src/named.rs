//! Lookup by name in association lists keyed by strings.

use vstd::prelude::*;

verus! {

/// The index of the first entry of `s` whose name is `n`, or `-1`.
pub open spec fn name_index<V>(s: Seq<(String, V)>, n: Seq<char>) -> int
    decreases s.len(),
{
    if s.len() == 0 {
        -1
    } else if s[0].0@ == n {
        0
    } else {
        let r = name_index(s.subrange(1, s.len() as int), n);
        if r < 0 {
            -1
        } else {
            r + 1
        }
    }
}

/// Whether some entry of `s` carries the name `n`.
pub open spec fn has_name<V>(s: Seq<(String, V)>, n: Seq<char>) -> bool {
    name_index(s, n) >= 0
}

/// The value of the first entry of `s` named `n`; meaningful only when
/// `has_name(s, n)`.
pub open spec fn value_of_name<V>(s: Seq<(String, V)>, n: Seq<char>) -> V {
    s[name_index(s, n)].1
}

pub proof fn lemma_name_index_props<V>(s: Seq<(String, V)>, n: Seq<char>)
    ensures
        name_index(s, n) >= 0 ==> 0 <= name_index(s, n) < s.len() && s[name_index(s, n)].0@ == n,
        name_index(s, n) < 0 ==> name_index(s, n) == -1,
        name_index(s, n) < 0 ==> forall|i: int| 0 <= i < s.len() ==> (#[trigger] s[i]).0@ != n,
        forall|i: int| 0 <= i < name_index(s, n) ==> (#[trigger] s[i]).0@ != n,
    decreases s.len(),
{
    if s.len() > 0 && s[0].0@ != n {
        let t = s.subrange(1, s.len() as int);
        lemma_name_index_props(t, n);
        assert forall|i: int| 1 <= i < s.len() implies s[i] == t[i - 1] by {}
    }
}

/// Finds the first entry of `entries` named `n`, if any.
pub fn find_name<'a, V>(entries: &'a Vec<(String, V)>, n: &String) -> (r: Option<&'a V>)
    ensures
        match r {
            Some(v) => has_name(entries@, n@) && *v == value_of_name(entries@, n@),
            None => !has_name(entries@, n@),
        },
{
    let ghost s = entries@;
    let m = entries.len();
    let mut i: usize = 0;
    while i < m
        invariant
            i <= m,
            m == s.len(),
            s == entries@,
            forall|j: int| 0 <= j < i ==> (#[trigger] s[j]).0@ != n@,
        decreases m - i,
    {
        if entries[i].0 == *n {
            proof {
                lemma_name_index_props(s, n@);
            }
            return Some(&entries[i].1);
        }
        i += 1;
    }
    proof {
        lemma_name_index_props(s, n@);
    }
    None
}

} // verus!
