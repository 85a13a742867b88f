//! Pass data: the latest output of every pass that has run, in a map keyed
//! by pass identity.
//!
//! A pass identity is a stable integer key, unique per pass kind for the
//! whole process; see the design notes on pass identity in the pass module.

use vstd::prelude::*;

use crate::intern::{find_key, key_index, lemma_key_index_props, lemma_key_index_push,
    lemma_key_index_update, seq_contains_key};

verus! {

/// A handle that uniquely identifies a pass kind.
pub type PassKey = usize;

/// A mapping from pass keys to the associated pass data.
///
/// It always contains the latest data for each pass, as there is no need to
/// re-run a pass unless a later pass invalidated it.
#[derive(Debug, PartialEq, Eq)]
pub struct PassDataMap<T> {
    /// The entries of the map, each key occurring at most once.
    entries: Vec<(PassKey, T)>,
}

/// The relation between a map before and after `put_key(key, data)`: the
/// key now holds the data, and every other key is untouched.
pub open spec fn put_post<T>(
    pre: PassDataMap<T>,
    post: PassDataMap<T>,
    key: PassKey,
    data: T,
) -> bool {
    &&& post.contains_key(key)
    &&& post.data_of(key) == data
    &&& forall|k: PassKey| k != key ==> (#[trigger] post.contains_key(k)) == pre.contains_key(k)
    &&& forall|k: PassKey|
        k != key && pre.contains_key(k) ==> (#[trigger] post.data_of(k)) == pre.data_of(k)
}

/// The relation between a map before and after `clear_key(key)`: the key is
/// gone, and every other key is untouched.
pub open spec fn clear_post<T>(pre: PassDataMap<T>, post: PassDataMap<T>, key: PassKey) -> bool {
    &&& !post.contains_key(key)
    &&& forall|k: PassKey| k != key ==> (#[trigger] post.contains_key(k)) == pre.contains_key(k)
    &&& forall|k: PassKey|
        k != key && pre.contains_key(k) ==> (#[trigger] post.data_of(k)) == pre.data_of(k)
}

impl<T> PassDataMap<T> {
    /// The entries of the map, in order.
    pub closed spec fn raw(self) -> Seq<(PassKey, T)> {
        self.entries@
    }

    /// Keys are pairwise distinct; methods preserve this.
    pub open spec fn wf(self) -> bool {
        forall|i: int, j: int|
            0 <= i < j < self.raw().len() ==> (#[trigger] self.raw()[i]).0 != (
            #[trigger] self.raw()[j]).0
    }

    /// Whether the map holds data for the pass keyed `key`.
    pub open spec fn contains_key(self, key: PassKey) -> bool {
        seq_contains_key(self.raw(), key)
    }

    /// The data held for the pass keyed `key`; meaningful only when
    /// `contains_key(key)`.
    pub open spec fn data_of(self, key: PassKey) -> T {
        self.raw()[key_index(self.raw(), key)].1
    }

    /// Constructs a new, empty mapping from pass keys to pass data.
    pub fn new() -> (r: PassDataMap<T>)
        ensures
            r.wf(),
            forall|k: PassKey| !(#[trigger] r.contains_key(k)),
    {
        let r = PassDataMap { entries: Vec::new() };
        proof {
            assert forall|k: PassKey| !(#[trigger] r.contains_key(k)) by {
                lemma_key_index_props(r.entries@, k);
            }
        }
        r
    }

    /// Clears all pass data.
    pub fn clear_all(&mut self)
        ensures
            final(self).wf(),
            forall|k: PassKey| !(#[trigger] final(self).contains_key(k)),
    {
        self.entries.clear();
        proof {
            assert forall|k: PassKey| !(#[trigger] self.contains_key(k)) by {
                lemma_key_index_props(self.entries@, k);
            }
        }
    }

    /// Gets a reference to the last-written data for the pass keyed `key`,
    /// if any exists.
    pub fn get_key(&self, key: PassKey) -> (r: Option<&T>)
        ensures
            match r {
                Some(d) => self.contains_key(key) && *d == self.data_of(key),
                None => !self.contains_key(key),
            },
    {
        let idx = find_key(&self.entries, key);
        proof {
            lemma_key_index_props(self.raw(), key);
        }
        match idx {
            Some(i) => Some(&self.entries[i].1),
            None => None,
        }
    }

    /// Writes `data` into the container for the pass keyed `key`,
    /// overwriting any existing data for that pass.
    pub fn put_key(&mut self, key: PassKey, data: T)
        requires
            old(self).wf(),
        ensures
            final(self).wf(),
            put_post(*old(self), *final(self), key, data),
    {
        let ghost pre = self.entries@;
        proof {
            assert forall|a: int, b: int|
                0 <= a < b < pre.len() implies (#[trigger] pre[a]).0 != (#[trigger] pre[b]).0 by {
                assert(old(self).raw()[a] == pre[a]);
                assert(old(self).raw()[b] == pre[b]);
            }
            lemma_key_index_props(pre, key);
        }
        let idx = find_key(&self.entries, key);
        match idx {
            Some(i) => {
                let pair = self.entries.remove(i);
                self.entries.insert(i, (key, data));
                proof {
                    assert(self.entries@ =~= pre.update(i as int, (key, data)));
                    assert forall|k: PassKey| #![trigger key_index(self.entries@, k)]
                        key_index(self.entries@, k) == key_index(pre, k) by {
                        lemma_key_index_update(pre, i as int, (key, data), k);
                    }
                    assert forall|a: int|
                        0 <= a < self.entries@.len() implies (#[trigger] self.entries@[a]).0
                        == pre[a].0 by {}
                    assert forall|a: int, b: int|
                        0 <= a < b < self.entries@.len() implies (
                    #[trigger] self.entries@[a]).0 != (#[trigger] self.entries@[b]).0 by {
                        assert(pre[a].0 != pre[b].0);
                    }
                    assert forall|k: PassKey|
                        k != key && seq_contains_key(pre, k) implies (#[trigger] self.data_of(k))
                        == pre[key_index(pre, k)].1 by {
                        lemma_key_index_props(pre, k);
                        assert(self.entries@[key_index(pre, k)] == pre[key_index(pre, k)]);
                    }
                }
            },
            None => {
                self.entries.push((key, data));
                proof {
                    assert forall|k: PassKey| #![trigger key_index(self.entries@, k)]
                        key_index(self.entries@, k) == (if key_index(pre, k) >= 0 {
                            key_index(pre, k)
                        } else if k == key {
                            pre.len() as int
                        } else {
                            -1
                        }) by {
                        lemma_key_index_push(pre, (key, data), k);
                    }
                    assert forall|k: PassKey|
                        k != key && seq_contains_key(pre, k) implies (#[trigger] self.data_of(k))
                        == pre[key_index(pre, k)].1 by {
                        lemma_key_index_props(pre, k);
                        assert(self.entries@[key_index(pre, k)] == pre[key_index(pre, k)]);
                    }
                    assert forall|i2: int, j2: int|
                        0 <= i2 < j2 < self.entries@.len() implies (
                    #[trigger] self.entries@[i2]).0 != (#[trigger] self.entries@[j2]).0 by {
                        if j2 == self.entries@.len() - 1 {
                            assert(self.entries@[i2] == pre[i2]);
                        } else {
                            assert(self.entries@[i2] == pre[i2]);
                            assert(self.entries@[j2] == pre[j2]);
                        }
                    }
                }
            },
        }
    }

    /// Clears the data for the pass keyed `key`, if any exists.
    pub fn clear_key(&mut self, key: PassKey)
        requires
            old(self).wf(),
        ensures
            final(self).wf(),
            clear_post(*old(self), *final(self), key),
    {
        let ghost pre = self.entries@;
        proof {
            assert forall|a: int, b: int|
                0 <= a < b < pre.len() implies (#[trigger] pre[a]).0 != (#[trigger] pre[b]).0 by {
                assert(old(self).raw()[a] == pre[a]);
                assert(old(self).raw()[b] == pre[b]);
            }
            lemma_key_index_props(pre, key);
        }
        let idx = find_key(&self.entries, key);
        match idx {
            Some(i) => {
                self.entries.remove(i);
                proof {
                    let post = self.entries@;
                    assert(post == pre.remove(i as int));
                    assert(!seq_contains_key(post, key)) by {
                        lemma_key_index_remove(pre, i as int, key);
                    }
                    assert forall|k: PassKey| k != key implies (#[trigger] seq_contains_key(
                        post,
                        k,
                    )) == seq_contains_key(pre, k) by {
                        lemma_key_index_remove(pre, i as int, k);
                        lemma_key_index_props(pre, k);
                    }
                    assert forall|k: PassKey|
                        k != key && seq_contains_key(pre, k) implies (#[trigger] self.data_of(k))
                        == pre[key_index(pre, k)].1 by {
                        lemma_key_index_remove(pre, i as int, k);
                        lemma_key_index_props(pre, k);
                        if key_index(pre, k) < i as int {
                            assert(post[key_index(pre, k)] == pre[key_index(pre, k)]);
                        } else {
                            assert(post[key_index(pre, k) - 1] == pre[key_index(pre, k)]);
                        }
                    }
                    assert forall|i2: int, j2: int|
                        0 <= i2 < j2 < post.len() implies (#[trigger] post[i2]).0 != (
                    #[trigger] post[j2]).0 by {
                        if j2 < i as int {
                            assert(post[i2] == pre[i2]);
                            assert(post[j2] == pre[j2]);
                        } else if i2 < i as int {
                            assert(post[i2] == pre[i2]);
                            assert(post[j2] == pre[j2 + 1]);
                        } else {
                            assert(post[i2] == pre[i2 + 1]);
                            assert(post[j2] == pre[j2 + 1]);
                        }
                    }
                }
            },
            None => {},
        }
    }
}

/// How removal at a position changes the first index of a key, in a
/// sequence whose keys are pairwise distinct.
proof fn lemma_key_index_remove<T>(s: Seq<(PassKey, T)>, i: int, k: PassKey)
    requires
        0 <= i < s.len(),
        forall|a: int, b: int| 0 <= a < b < s.len() ==> (#[trigger] s[a]).0 != (#[trigger] s[b]).0,
    ensures
        key_index(s.remove(i), k) == (if key_index(s, k) == i {
            -1
        } else if key_index(s, k) < i {
            key_index(s, k)
        } else if key_index(s, k) > i {
            key_index(s, k) - 1
        } else {
            -1
        }),
    decreases s.len(),
{
    let sr = s.remove(i);
    lemma_key_index_props(s, k);
    lemma_key_index_props(sr, k);
    if i == 0 {
        assert(sr =~= s.subrange(1, s.len() as int));
        if s[0].0 == k {
            // The first entry held the key; distinctness rules out any
            // other entry holding it.
            if key_index(sr, k) >= 0 {
                let w = key_index(sr, k);
                assert(sr[w] == s[w + 1]);
                assert(s[w + 1].0 != s[0].0);
                assert(false);
            }
        }
    } else {
        assert(sr[0] == s[0]);
        let t = s.subrange(1, s.len() as int);
        assert forall|a: int, b: int|
            0 <= a < b < t.len() implies (#[trigger] t[a]).0 != (#[trigger] t[b]).0 by {
            assert(t[a] == s[a + 1]);
            assert(t[b] == s[b + 1]);
        }
        lemma_key_index_remove(t, i - 1, k);
        assert(sr.subrange(1, sr.len() as int) =~= t.remove(i - 1));
    }
}

} // verus!
