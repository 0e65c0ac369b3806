//! A map from 32-byte keys to copyable values, kept as a list of entries in
//! which no key occurs twice.
use vstd::prelude::*;
use crate::vault_id::bytes_eq;

verus! {

/// Map from 32-byte keys to values.
pub struct ByteKeyMap<V> {
    entries: Vec<([u8; 32], V)>,
}

/// Position of the entry with key `k` in `s`, or -1 when there is none.
pub open spec fn entry_index<V>(s: Seq<([u8; 32], V)>, k: Seq<u8>) -> int {
    if exists|i: int| 0 <= i < s.len() && #[trigger] s[i].0@ == k {
        choose|i: int| 0 <= i < s.len() && #[trigger] s[i].0@ == k
    } else {
        -1
    }
}

/// No key occurs twice in `s`.
pub open spec fn keys_unique<V>(s: Seq<([u8; 32], V)>) -> bool {
    forall|i: int, j: int| 0 <= i < s.len() && 0 <= j < s.len() && i != j ==> #[trigger] s[i].0@
        != #[trigger] s[j].0@
}

/// The map that the entries `s` stand for.
pub open spec fn entries_map<V>(s: Seq<([u8; 32], V)>) -> Map<Seq<u8>, V> {
    Map::new(|k: Seq<u8>| entry_index(s, k) >= 0, |k: Seq<u8>| s[entry_index(s, k)].1)
}

/// With unique keys, the entry holding key `s[i].0` is the one at `i`.
proof fn lemma_entry_index_at<V>(s: Seq<([u8; 32], V)>, i: int)
    requires
        keys_unique(s),
        0 <= i < s.len(),
    ensures
        entry_index(s, s[i].0@) == i,
{
    let k = s[i].0@;
    assert(s[i].0@ == k);
    let j = choose|j: int| 0 <= j < s.len() && #[trigger] s[j].0@ == k;
    if j != i {
        assert(s[i].0@ != s[j].0@);
    }
}

impl<V: Copy> ByteKeyMap<V> {
    /// The map held.
    pub closed spec fn view(&self) -> Map<Seq<u8>, V> {
        entries_map(self.entries@)
    }

    /// No key is stored twice.
    pub closed spec fn wf(&self) -> bool {
        keys_unique(self.entries@)
    }

    /// An empty map.
    pub fn new() -> (r: Self)
        ensures
            r.wf(),
            r@ == Map::<Seq<u8>, V>::empty(),
    {
        let r = ByteKeyMap { entries: Vec::new() };
        assert(r@ =~= Map::<Seq<u8>, V>::empty());
        r
    }

    /// Position of the entry with key `k`.
    fn find(&self, k: &[u8; 32]) -> (r: Option<usize>)
        requires
            self.wf(),
        ensures
            r matches Some(i) ==> i < self.entries@.len() && self.entries@[i as int].0@ == k@
                && entry_index(self.entries@, k@) == i,
            r is None ==> entry_index(self.entries@, k@) < 0,
    {
        let mut i: usize = 0;
        while i < self.entries.len()
            invariant
                i <= self.entries@.len(),
                self.wf(),
                forall|j: int| 0 <= j < i ==> #[trigger] self.entries@[j].0@ != k@,
            decreases self.entries@.len() - i,
        {
            if bytes_eq(&self.entries[i].0, k) {
                proof {
                    lemma_entry_index_at(self.entries@, i as int);
                }
                return Some(i);
            }
            i += 1;
        }
        None
    }

    /// The value stored under `k`, if any.
    pub fn get(&self, k: &[u8; 32]) -> (r: Option<V>)
        requires
            self.wf(),
        ensures
            self@.contains_key(k@) ==> r == Some(self@[k@]),
            !self@.contains_key(k@) ==> r is None,
    {
        match self.find(k) {
            Some(i) => Some(self.entries[i].1),
            None => None,
        }
    }

    /// Whether a value is stored under `k`.
    pub fn contains_key(&self, k: &[u8; 32]) -> (r: bool)
        requires
            self.wf(),
        ensures
            r == self@.contains_key(k@),
    {
        self.find(k).is_some()
    }

    /// Store `v` under `k`, replacing what was stored there.
    pub fn insert(&mut self, k: [u8; 32], v: V)
        requires
            old(self).wf(),
        ensures
            final(self).wf(),
            final(self)@ == old(self)@.insert(k@, v),
    {
        let ghost s0 = self.entries@;
        match self.find(&k) {
            Some(i) => {
                self.entries.set(i, (k, v));
                let ghost s1 = self.entries@;
                assert(keys_unique(s1)) by {
                    assert forall|a: int, b: int|
                        0 <= a < s1.len() && 0 <= b < s1.len() && a != b implies #[trigger] s1[a].0@
                        != #[trigger] s1[b].0@ by {
                        if a != i as int && b != i as int {
                            assert(s0[a].0@ != s0[b].0@);
                        } else if a == i as int {
                            assert(s0[a].0@ != s0[b].0@);
                        } else {
                            assert(s0[a].0@ != s0[b].0@);
                        }
                    }
                }
                assert(self@ =~= old(self)@.insert(k@, v)) by {
                    assert forall|q: Seq<u8>| #[trigger] entries_map(s1).contains_key(q)
                        == old(self)@.insert(k@, v).contains_key(q) && (entries_map(
                        s1,
                    ).contains_key(q) ==> entries_map(s1)[q] == old(self)@.insert(k@, v)[q]) by {
                        lemma_entry_index_at(s1, i as int);
                        if q != k@ {
                            if entry_index(s1, q) >= 0 {
                                let j = entry_index(s1, q);
                                assert(s1[j].0@ == q);
                                assert(j != i);
                                assert(s0[j] == s1[j]);
                                lemma_entry_index_at(s0, j);
                            }
                            if entry_index(s0, q) >= 0 {
                                let j = entry_index(s0, q);
                                assert(s0[j].0@ == q);
                                assert(j != i);
                                assert(s0[j] == s1[j]);
                                lemma_entry_index_at(s1, j);
                            }
                        }
                    }
                }
            },
            None => {
                self.entries.push((k, v));
                let ghost s1 = self.entries@;
                let ghost n = s0.len() as int;
                assert(keys_unique(s1)) by {
                    assert forall|a: int, b: int|
                        0 <= a < s1.len() && 0 <= b < s1.len() && a != b implies #[trigger] s1[a].0@
                        != #[trigger] s1[b].0@ by {
                        if a < n && b < n {
                            assert(s0[a].0@ != s0[b].0@);
                        } else if a < n {
                            assert(s0[a].0@ == s1[a].0@);
                            if s0[a].0@ == k@ {
                                assert(entry_index(s0, k@) >= 0);
                            }
                        } else {
                            assert(s0[b].0@ == s1[b].0@);
                            if s0[b].0@ == k@ {
                                assert(entry_index(s0, k@) >= 0);
                            }
                        }
                    }
                }
                assert(self@ =~= old(self)@.insert(k@, v)) by {
                    assert forall|q: Seq<u8>| #[trigger] entries_map(s1).contains_key(q)
                        == old(self)@.insert(k@, v).contains_key(q) && (entries_map(
                        s1,
                    ).contains_key(q) ==> entries_map(s1)[q] == old(self)@.insert(k@, v)[q]) by {
                        lemma_entry_index_at(s1, n);
                        if q != k@ {
                            if entry_index(s1, q) >= 0 {
                                let j = entry_index(s1, q);
                                assert(s1[j].0@ == q);
                                assert(j != n);
                                assert(s0[j] == s1[j]);
                                lemma_entry_index_at(s0, j);
                            }
                            if entry_index(s0, q) >= 0 {
                                let j = entry_index(s0, q);
                                assert(s0[j].0@ == q);
                                assert(s0[j] == s1[j]);
                                lemma_entry_index_at(s1, j);
                            }
                        }
                    }
                }
            },
        }
    }
}

} // verus!
