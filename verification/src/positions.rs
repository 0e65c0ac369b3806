//! Supplier positions of the lending pools: the share balance of each
//! (pool, lender) pair, kept as a list of entries in which no pair occurs
//! twice, together with the sum of the shares held in each pool.
use vstd::prelude::*;
use crate::types::ShareBalance;
use crate::vault_id::bytes_eq;

verus! {

/// The share balance of `lender` in pool `pool_id`.
#[derive(Clone, Copy, Debug, PartialEq, Eq)]
pub struct Position {
    pub pool_id: [u8; 32],
    pub lender: u64,
    pub balance: ShareBalance,
}

/// The (pool, lender) pair that a position belongs to.
pub open spec fn pos_key(e: Position) -> (Seq<u8>, u64) {
    (e.pool_id@, e.lender)
}

/// Index of the entry for pair `k` in `s`, or -1.
pub open spec fn position_index(s: Seq<Position>, k: (Seq<u8>, u64)) -> int {
    if exists|i: int| 0 <= i < s.len() && #[trigger] pos_key(s[i]) == k {
        choose|i: int| 0 <= i < s.len() && #[trigger] pos_key(s[i]) == k
    } else {
        -1
    }
}

/// No pair occurs twice in `s`.
pub open spec fn pairs_unique(s: Seq<Position>) -> bool {
    forall|i: int, j: int|
        0 <= i < s.len() && 0 <= j < s.len() && i != j ==> #[trigger] pos_key(s[i])
            != #[trigger] pos_key(s[j])
}

/// The balances that the entries `s` stand for.
pub open spec fn positions_map(s: Seq<Position>) -> Map<(Seq<u8>, u64), ShareBalance> {
    Map::new(|k: (Seq<u8>, u64)| position_index(s, k) >= 0, |k: (Seq<u8>, u64)| s[position_index(s, k)].balance)
}

/// Shares that entry `e` holds in pool `p`.
pub open spec fn shares_in(e: Position, p: Seq<u8>) -> int {
    if e.pool_id@ == p {
        e.balance.shares as int
    } else {
        0
    }
}

/// Sum of the shares held in pool `p` by the entries `s`.
pub open spec fn share_total(s: Seq<Position>, p: Seq<u8>) -> int
    decreases s.len(),
{
    if s.len() == 0 {
        0
    } else {
        share_total(s.drop_last(), p) + shares_in(s.last(), p)
    }
}

proof fn lemma_position_index_at(s: Seq<Position>, i: int)
    requires
        pairs_unique(s),
        0 <= i < s.len(),
    ensures
        position_index(s, pos_key(s[i])) == i,
{
    let k = pos_key(s[i]);
    assert(pos_key(s[i]) == k);
    let j = choose|j: int| 0 <= j < s.len() && #[trigger] pos_key(s[j]) == k;
    if j != i {
        assert(pos_key(s[i]) != pos_key(s[j]));
    }
}

proof fn lemma_total_update(s: Seq<Position>, i: int, e: Position, p: Seq<u8>)
    requires
        0 <= i < s.len(),
    ensures
        share_total(s.update(i, e), p) == share_total(s, p) - shares_in(s[i], p) + shares_in(e, p),
    decreases s.len(),
{
    let t = s.update(i, e);
    if i == s.len() - 1 {
        assert(t.drop_last() =~= s.drop_last());
    } else {
        assert(t.drop_last() =~= s.drop_last().update(i, e));
        lemma_total_update(s.drop_last(), i, e, p);
    }
}

proof fn lemma_total_remove(s: Seq<Position>, i: int, p: Seq<u8>)
    requires
        0 <= i < s.len(),
    ensures
        share_total(s.remove(i), p) == share_total(s, p) - shares_in(s[i], p),
    decreases s.len(),
{
    let t = s.remove(i);
    if i == s.len() - 1 {
        assert(t =~= s.drop_last());
    } else {
        assert(t.drop_last() =~= s.drop_last().remove(i));
        assert(t.last() == s.last());
        lemma_total_remove(s.drop_last(), i, p);
    }
}

proof fn lemma_total_absent(s: Seq<Position>, p: Seq<u8>)
    requires
        forall|j: int| 0 <= j < s.len() ==> (#[trigger] s[j]).pool_id@ != p,
    ensures
        share_total(s, p) == 0,
    decreases s.len(),
{
    if s.len() > 0 {
        lemma_total_absent(s.drop_last(), p);
    }
}

proof fn lemma_total_bounds(s: Seq<Position>, p: Seq<u8>, i: int)
    requires
        forall|j: int| 0 <= j < s.len() ==> (#[trigger] s[j]).balance.shares >= 0,
        0 <= i < s.len(),
    ensures
        0 <= shares_in(s[i], p) <= share_total(s, p),
    decreases s.len(),
{
    lemma_total_nonneg(s.drop_last(), p);
    if i < s.len() - 1 {
        lemma_total_bounds(s.drop_last(), p, i);
    }
}

proof fn lemma_total_nonneg(s: Seq<Position>, p: Seq<u8>)
    requires
        forall|j: int| 0 <= j < s.len() ==> (#[trigger] s[j]).balance.shares >= 0,
    ensures
        share_total(s, p) >= 0,
    decreases s.len(),
{
    if s.len() > 0 {
        lemma_total_nonneg(s.drop_last(), p);
    }
}

/// The supplier positions of all pools.
pub struct PositionBook {
    entries: Vec<Position>,
}

impl PositionBook {
    /// Share balance of each (pool, lender) pair that holds a position.
    pub closed spec fn view(&self) -> Map<(Seq<u8>, u64), ShareBalance> {
        positions_map(self.entries@)
    }

    /// No pair is stored twice.
    pub closed spec fn wf(&self) -> bool {
        pairs_unique(self.entries@)
    }

    /// Sum of the shares of all positions in pool `p`.
    pub closed spec fn pool_total(&self, p: Seq<u8>) -> int {
        share_total(self.entries@, p)
    }

    /// A book without positions.
    pub fn new() -> (r: Self)
        ensures
            r.wf(),
            r@ == Map::<(Seq<u8>, u64), ShareBalance>::empty(),
            forall|p: Seq<u8>| r.pool_total(p) == 0,
    {
        let r = PositionBook { entries: Vec::new() };
        assert(r@ =~= Map::<(Seq<u8>, u64), ShareBalance>::empty());
        r
    }

    fn find(&self, pool_id: &[u8; 32], lender: u64) -> (r: Option<usize>)
        requires
            self.wf(),
        ensures
            r matches Some(i) ==> i < self.entries@.len() && pos_key(self.entries@[i as int]) == (
            pool_id@,
            lender,
            ) && position_index(self.entries@, (pool_id@, lender)) == i,
            r is None ==> position_index(self.entries@, (pool_id@, lender)) < 0,
    {
        let mut i: usize = 0;
        while i < self.entries.len()
            invariant
                i <= self.entries@.len(),
                self.wf(),
                forall|j: int| 0 <= j < i ==> #[trigger] pos_key(self.entries@[j]) != (pool_id@, lender),
            decreases self.entries@.len() - i,
        {
            let e = self.entries[i];
            if e.lender == lender && bytes_eq(&e.pool_id, pool_id) {
                proof {
                    lemma_position_index_at(self.entries@, i as int);
                }
                return Some(i);
            }
            i += 1;
        }
        None
    }

    /// The position of `lender` in pool `pool_id`, if any.
    pub fn get(&self, pool_id: &[u8; 32], lender: u64) -> (r: Option<ShareBalance>)
        requires
            self.wf(),
        ensures
            self@.contains_key((pool_id@, lender)) ==> r == Some(self@[(pool_id@, lender)]),
            !self@.contains_key((pool_id@, lender)) ==> r is None,
    {
        match self.find(pool_id, lender) {
            Some(i) => Some(self.entries[i].balance),
            None => None,
        }
    }

    /// Whether pool `p` holds no position.
    pub open spec fn pool_empty(&self, p: Seq<u8>) -> bool {
        forall|l: u64| !self@.contains_key((p, l))
    }

    /// A pool without positions holds no shares.
    pub proof fn lemma_empty_pool_total(&self, p: Seq<u8>)
        requires
            self.wf(),
            self.pool_empty(p),
        ensures
            self.pool_total(p) == 0,
    {
        let s = self.entries@;
        assert forall|j: int| 0 <= j < s.len() implies (#[trigger] s[j]).pool_id@ != p by {
            lemma_position_index_at(s, j);
            assert(self@.contains_key((s[j].pool_id@, s[j].lender)));
        }
        lemma_total_absent(s, p);
    }

    /// With no negative position, one position's shares are at most the
    /// pool's total.
    pub proof fn lemma_position_within_total(&self, p: Seq<u8>, lender: u64)
        requires
            self.wf(),
            self@.contains_key((p, lender)),
            forall|k: (Seq<u8>, u64)| #[trigger] self@.contains_key(k) ==> self@[k].shares >= 0,
        ensures
            0 <= self@[(p, lender)].shares <= self.pool_total(p),
    {
        let s = self.entries@;
        assert forall|j: int| 0 <= j < s.len() implies (#[trigger] s[j]).balance.shares >= 0 by {
            lemma_position_index_at(s, j);
            assert(self@.contains_key(pos_key(s[j])));
        }
        let i = position_index(s, (p, lender));
        lemma_total_bounds(s, p, i);
    }

    /// Set the position of `lender` in pool `pool_id` to `balance`.
    pub fn set(&mut self, pool_id: [u8; 32], lender: u64, balance: ShareBalance)
        requires
            old(self).wf(),
        ensures
            final(self).wf(),
            final(self)@ == old(self)@.insert((pool_id@, lender), balance),
            forall|q: Seq<u8>|
                #[trigger] final(self).pool_total(q) == old(self).pool_total(q) - (if q == pool_id@
                    && old(self)@.contains_key((pool_id@, lender)) {
                    old(self)@[(pool_id@, lender)].shares as int
                } else {
                    0
                }) + (if q == pool_id@ {
                    balance.shares as int
                } else {
                    0
                }),
    {
        let ghost s0 = self.entries@;
        let ghost k = (pool_id@, lender);
        let e = Position { pool_id, lender, balance };
        match self.find(&pool_id, lender) {
            Some(i) => {
                self.entries.set(i, e);
                let ghost s1 = self.entries@;
                assert(pairs_unique(s1)) by {
                    assert forall|a: int, b: int|
                        0 <= a < s1.len() && 0 <= b < s1.len() && a != b implies #[trigger] pos_key(
                        s1[a],
                    ) != #[trigger] pos_key(s1[b]) by {
                        assert(pos_key(s0[a]) != pos_key(s0[b]));
                    }
                }
                assert(self@ =~= old(self)@.insert(k, balance)) by {
                    assert forall|q: (Seq<u8>, u64)| #[trigger] positions_map(s1).contains_key(q)
                        == old(self)@.insert(k, balance).contains_key(q) && (positions_map(
                        s1,
                    ).contains_key(q) ==> positions_map(s1)[q] == old(self)@.insert(
                        k,
                        balance,
                    )[q]) by {
                        lemma_position_index_at(s1, i as int);
                        if q != k {
                            if position_index(s1, q) >= 0 {
                                let j = position_index(s1, q);
                                assert(pos_key(s1[j]) == q);
                                assert(j != i);
                                assert(s0[j] == s1[j]);
                                lemma_position_index_at(s0, j);
                            }
                            if position_index(s0, q) >= 0 {
                                let j = position_index(s0, q);
                                assert(pos_key(s0[j]) == q);
                                assert(j != i);
                                assert(s0[j] == s1[j]);
                                lemma_position_index_at(s1, j);
                            }
                        }
                    }
                }
                proof {
                    assert forall|q: Seq<u8>| #[trigger] share_total(s1, q) == share_total(s0, q)
                        - (if q == pool_id@ && old(self)@.contains_key(k) {
                        old(self)@[k].shares as int
                    } else {
                        0
                    }) + (if q == pool_id@ {
                        balance.shares as int
                    } else {
                        0
                    }) by {
                        lemma_total_update(s0, i as int, e, q);
                        assert(s1 == s0.update(i as int, e));
                    }
                }
            },
            None => {
                self.entries.push(e);
                let ghost s1 = self.entries@;
                let ghost n = s0.len() as int;
                assert(pairs_unique(s1)) by {
                    assert forall|a: int, b: int|
                        0 <= a < s1.len() && 0 <= b < s1.len() && a != b implies #[trigger] pos_key(
                        s1[a],
                    ) != #[trigger] pos_key(s1[b]) by {
                        if a < n && b < n {
                            assert(pos_key(s0[a]) != pos_key(s0[b]));
                        } else if a < n {
                            assert(s0[a] == s1[a]);
                            if pos_key(s0[a]) == k {
                                assert(position_index(s0, k) >= 0);
                            }
                        } else {
                            assert(s0[b] == s1[b]);
                            if pos_key(s0[b]) == k {
                                assert(position_index(s0, k) >= 0);
                            }
                        }
                    }
                }
                assert(self@ =~= old(self)@.insert(k, balance)) by {
                    assert forall|q: (Seq<u8>, u64)| #[trigger] positions_map(s1).contains_key(q)
                        == old(self)@.insert(k, balance).contains_key(q) && (positions_map(
                        s1,
                    ).contains_key(q) ==> positions_map(s1)[q] == old(self)@.insert(
                        k,
                        balance,
                    )[q]) by {
                        lemma_position_index_at(s1, n);
                        if q != k {
                            if position_index(s1, q) >= 0 {
                                let j = position_index(s1, q);
                                assert(pos_key(s1[j]) == q);
                                assert(j != n);
                                assert(s0[j] == s1[j]);
                                lemma_position_index_at(s0, j);
                            }
                            if position_index(s0, q) >= 0 {
                                let j = position_index(s0, q);
                                assert(pos_key(s0[j]) == q);
                                assert(s0[j] == s1[j]);
                                lemma_position_index_at(s1, j);
                            }
                        }
                    }
                }
                proof {
                    assert(!old(self)@.contains_key(k));
                    assert forall|q: Seq<u8>| #[trigger] share_total(s1, q) == share_total(s0, q)
                        + (if q == pool_id@ {
                        balance.shares as int
                    } else {
                        0
                    }) by {
                        assert(s1.drop_last() =~= s0);
                    }
                }
            },
        }
    }

    /// Drop the position of `lender` in pool `pool_id`.
    pub fn remove(&mut self, pool_id: &[u8; 32], lender: u64)
        requires
            old(self).wf(),
            old(self)@.contains_key((pool_id@, lender)),
        ensures
            final(self).wf(),
            final(self)@ == old(self)@.remove((pool_id@, lender)),
            forall|q: Seq<u8>|
                #[trigger] final(self).pool_total(q) == old(self).pool_total(q) - (if q == pool_id@ {
                    old(self)@[(pool_id@, lender)].shares as int
                } else {
                    0
                }),
    {
        let ghost s0 = self.entries@;
        let ghost k = (pool_id@, lender);
        match self.find(pool_id, lender) {
            Some(i) => {
                let ghost e = s0[i as int];
                self.entries.remove(i);
                let ghost s1 = self.entries@;
                assert(s1 =~= s0.remove(i as int));
                assert(pairs_unique(s1)) by {
                    assert forall|a: int, b: int|
                        0 <= a < s1.len() && 0 <= b < s1.len() && a != b implies #[trigger] pos_key(
                        s1[a],
                    ) != #[trigger] pos_key(s1[b]) by {
                        let a0 = if a < i { a } else { a + 1 };
                        let b0 = if b < i { b } else { b + 1 };
                        assert(s1[a] == s0[a0]);
                        assert(s1[b] == s0[b0]);
                        assert(pos_key(s0[a0]) != pos_key(s0[b0]));
                    }
                }
                assert(self@ =~= old(self)@.remove(k)) by {
                    assert forall|q: (Seq<u8>, u64)| #[trigger] positions_map(s1).contains_key(q)
                        == old(self)@.remove(k).contains_key(q) && (positions_map(s1).contains_key(q)
                        ==> positions_map(s1)[q] == old(self)@.remove(k)[q]) by {
                        if position_index(s1, q) >= 0 {
                            let j = position_index(s1, q);
                            let j0 = if j < i { j } else { j + 1 };
                            assert(s1[j] == s0[j0]);
                            assert(pos_key(s0[j0]) == q);
                            lemma_position_index_at(s0, j0);
                            if q == k {
                                assert(j0 == i as int);
                            }
                        }
                        if position_index(s0, q) >= 0 && q != k {
                            let j0 = position_index(s0, q);
                            assert(pos_key(s0[j0]) == q);
                            assert(j0 != i as int);
                            let j = if j0 < i { j0 } else { j0 - 1 };
                            assert(s1[j] == s0[j0]);
                            lemma_position_index_at(s1, j);
                        }
                    }
                }
                proof {
                    lemma_position_index_at(s0, i as int);
                    assert forall|q: Seq<u8>| #[trigger] share_total(s1, q) == share_total(s0, q)
                        - (if q == pool_id@ {
                        old(self)@[k].shares as int
                    } else {
                        0
                    }) by {
                        lemma_total_remove(s0, i as int, q);
                    }
                }
            },
            None => {
                assert(false);
            },
        }
    }
}

} // verus!
