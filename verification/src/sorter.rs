use vstd::prelude::*;

use std::collections::VecDeque;

verus! {

/// `s` is sorted by key, in non-decreasing order.
pub open spec fn sorted_by_key<V>(s: Seq<(u128, V)>) -> bool {
    forall|i: int, j: int| 0 <= i < j < s.len() ==> #[trigger] s[i].0 <= #[trigger] s[j].0
}

/// Every key in `s` is at least `lo`.
pub open spec fn keys_at_least<V>(s: Seq<(u128, V)>, lo: u128) -> bool {
    forall|i: int| 0 <= i < s.len() ==> #[trigger] s[i].0 >= lo
}

/// Every key in `s` is at most `hi`.
pub open spec fn keys_at_most<V>(s: Seq<(u128, V)>, hi: u128) -> bool {
    forall|i: int| 0 <= i < s.len() ==> #[trigger] s[i].0 <= hi
}

/// Key bounds carry over to any sequence with the same multiset.
proof fn lemma_key_bounds_transfer<V>(a: Seq<(u128, V)>, b: Seq<(u128, V)>, lo: u128, hi: u128)
    requires
        a.to_multiset() == b.to_multiset(),
        keys_at_least(a, lo),
        keys_at_most(a, hi),
    ensures
        keys_at_least(b, lo),
        keys_at_most(b, hi),
{
    broadcast use vstd::seq_lib::group_to_multiset_ensures;

    assert forall|i: int| 0 <= i < b.len() implies lo <= #[trigger] b[i].0 <= hi by {
        assert(b.contains(b[i]));
        assert(b.to_multiset().count(b[i]) > 0);
        assert(a.contains(b[i]));
        let j = choose|j: int| 0 <= j < a.len() && a[j] == b[i];
        assert(lo <= a[j].0 <= hi);
    }
}

/// Accumulates unordered key-value pairs and emits them in order, sorted by
/// the key.
///
/// The caller indicates "rounds" with the property that round N cannot overlap
/// with round N + 2: the lowest key inserted in round N + 2 must be at least
/// as large as the highest key inserted in any round up to N. Every time a
/// round is finished, the values whose order can no longer be affected by
/// upcoming values become available for ordered iteration.
///
/// The sorter tracks in ghost state whether every insertion so far respected
/// that contract ([`Sorter::contract_kept`]); while it did, everything the
/// sorter emits is globally sorted by key.
pub struct Sorter<V> {
    /// Values ready for emission, each with its key. Sorted while the round
    /// contract was respected.
    outgoing: VecDeque<(u128, V)>,
    /// Values of the current round, in insertion order.
    incoming: Vec<(u128, V)>,
    /// The maximum key of any round before the current one.
    prev_max: u128,
    /// The maximum key seen so far, including the current round.
    cur_max: u128,
    /// The value `prev_max` had during the previous round: the lowest key the
    /// round contract still allows.
    floor: Ghost<u128>,
    /// Whether every insertion so far respected the round contract.
    kept: Ghost<bool>,
}

impl<V> Sorter<V> {
    /// The values that are ready for ordered emission, oldest first.
    pub closed spec fn ready(&self) -> Seq<(u128, V)> {
        self.outgoing@
    }

    /// The values inserted since the last round finished, in insertion order.
    pub closed spec fn pending(&self) -> Seq<(u128, V)> {
        self.incoming@
    }

    /// The key bound up to which the next `finish_round` will emit: the
    /// maximum key of all rounds before the current one.
    pub closed spec fn flush_bound(&self) -> u128 {
        self.prev_max
    }

    /// The maximum key seen so far.
    pub closed spec fn high_mark(&self) -> u128 {
        self.cur_max
    }

    /// The lowest key that the round contract allows the current round to
    /// insert: the flush bound of the previous round.
    pub closed spec fn round_floor(&self) -> u128 {
        self.floor@
    }

    /// Whether every insertion so far respected the round contract.
    pub closed spec fn contract_kept(&self) -> bool {
        self.kept@
    }

    /// The sorter's internal invariant. While the round contract was
    /// respected, the ready queue is sorted, everything in it is at or below
    /// the round floor, and everything still pending is at or above it.
    pub closed spec fn wf(&self) -> bool {
        &&& self.floor@ <= self.prev_max <= self.cur_max
        &&& keys_at_most(self.incoming@, self.cur_max)
        &&& self.kept@ ==> sorted_by_key(self.outgoing@)
        &&& self.kept@ ==> keys_at_most(self.outgoing@, self.floor@)
        &&& self.kept@ ==> keys_at_least(self.incoming@, self.floor@)
    }

    /// While the round contract was respected, the ready queue is globally
    /// sorted by key, so draining it yields non-decreasing keys.
    pub proof fn lemma_ready_sorted(&self)
        requires
            self.wf(),
            self.contract_kept(),
        ensures
            sorted_by_key(self.ready()),
    {
    }

    /// Create a new sorter.
    pub fn new() -> (r: Self)
        ensures
            r.wf(),
            r.ready() == Seq::<(u128, V)>::empty(),
            r.pending() == Seq::<(u128, V)>::empty(),
            r.flush_bound() == 0,
            r.high_mark() == 0,
            r.round_floor() == 0,
            r.contract_kept(),
    {
        Sorter {
            outgoing: VecDeque::new(),
            incoming: Vec::new(),
            prev_max: 0,
            cur_max: 0,
            floor: Ghost(0),
            kept: Ghost(true),
        }
    }

    /// Whether there are more ordered values available. If this returns
    /// false, the next round must be read.
    pub fn has_more(&self) -> (r: bool)
        ensures
            r == (self.ready().len() > 0),
    {
        self.outgoing.len() > 0
    }

    /// Returns the next ready value, oldest first. While the round contract
    /// was respected, consecutive results come in non-decreasing key order.
    pub fn get_next(&mut self) -> (r: Option<V>)
        requires
            old(self).wf(),
        ensures
            final(self).wf(),
            old(self).ready().len() == 0 ==> r is None && final(self).ready() == old(self).ready(),
            old(self).ready().len() > 0 ==> r == Some(old(self).ready()[0].1) && final(self).ready()
                == old(self).ready().drop_first(),
            final(self).pending() == old(self).pending(),
            final(self).flush_bound() == old(self).flush_bound(),
            final(self).high_mark() == old(self).high_mark(),
            final(self).round_floor() == old(self).round_floor(),
            final(self).contract_kept() == old(self).contract_kept(),
    {
        match self.outgoing.pop_front() {
            Some(kv) => {
                proof {
                    assert(self.outgoing@ =~= old(self).outgoing@.drop_first());
                }
                Some(kv.1)
            }
            None => None,
        }
    }

    /// Insert an element. The round contract asks that `key` be at least as
    /// large as the largest key seen two `finish_round` calls ago; an
    /// insertion below that bound clears [`Sorter::contract_kept`], and the
    /// sorter then no longer promises sorted emission.
    pub fn insert_unordered(&mut self, key: u128, value: V)
        requires
            old(self).wf(),
        ensures
            final(self).wf(),
            final(self).pending() == old(self).pending().push((key, value)),
            final(self).ready() == old(self).ready(),
            final(self).flush_bound() == old(self).flush_bound(),
            final(self).round_floor() == old(self).round_floor(),
            final(self).high_mark() == if key > old(self).high_mark() {
                key
            } else {
                old(self).high_mark()
            },
            final(self).contract_kept() == (old(self).contract_kept() && key >= old(self).round_floor()),
    {
        if key <= self.prev_max {
            // Already covered by the flush bound; the running maximum cannot move.
        } else if key > self.cur_max {
            self.cur_max = key;
        }
        self.incoming.push((key, value));
        let ghost new_kept = self.kept@ && key >= self.floor@;
        self.kept = Ghost(new_kept);
    }

    /// Finish the current round. The values whose keys the round contract has
    /// pinned down — those at or below [`Sorter::flush_bound`] — move to the
    /// ready queue in sorted order; the rest stay pending.
    pub fn finish_round(&mut self)
        requires
            old(self).wf(),
        ensures
            final(self).wf(),
            final(self).ready().len() >= old(self).ready().len(),
            final(self).ready().take(old(self).ready().len() as int) == old(self).ready(),
            final(self).ready().skip(old(self).ready().len() as int).to_multiset().add(
                final(self).pending().to_multiset(),
            ) == old(self).pending().to_multiset(),
            keys_at_most(
                final(self).ready().skip(old(self).ready().len() as int),
                old(self).flush_bound(),
            ),
            forall|i: int|
                0 <= i < final(self).pending().len() ==> #[trigger] final(self).pending()[i].0 > old(
                    self,
                ).flush_bound(),
            forall|i: int|
                old(self).ready().len() <= i < final(self).ready().len() ==> old(
                    self,
                ).pending().to_multiset().count(#[trigger] final(self).ready()[i]) > 0,
            forall|i: int|
                0 <= i < final(self).pending().len() ==> old(self).pending().to_multiset().count(
                    #[trigger] final(self).pending()[i],
                ) > 0,
            final(self).flush_bound() == old(self).high_mark(),
            final(self).high_mark() == old(self).high_mark(),
            final(self).round_floor() == old(self).flush_bound(),
            final(self).contract_kept() == old(self).contract_kept(),
    {
        self.drain_up_to_bound(true);
        let ghost new_floor = self.prev_max;
        self.floor = Ghost(new_floor);
        self.prev_max = self.cur_max;
        proof {
            if self.kept@ {
                let n0 = old(self).outgoing@.len() as int;
                assert forall|i: int|
                    0 <= i < self.outgoing@.len() implies #[trigger] self.outgoing@[i].0
                    <= self.floor@ by {
                    if i < n0 {
                        assert(self.outgoing@[i] == old(self).outgoing@[i]);
                        assert(old(self).outgoing@[i].0 <= old(self).floor@);
                    } else {
                        assert(self.outgoing@.skip(n0)[i - n0] == self.outgoing@[i]);
                    }
                }
            }
        }
    }

    /// Finish all rounds and declare that no more values will be inserted
    /// after this call. Every pending value moves to the ready queue in
    /// sorted order.
    pub fn finish(&mut self)
        requires
            old(self).wf(),
        ensures
            final(self).wf(),
            final(self).ready().len() >= old(self).ready().len(),
            final(self).ready().take(old(self).ready().len() as int) == old(self).ready(),
            final(self).ready().skip(old(self).ready().len() as int).to_multiset() == old(
                self,
            ).pending().to_multiset(),
            final(self).pending() == Seq::<(u128, V)>::empty(),
            forall|i: int|
                old(self).ready().len() <= i < final(self).ready().len() ==> old(
                    self,
                ).pending().to_multiset().count(#[trigger] final(self).ready()[i]) > 0,
            final(self).flush_bound() == old(self).high_mark(),
            final(self).high_mark() == old(self).high_mark(),
            final(self).contract_kept() == old(self).contract_kept(),
    {
        broadcast use vstd::seq_lib::group_to_multiset_ensures;

        self.drain_up_to_bound(false);
        let ghost new_floor = self.cur_max;
        self.floor = Ghost(new_floor);
        self.prev_max = self.cur_max;
        proof {
            let n0 = old(self).outgoing@.len() as int;
            let batch_ms = self.outgoing@.skip(n0).to_multiset();
            assert(self.incoming@.to_multiset().len() == 0);
            assert(batch_ms.add(self.incoming@.to_multiset()) =~= batch_ms);
            if self.kept@ {
                let n0 = old(self).outgoing@.len() as int;
                assert forall|i: int|
                    0 <= i < self.outgoing@.len() implies #[trigger] self.outgoing@[i].0
                    <= self.floor@ by {
                    if i < n0 {
                        assert(self.outgoing@[i] == old(self).outgoing@[i]);
                        assert(old(self).outgoing@[i].0 <= old(self).floor@);
                    } else {
                        assert(self.outgoing@.skip(n0)[i - n0] == self.outgoing@[i]);
                    }
                }
            }
        }
    }

    /// Sorts the pending values and moves a prefix of them to the ready
    /// queue: the values with key at or below the flush bound when `bounded`
    /// is set, all of them otherwise.
    fn drain_up_to_bound(&mut self, bounded: bool)
        requires
            old(self).wf(),
        ensures
            final(self).ready().len() >= old(self).ready().len(),
            final(self).ready().take(old(self).ready().len() as int) == old(self).ready(),
            final(self).ready().skip(old(self).ready().len() as int).to_multiset().add(
                final(self).pending().to_multiset(),
            ) == old(self).pending().to_multiset(),
            bounded ==> keys_at_most(
                final(self).ready().skip(old(self).ready().len() as int),
                old(self).flush_bound(),
            ),
            bounded ==> forall|i: int|
                0 <= i < final(self).pending().len() ==> #[trigger] final(self).pending()[i].0 > old(
                    self,
                ).flush_bound(),
            !bounded ==> final(self).pending() == Seq::<(u128, V)>::empty(),
            keys_at_most(final(self).pending(), old(self).high_mark()),
            keys_at_most(final(self).ready().skip(old(self).ready().len() as int), old(self).high_mark()),
            old(self).contract_kept() ==> sorted_by_key(final(self).ready()),
            old(self).contract_kept() ==> keys_at_least(final(self).pending(), old(self).round_floor()),
            old(self).contract_kept() ==> keys_at_least(
                final(self).ready().skip(old(self).ready().len() as int),
                old(self).round_floor(),
            ),
            forall|i: int|
                old(self).ready().len() <= i < final(self).ready().len() ==> old(
                    self,
                ).pending().to_multiset().count(#[trigger] final(self).ready()[i]) > 0,
            forall|i: int|
                0 <= i < final(self).pending().len() ==> old(self).pending().to_multiset().count(
                    #[trigger] final(self).pending()[i],
                ) > 0,
            final(self).flush_bound() == old(self).flush_bound(),
            final(self).high_mark() == old(self).high_mark(),
            final(self).round_floor() == old(self).round_floor(),
            final(self).contract_kept() == old(self).contract_kept(),
    {
        broadcast use vstd::seq_lib::group_to_multiset_ensures;

        sort_pairs_by_key(&mut self.incoming);
        proof {
            lemma_key_bounds_transfer(
                old(self).incoming@,
                self.incoming@,
                if old(self).kept@ {
                    old(self).floor@
                } else {
                    0
                },
                old(self).cur_max,
            );
        }
        let ghost s = self.incoming@;
        let bound = self.prev_max;
        // The values to move form a prefix of the sorted pending values.
        let mut split: usize = self.incoming.len();
        if bounded {
            split = 0;
            while split < self.incoming.len()
                invariant
                    self.incoming@ == s,
                    split <= s.len(),
                    forall|j: int| 0 <= j < split ==> #[trigger] s[j].0 <= bound,
                ensures
                    self.incoming@ == s,
                    split <= s.len(),
                    forall|j: int| 0 <= j < split ==> #[trigger] s[j].0 <= bound,
                    split == s.len() || s[split as int].0 > bound,
                decreases s.len() - split,
            {
                if self.incoming[split].0 > bound {
                    break ;
                }
                split = split + 1;
            }
            proof {
                // Sortedness puts everything past the split above the bound.
                assert forall|j: int| split <= j < s.len() implies #[trigger] s[j].0 > bound by {
                    if split < s.len() {
                        assert(s[split as int].0 <= s[j].0);
                    }
                }
            }
        }
        let mut moved: usize = 0;
        while moved < split
            invariant
                moved <= split <= s.len(),
                self.incoming@ == s.skip(moved as int),
                self.outgoing@ == old(self).outgoing@ + s.take(moved as int),
                self.prev_max == old(self).prev_max,
                self.cur_max == old(self).cur_max,
                self.floor@ == old(self).floor@,
                self.kept@ == old(self).kept@,
            decreases split - moved,
        {
            let kv = self.incoming.remove(0);
            self.outgoing.push_back(kv);
            moved = moved + 1;
            proof {
                assert(self.incoming@ =~= s.skip(moved as int));
                assert(self.outgoing@ =~= old(self).outgoing@ + s.take(moved as int));
            }
        }
        proof {
            let batch = s.take(split as int);
            let rest = s.skip(split as int);
            let n0 = old(self).outgoing@.len() as int;
            assert(self.outgoing@.take(n0) =~= old(self).outgoing@);
            assert(self.outgoing@.skip(n0) =~= batch);
            assert(s =~= batch + rest);
            vstd::seq_lib::lemma_multiset_commutative(batch, rest);
            assert(batch.to_multiset().add(rest.to_multiset()) == s.to_multiset());
            assert forall|i: int|
                old(self).outgoing@.len() <= i < self.outgoing@.len() implies old(
                self,
            ).incoming@.to_multiset().count(#[trigger] self.outgoing@[i]) > 0 by {
                let x = self.outgoing@[i];
                assert(batch[i - n0] == x);
                assert(batch.contains(x));
                assert(batch.to_multiset().count(x) > 0);
                assert(s.to_multiset().count(x) > 0);
            }
            assert forall|i: int|
                0 <= i < self.incoming@.len() implies old(self).incoming@.to_multiset().count(
                #[trigger] self.incoming@[i],
            ) > 0 by {
                let x = self.incoming@[i];
                assert(rest[i] == x);
                assert(rest.contains(x));
                assert(rest.to_multiset().count(x) > 0);
                assert(s.to_multiset().count(x) > 0);
            }
            if old(self).kept@ {
                // The concatenation of the old ready queue and the new batch
                // is sorted: the old queue tops out at the round floor, and
                // every pending key is at or above it.
                assert forall|i: int, j: int|
                    0 <= i < j < self.outgoing@.len() implies #[trigger] self.outgoing@[i].0
                    <= #[trigger] self.outgoing@[j].0 by {
                    if i < n0 && j >= n0 {
                        assert(self.outgoing@[i] == old(self).outgoing@[i]);
                        assert(self.outgoing@[i].0 <= old(self).floor@);
                        assert(self.outgoing@[j] == batch[j - n0]);
                        assert(batch[j - n0].0 >= old(self).floor@);
                    } else if i >= n0 {
                        assert(self.outgoing@[i] == batch[i - n0]);
                        assert(self.outgoing@[j] == batch[j - n0]);
                        assert(s[i - n0].0 <= s[j - n0].0);
                    } else {
                        assert(self.outgoing@[i] == old(self).outgoing@[i]);
                        assert(self.outgoing@[j] == old(self).outgoing@[j]);
                    }
                }
            }
        }
    }
}

/// Sorts a vector of key-value pairs by key, in non-decreasing order,
/// preserving the multiset of pairs.
#[verifier::rlimit(100)]
fn sort_pairs_by_key<V>(v: &mut Vec<(u128, V)>)
    ensures
        sorted_by_key(final(v)@),
        final(v)@.to_multiset() == old(v)@.to_multiset(),
        final(v)@.len() == old(v)@.len(),
{
    broadcast use vstd::seq_lib::group_to_multiset_ensures, vstd::seq_lib::to_multiset_insert;

    if v.len() <= 1 {
        return ;
    }
    let mut i: usize = 1;
    while i < v.len()
        invariant
            1 <= i <= v@.len(),
            sorted_by_key(v@.take(i as int)),
            v@.to_multiset() == old(v)@.to_multiset(),
            v@.len() == old(v)@.len(),
        decreases v@.len() - i,
    {
        let ghost before = v@;
        let x = v.remove(i);
        let ghost prev = before.remove(i as int);
        proof {
            broadcast use vstd::seq_lib::group_to_multiset_ensures;

            assert(v@.take(i as int) =~= before.take(i as int));
            assert(x == before[i as int]);
            assert(before.remove(i as int).to_multiset() == before.to_multiset().remove(x));
            assert(before.contains(x));
            assert(before.to_multiset().count(x) > 0);
        }
        let mut j: usize = i;
        while j > 0
            invariant
                j <= i,
                i < v@.len() + 1,
                v@ == prev,
                forall|k: int| j <= k < i ==> #[trigger] prev[k].0 > x.0,
            ensures
                j <= i,
                v@ == prev,
                forall|k: int| j <= k < i ==> #[trigger] prev[k].0 > x.0,
                j == 0 || prev[j - 1].0 <= x.0,
            decreases j,
        {
            if v[j - 1].0 <= x.0 {
                break ;
            }
            j = j - 1;
        }
        proof {
            // Everything before the insertion point stays at or below `x`.
            assert forall|k: int| 0 <= k < j implies #[trigger] prev[k].0 <= x.0 by {
                assert(prev[k] == before.take(i as int)[k]);
                if k < j - 1 {
                    assert(before.take(i as int)[k].0 <= before.take(i as int)[j - 1].0);
                }
            }
        }
        v.insert(j, x);
        i = i + 1;
        proof {
            broadcast use vstd::seq_lib::group_to_multiset_ensures;

            assert(v@ =~= prev.insert(j as int, x));
            // The remove/insert pair leaves the multiset unchanged.
            assert(prev.insert(j as int, x).to_multiset() == prev.to_multiset().insert(x));
            assert(before.to_multiset().remove(x).insert(x) =~= before.to_multiset());
            assert forall|a: int, b: int|
                0 <= a < b < i implies #[trigger] v@.take(i as int)[a].0
                <= #[trigger] v@.take(i as int)[b].0 by {
                let ja = j as int;
                assert(v@.take(i as int)[a] == v@[a] && v@.take(i as int)[b] == v@[b]);
                if b < ja {
                    assert(v@[a] == prev[a] && v@[b] == prev[b]);
                    assert(prev[a] == before.take((i - 1) as int)[a]);
                    assert(prev[b] == before.take((i - 1) as int)[b]);
                } else if a > ja {
                    assert(v@[a] == prev[a - 1] && v@[b] == prev[b - 1]);
                    assert(prev[a - 1] == before.take((i - 1) as int)[a - 1]);
                    assert(prev[b - 1] == before.take((i - 1) as int)[b - 1]);
                } else if a == ja && b > ja {
                    assert(v@[a] == x && v@[b] == prev[b - 1]);
                } else if b == ja {
                    assert(v@[b] == x && v@[a] == prev[a]);
                } else {
                    // a < ja < b
                    assert(v@[a] == prev[a] && v@[b] == prev[b - 1]);
                }
            }
        }
    }
    proof {
        assert(v@.take(i as int) =~= v@);
    }
}

} // verus!
