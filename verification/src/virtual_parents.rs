//! Picking the virtual parents: which tips are considered, how the mergeset-size budget limits
//! the parents merged, and the search that measures how much a candidate would add to the
//! mergeset. The DAG itself is queried by the caller, who hands the answers in.

use vstd::prelude::*;
use crate::hash::Hash32;
use crate::ibd::{hash_views, contains_hash};
use rand::Rng;
use rand::seq::SliceRandom;

verus! {

broadcast use vstd::seq_lib::group_to_multiset_ensures;

/// `rand::Rng::gen_range` over `low..high` with the thread-local generator. The crate panics on
/// an empty range (excluded here) and returns a value of the range; which one is chance.
#[verifier::external_body]
fn random_index(low: usize, high: usize) -> (r: usize)
    requires
        low < high,
    ensures
        low <= r < high,
{
    rand::thread_rng().gen_range(low..high)
}

/// `rand::seq::SliceRandom::shuffle` on `v[from..]` with the thread-local generator: the crate
/// swaps elements of that range only, so the range is permuted and the prefix kept; which
/// permutation comes out is chance.
#[verifier::external_body]
fn shuffle_from(v: &mut Vec<Hash32>, from: usize)
    requires
        from <= old(v)@.len(),
    ensures
        final(v)@.len() == old(v)@.len(),
        final(v)@.take(from as int) == old(v)@.take(from as int),
        final(v)@.skip(from as int).to_multiset() == old(v)@.skip(from as int).to_multiset(),
{
    v[from..].shuffle(&mut rand::thread_rng());
}

/// `c` becomes `r` by reordering `c` without touching its first `keep` elements, then keeping the
/// first `n` of the result.
pub open spec fn reordered_prefix(c: Seq<Hash32>, r: Seq<Hash32>, keep: int, n: int) -> bool {
    exists|p: Seq<Hash32>|
        #![trigger p.to_multiset()]
        {
            &&& p.len() == c.len()
            &&& p.to_multiset() == c.to_multiset()
            &&& p.take(keep) == c.take(keep)
            &&& r == p.take(n)
        }
}

/// The candidates considered as virtual parents, given in descending blue-work order, with at
/// most `max_block_parents` parents per block: at most three times that many are considered.
/// When there are more, the first half-parent-count keep their place and the rest is a random
/// choice of the others; when there are fewer but more than that half, the rest is shuffled.
pub fn prepare_candidates(candidates: Vec<Hash32>, max_block_parents: usize) -> (r: Vec<Hash32>)
    requires
        max_block_parents * 3 <= usize::MAX,
    ensures
        ({
            let max_candidates = max_block_parents * 3;
            let half = max_block_parents / 2;
            let n = if candidates@.len() > max_candidates {
                max_candidates as int
            } else {
                candidates@.len() as int
            };
            &&& r@.len() == n
            &&& reordered_prefix(candidates@, r@, if half < candidates@.len() { half as int } else { candidates@.len() as int }, n)
        }),
{
    let ghost c = candidates@;
    let max_candidates = max_block_parents * 3;
    let half = max_block_parents / 2;
    let mut v = candidates;
    let len = v.len();
    if len > max_candidates {
        let mut i: usize = half;
        while i < max_candidates
            invariant
                half <= i <= max_candidates,
                max_candidates < len,
                half <= max_candidates,
                v@.len() == len,
                len == c.len(),
                v@.to_multiset() == c.to_multiset(),
                v@.take(half as int) == c.take(half as int),
            decreases max_candidates - i,
        {
            let j = random_index(i, len);
            let a = v[i];
            let b = v[j];
            let ghost before = v@;
            v.set(i, b);
            v.set(j, a);
            proof {
                assert(v@ == before.update(i as int, b).update(j as int, a));
                let mid = before.update(i as int, b);
                assert(mid.to_multiset() == before.to_multiset().insert(b).remove(a));
                assert(mid[j as int] == (if i == j { b } else { b }));
                assert(v@.to_multiset() == mid.to_multiset().insert(a).remove(mid[j as int]));
                assert(before.to_multiset().count(a) > 0) by {
                    assert(before.contains(a)) by {
                        assert(before[i as int] == a);
                    }
                }
                assert(v@.to_multiset() =~= before.to_multiset());
                assert(v@.take(half as int) =~= before.take(half as int));
            }
            i = i + 1;
        }
        let ghost p = v@;
        v.truncate(max_candidates);
        proof {
            assert(v@ == p.take(max_candidates as int));
            assert(half <= len);
            assert(p.to_multiset() == c.to_multiset());
            assert(reordered_prefix(c, v@, half as int, max_candidates as int));
        }
        v
    } else {
        if len > half {
            let ghost before = v@;
            shuffle_from(&mut v, half);
            proof {
                assert(before =~= before.take(half as int) + before.skip(half as int));
                assert(v@ =~= v@.take(half as int) + v@.skip(half as int));
                vstd::seq_lib::lemma_multiset_commutative(before.take(half as int), before.skip(half as int));
                vstd::seq_lib::lemma_multiset_commutative(v@.take(half as int), v@.skip(half as int));
                assert(v@.to_multiset() =~= c.to_multiset());
                assert(v@.take(len as int) =~= v@);
                let p = v@;
                assert(p.to_multiset() == c.to_multiset());
                assert(reordered_prefix(c, v@, half as int, len as int));
            }
        } else {
            proof {
                assert(v@.take(len as int) =~= v@);
                assert(v@.take(len as int) =~= c.take(len as int));
                assert(c.to_multiset() == c.to_multiset());
                assert(reordered_prefix(c, v@, len as int, len as int));
            }
        }
        v
    }
}


/// The elements of `s` at the positions that `keep` marks, in their order.
pub open spec fn select(s: Seq<Seq<u8>>, keep: Seq<bool>) -> Seq<Seq<u8>>
    decreases s.len(),
{
    if s.len() == 0 {
        Seq::empty()
    } else {
        let prev = select(s.drop_last(), keep);
        if keep[s.len() - 1] {
            prev.push(s.last())
        } else {
            prev
        }
    }
}

proof fn lemma_hash_views_push(v: Seq<Hash32>, h: Hash32)
    ensures
        hash_views(v.push(h)) == hash_views(v).push(h@),
{
    assert(hash_views(v.push(h)) =~= hash_views(v).push(h@));
}

/// The hashes of `v` at the positions that `keep` marks, in their order.
pub fn select_hashes(v: &Vec<Hash32>, keep: &Vec<bool>) -> (r: Vec<Hash32>)
    requires
        keep@.len() == v@.len(),
    ensures
        hash_views(r@) == select(hash_views(v@), keep@),
{
    let mut out: Vec<Hash32> = Vec::new();
    let mut i: usize = 0;
    while i < v.len()
        invariant
            i <= v@.len(),
            keep@.len() == v@.len(),
            hash_views(out@) == select(hash_views(v@).take(i as int), keep@),
        decreases v@.len() - i,
    {
        let ghost s = hash_views(v@).take(i as int + 1);
        proof {
            assert(s.drop_last() =~= hash_views(v@).take(i as int));
            assert(s.last() == v@[i as int]@);
        }
        if keep[i] {
            proof {
                lemma_hash_views_push(out@, v@[i as int]);
            }
            out.push(v[i]);
        }
        i = i + 1;
    }
    proof {
        assert(hash_views(v@).take(v@.len() as int) =~= hash_views(v@));
    }
    out
}

/// The hashes of `parents` that are not yet in `seen`, each once, in their order: what a
/// breadth-first walk enqueues from one block's parents.
pub open spec fn admitted(seen: Seq<Seq<u8>>, parents: Seq<Seq<u8>>) -> Seq<Seq<u8>>
    decreases parents.len(),
{
    if parents.len() == 0 {
        Seq::empty()
    } else {
        let prev = admitted(seen, parents.drop_last());
        let p = parents.last();
        if seen.contains(p) || prev.contains(p) {
            prev
        } else {
            prev.push(p)
        }
    }
}

proof fn lemma_concat_contains(a: Seq<Seq<u8>>, b: Seq<Seq<u8>>, x: Seq<u8>)
    ensures
        (a + b).contains(x) <==> (a.contains(x) || b.contains(x)),
{
    if (a + b).contains(x) {
        let k = choose|k: int| 0 <= k < (a + b).len() && (a + b)[k] == x;
        if k < a.len() {
            assert(a[k] == x);
        } else {
            assert(b[k - a.len()] == x);
        }
    }
    if a.contains(x) {
        let k = choose|k: int| 0 <= k < a.len() && a[k] == x;
        assert((a + b)[k] == x);
    }
    if b.contains(x) {
        let k = choose|k: int| 0 <= k < b.len() && b[k] == x;
        assert((a + b)[k + a.len()] == x);
    }
}

/// What adding a candidate parent would do to the virtual mergeset: it fits with this many
/// blocks, or it would exceed the budget, and the block at which the walk stopped is proposed as a
/// candidate in its place.
#[derive(Debug, Clone, Copy)]
pub enum MergesetIncrease {
    Accepted { increase_size: u64 },
    Rejected { new_candidate: Hash32 },
}

/// The breadth-first walk over the past of a candidate that is not in the past of the parents
/// already chosen, counting the blocks it would add to the mergeset (the candidate included). The
/// caller answers, for the block at the front, whether it lies in the past of the chosen parents
/// and which parents it has.
pub struct MergesetIncreaseSearch {
    queue: Vec<Hash32>,
    head: usize,
    visited: Vec<Hash32>,
    increase: u64,
    budget: u64,
}

impl MergesetIncreaseSearch {
    /// The blocks still to visit, front first.
    pub closed spec fn pending(&self) -> Seq<Seq<u8>> {
        hash_views(self.queue@.skip(self.head as int))
    }

    /// The blocks ever enqueued.
    pub closed spec fn seen(&self) -> Seq<Seq<u8>> {
        hash_views(self.visited@)
    }

    /// The blocks counted so far, the candidate included.
    pub closed spec fn increase(&self) -> u64 {
        self.increase
    }

    /// How many blocks the mergeset may still grow by.
    pub closed spec fn budget(&self) -> u64 {
        self.budget
    }

    pub closed spec fn wf(&self) -> bool {
        &&& self.head <= self.queue@.len()
        &&& 1 <= self.increase
        &&& (self.increase <= self.budget || self.increase == 1)
    }

    /// Starts the walk at the candidate's parents, with the candidate itself counted.
    pub fn new(candidate_parents: Vec<Hash32>, budget: u64) -> (r: Self)
        ensures
            r.wf(),
            r.pending() == hash_views(candidate_parents@),
            r.seen() == hash_views(candidate_parents@),
            r.increase() == 1,
            r.budget() == budget,
    {
        let visited = candidate_parents.clone();
        let r = MergesetIncreaseSearch { queue: candidate_parents, head: 0, visited, increase: 1, budget };
        proof {
            assert(r.queue@.skip(0) =~= r.queue@);
        }
        r
    }

    /// The block the walk looks at next, if any is left.
    pub fn current(&self) -> (r: Option<Hash32>)
        requires
            self.wf(),
        ensures
            r is None <==> self.pending().len() == 0,
            r matches Some(h) ==> h@ == self.pending()[0],
    {
        if self.head < self.queue.len() {
            Some(self.queue[self.head])
        } else {
            None
        }
    }

    /// Takes the front block off the walk. A block in the past of the chosen parents adds nothing.
    /// Any other block counts; if the count would pass the budget the walk stops there and the
    /// block comes back as the new candidate, else its parents not seen before join the walk.
    pub fn visit(&mut self, in_selected_past: bool, parents: Vec<Hash32>) -> (r: Option<MergesetIncrease>)
        requires
            old(self).wf(),
            old(self).pending().len() > 0,
        ensures
            final(self).wf(),
            final(self).budget() == old(self).budget(),
            in_selected_past ==> {
                &&& r is None
                &&& final(self).pending() == old(self).pending().drop_first()
                &&& final(self).seen() == old(self).seen()
                &&& final(self).increase() == old(self).increase()
            },
            !in_selected_past && old(self).increase() >= old(self).budget() ==> {
                &&& r matches Some(MergesetIncrease::Rejected { new_candidate })
                &&& new_candidate@ == old(self).pending()[0]
                &&& final(self).pending() == old(self).pending().drop_first()
                &&& final(self).seen() == old(self).seen()
                &&& final(self).increase() == old(self).increase()
            },
            !in_selected_past && old(self).increase() < old(self).budget() ==> {
                &&& r is None
                &&& final(self).increase() == old(self).increase() + 1
                &&& final(self).pending() == old(self).pending().drop_first() + admitted(
                    old(self).seen(),
                    hash_views(parents@),
                )
                &&& final(self).seen() == old(self).seen() + admitted(old(self).seen(), hash_views(parents@))
            },
    {
        let ghost old_pending = self.pending();
        proof {
            assert(old_pending.len() == self.queue@.skip(self.head as int).len());
        }
        let qlen = self.queue.len();
        let current = self.queue[self.head];
        let ghost rest = self.queue@.skip(self.head as int + 1);
        proof {
            assert(rest =~= self.queue@.skip(self.head as int).drop_first());
            assert(hash_views(rest) =~= old_pending.drop_first());
            assert(old_pending[0] == current@);
        }
        self.head = self.head + 1;
        if in_selected_past {
            return None;
        }
        if self.increase >= self.budget {
            return Some(MergesetIncrease::Rejected { new_candidate: current });
        }
        self.increase = self.increase + 1;
        let ghost seen0 = hash_views(self.visited@);
        let ghost pv = hash_views(parents@);
        let ghost q0 = self.queue@;
        let ghost h = self.head;
        let ghost inc = self.increase;
        let ghost b = self.budget;
        let mut k: usize = 0;
        while k < parents.len()
            invariant
                k <= parents@.len(),
                pv == hash_views(parents@),
                self.head == h,
                self.increase == inc,
                self.budget == b,
                h <= q0.len(),
                self.queue@.len() >= q0.len(),
                self.queue@.take(q0.len() as int) == q0,
                hash_views(self.queue@.skip(q0.len() as int)) == admitted(seen0, pv.take(k as int)),
                hash_views(self.visited@) == seen0 + admitted(seen0, pv.take(k as int)),
            decreases parents@.len() - k,
        {
            let p = parents[k];
            let ghost t = pv.take(k as int + 1);
            let ghost prev = admitted(seen0, pv.take(k as int));
            proof {
                assert(t.drop_last() =~= pv.take(k as int));
                assert(t.last() == p@);
                lemma_concat_contains(seen0, prev, p@);
            }
            if !contains_hash(&self.visited, &p) {
                let ghost qb = self.queue@;
                let ghost vb = self.visited@;
                self.queue.push(p);
                self.visited.push(p);
                proof {
                    lemma_hash_views_push(vb, p);
                    assert(self.queue@.skip(q0.len() as int) =~= qb.skip(q0.len() as int).push(p));
                    lemma_hash_views_push(qb.skip(q0.len() as int), p);
                    assert(self.queue@.take(q0.len() as int) =~= qb.take(q0.len() as int));
                    assert(seen0 + prev.push(p@) =~= (seen0 + prev).push(p@));
                }
            }
            k = k + 1;
        }
        proof {
            assert(pv.take(parents@.len() as int) =~= pv);
            let q = self.queue@;
            assert(q.skip(self.head as int) =~= q0.skip(self.head as int) + q.skip(q0.len() as int)) by {
                assert(q =~= q.take(q0.len() as int) + q.skip(q0.len() as int));
            }
            assert(q0.skip(self.head as int) =~= rest);
            assert(hash_views(q.skip(self.head as int)) =~= hash_views(q0.skip(self.head as int)) + hash_views(q.skip(q0.len() as int)));
        }
        None
    }

    /// The walk has found no block past the budget: the candidate fits, with this many blocks.
    pub fn finish(&self) -> (r: MergesetIncrease)
        requires
            self.wf(),
            self.pending().len() == 0,
        ensures
            r == (MergesetIncrease::Accepted { increase_size: self.increase() }),
            self.increase() <= self.budget() || self.increase() == 1,
    {
        MergesetIncrease::Accepted { increase_size: self.increase }
    }
}

/// `flags` with every entry negated.
pub open spec fn negated(flags: Seq<bool>) -> Seq<bool> {
    Seq::new(flags.len(), |i: int| !flags[i])
}

fn negate(flags: &Vec<bool>) -> (r: Vec<bool>)
    ensures
        r@ == negated(flags@),
{
    let mut out: Vec<bool> = Vec::new();
    let mut i: usize = 0;
    while i < flags.len()
        invariant
            i <= flags@.len(),
            out@ == negated(flags@).take(i as int),
        decreases flags@.len() - i,
    {
        out.push(!flags[i]);
        i = i + 1;
        proof {
            assert(out@ =~= negated(flags@).take(i as int));
        }
    }
    proof {
        assert(out@ =~= negated(flags@));
    }
    out
}

/// The reds of the virtual mergeset that break the bounded-merge rule: those outside the future of
/// the merge-depth root (`under_merge_depth_root[i]` false) that no kosherizing blue has in its past
/// (`kosherized[i]` false), in their order.
pub fn merge_bound_violators(reds: &Vec<Hash32>, under_merge_depth_root: &Vec<bool>, kosherized: &Vec<bool>) -> (r: Vec<Hash32>)
    requires
        under_merge_depth_root@.len() == reds@.len(),
        kosherized@.len() == reds@.len(),
    ensures
        hash_views(r@) == select(
            hash_views(reds@),
            Seq::new(reds@.len(), |i: int| !under_merge_depth_root@[i] && !kosherized@[i]),
        ),
{
    let mut keep: Vec<bool> = Vec::new();
    let mut i: usize = 0;
    while i < reds.len()
        invariant
            i <= reds@.len(),
            under_merge_depth_root@.len() == reds@.len(),
            kosherized@.len() == reds@.len(),
            keep@ == Seq::new(reds@.len(), |j: int| !under_merge_depth_root@[j] && !kosherized@[j]).take(i as int),
        decreases reds@.len() - i,
    {
        keep.push(!under_merge_depth_root[i] && !kosherized[i]);
        i = i + 1;
        proof {
            assert(keep@ =~= Seq::new(reds@.len(), |j: int| !under_merge_depth_root@[j] && !kosherized@[j]).take(i as int));
        }
    }
    proof {
        assert(keep@ =~= Seq::new(reds@.len(), |j: int| !under_merge_depth_root@[j] && !kosherized@[j]));
    }
    select_hashes(reds, &keep)
}

/// The virtual parents that remain once those whose past holds a violating red are dropped
/// (`merges_violator[i]` says whether parent `i` does), in their order.
pub fn drop_merge_breaking_parents(parents: &Vec<Hash32>, merges_violator: &Vec<bool>) -> (r: Vec<Hash32>)
    requires
        merges_violator@.len() == parents@.len(),
    ensures
        hash_views(r@) == select(hash_views(parents@), negated(merges_violator@)),
{
    let keep = negate(merges_violator);
    select_hashes(parents, &keep)
}

/// The choice of the virtual parents among the prepared candidates: the selected parent first,
/// then candidates in order while the mergeset stays within its size limit and the parents within
/// their count. For each candidate handed out, the caller measures its mergeset increase against
/// `budget` and reports whether it fit; a rejected candidate is replaced by the block at which
/// the measure stopped, unless a remaining candidate lies in that block's past.
pub struct VirtualParentsPick {
    candidates: Vec<Hash32>,
    head: usize,
    parents: Vec<Hash32>,
    current: Option<Hash32>,
    mergeset_size: u64,
    mergeset_size_limit: u64,
    max_block_parents: usize,
}

impl VirtualParentsPick {
    /// The candidates not yet handed out, front first.
    pub closed spec fn remaining(&self) -> Seq<Seq<u8>> {
        hash_views(self.candidates@.skip(self.head as int))
    }

    /// The parents chosen so far, the selected parent first.
    pub closed spec fn chosen(&self) -> Seq<Seq<u8>> {
        hash_views(self.parents@)
    }

    /// The candidate handed out and not yet answered for.
    pub closed spec fn examining(&self) -> Option<Seq<u8>> {
        match self.current {
            Some(h) => Some(h@),
            None => None,
        }
    }

    /// The size of the mergeset of the parents chosen so far.
    pub closed spec fn mergeset_size(&self) -> u64 {
        self.mergeset_size
    }

    pub closed spec fn limit(&self) -> u64 {
        self.mergeset_size_limit
    }

    pub closed spec fn max_parents(&self) -> usize {
        self.max_block_parents
    }

    /// No further parent can be taken.
    pub open spec fn full(&self) -> bool {
        self.mergeset_size() >= self.limit() || self.chosen().len() >= self.max_parents()
    }

    pub closed spec fn wf(&self) -> bool {
        &&& self.head <= self.candidates@.len()
        &&& 1 <= self.parents@.len() <= self.max_block_parents
        &&& 1 <= self.mergeset_size <= self.mergeset_size_limit
        &&& self.current is Some ==> self.mergeset_size < self.mergeset_size_limit && self.parents@.len() < self.max_block_parents
    }

    /// Starts with the selected parent alone, whose mergeset is itself.
    pub fn new(selected_parent: Hash32, candidates: Vec<Hash32>, mergeset_size_limit: u64, max_block_parents: usize) -> (r: Self)
        requires
            mergeset_size_limit >= 1,
            max_block_parents >= 1,
        ensures
            r.wf(),
            r.remaining() == hash_views(candidates@),
            r.chosen() == seq![selected_parent@],
            r.examining() is None,
            r.mergeset_size() == 1,
            r.limit() == mergeset_size_limit,
            r.max_parents() == max_block_parents,
    {
        let parents = vec![selected_parent];
        let r = VirtualParentsPick {
            candidates,
            head: 0,
            parents,
            current: None,
            mergeset_size: 1,
            mergeset_size_limit,
            max_block_parents,
        };
        proof {
            assert(r.candidates@.skip(0) =~= r.candidates@);
            assert(hash_views(r.parents@) =~= seq![selected_parent@]);
        }
        r
    }

    /// Takes the next candidate off the list. It is handed out unless the list is empty or no
    /// further parent can be taken; then the choice is over.
    pub fn next_candidate(&mut self) -> (r: Option<Hash32>)
        requires
            old(self).wf(),
        ensures
            final(self).wf(),
            final(self).chosen() == old(self).chosen(),
            final(self).mergeset_size() == old(self).mergeset_size(),
            final(self).limit() == old(self).limit(),
            final(self).max_parents() == old(self).max_parents(),
            old(self).remaining().len() == 0 ==> r is None && final(self).examining() is None
                && final(self).remaining() == old(self).remaining(),
            old(self).remaining().len() > 0 ==> final(self).remaining() == old(self).remaining().drop_first(),
            old(self).remaining().len() > 0 && old(self).full() ==> r is None && final(self).examining() is None,
            old(self).remaining().len() > 0 && !old(self).full() ==> {
                &&& r matches Some(h) && h@ == old(self).remaining()[0]
                &&& final(self).examining() == Some(old(self).remaining()[0])
            },
    {
        let ghost old_remaining = self.remaining();
        proof {
            assert(old_remaining.len() == self.candidates@.skip(self.head as int).len());
        }
        let n = self.candidates.len();
        if self.head >= n {
            self.current = None;
            return None;
        }
        let c = self.candidates[self.head];
        proof {
            assert(self.candidates@.skip(self.head as int + 1) =~= self.candidates@.skip(self.head as int).drop_first());
            assert(hash_views(self.candidates@.skip(self.head as int + 1)) =~= old_remaining.drop_first());
            assert(old_remaining[0] == c@);
        }
        self.head = self.head + 1;
        if self.mergeset_size >= self.mergeset_size_limit || self.parents.len() >= self.max_block_parents {
            self.current = None;
            return None;
        }
        self.current = Some(c);
        Some(c)
    }

    /// How many blocks the mergeset may still grow by while the candidate handed out is measured.
    pub fn budget(&self) -> (r: u64)
        requires
            self.wf(),
            self.examining() is Some,
        ensures
            r == self.limit() - self.mergeset_size(),
            r >= 1,
    {
        self.mergeset_size_limit - self.mergeset_size
    }

    /// The candidate handed out fits, growing the mergeset by `increase_size`: it becomes a parent.
    pub fn on_accepted(&mut self, increase_size: u64)
        requires
            old(self).wf(),
            old(self).examining() is Some,
            increase_size <= old(self).limit() - old(self).mergeset_size(),
        ensures
            final(self).wf(),
            final(self).chosen() == old(self).chosen().push(old(self).examining()->0),
            final(self).mergeset_size() == old(self).mergeset_size() + increase_size,
            final(self).remaining() == old(self).remaining(),
            final(self).examining() is None,
            final(self).limit() == old(self).limit(),
            final(self).max_parents() == old(self).max_parents(),
    {
        let c = self.current.unwrap();
        let ghost before = self.parents@;
        self.parents.push(c);
        self.mergeset_size = self.mergeset_size + increase_size;
        self.current = None;
        proof {
            lemma_hash_views_push(before, c);
        }
    }

    /// The candidate handed out would pass the budget; the measure stopped at `new_candidate`.
    /// When `covered` (a remaining candidate is in its past) nothing more happens. Otherwise the
    /// remaining candidates in its future (`in_future[i]`) are dropped and it joins the list last.
    pub fn on_rejected(&mut self, new_candidate: Hash32, covered: bool, in_future: &Vec<bool>)
        requires
            old(self).wf(),
            old(self).examining() is Some,
            in_future@.len() == old(self).remaining().len(),
        ensures
            final(self).wf(),
            final(self).chosen() == old(self).chosen(),
            final(self).mergeset_size() == old(self).mergeset_size(),
            final(self).examining() is None,
            final(self).limit() == old(self).limit(),
            final(self).max_parents() == old(self).max_parents(),
            covered ==> final(self).remaining() == old(self).remaining(),
            !covered ==> final(self).remaining() == select(old(self).remaining(), negated(in_future@)).push(
                new_candidate@,
            ),
    {
        self.current = None;
        if covered {
            return;
        }
        let mut rest: Vec<Hash32> = Vec::new();
        let mut i: usize = self.head;
        let n = self.candidates.len();
        while i < n
            invariant
                self.head <= i <= n,
                n == self.candidates@.len(),
                rest@ == self.candidates@.subrange(self.head as int, i as int),
            decreases n - i,
        {
            rest.push(self.candidates[i]);
            i = i + 1;
            proof {
                assert(rest@ =~= self.candidates@.subrange(self.head as int, i as int));
            }
        }
        proof {
            assert(rest@ =~= self.candidates@.skip(self.head as int));
        }
        let keep = negate(in_future);
        let mut next = select_hashes(&rest, &keep);
        let ghost kept = next@;
        next.push(new_candidate);
        proof {
            lemma_hash_views_push(kept, new_candidate);
            assert(next@.skip(0) =~= next@);
        }
        self.candidates = next;
        self.head = 0;
    }

    /// The parents chosen, the selected parent first.
    pub fn finish(self) -> (r: Vec<Hash32>)
        requires
            self.wf(),
        ensures
            hash_views(r@) == self.chosen(),
            1 <= r@.len() <= self.max_parents(),
            self.mergeset_size() <= self.limit(),
    {
        self.parents
    }
}

/// Whatever the DAG answers, the choice keeps the selected parent first, never takes more parents
/// than a block may have, and never lets the mergeset pass its size limit.
pub proof fn lemma_pick_within_limits(p: VirtualParentsPick)
    requires
        p.wf(),
    ensures
        1 <= p.chosen().len() <= p.max_parents(),
        1 <= p.mergeset_size() <= p.limit(),
        p.examining() is Some ==> !p.full(),
{
}

} // verus!
