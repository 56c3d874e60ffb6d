//! Advancing the service-bond ledger along the selected chain: how the in-memory vault recovers
//! when the chain moves to a new common ancestor, and the queue of service events that become
//! final (and are sealed into the service-state commitment) once they are finality-deep.

use vstd::prelude::*;
use crate::hash::{Hash32, lex_lt};

verus! {

/// How the in-memory vault is brought back to the common ancestor of the old and new chains.
#[derive(Debug, Clone, Copy, PartialEq, Eq, Structural)]
pub enum LedgerRecovery {
    /// The vault already stands at the common ancestor.
    InPlace,
    /// Walk the per-block undo log back from the old tip to the common ancestor, then restore
    /// the light snapshot taken there.
    UndoAndRestore { from_tip: u64 },
    /// Refold the vault from the chain.
    Refold,
}

/// The recovery for a vault at `tip` (`None` before the first fold) when the chains meet at
/// index `common`: none when the vault is there already; undo and restore when the old tip is
/// at or above `common`, a snapshot is kept at `common` and every block in `(common, tip]` has
/// an undo entry; a refold otherwise.
pub open spec fn spec_ledger_recovery(tip: Option<u64>, common: u64, snapshot_at_common: bool, undo_indices: Seq<u64>) -> LedgerRecovery {
    match tip {
        None => LedgerRecovery::Refold,
        Some(t) => if t == common {
            LedgerRecovery::InPlace
        } else if common <= t && snapshot_at_common && undo_covers(undo_indices, common, t) {
            LedgerRecovery::UndoAndRestore { from_tip: t }
        } else {
            LedgerRecovery::Refold
        },
    }
}

/// Whether every index in `(common, tip]` has an undo entry.
pub open spec fn undo_covers(undo_indices: Seq<u64>, common: u64, tip: u64) -> bool {
    forall|i: u64| common < i <= tip ==> #[trigger] undo_indices.contains(i)
}

/// The recovery never guesses: the vault stays in place exactly when it already stands at the
/// common ancestor; it is walked back only from an old tip at or above the ancestor, with a
/// snapshot kept at the ancestor and an undo entry for every block in between; in every other
/// case (no fold yet, a tip below the ancestor, a missing snapshot or undo entry) it is refolded.
pub proof fn lemma_ledger_recovery_law(tip: Option<u64>, common: u64, snapshot_at_common: bool, undo_indices: Seq<u64>)
    ensures
        ({
            let r = spec_ledger_recovery(tip, common, snapshot_at_common, undo_indices);
            &&& (r == LedgerRecovery::InPlace) <==> tip == Some(common)
            &&& r matches LedgerRecovery::UndoAndRestore { from_tip } ==> {
                &&& tip == Some(from_tip)
                &&& common < from_tip
                &&& snapshot_at_common
                &&& forall|i: u64| common < i <= from_tip ==> #[trigger] undo_indices.contains(i)
            }
            &&& tip is None ==> r == LedgerRecovery::Refold
            &&& (tip matches Some(t) && t < common) ==> r == LedgerRecovery::Refold
            &&& (tip matches Some(t) && t != common && !snapshot_at_common) ==> r == LedgerRecovery::Refold
            &&& tip matches Some(t) ==> (common < t && snapshot_at_common && (forall|i: u64|
                common < i <= t ==> #[trigger] undo_indices.contains(i)) ==> r == (LedgerRecovery::UndoAndRestore { from_tip: t }))
        }),
{
}

/// Whether `v` holds `x`.
fn contains_u64(v: &Vec<u64>, x: u64) -> (r: bool)
    ensures
        r == v@.contains(x),
{
    let mut i: usize = 0;
    while i < v.len()
        invariant
            i <= v@.len(),
            forall|j: int| 0 <= j < i ==> v@[j] != x,
        decreases v@.len() - i,
    {
        if v[i] == x {
            return true;
        }
        i = i + 1;
    }
    false
}

/// Decides how the vault recovers; `undo_indices` are the chain indices that have an undo entry.
pub fn ledger_recovery(tip: Option<u64>, common: u64, snapshot_at_common: bool, undo_indices: &Vec<u64>) -> (r: LedgerRecovery)
    ensures
        r == spec_ledger_recovery(tip, common, snapshot_at_common, undo_indices@),
{
    match tip {
        None => LedgerRecovery::Refold,
        Some(t) => {
            if t == common {
                return LedgerRecovery::InPlace;
            }
            if t < common || !snapshot_at_common {
                return LedgerRecovery::Refold;
            }
            let mut i: u64 = common;
            while i < t
                invariant
                    common <= i <= t,
                    tip == Some(t),
                    t != common,
                    snapshot_at_common,
                    forall|k: u64| common < k <= i ==> #[trigger] undo_indices@.contains(k),
                decreases t - i,
            {
                if !contains_u64(undo_indices, i + 1) {
                    assert(!undo_covers(undo_indices@, common, t)) by {
                        let k = (i + 1) as u64;
                        assert(common < k <= t);
                        assert(!undo_indices@.contains(k));
                    }
                    return LedgerRecovery::Refold;
                }
                i = i + 1;
            }
            LedgerRecovery::UndoAndRestore { from_tip: t }
        },
    }
}

/// The event daas at which the sealed commitment is sealed when events at `daas` (in chain
/// order) become final: one seal per run of equal daas, in order.
pub open spec fn seal_points(daas: Seq<u64>) -> Seq<u64>
    decreases daas.len(),
{
    if daas.len() == 0 {
        Seq::empty()
    } else if daas.len() == 1 {
        seq![daas[0]]
    } else if daas.last() == daas[daas.len() - 2] {
        seal_points(daas.drop_last())
    } else {
        seal_points(daas.drop_last()).push(daas.last())
    }
}

/// Service events waiting to become final: each with the chain index and daa of the block that
/// produced it, in chain order.
pub struct ServiceEventQueue<E> {
    entries: Vec<(u64, u64, E)>,
}

impl<E> ServiceEventQueue<E> {
    /// The queued events: (chain index, daa, event), front first.
    pub closed spec fn events(&self) -> Seq<(u64, u64, E)> {
        self.entries@
    }

    /// An empty queue.
    pub fn new() -> (r: Self)
        ensures
            r.events() == Seq::<(u64, u64, E)>::empty(),
    {
        ServiceEventQueue { entries: Vec::new() }
    }

    /// The number of queued events.
    pub fn len(&self) -> (r: usize)
        ensures
            r == self.events().len(),
    {
        self.entries.len()
    }

    /// Queues `event` of the block at chain index `idx` and daa `daa`.
    pub fn push(&mut self, idx: u64, daa: u64, event: E)
        ensures
            final(self).events() == old(self).events().push((idx, daa, event)),
    {
        self.entries.push((idx, daa, event));
    }

    /// Drops the events of blocks above chain index `common` (a reorg or restore dropped those
    /// blocks), keeping the others in order.
    pub fn retain_up_to(&mut self, common: u64)
        ensures
            final(self).events() == old(self).events().filter(|e: (u64, u64, E)| e.0 <= common),
    {
        let ghost pred = |e: (u64, u64, E)| e.0 <= common;
        let mut kept: Vec<(u64, u64, E)> = Vec::new();
        let mut rest: Vec<(u64, u64, E)> = Vec::new();
        std::mem::swap(&mut rest, &mut self.entries);
        let ghost all = rest@;
        let total = rest.len();
        assert(all.len() == total);
        let mut i: usize = 0;
        proof {
            reveal(Seq::filter);
            assert(all.take(0) =~= Seq::<(u64, u64, E)>::empty());
        }
        while rest.len() > 0
            invariant
                i <= all.len(),
                rest@ == all.skip(i as int),
                rest@.len() == all.len() - i,
                all.len() <= usize::MAX,
                kept@ == all.take(i as int).filter(pred),
                pred == (|e: (u64, u64, E)| e.0 <= common),
            decreases rest@.len(),
        {
            let e = rest.remove(0);
            proof {
                reveal(Seq::filter);
                assert(all.take(i + 1).drop_last() =~= all.take(i as int));
                assert(all.take(i + 1).last() == all[i as int]);
                assert(all.skip(i as int)[0] == all[i as int]);
                assert(all.skip(i as int).skip(1) =~= all.skip(i + 1));
                assert(rest@ =~= all.skip(i + 1));
            }
            if e.0 <= common {
                kept.push(e);
            }
            i = i + 1;
        }
        proof {
            assert(all.skip(i as int).len() == 0);
            assert(all.take(i as int) =~= all);
        }
        self.entries = kept;
    }

    /// Queues the events of one folded block (chain index `idx`, daa `daa`) in the order in which
    /// they must become final: sightings first, so that no burn of a claim is persisted before the
    /// sighting of its identity, then misses, resets and rewards.
    pub fn push_block_events(&mut self, idx: u64, daa: u64, sightings: Vec<E>, misses: Vec<E>, resets: Vec<E>, rewards: Vec<E>)
        ensures
            final(self).events() == old(self).events() + tagged(idx, daa, sightings@) + tagged(idx, daa, misses@)
                + tagged(idx, daa, resets@) + tagged(idx, daa, rewards@),
    {
        self.push_all(idx, daa, sightings);
        self.push_all(idx, daa, misses);
        self.push_all(idx, daa, resets);
        self.push_all(idx, daa, rewards);
    }

    fn push_all(&mut self, idx: u64, daa: u64, events: Vec<E>)
        ensures
            final(self).events() == old(self).events() + tagged(idx, daa, events@),
    {
        let ghost start = self.entries@;
        let ghost all = events@;
        let mut rest = events;
        let total = rest.len();
        let mut k: usize = 0;
        while rest.len() > 0
            invariant
                k <= all.len(),
                all.len() == total,
                rest@ == all.skip(k as int),
                self.entries@ == start + tagged(idx, daa, all.take(k as int)),
            decreases rest@.len(),
        {
            let e = rest.remove(0);
            proof {
                assert(all.skip(k as int)[0] == all[k as int]);
                assert(all.skip(k as int).skip(1) =~= all.skip(k + 1));
                assert(tagged(idx, daa, all.take(k + 1)) =~= tagged(idx, daa, all.take(k as int)).push((idx, daa, e)));
            }
            self.entries.push((idx, daa, e));
            k = k + 1;
            proof {
                assert(self.entries@ =~= start + tagged(idx, daa, all.take(k as int)));
            }
        }
        proof {
            assert(all.take(k as int) =~= all);
        }
    }

    /// Pops the events that are final at tip daa `tip_daa`: the longest front run whose daa lies
    /// at least `finality_depth` below it, in order, with the daas at which to seal the
    /// commitment (one per run of equal daas).
    pub fn pop_final(&mut self, finality_depth: u64, tip_daa: u64) -> (r: (Vec<(u64, E)>, Vec<u64>))
        ensures
            ({
                let n = r.0@.len() as int;
                &&& n <= old(self).events().len()
                &&& forall|k: int| 0 <= k < n ==> old(self).events()[k].1 + finality_depth <= tip_daa
                &&& n < old(self).events().len() ==> old(self).events()[n].1 + finality_depth > tip_daa
                &&& forall|k: int| 0 <= k < n ==> #[trigger] r.0@[k] == (old(self).events()[k].1, old(self).events()[k].2)
                &&& final(self).events() == old(self).events().skip(n)
                &&& r.1@ == seal_points(old(self).events().take(n).map_values(|e: (u64, u64, E)| e.1))
            }),
    {
        let ghost all = self.entries@;
        let mut out: Vec<(u64, E)> = Vec::new();
        let mut seals: Vec<u64> = Vec::new();
        let mut sealing: Option<u64> = None;
        proof {
            assert(all.take(0).map_values(|e: (u64, u64, E)| e.1) =~= Seq::<u64>::empty());
        }
        while self.entries.len() > 0 && self.entries[0].1 as u128 + finality_depth as u128 <= tip_daa as u128
            invariant
                out@.len() <= all.len(),
                self.entries@ == all.skip(out@.len() as int),
                forall|k: int| 0 <= k < out@.len() ==> all[k].1 + finality_depth <= tip_daa,
                forall|k: int| 0 <= k < out@.len() ==> #[trigger] out@[k] == (all[k].1, all[k].2),
                ({
                    let daas = all.take(out@.len() as int).map_values(|e: (u64, u64, E)| e.1);
                    &&& out@.len() == 0 ==> sealing is None && seals@.len() == 0
                    &&& out@.len() > 0 ==> sealing == Some(daas.last()) && seal_points(daas) == seals@.push(daas.last())
                }),
            decreases self.entries@.len(),
        {
            let ghost n = out@.len() as int;
            let (_, daa, event) = self.entries.remove(0);
            proof {
                assert(all.skip(n)[0] == all[n]);
                assert(all.skip(n).skip(1) =~= all.skip(n + 1));
            }
            let ghost prev_daas = all.take(n).map_values(|e: (u64, u64, E)| e.1);
            let ghost daas = all.take(n + 1).map_values(|e: (u64, u64, E)| e.1);
            proof {
                assert(daas.drop_last() =~= prev_daas);
                assert(daas.last() == daa);
                if n > 0 {
                    assert(daas[daas.len() - 2] == prev_daas.last());
                }
            }
            match sealing {
                Some(d) => {
                    if d != daa {
                        seals.push(d);
                    }
                },
                None => {},
            }
            sealing = Some(daa);
            out.push((daa, event));
            proof {
                assert(out@[n] == (all[n].1, all[n].2));
            }
        }
        match sealing {
            Some(d) => {
                seals.push(d);
            },
            None => {},
        }
        (out, seals)
    }
}

/// `events`, each tagged with the chain index and daa of the block that produced it.
pub open spec fn tagged<E>(idx: u64, daa: u64, events: Seq<E>) -> Seq<(u64, u64, E)> {
    Seq::new(events.len(), |i: int| (idx, daa, events[i]))
}

/// Where a refold of the ledger starts: at the persisted event frontier `cursor_daa`, or, when
/// nothing is persisted yet (a frontier of zero), one finality depth below the target's daa; and
/// the daa one burnable window below that start, above which every pending request and vault
/// claim must be folded again.
pub fn refold_start(cursor_daa: u64, to_daa: u64, finality_depth: u64, burnable_window: u64) -> (r: (u64, u64))
    ensures
        r.0 == (if cursor_daa > 0 {
            cursor_daa as int
        } else if to_daa >= finality_depth {
            to_daa - finality_depth
        } else {
            0
        }),
        r.1 == (if r.0 >= burnable_window {
            r.0 - burnable_window
        } else {
            0
        }),
{
    let start = if cursor_daa > 0 { cursor_daa } else { to_daa.saturating_sub(finality_depth) };
    (start, start.saturating_sub(burnable_window))
}

/// Sample `(i, h)` comes before sample `(j, g)`: by chain index, then by hash.
pub open spec fn sample_before(a: (u64, Hash32), b: (u64, Hash32)) -> bool {
    a.0 < b.0 || (a.0 == b.0 && lex_lt(a.1@, b.1@))
}

/// The sample is on the selected chain at or below chain index `to`.
pub open spec fn sample_within(sample: (Option<u64>, Hash32), to: u64) -> bool {
    sample.0 matches Some(i) && i <= to
}

/// Among the persisted ledger samples (each with its chain index, `None` when it is not on the
/// selected chain), the position of the latest one at or below chain index `to`, latest by index
/// and then by hash; `None` when there is none. A refold restores that sample and folds only above.
pub fn latest_sample_at_or_below(samples: &Vec<(Option<u64>, Hash32)>, to: u64) -> (r: Option<usize>)
    ensures
        r is None <==> forall|k: int| 0 <= k < samples@.len() ==> !sample_within(#[trigger] samples@[k], to),
        r matches Some(k) ==> {
            &&& k < samples@.len()
            &&& sample_within(samples@[k as int], to)
            &&& forall|j: int| #![trigger samples@[j]] 0 <= j < samples@.len() ==> sample_within(samples@[j], to)
                ==> !sample_before((samples@[k as int].0->0, samples@[k as int].1), (samples@[j].0->0, samples@[j].1))
        },
{
    let mut best: Option<usize> = None;
    let mut i: usize = 0;
    while i < samples.len()
        invariant
            i <= samples@.len(),
            best is None <==> forall|k: int| 0 <= k < i ==> !sample_within(#[trigger] samples@[k], to),
            best matches Some(b) ==> {
                &&& b < i
                &&& sample_within(samples@[b as int], to)
                &&& forall|j: int| #![trigger samples@[j]] 0 <= j < i ==> sample_within(samples@[j], to)
                    ==> !sample_before((samples@[b as int].0->0, samples@[b as int].1), (samples@[j].0->0, samples@[j].1))
            },
        decreases samples@.len() - i,
    {
        let (idx, h) = samples[i];
        match idx {
            Some(x) => {
                if x <= to {
                    match best {
                        None => {
                            proof {
                                crate::hash::lemma_lex_lt_irreflexive(h@);
                            }
                            best = Some(i);
                        },
                        Some(b) => {
                            let (bidx, bh) = samples[b];
                            let bx = bidx.unwrap();
                            if bx < x || (bx == x && bh.less_than(&h)) {
                                proof {
                                    crate::hash::lemma_lex_lt_irreflexive(h@);
                                    assert forall|j: int| #![trigger samples@[j]] 0 <= j < i && sample_within(samples@[j], to)
                                        implies !sample_before((x, h), (samples@[j].0->0, samples@[j].1)) by {
                                        let ij = samples@[j].0->0;
                                        if bx == x && ij == x && lex_lt(h@, samples@[j].1@) {
                                            crate::hash::lemma_lex_lt_transitive(bh@, h@, samples@[j].1@);
                                        }
                                    }
                                }
                                best = Some(i);
                            }
                        },
                    }
                }
            },
            None => {},
        }
        i = i + 1;
    }
    best
}

/// Whether a ledger sample is stale once the pruning point has blue score `pp_blue`: its blue
/// score (`None` when the header is gone) lies more than one finality depth below.
pub fn snapshot_stale(blue: Option<u64>, pp_blue: u64, finality_depth: u64) -> (r: bool)
    ensures
        r == (match blue {
            Some(b) => b + finality_depth < pp_blue,
            None => true,
        }),
{
    let floor = pp_blue.saturating_sub(finality_depth);
    match blue {
        Some(b) => b < floor,
        None => true,
    }
}

/// The service events of one chain block added to the selected chain: its daa, and its
/// sightings, misses, resets and rewards.
pub struct BlockEvents<E> {
    pub daa: u64,
    pub sightings: Vec<E>,
    pub misses: Vec<E>,
    pub resets: Vec<E>,
    pub rewards: Vec<E>,
}

/// The queue entries of block `b` at chain index `idx`, in the order they become final.
pub open spec fn block_entries<E>(idx: u64, b: BlockEvents<E>) -> Seq<(u64, u64, E)> {
    tagged(idx, b.daa, b.sightings@) + tagged(idx, b.daa, b.misses@) + tagged(idx, b.daa, b.resets@) + tagged(
        idx,
        b.daa,
        b.rewards@,
    )
}

/// The queue entries of the blocks a chain path adds above the common index `common`: the
/// `k`-th block at index `common + 1 + k`, in order.
pub open spec fn added_entries<E>(common: u64, blocks: Seq<BlockEvents<E>>) -> Seq<(u64, u64, E)>
    decreases blocks.len(),
{
    if blocks.len() == 0 {
        Seq::empty()
    } else {
        added_entries(common, blocks.drop_last()) + block_entries((common + blocks.len()) as u64, blocks.last())
    }
}

/// The largest daa among `popped`, and `cursor` when that is larger.
pub open spec fn cursor_after<E>(cursor: u64, popped: Seq<(u64, E)>) -> u64
    decreases popped.len(),
{
    if popped.len() == 0 {
        cursor
    } else {
        let c = cursor_after(cursor, popped.drop_last());
        if popped.last().0 > c {
            popped.last().0
        } else {
            c
        }
    }
}

/// Where the service ledger stands along the selected chain: the chain index of the block it was
/// last advanced to (`None` before the first advance), the persisted event frontier (the largest
/// daa whose events became final), and the events waiting for finality.
pub struct LedgerProgress<E> {
    tip: Option<u64>,
    deep_cursor_daa: u64,
    queue: ServiceEventQueue<E>,
}

impl<E> LedgerProgress<E> {
    pub closed spec fn tip(&self) -> Option<u64> {
        self.tip
    }

    pub closed spec fn deep_cursor(&self) -> u64 {
        self.deep_cursor_daa
    }

    pub closed spec fn events(&self) -> Seq<(u64, u64, E)> {
        self.queue.events()
    }

    /// A ledger that was never advanced.
    pub fn new() -> (r: Self)
        ensures
            r.tip() is None,
            r.deep_cursor() == 0,
            r.events() == Seq::<(u64, u64, E)>::empty(),
    {
        LedgerProgress { tip: None, deep_cursor_daa: 0, queue: ServiceEventQueue::new() }
    }

    /// One advance of the ledger along a committed chain path ending at chain index `tip_idx`
    /// and adding the blocks `added` (so the old and new chains meet at
    /// `common = tip_idx - added.len()`). The queued events above `common` are dropped; the
    /// vault's recovery is decided (see [`ledger_recovery`]), and a refold replaces the queue by
    /// the events it re-derived (`refolded`); the added blocks' events are queued in chain order;
    /// then the events finality-deep at `tip_daa` become final, in order, with their seal points.
    /// The ledger then stands at `tip_idx`, and the frontier never moves down.
    pub fn advance(
        &mut self,
        tip_idx: u64,
        added: Vec<BlockEvents<E>>,
        snapshot_at_common: bool,
        undo_indices: &Vec<u64>,
        refolded: ServiceEventQueue<E>,
        finality_depth: u64,
        tip_daa: u64,
    ) -> (r: (LedgerRecovery, Vec<(u64, E)>, Vec<u64>))
        requires
            added@.len() <= tip_idx,
        ensures
            ({
                let common = (tip_idx - added@.len()) as u64;
                let base = if r.0 == LedgerRecovery::Refold {
                    refolded.events()
                } else {
                    old(self).events().filter(|e: (u64, u64, E)| e.0 <= common)
                };
                let q = base + added_entries(common, added@);
                let n = r.1@.len() as int;
                &&& r.0 == spec_ledger_recovery(old(self).tip(), common, snapshot_at_common, undo_indices@)
                &&& n <= q.len()
                &&& forall|k: int| 0 <= k < n ==> q[k].1 + finality_depth <= tip_daa
                &&& n < q.len() ==> q[n].1 + finality_depth > tip_daa
                &&& forall|k: int| 0 <= k < n ==> #[trigger] r.1@[k] == (q[k].1, q[k].2)
                &&& final(self).events() == q.skip(n)
                &&& r.2@ == seal_points(q.take(n).map_values(|e: (u64, u64, E)| e.1))
                &&& final(self).tip() == Some(tip_idx)
                &&& final(self).deep_cursor() == cursor_after(old(self).deep_cursor(), r.1@)
                &&& final(self).deep_cursor() >= old(self).deep_cursor()
            }),
    {
        let common = tip_idx - added.len() as u64;
        let ghost old_cursor = self.deep_cursor_daa;
        self.queue.retain_up_to(common);
        let recovery = ledger_recovery(self.tip, common, snapshot_at_common, undo_indices);
        if recovery == LedgerRecovery::Refold {
            self.queue = refolded;
        }
        let ghost base = self.queue.events();
        let ghost blocks = added@;
        let total = added.len();
        let mut rest = added;
        let mut k: usize = 0;
        proof {
            assert(blocks.take(0) =~= Seq::<BlockEvents<E>>::empty());
            assert(base + added_entries(common, blocks.take(0)) =~= base);
        }
        while rest.len() > 0
            invariant
                k <= blocks.len(),
                total == blocks.len(),
                common + total == tip_idx,
                rest@ == blocks.skip(k as int),
                self.deep_cursor_daa == old_cursor,
                self.queue.events() == base + added_entries(common, blocks.take(k as int)),
            decreases rest@.len(),
        {
            let b = rest.remove(0);
            proof {
                assert(blocks.skip(k as int)[0] == blocks[k as int]);
                assert(blocks.skip(k as int).skip(1) =~= blocks.skip(k + 1));
                assert(blocks.take(k + 1).drop_last() =~= blocks.take(k as int));
                assert(blocks.take(k + 1).last() == blocks[k as int]);
            }
            let ghost entries = block_entries((common + 1 + k) as u64, b);
            let idx = common + 1 + k as u64;
            let BlockEvents { daa, sightings, misses, resets, rewards } = b;
            self.queue.push_block_events(idx, daa, sightings, misses, resets, rewards);
            proof {
                assert(self.queue.events() =~= base + added_entries(common, blocks.take(k as int)) + entries);
                assert(added_entries(common, blocks.take(k + 1)) == added_entries(common, blocks.take(k as int)) + entries);
                assert(self.queue.events() =~= base + added_entries(common, blocks.take(k + 1)));
            }
            k = k + 1;
        }
        proof {
            assert(blocks.take(k as int) =~= blocks);
        }
        let (popped, seals) = self.queue.pop_final(finality_depth, tip_daa);
        let mut cursor = self.deep_cursor_daa;
        let ghost start = self.deep_cursor_daa;
        let mut i: usize = 0;
        while i < popped.len()
            invariant
                i <= popped@.len(),
                cursor == cursor_after(start, popped@.take(i as int)),
                cursor >= start,
            decreases popped@.len() - i,
        {
            proof {
                assert(popped@.take(i + 1).drop_last() =~= popped@.take(i as int));
                assert(popped@.take(i + 1).last() == popped@[i as int]);
            }
            if popped[i].0 > cursor {
                cursor = popped[i].0;
            }
            i = i + 1;
        }
        proof {
            assert(popped@.take(popped@.len() as int) =~= popped@);
        }
        self.deep_cursor_daa = cursor;
        self.tip = Some(tip_idx);
        (recovery, popped, seals)
    }
}

} // verus!
