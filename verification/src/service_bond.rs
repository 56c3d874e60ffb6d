//! Service-bond standing: first sightings and strike history per miner identity, the standing
//! rule evaluated at a lagged anchor, suspensions, and the helpers of the finality-deep flush.

use vstd::prelude::*;
use crate::hash::Hash32;
use crate::ai_rules::TxOutput;

verus! {

/// A strike-log row: (event daa, consecutive-miss count, last strike daa).
pub type StrikeRow = (u64, u32, u64);

/// Whether a row is a strike: a non-zero count, or an executed suspension (a zero count whose
/// last strike daa is its own event daa). A served reset carries a zero count and an older (or
/// zero) preserved daa.
pub open spec fn is_strike(row: StrikeRow) -> bool {
    row.1 > 0 || (row.2 > 0 && row.2 == row.0)
}

/// Number of strike rows of `id` in `rows`.
pub open spec fn count_strikes(rows: Seq<(Hash32, StrikeRow)>, id: Seq<u8>) -> nat
    decreases rows.len(),
{
    if rows.len() == 0 {
        0
    } else {
        count_strikes(rows.drop_last(), id) + if rows.last().0@ == id && is_strike(rows.last().1) {
            1nat
        } else {
            0nat
        }
    }
}

/// `pov - lag`, floored at zero.
pub open spec fn anchor_of(pov: u64, lag: u64) -> u64 {
    if pov >= lag {
        (pov - lag) as u64
    } else {
        0
    }
}

/// Mirror of the persisted standing state: first sightings and the strike-log rows of every
/// identity, in flush order.
pub struct StandingIndex {
    first_seen: Vec<(Hash32, u64)>,
    history: Vec<(Hash32, StrikeRow)>,
}

impl Default for StandingIndex {
    /// An empty index.
    fn default() -> (r: Self)
        ensures
            r.well_formed(),
            r.sightings().len() == 0,
            r.rows().len() == 0,
    {
        StandingIndex::new()
    }
}

impl StandingIndex {
    /// The first sightings: (identity, daa), one per identity.
    pub closed spec fn sightings(&self) -> Seq<(Hash32, u64)> {
        self.first_seen@
    }

    /// The strike-log rows: (identity, row), one per (identity, event daa).
    pub closed spec fn rows(&self) -> Seq<(Hash32, StrikeRow)> {
        self.history@
    }

    /// Identities are sighted once, and each identity has at most one row per event daa.
    pub open spec fn well_formed(&self) -> bool {
        &&& forall|i: int, j: int|
            0 <= i < self.sightings().len() && 0 <= j < self.sightings().len() && i != j
                ==> self.sightings()[i].0@ != self.sightings()[j].0@
        &&& forall|i: int, j: int|
            0 <= i < self.rows().len() && 0 <= j < self.rows().len() && i != j ==> !(self.rows()[i].0@
                == self.rows()[j].0@ && self.rows()[i].1.0 == self.rows()[j].1.0)
    }

    /// Whether `id` was sighted at or before `anchor`.
    pub open spec fn sighted_by(&self, id: Seq<u8>, anchor: u64) -> bool {
        exists|i: int| 0 <= i < self.sightings().len() && self.sightings()[i].0@ == id && self.sightings()[i].1 <= anchor
    }

    /// Whether row `i` is the latest row of `id` at or below `anchor`.
    pub open spec fn latest_row_at(&self, id: Seq<u8>, anchor: u64, i: int) -> bool {
        &&& 0 <= i < self.rows().len()
        &&& self.rows()[i].0@ == id
        &&& self.rows()[i].1.0 <= anchor
        &&& forall|j: int|
            0 <= j < self.rows().len() && self.rows()[j].0@ == id && self.rows()[j].1.0 <= anchor ==> self.rows()[j].1.0
                <= self.rows()[i].1.0
    }

    /// The standing rule: sighted at or before the lagged anchor and, before the v2 gate, no
    /// live strike count as of the anchor (the latest row there, if any, has a zero count).
    pub open spec fn spec_standing(&self, id: Seq<u8>, pov: u64, v2: bool, lag: u64) -> bool {
        let anchor = anchor_of(pov, lag);
        self.sighted_by(id, anchor) && (v2 || forall|i: int| self.latest_row_at(id, anchor, i) ==> self.rows()[i].1.1 == 0)
    }

    /// An empty index.
    pub fn new() -> (r: Self)
        ensures
            r.well_formed(),
            r.sightings().len() == 0,
            r.rows().len() == 0,
    {
        StandingIndex { first_seen: Vec::new(), history: Vec::new() }
    }

    /// Records a sighting of `id` at `daa`; false (and no change) if the identity was already
    /// sighted.
    pub fn record_sighting(&mut self, id: Hash32, daa: u64) -> (r: bool)
        requires
            old(self).well_formed(),
        ensures
            final(self).well_formed(),
            final(self).rows() == old(self).rows(),
            r == !(exists|i: int| 0 <= i < old(self).sightings().len() && old(self).sightings()[i].0@ == id@),
            r ==> final(self).sightings() == old(self).sightings().push((id, daa)),
            !r ==> final(self).sightings() == old(self).sightings(),
    {
        let mut i: usize = 0;
        while i < self.first_seen.len()
            invariant
                i <= self.first_seen@.len(),
                self.first_seen@ == old(self).first_seen@,
                self.history@ == old(self).history@,
                old(self).well_formed(),
                forall|j: int| 0 <= j < i ==> self.first_seen@[j].0@ != id@,
            decreases self.first_seen@.len() - i,
        {
            if self.first_seen[i].0.equals(&id) {
                assert(self.sightings()[i as int].0@ == id@);
                return false;
            }
            i = i + 1;
        }
        let ghost before = self.first_seen@;
        self.first_seen.push((id, daa));
        proof {
            assert(self.rows() =~= old(self).rows());
            assert forall|a: int, b: int|
                0 <= a < self.sightings().len() && 0 <= b < self.sightings().len() && a != b implies #[trigger] self.sightings()[a].0@
                != #[trigger] self.sightings()[b].0@ by {
                if a < before.len() && b < before.len() {
                    assert(old(self).sightings()[a] == self.sightings()[a]);
                    assert(old(self).sightings()[b] == self.sightings()[b]);
                } else if a < before.len() {
                    assert(before[a] == self.sightings()[a]);
                } else {
                    assert(before[b] == self.sightings()[b]);
                }
            }
        }
        true
    }

    /// Records the strike-log row `(daa, count, last_daa)` of `id`; false (and no change) if the
    /// identity already has a row at that daa.
    pub fn record_strike(&mut self, id: Hash32, daa: u64, count: u32, last_daa: u64) -> (r: bool)
        requires
            old(self).well_formed(),
        ensures
            final(self).well_formed(),
            final(self).sightings() == old(self).sightings(),
            r == !(exists|i: int|
                0 <= i < old(self).rows().len() && old(self).rows()[i].0@ == id@ && old(self).rows()[i].1.0 == daa),
            r ==> final(self).rows() == old(self).rows().push((id, (daa, count, last_daa))),
            !r ==> final(self).rows() == old(self).rows(),
    {
        let mut i: usize = 0;
        while i < self.history.len()
            invariant
                i <= self.history@.len(),
                self.first_seen@ == old(self).first_seen@,
                self.history@ == old(self).history@,
                old(self).well_formed(),
                forall|j: int| 0 <= j < i ==> !(self.history@[j].0@ == id@ && self.history@[j].1.0 == daa),
            decreases self.history@.len() - i,
        {
            if self.history[i].1.0 == daa && self.history[i].0.equals(&id) {
                assert(self.rows()[i as int].0@ == id@);
                return false;
            }
            i = i + 1;
        }
        let ghost before = self.history@;
        self.history.push((id, (daa, count, last_daa)));
        proof {
            assert(self.sightings() =~= old(self).sightings());
            assert forall|a: int, b: int|
                0 <= a < self.rows().len() && 0 <= b < self.rows().len() && a != b implies !(#[trigger] self.rows()[a].0@
                == #[trigger] self.rows()[b].0@ && self.rows()[a].1.0 == self.rows()[b].1.0) by {
                if a < before.len() && b < before.len() {
                    assert(old(self).rows()[a] == self.rows()[a]);
                    assert(old(self).rows()[b] == self.rows()[b]);
                } else if a < before.len() {
                    assert(before[a] == self.rows()[a]);
                } else {
                    assert(before[b] == self.rows()[b]);
                }
            }
        }
        true
    }

    /// Flushes final sightings in order (see [`flushed`]): an identity already sighted is skipped.
    pub fn record_sightings(&mut self, events: &Vec<(Hash32, u64)>)
        requires
            old(self).well_formed(),
        ensures
            final(self).well_formed(),
            final(self).rows() == old(self).rows(),
            final(self).sightings() == flushed(old(self).sightings(), events@, sighting_key()),
    {
        let ghost start = self.sightings();
        let mut i: usize = 0;
        while i < events.len()
            invariant
                i <= events@.len(),
                self.well_formed(),
                self.rows() == old(self).rows(),
                start == old(self).sightings(),
                self.sightings() == flushed(start, events@.take(i as int), sighting_key()),
            decreases events@.len() - i,
        {
            let (id, daa) = events[i];
            proof {
                assert(events@.take(i + 1).drop_last() =~= events@.take(i as int));
                assert(events@.take(i + 1).last() == events@[i as int]);
            }
            self.record_sighting(id, daa);
            i = i + 1;
        }
        proof {
            assert(events@.take(events@.len() as int) =~= events@);
        }
    }

    /// Flushes final strike-log rows in order (see [`flushed`]): a row whose identity already has
    /// a row at its event daa is skipped.
    pub fn record_strikes(&mut self, events: &Vec<(Hash32, StrikeRow)>)
        requires
            old(self).well_formed(),
        ensures
            final(self).well_formed(),
            final(self).sightings() == old(self).sightings(),
            final(self).rows() == flushed(old(self).rows(), events@, row_key()),
    {
        let ghost start = self.rows();
        let mut i: usize = 0;
        while i < events.len()
            invariant
                i <= events@.len(),
                self.well_formed(),
                self.sightings() == old(self).sightings(),
                start == old(self).rows(),
                self.rows() == flushed(start, events@.take(i as int), row_key()),
            decreases events@.len() - i,
        {
            let (id, row) = events[i];
            proof {
                assert(events@.take(i + 1).drop_last() =~= events@.take(i as int));
                assert(events@.take(i + 1).last() == events@[i as int]);
            }
            self.record_strike(id, row.0, row.1, row.2);
            i = i + 1;
        }
        proof {
            assert(events@.take(events@.len() as int) =~= events@);
        }
    }

    /// Strikes each identity has taken over the whole retained log, suspensions included:
    /// one `(identity, count)` per identity with at least one strike (the count truncated to
    /// 32 bits). The order is unspecified.
    pub fn lifetime_strikes(&self) -> (r: Vec<(Hash32, u32)>)
        requires
            self.well_formed(),
        ensures
            forall|k: int|
                0 <= k < r@.len() ==> r@[k].1 == count_strikes(self.rows(), r@[k].0@) as u32 && r@[k].1 > 0,
            forall|k: int, l: int| 0 <= k < r@.len() && 0 <= l < r@.len() && k != l ==> r@[k].0@ != r@[l].0@,
            forall|i: int|
                0 <= i < self.rows().len() && (count_strikes(self.rows(), self.rows()[i].0@) as u32) > 0 ==> exists|k: int|
                    0 <= k < r@.len() && r@[k].0@ == self.rows()[i].0@,
    {
        let mut r: Vec<(Hash32, u32)> = Vec::new();
        let n = self.history.len();
        let mut i: usize = 0;
        while i < n
            invariant
                n == self.history@.len(),
                i <= n,
                forall|k: int|
                    0 <= k < r@.len() ==> r@[k].1 == count_strikes(self.history@, r@[k].0@) as u32 && r@[k].1 > 0,
                forall|k: int, l: int| 0 <= k < r@.len() && 0 <= l < r@.len() && k != l ==> r@[k].0@ != r@[l].0@,
                forall|j: int|
                    0 <= j < i && (count_strikes(self.history@, self.history@[j].0@) as u32) > 0 ==> exists|k: int|
                        0 <= k < r@.len() && r@[k].0@ == self.history@[j].0@,
            decreases n - i,
        {
            let id = self.history[i].0;
            // Identities already counted are skipped.
            let mut seen = false;
            let mut k: usize = 0;
            while k < r.len()
                invariant
                    k <= r@.len(),
                    !seen ==> forall|m: int| 0 <= m < k ==> r@[m].0@ != id@,
                    seen ==> exists|m: int| 0 <= m < r@.len() && r@[m].0@ == id@,
                decreases r@.len() - k,
            {
                if r[k].0.equals(&id) {
                    seen = true;
                }
                k = k + 1;
            }
            if !seen {
                let c = Self::strikes_of(&self.history, &id);
                let c32 = c as u32;
                if c32 > 0 {
                    let ghost before = r@;
                    r.push((id, c32));
                    proof {
                        assert(r@[before.len() as int].0@ == id@);
                        assert forall|j: int|
                            0 <= j < i && (count_strikes(self.history@, self.history@[j].0@) as u32) > 0 implies exists|k2: int|
                            0 <= k2 < r@.len() && r@[k2].0@ == self.history@[j].0@ by {
                            let k2 = choose|k2: int| 0 <= k2 < before.len() && before[k2].0@ == self.history@[j].0@;
                            assert(r@[k2] == before[k2]);
                        }
                    }
                }
            }
            assert(self.history@[i as int].0@ == id@);
            i = i + 1;
        }
        r
    }

    fn strikes_of(rows: &Vec<(Hash32, StrikeRow)>, id: &Hash32) -> (c: usize)
        ensures
            c == count_strikes(rows@, id@),
    {
        let mut c: usize = 0;
        let mut i: usize = 0;
        while i < rows.len()
            invariant
                i <= rows@.len(),
                c == count_strikes(rows@.take(i as int), id@),
                c <= i,
            decreases rows@.len() - i,
        {
            assert(rows@.take(i + 1).drop_last() =~= rows@.take(i as int));
            let (rid, row) = &rows[i];
            if rid.equals(id) && (row.1 > 0 || (row.2 > 0 && row.2 == row.0)) {
                c = c + 1;
            }
            i = i + 1;
        }
        assert(rows@.take(rows@.len() as int) =~= rows@);
        c
    }

    /// Whether `id` is in standing at `pov`: sighted at or before the anchor `pov - lag` and,
    /// before the v2 gate (`v2` false), with no live strike count at that anchor. At and after
    /// the activation, standing is probation-only.
    pub fn standing(&self, id: &Hash32, pov: u64, v2: bool, lag: u64) -> (r: bool)
        requires
            self.well_formed(),
        ensures
            r == self.spec_standing(id@, pov, v2, lag),
    {
        let anchor = pov.saturating_sub(lag);
        let mut sighted = false;
        let mut i: usize = 0;
        while i < self.first_seen.len()
            invariant
                i <= self.first_seen@.len(),
                anchor == anchor_of(pov, lag),
                sighted == exists|j: int| 0 <= j < i && self.first_seen@[j].0@ == id@ && self.first_seen@[j].1 <= anchor,
            decreases self.first_seen@.len() - i,
        {
            if self.first_seen[i].0.equals(id) && self.first_seen[i].1 <= anchor {
                sighted = true;
            }
            i = i + 1;
        }
        if !sighted {
            return false;
        }
        proof {
            let w = choose|j: int| 0 <= j < i && self.first_seen@[j].0@ == id@ && self.first_seen@[j].1 <= anchor;
            assert(self.sightings()[w].0@ == id@);
        }
        if v2 {
            return true;
        }
        // The latest row at or below the anchor decides.
        let mut best: Option<usize> = None;
        let mut j: usize = 0;
        while j < self.history.len()
            invariant
                j <= self.history@.len(),
                self.well_formed(),
                anchor == anchor_of(pov, lag),
                self.sighted_by(id@, anchor),
                match best {
                    Some(b) => {
                        &&& b < j
                        &&& self.history@[b as int].0@ == id@
                        &&& self.history@[b as int].1.0 <= anchor
                        &&& forall|m: int|
                            0 <= m < j && self.history@[m].0@ == id@ && self.history@[m].1.0 <= anchor
                                ==> self.history@[m].1.0 <= self.history@[b as int].1.0
                    },
                    None => forall|m: int| 0 <= m < j ==> !(self.history@[m].0@ == id@ && self.history@[m].1.0 <= anchor),
                },
            decreases self.history@.len() - j,
        {
            let (rid, row) = &self.history[j];
            if row.0 <= anchor && rid.equals(id) {
                match best {
                    Some(b) => {
                        if self.history[b].1.0 < row.0 {
                            best = Some(j);
                        }
                    },
                    None => {
                        best = Some(j);
                    },
                }
            }
            j = j + 1;
        }
        match best {
            None => {
                proof {
                    assert forall|m: int| self.latest_row_at(id@, anchor, m) implies self.rows()[m].1.1 == 0 by {
                        assert(self.history@[m].0@ == id@);
                    }
                }
                true
            },
            Some(b) => {
                proof {
                    assert(self.latest_row_at(id@, anchor, b as int));
                    assert forall|m: int| self.latest_row_at(id@, anchor, m) implies m == b as int by {
                        assert(self.history@[m].1.0 == self.history@[b as int].1.0);
                    }
                }
                self.history[b].1.1 == 0
            },
        }
    }
}

/// Whether `s` holds an entry with key `x`.
pub open spec fn holds_key<T, K>(s: Seq<T>, key: spec_fn(T) -> K, x: K) -> bool {
    exists|i: int| 0 <= i < s.len() && key(s[i]) == x
}

/// No two entries of `s` share a key.
pub open spec fn keys_unique<T, K>(s: Seq<T>, key: spec_fn(T) -> K) -> bool {
    forall|i: int, j: int| 0 <= i < s.len() && 0 <= j < s.len() && i != j ==> key(s[i]) != key(s[j])
}

/// The mirror `s` after flushing the final events `events` in order: an event whose key is
/// already mirrored is skipped, any other is appended (see [`StandingIndex::record_sighting`],
/// keyed by identity, and [`StandingIndex::record_strike`], keyed by identity and event daa).
pub open spec fn flushed<T, K>(s: Seq<T>, events: Seq<T>, key: spec_fn(T) -> K) -> Seq<T>
    decreases events.len(),
{
    if events.len() == 0 {
        s
    } else {
        let p = flushed(s, events.drop_last(), key);
        if holds_key(p, key, key(events.last())) {
            p
        } else {
            p.push(events.last())
        }
    }
}

proof fn lemma_flushed_keeps_and_covers<T, K>(s: Seq<T>, events: Seq<T>, key: spec_fn(T) -> K)
    ensures
        s.len() <= flushed(s, events, key).len(),
        forall|i: int| 0 <= i < s.len() ==> #[trigger] flushed(s, events, key)[i] == s[i],
        forall|i: int| 0 <= i < events.len() ==> holds_key(flushed(s, events, key), key, key(#[trigger] events[i])),
        keys_unique(s, key) ==> keys_unique(flushed(s, events, key), key),
    decreases events.len(),
{
    if events.len() > 0 {
        let prev = events.drop_last();
        lemma_flushed_keeps_and_covers(s, prev, key);
        let p = flushed(s, prev, key);
        let f = flushed(s, events, key);
        let e = events.last();
        if !holds_key(p, key, key(e)) {
            assert(f == p.push(e));
            assert(f[p.len() as int] == e);
            assert forall|i: int| 0 <= i < events.len() implies holds_key(f, key, key(#[trigger] events[i])) by {
                if i < prev.len() {
                    assert(events[i] == prev[i]);
                    assert(holds_key(p, key, key(prev[i])));
                    let w = choose|w: int| 0 <= w < p.len() && key(p[w]) == key(prev[i]);
                    assert(f[w] == p[w]);
                } else {
                    assert(events[i] == e);
                }
            }
            if keys_unique(s, key) {
                assert forall|a: int, b: int| 0 <= a < f.len() && 0 <= b < f.len() && a != b implies key(f[a]) != key(f[b]) by {
                    if a < p.len() && b < p.len() {
                        assert(f[a] == p[a] && f[b] == p[b]);
                    } else if a < p.len() {
                        assert(f[a] == p[a] && f[b] == e);
                    } else {
                        assert(f[b] == p[b] && f[a] == e);
                    }
                }
            }
        } else {
            assert forall|i: int| 0 <= i < events.len() implies holds_key(f, key, key(#[trigger] events[i])) by {
                if i < prev.len() {
                    assert(events[i] == prev[i]);
                } else {
                    assert(events[i] == e);
                }
            }
        }
    }
}

proof fn lemma_flushed_noop<T, K>(s: Seq<T>, events: Seq<T>, key: spec_fn(T) -> K)
    requires
        forall|i: int| 0 <= i < events.len() ==> holds_key(s, key, key(#[trigger] events[i])),
    ensures
        flushed(s, events, key) == s,
    decreases events.len(),
{
    if events.len() > 0 {
        let prev = events.drop_last();
        assert forall|i: int| 0 <= i < prev.len() implies holds_key(s, key, key(#[trigger] prev[i])) by {
            assert(prev[i] == events[i]);
        }
        lemma_flushed_noop(s, prev, key);
        assert(holds_key(s, key, key(events[events.len() - 1])));
    }
}

/// Each row is flushed at most once: flushing final events into a mirror whose keys are unique
/// keeps them unique, every event's key ends up mirrored, what was mirrored stays, and flushing the
/// same events again (a refold re-deriving them) changes nothing.
pub proof fn lemma_flush_at_most_once<T, K>(s: Seq<T>, events: Seq<T>, key: spec_fn(T) -> K)
    requires
        keys_unique(s, key),
    ensures
        keys_unique(flushed(s, events, key), key),
        forall|i: int| 0 <= i < events.len() ==> holds_key(flushed(s, events, key), key, key(#[trigger] events[i])),
        forall|i: int| 0 <= i < s.len() ==> #[trigger] flushed(s, events, key)[i] == s[i],
        flushed(flushed(s, events, key), events, key) == flushed(s, events, key),
{
    lemma_flushed_keeps_and_covers(s, events, key);
    lemma_flushed_noop(flushed(s, events, key), events, key);
}

/// Sightings are keyed by identity.
pub open spec fn sighting_key() -> spec_fn((Hash32, u64)) -> Seq<u8> {
    |e: (Hash32, u64)| e.0@
}

/// Strike-log rows are keyed by identity and event daa.
pub open spec fn row_key() -> spec_fn((Hash32, StrikeRow)) -> (Seq<u8>, u64) {
    |e: (Hash32, StrikeRow)| (e.0@, e.1.0)
}

/// The standing mirror is flushed at most once per row: its sightings are unique by identity and
/// its rows by (identity, event daa), and flushing the same final sightings and rows a second time
/// (see [`StandingIndex::record_sightings`], [`StandingIndex::record_strikes`]) leaves it as the
/// first flush left it.
pub proof fn lemma_standing_flush_at_most_once(s: &StandingIndex, sightings: Seq<(Hash32, u64)>, rows: Seq<(Hash32, StrikeRow)>)
    requires
        s.well_formed(),
    ensures
        keys_unique(s.sightings(), sighting_key()),
        keys_unique(s.rows(), row_key()),
        flushed(flushed(s.sightings(), sightings, sighting_key()), sightings, sighting_key()) == flushed(
            s.sightings(),
            sightings,
            sighting_key(),
        ),
        flushed(flushed(s.rows(), rows, row_key()), rows, row_key()) == flushed(s.rows(), rows, row_key()),
{
    assert forall|i: int, j: int|
        0 <= i < s.sightings().len() && 0 <= j < s.sightings().len() && i != j implies (sighting_key())(s.sightings()[i])
        != (sighting_key())(s.sightings()[j]) by {}
    assert forall|i: int, j: int|
        0 <= i < s.rows().len() && 0 <= j < s.rows().len() && i != j implies (row_key())(s.rows()[i]) != (row_key())(
        s.rows()[j],
    ) by {}
    lemma_flush_at_most_once(s.sightings(), sightings, sighting_key());
    lemma_flush_at_most_once(s.rows(), rows, row_key());
}

/// The v2 gate only relaxes standing (an identity in standing before it is in standing after
/// it), and past the activation standing, once earned, is kept as the point of view advances.
pub proof fn lemma_standing_v2_relaxes_and_persists(s: &StandingIndex, id: Seq<u8>, pov: u64, later: u64, lag: u64)
    requires
        pov <= later,
    ensures
        s.spec_standing(id, pov, false, lag) ==> s.spec_standing(id, pov, true, lag),
        s.spec_standing(id, pov, true, lag) ==> s.spec_standing(id, later, true, lag),
{
    if s.spec_standing(id, pov, true, lag) {
        let i = choose|i: int|
            0 <= i < s.sightings().len() && s.sightings()[i].0@ == id && s.sightings()[i].1 <= anchor_of(pov, lag);
        assert(s.sightings()[i].1 <= anchor_of(later, lag));
    }
}

/// A sighting is recorded once: a second sighting of the same identity is refused and the
/// first daa stays the one on record.
pub proof fn lemma_sighting_recorded_once(before: Seq<(Hash32, u64)>, after: Seq<(Hash32, u64)>, id: Hash32, daa: u64)
    requires
        after == before.push((id, daa)),
    ensures
        exists|i: int| 0 <= i < after.len() && after[i].0@ == id@ && after[i].1 == daa,
{
    assert(after[before.len() as int].0@ == id@);
}

// ---------------------------------------------------------------------------------------------
// Escrow scripts

/// Script opcodes of the CSV escrow layout.
pub const OP_CHECK_SEQUENCE_VERIFY: u8 = 0xb1u8;
pub const OP_DATA_32: u8 = 0x20u8;
pub const OP_CHECK_SIG: u8 = 0xacu8;

/// The CSV pay-to-pubkey escrow layout: `<seq_len> <seq_len sequence bytes> OP_CSV OP_DATA_32
/// <32-byte key> OP_CHECKSIG`, the sequence being pushed by a direct data push of 1 to 8 bytes.
pub open spec fn is_csv_pay_to_pubkey(script: Seq<u8>) -> bool {
    &&& script.len() >= 1
    &&& 1 <= script[0] <= 8
    &&& script.len() == script[0] + 36
    &&& script[script[0] + 1] == OP_CHECK_SEQUENCE_VERIFY
    &&& script[script[0] + 2] == OP_DATA_32
    &&& script[script[0] + 35] == OP_CHECK_SIG
}

/// The CSV pay-to-pubkey escrow script locking `key` for the relative sequence `sequence`: the
/// sequence length, the sequence bytes, `OP_CHECKSEQUENCEVERIFY` (0xb1), `OP_DATA_32` (0x20), the
/// 32 key bytes and `OP_CHECKSIG` (0xac).
pub open spec fn csv_escrow_script(sequence: Seq<u8>, key: Seq<u8>) -> Seq<u8> {
    seq![sequence.len() as u8] + sequence + seq![0xb1u8, 0x20u8] + key + seq![0xacu8]
}

/// The escrow shape is exactly the CSV layout: every script built from a 1–8 byte sequence and a
/// 32-byte key is accepted, and every accepted script is such a build — its length byte is 1–8,
/// the timelock opcode `OP_CHECKSEQUENCEVERIFY` (0xb1) follows the sequence, `OP_DATA_32` (0x20)
/// follows it, and `OP_CHECKSIG` (0xac) ends the script after the 32 key bytes.
pub proof fn lemma_csv_escrow_layout(script: Seq<u8>, sequence: Seq<u8>, key: Seq<u8>)
    ensures
        1 <= sequence.len() <= 8 && key.len() == 32 ==> is_csv_pay_to_pubkey(csv_escrow_script(sequence, key)),
        is_csv_pay_to_pubkey(script) ==> {
            &&& 1 <= script[0] <= 8
            &&& script.len() == script[0] + 36
            &&& script[script[0] + 1] == 0xb1u8
            &&& script[script[0] + 2] == 0x20u8
            &&& script[script[0] + 35] == 0xacu8
            &&& script == csv_escrow_script(script.subrange(1, script[0] + 1), script.subrange(script[0] + 3, script[0] + 35))
        },
{
    if 1 <= sequence.len() <= 8 && key.len() == 32 {
        let t = csv_escrow_script(sequence, key);
        let n = sequence.len() as int;
        assert(t.len() == n + 36);
        assert(t[0] == n as u8);
        assert((n as u8) as int == n);
        assert(t[n + 1] == 0xb1u8);
        assert(t[n + 2] == 0x20u8);
        assert(t[n + 35] == 0xacu8);
    }
    if is_csv_pay_to_pubkey(script) {
        let n = script[0] as int;
        let rebuilt = csv_escrow_script(script.subrange(1, n + 1), script.subrange(n + 3, n + 35));
        assert(rebuilt.len() == script.len());
        assert forall|i: int| 0 <= i < script.len() implies rebuilt[i] == script[i] by {
            if i == 0 {
                assert(rebuilt[0] == (n as u8));
            } else if i <= n {
                assert(rebuilt[i] == script.subrange(1, n + 1)[i - 1]);
            } else if i == n + 1 || i == n + 2 {
            } else if i < n + 35 {
                assert(rebuilt[i] == script.subrange(n + 3, n + 35)[i - n - 3]);
            }
        }
        assert(rebuilt =~= script);
    }
}

/// Whether `script` has the CSV pay-to-pubkey escrow layout.
pub fn csv_pay_to_pubkey(script: &[u8]) -> (r: bool)
    ensures
        r == is_csv_pay_to_pubkey(script@),
{
    if script.len() < 1 {
        return false;
    }
    let seq_len = script[0] as usize;
    if seq_len < 1 || seq_len > 8 || script.len() != seq_len + 36 {
        return false;
    }
    script[seq_len + 1] == OP_CHECK_SEQUENCE_VERIFY && script[seq_len + 2] == OP_DATA_32 && script[seq_len + 35]
        == OP_CHECK_SIG
}

/// The escrow pubkey locked by a CSV escrow script, if the script is one.
pub fn csv_escrow_pubkey(script: &[u8]) -> (r: Option<[u8; 32]>)
    ensures
        is_csv_pay_to_pubkey(script@) ==> r is Some && r->Some_0@ == script@.subrange(
            script@[0] + 3,
            script@[0] + 35,
        ),
        !is_csv_pay_to_pubkey(script@) ==> r is None,
{
    if !csv_pay_to_pubkey(script) {
        return None;
    }
    let seq_len = script[0] as usize;
    let mut key = [0u8; 32];
    let mut i: usize = 0;
    while i < 32
        invariant
            i <= 32,
            seq_len + 36 == script@.len(),
            seq_len == script@[0],
            forall|j: int| 0 <= j < i ==> key@[j] == script@[seq_len + 3 + j],
        decreases 32 - i,
    {
        key[i] = script[seq_len + 3 + i];
        i = i + 1;
    }
    assert(key@ =~= script@.subrange(script@[0] + 3, script@[0] + 35));
    Some(key)
}

// ---------------------------------------------------------------------------------------------
// Chain-index search

/// `daa` is non-decreasing over the indices `[lo, hi]`.
pub open spec fn nondecreasing_on(daa: Seq<u64>, lo: int, hi: int) -> bool {
    forall|i: int, j: int| lo <= i <= j <= hi ==> daa[i] <= daa[j]
}

/// The highest index in `[lo, hi]` whose daa is at or below `bound`, or `lo` itself when there
/// is none (or when `lo >= hi`).
pub open spec fn is_index_at_or_below(daa: Seq<u64>, bound: u64, lo: int, hi: int, r: int) -> bool {
    if lo >= hi || daa[lo] > bound {
        r == lo
    } else {
        &&& lo <= r <= hi
        &&& daa[r] <= bound
        &&& (r < hi ==> daa[r + 1] > bound)
    }
}

/// Binary search over the chain indices `[lo, hi]` for the highest one whose daa (`daa[i]` is
/// the daa of chain index `i`) is at or below `bound`; `lo` when `lo >= hi` or when even `lo`
/// lies above the bound.
pub fn index_at_or_below_daa(daa: &Vec<u64>, bound: u64, lo: u64, hi: u64) -> (r: u64)
    requires
        lo <= hi ==> hi < daa@.len(),
        lo > hi ==> lo < daa@.len(),
        nondecreasing_on(daa@, lo as int, hi as int),
    ensures
        is_index_at_or_below(daa@, bound, lo as int, hi as int, r as int),
{
    let n = daa.len();
    if lo >= hi {
        return lo;
    }
    assert(lo as usize == lo);
    if daa[lo as usize] > bound {
        return lo;
    }
    let mut a = lo;
    let mut b = hi;
    while a < b
        invariant
            lo <= a <= b <= hi,
            hi < daa@.len(),
            daa@[a as int] <= bound,
            b < hi ==> daa@[b + 1] > bound,
            nondecreasing_on(daa@, lo as int, hi as int),
            n == daa@.len(),
        decreases b - a,
    {
        let mid = a + (b - a) / 2 + (b - a) % 2;
        assert(mid as usize == mid);
        if daa[mid as usize] <= bound {
            a = mid;
        } else {
            b = mid - 1;
        }
    }
    a
}

/// Highest chain index whose daa is at or below `bound_daa`, searched down to `floor_idx` only
/// (the service-ledger variant, unbounded by the ratio window).
pub fn service_chain_index_at_or_below_daa(daa: &Vec<u64>, bound_daa: u64, hi_idx: u64, floor_idx: u64) -> (r: u64)
    requires
        floor_idx <= hi_idx ==> hi_idx < daa@.len(),
        floor_idx > hi_idx ==> floor_idx < daa@.len(),
        nondecreasing_on(daa@, floor_idx as int, hi_idx as int),
    ensures
        is_index_at_or_below(daa@, bound_daa, floor_idx as int, hi_idx as int, r as int),
{
    index_at_or_below_daa(daa, bound_daa, floor_idx, hi_idx)
}

/// Highest chain index whose daa is at or below `bound_daa`, searched down to `hi_idx - window`
/// (but no lower than `floor_idx`) — the ratio-reward variant.
pub fn chain_index_at_or_below_daa(daa: &Vec<u64>, bound_daa: u64, hi_idx: u64, floor_idx: u64, window: u64) -> (r: u64)
    requires
        hi_idx < daa@.len(),
        floor_idx < daa@.len(),
        nondecreasing_on(daa@, floor_idx as int, hi_idx as int),
    ensures
        ({
            let lo = if anchor_of(hi_idx, window) >= floor_idx { anchor_of(hi_idx, window) } else { floor_idx };
            is_index_at_or_below(daa@, bound_daa, lo as int, hi_idx as int, r as int)
        }),
{
    let below = hi_idx.saturating_sub(window);
    let lo = if below >= floor_idx { below } else { floor_idx };
    index_at_or_below_daa(daa, bound_daa, lo, hi_idx)
}

/// On a non-decreasing daa sequence the search result is the highest qualifying index: every
/// index above it (up to `hi`) lies above the bound.
pub proof fn lemma_index_at_or_below_is_highest(daa: Seq<u64>, bound: u64, lo: int, hi: int, r: int, k: int)
    requires
        lo < hi,
        daa[lo] <= bound,
        nondecreasing_on(daa, lo, hi),
        is_index_at_or_below(daa, bound, lo, hi, r),
        r < k <= hi,
    ensures
        daa[k] > bound,
{
    assert(daa[r + 1] <= daa[k]);
}

// ---------------------------------------------------------------------------------------------
// Suspensions and finality bookkeeping

/// A suspension recorded with deadline `until` is in force at `daa` exactly in the window
/// `[until - suspension_daa, until)`.
pub open spec fn spec_suspended_at(until: u64, suspension_daa: u64, daa: u64) -> bool {
    anchor_of(until, suspension_daa) <= daa && daa < until
}

/// Whether a producer suspended until `until` is under suspension at `daa_score`.
pub fn suspension_in_force(until: u64, suspension_daa: u64, daa_score: u64) -> (r: bool)
    ensures
        r == spec_suspended_at(until, suspension_daa, daa_score),
{
    until.saturating_sub(suspension_daa) <= daa_score && daa_score < until
}

/// The suspension a strike-log row re-derives at boot: an executed suspension (zero count whose
/// last strike daa is its own event daa) ends at `last_daa + finality_depth + suspension_daa`.
pub fn suspension_deadline(event_daa: u64, count: u32, last_daa: u64, finality_depth: u64, suspension_daa: u64) -> (r: Option<u64>)
    requires
        last_daa + finality_depth + suspension_daa <= u64::MAX,
    ensures
        r == (if count == 0 && last_daa == event_daa {
            Some((last_daa + finality_depth + suspension_daa) as u64)
        } else {
            None
        }),
{
    if count == 0 && last_daa == event_daa {
        Some(last_daa + finality_depth + suspension_daa)
    } else {
        None
    }
}

/// The strike record a finality-deep miss persists: an executed suspension logs `{0, daa}`, any
/// other miss `{consecutive_misses, daa}`.
pub fn miss_strike_record(daa: u64, consecutive_misses: u32, suspends: bool) -> (r: (u32, u64))
    ensures
        r == (if suspends { (0u32, daa) } else { (consecutive_misses, daa) }),
{
    if suspends {
        (0, daa)
    } else {
        (consecutive_misses, daa)
    }
}

/// Whether a block with blue score `blue` whose selected parent has blue score `sp_blue` opens a
/// new finality epoch (the blocks a pruning point is chosen among).
pub fn opens_finality_epoch(sp_blue: u64, blue: u64, finality_depth: u64) -> (r: bool)
    requires
        finality_depth > 0,
    ensures
        r == (sp_blue / finality_depth < blue / finality_depth),
{
    sp_blue / finality_depth < blue / finality_depth
}

/// Misses already logged: (miner, request hash, strike count) with the daa of the fold that
/// logged it. A miss is logged once even when refolds replay it.
pub struct MissLog {
    entries: Vec<(Hash32, Hash32, u32, u64)>,
}

/// The key of a miss.
pub open spec fn miss_key(e: (Hash32, Hash32, u32)) -> (Seq<u8>, Seq<u8>, u32) {
    (e.0@, e.1@, e.2)
}

/// The key of a logged entry.
pub open spec fn entry_key(e: (Hash32, Hash32, u32, u64)) -> (Seq<u8>, Seq<u8>, u32) {
    (e.0@, e.1@, e.2)
}

/// Whether miss `k` of `misses` is the first occurrence of its key there.
pub open spec fn first_occurrence(misses: Seq<(Hash32, Hash32, u32)>, k: int) -> bool {
    forall|p: int| 0 <= p < k ==> miss_key(misses[p]) != miss_key(misses[k])
}

impl MissLog {
    /// The logged entries: (miner, request hash, strike count, daa).
    pub closed spec fn logged(&self) -> Seq<(Hash32, Hash32, u32, u64)> {
        self.entries@
    }

    /// The keys of the logged entries.
    pub open spec fn keys(&self) -> Seq<(Seq<u8>, Seq<u8>, u32)> {
        self.logged().map_values(|e: (Hash32, Hash32, u32, u64)| entry_key(e))
    }

    /// An empty log.
    pub fn new() -> (r: Self)
        ensures
            r.logged().len() == 0,
    {
        MissLog { entries: Vec::new() }
    }

    fn position(&self, miner: &Hash32, request: &Hash32, count: u32) -> (r: Option<usize>)
        ensures
            match r {
                Some(i) => i < self.logged().len() && self.keys()[i as int] == (miner@, request@, count),
                None => !self.keys().contains((miner@, request@, count)),
            },
    {
        let mut i: usize = 0;
        while i < self.entries.len()
            invariant
                i <= self.entries@.len(),
                forall|j: int| 0 <= j < i ==> self.keys()[j] != (miner@, request@, count),
            decreases self.entries@.len() - i,
        {
            let e = &self.entries[i];
            if e.2 == count && e.0.equals(miner) && e.1.equals(request) {
                return Some(i);
            }
            i = i + 1;
        }
        None
    }

    /// Records the misses `(miner, request hash, strike count)` of one fold at `daa` and returns
    /// the positions (in `misses`, ascending) of those not logged before — the ones to announce.
    /// A miss already logged keeps its entry with its daa refreshed.
    pub fn record(&mut self, daa: u64, misses: &Vec<(Hash32, Hash32, u32)>) -> (fresh: Vec<usize>)
        ensures
            forall|key: (Seq<u8>, Seq<u8>, u32)|
                final(self).keys().contains(key) <==> (old(self).keys().contains(key) || exists|k: int|
                    0 <= k < misses@.len() && miss_key(misses@[k]) == key),
            forall|k: int|
                0 <= k < misses@.len() ==> (#[trigger] fresh@.contains(k as usize) <==> (!old(self).keys().contains(
                    miss_key(misses@[k]),
                ) && first_occurrence(misses@, k))),
            forall|j: int| 0 <= j < fresh@.len() ==> fresh@[j] < misses@.len(),
            forall|i: int, j: int| 0 <= i < j < fresh@.len() ==> fresh@[i] < fresh@[j],
    {
        let mut fresh: Vec<usize> = Vec::new();
        let mut k: usize = 0;
        while k < misses.len()
            invariant
                k <= misses@.len(),
                forall|key: (Seq<u8>, Seq<u8>, u32)|
                    self.keys().contains(key) <==> (old(self).keys().contains(key) || exists|m: int|
                        0 <= m < k && miss_key(misses@[m]) == key),
                forall|m: int|
                    0 <= m < k ==> (#[trigger] fresh@.contains(m as usize) <==> (!old(self).keys().contains(miss_key(misses@[m]))
                        && first_occurrence(misses@, m))),
                forall|j: int| 0 <= j < fresh@.len() ==> fresh@[j] < k,
                forall|i: int, j: int| 0 <= i < j < fresh@.len() ==> fresh@[i] < fresh@[j],
            decreases misses@.len() - k,
        {
            let (miner, request, count) = misses[k];
            let ghost key = miss_key(misses@[k as int]);
            let ghost before = self.keys();
            match self.position(&miner, &request, count) {
                Some(i) => {
                    self.entries.set(i, (miner, request, count, daa));
                    assert(self.keys() =~= before);
                    assert(before[i as int] == key);
                    assert(before.contains(key));
                    assert(self.keys().contains(key));
                    assert(!(!old(self).keys().contains(key) && first_occurrence(misses@, k as int))) by {
                        if !old(self).keys().contains(key) {
                            assert(exists|m: int| 0 <= m < k && miss_key(misses@[m]) == key);
                            let m = choose|m: int| 0 <= m < k && miss_key(misses@[m]) == key;
                            assert(miss_key(misses@[m]) == miss_key(misses@[k as int]));
                        }
                    }
                    assert(!fresh@.contains(k));
                },
                None => {
                    self.entries.push((miner, request, count, daa));
                    assert(self.keys() =~= before.push(key));
                    assert(self.keys()[before.len() as int] == key);
                    assert(self.keys().contains(key));
                    assert(!old(self).keys().contains(key));
                    assert(first_occurrence(misses@, k as int)) by {
                        assert forall|p: int| 0 <= p < k implies miss_key(misses@[p]) != key by {
                            if miss_key(misses@[p]) == key {
                                assert(before.contains(key));
                            }
                        }
                    }
                    let ghost fresh_before = fresh@;
                    fresh.push(k);
                    assert forall|m: int| 0 <= m < k implies (#[trigger] fresh@.contains(m as usize) <==> fresh_before.contains(m as usize)) by {
                        if fresh@.contains(m as usize) {
                            let j = choose|j: int| 0 <= j < fresh@.len() && fresh@[j] == m as usize;
                            if j < fresh_before.len() {
                                assert(fresh_before[j] == m as usize);
                            }
                        }
                        if fresh_before.contains(m as usize) {
                            let j = choose|j: int| 0 <= j < fresh_before.len() && fresh_before[j] == m as usize;
                            assert(fresh@[j] == m as usize);
                        }
                    }
                    assert(fresh@[fresh_before.len() as int] == k);
                },
            }
            assert forall|key2: (Seq<u8>, Seq<u8>, u32)|
                self.keys().contains(key2) <==> (old(self).keys().contains(key2) || exists|m: int|
                    0 <= m < k + 1 && miss_key(misses@[m]) == key2) by {
                if self.keys().contains(key2) && key2 != key {
                    assert(before.contains(key2)) by {
                        let j = choose|j: int| 0 <= j < self.keys().len() && self.keys()[j] == key2;
                        assert(before[j] == key2);
                    }
                }
                if exists|m: int| 0 <= m < k + 1 && miss_key(misses@[m]) == key2 {
                    let m = choose|m: int| 0 <= m < k + 1 && miss_key(misses@[m]) == key2;
                    if m < k {
                        assert(before.contains(key2));
                        let j = choose|j: int| 0 <= j < before.len() && before[j] == key2;
                        assert(self.keys()[j] == key2);
                    } else {
                        assert(self.keys().contains(key));
                    }
                }
                if old(self).keys().contains(key2) {
                    assert(before.contains(key2));
                    let j = choose|j: int| 0 <= j < before.len() && before[j] == key2;
                    assert(self.keys()[j] == key2);
                }
            }
            k = k + 1;
        }
        fresh
    }

    /// Drops the entries a refold can no longer revisit: an entry at `daa` is kept while
    /// `daa + logged_span > tip_daa`. The kept entries stay in order.
    pub fn retain_recent(&mut self, logged_span: u64, tip_daa: u64)
        ensures
            final(self).logged() == old(self).logged().filter(
                |e: (Hash32, Hash32, u32, u64)| e.3 + logged_span > tip_daa,
            ),
    {
        let ghost pred = |e: (Hash32, Hash32, u32, u64)| e.3 + logged_span > tip_daa;
        let mut kept: Vec<(Hash32, Hash32, u32, u64)> = Vec::new();
        let mut i: usize = 0;
        proof {
            reveal(Seq::filter);
            assert(self.entries@.take(0) =~= Seq::<(Hash32, Hash32, u32, u64)>::empty());
        }
        while i < self.entries.len()
            invariant
                i <= self.entries@.len(),
                kept@ == self.entries@.take(i as int).filter(pred),
                pred == (|e: (Hash32, Hash32, u32, u64)| e.3 + logged_span > tip_daa),
            decreases self.entries@.len() - i,
        {
            let e = self.entries[i];
            proof {
                reveal(Seq::filter);
                assert(self.entries@.take(i + 1).drop_last() =~= self.entries@.take(i as int));
                assert(self.entries@.take(i + 1).last() == self.entries@[i as int]);
            }
            if e.3 as u128 + logged_span as u128 > tip_daa as u128 {
                kept.push(e);
            }
            i = i + 1;
        }
        proof {
            assert(self.entries@.take(i as int) =~= self.entries@);
        }
        self.entries = kept;
    }
}


// ---------------------------------------------------------------------------------------------
// Escrow claims of a chain block's coinbase

/// A paid mergeset blue of a chain block, as its own coinbase announces it: the producing miner,
/// its subsidy, and the escrow key it announces (if any).
#[derive(Debug, Clone, Copy)]
pub struct PaidBlue {
    pub miner: Hash32,
    pub subsidy: u64,
    pub escrow_pubkey: Option<[u8; 32]>,
}

/// An escrow claim created by a chain block's coinbase: the miner, the output index and its
/// value.
#[derive(Debug, Clone, Copy)]
pub struct EscrowClaim {
    pub miner: Hash32,
    pub index: u32,
    pub value: u64,
}

/// Whether `o` is a funded CSV escrow output locking `key`.
pub open spec fn locks_key(o: TxOutput, key: Seq<u8>) -> bool {
    &&& o.value > 0
    &&& is_csv_pay_to_pubkey(o.script@)
    &&& o.script@.subrange(o.script@[0] + 3, o.script@[0] + 35) == key
}

/// The first output at or after `from` that locks `key`.
pub open spec fn first_locking(outputs: Seq<TxOutput>, key: Seq<u8>, from: int) -> Option<int>
    decreases outputs.len() - from,
{
    if from < 0 || from >= outputs.len() {
        None
    } else if locks_key(outputs[from], key) {
        Some(from)
    } else {
        first_locking(outputs, key, from + 1)
    }
}

/// The escrow claims of the coinbase `outputs` for the paid blues `blues` (in mergeset order),
/// searching from output `cursor`: each blue with a subsidy and an announced key claims the next
/// output locking that key, and the search moves past it, so two blues of one miner pair with
/// their outputs in order. Blues without a subsidy, without a key, or whose key no later output
/// locks claim nothing.
pub open spec fn escrow_claims_from(blues: Seq<PaidBlue>, outputs: Seq<TxOutput>, cursor: int) -> Seq<(Seq<u8>, int, u64)>
    decreases blues.len(),
{
    if blues.len() == 0 {
        Seq::empty()
    } else {
        let b = blues[0];
        let rest = blues.drop_first();
        if b.subsidy == 0 || b.escrow_pubkey is None {
            escrow_claims_from(rest, outputs, cursor)
        } else {
            match first_locking(outputs, b.escrow_pubkey->0@, cursor) {
                None => escrow_claims_from(rest, outputs, cursor),
                Some(i) => seq![(b.miner@, i, outputs[i].value)] + escrow_claims_from(rest, outputs, i + 1),
            }
        }
    }
}

/// A claim as plain values: (miner, output index, value).
pub open spec fn claim_view(c: EscrowClaim) -> (Seq<u8>, int, u64) {
    (c.miner@, c.index as int, c.value)
}

/// The first output at or after `from` that locks `key`.
fn find_locking(outputs: &Vec<TxOutput>, key: &[u8; 32], from: usize) -> (r: Option<usize>)
    ensures
        match r {
            Some(i) => first_locking(outputs@, key@, from as int) == Some(i as int) && from <= i < outputs@.len(),
            None => first_locking(outputs@, key@, from as int) is None,
        },
    decreases outputs@.len() - from,
{
    let n = outputs.len();
    if from >= n {
        return None;
    }
    let o = &outputs[from];
    if o.value > 0 {
        match csv_escrow_pubkey(o.script.as_slice()) {
            Some(k) => {
                if Hash32::from_bytes(k).equals(&Hash32::from_bytes(*key)) {
                    return Some(from);
                }
            },
            None => {},
        }
    }
    find_locking(outputs, key, from + 1)
}

/// The escrow claims of a chain block's coinbase `outputs` for its paid blues (see
/// [`escrow_claims_from`], searched from the first output).
pub fn escrow_claims(blues: &Vec<PaidBlue>, outputs: &Vec<TxOutput>) -> (r: Vec<EscrowClaim>)
    requires
        outputs@.len() <= u32::MAX,
    ensures
        r@.map_values(|c: EscrowClaim| claim_view(c)) == escrow_claims_from(blues@, outputs@, 0),
{
    let mut claims: Vec<EscrowClaim> = Vec::new();
    let mut cursor: usize = 0;
    let mut k: usize = 0;
    assert(blues@.skip(0) =~= blues@);
    while k < blues.len()
        invariant
            k <= blues@.len(),
            outputs@.len() <= u32::MAX,
            cursor <= outputs@.len(),
            claims@.map_values(|c: EscrowClaim| claim_view(c)) + escrow_claims_from(blues@.skip(k as int), outputs@, cursor as int)
                == escrow_claims_from(blues@, outputs@, 0),
        decreases blues@.len() - k,
    {
        let b = blues[k];
        let ghost done = claims@.map_values(|c: EscrowClaim| claim_view(c));
        proof {
            assert(blues@.skip(k as int)[0] == b);
            assert(blues@.skip(k as int).drop_first() =~= blues@.skip(k + 1));
        }
        if b.subsidy != 0 {
            match b.escrow_pubkey {
                Some(key) => {
                    match find_locking(outputs, &key, cursor) {
                        Some(i) => {
                            let claim = EscrowClaim { miner: b.miner, index: i as u32, value: outputs[i].value };
                            claims.push(claim);
                            proof {
                                assert(claims@.map_values(|c: EscrowClaim| claim_view(c)) =~= done.push(claim_view(claim)));
                                assert(claim_view(claim) == (b.miner@, i as int, outputs@[i as int].value));
                                let tail = escrow_claims_from(blues@.skip(k + 1), outputs@, i + 1);
                                assert(done.push(claim_view(claim)) + tail =~= done + (seq![claim_view(claim)] + tail));
                            }
                            cursor = i + 1;
                        },
                        None => {},
                    }
                },
                None => {},
            }
        }
        k = k + 1;
    }
    proof {
        assert(escrow_claims_from(blues@.skip(k as int), outputs@, cursor as int) =~= Seq::<(Seq<u8>, int, u64)>::empty());
        assert(claims@.map_values(|c: EscrowClaim| claim_view(c)) + Seq::<(Seq<u8>, int, u64)>::empty() =~= claims@.map_values(
            |c: EscrowClaim| claim_view(c),
        ));
    }
    claims
}

/// A producer of a chain block as the eligibility window sees it: (miner identity, proven tier,
/// escrow key).
pub type Producer = (Hash32, u8, Hash32);

/// `ps`, each tagged with the daa of the chain block that merged it.
pub open spec fn tagged_producers(daa: u64, ps: Seq<Producer>) -> Seq<(u64, Hash32, u8, Hash32)> {
    Seq::new(ps.len(), |j: int| (daa, ps[j].0, ps[j].1, ps[j].2))
}

/// The producers of `blocks` (chain order, each with its daa), flattened in chain order.
pub open spec fn flat_producers(blocks: Seq<(u64, Vec<Producer>)>) -> Seq<(u64, Hash32, u8, Hash32)>
    decreases blocks.len(),
{
    if blocks.len() == 0 {
        Seq::empty()
    } else {
        flat_producers(blocks.drop_last()) + tagged_producers(blocks.last().0, blocks.last().1@)
    }
}

/// Where a walk down the chain from its last block stops: just above the highest block whose daa
/// is at or below `bound` (0 when every block is above it).
pub open spec fn window_start(daas: Seq<u64>, bound: u64) -> int
    decreases daas.len(),
{
    if daas.len() == 0 {
        0
    } else if daas.last() <= bound {
        daas.len() as int
    } else {
        window_start(daas.drop_last(), bound)
    }
}

/// The daas of `blocks`.
pub open spec fn block_daas(blocks: Seq<(u64, Vec<Producer>)>) -> Seq<u64> {
    blocks.map_values(|b: (u64, Vec<Producer>)| b.0)
}

/// The producers recorded with a ledger sample taken at daa `daa`: those of the retained chain
/// blocks (`blocks`, chain order, ending at the sample) whose daa lies within `window` of it, found
/// by walking down from the sample, returned in chain order with their block's daa.
pub fn recent_producers(blocks: &Vec<(u64, Vec<Producer>)>, daa: u64, window: u64) -> (r: Vec<(u64, Hash32, u8, Hash32)>)
    ensures
        r@ == flat_producers(blocks@.skip(window_start(block_daas(blocks@), if daa >= window { (daa - window) as u64 } else { 0 }))),
{
    let bound = daa.saturating_sub(window);
    let ghost daas = block_daas(blocks@);
    let n = blocks.len();
    let mut k: usize = n;
    proof {
        assert(daas.take(n as int) =~= daas);
    }
    while k > 0 && blocks[k - 1].0 > bound
        invariant
            k <= n,
            n == blocks@.len(),
            daas == block_daas(blocks@),
            window_start(daas, bound) == window_start(daas.take(k as int), bound),
        decreases k,
    {
        proof {
            assert(daas.take(k as int).drop_last() =~= daas.take(k - 1));
            assert(daas.take(k as int).last() == blocks@[k - 1].0);
        }
        k = k - 1;
    }
    proof {
        if k > 0 {
            assert(daas.take(k as int).last() == blocks@[k - 1].0);
        }
        assert(window_start(daas, bound) == k);
    }
    let mut out: Vec<(u64, Hash32, u8, Hash32)> = Vec::new();
    let mut i: usize = k;
    proof {
        assert(blocks@.subrange(k as int, k as int) =~= Seq::<(u64, Vec<Producer>)>::empty());
    }
    while i < n
        invariant
            k <= i <= n,
            n == blocks@.len(),
            out@ == flat_producers(blocks@.subrange(k as int, i as int)),
        decreases n - i,
    {
        let d = blocks[i].0;
        let ps = &blocks[i].1;
        let ghost base = out@;
        let mut j: usize = 0;
        while j < ps.len()
            invariant
                j <= ps@.len(),
                ps@ == blocks@[i as int].1@,
                out@ == base + tagged_producers(d, ps@.take(j as int)),
            decreases ps@.len() - j,
        {
            let p = ps[j];
            out.push((d, p.0, p.1, p.2));
            j = j + 1;
            proof {
                assert(out@ =~= base + tagged_producers(d, ps@.take(j as int)));
            }
        }
        proof {
            let sub = blocks@.subrange(k as int, i + 1);
            assert(sub.drop_last() =~= blocks@.subrange(k as int, i as int));
            assert(sub.last() == blocks@[i as int]);
            assert(ps@.take(ps@.len() as int) =~= ps@);
        }
        i = i + 1;
    }
    proof {
        assert(blocks@.subrange(k as int, n as int) =~= blocks@.skip(k as int));
    }
    out
}

/// The imported producers (each with its block's daa) inside the eligibility window
/// `(daa_bound, pp_daa]`, in order, without their daa.
pub open spec fn imported_in_window(imported: Seq<(u64, Hash32, u8, Hash32)>, daa_bound: u64, pp_daa: u64) -> Seq<Producer>
    decreases imported.len(),
{
    if imported.len() == 0 {
        Seq::empty()
    } else {
        let prev = imported_in_window(imported.drop_last(), daa_bound, pp_daa);
        let e = imported.last();
        if daa_bound < e.0 && e.0 <= pp_daa {
            prev.push((e.1, e.2, e.3))
        } else {
            prev
        }
    }
}

/// The producers recorded with the imported ledger snapshot that fall inside the eligibility
/// window `(daa_bound, pp_daa]`: the part of the window below the local pruning point.
pub fn imported_producers_in_window(imported: &Vec<(u64, Hash32, u8, Hash32)>, daa_bound: u64, pp_daa: u64) -> (r: Vec<Producer>)
    ensures
        r@ == imported_in_window(imported@, daa_bound, pp_daa),
{
    let mut out: Vec<Producer> = Vec::new();
    let mut i: usize = 0;
    while i < imported.len()
        invariant
            i <= imported@.len(),
            out@ == imported_in_window(imported@.take(i as int), daa_bound, pp_daa),
        decreases imported@.len() - i,
    {
        let e = imported[i];
        proof {
            assert(imported@.take(i + 1).drop_last() =~= imported@.take(i as int));
            assert(imported@.take(i + 1).last() == e);
        }
        if daa_bound < e.0 && e.0 <= pp_daa {
            out.push((e.1, e.2, e.3));
        }
        i = i + 1;
    }
    proof {
        assert(imported@.take(imported@.len() as int) =~= imported@);
    }
    out
}

/// Where the eligibility window of an audit starts: at `floor_in_retention` when the window stays
/// in retained history (`false`: nothing below it); otherwise, once the service ledger is active,
/// at the local pruning point (`own_pruning_point_index`, `None` when it is not on the chain) with
/// the part below it read from the imported snapshot (`true`); otherwise the cohort is empty.
pub fn eligibility_floor(floor_in_retention: Option<u64>, ledger_active: bool, own_pruning_point_index: Option<u64>) -> (r: Option<(u64, bool)>)
    ensures
        r == (match floor_in_retention {
            Some(i) => Some((i, false)),
            None => if ledger_active {
                match own_pruning_point_index {
                    Some(j) => Some((j, true)),
                    None => None,
                }
            } else {
                None
            },
        }),
{
    match floor_in_retention {
        Some(i) => Some((i, false)),
        None => {
            if ledger_active {
                match own_pruning_point_index {
                    Some(j) => Some((j, true)),
                    None => None,
                }
            } else {
                None
            }
        },
    }
}

/// The little-endian `u32` at `s[at..at + 4]`.
pub open spec fn le_u32_at(s: Seq<u8>, at: int) -> int {
    s[at] + 0x100 * s[at + 1] + 0x1_0000 * s[at + 2] + 0x100_0000 * s[at + 3]
}

/// The outpoint a burn-store key names: the transaction id in its first 32 bytes and the output
/// index, little-endian, in the next 4.
pub fn burn_key_outpoint(key: &[u8]) -> (r: ([u8; 32], u32))
    requires
        key@.len() >= 36,
    ensures
        r.0@ == key@.subrange(0, 32),
        r.1 == le_u32_at(key@, 32),
{
    let mut id = [0u8; 32];
    let mut i: usize = 0;
    while i < 32
        invariant
            i <= 32,
            key@.len() >= 36,
            forall|j: int| 0 <= j < i ==> id@[j] == key@[j],
        decreases 32 - i,
    {
        id[i] = key[i];
        i = i + 1;
    }
    let index = key[32] as u32 + 0x100 * (key[33] as u32) + 0x1_0000 * (key[34] as u32) + 0x100_0000 * (key[35] as u32);
    proof {
        assert(id@ =~= key@.subrange(0, 32));
    }
    (id, index)
}

/// A claim burned at `burn_daa` is unspendable at `pov_daa_score` once the burn is finality-deep
/// there (the sum saturating).
pub open spec fn spec_burn_binds(burn_daa: u64, finality_depth: u64, pov_daa_score: u64) -> bool {
    let deep_at = burn_daa + finality_depth;
    (if deep_at > u64::MAX {
        u64::MAX as int
    } else {
        deep_at
    }) < pov_daa_score
}

/// The positions of the inputs whose outpoint is a burned claim that binds at `pov_daa_score`;
/// `burn_daas[i]` is the burn daa of input `i`'s outpoint, `None` when it is not burned.
pub open spec fn burned_positions(burn_daas: Seq<Option<u64>>, finality_depth: u64, pov_daa_score: u64) -> Seq<usize>
    decreases burn_daas.len(),
{
    if burn_daas.len() == 0 {
        Seq::empty()
    } else {
        let prev = burned_positions(burn_daas.drop_last(), finality_depth, pov_daa_score);
        match burn_daas.last() {
            Some(d) => if spec_burn_binds(d, finality_depth, pov_daa_score) {
                prev.push((burn_daas.len() - 1) as usize)
            } else {
                prev
            },
            None => prev,
        }
    }
}

/// The inputs of a transaction that spend a finality-deep burned escrow claim, in input order. A
/// transaction with any is rejected, and all of them are reported so that the claiming miner can
/// drop exactly those.
pub fn burned_spends(burn_daas: &Vec<Option<u64>>, finality_depth: u64, pov_daa_score: u64) -> (r: Vec<usize>)
    ensures
        r@ == burned_positions(burn_daas@, finality_depth, pov_daa_score),
{
    let mut out: Vec<usize> = Vec::new();
    let mut i: usize = 0;
    while i < burn_daas.len()
        invariant
            i <= burn_daas@.len(),
            out@ == burned_positions(burn_daas@.take(i as int), finality_depth, pov_daa_score),
        decreases burn_daas@.len() - i,
    {
        proof {
            assert(burn_daas@.take(i + 1).drop_last() =~= burn_daas@.take(i as int));
            assert(burn_daas@.take(i + 1).last() == burn_daas@[i as int]);
        }
        match burn_daas[i] {
            Some(d) => {
                if d.saturating_add(finality_depth) < pov_daa_score {
                    out.push(i);
                }
            },
            None => {},
        }
        i = i + 1;
    }
    proof {
        assert(burn_daas@.take(burn_daas@.len() as int) =~= burn_daas@);
    }
    out
}

} // verus!
