//! Coin-age aggregates of the holder reward: per payout script, the mature balance `b_mat`,
//! the immature balance `b_imm` and the anchor-weighted immature balance `a_imm`. A coin is
//! mature at a point of view once its effective anchor daa is at or below `pov − W`.

use vstd::prelude::*;
use crate::hash::Hash32;

verus! {

/// A payout script: version and script bytes.
#[derive(Debug, Clone)]
pub struct ScriptPublicKey {
    pub version: u16,
    pub script: Vec<u8>,
}

impl View for ScriptPublicKey {
    type V = (u16, Seq<u8>);

    open spec fn view(&self) -> (u16, Seq<u8>) {
        (self.version, self.script@)
    }
}

impl ScriptPublicKey {
    /// Whether the two scripts are the same.
    pub fn equals(&self, other: &ScriptPublicKey) -> (r: bool)
        ensures
            r == (self@ == other@),
    {
        if self.version != other.version || self.script.len() != other.script.len() {
            return false;
        }
        let mut i: usize = 0;
        while i < self.script.len()
            invariant
                i <= self.script@.len(),
                self.script@.len() == other.script@.len(),
                forall|j: int| 0 <= j < i ==> self.script@[j] == other.script@[j],
            decreases self.script@.len() - i,
        {
            if self.script[i] != other.script[i] {
                return false;
            }
            i = i + 1;
        }
        assert(self.script@ =~= other.script@);
        true
    }
}

/// What the aggregates read of an unspent output.
#[derive(Debug, Clone)]
pub struct UtxoEntry {
    pub script_public_key: ScriptPublicKey,
    pub amount: u64,
    /// The coin's effective (inherited) anchor daa.
    pub effective_daa: u64,
}

/// A UTXO diff: the entries it adds and the entries it removes.
#[derive(Debug, Clone)]
pub struct UtxoDiff {
    pub add: Vec<UtxoEntry>,
    pub remove: Vec<UtxoEntry>,
}

/// Σ amount of the entries of `spk`.
pub open spec fn sum_amount(s: Seq<UtxoEntry>, spk: (u16, Seq<u8>)) -> int
    decreases s.len(),
{
    if s.len() == 0 {
        0
    } else {
        sum_amount(s.drop_last(), spk) + if s.last().script_public_key@ == spk {
            s.last().amount as int
        } else {
            0
        }
    }
}

/// Σ amount of the entries of `spk` that are mature at `mature_bound`.
pub open spec fn sum_mature(s: Seq<UtxoEntry>, spk: (u16, Seq<u8>), mature_bound: u64) -> int
    decreases s.len(),
{
    if s.len() == 0 {
        0
    } else {
        sum_mature(s.drop_last(), spk, mature_bound) + if s.last().script_public_key@ == spk && s.last().effective_daa
            <= mature_bound {
            s.last().amount as int
        } else {
            0
        }
    }
}

/// Σ amount of the entries of `spk` that are immature at `mature_bound`.
pub open spec fn sum_immature(s: Seq<UtxoEntry>, spk: (u16, Seq<u8>), mature_bound: u64) -> int
    decreases s.len(),
{
    if s.len() == 0 {
        0
    } else {
        sum_immature(s.drop_last(), spk, mature_bound) + if s.last().script_public_key@ == spk && s.last().effective_daa
            > mature_bound {
            s.last().amount as int
        } else {
            0
        }
    }
}

/// Σ amount · anchor of the entries of `spk` that are immature at `mature_bound`.
pub open spec fn sum_immature_weighted(s: Seq<UtxoEntry>, spk: (u16, Seq<u8>), mature_bound: u64) -> int
    decreases s.len(),
{
    if s.len() == 0 {
        0
    } else {
        sum_immature_weighted(s.drop_last(), spk, mature_bound) + if s.last().script_public_key@ == spk
            && s.last().effective_daa > mature_bound {
            s.last().amount * s.last().effective_daa
        } else {
            0
        }
    }
}

proof fn lemma_sums_monotone(s: Seq<UtxoEntry>, spk: (u16, Seq<u8>), mature_bound: u64, i: int)
    requires
        0 <= i <= s.len(),
    ensures
        0 <= sum_amount(s.take(i), spk) <= sum_amount(s, spk),
        0 <= sum_mature(s.take(i), spk, mature_bound) <= sum_mature(s, spk, mature_bound),
        0 <= sum_immature(s.take(i), spk, mature_bound) <= sum_immature(s, spk, mature_bound),
        0 <= sum_immature_weighted(s.take(i), spk, mature_bound) <= sum_immature_weighted(s, spk, mature_bound),
    decreases s.len(),
{
    if i == s.len() {
        assert(s.take(i) =~= s);
        if s.len() > 0 {
            lemma_sums_monotone(s.drop_last(), spk, mature_bound, s.len() - 1);
            assert(s.drop_last().take(s.len() - 1) =~= s.drop_last());
            assert(s.last().amount * s.last().effective_daa >= 0) by (nonlinear_arith);
        }
    } else {
        lemma_sums_monotone(s.drop_last(), spk, mature_bound, i);
        assert(s.drop_last().take(i) =~= s.take(i));
        lemma_sums_monotone(s.drop_last(), spk, mature_bound, s.len() - 1);
        assert(s.drop_last().take(s.len() - 1) =~= s.drop_last());
        assert(s.last().amount * s.last().effective_daa >= 0) by (nonlinear_arith);
    }
}

/// The mature and immature parts of a script's balance add up to its balance.
pub proof fn lemma_mature_plus_immature(s: Seq<UtxoEntry>, spk: (u16, Seq<u8>), mature_bound: u64)
    ensures
        sum_mature(s, spk, mature_bound) + sum_immature(s, spk, mature_bound) == sum_amount(s, spk),
    decreases s.len(),
{
    if s.len() > 0 {
        lemma_mature_plus_immature(s.drop_last(), spk, mature_bound);
    }
}

/// The largest `i128`.
pub open spec fn i128_max() -> int {
    0x7fff_ffff_ffff_ffff_ffff_ffff_ffff_ffff
}

/// Sums of `s` for `spk` (amount; mature, immature and weighted immature at `mature_bound`).
fn fold_entries(s: &Vec<UtxoEntry>, spk: &ScriptPublicKey, mature_bound: u64) -> (r: (i128, i128, i128, i128))
    requires
        sum_amount(s@, spk@) <= i128_max(),
        sum_immature_weighted(s@, spk@, mature_bound) <= i128_max(),
    ensures
        r.0 == sum_amount(s@, spk@),
        r.1 == sum_mature(s@, spk@, mature_bound),
        r.2 == sum_immature(s@, spk@, mature_bound),
        r.3 == sum_immature_weighted(s@, spk@, mature_bound),
{
    let mut bal: i128 = 0;
    let mut mat: i128 = 0;
    let mut imm: i128 = 0;
    let mut immw: i128 = 0;
    let mut i: usize = 0;
    while i < s.len()
        invariant
            i <= s@.len(),
            sum_amount(s@, spk@) <= i128_max(),
            sum_immature_weighted(s@, spk@, mature_bound) <= i128_max(),
            bal == sum_amount(s@.take(i as int), spk@),
            mat == sum_mature(s@.take(i as int), spk@, mature_bound),
            imm == sum_immature(s@.take(i as int), spk@, mature_bound),
            immw == sum_immature_weighted(s@.take(i as int), spk@, mature_bound),
        decreases s@.len() - i,
    {
        proof {
            assert(s@.take(i + 1).drop_last() =~= s@.take(i as int));
            lemma_sums_monotone(s@, spk@, mature_bound, i + 1);
            lemma_mature_plus_immature(s@.take(i + 1), spk@, mature_bound);
        }
        let e = &s[i];
        if e.script_public_key.equals(spk) {
            let amount = e.amount as i128;
            bal = bal + amount;
            if e.effective_daa <= mature_bound {
                mat = mat + amount;
            } else {
                imm = imm + amount;
                assert(s@.take(i + 1).last() == s@[i as int]);
                assert(sum_immature_weighted(s@.take(i + 1), spk@, mature_bound) == immw + e.amount
                    * e.effective_daa);
                proof {
                    lemma_sums_monotone(s@, spk@, mature_bound, i as int);
                }
                assert(amount * (e.effective_daa as i128) <= i128_max()) by (nonlinear_arith)
                    requires
                        amount == e.amount,
                        immw >= 0,
                        immw + e.amount * e.effective_daa <= i128_max(),
                ;
                let w = amount * (e.effective_daa as i128);
                immw = immw + w;
            }
        }
        i = i + 1;
    }
    assert(s@.take(s@.len() as int) =~= s@);
    (bal, mat, imm, immw)
}

/// The balance of `spk` a diff adds: Σ added − Σ removed.
pub open spec fn spec_balance_delta(diff: UtxoDiff, spk: (u16, Seq<u8>)) -> int {
    sum_amount(diff.add@, spk) - sum_amount(diff.remove@, spk)
}

/// The bucket deltas `(b_mat, b_imm, a_imm)` of `spk` that adding the entries `add` and
/// removing the entries `remove` make, every entry classified at `mature_bound`.
pub open spec fn age_delta_of(add: Seq<UtxoEntry>, remove: Seq<UtxoEntry>, spk: (u16, Seq<u8>), mature_bound: u64) -> (int, int, int) {
    (
        sum_mature(add, spk, mature_bound) - sum_mature(remove, spk, mature_bound),
        sum_immature(add, spk, mature_bound) - sum_immature(remove, spk, mature_bound),
        sum_immature_weighted(add, spk, mature_bound) - sum_immature_weighted(remove, spk, mature_bound),
    )
}

/// The bucket deltas `(b_mat, b_imm, a_imm)` of `spk` a diff makes, every entry classified at
/// `mature_bound`.
pub open spec fn spec_age_delta(diff: UtxoDiff, spk: (u16, Seq<u8>), mature_bound: u64) -> (int, int, int) {
    age_delta_of(diff.add@, diff.remove@, spk, mature_bound)
}

/// The entries of a diff fit the `i128` arithmetic of its deltas.
pub open spec fn diff_fits(diff: UtxoDiff, spk: (u16, Seq<u8>), mature_bound: u64) -> bool {
    &&& sum_amount(diff.add@, spk) <= i128_max()
    &&& sum_amount(diff.remove@, spk) <= i128_max()
    &&& sum_immature_weighted(diff.add@, spk, mature_bound) <= i128_max()
    &&& sum_immature_weighted(diff.remove@, spk, mature_bound) <= i128_max()
}

/// Net amount (added − removed) a UTXO diff attributes to `spk`.
pub fn balance_delta_for_spk(diff: &UtxoDiff, spk: &ScriptPublicKey) -> (r: i128)
    requires
        diff_fits(*diff, spk@, 0),
    ensures
        r == spec_balance_delta(*diff, spk@),
{
    let a = fold_entries(&diff.add, spk, 0);
    let b = fold_entries(&diff.remove, spk, 0);
    proof {
        lemma_sums_monotone(diff.add@, spk@, 0, 0);
        lemma_sums_monotone(diff.remove@, spk@, 0, 0);
    }
    a.0 - b.0
}

/// The coin-age view-diff correction of `spk`: the `(b_mat, b_imm, a_imm)` deltas with every
/// entry classified at the point-of-view split `mature_bound`.
pub fn age_delta_for_spk(diff: &UtxoDiff, spk: &ScriptPublicKey, mature_bound: u64) -> (r: (i128, i128, i128))
    requires
        diff_fits(*diff, spk@, mature_bound),
    ensures
        (r.0 as int, r.1 as int, r.2 as int) == spec_age_delta(*diff, spk@, mature_bound),
{
    let a = fold_entries(&diff.add, spk, mature_bound);
    let b = fold_entries(&diff.remove, spk, mature_bound);
    proof {
        lemma_sums_monotone(diff.add@, spk@, mature_bound, 0);
        lemma_sums_monotone(diff.remove@, spk@, mature_bound, 0);
        lemma_mature_plus_immature(diff.add@, spk@, mature_bound);
        lemma_mature_plus_immature(diff.remove@, spk@, mature_bound);
    }
    (a.1 - b.1, a.2 - b.2, a.3 - b.3)
}

/// The age deltas of a diff partition its balance delta: the mature and immature deltas add
/// up to the balance delta, whatever the split.
pub proof fn lemma_age_delta_partitions_balance_delta(diff: UtxoDiff, spk: (u16, Seq<u8>), mature_bound: u64)
    ensures
        spec_age_delta(diff, spk, mature_bound).0 + spec_age_delta(diff, spk, mature_bound).1 == spec_balance_delta(diff, spk),
{
    lemma_mature_plus_immature(diff.add@, spk, mature_bound);
    lemma_mature_plus_immature(diff.remove@, spk, mature_bound);
}

/// The coin-age aggregates of one payout script.
#[derive(Debug, Clone, Copy, PartialEq, Eq, Structural)]
pub struct AgeBuckets {
    pub b_mat: u64,
    pub b_imm: u64,
    pub a_imm: u128,
}

/// `a + b` capped at `max`.
pub open spec fn sat_add(a: int, b: int, max: int) -> int {
    if a + b > max {
        max
    } else {
        a + b
    }
}

/// `a - b` floored at zero.
pub open spec fn sat_sub(a: int, b: int) -> int {
    if a >= b {
        a - b
    } else {
        0
    }
}

/// The buckets after promoting coins of total `amount` and total weighted anchor `weighted`
/// from immature to mature (saturating at the type bounds).
pub open spec fn spec_promote(b: AgeBuckets, amount: u64, weighted: u128) -> AgeBuckets {
    AgeBuckets {
        b_mat: sat_add(b.b_mat as int, amount as int, u64::MAX as int) as u64,
        b_imm: sat_sub(b.b_imm as int, amount as int) as u64,
        a_imm: sat_sub(b.a_imm as int, weighted as int) as u128,
    }
}

/// The buckets after demoting coins of total `amount` and total weighted anchor `weighted`
/// from mature back to immature (saturating at the type bounds).
pub open spec fn spec_demote(b: AgeBuckets, amount: u64, weighted: u128) -> AgeBuckets {
    AgeBuckets {
        b_mat: sat_sub(b.b_mat as int, amount as int) as u64,
        b_imm: sat_add(b.b_imm as int, amount as int, u64::MAX as int) as u64,
        a_imm: sat_add(b.a_imm as int, weighted as int, u128::MAX as int) as u128,
    }
}

/// Promotes matured coins of total `amount` and weighted anchor `weighted` (the sweep's forward
/// move). A shortfall in the immature buckets is clamped to zero.
pub fn promote(b: AgeBuckets, amount: u64, weighted: u128) -> (r: AgeBuckets)
    ensures
        r == spec_promote(b, amount, weighted),
{
    AgeBuckets {
        b_mat: b.b_mat.saturating_add(amount),
        b_imm: b.b_imm.saturating_sub(amount),
        a_imm: b.a_imm.saturating_sub(weighted),
    }
}

/// Demotes coins of total `amount` and weighted anchor `weighted` back to immature (the sweep's
/// move when the virtual score drops below the watermark).
pub fn demote(b: AgeBuckets, amount: u64, weighted: u128) -> (r: AgeBuckets)
    ensures
        r == spec_demote(b, amount, weighted),
{
    AgeBuckets {
        b_mat: b.b_mat.saturating_sub(amount),
        b_imm: b.b_imm.saturating_add(amount),
        a_imm: b.a_imm.saturating_add(weighted),
    }
}

/// A demotion undoes the promotion of the same coins (and the other way round) whenever no
/// bound was hit: the immature buckets covered the promoted amounts and the mature bucket did
/// not overflow.
pub proof fn lemma_demote_undoes_promote(b: AgeBuckets, amount: u64, weighted: u128)
    ensures
        b.b_imm >= amount && b.a_imm >= weighted && b.b_mat + amount <= u64::MAX ==> spec_demote(
            spec_promote(b, amount, weighted),
            amount,
            weighted,
        ) == b,
        b.b_mat >= amount && b.b_imm + amount <= u64::MAX && b.a_imm + weighted <= u128::MAX ==> spec_promote(
            spec_demote(b, amount, weighted),
            amount,
            weighted,
        ) == b,
{
}

/// `b + d` for a signed delta, floored at zero.
pub open spec fn apply_signed(b: int, d: int) -> int {
    if b + d < 0 {
        0
    } else {
        b + d
    }
}

/// Applies the deltas `(dm, div, dia)` of a diff to stored buckets, clamping a negative result
/// to zero (an inconsistent index, re-derived at the next startup).
pub fn apply_age_delta(b: AgeBuckets, dm: i128, div: i128, dia: i128) -> (r: AgeBuckets)
    requires
        apply_signed(b.b_mat as int, dm as int) <= u64::MAX,
        apply_signed(b.b_imm as int, div as int) <= u64::MAX,
        b.a_imm + dia <= i128_max(),
        apply_signed(b.a_imm as int, dia as int) <= u128::MAX,
    ensures
        r.b_mat == apply_signed(b.b_mat as int, dm as int),
        r.b_imm == apply_signed(b.b_imm as int, div as int),
        r.a_imm == apply_signed(b.a_imm as int, dia as int),
{
    let nm = b.b_mat as i128 + dm;
    let ni = b.b_imm as i128 + div;
    assert(b.a_imm <= i128_max() + 0x8000_0000_0000_0000_0000_0000_0000_0000);
    let na: i128 = if dia < 0 {
        if b.a_imm as u128 >= 0x8000_0000_0000_0000_0000_0000_0000_0000 {
            // a_imm + dia <= i128::MAX holds; the difference fits.
            (b.a_imm - ((0 - (dia + 1)) as u128) - 1) as i128
        } else {
            b.a_imm as i128 + dia
        }
    } else {
        b.a_imm as i128 + dia
    };
    AgeBuckets {
        b_mat: if nm < 0 { 0 } else { nm as u64 },
        b_imm: if ni < 0 { 0 } else { ni as u64 },
        a_imm: if na < 0 { 0 } else { na as u128 },
    }
}

/// What the maturation sweep does when the virtual score moves to `new_score` from the
/// `watermark` it last swept to.
#[derive(Debug, Clone, Copy, PartialEq, Eq, Structural)]
pub enum SweepAction {
    /// The score dropped deeper than the retention horizon: rebuild the index from the UTXO set.
    Rebuild,
    /// Demote the promotions due in `(new_score, watermark]`, then move the watermark down.
    Demote { from: u64, to: u64 },
    /// Promote the entries due in `(watermark, new_score]`, prune retained entries due below
    /// `prune_below`, then move the watermark up.
    Promote { from: u64, to: u64, prune_below: u64 },
}

/// The sweep decision; a missing watermark counts as `new_score`.
pub open spec fn spec_sweep_action(watermark: Option<u64>, new_score: u64, retention: u64) -> SweepAction {
    let w = match watermark {
        Some(w) => w,
        None => new_score,
    };
    if new_score < w {
        if w - new_score > retention {
            SweepAction::Rebuild
        } else {
            SweepAction::Demote { from: new_score, to: w }
        }
    } else {
        SweepAction::Promote {
            from: w,
            to: new_score,
            prune_below: if new_score >= retention { (new_score - retention) as u64 } else { 0 },
        }
    }
}

/// The sweep follows the score: a rise (or a first sweep) promotes exactly the maturities in
/// `(watermark, new_score]` and prunes below the retention horizon; a drop within the retention
/// horizon demotes exactly `(new_score, watermark]`; a drop deeper than the horizon rebuilds.
pub proof fn lemma_sweep_follows_the_score(watermark: Option<u64>, new_score: u64, retention: u64)
    ensures
        ({
            let a = spec_sweep_action(watermark, new_score, retention);
            let w = match watermark {
                Some(w) => w,
                None => new_score,
            };
            &&& new_score >= w ==> a == (SweepAction::Promote {
                from: w,
                to: new_score,
                prune_below: if new_score >= retention { (new_score - retention) as u64 } else { 0 },
            })
            &&& new_score < w && w - new_score <= retention ==> a == (SweepAction::Demote { from: new_score, to: w })
            &&& new_score < w && w - new_score > retention ==> a == SweepAction::Rebuild
            &&& watermark is None ==> a is Promote
            &&& a matches SweepAction::Promote { from, to, .. } ==> from <= to && to == new_score
            &&& a matches SweepAction::Demote { from, to } ==> from < to && from == new_score && to - from <= retention
        }),
{
}

/// The maturation-sweep decision for a move of the virtual score to `new_score`.
pub fn sweep_action(watermark: Option<u64>, new_score: u64, retention: u64) -> (r: SweepAction)
    ensures
        r == spec_sweep_action(watermark, new_score, retention),
{
    let w = match watermark {
        Some(w) => w,
        None => new_score,
    };
    if new_score < w {
        if w - new_score > retention {
            SweepAction::Rebuild
        } else {
            SweepAction::Demote { from: new_score, to: w }
        }
    } else {
        SweepAction::Promote { from: w, to: new_score, prune_below: new_score.saturating_sub(retention) }
    }
}

/// The maturity score of a coin: its anchor plus the maturity period.
pub open spec fn due_score(effective_daa: u64, maturity_w: u64) -> int {
    effective_daa + maturity_w
}

/// Whether the index rebuild queues a coin in the maturation queue: every immature coin (pending
/// promotion), and every mature coin whose maturity lies within the retention horizon (so a
/// later score drop can demote it).
pub fn requeued_at_rebuild(effective_daa: u64, daa_score: u64, maturity_w: u64, retention: u64) -> (r: bool)
    requires
        effective_daa + maturity_w <= u64::MAX,
    ensures
        r == (effective_daa > (if daa_score >= maturity_w { daa_score - maturity_w } else { 0 }) || due_score(
            effective_daa,
            maturity_w,
        ) > (if daa_score >= retention { daa_score - retention } else { 0 })),
{
    let mature_bound = daa_score.saturating_sub(maturity_w);
    let retained_bound = daa_score.saturating_sub(retention);
    let due = effective_daa + maturity_w;
    effective_daa > mature_bound || due > retained_bound
}

/// `v` capped at `max`.
pub open spec fn capped(v: int, max: int) -> int {
    if v > max {
        max
    } else {
        v
    }
}

/// The buckets of `spk` derived from the UTXO entries `s`, every coin classified at
/// `mature_bound`, each aggregate saturating at its type's bound.
pub open spec fn spec_derived_buckets(s: Seq<UtxoEntry>, spk: (u16, Seq<u8>), mature_bound: u64) -> AgeBuckets {
    AgeBuckets {
        b_mat: capped(sum_mature(s, spk, mature_bound), u64::MAX as int) as u64,
        b_imm: capped(sum_immature(s, spk, mature_bound), u64::MAX as int) as u64,
        a_imm: capped(sum_immature_weighted(s, spk, mature_bound), u128::MAX as int) as u128,
    }
}

/// Re-derives the coin-age buckets of `spk` from the UTXO entries `entries` at the split
/// `mature_bound` (the startup rebuild and the self-check): mature coins add their amount to
/// `b_mat`, immature ones their amount to `b_imm` and amount × anchor to `a_imm`, saturating.
pub fn derive_buckets(entries: &Vec<UtxoEntry>, spk: &ScriptPublicKey, mature_bound: u64) -> (r: AgeBuckets)
    ensures
        r == spec_derived_buckets(entries@, spk@, mature_bound),
{
    let mut mat: u64 = 0;
    let mut imm: u64 = 0;
    let mut immw: u128 = 0;
    let mut i: usize = 0;
    assert(entries@.take(0) =~= Seq::<UtxoEntry>::empty());
    while i < entries.len()
        invariant
            i <= entries@.len(),
            mat == capped(sum_mature(entries@.take(i as int), spk@, mature_bound), u64::MAX as int),
            imm == capped(sum_immature(entries@.take(i as int), spk@, mature_bound), u64::MAX as int),
            immw == capped(sum_immature_weighted(entries@.take(i as int), spk@, mature_bound), u128::MAX as int),
        decreases entries@.len() - i,
    {
        proof {
            assert(entries@.take(i + 1).drop_last() =~= entries@.take(i as int));
            assert(entries@.take(i + 1).last() == entries@[i as int]);
            lemma_sums_monotone(entries@, spk@, mature_bound, i as int);
        }
        let e = &entries[i];
        if e.script_public_key.equals(spk) {
            if e.effective_daa <= mature_bound {
                mat = mat.saturating_add(e.amount);
            } else {
                imm = imm.saturating_add(e.amount);
                proof {
                    lemma_u64_product_fits_u128(e.amount, e.effective_daa);
                }
                let w = (e.amount as u128) * (e.effective_daa as u128);
                immw = immw.saturating_add(w);
            }
        }
        i = i + 1;
    }
    assert(entries@.take(entries@.len() as int) =~= entries@);
    AgeBuckets { b_mat: mat, b_imm: imm, a_imm: immw }
}

proof fn lemma_u64_product_fits_u128(a: u64, b: u64)
    ensures
        (a as u128) * (b as u128) <= u128::MAX,
        a * b <= u128::MAX,
{
    assert(a * b <= 0xffff_ffff_ffff_ffffu64 * 0xffff_ffff_ffff_ffffu64) by (nonlinear_arith)
        requires
            a <= 0xffff_ffff_ffff_ffffu64,
            b <= 0xffff_ffff_ffff_ffffu64,
    ;
}

/// The ratio-reward balance of `spk` derived from the UTXO entries `entries`: the sum of its
/// amounts, saturating.
pub fn derive_balance(entries: &Vec<UtxoEntry>, spk: &ScriptPublicKey) -> (r: u64)
    ensures
        r == capped(sum_amount(entries@, spk@), u64::MAX as int),
{
    let mut bal: u64 = 0;
    let mut i: usize = 0;
    assert(entries@.take(0) =~= Seq::<UtxoEntry>::empty());
    while i < entries.len()
        invariant
            i <= entries@.len(),
            bal == capped(sum_amount(entries@.take(i as int), spk@), u64::MAX as int),
        decreases entries@.len() - i,
    {
        proof {
            assert(entries@.take(i + 1).drop_last() =~= entries@.take(i as int));
            assert(entries@.take(i + 1).last() == entries@[i as int]);
            lemma_sums_monotone(entries@, spk@, 0, i as int);
        }
        let e = &entries[i];
        if e.script_public_key.equals(spk) {
            bal = bal.saturating_add(e.amount);
        }
        i = i + 1;
    }
    assert(entries@.take(entries@.len() as int) =~= entries@);
    bal
}

/// The sums over a concatenation are the sums of the parts.
pub proof fn lemma_sums_concat(a: Seq<UtxoEntry>, b: Seq<UtxoEntry>, spk: (u16, Seq<u8>), mature_bound: u64)
    ensures
        sum_amount(a + b, spk) == sum_amount(a, spk) + sum_amount(b, spk),
        sum_mature(a + b, spk, mature_bound) == sum_mature(a, spk, mature_bound) + sum_mature(b, spk, mature_bound),
        sum_immature(a + b, spk, mature_bound) == sum_immature(a, spk, mature_bound) + sum_immature(b, spk, mature_bound),
        sum_immature_weighted(a + b, spk, mature_bound) == sum_immature_weighted(a, spk, mature_bound)
            + sum_immature_weighted(b, spk, mature_bound),
    decreases b.len(),
{
    if b.len() == 0 {
        assert(a + b =~= a);
    } else {
        lemma_sums_concat(a, b.drop_last(), spk, mature_bound);
        assert((a + b).drop_last() =~= a + b.drop_last());
        assert((a + b).last() == b.last());
    }
}

/// Incremental maintenance agrees with re-derivation: for a UTXO set made of kept coins `kept`
/// and spent coins `removed`, applying the age deltas of a diff that removes `removed` and adds
/// `added` to the buckets derived from the set gives the buckets derived from `kept` followed by
/// `added`, as long as no aggregate saturates and the split stays put.
pub proof fn lemma_incremental_matches_rebuild(
    kept: Seq<UtxoEntry>,
    removed: Seq<UtxoEntry>,
    added: Seq<UtxoEntry>,
    spk: (u16, Seq<u8>),
    mature_bound: u64,
)
    requires
        sum_mature(kept + removed, spk, mature_bound) <= u64::MAX,
        sum_immature(kept + removed, spk, mature_bound) <= u64::MAX,
        sum_immature_weighted(kept + removed, spk, mature_bound) <= u128::MAX,
        sum_mature(kept + added, spk, mature_bound) <= u64::MAX,
        sum_immature(kept + added, spk, mature_bound) <= u64::MAX,
        sum_immature_weighted(kept + added, spk, mature_bound) <= u128::MAX,
    ensures
        ({
            let before = spec_derived_buckets(kept + removed, spk, mature_bound);
            let d = age_delta_of(added, removed, spk, mature_bound);
            let after = spec_derived_buckets(kept + added, spk, mature_bound);
            &&& apply_signed(before.b_mat as int, d.0) == after.b_mat
            &&& apply_signed(before.b_imm as int, d.1) == after.b_imm
            &&& apply_signed(before.a_imm as int, d.2) == after.a_imm
        }),
{
    lemma_sums_concat(kept, removed, spk, mature_bound);
    lemma_sums_concat(kept, added, spk, mature_bound);
    lemma_sums_monotone(kept, spk, mature_bound, 0);
    lemma_sums_monotone(removed, spk, mature_bound, 0);
    lemma_sums_monotone(added, spk, mature_bound, 0);
    assert(kept.take(0) =~= Seq::<UtxoEntry>::empty());
    assert(removed.take(0) =~= Seq::<UtxoEntry>::empty());
    assert(added.take(0) =~= Seq::<UtxoEntry>::empty());
}

/// A script's balance does not depend on the order of the entries.
proof fn lemma_sum_amount_permutation(a: Seq<UtxoEntry>, b: Seq<UtxoEntry>, spk: (u16, Seq<u8>))
    requires
        a.to_multiset() == b.to_multiset(),
    ensures
        sum_amount(a, spk) == sum_amount(b, spk),
    decreases a.len(),
{
    broadcast use vstd::seq_lib::group_to_multiset_ensures;

    if a.len() == 0 {
        assert(b.to_multiset().len() == 0);
        assert(b.len() == 0);
    } else {
        let x = a.last();
        let a2 = a.drop_last();
        assert(a =~= a2.push(x));
        assert(a.to_multiset() == a2.to_multiset().insert(x));
        assert(a.contains(x)) by {
            assert(a[a.len() - 1] == x);
        }
        assert(b.to_multiset().count(x) > 0);
        assert(b.contains(x));
        let j = choose|j: int| 0 <= j < b.len() && b[j] == x;
        let b2 = b.remove(j);
        assert(b2.to_multiset() == b.to_multiset().remove(x));
        assert(a2.to_multiset() =~= a.to_multiset().remove(x));
        lemma_sum_amount_permutation(a2, b2, spk);
        let front = b.take(j);
        let back = b.skip(j + 1);
        assert(b =~= front + seq![x] + back);
        assert(b2 =~= front + back);
        lemma_sums_concat(front, back, spk, 0);
        lemma_sums_concat(front, seq![x], spk, 0);
        lemma_sums_concat(front + seq![x], back, spk, 0);
        assert(seq![x].drop_last() =~= Seq::<UtxoEntry>::empty());
        let c = if x.script_public_key@ == spk { x.amount as int } else { 0 };
        let one = seq![x];
        assert(one.len() == 1);
        assert(one.last() == x);
        assert(one.drop_last().len() == 0);
        assert(sum_amount(one.drop_last(), spk) == 0);
        assert(sum_amount(one, spk) == c);
        assert(sum_amount(a, spk) == sum_amount(a2, spk) + c);
        assert(sum_amount(b, spk) == sum_amount(front + seq![x] + back, spk));
        assert(sum_amount(b2, spk) == sum_amount(front + back, spk));
    }
}

/// The stored balance after a write of signed delta `delta`: floored at zero.
pub fn apply_balance_delta(balance: u64, delta: i128) -> (r: u64)
    requires
        apply_signed(balance as int, delta as int) <= u64::MAX,
    ensures
        r == apply_signed(balance as int, delta as int),
{
    let n = balance as i128 + delta;
    if n < 0 {
        0
    } else {
        n as u64
    }
}

/// The balance a script's index entry holds after the diffs `diffs` are written in order from
/// `b`, each write adding the diff's balance delta floored at zero.
pub open spec fn balance_after(b: int, diffs: Seq<UtxoDiff>, spk: (u16, Seq<u8>)) -> int
    decreases diffs.len(),
{
    if diffs.len() == 0 {
        b
    } else {
        apply_signed(balance_after(b, diffs.drop_last(), spk), spec_balance_delta(diffs.last(), spk))
    }
}

/// The balance index tracks the UTXO set across commits: when `sets[0]` is a UTXO set whose
/// balance the index holds, and each commit `i` removes `diffs[i].remove` from `sets[i]` (what is
/// left being `kept[i]`) and adds `diffs[i].add`, giving `sets[i + 1]`, the index after the writes
/// holds the balance of the last set (balances taken as integers; [`apply_balance_delta`] stores
/// them while they fit a `u64`).
pub proof fn lemma_balance_index_tracks_utxo_set(
    sets: Seq<Seq<UtxoEntry>>,
    kept: Seq<Seq<UtxoEntry>>,
    diffs: Seq<UtxoDiff>,
    spk: (u16, Seq<u8>),
)
    requires
        sets.len() == diffs.len() + 1,
        kept.len() == diffs.len(),
        forall|i: int| 0 <= i < diffs.len() ==> (#[trigger] sets[i]).to_multiset() == (kept[i] + diffs[i].remove@).to_multiset(),
        forall|i: int| 0 <= i < diffs.len() ==> (#[trigger] sets[i + 1]).to_multiset() == (kept[i] + diffs[i].add@).to_multiset(),
    ensures
        balance_after(sum_amount(sets[0], spk), diffs, spk) == sum_amount(sets[diffs.len() as int], spk),
    decreases diffs.len(),
{
    if diffs.len() > 0 {
        let n = diffs.len() - 1;
        let sets2 = sets.drop_last();
        let kept2 = kept.drop_last();
        let diffs2 = diffs.drop_last();
        assert forall|i: int| 0 <= i < diffs2.len() implies (#[trigger] sets2[i]).to_multiset() == (kept2[i]
            + diffs2[i].remove@).to_multiset() by {
            assert(sets2[i] == sets[i]);
        }
        assert forall|i: int| 0 <= i < diffs2.len() implies (#[trigger] sets2[i + 1]).to_multiset() == (kept2[i]
            + diffs2[i].add@).to_multiset() by {
            assert(sets2[i + 1] == sets[i + 1]);
            assert(sets[i + 1].to_multiset() == (kept[i] + diffs[i].add@).to_multiset());
        }
        lemma_balance_index_tracks_utxo_set(sets2, kept2, diffs2, spk);
        assert(sets2[0] == sets[0]);
        assert(sets2[n] == sets[n]);
        assert(sets[n].to_multiset() == (kept[n] + diffs[n].remove@).to_multiset());
        assert(sets[n + 1].to_multiset() == (kept[n] + diffs[n].add@).to_multiset());
        lemma_sum_amount_permutation(sets[n], kept[n] + diffs[n].remove@, spk);
        lemma_sum_amount_permutation(sets[n + 1], kept[n] + diffs[n].add@, spk);
        lemma_sums_concat(kept[n], diffs[n].remove@, spk, 0);
        lemma_sums_concat(kept[n], diffs[n].add@, spk, 0);
        lemma_sums_monotone(kept[n], spk, 0, 0);
        lemma_sums_monotone(diffs[n].add@, spk, 0, 0);
        assert(kept[n].take(0) =~= Seq::<UtxoEntry>::empty());
        assert(diffs[n].add@.take(0) =~= Seq::<UtxoEntry>::empty());
        assert(diffs.last() == diffs[n]);
    }
}

/// A payout script as plain values.
pub type Spk = (u16, Seq<u8>);

/// The value a store keyed by script holds for `k`; an absent key holds zero.
pub open spec fn stored_balance(m: Map<Spk, int>, k: Spk) -> int {
    if m.dom().contains(k) {
        m[k]
    } else {
        0
    }
}

/// A store keeps exactly its non-zero balances.
pub open spec fn keeps_only_nonzero(m: Map<Spk, int>) -> bool {
    forall|k: Spk| #[trigger] m.dom().contains(k) <==> stored_balance(m, k) != 0
}

/// The balance store of a UTXO set: every script with a non-zero balance, with that balance.
pub open spec fn balance_store_of(s: Seq<UtxoEntry>) -> Map<Spk, int> {
    Map::new(|k: Spk| sum_amount(s, k) != 0, |k: Spk| sum_amount(s, k))
}

/// The balance store after writing the balance deltas of diff `d`: each script's balance moved by
/// its delta and floored at zero, a balance of zero leaving the store.
pub open spec fn write_balance_diff(m: Map<Spk, int>, d: UtxoDiff) -> Map<Spk, int> {
    Map::new(
        |k: Spk| apply_signed(stored_balance(m, k), spec_balance_delta(d, k)) != 0,
        |k: Spk| apply_signed(stored_balance(m, k), spec_balance_delta(d, k)),
    )
}

/// The balance store after the diffs `diffs`, written in order.
pub open spec fn balance_store_after(m: Map<Spk, int>, diffs: Seq<UtxoDiff>) -> Map<Spk, int>
    decreases diffs.len(),
{
    if diffs.len() == 0 {
        m
    } else {
        write_balance_diff(balance_store_after(m, diffs.drop_last()), diffs.last())
    }
}

proof fn lemma_store_after_value(m: Map<Spk, int>, diffs: Seq<UtxoDiff>, k: Spk)
    ensures
        stored_balance(balance_store_after(m, diffs), k) == balance_after(stored_balance(m, k), diffs, k),
        keeps_only_nonzero(m) ==> keeps_only_nonzero(balance_store_after(m, diffs)),
    decreases diffs.len(),
{
    if diffs.len() > 0 {
        lemma_store_after_value(m, diffs.drop_last(), k);
    }
}

/// The balance store tracks the UTXO set across commits: under the commits of
/// [`lemma_balance_index_tracks_utxo_set`], the store built from the first set and written with
/// every diff in order is the balance store of the last set — every balance present and equal, no
/// stale key left.
pub proof fn lemma_balance_store_tracks_utxo_set(sets: Seq<Seq<UtxoEntry>>, kept: Seq<Seq<UtxoEntry>>, diffs: Seq<UtxoDiff>)
    requires
        sets.len() == diffs.len() + 1,
        kept.len() == diffs.len(),
        forall|i: int| 0 <= i < diffs.len() ==> (#[trigger] sets[i]).to_multiset() == (kept[i] + diffs[i].remove@).to_multiset(),
        forall|i: int| 0 <= i < diffs.len() ==> (#[trigger] sets[i + 1]).to_multiset() == (kept[i] + diffs[i].add@).to_multiset(),
    ensures
        balance_store_after(balance_store_of(sets[0]), diffs) == balance_store_of(sets[diffs.len() as int]),
{
    let start = balance_store_of(sets[0]);
    let a = balance_store_after(start, diffs);
    let b = balance_store_of(sets[diffs.len() as int]);
    assert(keeps_only_nonzero(start));
    assert forall|k: Spk| #[trigger] a.dom().contains(k) == b.dom().contains(k) && (a.dom().contains(k) ==> a[k] == b[k]) by {
        lemma_store_after_value(start, diffs, k);
        lemma_balance_index_tracks_utxo_set(sets, kept, diffs, k);
    }
    assert(a =~= b);
}

// ---------------------------------------------------------------------------------------------
// The buckets at a point of view

/// A maturation-queue entry whose maturity lies between the committed watermark and a point of
/// view: the coin's script, amount and anchor, and whether the view diffs re-add (`re_added`) or
/// remove (`removed`) its outpoint.
#[derive(Debug, Clone)]
pub struct DueEntry {
    pub script_public_key: ScriptPublicKey,
    pub amount: u64,
    pub anchor: u64,
    pub re_added: bool,
    pub removed: bool,
}

/// Whether a demotion skips the entry: only a pure re-add (re-added and not removed) — the coin
/// is absent from the committed store, and the view diffs re-add it on the right side. The same
/// rule guards the write-path demotion of the sweep.
pub open spec fn skips_demotion(re_added: bool, removed: bool) -> bool {
    re_added && !removed
}

/// Σ amount of the entries of `spk` that mature between the splits `lo` (exclusive) and `hi`.
pub open spec fn sum_maturing(s: Seq<UtxoEntry>, spk: (u16, Seq<u8>), lo: u64, hi: u64) -> int
    decreases s.len(),
{
    if s.len() == 0 {
        0
    } else {
        sum_maturing(s.drop_last(), spk, lo, hi) + if s.last().script_public_key@ == spk && lo < s.last().effective_daa <= hi {
            s.last().amount as int
        } else {
            0
        }
    }
}

/// Σ amount · anchor of the entries of `spk` that mature between the splits `lo` (exclusive)
/// and `hi`.
pub open spec fn sum_maturing_weighted(s: Seq<UtxoEntry>, spk: (u16, Seq<u8>), lo: u64, hi: u64) -> int
    decreases s.len(),
{
    if s.len() == 0 {
        0
    } else {
        sum_maturing_weighted(s.drop_last(), spk, lo, hi) + if s.last().script_public_key@ == spk && lo
            < s.last().effective_daa <= hi {
            s.last().amount * s.last().effective_daa
        } else {
            0
        }
    }
}

/// Moving the split from `lo` up to `hi` moves exactly the coins maturing in between.
proof fn lemma_split_shift(s: Seq<UtxoEntry>, spk: (u16, Seq<u8>), lo: u64, hi: u64)
    requires
        lo <= hi,
    ensures
        sum_mature(s, spk, hi) == sum_mature(s, spk, lo) + sum_maturing(s, spk, lo, hi),
        sum_immature(s, spk, lo) == sum_immature(s, spk, hi) + sum_maturing(s, spk, lo, hi),
        sum_immature_weighted(s, spk, lo) == sum_immature_weighted(s, spk, hi) + sum_maturing_weighted(s, spk, lo, hi),
        sum_maturing(s, spk, lo, hi) >= 0,
        sum_maturing_weighted(s, spk, lo, hi) >= 0,
    decreases s.len(),
{
    if s.len() > 0 {
        lemma_split_shift(s.drop_last(), spk, lo, hi);
        assert(s.last().amount * s.last().effective_daa >= 0) by (nonlinear_arith);
    }
}

/// The buckets after a sweep that moves the split from `from` to `to`, given the totals of the
/// entries it moves (see [`sweep_totals`]): a promotion when the split rises, a demotion when it
/// falls.
pub open spec fn swept_buckets(b: AgeBuckets, from: u64, to: u64, amount: u64, weighted: u128) -> AgeBuckets {
    if from <= to {
        spec_promote(b, amount, weighted)
    } else {
        spec_demote(b, amount, weighted)
    }
}

/// A sweep followed by the diff keeps the index exact: when the committed buckets of `spk` are
/// those of the UTXO set `kept + removed` at the split `from`, and the maturation queue's entries
/// `due` that the sweep moves are exactly the coins of that set maturing between the splits
/// `from` and `to`, then sweeping to `to` gives the buckets of the set at `to`, and writing the
/// age deltas of a diff removing `removed` and adding `added` (classified at `to`) then gives the
/// buckets of `kept + added` at `to` — as long as no aggregate saturates.
pub proof fn lemma_sweep_then_diff_matches_rebuild(
    kept: Seq<UtxoEntry>,
    removed: Seq<UtxoEntry>,
    added: Seq<UtxoEntry>,
    due: Seq<DueEntry>,
    spk: (u16, Seq<u8>),
    from: u64,
    to: u64,
)
    requires
        from <= to ==> due_amount(due, spk, false) == sum_maturing(kept + removed, spk, from, to) && due_weight(due, spk, false)
            == sum_maturing_weighted(kept + removed, spk, from, to),
        to < from ==> due_amount(due, spk, true) == sum_maturing(kept + removed, spk, to, from) && due_weight(due, spk, true)
            == sum_maturing_weighted(kept + removed, spk, to, from),
        sum_mature(kept + removed, spk, from) <= u64::MAX,
        sum_immature(kept + removed, spk, from) <= u64::MAX,
        sum_immature_weighted(kept + removed, spk, from) <= u128::MAX,
        sum_mature(kept + removed, spk, to) <= u64::MAX,
        sum_immature(kept + removed, spk, to) <= u64::MAX,
        sum_immature_weighted(kept + removed, spk, to) <= u128::MAX,
        sum_mature(kept + added, spk, to) <= u64::MAX,
        sum_immature(kept + added, spk, to) <= u64::MAX,
        sum_immature_weighted(kept + added, spk, to) <= u128::MAX,
    ensures
        ({
            let demoting = to < from;
            let before = spec_derived_buckets(kept + removed, spk, from);
            let swept = swept_buckets(
                before,
                from,
                to,
                capped(due_amount(due, spk, demoting), u64::MAX as int) as u64,
                capped(due_weight(due, spk, demoting), u128::MAX as int) as u128,
            );
            let d = age_delta_of(added, removed, spk, to);
            let after = spec_derived_buckets(kept + added, spk, to);
            &&& swept == spec_derived_buckets(kept + removed, spk, to)
            &&& apply_signed(swept.b_mat as int, d.0) == after.b_mat
            &&& apply_signed(swept.b_imm as int, d.1) == after.b_imm
            &&& apply_signed(swept.a_imm as int, d.2) == after.a_imm
        }),
{
    let set = kept + removed;
    lemma_sums_monotone(set, spk, from, 0);
    lemma_sums_monotone(set, spk, to, 0);
    assert(set.take(0) =~= Seq::<UtxoEntry>::empty());
    if from <= to {
        lemma_split_shift(set, spk, from, to);
    } else {
        lemma_split_shift(set, spk, to, from);
    }
    lemma_incremental_matches_rebuild(kept, removed, added, spk, to);
}

/// All-zero buckets: what an absent key of the bucket store holds.
pub open spec fn zero_buckets() -> AgeBuckets {
    AgeBuckets { b_mat: 0, b_imm: 0, a_imm: 0 }
}

/// The buckets a store keyed by script holds for `k`; an absent key holds zero buckets.
pub open spec fn stored_buckets(m: Map<Spk, AgeBuckets>, k: Spk) -> AgeBuckets {
    if m.dom().contains(k) {
        m[k]
    } else {
        zero_buckets()
    }
}

/// The bucket store of a UTXO set with every coin classified at `mature_bound`: every script whose
/// buckets are not all zero, with those buckets.
pub open spec fn bucket_store_of(s: Seq<UtxoEntry>, mature_bound: u64) -> Map<Spk, AgeBuckets> {
    Map::new(
        |k: Spk| spec_derived_buckets(s, k, mature_bound) != zero_buckets(),
        |k: Spk| spec_derived_buckets(s, k, mature_bound),
    )
}

/// The buckets of script `k` after a sweep of the split from `from` to `to` that moves the queue
/// entries `due`, followed by the writes of the age deltas of a diff adding `added` and removing
/// `removed` (classified at `to`).
pub open spec fn buckets_after_commit(
    b: AgeBuckets,
    due: Seq<DueEntry>,
    k: Spk,
    from: u64,
    to: u64,
    added: Seq<UtxoEntry>,
    removed: Seq<UtxoEntry>,
) -> AgeBuckets {
    let demoting = to < from;
    let swept = swept_buckets(
        b,
        from,
        to,
        capped(due_amount(due, k, demoting), u64::MAX as int) as u64,
        capped(due_weight(due, k, demoting), u128::MAX as int) as u128,
    );
    let d = age_delta_of(added, removed, k, to);
    AgeBuckets {
        b_mat: apply_signed(swept.b_mat as int, d.0) as u64,
        b_imm: apply_signed(swept.b_imm as int, d.1) as u64,
        a_imm: apply_signed(swept.a_imm as int, d.2) as u128,
    }
}

/// The bucket store after one commit (see [`buckets_after_commit`]), all-zero buckets leaving it.
pub open spec fn bucket_store_after_commit(
    m: Map<Spk, AgeBuckets>,
    due: Seq<DueEntry>,
    from: u64,
    to: u64,
    added: Seq<UtxoEntry>,
    removed: Seq<UtxoEntry>,
) -> Map<Spk, AgeBuckets> {
    Map::new(
        |k: Spk| buckets_after_commit(stored_buckets(m, k), due, k, from, to, added, removed) != zero_buckets(),
        |k: Spk| buckets_after_commit(stored_buckets(m, k), due, k, from, to, added, removed),
    )
}

/// The sweep of script `k` moves exactly the coins of `set` maturing between `from` and `to`.
pub open spec fn sweep_moves_maturing(due: Seq<DueEntry>, set: Seq<UtxoEntry>, k: Spk, from: u64, to: u64) -> bool {
    &&& from <= to ==> due_amount(due, k, false) == sum_maturing(set, k, from, to) && due_weight(due, k, false)
        == sum_maturing_weighted(set, k, from, to)
    &&& to < from ==> due_amount(due, k, true) == sum_maturing(set, k, to, from) && due_weight(due, k, true)
        == sum_maturing_weighted(set, k, to, from)
}

/// No aggregate of script `k` in `set` at `mature_bound` saturates.
pub open spec fn aggregates_fit(set: Seq<UtxoEntry>, k: Spk, mature_bound: u64) -> bool {
    &&& sum_mature(set, k, mature_bound) <= u64::MAX
    &&& sum_immature(set, k, mature_bound) <= u64::MAX
    &&& sum_immature_weighted(set, k, mature_bound) <= u128::MAX
}

/// The bucket store stays exact across a commit: when it is the store of the UTXO set
/// `kept + removed` at the split `from`, and for every script the sweep moves exactly the coins
/// maturing between `from` and `to`, then the sweep to `to` followed by the diff removing
/// `removed` and adding `added` leaves the store of `kept + added` at `to` — every script's buckets
/// equal, no stale key left — as long as no aggregate saturates.
pub proof fn lemma_bucket_store_matches_rebuild(
    kept: Seq<UtxoEntry>,
    removed: Seq<UtxoEntry>,
    added: Seq<UtxoEntry>,
    due: Seq<DueEntry>,
    from: u64,
    to: u64,
)
    requires
        forall|k: Spk| #[trigger] sweep_moves_maturing(due, kept + removed, k, from, to),
        forall|k: Spk| #[trigger] aggregates_fit(kept + removed, k, from),
        forall|k: Spk| #[trigger] aggregates_fit(kept + removed, k, to),
        forall|k: Spk| #[trigger] aggregates_fit(kept + added, k, to),
    ensures
        bucket_store_after_commit(bucket_store_of(kept + removed, from), due, from, to, added, removed) == bucket_store_of(
            kept + added,
            to,
        ),
{
    let m = bucket_store_of(kept + removed, from);
    let a = bucket_store_after_commit(m, due, from, to, added, removed);
    let b = bucket_store_of(kept + added, to);
    assert forall|k: Spk| #[trigger] buckets_after_commit(stored_buckets(m, k), due, k, from, to, added, removed)
        == spec_derived_buckets(kept + added, k, to) by {
        assert(sweep_moves_maturing(due, kept + removed, k, from, to));
        assert(aggregates_fit(kept + removed, k, from));
        assert(aggregates_fit(kept + removed, k, to));
        assert(aggregates_fit(kept + added, k, to));
        assert(stored_buckets(m, k) == spec_derived_buckets(kept + removed, k, from));
        lemma_sweep_then_diff_matches_rebuild(kept, removed, added, due, k, from, to);
    }
    assert(a =~= b);
}

/// Whether a demotion skips the entry (see [`skips_demotion`]).
pub fn demotion_skipped(re_added: bool, removed: bool) -> (r: bool)
    ensures
        r == skips_demotion(re_added, removed),
{
    re_added && !removed
}

/// Whether entry `e` of `spk` moves: every entry of the script when promoting, those a demotion
/// does not skip when demoting.
pub open spec fn moves(e: DueEntry, spk: (u16, Seq<u8>), demoting: bool) -> bool {
    e.script_public_key@ == spk && !(demoting && skips_demotion(e.re_added, e.removed))
}

/// Σ amount of the moving entries.
pub open spec fn due_amount(s: Seq<DueEntry>, spk: (u16, Seq<u8>), demoting: bool) -> int
    decreases s.len(),
{
    if s.len() == 0 {
        0
    } else {
        due_amount(s.drop_last(), spk, demoting) + if moves(s.last(), spk, demoting) {
            s.last().amount as int
        } else {
            0
        }
    }
}

/// Σ amount · anchor of the moving entries.
pub open spec fn due_weight(s: Seq<DueEntry>, spk: (u16, Seq<u8>), demoting: bool) -> int
    decreases s.len(),
{
    if s.len() == 0 {
        0
    } else {
        due_weight(s.drop_last(), spk, demoting) + if moves(s.last(), spk, demoting) {
            s.last().amount * s.last().anchor
        } else {
            0
        }
    }
}

proof fn lemma_due_sums_monotone(s: Seq<DueEntry>, spk: (u16, Seq<u8>), demoting: bool, i: int)
    requires
        0 <= i <= s.len(),
    ensures
        0 <= due_amount(s.take(i), spk, demoting) <= due_amount(s, spk, demoting),
        0 <= due_weight(s.take(i), spk, demoting) <= due_weight(s, spk, demoting),
    decreases s.len(),
{
    if i == s.len() {
        assert(s.take(i) =~= s);
        if s.len() > 0 {
            lemma_due_sums_monotone(s.drop_last(), spk, demoting, s.len() - 1);
            assert(s.drop_last().take(s.len() - 1) =~= s.drop_last());
            assert(s.last().amount * s.last().anchor >= 0) by (nonlinear_arith);
        }
    } else {
        lemma_due_sums_monotone(s.drop_last(), spk, demoting, i);
        assert(s.drop_last().take(i) =~= s.take(i));
        lemma_due_sums_monotone(s.drop_last(), spk, demoting, s.len() - 1);
        assert(s.drop_last().take(s.len() - 1) =~= s.drop_last());
        assert(s.last().amount * s.last().anchor >= 0) by (nonlinear_arith);
    }
}

/// Σ of the deltas' components.
pub open spec fn sum_deltas3(d: Seq<(i128, i128, i128)>) -> (int, int, int)
    decreases d.len(),
{
    if d.len() == 0 {
        (0, 0, 0)
    } else {
        let p = sum_deltas3(d.drop_last());
        (p.0 + d.last().0, p.1 + d.last().1, p.2 + d.last().2)
    }
}

/// `v` floored at zero.
pub open spec fn floor0(v: int) -> int {
    if v < 0 {
        0
    } else {
        v
    }
}

/// The (mature, immature, weighted immature) aggregates of `spk` at a point of view, before the
/// floor at zero: the committed buckets `b`, split at the watermark, moved to the point of view's
/// split (promoting the maturities in `(watermark, pov]`, or demoting those in `(pov, watermark]`
/// that are not pure re-adds), then corrected by the view diffs' deltas.
pub open spec fn spec_aggregates_at_pov(
    b: AgeBuckets,
    promoting: bool,
    due: Seq<DueEntry>,
    spk: (u16, Seq<u8>),
    view_deltas: Seq<(i128, i128, i128)>,
) -> (int, int, int) {
    let a = due_amount(due, spk, !promoting);
    let w = due_weight(due, spk, !promoting);
    let d = sum_deltas3(view_deltas);
    if promoting {
        (b.b_mat + a + d.0, b.b_imm - a + d.1, b.a_imm - w + d.2)
    } else {
        (b.b_mat - a + d.0, b.b_imm + a + d.1, b.a_imm + w + d.2)
    }
}

/// The deltas' absolute values add up to at most `bound`.
pub open spec fn deltas_bounded(d: Seq<(i128, i128, i128)>, bound: int) -> bool {
    forall|k: int| 0 <= k <= d.len() ==> {
        let p = #[trigger] sum_deltas3(d.take(k));
        -bound <= p.0 <= bound && -bound <= p.1 <= bound && -bound <= p.2 <= bound
    }
}

/// The coin-age buckets of `spk` as a point of view at `pov` sees them (the holder-reward
/// numerator's input). `b` are the committed buckets, split at the sweep `watermark` (absent:
/// `pov`); `due` are the maturation-queue entries whose maturity lies in `(watermark, pov]` when
/// `pov` is at or above the watermark, in `(pov, watermark]` otherwise; `view_deltas` are the
/// age deltas (see [`age_delta_for_spk`]) of the diffs from the committed virtual to the view.
/// Each aggregate is floored at zero (and, as an integer conversion, taken modulo its width).
pub fn buckets_at_pov(
    b: AgeBuckets,
    pov: u64,
    watermark: Option<u64>,
    due: &Vec<DueEntry>,
    spk: &ScriptPublicKey,
    view_deltas: &Vec<(i128, i128, i128)>,
) -> (r: AgeBuckets)
    requires
        b.a_imm + due_weight(due@, spk@, false) + due_weight(due@, spk@, true) <= 0x1000_0000_0000_0000_0000_0000_0000_0000,
        due_amount(due@, spk@, false) + due_amount(due@, spk@, true) <= 0x1000_0000_0000_0000_0000_0000_0000_0000,
        deltas_bounded(view_deltas@, 0x1000_0000_0000_0000_0000_0000_0000_0000),
    ensures
        ({
            let promoting = match watermark {
                Some(w) => pov >= w,
                None => true,
            };
            let v = spec_aggregates_at_pov(b, promoting, due@, spk@, view_deltas@);
            &&& r.b_mat == floor0(v.0) as u64
            &&& r.b_imm == floor0(v.1) as u64
            &&& r.a_imm == floor0(v.2) as u128
        }),
{
    let promoting = match watermark {
        Some(w) => pov >= w,
        None => true,
    };
    let demoting = !promoting;
    let mut a: i128 = 0;
    let mut w: i128 = 0;
    let mut i: usize = 0;
    assert(due@.take(0) =~= Seq::<DueEntry>::empty());
    proof {
        lemma_due_sums_monotone(due@, spk@, false, 0);
        lemma_due_sums_monotone(due@, spk@, true, 0);
        lemma_due_sums_monotone(due@, spk@, demoting, due@.len() as int);
    }
    while i < due.len()
        invariant
            i <= due@.len(),
            demoting == !promoting,
            a == due_amount(due@.take(i as int), spk@, demoting),
            w == due_weight(due@.take(i as int), spk@, demoting),
            due_amount(due@, spk@, demoting) <= 0x1000_0000_0000_0000_0000_0000_0000_0000,
            due_weight(due@, spk@, demoting) <= 0x1000_0000_0000_0000_0000_0000_0000_0000,
        decreases due@.len() - i,
    {
        proof {
            assert(due@.take(i + 1).drop_last() =~= due@.take(i as int));
            assert(due@.take(i + 1).last() == due@[i as int]);
            lemma_due_sums_monotone(due@, spk@, demoting, i + 1);
            lemma_due_sums_monotone(due@, spk@, demoting, i as int);
        }
        let e = &due[i];
        let skip = demoting && demotion_skipped(e.re_added, e.removed);
        if e.script_public_key.equals(spk) && !skip {
            let amount = e.amount as i128;
            proof {
                lemma_u64_product_fits_u128(e.amount, e.anchor);
                assert(due_weight(due@.take(i + 1), spk@, demoting) == w + e.amount * e.anchor);
            }
            let weight = amount * (e.anchor as i128);
            a = a + amount;
            w = w + weight;
        }
        i = i + 1;
    }
    assert(due@.take(due@.len() as int) =~= due@);
    let mut dm: i128 = 0;
    let mut di: i128 = 0;
    let mut da: i128 = 0;
    let mut k: usize = 0;
    assert(view_deltas@.take(0) =~= Seq::<(i128, i128, i128)>::empty());
    while k < view_deltas.len()
        invariant
            k <= view_deltas@.len(),
            deltas_bounded(view_deltas@, 0x1000_0000_0000_0000_0000_0000_0000_0000),
            (dm as int, di as int, da as int) == sum_deltas3(view_deltas@.take(k as int)),
        decreases view_deltas@.len() - k,
    {
        proof {
            assert(view_deltas@.take(k + 1).drop_last() =~= view_deltas@.take(k as int));
            assert(view_deltas@.take(k + 1).last() == view_deltas@[k as int]);
            let p = sum_deltas3(view_deltas@.take(k + 1));
            assert(-0x1000_0000_0000_0000_0000_0000_0000_0000 <= p.0 <= 0x1000_0000_0000_0000_0000_0000_0000_0000);
        }
        let d = view_deltas[k];
        dm = dm + d.0;
        di = di + d.1;
        da = da + d.2;
        k = k + 1;
    }
    assert(view_deltas@.take(view_deltas@.len() as int) =~= view_deltas@);
    proof {
        let p = sum_deltas3(view_deltas@.take(view_deltas@.len() as int));
        assert(-0x1000_0000_0000_0000_0000_0000_0000_0000 <= p.2 <= 0x1000_0000_0000_0000_0000_0000_0000_0000);
        lemma_due_sums_monotone(due@, spk@, false, 0);
        lemma_due_sums_monotone(due@, spk@, true, 0);
        assert(due@.take(0) =~= Seq::<DueEntry>::empty());
    }
    let (mat, imm_v, imm_a) = if promoting {
        (b.b_mat as i128 + a + dm, b.b_imm as i128 - a + di, b.a_imm as i128 - w + da)
    } else {
        (b.b_mat as i128 - a + dm, b.b_imm as i128 + a + di, b.a_imm as i128 + w + da)
    };
    AgeBuckets {
        b_mat: if mat < 0 { 0 } else { mat as u64 },
        b_imm: if imm_v < 0 { 0 } else { imm_v as u64 },
        a_imm: if imm_a < 0 { 0 } else { imm_a as u128 },
    }
}

/// The amounts a sweep moves for `spk`: the total amount and the total amount × anchor of the
/// moving entries (see [`moves`]), each saturating.
pub fn sweep_totals(due: &Vec<DueEntry>, spk: &ScriptPublicKey, demoting: bool) -> (r: (u64, u128))
    ensures
        r.0 == capped(due_amount(due@, spk@, demoting), u64::MAX as int),
        r.1 == capped(due_weight(due@, spk@, demoting), u128::MAX as int),
{
    let mut amount: u64 = 0;
    let mut weight: u128 = 0;
    let mut i: usize = 0;
    assert(due@.take(0) =~= Seq::<DueEntry>::empty());
    while i < due.len()
        invariant
            i <= due@.len(),
            amount == capped(due_amount(due@.take(i as int), spk@, demoting), u64::MAX as int),
            weight == capped(due_weight(due@.take(i as int), spk@, demoting), u128::MAX as int),
        decreases due@.len() - i,
    {
        proof {
            assert(due@.take(i + 1).drop_last() =~= due@.take(i as int));
            assert(due@.take(i + 1).last() == due@[i as int]);
            lemma_due_sums_monotone(due@, spk@, demoting, i as int);
        }
        let e = &due[i];
        let skip = demoting && demotion_skipped(e.re_added, e.removed);
        if e.script_public_key.equals(spk) && !skip {
            proof {
                lemma_u64_product_fits_u128(e.amount, e.anchor);
            }
            amount = amount.saturating_add(e.amount);
            weight = weight.saturating_add((e.amount as u128) * (e.anchor as u128));
        }
        i = i + 1;
    }
    assert(due@.take(due@.len() as int) =~= due@);
    (amount, weight)
}

// ---------------------------------------------------------------------------------------------
// Maturation-queue writes of a UTXO diff

/// An outpoint: transaction id and output index.
#[derive(Debug, Clone, Copy)]
pub struct Outpoint {
    pub transaction_id: Hash32,
    pub index: u32,
}

/// A maturation-queue key as plain values: (maturity score, transaction id, output index).
pub type QueueKey = (u64, Seq<u8>, u32);

/// A write to the maturation queue: insert or delete the entry of an outpoint at its maturity.
#[derive(Debug, Clone, Copy)]
pub struct QueueOp {
    pub insert: bool,
    pub due: u64,
    pub outpoint: Outpoint,
}

/// The key a write touches.
pub open spec fn op_key(op: QueueOp) -> QueueKey {
    (op.due, op.outpoint.transaction_id@, op.outpoint.index)
}

/// The queue keys after applying `ops` in order to `keys`.
pub open spec fn apply_queue_ops(keys: Set<QueueKey>, ops: Seq<QueueOp>) -> Set<QueueKey>
    decreases ops.len(),
{
    if ops.len() == 0 {
        keys
    } else {
        let before = apply_queue_ops(keys, ops.drop_last());
        if ops.last().insert {
            before.insert(op_key(ops.last()))
        } else {
            before.remove(op_key(ops.last()))
        }
    }
}

/// The write of one diff entry: at the coin's maturity score, anchor plus the maturity period.
pub open spec fn entry_op(e: (Outpoint, UtxoEntry), maturity_w: u64, insert: bool) -> QueueOp {
    QueueOp { insert, due: (e.1.effective_daa + maturity_w) as u64, outpoint: e.0 }
}

/// The maturation-queue writes of a UTXO diff: every removed coin's entry is deleted first, then
/// every added coin is enqueued (immature coins for promotion, mature ones in the retained role).
pub fn age_diff_queue_ops(remove: &Vec<(Outpoint, UtxoEntry)>, add: &Vec<(Outpoint, UtxoEntry)>, maturity_w: u64) -> (r: Vec<QueueOp>)
    requires
        forall|i: int| 0 <= i < remove@.len() ==> remove@[i].1.effective_daa + maturity_w <= u64::MAX,
        forall|i: int| 0 <= i < add@.len() ==> add@[i].1.effective_daa + maturity_w <= u64::MAX,
    ensures
        r@ == remove@.map_values(|e: (Outpoint, UtxoEntry)| entry_op(e, maturity_w, false)) + add@.map_values(
            |e: (Outpoint, UtxoEntry)| entry_op(e, maturity_w, true),
        ),
{
    let mut ops: Vec<QueueOp> = Vec::new();
    let mut i: usize = 0;
    while i < remove.len()
        invariant
            i <= remove@.len(),
            forall|j: int| 0 <= j < remove@.len() ==> remove@[j].1.effective_daa + maturity_w <= u64::MAX,
            ops@ == remove@.take(i as int).map_values(|e: (Outpoint, UtxoEntry)| entry_op(e, maturity_w, false)),
        decreases remove@.len() - i,
    {
        let e = &remove[i];
        ops.push(QueueOp { insert: false, due: e.1.effective_daa + maturity_w, outpoint: e.0 });
        proof {
            assert(remove@.take(i + 1).map_values(|e: (Outpoint, UtxoEntry)| entry_op(e, maturity_w, false)) =~= remove@.take(
                i as int,
            ).map_values(|e: (Outpoint, UtxoEntry)| entry_op(e, maturity_w, false)).push(entry_op(remove@[i as int], maturity_w, false)));
        }
        i = i + 1;
    }
    assert(remove@.take(remove@.len() as int) =~= remove@);
    let ghost deletes = ops@;
    let mut k: usize = 0;
    while k < add.len()
        invariant
            k <= add@.len(),
            forall|j: int| 0 <= j < add@.len() ==> add@[j].1.effective_daa + maturity_w <= u64::MAX,
            ops@ == deletes + add@.take(k as int).map_values(|e: (Outpoint, UtxoEntry)| entry_op(e, maturity_w, true)),
        decreases add@.len() - k,
    {
        let e = &add[k];
        ops.push(QueueOp { insert: true, due: e.1.effective_daa + maturity_w, outpoint: e.0 });
        proof {
            assert(add@.take(k + 1).map_values(|e: (Outpoint, UtxoEntry)| entry_op(e, maturity_w, true)) =~= add@.take(
                k as int,
            ).map_values(|e: (Outpoint, UtxoEntry)| entry_op(e, maturity_w, true)).push(entry_op(add@[k as int], maturity_w, true)));
        }
        k = k + 1;
    }
    assert(add@.take(add@.len() as int) =~= add@);
    ops
}

proof fn lemma_inserts_keep(keys: Set<QueueKey>, deletes: Seq<QueueOp>, inserts: Seq<QueueOp>, k: QueueKey)
    requires
        forall|i: int| 0 <= i < inserts.len() ==> (#[trigger] inserts[i]).insert,
    ensures
        (exists|i: int| 0 <= i < inserts.len() && op_key(#[trigger] inserts[i]) == k) ==> apply_queue_ops(keys, deletes + inserts).contains(k),
        (!(exists|i: int| 0 <= i < inserts.len() && op_key(#[trigger] inserts[i]) == k) && apply_queue_ops(keys, deletes + inserts).contains(k))
            ==> apply_queue_ops(keys, deletes).contains(k),
    decreases inserts.len(),
{
    if inserts.len() == 0 {
        assert(deletes + inserts =~= deletes);
    } else {
        let last = inserts.last();
        assert((deletes + inserts).drop_last() =~= deletes + inserts.drop_last());
        assert((deletes + inserts).last() == last);
        assert(inserts.drop_last().len() < inserts.len());
        assert forall|i: int| 0 <= i < inserts.drop_last().len() implies (#[trigger] inserts.drop_last()[i]).insert by {
            assert(inserts.drop_last()[i] == inserts[i]);
        }
        lemma_inserts_keep(keys, deletes, inserts.drop_last(), k);
        if exists|i: int| 0 <= i < inserts.len() && op_key(#[trigger] inserts[i]) == k {
            let i = choose|i: int| 0 <= i < inserts.len() && op_key(#[trigger] inserts[i]) == k;
            if i < inserts.len() - 1 {
                assert(inserts.drop_last()[i] == inserts[i]);
            }
        }
        if !(exists|i: int| 0 <= i < inserts.len() && op_key(#[trigger] inserts[i]) == k) {
            assert(op_key(inserts[inserts.len() - 1]) != k);
            assert forall|i: int| 0 <= i < inserts.drop_last().len() implies op_key(#[trigger] inserts.drop_last()[i]) != k by {
                assert(inserts.drop_last()[i] == inserts[i]);
            }
        }
    }
}

proof fn lemma_deletes_drop(keys: Set<QueueKey>, deletes: Seq<QueueOp>, k: QueueKey)
    requires
        forall|i: int| 0 <= i < deletes.len() ==> !(#[trigger] deletes[i]).insert,
        exists|i: int| 0 <= i < deletes.len() && op_key(#[trigger] deletes[i]) == k,
    ensures
        !apply_queue_ops(keys, deletes).contains(k),
    decreases deletes.len(),
{
    let last = deletes.last();
    if op_key(last) != k {
        let i = choose|i: int| 0 <= i < deletes.len() && op_key(#[trigger] deletes[i]) == k;
        assert(i < deletes.len() - 1);
        assert(deletes.drop_last()[i] == deletes[i]);
        assert forall|j: int| 0 <= j < deletes.drop_last().len() implies !(#[trigger] deletes.drop_last()[j]).insert by {
            assert(deletes.drop_last()[j] == deletes[j]);
        }
        lemma_deletes_drop(keys, deletes.drop_last(), k);
    }
}

/// The maturation queue after a diff's writes holds the entry of every coin the diff adds — also
/// one whose outpoint the diff removes at the same key (a re-accepted transaction), because the
/// deletes come first — and holds no entry for a coin the diff removes without re-adding it.
pub proof fn lemma_queue_writes_keep_added_coins(
    keys: Set<QueueKey>,
    remove: Seq<(Outpoint, UtxoEntry)>,
    add: Seq<(Outpoint, UtxoEntry)>,
    maturity_w: u64,
    k: QueueKey,
)
    ensures
        ({
            let deletes = remove.map_values(|e: (Outpoint, UtxoEntry)| entry_op(e, maturity_w, false));
            let inserts = add.map_values(|e: (Outpoint, UtxoEntry)| entry_op(e, maturity_w, true));
            let after = apply_queue_ops(keys, deletes + inserts);
            &&& (exists|i: int| 0 <= i < add.len() && op_key(entry_op(#[trigger] add[i], maturity_w, true)) == k) ==> after.contains(k)
            &&& ((exists|i: int| 0 <= i < remove.len() && op_key(entry_op(#[trigger] remove[i], maturity_w, false)) == k)
                && !(exists|i: int| 0 <= i < add.len() && op_key(entry_op(#[trigger] add[i], maturity_w, true)) == k))
                ==> !after.contains(k)
        }),
{
    let deletes = remove.map_values(|e: (Outpoint, UtxoEntry)| entry_op(e, maturity_w, false));
    let inserts = add.map_values(|e: (Outpoint, UtxoEntry)| entry_op(e, maturity_w, true));
    assert forall|i: int| 0 <= i < inserts.len() implies (#[trigger] inserts[i]).insert by {
        assert(inserts[i] == entry_op(add[i], maturity_w, true));
    }
    assert forall|i: int| 0 <= i < deletes.len() implies !(#[trigger] deletes[i]).insert by {
        assert(deletes[i] == entry_op(remove[i], maturity_w, false));
    }
    lemma_inserts_keep(keys, deletes, inserts, k);
    if exists|i: int| 0 <= i < add.len() && op_key(entry_op(#[trigger] add[i], maturity_w, true)) == k {
        let i = choose|i: int| 0 <= i < add.len() && op_key(entry_op(#[trigger] add[i], maturity_w, true)) == k;
        assert(inserts[i] == entry_op(add[i], maturity_w, true));
        assert(op_key(inserts[i]) == k);
    }
    if (exists|i: int| 0 <= i < remove.len() && op_key(entry_op(#[trigger] remove[i], maturity_w, false)) == k)
        && !(exists|i: int| 0 <= i < add.len() && op_key(entry_op(#[trigger] add[i], maturity_w, true)) == k) {
        let i = choose|i: int| 0 <= i < remove.len() && op_key(entry_op(#[trigger] remove[i], maturity_w, false)) == k;
        assert(deletes[i] == entry_op(remove[i], maturity_w, false));
        assert(op_key(deletes[i]) == k);
        lemma_deletes_drop(keys, deletes, k);
        assert forall|j: int| 0 <= j < inserts.len() implies op_key(#[trigger] inserts[j]) != k by {
            assert(inserts[j] == entry_op(add[j], maturity_w, true));
        }
    }
}

} // verus!
