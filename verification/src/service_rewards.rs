//! Coinbase reward mints of the service bond: which finalized reward wins a block's coinbase
//! mints, in which order, and how many.

use vstd::prelude::*;
use crate::coin_age::ScriptPublicKey;
use crate::hash::{Hash32, lex_lt, lemma_lex_lt_irreflexive, lemma_lex_lt_transitive};
use vstd::multiset::Multiset;

verus! {

broadcast use vstd::seq_lib::group_to_multiset_ensures;

/// A reward win finalized at some event daa: the request it rewards, the amount, and the payout
/// script (`None`: no payout script, the reward stays burned).
#[derive(Debug, Clone)]
pub struct RewardWin {
    pub request_hash: Hash32,
    pub amount: u64,
    pub spk: Option<ScriptPublicKey>,
}

/// A win that is minted: it has a payout script.
pub open spec fn payable(w: RewardWin) -> bool {
    w.spk is Some
}

/// The wins are in increasing request-hash order (equal hashes in any order).
pub open spec fn hash_sorted(s: Seq<RewardWin>) -> bool {
    forall|i: int, j: int| 0 <= i < j < s.len() ==> !lex_lt(s[j].request_hash@, s[i].request_hash@)
}

/// The groups of wins concatenated in order.
pub open spec fn concat_groups(gs: Seq<Seq<RewardWin>>) -> Seq<RewardWin>
    decreases gs.len(),
{
    if gs.len() == 0 {
        Seq::empty()
    } else {
        concat_groups(gs.drop_last()) + gs.last()
    }
}

/// A mint: the payout script and the amount.
pub open spec fn mint_of(w: RewardWin) -> (ScriptPublicKey, u64) {
    (w.spk->0, w.amount)
}

/// `r` are the mints of the window `(lo, hi]` when `gs[k]` is the sorted payable group of
/// `recent[k]` (empty outside the window): the concatenated groups, at most `max_mints` of them.
pub open spec fn mints_from_groups(
    gs: Seq<Seq<RewardWin>>,
    recent: Seq<(u64, Vec<RewardWin>)>,
    lo: u64,
    hi: u64,
    max_mints: usize,
    r: Seq<(ScriptPublicKey, u64)>,
) -> bool {
    &&& gs.len() == recent.len()
    &&& forall|k: int|
        0 <= k < gs.len() ==> if lo < #[trigger] recent[k].0 <= hi {
            &&& hash_sorted(gs[k])
            &&& gs[k].to_multiset() == recent[k].1@.filter(|w: RewardWin| payable(w)).to_multiset()
        } else {
            gs[k].len() == 0
        }
    &&& ({
        let all = concat_groups(gs);
        let n = if all.len() <= max_mints { all.len() as int } else { max_mints as int };
        r == all.take(n).map_values(|w: RewardWin| mint_of(w))
    })
}

/// The groups concatenated in order, each win tagged with the daa of its group in `recent`.
pub open spec fn daa_tagged(gs: Seq<Seq<RewardWin>>, recent: Seq<(u64, Vec<RewardWin>)>) -> Seq<(u64, RewardWin)>
    decreases gs.len(),
{
    if gs.len() == 0 {
        Seq::empty()
    } else {
        daa_tagged(gs.drop_last(), recent) + gs.last().map_values(|w: RewardWin| (recent[gs.len() - 1].0, w))
    }
}

/// The tagged wins are ordered by daa, then by request hash (equal hashes in any order).
pub open spec fn daa_hash_ordered(t: Seq<(u64, RewardWin)>) -> bool {
    forall|i: int, j: int|
        #![trigger t[i], t[j]]
        0 <= i < j < t.len() ==> t[i].0 < t[j].0 || (t[i].0 == t[j].0 && !lex_lt(
            t[j].1.request_hash@,
            t[i].1.request_hash@,
        ))
}

/// Hash-sorted groups of strictly increasing daas, concatenated, are ordered by (daa, hash).
proof fn lemma_groups_ordered(gs: Seq<Seq<RewardWin>>, recent: Seq<(u64, Vec<RewardWin>)>)
    requires
        gs.len() <= recent.len(),
        forall|i: int, j: int| 0 <= i < j < recent.len() ==> recent[i].0 < recent[j].0,
        forall|k: int| 0 <= k < gs.len() ==> hash_sorted(#[trigger] gs[k]),
    ensures
        daa_hash_ordered(daa_tagged(gs, recent)),
        daa_tagged(gs, recent).map_values(|p: (u64, RewardWin)| p.1) == concat_groups(gs),
        gs.len() > 0 ==> forall|i: int| 0 <= i < daa_tagged(gs, recent).len() ==> #[trigger] daa_tagged(gs, recent)[i].0
            <= recent[gs.len() - 1].0,
    decreases gs.len(),
{
    if gs.len() > 0 {
        let m = gs.len() - 1;
        let prev = gs.drop_last();
        assert forall|k: int| 0 <= k < prev.len() implies hash_sorted(#[trigger] prev[k]) by {
            assert(prev[k] == gs[k]);
        }
        lemma_groups_ordered(prev, recent);
        let p = daa_tagged(prev, recent);
        let g = gs.last().map_values(|w: RewardWin| (recent[m].0, w));
        let t = daa_tagged(gs, recent);
        assert(t == p + g);
        assert(hash_sorted(gs[m]));
        if m > 0 {
            assert(recent[m - 1].0 < recent[m].0);
        }
        assert forall|i: int, j: int| 0 <= i < j < t.len() implies t[i].0 < t[j].0 || (t[i].0 == t[j].0 && !lex_lt(
            t[j].1.request_hash@,
            t[i].1.request_hash@,
        )) by {
            if j < p.len() {
                assert(t[i] == p[i] && t[j] == p[j]);
                assert(daa_hash_ordered(p));
                assert(p[i].0 < p[j].0 || (p[i].0 == p[j].0 && !lex_lt(p[j].1.request_hash@, p[i].1.request_hash@)));
            } else if i < p.len() {
                assert(t[i] == p[i]);
                assert(t[j] == g[j - p.len()]);
                assert(p[i].0 <= recent[m - 1].0);
                assert(g[j - p.len()].0 == recent[m].0);
            } else {
                assert(t[i] == g[i - p.len()] && t[j] == g[j - p.len()]);
                let a = i - p.len();
                let b = j - p.len();
                assert(gs.last() == gs[m]);
                assert(g[a] == (recent[m].0, gs[m][a]));
                assert(g[b] == (recent[m].0, gs[m][b]));
                assert(!lex_lt(gs[m][b].request_hash@, gs[m][a].request_hash@));
            }
        }
        assert forall|i: int| 0 <= i < t.len() implies #[trigger] t[i].0 <= recent[m].0 by {
            if i < p.len() {
                assert(t[i] == p[i]);
            } else {
                assert(t[i] == g[i - p.len()]);
            }
        }
        assert(t.map_values(|q: (u64, RewardWin)| q.1) =~= p.map_values(|q: (u64, RewardWin)| q.1) + gs.last());
    } else {
        assert(daa_tagged(gs, recent).map_values(|p: (u64, RewardWin)| p.1) =~= concat_groups(gs));
    }
}

/// Every element of a permutation of the payable wins of `group` is payable.
proof fn lemma_sorted_group_payable(g: Seq<RewardWin>, group: Seq<RewardWin>)
    requires
        g.to_multiset() == group.filter(|w: RewardWin| payable(w)).to_multiset(),
    ensures
        forall|i: int| 0 <= i < g.len() ==> payable(#[trigger] g[i]),
{
    broadcast use vstd::seq_lib::group_filter_ensures;
    let f = group.filter(|w: RewardWin| payable(w));
    assert forall|i: int| 0 <= i < g.len() implies payable(#[trigger] g[i]) by {
        assert(g.contains(g[i]));
        assert(g.to_multiset().count(g[i]) > 0);
        assert(f.to_multiset().count(g[i]) > 0);
        assert(f.contains(g[i]));
        let j = choose|j: int| 0 <= j < f.len() && f[j] == g[i];
        assert(payable(f[j]));
    }
}

/// The payable wins of `v`, in order.
fn payable_wins(v: Vec<RewardWin>) -> (r: Vec<RewardWin>)
    ensures
        r@ == v@.filter(|w: RewardWin| payable(w)),
{
    let ghost all = v@;
    let ghost pred = |w: RewardWin| payable(w);
    let mut rest = v;
    let mut out: Vec<RewardWin> = Vec::new();
    let total = rest.len();
    let mut i: usize = 0;
    proof {
        reveal(Seq::filter);
        assert(all.take(0) =~= Seq::<RewardWin>::empty());
    }
    while rest.len() > 0
        invariant
            i <= all.len(),
            total == all.len(),
            rest@ == all.skip(i as int),
            rest@.len() == all.len() - i,
            out@ == all.take(i as int).filter(pred),
            pred == (|w: RewardWin| payable(w)),
        decreases rest@.len(),
    {
        let w = rest.remove(0);
        proof {
            reveal(Seq::filter);
            assert(all.take(i + 1).drop_last() =~= all.take(i as int));
            assert(all.take(i + 1).last() == all[i as int]);
            assert(all.skip(i as int)[0] == all[i as int]);
            assert(all.skip(i as int).skip(1) =~= all.skip(i + 1));
            assert(rest@ =~= all.skip(i + 1));
        }
        if w.spk.is_some() {
            out.push(w);
        }
        i = i + 1;
    }
    proof {
        assert(all.take(i as int) =~= all);
    }
    out
}

/// The position of a win with the least request hash among `v` (non-empty).
fn least_hash_position(v: &Vec<RewardWin>) -> (m: usize)
    requires
        v@.len() > 0,
    ensures
        m < v@.len(),
        forall|k: int| 0 <= k < v@.len() ==> !lex_lt(v@[k].request_hash@, v@[m as int].request_hash@),
{
    let mut m: usize = 0;
    let mut k: usize = 1;
    proof {
        lemma_lex_lt_irreflexive(v@[0].request_hash@);
    }
    while k < v.len()
        invariant
            1 <= k <= v@.len(),
            m < k,
            forall|j: int| 0 <= j < k ==> !lex_lt(v@[j].request_hash@, v@[m as int].request_hash@),
        decreases v@.len() - k,
    {
        if v[k].request_hash.less_than(&v[m].request_hash) {
            proof {
                assert forall|j: int| 0 <= j < k implies !lex_lt(v@[j].request_hash@, v@[k as int].request_hash@) by {
                    if lex_lt(v@[j].request_hash@, v@[k as int].request_hash@) {
                        lemma_lex_lt_transitive(v@[j].request_hash@, v@[k as int].request_hash@, v@[m as int].request_hash@);
                    }
                }
                lemma_lex_lt_irreflexive(v@[k as int].request_hash@);
            }
            m = k;
        }
        k = k + 1;
    }
    m
}

/// The wins of `v` in increasing request-hash order: a sorted permutation of `v`.
pub fn sort_by_request_hash(v: Vec<RewardWin>) -> (r: Vec<RewardWin>)
    ensures
        hash_sorted(r@),
        r@.to_multiset() == v@.to_multiset(),
{
    let ghost all = v@;
    let mut rest = v;
    let mut out: Vec<RewardWin> = Vec::new();
    while rest.len() > 0
        invariant
            out@.to_multiset().add(rest@.to_multiset()) == all.to_multiset(),
            hash_sorted(out@),
            forall|i: int, j: int| 0 <= i < out@.len() && 0 <= j < rest@.len() ==> !lex_lt(rest@[j].request_hash@, out@[i].request_hash@),
        decreases rest@.len(),
    {
        let m = least_hash_position(&rest);
        let ghost before = rest@;
        let ghost out_before = out@;
        let w = rest.remove(m);
        proof {
            assert(w == before[m as int]);
            assert(rest@ == before.remove(m as int));
            assert(before.remove(m as int).to_multiset() =~= before.to_multiset().remove(w));
            assert(before.to_multiset().count(w) > 0) by {
                assert(before.contains(w)) by {
                    assert(before[m as int] == w);
                }
            }
        }
        out.push(w);
        proof {
            assert(out@ == out_before.push(w));
            assert(out@.to_multiset() =~= out_before.to_multiset().insert(w));
            assert(out@.to_multiset().add(rest@.to_multiset()) =~= out_before.to_multiset().add(before.to_multiset()));
            assert forall|i: int, j: int| 0 <= i < out@.len() && 0 <= j < rest@.len() implies !lex_lt(
                rest@[j].request_hash@,
                out@[i].request_hash@,
            ) by {
                let jj = if j < m { j } else { j + 1 };
                assert(rest@[j] == before[jj]);
                if i < out_before.len() {
                    assert(out@[i] == out_before[i]);
                } else {
                    assert(out@[i] == w);
                }
            }
            assert forall|i: int, j: int| 0 <= i < j < out@.len() implies !lex_lt(out@[j].request_hash@, out@[i].request_hash@) by {
                if j < out_before.len() {
                    assert(out@[i] == out_before[i]);
                    assert(out@[j] == out_before[j]);
                } else {
                    assert(out@[j] == w);
                    assert(out@[i] == out_before[i]);
                    assert(before[m as int] == w);
                }
            }
        }
    }
    proof {
        assert(rest@.len() == 0);
        assert(rest@.to_multiset() =~= Multiset::<RewardWin>::empty());
        assert(out@.to_multiset().add(Multiset::<RewardWin>::empty()) =~= out@.to_multiset());
    }
    out
}

/// The daa window `(lo, hi]` whose finalized wins a block with selected parent `sp` (at
/// `sp_daa`, its own selected parent at `parent_daa`, zero without one) mints: both bounds a
/// finality depth back.
pub open spec fn spec_mint_window(parent_daa: Option<u64>, sp_daa: u64, finality_depth: u64) -> (u64, u64) {
    let p = match parent_daa {
        Some(d) => d,
        None => 0,
    };
    (
        if p >= finality_depth { (p - finality_depth) as u64 } else { 0 },
        if sp_daa >= finality_depth { (sp_daa - finality_depth) as u64 } else { 0 },
    )
}

/// The coinbase reward mints of a block with selected parent at `sp_daa`. `recent` holds the
/// finalized wins grouped by event daa, one group per daa, in strictly increasing daa order. Before reward routing, or when
/// the window `(lo, hi]` (see [`spec_mint_window`]) is empty, nothing is minted. Otherwise the
/// payable wins of every group inside the window are taken in daa order, each group in
/// increasing request-hash order, at most `max_mints` of them.
pub fn reward_mints(
    routing_active: bool,
    parent_daa: Option<u64>,
    sp_daa: u64,
    finality_depth: u64,
    recent: Vec<(u64, Vec<RewardWin>)>,
    max_mints: usize,
) -> (r: Vec<(ScriptPublicKey, u64)>)
    requires
        forall|i: int, j: int| 0 <= i < j < recent@.len() ==> recent@[i].0 < recent@[j].0,
    ensures
        ({
            let (lo, hi) = spec_mint_window(parent_daa, sp_daa, finality_depth);
            if !routing_active || hi <= lo {
                r@.len() == 0
            } else {
                exists|gs: Seq<Seq<RewardWin>>|
                    #[trigger] mints_from_groups(gs, recent@, lo, hi, max_mints, r@) && daa_hash_ordered(daa_tagged(gs, recent@))
                        && daa_tagged(gs, recent@).map_values(|p: (u64, RewardWin)| p.1) == concat_groups(gs)
            }
        }),
{
    let lo = match parent_daa {
        Some(d) => d,
        None => 0,
    }.saturating_sub(finality_depth);
    let hi = sp_daa.saturating_sub(finality_depth);
    if !routing_active || hi <= lo {
        return Vec::new();
    }
    let ghost groups = recent@;
    let mut rest = recent;
    let mut wins: Vec<RewardWin> = Vec::new();
    let ghost mut gs: Seq<Seq<RewardWin>> = Seq::empty();
    let total = rest.len();
    while rest.len() > 0
        invariant
            gs.len() <= groups.len(),
            total == groups.len(),
            rest@ == groups.skip(gs.len() as int),
            rest@.len() == groups.len() - gs.len(),
            wins@ == concat_groups(gs),
            forall|j: int| 0 <= j < wins@.len() ==> payable(#[trigger] wins@[j]),
            forall|k: int|
                0 <= k < gs.len() ==> if lo < #[trigger] groups[k].0 <= hi {
                    &&& hash_sorted(gs[k])
                    &&& gs[k].to_multiset() == groups[k].1@.filter(|w: RewardWin| payable(w)).to_multiset()
                } else {
                    gs[k].len() == 0
                },
        decreases rest@.len(),
    {
        let ghost k = gs.len() as int;
        let (daa, group) = rest.remove(0);
        proof {
            assert(groups.skip(k)[0] == groups[k]);
            assert(groups.skip(k).skip(1) =~= groups.skip(k + 1));
        }
        if lo < daa && daa <= hi {
            let payable_group = payable_wins(group);
            let sorted = sort_by_request_hash(payable_group);
            let ghost g = sorted@;
            let ghost wins_before = wins@;
            proof {
                lemma_sorted_group_payable(g, group@);
            }
            let mut sorted = sorted;
            wins.append(&mut sorted);
            proof {
                assert(wins@ == wins_before + g);
                assert forall|j: int| 0 <= j < wins@.len() implies payable(#[trigger] wins@[j]) by {
                    if j < wins_before.len() {
                        assert(wins@[j] == wins_before[j]);
                    } else {
                        assert(wins@[j] == g[j - wins_before.len()]);
                    }
                }
                let gs2 = gs.push(g);
                assert(gs2.drop_last() =~= gs);
                assert(concat_groups(gs2) == concat_groups(gs) + g);
                gs = gs2;
            }
        } else {
            proof {
                let gs2 = gs.push(Seq::<RewardWin>::empty());
                assert(gs2.drop_last() =~= gs);
                assert(concat_groups(gs2) =~= concat_groups(gs));
                gs = gs2;
            }
        }
        proof {
            assert(rest@ =~= groups.skip(gs.len() as int));
        }
    }
    let ghost all = wins@;
    if wins.len() > max_mints {
        wins.truncate(max_mints);
    }
    let n_exec = wins.len();
    let ghost n = n_exec as int;
    assert(wins@ =~= all.take(n));
    let mut mints: Vec<(ScriptPublicKey, u64)> = Vec::new();
    let mut i: usize = 0;
    while wins.len() > 0
        invariant
            i <= n,
            n == n_exec,
            n <= all.len(),
            wins@ == all.take(n).skip(i as int),
            wins@.len() == n - i,
            mints@ == all.take(n).take(i as int).map_values(|w: RewardWin| mint_of(w)),
            forall|k: int| 0 <= k < all.len() ==> payable(#[trigger] all[k]),
        decreases wins@.len(),
    {
        let w = wins.remove(0);
        proof {
            assert(all.take(n).skip(i as int)[0] == all.take(n)[i as int]);
            assert(all.take(n).skip(i as int).skip(1) =~= all.take(n).skip(i + 1));
            assert(w == all[i as int]);
            assert(payable(all[i as int]));
        }
        let spk = match w.spk {
            Some(s) => s,
            None => {
                proof {
                    assert(false);
                }
                return Vec::new();
            },
        };
        mints.push((spk, w.amount));
        proof {
            assert(all.take(n).take(i + 1).map_values(|w: RewardWin| mint_of(w)) =~= all.take(n).take(i as int).map_values(
                |w: RewardWin| mint_of(w),
            ).push(mint_of(all[i as int])));
        }
        i = i + 1;
    }
    proof {
        assert(all.take(n).take(n) =~= all.take(n));
        assert(gs.len() == groups.len());
        assert(mints_from_groups(gs, groups, lo, hi, max_mints, mints@));
        assert forall|k: int| 0 <= k < gs.len() implies hash_sorted(#[trigger] gs[k]) by {
            if !(lo < groups[k].0 <= hi) {
                assert(gs[k].len() == 0);
            }
        }
        lemma_groups_ordered(gs, groups);
    }
    mints
}

} // verus!
