use keryx_rules::coin_age::{
    apply_balance_delta,
    age_diff_queue_ops, buckets_at_pov, demotion_skipped, sweep_totals, DueEntry, Outpoint, derive_balance, derive_buckets, age_delta_for_spk, apply_age_delta, balance_delta_for_spk, demote, promote, requeued_at_rebuild, sweep_action,
    AgeBuckets, ScriptPublicKey, SweepAction, UtxoDiff, UtxoEntry,
};

fn spk(b: u8) -> ScriptPublicKey {
    ScriptPublicKey { version: 0, script: vec![b; 3] }
}

fn entry(s: u8, amount: u64, effective_daa: u64) -> UtxoEntry {
    UtxoEntry { script_public_key: spk(s), amount, effective_daa }
}

#[test]
fn balance_delta_counts_only_the_script() {
    let diff = UtxoDiff {
        add: vec![entry(1, 100, 10), entry(2, 7, 10), entry(1, 50, 900)],
        remove: vec![entry(1, 30, 5), entry(3, 1_000, 5)],
    };
    assert_eq!(balance_delta_for_spk(&diff, &spk(1)), 120);
    assert_eq!(balance_delta_for_spk(&diff, &spk(2)), 7);
    assert_eq!(balance_delta_for_spk(&diff, &spk(3)), -1_000);
    assert_eq!(balance_delta_for_spk(&diff, &spk(4)), 0);
    assert!(spk(1).equals(&spk(1)));
    assert!(!spk(1).equals(&ScriptPublicKey { version: 1, script: vec![1; 3] }));
}

#[test]
fn age_delta_splits_at_the_mature_bound() {
    let diff = UtxoDiff {
        add: vec![entry(1, 100, 10), entry(1, 50, 900)],
        remove: vec![entry(1, 30, 5), entry(1, 20, 800)],
    };
    // Mature: anchor at or below 500.
    let (dm, div, dia) = age_delta_for_spk(&diff, &spk(1), 500);
    assert_eq!(dm, 100 - 30);
    assert_eq!(div, 50 - 20);
    assert_eq!(dia, 50 * 900 - 20 * 800);
    // The mature and immature deltas add up to the balance delta whatever the split.
    for bound in [0u64, 5, 10, 800, 900, u64::MAX] {
        let (dm, div, _) = age_delta_for_spk(&diff, &spk(1), bound);
        assert_eq!(dm + div, balance_delta_for_spk(&diff, &spk(1)));
    }
}

#[test]
fn demotion_undoes_promotion() {
    let b = AgeBuckets { b_mat: 1_000, b_imm: 500, a_imm: 500 * 70 };
    let p = promote(b, 200, 200 * 70);
    assert_eq!(p, AgeBuckets { b_mat: 1_200, b_imm: 300, a_imm: 300 * 70 });
    assert_eq!(demote(p, 200, 200 * 70), b);
    // A shortfall in the immature buckets clamps to zero.
    let c = promote(AgeBuckets { b_mat: 0, b_imm: 10, a_imm: 10 }, 20, 40);
    assert_eq!(c, AgeBuckets { b_mat: 20, b_imm: 0, a_imm: 0 });
    let d = demote(AgeBuckets { b_mat: 5, b_imm: u64::MAX, a_imm: u128::MAX }, 10, 10);
    assert_eq!(d, AgeBuckets { b_mat: 0, b_imm: u64::MAX, a_imm: u128::MAX });
}

#[test]
fn applying_a_delta_clamps_underflow_to_zero() {
    let b = AgeBuckets { b_mat: 100, b_imm: 50, a_imm: 5_000 };
    assert_eq!(apply_age_delta(b, 20, -10, -1_000), AgeBuckets { b_mat: 120, b_imm: 40, a_imm: 4_000 });
    assert_eq!(apply_age_delta(b, -200, -60, -6_000), AgeBuckets { b_mat: 0, b_imm: 0, a_imm: 0 });
    let big = AgeBuckets { b_mat: 0, b_imm: 0, a_imm: 1u128 << 127 };
    assert_eq!(apply_age_delta(big, 0, 0, -1).a_imm, (1u128 << 127) - 1);
}

#[test]
fn sweep_direction_follows_the_score() {
    assert_eq!(sweep_action(Some(100), 150, 1_000), SweepAction::Promote { from: 100, to: 150, prune_below: 0 });
    assert_eq!(sweep_action(Some(5_000), 6_000, 1_000), SweepAction::Promote { from: 5_000, to: 6_000, prune_below: 5_000 });
    assert_eq!(sweep_action(Some(150), 100, 1_000), SweepAction::Demote { from: 100, to: 150 });
    assert_eq!(sweep_action(Some(5_000), 3_000, 1_000), SweepAction::Rebuild);
    assert_eq!(sweep_action(None, 42, 10), SweepAction::Promote { from: 42, to: 42, prune_below: 32 });
}

#[test]
fn rebuild_queues_immature_coins_and_recent_maturities() {
    // Score 10_000, maturity 1_000 (mature bound 9_000), retention 500 (retained bound 9_500).
    assert!(requeued_at_rebuild(9_500, 10_000, 1_000, 500), "immature");
    assert!(requeued_at_rebuild(8_600, 10_000, 1_000, 500), "matured at 9_600, within retention");
    assert!(!requeued_at_rebuild(8_400, 10_000, 1_000, 500), "matured at 9_400, beyond retention");
}

#[test]
fn derived_buckets_saturate_and_match_incremental_maintenance() {
    let kept = vec![entry(1, 100, 10), entry(2, 5, 10), entry(1, 40, 900)];
    let removed = vec![entry(1, 30, 950)];
    let added = vec![entry(1, 8, 20), entry(1, 9, 990)];
    let mut before_set = kept.clone();
    before_set.extend(removed.clone());
    let mut after_set = kept.clone();
    after_set.extend(added.clone());
    let before = derive_buckets(&before_set, &spk(1), 500);
    assert_eq!(before, AgeBuckets { b_mat: 100, b_imm: 70, a_imm: 40 * 900 + 30 * 950 });
    let (dm, div, dia) = age_delta_for_spk(&UtxoDiff { add: added, remove: removed }, &spk(1), 500);
    assert_eq!(apply_age_delta(before, dm, div, dia), derive_buckets(&after_set, &spk(1), 500));
    assert_eq!(derive_balance(&after_set, &spk(1)), 100 + 40 + 8 + 9);
    let huge = vec![entry(1, u64::MAX, 10), entry(1, 1, 10)];
    assert_eq!(derive_balance(&huge, &spk(1)), u64::MAX);
    assert_eq!(derive_buckets(&huge, &spk(1), 10).b_mat, u64::MAX);
}

fn due(s: u8, amount: u64, anchor: u64, re_added: bool, removed: bool) -> DueEntry {
    DueEntry { script_public_key: spk(s), amount, anchor, re_added, removed }
}

#[test]
fn the_point_of_view_sees_its_own_split() {
    let b = AgeBuckets { b_mat: 1_000, b_imm: 300, a_imm: 300 * 50 };
    // POV above the watermark: the maturities in between are promotions it already sees.
    let promoted = buckets_at_pov(b, 200, Some(100), &vec![due(1, 100, 50, false, false), due(2, 7, 1, false, false)], &spk(1), &vec![]);
    assert_eq!(promoted, AgeBuckets { b_mat: 1_100, b_imm: 200, a_imm: 200 * 50 });
    // POV below: demote them back, except a pure re-add.
    let demoted = buckets_at_pov(
        b,
        100,
        Some(200),
        &vec![due(1, 100, 40, false, false), due(1, 50, 40, true, false), due(1, 20, 40, true, true)],
        &spk(1),
        &vec![],
    );
    assert_eq!(demoted, AgeBuckets { b_mat: 880, b_imm: 420, a_imm: 300 * 50 + 120 * 40 });
    // The view deltas correct the result, floored at zero.
    let corrected = buckets_at_pov(b, 100, None, &vec![], &spk(1), &vec![(5, -400, 10), (1, 0, 0)]);
    assert_eq!(corrected, AgeBuckets { b_mat: 1_006, b_imm: 0, a_imm: 300 * 50 + 10 });
    assert!(demotion_skipped(true, false));
    assert!(!demotion_skipped(true, true));
    assert!(!demotion_skipped(false, false));
}

#[test]
fn sweep_totals_saturate_and_skip_pure_re_adds_when_demoting() {
    let entries = vec![due(1, u64::MAX, 2, false, false), due(1, 5, 3, true, false), due(2, 9, 9, false, false)];
    assert_eq!(sweep_totals(&entries, &spk(1), false), (u64::MAX, (u64::MAX as u128) * 2 + 15));
    assert_eq!(sweep_totals(&entries, &spk(1), true), (u64::MAX, (u64::MAX as u128) * 2));
}

#[test]
fn queue_writes_delete_first_so_a_re_added_coin_keeps_its_entry() {
    let op = Outpoint { transaction_id: keryx_rules::hash::Hash32::from_bytes([7; 32]), index: 1 };
    let e = entry(1, 10, 100);
    let ops = age_diff_queue_ops(&vec![(op, e.clone())], &vec![(op, e)], 50);
    assert_eq!(ops.len(), 2);
    assert!(!ops[0].insert && ops[1].insert);
    assert_eq!((ops[0].due, ops[1].due), (150, 150));
    let mut queued = std::collections::BTreeSet::new();
    for o in &ops {
        let key = (o.due, o.outpoint.transaction_id.bytes, o.outpoint.index);
        if o.insert {
            queued.insert(key);
        } else {
            queued.remove(&key);
        }
    }
    assert!(queued.contains(&(150, [7; 32], 1)));
}

#[test]
fn balance_index_follows_the_utxo_set_across_commits() {
    let s0 = vec![entry(1, 100, 10), entry(2, 5, 10), entry(1, 40, 20)];
    let mut stored = derive_balance(&s0, &spk(1));
    assert_eq!(stored, 140);
    // Commit 1 spends the 100-coin and adds 25 and 7.
    let d1 = UtxoDiff { add: vec![entry(1, 25, 30), entry(1, 7, 30)], remove: vec![entry(1, 100, 10)] };
    stored = apply_balance_delta(stored, balance_delta_for_spk(&d1, &spk(1)));
    let s1 = vec![entry(2, 5, 10), entry(1, 40, 20), entry(1, 25, 30), entry(1, 7, 30)];
    assert_eq!(stored, derive_balance(&s1, &spk(1)));
    // Commit 2 spends everything of the script: the balance returns to zero.
    let d2 = UtxoDiff { add: vec![], remove: vec![entry(1, 40, 20), entry(1, 25, 30), entry(1, 7, 30)] };
    stored = apply_balance_delta(stored, balance_delta_for_spk(&d2, &spk(1)));
    assert_eq!(stored, 0);
    assert_eq!(apply_balance_delta(3, -10), 0);
}

#[test]
fn sweep_then_diff_lands_on_the_rebuilt_buckets() {
    // Coins of script 1 anchored at 100, 300 and 600; the split moves from 200 to 400.
    let set = vec![entry(1, 10, 100), entry(1, 20, 300), entry(1, 30, 600)];
    let before = derive_buckets(&set, &spk(1), 200);
    // The queue holds the coin maturing in (200, 400]: the one anchored at 300.
    let due = vec![DueEntry { script_public_key: spk(1), amount: 20, anchor: 300, re_added: false, removed: false }];
    let (amount, weight) = sweep_totals(&due, &spk(1), false);
    let swept = promote(before, amount, weight);
    assert_eq!(swept, derive_buckets(&set, &spk(1), 400));
    // Then the diff: spend the 600-coin, add one anchored at 350 and one at 450, classified at 400.
    let diff = UtxoDiff { add: vec![entry(1, 5, 350), entry(1, 8, 450)], remove: vec![entry(1, 30, 600)] };
    let (dm, di, da) = age_delta_for_spk(&diff, &spk(1), 400);
    let after = apply_age_delta(swept, dm, di, da);
    let rebuilt = vec![entry(1, 10, 100), entry(1, 20, 300), entry(1, 5, 350), entry(1, 8, 450)];
    assert_eq!(after, derive_buckets(&rebuilt, &spk(1), 400));
    // Moving back down to 200 demotes the same coin again.
    let (amount, weight) = sweep_totals(&due, &spk(1), true);
    assert_eq!(demote(swept, amount, weight), before);
}
