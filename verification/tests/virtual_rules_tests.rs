use keryx_rules::hash::{ForkActivation, Hash32};
use keryx_rules::ai_rules::{AiRequestRules, Transaction, TxKind};
use keryx_rules::virtual_rules::{
    utxo_state_verdict, UtxoStateChecks, UtxoStateError,
    reward_production_window, reward_window_floor,
    block_production_entries, production_index_plan,
    template_service_state, template_timestamp, TemplateError, TemplateServiceState,
    check_pruning_point_transactions, imported_multiset_choice, production_seed_index, skips_known_disqualified,
    ChainBlockAction, ChainWalk, ImportError,
    age_selfcheck_schedule, ai_reward_minimums_table, balance_at_view, banner_should_fire, checks_service_commitment,
    coinbase_check, historical_anchor_override, in_production_catchup_window, max_virtual_parent_candidates,
    production_window, ratio_production, selfcheck_comparable, side_block_in_window, tier_bps, trust_coinbase,
    window_floor_in_retention, windowed_production, AgeSelfcheck, CoinbaseCheck, ProductionWindow,
    RewardMinimumsTable, SelectedParentPosition,
};

#[test]
fn catchup_window_trusts_then_expires() {
    assert!(!in_production_catchup_window(None, Some(100), 50), "never imported");
    assert!(!in_production_catchup_window(Some(10), None, 50));
    assert!(in_production_catchup_window(Some(10), Some(59), 50));
    assert!(!in_production_catchup_window(Some(10), Some(60), 50));
    assert!(trust_coinbase(false, false, true));
    assert!(!trust_coinbase(false, false, false));
    assert_eq!(coinbase_check(true, false, false), CoinbaseCheck::Enforce);
    assert_eq!(coinbase_check(true, true, true), CoinbaseCheck::Skip);
    assert_eq!(coinbase_check(false, false, true), CoinbaseCheck::Observe);
    assert_eq!(coinbase_check(false, false, false), CoinbaseCheck::Skip);
    assert!(checks_service_commitment(true, false));
    assert!(!checks_service_commitment(true, true));
}

#[test]
fn banners_fire_only_for_live_crossings() {
    let gate = ForkActivation { daa_score: 1_000 };
    assert!(banner_should_fire(gate, 1_005, 10_000, 10_500));
    assert!(!banner_should_fire(gate, 999, 10_000, 10_500), "before the activation");
    assert!(!banner_should_fire(gate, 1_000 + 864_000, 10_000, 10_500), "beyond the lag window");
    assert!(!banner_should_fire(gate, 1_005, 10_000, 10_000 + 3_600_000), "an old crossing");
    assert!(!banner_should_fire(ForkActivation { daa_score: 0 }, 5, 10_000, 10_500), "active from genesis");
}

#[test]
fn reward_tables_follow_the_latest_active_era() {
    let a = |d| ForkActivation { daa_score: d };
    assert_eq!(ai_reward_minimums_table(a(400), a(300), a(200), a(100), 50), RewardMinimumsTable::V1);
    assert_eq!(ai_reward_minimums_table(a(400), a(300), a(200), a(100), 150), RewardMinimumsTable::V2);
    assert_eq!(ai_reward_minimums_table(a(400), a(300), a(200), a(100), 250), RewardMinimumsTable::V2H2);
    assert_eq!(ai_reward_minimums_table(a(400), a(300), a(200), a(100), 350), RewardMinimumsTable::V2H4);
    assert_eq!(ai_reward_minimums_table(a(400), a(300), a(200), a(100), 450), RewardMinimumsTable::V2H6);
}

#[test]
fn one_historical_anchor_is_overridden() {
    let txid = Hash32::from_bytes([
        0xae, 0xb4, 0xe5, 0x36, 0xe4, 0x44, 0x21, 0x04, 0x19, 0xa3, 0xbf, 0x2f, 0xae, 0x8e, 0x58, 0x28, 0x16, 0xad, 0x36, 0x33,
        0x9b, 0xe0, 0xf4, 0x29, 0xc0, 0xea, 0xac, 0x61, 0x1e, 0x3b, 0xca, 0xb3,
    ]);
    assert_eq!(historical_anchor_override(&txid, 1), Some(74_780_462));
    assert_eq!(historical_anchor_override(&txid, 0), None);
    assert_eq!(historical_anchor_override(&Hash32::from_bytes([0; 32]), 1), None);
}

#[test]
fn rewarded_blue_inputs() {
    assert_eq!(max_virtual_parent_candidates(10), 30);
    let schedule = vec![5_000, 7_000, 10_000];
    assert_eq!(tier_bps(&schedule, 1, 10_000, false, false), 7_000);
    assert_eq!(tier_bps(&schedule, 7, 10_000, false, false), 10_000, "beyond the schedule: the full cut");
    assert_eq!(tier_bps(&schedule, 2, 10_000, true, false), 5_000, "no standing: the floor rate");
    assert_eq!(tier_bps(&schedule, 2, 10_000, true, true), 10_000);
    assert_eq!(balance_at_view(100, &vec![50, -30]), 120);
    assert_eq!(balance_at_view(100, &vec![-500]), 0);
    assert_eq!(ratio_production(3, 10), 10);
    assert_eq!(ratio_production(30, 10), 30);
    assert_eq!(ratio_production(0, 0), 1);
}

#[test]
fn production_windows_are_floored_at_the_pruning_point() {
    let chain_daa: Vec<u64> = (0..20u64).map(|i| i * 10).collect();
    // Legacy: the last w chain blocks.
    assert_eq!(
        production_window(false, &chain_daa, SelectedParentPosition::OnChain { index: 15 }, 0, 5, 0, 2),
        ProductionWindow::OnChain { index: 15, bottom: 10 }
    );
    assert_eq!(
        production_window(false, &chain_daa, SelectedParentPosition::OnChain { index: 15 }, 0, 50, 0, 2),
        ProductionWindow::OnChain { index: 15, bottom: 2 }
    );
    // H3: the highest index whose daa is at or below the bound.
    assert_eq!(
        production_window(true, &chain_daa, SelectedParentPosition::OnChain { index: 15 }, 95, 0, 100, 2),
        ProductionWindow::OnChain { index: 15, bottom: 9 }
    );
    assert_eq!(
        production_window(
            false,
            &chain_daa,
            SelectedParentPosition::SideChain { committed_tip_index: 15, removed: 3, added: 4 },
            0,
            5,
            0,
            2
        ),
        ProductionWindow::SideChain { common: 12, lo: 11 }
    );
    assert!(side_block_in_window(false, 0, 0, 12, 0, 11));
    assert!(side_block_in_window(true, 101, 100, 12, 0, 11));
    assert!(!side_block_in_window(true, 100, 100, 12, 0, 11));
    assert_eq!(windowed_production(ProductionWindow::OnChain { index: 15, bottom: 10 }, 500, 200, 0), 300);
    assert_eq!(windowed_production(ProductionWindow::OnChain { index: 15, bottom: 10 }, 100, 200, 0), 0);
    assert_eq!(windowed_production(ProductionWindow::SideChain { common: 12, lo: 11 }, 500, 200, 7), 307);
    assert_eq!(windowed_production(ProductionWindow::SideChain { common: 12, lo: 12 }, 500, 200, 7), 7);
    assert_eq!(window_floor_in_retention(Some(4), 0, 9, 0), Some(4));
    assert_eq!(window_floor_in_retention(None, 50, 9, 60), Some(9));
    assert_eq!(window_floor_in_retention(None, 70, 9, 60), None);
}

#[test]
fn selfcheck_runs_on_both_clocks() {
    assert_eq!(age_selfcheck_schedule(0, true, None, 5), AgeSelfcheck::Off);
    assert_eq!(age_selfcheck_schedule(100, false, None, 5), AgeSelfcheck::Off);
    assert_eq!(age_selfcheck_schedule(100, true, None, 5), AgeSelfcheck::Arm);
    assert_eq!(age_selfcheck_schedule(100, true, Some((5, 700_000_000_000)), 104), AgeSelfcheck::Wait);
    assert_eq!(age_selfcheck_schedule(100, true, Some((5, 1)), 105), AgeSelfcheck::Wait);
    assert_eq!(age_selfcheck_schedule(100, true, Some((5, 600_000_000_000)), 105), AgeSelfcheck::Run);
    assert!(selfcheck_comparable(None, 9));
    assert!(selfcheck_comparable(Some(9), 9));
    assert!(!selfcheck_comparable(Some(8), 9));
}

#[test]
fn chain_walk_propagates_disqualification_and_advances_the_diff_point() {
    let h = |b: u8| Hash32::from_bytes([b; 32]);
    assert!(skips_known_disqualified(false, true));
    assert!(!skips_known_disqualified(true, true));

    let mut walk = ChainWalk::new(h(0), false);
    // Block 1 on the split point, with a stored diff.
    assert_eq!(walk.step(&h(0), &h(1), false, true), ChainBlockAction::ApplyStoredDiff);
    assert_eq!(walk.diff_point().bytes, h(1).bytes);
    // Block 2 needs validation and fails.
    assert_eq!(walk.step(&h(1), &h(2), false, false), ChainBlockAction::Validate);
    walk.on_validated(&h(2), false);
    assert_eq!(walk.diff_point().bytes, h(1).bytes);
    // Block 3 sits on the disqualified block 2: it inherits the disqualification.
    assert_eq!(walk.step(&h(2), &h(3), false, false), ChainBlockAction::PropagateDisqualification { mark: true });
    assert_eq!(walk.step(&h(3), &h(4), true, false), ChainBlockAction::PropagateDisqualification { mark: false });
    assert_eq!(walk.disqualified(), 2);
    // A known disqualified block on the diff point is skipped.
    assert_eq!(walk.step(&h(1), &h(5), true, false), ChainBlockAction::SkipKnownDisqualified);
    assert_eq!(walk.step(&h(1), &h(6), false, false), ChainBlockAction::Validate);
    walk.on_validated(&h(6), true);
    assert_eq!(walk.diff_point().bytes, h(6).bytes);
    assert_eq!(walk.validated(), 1);
}

#[test]
fn pruning_point_import_checks() {
    assert_eq!(imported_multiset_choice(true, false), Ok(false));
    assert_eq!(imported_multiset_choice(false, true), Ok(true));
    assert_eq!(imported_multiset_choice(false, false), Err(ImportError::ImportedMultisetHashMismatch));
    assert_eq!(check_pruning_point_transactions(4, 5), Ok(()));
    assert_eq!(check_pruning_point_transactions(3, 5), Err(ImportError::NewPruningPointTxErrors));
    assert_eq!(check_pruning_point_transactions(0, 1), Ok(()));
    assert_eq!(production_seed_index(Some(77)), 77);
    assert_eq!(production_seed_index(None), 0);
}

#[test]
fn template_commitment_follows_the_service_activations() {
    let pp = Hash32::from_bytes([4; 32]);
    let ledger = Hash32::from_bytes([9; 32]);
    assert!(matches!(template_service_state(false, true, None, pp), Ok(TemplateServiceState::Zero)));
    assert!(matches!(template_service_state(true, false, None, pp), Ok(TemplateServiceState::Rows)));
    match template_service_state(true, true, Some(ledger), pp) {
        Ok(TemplateServiceState::RowsWithLedger(h)) => assert_eq!(h.bytes, [9; 32]),
        other => panic!("unexpected {:?}", other),
    }
    match template_service_state(true, true, None, pp) {
        Err(TemplateError::MissingServiceLedgerSnapshot(h)) => assert_eq!(h.bytes, [4; 32]),
        other => panic!("unexpected {:?}", other),
    }
}

#[test]
fn template_time_stays_above_the_past_median_time() {
    assert_eq!(template_timestamp(1_000, 5_000), 5_000);
    assert_eq!(template_timestamp(1_000, 900), 1_001);
    assert_eq!(template_timestamp(1_000, 1_001), 1_001);
}

#[test]
fn chain_path_entries_mirror_the_selected_chain_indices() {
    // Tip at 10; two removed blocks (tip first) with 2 and 1 productions; three added blocks.
    let (common, removals, additions) = production_index_plan(10, &vec![2, 1], &vec![vec![5], vec![], vec![7, 8]]);
    assert_eq!(common, 8);
    assert_eq!(removals, vec![(0, 0, 10), (0, 1, 10), (1, 0, 9)]);
    assert_eq!(additions, vec![(0, 0, 9, 5), (2, 0, 11, 7), (2, 1, 11, 8)]);
    let (common, removals, additions) = production_index_plan(4, &vec![], &vec![]);
    assert_eq!((common, removals.len(), additions.len()), (4, 0, 0));
}

#[test]
fn production_entries_follow_the_era() {
    assert_eq!(block_production_entries(false, 50, &vec![1, 2]), vec![(0, 50)]);
    assert!(block_production_entries(false, 0, &vec![1, 2]).is_empty());
    assert_eq!(block_production_entries(true, 50, &vec![3, 0, 4]), vec![(0, 3), (2, 4)]);
}

#[test]
fn reward_window_is_floored_inside_retention() {
    // Below the pruned horizon there is no floor: the reward window is never computed there.
    assert_eq!(window_floor_in_retention(None, 500, 40, 300), None);
    assert_eq!(reward_window_floor(None, 300, 40, 300), 40);
    assert_eq!(reward_window_floor(Some(7), 500, 40, 300), 7);
    let chain_daa: Vec<u64> = (0..20u64).map(|i| i * 10).collect();
    let on_chain = SelectedParentPosition::OnChain { index: 15 };
    assert_eq!(
        reward_production_window(true, &chain_daa, on_chain, 95, 0, 100, Some(2), 500, 3),
        ProductionWindow::OnChain { index: 15, bottom: 9 }
    );
    assert_eq!(
        reward_production_window(false, &chain_daa, on_chain, 95, 50, 0, None, 20, 2),
        ProductionWindow::OnChain { index: 15, bottom: 2 }
    );
}

fn plain_tx(kind: TxKind, id: u8, payload_len: usize) -> Transaction {
    Transaction {
        id: Hash32::from_bytes([id; 32]),
        kind,
        payload: vec![0u8; payload_len],
        request: None,
        response: None,
        outputs: vec![],
    }
}

fn all_pass() -> UtxoStateChecks {
    UtxoStateChecks {
        commitment_matches: true,
        merkle_root_matches: true,
        coinbase_check: CoinbaseCheck::Enforce,
        coinbase_matches: true,
        checks_service_commitment: true,
        service_commitment_matches: true,
        pruning_point_matches: true,
        pom_v3_active: false,
        model_caps_active: false,
        routed: false,
    }
}

#[test]
fn utxo_state_checks_run_in_order() {
    let rules = AiRequestRules { token_step: 1, min_priority_fee: 0, vault_script: vec![] };
    let txs = vec![plain_tx(TxKind::Coinbase, 0, 0), plain_tx(TxKind::AiResponse, 1, 40), plain_tx(TxKind::Native, 2, 0)];
    let validated = vec![(Hash32::from_bytes([1; 32]), 5), (Hash32::from_bytes([2; 32]), 5)];
    let run = |c: &UtxoStateChecks, validated: &Vec<(Hash32, u64)>, len: usize| {
        utxo_state_verdict(c, &txs, len, 100, &vec![], &[], &rules, validated)
    };
    assert!(run(&all_pass(), &validated, 40).is_ok());
    let mut c = all_pass();
    c.commitment_matches = false;
    c.merkle_root_matches = false;
    assert!(matches!(run(&c, &validated, 40), Err(UtxoStateError::BadUtxoCommitment)));
    let mut c = all_pass();
    c.coinbase_matches = false;
    c.pruning_point_matches = false;
    assert!(matches!(run(&c, &validated, 40), Err(UtxoStateError::BadCoinbaseTransaction)));
    c.coinbase_check = CoinbaseCheck::Observe;
    assert!(matches!(run(&c, &validated, 40), Err(UtxoStateError::WrongHeaderPruningPoint)));
    // The response payload length is checked before the transactions' validity.
    assert!(matches!(run(&all_pass(), &vec![], 66), Err(UtxoStateError::AiResponseV2BeforeActivation(_))));
    assert!(matches!(run(&all_pass(), &vec![], 40), Err(UtxoStateError::InvalidTransactionsInUtxoContext(2, 2))));
}
