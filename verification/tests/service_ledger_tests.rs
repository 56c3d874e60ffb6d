use keryx_rules::hash::Hash32;
use keryx_rules::service_ledger::{
    latest_sample_at_or_below, ledger_recovery, BlockEvents, LedgerProgress, refold_start, snapshot_stale, LedgerRecovery, ServiceEventQueue,
};

#[test]
fn recovery_undoes_when_the_log_covers_the_reorg() {
    assert_eq!(ledger_recovery(Some(10), 10, false, &vec![]), LedgerRecovery::InPlace);
    assert_eq!(ledger_recovery(None, 10, true, &vec![]), LedgerRecovery::Refold);
    assert_eq!(ledger_recovery(Some(12), 10, true, &vec![9, 11, 12]), LedgerRecovery::UndoAndRestore { from_tip: 12 });
    assert_eq!(ledger_recovery(Some(12), 10, true, &vec![12]), LedgerRecovery::Refold, "index 11 has no undo entry");
    assert_eq!(ledger_recovery(Some(12), 10, false, &vec![11, 12]), LedgerRecovery::Refold, "no snapshot at the ancestor");
    assert_eq!(ledger_recovery(Some(8), 10, true, &vec![9, 10]), LedgerRecovery::Refold, "the vault is below the ancestor");
}

#[test]
fn finalized_events_pop_in_order_with_one_seal_per_daa() {
    let mut q: ServiceEventQueue<&str> = ServiceEventQueue::new();
    q.push(1, 100, "a");
    q.push(1, 100, "b");
    q.push(2, 105, "c");
    q.push(3, 110, "d");
    q.push(4, 130, "e");
    let (popped, seals) = q.pop_final(20, 130);
    assert_eq!(popped, vec![(100, "a"), (100, "b"), (105, "c"), (110, "d")]);
    assert_eq!(seals, vec![100, 105, 110]);
    assert_eq!(q.len(), 1);
    let (popped, seals) = q.pop_final(20, 149);
    assert!(popped.is_empty());
    assert!(seals.is_empty());
    let (popped, seals) = q.pop_final(20, 150);
    assert_eq!(popped, vec![(130, "e")]);
    assert_eq!(seals, vec![130]);
}

#[test]
fn a_reorg_drops_the_events_above_the_common_ancestor() {
    let mut q: ServiceEventQueue<u32> = ServiceEventQueue::new();
    q.push(5, 50, 1);
    q.push(6, 60, 2);
    q.push(7, 70, 3);
    q.push(8, 80, 4);
    q.retain_up_to(6);
    assert_eq!(q.len(), 2);
    let (popped, seals) = q.pop_final(0, u64::MAX);
    assert_eq!(popped, vec![(50, 1), (60, 2)]);
    assert_eq!(seals, vec![50, 60]);
}

#[test]
fn block_events_queue_sightings_first() {
    let mut q: ServiceEventQueue<&str> = ServiceEventQueue::new();
    q.push(4, 90, "earlier");
    q.push_block_events(5, 100, vec!["sight-a", "sight-b"], vec!["miss"], vec![], vec!["reward"]);
    assert_eq!(q.len(), 5);
    let (popped, seals) = q.pop_final(10, 110);
    let order: Vec<&str> = popped.iter().map(|(_, e)| *e).collect();
    assert_eq!(order, vec!["earlier", "sight-a", "sight-b", "miss", "reward"]);
    assert_eq!(popped[1].0, 100);
    assert_eq!(seals, vec![90, 100]);
}

#[test]
fn refold_starts_at_the_frontier_or_a_finality_depth_down() {
    assert_eq!(refold_start(500, 10_000, 1_000, 200), (500, 300));
    assert_eq!(refold_start(0, 10_000, 1_000, 200), (9_000, 8_800));
    assert_eq!(refold_start(0, 600, 1_000, 200), (0, 0));
    assert_eq!(refold_start(100, 10_000, 1_000, 200), (100, 0));
}

#[test]
fn refold_restores_the_latest_sample_at_or_below_the_target() {
    let h = |b: u8| Hash32::from_bytes([b; 32]);
    let samples = vec![(Some(7), h(1)), (None, h(9)), (Some(12), h(2)), (Some(9), h(3)), (Some(9), h(5))];
    assert_eq!(latest_sample_at_or_below(&samples, 10), Some(4), "index 9 twice: the larger hash wins");
    assert_eq!(latest_sample_at_or_below(&samples, 12), Some(2));
    assert_eq!(latest_sample_at_or_below(&samples, 8), Some(0));
    assert_eq!(latest_sample_at_or_below(&samples, 6), None);
    assert_eq!(latest_sample_at_or_below(&vec![], 6), None);
}

#[test]
fn samples_more_than_a_finality_depth_below_the_pruning_point_are_stale() {
    assert!(snapshot_stale(Some(899), 2_000, 1_000));
    assert!(!snapshot_stale(Some(1_000), 2_000, 1_000));
    assert!(!snapshot_stale(Some(5), 900, 1_000));
    assert!(snapshot_stale(None, 0, 1_000));
}

fn block(daa: u64, sightings: Vec<&'static str>, misses: Vec<&'static str>) -> BlockEvents<&'static str> {
    BlockEvents { daa, sightings, misses, resets: vec![], rewards: vec![] }
}

#[test]
fn ledger_advance_finalizes_in_chain_order_and_keeps_the_frontier() {
    let mut ledger: LedgerProgress<&str> = LedgerProgress::new();
    // First advance: blocks at indices 1..=3 (common 0), nothing final yet at tip daa 120.
    let (rec, popped, seals) = ledger.advance(
        3,
        vec![block(100, vec!["s1"], vec!["m1"]), block(110, vec![], vec!["m2"]), block(120, vec!["s3"], vec![])],
        false,
        &vec![],
        ServiceEventQueue::new(),
        50,
        120,
    );
    assert_eq!(rec, LedgerRecovery::Refold);
    assert!(popped.is_empty() && seals.is_empty());
    // A reorg back to index 2 (ledger at 3, undo for 3, snapshot at 2) adding two blocks up to
    // index 4: block 3's events are dropped, those of daa 100 and 110 become final at tip 165.
    let (rec, popped, seals) = ledger.advance(
        4,
        vec![block(130, vec!["s3b"], vec![]), block(140, vec![], vec!["m4"])],
        true,
        &vec![3],
        ServiceEventQueue::new(),
        50,
        165,
    );
    assert_eq!(rec, LedgerRecovery::UndoAndRestore { from_tip: 3 });
    let order: Vec<&str> = popped.iter().map(|(_, e)| *e).collect();
    assert_eq!(order, vec!["s1", "m1", "m2"]);
    assert_eq!(seals, vec![100, 110]);
    // The frontier never moves down, and the next advance finalizes the rest.
    let (_, popped, _) = ledger.advance(4, vec![], true, &vec![], ServiceEventQueue::new(), 50, 10_000);
    let order: Vec<&str> = popped.iter().map(|(_, e)| *e).collect();
    assert_eq!(order, vec!["s3b", "m4"]);
}
