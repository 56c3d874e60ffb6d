use keryx_rules::ai_rules::TxOutput;
use keryx_rules::hash::Hash32;
use keryx_rules::service_bond::{
    burn_key_outpoint, burned_spends, eligibility_floor, escrow_claims, imported_producers_in_window, recent_producers, PaidBlue,
};
use keryx_rules::service_bond::{
    chain_index_at_or_below_daa, csv_escrow_pubkey, csv_pay_to_pubkey, index_at_or_below_daa, miss_strike_record,
    opens_finality_epoch, service_chain_index_at_or_below_daa, suspension_deadline, suspension_in_force, MissLog,
    StandingIndex, OP_CHECK_SEQUENCE_VERIFY, OP_CHECK_SIG, OP_DATA_32,
};

/// The standing lag the tests run with.
const LAG: u64 = 1_000;

#[test]
fn standing_ignores_strikes_post_v2() {
    let a = Hash32::from_bytes([1u8; 32]);
    let mut idx = StandingIndex::default();
    idx.record_sighting(a, 0);
    idx.record_strike(a, 100, 1, 100);
    let pov = LAG + 200;

    // Pre-gate a strike at the anchor revokes standing; at the activation it no longer does.
    assert!(!idx.standing(&a, pov, false, LAG));
    assert!(idx.standing(&a, pov, true, LAG));

    // The sighting probation is era-independent: a young identity has no standing either way.
    let b = Hash32::from_bytes([2u8; 32]);
    idx.record_sighting(b, pov - 10);
    assert!(!idx.standing(&b, pov, false, LAG));
    assert!(!idx.standing(&b, pov, true, LAG));

    // A served reset (count 0) at the anchor restores standing in both eras.
    idx.record_strike(a, 150, 0, 100);
    assert!(idx.standing(&a, pov, false, LAG));
    assert!(idx.standing(&a, pov, true, LAG));
}

#[test]
fn csv_escrow_pubkey_extracts_the_locked_key() {
    // <seq_len=3> <3 seq bytes> OP_CSV OpData32 <key 32> OP_CHECKSIG
    let mut script = vec![3u8, 0xAA, 0xBB, 0xCC];
    script.push(OP_CHECK_SEQUENCE_VERIFY);
    script.push(OP_DATA_32);
    script.extend_from_slice(&[0x11u8; 32]);
    script.push(OP_CHECK_SIG);
    assert_eq!(csv_escrow_pubkey(&script), Some([0x11u8; 32]));
    assert_eq!(csv_escrow_pubkey(&[0u8; 10]), None);
}

#[test]
fn csv_layout_rejects_bad_lengths_and_opcodes() {
    let mut script = vec![1u8, 0x05, OP_CHECK_SEQUENCE_VERIFY, OP_DATA_32];
    script.extend_from_slice(&[0x22u8; 32]);
    script.push(OP_CHECK_SIG);
    assert!(csv_pay_to_pubkey(&script));
    let mut wrong_sig = script.clone();
    *wrong_sig.last_mut().unwrap() = 0x00;
    assert!(!csv_pay_to_pubkey(&wrong_sig));
    let mut nine = vec![9u8; 9 + 36];
    nine[10] = OP_CHECK_SEQUENCE_VERIFY;
    nine[11] = OP_DATA_32;
    nine[44] = OP_CHECK_SIG;
    assert!(!csv_pay_to_pubkey(&nine), "a sequence push longer than 8 bytes is not the layout");
    assert!(!csv_pay_to_pubkey(&[]));
}

#[test]
fn strikes_before_the_anchor_count_and_sightings_are_recorded_once() {
    let a = Hash32::from_bytes([9u8; 32]);
    let mut idx = StandingIndex::new();
    assert!(idx.record_sighting(a, 10));
    assert!(!idx.record_sighting(a, 20), "an identity is sighted once");
    assert!(idx.record_strike(a, 100, 2, 100));
    assert!(!idx.record_strike(a, 100, 3, 100), "one row per event daa");
    assert!(idx.record_strike(a, 300, 0, 300));
    let strikes = idx.lifetime_strikes();
    assert_eq!(strikes.len(), 1);
    assert_eq!(strikes[0].1, 2);
    // A strike after the anchor does not count yet.
    assert!(idx.standing(&a, 90 + LAG, false, LAG));
}

#[test]
fn daa_search_finds_the_highest_index_at_or_below_the_bound() {
    let daa = vec![0u64, 10, 20, 30, 40, 50, 60];
    assert_eq!(index_at_or_below_daa(&daa, 35, 0, 6), 3);
    assert_eq!(index_at_or_below_daa(&daa, 60, 0, 6), 6);
    assert_eq!(index_at_or_below_daa(&daa, 5, 1, 6), 1, "even the floor lies above the bound");
    assert_eq!(service_chain_index_at_or_below_daa(&daa, 25, 6, 0), 2);
    assert_eq!(chain_index_at_or_below_daa(&daa, 25, 6, 0, 3), 3, "the search stops at hi - window");
    assert_eq!(chain_index_at_or_below_daa(&daa, 45, 6, 0, 3), 4);
}

#[test]
fn suspensions_run_for_their_window() {
    assert!(!suspension_in_force(1_000, 100, 899));
    assert!(suspension_in_force(1_000, 100, 900));
    assert!(suspension_in_force(1_000, 100, 999));
    assert!(!suspension_in_force(1_000, 100, 1_000));
    assert_eq!(suspension_deadline(500, 0, 500, 200, 100), Some(800));
    assert_eq!(suspension_deadline(500, 0, 400, 200, 100), None, "a served reset is no suspension");
    assert_eq!(suspension_deadline(500, 2, 500, 200, 100), None);
    assert_eq!(miss_strike_record(77, 3, true), (0, 77));
    assert_eq!(miss_strike_record(77, 3, false), (3, 77));
    assert!(opens_finality_epoch(99, 100, 100));
    assert!(!opens_finality_epoch(100, 199, 100));
}

#[test]
fn misses_are_announced_once() {
    let m = Hash32::from_bytes([1u8; 32]);
    let r = Hash32::from_bytes([2u8; 32]);
    let mut log = MissLog::new();
    let fresh = log.record(10, &vec![(m, r, 1), (m, r, 1), (m, r, 2)]);
    assert_eq!(fresh, vec![0, 2]);
    let fresh = log.record(20, &vec![(m, r, 2), (m, r, 3)]);
    assert_eq!(fresh, vec![1]);
    // Entries a refold can no longer revisit are dropped.
    log.retain_recent(5, 24);
    let fresh = log.record(30, &vec![(m, r, 1)]);
    assert_eq!(fresh, vec![0], "an entry logged at daa 10 was dropped at tip 24 with span 5");
}

fn csv_script_for(key: [u8; 32]) -> Vec<u8> {
    let mut script = vec![2u8, 0x10, 0x20, OP_CHECK_SEQUENCE_VERIFY, OP_DATA_32];
    script.extend_from_slice(&key);
    script.push(OP_CHECK_SIG);
    script
}

#[test]
fn escrow_claims_pair_each_blue_with_its_own_key_in_order() {
    let out = |value: u64, script: Vec<u8>| TxOutput { value, script_version: 0, script };
    let (ka, kb) = ([0xa1u8; 32], [0xb2u8; 32]);
    let outputs = vec![
        out(500, vec![0x76]),         // a payout
        out(100, csv_script_for(kb)), // b's escrow
        out(0, csv_script_for(ka)),   // unfunded: never claimed
        out(70, csv_script_for(ka)),  // a's first escrow
        out(80, csv_script_for(ka)),  // a's second escrow
    ];
    let a = Hash32::from_bytes([1; 32]);
    let b = Hash32::from_bytes([2; 32]);
    let c = Hash32::from_bytes([3; 32]);
    let blues = vec![
        PaidBlue { miner: a, subsidy: 10, escrow_pubkey: Some(ka) },
        PaidBlue { miner: c, subsidy: 10, escrow_pubkey: None },
        PaidBlue { miner: a, subsidy: 10, escrow_pubkey: Some(ka) },
        PaidBlue { miner: b, subsidy: 0, escrow_pubkey: Some(kb) },
        PaidBlue { miner: b, subsidy: 10, escrow_pubkey: Some(kb) },
    ];
    let claims = escrow_claims(&blues, &outputs);
    let got: Vec<(u8, u32, u64)> = claims.iter().map(|c| (c.miner.bytes[0], c.index, c.value)).collect();
    // The cursor moved past output 4, so b's escrow at output 1 is no longer reachable.
    assert_eq!(got, vec![(1, 3, 70), (1, 4, 80)]);
}

#[test]
fn recent_producers_walk_down_to_the_window_bound() {
    let p = |b: u8| (Hash32::from_bytes([b; 32]), b % 3, Hash32::from_bytes([b + 100; 32]));
    let blocks = vec![(50, vec![p(1)]), (90, vec![p(2)]), (120, vec![p(3), p(4)]), (130, vec![]), (150, vec![p(5)])];
    // Window 60 below daa 150: (90, 150].
    let r = recent_producers(&blocks, 150, 60);
    let got: Vec<(u64, u8)> = r.iter().map(|e| (e.0, e.1.bytes[0])).collect();
    assert_eq!(got, vec![(120, 3), (120, 4), (150, 5)]);
    assert_eq!(r[0].2, 0);
    assert_eq!(r[0].3.bytes[0], 103);
    // A window reaching below retained history takes every block.
    assert_eq!(recent_producers(&blocks, 150, 1_000).len(), 5);
    assert!(recent_producers(&vec![], 150, 60).is_empty());
}

#[test]
fn imported_producers_fill_the_window_below_the_pruning_point() {
    let e = |d: u64, b: u8| (d, Hash32::from_bytes([b; 32]), 1u8, Hash32::from_bytes([b; 32]));
    let imported = vec![e(10, 1), e(20, 2), e(30, 3), e(40, 4)];
    let r = imported_producers_in_window(&imported, 10, 30);
    let ids: Vec<u8> = r.iter().map(|p| p.0.bytes[0]).collect();
    assert_eq!(ids, vec![2, 3]);
}

#[test]
fn eligibility_floor_falls_back_to_the_snapshot_once_the_ledger_is_active() {
    assert_eq!(eligibility_floor(Some(7), false, None), Some((7, false)));
    assert_eq!(eligibility_floor(None, true, Some(3)), Some((3, true)));
    assert_eq!(eligibility_floor(None, true, None), None);
    assert_eq!(eligibility_floor(None, false, Some(3)), None);
}

#[test]
fn burn_keys_name_the_transaction_and_the_little_endian_index() {
    let mut key = vec![7u8; 32];
    key.extend_from_slice(&[0x02, 0x01, 0x00, 0x00]);
    assert_eq!(burn_key_outpoint(&key), ([7u8; 32], 0x0102));
    key[35] = 0x80;
    assert_eq!(burn_key_outpoint(&key).1, 0x8000_0102);
}

#[test]
fn only_finality_deep_burns_bind_and_all_are_reported() {
    // Finality depth 100, point of view 1_000: burns at daa below 900 bind.
    let burns = vec![Some(899), None, Some(900), Some(10), Some(u64::MAX)];
    assert_eq!(burned_spends(&burns, 100, 1_000), vec![0, 3]);
    assert!(burned_spends(&vec![None, Some(950)], 100, 1_000).is_empty());
}

#[test]
fn refolded_events_are_flushed_at_most_once() {
    let id = |b: u8| Hash32::from_bytes([b; 32]);
    let mut idx = StandingIndex::new();
    let sightings = vec![(id(1), 100), (id(2), 110), (id(1), 120)];
    let rows = vec![(id(1), (200, 1, 200)), (id(1), (200, 2, 200)), (id(2), (210, 0, 150))];
    idx.record_sightings(&sightings);
    idx.record_strikes(&rows);
    let strikes = idx.lifetime_strikes();
    assert_eq!(strikes.len(), 1);
    assert_eq!((strikes[0].0.bytes, strikes[0].1), ([1; 32], 1), "the second row at daa 200 is skipped");
    // A refold flushes the same events again: nothing changes.
    idx.record_sightings(&sightings);
    idx.record_strikes(&rows);
    let again = idx.lifetime_strikes();
    assert_eq!(again.len(), 1);
    assert_eq!((again[0].0.bytes, again[0].1), ([1; 32], 1));
    // Identity 1 stays sighted at 100, not 120: standing at a pov whose anchor is 110 holds.
    assert!(idx.standing(&id(1), 110 + LAG, true, LAG));
}
