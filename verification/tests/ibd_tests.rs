use keryx_rules::hash::Hash32;
use keryx_rules::ibd::{
    check_commitment_anchor, check_first_trusted_entry, check_proof_pruning_point, check_proof_roots,
    check_pruning_points, check_staging_timestamps, classify_service_row, commitment_source, filter_chunk_by_ceiling,
    ibd_steps, ibd_type_on_shared_chain, ibd_type_without_shared_chain, reported_daa, service_row_daa,
    service_state_gate, syncer_skew, ibd_block_pom, trusted_block_tier, check_received_block, check_received_body,
    IbdBlockError, IbdBlockPom, BlueWork, CommitmentSource, IbdError, IbdStep, IbdType, NoSharedChainStep,
    NoSharedChainView, PomChunkMetrics, ProofRoot, ServiceStateIntake, SyncerSkew, DURATION_MAX_NANOS,
};

fn h(b: u8) -> Hash32 {
    Hash32::from_bytes([b; 32])
}

fn row(tag: u8, len: usize, at: usize, daa: u64) -> Vec<u8> {
    let mut r = vec![0u8; len];
    r[0] = tag;
    r[at..at + 8].copy_from_slice(&daa.to_le_bytes());
    r
}

#[test]
fn service_rows_carry_their_daa_at_the_layout_offset() {
    assert_eq!(service_row_daa(&row(0x01, 45, 37, 123_456_789)), Some(123_456_789));
    assert_eq!(service_row_daa(&row(0x02, 53, 1, u64::MAX)), Some(u64::MAX));
    assert_eq!(service_row_daa(&row(0x03, 41, 33, 7)), Some(7));
    assert_eq!(service_row_daa(&row(0x04, 85, 73, 0x0102_0304_0506_0708)), Some(0x0102_0304_0506_0708));
    assert_eq!(service_row_daa(&row(0x04, 120, 73, 9)), Some(9));
    assert_eq!(service_row_daa(&row(0x01, 46, 37, 1)), None);
    assert_eq!(service_row_daa(&row(0x04, 84, 73, 1)), None);
    assert_eq!(service_row_daa(&row(0x05, 45, 37, 1)), None);
    assert_eq!(service_row_daa(&[]), None);
}

#[test]
fn chunk_metrics_merge_saturating_in_any_order() {
    let a = PomChunkMetrics { blocks: 1, proofs: 2, proof_bytes: 3, reproofs_queued: 4, discarded_historical_proofs: 5, discarded_historical_bytes: 6, decode_time_nanos: 7, peer_wait_time_nanos: 8 };
    let b = PomChunkMetrics { blocks: u64::MAX, proofs: 10, proof_bytes: 0, reproofs_queued: 1, discarded_historical_proofs: 0, discarded_historical_bytes: 0, decode_time_nanos: DURATION_MAX_NANOS, peer_wait_time_nanos: 2 };
    let mut ab = a;
    ab.merge(b);
    let mut ba = b;
    ba.merge(a);
    assert_eq!(ab, ba);
    assert_eq!(ab.blocks, u64::MAX);
    assert_eq!(ab.proofs, 12);
    assert_eq!(ab.decode_time_nanos, DURATION_MAX_NANOS);
    assert_eq!(ab.peer_wait_time_nanos, 10);
    let mut z = a;
    z.merge(PomChunkMetrics::default());
    assert_eq!(z, a);
}

#[test]
fn syncer_skew_classifies_the_pruning_point() {
    let pp = h(1);
    let recent = vec![h(3), h(4)];
    assert_eq!(syncer_skew(&pp, &pp, false, &recent), Ok(SyncerSkew::Aligned));
    assert_eq!(syncer_skew(&h(2), &pp, true, &recent), Ok(SyncerSkew::Leading));
    assert_eq!(syncer_skew(&h(4), &pp, false, &recent), Ok(SyncerSkew::Lagging));
    assert_eq!(syncer_skew(&h(5), &pp, false, &recent), Err(IbdError::UnrecognizedSyncerPruningPoint));
}

#[test]
fn ibd_type_on_a_shared_chain() {
    let hk = h(9);
    assert!(matches!(
        ibd_type_on_shared_chain(hk, true, Ok(SyncerSkew::Aligned), false, false, false),
        Ok(IbdType::Sync { is_utxo_stable: false, is_pp_anticone_synced: false, .. })
    ));
    assert!(matches!(ibd_type_on_shared_chain(hk, true, Ok(SyncerSkew::Lagging), true, true, false), Ok(IbdType::Sync { .. })));
    assert!(matches!(
        ibd_type_on_shared_chain(hk, true, Ok(SyncerSkew::Lagging), true, false, false),
        Err(IbdError::SyncerCannotStabilize)
    ));
    assert!(matches!(ibd_type_on_shared_chain(hk, true, Ok(SyncerSkew::Leading), true, true, true), Ok(IbdType::Sync { .. })));
    assert!(matches!(
        ibd_type_on_shared_chain(hk, true, Ok(SyncerSkew::Leading), true, true, false),
        Ok(IbdType::PruningCatchUp { .. })
    ));
    assert!(matches!(
        ibd_type_on_shared_chain(hk, true, Ok(SyncerSkew::Leading), false, true, true),
        Ok(IbdType::PruningCatchUp { .. })
    ));
    assert!(matches!(ibd_type_on_shared_chain(hk, false, Ok(SyncerSkew::Aligned), true, true, true), Err(IbdError::FinalityConflict)));
    assert!(IbdError::FinalityConflict.bans_peer());
    assert!(!IbdError::SyncerCannotStabilize.bans_peer());
}

fn view() -> NoSharedChainView {
    NoSharedChainView {
        trust_sync_from_tip: false,
        local_sink: h(7),
        is_utxo_stable: true,
        is_pp_anticone_synced: true,
        relay_blue_score: 10_000,
        relay_blue_work: BlueWork { limbs: [0, 5, 0] },
        headers_selected_tip_blue_score: 1_000,
        headers_selected_tip_blue_work: BlueWork { limbs: [u64::MAX, 4, 0] },
        pruning_depth: 5_000,
        now: 1_000_000,
        consensus_creation_timestamp: 0,
        finality_duration_ms: 100_000,
    }
}

#[test]
fn headers_proof_needs_a_justifying_relay_block_and_no_recent_finality_point() {
    let v = view();
    assert!(matches!(ibd_type_without_shared_chain(&v, None), NoSharedChainStep::NeedFinalityPointTimestamp));
    assert!(matches!(
        ibd_type_without_shared_chain(&v, Some(900_000)),
        NoSharedChainStep::Decided(Err(IbdError::HeadersProofSpam))
    ));
    assert!(matches!(
        ibd_type_without_shared_chain(&v, Some(800_000)),
        NoSharedChainStep::Decided(Ok(IbdType::DownloadHeadersProof))
    ));
    let young = NoSharedChainView { consensus_creation_timestamp: 950_000, ..v };
    assert!(matches!(ibd_type_without_shared_chain(&young, None), NoSharedChainStep::Decided(Ok(IbdType::DownloadHeadersProof))));
    let low = NoSharedChainView { relay_blue_score: 5_999, ..v };
    assert!(matches!(ibd_type_without_shared_chain(&low, None), NoSharedChainStep::Decided(Err(IbdError::HeadersProofNotJustified))));
    let less_work = NoSharedChainView { relay_blue_work: BlueWork { limbs: [u64::MAX, 4, 0] }, ..v };
    assert!(matches!(
        ibd_type_without_shared_chain(&less_work, None),
        NoSharedChainStep::Decided(Err(IbdError::HeadersProofNotJustified))
    ));
    let trusted = NoSharedChainView { trust_sync_from_tip: true, ..low };
    assert!(matches!(ibd_type_without_shared_chain(&trusted, None), NoSharedChainStep::Decided(Ok(IbdType::Sync { .. }))));
    assert!(BlueWork { limbs: [0, 0, 1] }.greater_than(&BlueWork { limbs: [u64::MAX, u64::MAX, 0] }));
}

#[test]
fn ibd_steps_follow_the_type() {
    let sync = IbdType::Sync { highest_known_syncer_chain_hash: h(1), is_utxo_stable: false, is_pp_anticone_synced: false };
    assert_eq!(
        ibd_steps(&sync, false),
        vec![
            IbdStep::SyncMissingTrustedBodies,
            IbdStep::SyncUtxoSetOfLocalPruningPoint,
            IbdStep::SyncHeaders,
            IbdStep::SyncMissingBodiesToTarget,
            IbdStep::SyncMissingBodiesToRelayBlock
        ]
    );
    let stable = IbdType::Sync { highest_known_syncer_chain_hash: h(1), is_utxo_stable: true, is_pp_anticone_synced: true };
    assert_eq!(ibd_steps(&stable, true), vec![IbdStep::SyncHeaders, IbdStep::SyncMissingBodiesToTarget]);
    assert_eq!(
        ibd_steps(&IbdType::DownloadHeadersProof, false),
        vec![
            IbdStep::DownloadHeadersProofIntoStaging,
            IbdStep::CommitStagingConsensus,
            IbdStep::SyncUtxoSetOfSyncerPruningPoint,
            IbdStep::SyncMissingBodiesToTarget,
            IbdStep::SyncMissingBodiesToRelayBlock
        ]
    );
    assert_eq!(
        ibd_steps(&IbdType::PruningCatchUp { highest_known_syncer_chain_hash: h(1) }, true),
        vec![
            IbdStep::PruningPointCatchUp,
            IbdStep::SyncMissingTrustedBodies,
            IbdStep::SyncUtxoSetOfSyncerPruningPoint,
            IbdStep::SyncMissingBodiesToTarget
        ]
    );
}

#[test]
fn pruning_proof_checks() {
    let genesis = h(0);
    let current = h(1);
    let proof_pp = h(2);
    assert_eq!(check_proof_pruning_point(&genesis, &genesis, &current), Err(IbdError::ProofPruningPointIsGenesis));
    assert_eq!(check_proof_pruning_point(&current, &genesis, &current), Err(IbdError::ProofPruningPointIsCurrent));
    assert_eq!(check_proof_pruning_point(&proof_pp, &genesis, &current), Ok(()));

    assert_eq!(check_pruning_points(&vec![], &proof_pp, &genesis), Err(IbdError::ProofPruningPointNotLast));
    assert_eq!(check_pruning_points(&vec![genesis, current], &proof_pp, &genesis), Err(IbdError::ProofPruningPointNotLast));
    assert_eq!(check_pruning_points(&vec![current, proof_pp], &proof_pp, &genesis), Err(IbdError::PruningPointsNotFromGenesis));
    let pps = vec![genesis, current, proof_pp];
    assert_eq!(check_pruning_points(&pps, &proof_pp, &genesis), Ok(()));

    let roots = vec![
        Some(ProofRoot { hash: genesis, pruning_point: h(99) }),
        None,
        Some(ProofRoot { hash: h(5), pruning_point: current }),
    ];
    assert_eq!(check_proof_roots(&roots, &pps, &genesis), Ok(()));
    let bad = vec![Some(ProofRoot { hash: h(5), pruning_point: h(98) })];
    assert_eq!(check_proof_roots(&bad, &pps, &genesis), Err(IbdError::ProofInconsistentWithPruningPoints));

    assert_eq!(check_first_trusted_entry(None, &proof_pp), Err(IbdError::MissingPruningPointEntry));
    assert_eq!(check_first_trusted_entry(Some(current), &proof_pp), Err(IbdError::UnexpectedFirstTrustedEntry));
    assert_eq!(check_first_trusted_entry(Some(proof_pp), &proof_pp), Ok(()));
}

#[test]
fn sync_ceiling_drops_headers_at_and_above_it() {
    assert_eq!(filter_chunk_by_ceiling(&vec![5, 9, 10, 11], Some(10)), (vec![0, 1], true));
    assert_eq!(filter_chunk_by_ceiling(&vec![5, 9], Some(10)), (vec![0, 1], false));
    assert_eq!(filter_chunk_by_ceiling(&vec![5, 9, 100], None), (vec![0, 1, 2], false));
    assert_eq!(reported_daa(50, Some(10)), 9);
    assert_eq!(reported_daa(5, Some(10)), 5);
    assert_eq!(reported_daa(5, Some(0)), 0);
    assert_eq!(reported_daa(50, None), 50);
}

#[test]
fn staging_must_lead_by_ten_minutes() {
    assert_eq!(check_staging_timestamps(1_600_000, 1_000_000), Ok(()));
    assert_eq!(check_staging_timestamps(1_599_999, 1_000_000), Err(IbdError::StagingTimestampsTooClose));
    assert_eq!(check_staging_timestamps(999_999, 1_000_000), Err(IbdError::StagingTimestampsTooClose));
}

#[test]
fn service_state_rows_are_sealed_or_handed_off() {
    assert_eq!(service_state_gate(false, 1), Ok(false));
    assert_eq!(service_state_gate(true, 9), Err(IbdError::ServiceStateUnsupportedPeer));
    assert_eq!(service_state_gate(true, 10), Ok(true));
    assert_eq!(commitment_source(&h(1), &h(1)), CommitmentSource::RelayHeader);
    assert_eq!(commitment_source(&h(1), &h(2)), CommitmentSource::HeadersSelectedTip);
    assert_eq!(check_commitment_anchor(&h(2), &h(1)), Err(IbdError::ServiceStateUnanchored));

    assert_eq!(classify_service_row(&row(0x03, 41, 33, 100), 100, 150), Ok(true));
    assert_eq!(classify_service_row(&row(0x03, 41, 33, 101), 100, 150), Ok(false));
    assert_eq!(classify_service_row(&row(0x03, 41, 33, 151), 100, 150), Err(IbdError::ServiceRowBeyondHandoff));
    assert_eq!(classify_service_row(&row(0x03, 40, 32, 1), 100, 150), Err(IbdError::MalformedServiceRow));

    let mut intake = ServiceStateIntake::new(100, 150);
    assert_eq!(intake.accept_row(row(0x01, 45, 37, 50)), Ok(true));
    assert_eq!(intake.accept_row(row(0x02, 53, 1, 120)), Ok(false));
    assert_eq!(intake.accept_row(vec![9, 9]), Err(IbdError::MalformedServiceRow));
    assert_eq!(intake.sealed_rows(), 1);
    assert_eq!(intake.check_commitment(&h(4), &h(4)), Ok(()));
    assert_eq!(intake.check_commitment(&h(4), &h(5)), Err(IbdError::ServiceStateMismatch));
    assert_eq!(intake.into_rows().len(), 2);

    // No sealed rows commit to the zero hash, whatever was computed.
    let mut handoff_only = ServiceStateIntake::new(100, 150);
    assert_eq!(handoff_only.accept_row(row(0x03, 41, 33, 120)), Ok(false));
    assert_eq!(handoff_only.check_commitment(&h(4), &Hash32::default()), Ok(()));
    assert_eq!(handoff_only.check_commitment(&h(4), &h(4)), Err(IbdError::ServiceStateMismatch));
}

#[test]
fn historical_blocks_drop_their_proof_and_recent_naked_blocks_are_refetched() {
    // Deeper than the serve depth: the proof is dropped, the tier kept.
    assert_eq!(
        ibd_block_pom(10_000, 5_000, 1_500, true, None, Some(3)),
        IbdBlockPom { keep_proof: false, tier: Some(3), discarded_historical_proof: true, queue_reproof: false }
    );
    assert_eq!(
        ibd_block_pom(10_000, 5_000, 1_500, true, Some(2), Some(3)),
        IbdBlockPom { keep_proof: false, tier: Some(2), discarded_historical_proof: true, queue_reproof: false }
    );
    // Recent with a proof: kept.
    assert_eq!(
        ibd_block_pom(10_000, 9_000, 1_500, true, Some(4), Some(4)),
        IbdBlockPom { keep_proof: true, tier: Some(4), discarded_historical_proof: false, queue_reproof: false }
    );
    // Recent and naked while PoM is active: re-fetch the proof.
    assert!(ibd_block_pom(10_000, 9_000, 1_500, true, None, None).queue_reproof);
    assert!(!ibd_block_pom(10_000, 9_000, 1_500, false, None, None).queue_reproof);
    // Exactly at the serve depth still counts as recent.
    assert!(ibd_block_pom(10_000, 8_500, 1_500, true, None, Some(1)).keep_proof);
    assert_eq!(trusted_block_tier(None, Some(5)), Some(5));
    assert_eq!(trusted_block_tier(Some(1), Some(5)), Some(1));
    assert_eq!(check_received_block(&h(1), &h(2), false), Err(IbdBlockError::UnexpectedBlock));
    assert_eq!(check_received_block(&h(1), &h(1), true), Err(IbdBlockError::HeaderOnly));
    assert_eq!(check_received_block(&h(1), &h(1), false), Ok(()));
    assert_eq!(check_received_body(0), Err(IbdBlockError::EmptyBody));
    assert_eq!(check_received_body(3), Ok(()));
}

#[test]
fn chunk_metrics_count_proofs_per_download_mode() {
    let recent = ibd_block_pom(100, 100, 10, true, None, Some(1));
    let old = ibd_block_pom(100, 10, 10, true, None, Some(1));
    let naked = ibd_block_pom(100, 100, 10, true, None, None);
    let mut full = PomChunkMetrics::for_chunk(3);
    full.record_block(true, false, Some(300), recent);
    full.record_block(true, false, Some(300), old);
    full.record_block(true, false, None, naked);
    assert_eq!((full.blocks, full.proofs, full.proof_bytes), (3, 2, 0));
    assert_eq!((full.discarded_historical_proofs, full.discarded_historical_bytes, full.reproofs_queued), (1, 0, 1));
    let mut body = PomChunkMetrics::for_chunk(3);
    body.record_block(true, true, Some(300), recent);
    body.record_block(true, true, Some(200), old);
    body.record_block(true, true, None, naked);
    assert_eq!((body.proofs, body.proof_bytes), (2, 500));
    assert_eq!((body.discarded_historical_proofs, body.discarded_historical_bytes, body.reproofs_queued), (1, 200, 1));
    let mut off = PomChunkMetrics::for_chunk(3);
    off.record_block(false, true, Some(300), old);
    assert_eq!(off, PomChunkMetrics::for_chunk(3));
    off.record_peer_wait(DURATION_MAX_NANOS);
    off.record_peer_wait(5);
    assert_eq!(off.peer_wait_time_nanos, DURATION_MAX_NANOS);
    off.record_decode(7);
    assert_eq!(off.decode_time_nanos, 7);
}
