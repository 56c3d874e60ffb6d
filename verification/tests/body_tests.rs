use keryx_rules::body::{
    marks_block_invalid, persisted_pom, witness_scoped_error, BadWitnessCache, BlockStatus, BodyAdmission, BodyGate,
    RuleError,
};
use keryx_rules::hash::{ForkActivation, Hash32};

#[test]
fn test_witness_errors_never_mark_the_block_invalid_post_gate() {
    // Post-gate (witness-poisoning fix active): witness-scoped errors reject the delivery,
    // never persist StatusInvalid.
    let witness_scoped = [
        RuleError::BadPomProof,
        RuleError::BadPomProofV3,
        RuleError::BadPomProofV4,
        RuleError::PomFinalStateMismatch(1, 2),
        RuleError::PomUnknownTier(7),
    ];
    for e in &witness_scoped {
        assert!(!marks_block_invalid(e, true), "{e:?} must not poison the block hash post-gate");
        // Pre-gate: historical behavior is preserved byte-identically — a
        // present-but-wrong witness still marks invalid.
        assert!(marks_block_invalid(e, false), "{e:?} must keep marking invalid pre-gate");
    }
    // Era-independent exemptions.
    for e in [RuleError::PomProofMissing, RuleError::KnownBadPomWitness] {
        assert!(!marks_block_invalid(&e, true));
        assert!(!marks_block_invalid(&e, false));
    }
    // Genuine block defects still mark invalid in both eras.
    assert!(marks_block_invalid(&RuleError::DuplicateTransactions(Default::default()), true));
    assert!(marks_block_invalid(&RuleError::DuplicateTransactions(Default::default()), false));
}

#[test]
fn test_bad_witness_cache_membership_and_rotation() {
    let mut cache = BadWitnessCache::default();
    let block = Hash32::from_u64_word(1);
    let witness_a = [0xaa; 32];
    let witness_b = [0xbb; 32];

    assert!(!cache.contains(block, &witness_a));
    cache.insert(block, witness_a);
    assert!(cache.contains(block, &witness_a), "failed witness must be remembered");
    // Same witness on another block, and another witness on the same block, are distinct.
    assert!(!cache.contains(Hash32::from_u64_word(2), &witness_a));
    assert!(!cache.contains(block, &witness_b), "an honest replacement witness must not be blocked");

    // Rotation: an entry survives one full generation, dies after two.
    for i in 0..BadWitnessCache::GENERATION_CAP as u64 {
        cache.insert(Hash32::from_u64_word(1000 + i), [0x11; 32]);
    }
    assert!(cache.contains(block, &witness_a), "entry must survive the first rotation (previous generation)");
    for i in 0..BadWitnessCache::GENERATION_CAP as u64 {
        cache.insert(Hash32::from_u64_word(100_000 + i), [0x22; 32]);
    }
    assert!(!cache.contains(block, &witness_a), "entry must age out after two rotations");
}

#[test]
fn witness_scoped_errors_are_exactly_the_pom_witness_failures() {
    assert!(witness_scoped_error(&RuleError::PomUnknownTier(3)));
    assert!(witness_scoped_error(&RuleError::PomFinalStateMismatch(5, 6)));
    assert!(!witness_scoped_error(&RuleError::PomProofMissing));
    assert!(!witness_scoped_error(&RuleError::BadMerkleRoot));
    assert!(!witness_scoped_error(&RuleError::Other));
    for e in [RuleError::BadMerkleRoot, RuleError::MissingParents, RuleError::PrunedBlock] {
        assert!(!marks_block_invalid(&e, false));
        assert!(!marks_block_invalid(&e, true));
    }
    assert!(marks_block_invalid(&RuleError::KnownInvalid, true));
}

#[test]
fn gate_rejects_a_cached_bad_witness_without_revalidation() {
    let mut gate = BodyGate::new(ForkActivation { daa_score: 100 });
    let block = Hash32::from_u64_word(7);
    let witness = Hash32::from_bytes([0x5a; 32]);

    // Before the activation nothing is remembered and the block hash is poisoned.
    let outcome = gate.on_validation_failure(block, 50, Some(witness), &RuleError::BadPomProof);
    assert!(!outcome.remember_witness);
    assert!(outcome.mark_invalid);
    assert!(matches!(gate.admission(BlockStatus::StatusHeaderOnly, block, 50, Some(witness)), BodyAdmission::Validate));

    // Past the activation the witness is remembered and only the delivery is rejected.
    let outcome = gate.on_validation_failure(block, 150, Some(witness), &RuleError::BadPomProof);
    assert!(outcome.remember_witness);
    assert!(!outcome.mark_invalid);
    assert!(matches!(
        gate.admission(BlockStatus::StatusHeaderOnly, block, 150, Some(witness)),
        BodyAdmission::Reject(RuleError::KnownBadPomWitness)
    ));
    // Another witness for the same block is validated.
    let other = Hash32::from_bytes([0x5b; 32]);
    assert!(matches!(gate.admission(BlockStatus::StatusHeaderOnly, block, 150, Some(other)), BodyAdmission::Validate));
    // Known-invalid and stored bodies are answered by their status.
    assert!(matches!(
        gate.admission(BlockStatus::StatusInvalid, block, 150, None),
        BodyAdmission::Reject(RuleError::KnownInvalid)
    ));
    assert!(matches!(
        gate.admission(BlockStatus::StatusUTXOValid, block, 150, None),
        BodyAdmission::AlreadyProcessed(BlockStatus::StatusUTXOValid)
    ));
}

#[test]
fn only_verified_proofs_are_kept_and_only_authenticated_tiers_stored() {
    let p = persisted_pom(false, Some(3), false, Some(4));
    assert!(p.keep_proof);
    assert_eq!(p.tier, Some(3));
    let p = persisted_pom(true, Some(3), false, Some(4));
    assert!(!p.keep_proof);
    assert_eq!(p.tier, None);
    let p = persisted_pom(true, Some(2), true, Some(4));
    assert!(p.keep_proof);
    assert_eq!(p.tier, Some(2));
    let p = persisted_pom(false, None, false, Some(4));
    assert!(!p.keep_proof);
    assert_eq!(p.tier, Some(4));
}
