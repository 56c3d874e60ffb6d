use keryx_rules::ai_rules::{
    check_ai_request_inference_rewards, check_ai_request_payload_rules, check_ai_request_payload_rules_all,
    check_ai_request_tx_payload_rules, check_ai_response_model_caps, check_mempool_ai_transaction, request_hash,
    MempoolAiError, AiRequest, AiRequestRules,
    AiResponse, AiRuleError, Transaction, TxKind, TxOutput,
};
use keryx_rules::hash::Hash32;
use keryx_rules::service_bond::{OP_CHECK_SEQUENCE_VERIFY, OP_CHECK_SIG, OP_DATA_32};

// ── helpers ───────────────────────────────────────────────────────────────

/// Reward added per started block of 64 tokens.
const INFERENCE_REWARD_TOKEN_STEP: u64 = 10_000_000;
/// Lowest accepted priority fee.
const MIN_AI_REQUEST_PRIORITY_FEE: u64 = 1_000_000;

/// A keyless vault script, version 0.
fn vault_script_bytes() -> Vec<u8> {
    vec![0x51, 0x75, 0x6a]
}

fn rules() -> AiRequestRules {
    AiRequestRules {
        token_step: INFERENCE_REWARD_TOKEN_STEP,
        min_priority_fee: MIN_AI_REQUEST_PRIORITY_FEE,
        vault_script: vault_script_bytes(),
    }
}

fn tx(kind: TxKind, payload: Vec<u8>, request: Option<AiRequest>, response: Option<AiResponse>, outputs: Vec<TxOutput>) -> Transaction {
    let id = Hash32::from_bytes(*blake2b_simd::blake2b(&payload).as_bytes().first_chunk::<32>().unwrap());
    Transaction { id, kind, payload, request, response, outputs }
}

fn make_coinbase() -> Transaction {
    tx(TxKind::Coinbase, b"0.2.8/2025-01-01/00000000deadbeef/ai:v1:aabbccdd11223344".to_vec(), None, None, vec![])
}

fn request_payload(req: &AiRequest, prompt: &[u8]) -> Vec<u8> {
    let mut p = req.model_id.bytes.to_vec();
    p.extend_from_slice(&req.max_tokens.to_le_bytes());
    p.extend_from_slice(&req.inference_reward.to_le_bytes());
    p.extend_from_slice(&req.priority_fee.to_le_bytes());
    p.extend_from_slice(prompt);
    p
}

fn request(model_id: [u8; 32], max_tokens: u32, inference_reward: u64, priority_fee: u64) -> AiRequest {
    AiRequest { model_id: Hash32::from_bytes(model_id), max_tokens, inference_reward, priority_fee }
}

fn make_ai_request(model_id: [u8; 32]) -> Transaction {
    let req = request(model_id, 100, 1_000_000, 30_000_000);
    tx(TxKind::AiRequest, request_payload(&req, b"test prompt"), Some(req), None, vec![])
}

fn make_ai_response_for(request_tx: &Transaction) -> Transaction {
    let digest = blake2b_simd::blake2b(&request_tx.payload);
    let mut request_hash = [0u8; 32];
    request_hash.copy_from_slice(&digest.as_bytes()[..32]);
    make_ai_response_orphan(request_hash)
}

fn make_ai_response_orphan(request_hash: [u8; 32]) -> Transaction {
    let mut payload = request_hash.to_vec();
    payload.extend_from_slice(b"response");
    tx(TxKind::AiResponse, payload, None, Some(AiResponse { request_hash: Hash32::from_bytes(request_hash) }), vec![])
}

fn caps(model_ids: &[[u8; 32]]) -> Vec<Hash32> {
    model_ids.iter().map(|m| Hash32::from_bytes(*m)).collect()
}

/// `<seq_len> <seq bytes> OP_CSV OP_DATA_32 <32-byte key> OP_CHECKSIG`.
fn csv_p2pk_script() -> Vec<u8> {
    let mut s = vec![3u8, 0x60, 0x8c, 0x00];
    s.push(OP_CHECK_SEQUENCE_VERIFY);
    s.push(OP_DATA_32);
    s.extend_from_slice(&[0xABu8; 32]);
    s.push(OP_CHECK_SIG);
    s
}

fn output(value: u64, script_version: u16, script: Vec<u8>) -> TxOutput {
    TxOutput { value, script_version, script }
}

fn ai_request_with_escrow_output(req: AiRequest, outputs: Vec<TxOutput>) -> Transaction {
    tx(TxKind::AiRequest, request_payload(&req, b"test prompt"), Some(req), None, outputs)
}

/// `max_tokens` here is 100 ⇒ ceil(100/64) = 2 surcharge steps on top of the base.
fn ai_request_with_reward(model_id: [u8; 32], inference_reward: u64) -> Transaction {
    let req = request(model_id, 100, inference_reward, 30_000_000);
    ai_request_with_escrow_output(req, vec![output(1, 0, vec![]), output(inference_reward, 0, csv_p2pk_script())])
}

fn ai_request_with_escrow(model_id: [u8; 32], inference_reward: u64, value: u64, version: u16, script: Vec<u8>) -> Transaction {
    let req = request(model_id, 100, inference_reward, 30_000_000);
    ai_request_with_escrow_output(req, vec![output(1, 0, vec![]), output(value, version, script)])
}

fn minimums(model_id: [u8; 32], base: u64) -> Vec<(Hash32, u64)> {
    vec![(Hash32::from_bytes(model_id), base)]
}

/// Reward high enough to clear the effective minimum for `max_tokens = 100`.
fn routed_reward(base: u64) -> u64 {
    base + 2 * INFERENCE_REWARD_TOKEN_STEP
}

// ── check_ai_response_model_caps ─────────────────────────────────────────

#[test]
fn no_caps_declared_skips_enforcement() {
    let model_id = [0xAAu8; 32];
    let req = make_ai_request(model_id);
    let resp = make_ai_response_for(&req);
    let txs = vec![make_coinbase(), req, resp];
    assert!(check_ai_response_model_caps(&txs, &caps(&[])).is_ok());
}

#[test]
fn declared_model_is_accepted() {
    let model_id = [0x11u8; 32];
    let req = make_ai_request(model_id);
    let resp = make_ai_response_for(&req);
    let txs = vec![make_coinbase(), req, resp];
    assert!(check_ai_response_model_caps(&txs, &caps(&[model_id])).is_ok());
}

#[test]
fn undeclared_model_is_rejected() {
    let declared = [0x22u8; 32];
    let used = [0x33u8; 32];
    let req = make_ai_request(used);
    let resp = make_ai_response_for(&req);
    let txs = vec![make_coinbase(), req, resp];
    assert!(matches!(check_ai_response_model_caps(&txs, &caps(&[declared])), Err(AiRuleError::ResponseModelCapMissing(_, _))));
}

#[test]
fn response_for_request_from_earlier_block_is_skipped() {
    let model_id = [0x44u8; 32];
    let orphan_hash = [0xFFu8; 32];
    let resp = make_ai_response_orphan(orphan_hash);
    let txs = vec![make_coinbase(), resp];
    assert!(check_ai_response_model_caps(&txs, &caps(&[model_id])).is_ok());
}

#[test]
fn multiple_responses_one_undeclared_is_rejected() {
    let declared = [0x55u8; 32];
    let undeclared = [0x66u8; 32];
    let req_ok = make_ai_request(declared);
    let req_bad = make_ai_request(undeclared);
    let resp_ok = make_ai_response_for(&req_ok);
    let resp_bad = make_ai_response_for(&req_bad);
    let txs = vec![make_coinbase(), req_ok, req_bad, resp_ok, resp_bad];
    assert!(matches!(check_ai_response_model_caps(&txs, &caps(&[declared])), Err(AiRuleError::ResponseModelCapMissing(_, _))));
}

// ── check_ai_request_payload_rules_all (pre-UTXO fast path) ──────────────

#[test]
fn vault_escrow_is_accepted_past_the_routing_gate() {
    let model_id = [0x77u8; 32];
    let base = 400_000_000u64;
    let reward = routed_reward(base);
    let txs = vec![make_coinbase(), ai_request_with_escrow(model_id, reward, reward, 0, vault_script_bytes())];
    assert!(check_ai_request_payload_rules_all(&txs, &minimums(model_id, base), true, &rules()).is_ok());
}

/// The cutover is sharp in both directions: a client that keeps naming a miner past the activation
/// is refused, exactly as a client locking the vault before it.
#[test]
fn csv_escrow_is_rejected_past_the_routing_gate() {
    let model_id = [0x77u8; 32];
    let base = 400_000_000u64;
    let reward = routed_reward(base);
    let txs = vec![make_coinbase(), ai_request_with_escrow(model_id, reward, reward, 0, csv_p2pk_script())];
    assert!(matches!(
        check_ai_request_payload_rules_all(&txs, &minimums(model_id, base), true, &rules()),
        Err(AiRuleError::InvalidEscrowScript(_))
    ));
}

#[test]
fn vault_escrow_is_rejected_before_the_routing_gate() {
    let model_id = [0x77u8; 32];
    let base = 400_000_000u64;
    let reward = routed_reward(base);
    let txs = vec![make_coinbase(), ai_request_with_escrow(model_id, reward, reward, 0, vault_script_bytes())];
    assert!(matches!(
        check_ai_request_payload_rules_all(&txs, &minimums(model_id, base), false, &rules()),
        Err(AiRuleError::InvalidEscrowScript(_))
    ));
}

/// The vault is matched on script *and* version.
#[test]
fn vault_escrow_at_a_nonzero_script_version_is_rejected() {
    let model_id = [0x77u8; 32];
    let base = 400_000_000u64;
    let reward = routed_reward(base);
    let txs = vec![make_coinbase(), ai_request_with_escrow(model_id, reward, reward, 1, vault_script_bytes())];
    assert!(matches!(
        check_ai_request_payload_rules_all(&txs, &minimums(model_id, base), true, &rules()),
        Err(AiRuleError::InvalidEscrowScript(_))
    ));
}

/// The mint pays `inference_reward`, so a vault holding less than that would mint coins the
/// request never locked.
#[test]
fn underfunded_vault_is_rejected_past_the_routing_gate() {
    let model_id = [0x77u8; 32];
    let base = 400_000_000u64;
    let reward = routed_reward(base);
    let txs = vec![make_coinbase(), ai_request_with_escrow(model_id, reward, reward - 1, 0, vault_script_bytes())];
    assert!(matches!(
        check_ai_request_payload_rules_all(&txs, &minimums(model_id, base), true, &rules()),
        Err(AiRuleError::EscrowBelowInferenceReward(_, _, _))
    ));
}

#[test]
fn missing_escrow_output_is_rejected_past_the_routing_gate() {
    let model_id = [0x77u8; 32];
    let base = 400_000_000u64;
    let req = request(model_id, 100, routed_reward(base), 30_000_000);
    let tx = ai_request_with_escrow_output(req, vec![output(1, 0, vec![])]);
    assert!(matches!(
        check_ai_request_payload_rules_all(&vec![make_coinbase(), tx], &minimums(model_id, base), true, &rules()),
        Err(AiRuleError::MissingEscrowOutput(_))
    ));
}

#[test]
fn reward_at_the_effective_minimum_is_accepted() {
    let model_id = [0x55u8; 32];
    let base = 400_000_000u64;
    let effective_min = base + 2 * INFERENCE_REWARD_TOKEN_STEP;
    let txs = vec![make_coinbase(), ai_request_with_reward(model_id, effective_min)];
    assert!(check_ai_request_payload_rules_all(&txs, &minimums(model_id, base), false, &rules()).is_ok());
}

#[test]
fn reward_one_sompi_below_the_effective_minimum_is_rejected() {
    let model_id = [0x55u8; 32];
    let base = 400_000_000u64;
    let effective_min = base + 2 * INFERENCE_REWARD_TOKEN_STEP;
    let txs = vec![make_coinbase(), ai_request_with_reward(model_id, effective_min - 1)];
    assert!(matches!(
        check_ai_request_payload_rules_all(&txs, &minimums(model_id, base), false, &rules()),
        Err(AiRuleError::InferenceRewardBelowMinimum(_, _, _, _))
    ));
}

/// Paying only the base must be rejected (400M paid, 420M required).
#[test]
fn base_reward_without_the_token_surcharge_is_rejected() {
    let model_id = [0x55u8; 32];
    let base = 400_000_000u64;
    let txs = vec![make_coinbase(), ai_request_with_reward(model_id, base)];
    match check_ai_request_payload_rules_all(&txs, &minimums(model_id, base), false, &rules()) {
        Err(AiRuleError::InferenceRewardBelowMinimum(_, paid, required, _)) => {
            assert_eq!(paid, 400_000_000);
            assert_eq!(required, 420_000_000);
        }
        other => panic!("unexpected verdict {other:?}"),
    }
}

/// A model absent from the table has no floor to enforce.
#[test]
fn unknown_model_id_has_no_minimum() {
    let m = minimums([0x55u8; 32], 400_000_000u64);
    let txs = vec![make_coinbase(), ai_request_with_reward([0x66u8; 32], 1)];
    assert!(check_ai_request_payload_rules_all(&txs, &m, false, &rules()).is_ok());
}

/// A below-minimum `priority_fee` needs no UTXO context either.
#[test]
fn priority_fee_below_minimum_is_rejected_early() {
    let model_id = [0x55u8; 32];
    let m = minimums(model_id, 400_000_000u64);
    let reward = 400_000_000 + 2 * INFERENCE_REWARD_TOKEN_STEP;
    let req = request(model_id, 100, reward, MIN_AI_REQUEST_PRIORITY_FEE - 1);
    let tx = ai_request_with_escrow_output(req, vec![output(1, 0, vec![]), output(reward, 0, csv_p2pk_script())]);
    assert!(matches!(
        check_ai_request_payload_rules_all(&vec![make_coinbase(), tx], &m, false, &rules()),
        Err(AiRuleError::PriorityFeeBelowMinimum(_, _, _))
    ));
}

/// An underfunded or missing escrow is decided before the UTXO pass.
#[test]
fn underfunded_and_missing_escrow_are_rejected_early() {
    let model_id = [0x55u8; 32];
    let m = minimums(model_id, 400_000_000u64);
    let reward = 400_000_000 + 2 * INFERENCE_REWARD_TOKEN_STEP;
    let req = request(model_id, 100, reward, 30_000_000);

    let tx = ai_request_with_escrow_output(req, vec![output(1, 0, vec![]), output(reward - 1, 0, csv_p2pk_script())]);
    assert!(matches!(
        check_ai_request_payload_rules_all(&vec![make_coinbase(), tx], &m, false, &rules()),
        Err(AiRuleError::EscrowBelowInferenceReward(_, _, _))
    ));

    let tx = ai_request_with_escrow_output(req, vec![]);
    assert!(matches!(
        check_ai_request_payload_rules_all(&vec![make_coinbase(), tx], &m, false, &rules()),
        Err(AiRuleError::MissingEscrowOutput(_))
    ));
}

/// Mempool admission uses the single-transaction entry point, with no block around it.
#[test]
fn single_tx_entry_point_rejects_the_underpaid_request_and_passes_others() {
    let model_id = [0x55u8; 32];
    let m = minimums(model_id, 400_000_000u64);
    let underpaid = ai_request_with_reward(model_id, 400_000_000);
    assert!(matches!(
        check_ai_request_tx_payload_rules(&underpaid, &m, false, &rules()),
        Err(AiRuleError::InferenceRewardBelowMinimum(_, _, _, _))
    ));

    let ok = ai_request_with_reward(model_id, 400_000_000 + 2 * INFERENCE_REWARD_TOKEN_STEP);
    assert!(check_ai_request_tx_payload_rules(&ok, &m, false, &rules()).is_ok());

    // A plain transaction carries no AiRequest payload and is none of this rule's business.
    let plain = tx(TxKind::Native, vec![], None, None, vec![]);
    assert!(check_ai_request_tx_payload_rules(&plain, &m, false, &rules()).is_ok());
}

/// The fast path and the full check must reach the same verdict.
#[test]
fn fast_path_matches_the_full_check_verdict() {
    let model_id = [0x55u8; 32];
    let base = 400_000_000u64;
    let m = minimums(model_id, base);
    let bad = ai_request_with_reward(model_id, base);
    let txs = vec![make_coinbase(), bad];
    let fast = check_ai_request_payload_rules_all(&txs, &m, false, &rules());
    let full = check_ai_request_inference_rewards(&txs, &[], &m, false, &rules());
    assert!(matches!(fast, Err(AiRuleError::InferenceRewardBelowMinimum(_, _, _, _))));
    assert!(matches!(full, Err(AiRuleError::InferenceRewardBelowMinimum(_, _, _, _))));
}

// ── further cases ─────────────────────────────────────────────────────────

#[test]
fn fee_below_the_priority_fee_is_rejected_by_the_full_check() {
    let model_id = [0x55u8; 32];
    let base = 400_000_000u64;
    let m = minimums(model_id, base);
    let good = ai_request_with_reward(model_id, routed_reward(base));
    let id = good.id;
    let txs = vec![make_coinbase(), good];
    assert!(matches!(
        check_ai_request_inference_rewards(&txs, &[(id, 29_999_999)], &m, false, &rules()),
        Err(AiRuleError::FeeBelowPriorityFee(_, 29_999_999, 30_000_000))
    ));
    assert!(check_ai_request_inference_rewards(&txs, &[(id, 30_000_000)], &m, false, &rules()).is_ok());
}

#[test]
fn single_request_floor_counts_started_token_blocks() {
    let model_id = [0x01u8; 32];
    let m = minimums(model_id, 100);
    let id = Hash32::from_bytes([0u8; 32]);
    // 64 tokens is one block, 65 is two.
    let one = request(model_id, 64, 100 + INFERENCE_REWARD_TOKEN_STEP, MIN_AI_REQUEST_PRIORITY_FEE);
    assert!(check_ai_request_payload_rules(id, &one, &m, &rules()).is_ok());
    let two = request(model_id, 65, 100 + INFERENCE_REWARD_TOKEN_STEP, MIN_AI_REQUEST_PRIORITY_FEE);
    assert!(matches!(
        check_ai_request_payload_rules(id, &two, &m, &rules()),
        Err(AiRuleError::InferenceRewardBelowMinimum(_, _, _, _))
    ));
}

#[test]
fn request_hash_is_the_blake2b_prefix_of_the_payload() {
    let payload = b"abc".to_vec();
    let h = request_hash(&payload);
    assert_eq!(&h.bytes[..], &blake2b_simd::blake2b(&payload).as_bytes()[..32]);
    assert_ne!(request_hash(&b"abd".to_vec()).bytes, h.bytes);
}

#[test]
fn mempool_admits_ai_transactions_by_era() {
    let req = make_ai_request([7u8; 32]); // max_tokens 100
    let resp = tx(TxKind::AiResponse, vec![0u8; 40], None, None, vec![]);
    // Before the service-bond activation: responses must have the one accepted length.
    assert!(matches!(check_mempool_ai_transaction(&resp, false, 66, 50), Err(MempoolAiError::ResponsePayloadLength(40, 66))));
    assert!(check_mempool_ai_transaction(&resp, false, 40, 50).is_ok());
    assert!(check_mempool_ai_transaction(&req, false, 66, 50).is_ok());
    // From it on: a request may not ask for more tokens than the cap.
    assert!(matches!(check_mempool_ai_transaction(&req, true, 66, 50), Err(MempoolAiError::MaxTokensAboveCap(100, 50))));
    assert!(check_mempool_ai_transaction(&req, true, 66, 100).is_ok());
    assert!(check_mempool_ai_transaction(&resp, true, 66, 50).is_ok());
}

#[test]
fn rule_errors_name_the_model_in_lower_case_hex() {
    let model_id = [0xabu8; 32];
    let base = 400_000_000u64;
    let txs = vec![make_coinbase(), ai_request_with_reward(model_id, base)];
    match check_ai_request_payload_rules_all(&txs, &minimums(model_id, base), false, &rules()) {
        Err(AiRuleError::InferenceRewardBelowMinimum(_, _, _, model)) => assert_eq!(model, "ab".repeat(32)),
        other => panic!("unexpected verdict {other:?}"),
    }
}
