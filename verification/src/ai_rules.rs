//! Validity rules of AI-request and AI-response transactions: the per-model inference-reward
//! floor, the priority-fee floor, the escrow output, the fee cover, and the model capabilities a
//! miner declares.

use vstd::prelude::*;
use crate::hash::Hash32;
use crate::service_bond::{csv_pay_to_pubkey, is_csv_pay_to_pubkey, lemma_csv_escrow_layout};

verus! {

/// The decoded payload of an AI request.
#[derive(Debug, Clone, Copy)]
pub struct AiRequest {
    pub model_id: Hash32,
    pub max_tokens: u32,
    pub inference_reward: u64,
    pub priority_fee: u64,
}

/// The decoded payload of an AI response.
#[derive(Debug, Clone, Copy)]
pub struct AiResponse {
    pub request_hash: Hash32,
}

/// A transaction output: its value and its locking script with the script version.
#[derive(Debug, Clone)]
pub struct TxOutput {
    pub value: u64,
    pub script_version: u16,
    pub script: Vec<u8>,
}

/// The kind of a transaction, by subnetwork.
#[derive(Debug, Clone, Copy, PartialEq, Eq, Structural)]
pub enum TxKind {
    Coinbase,
    AiRequest,
    AiResponse,
    Native,
}

/// What the AI rules read of a transaction: its id, kind, raw payload, the decoded request or
/// response payload (`None` when the payload does not decode), and its outputs.
#[derive(Debug, Clone)]
pub struct Transaction {
    pub id: Hash32,
    pub kind: TxKind,
    pub payload: Vec<u8>,
    pub request: Option<AiRequest>,
    pub response: Option<AiResponse>,
    pub outputs: Vec<TxOutput>,
}

/// Network constants of the request rules.
#[derive(Debug, Clone)]
pub struct AiRequestRules {
    /// Reward added per started block of 64 tokens.
    pub token_step: u64,
    /// Lowest accepted priority fee.
    pub min_priority_fee: u64,
    /// The canonical keyless vault script (version 0) that routed rewards lock in.
    pub vault_script: Vec<u8>,
}

/// Rule violations, each carrying the offending transaction id first; a model id is carried as
/// its lower-case hex text.
#[derive(Debug, Clone)]
pub enum AiRuleError {
    /// (tx id, inference reward, effective minimum, model id in hex)
    InferenceRewardBelowMinimum(Hash32, u64, u128, String),
    /// (tx id, priority fee, minimum)
    PriorityFeeBelowMinimum(Hash32, u64, u64),
    MissingEscrowOutput(Hash32),
    InvalidEscrowScript(Hash32),
    /// (tx id, escrow value, inference reward)
    EscrowBelowInferenceReward(Hash32, u64, u64),
    /// (tx id, calculated fee, priority fee)
    FeeBelowPriorityFee(Hash32, u64, u64),
    /// (tx id, model id in hex)
    ResponseModelCapMissing(Hash32, String),
}

/// A rule violation as the contracts see it: an [`AiRuleError`] with its hex text as characters.
pub enum AiRuleFault {
    InferenceRewardBelowMinimum(Hash32, u64, u128, Seq<char>),
    PriorityFeeBelowMinimum(Hash32, u64, u64),
    MissingEscrowOutput(Hash32),
    InvalidEscrowScript(Hash32),
    EscrowBelowInferenceReward(Hash32, u64, u64),
    FeeBelowPriorityFee(Hash32, u64, u64),
    ResponseModelCapMissing(Hash32, Seq<char>),
}

impl View for AiRuleError {
    type V = AiRuleFault;

    open spec fn view(&self) -> AiRuleFault {
        match self {
            AiRuleError::InferenceRewardBelowMinimum(id, reward, min, model) => AiRuleFault::InferenceRewardBelowMinimum(
                *id,
                *reward,
                *min,
                model@,
            ),
            AiRuleError::PriorityFeeBelowMinimum(id, fee, min) => AiRuleFault::PriorityFeeBelowMinimum(*id, *fee, *min),
            AiRuleError::MissingEscrowOutput(id) => AiRuleFault::MissingEscrowOutput(*id),
            AiRuleError::InvalidEscrowScript(id) => AiRuleFault::InvalidEscrowScript(*id),
            AiRuleError::EscrowBelowInferenceReward(id, value, reward) => AiRuleFault::EscrowBelowInferenceReward(
                *id,
                *value,
                *reward,
            ),
            AiRuleError::FeeBelowPriorityFee(id, fee, pf) => AiRuleFault::FeeBelowPriorityFee(*id, *fee, *pf),
            AiRuleError::ResponseModelCapMissing(id, model) => AiRuleFault::ResponseModelCapMissing(*id, model@),
        }
    }
}

/// A rule verdict as the contracts see it.
pub open spec fn verdict(r: Result<(), AiRuleError>) -> Result<(), AiRuleFault> {
    match r {
        Ok(_) => Ok(()),
        Err(e) => Err(e@),
    }
}

/// The lower-case hex digit of a nibble.
pub open spec fn hex_digit(n: int) -> char {
    if n < 10 {
        (48 + n) as char
    } else {
        (87 + n) as char
    }
}

/// The lower-case hex text of `bytes`: two digits per byte, high nibble first.
pub open spec fn hex_lower(bytes: Seq<u8>) -> Seq<char>
    decreases bytes.len(),
{
    if bytes.len() == 0 {
        Seq::empty()
    } else {
        hex_lower(bytes.drop_last()) + seq![hex_digit(bytes.last() as int / 16), hex_digit(bytes.last() as int % 16)]
    }
}

/// `hex::encode`: the lower-case hex text of the bytes, two digits per byte, high nibble first.
#[verifier::external_body]
fn hex_encode(bytes: &[u8; 32]) -> (r: String)
    ensures
        r@ == hex_lower(bytes@),
{
    hex::encode(bytes)
}

/// The base reward of the first table entry for `model`, if any.
pub open spec fn base_reward_of(minimums: Seq<(Hash32, u64)>, model: Seq<u8>) -> Option<u64>
    decreases minimums.len(),
{
    if minimums.len() == 0 {
        None
    } else if minimums[0].0@ == model {
        Some(minimums[0].1)
    } else {
        base_reward_of(minimums.drop_first(), model)
    }
}

/// The effective inference-reward floor: the base plus one token step per started block of 64
/// tokens.
pub open spec fn effective_minimum(base: u64, max_tokens: u32, token_step: u64) -> int {
    base + ((max_tokens + 63) / 64) * token_step
}

/// The request rules that need only the request: the per-model reward floor (models absent from
/// the table have none), then the priority-fee floor.
pub open spec fn spec_payload_rules(
    tx_id: Hash32,
    req: AiRequest,
    minimums: Seq<(Hash32, u64)>,
    token_step: u64,
    min_priority_fee: u64,
) -> Result<(), AiRuleFault> {
    match base_reward_of(minimums, req.model_id@) {
        Some(base) if req.inference_reward < effective_minimum(base, req.max_tokens, token_step) => Err(
            AiRuleFault::InferenceRewardBelowMinimum(
                tx_id,
                req.inference_reward,
                effective_minimum(base, req.max_tokens, token_step) as u128,
                hex_lower(req.model_id@),
            ),
        ),
        _ => if req.priority_fee < min_priority_fee {
            Err(AiRuleFault::PriorityFeeBelowMinimum(tx_id, req.priority_fee, min_priority_fee))
        } else {
            Ok(())
        },
    }
}

/// The escrow rules: `outputs[1]` exists; it locks the canonical vault (version 0) past the
/// routing gate, a CSV pay-to-pubkey script before it; and it holds at least the reward.
pub open spec fn spec_escrow_rules(
    tx_id: Hash32,
    req: AiRequest,
    outputs: Seq<TxOutput>,
    routed: bool,
    vault_script: Seq<u8>,
) -> Result<(), AiRuleFault> {
    if outputs.len() < 2 {
        Err(AiRuleFault::MissingEscrowOutput(tx_id))
    } else if routed && !(outputs[1].script_version == 0 && outputs[1].script@ == vault_script) {
        Err(AiRuleFault::InvalidEscrowScript(tx_id))
    } else if !routed && !is_csv_pay_to_pubkey(outputs[1].script@) {
        Err(AiRuleFault::InvalidEscrowScript(tx_id))
    } else if outputs[1].value < req.inference_reward {
        Err(AiRuleFault::EscrowBelowInferenceReward(tx_id, outputs[1].value, req.inference_reward))
    } else {
        Ok(())
    }
}

/// Before rewards are routed an accepted escrow is time-locked: its script carries
/// `OP_CHECKSEQUENCEVERIFY` (0xb1) right after the sequence, then `OP_DATA_32`, a 32-byte key and
/// `OP_CHECKSIG`, and it holds at least the reward; once rewards are routed it is the canonical
/// vault.
pub proof fn lemma_accepted_escrow_shape(tx_id: Hash32, req: AiRequest, outputs: Seq<TxOutput>, routed: bool, vault_script: Seq<u8>)
    ensures
        spec_escrow_rules(tx_id, req, outputs, routed, vault_script) is Ok ==> {
            let s = outputs[1].script@;
            &&& outputs.len() >= 2
            &&& outputs[1].value >= req.inference_reward
            &&& !routed ==> 1 <= s[0] <= 8 && s.len() == s[0] + 36 && s[s[0] + 1] == 0xb1u8 && s[s[0] + 2] == 0x20u8
                && s[s[0] + 35] == 0xacu8
            &&& routed ==> outputs[1].script_version == 0 && s == vault_script
        },
{
    if outputs.len() >= 2 {
        lemma_csv_escrow_layout(outputs[1].script@, Seq::empty(), Seq::empty());
    }
}

/// Every rule one transaction decides alone: non-requests and undecodable payloads pass.
pub open spec fn spec_tx_rules(tx: Transaction, minimums: Seq<(Hash32, u64)>, routed: bool, rules: AiRequestRules) -> Result<
    (),
    AiRuleFault,
> {
    if tx.kind != TxKind::AiRequest {
        Ok(())
    } else {
        match tx.request {
            None => Ok(()),
            Some(req) => match spec_payload_rules(tx.id, req, minimums, rules.token_step, rules.min_priority_fee) {
                Err(e) => Err(e),
                Ok(_) => spec_escrow_rules(tx.id, req, tx.outputs@, routed, rules.vault_script@),
            },
        }
    }
}

/// The first violation among `txs[k..]`.
pub open spec fn spec_all_rules_from(
    txs: Seq<Transaction>,
    k: int,
    minimums: Seq<(Hash32, u64)>,
    routed: bool,
    rules: AiRequestRules,
) -> Result<(), AiRuleFault>
    decreases txs.len() - k,
{
    if k >= txs.len() || k < 0 {
        Ok(())
    } else {
        match spec_tx_rules(txs[k], minimums, routed, rules) {
            Err(e) => Err(e),
            Ok(_) => spec_all_rules_from(txs, k + 1, minimums, routed, rules),
        }
    }
}

/// The calculated fee recorded for transaction `id` (the last entry for it), if any.
pub open spec fn fee_of(fees: Seq<(Hash32, u64)>, id: Seq<u8>) -> Option<u64>
    decreases fees.len(),
{
    if fees.len() == 0 {
        None
    } else if fees.last().0@ == id {
        Some(fees.last().1)
    } else {
        fee_of(fees.drop_last(), id)
    }
}

/// The full rule set of one transaction with its UTXO-validated fee: the payload rules, then
/// the fee cover of the priority fee, then the escrow rules.
pub open spec fn spec_tx_rules_with_fee(
    tx: Transaction,
    fees: Seq<(Hash32, u64)>,
    minimums: Seq<(Hash32, u64)>,
    routed: bool,
    rules: AiRequestRules,
) -> Result<(), AiRuleFault> {
    if tx.kind != TxKind::AiRequest {
        Ok(())
    } else {
        match tx.request {
            None => Ok(()),
            Some(req) => match spec_payload_rules(tx.id, req, minimums, rules.token_step, rules.min_priority_fee) {
                Err(e) => Err(e),
                Ok(_) => match fee_of(fees, tx.id@) {
                    Some(fee) if fee < req.priority_fee => Err(AiRuleFault::FeeBelowPriorityFee(tx.id, fee, req.priority_fee)),
                    _ => spec_escrow_rules(tx.id, req, tx.outputs@, routed, rules.vault_script@),
                },
            },
        }
    }
}

/// The first violation of the full rule set among `txs[k..]`.
pub open spec fn spec_full_rules_from(
    txs: Seq<Transaction>,
    k: int,
    fees: Seq<(Hash32, u64)>,
    minimums: Seq<(Hash32, u64)>,
    routed: bool,
    rules: AiRequestRules,
) -> Result<(), AiRuleFault>
    decreases txs.len() - k,
{
    if k >= txs.len() || k < 0 {
        Ok(())
    } else {
        match spec_tx_rules_with_fee(txs[k], fees, minimums, routed, rules) {
            Err(e) => Err(e),
            Ok(_) => spec_full_rules_from(txs, k + 1, fees, minimums, routed, rules),
        }
    }
}

fn base_reward(minimums: &[(Hash32, u64)], model: &Hash32) -> (r: Option<u64>)
    ensures
        r == base_reward_of(minimums@, model@),
{
    let mut i: usize = 0;
    assert(minimums@.skip(0) =~= minimums@);
    while i < minimums.len()
        invariant
            i <= minimums@.len(),
            base_reward_of(minimums@, model@) == base_reward_of(minimums@.skip(i as int), model@),
        decreases minimums@.len() - i,
    {
        assert(minimums@.skip(i as int).drop_first() =~= minimums@.skip(i + 1));
        if minimums[i].0.equals(model) {
            return Some(minimums[i].1);
        }
        i = i + 1;
    }
    None
}

/// The per-model reward floor and the priority-fee floor of one request.
pub fn check_ai_request_payload_rules(
    tx_id: Hash32,
    req: &AiRequest,
    minimums: &[(Hash32, u64)],
    rules: &AiRequestRules,
) -> (r: Result<(), AiRuleError>)
    ensures
        verdict(r) == spec_payload_rules(tx_id, *req, minimums@, rules.token_step, rules.min_priority_fee),
{
    if let Some(base) = base_reward(minimums, &req.model_id) {
        let blocks = (req.max_tokens as u128 + 63) / 64;
        assert(blocks * (rules.token_step as u128) <= 0x1_0000_0000 * 0x1_0000_0000_0000_0000) by (nonlinear_arith)
            requires
                blocks <= 0x1_0000_0000,
                rules.token_step < 0x1_0000_0000_0000_0000,
        ;
        let effective_min: u128 = base as u128 + blocks * (rules.token_step as u128);
        assert(effective_min == effective_minimum(base, req.max_tokens, rules.token_step)) by (nonlinear_arith)
            requires
                blocks == (req.max_tokens + 63) / 64,
                effective_min == base + blocks * rules.token_step,
        ;
        if (req.inference_reward as u128) < effective_min {
            return Err(AiRuleError::InferenceRewardBelowMinimum(tx_id, req.inference_reward, effective_min, hex_encode(&req.model_id.bytes)));
        }
    }
    if req.priority_fee < rules.min_priority_fee {
        return Err(AiRuleError::PriorityFeeBelowMinimum(tx_id, req.priority_fee, rules.min_priority_fee));
    }
    Ok(())
}

fn bytes_equal(a: &Vec<u8>, b: &Vec<u8>) -> (r: bool)
    ensures
        r == (a@ == b@),
{
    if a.len() != b.len() {
        return false;
    }
    let mut i: usize = 0;
    while i < a.len()
        invariant
            i <= a@.len(),
            a@.len() == b@.len(),
            forall|j: int| 0 <= j < i ==> a@[j] == b@[j],
        decreases a@.len() - i,
    {
        if a[i] != b[i] {
            return false;
        }
        i = i + 1;
    }
    assert(a@ =~= b@);
    true
}

/// The structural escrow rules of one request (see [`spec_escrow_rules`]).
pub fn check_ai_request_escrow_output(
    tx_id: Hash32,
    req: &AiRequest,
    outputs: &Vec<TxOutput>,
    routed: bool,
    rules: &AiRequestRules,
) -> (r: Result<(), AiRuleError>)
    ensures
        verdict(r) == spec_escrow_rules(tx_id, *req, outputs@, routed, rules.vault_script@),
{
    if outputs.len() < 2 {
        return Err(AiRuleError::MissingEscrowOutput(tx_id));
    }
    let escrow_out = &outputs[1];
    if routed {
        if escrow_out.script_version != 0 || !bytes_equal(&escrow_out.script, &rules.vault_script) {
            return Err(AiRuleError::InvalidEscrowScript(tx_id));
        }
    } else if !csv_pay_to_pubkey(escrow_out.script.as_slice()) {
        return Err(AiRuleError::InvalidEscrowScript(tx_id));
    }
    if escrow_out.value < req.inference_reward {
        return Err(AiRuleError::EscrowBelowInferenceReward(tx_id, escrow_out.value, req.inference_reward));
    }
    Ok(())
}

/// Every request rule one transaction decides alone (the mempool admission entry point). A
/// non-request transaction, or a request whose payload does not decode, passes untouched.
pub fn check_ai_request_tx_payload_rules(
    tx: &Transaction,
    minimums: &[(Hash32, u64)],
    routed: bool,
    rules: &AiRequestRules,
) -> (r: Result<(), AiRuleError>)
    ensures
        verdict(r) == spec_tx_rules(*tx, minimums@, routed, *rules),
{
    if tx.kind != TxKind::AiRequest {
        return Ok(());
    }
    match &tx.request {
        None => Ok(()),
        Some(req) => {
            match check_ai_request_payload_rules(tx.id, req, minimums, rules) {
                Err(e) => Err(e),
                Ok(()) => check_ai_request_escrow_output(tx.id, req, &tx.outputs, routed, rules),
            }
        },
    }
}

/// The pre-UTXO fast path: the first violation of the single-transaction rules among every
/// transaction but the first (the coinbase).
pub fn check_ai_request_payload_rules_all(
    txs: &Vec<Transaction>,
    minimums: &[(Hash32, u64)],
    routed: bool,
    rules: &AiRequestRules,
) -> (r: Result<(), AiRuleError>)
    ensures
        verdict(r) == spec_all_rules_from(txs@, 1, minimums@, routed, *rules),
{
    let mut k: usize = 1;
    while k < txs.len()
        invariant
            1 <= k,
            k <= txs@.len() || txs@.len() == 0,
            spec_all_rules_from(txs@, 1, minimums@, routed, *rules) == spec_all_rules_from(txs@, k as int, minimums@, routed, *rules),
        decreases txs@.len() - k,
    {
        match check_ai_request_tx_payload_rules(&txs[k], minimums, routed, rules) {
            Err(e) => {
                return Err(e);
            },
            Ok(()) => {},
        }
        k = k + 1;
    }
    Ok(())
}

fn fee_lookup(fees: &[(Hash32, u64)], id: &Hash32) -> (r: Option<u64>)
    ensures
        r == fee_of(fees@, id@),
{
    let mut i: usize = fees.len();
    assert(fees@.take(fees@.len() as int) =~= fees@);
    while i > 0
        invariant
            i <= fees@.len(),
            fee_of(fees@, id@) == fee_of(fees@.take(i as int), id@),
        decreases i,
    {
        assert(fees@.take(i as int).drop_last() =~= fees@.take(i - 1));
        if fees[i - 1].0.equals(id) {
            return Some(fees[i - 1].1);
        }
        i = i - 1;
    }
    None
}

/// The authoritative block check over the UTXO-validated fees (`validated` lists
/// `(tx id, calculated fee)`): per request, the payload rules, then that the calculated fee
/// covers the priority fee, then the escrow rules; the first violation among every transaction
/// but the coinbase.
pub fn check_ai_request_inference_rewards(
    txs: &Vec<Transaction>,
    validated: &[(Hash32, u64)],
    minimums: &[(Hash32, u64)],
    routed: bool,
    rules: &AiRequestRules,
) -> (r: Result<(), AiRuleError>)
    ensures
        verdict(r) == spec_full_rules_from(txs@, 1, validated@, minimums@, routed, *rules),
{
    let mut k: usize = 1;
    while k < txs.len()
        invariant
            1 <= k,
            k <= txs@.len() || txs@.len() == 0,
            spec_full_rules_from(txs@, 1, validated@, minimums@, routed, *rules) == spec_full_rules_from(
                txs@,
                k as int,
                validated@,
                minimums@,
                routed,
                *rules,
            ),
        decreases txs@.len() - k,
    {
        let tx = &txs[k];
        if tx.kind == TxKind::AiRequest {
            if let Some(req) = &tx.request {
                match check_ai_request_payload_rules(tx.id, req, minimums, rules) {
                    Err(e) => {
                        return Err(e);
                    },
                    Ok(()) => {},
                }
                if let Some(fee) = fee_lookup(validated, &tx.id) {
                    if fee < req.priority_fee {
                        return Err(AiRuleError::FeeBelowPriorityFee(tx.id, fee, req.priority_fee));
                    }
                }
                match check_ai_request_escrow_output(tx.id, req, &tx.outputs, routed, rules) {
                    Err(e) => {
                        return Err(e);
                    },
                    Ok(()) => {},
                }
            }
        }
        k = k + 1;
    }
    Ok(())
}

/// Whether every request among `txs[k..]` has its fee (if recorded) covering its priority fee.
pub open spec fn fees_cover(txs: Seq<Transaction>, fees: Seq<(Hash32, u64)>) -> bool {
    forall|i: int|
        0 <= i < txs.len() && txs[i].kind == TxKind::AiRequest && txs[i].request is Some ==> match fee_of(fees, txs[i].id@) {
            Some(fee) => fee >= txs[i].request->Some_0.priority_fee,
            None => true,
        }
}

/// The fast path and the full check reach the same verdict whenever no fee falls short of its
/// priority fee — the only rule that needs the UTXO pass. In particular they agree when no fee
/// is known at all.
pub proof fn lemma_fast_path_matches_full_check(
    txs: Seq<Transaction>,
    k: int,
    fees: Seq<(Hash32, u64)>,
    minimums: Seq<(Hash32, u64)>,
    routed: bool,
    rules: AiRequestRules,
)
    requires
        fees_cover(txs, fees),
        0 <= k,
    ensures
        spec_all_rules_from(txs, k, minimums, routed, rules) == spec_full_rules_from(txs, k, fees, minimums, routed, rules),
    decreases txs.len() - k,
{
    if k < txs.len() {
        lemma_fast_path_matches_full_check(txs, k + 1, fees, minimums, routed, rules);
    }
}


/// Whatever the validated fees, the fast path never lets through what the full check refuses
/// for a reason it knows: a fast-path violation is a full-check violation, and the full check
/// differs from the fast path only by refusing a fee that falls short of its priority fee.
pub proof fn lemma_fast_path_error_is_full_error(
    txs: Seq<Transaction>,
    k: int,
    fees: Seq<(Hash32, u64)>,
    minimums: Seq<(Hash32, u64)>,
    routed: bool,
    rules: AiRequestRules,
)
    requires
        0 <= k,
    ensures
        spec_all_rules_from(txs, k, minimums, routed, rules) is Err ==> spec_full_rules_from(
            txs,
            k,
            fees,
            minimums,
            routed,
            rules,
        ) is Err,
        spec_full_rules_from(txs, k, fees, minimums, routed, rules) == spec_all_rules_from(txs, k, minimums, routed, rules)
            || spec_full_rules_from(txs, k, fees, minimums, routed, rules) matches Err(AiRuleFault::FeeBelowPriorityFee(_, _, _)),
    decreases txs.len() - k,
{
    if k < txs.len() {
        lemma_fast_path_error_is_full_error(txs, k + 1, fees, minimums, routed, rules);
    }
}

/// The BLAKE2b digest (64-byte output, no key) of `data`, as `blake2b_simd::blake2b` computes it.
pub uninterp spec fn blake2b_512(data: Seq<u8>) -> Seq<u8>;

/// `blake2b_simd::blake2b`: BLAKE2b with the default 64-byte output. The digest is named by
/// [`blake2b_512`]; its length is the documented default output length.
#[verifier::external_body]
fn blake2b_digest(data: &[u8]) -> (r: Vec<u8>)
    ensures
        r@ == blake2b_512(data@),
        r@.len() == 64,
{
    blake2b_simd::blake2b(data).as_bytes().to_vec()
}

/// The request hash of an AI request: the first 32 bytes of the BLAKE2b digest of its payload.
pub open spec fn request_hash_of(payload: Seq<u8>) -> Seq<u8> {
    blake2b_512(payload).subrange(0, 32)
}

/// The request hash of an AI request transaction.
pub fn request_hash(payload: &Vec<u8>) -> (r: Hash32)
    ensures
        r@ == request_hash_of(payload@),
{
    let d = blake2b_digest(payload.as_slice());
    let mut bytes = [0u8; 32];
    let mut i: usize = 0;
    while i < 32
        invariant
            i <= 32,
            d@.len() == 64,
            forall|j: int| 0 <= j < i ==> bytes@[j] == d@[j],
        decreases 32 - i,
    {
        bytes[i] = d[i];
        i = i + 1;
    }
    assert(bytes@ =~= d@.subrange(0, 32));
    Hash32 { bytes }
}

/// The model of the last AI request among `txs[1..n]` whose request hash (`digests[i]`) is `h`.
pub open spec fn requested_model(txs: Seq<Transaction>, digests: Seq<Seq<u8>>, h: Seq<u8>, n: int) -> Option<Hash32>
    decreases n,
{
    if n <= 1 {
        None
    } else if txs[n - 1].kind == TxKind::AiRequest && txs[n - 1].request is Some && digests[n - 1] == h {
        Some(txs[n - 1].request->Some_0.model_id)
    } else {
        requested_model(txs, digests, h, n - 1)
    }
}

/// Whether `model` is among the declared capabilities.
pub open spec fn declares(caps: Seq<Hash32>, model: Seq<u8>) -> bool {
    exists|i: int| 0 <= i < caps.len() && caps[i]@ == model
}

/// The first AI response among `txs[k..]` answering a request of the same block whose model is
/// not declared.
pub open spec fn spec_caps_from(txs: Seq<Transaction>, digests: Seq<Seq<u8>>, caps: Seq<Hash32>, k: int) -> Result<(), AiRuleFault>
    decreases txs.len() - k,
{
    if k >= txs.len() || k < 0 {
        Ok(())
    } else if txs[k].kind == TxKind::AiResponse && txs[k].response is Some && requested_model(
        txs,
        digests,
        txs[k].response->Some_0.request_hash@,
        txs.len() as int,
    ) is Some && !declares(
        caps,
        requested_model(txs, digests, txs[k].response->Some_0.request_hash@, txs.len() as int)->Some_0@,
    ) {
        Err(
            AiRuleFault::ResponseModelCapMissing(
                txs[k].id,
                hex_lower(requested_model(txs, digests, txs[k].response->Some_0.request_hash@, txs.len() as int)->Some_0@),
            ),
        )
    } else {
        spec_caps_from(txs, digests, caps, k + 1)
    }
}

/// The capability rule: with no declared capabilities nothing is enforced; otherwise the first
/// response (after the coinbase) whose request lies in the same block with an undeclared model.
pub open spec fn spec_model_caps(txs: Seq<Transaction>, digests: Seq<Seq<u8>>, caps: Seq<Hash32>) -> Result<(), AiRuleFault> {
    if caps.len() == 0 {
        Ok(())
    } else {
        spec_caps_from(txs, digests, caps, 1)
    }
}

fn find_requested_model(txs: &Vec<Transaction>, digests: &Vec<Hash32>, h: &Hash32) -> (r: Option<Hash32>)
    requires
        digests@.len() == txs@.len(),
    ensures
        r == requested_model(txs@, digests@.map_values(|d: Hash32| d@), h@, txs@.len() as int),
{
    let ghost dv = digests@.map_values(|d: Hash32| d@);
    let mut n: usize = txs.len();
    while n > 1
        invariant
            n <= txs@.len(),
            digests@.len() == txs@.len(),
            dv == digests@.map_values(|d: Hash32| d@),
            requested_model(txs@, dv, h@, txs@.len() as int) == requested_model(txs@, dv, h@, n as int),
        decreases n,
    {
        let tx = &txs[n - 1];
        if tx.kind == TxKind::AiRequest {
            if let Some(req) = &tx.request {
                if digests[n - 1].equals(h) {
                    return Some(req.model_id);
                }
            }
        }
        n = n - 1;
    }
    None
}

fn declared(caps: &Vec<Hash32>, model: &Hash32) -> (r: bool)
    ensures
        r == declares(caps@, model@),
{
    let mut i: usize = 0;
    while i < caps.len()
        invariant
            i <= caps@.len(),
            forall|j: int| 0 <= j < i ==> caps@[j]@ != model@,
        decreases caps@.len() - i,
    {
        if caps[i].equals(model) {
            return true;
        }
        i = i + 1;
    }
    false
}

/// The capability rule over precomputed request hashes: `digests[i]` is the request hash of
/// `txs[i]` (see [`request_hash`]).
pub fn check_ai_response_model_caps_with_digests(txs: &Vec<Transaction>, digests: &Vec<Hash32>, declared_caps: &Vec<Hash32>) -> (r:
    Result<(), AiRuleError>)
    requires
        digests@.len() == txs@.len(),
    ensures
        verdict(r) == spec_model_caps(txs@, digests@.map_values(|d: Hash32| d@), declared_caps@),
{
    let ghost dv = digests@.map_values(|d: Hash32| d@);
    if declared_caps.len() == 0 {
        return Ok(());
    }
    let mut k: usize = 1;
    while k < txs.len()
        invariant
            1 <= k,
            k <= txs@.len() || txs@.len() == 0,
            digests@.len() == txs@.len(),
            dv == digests@.map_values(|d: Hash32| d@),
            declared_caps@.len() > 0,
            spec_model_caps(txs@, dv, declared_caps@) == spec_caps_from(txs@, dv, declared_caps@, k as int),
        decreases txs@.len() - k,
    {
        let tx = &txs[k];
        if tx.kind == TxKind::AiResponse {
            if let Some(resp) = &tx.response {
                if let Some(model_id) = find_requested_model(txs, digests, &resp.request_hash) {
                    if !declared(declared_caps, &model_id) {
                        return Err(AiRuleError::ResponseModelCapMissing(tx.id, hex_encode(&model_id.bytes)));
                    }
                }
            }
        }
        k = k + 1;
    }
    Ok(())
}

/// Rejects the block if an AI response answers a request of the same block whose model the
/// miner did not declare in `declared_caps`. Requests from earlier blocks are skipped, and a
/// miner that declared no capabilities is not checked. Request hashes are the BLAKE2b digests
/// of the request payloads.
pub fn check_ai_response_model_caps(txs: &Vec<Transaction>, declared_caps: &Vec<Hash32>) -> (r: Result<(), AiRuleError>)
    ensures
        verdict(r) == spec_model_caps(txs@, Seq::new(txs@.len(), |i: int| request_hash_of(txs@[i].payload@)), declared_caps@),
{
    let mut digests: Vec<Hash32> = Vec::new();
    let mut i: usize = 0;
    while i < txs.len()
        invariant
            i <= txs@.len(),
            digests@.len() == i,
            forall|j: int| 0 <= j < i ==> digests@[j]@ == request_hash_of(txs@[j].payload@),
        decreases txs@.len() - i,
    {
        digests.push(request_hash(&txs[i].payload));
        i = i + 1;
    }
    assert(digests@.map_values(|d: Hash32| d@) =~= Seq::new(txs@.len(), |i: int| request_hash_of(txs@[i].payload@)));
    check_ai_response_model_caps_with_digests(txs, &digests, declared_caps)
}

/// Why the mempool refuses an AI transaction before any UTXO work.
#[derive(Debug, Clone, Copy)]
pub enum MempoolAiError {
    /// A response payload of the wrong length before the service-bond activation: (length, the
    /// one accepted length).
    ResponsePayloadLength(usize, usize),
    /// A request asking for more tokens than the cap: (max tokens, cap).
    MaxTokensAboveCap(u32, u32),
}

/// The mempool's own admission rules for AI transactions at the virtual score: before the
/// service-bond activation (`pom_v3_active` false) only unsigned responses of exactly
/// `response_payload_len` bytes are admitted; from it on, a request whose payload decodes must
/// not ask for more than `max_tokens_cap` tokens. Anything else passes on to the block rules.
pub fn check_mempool_ai_transaction(tx: &Transaction, pom_v3_active: bool, response_payload_len: usize, max_tokens_cap: u32) -> (r:
    Result<(), MempoolAiError>)
    ensures
        !pom_v3_active ==> (if tx.kind == TxKind::AiResponse && tx.payload@.len() != response_payload_len {
            r matches Err(MempoolAiError::ResponsePayloadLength(n, m)) && n == tx.payload@.len() && m == response_payload_len
        } else {
            r is Ok
        }),
        pom_v3_active ==> (match tx.request {
            Some(req) => if tx.kind == TxKind::AiRequest && req.max_tokens > max_tokens_cap {
                r matches Err(MempoolAiError::MaxTokensAboveCap(t, c)) && t == req.max_tokens && c == max_tokens_cap
            } else {
                r is Ok
            },
            None => r is Ok,
        }),
{
    if !pom_v3_active {
        if tx.kind == TxKind::AiResponse && tx.payload.len() != response_payload_len {
            return Err(MempoolAiError::ResponsePayloadLength(tx.payload.len(), response_payload_len));
        }
        return Ok(());
    }
    if tx.kind == TxKind::AiRequest {
        if let Some(req) = tx.request {
            if req.max_tokens > max_tokens_cap {
                return Err(MempoolAiError::MaxTokensAboveCap(req.max_tokens, max_tokens_cap));
            }
        }
    }
    Ok(())
}

} // verus!
