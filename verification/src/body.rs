//! Block-body admission: which body-validation failures poison a block hash, the negative
//! cache of failed PoM witnesses, and what is persisted from an accepted body.

use vstd::prelude::*;
use crate::hash::{Hash32, ForkActivation};

verus! {

/// The body-validation errors that the admission rules distinguish. `Other` stands for every
/// remaining genuine block defect.
#[derive(Debug, Clone, Copy)]
pub enum RuleError {
    BadPomProof,
    BadPomProofV3,
    BadPomProofV4,
    PomFinalStateMismatch(u64, u64),
    PomUnknownTier(u8),
    BadMerkleRoot,
    MissingParents,
    PrunedBlock,
    PomProofMissing,
    KnownBadPomWitness,
    KnownInvalid,
    DuplicateTransactions(Hash32),
    Other,
}

/// Errors scoped to the PoM witness rather than to the block: the witness travels outside the
/// block hash, so the same block may later arrive with an honest witness.
pub open spec fn is_witness_scoped(e: RuleError) -> bool {
    match e {
        RuleError::BadPomProof
        | RuleError::BadPomProofV3
        | RuleError::BadPomProofV4
        | RuleError::PomFinalStateMismatch(_, _)
        | RuleError::PomUnknownTier(_) => true,
        _ => false,
    }
}

/// Errors that reject one delivery of a body in every era, never the block itself.
pub open spec fn is_delivery_only(e: RuleError) -> bool {
    match e {
        RuleError::BadMerkleRoot
        | RuleError::MissingParents
        | RuleError::PrunedBlock
        | RuleError::PomProofMissing
        | RuleError::KnownBadPomWitness => true,
        _ => false,
    }
}

/// Whether a failure persists the invalid status for the block hash.
pub open spec fn spec_marks_block_invalid(e: RuleError, bad_witness_rejects_delivery: bool) -> bool {
    !is_delivery_only(e) && !(bad_witness_rejects_delivery && is_witness_scoped(e))
}

/// True when a body-validation error is scoped to the PoM witness rather than the block.
pub fn witness_scoped_error(e: &RuleError) -> (r: bool)
    ensures
        r == is_witness_scoped(*e),
{
    match e {
        RuleError::BadPomProof
        | RuleError::BadPomProofV3
        | RuleError::BadPomProofV4
        | RuleError::PomFinalStateMismatch(_, _)
        | RuleError::PomUnknownTier(_) => true,
        _ => false,
    }
}

/// Whether a body-validation failure persists the invalid status for the block hash. Missing
/// parents, a bad merkle root, a pruned block, a missing proof and a cached bad witness never
/// do; past the witness-poisoning gate (`bad_witness_rejects_delivery`) neither does any
/// witness-scoped error.
pub fn marks_block_invalid(e: &RuleError, bad_witness_rejects_delivery: bool) -> (r: bool)
    ensures
        r == spec_marks_block_invalid(*e, bad_witness_rejects_delivery),
{
    match e {
        RuleError::BadMerkleRoot
        | RuleError::MissingParents
        | RuleError::PrunedBlock
        | RuleError::PomProofMissing
        | RuleError::KnownBadPomWitness => {
            return false;
        },
        _ => {},
    }
    !(bad_witness_rejects_delivery && witness_scoped_error(e))
}

/// The activation only ever narrows what poisons a hash: a failure that marks a block invalid past
/// the activation marks it invalid before it too, and exactly the witness-scoped errors change verdict.
pub proof fn lemma_gate_only_exempts_witness_errors(e: RuleError)
    ensures
        spec_marks_block_invalid(e, true) ==> spec_marks_block_invalid(e, false),
        spec_marks_block_invalid(e, false) && !spec_marks_block_invalid(e, true) <==> is_witness_scoped(e),
{
}

/// Which failures poison a block hash: a genuine block defect (any error that is neither a
/// delivery problem nor a witness problem, such as `Other`, `KnownInvalid` or duplicate
/// transactions) marks it invalid in every era; a bad merkle root, missing parents, a pruned
/// block, a missing proof and a cached bad witness never do; a witness error does before the
/// witness-poisoning activation and does not past it.
pub proof fn lemma_which_failures_mark_invalid(e: RuleError, past_activation: bool)
    ensures
        match e {
            RuleError::BadMerkleRoot
            | RuleError::MissingParents
            | RuleError::PrunedBlock
            | RuleError::PomProofMissing
            | RuleError::KnownBadPomWitness => !spec_marks_block_invalid(e, past_activation),
            RuleError::BadPomProof
            | RuleError::BadPomProofV3
            | RuleError::BadPomProofV4
            | RuleError::PomFinalStateMismatch(_, _)
            | RuleError::PomUnknownTier(_) => spec_marks_block_invalid(e, past_activation) == !past_activation,
            RuleError::KnownInvalid | RuleError::DuplicateTransactions(_) | RuleError::Other => spec_marks_block_invalid(
                e,
                past_activation,
            ),
        },
{
}

/// Per-generation capacity of the bad-witness cache.
pub const GENERATION_CAP: usize = 4096;

/// The key of a cache entry as plain bytes: (block hash, witness digest).
pub open spec fn key_of(e: (Hash32, Hash32)) -> (Seq<u8>, Seq<u8>) {
    (e.0@, e.1@)
}

/// The keys of a list of entries, in order.
pub open spec fn keys_of(s: Seq<(Hash32, Hash32)>) -> Seq<(Seq<u8>, Seq<u8>)> {
    s.map_values(|e: (Hash32, Hash32)| key_of(e))
}

/// The cache after inserting `k` into the generations `(current, previous)`: when the current
/// generation is full, it becomes the previous one and a fresh generation starts.
pub open spec fn cache_after_insert(
    current: Seq<(Seq<u8>, Seq<u8>)>,
    previous: Seq<(Seq<u8>, Seq<u8>)>,
    k: (Seq<u8>, Seq<u8>),
) -> (Seq<(Seq<u8>, Seq<u8>)>, Seq<(Seq<u8>, Seq<u8>)>) {
    if current.len() >= GENERATION_CAP {
        (seq![k], current)
    } else if current.contains(k) {
        (current, previous)
    } else {
        (current.push(k), previous)
    }
}

/// Bounded two-generation set of (block hash, witness digest) pairs whose witness failed
/// verification. An entry lives for at least one and at most two generations.
pub struct BadWitnessCache {
    current: Vec<(Hash32, Hash32)>,
    previous: Vec<(Hash32, Hash32)>,
}

impl BadWitnessCache {
    /// Per-generation capacity.
    pub const GENERATION_CAP: usize = 4096;

    #[verifier::type_invariant]
    spec fn well_formed(self) -> bool {
        &&& self.current@.len() <= GENERATION_CAP
        &&& self.previous@.len() <= GENERATION_CAP
        &&& keys_of(self.current@).no_duplicates()
    }

    /// Keys of the current generation, in insertion order.
    pub closed spec fn current_keys(&self) -> Seq<(Seq<u8>, Seq<u8>)> {
        keys_of(self.current@)
    }

    /// Keys of the previous generation, in insertion order.
    pub closed spec fn previous_keys(&self) -> Seq<(Seq<u8>, Seq<u8>)> {
        keys_of(self.previous@)
    }

    /// Whether `k` is remembered.
    pub open spec fn holds(&self, k: (Seq<u8>, Seq<u8>)) -> bool {
        self.current_keys().contains(k) || self.previous_keys().contains(k)
    }

    /// An empty cache.
    pub fn new() -> (r: Self)
        ensures
            r.current_keys() == Seq::<(Seq<u8>, Seq<u8>)>::empty(),
            r.previous_keys() == Seq::<(Seq<u8>, Seq<u8>)>::empty(),
    {
        let r = BadWitnessCache { current: Vec::new(), previous: Vec::new() };
        assert(keys_of(r.current@) =~= Seq::<(Seq<u8>, Seq<u8>)>::empty());
        assert(keys_of(r.previous@) =~= Seq::<(Seq<u8>, Seq<u8>)>::empty());
        r
    }

    fn find(v: &Vec<(Hash32, Hash32)>, block_hash: &Hash32, witness_digest: &Hash32) -> (r: bool)
        ensures
            r == keys_of(v@).contains((block_hash@, witness_digest@)),
    {
        let mut i: usize = 0;
        while i < v.len()
            invariant
                i <= v@.len(),
                forall|j: int| 0 <= j < i ==> keys_of(v@)[j] != (block_hash@, witness_digest@),
            decreases v@.len() - i,
        {
            let (h, w) = &v[i];
            if h.equals(block_hash) && w.equals(witness_digest) {
                assert(keys_of(v@)[i as int] == (block_hash@, witness_digest@));
                return true;
            }
            i = i + 1;
        }
        false
    }

    /// Whether the witness with digest `witness` already failed for `block_hash`.
    pub fn contains(&self, block_hash: Hash32, witness: &[u8; 32]) -> (r: bool)
        ensures
            r == self.holds((block_hash@, witness@)),
    {
        let witness_digest = Hash32::from_bytes(*witness);
        Self::find(&self.current, &block_hash, &witness_digest) || Self::find(&self.previous, &block_hash, &witness_digest)
    }

    /// Remembers that the witness with digest `witness` failed for `block_hash`, rotating the generations when
    /// the current one is full.
    pub fn insert(&mut self, block_hash: Hash32, witness: [u8; 32])
        ensures
            (final(self).current_keys(), final(self).previous_keys()) == cache_after_insert(
                old(self).current_keys(),
                old(self).previous_keys(),
                (block_hash@, witness@),
            ),
            final(self).current_keys().len() <= GENERATION_CAP,
            final(self).previous_keys().len() <= GENERATION_CAP,
            final(self).current_keys().no_duplicates(),
    {
        proof {
            use_type_invariant(&*self);
        }
        let witness_digest = Hash32::from_bytes(witness);
        let ghost k = (block_hash@, witness_digest@);
        if self.current.len() >= GENERATION_CAP {
            let mut fresh: Vec<(Hash32, Hash32)> = Vec::new();
            fresh.push((block_hash, witness_digest));
            std::mem::swap(&mut self.current, &mut fresh);
            self.previous = fresh;
            assert(keys_of(self.current@) =~= seq![k]);
        } else if !Self::find(&self.current, &block_hash, &witness_digest) {
            let mut cur: Vec<(Hash32, Hash32)> = Vec::new();
            std::mem::swap(&mut self.current, &mut cur);
            cur.push((block_hash, witness_digest));
            assert(keys_of(cur@) =~= keys_of(old(self).current@).push(k));
            assert(keys_of(cur@).no_duplicates()) by {
                let s = keys_of(cur@);
                assert forall|i: int, j: int| 0 <= i < s.len() && 0 <= j < s.len() && i != j implies s[i] != s[j] by {
                    if i == s.len() - 1 {
                        assert(keys_of(old(self).current@).contains(s[j]) ==> s[j] != k);
                    } else if j == s.len() - 1 {
                        assert(keys_of(old(self).current@)[i] == s[i]);
                    }
                }
            }
            std::mem::swap(&mut self.current, &mut cur);
        }
    }
}

impl Default for BadWitnessCache {
    /// An empty cache.
    fn default() -> (r: Self)
        ensures
            r.current_keys() == Seq::<(Seq<u8>, Seq<u8>)>::empty(),
            r.previous_keys() == Seq::<(Seq<u8>, Seq<u8>)>::empty(),
    {
        BadWitnessCache::new()
    }
}

/// Inserting an entry makes it remembered; every entry of the current generation survives the
/// next insertion (an entry lives at least one full generation); and nothing that was never
/// inserted is ever remembered.
pub proof fn lemma_cache_insert_laws(
    current: Seq<(Seq<u8>, Seq<u8>)>,
    previous: Seq<(Seq<u8>, Seq<u8>)>,
    k: (Seq<u8>, Seq<u8>),
    other: (Seq<u8>, Seq<u8>),
)
    ensures
        ({
            let (c, p) = cache_after_insert(current, previous, k);
            &&& c.contains(k)
            &&& current.contains(other) ==> (c.contains(other) || p.contains(other))
            &&& (c.contains(other) || p.contains(other)) ==> (other == k || current.contains(other)
                || previous.contains(other))
        }),
{
    let (c, p) = cache_after_insert(current, previous, k);
    if current.len() >= GENERATION_CAP {
        assert(c[0] == k);
    } else if current.contains(k) {
    } else {
        assert(c[current.len() as int] == k);
        if current.contains(other) {
            let i = choose|i: int| 0 <= i < current.len() && current[i] == other;
            assert(c[i] == other);
        }
        if c.contains(other) && other != k {
            let i = choose|i: int| 0 <= i < c.len() && c[i] == other;
            assert(current[i] == other);
        }
    }
}

/// A block's stored status.
#[derive(Debug, Clone, Copy, PartialEq, Eq, Structural)]
pub enum BlockStatus {
    StatusInvalid,
    StatusUTXOValid,
    StatusUTXOPendingVerification,
    StatusDisqualifiedFromChain,
    StatusHeaderOnly,
}

impl BlockStatus {
    pub open spec fn spec_has_block_body(self) -> bool {
        match self {
            BlockStatus::StatusUTXOValid
            | BlockStatus::StatusUTXOPendingVerification
            | BlockStatus::StatusDisqualifiedFromChain => true,
            _ => false,
        }
    }

    /// Whether a block in this status has its body stored.
    pub fn has_block_body(&self) -> (r: bool)
        ensures
            r == self.spec_has_block_body(),
    {
        match self {
            BlockStatus::StatusUTXOValid
            | BlockStatus::StatusUTXOPendingVerification
            | BlockStatus::StatusDisqualifiedFromChain => true,
            _ => false,
        }
    }
}

/// What to do with an arriving body before validation.
#[derive(Debug, Clone, Copy)]
pub enum BodyAdmission {
    /// The body is stored already: answer with its status.
    AlreadyProcessed(BlockStatus),
    /// Reject the delivery with this error.
    Reject(RuleError),
    /// Validate the body.
    Validate,
}

/// What a failed validation does.
#[derive(Debug, Clone, Copy, PartialEq, Eq, Structural)]
pub struct FailureOutcome {
    /// Remember the (block, witness) pair in the bad-witness cache.
    pub remember_witness: bool,
    /// Persist the invalid status for the block hash.
    pub mark_invalid: bool,
}

/// What is persisted from an accepted body: whether its proof is kept, and the tier stored.
#[derive(Debug, Clone, Copy, PartialEq, Eq, Structural)]
pub struct PersistedPom {
    pub keep_proof: bool,
    pub tier: Option<u8>,
}

/// The digest that keys the bad-witness cache for a block: only past the activation, and only when
/// the block carries a witness.
pub open spec fn cache_digest(gate_active: bool, witness: Option<Hash32>) -> Option<Hash32> {
    if gate_active {
        witness
    } else {
        None
    }
}

/// The body-admission policy of the body processor: the witness-poisoning gate and the
/// bad-witness cache it consults.
pub struct BodyGate {
    /// Past this score, witness-scoped errors reject the delivery only (the H6 gate).
    pub pom_v3_activation: ForkActivation,
    pub bad_witness_cache: BadWitnessCache,
}

impl BodyGate {
    /// A gate with an empty cache.
    pub fn new(pom_v3_activation: ForkActivation) -> (r: Self)
        ensures
            r.pom_v3_activation == pom_v3_activation,
            r.bad_witness_cache.current_keys().len() == 0,
            r.bad_witness_cache.previous_keys().len() == 0,
    {
        BodyGate { pom_v3_activation, bad_witness_cache: BadWitnessCache::new() }
    }

    /// The admission decision for a body of block `block_hash` at `daa_score` whose stored status
    /// is `status` and which carries a witness with digest `witness_digest` (if any). A known
    /// invalid block is rejected; a stored body is answered with its status; a witness that
    /// already failed for this block is rejected without re-verification (past the activation only).
    pub fn admission(&self, status: BlockStatus, block_hash: Hash32, daa_score: u64, witness_digest: Option<Hash32>) -> (r: BodyAdmission)
        requires
            status == BlockStatus::StatusInvalid || status == BlockStatus::StatusHeaderOnly || status.spec_has_block_body(),
        ensures
            status == BlockStatus::StatusInvalid ==> r matches BodyAdmission::Reject(RuleError::KnownInvalid),
            status.spec_has_block_body() ==> r == BodyAdmission::AlreadyProcessed(status),
            status == BlockStatus::StatusHeaderOnly ==> match cache_digest(self.pom_v3_activation.active_at(daa_score), witness_digest) {
                Some(d) => if self.bad_witness_cache.holds((block_hash@, d@)) {
                    r matches BodyAdmission::Reject(RuleError::KnownBadPomWitness)
                } else {
                    r matches BodyAdmission::Validate
                },
                None => r matches BodyAdmission::Validate,
            },
    {
        match status {
            BlockStatus::StatusInvalid => {
                return BodyAdmission::Reject(RuleError::KnownInvalid);
            },
            BlockStatus::StatusHeaderOnly => {},
            _ => {
                return BodyAdmission::AlreadyProcessed(status);
            },
        }
        let gate = self.pom_v3_activation.is_active(daa_score);
        if gate {
            if let Some(d) = witness_digest {
                if self.bad_witness_cache.contains(block_hash, &d.bytes) {
                    return BodyAdmission::Reject(RuleError::KnownBadPomWitness);
                }
            }
        }
        BodyAdmission::Validate
    }

    /// Records a failed validation of block `block_hash` at `daa_score` with error `e`: a
    /// witness-scoped failure of a witness seen past the activation is remembered, and the result says
    /// whether the invalid status is persisted.
    pub fn on_validation_failure(&mut self, block_hash: Hash32, daa_score: u64, witness_digest: Option<Hash32>, e: &RuleError) -> (r:
        FailureOutcome)
        ensures
            final(self).pom_v3_activation == old(self).pom_v3_activation,
            r.remember_witness == (is_witness_scoped(*e) && cache_digest(
                old(self).pom_v3_activation.active_at(daa_score),
                witness_digest,
            ) is Some),
            r.mark_invalid == spec_marks_block_invalid(*e, old(self).pom_v3_activation.active_at(daa_score)),
            r.remember_witness ==> (final(self).bad_witness_cache.current_keys(), final(self).bad_witness_cache.previous_keys())
                == cache_after_insert(
                old(self).bad_witness_cache.current_keys(),
                old(self).bad_witness_cache.previous_keys(),
                (block_hash@, cache_digest(old(self).pom_v3_activation.active_at(daa_score), witness_digest)->Some_0@),
            ),
            !r.remember_witness ==> final(self).bad_witness_cache.current_keys() == old(self).bad_witness_cache.current_keys()
                && final(self).bad_witness_cache.previous_keys() == old(self).bad_witness_cache.previous_keys(),
    {
        let gate = self.pom_v3_activation.is_active(daa_score);
        let mut remember = false;
        if witness_scoped_error(e) && gate {
            if let Some(d) = witness_digest {
                self.bad_witness_cache.insert(block_hash, d.bytes);
                remember = true;
            }
        }
        FailureOutcome { remember_witness: remember, mark_invalid: marks_block_invalid(e, gate) }
    }
}

/// What is persisted from an accepted body. `skip_pom_proof` marks the IBD path, where the
/// proof was not checked at validation; `carried_proof_tier` is the tier of the carried proof,
/// if any; `recheck_passed` is the verdict of re-checking that proof on the IBD path; `block_tier`
/// is the tier claim travelling with the block. An unverified proof is never kept, and an
/// unauthenticated tier is never stored. A kept proof's own tier is authoritative.
pub fn persisted_pom(skip_pom_proof: bool, carried_proof_tier: Option<u8>, recheck_passed: bool, block_tier: Option<u8>) -> (r:
    PersistedPom)
    ensures
        r.keep_proof == (carried_proof_tier is Some && (!skip_pom_proof || recheck_passed)),
        r.keep_proof ==> r.tier == carried_proof_tier,
        !r.keep_proof ==> r.tier == (if skip_pom_proof { None } else { block_tier }),
{
    let keep = match carried_proof_tier {
        Some(_) => !skip_pom_proof || recheck_passed,
        None => false,
    };
    let tier = if keep {
        carried_proof_tier
    } else if skip_pom_proof {
        None
    } else {
        block_tier
    };
    PersistedPom { keep_proof: keep, tier }
}

} // verus!
