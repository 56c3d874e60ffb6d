//! Decisions of the initial block download (IBD): which kind of sync to run against a syncer,
//! the steps each kind takes, the checks on a received pruning proof, the sync ceiling, the
//! sealed service-state rows, and the per-chunk PoM metrics.

use vstd::prelude::*;
use crate::hash::Hash32;

verus! {

/// The little-endian `u64` held by the eight bytes of `s` starting at `at`.
pub open spec fn le_u64_at(s: Seq<u8>, at: int) -> int {
    s[at] + 0x100 * s[at + 1] + 0x1_0000 * s[at + 2] + 0x100_0000 * s[at + 3] + 0x1_0000_0000 * s[at
        + 4] + 0x100_0000_0000 * s[at + 5] + 0x1_0000_0000_0000 * s[at + 6] + 0x100_0000_0000_0000
        * s[at + 7]
}

/// Decodes the little-endian `u64` at `row[at..at + 8]`.
fn read_le_u64(row: &[u8], at: usize) -> (r: u64)
    requires
        at + 8 <= row@.len(),
    ensures
        r == le_u64_at(row@, at as int),
{
    let b0 = row[at] as u64;
    let b1 = row[at + 1] as u64;
    let b2 = row[at + 2] as u64;
    let b3 = row[at + 3] as u64;
    let b4 = row[at + 4] as u64;
    let b5 = row[at + 5] as u64;
    let b6 = row[at + 6] as u64;
    let b7 = row[at + 7] as u64;
    b0 + 0x100 * b1 + 0x1_0000 * b2 + 0x100_0000 * b3 + 0x1_0000_0000 * b4 + 0x100_0000_0000 * b5
        + 0x1_0000_0000_0000 * b6 + 0x100_0000_0000_0000 * b7
}

/// The event daa of a canonical service-state row: a first-seen row (tag 1, 45 bytes) holds it
/// at bytes 37..45, a strike row (tag 2, 53 bytes) at 1..9, a burn row (tag 3, 41 bytes) at
/// 33..41, a reward row (tag 4, at least 85 bytes) at 73..81. Any other row is malformed.
pub open spec fn spec_service_row_daa(row: Seq<u8>) -> Option<u64> {
    if row.len() == 0 {
        None
    } else if row[0] == 1 && row.len() == 45 {
        Some(le_u64_at(row, 37) as u64)
    } else if row[0] == 2 && row.len() == 53 {
        Some(le_u64_at(row, 1) as u64)
    } else if row[0] == 3 && row.len() == 41 {
        Some(le_u64_at(row, 33) as u64)
    } else if row[0] == 4 && row.len() >= 85 {
        Some(le_u64_at(row, 73) as u64)
    } else {
        None
    }
}

/// Event daa of a canonical service-state row, `None` for a malformed one.
pub fn service_row_daa(row: &[u8]) -> (r: Option<u64>)
    ensures
        r == spec_service_row_daa(row@),
{
    let n = row.len();
    if n == 0 {
        return None;
    }
    let tag = row[0];
    if tag == 1 && n == 45 {
        Some(read_le_u64(row, 37))
    } else if tag == 2 && n == 53 {
        Some(read_le_u64(row, 1))
    } else if tag == 3 && n == 41 {
        Some(read_le_u64(row, 33))
    } else if tag == 4 && n >= 85 {
        Some(read_le_u64(row, 73))
    } else {
        None
    }
}

/// The longest duration, `u64::MAX` seconds and 999 999 999 nanoseconds, in nanoseconds.
pub const DURATION_MAX_NANOS: u128 = 18_446_744_073_709_551_615_999_999_999u128;

/// `a + b` capped at `max`.
pub open spec fn capped_add(a: int, b: int, max: int) -> int {
    if a + b > max {
        max
    } else {
        a + b
    }
}

/// Counters of the PoM proofs carried by one chunk of IBD blocks. The two durations are held in
/// nanoseconds and never exceed the longest duration.
#[derive(Debug, Clone, Copy, PartialEq, Eq, Structural)]
pub struct PomChunkMetrics {
    pub blocks: u64,
    pub proofs: u64,
    pub proof_bytes: u64,
    pub reproofs_queued: u64,
    pub discarded_historical_proofs: u64,
    pub discarded_historical_bytes: u64,
    pub decode_time_nanos: u128,
    pub peer_wait_time_nanos: u128,
}

impl PomChunkMetrics {
    /// Both durations are valid durations.
    pub open spec fn wf(self) -> bool {
        &&& self.decode_time_nanos <= DURATION_MAX_NANOS
        &&& self.peer_wait_time_nanos <= DURATION_MAX_NANOS
    }

    /// The metrics of two chunks taken together: every counter and duration added, saturating.
    pub open spec fn merged(self, other: Self) -> Self {
        PomChunkMetrics {
            blocks: capped_add(self.blocks as int, other.blocks as int, u64::MAX as int) as u64,
            proofs: capped_add(self.proofs as int, other.proofs as int, u64::MAX as int) as u64,
            proof_bytes: capped_add(self.proof_bytes as int, other.proof_bytes as int, u64::MAX as int) as u64,
            reproofs_queued: capped_add(self.reproofs_queued as int, other.reproofs_queued as int, u64::MAX as int) as u64,
            discarded_historical_proofs: capped_add(
                self.discarded_historical_proofs as int,
                other.discarded_historical_proofs as int,
                u64::MAX as int,
            ) as u64,
            discarded_historical_bytes: capped_add(
                self.discarded_historical_bytes as int,
                other.discarded_historical_bytes as int,
                u64::MAX as int,
            ) as u64,
            decode_time_nanos: capped_add(
                self.decode_time_nanos as int,
                other.decode_time_nanos as int,
                DURATION_MAX_NANOS as int,
            ) as u128,
            peer_wait_time_nanos: capped_add(
                self.peer_wait_time_nanos as int,
                other.peer_wait_time_nanos as int,
                DURATION_MAX_NANOS as int,
            ) as u128,
        }
    }

    /// Adds the metrics of `other` into `self`, every counter and duration saturating.
    pub fn merge(&mut self, other: Self)
        requires
            old(self).wf(),
            other.wf(),
        ensures
            *final(self) == old(self).merged(other),
            final(self).wf(),
    {
        self.blocks = self.blocks.saturating_add(other.blocks);
        self.proofs = self.proofs.saturating_add(other.proofs);
        self.proof_bytes = self.proof_bytes.saturating_add(other.proof_bytes);
        self.reproofs_queued = self.reproofs_queued.saturating_add(other.reproofs_queued);
        self.discarded_historical_proofs = self.discarded_historical_proofs.saturating_add(other.discarded_historical_proofs);
        self.discarded_historical_bytes = self.discarded_historical_bytes.saturating_add(other.discarded_historical_bytes);
        self.decode_time_nanos = duration_nanos_saturating_add(self.decode_time_nanos, other.decode_time_nanos);
        self.peer_wait_time_nanos = duration_nanos_saturating_add(self.peer_wait_time_nanos, other.peer_wait_time_nanos);
    }
}

/// Two durations added, capped at the longest duration.
fn duration_nanos_saturating_add(a: u128, b: u128) -> (r: u128)
    requires
        a <= DURATION_MAX_NANOS,
        b <= DURATION_MAX_NANOS,
    ensures
        r == capped_add(a as int, b as int, DURATION_MAX_NANOS as int),
{
    if a > DURATION_MAX_NANOS - b {
        DURATION_MAX_NANOS
    } else {
        a + b
    }
}

impl Default for PomChunkMetrics {
    fn default() -> (r: PomChunkMetrics)
        ensures
            r == (PomChunkMetrics {
                blocks: 0,
                proofs: 0,
                proof_bytes: 0,
                reproofs_queued: 0,
                discarded_historical_proofs: 0,
                discarded_historical_bytes: 0,
                decode_time_nanos: 0,
                peer_wait_time_nanos: 0,
            }),
    {
        PomChunkMetrics {
            blocks: 0,
            proofs: 0,
            proof_bytes: 0,
            reproofs_queued: 0,
            discarded_historical_proofs: 0,
            discarded_historical_bytes: 0,
            decode_time_nanos: 0,
            peer_wait_time_nanos: 0,
        }
    }
}

/// Merging chunk metrics does not depend on the order of the chunks: merging is commutative and
/// associative on valid metrics, and merging the zero metrics changes nothing.
pub proof fn lemma_merge_order_free(a: PomChunkMetrics, b: PomChunkMetrics, c: PomChunkMetrics)
    requires
        a.wf(),
        b.wf(),
        c.wf(),
    ensures
        a.merged(b) == b.merged(a),
        a.merged(b).merged(c) == a.merged(b.merged(c)),
        a.merged(b).wf(),
        a.merged(
            PomChunkMetrics {
                blocks: 0,
                proofs: 0,
                proof_bytes: 0,
                reproofs_queued: 0,
                discarded_historical_proofs: 0,
                discarded_historical_bytes: 0,
                decode_time_nanos: 0,
                peer_wait_time_nanos: 0,
            },
        ) == a,
{
}

/// Accumulated blue work: a 192-bit unsigned integer held as three little-endian 64-bit limbs.
#[derive(Debug, Clone, Copy)]
pub struct BlueWork {
    pub limbs: [u64; 3],
}

impl BlueWork {
    /// The integer the limbs stand for.
    pub open spec fn value(self) -> int {
        self.limbs[0] + 0x1_0000_0000_0000_0000 * self.limbs[1] + 0x1_0000_0000_0000_0000_0000_0000_0000_0000
            * self.limbs[2]
    }

    /// Whether `self` is strictly more work than `other`.
    pub fn greater_than(&self, other: &BlueWork) -> (r: bool)
        ensures
            r == (self.value() > other.value()),
    {
        let a = self.limbs;
        let b = other.limbs;
        if a[2] != b[2] {
            a[2] > b[2]
        } else if a[1] != b[1] {
            a[1] > b[1]
        } else {
            a[0] > b[0]
        }
    }
}

/// What the local node knows of the syncer's chain: the kind of IBD to run.
#[derive(Debug, Clone, Copy)]
pub enum IbdType {
    /// Sync forward from a chain block both sides share.
    Sync { highest_known_syncer_chain_hash: Hash32, is_utxo_stable: bool, is_pp_anticone_synced: bool },
    /// Download a headers proof into a staging consensus.
    DownloadHeadersProof,
    /// Catch up to the syncer's newer pruning point, then sync.
    PruningCatchUp { highest_known_syncer_chain_hash: Hash32 },
}

/// Why an IBD with a syncer cannot proceed.
#[derive(Debug, Clone, Copy, PartialEq, Eq, Structural)]
pub enum IbdError {
    /// The syncer claims recent data but its pruning point is not recognized.
    UnrecognizedSyncerPruningPoint,
    /// The local node needs data to stabilize and the lagging syncer cannot provide it.
    SyncerCannotStabilize,
    /// The syncer's chain conflicts with the local pruning point (the peer is banned).
    FinalityConflict,
    /// The peer knows no shared block while local consensus is up to date (the peer is banned).
    HeadersProofSpam,
    /// The peer knows no shared block and the relay block does not justify a headers proof.
    HeadersProofNotJustified,
    /// The proof's pruning point is the genesis block.
    ProofPruningPointIsGenesis,
    /// The proof's pruning point is the current pruning point.
    ProofPruningPointIsCurrent,
    /// The proof's pruning point is not the last of the received pruning points.
    ProofPruningPointNotLast,
    /// The received pruning points do not start at genesis.
    PruningPointsNotFromGenesis,
    /// The received pruning points violate the finality of current consensus (the peer is banned).
    PruningPointsViolateFinality,
    /// A proof level's root points at a pruning point outside the received list.
    ProofInconsistentWithPruningPoints,
    /// The trusted data ended before the pruning point entry.
    MissingPruningPointEntry,
    /// The first trusted entry is not the proof's pruning point.
    UnexpectedFirstTrustedEntry,
    /// The staging headers selected tip is behind, or less than ten minutes ahead of, the
    /// current one.
    StagingTimestampsTooClose,
    /// The peer's protocol version cannot serve the service-state handoff window.
    ServiceStateUnsupportedPeer,
    /// No validated header commits to the negotiated pruning point's service state.
    ServiceStateUnanchored,
    /// A service-state row is malformed.
    MalformedServiceRow,
    /// A service-state row lies beyond the handoff ceiling.
    ServiceRowBeyondHandoff,
    /// The sealed service-state rows do not hash to the committed value.
    ServiceStateMismatch,
}

impl IbdError {
    /// Whether the error gets the peer banned.
    pub open spec fn spec_bans_peer(self) -> bool {
        self == IbdError::FinalityConflict || self == IbdError::HeadersProofSpam || self
            == IbdError::PruningPointsViolateFinality
    }

    /// Whether the error gets the peer banned.
    pub fn bans_peer(&self) -> (r: bool)
        ensures
            r == self.spec_bans_peer(),
    {
        match self {
            IbdError::FinalityConflict | IbdError::HeadersProofSpam | IbdError::PruningPointsViolateFinality => true,
            _ => false,
        }
    }
}

/// Where the syncer's pruning point stands relative to the local one.
#[derive(Debug, Clone, Copy, PartialEq, Eq, Structural)]
pub enum SyncerSkew {
    /// It is one of the few most recent local pruning points.
    Lagging,
    /// It is the local pruning point.
    Aligned,
    /// It is in the chain future of the local pruning point.
    Leading,
}

/// How many of the most recent local pruning points a lagging syncer may sit at.
pub const SYNCER_LAG_TOLERANCE: u64 = 4;

/// The skew of the syncer's pruning point: aligned when it is the local pruning point, leading
/// when the local pruning point is its chain ancestor, lagging when it is among the most recent
/// local pruning points; otherwise it is not recognized.
pub open spec fn spec_syncer_skew(
    syncer_pruning_point: Seq<u8>,
    pruning_point: Seq<u8>,
    pruning_point_is_chain_ancestor: bool,
    recent_pruning_points: Seq<Seq<u8>>,
) -> Result<SyncerSkew, IbdError> {
    if syncer_pruning_point == pruning_point {
        Ok(SyncerSkew::Aligned)
    } else if pruning_point_is_chain_ancestor {
        Ok(SyncerSkew::Leading)
    } else if recent_pruning_points.contains(syncer_pruning_point) {
        Ok(SyncerSkew::Lagging)
    } else {
        Err(IbdError::UnrecognizedSyncerPruningPoint)
    }
}

/// The views of a list of hashes.
pub open spec fn hash_views(v: Seq<Hash32>) -> Seq<Seq<u8>> {
    v.map_values(|h: Hash32| h@)
}

/// Whether `v` holds a hash equal to `h`.
pub fn contains_hash(v: &Vec<Hash32>, h: &Hash32) -> (r: bool)
    ensures
        r == hash_views(v@).contains(h@),
{
    let mut i: usize = 0;
    while i < v.len()
        invariant
            i <= v@.len(),
            forall|j: int| 0 <= j < i ==> v@[j]@ != h@,
        decreases v@.len() - i,
    {
        if v[i].equals(h) {
            assert(hash_views(v@)[i as int] == h@);
            return true;
        }
        i = i + 1;
    }
    assert forall|j: int| 0 <= j < hash_views(v@).len() implies hash_views(v@)[j] != h@ by {
        assert(hash_views(v@)[j] == v@[j]@);
    }
    false
}

/// Classifies the syncer's pruning point against the local one. `pruning_point_is_chain_ancestor`
/// says whether the local pruning point is a chain ancestor of the syncer's, and
/// `recent_pruning_points` holds the most recent local pruning points.
pub fn syncer_skew(
    syncer_pruning_point: &Hash32,
    pruning_point: &Hash32,
    pruning_point_is_chain_ancestor: bool,
    recent_pruning_points: &Vec<Hash32>,
) -> (r: Result<SyncerSkew, IbdError>)
    ensures
        r == spec_syncer_skew(
            syncer_pruning_point@,
            pruning_point@,
            pruning_point_is_chain_ancestor,
            hash_views(recent_pruning_points@),
        ),
{
    if syncer_pruning_point.equals(pruning_point) {
        Ok(SyncerSkew::Aligned)
    } else if pruning_point_is_chain_ancestor {
        Ok(SyncerSkew::Leading)
    } else if contains_hash(recent_pruning_points, syncer_pruning_point) {
        Ok(SyncerSkew::Lagging)
    } else {
        Err(IbdError::UnrecognizedSyncerPruningPoint)
    }
}

/// The IBD type when the syncer's chain holds a block the local node knows
/// (`highest_known_syncer_chain_hash`): a chain that bypasses the local pruning point is a
/// finality conflict; an unrecognized syncer pruning point is refused; an aligned syncer, or a
/// stable node facing a lagging one, is synced from; a leading syncer is synced from if the node
/// is stable and already has the syncer's pruning point body, and caught up to otherwise; an
/// unstable node cannot sync from a lagging syncer.
pub open spec fn spec_ibd_type_on_shared_chain(
    highest_known_syncer_chain_hash: Hash32,
    pruning_point_on_syncer_chain: bool,
    skew: Result<SyncerSkew, IbdError>,
    is_utxo_stable: bool,
    is_pp_anticone_synced: bool,
    syncer_pruning_point_has_body: bool,
) -> Result<IbdType, IbdError> {
    let stable = is_utxo_stable && is_pp_anticone_synced;
    let sync = IbdType::Sync { highest_known_syncer_chain_hash, is_utxo_stable, is_pp_anticone_synced };
    if !pruning_point_on_syncer_chain {
        Err(IbdError::FinalityConflict)
    } else {
        match skew {
            Err(e) => Err(e),
            Ok(SyncerSkew::Aligned) => Ok(sync),
            Ok(SyncerSkew::Lagging) => if stable {
                Ok(sync)
            } else {
                Err(IbdError::SyncerCannotStabilize)
            },
            Ok(SyncerSkew::Leading) => if stable && syncer_pruning_point_has_body {
                Ok(sync)
            } else {
                Ok(IbdType::PruningCatchUp { highest_known_syncer_chain_hash })
            },
        }
    }
}

/// What the IBD type against a syncer on a shared chain guarantees: a finality conflict refuses;
/// an aligned syncer is always synced from; a lagging syncer is synced from exactly when the local
/// UTXO set is stable and the pruning point's anticone is synced, and refused as unable to
/// stabilize otherwise; a leading syncer is synced from only under the same stability and when
/// its pruning point's body is here, and caught up to otherwise. A sync always carries the shared
/// block and the two flags.
pub proof fn lemma_ibd_type_on_shared_chain_law(
    h: Hash32,
    on_chain: bool,
    skew: Result<SyncerSkew, IbdError>,
    is_utxo_stable: bool,
    is_pp_anticone_synced: bool,
    has_body: bool,
)
    ensures
        ({
            let r = spec_ibd_type_on_shared_chain(h, on_chain, skew, is_utxo_stable, is_pp_anticone_synced, has_body);
            let sync = IbdType::Sync { highest_known_syncer_chain_hash: h, is_utxo_stable, is_pp_anticone_synced };
            &&& !on_chain ==> r == Err::<IbdType, IbdError>(IbdError::FinalityConflict)
            &&& on_chain && skew is Err ==> r == Err::<IbdType, IbdError>(skew->Err_0)
            &&& on_chain && skew == Ok::<SyncerSkew, IbdError>(SyncerSkew::Aligned) ==> r == Ok::<IbdType, IbdError>(sync)
            &&& on_chain && skew == Ok::<SyncerSkew, IbdError>(SyncerSkew::Lagging) ==> (r == Ok::<IbdType, IbdError>(sync)
                <==> is_utxo_stable && is_pp_anticone_synced)
            &&& on_chain && skew == Ok::<SyncerSkew, IbdError>(SyncerSkew::Lagging) && !(is_utxo_stable
                && is_pp_anticone_synced) ==> r == Err::<IbdType, IbdError>(IbdError::SyncerCannotStabilize)
            &&& on_chain && skew == Ok::<SyncerSkew, IbdError>(SyncerSkew::Leading) ==> (r == Ok::<IbdType, IbdError>(sync)
                <==> is_utxo_stable && is_pp_anticone_synced && has_body)
            &&& on_chain && skew == Ok::<SyncerSkew, IbdError>(SyncerSkew::Leading) && !(is_utxo_stable
                && is_pp_anticone_synced && has_body) ==> r == Ok::<IbdType, IbdError>(
                IbdType::PruningCatchUp { highest_known_syncer_chain_hash: h },
            )
            &&& r matches Ok(IbdType::Sync { highest_known_syncer_chain_hash, is_utxo_stable: u, is_pp_anticone_synced: a })
                ==> highest_known_syncer_chain_hash == h && u == is_utxo_stable && a == is_pp_anticone_synced
            &&& (r matches Ok(IbdType::Sync { .. })) && skew != Ok::<SyncerSkew, IbdError>(SyncerSkew::Aligned)
                ==> is_utxo_stable && is_pp_anticone_synced
        }),
{
}

/// The IBD type for a syncer that shares a chain block with the local node.
/// `pruning_point_on_syncer_chain` says whether the local pruning point is a chain ancestor of
/// that block, and `skew` is the classification of the syncer's pruning point.
pub fn ibd_type_on_shared_chain(
    highest_known_syncer_chain_hash: Hash32,
    pruning_point_on_syncer_chain: bool,
    skew: Result<SyncerSkew, IbdError>,
    is_utxo_stable: bool,
    is_pp_anticone_synced: bool,
    syncer_pruning_point_has_body: bool,
) -> (r: Result<IbdType, IbdError>)
    ensures
        r == spec_ibd_type_on_shared_chain(
            highest_known_syncer_chain_hash,
            pruning_point_on_syncer_chain,
            skew,
            is_utxo_stable,
            is_pp_anticone_synced,
            syncer_pruning_point_has_body,
        ),
{
    if !pruning_point_on_syncer_chain {
        return Err(IbdError::FinalityConflict);
    }
    let stable = is_utxo_stable && is_pp_anticone_synced;
    match skew {
        Err(e) => Err(e),
        Ok(SyncerSkew::Aligned) => Ok(IbdType::Sync { highest_known_syncer_chain_hash, is_utxo_stable, is_pp_anticone_synced }),
        Ok(SyncerSkew::Lagging) => {
            if stable {
                Ok(IbdType::Sync { highest_known_syncer_chain_hash, is_utxo_stable, is_pp_anticone_synced })
            } else {
                Err(IbdError::SyncerCannotStabilize)
            }
        },
        Ok(SyncerSkew::Leading) => {
            if stable && syncer_pruning_point_has_body {
                Ok(IbdType::Sync { highest_known_syncer_chain_hash, is_utxo_stable, is_pp_anticone_synced })
            } else {
                Ok(IbdType::PruningCatchUp { highest_known_syncer_chain_hash })
            }
        },
    }
}

/// What is known of the local headers selected tip and the relay block when the syncer shares no
/// chain block with the local node.
#[derive(Debug, Clone, Copy)]
pub struct NoSharedChainView {
    /// The syncer is a trusted archival peer to catch up from forward (`KERYX_TRUST_SYNC_FROM_TIP`).
    pub trust_sync_from_tip: bool,
    pub local_sink: Hash32,
    pub is_utxo_stable: bool,
    pub is_pp_anticone_synced: bool,
    pub relay_blue_score: u64,
    pub relay_blue_work: BlueWork,
    pub headers_selected_tip_blue_score: u64,
    pub headers_selected_tip_blue_work: BlueWork,
    pub pruning_depth: u64,
    /// Milliseconds since the epoch.
    pub now: u64,
    /// When local consensus was created, in milliseconds since the epoch.
    pub consensus_creation_timestamp: u64,
    pub finality_duration_ms: u64,
}

/// The next step of the IBD-type decision when the syncer shares no chain block.
#[derive(Debug, Clone, Copy)]
pub enum NoSharedChainStep {
    /// The decision is made.
    Decided(Result<IbdType, IbdError>),
    /// The timestamp of the local finality point is needed to decide.
    NeedFinalityPointTimestamp,
}

/// Whether the relay block justifies a headers proof: at least a pruning depth of blue score
/// above the local headers selected tip, and more blue work.
pub open spec fn spec_headers_proof_justified(v: NoSharedChainView) -> bool {
    v.relay_blue_score >= v.headers_selected_tip_blue_score + v.pruning_depth && v.relay_blue_work.value()
        > v.headers_selected_tip_blue_work.value()
}

/// Whether local consensus is older than one finality duration.
pub open spec fn spec_consensus_matured(v: NoSharedChainView) -> bool {
    v.now > v.consensus_creation_timestamp + v.finality_duration_ms
}

/// The IBD-type decision when the syncer shares no chain block with the local node: a trusted
/// archival syncer is synced from the local sink; otherwise a headers proof is downloaded when
/// the relay block justifies it, unless local consensus has matured and its finality point is
/// less than one and a half finality durations old (spam); otherwise IBD is refused.
pub open spec fn spec_ibd_type_without_shared_chain(v: NoSharedChainView, finality_point_timestamp: Option<u64>) -> NoSharedChainStep {
    if v.trust_sync_from_tip {
        NoSharedChainStep::Decided(
            Ok(
                IbdType::Sync {
                    highest_known_syncer_chain_hash: v.local_sink,
                    is_utxo_stable: v.is_utxo_stable,
                    is_pp_anticone_synced: v.is_pp_anticone_synced,
                },
            ),
        )
    } else if !spec_headers_proof_justified(v) {
        NoSharedChainStep::Decided(Err(IbdError::HeadersProofNotJustified))
    } else if !spec_consensus_matured(v) {
        NoSharedChainStep::Decided(Ok(IbdType::DownloadHeadersProof))
    } else {
        match finality_point_timestamp {
            None => NoSharedChainStep::NeedFinalityPointTimestamp,
            Some(fp_ts) => if v.now < fp_ts + v.finality_duration_ms * 3 / 2 {
                NoSharedChainStep::Decided(Err(IbdError::HeadersProofSpam))
            } else {
                NoSharedChainStep::Decided(Ok(IbdType::DownloadHeadersProof))
            },
        }
    }
}

/// Decides the IBD type when the syncer shares no chain block with the local node. Called first
/// without the finality point's timestamp; when it answers `NeedFinalityPointTimestamp`, the
/// caller reads it and calls again.
pub fn ibd_type_without_shared_chain(v: &NoSharedChainView, finality_point_timestamp: Option<u64>) -> (r: NoSharedChainStep)
    requires
        !v.trust_sync_from_tip ==> v.headers_selected_tip_blue_score + v.pruning_depth <= u64::MAX,
        !v.trust_sync_from_tip && spec_headers_proof_justified(*v) ==> v.consensus_creation_timestamp
            + v.finality_duration_ms <= u64::MAX,
        !v.trust_sync_from_tip && spec_headers_proof_justified(*v) && spec_consensus_matured(*v)
            && finality_point_timestamp is Some ==> finality_point_timestamp->0 + v.finality_duration_ms * 3 / 2
            <= u64::MAX && v.finality_duration_ms * 3 <= u64::MAX,
    ensures
        r == spec_ibd_type_without_shared_chain(*v, finality_point_timestamp),
{
    if v.trust_sync_from_tip {
        return NoSharedChainStep::Decided(
            Ok(
                IbdType::Sync {
                    highest_known_syncer_chain_hash: v.local_sink,
                    is_utxo_stable: v.is_utxo_stable,
                    is_pp_anticone_synced: v.is_pp_anticone_synced,
                },
            ),
        );
    }
    let justified = v.relay_blue_score >= v.headers_selected_tip_blue_score + v.pruning_depth
        && v.relay_blue_work.greater_than(&v.headers_selected_tip_blue_work);
    if !justified {
        return NoSharedChainStep::Decided(Err(IbdError::HeadersProofNotJustified));
    }
    if v.now <= v.consensus_creation_timestamp + v.finality_duration_ms {
        return NoSharedChainStep::Decided(Ok(IbdType::DownloadHeadersProof));
    }
    match finality_point_timestamp {
        None => NoSharedChainStep::NeedFinalityPointTimestamp,
        Some(fp_ts) => {
            if v.now < fp_ts + v.finality_duration_ms * 3 / 2 {
                NoSharedChainStep::Decided(Err(IbdError::HeadersProofSpam))
            } else {
                NoSharedChainStep::Decided(Ok(IbdType::DownloadHeadersProof))
            }
        },
    }
}

/// A step of an IBD session, in the order the session runs them.
#[derive(Debug, Clone, Copy, PartialEq, Eq, Structural)]
pub enum IbdStep {
    /// Download the block bodies the pruning point's anticone is missing, as trusted blocks.
    SyncMissingTrustedBodies,
    /// Download the UTXO set (and sealed service state) of the local pruning point.
    SyncUtxoSetOfLocalPruningPoint,
    /// Download the UTXO set (and sealed service state) of the syncer's pruning point.
    SyncUtxoSetOfSyncerPruningPoint,
    /// Download the headers up to the syncer's sink; its result is the body-sync target.
    SyncHeaders,
    /// Download and apply a headers proof into a staging consensus.
    DownloadHeadersProofIntoStaging,
    /// Commit the staging consensus.
    CommitStagingConsensus,
    /// Sync headers up to the syncer's sink and adopt its pruning point.
    PruningPointCatchUp,
    /// Download the missing block bodies in the past of the body-sync target.
    SyncMissingBodiesToTarget,
    /// Download the missing block bodies in the past of the relay block.
    SyncMissingBodiesToRelayBlock,
}

/// The steps of an IBD session of type `t`. After the steps of the type, the missing bodies are
/// synced up to the body target, and then up to the relay block unless a sync ceiling is set.
pub open spec fn spec_ibd_steps(t: IbdType, sync_ceiling_set: bool) -> Seq<IbdStep> {
    let head = match t {
        IbdType::Sync { is_utxo_stable, is_pp_anticone_synced, .. } => (if is_pp_anticone_synced {
            Seq::<IbdStep>::empty()
        } else {
            seq![IbdStep::SyncMissingTrustedBodies]
        }) + (if is_utxo_stable {
            Seq::<IbdStep>::empty()
        } else {
            seq![IbdStep::SyncUtxoSetOfLocalPruningPoint]
        }) + seq![IbdStep::SyncHeaders],
        IbdType::DownloadHeadersProof => seq![
            IbdStep::DownloadHeadersProofIntoStaging,
            IbdStep::CommitStagingConsensus,
            IbdStep::SyncUtxoSetOfSyncerPruningPoint,
        ],
        IbdType::PruningCatchUp { .. } => seq![
            IbdStep::PruningPointCatchUp,
            IbdStep::SyncMissingTrustedBodies,
            IbdStep::SyncUtxoSetOfSyncerPruningPoint,
        ],
    };
    head + seq![IbdStep::SyncMissingBodiesToTarget] + (if sync_ceiling_set {
        Seq::<IbdStep>::empty()
    } else {
        seq![IbdStep::SyncMissingBodiesToRelayBlock]
    })
}

/// The steps of an IBD session of type `t`.
pub fn ibd_steps(t: &IbdType, sync_ceiling_set: bool) -> (r: Vec<IbdStep>)
    ensures
        r@ == spec_ibd_steps(*t, sync_ceiling_set),
{
    let mut steps: Vec<IbdStep> = Vec::new();
    match t {
        IbdType::Sync { is_utxo_stable, is_pp_anticone_synced, .. } => {
            if !*is_pp_anticone_synced {
                steps.push(IbdStep::SyncMissingTrustedBodies);
            }
            if !*is_utxo_stable {
                steps.push(IbdStep::SyncUtxoSetOfLocalPruningPoint);
            }
            steps.push(IbdStep::SyncHeaders);
        },
        IbdType::DownloadHeadersProof => {
            steps.push(IbdStep::DownloadHeadersProofIntoStaging);
            steps.push(IbdStep::CommitStagingConsensus);
            steps.push(IbdStep::SyncUtxoSetOfSyncerPruningPoint);
        },
        IbdType::PruningCatchUp { .. } => {
            steps.push(IbdStep::PruningPointCatchUp);
            steps.push(IbdStep::SyncMissingTrustedBodies);
            steps.push(IbdStep::SyncUtxoSetOfSyncerPruningPoint);
        },
    }
    steps.push(IbdStep::SyncMissingBodiesToTarget);
    if !sync_ceiling_set {
        steps.push(IbdStep::SyncMissingBodiesToRelayBlock);
    }
    assert(steps@ =~= spec_ibd_steps(*t, sync_ceiling_set));
    steps
}

/// The checks on the pruning point of a received headers proof: it is neither genesis nor the
/// current pruning point.
pub open spec fn spec_check_proof_pruning_point(proof_pruning_point: Seq<u8>, genesis: Seq<u8>, current_pruning_point: Seq<u8>) -> Result<(), IbdError> {
    if proof_pruning_point == genesis {
        Err(IbdError::ProofPruningPointIsGenesis)
    } else if proof_pruning_point == current_pruning_point {
        Err(IbdError::ProofPruningPointIsCurrent)
    } else {
        Ok(())
    }
}

/// Checks the pruning point of a received headers proof.
pub fn check_proof_pruning_point(proof_pruning_point: &Hash32, genesis: &Hash32, current_pruning_point: &Hash32) -> (r: Result<(), IbdError>)
    ensures
        r == spec_check_proof_pruning_point(proof_pruning_point@, genesis@, current_pruning_point@),
{
    if proof_pruning_point.equals(genesis) {
        Err(IbdError::ProofPruningPointIsGenesis)
    } else if proof_pruning_point.equals(current_pruning_point) {
        Err(IbdError::ProofPruningPointIsCurrent)
    } else {
        Ok(())
    }
}

/// The checks on the received past pruning points: non-empty, ending at the proof's pruning
/// point and starting at genesis.
pub open spec fn spec_check_pruning_points(pruning_points: Seq<Seq<u8>>, proof_pruning_point: Seq<u8>, genesis: Seq<u8>) -> Result<(), IbdError> {
    if pruning_points.len() == 0 || pruning_points.last() != proof_pruning_point {
        Err(IbdError::ProofPruningPointNotLast)
    } else if pruning_points[0] != genesis {
        Err(IbdError::PruningPointsNotFromGenesis)
    } else {
        Ok(())
    }
}

/// Checks the received past pruning points against the proof.
pub fn check_pruning_points(pruning_points: &Vec<Hash32>, proof_pruning_point: &Hash32, genesis: &Hash32) -> (r: Result<(), IbdError>)
    ensures
        r == spec_check_pruning_points(hash_views(pruning_points@), proof_pruning_point@, genesis@),
{
    let n = pruning_points.len();
    if n == 0 || !pruning_points[n - 1].equals(proof_pruning_point) {
        return Err(IbdError::ProofPruningPointNotLast);
    }
    if !pruning_points[0].equals(genesis) {
        return Err(IbdError::PruningPointsNotFromGenesis);
    }
    Ok(())
}

/// The root of one level of a headers proof: its hash and the pruning point its header names.
#[derive(Debug, Clone, Copy)]
pub struct ProofRoot {
    pub hash: Hash32,
    pub pruning_point: Hash32,
}

/// Whether a proof root is consistent with the past pruning points: genesis, or naming one of them.
pub open spec fn root_consistent(root: ProofRoot, pruning_points: Seq<Seq<u8>>, genesis: Seq<u8>) -> bool {
    root.hash@ == genesis || pruning_points.contains(root.pruning_point@)
}

/// The consistency of the proof with the past pruning points: the root of every non-empty level
/// is consistent with them.
pub open spec fn spec_check_proof_roots(roots: Seq<Option<ProofRoot>>, pruning_points: Seq<Seq<u8>>, genesis: Seq<u8>) -> Result<(), IbdError> {
    if forall|i: int| 0 <= i < roots.len() && (#[trigger] roots[i]) is Some ==> root_consistent(roots[i]->0, pruning_points, genesis) {
        Ok(())
    } else {
        Err(IbdError::ProofInconsistentWithPruningPoints)
    }
}

/// Checks the roots of the proof levels (`None` for an empty level) against the past pruning
/// points.
pub fn check_proof_roots(roots: &Vec<Option<ProofRoot>>, pruning_points: &Vec<Hash32>, genesis: &Hash32) -> (r: Result<(), IbdError>)
    ensures
        r == spec_check_proof_roots(roots@, hash_views(pruning_points@), genesis@),
{
    let mut i: usize = 0;
    while i < roots.len()
        invariant
            i <= roots@.len(),
            forall|j: int| 0 <= j < i && (#[trigger] roots@[j]) is Some ==> root_consistent(roots@[j]->0, hash_views(pruning_points@), genesis@),
        decreases roots@.len() - i,
    {
        match &roots[i] {
            Some(root) => {
                if !root.hash.equals(genesis) && !contains_hash(pruning_points, &root.pruning_point) {
                    assert(!root_consistent(roots@[i as int]->0, hash_views(pruning_points@), genesis@));
                    return Err(IbdError::ProofInconsistentWithPruningPoints);
                }
            },
            None => {},
        }
        i = i + 1;
    }
    Ok(())
}

/// The check on the first trusted entry: present, and the proof's pruning point.
pub open spec fn spec_check_first_trusted_entry(first: Option<Seq<u8>>, proof_pruning_point: Seq<u8>) -> Result<(), IbdError> {
    match first {
        None => Err(IbdError::MissingPruningPointEntry),
        Some(h) => if h == proof_pruning_point {
            Ok(())
        } else {
            Err(IbdError::UnexpectedFirstTrustedEntry)
        },
    }
}

/// Checks the first entry of the trusted data (`None` when the data ended before it).
pub fn check_first_trusted_entry(first: Option<Hash32>, proof_pruning_point: &Hash32) -> (r: Result<(), IbdError>)
    ensures
        r == spec_check_first_trusted_entry(
            match first {
                Some(h) => Some(h@),
                None => None,
            },
            proof_pruning_point@,
        ),
{
    match first {
        None => Err(IbdError::MissingPruningPointEntry),
        Some(h) => {
            if h.equals(proof_pruning_point) {
                Ok(())
            } else {
                Err(IbdError::UnexpectedFirstTrustedEntry)
            }
        },
    }
}

/// Whether a header at `daa_score` is taken under the sync ceiling: every header without a
/// ceiling, only those strictly below it with one.
pub open spec fn spec_below_ceiling(daa_score: u64, ceiling: Option<u64>) -> bool {
    match ceiling {
        Some(c) => daa_score < c,
        None => true,
    }
}

/// Filters a chunk of headers, given by their daa scores, by the sync ceiling: the indices of the
/// headers taken, in order, and whether any header was dropped.
pub fn filter_chunk_by_ceiling(daa_scores: &Vec<u64>, ceiling: Option<u64>) -> (r: (Vec<usize>, bool))
    ensures
        r.0@.len() <= daa_scores@.len(),
        forall|k: int| 0 <= k < r.0@.len() ==> (#[trigger] r.0@[k]) < daa_scores@.len(),
        forall|k: int, l: int| 0 <= k < l < r.0@.len() ==> r.0@[k] < r.0@[l],
        forall|i: int| 0 <= i < daa_scores@.len() ==> (spec_below_ceiling(daa_scores@[i], ceiling) <==> r.0@.contains(i as usize)),
        r.1 == exists|i: int| 0 <= i < daa_scores@.len() && !spec_below_ceiling(#[trigger] daa_scores@[i], ceiling),
{
    let mut kept: Vec<usize> = Vec::new();
    let mut hit = false;
    let mut i: usize = 0;
    while i < daa_scores.len()
        invariant
            i <= daa_scores@.len(),
            kept@.len() <= i,
            forall|k: int| 0 <= k < kept@.len() ==> (#[trigger] kept@[k]) < i,
            forall|k: int, l: int| 0 <= k < l < kept@.len() ==> kept@[k] < kept@[l],
            forall|j: int| 0 <= j < i ==> (spec_below_ceiling(daa_scores@[j], ceiling) <==> kept@.contains(j as usize)),
            hit == exists|j: int| 0 <= j < i && !spec_below_ceiling(#[trigger] daa_scores@[j], ceiling),
        decreases daa_scores@.len() - i,
    {
        let below = match ceiling {
            Some(c) => daa_scores[i] < c,
            None => true,
        };
        let ghost old_kept = kept@;
        if below {
            kept.push(i);
            assert(kept@.last() == i);
        } else {
            hit = true;
        }
        assert forall|j: int| 0 <= j < i + 1 implies (spec_below_ceiling(daa_scores@[j], ceiling) <==> kept@.contains(j as usize)) by {
            if j < i {
                if old_kept.contains(j as usize) {
                    let k = choose|k: int| 0 <= k < old_kept.len() && old_kept[k] == j as usize;
                    assert(kept@[k] == j as usize);
                }
                if kept@.contains(j as usize) {
                    let k = choose|k: int| 0 <= k < kept@.len() && kept@[k] == j as usize;
                    if k < old_kept.len() {
                        assert(old_kept[k] == j as usize);
                    }
                }
            } else {
                if below {
                    assert(kept@[kept@.len() - 1] == i);
                } else {
                    if kept@.contains(j as usize) {
                        let k = choose|k: int| 0 <= k < kept@.len() && kept@[k] == j as usize;
                        assert(old_kept[k] < i);
                    }
                }
            }
        }
        i = i + 1;
    }
    (kept, hit)
}

/// The daa score progress is reported at for a chunk whose last header is at `current`: clamped
/// below the ceiling when one is set.
pub open spec fn spec_reported_daa(current: u64, ceiling: Option<u64>) -> u64 {
    match ceiling {
        Some(c) => if c == 0 {
            0
        } else if current < c - 1 {
            current
        } else {
            (c - 1) as u64
        },
        None => current,
    }
}

/// The daa score progress is reported at for a chunk whose last header is at `current`.
pub fn reported_daa(current: u64, ceiling: Option<u64>) -> (r: u64)
    ensures
        r == spec_reported_daa(current, ceiling),
{
    match ceiling {
        Some(c) => {
            let bound = c.saturating_sub(1);
            if current < bound {
                current
            } else {
                bound
            }
        },
        None => current,
    }
}

/// Milliseconds a staging headers selected tip must lead the current one by.
pub const STAGING_TIMESTAMP_LEAD_MS: u64 = 600_000;

/// Checks the staging consensus against the current one: its headers selected tip must not be
/// behind the current one, and must lead it by at least ten minutes.
pub fn check_staging_timestamps(staging_tip_timestamp: u64, current_tip_timestamp: u64) -> (r: Result<(), IbdError>)
    ensures
        r is Ok <==> (staging_tip_timestamp >= current_tip_timestamp && staging_tip_timestamp - current_tip_timestamp
            >= STAGING_TIMESTAMP_LEAD_MS),
        r is Err ==> r == Err::<(), IbdError>(IbdError::StagingTimestampsTooClose),
{
    if staging_tip_timestamp < current_tip_timestamp || staging_tip_timestamp - current_tip_timestamp < STAGING_TIMESTAMP_LEAD_MS {
        Err(IbdError::StagingTimestampsTooClose)
    } else {
        Ok(())
    }
}

/// The lowest peer protocol version that serves the service-state handoff window.
pub const SERVICE_STATE_MIN_PROTOCOL_VERSION: u32 = 10;

/// Whether the sealed service state is downloaded: not at all (`Ok(false)`) while service
/// commitments are inactive at the pruning point; refused with a peer below the minimal protocol
/// version; downloaded (`Ok(true)`) otherwise.
pub fn service_state_gate(service_commit_active: bool, protocol_version: u32) -> (r: Result<bool, IbdError>)
    ensures
        !service_commit_active ==> r == Ok::<bool, IbdError>(false),
        service_commit_active && protocol_version < SERVICE_STATE_MIN_PROTOCOL_VERSION ==> r == Err::<bool, IbdError>(
            IbdError::ServiceStateUnsupportedPeer,
        ),
        service_commit_active && protocol_version >= SERVICE_STATE_MIN_PROTOCOL_VERSION ==> r == Ok::<bool, IbdError>(true),
{
    if !service_commit_active {
        Ok(false)
    } else if protocol_version < SERVICE_STATE_MIN_PROTOCOL_VERSION {
        Err(IbdError::ServiceStateUnsupportedPeer)
    } else {
        Ok(true)
    }
}

/// Which header carries the expected service-state commitment.
#[derive(Debug, Clone, Copy, PartialEq, Eq, Structural)]
pub enum CommitmentSource {
    /// The relay block's header (it names the synced pruning point).
    RelayHeader,
    /// The local headers selected tip, which must name the synced pruning point.
    HeadersSelectedTip,
}

/// The header that carries the expected commitment: the relay header when it names the synced
/// pruning point, the local headers selected tip otherwise.
pub fn commitment_source(pruning_point: &Hash32, relay_header_pruning_point: &Hash32) -> (r: CommitmentSource)
    ensures
        r == (if relay_header_pruning_point@ == pruning_point@ {
            CommitmentSource::RelayHeader
        } else {
            CommitmentSource::HeadersSelectedTip
        }),
{
    if relay_header_pruning_point.equals(pruning_point) {
        CommitmentSource::RelayHeader
    } else {
        CommitmentSource::HeadersSelectedTip
    }
}

/// Checks that the local headers selected tip names the synced pruning point.
pub fn check_commitment_anchor(headers_selected_tip_pruning_point: &Hash32, pruning_point: &Hash32) -> (r: Result<(), IbdError>)
    ensures
        r is Ok <==> headers_selected_tip_pruning_point@ == pruning_point@,
        r is Err ==> r == Err::<(), IbdError>(IbdError::ServiceStateUnanchored),
{
    if headers_selected_tip_pruning_point.equals(pruning_point) {
        Ok(())
    } else {
        Err(IbdError::ServiceStateUnanchored)
    }
}

/// The verdict on one service-state row: malformed rows and rows beyond the handoff ceiling are
/// refused; a row at or below the pruning point's daa is sealed (`Ok(true)`, covered by the
/// pruning point's commitment), a row above it is a handoff row (`Ok(false)`).
pub open spec fn spec_classify_service_row(row: Seq<u8>, pruning_point_daa: u64, handoff_cutoff: u64) -> Result<bool, IbdError> {
    match spec_service_row_daa(row) {
        None => Err(IbdError::MalformedServiceRow),
        Some(daa) => if daa > handoff_cutoff {
            Err(IbdError::ServiceRowBeyondHandoff)
        } else {
            Ok(daa <= pruning_point_daa)
        },
    }
}

/// Classifies one received service-state row.
pub fn classify_service_row(row: &[u8], pruning_point_daa: u64, handoff_cutoff: u64) -> (r: Result<bool, IbdError>)
    ensures
        r == spec_classify_service_row(row@, pruning_point_daa, handoff_cutoff),
{
    match service_row_daa(row) {
        None => Err(IbdError::MalformedServiceRow),
        Some(daa) => {
            if daa > handoff_cutoff {
                Err(IbdError::ServiceRowBeyondHandoff)
            } else {
                Ok(daa <= pruning_point_daa)
            }
        },
    }
}

/// The number of sealed rows in `rows`.
pub open spec fn sealed_count(rows: Seq<Seq<u8>>, pruning_point_daa: u64) -> nat
    decreases rows.len(),
{
    if rows.len() == 0 {
        0
    } else {
        sealed_count(rows.drop_last(), pruning_point_daa) + if spec_service_row_daa(rows.last()) matches Some(d) && d
            <= pruning_point_daa {
            1nat
        } else {
            0nat
        }
    }
}

/// The service-state rows received so far for a pruning point at `pruning_point_daa`, each
/// accepted, and how many of them are sealed.
pub struct ServiceStateIntake {
    pruning_point_daa: u64,
    handoff_cutoff: u64,
    rows: Vec<Vec<u8>>,
    sealed_rows: usize,
}

impl ServiceStateIntake {
    /// The accepted rows, in order.
    pub closed spec fn rows(&self) -> Seq<Seq<u8>> {
        self.rows@.map_values(|r: Vec<u8>| r@)
    }

    pub closed spec fn pruning_point_daa(&self) -> u64 {
        self.pruning_point_daa
    }

    pub closed spec fn handoff_cutoff(&self) -> u64 {
        self.handoff_cutoff
    }

    /// The sealed counter matches the rows, and every row was accepted.
    pub closed spec fn wf(&self) -> bool {
        &&& self.sealed_rows == sealed_count(self.rows(), self.pruning_point_daa)
        &&& forall|i: int| 0 <= i < self.rows@.len() ==> #[trigger] spec_classify_service_row(self.rows@[i]@, self.pruning_point_daa, self.handoff_cutoff) is Ok
    }

    /// An empty intake for a pruning point at `pruning_point_daa`, taking rows up to
    /// `handoff_cutoff`.
    pub fn new(pruning_point_daa: u64, handoff_cutoff: u64) -> (r: Self)
        ensures
            r.wf(),
            r.rows() == Seq::<Seq<u8>>::empty(),
            r.pruning_point_daa() == pruning_point_daa,
            r.handoff_cutoff() == handoff_cutoff,
    {
        let r = ServiceStateIntake { pruning_point_daa, handoff_cutoff, rows: Vec::new(), sealed_rows: 0 };
        assert(r.rows() =~= Seq::<Seq<u8>>::empty());
        r
    }

    /// Takes one row: refuses it (leaving the intake unchanged) when `classify_service_row`
    /// refuses it, appends it otherwise and says whether it is sealed.
    pub fn accept_row(&mut self, row: Vec<u8>) -> (r: Result<bool, IbdError>)
        requires
            old(self).wf(),
            old(self).rows().len() < usize::MAX,
        ensures
            final(self).wf(),
            r == spec_classify_service_row(row@, old(self).pruning_point_daa(), old(self).handoff_cutoff()),
            final(self).pruning_point_daa() == old(self).pruning_point_daa(),
            final(self).handoff_cutoff() == old(self).handoff_cutoff(),
            r is Ok ==> final(self).rows() == old(self).rows().push(row@),
            r is Err ==> final(self).rows() == old(self).rows(),
    {
        let verdict = classify_service_row(row.as_slice(), self.pruning_point_daa, self.handoff_cutoff);
        match verdict {
            Err(e) => Err(e),
            Ok(sealed) => {
                let ghost old_rows = self.rows();
                let ghost row_view = row@;
                proof {
                    assert(self.rows().len() == self.rows@.len());
                    assert(self.sealed_rows <= self.rows@.len()) by {
                        lemma_sealed_count_bound(self.rows(), self.pruning_point_daa);
                    }
                }
                let new_sealed = if sealed {
                    self.sealed_rows + 1
                } else {
                    self.sealed_rows
                };
                self.rows.push(row);
                self.sealed_rows = new_sealed;
                proof {
                    assert(self.rows@.map_values(|r: Vec<u8>| r@) =~= old_rows.push(row_view));
                    assert(old_rows.push(row_view).drop_last() =~= old_rows);
                    assert forall|i: int| 0 <= i < self.rows@.len() implies #[trigger] spec_classify_service_row(
                        self.rows@[i]@,
                        self.pruning_point_daa,
                        self.handoff_cutoff,
                    ) is Ok by {
                        if i < self.rows@.len() - 1 {
                            assert(self.rows@[i] == old(self).rows@[i]);
                        }
                    }
                }
                Ok(sealed)
            },
        }
    }

    /// The number of sealed rows.
    pub fn sealed_rows(&self) -> (r: usize)
        requires
            self.wf(),
        ensures
            r == sealed_count(self.rows(), self.pruning_point_daa()),
    {
        self.sealed_rows
    }

    /// Checks the commitment of the sealed rows: `computed` is the hash of the sealed rows, which
    /// counts as the zero hash when there are none; it must equal `expected`.
    pub fn check_commitment(&self, computed: &Hash32, expected: &Hash32) -> (r: Result<(), IbdError>)
        requires
            self.wf(),
        ensures
            r is Ok <==> (if sealed_count(self.rows(), self.pruning_point_daa()) == 0 {
                expected@ == Seq::new(32, |i: int| 0u8)
            } else {
                computed@ == expected@
            }),
            r is Err ==> r == Err::<(), IbdError>(IbdError::ServiceStateMismatch),
    {
        let matches = if self.sealed_rows == 0 {
            let zero = Hash32::default();
            zero.equals(expected)
        } else {
            computed.equals(expected)
        };
        if matches {
            Ok(())
        } else {
            Err(IbdError::ServiceStateMismatch)
        }
    }

    /// Hands the accepted rows over for import.
    pub fn into_rows(self) -> (r: Vec<Vec<u8>>)
        ensures
            r@.map_values(|v: Vec<u8>| v@) == self.rows(),
    {
        self.rows
    }
}

proof fn lemma_sealed_count_bound(rows: Seq<Seq<u8>>, pruning_point_daa: u64)
    ensures
        sealed_count(rows, pruning_point_daa) <= rows.len(),
    decreases rows.len(),
{
    if rows.len() > 0 {
        lemma_sealed_count_bound(rows.drop_last(), pruning_point_daa);
    }
}

/// What an IBD keeps of a downloaded block's possession proof.
#[derive(Debug, Clone, Copy, PartialEq, Eq, Structural)]
pub struct IbdBlockPom {
    /// Persist the carried proof.
    pub keep_proof: bool,
    /// The tier stored with the block.
    pub tier: Option<u8>,
    /// A carried proof was dropped because the block lies beyond the proof service window.
    pub discarded_historical_proof: bool,
    /// The block came without a proof inside the service window: queue it for a proof re-fetch.
    pub queue_reproof: bool,
}

/// The proof decision for a block at `daa_score` downloaded by an IBD syncing up to `high_daa`:
/// a block deeper than `serve_depth` below the target keeps its tier (the carried one, else the
/// proof's) and drops the proof; a recent block keeps both, and is queued for a proof re-fetch
/// when it came without a proof while PoM is active at its score. `proof_tier` is the tier of the
/// carried proof (`None`: no proof).
pub open spec fn spec_ibd_block_pom(
    high_daa: u64,
    daa_score: u64,
    serve_depth: u64,
    pom_active: bool,
    tier: Option<u8>,
    proof_tier: Option<u8>,
) -> IbdBlockPom {
    let depth = if high_daa >= daa_score { high_daa - daa_score } else { 0 };
    if depth > serve_depth {
        IbdBlockPom {
            keep_proof: false,
            tier: if tier is Some { tier } else { proof_tier },
            discarded_historical_proof: proof_tier is Some,
            queue_reproof: false,
        }
    } else {
        IbdBlockPom {
            keep_proof: proof_tier is Some,
            tier,
            discarded_historical_proof: false,
            queue_reproof: proof_tier is None && pom_active,
        }
    }
}

/// The proof decision for a block downloaded by an IBD.
pub fn ibd_block_pom(high_daa: u64, daa_score: u64, serve_depth: u64, pom_active: bool, tier: Option<u8>, proof_tier: Option<u8>) -> (r:
    IbdBlockPom)
    ensures
        r == spec_ibd_block_pom(high_daa, daa_score, serve_depth, pom_active, tier, proof_tier),
{
    if high_daa.saturating_sub(daa_score) > serve_depth {
        IbdBlockPom {
            keep_proof: false,
            tier: match tier {
                Some(t) => Some(t),
                None => proof_tier,
            },
            discarded_historical_proof: proof_tier.is_some(),
            queue_reproof: false,
        }
    } else {
        IbdBlockPom {
            keep_proof: proof_tier.is_some(),
            tier,
            discarded_historical_proof: false,
            queue_reproof: proof_tier.is_none() && pom_active,
        }
    }
}

/// The tier kept for a trusted pruning-anticone block: the carried tier, else the proof's. Its
/// proof is never persisted (those blocks sit beyond the proof retention window).
pub fn trusted_block_tier(tier: Option<u8>, proof_tier: Option<u8>) -> (r: Option<u8>)
    ensures
        r == (if tier is Some { tier } else { proof_tier }),
{
    match tier {
        Some(t) => Some(t),
        None => proof_tier,
    }
}

/// Why a downloaded block is refused.
#[derive(Debug, Clone, Copy, PartialEq, Eq, Structural)]
pub enum IbdBlockError {
    /// The peer sent another block than the one requested.
    UnexpectedBlock,
    /// The peer sent a header where a block with its body was expected.
    HeaderOnly,
    /// The peer sent an empty block body.
    EmptyBody,
}

/// Checks a block received in full: it is the requested one and carries its body.
pub fn check_received_block(expected: &Hash32, received: &Hash32, header_only: bool) -> (r: Result<(), IbdBlockError>)
    ensures
        r == (if received@ != expected@ {
            Err::<(), IbdBlockError>(IbdBlockError::UnexpectedBlock)
        } else if header_only {
            Err::<(), IbdBlockError>(IbdBlockError::HeaderOnly)
        } else {
            Ok::<(), IbdBlockError>(())
        }),
{
    if !received.equals(expected) {
        Err(IbdBlockError::UnexpectedBlock)
    } else if header_only {
        Err(IbdBlockError::HeaderOnly)
    } else {
        Ok(())
    }
}

/// Checks a block body received alone: it holds at least one transaction.
pub fn check_received_body(transactions: usize) -> (r: Result<(), IbdBlockError>)
    ensures
        r == (if transactions == 0 {
            Err::<(), IbdBlockError>(IbdBlockError::EmptyBody)
        } else {
            Ok::<(), IbdBlockError>(())
        }),
{
    if transactions == 0 {
        Err(IbdBlockError::EmptyBody)
    } else {
        Ok(())
    }
}

/// `a + 1` capped at `u64::MAX`.
pub open spec fn bump(a: u64) -> u64 {
    capped_add(a as int, 1, u64::MAX as int) as u64
}

impl PomChunkMetrics {
    /// The metrics of a chunk of `blocks` blocks before any of them arrived.
    pub fn for_chunk(blocks: u64) -> (r: Self)
        ensures
            r == (PomChunkMetrics {
                blocks,
                proofs: 0,
                proof_bytes: 0,
                reproofs_queued: 0,
                discarded_historical_proofs: 0,
                discarded_historical_bytes: 0,
                decode_time_nanos: 0,
                peer_wait_time_nanos: 0,
            }),
    {
        PomChunkMetrics {
            blocks,
            proofs: 0,
            proof_bytes: 0,
            reproofs_queued: 0,
            discarded_historical_proofs: 0,
            discarded_historical_bytes: 0,
            decode_time_nanos: 0,
            peer_wait_time_nanos: 0,
        }
    }

    /// Adds `nanos` of waiting for the peer, saturating at the longest duration.
    pub fn record_peer_wait(&mut self, nanos: u128)
        requires
            old(self).wf(),
            nanos <= DURATION_MAX_NANOS,
        ensures
            final(self).wf(),
            *final(self) == (PomChunkMetrics {
                peer_wait_time_nanos: capped_add(old(self).peer_wait_time_nanos as int, nanos as int, DURATION_MAX_NANOS as int) as u128,
                ..*old(self)
            }),
    {
        self.peer_wait_time_nanos = duration_nanos_saturating_add(self.peer_wait_time_nanos, nanos);
    }

    /// Adds `nanos` of proof decoding, saturating at the longest duration.
    pub fn record_decode(&mut self, nanos: u128)
        requires
            old(self).wf(),
            nanos <= DURATION_MAX_NANOS,
        ensures
            final(self).wf(),
            *final(self) == (PomChunkMetrics {
                decode_time_nanos: capped_add(old(self).decode_time_nanos as int, nanos as int, DURATION_MAX_NANOS as int) as u128,
                ..*old(self)
            }),
    {
        self.decode_time_nanos = duration_nanos_saturating_add(self.decode_time_nanos, nanos);
    }

    /// Counts one downloaded block (only when metrics are enabled). `proof_len` is the length of
    /// the carried proof (`None`: no proof). A full-block download counts a carried proof; a
    /// body-only download counts a non-empty proof with its bytes. A proof dropped as historical
    /// and a queued re-fetch are counted too (a body-only download also counts the dropped bytes).
    pub fn record_block(&mut self, metrics_enabled: bool, body_only: bool, proof_len: Option<u64>, verdict: IbdBlockPom)
        ensures
            !metrics_enabled ==> *final(self) == *old(self),
            metrics_enabled ==> ({
                let bytes: u64 = match proof_len {
                    Some(n) => n,
                    None => 0,
                };
                let counted = if body_only { bytes > 0 } else { proof_len is Some };
                let dropped = verdict.discarded_historical_proof && proof_len is Some;
                &&& final(self).blocks == old(self).blocks
                &&& final(self).proofs == if counted { bump(old(self).proofs) } else { old(self).proofs }
                &&& final(self).proof_bytes == if body_only && bytes > 0 {
                    capped_add(old(self).proof_bytes as int, bytes as int, u64::MAX as int) as u64
                } else {
                    old(self).proof_bytes
                }
                &&& final(self).discarded_historical_proofs == if dropped {
                    bump(old(self).discarded_historical_proofs)
                } else {
                    old(self).discarded_historical_proofs
                }
                &&& final(self).discarded_historical_bytes == if body_only && dropped {
                    capped_add(old(self).discarded_historical_bytes as int, bytes as int, u64::MAX as int) as u64
                } else {
                    old(self).discarded_historical_bytes
                }
                &&& final(self).reproofs_queued == if verdict.queue_reproof {
                    bump(old(self).reproofs_queued)
                } else {
                    old(self).reproofs_queued
                }
                &&& final(self).decode_time_nanos == old(self).decode_time_nanos
                &&& final(self).peer_wait_time_nanos == old(self).peer_wait_time_nanos
            }),
    {
        if !metrics_enabled {
            return ;
        }
        let bytes: u64 = match proof_len {
            Some(n) => n,
            None => 0,
        };
        let counted = if body_only {
            bytes > 0
        } else {
            proof_len.is_some()
        };
        if counted {
            self.proofs = self.proofs.saturating_add(1);
        }
        if body_only && bytes > 0 {
            self.proof_bytes = self.proof_bytes.saturating_add(bytes);
        }
        if verdict.discarded_historical_proof && proof_len.is_some() {
            self.discarded_historical_proofs = self.discarded_historical_proofs.saturating_add(1);
            if body_only {
                self.discarded_historical_bytes = self.discarded_historical_bytes.saturating_add(bytes);
            }
        }
        if verdict.queue_reproof {
            self.reproofs_queued = self.reproofs_queued.saturating_add(1);
        }
    }
}

} // verus!
