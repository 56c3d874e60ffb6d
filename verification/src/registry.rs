//! Key prefixes of the node's database stores: one byte per store, written in front of
//! every key of that store so that stores sharing one database never collide.

use vstd::prelude::*;

verus! {

/// Reserved as the separator between a prefix and the rest of a composite key. It is never a
/// valid block level, and the `Separator` variant keeps it from being used as a store prefix.
pub const SEPARATOR: u8 = 255u8;

/// The store prefixes. Each variant stands for one byte (see [`prefix_byte`]); no two variants
/// share a byte.
#[derive(Debug, Clone, Copy, PartialEq, Eq, Structural)]
pub enum DatabaseStorePrefixes {
    AcceptanceData,
    BlockTransactions,
    NonDaaMergeset,
    BlockDepth,
    Ghostdag,
    GhostdagCompact,
    HeadersSelectedTip,
    Headers,
    HeadersCompact,
    PastPruningPoints,
    PruningUtxoset,
    PruningUtxosetPosition,
    PruningPoint,
    RetentionCheckpoint,
    Reachability,
    ReachabilityReindexRoot,
    ReachabilityRelations,
    RelationsParents,
    RelationsChildren,
    ChainHashByIndex,
    ChainIndexByHash,
    ChainHighestIndex,
    Statuses,
    Tips,
    UtxoDiffs,
    UtxoMultisets,
    VirtualUtxoset,
    VirtualState,
    PruningSamples,
    ReachabilityTreeChildren,
    ReachabilityFutureCoveringSet,
    CompressedHeaders,
    PruningProofDescriptor,
    MinerCollateral,
    AiResponse,
    AiSlashed,
    PomTier,
    AddressBalance,
    TempGhostdag,
    TempGhostdagCompact,
    TempRelationsParents,
    TempRelationsChildren,
    ProductionIndexSeededAt,
    WindowedProductionPrefix,
    WindowedProductionFloor,
    AgeBuckets,
    MaturationQueue,
    CoinAgeWatermark,
    RetentionPeriodRoot,
    PruningUtxosetSyncFlag,
    BodyMissingAnticone,
    MultiConsensusMetadata,
    ConsensusEntries,
    Addresses,
    BannedAddresses,
    UtxoIndex,
    UtxoIndexTips,
    CirculatingSupply,
    PomProof,
    ServiceBurn,
    ServiceStrike,
    ServiceFirstSeen,
    ServiceReward,
    ServiceLedgerSnapshot,
    Separator,
}

/// The byte a prefix is written as.
pub open spec fn prefix_byte(p: DatabaseStorePrefixes) -> u8 {
    match p {
        DatabaseStorePrefixes::AcceptanceData => 1u8,
        DatabaseStorePrefixes::BlockTransactions => 2u8,
        DatabaseStorePrefixes::NonDaaMergeset => 3u8,
        DatabaseStorePrefixes::BlockDepth => 4u8,
        DatabaseStorePrefixes::Ghostdag => 5u8,
        DatabaseStorePrefixes::GhostdagCompact => 6u8,
        DatabaseStorePrefixes::HeadersSelectedTip => 7u8,
        DatabaseStorePrefixes::Headers => 8u8,
        DatabaseStorePrefixes::HeadersCompact => 9u8,
        DatabaseStorePrefixes::PastPruningPoints => 10u8,
        DatabaseStorePrefixes::PruningUtxoset => 11u8,
        DatabaseStorePrefixes::PruningUtxosetPosition => 12u8,
        DatabaseStorePrefixes::PruningPoint => 13u8,
        DatabaseStorePrefixes::RetentionCheckpoint => 14u8,
        DatabaseStorePrefixes::Reachability => 15u8,
        DatabaseStorePrefixes::ReachabilityReindexRoot => 16u8,
        DatabaseStorePrefixes::ReachabilityRelations => 17u8,
        DatabaseStorePrefixes::RelationsParents => 18u8,
        DatabaseStorePrefixes::RelationsChildren => 19u8,
        DatabaseStorePrefixes::ChainHashByIndex => 20u8,
        DatabaseStorePrefixes::ChainIndexByHash => 21u8,
        DatabaseStorePrefixes::ChainHighestIndex => 22u8,
        DatabaseStorePrefixes::Statuses => 23u8,
        DatabaseStorePrefixes::Tips => 24u8,
        DatabaseStorePrefixes::UtxoDiffs => 25u8,
        DatabaseStorePrefixes::UtxoMultisets => 26u8,
        DatabaseStorePrefixes::VirtualUtxoset => 27u8,
        DatabaseStorePrefixes::VirtualState => 28u8,
        DatabaseStorePrefixes::PruningSamples => 29u8,
        DatabaseStorePrefixes::ReachabilityTreeChildren => 30u8,
        DatabaseStorePrefixes::ReachabilityFutureCoveringSet => 31u8,
        DatabaseStorePrefixes::CompressedHeaders => 32u8,
        DatabaseStorePrefixes::PruningProofDescriptor => 33u8,
        DatabaseStorePrefixes::MinerCollateral => 34u8,
        DatabaseStorePrefixes::AiResponse => 35u8,
        DatabaseStorePrefixes::AiSlashed => 36u8,
        DatabaseStorePrefixes::PomTier => 37u8,
        DatabaseStorePrefixes::AddressBalance => 39u8,
        DatabaseStorePrefixes::TempGhostdag => 40u8,
        DatabaseStorePrefixes::TempGhostdagCompact => 41u8,
        DatabaseStorePrefixes::TempRelationsParents => 42u8,
        DatabaseStorePrefixes::TempRelationsChildren => 43u8,
        DatabaseStorePrefixes::ProductionIndexSeededAt => 45u8,
        DatabaseStorePrefixes::WindowedProductionPrefix => 46u8,
        DatabaseStorePrefixes::WindowedProductionFloor => 47u8,
        DatabaseStorePrefixes::AgeBuckets => 48u8,
        DatabaseStorePrefixes::MaturationQueue => 49u8,
        DatabaseStorePrefixes::CoinAgeWatermark => 51u8,
        DatabaseStorePrefixes::RetentionPeriodRoot => 50u8,
        DatabaseStorePrefixes::PruningUtxosetSyncFlag => 60u8,
        DatabaseStorePrefixes::BodyMissingAnticone => 61u8,
        DatabaseStorePrefixes::MultiConsensusMetadata => 124u8,
        DatabaseStorePrefixes::ConsensusEntries => 125u8,
        DatabaseStorePrefixes::Addresses => 128u8,
        DatabaseStorePrefixes::BannedAddresses => 129u8,
        DatabaseStorePrefixes::UtxoIndex => 192u8,
        DatabaseStorePrefixes::UtxoIndexTips => 193u8,
        DatabaseStorePrefixes::CirculatingSupply => 194u8,
        DatabaseStorePrefixes::PomProof => 195u8,
        DatabaseStorePrefixes::ServiceBurn => 196u8,
        DatabaseStorePrefixes::ServiceStrike => 198u8,
        DatabaseStorePrefixes::ServiceFirstSeen => 199u8,
        DatabaseStorePrefixes::ServiceReward => 200u8,
        DatabaseStorePrefixes::ServiceLedgerSnapshot => 201u8,
        DatabaseStorePrefixes::Separator => 255u8,
    }
}

impl DatabaseStorePrefixes {
    /// The byte this prefix is written as.
    pub fn to_u8(self) -> (r: u8)
        ensures
            r == prefix_byte(self),
    {
        match self {
            DatabaseStorePrefixes::AcceptanceData => 1u8,
            DatabaseStorePrefixes::BlockTransactions => 2u8,
            DatabaseStorePrefixes::NonDaaMergeset => 3u8,
            DatabaseStorePrefixes::BlockDepth => 4u8,
            DatabaseStorePrefixes::Ghostdag => 5u8,
            DatabaseStorePrefixes::GhostdagCompact => 6u8,
            DatabaseStorePrefixes::HeadersSelectedTip => 7u8,
            DatabaseStorePrefixes::Headers => 8u8,
            DatabaseStorePrefixes::HeadersCompact => 9u8,
            DatabaseStorePrefixes::PastPruningPoints => 10u8,
            DatabaseStorePrefixes::PruningUtxoset => 11u8,
            DatabaseStorePrefixes::PruningUtxosetPosition => 12u8,
            DatabaseStorePrefixes::PruningPoint => 13u8,
            DatabaseStorePrefixes::RetentionCheckpoint => 14u8,
            DatabaseStorePrefixes::Reachability => 15u8,
            DatabaseStorePrefixes::ReachabilityReindexRoot => 16u8,
            DatabaseStorePrefixes::ReachabilityRelations => 17u8,
            DatabaseStorePrefixes::RelationsParents => 18u8,
            DatabaseStorePrefixes::RelationsChildren => 19u8,
            DatabaseStorePrefixes::ChainHashByIndex => 20u8,
            DatabaseStorePrefixes::ChainIndexByHash => 21u8,
            DatabaseStorePrefixes::ChainHighestIndex => 22u8,
            DatabaseStorePrefixes::Statuses => 23u8,
            DatabaseStorePrefixes::Tips => 24u8,
            DatabaseStorePrefixes::UtxoDiffs => 25u8,
            DatabaseStorePrefixes::UtxoMultisets => 26u8,
            DatabaseStorePrefixes::VirtualUtxoset => 27u8,
            DatabaseStorePrefixes::VirtualState => 28u8,
            DatabaseStorePrefixes::PruningSamples => 29u8,
            DatabaseStorePrefixes::ReachabilityTreeChildren => 30u8,
            DatabaseStorePrefixes::ReachabilityFutureCoveringSet => 31u8,
            DatabaseStorePrefixes::CompressedHeaders => 32u8,
            DatabaseStorePrefixes::PruningProofDescriptor => 33u8,
            DatabaseStorePrefixes::MinerCollateral => 34u8,
            DatabaseStorePrefixes::AiResponse => 35u8,
            DatabaseStorePrefixes::AiSlashed => 36u8,
            DatabaseStorePrefixes::PomTier => 37u8,
            DatabaseStorePrefixes::AddressBalance => 39u8,
            DatabaseStorePrefixes::TempGhostdag => 40u8,
            DatabaseStorePrefixes::TempGhostdagCompact => 41u8,
            DatabaseStorePrefixes::TempRelationsParents => 42u8,
            DatabaseStorePrefixes::TempRelationsChildren => 43u8,
            DatabaseStorePrefixes::ProductionIndexSeededAt => 45u8,
            DatabaseStorePrefixes::WindowedProductionPrefix => 46u8,
            DatabaseStorePrefixes::WindowedProductionFloor => 47u8,
            DatabaseStorePrefixes::AgeBuckets => 48u8,
            DatabaseStorePrefixes::MaturationQueue => 49u8,
            DatabaseStorePrefixes::CoinAgeWatermark => 51u8,
            DatabaseStorePrefixes::RetentionPeriodRoot => 50u8,
            DatabaseStorePrefixes::PruningUtxosetSyncFlag => 60u8,
            DatabaseStorePrefixes::BodyMissingAnticone => 61u8,
            DatabaseStorePrefixes::MultiConsensusMetadata => 124u8,
            DatabaseStorePrefixes::ConsensusEntries => 125u8,
            DatabaseStorePrefixes::Addresses => 128u8,
            DatabaseStorePrefixes::BannedAddresses => 129u8,
            DatabaseStorePrefixes::UtxoIndex => 192u8,
            DatabaseStorePrefixes::UtxoIndexTips => 193u8,
            DatabaseStorePrefixes::CirculatingSupply => 194u8,
            DatabaseStorePrefixes::PomProof => 195u8,
            DatabaseStorePrefixes::ServiceBurn => 196u8,
            DatabaseStorePrefixes::ServiceStrike => 198u8,
            DatabaseStorePrefixes::ServiceFirstSeen => 199u8,
            DatabaseStorePrefixes::ServiceReward => 200u8,
            DatabaseStorePrefixes::ServiceLedgerSnapshot => 201u8,
            DatabaseStorePrefixes::Separator => 255u8,
        }
    }

    /// The prefix written as byte `b`, if any store uses it.
    pub fn from_u8(b: u8) -> (r: Option<DatabaseStorePrefixes>)
        ensures
            match r {
                Some(p) => prefix_byte(p) == b,
                None => forall|p: DatabaseStorePrefixes| prefix_byte(p) != b,
            },
    {
        match b {
            1u8 => Some(DatabaseStorePrefixes::AcceptanceData),
            2u8 => Some(DatabaseStorePrefixes::BlockTransactions),
            3u8 => Some(DatabaseStorePrefixes::NonDaaMergeset),
            4u8 => Some(DatabaseStorePrefixes::BlockDepth),
            5u8 => Some(DatabaseStorePrefixes::Ghostdag),
            6u8 => Some(DatabaseStorePrefixes::GhostdagCompact),
            7u8 => Some(DatabaseStorePrefixes::HeadersSelectedTip),
            8u8 => Some(DatabaseStorePrefixes::Headers),
            9u8 => Some(DatabaseStorePrefixes::HeadersCompact),
            10u8 => Some(DatabaseStorePrefixes::PastPruningPoints),
            11u8 => Some(DatabaseStorePrefixes::PruningUtxoset),
            12u8 => Some(DatabaseStorePrefixes::PruningUtxosetPosition),
            13u8 => Some(DatabaseStorePrefixes::PruningPoint),
            14u8 => Some(DatabaseStorePrefixes::RetentionCheckpoint),
            15u8 => Some(DatabaseStorePrefixes::Reachability),
            16u8 => Some(DatabaseStorePrefixes::ReachabilityReindexRoot),
            17u8 => Some(DatabaseStorePrefixes::ReachabilityRelations),
            18u8 => Some(DatabaseStorePrefixes::RelationsParents),
            19u8 => Some(DatabaseStorePrefixes::RelationsChildren),
            20u8 => Some(DatabaseStorePrefixes::ChainHashByIndex),
            21u8 => Some(DatabaseStorePrefixes::ChainIndexByHash),
            22u8 => Some(DatabaseStorePrefixes::ChainHighestIndex),
            23u8 => Some(DatabaseStorePrefixes::Statuses),
            24u8 => Some(DatabaseStorePrefixes::Tips),
            25u8 => Some(DatabaseStorePrefixes::UtxoDiffs),
            26u8 => Some(DatabaseStorePrefixes::UtxoMultisets),
            27u8 => Some(DatabaseStorePrefixes::VirtualUtxoset),
            28u8 => Some(DatabaseStorePrefixes::VirtualState),
            29u8 => Some(DatabaseStorePrefixes::PruningSamples),
            30u8 => Some(DatabaseStorePrefixes::ReachabilityTreeChildren),
            31u8 => Some(DatabaseStorePrefixes::ReachabilityFutureCoveringSet),
            32u8 => Some(DatabaseStorePrefixes::CompressedHeaders),
            33u8 => Some(DatabaseStorePrefixes::PruningProofDescriptor),
            34u8 => Some(DatabaseStorePrefixes::MinerCollateral),
            35u8 => Some(DatabaseStorePrefixes::AiResponse),
            36u8 => Some(DatabaseStorePrefixes::AiSlashed),
            37u8 => Some(DatabaseStorePrefixes::PomTier),
            39u8 => Some(DatabaseStorePrefixes::AddressBalance),
            40u8 => Some(DatabaseStorePrefixes::TempGhostdag),
            41u8 => Some(DatabaseStorePrefixes::TempGhostdagCompact),
            42u8 => Some(DatabaseStorePrefixes::TempRelationsParents),
            43u8 => Some(DatabaseStorePrefixes::TempRelationsChildren),
            45u8 => Some(DatabaseStorePrefixes::ProductionIndexSeededAt),
            46u8 => Some(DatabaseStorePrefixes::WindowedProductionPrefix),
            47u8 => Some(DatabaseStorePrefixes::WindowedProductionFloor),
            48u8 => Some(DatabaseStorePrefixes::AgeBuckets),
            49u8 => Some(DatabaseStorePrefixes::MaturationQueue),
            51u8 => Some(DatabaseStorePrefixes::CoinAgeWatermark),
            50u8 => Some(DatabaseStorePrefixes::RetentionPeriodRoot),
            60u8 => Some(DatabaseStorePrefixes::PruningUtxosetSyncFlag),
            61u8 => Some(DatabaseStorePrefixes::BodyMissingAnticone),
            124u8 => Some(DatabaseStorePrefixes::MultiConsensusMetadata),
            125u8 => Some(DatabaseStorePrefixes::ConsensusEntries),
            128u8 => Some(DatabaseStorePrefixes::Addresses),
            129u8 => Some(DatabaseStorePrefixes::BannedAddresses),
            192u8 => Some(DatabaseStorePrefixes::UtxoIndex),
            193u8 => Some(DatabaseStorePrefixes::UtxoIndexTips),
            194u8 => Some(DatabaseStorePrefixes::CirculatingSupply),
            195u8 => Some(DatabaseStorePrefixes::PomProof),
            196u8 => Some(DatabaseStorePrefixes::ServiceBurn),
            198u8 => Some(DatabaseStorePrefixes::ServiceStrike),
            199u8 => Some(DatabaseStorePrefixes::ServiceFirstSeen),
            200u8 => Some(DatabaseStorePrefixes::ServiceReward),
            201u8 => Some(DatabaseStorePrefixes::ServiceLedgerSnapshot),
            255u8 => Some(DatabaseStorePrefixes::Separator),
            _ => None,
        }
    }
    /// The prefix as a one-byte key fragment.
    pub fn as_ref(&self) -> (r: [u8; 1])
        ensures
            r@ == seq![prefix_byte(*self)],
    {
        let r = [self.to_u8()];
        assert(r@ =~= seq![prefix_byte(*self)]);
        r
    }

    /// The bytes of the prefix, in key order (exactly one).
    pub fn into_iter(self) -> (r: Vec<u8>)
        ensures
            r@ == seq![prefix_byte(self)],
    {
        let mut r: Vec<u8> = Vec::new();
        r.push(self.to_u8());
        r
    }
}

impl From<DatabaseStorePrefixes> for u8 {
    fn from(value: DatabaseStorePrefixes) -> (r: u8) {
        value.to_u8()
    }
}

impl vstd::std_specs::convert::FromSpecImpl<DatabaseStorePrefixes> for u8 {
    open spec fn obeys_from_spec() -> bool {
        true
    }

    open spec fn from_spec(v: DatabaseStorePrefixes) -> u8 {
        prefix_byte(v)
    }
}

impl From<DatabaseStorePrefixes> for Vec<u8> {
    fn from(value: DatabaseStorePrefixes) -> (r: Vec<u8>)
        ensures
            r@ == seq![prefix_byte(value)],
    {
        value.into_iter()
    }
}

impl vstd::std_specs::convert::FromSpecImpl<DatabaseStorePrefixes> for Vec<u8> {
    open spec fn obeys_from_spec() -> bool {
        false
    }

    open spec fn from_spec(v: DatabaseStorePrefixes) -> Vec<u8> {
        arbitrary()
    }
}

/// Distinct stores never share a prefix byte, so the byte identifies its store: reading a
/// prefix back from the byte it was written as gives the same prefix.
pub proof fn lemma_prefix_byte_round_trip(p: DatabaseStorePrefixes, q: DatabaseStorePrefixes)
    ensures
        prefix_byte(p) == prefix_byte(q) ==> p == q,
        prefix_byte(DatabaseStorePrefixes::Separator) == SEPARATOR,
        forall|r: DatabaseStorePrefixes| prefix_byte(r) == SEPARATOR ==> r == DatabaseStorePrefixes::Separator,
{
}

} // verus!
