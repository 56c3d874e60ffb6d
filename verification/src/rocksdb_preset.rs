//! Storage-engine configuration presets.
//!
//! A preset is turned into a *plan*: the ordered list of option settings that configure one
//! database connection. The plan is computed here; the process that owns the storage engine
//! applies each setting to the engine's option object in order.

use vstd::prelude::*;

verus! {

/// Values at or above this size go to blob files instead of being carried inline in the LSM.
pub const BLOB_MIN_VALUE_BYTES: u64 = 4 * 1024;

/// ZSTD level for the bottommost level of the HDD preset.
pub const HDD_BOTTOMMOST_ZSTD_LEVEL: i32 = 6;

/// Blob-file size of the SSD (default) preset.
pub const SSD_BLOB_FILE_BYTES: u64 = 128 * 1024 * 1024;

/// Floor of the dedicated blob cache.
pub const DA_1500_BLOB_CACHE_MIN_BYTES: usize = 256 * 1024 * 1024;

/// Default background-write rate limit of the HDD presets, in bytes per second.
pub const DEFAULT_HDD_RATE_LIMIT_BYTES_PER_SEC: u64 = 48 * 1024 * 1024;

/// Memory budgets shared by every database the process opens: one block cache, one blob
/// cache, one memtable allowance, and the optional background-write rate limit.
#[derive(Debug, Clone, Copy, PartialEq, Eq, Structural)]
pub struct RocksDbResources {
    pub block_cache_bytes: usize,
    pub blob_cache_bytes: usize,
    pub write_buffer_bytes: usize,
    pub rate_limit_bytes_per_sec: Option<u64>,
}

/// `a * b`, or `usize::MAX` when the product does not fit.
pub open spec fn saturating_mul_usize(a: usize, b: usize) -> usize {
    if a * b <= usize::MAX {
        (a * b) as usize
    } else {
        usize::MAX
    }
}

/// The blob cache is sized at 3/4 of the block cache, floored at
/// [`DA_1500_BLOB_CACHE_MIN_BYTES`].
pub open spec fn blob_cache_size(block_cache_bytes: usize) -> usize {
    let three_quarters = (saturating_mul_usize(block_cache_bytes, 3) / 4) as usize;
    if three_quarters >= DA_1500_BLOB_CACHE_MIN_BYTES {
        three_quarters
    } else {
        DA_1500_BLOB_CACHE_MIN_BYTES
    }
}

impl RocksDbResources {
    /// Budgets for `block_cache_bytes` of block cache and `write_buffer_bytes` of memtables,
    /// with the blob cache derived from the block cache.
    pub fn new(block_cache_bytes: usize, write_buffer_bytes: usize, rate_limit_bytes_per_sec: Option<u64>) -> (r: Self)
        ensures
            r.block_cache_bytes == block_cache_bytes,
            r.blob_cache_bytes == blob_cache_size(block_cache_bytes),
            r.write_buffer_bytes == write_buffer_bytes,
            r.rate_limit_bytes_per_sec == rate_limit_bytes_per_sec,
    {
        let tripled = match block_cache_bytes.checked_mul(3) {
            Some(v) => v,
            None => usize::MAX,
        };
        let three_quarters = tripled / 4;
        let blob = if three_quarters >= DA_1500_BLOB_CACHE_MIN_BYTES {
            three_quarters
        } else {
            DA_1500_BLOB_CACHE_MIN_BYTES
        };
        RocksDbResources { block_cache_bytes, blob_cache_bytes: blob, write_buffer_bytes, rate_limit_bytes_per_sec }
    }
}

/// The available presets.
#[derive(Debug, Clone, Copy, PartialEq, Eq, Structural)]
pub enum RocksDbPreset {
    /// Balanced for SSD/NVMe: 64MB write buffer, standard compression, blob files for large values.
    Default,
    /// Hard disk drives: 256MB write buffer, LZ4 + ZSTD, blob files, autotuned rate limiting.
    Hdd,
    /// Hard disks behind queue-depth-1 transports (USB Bulk-Only Transport, no NCQ).
    HddQd1,
}

impl Default for RocksDbPreset {
    fn default() -> (r: Self)
        ensures
            r == RocksDbPreset::Default,
    {
        RocksDbPreset::Default
    }
}

/// The name a preset is written as.
pub open spec fn preset_name(p: RocksDbPreset) -> Seq<char> {
    match p {
        RocksDbPreset::Default => "default"@,
        RocksDbPreset::Hdd => "hdd"@,
        RocksDbPreset::HddQd1 => "hdd-qd1"@,
    }
}

/// The preset that a lower-cased name selects, if any. `hdd_qd1` is accepted as an alias.
pub open spec fn preset_of_lowercase(l: Seq<char>) -> Option<RocksDbPreset> {
    if l == "default"@ {
        Some(RocksDbPreset::Default)
    } else if l == "hdd"@ {
        Some(RocksDbPreset::Hdd)
    } else if l == "hdd-qd1"@ || l == "hdd_qd1"@ {
        Some(RocksDbPreset::HddQd1)
    } else {
        None
    }
}

/// The error message for an unknown preset name `s`.
pub open spec fn unknown_preset_message(s: Seq<char>) -> Seq<char> {
    "Unknown RocksDB preset: '"@ + s + "'. Valid options: default, hdd, hdd-qd1"@
}

/// The Unicode lower-case mapping of a string, as `str::to_lowercase` computes it.
pub uninterp spec fn unicode_lowercase(s: Seq<char>) -> Seq<char>;

/// The lower-case of an ASCII character: `A`..`Z` map to `a`..`z`, everything else is kept.
pub open spec fn ascii_lower_char(c: char) -> char {
    if 'A' <= c && c <= 'Z' {
        ((c as u32) + 32) as char
    } else {
        c
    }
}

/// Whether every character of `s` is ASCII.
pub open spec fn all_ascii(s: Seq<char>) -> bool {
    forall|i: int| 0 <= i < s.len() ==> (s[i] as u32) < 128
}

/// `str::to_lowercase`. Its result is named by [`unicode_lowercase`]; for an all-ASCII input the
/// standard library documents the plain ASCII mapping (`A`..`Z` to `a`..`z`, all other ASCII
/// characters unchanged), which is stated here. Nothing is claimed of non-ASCII input beyond the
/// name.
#[verifier::external_body]
fn str_to_lowercase(s: &str) -> (r: String)
    ensures
        r@ == unicode_lowercase(s@),
        all_ascii(s@) ==> r@ == s@.map_values(|c: char| ascii_lower_char(c)),
{
    s.to_lowercase()
}

impl RocksDbPreset {
    /// Parses a preset from its name, ignoring case. An unknown name is an error carrying the
    /// message that lists the valid names.
    pub fn from_str(s: &str) -> (r: Result<RocksDbPreset, String>)
        ensures
            match preset_of_lowercase(unicode_lowercase(s@)) {
                Some(p) => r == Ok::<RocksDbPreset, String>(p),
                None => r is Err && r->Err_0@ == unknown_preset_message(s@),
            },
            all_ascii(s@) ==> match preset_of_lowercase(s@.map_values(|c: char| ascii_lower_char(c))) {
                Some(p) => r == Ok::<RocksDbPreset, String>(p),
                None => r is Err && r->Err_0@ == unknown_preset_message(s@),
            },
    {
        let lowered = str_to_lowercase(s);
        Self::from_lowercase(lowered.as_str(), s)
    }

    /// The second half of [`RocksDbPreset::from_str`]: selects the preset named by the already
    /// lower-cased `lowered`; `original` is the text the error message quotes.
    pub fn from_lowercase(lowered: &str, original: &str) -> (r: Result<RocksDbPreset, String>)
        ensures
            match preset_of_lowercase(lowered@) {
                Some(p) => r == Ok::<RocksDbPreset, String>(p),
                None => r is Err && r->Err_0@ == unknown_preset_message(original@),
            },
    {
        let l = String::from_str(lowered);
        if l == String::from_str("default") {
            Ok(RocksDbPreset::Default)
        } else if l == String::from_str("hdd") {
            Ok(RocksDbPreset::Hdd)
        } else if l == String::from_str("hdd-qd1") || l == String::from_str("hdd_qd1") {
            Ok(RocksDbPreset::HddQd1)
        } else {
            let mut m = String::from_str("Unknown RocksDB preset: '");
            m.append(original);
            m.append("'. Valid options: default, hdd, hdd-qd1");
            Err(m)
        }
    }

    /// The preset's name, as it is displayed and parsed.
    pub fn name(&self) -> (r: &'static str)
        ensures
            r@ == preset_name(*self),
    {
        match self {
            RocksDbPreset::Default => "default",
            RocksDbPreset::Hdd => "hdd",
            RocksDbPreset::HddQd1 => "hdd-qd1",
        }
    }

    /// The preset's name as an owned string (its display form).
    pub fn to_string(&self) -> (r: String)
        ensures
            r@ == preset_name(*self),
    {
        String::from_str(self.name())
    }

    /// A human-readable description of the preset.
    pub fn description(&self) -> (r: &'static str)
        ensures
            r@ == match *self {
                RocksDbPreset::Default => "Default preset - balanced for SSD/NVMe (64MB write buffer, BlobDB for large values)"@,
                RocksDbPreset::Hdd => "HDD preset - optimized for hard disk drives (256MB write buffer, BlobDB, aggressive compression, autotuned rate limiting)"@,
                RocksDbPreset::HddQd1 => "HDD queue-depth-1 preset - for USB BOT / no-NCQ disks (single compaction thread, large readahead, all files open)"@,
            },
    {
        match self {
            RocksDbPreset::Default => "Default preset - balanced for SSD/NVMe (64MB write buffer, BlobDB for large values)",
            RocksDbPreset::Hdd => {
                "HDD preset - optimized for hard disk drives (256MB write buffer, BlobDB, aggressive compression, autotuned rate limiting)"
            },
            RocksDbPreset::HddQd1 => {
                "HDD queue-depth-1 preset - for USB BOT / no-NCQ disks (single compaction thread, large readahead, all files open)"
            },
        }
    }

    /// The recommended use case of the preset.
    pub fn use_case(&self) -> (r: &'static str)
        ensures
            r@ == match *self {
                RocksDbPreset::Default => "General purpose nodes on SSD/NVMe storage"@,
                RocksDbPreset::Hdd => "Archival nodes on HDD storage (--archival flag recommended)"@,
                RocksDbPreset::HddQd1 => "Nodes whose datadir sits behind USB Bulk-Only Transport or another QD1 link"@,
            },
    {
        match self {
            RocksDbPreset::Default => "General purpose nodes on SSD/NVMe storage",
            RocksDbPreset::Hdd => "Archival nodes on HDD storage (--archival flag recommended)",
            RocksDbPreset::HddQd1 => "Nodes whose datadir sits behind USB Bulk-Only Transport or another QD1 link",
        }
    }

    /// The memory requirements of the preset.
    pub fn memory_requirements(&self) -> (r: &'static str)
        ensures
            r@ == match *self {
                RocksDbPreset::Default => "~4GB minimum, scales with --ram-scale"@,
                _ => "~4GB minimum (256MB write buffer + 256MB cache + overhead), 8GB+ recommended for public RPC"@,
            },
    {
        match self {
            RocksDbPreset::Default => "~4GB minimum, scales with --ram-scale",
            RocksDbPreset::Hdd | RocksDbPreset::HddQd1 => {
                "~4GB minimum (256MB write buffer + 256MB cache + overhead), 8GB+ recommended for public RPC"
            },
        }
    }
}


/// Which block cache a block-based table uses.
#[derive(Debug, Clone, Copy, PartialEq, Eq, Structural)]
pub enum BlockCacheChoice {
    /// The engine's own default.
    EngineDefault,
    /// The process-wide block cache of the shared [`RocksDbResources`].
    Shared,
    /// A cache of its own of the given size in bytes.
    LocalLru(usize),
}

/// Compression algorithms the presets use.
#[derive(Debug, Clone, Copy, PartialEq, Eq, Structural)]
pub enum CompressionKind {
    Lz4,
    Zstd,
}

/// Block-based table options.
#[derive(Debug, Clone, Copy, PartialEq, Eq, Structural)]
pub struct BlockTableOptions {
    /// Bloom filter bits per key (the filter is never block-based).
    pub bloom_bits_per_key: u32,
    pub partition_filters: bool,
    pub format_version: i32,
    /// Two-level index search instead of the default binary search index.
    pub two_level_index: bool,
    pub cache_index_and_filter_blocks: bool,
    pub pin_l0_filter_and_index_blocks: bool,
    pub block_cache: BlockCacheChoice,
    /// Data block size; `None` keeps the engine default.
    pub block_size: Option<usize>,
}

/// One option setting, applied in plan order. Fractions are given in percent.
#[derive(Debug, Clone, Copy, PartialEq, Eq, Structural)]
pub enum RocksDbSetting {
    IncreaseParallelism(usize),
    OptimizeLevelStyleCompaction(usize),
    WriteBufferSize(usize),
    MaxWriteBufferNumber(i32),
    TargetFileSizeBase(u64),
    TargetFileSizeMultiplier(i32),
    MaxBytesForLevelBase(u64),
    LevelCompactionDynamicLevelBytes(bool),
    Level0FileNumCompactionTrigger(i32),
    /// Compaction priority "oldest smallest sequence first".
    CompactionPriOldestSmallestSeqFirst,
    CompactionReadaheadSize(usize),
    CompressionType(CompressionKind),
    BottommostCompressionType(CompressionKind),
    /// (window bits, level, strategy, dictionary bytes, enabled)
    BottommostCompressionOptions(i32, i32, i32, i32, bool),
    /// (max train bytes, enabled)
    BottommostZstdMaxTrainBytes(i32, bool),
    BlockBasedTable(BlockTableOptions),
    /// (rate bytes per second, refill period in microseconds, fairness)
    AutoTunedRateLimiter(u64, i64, i32),
    EnableBlobFiles(bool),
    MinBlobSize(u64),
    BlobFileSize(u64),
    BlobCompressionType(CompressionKind),
    EnableBlobGc(bool),
    BlobGcAgeCutoffPercent(u32),
    BlobGcForceThresholdPercent(u32),
    BlobCompactionReadaheadSize(u64),
    /// Use the blob cache of the shared [`RocksDbResources`].
    SharedBlobCache,
    /// Use the memtable budget of the shared [`RocksDbResources`].
    SharedWriteBufferManager,
    BytesPerSync(u64),
    WalBytesPerSync(u64),
    AvoidUnnecessaryBlockingIo(bool),
    MaxBackgroundJobs(i32),
    MaxSubcompactions(u32),
    MaxOpenFiles(i32),
    OptimizeFiltersForHits(bool),
}

/// Background parallelism is raised only above one thread.
pub open spec fn parallelism_settings(parallelism: usize) -> Seq<RocksDbSetting> {
    if parallelism > 1 {
        seq![RocksDbSetting::IncreaseParallelism(parallelism)]
    } else {
        seq![]
    }
}

/// The shared blob cache and memtable budget, when resources are shared.
pub open spec fn shared_budget_settings(shared: bool) -> Seq<RocksDbSetting> {
    if shared {
        seq![RocksDbSetting::SharedBlobCache, RocksDbSetting::SharedWriteBufferManager]
    } else {
        seq![]
    }
}

/// The default preset's plan.
pub open spec fn default_plan(parallelism: usize, mem_budget: usize, shared: bool, blob_files_disabled: bool) -> Seq<RocksDbSetting> {
    parallelism_settings(parallelism) + seq![
        RocksDbSetting::OptimizeLevelStyleCompaction(mem_budget),
        RocksDbSetting::MaxWriteBufferNumber(4),
        RocksDbSetting::BlockBasedTable(BlockTableOptions {
            bloom_bits_per_key: 10,
            partition_filters: false,
            format_version: 5,
            two_level_index: false,
            cache_index_and_filter_blocks: shared,
            pin_l0_filter_and_index_blocks: shared,
            block_cache: if shared { BlockCacheChoice::Shared } else { BlockCacheChoice::EngineDefault },
            block_size: None,
        }),
    ] + (if blob_files_disabled {
        seq![]
    } else {
        seq![
            RocksDbSetting::EnableBlobFiles(true),
            RocksDbSetting::MinBlobSize(BLOB_MIN_VALUE_BYTES),
            RocksDbSetting::BlobFileSize(SSD_BLOB_FILE_BYTES),
            RocksDbSetting::BlobCompressionType(CompressionKind::Lz4),
            RocksDbSetting::EnableBlobGc(true),
            RocksDbSetting::BlobGcAgeCutoffPercent(25),
            RocksDbSetting::BlobGcForceThresholdPercent(20),
        ]
    }) + shared_budget_settings(shared) + seq![
        RocksDbSetting::BytesPerSync(2097152),
        RocksDbSetting::WalBytesPerSync(2097152),
        RocksDbSetting::AvoidUnnecessaryBlockingIo(true),
    ]
}

/// The HDD preset's plan. `rate_limit` is the configured background-write limit, if any.
pub open spec fn hdd_plan(parallelism: usize, shared: bool, rate_limit: Option<u64>, blob_files_disabled: bool) -> Seq<RocksDbSetting> {
    parallelism_settings(parallelism) + seq![
        RocksDbSetting::OptimizeLevelStyleCompaction(268435456),
        RocksDbSetting::WriteBufferSize(268435456),
        RocksDbSetting::MaxWriteBufferNumber(3),
        RocksDbSetting::TargetFileSizeBase(268435456),
        RocksDbSetting::TargetFileSizeMultiplier(1),
        RocksDbSetting::MaxBytesForLevelBase(1073741824),
        RocksDbSetting::LevelCompactionDynamicLevelBytes(true),
        RocksDbSetting::Level0FileNumCompactionTrigger(4),
        RocksDbSetting::CompactionPriOldestSmallestSeqFirst,
        RocksDbSetting::CompactionReadaheadSize(4194304),
        RocksDbSetting::CompressionType(CompressionKind::Lz4),
        RocksDbSetting::BottommostCompressionType(CompressionKind::Zstd),
        RocksDbSetting::BottommostCompressionOptions(-1i32, HDD_BOTTOMMOST_ZSTD_LEVEL, 0, 65536, true),
        RocksDbSetting::BottommostZstdMaxTrainBytes(8388608, true),
        RocksDbSetting::BlockBasedTable(BlockTableOptions {
            bloom_bits_per_key: 18,
            partition_filters: true,
            format_version: 5,
            two_level_index: true,
            cache_index_and_filter_blocks: true,
            pin_l0_filter_and_index_blocks: true,
            block_cache: if shared { BlockCacheChoice::Shared } else { BlockCacheChoice::LocalLru(268435456) },
            block_size: Some(262144),
        }),
        RocksDbSetting::AutoTunedRateLimiter(
            match rate_limit {
                Some(r) => r,
                None => DEFAULT_HDD_RATE_LIMIT_BYTES_PER_SEC,
            },
            100_000,
            10,
        ),
    ] + (if blob_files_disabled {
        seq![]
    } else {
        seq![
            RocksDbSetting::EnableBlobFiles(true),
            RocksDbSetting::MinBlobSize(BLOB_MIN_VALUE_BYTES),
            RocksDbSetting::BlobFileSize(268435456),
            RocksDbSetting::BlobCompressionType(CompressionKind::Zstd),
            RocksDbSetting::EnableBlobGc(true),
            RocksDbSetting::BlobGcAgeCutoffPercent(25),
            RocksDbSetting::BlobGcForceThresholdPercent(10),
            RocksDbSetting::BlobCompactionReadaheadSize(8388608),
        ]
    }) + shared_budget_settings(shared)
}

/// The queue-depth-1 preset's plan: the HDD plan at parallelism one, then the concurrency and
/// readahead constraints.
pub open spec fn hdd_qd1_plan(shared: bool, rate_limit: Option<u64>, blob_files_disabled: bool) -> Seq<RocksDbSetting> {
    hdd_plan(1, shared, rate_limit, blob_files_disabled) + seq![
        RocksDbSetting::MaxBackgroundJobs(2),
        RocksDbSetting::MaxSubcompactions(1),
        RocksDbSetting::CompactionReadaheadSize(16777216),
        RocksDbSetting::BlobCompactionReadaheadSize(16777216),
        RocksDbSetting::BlobFileSize(536870912),
        RocksDbSetting::MaxOpenFiles(-1i32),
        RocksDbSetting::OptimizeFiltersForHits(true),
        RocksDbSetting::AvoidUnnecessaryBlockingIo(true),
        RocksDbSetting::BytesPerSync(1048576),
        RocksDbSetting::WalBytesPerSync(1048576),
    ]
}

/// The rate limit carried by optional resources.
pub open spec fn rate_limit_of(resources: Option<RocksDbResources>) -> Option<u64> {
    match resources {
        Some(r) => r.rate_limit_bytes_per_sec,
        None => None,
    }
}

/// The plan of `preset`. `mem_budget` is used by the default preset only; the HDD presets use a
/// fixed 256MB write buffer. `resources` are the shared budgets (absent for tests and tooling,
/// which keep per-connection defaults); `blob_files_disabled` is the process-wide blob-file
/// kill switch.
pub open spec fn preset_plan(
    preset: RocksDbPreset,
    parallelism: usize,
    mem_budget: usize,
    resources: Option<RocksDbResources>,
    blob_files_disabled: bool,
) -> Seq<RocksDbSetting> {
    match preset {
        RocksDbPreset::Default => default_plan(parallelism, mem_budget, resources is Some, blob_files_disabled),
        RocksDbPreset::Hdd => hdd_plan(parallelism, resources is Some, rate_limit_of(resources), blob_files_disabled),
        RocksDbPreset::HddQd1 => hdd_qd1_plan(resources is Some, rate_limit_of(resources), blob_files_disabled),
    }
}

/// The background-write limit an HDD plan sets: the configured ceiling when resources carry one,
/// 48 MiB/s otherwise.
pub open spec fn hdd_rate_limit(resources: Option<RocksDbResources>) -> u64 {
    match resources {
        Some(r) => match r.rate_limit_bytes_per_sec {
            Some(rate) => rate,
            None => 50_331_648u64,
        },
        None => 50_331_648u64,
    }
}

/// The HDD presets honour the configured rate limit: their plan sets the auto-tuned rate limiter
/// at the configured ceiling (`--rocksdb-rate-limit-mb`) when the resources carry one, and at the
/// 48 MiB/s default only when none is configured; every rate limiter the plan sets is that one.
pub proof fn lemma_hdd_plans_honour_the_rate_limit(
    preset: RocksDbPreset,
    parallelism: usize,
    mem_budget: usize,
    resources: Option<RocksDbResources>,
    blob_files_disabled: bool,
)
    requires
        preset != RocksDbPreset::Default,
    ensures
        ({
            let plan = preset_plan(preset, parallelism, mem_budget, resources, blob_files_disabled);
            let limiter = RocksDbSetting::AutoTunedRateLimiter(hdd_rate_limit(resources), 100_000, 10);
            &&& exists|i: int| 0 <= i < plan.len() && plan[i] == limiter
            &&& forall|i: int| 0 <= i < plan.len() && (#[trigger] plan[i] matches RocksDbSetting::AutoTunedRateLimiter(_, _, _))
                ==> plan[i] == limiter
        }),
{
    let plan = preset_plan(preset, parallelism, mem_budget, resources, blob_files_disabled);
    let limiter = RocksDbSetting::AutoTunedRateLimiter(hdd_rate_limit(resources), 100_000, 10);
    let p = if preset == RocksDbPreset::Hdd { parallelism } else { 1 };
    let shared = resources is Some;
    let rate = rate_limit_of(resources);
    let a = parallelism_settings(p);
    let n = a.len() as int;
    let base = hdd_plan(p, shared, rate, blob_files_disabled);
    assert(DEFAULT_HDD_RATE_LIMIT_BYTES_PER_SEC == 50_331_648u64);
    assert(base[n + 15] == limiter);
    assert forall|i: int| 0 <= i < base.len() && (#[trigger] base[i] matches RocksDbSetting::AutoTunedRateLimiter(_, _, _))
        implies base[i] == limiter by {
        if i < n {
        } else if i < n + 16 {
            assert(i == n + 15);
        }
    }
    if preset == RocksDbPreset::Hdd {
        assert(plan == base);
    } else {
        assert(plan == base + seq![
            RocksDbSetting::MaxBackgroundJobs(2),
            RocksDbSetting::MaxSubcompactions(1),
            RocksDbSetting::CompactionReadaheadSize(16777216),
            RocksDbSetting::BlobCompactionReadaheadSize(16777216),
            RocksDbSetting::BlobFileSize(536870912),
            RocksDbSetting::MaxOpenFiles(-1i32),
            RocksDbSetting::OptimizeFiltersForHits(true),
            RocksDbSetting::AvoidUnnecessaryBlockingIo(true),
            RocksDbSetting::BytesPerSync(1048576),
            RocksDbSetting::WalBytesPerSync(1048576),
        ]);
        assert(plan[n + 15] == base[n + 15]);
        assert forall|i: int| 0 <= i < plan.len() && (#[trigger] plan[i] matches RocksDbSetting::AutoTunedRateLimiter(_, _, _))
            implies plan[i] == limiter by {
            if i < base.len() {
                assert(plan[i] == base[i]);
            }
        }
    }
}

fn push_parallelism(plan: &mut Vec<RocksDbSetting>, parallelism: usize)
    ensures
        final(plan)@ == old(plan)@ + parallelism_settings(parallelism),
{
    if parallelism > 1 {
        plan.push(RocksDbSetting::IncreaseParallelism(parallelism));
    }
    assert(final(plan)@ =~= old(plan)@ + parallelism_settings(parallelism));
}

fn push_shared_budgets(plan: &mut Vec<RocksDbSetting>, shared: bool)
    ensures
        final(plan)@ == old(plan)@ + shared_budget_settings(shared),
{
    if shared {
        plan.push(RocksDbSetting::SharedBlobCache);
        plan.push(RocksDbSetting::SharedWriteBufferManager);
    }
    assert(final(plan)@ =~= old(plan)@ + shared_budget_settings(shared));
}

impl RocksDbPreset {
    /// The option plan of this preset; see [`preset_plan`].
    pub fn apply_to_options(
        &self,
        parallelism: usize,
        mem_budget: usize,
        resources: Option<&RocksDbResources>,
        blob_files_disabled: bool,
    ) -> (plan: Vec<RocksDbSetting>)
        ensures
            plan@ == preset_plan(
                *self,
                parallelism,
                mem_budget,
                match resources {
                    Some(r) => Some(*r),
                    None => None,
                },
                blob_files_disabled,
            ),
    {
        let shared = resources.is_some();
        let rate_limit = match resources {
            Some(r) => r.rate_limit_bytes_per_sec,
            None => None,
        };
        match self {
            RocksDbPreset::Default => Self::apply_default(parallelism, mem_budget, shared, blob_files_disabled),
            RocksDbPreset::Hdd => Self::apply_hdd(parallelism, shared, rate_limit, blob_files_disabled),
            RocksDbPreset::HddQd1 => Self::apply_hdd_qd1(shared, rate_limit, blob_files_disabled),
        }
    }

    fn apply_default(parallelism: usize, mem_budget: usize, shared: bool, blob_files_disabled: bool) -> (plan: Vec<RocksDbSetting>)
        ensures
            plan@ == default_plan(parallelism, mem_budget, shared, blob_files_disabled),
    {
        let mut plan: Vec<RocksDbSetting> = Vec::new();
        push_parallelism(&mut plan, parallelism);
        let ghost p0 = plan@;
        plan.push(RocksDbSetting::OptimizeLevelStyleCompaction(mem_budget));
        plan.push(RocksDbSetting::MaxWriteBufferNumber(4));
        plan.push(RocksDbSetting::BlockBasedTable(BlockTableOptions {
            bloom_bits_per_key: 10,
            partition_filters: false,
            format_version: 5,
            two_level_index: false,
            cache_index_and_filter_blocks: shared,
            pin_l0_filter_and_index_blocks: shared,
            block_cache: if shared { BlockCacheChoice::Shared } else { BlockCacheChoice::EngineDefault },
            block_size: None,
        }));
        let ghost p1 = plan@;
        if !blob_files_disabled {
            plan.push(RocksDbSetting::EnableBlobFiles(true));
            plan.push(RocksDbSetting::MinBlobSize(BLOB_MIN_VALUE_BYTES));
            plan.push(RocksDbSetting::BlobFileSize(SSD_BLOB_FILE_BYTES));
            plan.push(RocksDbSetting::BlobCompressionType(CompressionKind::Lz4));
            plan.push(RocksDbSetting::EnableBlobGc(true));
            plan.push(RocksDbSetting::BlobGcAgeCutoffPercent(25));
            plan.push(RocksDbSetting::BlobGcForceThresholdPercent(20));
        }
        let ghost p2 = plan@;
        push_shared_budgets(&mut plan, shared);
        let ghost p3 = plan@;
        plan.push(RocksDbSetting::BytesPerSync(2 * 1024 * 1024));
        plan.push(RocksDbSetting::WalBytesPerSync(2 * 1024 * 1024));
        plan.push(RocksDbSetting::AvoidUnnecessaryBlockingIo(true));
        assert(plan@ =~= default_plan(parallelism, mem_budget, shared, blob_files_disabled));
        plan
    }

    fn apply_hdd(parallelism: usize, shared: bool, rate_limit: Option<u64>, blob_files_disabled: bool) -> (plan: Vec<RocksDbSetting>)
        ensures
            plan@ == hdd_plan(parallelism, shared, rate_limit, blob_files_disabled),
    {
        let mut plan: Vec<RocksDbSetting> = Vec::new();
        push_parallelism(&mut plan, parallelism);
        plan.push(RocksDbSetting::OptimizeLevelStyleCompaction(256 * 1024 * 1024));
        plan.push(RocksDbSetting::WriteBufferSize(256 * 1024 * 1024));
        plan.push(RocksDbSetting::MaxWriteBufferNumber(3));
        plan.push(RocksDbSetting::TargetFileSizeBase(256 * 1024 * 1024));
        plan.push(RocksDbSetting::TargetFileSizeMultiplier(1));
        plan.push(RocksDbSetting::MaxBytesForLevelBase(1024 * 1024 * 1024));
        plan.push(RocksDbSetting::LevelCompactionDynamicLevelBytes(true));
        plan.push(RocksDbSetting::Level0FileNumCompactionTrigger(4));
        plan.push(RocksDbSetting::CompactionPriOldestSmallestSeqFirst);
        plan.push(RocksDbSetting::CompactionReadaheadSize(4 * 1024 * 1024));
        plan.push(RocksDbSetting::CompressionType(CompressionKind::Lz4));
        plan.push(RocksDbSetting::BottommostCompressionType(CompressionKind::Zstd));
        plan.push(RocksDbSetting::BottommostCompressionOptions(-1, HDD_BOTTOMMOST_ZSTD_LEVEL, 0, 64 * 1024, true));
        plan.push(RocksDbSetting::BottommostZstdMaxTrainBytes(8 * 1024 * 1024, true));
        plan.push(RocksDbSetting::BlockBasedTable(BlockTableOptions {
            bloom_bits_per_key: 18,
            partition_filters: true,
            format_version: 5,
            two_level_index: true,
            cache_index_and_filter_blocks: true,
            pin_l0_filter_and_index_blocks: true,
            block_cache: if shared { BlockCacheChoice::Shared } else { BlockCacheChoice::LocalLru(256 * 1024 * 1024) },
            block_size: Some(256 * 1024),
        }));
        let rate = match rate_limit {
            Some(r) => r,
            None => DEFAULT_HDD_RATE_LIMIT_BYTES_PER_SEC,
        };
        plan.push(RocksDbSetting::AutoTunedRateLimiter(rate, 100_000, 10));
        if !blob_files_disabled {
            plan.push(RocksDbSetting::EnableBlobFiles(true));
            plan.push(RocksDbSetting::MinBlobSize(BLOB_MIN_VALUE_BYTES));
            plan.push(RocksDbSetting::BlobFileSize(256 * 1024 * 1024));
            plan.push(RocksDbSetting::BlobCompressionType(CompressionKind::Zstd));
            plan.push(RocksDbSetting::EnableBlobGc(true));
            plan.push(RocksDbSetting::BlobGcAgeCutoffPercent(25));
            plan.push(RocksDbSetting::BlobGcForceThresholdPercent(10));
            plan.push(RocksDbSetting::BlobCompactionReadaheadSize(8 * 1024 * 1024));
        }
        push_shared_budgets(&mut plan, shared);
        assert(plan@ =~= hdd_plan(parallelism, shared, rate_limit, blob_files_disabled));
        plan
    }

    fn apply_hdd_qd1(shared: bool, rate_limit: Option<u64>, blob_files_disabled: bool) -> (plan: Vec<RocksDbSetting>)
        ensures
            plan@ == hdd_qd1_plan(shared, rate_limit, blob_files_disabled),
    {
        let mut plan = Self::apply_hdd(1, shared, rate_limit, blob_files_disabled);
        plan.push(RocksDbSetting::MaxBackgroundJobs(2));
        plan.push(RocksDbSetting::MaxSubcompactions(1));
        plan.push(RocksDbSetting::CompactionReadaheadSize(16 * 1024 * 1024));
        plan.push(RocksDbSetting::BlobCompactionReadaheadSize(16 * 1024 * 1024));
        plan.push(RocksDbSetting::BlobFileSize(512 * 1024 * 1024));
        plan.push(RocksDbSetting::MaxOpenFiles(-1));
        plan.push(RocksDbSetting::OptimizeFiltersForHits(true));
        plan.push(RocksDbSetting::AvoidUnnecessaryBlockingIo(true));
        plan.push(RocksDbSetting::BytesPerSync(1024 * 1024));
        plan.push(RocksDbSetting::WalBytesPerSync(1024 * 1024));
        assert(plan@ =~= hdd_qd1_plan(shared, rate_limit, blob_files_disabled));
        plan
    }
}

/// Parsing the displayed name of a preset gives the preset back: names are lower-case ASCII,
/// so lower-casing leaves them unchanged.
pub proof fn lemma_name_parses_back(p: RocksDbPreset, lowered: Seq<char>)
    requires
        lowered == preset_name(p).map_values(|c: char| ascii_lower_char(c)),
    ensures
        preset_of_lowercase(lowered) == Some(p),
{
    reveal_strlit("default");
    reveal_strlit("hdd");
    reveal_strlit("hdd-qd1");
    reveal_strlit("hdd_qd1");
    let name = preset_name(p);
    assert forall|i: int| 0 <= i < name.len() implies ascii_lower_char(#[trigger] name[i]) == name[i] by {
        match p {
            RocksDbPreset::Default => {
                assert(name[i] == 'd' || name[i] == 'e' || name[i] == 'f' || name[i] == 'a' || name[i] == 'u'
                    || name[i] == 'l' || name[i] == 't');
            },
            RocksDbPreset::Hdd => {
                assert(name[i] == 'h' || name[i] == 'd');
            },
            RocksDbPreset::HddQd1 => {
                assert(name[i] == 'h' || name[i] == 'd' || name[i] == '-' || name[i] == 'q' || name[i] == '1');
            },
        }
    }
    assert(lowered =~= name);
    assert("default"@.len() == 7 && "hdd"@.len() == 3 && "hdd-qd1"@.len() == 7);
    if p == RocksDbPreset::HddQd1 {
        assert(name[0] != "default"@[0]);
    }
}

} // verus!
