//! Rules of the virtual-state processor that decide, per block or per commit, what is checked,
//! trusted or counted: the coinbase trust windows, the hardfork banners, the reward tables of an
//! era, the tier and holder-ratio inputs of a rewarded blue, the production window of a block,
//! and the coin-age self-check schedule.

use vstd::prelude::*;
use crate::hash::{ForkActivation, Hash32};
use crate::service_bond::{chain_index_at_or_below_daa, is_index_at_or_below, nondecreasing_on};
use crate::coin_age::{balance_store_of, Spk, UtxoEntry};
use crate::ai_rules::{
    check_ai_request_inference_rewards, check_ai_request_payload_rules_all, check_ai_response_model_caps, spec_all_rules_from,
    spec_full_rules_from, spec_model_caps, request_hash_of, verdict, AiRequestRules, AiRuleError, AiRuleFault, Transaction, TxKind,
};

verus! {

/// `a - b`, or zero when `b` exceeds `a`.
pub open spec fn saturating_diff(a: u64, b: u64) -> u64 {
    if a >= b {
        (a - b) as u64
    } else {
        0
    }
}

// ---------------------------------------------------------------------------------------------
// Trust windows and checks

/// Whether the node is inside its post-import catch-up window: a pruning-point import seeded the
/// production index at chain index `seeded_at` (`None`: never imported), and fewer than `window`
/// chain blocks were committed since, up to the selected-chain tip `tip_index` (`None`: no tip).
pub open spec fn spec_in_production_catchup_window(seeded_at: Option<u64>, tip_index: Option<u64>, window: u64) -> bool {
    match (seeded_at, tip_index) {
        (Some(s), Some(t)) => saturating_diff(t, s) < window,
        _ => false,
    }
}

/// Whether the node is inside its post-import catch-up window.
pub fn in_production_catchup_window(seeded_at: Option<u64>, tip_index: Option<u64>, window: u64) -> (r: bool)
    ensures
        r == spec_in_production_catchup_window(seeded_at, tip_index, window),
{
    match seeded_at {
        None => false,
        Some(s) => match tip_index {
            None => false,
            Some(t) => t.saturating_sub(s) < window,
        },
    }
}

/// Whether the ratio/tier coinbase checks are skipped: on an archival node, when the operator
/// asked for it (`KERYX_TRUST_COINBASE`), or inside the catch-up window.
pub fn trust_coinbase(is_archival: bool, trust_coinbase_env: bool, in_catchup_window: bool) -> (r: bool)
    ensures
        r == (is_archival || trust_coinbase_env || in_catchup_window),
{
    is_archival || trust_coinbase_env || in_catchup_window
}

/// What is done with a block's coinbase.
#[derive(Debug, Clone, Copy, PartialEq, Eq, Structural)]
pub enum CoinbaseCheck {
    /// Compute the expected coinbase and reject the block on a mismatch.
    Enforce,
    /// Compute the expected coinbase and only log a mismatch.
    Observe,
    /// Do not compute it.
    Skip,
}

/// The coinbase check of a block: enforced once ratio verification is active and the coinbase
/// is not trusted; observed when only ratio debugging asks for it (outside trust); skipped
/// otherwise.
pub fn coinbase_check(ratio_verification_active: bool, trust_coinbase: bool, ratio_debug: bool) -> (r: CoinbaseCheck)
    ensures
        r == (if ratio_verification_active && !trust_coinbase {
            CoinbaseCheck::Enforce
        } else if ratio_debug && !trust_coinbase {
            CoinbaseCheck::Observe
        } else {
            CoinbaseCheck::Skip
        }),
{
    if ratio_verification_active && !trust_coinbase {
        CoinbaseCheck::Enforce
    } else if ratio_debug && !trust_coinbase {
        CoinbaseCheck::Observe
    } else {
        CoinbaseCheck::Skip
    }
}

/// Whether the header's sealed service-state commitment is checked: while service commitments
/// are active and the coinbase is not trusted.
pub fn checks_service_commitment(service_commit_active: bool, trust_coinbase: bool) -> (r: bool)
    ensures
        r == (service_commit_active && !trust_coinbase),
{
    service_commit_active && !trust_coinbase
}

/// Max DAA a block may sit past a gate and still fire its activation banner.
pub const BANNER_MAX_LAG: u64 = 864_000;

/// Max wall-clock age, in milliseconds, of a crossing block for its banner to count as live.
pub const BANNER_LIVE_WINDOW_MS: u64 = 3_600_000;

/// Whether a hardfork banner fires for a block at `daa_score` with timestamp `timestamp` (ms),
/// seen at wall-clock `now` (ms): the activation is a real fork (above zero) and active at the block,
/// the block lies within the lag window past the activation, and it is recent.
pub open spec fn spec_banner_should_fire(activation: ForkActivation, daa_score: u64, timestamp: u64, now: u64) -> bool {
    &&& activation.active_at(daa_score)
    &&& activation.daa_score > 0
    &&& daa_score < activation.daa_score + BANNER_MAX_LAG
    &&& saturating_diff(now, timestamp) < BANNER_LIVE_WINDOW_MS
}

/// Whether a hardfork banner fires for this block.
pub fn banner_should_fire(activation: ForkActivation, daa_score: u64, timestamp: u64, now: u64) -> (r: bool)
    requires
        activation.active_at(daa_score) && activation.daa_score > 0 ==> activation.daa_score + BANNER_MAX_LAG <= u64::MAX,
    ensures
        r == spec_banner_should_fire(activation, daa_score, timestamp, now),
{
    activation.is_active(daa_score) && activation.daa_score > 0 && daa_score < activation.daa_score + BANNER_MAX_LAG
        && now.saturating_sub(timestamp) < BANNER_LIVE_WINDOW_MS
}

// ---------------------------------------------------------------------------------------------
// Eras

/// The inference-reward minimum table in force.
#[derive(Debug, Clone, Copy, PartialEq, Eq, Structural)]
pub enum RewardMinimumsTable {
    /// The table of the service-bond era.
    V2H6,
    /// The table of the coin-age era.
    V2H4,
    /// The table raised by the H2 inference minimums.
    V2H2,
    /// The uncensored lineup of OPoI v2.
    V2,
    /// The first table, before any era raised it.
    V1,
}

/// The inference-reward minimum table at `daa_score`: the latest era whose gate is active.
pub fn ai_reward_minimums_table(
    pom_v3_activation: ForkActivation,
    coin_age_activation: ForkActivation,
    inference_min_h2_activation: ForkActivation,
    opoi_v2_activation: ForkActivation,
    daa_score: u64,
) -> (r: RewardMinimumsTable)
    ensures
        r == (if pom_v3_activation.active_at(daa_score) {
            RewardMinimumsTable::V2H6
        } else if coin_age_activation.active_at(daa_score) {
            RewardMinimumsTable::V2H4
        } else if inference_min_h2_activation.active_at(daa_score) {
            RewardMinimumsTable::V2H2
        } else if opoi_v2_activation.active_at(daa_score) {
            RewardMinimumsTable::V2
        } else {
            RewardMinimumsTable::V1
        }),
{
    if pom_v3_activation.is_active(daa_score) {
        RewardMinimumsTable::V2H6
    } else if coin_age_activation.is_active(daa_score) {
        RewardMinimumsTable::V2H4
    } else if inference_min_h2_activation.is_active(daa_score) {
        RewardMinimumsTable::V2H2
    } else if opoi_v2_activation.is_active(daa_score) {
        RewardMinimumsTable::V2
    } else {
        RewardMinimumsTable::V1
    }
}

/// The outpoint whose committed coin-age anchor differs from what re-derivation computes.
pub open spec fn override_txid() -> Seq<u8> {
    seq![
        0xaeu8, 0xb4, 0xe5, 0x36, 0xe4, 0x44, 0x21, 0x04, 0x19, 0xa3, 0xbf, 0x2f, 0xae, 0x8e, 0x58, 0x28,
        0x16, 0xad, 0x36, 0x33, 0x9b, 0xe0, 0xf4, 0x29, 0xc0, 0xea, 0xac, 0x61, 0x1e, 0x3b, 0xca, 0xb3,
    ]
}

/// The committed coin-age anchor of an outpoint whose re-derivation differs from what the
/// canonical chain committed: only output 1 of one historical transaction, anchored at DAA
/// 74 780 462; `None` for every other outpoint.
pub fn historical_anchor_override(transaction_id: &Hash32, index: u32) -> (r: Option<u64>)
    ensures
        r == (if transaction_id@ == override_txid() && index == 1 {
            Some(74_780_462u64)
        } else {
            None
        }),
{
    let txid = Hash32 {
        bytes: [
            0xae, 0xb4, 0xe5, 0x36, 0xe4, 0x44, 0x21, 0x04, 0x19, 0xa3, 0xbf, 0x2f, 0xae, 0x8e, 0x58, 0x28,
            0x16, 0xad, 0x36, 0x33, 0x9b, 0xe0, 0xf4, 0x29, 0xc0, 0xea, 0xac, 0x61, 0x1e, 0x3b, 0xca, 0xb3,
        ],
    };
    assert(txid@ =~= override_txid());
    if index == 1 && transaction_id.equals(&txid) {
        Some(74_780_462)
    } else {
        None
    }
}

// ---------------------------------------------------------------------------------------------
// Rewards of a blue

/// Upper bound of the number of virtual parent candidates considered in one resolve: three
/// times the block parent limit.
pub fn max_virtual_parent_candidates(max_block_parents: usize) -> (r: usize)
    requires
        max_block_parents * 3 <= usize::MAX,
    ensures
        r == max_block_parents * 3,
        r >= max_block_parents,
{
    max_block_parents * 3
}

/// The tier multiplier (bps) of a rewarded blue of proven tier `tier`: the schedule's entry for
/// the tier (`divisor`, the full cut, beyond the schedule), demoted to the floor rate
/// `schedule[0]` when the standing gate is on and the producer is not in good standing.
pub open spec fn spec_tier_bps(schedule: Seq<u64>, tier: u8, divisor: u64, standing_gate: bool, in_standing: bool) -> u64 {
    if standing_gate && !in_standing {
        schedule[0]
    } else if (tier as int) < schedule.len() {
        schedule[tier as int]
    } else {
        divisor
    }
}

/// The tier multiplier (bps) of a rewarded blue.
pub fn tier_bps(schedule: &Vec<u64>, tier: u8, divisor: u64, standing_gate: bool, in_standing: bool) -> (r: u64)
    requires
        standing_gate && !in_standing ==> schedule@.len() > 0,
    ensures
        r == spec_tier_bps(schedule@, tier, divisor, standing_gate, in_standing),
{
    if standing_gate && !in_standing {
        schedule[0]
    } else if (tier as usize) < schedule.len() {
        schedule[tier as usize]
    } else {
        divisor
    }
}

/// Σ of the deltas.
pub open spec fn sum_deltas(d: Seq<i128>) -> int
    decreases d.len(),
{
    if d.len() == 0 {
        0
    } else {
        sum_deltas(d.drop_last()) + d.last()
    }
}

/// The deltas' running sums all fit an `i128`.
pub open spec fn running_sums_fit(d: Seq<i128>) -> bool {
    forall|k: int| 0 <= k <= d.len() ==> i128::MIN <= #[trigger] sum_deltas(d.take(k)) <= i128::MAX
}

/// The pre-coin-age holder-ratio numerator of a blue: the balance-index value `base` of its
/// payout script corrected by the balance deltas of the view diffs, floored at zero (and, as an
/// integer conversion, taken modulo 2^64).
pub open spec fn spec_balance_at_view(base: u64, deltas: Seq<i128>) -> u64 {
    let v = base + sum_deltas(deltas);
    if v < 0 {
        0
    } else {
        v as u64
    }
}

/// The pre-coin-age holder-ratio numerator of a blue.
pub fn balance_at_view(base: u64, deltas: &Vec<i128>) -> (r: u64)
    requires
        running_sums_fit(deltas@),
        base + sum_deltas(deltas@) <= i128::MAX,
    ensures
        r == spec_balance_at_view(base, deltas@),
{
    let mut delta: i128 = 0;
    let mut i: usize = 0;
    assert(deltas@.take(0) =~= Seq::<i128>::empty());
    while i < deltas.len()
        invariant
            i <= deltas@.len(),
            running_sums_fit(deltas@),
            delta == sum_deltas(deltas@.take(i as int)),
        decreases deltas@.len() - i,
    {
        assert(deltas@.take(i + 1).drop_last() =~= deltas@.take(i as int));
        assert(i128::MIN <= sum_deltas(deltas@.take(i + 1)) <= i128::MAX);
        delta = delta + deltas[i];
        i = i + 1;
    }
    assert(deltas@.take(deltas@.len() as int) =~= deltas@);
    let v = base as i128 + delta;
    if v < 0 {
        0
    } else {
        v as u64
    }
}

/// The holder-ratio denominator of a blue: its windowed production, floored at one block's base
/// miner cut (itself at least one).
pub fn ratio_production(windowed_production: u64, base_miner_cut: u64) -> (r: u64)
    ensures
        r == (if base_miner_cut == 0 {
            if windowed_production >= 1 {
                windowed_production
            } else {
                1
            }
        } else if windowed_production >= base_miner_cut {
            windowed_production
        } else {
            base_miner_cut
        }),
        r >= 1,
{
    let floor = if base_miner_cut >= 1 {
        base_miner_cut
    } else {
        1
    };
    if windowed_production >= floor {
        windowed_production
    } else {
        floor
    }
}

// ---------------------------------------------------------------------------------------------
// Production window

/// The chain-index floor of a daa-window search (see [`window_floor_in_retention`]).
pub open spec fn spec_window_floor(header_pruning_point_index: Option<u64>, own_pruning_point_daa: u64, own_pruning_point_index: u64, daa_bound: u64) -> Option<u64> {
    match header_pruning_point_index {
        Some(i) => Some(i),
        None => if own_pruning_point_daa <= daa_bound {
            Some(own_pruning_point_index)
        } else {
            None
        },
    }
}

/// The chain-index floor of a daa-window search: the index of the header's pruning point when it
/// is on the retained selected chain; otherwise the local pruning point's index, provided its
/// daa lies at or below the window bound — `None` when the window reaches below retained history.
pub fn window_floor_in_retention(header_pruning_point_index: Option<u64>, own_pruning_point_daa: u64, own_pruning_point_index: u64, daa_bound: u64) -> (r: Option<u64>)
    ensures
        r == spec_window_floor(header_pruning_point_index, own_pruning_point_daa, own_pruning_point_index, daa_bound),
{
    match header_pruning_point_index {
        Some(i) => Some(i),
        None => {
            if own_pruning_point_daa <= daa_bound {
                Some(own_pruning_point_index)
            } else {
                None
            }
        },
    }
}

/// Where the selected parent of a validated block stands.
#[derive(Debug, Clone, Copy, PartialEq, Eq, Structural)]
pub enum SelectedParentPosition {
    /// On the committed selected chain, at chain index `index`.
    OnChain { index: u64 },
    /// On a side chain: the chain path from the committed tip (at `committed_tip_index`) to it
    /// removes `removed` blocks and adds `added` blocks.
    SideChain { committed_tip_index: u64, removed: u64, added: u64 },
}

/// The production window of a validated block.
#[derive(Debug, Clone, Copy, PartialEq, Eq, Structural)]
pub enum ProductionWindow {
    /// Committed chain indices `(bottom, index]`.
    OnChain { index: u64, bottom: u64 },
    /// Committed chain indices `(lo, common]`, plus the side-chain blocks in the window.
    SideChain { common: u64, lo: u64 },
}

/// `searched` is the daa search's answer for a window ending at chain index `top`: the highest
/// index whose daa is at or below `daa_bound`, searched down to `top - window_daa` but no lower
/// than the pruning floor.
pub open spec fn is_window_search(chain_daa: Seq<u64>, daa_bound: u64, top: u64, window_daa: u64, pruning_index: u64, searched: u64) -> bool {
    let lo = if saturating_diff(top, window_daa) >= pruning_index {
        saturating_diff(top, window_daa)
    } else {
        pruning_index
    };
    is_index_at_or_below(chain_daa, daa_bound, lo as int, top as int, searched as int)
}

/// The chain data a production window needs from the floor `pruning_index` on: the floor and the
/// window's top exist, and daas do not decrease between them.
pub open spec fn window_inputs_ok(chain_daa: Seq<u64>, position: SelectedParentPosition, pruning_index: u64) -> bool {
    &&& pruning_index < chain_daa.len()
    &&& match position {
        SelectedParentPosition::OnChain { index } => index < chain_daa.len() && nondecreasing_on(
            chain_daa,
            pruning_index as int,
            index as int,
        ),
        SelectedParentPosition::SideChain { committed_tip_index, removed, added } => removed <= committed_tip_index
            && committed_tip_index - removed + added <= u64::MAX && committed_tip_index - removed < chain_daa.len()
            && nondecreasing_on(chain_daa, pruning_index as int, committed_tip_index - removed),
    }
}

/// `r` is the production window of a block whose selected parent stands at `position`: the
/// daa-sized window above `daa_bound` in the H3 era, the last `w` chain blocks before it, both
/// floored at `pruning_index`.
pub open spec fn is_production_window(
    h3: bool,
    chain_daa: Seq<u64>,
    position: SelectedParentPosition,
    daa_bound: u64,
    w: u64,
    window_daa: u64,
    pruning_index: u64,
    r: ProductionWindow,
) -> bool {
    match position {
        SelectedParentPosition::OnChain { index } => r matches ProductionWindow::OnChain { index: i, bottom } && i
            == index && bottom >= pruning_index && (!h3 ==> bottom == (if saturating_diff(index, w) >= pruning_index {
            saturating_diff(index, w)
        } else {
            pruning_index
        })) && (h3 ==> exists|s: u64|
            is_window_search(chain_daa, daa_bound, index, window_daa, pruning_index, s) && bottom == (if s
                >= pruning_index {
                s
            } else {
                pruning_index
            })),
        SelectedParentPosition::SideChain { committed_tip_index, removed, added } => {
            let common = (committed_tip_index - removed) as u64;
            let m = (common + added) as u64;
            r matches ProductionWindow::SideChain { common: c, lo } && c == common && lo >= pruning_index && (!h3
                ==> lo == (if saturating_diff(m, w) >= pruning_index {
                saturating_diff(m, w)
            } else {
                pruning_index
            })) && (h3 ==> exists|s: u64|
                is_window_search(chain_daa, daa_bound, common, window_daa, pruning_index, s) && lo == (if s
                    >= pruning_index {
                    s
                } else {
                    pruning_index
                }))
        },
    }
}

/// The production window of a block whose selected parent stands at `position`: the daa-sized
/// window above `daa_bound` in the H3 era, the last `w` chain blocks before it, both floored at
/// `pruning_index`. `chain_daa[i]` is the daa of committed chain index `i`.
pub fn production_window(
    h3: bool,
    chain_daa: &Vec<u64>,
    position: SelectedParentPosition,
    daa_bound: u64,
    w: u64,
    window_daa: u64,
    pruning_index: u64,
) -> (r: ProductionWindow)
    requires
        window_inputs_ok(chain_daa@, position, pruning_index),
    ensures
        is_production_window(h3, chain_daa@, position, daa_bound, w, window_daa, pruning_index, r),
{
    match position {
        SelectedParentPosition::OnChain { index } => {
            let raw = if h3 {
                chain_index_at_or_below_daa(chain_daa, daa_bound, index, pruning_index, window_daa)
            } else {
                index.saturating_sub(w)
            };
            let bottom = if raw >= pruning_index {
                raw
            } else {
                pruning_index
            };
            proof {
                if h3 {
                    assert(is_window_search(chain_daa@, daa_bound, index, window_daa, pruning_index, raw));
                }
            }
            ProductionWindow::OnChain { index, bottom }
        },
        SelectedParentPosition::SideChain { committed_tip_index, removed, added } => {
            let common = committed_tip_index - removed;
            let m = common + added;
            let raw = if h3 {
                chain_index_at_or_below_daa(chain_daa, daa_bound, common, pruning_index, window_daa)
            } else {
                m.saturating_sub(w)
            };
            let lo = if raw >= pruning_index {
                raw
            } else {
                pruning_index
            };
            proof {
                if h3 {
                    assert(is_window_search(chain_daa@, daa_bound, common, window_daa, pruning_index, raw));
                }
            }
            ProductionWindow::SideChain { common, lo }
        },
    }
}

/// Whether the `k`-th added block of a side chain (its daa `block_daa`) counts in a side-chain
/// window `(lo, common]`: by its own daa in the H3 era, by its chain index `common + 1 + k`
/// before.
pub fn side_block_in_window(h3: bool, block_daa: u64, daa_bound: u64, common: u64, k: u64, lo: u64) -> (r: bool)
    requires
        common + 1 + k <= u64::MAX,
    ensures
        r == (if h3 {
            block_daa > daa_bound
        } else {
            common + 1 + k > lo
        }),
{
    if h3 {
        block_daa > daa_bound
    } else {
        common + 1 + k > lo
    }
}

/// The windowed production of a payout script under a window: on chain, the cumulative at the
/// top minus the cumulative at the bottom (floored at zero); on a side chain, the committed part
/// (`cum_top - cum_bottom` over `(lo, common]`, nothing when `lo >= common`) plus the script's
/// side-chain production `side`.
pub fn windowed_production(window: ProductionWindow, cum_top: u64, cum_bottom: u64, side: u64) -> (r: u64)
    requires
        window matches ProductionWindow::SideChain { common, lo } ==> (if lo < common {
            saturating_diff(cum_top, cum_bottom) as int
        } else {
            0
        }) + side <= u64::MAX,
    ensures
        r == (match window {
            ProductionWindow::OnChain { .. } => saturating_diff(cum_top, cum_bottom) as int,
            ProductionWindow::SideChain { common, lo } => (if lo < common {
                saturating_diff(cum_top, cum_bottom) as int
            } else {
                0
            }) + side,
        }),
{
    match window {
        ProductionWindow::OnChain { .. } => cum_top.saturating_sub(cum_bottom),
        ProductionWindow::SideChain { common, lo } => {
            let shared = if lo < common {
                cum_top.saturating_sub(cum_bottom)
            } else {
                0
            };
            shared + side
        },
    }
}

// ---------------------------------------------------------------------------------------------
// Coin-age self-check schedule

/// Default score interval between two coin-age self-checks (about two hours at 10 BPS).
pub const AGE_SELFCHECK_INTERVAL_DAA: u64 = 72_000;

/// Minimum wall-clock spacing between two self-checks, in nanoseconds (ten minutes).
pub const AGE_SELFCHECK_MIN_WALL_SPACING_NANOS: u128 = 600_000_000_000;

/// What the self-check schedule does at a virtual commit.
#[derive(Debug, Clone, Copy, PartialEq, Eq, Structural)]
pub enum AgeSelfcheck {
    /// Self-checks are disabled (interval zero) or coin age is not active.
    Off,
    /// The first commit after startup: arm the clock at this score, do not check.
    Arm,
    /// Too soon since the last check.
    Wait,
    /// Run the self-check now, and restart the clock at this score.
    Run,
}

/// The self-check schedule at a commit at `daa_score`: `last` is the score of the last check (or
/// arming) and the wall time elapsed since it, `None` before the first commit.
pub fn age_selfcheck_schedule(interval: u64, coin_age_active: bool, last: Option<(u64, u128)>, daa_score: u64) -> (r: AgeSelfcheck)
    ensures
        r == (if interval == 0 || !coin_age_active {
            AgeSelfcheck::Off
        } else {
            match last {
                None => AgeSelfcheck::Arm,
                Some((last_daa, elapsed_nanos)) => if saturating_diff(daa_score, last_daa) < interval || elapsed_nanos
                    < AGE_SELFCHECK_MIN_WALL_SPACING_NANOS {
                    AgeSelfcheck::Wait
                } else {
                    AgeSelfcheck::Run
                },
            }
        }),
{
    if interval == 0 || !coin_age_active {
        return AgeSelfcheck::Off;
    }
    match last {
        None => AgeSelfcheck::Arm,
        Some((last_daa, elapsed_nanos)) => {
            if daa_score.saturating_sub(last_daa) < interval || elapsed_nanos < AGE_SELFCHECK_MIN_WALL_SPACING_NANOS {
                AgeSelfcheck::Wait
            } else {
                AgeSelfcheck::Run
            }
        },
    }
}

/// Whether the committed coin-age split can be compared with a re-derivation at the virtual score
/// `daa_score`: the sweep watermark (absent: the virtual score) sits at that score.
pub fn selfcheck_comparable(watermark: Option<u64>, daa_score: u64) -> (r: bool)
    ensures
        r == (match watermark {
            Some(w) => w == daa_score,
            None => true,
        }),
{
    match watermark {
        Some(w) => w == daa_score,
        None => true,
    }
}

// ---------------------------------------------------------------------------------------------
// Walking the chain to a new sink candidate

/// Whether the UTXO state of a candidate is not computed at all: it is already known to be
/// disqualified from the chain and re-validation is not forced.
pub fn skips_known_disqualified(revalidate_disqualified: bool, candidate_disqualified: bool) -> (r: bool)
    ensures
        r == (!revalidate_disqualified && candidate_disqualified),
{
    !revalidate_disqualified && candidate_disqualified
}

/// What is done with one chain block on the walk up from the split point.
#[derive(Debug, Clone, Copy, PartialEq, Eq, Structural)]
pub enum ChainBlockAction {
    /// Its selected parent is not UTXO-valid: the block inherits the disqualification (`mark`
    /// when its status is not already disqualified).
    PropagateDisqualification { mark: bool },
    /// Its UTXO diff is stored: apply it; it becomes the diff point.
    ApplyStoredDiff,
    /// It is already known to be disqualified: skip it.
    SkipKnownDisqualified,
    /// Compute and verify its UTXO state, then report the verdict.
    Validate,
}

/// The walk from the reorg split point up to a sink candidate. The diff point is the most recent
/// UTXO-valid block of the walk; the counters count the blocks validated and disqualified.
pub struct ChainWalk {
    diff_point: Hash32,
    revalidate_disqualified: bool,
    validated: u64,
    disqualified: u64,
}

impl ChainWalk {
    pub closed spec fn spec_diff_point(&self) -> Hash32 {
        self.diff_point
    }

    pub closed spec fn revalidates(&self) -> bool {
        self.revalidate_disqualified
    }

    pub closed spec fn validated_count(&self) -> u64 {
        self.validated
    }

    pub closed spec fn disqualified_count(&self) -> u64 {
        self.disqualified
    }

    /// A walk starting at `split_point`.
    pub fn new(split_point: Hash32, revalidate_disqualified: bool) -> (r: Self)
        ensures
            r.spec_diff_point() == split_point,
            r.revalidates() == revalidate_disqualified,
            r.validated_count() == 0,
            r.disqualified_count() == 0,
    {
        ChainWalk { diff_point: split_point, revalidate_disqualified, validated: 0, disqualified: 0 }
    }

    /// The most recent UTXO-valid block of the walk.
    pub fn diff_point(&self) -> (r: Hash32)
        ensures
            r == self.spec_diff_point(),
    {
        self.diff_point
    }

    /// The number of blocks validated.
    pub fn validated(&self) -> (r: u64)
        ensures
            r == self.validated_count(),
    {
        self.validated
    }

    /// The number of blocks newly disqualified.
    pub fn disqualified(&self) -> (r: u64)
        ensures
            r == self.disqualified_count(),
    {
        self.disqualified
    }

    /// The action for chain block `current` with selected parent `selected_parent`: a block whose
    /// selected parent is not the diff point inherits the disqualification; otherwise a stored
    /// diff is applied, a known disqualified block is skipped (unless re-validation is forced),
    /// and any other block is validated.
    pub fn step(&mut self, selected_parent: &Hash32, current: &Hash32, current_disqualified: bool, has_stored_diff: bool) -> (r: ChainBlockAction)
        requires
            old(self).disqualified_count() < u64::MAX,
        ensures
            final(self).revalidates() == old(self).revalidates(),
            final(self).validated_count() == old(self).validated_count(),
            if selected_parent@ != old(self).spec_diff_point()@ {
                &&& r == ChainBlockAction::PropagateDisqualification { mark: !current_disqualified }
                &&& final(self).spec_diff_point() == old(self).spec_diff_point()
                &&& final(self).disqualified_count() == old(self).disqualified_count() + (if current_disqualified {
                    0int
                } else {
                    1int
                })
            } else if has_stored_diff {
                &&& r == ChainBlockAction::ApplyStoredDiff
                &&& final(self).spec_diff_point() == *current
                &&& final(self).disqualified_count() == old(self).disqualified_count()
            } else {
                &&& r == (if !old(self).revalidates() && current_disqualified {
                    ChainBlockAction::SkipKnownDisqualified
                } else {
                    ChainBlockAction::Validate
                })
                &&& final(self).spec_diff_point() == old(self).spec_diff_point()
                &&& final(self).disqualified_count() == old(self).disqualified_count()
            },
    {
        if !selected_parent.equals(&self.diff_point) {
            let mark = !current_disqualified;
            if mark {
                self.disqualified = self.disqualified + 1;
            }
            ChainBlockAction::PropagateDisqualification { mark }
        } else if has_stored_diff {
            self.diff_point = *current;
            ChainBlockAction::ApplyStoredDiff
        } else if !self.revalidate_disqualified && current_disqualified {
            ChainBlockAction::SkipKnownDisqualified
        } else {
            ChainBlockAction::Validate
        }
    }

    /// Records the verdict of validating `current`: a valid block becomes the diff point and is
    /// counted as validated, an invalid one is counted as disqualified.
    pub fn on_validated(&mut self, current: &Hash32, valid: bool)
        requires
            old(self).validated_count() < u64::MAX,
            old(self).disqualified_count() < u64::MAX,
        ensures
            final(self).revalidates() == old(self).revalidates(),
            valid ==> final(self).spec_diff_point() == *current && final(self).validated_count() == old(self).validated_count()
                + 1 && final(self).disqualified_count() == old(self).disqualified_count(),
            !valid ==> final(self).spec_diff_point() == old(self).spec_diff_point() && final(self).validated_count() == old(
                self,
            ).validated_count() && final(self).disqualified_count() == old(self).disqualified_count() + 1,
    {
        if valid {
            self.diff_point = *current;
            self.validated = self.validated + 1;
        } else {
            self.disqualified = self.disqualified + 1;
        }
    }
}

// ---------------------------------------------------------------------------------------------
// Pruning-point UTXO import

/// Why a pruning-point UTXO import is refused.
#[derive(Debug, Clone, Copy, PartialEq, Eq, Structural)]
pub enum ImportError {
    /// The imported multiset hashes to neither the committed value nor its residue-adjusted form.
    ImportedMultisetHashMismatch,
    /// Some non-coinbase transaction of the pruning point does not validate on the imported set.
    NewPruningPointTxErrors,
}

/// Which multiset the import carries forward: the imported one when it hashes to the committed
/// UTXO commitment (`Ok(false)`), its residue-adjusted form when that one does (`Ok(true)`);
/// otherwise the import is refused.
pub fn imported_multiset_choice(imported_matches: bool, adjusted_matches: bool) -> (r: Result<bool, ImportError>)
    ensures
        r == (if imported_matches {
            Ok::<bool, ImportError>(false)
        } else if adjusted_matches {
            Ok::<bool, ImportError>(true)
        } else {
            Err::<bool, ImportError>(ImportError::ImportedMultisetHashMismatch)
        }),
{
    if imported_matches {
        Ok(false)
    } else if adjusted_matches {
        Ok(true)
    } else {
        Err(ImportError::ImportedMultisetHashMismatch)
    }
}

/// Checks the pruning point's own transactions on the imported set: every transaction but the
/// coinbase must validate.
pub fn check_pruning_point_transactions(validated: usize, transactions: usize) -> (r: Result<(), ImportError>)
    requires
        transactions >= 1,
    ensures
        r is Ok <==> validated >= transactions - 1,
        r is Err ==> r == Err::<(), ImportError>(ImportError::NewPruningPointTxErrors),
{
    if validated < transactions - 1 {
        Err(ImportError::NewPruningPointTxErrors)
    } else {
        Ok(())
    }
}

/// The chain index the production index is seeded at on import: the selected-chain tip, or zero
/// without one.
pub fn production_seed_index(tip_index: Option<u64>) -> (r: u64)
    ensures
        r == (match tip_index {
            Some(i) => i,
            None => 0,
        }),
{
    match tip_index {
        Some(i) => i,
        None => 0,
    }
}

/// What a block template's sealed service-state commitment is made of.
#[derive(Debug, Clone, Copy)]
pub enum TemplateServiceState {
    /// Service commitments are not active yet: the zero hash.
    Zero,
    /// The sealed rows at the template's pruning point alone.
    Rows,
    /// The sealed rows combined with the hash of the ledger snapshot at that pruning point.
    RowsWithLedger(Hash32),
}

/// Why a block template cannot be built.
#[derive(Debug, Clone, Copy)]
pub enum TemplateError {
    /// The service ledger is active but this node holds no ledger snapshot at the pruning point.
    MissingServiceLedgerSnapshot(Hash32),
}

/// The service-state commitment a template carries at its pruning point `header_pruning_point`:
/// nothing before service commitments are active; the rows alone before the service ledger is;
/// afterwards the rows with the ledger snapshot's hash (`ledger_hash`, `None` when this node
/// holds no snapshot there, which refuses the template).
pub fn template_service_state(
    service_commit_active: bool,
    ledger_active: bool,
    ledger_hash: Option<Hash32>,
    header_pruning_point: Hash32,
) -> (r: Result<TemplateServiceState, TemplateError>)
    ensures
        !service_commit_active ==> r matches Ok(TemplateServiceState::Zero),
        service_commit_active && !ledger_active ==> r matches Ok(TemplateServiceState::Rows),
        service_commit_active && ledger_active ==> match ledger_hash {
            Some(h) => r matches Ok(TemplateServiceState::RowsWithLedger(x)) && x == h,
            None => r matches Err(TemplateError::MissingServiceLedgerSnapshot(p)) && p == header_pruning_point,
        },
{
    if !service_commit_active {
        return Ok(TemplateServiceState::Zero);
    }
    if !ledger_active {
        return Ok(TemplateServiceState::Rows);
    }
    match ledger_hash {
        Some(h) => Ok(TemplateServiceState::RowsWithLedger(h)),
        None => Err(TemplateError::MissingServiceLedgerSnapshot(header_pruning_point)),
    }
}

/// The timestamp of a block template: the wall clock `now`, but never at or below the past median
/// time (the exclusive lower bound of a valid block time).
pub fn template_timestamp(past_median_time: u64, now: u64) -> (r: u64)
    requires
        past_median_time < u64::MAX,
    ensures
        r == (if now > past_median_time + 1 {
            now as int
        } else {
            past_median_time + 1
        }),
        r > past_median_time,
{
    let min_block_time = past_median_time + 1;
    if now > min_block_time {
        now
    } else {
        min_block_time
    }
}

/// The index entries a chain path removes: for the `j`-th removed block (tip first), each of its
/// `counts[j]` productions at chain index `from_tip - j`, as (block, production, index).
pub open spec fn removal_entries(from_tip: u64, counts: Seq<usize>) -> Seq<(usize, usize, u64)>
    decreases counts.len(),
{
    if counts.len() == 0 {
        Seq::empty()
    } else {
        let j = counts.len() - 1;
        removal_entries(from_tip, counts.drop_last()) + Seq::new(
            counts.last() as nat,
            |e: int| (j as usize, e as usize, (from_tip - j) as u64),
        )
    }
}

/// The index entries a chain path adds: for the `k`-th added block (split point first), each of
/// its productions `cuts[k][e]` at chain index `common + 1 + k`, as (block, production, index, cut).
pub open spec fn addition_entries(common: u64, cuts: Seq<Vec<u64>>) -> Seq<(usize, usize, u64, u64)>
    decreases cuts.len(),
{
    if cuts.len() == 0 {
        Seq::empty()
    } else {
        let k = cuts.len() - 1;
        addition_entries(common, cuts.drop_last()) + Seq::new(
            cuts.last()@.len(),
            |e: int| (k as usize, e as usize, (common + 1 + k) as u64, cuts.last()@[e]),
        )
    }
}

/// How a chain path moves the production prefix index, whose chain indices mirror the selected
/// chain: the selected-chain tip is at `from_tip`, the `j`-th removed block (tip first) sat at
/// `from_tip - j` and has `removed_counts[j]` productions; the chains meet at
/// `common = from_tip - removed`, and the `k`-th added block lands at `common + 1 + k` with the
/// base cuts `added_cuts[k]`. Returns the common index, the entries to delete and those to add.
pub fn production_index_plan(from_tip: u64, removed_counts: &Vec<usize>, added_cuts: &Vec<Vec<u64>>) -> (r: (
    u64,
    Vec<(usize, usize, u64)>,
    Vec<(usize, usize, u64, u64)>,
))
    requires
        removed_counts@.len() <= from_tip,
        from_tip - removed_counts@.len() + added_cuts@.len() <= u64::MAX,
    ensures
        r.0 == from_tip - removed_counts@.len(),
        r.1@ == removal_entries(from_tip, removed_counts@),
        r.2@ == addition_entries(r.0, added_cuts@),
{
    let common = from_tip - removed_counts.len() as u64;
    let mut removals: Vec<(usize, usize, u64)> = Vec::new();
    let mut j: usize = 0;
    while j < removed_counts.len()
        invariant
            j <= removed_counts@.len(),
            removed_counts@.len() <= from_tip,
            removals@ == removal_entries(from_tip, removed_counts@.take(j as int)),
        decreases removed_counts@.len() - j,
    {
        let n = removed_counts[j];
        let index = from_tip - j as u64;
        let ghost base = removals@;
        let mut e: usize = 0;
        while e < n
            invariant
                e <= n,
                removals@ == base + Seq::new(e as nat, |x: int| (j, x as usize, index)),
            decreases n - e,
        {
            removals.push((j, e, index));
            e = e + 1;
            proof {
                assert(removals@ =~= base + Seq::new(e as nat, |x: int| (j, x as usize, index)));
            }
        }
        proof {
            let t = removed_counts@.take(j + 1);
            assert(t.drop_last() =~= removed_counts@.take(j as int));
            assert(t.last() == n);
            assert(Seq::new(n as nat, |x: int| (j, x as usize, index)) =~= Seq::new(
                t.last() as nat,
                |x: int| ((t.len() - 1) as usize, x as usize, (from_tip - (t.len() - 1)) as u64),
            ));
        }
        j = j + 1;
    }
    proof {
        assert(removed_counts@.take(removed_counts@.len() as int) =~= removed_counts@);
    }
    let mut additions: Vec<(usize, usize, u64, u64)> = Vec::new();
    let mut k: usize = 0;
    while k < added_cuts.len()
        invariant
            k <= added_cuts@.len(),
            common + added_cuts@.len() <= u64::MAX,
            additions@ == addition_entries(common, added_cuts@.take(k as int)),
        decreases added_cuts@.len() - k,
    {
        let cuts = &added_cuts[k];
        let index = common + 1 + k as u64;
        let ghost base = additions@;
        let mut e: usize = 0;
        while e < cuts.len()
            invariant
                e <= cuts@.len(),
                cuts@ == added_cuts@[k as int]@,
                additions@ == base + Seq::new(e as nat, |x: int| (k, x as usize, index, cuts@[x])),
            decreases cuts@.len() - e,
        {
            additions.push((k, e, index, cuts[e]));
            e = e + 1;
            proof {
                assert(additions@ =~= base + Seq::new(e as nat, |x: int| (k, x as usize, index, cuts@[x])));
            }
        }
        proof {
            let t = added_cuts@.take(k + 1);
            assert(t.drop_last() =~= added_cuts@.take(k as int));
            assert(t.last() == added_cuts@[k as int]);
            assert(Seq::new(cuts@.len() as nat, |x: int| (k, x as usize, index, cuts@[x])) =~= Seq::new(
                t.last()@.len(),
                |x: int| ((t.len() - 1) as usize, x as usize, (common + 1 + (t.len() - 1)) as u64, t.last()@[x]),
            ));
        }
        k = k + 1;
    }
    proof {
        assert(added_cuts@.take(added_cuts@.len() as int) =~= added_cuts@);
    }
    (common, removals, additions)
}

/// The productions a chain block contributes to the index, as positions among the candidates with
/// their base cut: before the H3 era its own producer (`own_cut`, position 0), from H3 on each paid
/// mergeset blue (`blue_cuts`, in order); a zero base cut contributes nothing.
pub fn block_production_entries(h3: bool, own_cut: u64, blue_cuts: &Vec<u64>) -> (r: Vec<(usize, u64)>)
    ensures
        !h3 ==> r@ == (if own_cut == 0 {
            Seq::<(usize, u64)>::empty()
        } else {
            seq![(0usize, own_cut)]
        }),
        h3 ==> r@ == nonzero_cuts(blue_cuts@),
{
    let mut out: Vec<(usize, u64)> = Vec::new();
    if !h3 {
        if own_cut != 0 {
            out.push((0, own_cut));
        }
        proof {
            if own_cut == 0 {
                assert(out@ =~= Seq::<(usize, u64)>::empty());
            } else {
                assert(out@ =~= seq![(0usize, own_cut)]);
            }
        }
        return out;
    }
    let mut i: usize = 0;
    while i < blue_cuts.len()
        invariant
            i <= blue_cuts@.len(),
            out@ == nonzero_cuts(blue_cuts@.take(i as int)),
        decreases blue_cuts@.len() - i,
    {
        proof {
            assert(blue_cuts@.take(i + 1).drop_last() =~= blue_cuts@.take(i as int));
        }
        if blue_cuts[i] != 0 {
            out.push((i, blue_cuts[i]));
        }
        i = i + 1;
    }
    proof {
        assert(blue_cuts@.take(blue_cuts@.len() as int) =~= blue_cuts@);
    }
    out
}

/// The non-zero entries of `cuts` with their positions, in order.
pub open spec fn nonzero_cuts(cuts: Seq<u64>) -> Seq<(usize, u64)>
    decreases cuts.len(),
{
    if cuts.len() == 0 {
        Seq::empty()
    } else {
        let prev = nonzero_cuts(cuts.drop_last());
        if cuts.last() != 0 {
            prev.push(((cuts.len() - 1) as usize, cuts.last()))
        } else {
            prev
        }
    }
}

/// The floor of the reward (production) window: the floor of [`window_floor_in_retention`]. A
/// window reaching below the pruned horizon has no such floor; local history cannot reproduce
/// the network's search there, and the node fails loud rather than compute another value, so
/// those inputs are left out (test them with [`window_floor_in_retention`]).
pub fn reward_window_floor(header_pruning_point_index: Option<u64>, own_pruning_point_daa: u64, own_pruning_point_index: u64, daa_bound: u64) -> (r: u64)
    requires
        spec_window_floor(header_pruning_point_index, own_pruning_point_daa, own_pruning_point_index, daa_bound) is Some,
    ensures
        spec_window_floor(header_pruning_point_index, own_pruning_point_daa, own_pruning_point_index, daa_bound) == Some(r),
{
    window_floor_in_retention(header_pruning_point_index, own_pruning_point_daa, own_pruning_point_index, daa_bound).unwrap()
}

/// The production window of a validated block, floored at the reward-window floor (see
/// [`reward_window_floor`], which leaves out the windows below the pruned horizon): the window of
/// [`production_window`] at that floor.
pub fn reward_production_window(
    h3: bool,
    chain_daa: &Vec<u64>,
    position: SelectedParentPosition,
    daa_bound: u64,
    w: u64,
    window_daa: u64,
    header_pruning_point_index: Option<u64>,
    own_pruning_point_daa: u64,
    own_pruning_point_index: u64,
) -> (r: ProductionWindow)
    requires
        spec_window_floor(header_pruning_point_index, own_pruning_point_daa, own_pruning_point_index, daa_bound) matches Some(f)
            && window_inputs_ok(chain_daa@, position, f),
    ensures
        is_production_window(
            h3,
            chain_daa@,
            position,
            daa_bound,
            w,
            window_daa,
            spec_window_floor(header_pruning_point_index, own_pruning_point_daa, own_pruning_point_index, daa_bound)->0,
            r,
        ),
{
    let f = reward_window_floor(header_pruning_point_index, own_pruning_point_daa, own_pruning_point_index, daa_bound);
    production_window(h3, chain_daa, position, daa_bound, w, window_daa, f)
}

/// Why a block's UTXO state is refused.
#[derive(Debug, Clone)]
pub enum UtxoStateError {
    /// The header's UTXO commitment is not the multiset of the block's UTXO view.
    BadUtxoCommitment,
    /// The header's accepted-id merkle root is not the one of the accepted transactions.
    BadAcceptedIdMerkleRoot,
    /// The coinbase differs from the expected one while the check is enforced.
    BadCoinbaseTransaction,
    /// The header's sealed service-state commitment differs from the expected one.
    BadServiceStateCommitment,
    /// The header names another pruning point than the expected one.
    WrongHeaderPruningPoint,
    /// A response payload of the wrong length before the service-bond activation (tx id).
    AiResponseV2BeforeActivation(Hash32),
    /// A request asking for more tokens than the cap: (tx id, max tokens, cap).
    AiRequestMaxTokensExceeded(Hash32, u32, u32),
    /// A violation of the AI request or response rules.
    AiRule(AiRuleError),
    /// Some non-coinbase transactions do not validate: (how many, of how many).
    InvalidTransactionsInUtxoContext(usize, usize),
}

/// A refusal as the contracts see it (see [`UtxoStateError`]).
pub enum UtxoStateFault {
    BadUtxoCommitment,
    BadAcceptedIdMerkleRoot,
    BadCoinbaseTransaction,
    BadServiceStateCommitment,
    WrongHeaderPruningPoint,
    AiResponseV2BeforeActivation(Hash32),
    AiRequestMaxTokensExceeded(Hash32, u32, u32),
    AiRule(AiRuleFault),
    InvalidTransactionsInUtxoContext(usize, usize),
}

impl View for UtxoStateError {
    type V = UtxoStateFault;

    open spec fn view(&self) -> UtxoStateFault {
        match self {
            UtxoStateError::BadUtxoCommitment => UtxoStateFault::BadUtxoCommitment,
            UtxoStateError::BadAcceptedIdMerkleRoot => UtxoStateFault::BadAcceptedIdMerkleRoot,
            UtxoStateError::BadCoinbaseTransaction => UtxoStateFault::BadCoinbaseTransaction,
            UtxoStateError::BadServiceStateCommitment => UtxoStateFault::BadServiceStateCommitment,
            UtxoStateError::WrongHeaderPruningPoint => UtxoStateFault::WrongHeaderPruningPoint,
            UtxoStateError::AiResponseV2BeforeActivation(id) => UtxoStateFault::AiResponseV2BeforeActivation(*id),
            UtxoStateError::AiRequestMaxTokensExceeded(id, t, c) => UtxoStateFault::AiRequestMaxTokensExceeded(*id, *t, *c),
            UtxoStateError::AiRule(e) => UtxoStateFault::AiRule(e@),
            UtxoStateError::InvalidTransactionsInUtxoContext(a, b) => UtxoStateFault::InvalidTransactionsInUtxoContext(*a, *b),
        }
    }
}

/// A UTXO-state verdict as the contracts see it.
pub open spec fn state_verdict(r: Result<(), UtxoStateError>) -> Result<(), UtxoStateFault> {
    match r {
        Ok(_) => Ok(()),
        Err(e) => Err(e@),
    }
}

/// The first violation among `txs[k..]` of the per-era AI payload rules: before the service-bond
/// activation a response payload must be `response_payload_len` bytes long; from it on a decoded
/// request may not ask for more than `max_tokens_cap` tokens.
pub open spec fn spec_block_ai_payloads_from(
    txs: Seq<Transaction>,
    k: int,
    pom_v3_active: bool,
    response_payload_len: usize,
    max_tokens_cap: u32,
) -> Result<(), UtxoStateFault>
    decreases txs.len() - k,
{
    if k >= txs.len() || k < 0 {
        Ok(())
    } else if !pom_v3_active && txs[k].kind == TxKind::AiResponse && txs[k].payload@.len() != response_payload_len {
        Err(UtxoStateFault::AiResponseV2BeforeActivation(txs[k].id))
    } else if pom_v3_active && txs[k].kind == TxKind::AiRequest && txs[k].request is Some && txs[k].request->Some_0.max_tokens
        > max_tokens_cap {
        Err(UtxoStateFault::AiRequestMaxTokensExceeded(txs[k].id, txs[k].request->Some_0.max_tokens, max_tokens_cap))
    } else {
        spec_block_ai_payloads_from(txs, k + 1, pom_v3_active, response_payload_len, max_tokens_cap)
    }
}

/// The AI rule verdict lifted into a UTXO-state verdict.
pub open spec fn lift_ai(r: Result<(), AiRuleFault>) -> Result<(), UtxoStateFault> {
    match r {
        Ok(_) => Ok(()),
        Err(e) => Err(UtxoStateFault::AiRule(e)),
    }
}

/// The outcomes the UTXO-state verification of a block reads, besides its transactions.
pub struct UtxoStateChecks {
    /// The header's UTXO commitment matches the block's multiset.
    pub commitment_matches: bool,
    /// The header's accepted-id merkle root matches.
    pub merkle_root_matches: bool,
    /// How the coinbase is checked (see [`coinbase_check`]) and whether it matched.
    pub coinbase_check: CoinbaseCheck,
    pub coinbase_matches: bool,
    /// Whether the sealed service-state commitment is checked (see
    /// [`checks_service_commitment`]) and whether it matched.
    pub checks_service_commitment: bool,
    pub service_commitment_matches: bool,
    /// The header names the expected pruning point.
    pub pruning_point_matches: bool,
    /// The service-bond activation is active at the block.
    pub pom_v3_active: bool,
    /// The model-capability and request rules are enforced at the block.
    pub model_caps_active: bool,
    /// The reward-routing activation is active at the block.
    pub routed: bool,
}

/// The verdict on a block's UTXO state, in the order the checks run: the UTXO commitment, the
/// accepted-id merkle root, the coinbase (only when enforced), the sealed service-state commitment
/// (when checked), the header's pruning point, the per-era AI payload rules, then (when enforced)
/// the model capabilities and the request rules of the fast path, the validity of every
/// non-coinbase transaction in its UTXO context (`validated` lists the id and fee of those that
/// validated), and the request rules over the validated fees.
pub open spec fn spec_utxo_state_verdict(
    c: UtxoStateChecks,
    txs: Seq<Transaction>,
    response_payload_len: usize,
    max_tokens_cap: u32,
    declared_caps: Seq<Hash32>,
    minimums: Seq<(Hash32, u64)>,
    rules: AiRequestRules,
    validated: Seq<(Hash32, u64)>,
) -> Result<(), UtxoStateFault> {
    let digests = Seq::new(txs.len(), |i: int| request_hash_of(txs[i].payload@));
    if !c.commitment_matches {
        Err(UtxoStateFault::BadUtxoCommitment)
    } else if !c.merkle_root_matches {
        Err(UtxoStateFault::BadAcceptedIdMerkleRoot)
    } else if c.coinbase_check == CoinbaseCheck::Enforce && !c.coinbase_matches {
        Err(UtxoStateFault::BadCoinbaseTransaction)
    } else if c.checks_service_commitment && !c.service_commitment_matches {
        Err(UtxoStateFault::BadServiceStateCommitment)
    } else if !c.pruning_point_matches {
        Err(UtxoStateFault::WrongHeaderPruningPoint)
    } else if spec_block_ai_payloads_from(txs, 1, c.pom_v3_active, response_payload_len, max_tokens_cap) is Err {
        spec_block_ai_payloads_from(txs, 1, c.pom_v3_active, response_payload_len, max_tokens_cap)
    } else if c.model_caps_active && spec_model_caps(txs, digests, declared_caps) is Err {
        lift_ai(spec_model_caps(txs, digests, declared_caps))
    } else if c.model_caps_active && spec_all_rules_from(txs, 1, minimums, c.routed, rules) is Err {
        lift_ai(spec_all_rules_from(txs, 1, minimums, c.routed, rules))
    } else if validated.len() < txs.len() - 1 {
        Err(UtxoStateFault::InvalidTransactionsInUtxoContext((txs.len() - 1 - validated.len()) as usize, (txs.len() - 1) as usize))
    } else if c.model_caps_active {
        lift_ai(spec_full_rules_from(txs, 1, validated, minimums, c.routed, rules))
    } else {
        Ok(())
    }
}

/// The header checks decide first, in order: a failed UTXO commitment is refused as such; with
/// it in place a wrong accepted-id merkle root is refused as such; then an enforced coinbase
/// mismatch, a checked service-state mismatch and a wrong header pruning point, each refused as
/// such. A block is accepted only when every header check held (an observed or skipped coinbase
/// check never refuses), every non-coinbase transaction validated, and, before the service-bond
/// activation, no response payload has the wrong length.
pub proof fn lemma_utxo_state_header_checks_decide_first(
    c: UtxoStateChecks,
    txs: Seq<Transaction>,
    response_payload_len: usize,
    max_tokens_cap: u32,
    declared_caps: Seq<Hash32>,
    minimums: Seq<(Hash32, u64)>,
    rules: AiRequestRules,
    validated: Seq<(Hash32, u64)>,
)
    requires
        txs.len() >= 1,
    ensures
        ({
            let v = spec_utxo_state_verdict(c, txs, response_payload_len, max_tokens_cap, declared_caps, minimums, rules, validated);
            &&& !c.commitment_matches ==> (v matches Err(UtxoStateFault::BadUtxoCommitment))
            &&& c.commitment_matches && !c.merkle_root_matches ==> (v matches Err(UtxoStateFault::BadAcceptedIdMerkleRoot))
            &&& c.commitment_matches && c.merkle_root_matches && c.coinbase_check == CoinbaseCheck::Enforce
                && !c.coinbase_matches ==> (v matches Err(UtxoStateFault::BadCoinbaseTransaction))
            &&& c.commitment_matches && c.merkle_root_matches && (c.coinbase_check == CoinbaseCheck::Enforce
                ==> c.coinbase_matches) && c.checks_service_commitment && !c.service_commitment_matches ==> (v matches Err(
                UtxoStateFault::BadServiceStateCommitment,
            ))
            &&& c.commitment_matches && c.merkle_root_matches && (c.coinbase_check == CoinbaseCheck::Enforce
                ==> c.coinbase_matches) && (c.checks_service_commitment ==> c.service_commitment_matches)
                && !c.pruning_point_matches ==> (v matches Err(UtxoStateFault::WrongHeaderPruningPoint))
            &&& v is Ok ==> {
                &&& c.commitment_matches
                &&& c.merkle_root_matches
                &&& c.coinbase_check == CoinbaseCheck::Enforce ==> c.coinbase_matches
                &&& c.checks_service_commitment ==> c.service_commitment_matches
                &&& c.pruning_point_matches
                &&& validated.len() >= txs.len() - 1
                &&& !c.pom_v3_active ==> forall|i: int|
                    1 <= i < txs.len() && #[trigger] txs[i].kind == TxKind::AiResponse ==> txs[i].payload@.len()
                        == response_payload_len
            }
        }),
{
    let v = spec_utxo_state_verdict(c, txs, response_payload_len, max_tokens_cap, declared_caps, minimums, rules, validated);
    if v is Ok && !c.pom_v3_active {
        assert forall|i: int| 1 <= i < txs.len() && #[trigger] txs[i].kind == TxKind::AiResponse implies txs[i].payload@.len()
            == response_payload_len by {
            lemma_payload_scan_accepts(txs, 1, c.pom_v3_active, response_payload_len, max_tokens_cap, i);
        }
    }
}

/// A payload scan from `k` that accepts has checked every transaction from `k` on.
proof fn lemma_payload_scan_accepts(
    txs: Seq<Transaction>,
    k: int,
    pom_v3_active: bool,
    response_payload_len: usize,
    max_tokens_cap: u32,
    i: int,
)
    requires
        0 <= k <= i < txs.len(),
        spec_block_ai_payloads_from(txs, k, pom_v3_active, response_payload_len, max_tokens_cap) is Ok,
    ensures
        !pom_v3_active && txs[i].kind == TxKind::AiResponse ==> txs[i].payload@.len() == response_payload_len,
    decreases i - k,
{
    if k < i {
        lemma_payload_scan_accepts(txs, k + 1, pom_v3_active, response_payload_len, max_tokens_cap, i);
    }
}

fn check_block_ai_payloads(txs: &Vec<Transaction>, pom_v3_active: bool, response_payload_len: usize, max_tokens_cap: u32) -> (r:
    Result<(), UtxoStateError>)
    ensures
        state_verdict(r) == spec_block_ai_payloads_from(txs@, 1, pom_v3_active, response_payload_len, max_tokens_cap),
{
    let mut k: usize = 1;
    while k < txs.len()
        invariant
            1 <= k,
            k <= txs@.len() || txs@.len() == 0,
            spec_block_ai_payloads_from(txs@, 1, pom_v3_active, response_payload_len, max_tokens_cap)
                == spec_block_ai_payloads_from(txs@, k as int, pom_v3_active, response_payload_len, max_tokens_cap),
        decreases txs@.len() - k,
    {
        let tx = &txs[k];
        if !pom_v3_active {
            if tx.kind == TxKind::AiResponse && tx.payload.len() != response_payload_len {
                return Err(UtxoStateError::AiResponseV2BeforeActivation(tx.id));
            }
        } else if tx.kind == TxKind::AiRequest {
            if let Some(req) = &tx.request {
                if req.max_tokens > max_tokens_cap {
                    return Err(UtxoStateError::AiRequestMaxTokensExceeded(tx.id, req.max_tokens, max_tokens_cap));
                }
            }
        }
        k = k + 1;
    }
    Ok(())
}

fn lift_ai_error(r: Result<(), AiRuleError>) -> (out: Result<(), UtxoStateError>)
    ensures
        state_verdict(out) == lift_ai(verdict(r)),
{
    match r {
        Ok(()) => Ok(()),
        Err(e) => Err(UtxoStateError::AiRule(e)),
    }
}

/// Sequences the checks of a block's UTXO state (see [`spec_utxo_state_verdict`]): the first
/// failing check decides, in the order the node runs them.
pub fn utxo_state_verdict(
    c: &UtxoStateChecks,
    txs: &Vec<Transaction>,
    response_payload_len: usize,
    max_tokens_cap: u32,
    declared_caps: &Vec<Hash32>,
    minimums: &[(Hash32, u64)],
    rules: &AiRequestRules,
    validated: &[(Hash32, u64)],
) -> (r: Result<(), UtxoStateError>)
    requires
        txs@.len() >= 1,
    ensures
        state_verdict(r) == spec_utxo_state_verdict(
            *c,
            txs@,
            response_payload_len,
            max_tokens_cap,
            declared_caps@,
            minimums@,
            *rules,
            validated@,
        ),
{
    if !c.commitment_matches {
        return Err(UtxoStateError::BadUtxoCommitment);
    }
    if !c.merkle_root_matches {
        return Err(UtxoStateError::BadAcceptedIdMerkleRoot);
    }
    if c.coinbase_check == CoinbaseCheck::Enforce && !c.coinbase_matches {
        return Err(UtxoStateError::BadCoinbaseTransaction);
    }
    if c.checks_service_commitment && !c.service_commitment_matches {
        return Err(UtxoStateError::BadServiceStateCommitment);
    }
    if !c.pruning_point_matches {
        return Err(UtxoStateError::WrongHeaderPruningPoint);
    }
    let payloads = check_block_ai_payloads(txs, c.pom_v3_active, response_payload_len, max_tokens_cap);
    if payloads.is_err() {
        return payloads;
    }
    if c.model_caps_active {
        let caps = check_ai_response_model_caps(txs, declared_caps);
        if caps.is_err() {
            return lift_ai_error(caps);
        }
        let fast = check_ai_request_payload_rules_all(txs, minimums, c.routed, rules);
        if fast.is_err() {
            return lift_ai_error(fast);
        }
    }
    let n = txs.len() - 1;
    if validated.len() < n {
        return Err(UtxoStateError::InvalidTransactionsInUtxoContext(n - validated.len(), n));
    }
    if c.model_caps_active {
        let full = check_ai_request_inference_rewards(txs, validated, minimums, c.routed, rules);
        return lift_ai_error(full);
    }
    Ok(())
}

/// What an import of a pruning point's UTXO set leaves behind: the virtual UTXO set, the balance
/// store (see [`balance_store_of`]) and the production-index seed.
pub struct ImportedState {
    pub utxo: Seq<UtxoEntry>,
    pub balances: Map<Spk, int>,
    pub seed: u64,
}

/// The state an import of the pruning-point UTXO set `set` leaves, from `prior`: refused when
/// neither the imported multiset nor its residue-adjusted form hashes to the commitment (see
/// [`imported_multiset_choice`]); otherwise the virtual set is replaced by `set`, the balance store
/// is cleared and rebuilt from it, and the production index is seeded at the selected-chain tip
/// (see [`production_seed_index`]); the tip itself is not moved by the import.
pub open spec fn spec_import(
    prior: ImportedState,
    set: Seq<UtxoEntry>,
    imported_matches: bool,
    adjusted_matches: bool,
    tip_index: Option<u64>,
) -> Result<ImportedState, ImportError> {
    if !imported_matches && !adjusted_matches {
        Err(ImportError::ImportedMultisetHashMismatch)
    } else {
        Ok(
            ImportedState {
                utxo: set,
                balances: balance_store_of(set),
                seed: match tip_index {
                    Some(i) => i,
                    None => 0,
                },
            },
        )
    }
}

/// Replaying an import is idempotent: what an import leaves does not depend on the state it starts
/// from, so importing the same set again, from what the first import left (or from any other
/// state), gives the same state, or the same refusal.
pub proof fn lemma_import_replay_idempotent(
    prior: ImportedState,
    other: ImportedState,
    set: Seq<UtxoEntry>,
    imported_matches: bool,
    adjusted_matches: bool,
    tip_index: Option<u64>,
)
    ensures
        spec_import(other, set, imported_matches, adjusted_matches, tip_index) == spec_import(
            prior,
            set,
            imported_matches,
            adjusted_matches,
            tip_index,
        ),
        spec_import(prior, set, imported_matches, adjusted_matches, tip_index) matches Ok(once) ==> spec_import(
            once,
            set,
            imported_matches,
            adjusted_matches,
            tip_index,
        ) == spec_import(prior, set, imported_matches, adjusted_matches, tip_index),
{
}

} // verus!
