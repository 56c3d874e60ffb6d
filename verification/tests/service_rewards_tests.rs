use keryx_rules::coin_age::ScriptPublicKey;
use keryx_rules::hash::Hash32;
use keryx_rules::service_rewards::{reward_mints, sort_by_request_hash, RewardWin};

fn spk(b: u8) -> ScriptPublicKey {
    ScriptPublicKey { version: 0, script: vec![b; 2] }
}

fn win(h: u8, amount: u64, payout: Option<u8>) -> RewardWin {
    RewardWin { request_hash: Hash32::from_bytes([h; 32]), amount, spk: payout.map(spk) }
}

fn amounts(mints: &[(ScriptPublicKey, u64)]) -> Vec<u64> {
    mints.iter().map(|(_, a)| *a).collect()
}

#[test]
fn wins_sort_by_request_hash() {
    let sorted = sort_by_request_hash(vec![win(9, 1, Some(1)), win(2, 2, Some(1)), win(5, 3, None)]);
    let hashes: Vec<u8> = sorted.iter().map(|w| w.request_hash.bytes[0]).collect();
    assert_eq!(hashes, vec![2, 5, 9]);
}

#[test]
fn mints_follow_the_finalized_window_in_daa_then_hash_order() {
    let recent = vec![
        (100, vec![win(1, 10, Some(1))]),
        (150, vec![win(9, 20, Some(2)), win(3, 30, Some(3)), win(4, 99, None)]),
        (200, vec![win(2, 40, Some(4))]),
        (260, vec![win(1, 50, Some(5))]),
    ];
    // Window (parent - 50, sp - 50] = (100, 200].
    let mints = reward_mints(true, Some(150), 250, 50, recent.clone(), 10);
    assert_eq!(amounts(&mints), vec![30, 20, 40]);
    assert_eq!(mints[0].0.script, vec![3, 3]);
    // At most `max_mints`.
    assert_eq!(amounts(&reward_mints(true, Some(150), 250, 50, recent.clone(), 2)), vec![30, 20]);
    // Before reward routing, or with an empty window, nothing.
    assert!(reward_mints(false, Some(150), 250, 50, recent.clone(), 10).is_empty());
    assert!(reward_mints(true, Some(250), 250, 50, recent.clone(), 10).is_empty());
    // Without a selected parent the window starts at zero.
    assert_eq!(amounts(&reward_mints(true, None, 250, 50, recent, 10)), vec![10, 30, 20, 40]);
}
