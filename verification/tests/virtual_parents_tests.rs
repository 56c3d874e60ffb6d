use keryx_rules::hash::Hash32;
use keryx_rules::virtual_parents::{
    drop_merge_breaking_parents, merge_bound_violators, prepare_candidates, select_hashes, MergesetIncrease,
    MergesetIncreaseSearch, VirtualParentsPick,
};

fn h(b: u8) -> Hash32 {
    Hash32::from_bytes([b; 32])
}

fn tags(v: &[Hash32]) -> Vec<u8> {
    v.iter().map(|x| x.bytes[0]).collect()
}

fn sorted(mut v: Vec<u8>) -> Vec<u8> {
    v.sort();
    v
}

#[test]
fn few_candidates_stay_in_place() {
    // max_block_parents 4: half is 2, at most 12 candidates.
    let r = prepare_candidates(vec![h(1), h(2)], 4);
    assert_eq!(tags(&r), vec![1, 2]);
}

#[test]
fn candidates_past_the_half_are_shuffled_in_place() {
    let c: Vec<Hash32> = (1..=10).map(h).collect();
    let r = prepare_candidates(c, 4);
    assert_eq!(r.len(), 10);
    assert_eq!(tags(&r[..2]), vec![1, 2]);
    assert_eq!(sorted(tags(&r)), (1..=10).collect::<Vec<u8>>());
}

#[test]
fn too_many_candidates_keep_the_best_half_and_a_random_rest() {
    let c: Vec<Hash32> = (1..=40).map(h).collect();
    let r = prepare_candidates(c, 4);
    assert_eq!(r.len(), 12);
    assert_eq!(tags(&r[..2]), vec![1, 2]);
    let mut t = sorted(tags(&r));
    t.dedup();
    assert_eq!(t.len(), 12);
    assert!(t.iter().all(|x| (1..=40).contains(x)));
}

#[test]
fn selection_keeps_marked_positions_in_order() {
    let r = select_hashes(&vec![h(1), h(2), h(3), h(4)], &vec![true, false, false, true]);
    assert_eq!(tags(&r), vec![1, 4]);
}

#[test]
fn mergeset_walk_counts_blocks_outside_the_selected_past() {
    // Candidate C has parents A (in the past of the chosen parents) and B; B's parent is D,
    // whose parent is A again.
    let mut s = MergesetIncreaseSearch::new(vec![h(0xa), h(0xb)], 3);
    assert_eq!(s.current().unwrap().bytes[0], 0xa);
    assert!(s.visit(true, vec![]).is_none());
    assert_eq!(s.current().unwrap().bytes[0], 0xb);
    assert!(s.visit(false, vec![h(0xd)]).is_none());
    assert_eq!(s.current().unwrap().bytes[0], 0xd);
    assert!(s.visit(false, vec![h(0xa)]).is_none());
    assert!(s.current().is_none());
    match s.finish() {
        MergesetIncrease::Accepted { increase_size } => assert_eq!(increase_size, 3),
        other => panic!("unexpected {:?}", other),
    }
}

#[test]
fn mergeset_walk_stops_at_the_block_past_the_budget() {
    let mut s = MergesetIncreaseSearch::new(vec![h(0xa), h(0xb)], 2);
    assert!(s.visit(true, vec![]).is_none());
    assert!(s.visit(false, vec![h(0xd)]).is_none());
    match s.visit(false, vec![h(0xa)]) {
        Some(MergesetIncrease::Rejected { new_candidate }) => assert_eq!(new_candidate.bytes[0], 0xd),
        other => panic!("unexpected {:?}", other),
    }
}

#[test]
fn mergeset_walk_enqueues_each_parent_once() {
    let mut s = MergesetIncreaseSearch::new(vec![h(1)], 10);
    assert!(s.visit(false, vec![h(2), h(2), h(1), h(3)]).is_none());
    assert_eq!(s.current().unwrap().bytes[0], 2);
    assert!(s.visit(false, vec![]).is_none());
    assert_eq!(s.current().unwrap().bytes[0], 3);
    assert!(s.visit(false, vec![]).is_none());
    assert!(s.current().is_none());
}

#[test]
fn pick_respects_the_parent_count_and_the_mergeset_limit() {
    let mut p = VirtualParentsPick::new(h(0), vec![h(1), h(2), h(3), h(4)], 10, 3);
    assert_eq!(p.next_candidate().unwrap().bytes[0], 1);
    assert_eq!(p.budget(), 9);
    p.on_accepted(2);
    assert_eq!(p.next_candidate().unwrap().bytes[0], 2);
    assert_eq!(p.budget(), 7);
    // Rejected at block 9; candidate 3 is in its future and leaves, 9 joins last.
    p.on_rejected(h(9), false, &vec![true, false]);
    assert_eq!(p.next_candidate().unwrap().bytes[0], 4);
    p.on_accepted(3);
    // Three parents: the choice is over though candidate 9 is left.
    assert!(p.next_candidate().is_none());
    assert_eq!(tags(&p.finish()), vec![0, 1, 4]);
}

#[test]
fn pick_stops_when_the_mergeset_is_full() {
    let mut p = VirtualParentsPick::new(h(0), vec![h(1), h(2)], 4, 10);
    assert_eq!(p.next_candidate().unwrap().bytes[0], 1);
    assert_eq!(p.budget(), 3);
    p.on_accepted(3);
    assert!(p.next_candidate().is_none());
    assert_eq!(tags(&p.finish()), vec![0, 1]);
}

#[test]
fn covered_rejection_leaves_the_candidates() {
    let mut p = VirtualParentsPick::new(h(0), vec![h(1), h(2)], 100, 10);
    assert_eq!(p.next_candidate().unwrap().bytes[0], 1);
    p.on_rejected(h(7), true, &vec![true]);
    assert_eq!(p.next_candidate().unwrap().bytes[0], 2);
    p.on_accepted(1);
    assert!(p.next_candidate().is_none());
    assert_eq!(tags(&p.finish()), vec![0, 2]);
}

#[test]
fn merge_bound_violators_are_the_unkosherized_reds_below_the_root() {
    let reds = vec![h(1), h(2), h(3), h(4)];
    let r = merge_bound_violators(&reds, &vec![true, false, false, true], &vec![false, true, false, false]);
    assert_eq!(tags(&r), vec![3]);
    let parents = drop_merge_breaking_parents(&vec![h(10), h(11), h(12)], &vec![false, true, false]);
    assert_eq!(tags(&parents), vec![10, 12]);
}
