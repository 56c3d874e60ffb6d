use keryx_rules::progress::{ProgressPoint, ProgressReporter, REPORT_BATCH_GRANULARITY};

#[test]
fn a_high_score_at_or_below_the_low_one_is_raised() {
    let mut r = ProgressReporter::new(100, 50, "block headers");
    assert_eq!(r.object_name(), "block headers");
    let p = r.report(1, 100, 0).unwrap();
    assert_eq!(p, ProgressPoint { relative_daa_score: 0, span: 1, processed: 1 });
}

#[test]
fn small_recent_batches_are_not_reported() {
    let mut r = ProgressReporter::new(0, 1_000, "blocks");
    // Nothing processed yet: the first batch is always reported.
    assert_eq!(r.report(10, 100, 0), Some(ProgressPoint { relative_daa_score: 100, span: 1_000, processed: 10 }));
    assert!(r.note_percent(10));
    // Small and recent: skipped, the batch grows.
    assert_eq!(r.report(10, 200, 1_000_000), None);
    // Old enough: reported with the accumulated batch.
    assert_eq!(r.report(5, 250, 2_000_000_000), Some(ProgressPoint { relative_daa_score: 250, span: 1_000, processed: 25 }));
    // A large batch is reported however recent.
    assert_eq!(
        r.report(REPORT_BATCH_GRANULARITY, 300, 0),
        Some(ProgressPoint { relative_daa_score: 300, span: 1_000, processed: 25 + REPORT_BATCH_GRANULARITY })
    );
}

#[test]
fn the_stage_never_reaches_completion_before_it_ends() {
    let mut r = ProgressReporter::new(1_000, 2_000, "utxos");
    let p = r.report(600, 3_000, 0).unwrap();
    assert_eq!(p.relative_daa_score, 2_000);
    assert_eq!(p.span, 2_001, "the high score moves above the current one");
    assert!(p.relative_daa_score < p.span);
}

#[test]
fn only_higher_percentages_are_logged() {
    let mut r = ProgressReporter::new(0, 10, "x");
    assert!(!r.note_percent(0));
    assert!(r.note_percent(5));
    assert!(!r.note_percent(5));
    assert!(!r.note_percent(3));
    assert!(r.note_percent(6));
}

#[test]
fn completion_counts_every_item() {
    let mut r = ProgressReporter::new(0, 10, "x");
    r.report(3, 1, 0);
    r.report(4, 2, 0);
    assert_eq!(r.report_completion(5), 12);
}
