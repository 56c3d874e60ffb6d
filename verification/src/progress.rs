//! Progress of an IBD stage between two daa scores: when a report is due, how far along the
//! stage is, and which percentages are new.

use vstd::prelude::*;

verus! {

/// Minimum number of items to report.
pub const REPORT_BATCH_GRANULARITY: usize = 500;

/// Maximum time to go without a report, in nanoseconds (two seconds).
pub const REPORT_TIME_GRANULARITY_NANOS: u128 = 2_000_000_000;

/// Where a due report stands: the daa score relative to the stage's low score, the width of the
/// stage, and the items processed so far. The percentage is `relative / span * 100`.
#[derive(Debug, Clone, Copy, PartialEq, Eq, Structural)]
pub struct ProgressPoint {
    pub relative_daa_score: u64,
    pub span: u64,
    pub processed: usize,
}

/// Progress of a stage that runs from `low_daa_score` towards `high_daa_score`.
pub struct ProgressReporter {
    low_daa_score: u64,
    high_daa_score: u64,
    object_name: &'static str,
    last_reported_percent: i32,
    current_batch: usize,
    processed: usize,
}

impl ProgressReporter {
    pub closed spec fn low(&self) -> u64 {
        self.low_daa_score
    }

    pub closed spec fn high(&self) -> u64 {
        self.high_daa_score
    }

    pub closed spec fn name(&self) -> &'static str {
        self.object_name
    }

    pub closed spec fn last_percent(&self) -> i32 {
        self.last_reported_percent
    }

    pub closed spec fn batch(&self) -> usize {
        self.current_batch
    }

    pub closed spec fn processed_so_far(&self) -> usize {
        self.processed
    }

    /// The stage has a positive width.
    pub closed spec fn wf(&self) -> bool {
        self.low_daa_score < self.high_daa_score
    }

    /// A reporter for a stage from `low_daa_score` to `high_daa_score`; a high score at or below
    /// the low one is raised to one above it, so the stage is never empty.
    pub fn new(low_daa_score: u64, high_daa_score: u64, object_name: &'static str) -> (r: Self)
        requires
            high_daa_score <= low_daa_score ==> low_daa_score < u64::MAX,
        ensures
            r.wf(),
            r.low() == low_daa_score,
            r.high() == (if high_daa_score <= low_daa_score {
                (low_daa_score + 1) as u64
            } else {
                high_daa_score
            }),
            r.name() == object_name,
            r.last_percent() == 0,
            r.batch() == 0,
            r.processed_so_far() == 0,
    {
        let high = if high_daa_score <= low_daa_score {
            low_daa_score + 1
        } else {
            high_daa_score
        };
        ProgressReporter {
            low_daa_score,
            high_daa_score: high,
            object_name,
            last_reported_percent: 0,
            current_batch: 0,
            processed: 0,
        }
    }

    /// The name of the items counted.
    pub fn object_name(&self) -> (r: &'static str)
        ensures
            r == self.name(),
    {
        self.object_name
    }

    /// The daa score the stage currently ends at.
    pub fn high_daa_score(&self) -> (r: u64)
        ensures
            r == self.high(),
    {
        self.high_daa_score
    }

    /// The items of the batch not yet reported.
    pub fn current_batch(&self) -> (r: usize)
        ensures
            r == self.batch(),
    {
        self.current_batch
    }

    /// The items reported so far.
    pub fn processed(&self) -> (r: usize)
        ensures
            r == self.processed_so_far(),
    {
        self.processed
    }

    /// Records `processed_delta` more items, the last at `current_daa_score`, `elapsed_nanos`
    /// after the last report. The report is skipped (`None`, only the batch grows) while it is
    /// recent, the batch is small and something was processed already. Otherwise the batch is
    /// folded into the processed count, the high score is raised above a current score that
    /// passed it (keeping the stage below completion), and the point reached is returned.
    pub fn report(&mut self, processed_delta: usize, current_daa_score: u64, elapsed_nanos: u128) -> (r: Option<ProgressPoint>)
        requires
            old(self).wf(),
            old(self).batch() + processed_delta <= usize::MAX,
            old(self).processed_so_far() + old(self).batch() + processed_delta <= usize::MAX,
            current_daa_score > old(self).high() ==> current_daa_score < u64::MAX,
        ensures
            final(self).wf(),
            final(self).low() == old(self).low(),
            final(self).name() == old(self).name(),
            final(self).last_percent() == old(self).last_percent(),
            r matches Some(p) ==> 0 < p.span && p.relative_daa_score <= p.span,
            ({
                let batch = old(self).batch() + processed_delta;
                let skip = elapsed_nanos < REPORT_TIME_GRANULARITY_NANOS && batch < REPORT_BATCH_GRANULARITY
                    && old(self).processed_so_far() > 0;
                if skip {
                    &&& r is None
                    &&& final(self).batch() == batch
                    &&& final(self).processed_so_far() == old(self).processed_so_far()
                    &&& final(self).high() == old(self).high()
                } else {
                    let high = if current_daa_score > old(self).high() {
                        current_daa_score + 1
                    } else {
                        old(self).high() as int
                    };
                    &&& final(self).batch() == 0
                    &&& final(self).processed_so_far() == old(self).processed_so_far() + batch
                    &&& final(self).high() == high
                    &&& r == Some(
                        ProgressPoint {
                            relative_daa_score: if current_daa_score >= old(self).low() {
                                (current_daa_score - old(self).low()) as u64
                            } else {
                                0
                            },
                            span: (high - old(self).low()) as u64,
                            processed: final(self).processed_so_far(),
                        },
                    )
                }
            }),
    {
        self.current_batch = self.current_batch + processed_delta;
        if elapsed_nanos < REPORT_TIME_GRANULARITY_NANOS && self.current_batch < REPORT_BATCH_GRANULARITY && self.processed > 0 {
            return None;
        }
        self.processed = self.processed + self.current_batch;
        self.current_batch = 0;
        if current_daa_score > self.high_daa_score {
            self.high_daa_score = current_daa_score + 1;
        }
        let relative = current_daa_score.saturating_sub(self.low_daa_score);
        Some(
            ProgressPoint {
                relative_daa_score: relative,
                span: self.high_daa_score - self.low_daa_score,
                processed: self.processed,
            },
        )
    }

    /// Takes the percentage computed for a due report: it is logged (`true`) only when it is
    /// higher than the last one logged, which it then becomes.
    pub fn note_percent(&mut self, percent: i32) -> (r: bool)
        ensures
            r == (percent > old(self).last_percent()),
            final(self).last_percent() == (if r {
                percent
            } else {
                old(self).last_percent()
            }),
            final(self).low() == old(self).low(),
            final(self).high() == old(self).high(),
            final(self).name() == old(self).name(),
            final(self).batch() == old(self).batch(),
            final(self).processed_so_far() == old(self).processed_so_far(),
            old(self).wf() ==> final(self).wf(),
    {
        if percent > self.last_reported_percent {
            self.last_reported_percent = percent;
            true
        } else {
            false
        }
    }

    /// Ends the stage with `processed_delta` more items: the total of items processed.
    pub fn report_completion(self, processed_delta: usize) -> (r: usize)
        requires
            self.processed_so_far() + self.batch() + processed_delta <= usize::MAX,
        ensures
            r == self.processed_so_far() + self.batch() + processed_delta,
    {
        self.processed + self.current_batch + processed_delta
    }
}

} // verus!
