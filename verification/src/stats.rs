//! Bookkeeping over a batch of analyses. Times are whole nanoseconds.

use vstd::prelude::*;

verus! {

/// The longest time that can be recorded, in nanoseconds: what
/// `std::time::Duration::MAX` holds.
pub const MAX_DURATION_NANOS: u128 = 18_446_744_073_709_551_615_999_999_999;

/// The outcome of analysing one image file.
#[derive(Debug)]
pub struct ImageAnalysisResult {
    /// The generated description.
    pub text: String,
    /// How long loading and analysing took.
    pub processing_time: std::time::Duration,
    /// When the analysis ended.
    pub timestamp: std::time::Instant,
}

impl Clone for ImageAnalysisResult {
    fn clone(&self) -> (copy: Self)
        ensures
            copy.text@ == self.text@,
            copy.processing_time == self.processing_time,
            copy.timestamp == self.timestamp,
    {
        ImageAnalysisResult {
            text: self.text.clone(),
            processing_time: self.processing_time,
            timestamp: self.timestamp,
        }
    }
}

/// Sum of the recorded times.
pub open spec fn sum_of(times: Seq<u128>) -> int
    decreases times.len(),
{
    if times.len() == 0 {
        0
    } else {
        sum_of(times.drop_last()) + times.last()
    }
}

/// The shortest recorded time, and `MAX_DURATION_NANOS` where none is
/// recorded.
pub open spec fn min_of(times: Seq<u128>) -> int
    decreases times.len(),
{
    if times.len() == 0 {
        MAX_DURATION_NANOS as int
    } else if times.last() < min_of(times.drop_last()) {
        times.last() as int
    } else {
        min_of(times.drop_last())
    }
}

/// The longest recorded time, and zero where none is recorded.
pub open spec fn max_of(times: Seq<u128>) -> int
    decreases times.len(),
{
    if times.len() == 0 {
        0
    } else if times.last() > max_of(times.drop_last()) {
        times.last() as int
    } else {
        max_of(times.drop_last())
    }
}

/// Counts and times of a batch.
#[derive(Debug)]
pub struct ProcessingStats {
    pub total_images: usize,
    pub successful_images: usize,
    pub failed_images: usize,
    pub total_processing_time: u128,
    pub average_processing_time: u128,
    pub min_processing_time: u128,
    pub max_processing_time: u128,
    pub individual_times: Vec<u128>,
}

impl ProcessingStats {
    /// The counts and the time fields agree with the recorded times.
    pub open spec fn wf(&self) -> bool {
        &&& self.successful_images == self.individual_times@.len()
        &&& self.total_images == self.successful_images + self.failed_images
        &&& self.total_processing_time == sum_of(self.individual_times@)
        &&& self.min_processing_time == min_of(self.individual_times@)
        &&& self.max_processing_time == max_of(self.individual_times@)
    }

    /// Statistics of an empty batch.
    pub fn new() -> (stats: Self)
        ensures
            stats.wf(),
            stats.total_images == 0,
            stats.successful_images == 0,
            stats.failed_images == 0,
            stats.total_processing_time == 0,
            stats.average_processing_time == 0,
            stats.min_processing_time == MAX_DURATION_NANOS,
            stats.max_processing_time == 0,
            stats.individual_times@ == Seq::<u128>::empty(),
    {
        ProcessingStats {
            total_images: 0,
            successful_images: 0,
            failed_images: 0,
            total_processing_time: 0,
            average_processing_time: 0,
            min_processing_time: MAX_DURATION_NANOS,
            max_processing_time: 0,
            individual_times: Vec::new(),
        }
    }

    /// Records one image. A success adds its time to the total and to the
    /// list, and sets a new shortest or longest time where it is one; a
    /// failure is only counted. The average is left as it is. The counts
    /// must have room for one more, and the total must stay a time that can
    /// be recorded.
    pub fn add_result(&mut self, processing_time: u128, success: bool)
        requires
            old(self).total_images < usize::MAX,
            success ==> old(self).successful_images < usize::MAX,
            success ==> old(self).total_processing_time + processing_time <= MAX_DURATION_NANOS,
            !success ==> old(self).failed_images < usize::MAX,
        ensures
            final(self).total_images == old(self).total_images + 1,
            final(self).average_processing_time == old(self).average_processing_time,
            success ==> final(self).successful_images == old(self).successful_images + 1 && final(self).failed_images == old(self).failed_images && final(self).total_processing_time == old(self).total_processing_time + processing_time && final(self).individual_times@ == old(self).individual_times@.push(processing_time) && final(self).min_processing_time == (if processing_time
                < old(self).min_processing_time {
                processing_time
            } else {
                old(self).min_processing_time
            }) && final(self).max_processing_time == (if processing_time > old(self).max_processing_time {
                processing_time
            } else {
                old(self).max_processing_time
            }),
            !success ==> final(self).failed_images == old(self).failed_images + 1 && final(self).successful_images == old(self).successful_images && final(self).total_processing_time == old(self).total_processing_time && final(self).individual_times@ == old(self).individual_times@ && final(self).min_processing_time == old(self).min_processing_time && final(self).max_processing_time == old(self).max_processing_time,
            old(self).wf() ==> final(self).wf(),
    {
        self.total_images = self.total_images + 1;
        if success {
            self.successful_images = self.successful_images + 1;
            self.total_processing_time = self.total_processing_time + processing_time;
            self.individual_times.push(processing_time);
            if processing_time < self.min_processing_time {
                self.min_processing_time = processing_time;
            }
            if processing_time > self.max_processing_time {
                self.max_processing_time = processing_time;
            }
            assert(self.individual_times@.drop_last() =~= old(self).individual_times@);
        } else {
            self.failed_images = self.failed_images + 1;
        }
    }

    /// Sets the average to the total time divided by the number of
    /// successes, rounded down; without a success nothing changes. Where the
    /// fields agree with the recorded times, the average lies between the
    /// shortest and the longest time.
    pub fn finalize(&mut self)
        ensures
            final(self).total_images == old(self).total_images,
            final(self).successful_images == old(self).successful_images,
            final(self).failed_images == old(self).failed_images,
            final(self).total_processing_time == old(self).total_processing_time,
            final(self).min_processing_time == old(self).min_processing_time,
            final(self).max_processing_time == old(self).max_processing_time,
            final(self).individual_times@ == old(self).individual_times@,
            final(self).average_processing_time == if old(self).successful_images > 0 {
                old(self).total_processing_time as int / old(self).successful_images as int
            } else {
                old(self).average_processing_time as int
            },
            old(self).wf() ==> final(self).wf(),
            old(self).wf() && old(self).successful_images > 0 ==> final(self).min_processing_time <= final(self).average_processing_time <= final(self).max_processing_time,
    {
        if self.successful_images > 0 {
            proof {
                if self.wf() {
                    lemma_sum_between(self.individual_times@);
                    let n = self.successful_images as int;
                    let total = self.total_processing_time as int;
                    let low = self.min_processing_time as int;
                    let high = self.max_processing_time as int;
                    assert(low <= total / n <= high) by (nonlinear_arith)
                        requires
                            n > 0,
                            n * low <= total <= n * high,
                    ;
                }
            }
            self.average_processing_time = self.total_processing_time / (self.successful_images as u128);
        }
    }
}

/// The sum of some times lies between their number times the shortest and
/// their number times the longest.
pub proof fn lemma_sum_between(times: Seq<u128>)
    ensures
        times.len() * min_of(times) <= sum_of(times),
        sum_of(times) <= times.len() * max_of(times),
        forall|i: int| 0 <= i < times.len() ==> min_of(times) <= #[trigger] times[i] <= max_of(times),
    decreases times.len(),
{
    if times.len() > 0 {
        let rest = times.drop_last();
        lemma_sum_between(rest);
        let n = rest.len() as int;
        assert((n + 1) * max_of(times) == n * max_of(times) + max_of(times)) by (nonlinear_arith);
        assert((n + 1) * min_of(times) == n * min_of(times) + min_of(times)) by (nonlinear_arith);
        assert(n * max_of(rest) <= n * max_of(times)) by (nonlinear_arith)
            requires
                n >= 0,
                max_of(rest) <= max_of(times),
        ;
        if n > 0 {
            assert(n * min_of(times) <= n * min_of(rest)) by (nonlinear_arith)
                requires
                    n >= 0,
                    min_of(times) <= min_of(rest),
            ;
        } else {
            assert(n * min_of(times) == 0) by (nonlinear_arith)
                requires
                    n == 0,
            ;
        }
        assert forall|i: int| 0 <= i < times.len() implies min_of(times) <= #[trigger] times[i] <= max_of(
            times,
        ) by {
            if i < n {
                assert(rest[i] == times[i]);
            }
        }
    }
}

} // verus!
