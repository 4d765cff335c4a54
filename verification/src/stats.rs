//! Run statistics for end-of-run reporting.

use vstd::prelude::*;

verus! {

/// Counts of files and segments processed in one run.  Times are
/// milliseconds on the driver's clock.
pub struct ProcessingStats {
    pub start_time_ms: Option<u64>,
    pub end_time_ms: Option<u64>,
    pub total_files: usize,
    pub processed_files: usize,
    pub successful_files: usize,
    pub failed_files: usize,
    pub total_segments: usize,
    pub successful_segments: usize,
    pub failed_segments: usize,
}

impl ProcessingStats {
    /// Fresh statistics: nothing processed, no times taken.
    pub fn new() -> (r: ProcessingStats)
        ensures
            r.start_time_ms is None,
            r.end_time_ms is None,
            r.total_files == 0,
            r.processed_files == 0,
            r.successful_files == 0,
            r.failed_files == 0,
            r.total_segments == 0,
            r.successful_segments == 0,
            r.failed_segments == 0,
    {
        ProcessingStats {
            start_time_ms: None,
            end_time_ms: None,
            total_files: 0,
            processed_files: 0,
            successful_files: 0,
            failed_files: 0,
            total_segments: 0,
            successful_segments: 0,
            failed_segments: 0,
        }
    }

    /// Folds one file's outcome in: the file is counted as processed and as
    /// a success or a failure; its segments are added, failed segments being
    /// those that did not succeed.
    pub fn update_stats(&mut self, success: bool, total_segments: usize, successful_segments: usize)
        requires
            old(self).processed_files < usize::MAX,
            old(self).successful_files < usize::MAX,
            old(self).failed_files < usize::MAX,
            old(self).total_segments + total_segments <= usize::MAX,
            old(self).successful_segments + successful_segments <= usize::MAX,
            old(self).failed_segments + total_segments <= usize::MAX,
        ensures
            final(self).processed_files == old(self).processed_files + 1,
            final(self).successful_files == old(self).successful_files + (if success {
                1int
            } else {
                0int
            }),
            final(self).failed_files == old(self).failed_files + (if success {
                0int
            } else {
                1int
            }),
            final(self).total_segments == old(self).total_segments + total_segments,
            final(self).successful_segments == old(self).successful_segments
                + successful_segments,
            final(self).failed_segments == old(self).failed_segments + (if successful_segments
                <= total_segments {
                total_segments - successful_segments
            } else {
                0int
            }),
            final(self).total_files == old(self).total_files,
            final(self).start_time_ms == old(self).start_time_ms,
            final(self).end_time_ms == old(self).end_time_ms,
    {
        self.processed_files = self.processed_files + 1;
        if success {
            self.successful_files = self.successful_files + 1;
        } else {
            self.failed_files = self.failed_files + 1;
        }
        self.total_segments = self.total_segments + total_segments;
        self.successful_segments = self.successful_segments + successful_segments;
        let unsuccessful = if successful_segments <= total_segments {
            total_segments - successful_segments
        } else {
            0
        };
        self.failed_segments = self.failed_segments + unsuccessful;
    }

    /// The aggregate segment success rate of the run, in percent, rounded
    /// down; 0 when nothing was processed.
    pub fn segment_success_percent(&self) -> (r: u64)
        requires
            self.successful_segments as int * 100 <= u64::MAX,
            self.successful_segments <= self.total_segments,
        ensures
            self.total_segments > 0 ==> r == self.successful_segments as int * 100
                / self.total_segments as int,
            self.total_segments == 0 ==> r == 0,
    {
        if self.total_segments == 0 {
            0
        } else {
            (self.successful_segments as u64) * 100 / (self.total_segments as u64)
        }
    }
}

} // verus!
