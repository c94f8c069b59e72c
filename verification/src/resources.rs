//! Aggregation of the resource samples taken while an experiment runs.

use vstd::prelude::*;

verus! {

/// Peaks and sums of process and system resource samples.
#[derive(Clone, Copy, Debug, PartialEq, Eq, Structural)]
pub struct ResourceTally {
    /// Highest process resident set seen, in bytes.
    pub rss_peak: u64,
    /// Highest system memory in use seen, in bytes.
    pub system_peak: u64,
    /// Highest CPU use seen, in millionths of a percent.
    pub cpu_peak_micro: u64,
    /// Sum of the CPU samples, in millionths of a percent (wrapping).
    pub cpu_sum_micro: u64,
    /// Number of CPU samples (wrapping).
    pub samples: u32,
}

/// The larger of two counters.
pub open spec fn max_u64(a: u64, b: u64) -> u64 {
    if a >= b { a } else { b }
}

impl ResourceTally {
    /// Nothing sampled yet.
    pub fn new() -> (t: Self)
        ensures
            t == (ResourceTally { rss_peak: 0, system_peak: 0, cpu_peak_micro: 0, cpu_sum_micro: 0, samples: 0 }),
    {
        ResourceTally { rss_peak: 0, system_peak: 0, cpu_peak_micro: 0, cpu_sum_micro: 0, samples: 0 }
    }

    /// Records a process resident-set sample; a zero reading (no process) is ignored.
    pub fn record_rss(&mut self, rss: u64)
        ensures
            final(self).rss_peak == if rss > 0 { max_u64(old(self).rss_peak, rss) } else { old(self).rss_peak },
            final(self).system_peak == old(self).system_peak,
            final(self).cpu_peak_micro == old(self).cpu_peak_micro,
            final(self).cpu_sum_micro == old(self).cpu_sum_micro,
            final(self).samples == old(self).samples,
    {
        if rss > 0 && rss > self.rss_peak {
            self.rss_peak = rss;
        }
    }

    /// Records a system memory sample; a zero reading is ignored.
    pub fn record_system(&mut self, used: u64)
        ensures
            final(self).system_peak == if used > 0 { max_u64(old(self).system_peak, used) } else { old(self).system_peak },
            final(self).rss_peak == old(self).rss_peak,
            final(self).cpu_peak_micro == old(self).cpu_peak_micro,
            final(self).cpu_sum_micro == old(self).cpu_sum_micro,
            final(self).samples == old(self).samples,
    {
        if used > 0 && used > self.system_peak {
            self.system_peak = used;
        }
    }

    /// Records a CPU sample: counted, added to the sum, and kept when it is a new peak.
    pub fn record_cpu(&mut self, micro: u64)
        ensures
            final(self).samples == (old(self).samples + 1) % 4294967296,
            final(self).cpu_sum_micro == (old(self).cpu_sum_micro + micro) % 18446744073709551616,
            final(self).cpu_peak_micro == max_u64(old(self).cpu_peak_micro, micro),
            final(self).rss_peak == old(self).rss_peak,
            final(self).system_peak == old(self).system_peak,
    {
        self.samples = self.samples.wrapping_add(1);
        self.cpu_sum_micro = self.cpu_sum_micro.wrapping_add(micro);
        if micro > self.cpu_peak_micro {
            self.cpu_peak_micro = micro;
        }
    }

    /// Resident-set peak over the run, counting the first and last readings.
    pub fn rss_peak_with(&self, start: u64, end: u64) -> (p: u64)
        ensures
            p == max_u64(max_u64(self.rss_peak, start), end),
    {
        let a = if self.rss_peak >= start { self.rss_peak } else { start };
        if a >= end { a } else { end }
    }

    /// System memory peak over the run, counting the first and last readings.
    pub fn system_peak_with(&self, start: u64, end: u64) -> (p: u64)
        ensures
            p == max_u64(max_u64(self.system_peak, start), end),
    {
        let a = if self.system_peak >= start { self.system_peak } else { start };
        if a >= end { a } else { end }
    }
}

} // verus!
