//! The counters of a mixnode and the figures it aims at.

use crate::fixed::raised;
use vstd::prelude::*;

verus! {

/// What a mixnode has done. Counters only ever go up and stop at the
/// largest number.
#[derive(Debug, Clone, Copy, PartialEq, Eq, Structural)]
pub struct MixnodeStats {
    pub packets_processed: u64,
    pub packets_forwarded: u64,
    pub packets_dropped: u64,
    pub cover_traffic_sent: u64,
    /// Time spent processing packets, in microseconds.
    pub total_processing_time_us: u64,
    pub uptime_secs: u64,
}

impl MixnodeStats {
    /// Nothing done yet.
    pub open spec fn empty() -> MixnodeStats {
        MixnodeStats {
            packets_processed: 0,
            packets_forwarded: 0,
            packets_dropped: 0,
            cover_traffic_sent: 0,
            total_processing_time_us: 0,
            uptime_secs: 0,
        }
    }

    /// Mean processing time in microseconds, rounded down; zero without packets.
    pub open spec fn mean_processing_time(self) -> int {
        if self.packets_processed == 0 {
            0
        } else {
            self.total_processing_time_us as int / (self.packets_processed as int)
        }
    }

    /// Counters at zero.
    pub fn new() -> (stats: MixnodeStats)
        ensures
            stats == MixnodeStats::empty(),
    {
        MixnodeStats {
            packets_processed: 0,
            packets_forwarded: 0,
            packets_dropped: 0,
            cover_traffic_sent: 0,
            total_processing_time_us: 0,
            uptime_secs: 0,
        }
    }

    /// Counts a packet that took `processing_time_us` microseconds.
    pub fn record_processed(&mut self, processing_time_us: u64)
        ensures
            *final(self) == (MixnodeStats {
                packets_processed: raised(old(self).packets_processed, 1),
                total_processing_time_us: raised(
                    old(self).total_processing_time_us,
                    processing_time_us as int,
                ),
                ..*old(self)
            }),
    {
        self.packets_processed = self.packets_processed.saturating_add(1);
        self.total_processing_time_us = self.total_processing_time_us.saturating_add(
            processing_time_us,
        );
    }

    /// Counts a forwarded packet.
    pub fn record_forwarded(&mut self)
        ensures
            *final(self) == (MixnodeStats {
                packets_forwarded: raised(old(self).packets_forwarded, 1),
                ..*old(self)
            }),
    {
        self.packets_forwarded = self.packets_forwarded.saturating_add(1);
    }

    /// Counts a dropped packet.
    pub fn record_dropped(&mut self)
        ensures
            *final(self) == (MixnodeStats {
                packets_dropped: raised(old(self).packets_dropped, 1),
                ..*old(self)
            }),
    {
        self.packets_dropped = self.packets_dropped.saturating_add(1);
    }

    /// Counts a cover packet.
    pub fn record_cover_traffic(&mut self)
        ensures
            *final(self) == (MixnodeStats {
                cover_traffic_sent: raised(old(self).cover_traffic_sent, 1),
                ..*old(self)
            }),
    {
        self.cover_traffic_sent = self.cover_traffic_sent.saturating_add(1);
    }

    /// Mean processing time in microseconds, rounded down.
    pub fn avg_processing_time_us(&self) -> (mean: u64)
        ensures
            mean == self.mean_processing_time(),
    {
        if self.packets_processed == 0 {
            0
        } else {
            self.total_processing_time_us / self.packets_processed
        }
    }
}

impl Default for MixnodeStats {
    fn default() -> (stats: MixnodeStats)
        ensures
            stats == MixnodeStats::empty(),
    {
        MixnodeStats::new()
    }
}

/// What the pipeline aims at.
#[derive(Debug, Clone, Copy, PartialEq, Eq, Structural)]
pub struct PerformanceTargets {
    /// Packets per second.
    pub target_throughput_pps: u64,
    /// Largest mean latency, in microseconds.
    pub max_avg_latency_us: u64,
    /// Least hit rate of the memory pool, in millionths.
    pub min_pool_hit_rate: u64,
    /// Largest share of dropped packets, in millionths.
    pub max_drop_rate: u64,
}

impl PerformanceTargets {
    /// 25,000 packets per second, a millisecond of latency, 85 hundredths
    /// of pool hits, a thousandth of drops.
    pub open spec fn standard() -> PerformanceTargets {
        PerformanceTargets {
            target_throughput_pps: 25_000,
            max_avg_latency_us: 1_000,
            min_pool_hit_rate: 850_000,
            max_drop_rate: 1_000,
        }
    }
}

impl Default for PerformanceTargets {
    fn default() -> (targets: PerformanceTargets)
        ensures
            targets == PerformanceTargets::standard(),
    {
        PerformanceTargets {
            target_throughput_pps: 25_000,
            max_avg_latency_us: 1_000,
            min_pool_hit_rate: 850_000,
            max_drop_rate: 1_000,
        }
    }
}

} // verus!
