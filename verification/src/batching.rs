//! Adaptive batching: packets wait in a bounded queue and leave it in
//! batches of 1 to 128, the size following the load on the network, with a
//! least interval between batches. A full queue turns packets away and
//! counts them.
//!
//! Loads and thresholds are millionths.

use crate::clock::{now_millis, unix_millis, UtcInstant};
use crate::error::MixnodeError;
use crate::fixed::{clamped, raised, UNIT};
use std::collections::VecDeque;
use vstd::prelude::*;

verus! {

/// Least size of a batch.
pub const MIN_BATCH: usize = 1;

/// Largest size of a batch.
pub const MAX_BATCH: usize = 128;

/// Number of load signals that the smoothed load averages.
pub const LOAD_WINDOW: usize = 100;

/// How the batch size follows the load.
#[derive(Debug, Clone, Copy, PartialEq, Eq, Structural)]
pub enum BatchingStrategy {
    /// Always the initial size.
    Fixed,
    /// From the least to the largest size with the square of the load.
    LoadBased,
    /// Small batches unless the load is high.
    MinLatency,
    /// Large batches unless the load is low.
    MaxThroughput,
    /// Small batches at low load, large ones at high load, in between from
    /// the midpoint to the largest size.
    Balanced,
}

/// The settings of a batch processor.
#[derive(Debug, Clone, Copy, PartialEq, Eq, Structural)]
pub struct AdaptiveBatchingConfig {
    /// Least batch size, at least 1.
    pub min_batch_size: usize,
    /// Largest batch size, at most 128.
    pub max_batch_size: usize,
    /// Batch size at the start.
    pub initial_batch_size: usize,
    pub strategy: BatchingStrategy,
    /// Least interval between two batches, in milliseconds.
    pub min_delay_ms: u64,
    /// Throughput aimed at, in packets per second.
    pub max_throughput_pps: u64,
    /// Load from which on the batch size goes up, in millionths.
    pub load_increase_threshold: u64,
    /// Load up to which the batch size goes down, in millionths.
    pub load_decrease_threshold: u64,
    /// Most packets that wait in the queue at a time.
    pub queue_capacity: usize,
}

impl AdaptiveBatchingConfig {
    /// The settings that a processor starts with unless told otherwise.
    pub open spec fn standard() -> AdaptiveBatchingConfig {
        AdaptiveBatchingConfig {
            min_batch_size: 1,
            max_batch_size: 128,
            initial_batch_size: 32,
            strategy: BatchingStrategy::Balanced,
            min_delay_ms: 10,
            max_throughput_pps: 25_000,
            load_increase_threshold: 700_000,
            load_decrease_threshold: 300_000,
            queue_capacity: 1024,
        }
    }

    /// The sizes are in order and between 1 and 128.
    pub open spec fn valid(self) -> bool {
        1 <= self.min_batch_size <= self.max_batch_size <= 128
    }
}

impl Default for AdaptiveBatchingConfig {
    fn default() -> (config: AdaptiveBatchingConfig)
        ensures
            config == AdaptiveBatchingConfig::standard(),
    {
        AdaptiveBatchingConfig {
            min_batch_size: 1,
            max_batch_size: 128,
            initial_batch_size: 32,
            strategy: BatchingStrategy::Balanced,
            min_delay_ms: 10,
            max_throughput_pps: 25_000,
            load_increase_threshold: 700_000,
            load_decrease_threshold: 300_000,
            queue_capacity: 1024,
        }
    }
}

/// `num / den` rounded to the nearest whole number, halves upwards.
pub open spec fn rounded(num: int, den: int) -> int
    recommends
        num >= 0,
        den > 0,
{
    (2 * num + den) / (2 * den)
}

/// The batch size that the strategy gives at `load` (in millionths, at most
/// one), before it is held between 1 and 128.
///
/// * `Fixed`: the initial size.
/// * `LoadBased`: `min + (max - min) * load^2`, rounded.
/// * `MinLatency`: `(min + max) / 4` from the increase threshold on, else `min`.
/// * `MaxThroughput`: `(min + 3 * max) / 4` up to the decrease threshold, else `max`.
/// * `Balanced`: `min` below the decrease threshold, `max` above the
///   increase threshold, in between from the midpoint `(min + max) / 2`
///   towards `max` in a straight line, rounded (the midpoint where the two
///   thresholds are one).
pub open spec fn strategy_size(config: AdaptiveBatchingConfig, load: int) -> int {
    let min = config.min_batch_size as int;
    let max = config.max_batch_size as int;
    match config.strategy {
        BatchingStrategy::Fixed => config.initial_batch_size as int,
        BatchingStrategy::LoadBased => min + rounded((max - min) * load * load, 1_000_000_000_000),
        BatchingStrategy::MinLatency => if load >= config.load_increase_threshold {
            (min + max) / 4
        } else {
            min
        },
        BatchingStrategy::MaxThroughput => if load <= config.load_decrease_threshold {
            (min + 3 * max) / 4
        } else {
            max
        },
        BatchingStrategy::Balanced => {
            let mid = (min + max) / 2;
            if load < config.load_decrease_threshold {
                min
            } else if load > config.load_increase_threshold {
                max
            } else if config.load_increase_threshold == config.load_decrease_threshold {
                mid
            } else {
                mid + rounded(
                    (max - mid) * (load - config.load_decrease_threshold),
                    config.load_increase_threshold - config.load_decrease_threshold,
                )
            }
        },
    }
}

/// The batch size at `load`: what the strategy gives, held between 1 and 128.
pub open spec fn target_size(config: AdaptiveBatchingConfig, load: int) -> int {
    clamped(strategy_size(config, load), 1, 128)
}

/// Under a valid configuration, every strategy but `Fixed` and `MinLatency`
/// stays between the least and the largest batch size.
pub proof fn lemma_target_within_configured_sizes(config: AdaptiveBatchingConfig, load: int)
    requires
        config.valid(),
        0 <= load <= 1_000_000,
        config.strategy != BatchingStrategy::Fixed,
        config.strategy != BatchingStrategy::MinLatency,
    ensures
        config.min_batch_size <= target_size(config, load) <= config.max_batch_size,
{
    let min = config.min_batch_size as int;
    let max = config.max_batch_size as int;
    match config.strategy {
        BatchingStrategy::LoadBased => {
            let num = (max - min) * load * load;
            assert(0 <= num <= (max - min) * 1_000_000_000_000) by (nonlinear_arith)
                requires
                    num == (max - min) * load * load,
                    0 <= load <= 1_000_000,
                    0 <= max - min,
            ;
        },
        BatchingStrategy::Balanced => {
            let mid = (min + max) / 2;
            let dec = config.load_decrease_threshold as int;
            let inc = config.load_increase_threshold as int;
            if dec <= load <= inc && inc != dec {
                let num = (max - mid) * (load - dec);
                let den = inc - dec;
                assert(0 <= num <= (max - mid) * den) by (nonlinear_arith)
                    requires
                        num == (max - mid) * (load - dec),
                        0 <= load - dec <= den,
                        0 <= max - mid,
                ;
                assert(0 <= (2 * num + den) / (2 * den) <= max - mid) by (nonlinear_arith)
                    requires
                        0 <= num <= (max - mid) * den,
                        den > 0,
                        0 <= max - mid,
                ;
            }
        },
        _ => {},
    }
}

/// Under the load-based strategy a higher load never gives a smaller batch.
pub proof fn lemma_load_based_is_monotone(config: AdaptiveBatchingConfig, lower: int, higher: int)
    requires
        config.valid(),
        config.strategy == BatchingStrategy::LoadBased,
        0 <= lower <= higher <= 1_000_000,
    ensures
        target_size(config, lower) <= target_size(config, higher),
{
    let range = config.max_batch_size - config.min_batch_size;
    assert(range * lower * lower <= range * higher * higher) by (nonlinear_arith)
        requires
            0 <= lower <= higher,
            0 <= range,
    ;
    let a = range * lower * lower;
    let b = range * higher * higher;
    assert((2 * a + 1_000_000_000_000) / 2_000_000_000_000 <= (2 * b + 1_000_000_000_000)
        / 2_000_000_000_000);
}

/// What a batch processor has done so far. Counters stop at the largest number.
#[derive(Debug, Clone, Copy, PartialEq, Eq, Structural)]
pub struct BatchingStats {
    /// Packets handed out in batches.
    pub packets_processed: u64,
    /// Batches handed out.
    pub batches_created: u64,
    /// Packets per batch, rounded down.
    pub avg_batch_size: u64,
    /// Time spent waiting for the least interval, in milliseconds.
    pub total_delay_ms: u64,
    /// How often the batch size changed.
    pub adaptations_count: u64,
    /// Packets turned away because the queue was full.
    pub packets_dropped: u64,
}

impl BatchingStats {
    /// Nothing done yet.
    pub open spec fn empty() -> BatchingStats {
        BatchingStats {
            packets_processed: 0,
            batches_created: 0,
            avg_batch_size: 0,
            total_delay_ms: 0,
            adaptations_count: 0,
            packets_dropped: 0,
        }
    }

    /// The statistics after one more packet was turned away.
    pub open spec fn with_drop(self) -> BatchingStats {
        BatchingStats { packets_dropped: raised(self.packets_dropped, 1), ..self }
    }

    /// The statistics after a batch of `size` packets.
    pub open spec fn with_batch(self, size: int) -> BatchingStats {
        BatchingStats {
            packets_processed: raised(self.packets_processed, size),
            batches_created: raised(self.batches_created, 1),
            avg_batch_size: raised(self.packets_processed, size) / raised(self.batches_created, 1),
            ..self
        }
    }

    /// Statistics with nothing done yet.
    pub fn new() -> (stats: BatchingStats)
        ensures
            stats == BatchingStats::empty(),
    {
        BatchingStats {
            packets_processed: 0,
            batches_created: 0,
            avg_batch_size: 0,
            total_delay_ms: 0,
            adaptations_count: 0,
            packets_dropped: 0,
        }
    }

    /// Packets per batch in millionths, rounded down; zero without batches.
    pub fn average_batch_size(&self) -> (average: u128)
        ensures
            average == (if self.batches_created == 0 {
                0
            } else {
                self.packets_processed * 1_000_000 / (self.batches_created as int)
            }),
    {
        if self.batches_created == 0 {
            return 0;
        }
        (self.packets_processed as u128) * 1_000_000 / (self.batches_created as u128)
    }

    /// Waiting time per packet in microseconds, rounded down; zero without packets.
    pub fn average_delay_per_packet_us(&self) -> (average: u128)
        ensures
            average == (if self.packets_processed == 0 {
                0
            } else {
                self.total_delay_ms * 1_000 / (self.packets_processed as int)
            }),
    {
        if self.packets_processed == 0 {
            return 0;
        }
        (self.total_delay_ms as u128) * 1_000 / (self.packets_processed as u128)
    }

    /// Packets per second over `duration_ms` milliseconds, rounded down;
    /// nothing for a duration of zero.
    pub fn throughput_pps(&self, duration_ms: u64) -> (rate: Option<u128>)
        ensures
            rate == (if duration_ms == 0 {
                None
            } else {
                Some((self.packets_processed * 1_000 / (duration_ms as int)) as u128)
            }),
    {
        if duration_ms == 0 {
            return None;
        }
        Some((self.packets_processed as u128) * 1_000 / (duration_ms as u128))
    }
}

impl Default for BatchingStats {
    fn default() -> (stats: BatchingStats)
        ensures
            stats == BatchingStats::empty(),
    {
        BatchingStats::new()
    }
}

/// Sum of the load signals.
pub open spec fn total_load(window: Seq<u64>) -> int
    decreases window.len(),
{
    if window.len() == 0 {
        0
    } else {
        total_load(window.drop_last()) + window.last()
    }
}

/// The window after a load signal: the signal, held at one, joins at the
/// end, and the oldest leaves once there are more than 100.
pub open spec fn window_after(window: Seq<u64>, load: u64) -> Seq<u64> {
    let joined = window.push(
        if load > 1_000_000 {
            1_000_000u64
        } else {
            load
        },
    );
    if joined.len() > 100 {
        joined.skip(1)
    } else {
        joined
    }
}

/// The smoothed load: the mean of the window, rounded down.
pub open spec fn smoothed_load(window: Seq<u64>) -> int
    recommends
        window.len() > 0,
{
    total_load(window) / (window.len() as int)
}

/// How long to wait at `now` for a batch, the last one having been handed
/// out at `last`: what is missing to the least interval.
pub open spec fn wait_needed(min_delay_ms: u64, last: u64, now: u64) -> int {
    if now < last {
        min_delay_ms as int
    } else if now - last < min_delay_ms {
        min_delay_ms - (now - last)
    } else {
        0
    }
}

/// A queue of packets that leaves in batches.
pub struct AdaptiveBatchProcessor {
    config: AdaptiveBatchingConfig,
    current_batch_size: usize,
    network_load: u64,
    packet_queue: VecDeque<Vec<u8>>,
    stats: BatchingStats,
    last_batch_ms: u64,
    load_window: VecDeque<u64>,
}

proof fn lemma_total_load_bound(window: Seq<u64>)
    requires
        forall|i: int| 0 <= i < window.len() ==> (#[trigger] window[i]) <= 1_000_000,
    ensures
        0 <= total_load(window) <= window.len() * 1_000_000,
    decreases window.len(),
{
    if window.len() > 0 {
        let head = window.drop_last();
        assert forall|i: int| 0 <= i < head.len() implies (#[trigger] head[i]) <= 1_000_000 by {
            assert(head[i] == window[i]);
        }
        lemma_total_load_bound(head);
        assert(window.last() == window[window.len() - 1]);
    }
}

impl AdaptiveBatchProcessor {
    /// The settings.
    pub closed spec fn config(self) -> AdaptiveBatchingConfig {
        self.config
    }

    /// The batch size in force.
    pub closed spec fn batch_size(self) -> usize {
        self.current_batch_size
    }

    /// The smoothed load, in millionths.
    pub closed spec fn load(self) -> u64 {
        self.network_load
    }

    /// The packets that wait, oldest first.
    pub closed spec fn queue(self) -> Seq<Vec<u8>> {
        self.packet_queue@
    }

    /// The statistics.
    pub closed spec fn statistics(self) -> BatchingStats {
        self.stats
    }

    /// When the last batch was released, in milliseconds.
    pub closed spec fn last_batch(self) -> u64 {
        self.last_batch_ms
    }

    /// The load signals that the smoothed load averages, oldest first.
    pub closed spec fn window(self) -> Seq<u64> {
        self.load_window@
    }

    /// The settings are valid, the batch size is between 1 and 128, the
    /// queue holds no more packets than its capacity, and the window holds
    /// at most 100 signals of at most one.
    pub closed spec fn wf(self) -> bool {
        &&& self.config.valid()
        &&& self.packet_queue@.len() <= self.config.queue_capacity
        &&& 1 <= self.current_batch_size <= 128
        &&& self.network_load <= UNIT
        &&& self.load_window@.len() <= 100
        &&& forall|i: int|
            0 <= i < self.load_window@.len() ==> (#[trigger] self.load_window@[i]) <= 1_000_000
    }

    /// A processor with an empty queue whose clock starts at `now_ms`.
    /// Refused where the sizes are not between 1 and 128 or not in order.
    pub fn new_at(config: AdaptiveBatchingConfig, now_ms: u64) -> (made: Result<
        AdaptiveBatchProcessor,
        MixnodeError,
    >)
        ensures
            config.min_batch_size < 1 || config.max_batch_size > 128 ==> (made matches Err(
                MixnodeError::Config(m),
            ) && m@ == "Batch size must be between 1 and 128"@),
            1 <= config.min_batch_size && config.max_batch_size <= 128 && config.min_batch_size
                > config.max_batch_size ==> (made matches Err(MixnodeError::Config(m)) && m@
                == "Min batch size must be <= max batch size"@),
            config.valid() ==> (made matches Ok(p) && p.wf() && p.config() == config
                && p.batch_size() == clamped(config.initial_batch_size as int, 1, 128) && p.load()
                == 0 && p.queue().len() == 0 && p.statistics() == BatchingStats::empty()
                && p.last_batch() == now_ms && p.window().len() == 0),
    {
        if config.min_batch_size < 1 || config.max_batch_size > 128 {
            return Err(
                MixnodeError::Config(String::from_str("Batch size must be between 1 and 128")),
            );
        }
        if config.min_batch_size > config.max_batch_size {
            return Err(
                MixnodeError::Config(String::from_str("Min batch size must be <= max batch size")),
            );
        }
        let initial = if config.initial_batch_size < 1 {
            1
        } else if config.initial_batch_size > 128 {
            128
        } else {
            config.initial_batch_size
        };
        Ok(
            AdaptiveBatchProcessor {
                config,
                current_batch_size: initial,
                network_load: 0,
                packet_queue: VecDeque::new(),
                stats: BatchingStats::new(),
                last_batch_ms: now_ms,
                load_window: VecDeque::new(),
            },
        )
    }

    /// A processor whose clock starts at the time of the call: at the
    /// milliseconds of the instant that the clock shows. Refused where the
    /// sizes are not between 1 and 128 or not in order.
    pub fn new(config: AdaptiveBatchingConfig) -> (made: Result<AdaptiveBatchProcessor, MixnodeError>)
        ensures
            made is Ok <==> config.valid(),
            config.min_batch_size < 1 || config.max_batch_size > 128 ==> (made matches Err(
                MixnodeError::Config(m),
            ) && m@ == "Batch size must be between 1 and 128"@),
            1 <= config.min_batch_size && config.max_batch_size <= 128 && config.min_batch_size
                > config.max_batch_size ==> (made matches Err(MixnodeError::Config(m)) && m@
                == "Min batch size must be <= max batch size"@),
            made matches Ok(p) ==> p.wf() && p.config() == config && p.batch_size() == clamped(
                config.initial_batch_size as int,
                1,
                128,
            ) && p.load() == 0 && p.queue().len() == 0 && p.statistics() == BatchingStats::empty()
                && p.window().len() == 0 && (exists|now: UtcInstant|
                p.last_batch() == #[trigger] unix_millis(now)),
    {
        let now_ms = now_millis();
        AdaptiveBatchProcessor::new_at(config, now_ms)
    }

    /// A well-formed processor never holds more packets than its capacity.
    pub proof fn lemma_queue_within_capacity(self)
        requires
            self.wf(),
        ensures
            self.queue().len() <= self.config().queue_capacity,
    {
    }

    /// Puts a packet at the end of the queue, where the queue has room. A
    /// full queue turns the packet away at once: it is dropped and counted,
    /// and the call fails.
    pub fn submit_packet(&mut self, packet: Vec<u8>) -> (done: Result<(), MixnodeError>)
        requires
            old(self).wf(),
        ensures
            final(self).wf(),
            final(self).queue().len() <= final(self).config().queue_capacity,
            old(self).queue().len() < old(self).config().queue_capacity ==> done is Ok && final(self).queue() == old(self).queue().push(packet) && final(self).statistics() == old(self).statistics(),
            old(self).queue().len() >= old(self).config().queue_capacity ==> (done matches Err(
                MixnodeError::Packet(m),
            ) && m@ == "Batch queue full: packet dropped"@) && final(self).queue() == old(self).queue() && final(self).statistics() == old(self).statistics().with_drop(),
            final(self).config() == old(self).config(),
            final(self).batch_size() == old(self).batch_size(),
            final(self).load() == old(self).load(),
            final(self).last_batch() == old(self).last_batch(),
            final(self).window() == old(self).window(),
    {
        if self.packet_queue.len() >= self.config.queue_capacity {
            self.stats.packets_dropped = self.stats.packets_dropped.saturating_add(1);
            return Err(MixnodeError::Packet(String::from_str("Batch queue full: packet dropped")));
        }
        self.packet_queue.push_back(packet);
        Ok(())
    }

    /// Takes a load signal in: joins it to the window, smooths, and sets the
    /// batch size that the strategy gives at the smoothed load. A change of
    /// the batch size is counted.
    pub fn update_network_load(&mut self, load: u64)
        requires
            old(self).wf(),
        ensures
            final(self).wf(),
            final(self).window() == window_after(old(self).window(), load),
            final(self).load() == smoothed_load(final(self).window()),
            final(self).batch_size() == target_size(old(self).config(), final(self).load() as int),
            final(self).statistics() == (BatchingStats {
                adaptations_count: if final(self).batch_size() != old(self).batch_size() {
                    raised(old(self).statistics().adaptations_count, 1)
                } else {
                    old(self).statistics().adaptations_count
                },
                ..old(self).statistics()
            }),
            final(self).config() == old(self).config(),
            final(self).queue() == old(self).queue(),
            final(self).last_batch() == old(self).last_batch(),
    {
        let held = if load > UNIT {
            UNIT
        } else {
            load
        };
        self.load_window.push_back(held);
        if self.load_window.len() > LOAD_WINDOW {
            let _ = self.load_window.pop_front();
        }
        assert(self.load_window@ =~= window_after(old(self).window(), load));
        let mut sum: u64 = 0;
        let mut i: usize = 0;
        assert(self.load_window@.take(0) =~= Seq::<u64>::empty());
        while i < self.load_window.len()
            invariant
                i <= self.load_window@.len() <= 100,
                forall|j: int|
                    0 <= j < self.load_window@.len() ==> (#[trigger] self.load_window@[j])
                        <= 1_000_000,
                sum == total_load(self.load_window@.take(i as int)),
                sum <= i * 1_000_000,
            decreases self.load_window@.len() - i,
        {
            proof {
                let next = self.load_window@.take(i + 1);
                assert(next.drop_last() =~= self.load_window@.take(i as int));
                assert(next.last() == self.load_window@[i as int]);
            }
            sum = sum + self.load_window[i];
            i = i + 1;
        }
        assert(self.load_window@.take(i as int) =~= self.load_window@);
        let smoothed = sum / (self.load_window.len() as u64);
        assert(smoothed <= 1_000_000) by (nonlinear_arith)
            requires
                smoothed == sum / (i as u64),
                sum <= i * 1_000_000,
                i > 0,
        ;
        self.network_load = smoothed;
        self.adapt_batch_size(smoothed);
    }

    /// Sets the batch size that the strategy gives at `load`.
    fn adapt_batch_size(&mut self, load: u64)
        requires
            old(self).config.valid(),
            load <= UNIT,
        ensures
            final(self).current_batch_size == target_size(old(self).config, load as int),
            1 <= final(self).current_batch_size <= 128,
            final(self).stats == (BatchingStats {
                adaptations_count: if final(self).current_batch_size != old(self).current_batch_size {
                    raised(old(self).stats.adaptations_count, 1)
                } else {
                    old(self).stats.adaptations_count
                },
                ..old(self).stats
            }),
            final(self).config == old(self).config,
            final(self).network_load == old(self).network_load,
            final(self).packet_queue == old(self).packet_queue,
            final(self).last_batch_ms == old(self).last_batch_ms,
            final(self).load_window == old(self).load_window,
    {
        let min = self.config.min_batch_size as u128;
        let max = self.config.max_batch_size as u128;
        let l = load as u128;
        let size: u128 = match self.config.strategy {
            BatchingStrategy::Fixed => self.config.initial_batch_size as u128,
            BatchingStrategy::LoadBased => {
                assert((max - min) * l * l <= 127 * 1_000_000_000_000) by (nonlinear_arith)
                    requires
                        0 <= max - min <= 127,
                        0 <= l <= 1_000_000,
                ;
                assert((max - min) * l <= 127 * 1_000_000) by (nonlinear_arith)
                    requires
                        0 <= max - min <= 127,
                        0 <= l <= 1_000_000,
                ;
                let num: u128 = (max - min) * l * l;
                min + (2 * num + 1_000_000_000_000) / 2_000_000_000_000
            },
            BatchingStrategy::MinLatency => {
                if load >= self.config.load_increase_threshold {
                    (min + max) / 4
                } else {
                    min
                }
            },
            BatchingStrategy::MaxThroughput => {
                if load <= self.config.load_decrease_threshold {
                    (min + 3 * max) / 4
                } else {
                    max
                }
            },
            BatchingStrategy::Balanced => {
                let mid = (min + max) / 2;
                if load < self.config.load_decrease_threshold {
                    min
                } else if load > self.config.load_increase_threshold {
                    max
                } else if self.config.load_increase_threshold
                    == self.config.load_decrease_threshold {
                    mid
                } else {
                    let den: u128 = (self.config.load_increase_threshold
                        - self.config.load_decrease_threshold) as u128;
                    let step: u128 = (load - self.config.load_decrease_threshold) as u128;
                    assert((max - mid) * step <= 127 * 1_000_000) by (nonlinear_arith)
                        requires
                            0 <= max - mid <= 127,
                            0 <= step <= 1_000_000,
                    ;
                    let num: u128 = (max - mid) * step;
                    mid + (2 * num + den) / (2 * den)
                }
            },
        };
        let new_size: usize = if size < 1 {
            1
        } else if size > 128 {
            128
        } else {
            size as usize
        };
        if new_size != self.current_batch_size {
            self.current_batch_size = new_size;
            self.stats.adaptations_count = self.stats.adaptations_count.saturating_add(1);
        }
    }

    /// How long to wait before the next batch, as of `now_ms`. The wait is
    /// counted into the total delay, and the batch counts as released when
    /// the wait is over.
    pub fn begin_batch(&mut self, now_ms: u64) -> (wait_ms: u64)
        requires
            old(self).wf(),
        ensures
            final(self).wf(),
            wait_ms == wait_needed(old(self).config().min_delay_ms, old(self).last_batch(), now_ms),
            wait_ms <= old(self).config().min_delay_ms,
            final(self).last_batch() == raised(now_ms, wait_ms as int),
            final(self).statistics() == (BatchingStats {
                total_delay_ms: raised(old(self).statistics().total_delay_ms, wait_ms as int),
                ..old(self).statistics()
            }),
            final(self).config() == old(self).config(),
            final(self).batch_size() == old(self).batch_size(),
            final(self).load() == old(self).load(),
            final(self).queue() == old(self).queue(),
            final(self).window() == old(self).window(),
    {
        let min_delay = self.config.min_delay_ms;
        let wait = if now_ms < self.last_batch_ms {
            min_delay
        } else if now_ms - self.last_batch_ms < min_delay {
            min_delay - (now_ms - self.last_batch_ms)
        } else {
            0
        };
        self.stats.total_delay_ms = self.stats.total_delay_ms.saturating_add(wait);
        self.last_batch_ms = now_ms.saturating_add(wait);
        wait
    }

    /// Hands out the next batch: the oldest packets of the queue, as many as
    /// the batch size allows. An empty batch is not counted.
    pub fn next_batch(&mut self) -> (batch: Vec<Vec<u8>>)
        requires
            old(self).wf(),
        ensures
            final(self).wf(),
            batch@.len() == (if old(self).queue().len() < old(self).batch_size() {
                old(self).queue().len()
            } else {
                old(self).batch_size() as nat
            }),
            batch@.len() <= 128,
            batch@ == old(self).queue().take(batch@.len() as int),
            final(self).queue() == old(self).queue().skip(batch@.len() as int),
            final(self).statistics() == (if batch@.len() == 0 {
                old(self).statistics()
            } else {
                old(self).statistics().with_batch(batch@.len() as int)
            }),
            final(self).config() == old(self).config(),
            final(self).batch_size() == old(self).batch_size(),
            final(self).load() == old(self).load(),
            final(self).last_batch() == old(self).last_batch(),
            final(self).window() == old(self).window(),
    {
        let target = self.current_batch_size;
        let actual = if self.packet_queue.len() < target {
            self.packet_queue.len()
        } else {
            target
        };
        let mut batch: Vec<Vec<u8>> = Vec::new();
        if actual == 0 {
            assert(batch@ =~= old(self).queue().take(0));
            assert(self.packet_queue@ =~= old(self).queue().skip(0));
            return batch;
        }
        let mut taken: usize = 0;
        assert(batch@ =~= old(self).packet_queue@.take(0));
        assert(self.packet_queue@ =~= old(self).packet_queue@.skip(0));
        while taken < actual
            invariant
                taken <= actual <= old(self).packet_queue@.len(),
                batch@ == old(self).packet_queue@.take(taken as int),
                self.packet_queue@ == old(self).packet_queue@.skip(taken as int),
                self.config == old(self).config,
                self.current_batch_size == old(self).current_batch_size,
                self.network_load == old(self).network_load,
                self.stats == old(self).stats,
                self.last_batch_ms == old(self).last_batch_ms,
                self.load_window == old(self).load_window,
            decreases actual - taken,
        {
            match self.packet_queue.pop_front() {
                Some(packet) => {
                    batch.push(packet);
                },
                None => {},
            }
            taken = taken + 1;
            assert(batch@ =~= old(self).packet_queue@.take(taken as int));
            assert(self.packet_queue@ =~= old(self).packet_queue@.skip(taken as int));
        }
        self.stats.packets_processed = self.stats.packets_processed.saturating_add(actual as u64);
        self.stats.batches_created = self.stats.batches_created.saturating_add(1);
        self.stats.avg_batch_size = self.stats.packets_processed / self.stats.batches_created;
        batch
    }

    /// The batch size in force: between 1 and 128.
    pub fn current_batch_size(&self) -> (size: usize)
        ensures
            size == self.batch_size(),
            self.wf() ==> 1 <= size <= 128,
    {
        self.current_batch_size
    }

    /// The smoothed load, in millionths.
    pub fn current_network_load(&self) -> (load: u64)
        ensures
            load == self.load(),
    {
        self.network_load
    }

    /// Number of packets that wait.
    pub fn queue_length(&self) -> (length: usize)
        ensures
            length == self.queue().len(),
    {
        self.packet_queue.len()
    }

    /// The statistics.
    pub fn stats(&self) -> (stats: &BatchingStats)
        ensures
            *stats == self.statistics(),
    {
        &self.stats
    }

    /// How well privacy and latency are served, in millionths: six tenths
    /// of the batch size over the largest size, and four tenths of the
    /// least interval over the mean wait per packet, each at most one (the
    /// latter one where nothing was waited for).
    pub fn privacy_latency_score(&self) -> (score: u64)
        requires
            self.wf(),
        ensures
            score == privacy_latency(self.batch_size() as int, self.config(), self.statistics()),
            score <= UNIT,
    {
        let batch: u64 = if self.current_batch_size >= self.config.max_batch_size {
            UNIT
        } else {
            (self.current_batch_size as u64) * 1_000_000 / (self.config.max_batch_size as u64)
        };
        assert(batch <= 1_000_000) by (nonlinear_arith)
            requires
                self.current_batch_size >= self.config.max_batch_size ==> batch == 1_000_000,
                self.current_batch_size < self.config.max_batch_size ==> batch == (
                self.current_batch_size * 1_000_000) / (self.config.max_batch_size as int),
                self.config.max_batch_size > 0,
                self.current_batch_size >= 0,
        ;
        let latency: u64 = if self.stats.total_delay_ms == 0 || self.stats.packets_processed == 0 {
            UNIT
        } else {
            assert(self.config.min_delay_ms * self.stats.packets_processed
                <= 0xFFFF_FFFF_FFFF_FFFF * 0xFFFF_FFFF_FFFF_FFFF) by (nonlinear_arith)
                requires
                    0 <= self.config.min_delay_ms <= 0xFFFF_FFFF_FFFF_FFFF,
                    0 <= self.stats.packets_processed <= 0xFFFF_FFFF_FFFF_FFFF,
            ;
            let target: u128 = (self.config.min_delay_ms as u128) * (
            self.stats.packets_processed as u128);
            if target >= self.stats.total_delay_ms as u128 {
                UNIT
            } else {
                let share: u128 = target * 1_000_000 / (self.stats.total_delay_ms as u128);
                assert(share <= 1_000_000) by (nonlinear_arith)
                    requires
                        share == (target * 1_000_000) / (self.stats.total_delay_ms as int),
                        0 <= target < self.stats.total_delay_ms,
                ;
                share as u64
            }
        };
        (6 * batch + 4 * latency) / 10
    }
}

/// The score of privacy against latency, in millionths.
pub open spec fn privacy_latency(batch_size: int, config: AdaptiveBatchingConfig, stats: BatchingStats) -> int {
    let batch = if batch_size >= config.max_batch_size {
        1_000_000
    } else {
        batch_size * 1_000_000 / (config.max_batch_size as int)
    };
    let latency = if stats.total_delay_ms == 0 || stats.packets_processed == 0 {
        1_000_000
    } else if config.min_delay_ms * stats.packets_processed >= stats.total_delay_ms {
        1_000_000
    } else {
        config.min_delay_ms * stats.packets_processed * 1_000_000 / (stats.total_delay_ms as int)
    };
    (6 * batch + 4 * latency) / 10
}

} // verus!
