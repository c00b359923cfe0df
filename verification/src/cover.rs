//! Cover traffic: dummy packets that look like the real traffic in size
//! and timing, sent only while they stay within a configured share of it.
//!
//! Rates are packets per second in millionths, shares and scores are
//! millionths, times are microseconds.

use crate::fixed::{capped, isqrt, raised, sqrt_floor, UNIT};
use crate::random::draw_millionths;
use vstd::prelude::*;

verus! {

/// Least size of a cover packet.
pub const MIN_COVER_SIZE: u64 = 64;

/// Largest value that a series takes as it is; larger ones count as this.
pub const MAX_SAMPLE: u64 = 0xFFFF_FFFF;

/// Most values that a series takes in; further ones are left out.
pub const MAX_SAMPLES: u64 = 0x8000_0000;

/// One second in microseconds.
pub const SECOND_US: u64 = 1_000_000;

/// How cover packets are spaced.
#[derive(Debug, Clone, Copy, PartialEq, Eq, Structural)]
pub enum CoverTrafficMode {
    /// Always at the target rate.
    ConstantRate,
    /// At the rate of the real traffic.
    Adaptive,
    /// At the target rate with intervals that vary by up to a half.
    Burst,
}

/// The settings of cover traffic.
#[derive(Debug, Clone, Copy, PartialEq, Eq, Structural)]
pub struct CoverTrafficConfig {
    pub enabled: bool,
    pub mode: CoverTrafficMode,
    /// Cover packets per second, in millionths.
    pub target_rate: u64,
    /// Size of a cover packet while no real traffic has been seen.
    pub packet_size: usize,
    /// By how much sizes vary, as a share of the size, in millionths.
    pub size_variability: u64,
    /// Real packets per second under which cover is wanted, in millionths.
    pub min_real_traffic_rate: u64,
    /// Most cover bytes as a share of real bytes, in millionths.
    pub max_bandwidth_overhead: u64,
    /// Similarity from which on cover counts as indistinguishable, in millionths.
    pub indistinguishability_threshold: u64,
}

impl CoverTrafficConfig {
    /// The settings unless told otherwise: off, adaptive, ten packets per
    /// second of 1024 bytes varying by a fifth, at most five hundredths
    /// overhead.
    pub open spec fn standard() -> CoverTrafficConfig {
        CoverTrafficConfig {
            enabled: false,
            mode: CoverTrafficMode::Adaptive,
            target_rate: 10_000_000,
            packet_size: 1024,
            size_variability: 200_000,
            min_real_traffic_rate: 5_000_000,
            max_bandwidth_overhead: 50_000,
            indistinguishability_threshold: 950_000,
        }
    }
}

impl Default for CoverTrafficConfig {
    fn default() -> (config: CoverTrafficConfig)
        ensures
            config == CoverTrafficConfig::standard(),
    {
        CoverTrafficConfig {
            enabled: false,
            mode: CoverTrafficMode::Adaptive,
            target_rate: 10_000_000,
            packet_size: 1024,
            size_variability: 200_000,
            min_real_traffic_rate: 5_000_000,
            max_bandwidth_overhead: 50_000,
            indistinguishability_threshold: 950_000,
        }
    }
}

/// The running sums of a series of values, from which mean and deviation
/// follow exactly.
#[derive(Debug, Clone, Copy, PartialEq, Eq, Structural)]
pub struct Series {
    /// Number of values.
    pub count: u64,
    /// Sum of the values.
    pub sum: u128,
    /// Sum of their squares.
    pub squares: u128,
}

impl Series {
    /// The sums are those of at most 2^31 values of at most 2^32 - 1.
    pub open spec fn wf(self) -> bool {
        &&& self.count <= MAX_SAMPLES
        &&& self.sum <= self.count * MAX_SAMPLE
        &&& self.squares <= self.count * (MAX_SAMPLE * MAX_SAMPLE)
        &&& self.sum * self.sum <= self.count * self.squares
    }

    /// The series of no values.
    pub open spec fn empty() -> Series {
        Series { count: 0, sum: 0, squares: 0 }
    }

    /// The series with one more value; unchanged once it is full.
    pub open spec fn with(self, value: u64) -> Series {
        let v = if value > MAX_SAMPLE {
            MAX_SAMPLE
        } else {
            value
        };
        if self.count >= MAX_SAMPLES {
            self
        } else {
            Series {
                count: (self.count + 1) as u64,
                sum: (self.sum + v) as u128,
                squares: (self.squares + v * v) as u128,
            }
        }
    }

    /// The mean, rounded down; zero without values.
    pub open spec fn mean(self) -> int {
        if self.count == 0 {
            0
        } else {
            self.sum as int / (self.count as int)
        }
    }

    /// The sample variance `(n * squares - sum^2) / (n * (n - 1))`, rounded
    /// down; zero for fewer than two values.
    pub open spec fn variance(self) -> int {
        if self.count < 2 {
            0
        } else {
            (self.count * self.squares - self.sum * self.sum) / (self.count * (self.count - 1))
        }
    }

    /// The standard deviation in thousandths: the whole part of the square
    /// root of a million times the variance.
    pub open spec fn deviation(self) -> int {
        sqrt_floor(self.variance() * 1_000_000)
    }

    /// The coefficient of variation in millionths, at most the largest
    /// 64-bit number: the deviation over the mean.
    pub open spec fn variation(self) -> int
        recommends
            self.mean() > 0,
    {
        capped(self.deviation() * 1_000 / self.mean())
    }

    /// How alike this series and `other` are by their coefficients of
    /// variation, in millionths; zero where one of the means is zero.
    pub open spec fn likeness_to(self, other: Series) -> int {
        if self.mean() <= 0 || other.mean() <= 0 {
            0
        } else {
            likeness(self.variation(), other.variation())
        }
    }

    /// The series of no values.
    pub fn new() -> (series: Series)
        ensures
            series == Series::empty(),
            series.wf(),
    {
        Series { count: 0, sum: 0, squares: 0 }
    }

    /// Takes one more value in.
    pub fn record(&mut self, value: u64)
        requires
            old(self).wf(),
        ensures
            final(self).wf(),
            *final(self) == old(self).with(value),
    {
        if self.count >= MAX_SAMPLES {
            return ;
        }
        let v: u128 = if value > MAX_SAMPLE {
            MAX_SAMPLE as u128
        } else {
            value as u128
        };
        proof {
            let n = self.count as int;
            let s = self.sum as int;
            let q = self.squares as int;
            let m = MAX_SAMPLE as int;
            assert(v * v <= m * m) by (nonlinear_arith)
                requires
                    0 <= v <= m,
            ;
            assert(n * m <= 0x8000_0000 * m && n * (m * m) <= 0x8000_0000 * (m * m))
                by (nonlinear_arith)
                requires
                    0 <= n <= 0x8000_0000,
                    m >= 0,
            ;
            assert((n + 1) * m == n * m + m && (n + 1) * (m * m) == n * (m * m) + m * m)
                by (nonlinear_arith);
            // Cauchy-Schwarz, one step: (s + v)^2 <= (n + 1)(q + v^2) given s^2 <= n q
            assert((s + v) * (s + v) <= (n + 1) * (q + v * v)) by (nonlinear_arith)
                requires
                    s * s <= n * q,
                    0 <= n,
                    0 <= s,
                    0 <= q,
                    0 <= v,
            {
                // 2 s v <= q + n v^2, from (s - n v)^2 >= 0 and s^2 <= n q
                assert(2 * s * v * n <= s * s + n * n * v * v) by {
                    assert((s - n * v) * (s - n * v) >= 0);
                }
            }
        }
        self.count = self.count + 1;
        self.sum = self.sum + v;
        self.squares = self.squares + v * v;
    }

    /// The mean, rounded down; zero without values.
    pub fn average(&self) -> (mean: u64)
        requires
            self.wf(),
        ensures
            mean == self.mean(),
            mean <= MAX_SAMPLE,
    {
        if self.count == 0 {
            return 0;
        }
        let mean = self.sum / (self.count as u128);
        assert(mean <= MAX_SAMPLE) by (nonlinear_arith)
            requires
                mean == self.sum / (self.count as u128),
                self.sum <= self.count * MAX_SAMPLE,
                self.count > 0,
        ;
        mean as u64
    }

    /// The standard deviation in thousandths: the whole part of the square
    /// root of a million times the variance.
    pub fn std_dev_thousandths(&self) -> (deviation: u64)
        requires
            self.wf(),
        ensures
            deviation == self.deviation(),
    {
        if self.count < 2 {
            return isqrt(0);
        }
        let n = self.count as u128;
        proof {
            let m = MAX_SAMPLE as int;
            assert(n * self.squares <= 0x8000_0000 * (0x8000_0000 * (m * m))) by (nonlinear_arith)
                requires
                    0 <= n <= 0x8000_0000,
                    0 <= self.squares <= n * (m * m),
                    m >= 0,
            ;
            assert(n * (n - 1) >= 2) by (nonlinear_arith)
                requires
                    n >= 2,
            ;
            assert(n * (n - 1) <= 0x8000_0000 * 0x8000_0000) by (nonlinear_arith)
                requires
                    2 <= n <= 0x8000_0000,
            ;
        }
        let spread: u128 = n * self.squares - self.sum * self.sum;
        let variance: u128 = spread / (n * (n - 1));
        proof {
            let d = (n * (n - 1)) as int;
            let mm = MAX_SAMPLE * MAX_SAMPLE;
            assert(n * n <= 2 * d) by (nonlinear_arith)
                requires
                    d == n * (n - 1),
                    n >= 2,
            ;
            assert(n * self.squares <= n * n * mm) by (nonlinear_arith)
                requires
                    0 <= self.squares <= n * mm,
                    n >= 0,
            ;
            assert(n * n * mm <= 2 * d * mm) by (nonlinear_arith)
                requires
                    n * n <= 2 * d,
                    mm >= 0,
            ;
            assert(variance <= 2 * mm) by (nonlinear_arith)
                requires
                    variance == spread as int / d,
                    0 <= spread <= 2 * d * mm,
                    d > 0,
            ;
        }
        isqrt(variance * 1_000_000)
    }
}

/// How alike two coefficients of variation are, in millionths: one less
/// their difference over their sum, the sum taken as at least a thousandth.
pub open spec fn likeness(a: int, b: int) -> int {
    let difference = if a >= b {
        a - b
    } else {
        b - a
    };
    let sum = if a + b < 1_000 {
        1_000
    } else {
        a + b
    };
    1_000_000 - difference * 1_000_000 / sum
}

/// How alike two coefficients of variation are, in millionths.
pub fn likeness_of(a: u64, b: u64) -> (alike: u64)
    ensures
        alike == likeness(a as int, b as int),
        alike <= UNIT,
{
    let difference: u128 = if a >= b {
        (a - b) as u128
    } else {
        (b - a) as u128
    };
    let sum: u128 = if (a as u128) + (b as u128) < 1_000 {
        1_000
    } else {
        (a as u128) + (b as u128)
    };
    let share: u128 = difference * 1_000_000 / sum;
    assert(share <= 1_000_000) by (nonlinear_arith)
        requires
            share == (difference * 1_000_000) / (sum as int),
            0 <= difference <= sum,
            sum > 0,
    ;
    (1_000_000 - share) as u64
}

/// What is known of a stream of packets: its sizes in bytes and the
/// intervals between its packets in microseconds.
#[derive(Debug, Clone, Copy, PartialEq, Eq, Structural)]
pub struct TrafficStatistics {
    pub sizes: Series,
    pub intervals: Series,
}

impl TrafficStatistics {
    /// Both series are well formed.
    pub open spec fn wf(self) -> bool {
        self.sizes.wf() && self.intervals.wf()
    }

    /// Number of packets seen.
    pub open spec fn packets(self) -> u64 {
        self.sizes.count
    }

    /// The statistics of a stream of which nothing was seen.
    pub fn new() -> (stats: TrafficStatistics)
        ensures
            stats.wf(),
            stats.sizes == Series::empty(),
            stats.intervals == Series::empty(),
    {
        TrafficStatistics { sizes: Series::new(), intervals: Series::new() }
    }

    /// Number of packets seen.
    pub fn packet_count(&self) -> (count: u64)
        ensures
            count == self.packets(),
    {
        self.sizes.count
    }

    /// Mean packet size in bytes, rounded down.
    pub fn avg_packet_size(&self) -> (mean: u64)
        requires
            self.wf(),
        ensures
            mean == self.sizes.mean(),
    {
        self.sizes.average()
    }

    /// Mean interval between packets in microseconds, rounded down.
    pub fn avg_interval_us(&self) -> (mean: u64)
        requires
            self.wf(),
        ensures
            mean == self.intervals.mean(),
    {
        self.intervals.average()
    }

    /// How alike this stream and `other` are, in millionths: six tenths of
    /// the likeness of their sizes and four tenths of that of their
    /// intervals; zero where one of the streams is empty.
    pub open spec fn similarity(self, other: TrafficStatistics) -> int {
        if self.packets() == 0 || other.packets() == 0 {
            0
        } else {
            blended(self.sizes.likeness_to(other.sizes), self.intervals.likeness_to(other.intervals))
        }
    }

    /// How alike this stream and `other` are, in millionths.
    pub fn similarity_score(&self, other: &TrafficStatistics) -> (score: u64)
        requires
            self.wf(),
            other.wf(),
        ensures
            score == self.similarity(*other),
            score <= UNIT,
    {
        if self.sizes.count == 0 || other.sizes.count == 0 {
            return 0;
        }
        let size = series_likeness_of(&self.sizes, &other.sizes);
        let interval = series_likeness_of(&self.intervals, &other.intervals);
        (6 * size + 4 * interval) / 10
    }
}

/// Six tenths of the one and four tenths of the other, rounded down.
pub open spec fn blended(size: int, interval: int) -> int {
    (6 * size + 4 * interval) / 10
}

fn series_likeness_of(a: &Series, b: &Series) -> (alike: u64)
    requires
        a.wf(),
        b.wf(),
    ensures
        alike == a.likeness_to(*b),
        alike <= UNIT,
{
    let mean_a = a.average();
    let mean_b = b.average();
    if mean_a == 0 || mean_b == 0 {
        return 0;
    }
    let wide_a: u128 = (a.std_dev_thousandths() as u128) * 1_000 / (mean_a as u128);
    let wide_b: u128 = (b.std_dev_thousandths() as u128) * 1_000 / (mean_b as u128);
    let va: u64 = if wide_a > u64::MAX as u128 {
        u64::MAX
    } else {
        wide_a as u64
    };
    let vb: u64 = if wide_b > u64::MAX as u128 {
        u64::MAX
    } else {
        wide_b as u64
    };
    likeness_of(va, vb)
}

/// The interval at a rate of `rate` millionths of a packet per second, in
/// microseconds, rounded down; a second where the rate is zero.
pub open spec fn interval_at(rate: u64) -> int {
    if rate == 0 {
        1_000_000
    } else {
        1_000_000_000_000int / (rate as int)
    }
}

/// The interval to the next cover packet, in microseconds.
///
/// * `ConstantRate`: the interval at the target rate.
/// * `Adaptive`: the mean interval of the real traffic in whole
///   milliseconds where that is above zero, else the interval at the target
///   rate.
/// * `Burst`: the interval at the target rate, moved by up to a half of it
///   either way with the draw, and at least a millisecond.
pub open spec fn cover_interval_of(config: CoverTrafficConfig, real_interval_us: u64, draw: u64) -> int {
    let base = interval_at(config.target_rate);
    match config.mode {
        CoverTrafficMode::ConstantRate => base,
        CoverTrafficMode::Adaptive => if real_interval_us / 1_000 > 0 {
            real_interval_us / 1_000 * 1_000
        } else {
            base
        },
        CoverTrafficMode::Burst => {
            let moved = base + (2 * draw - 1_000_000) * (base / 2) / 1_000_000;
            if moved < 1_000 {
                1_000
            } else {
                moved
            }
        },
    }
}

/// The size of a cover packet: the mean size of the real traffic (the
/// configured size while that is zero), moved by up to the variability
/// (taken as at most one) either way with the draw, at least 64 bytes and
/// at most what a length can be.
pub open spec fn cover_size_of(config: CoverTrafficConfig, real_mean: u64, draw: u64) -> int {
    let base = if real_mean > 0 {
        real_mean as int
    } else {
        config.packet_size as int
    };
    let variability = if config.size_variability > 1_000_000 {
        1_000_000
    } else {
        config.size_variability as int
    };
    let range = base * variability / 1_000_000;
    let size = base + (2 * draw - 1_000_000) * range / 1_000_000;
    if size < 64 {
        64
    } else if size > usize::MAX {
        usize::MAX as int
    } else {
        size
    }
}

/// A cover packet of `size` bytes may be sent: there is no real traffic to
/// compare with, or with the packet the cover bytes are still at most the
/// configured share of the real bytes.
pub open spec fn cover_fits(cover_bytes: u64, size: int, real_bytes: u64, max_overhead: u64) -> bool {
    real_bytes == 0 || (cover_bytes + size) * 1_000_000 <= max_overhead * real_bytes
}

/// Generates cover packets and keeps the books on real and cover traffic.
#[derive(Debug, Clone, Copy)]
pub struct AdvancedCoverTrafficGenerator {
    config: CoverTrafficConfig,
    packets_sent: u64,
    bytes_sent: u64,
    real_bytes: u64,
    real_traffic_stats: TrafficStatistics,
    cover_traffic_stats: TrafficStatistics,
    last_packet_us: Option<u64>,
}

fn zeros(count: usize) -> (bytes: Vec<u8>)
    ensures
        bytes@.len() == count,
        forall|i: int| 0 <= i < count ==> bytes@[i] == 0,
{
    let mut bytes: Vec<u8> = Vec::new();
    let mut i: usize = 0;
    while i < count
        invariant
            i <= count,
            bytes@.len() == i,
            forall|j: int| 0 <= j < i ==> bytes@[j] == 0,
        decreases count - i,
    {
        bytes.push(0);
        i = i + 1;
    }
    bytes
}

fn moved(base: u128, range: u128, draw: u64) -> (out: i128)
    requires
        draw < 1_000_000,
        base <= 0xFFFF_FFFF_FFFF_FFFF_FFFF,
        range <= 0xFFFF_FFFF_FFFF_FFFF_FFFF,
    ensures
        out == base + (2 * draw - 1_000_000) * range / 1_000_000,
{
    let swing: i128 = 2 * (draw as i128) - 1_000_000;
    assert(-1_000_000 * 0xFFFF_FFFF_FFFF_FFFF_FFFF <= swing * range <= 1_000_000
        * 0xFFFF_FFFF_FFFF_FFFF_FFFF) by (nonlinear_arith)
        requires
            -1_000_000 <= swing <= 1_000_000,
            0 <= range <= 0xFFFF_FFFF_FFFF_FFFF_FFFF,
    ;
    let product: i128 = swing * (range as i128);
    let shift: i128 = if product >= 0 {
        product / 1_000_000
    } else {
        -((-product + 999_999) / 1_000_000)
    };
    assert(shift == (swing * range) / 1_000_000);
    (base as i128) + shift
}

impl AdvancedCoverTrafficGenerator {
    /// The settings.
    pub closed spec fn config(self) -> CoverTrafficConfig {
        self.config
    }

    /// Cover packets sent.
    pub closed spec fn sent_packets(self) -> u64 {
        self.packets_sent
    }

    /// Cover bytes sent.
    pub closed spec fn sent_bytes(self) -> u64 {
        self.bytes_sent
    }

    /// Real bytes seen, every packet at its full size.
    pub closed spec fn seen_bytes(self) -> u64 {
        self.real_bytes
    }

    /// The cover bytes sent are at most the configured share of the real
    /// bytes seen.
    pub open spec fn overhead_kept(self) -> bool {
        self.sent_bytes() * 1_000_000 <= self.config().max_bandwidth_overhead * self.seen_bytes()
    }

    /// What is known of the real traffic.
    pub closed spec fn real_traffic(self) -> TrafficStatistics {
        self.real_traffic_stats
    }

    /// What is known of the cover traffic.
    pub closed spec fn cover_traffic(self) -> TrafficStatistics {
        self.cover_traffic_stats
    }

    /// When the last real packet was seen, in microseconds.
    pub closed spec fn last_packet(self) -> Option<u64> {
        self.last_packet_us
    }

    /// The size that the next cover packet has for a draw of `draw`
    /// millionths.
    pub open spec fn next_size(self, draw: u64) -> int {
        cover_size_of(self.config(), self.real_traffic().sizes.mean() as u64, draw)
    }

    /// A cover packet goes out for a draw of `draw` millionths: cover is on
    /// and the packet fits under the ceiling.
    pub open spec fn emits(self, draw: u64) -> bool {
        self.config().enabled && cover_fits(
            self.sent_bytes(),
            self.next_size(draw),
            self.seen_bytes(),
            self.config().max_bandwidth_overhead,
        )
    }

    /// The books on real and cover traffic are well formed.
    pub closed spec fn wf(self) -> bool {
        self.real_traffic_stats.wf() && self.cover_traffic_stats.wf()
    }

    /// A generator that has seen and sent nothing.
    pub fn new(config: CoverTrafficConfig) -> (generator: AdvancedCoverTrafficGenerator)
        ensures
            generator.wf(),
            generator.config() == config,
            generator.sent_packets() == 0,
            generator.sent_bytes() == 0,
            generator.seen_bytes() == 0,
            generator.real_traffic().sizes == Series::empty(),
            generator.real_traffic().intervals == Series::empty(),
            generator.cover_traffic().sizes == Series::empty(),
            generator.cover_traffic().intervals == Series::empty(),
            generator.last_packet() is None,
    {
        AdvancedCoverTrafficGenerator {
            config,
            packets_sent: 0,
            bytes_sent: 0,
            real_bytes: 0,
            real_traffic_stats: TrafficStatistics::new(),
            cover_traffic_stats: TrafficStatistics::new(),
            last_packet_us: None,
        }
    }

    /// Takes a real packet of `packet_size` bytes, seen at `now_us`, into
    /// the books: its size, and the interval since the packet before it.
    /// Cover that was within its share of the real bytes stays so.
    pub fn update_real_traffic_stats(&mut self, packet_size: usize, now_us: u64)
        requires
            old(self).wf(),
        ensures
            final(self).wf(),
            final(self).seen_bytes() == raised(old(self).seen_bytes(), packet_size as int),
            old(self).overhead_kept() ==> final(self).overhead_kept(),
            final(self).real_traffic().sizes == old(self).real_traffic().sizes.with(packet_size as u64),
            final(self).real_traffic().intervals == (match old(self).last_packet() {
                Some(last) => old(self).real_traffic().intervals.with(
                    if now_us < last {
                        0
                    } else {
                        (now_us - last) as u64
                    },
                ),
                None => old(self).real_traffic().intervals,
            }),
            final(self).last_packet() == Some(now_us),
            final(self).config() == old(self).config(),
            final(self).sent_packets() == old(self).sent_packets(),
            final(self).sent_bytes() == old(self).sent_bytes(),
            final(self).cover_traffic() == old(self).cover_traffic(),
    {
        self.real_traffic_stats.sizes.record(packet_size as u64);
        let seen = self.real_bytes.saturating_add(packet_size as u64);
        assert(self.config.max_bandwidth_overhead * self.real_bytes
            <= self.config.max_bandwidth_overhead * seen) by (nonlinear_arith)
            requires
                self.real_bytes <= seen,
        ;
        self.real_bytes = seen;
        match self.last_packet_us {
            Some(last) => {
                let interval = if now_us < last {
                    0
                } else {
                    now_us - last
                };
                self.real_traffic_stats.intervals.record(interval);
            },
            None => {},
        }
        self.last_packet_us = Some(now_us);
    }

    /// Cover bytes as a share of real bytes, in millionths, rounded down;
    /// zero without real bytes, and at most the largest number.
    pub fn calculate_bandwidth_overhead(&self) -> (overhead: u64)
        requires
            self.wf(),
        ensures
            overhead == (if self.seen_bytes() == 0 {
                0
            } else {
                capped(self.sent_bytes() * 1_000_000 / (self.seen_bytes() as int))
            }),
            self.seen_bytes() > 0 && self.overhead_kept() ==> overhead
                <= self.config().max_bandwidth_overhead,
    {
        let real_bytes = self.real_bytes;
        if real_bytes == 0 {
            return 0;
        }
        proof {
            if self.overhead_kept() {
                let ceiling = self.config.max_bandwidth_overhead as int;
                assert(self.bytes_sent * 1_000_000 / (real_bytes as int) <= ceiling)
                    by (nonlinear_arith)
                    requires
                        self.bytes_sent * 1_000_000 <= ceiling * real_bytes,
                        real_bytes > 0,
                ;
            }
        }
        let wide: u128 = (self.bytes_sent as u128) * 1_000_000 / (real_bytes as u128);
        if wide > u64::MAX as u128 {
            u64::MAX
        } else {
            wide as u64
        }
    }

    /// Makes a cover packet with the size that `draw` (in millionths) gives,
    /// unless cover is off or the packet would take the cover bytes over the
    /// configured share of the real bytes. The packet is all zeros; it is
    /// counted as sent. So with real traffic a packet goes out only while
    /// the cover bytes are below their share, and never takes them over it.
    pub fn generate_cover_packet_with(&mut self, draw: u64) -> (packet: Option<Vec<u8>>)
        requires
            old(self).wf(),
            draw < 1_000_000,
        ensures
            final(self).wf(),
            final(self).config() == old(self).config(),
            final(self).real_traffic() == old(self).real_traffic(),
            final(self).seen_bytes() == old(self).seen_bytes(),
            final(self).last_packet() == old(self).last_packet(),
            packet is Some <==> old(self).emits(draw),
            packet matches Some(p) ==> p@.len() == old(self).next_size(draw) && p@.len() >= 64 && (
            forall|i: int| 0 <= i < p@.len() ==> p@[i] == 0) && final(self).sent_packets()
                == raised(old(self).sent_packets(), 1) && final(self).sent_bytes() == raised(
                old(self).sent_bytes(),
                p@.len() as int,
            ) && final(self).cover_traffic().sizes == old(self).cover_traffic().sizes.with(
                p@.len() as u64,
            ) && final(self).cover_traffic().intervals == old(self).cover_traffic().intervals,
            packet is None ==> final(self).sent_packets() == old(self).sent_packets()
                && final(self).sent_bytes() == old(self).sent_bytes()
                && final(self).cover_traffic() == old(self).cover_traffic(),
            packet is Some && old(self).seen_bytes() > 0 ==> old(self).sent_bytes() * 1_000_000
                < old(self).config().max_bandwidth_overhead * old(self).seen_bytes()
                && final(self).overhead_kept(),
            old(self).seen_bytes() > 0 && old(self).overhead_kept() ==> final(self).overhead_kept(),
    {
        if !self.config.enabled {
            return None;
        }
        let mean = self.real_traffic_stats.sizes.average();
        let base: u128 = if mean > 0 {
            mean as u128
        } else {
            self.config.packet_size as u128
        };
        let variability: u128 = if self.config.size_variability > UNIT {
            UNIT as u128
        } else {
            self.config.size_variability as u128
        };
        assert(base * variability <= 0xFFFF_FFFF_FFFF_FFFF * 1_000_000) by (nonlinear_arith)
            requires
                0 <= base <= 0xFFFF_FFFF_FFFF_FFFF,
                0 <= variability <= 1_000_000,
        ;
        let range: u128 = base * variability / 1_000_000;
        let raw = moved(base, range, draw);
        let size: u128 = if raw < 64 {
            64
        } else if raw > usize::MAX as i128 {
            usize::MAX as u128
        } else {
            raw as u128
        };
        let real_bytes = self.real_bytes;
        assert(self.config.max_bandwidth_overhead * real_bytes <= 0xFFFF_FFFF_FFFF_FFFF
            * 0xFFFF_FFFF_FFFF_FFFF) by (nonlinear_arith)
            requires
                0 <= self.config.max_bandwidth_overhead <= 0xFFFF_FFFF_FFFF_FFFF,
                0 <= real_bytes <= 0xFFFF_FFFF_FFFF_FFFF,
        ;
        if real_bytes > 0 && ((self.bytes_sent as u128) + size) * 1_000_000 > (
        self.config.max_bandwidth_overhead as u128) * (real_bytes as u128) {
            return None;
        }
        let packet = zeros(size as usize);
        self.cover_traffic_stats.sizes.record(size as u64);
        self.packets_sent = self.packets_sent.saturating_add(1);
        self.bytes_sent = self.bytes_sent.saturating_add(size as u64);
        Some(packet)
    }

    /// Makes a cover packet of a size drawn at random, unless cover is off
    /// or the packet would take the cover bytes over the configured share
    /// of the real bytes: what `generate_cover_packet_with` does for some
    /// draw.
    pub fn generate_cover_packet(&mut self) -> (packet: Option<Vec<u8>>)
        requires
            old(self).wf(),
        ensures
            final(self).wf(),
            final(self).config() == old(self).config(),
            final(self).real_traffic() == old(self).real_traffic(),
            final(self).seen_bytes() == old(self).seen_bytes(),
            final(self).last_packet() == old(self).last_packet(),
            exists|draw: u64|
                draw < 1_000_000 && (packet is Some <==> #[trigger] old(self).emits(draw)) && (
                packet matches Some(p) ==> p@.len() == old(self).next_size(draw)),
            !old(self).config().enabled ==> packet is None,
            packet matches Some(p) ==> p@.len() >= 64 && (forall|i: int|
                0 <= i < p@.len() ==> p@[i] == 0) && final(self).sent_packets() == raised(
                old(self).sent_packets(),
                1,
            ) && final(self).sent_bytes() == raised(old(self).sent_bytes(), p@.len() as int)
                && final(self).cover_traffic().sizes == old(self).cover_traffic().sizes.with(
                p@.len() as u64,
            ) && final(self).cover_traffic().intervals == old(self).cover_traffic().intervals,
            packet is None ==> final(self).sent_packets() == old(self).sent_packets()
                && final(self).sent_bytes() == old(self).sent_bytes()
                && final(self).cover_traffic() == old(self).cover_traffic(),
            packet is Some && old(self).seen_bytes() > 0 ==> old(self).sent_bytes() * 1_000_000
                < old(self).config().max_bandwidth_overhead * old(self).seen_bytes()
                && final(self).overhead_kept(),
            old(self).seen_bytes() > 0 && old(self).overhead_kept() ==> final(self).overhead_kept(),
    {
        let draw = draw_millionths();
        self.generate_cover_packet_with(draw)
    }

    /// The interval to the next cover packet in microseconds, for a draw of
    /// `draw` millionths.
    pub fn cover_interval_with(&self, draw: u64) -> (interval_us: u64)
        requires
            self.wf(),
            draw < 1_000_000,
        ensures
            interval_us == cover_interval_of(
                self.config(),
                self.real_traffic().intervals.mean() as u64,
                draw,
            ),
    {
        let base: u64 = if self.config.target_rate == 0 {
            SECOND_US
        } else {
            1_000_000_000_000 / self.config.target_rate
        };
        match self.config.mode {
            CoverTrafficMode::ConstantRate => {
                base
            },
            CoverTrafficMode::Adaptive => {
                let mean = self.real_traffic_stats.intervals.average();
                if mean / 1_000 > 0 {
                    mean / 1_000 * 1_000
                } else {
                    base
                }
            },
            CoverTrafficMode::Burst => {
                let shifted = moved(base as u128, (base / 2) as u128, draw);
                assert(shifted <= base + base / 2) by (nonlinear_arith)
                    requires
                        shifted == base + (2 * draw - 1_000_000) * (base / 2) / 1_000_000,
                        draw < 1_000_000,
                        base >= 0,
                ;
                if shifted < 1_000 {
                    1_000
                } else {
                    shifted as u64
                }
            },
        }
    }

    /// The interval to the next cover packet in microseconds; under the
    /// burst mode it varies at random.
    pub fn cover_interval(&self) -> (interval_us: u64)
        requires
            self.wf(),
        ensures
            exists|draw: u64|
                draw < 1_000_000 && interval_us == #[trigger] cover_interval_of(
                    self.config(),
                    self.real_traffic().intervals.mean() as u64,
                    draw,
                ),
    {
        let draw = draw_millionths();
        self.cover_interval_with(draw)
    }

    /// How alike real and cover traffic are, in millionths.
    pub fn test_indistinguishability(&self) -> (score: u64)
        requires
            self.wf(),
        ensures
            score == self.real_traffic().similarity(self.cover_traffic()),
            score <= UNIT,
    {
        self.real_traffic_stats.similarity_score(&self.cover_traffic_stats)
    }

    /// Whether real and cover traffic are as alike as the settings ask. It
    /// is a signal for monitoring; nothing is held back on it.
    pub fn is_indistinguishable(&self) -> (alike: bool)
        requires
            self.wf(),
        ensures
            alike == (self.real_traffic().similarity(self.cover_traffic())
                >= self.config().indistinguishability_threshold),
    {
        self.test_indistinguishability() >= self.config.indistinguishability_threshold
    }

    /// Cover packets sent.
    pub fn packets_sent(&self) -> (count: u64)
        ensures
            count == self.sent_packets(),
    {
        self.packets_sent
    }

    /// Cover bytes sent.
    pub fn bytes_sent(&self) -> (count: u64)
        ensures
            count == self.sent_bytes(),
    {
        self.bytes_sent
    }

    /// What is known of the real traffic.
    pub fn get_real_traffic_stats(&self) -> (stats: TrafficStatistics)
        ensures
            stats == self.real_traffic(),
    {
        self.real_traffic_stats
    }

    /// What is known of the cover traffic.
    pub fn get_cover_traffic_stats(&self) -> (stats: TrafficStatistics)
        ensures
            stats == self.cover_traffic(),
    {
        self.cover_traffic_stats
    }

    /// Replaces the settings.
    pub fn update_config(&mut self, config: CoverTrafficConfig)
        ensures
            final(self).config() == config,
            final(self).sent_packets() == old(self).sent_packets(),
            final(self).sent_bytes() == old(self).sent_bytes(),
            final(self).seen_bytes() == old(self).seen_bytes(),
            final(self).real_traffic() == old(self).real_traffic(),
            final(self).cover_traffic() == old(self).cover_traffic(),
            final(self).last_packet() == old(self).last_packet(),
            old(self).wf() ==> final(self).wf(),
    {
        self.config = config;
    }

    /// Forgets all traffic seen and sent.
    pub fn reset_stats(&mut self)
        ensures
            final(self).wf(),
            final(self).config() == old(self).config(),
            final(self).sent_packets() == 0,
            final(self).sent_bytes() == 0,
            final(self).seen_bytes() == 0,
            final(self).overhead_kept(),
            final(self).real_traffic().sizes == Series::empty(),
            final(self).real_traffic().intervals == Series::empty(),
            final(self).cover_traffic().sizes == Series::empty(),
            final(self).cover_traffic().intervals == Series::empty(),
            final(self).last_packet() == old(self).last_packet(),
    {
        self.real_traffic_stats = TrafficStatistics::new();
        self.cover_traffic_stats = TrafficStatistics::new();
        self.packets_sent = 0;
        self.bytes_sent = 0;
        self.real_bytes = 0;
    }
}

/// With real traffic seen, a cover packet that fits goes out only while the
/// cover bytes are below the configured share of the real bytes, and leaves
/// them at most at that share. More real traffic keeps them there.
pub proof fn lemma_cover_stays_under_the_ceiling(
    cover_before: u64,
    packet_len: int,
    real_bytes: u64,
    more_real_bytes: u64,
    max_overhead: u64,
)
    requires
        real_bytes > 0,
        packet_len > 0,
        more_real_bytes >= real_bytes,
        cover_fits(cover_before, packet_len, real_bytes, max_overhead),
    ensures
        cover_before * 1_000_000 < max_overhead * real_bytes,
        raised(cover_before, packet_len) * 1_000_000 <= max_overhead * real_bytes,
        raised(cover_before, packet_len) * 1_000_000 <= max_overhead * more_real_bytes,
{
    assert(max_overhead * real_bytes <= max_overhead * more_real_bytes) by (nonlinear_arith)
        requires
            real_bytes <= more_real_bytes,
            max_overhead >= 0,
    ;
}

} // verus!
