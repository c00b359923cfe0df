//! Defence against timing attacks: delays are randomised, and a sliding
//! window of what was delayed by how much shows how well that hides the
//! traffic.
//!
//! Shares are millionths, rates are packets per second in millionths,
//! delays are whole milliseconds, points in time are microseconds.

use crate::cover::Series;
use crate::fixed::{capped, clamped, isqrt, sqrt_floor, UNIT};
use crate::random::draw_millionths;
use std::collections::VecDeque;
use vstd::prelude::*;

verus! {

/// Most packets that the window holds, whatever the settings say.
pub const MAX_WINDOW: usize = 1024;

/// Largest delay that counts as it is, in milliseconds; larger ones count
/// as this.
pub const MAX_DELAY_MS: u64 = 0x10_0000;

/// Number of packets that burst detection looks at.
pub const BURST_SPAN: usize = 10;

/// The settings of the defence.
#[derive(Debug, Clone, Copy, PartialEq, Eq, Structural)]
pub struct TimingDefenseConfig {
    pub enabled: bool,
    /// By how much delays are randomised either way, in millionths.
    pub randomization_pct: u64,
    /// Number of packets in the window.
    pub correlation_window_size: usize,
    /// Packets per second above which a burst is seen, in millionths.
    pub burst_threshold: u64,
    /// Correlation under which the defence counts as effective, in millionths.
    pub max_correlation: u64,
}

impl TimingDefenseConfig {
    /// The settings unless told otherwise: on, three tenths either way, a
    /// window of 100, bursts above 100 packets per second, correlation
    /// under three tenths.
    pub open spec fn standard() -> TimingDefenseConfig {
        TimingDefenseConfig {
            enabled: true,
            randomization_pct: 300_000,
            correlation_window_size: 100,
            burst_threshold: 100_000_000,
            max_correlation: 300_000,
        }
    }

    /// The number of packets that the window holds: what is configured, at
    /// most 1024.
    pub open spec fn window(self) -> int {
        if self.correlation_window_size > MAX_WINDOW {
            MAX_WINDOW as int
        } else {
            self.correlation_window_size as int
        }
    }
}

impl Default for TimingDefenseConfig {
    fn default() -> (config: TimingDefenseConfig)
        ensures
            config == TimingDefenseConfig::standard(),
    {
        TimingDefenseConfig {
            enabled: true,
            randomization_pct: 300_000,
            correlation_window_size: 100,
            burst_threshold: 100_000_000,
            max_correlation: 300_000,
        }
    }
}

/// What was done to one packet.
#[derive(Debug, Clone, Copy, PartialEq, Eq, Structural)]
pub struct PacketTiming {
    /// When the packet was recorded, in microseconds.
    pub timestamp_us: u64,
    /// The packet's size in bytes.
    pub size: usize,
    /// The delay before randomisation, in milliseconds.
    pub original_delay_ms: u64,
    /// The delay after randomisation, in milliseconds.
    pub actual_delay_ms: u64,
}

/// A delay as the statistics count it: at most `MAX_DELAY_MS`.
pub open spec fn counted_delay(ms: u64) -> int {
    if ms > MAX_DELAY_MS {
        MAX_DELAY_MS as int
    } else {
        ms as int
    }
}

/// The delay after randomisation, in whole milliseconds: `delay * (1 + (2 *
/// draw - 1) * share)`, the share taken as at most one, and the result as
/// at most the largest number.
pub open spec fn randomized(delay_ms: u64, share: u64, draw: u64) -> int {
    let s = if share > 1_000_000 {
        1_000_000
    } else {
        share as int
    };
    let micros = delay_ms * 1_000;
    capped((micros + (2 * draw - 1_000_000) * (micros * s / 1_000_000) / 1_000_000) / 1_000)
}

/// The delay that masks a burst, in milliseconds: from 10 up to, and
/// without, 100, with the draw.
pub open spec fn mask_delay(draw: u64) -> int {
    10 + draw * 90 / 1_000_000
}

/// Sum of the intended delays.
pub open spec fn sum_original(history: Seq<PacketTiming>) -> int
    decreases history.len(),
{
    if history.len() == 0 {
        0
    } else {
        sum_original(history.drop_last()) + counted_delay(history.last().original_delay_ms)
    }
}

/// Sum of the actual delays.
pub open spec fn sum_actual(history: Seq<PacketTiming>) -> int
    decreases history.len(),
{
    if history.len() == 0 {
        0
    } else {
        sum_actual(history.drop_last()) + counted_delay(history.last().actual_delay_ms)
    }
}

/// Sum of the squares of the intended delays.
pub open spec fn squares_original(history: Seq<PacketTiming>) -> int
    decreases history.len(),
{
    if history.len() == 0 {
        0
    } else {
        squares_original(history.drop_last()) + counted_delay(history.last().original_delay_ms)
            * counted_delay(history.last().original_delay_ms)
    }
}

/// Sum of the squares of the actual delays.
pub open spec fn squares_actual(history: Seq<PacketTiming>) -> int
    decreases history.len(),
{
    if history.len() == 0 {
        0
    } else {
        squares_actual(history.drop_last()) + counted_delay(history.last().actual_delay_ms)
            * counted_delay(history.last().actual_delay_ms)
    }
}

/// Sum of the products of intended and actual delay.
pub open spec fn products(history: Seq<PacketTiming>) -> int
    decreases history.len(),
{
    if history.len() == 0 {
        0
    } else {
        products(history.drop_last()) + counted_delay(history.last().original_delay_ms)
            * counted_delay(history.last().actual_delay_ms)
    }
}

/// `num / den` rounded towards zero.
pub open spec fn toward_zero(num: int, den: int) -> int
    recommends
        den > 0,
{
    if num >= 0 {
        num / den
    } else {
        -((-num) / den)
    }
}

/// Pearson's correlation between intended and actual delays, in millionths,
/// rounded towards zero and held between minus one and one:
/// `(n * Σxy - Σx * Σy) / sqrt((n * Σx² - (Σx)²) * (n * Σy² - (Σy)²))`.
/// Zero for fewer than two packets or where one of the two does not vary.
pub open spec fn correlation_of(history: Seq<PacketTiming>) -> int {
    let n = history.len() as int;
    let covariance = n * products(history) - sum_original(history) * sum_actual(history);
    let spread_x = n * squares_original(history) - sum_original(history) * sum_original(history);
    let spread_y = n * squares_actual(history) - sum_actual(history) * sum_actual(history);
    let scale = sqrt_floor(spread_x * spread_y);
    if n < 2 || scale <= 0 {
        0
    } else {
        clamped(toward_zero(covariance * 1_000_000, scale), -1_000_000, 1_000_000)
    }
}

/// Whether the last ten packets came faster than `threshold`: they came at
/// one instant, or ten over the time they span is above the threshold.
/// Never with fewer than ten packets.
pub open spec fn burst_in(history: Seq<PacketTiming>, threshold: u64) -> bool {
    if history.len() < 10 {
        false
    } else {
        let newest = history[history.len() - 1].timestamp_us;
        let oldest = history[history.len() - 10].timestamp_us;
        newest <= oldest || 10_000_000_000_000 > threshold * (newest - oldest)
    }
}

/// The intervals between the packets of the window, in microseconds; an
/// interval counts as zero where the clock went back, and as at most
/// 2^32 - 1.
pub open spec fn interval_series(history: Seq<PacketTiming>) -> Series
    decreases history.len(),
{
    if history.len() < 2 {
        Series::empty()
    } else {
        let a = history[history.len() - 2].timestamp_us;
        let b = history[history.len() - 1].timestamp_us;
        interval_series(history.drop_last()).with(
            if b < a {
                0
            } else {
                (b - a) as u64
            },
        )
    }
}

/// The variance of the intervals between packets, in square microseconds,
/// rounded down: `(n * Σx² - (Σx)²) / n²`. Zero for fewer than two packets.
pub open spec fn interval_variance(history: Seq<PacketTiming>) -> int {
    let s = interval_series(history);
    if s.count == 0 {
        0
    } else {
        (s.count * s.squares - s.sum * s.sum) / (s.count * s.count)
    }
}

/// The variance of intervals, in square microseconds, from which on it
/// counts in full: 10000 square milliseconds.
pub const FULL_VARIANCE: u64 = 10_000_000_000;

/// The entropy, in millionths of a bit, from which on it counts in full:
/// 4.32 bits, about what twenty equally filled bins have.
pub const FULL_ENTROPY: u64 = 4_320_000;

/// How well traffic resists timing analysis, in millionths, rounded down:
/// three tenths of how far the correlation (in millionths) is from one or
/// minus one, three tenths of the variance of the intervals (in square
/// microseconds) as a share of 10000 square milliseconds, and four tenths of
/// the entropy (in millionths of a bit) as a share of 4.32 bits; each share
/// is at most one.
pub open spec fn resistance_of(correlation: int, variance: int, entropy: int) -> int {
    let size = if correlation < 0 {
        -correlation
    } else {
        correlation
    };
    let by_correlation = clamped(1_000_000 - size, 0, 1_000_000);
    let by_variance = clamped(variance / 10_000, 0, 1_000_000);
    let by_entropy = clamped(entropy * 1_000_000 / 4_320_000, 0, 1_000_000);
    (3 * by_correlation + 3 * by_variance + 4 * by_entropy) / 10
}

/// The score is between nothing and one, and no part of it goes down when
/// the correlation shrinks in size, the variance grows or the entropy grows.
pub proof fn lemma_resistance_is_a_share(correlation: int, variance: int, entropy: int)
    ensures
        0 <= resistance_of(correlation, variance, entropy) <= 1_000_000,
        resistance_of(correlation, variance, entropy) <= resistance_of(0, variance, entropy),
        resistance_of(correlation, variance, entropy) <= resistance_of(
            correlation,
            variance + 1,
            entropy,
        ),
        resistance_of(correlation, variance, entropy) <= resistance_of(
            correlation,
            variance,
            entropy + 1,
        ),
{
}

/// The least actual delay of the window.
pub open spec fn least_delay(history: Seq<PacketTiming>) -> int
    recommends
        history.len() > 0,
    decreases history.len(),
{
    if history.len() <= 1 {
        history[0].actual_delay_ms as int
    } else {
        let before = least_delay(history.drop_last());
        if history.last().actual_delay_ms < before {
            history.last().actual_delay_ms as int
        } else {
            before
        }
    }
}

/// The largest actual delay of the window.
pub open spec fn largest_delay(history: Seq<PacketTiming>) -> int
    recommends
        history.len() > 0,
    decreases history.len(),
{
    if history.len() <= 1 {
        history[0].actual_delay_ms as int
    } else {
        let before = largest_delay(history.drop_last());
        if history.last().actual_delay_ms > before {
            history.last().actual_delay_ms as int
        } else {
            before
        }
    }
}

/// The bin of a delay among `bins` bins of equal width from `least` to
/// `largest`; the largest delay falls into the last bin.
pub open spec fn bin_of(delay: int, least: int, largest: int, bins: int) -> int
    recommends
        least <= delay <= largest,
        least < largest,
        bins > 0,
{
    let bin = (delay - least) * bins / (largest - least);
    if bin >= bins {
        bins - 1
    } else {
        bin
    }
}

/// Number of packets of `history` whose actual delay falls into `bin`.
pub open spec fn count_in_bin(
    history: Seq<PacketTiming>,
    least: int,
    largest: int,
    bins: int,
    bin: int,
) -> int
    decreases history.len(),
{
    if history.len() == 0 {
        0
    } else {
        count_in_bin(history.drop_last(), least, largest, bins, bin) + if bin_of(
            history.last().actual_delay_ms as int,
            least,
            largest,
            bins,
        ) == bin {
            1int
        } else {
            0int
        }
    }
}

/// Whether there is a histogram: ten packets or more, a bin or more, and
/// delays that differ.
pub open spec fn has_histogram(history: Seq<PacketTiming>, bins: int) -> bool {
    history.len() >= 10 && bins > 0 && least_delay(history) < largest_delay(history)
}

/// Keeps the window and answers for it.
pub struct TimingDefenseManager {
    config: TimingDefenseConfig,
    timing_history: VecDeque<PacketTiming>,
}

impl TimingDefenseManager {
    /// The settings.
    pub closed spec fn config(self) -> TimingDefenseConfig {
        self.config
    }

    /// The packets of the window, oldest first.
    pub closed spec fn history(self) -> Seq<PacketTiming> {
        self.timing_history@
    }

    /// The window holds no more packets than it may.
    pub closed spec fn wf(self) -> bool {
        self.timing_history@.len() <= self.config.window()
    }

    /// A manager with an empty window.
    pub fn new(config: TimingDefenseConfig) -> (manager: TimingDefenseManager)
        ensures
            manager.wf(),
            manager.config() == config,
            manager.history().len() == 0,
    {
        TimingDefenseManager { config, timing_history: VecDeque::new() }
    }

    /// Randomises a delay with the draw `draw`; unchanged where the defence is off.
    pub fn randomize_delay_with(&self, delay_ms: u64, draw: u64) -> (actual_ms: u64)
        requires
            draw < 1_000_000,
        ensures
            actual_ms == (if self.config().enabled {
                randomized(delay_ms, self.config().randomization_pct, draw)
            } else {
                delay_ms as int
            }),
    {
        if !self.config.enabled {
            return delay_ms;
        }
        let share: u128 = if self.config.randomization_pct > UNIT {
            UNIT as u128
        } else {
            self.config.randomization_pct as u128
        };
        let micros: u128 = (delay_ms as u128) * 1_000;
        assert(micros * share <= 0xFFFF_FFFF_FFFF_FFFF * 1_000 * 1_000_000) by (nonlinear_arith)
            requires
                0 <= micros <= 0xFFFF_FFFF_FFFF_FFFF * 1_000,
                0 <= share <= 1_000_000,
        ;
        let range: u128 = micros * share / 1_000_000;
        assert(range <= micros) by (nonlinear_arith)
            requires
                range == (micros * share) / 1_000_000,
                0 <= share <= 1_000_000,
                0 <= micros,
        ;
        let swing: i128 = 2 * (draw as i128) - 1_000_000;
        assert(-1_000_000 * (0xFFFF_FFFF_FFFF_FFFF * 1_000) <= swing * range <= 1_000_000 * (
        0xFFFF_FFFF_FFFF_FFFF * 1_000)) by (nonlinear_arith)
            requires
                -1_000_000 <= swing <= 1_000_000,
                0 <= range <= 0xFFFF_FFFF_FFFF_FFFF * 1_000,
        ;
        let product: i128 = swing * (range as i128);
        let shift: i128 = if product >= 0 {
            product / 1_000_000
        } else {
            -((-product + 999_999) / 1_000_000)
        };
        assert(shift == (swing * range) / 1_000_000);
        assert(-range <= shift <= range) by (nonlinear_arith)
            requires
                shift == (swing * range) / 1_000_000,
                -1_000_000 <= swing <= 1_000_000,
                range >= 0,
        ;
        let moved: i128 = (micros as i128) + shift;
        let whole: u128 = (moved as u128) / 1_000;
        if whole > u64::MAX as u128 {
            u64::MAX
        } else {
            whole as u64
        }
    }

    /// Randomises a delay at random.
    pub fn randomize_delay(&self, delay_ms: u64) -> (actual_ms: u64)
        ensures
            !self.config().enabled ==> actual_ms == delay_ms,
            self.config().enabled ==> exists|draw: u64|
                draw < 1_000_000 && actual_ms == #[trigger] randomized(
                    delay_ms,
                    self.config().randomization_pct,
                    draw,
                ),
    {
        let draw = draw_millionths();
        self.randomize_delay_with(delay_ms, draw)
    }

    /// Puts a packet into the window; the oldest leave while there are more
    /// than the window holds.
    pub fn record_packet_timing(
        &mut self,
        size: usize,
        original_delay_ms: u64,
        actual_delay_ms: u64,
        now_us: u64,
    )
        requires
            old(self).wf(),
        ensures
            final(self).wf(),
            final(self).config() == old(self).config(),
            ({
                let all = old(self).history().push(
                    PacketTiming { timestamp_us: now_us, size, original_delay_ms, actual_delay_ms },
                );
                let keep = old(self).config().window();
                final(self).history() == (if all.len() > keep {
                    all.skip(all.len() - keep)
                } else {
                    all
                })
            }),
    {
        let keep = if self.config.correlation_window_size > MAX_WINDOW {
            MAX_WINDOW
        } else {
            self.config.correlation_window_size
        };
        self.timing_history.push_back(
            PacketTiming { timestamp_us: now_us, size, original_delay_ms, actual_delay_ms },
        );
        let ghost all = self.timing_history@;
        assert(all.skip(0) =~= all);
        while self.timing_history.len() > keep
            invariant
                self.config == old(self).config,
                self.timing_history@.len() <= all.len(),
                self.timing_history@ == all.skip(all.len() - self.timing_history@.len()),
                self.timing_history@.len() == all.len() || self.timing_history@.len() >= keep,
            decreases self.timing_history@.len(),
        {
            let ghost before = self.timing_history@;
            let _ = self.timing_history.pop_front();
            assert(self.timing_history@ =~= all.skip(all.len() - self.timing_history@.len()));
        }
    }

    /// Number of packets in the window.
    pub fn history_len(&self) -> (count: usize)
        ensures
            count == self.history().len(),
    {
        self.timing_history.len()
    }

    /// Pearson's correlation between intended and actual delays, in millionths.
    pub fn calculate_correlation(&self) -> (correlation: i64)
        requires
            self.wf(),
        ensures
            correlation == correlation_of(self.history()),
            -1_000_000 <= correlation <= 1_000_000,
    {
        let n = self.timing_history.len();
        if n < 2 {
            return 0;
        }
        let mut xs = Series::new();
        let mut ys = Series::new();
        let mut xy: u128 = 0;
        let mut i: usize = 0;
        assert(self.timing_history@.take(0) =~= Seq::<PacketTiming>::empty());
        while i < n
            invariant
                i <= n == self.timing_history@.len() <= MAX_WINDOW,
                xs.wf(),
                ys.wf(),
                xs.count == i,
                ys.count == i,
                xs.sum == sum_original(self.timing_history@.take(i as int)),
                ys.sum == sum_actual(self.timing_history@.take(i as int)),
                xs.squares == squares_original(self.timing_history@.take(i as int)),
                ys.squares == squares_actual(self.timing_history@.take(i as int)),
                xy == products(self.timing_history@.take(i as int)),
                xs.sum <= i * MAX_DELAY_MS,
                ys.sum <= i * MAX_DELAY_MS,
                xs.squares <= i * (MAX_DELAY_MS * MAX_DELAY_MS),
                ys.squares <= i * (MAX_DELAY_MS * MAX_DELAY_MS),
                xy <= i * (MAX_DELAY_MS * MAX_DELAY_MS),
            decreases n - i,
        {
            let t = self.timing_history[i];
            let x: u64 = if t.original_delay_ms > MAX_DELAY_MS {
                MAX_DELAY_MS
            } else {
                t.original_delay_ms
            };
            let y: u64 = if t.actual_delay_ms > MAX_DELAY_MS {
                MAX_DELAY_MS
            } else {
                t.actual_delay_ms
            };
            proof {
                let next = self.timing_history@.take(i + 1);
                assert(next.drop_last() =~= self.timing_history@.take(i as int));
                assert(next.last() == self.timing_history@[i as int]);
                let m = MAX_DELAY_MS as int;
                assert(x * x <= m * m && y * y <= m * m && x * y <= m * m) by (nonlinear_arith)
                    requires
                        0 <= x <= m,
                        0 <= y <= m,
                ;
                assert((i + 1) * m == i * m + m && (i + 1) * (m * m) == i * (m * m) + m * m)
                    by (nonlinear_arith);
                assert(i * (m * m) <= 1024 * (m * m)) by (nonlinear_arith)
                    requires
                        i <= 1024,
                        m >= 0,
                ;
            }
            xs.record(x);
            ys.record(y);
            xy = xy + (x as u128) * (y as u128);
            i = i + 1;
        }
        assert(self.timing_history@.take(n as int) =~= self.timing_history@);
        let wide_n = n as u128;
        proof {
            let m = MAX_DELAY_MS as int;
            let mm = m * m;
            assert(wide_n * xs.squares <= 1024 * (1024 * mm) && wide_n * ys.squares <= 1024 * (1024
                * mm) && wide_n * xy <= 1024 * (1024 * mm)) by (nonlinear_arith)
                requires
                    0 <= wide_n <= 1024,
                    0 <= xs.squares <= wide_n * mm,
                    0 <= ys.squares <= wide_n * mm,
                    0 <= xy <= wide_n * mm,
                    mm >= 0,
            ;
            assert(xs.sum * ys.sum <= (1024 * m) * (1024 * m)) by (nonlinear_arith)
                requires
                    0 <= xs.sum <= wide_n * m,
                    0 <= ys.sum <= wide_n * m,
                    0 <= wide_n <= 1024,
                    m >= 0,
            ;
        }
        let spread_x: u128 = wide_n * xs.squares - xs.sum * xs.sum;
        let spread_y: u128 = wide_n * ys.squares - ys.sum * ys.sum;
        assert(1024 * (1024 * (MAX_DELAY_MS * MAX_DELAY_MS)) == 0x1000_0000_0000_0000int)
            by (nonlinear_arith)
            requires
                MAX_DELAY_MS == 0x10_0000,
        ;
        assert(spread_x * spread_y <= 0x1_0000_0000_0000_0000_0000_0000_0000_00int)
            by (nonlinear_arith)
            requires
                0 <= spread_x <= 0x1000_0000_0000_0000int,
                0 <= spread_y <= 0x1000_0000_0000_0000int,
        ;
        let scale = isqrt(spread_x * spread_y);
        if scale == 0 {
            return 0;
        }
        assert(xs.sum <= 0x4000_0000 && ys.sum <= 0x4000_0000) by (nonlinear_arith)
            requires
                xs.sum <= wide_n * MAX_DELAY_MS,
                ys.sum <= wide_n * MAX_DELAY_MS,
                wide_n <= 1024,
                MAX_DELAY_MS == 0x10_0000,
        ;
        assert(xs.sum * ys.sum <= 0x1000_0000_0000_0000int) by (nonlinear_arith)
            requires
                0 <= xs.sum <= 0x4000_0000,
                0 <= ys.sum <= 0x4000_0000,
        ;
        let covariance: i128 = (wide_n * xy) as i128 - (xs.sum * ys.sum) as i128;
        let scaled: i128 = covariance * 1_000_000;
        let ratio: i128 = if scaled >= 0 {
            scaled / (scale as i128)
        } else {
            -((-scaled) / (scale as i128))
        };
        if ratio < -1_000_000 {
            -1_000_000
        } else if ratio > 1_000_000 {
            1_000_000
        } else {
            ratio as i64
        }
    }

    /// Whether the defence is effective: the correlation, whatever its
    /// sign, is under the configured one.
    pub fn is_defense_effective(&self) -> (effective: bool)
        requires
            self.wf(),
        ensures
            effective == (-(self.config().max_correlation as int) < correlation_of(self.history())
                < self.config().max_correlation),
    {
        let correlation = self.calculate_correlation();
        let size: u64 = if correlation < 0 {
            (-correlation) as u64
        } else {
            correlation as u64
        };
        size < self.config.max_correlation
    }

    /// How well the traffic of the window resists timing analysis, in
    /// millionths, for delays of the given entropy in millionths of a bit.
    pub fn timing_attack_resistance_score(&self, entropy: u64) -> (score: u64)
        requires
            self.wf(),
        ensures
            score == resistance_of(
                correlation_of(self.history()),
                interval_variance(self.history()),
                entropy as int,
            ),
            score <= 1_000_000,
    {
        let correlation = self.calculate_correlation();
        let size: u64 = if correlation < 0 {
            (-correlation) as u64
        } else {
            correlation as u64
        };
        let by_correlation: u64 = UNIT - size;
        let variance = self.calculate_timing_variance();
        let by_variance: u64 = if variance >= FULL_VARIANCE as u128 {
            UNIT
        } else {
            (variance / 10_000) as u64
        };
        let by_entropy: u64 = if entropy >= FULL_ENTROPY {
            UNIT
        } else {
            ((entropy as u128) * (UNIT as u128) / (FULL_ENTROPY as u128)) as u64
        };
        (3 * by_correlation + 3 * by_variance + 4 * by_entropy) / 10
    }

    /// Whether the last ten packets came in a burst.
    pub fn detect_burst(&self) -> (burst: bool)
        ensures
            burst == burst_in(self.history(), self.config().burst_threshold),
    {
        let n = self.timing_history.len();
        if n < BURST_SPAN {
            return false;
        }
        let newest = self.timing_history[n - 1].timestamp_us;
        let oldest = self.timing_history[n - BURST_SPAN].timestamp_us;
        if newest <= oldest {
            return true;
        }
        assert(self.config.burst_threshold * (newest - oldest) <= 0xFFFF_FFFF_FFFF_FFFF
            * 0xFFFF_FFFF_FFFF_FFFF) by (nonlinear_arith)
            requires
                0 <= self.config.burst_threshold <= 0xFFFF_FFFF_FFFF_FFFF,
                0 <= newest - oldest <= 0xFFFF_FFFF_FFFF_FFFF,
        ;
        10_000_000_000_000u128 > (self.config.burst_threshold as u128) * ((newest - oldest) as u128)
    }

    /// The delay that masks a burst, for the draw `draw`; nothing where
    /// there is no burst.
    pub fn mask_burst_pattern_with(&self, draw: u64) -> (delay_ms: Option<u64>)
        requires
            draw < 1_000_000,
        ensures
            delay_ms == (if burst_in(self.history(), self.config().burst_threshold) {
                Some(mask_delay(draw) as u64)
            } else {
                None
            }),
            delay_ms matches Some(d) ==> 10 <= d < 100,
    {
        if !self.detect_burst() {
            return None;
        }
        Some(10 + draw * 90 / 1_000_000)
    }

    /// The delay that masks a burst, drawn at random between 10 and 100
    /// milliseconds; nothing where there is no burst.
    pub fn mask_burst_pattern(&self) -> (delay_ms: Option<u64>)
        ensures
            delay_ms is Some <==> burst_in(self.history(), self.config().burst_threshold),
            delay_ms matches Some(d) ==> 10 <= d < 100,
    {
        let draw = draw_millionths();
        self.mask_burst_pattern_with(draw)
    }

    /// The variance of the intervals between the packets of the window, in
    /// square microseconds.
    pub fn calculate_timing_variance(&self) -> (variance: u128)
        requires
            self.wf(),
        ensures
            variance == interval_variance(self.history()),
    {
        let n = self.timing_history.len();
        let mut intervals = Series::new();
        if n < 2 {
            assert(interval_series(self.timing_history@) == Series::empty());
            return 0;
        }
        let mut i: usize = 1;
        assert(interval_series(self.timing_history@.take(1)) == Series::empty());
        while i < n
            invariant
                1 <= i <= n == self.timing_history@.len() <= MAX_WINDOW,
                intervals.wf(),
                intervals == interval_series(self.timing_history@.take(i as int)),
                intervals.count < i,
            decreases n - i,
        {
            let a = self.timing_history[i - 1].timestamp_us;
            let b = self.timing_history[i].timestamp_us;
            proof {
                let next = self.timing_history@.take(i + 1);
                assert(next.drop_last() =~= self.timing_history@.take(i as int));
                assert(next[next.len() - 1] == self.timing_history@[i as int]);
                assert(next[next.len() - 2] == self.timing_history@[i - 1]);
            }
            intervals.record(
                if b < a {
                    0
                } else {
                    b - a
                },
            );
            i = i + 1;
        }
        assert(self.timing_history@.take(n as int) =~= self.timing_history@);
        if intervals.count == 0 {
            return 0;
        }
        let count = intervals.count as u128;
        proof {
            let m = crate::cover::MAX_SAMPLE * crate::cover::MAX_SAMPLE;
            assert(count * intervals.squares <= 1024 * (1024 * m)) by (nonlinear_arith)
                requires
                    0 <= count <= 1024,
                    0 <= intervals.squares <= count * m,
                    m >= 0,
            ;
            assert(0 < count * count <= 1024 * 1024) by (nonlinear_arith)
                requires
                    0 < count <= 1024,
            ;
        }
        (count * intervals.squares - intervals.sum * intervals.sum) / (count * count)
    }

    /// How many packets of the window fall into each of `num_bins` bins of
    /// equal width between the least and the largest actual delay: what the
    /// entropy of the delays is taken over. Empty where there is no
    /// histogram: under ten packets, no bin, or delays that are all the same.
    pub fn delay_histogram(&self, num_bins: usize) -> (counts: Vec<usize>)
        requires
            self.wf(),
        ensures
            !has_histogram(self.history(), num_bins as int) ==> counts@.len() == 0,
            has_histogram(self.history(), num_bins as int) ==> counts@.len() == num_bins
                && forall|b: int|
                0 <= b < num_bins ==> #[trigger] counts@[b] == count_in_bin(
                    self.history(),
                    least_delay(self.history()),
                    largest_delay(self.history()),
                    num_bins as int,
                    b,
                ),
    {
        let n = self.timing_history.len();
        let mut counts: Vec<usize> = Vec::new();
        if n < BURST_SPAN || num_bins == 0 {
            return counts;
        }
        let mut least = self.timing_history[0].actual_delay_ms;
        let mut largest = self.timing_history[0].actual_delay_ms;
        let mut i: usize = 1;
        while i < n
            invariant
                1 <= i <= n == self.timing_history@.len(),
                least == least_delay(self.timing_history@.take(i as int)),
                largest == largest_delay(self.timing_history@.take(i as int)),
                least <= largest,
                forall|j: int|
                    0 <= j < i ==> least <= (#[trigger] self.timing_history@[j]).actual_delay_ms
                        <= largest,
            decreases n - i,
        {
            proof {
                let next = self.timing_history@.take(i + 1);
                assert(next.drop_last() =~= self.timing_history@.take(i as int));
                assert(next.last() == self.timing_history@[i as int]);
            }
            let d = self.timing_history[i].actual_delay_ms;
            if d < least {
                least = d;
            }
            if d > largest {
                largest = d;
            }
            i = i + 1;
        }
        assert(self.timing_history@.take(n as int) =~= self.timing_history@);
        if least == largest {
            return counts;
        }
        let mut b: usize = 0;
        while b < num_bins
            invariant
                b <= num_bins,
                counts@.len() == b,
                forall|k: int| 0 <= k < b ==> #[trigger] counts@[k] == 0,
            decreases num_bins - b,
        {
            counts.push(0);
            b = b + 1;
        }
        let mut j: usize = 0;
        assert(self.timing_history@.take(0) =~= Seq::<PacketTiming>::empty());
        while j < n
            invariant
                j <= n == self.timing_history@.len() <= MAX_WINDOW,
                counts@.len() == num_bins,
                num_bins > 0,
                least < largest,
                forall|k: int|
                    0 <= k < n ==> least <= (#[trigger] self.timing_history@[k]).actual_delay_ms
                        <= largest,
                forall|k: int|
                    0 <= k < num_bins ==> #[trigger] counts@[k] == count_in_bin(
                        self.timing_history@.take(j as int),
                        least as int,
                        largest as int,
                        num_bins as int,
                        k,
                    ),
                forall|k: int| 0 <= k < num_bins ==> #[trigger] counts@[k] <= j,
            decreases n - j,
        {
            let d = self.timing_history[j].actual_delay_ms;
            let width = (largest - least) as u128;
            let offset = (d - least) as u128;
            assert(offset * num_bins <= 0xFFFF_FFFF_FFFF_FFFF * 0xFFFF_FFFF_FFFF_FFFF)
                by (nonlinear_arith)
                requires
                    0 <= offset <= 0xFFFF_FFFF_FFFF_FFFF,
                    0 <= num_bins <= 0xFFFF_FFFF_FFFF_FFFF,
            ;
            let raw: u128 = offset * (num_bins as u128) / width;
            let bin: usize = if raw >= num_bins as u128 {
                num_bins - 1
            } else {
                raw as usize
            };
            proof {
                let next = self.timing_history@.take(j + 1);
                assert(next.drop_last() =~= self.timing_history@.take(j as int));
                assert(next.last() == self.timing_history@[j as int]);
            }
            let old_count = counts[bin];
            counts[bin] = old_count + 1;
            j = j + 1;
        }
        assert(self.timing_history@.take(n as int) =~= self.timing_history@);
        counts
    }

    /// Empties the window.
    pub fn reset_history(&mut self)
        ensures
            final(self).wf(),
            final(self).config() == old(self).config(),
            final(self).history().len() == 0,
    {
        self.timing_history.clear();
    }
}

} // verus!
