//! Delays that follow a Poisson process: each packet is held for a time
//! drawn from an exponential distribution, stretched or shrunk per circuit,
//! jittered, and held between a least and a largest delay.
//!
//! The exponential draw itself needs a logarithm and is made by the caller;
//! everything from the draw to the delay is decided here. Times are whole
//! milliseconds or microseconds as named; factors are millionths.

use crate::error::MixnodeError;
use crate::fixed::{clamped, UNIT};
use crate::random::draw_millionths;
use vstd::prelude::*;

verus! {

/// Largest jitter: a half.
pub const MAX_JITTER: u64 = 500_000;

/// Jitter unless set otherwise: a tenth.
pub const DEFAULT_JITTER: u64 = 100_000;

/// Least circuit multiplier: a tenth.
pub const MIN_MULTIPLIER: u64 = 100_000;

/// Largest circuit multiplier: ten.
pub const MAX_MULTIPLIER: u64 = 10_000_000;

/// A duration in microseconds that is a thousand times `ms`, or the
/// largest number where that is beyond it.
pub open spec fn micros_of(ms: u64) -> u64 {
    if ms * 1_000 > u64::MAX {
        u64::MAX
    } else {
        (ms * 1_000) as u64
    }
}

/// The mean under a load `load` (in millionths, taken as at most one):
/// `base * (1 + 2 * load^2)`, rounded down, and at most the largest number.
pub open spec fn adapted_mean(base_us: u64, load: u64) -> u64 {
    let l = if load > 1_000_000 {
        1_000_000
    } else {
        load as int
    };
    let wide = base_us * (1_000_000_000_000 + 2 * l * l) / 1_000_000_000_000;
    if wide > u64::MAX {
        u64::MAX
    } else {
        wide as u64
    }
}

/// The factor that a jitter of `jitter` gives on the draw `draw` (both in
/// millionths, the draw under one): `1 + (2 * draw - 1) * jitter`, held
/// between a half and one and a half; one without jitter.
pub open spec fn jitter_factor(jitter: u64, draw: u64) -> int {
    if jitter == 0 {
        1_000_000
    } else {
        clamped(
            1_000_000 + (2 * draw - 1_000_000) * jitter / 1_000_000,
            500_000,
            1_500_000,
        )
    }
}

/// The delay in milliseconds for an exponential draw of `sample_us`
/// microseconds: the draw times the circuit multiplier times the jitter
/// factor, each product rounded down, in whole milliseconds, held between
/// the least and the largest delay.
pub open spec fn shaped_delay(
    sample_us: u64,
    multiplier: u64,
    jitter: u64,
    draw: u64,
    min_ms: u64,
    max_ms: u64,
) -> int {
    let adjusted = sample_us * multiplier / 1_000_000;
    let jittered = adjusted * jitter_factor(jitter, draw) / 1_000_000;
    clamped(jittered / 1_000, min_ms as int, max_ms as int)
}

/// A delay in whole milliseconds held between `min_ms` and `max_ms`.
pub fn clamp_delay(delay_us: u128, min_ms: u64, max_ms: u64) -> (delay_ms: u64)
    requires
        min_ms <= max_ms,
    ensures
        delay_ms == clamped(delay_us as int / 1_000, min_ms as int, max_ms as int),
        min_ms <= delay_ms <= max_ms,
{
    let ms: u128 = delay_us / 1_000;
    if ms < min_ms as u128 {
        min_ms
    } else if ms > max_ms as u128 {
        max_ms
    } else {
        ms as u64
    }
}

/// Shapes exponential draws into delays.
#[derive(Debug, Clone, Copy)]
pub struct PoissonDelayGenerator {
    base_mean_us: u64,
    current_mean_us: u64,
    min_delay_ms: u64,
    max_delay_ms: u64,
    jitter: u64,
    load_adaptation_factor: u64,
    circuit_multiplier: u64,
}

impl PoissonDelayGenerator {
    /// The mean delay without adaptation, in microseconds.
    pub closed spec fn base_mean(self) -> u64 {
        self.base_mean_us
    }

    /// The mean delay under the load last reported, in microseconds.
    pub closed spec fn current_mean(self) -> u64 {
        self.current_mean_us
    }

    /// The least delay, in milliseconds.
    pub closed spec fn min_delay(self) -> u64 {
        self.min_delay_ms
    }

    /// The largest delay, in milliseconds.
    pub closed spec fn max_delay(self) -> u64 {
        self.max_delay_ms
    }

    /// The jitter, in millionths.
    pub closed spec fn jitter_share(self) -> u64 {
        self.jitter
    }

    /// The load last reported, in millionths.
    pub closed spec fn load(self) -> u64 {
        self.load_adaptation_factor
    }

    /// The circuit multiplier, in millionths.
    pub closed spec fn multiplier(self) -> u64 {
        self.circuit_multiplier
    }

    /// The least delay is not above the largest, the jitter is at most a
    /// half, and the multiplier between a tenth and ten.
    pub closed spec fn wf(self) -> bool {
        &&& self.min_delay_ms <= self.max_delay_ms
        &&& self.jitter <= MAX_JITTER
        &&& self.load_adaptation_factor <= UNIT
        &&& MIN_MULTIPLIER <= self.circuit_multiplier <= MAX_MULTIPLIER
    }

    /// A generator for the given mean, least and largest delay in
    /// milliseconds, with a jitter of a tenth. Refused where the mean is not
    /// between the least and the largest delay.
    pub fn new(mean_delay_ms: u64, min_delay_ms: u64, max_delay_ms: u64) -> (made: Result<
        PoissonDelayGenerator,
        MixnodeError,
    >)
        ensures
            min_delay_ms <= mean_delay_ms <= max_delay_ms ==> (made matches Ok(g) && g.wf()
                && g.base_mean() == micros_of(mean_delay_ms) && g.current_mean() == micros_of(
                mean_delay_ms,
            ) && g.min_delay() == min_delay_ms && g.max_delay() == max_delay_ms
                && g.jitter_share() == DEFAULT_JITTER && g.load() == 0 && g.multiplier() == UNIT),
            !(min_delay_ms <= mean_delay_ms <= max_delay_ms) ==> (made matches Err(
                MixnodeError::Config(m),
            ) && m@ == "Mean delay must be between min and max delays"@),
    {
        if mean_delay_ms < min_delay_ms || mean_delay_ms > max_delay_ms {
            return Err(
                MixnodeError::Config(
                    String::from_str("Mean delay must be between min and max delays"),
                ),
            );
        }
        let mean_us = if mean_delay_ms > u64::MAX / 1_000 {
            u64::MAX
        } else {
            mean_delay_ms * 1_000
        };
        Ok(
            PoissonDelayGenerator {
                base_mean_us: mean_us,
                current_mean_us: mean_us,
                min_delay_ms,
                max_delay_ms,
                jitter: DEFAULT_JITTER,
                load_adaptation_factor: 0,
                circuit_multiplier: UNIT,
            },
        )
    }

    /// The generator with another jitter, taken as at most a half.
    pub fn with_jitter(self, jitter: u64) -> (g: PoissonDelayGenerator)
        requires
            self.wf(),
        ensures
            g.wf(),
            g.jitter_share() == (if jitter > MAX_JITTER {
                MAX_JITTER
            } else {
                jitter
            }),
            g.base_mean() == self.base_mean(),
            g.current_mean() == self.current_mean(),
            g.min_delay() == self.min_delay(),
            g.max_delay() == self.max_delay(),
            g.load() == self.load(),
            g.multiplier() == self.multiplier(),
    {
        let mut g = self;
        g.jitter = if jitter > MAX_JITTER {
            MAX_JITTER
        } else {
            jitter
        };
        g
    }

    /// Takes the load on the network in: the mean grows to `base * (1 + 2 *
    /// load^2)`.
    pub fn adapt_to_network_load(&mut self, load: u64)
        requires
            old(self).wf(),
        ensures
            final(self).wf(),
            final(self).load() == (if load > UNIT {
                UNIT
            } else {
                load
            }),
            final(self).current_mean() == adapted_mean(old(self).base_mean(), load),
            final(self).current_mean() >= old(self).base_mean(),
            final(self).base_mean() == old(self).base_mean(),
            final(self).min_delay() == old(self).min_delay(),
            final(self).max_delay() == old(self).max_delay(),
            final(self).jitter_share() == old(self).jitter_share(),
            final(self).multiplier() == old(self).multiplier(),
    {
        let held: u64 = if load > UNIT {
            UNIT
        } else {
            load
        };
        self.load_adaptation_factor = held;
        let l = held as u128;
        assert(l * l <= 1_000_000_000_000 && 2 * l * l == 2 * (l * l)) by (nonlinear_arith)
            requires
                0 <= l <= 1_000_000,
        ;
        let square: u128 = l * l;
        let factor: u128 = 1_000_000_000_000 + 2 * square;
        assert(self.base_mean_us * factor <= 0xFFFF_FFFF_FFFF_FFFF * 3_000_000_000_000)
            by (nonlinear_arith)
            requires
                0 <= self.base_mean_us <= 0xFFFF_FFFF_FFFF_FFFF,
                0 <= factor <= 3_000_000_000_000,
        ;
        let wide: u128 = (self.base_mean_us as u128) * factor / 1_000_000_000_000;
        assert(wide >= self.base_mean_us) by (nonlinear_arith)
            requires
                wide == (self.base_mean_us * factor) / 1_000_000_000_000,
                factor >= 1_000_000_000_000,
                self.base_mean_us >= 0,
        ;
        self.current_mean_us = if wide > u64::MAX as u128 {
            u64::MAX
        } else {
            wide as u64
        };
    }

    /// Sets the circuit multiplier, taken as between a tenth and ten.
    pub fn set_circuit_multiplier(&mut self, multiplier: u64)
        requires
            old(self).wf(),
        ensures
            final(self).wf(),
            final(self).multiplier() == clamped(multiplier as int, 100_000, 10_000_000),
            final(self).base_mean() == old(self).base_mean(),
            final(self).current_mean() == old(self).current_mean(),
            final(self).min_delay() == old(self).min_delay(),
            final(self).max_delay() == old(self).max_delay(),
            final(self).jitter_share() == old(self).jitter_share(),
            final(self).load() == old(self).load(),
    {
        self.circuit_multiplier = if multiplier < MIN_MULTIPLIER {
            MIN_MULTIPLIER
        } else if multiplier > MAX_MULTIPLIER {
            MAX_MULTIPLIER
        } else {
            multiplier
        };
    }

    /// The mean delay in force, in whole milliseconds: the current mean
    /// times the circuit multiplier.
    pub fn effective_mean_delay(&self) -> (mean_ms: u64)
        requires
            self.wf(),
        ensures
            mean_ms == self.current_mean() * self.multiplier() / 1_000_000 / 1_000,
    {
        assert(self.current_mean_us * self.circuit_multiplier <= 0xFFFF_FFFF_FFFF_FFFF * 10_000_000)
            by (nonlinear_arith)
            requires
                0 <= self.current_mean_us <= 0xFFFF_FFFF_FFFF_FFFF,
                0 <= self.circuit_multiplier <= 10_000_000,
        ;
        let wide: u128 = (self.current_mean_us as u128) * (self.circuit_multiplier as u128)
            / 1_000_000 / 1_000;
        wide as u64
    }

    /// The mean delay without adaptation, in microseconds.
    pub fn base_mean_delay(&self) -> (mean_us: u64)
        ensures
            mean_us == self.base_mean(),
    {
        self.base_mean_us
    }

    /// The mean delay under the load last reported, in microseconds: the
    /// mean of the exponential distribution to draw from.
    pub fn mean_delay(&self) -> (mean_us: u64)
        ensures
            mean_us == self.current_mean(),
    {
        self.current_mean_us
    }

    /// The delay in milliseconds for an exponential draw of `sample_us`
    /// microseconds and a jitter draw of `draw` millionths.
    pub fn delay_for(&self, sample_us: u64, draw: u64) -> (delay_ms: u64)
        requires
            self.wf(),
            draw < 1_000_000,
        ensures
            delay_ms == shaped_delay(
                sample_us,
                self.multiplier(),
                self.jitter_share(),
                draw,
                self.min_delay(),
                self.max_delay(),
            ),
            self.min_delay() <= delay_ms <= self.max_delay(),
    {
        assert(sample_us * self.circuit_multiplier <= 0xFFFF_FFFF_FFFF_FFFF * 10_000_000)
            by (nonlinear_arith)
            requires
                0 <= sample_us <= 0xFFFF_FFFF_FFFF_FFFF,
                0 <= self.circuit_multiplier <= 10_000_000,
        ;
        let adjusted: u128 = (sample_us as u128) * (self.circuit_multiplier as u128) / 1_000_000;
        let factor: u128 = if self.jitter == 0 {
            1_000_000
        } else {
            let swing: i128 = 2 * (draw as i128) - 1_000_000;
            assert(-500_000_000_000 <= swing * self.jitter <= 500_000_000_000) by (nonlinear_arith)
                requires
                    -1_000_000 <= swing < 1_000_000,
                    0 <= self.jitter <= 500_000,
            ;
            let product: i128 = swing * (self.jitter as i128);
            // division rounds toward minus infinity, as in the rule
            let shift: i128 = if product >= 0 {
                product / 1_000_000
            } else {
                -((-product + 999_999) / 1_000_000)
            };
            assert(shift == (swing * self.jitter) / 1_000_000);
            let raw: i128 = 1_000_000 + shift;
            if raw < 500_000 {
                500_000
            } else if raw > 1_500_000 {
                1_500_000
            } else {
                raw as u128
            }
        };
        assert(adjusted * factor <= 0xFFFF_FFFF_FFFF_FFFF * 10 * 1_500_000) by (nonlinear_arith)
            requires
                0 <= adjusted <= 0xFFFF_FFFF_FFFF_FFFF * 10,
                0 <= factor <= 1_500_000,
        ;
        let jittered: u128 = adjusted * factor / 1_000_000;
        clamp_delay(jittered, self.min_delay_ms, self.max_delay_ms)
    }

    /// The delay in milliseconds for an exponential draw of `sample_us`
    /// microseconds, with a jitter drawn at random.
    pub fn next_delay_from(&self, sample_us: u64) -> (delay_ms: u64)
        requires
            self.wf(),
        ensures
            self.min_delay() <= delay_ms <= self.max_delay(),
            exists|draw: u64|
                draw < 1_000_000 && delay_ms == #[trigger] shaped_delay(
                    sample_us,
                    self.multiplier(),
                    self.jitter_share(),
                    draw,
                    self.min_delay(),
                    self.max_delay(),
                ),
    {
        let draw = draw_millionths();
        self.delay_for(sample_us, draw)
    }
}

} // verus!
