//! Poisson delays.

use betanet::delay::{clamp_delay, PoissonDelayGenerator};
use betanet::error::MixnodeError;
use rand::Rng;

/// An exponential draw with the given mean, in microseconds.
fn exponential_us(mean_us: u64) -> u64 {
    let u: f64 = rand::thread_rng().gen();
    (-(1.0 - u).ln() * mean_us as f64) as u64
}

fn samples(generator: &PoissonDelayGenerator, count: usize) -> Vec<u64> {
    (0..count).map(|_| generator.next_delay_from(exponential_us(generator.mean_delay()))).collect()
}

#[test]
fn poisson_delay_test_poisson_delay_bounds() {
    let generator = PoissonDelayGenerator::new(500, 100, 2000).unwrap();

    for delay in samples(&generator, 1000) {
        assert!(delay >= 100);
        assert!(delay <= 2000);
    }
}

#[test]
fn poisson_delay_test_poisson_delay_mean() {
    let generator = PoissonDelayGenerator::new(500, 10, 5000).unwrap();

    let delays = samples(&generator, 10000);
    let sum: u64 = delays.iter().sum();
    let actual_mean = sum / delays.len() as u64;

    // Mean should be within 20% of expected
    let expected_mean = 500u64;
    let tolerance = expected_mean / 5;

    assert!(
        actual_mean >= expected_mean - tolerance && actual_mean <= expected_mean + tolerance,
        "Mean {} is outside tolerance of expected {}",
        actual_mean,
        expected_mean
    );
}

#[test]
fn poisson_delay_test_invalid_config() {
    // min > mean (invalid)
    let result = PoissonDelayGenerator::new(500, 600, 1000);
    assert!(result.is_err());
}

#[test]
fn test_poisson_delay_statistical_properties() {
    let generator = PoissonDelayGenerator::new(500, 50, 2000).unwrap();

    let sample_size = 10000;
    let delays = samples(&generator, sample_size);

    for delay in &delays {
        assert!(*delay >= 50);
        assert!(*delay <= 2000);
    }

    let sum: u64 = delays.iter().sum();
    let actual_mean = sum as f64 / sample_size as f64;
    let expected_mean = 500.0;
    let tolerance = expected_mean * 0.1;
    assert!((actual_mean - expected_mean).abs() < tolerance);

    let median_delay = {
        let mut sorted = delays.clone();
        sorted.sort();
        sorted[sample_size / 2] as f64
    };
    // For an exponential distribution the median is about 0.693 of the mean
    let expected_median = expected_mean * 0.693;
    let median_tolerance = expected_mean * 0.15;
    assert!((median_delay - expected_median).abs() < median_tolerance);

    let variance: f64 = delays
        .iter()
        .map(|d| {
            let diff = *d as f64 - actual_mean;
            diff * diff
        })
        .sum::<f64>()
        / sample_size as f64;
    let cv = variance.sqrt() / actual_mean;
    assert!(cv > 0.8 && cv < 1.2, "Coefficient of variation {} outside expected range", cv);
}

#[test]
fn construction_needs_the_mean_between_least_and_largest() {
    let expected = MixnodeError::Config("Mean delay must be between min and max delays".to_string());
    assert_eq!(PoissonDelayGenerator::new(500, 600, 1000).err().unwrap(), expected);
    assert_eq!(PoissonDelayGenerator::new(1500, 100, 1000).err().unwrap(), expected);
    assert_eq!(PoissonDelayGenerator::new(5, 10, 1).err().unwrap(), expected);
    assert!(PoissonDelayGenerator::new(100, 100, 100).is_ok());
    assert!(PoissonDelayGenerator::new(0, 0, 0).is_ok());
    let g = PoissonDelayGenerator::new(500, 100, 2000).unwrap();
    assert_eq!(g.base_mean_delay(), 500_000);
    assert_eq!(g.mean_delay(), 500_000);
    assert_eq!(g.effective_mean_delay(), 500);
}

#[test]
fn delay_is_the_draw_shaped_and_held_in_bounds() {
    let g = PoissonDelayGenerator::new(500, 100, 2000).unwrap().with_jitter(0);
    assert_eq!(g.delay_for(0, 0), 100);
    assert_eq!(g.delay_for(99_999, 0), 100);
    assert_eq!(g.delay_for(100_000, 0), 100);
    assert_eq!(g.delay_for(437_999, 999_999), 437);
    assert_eq!(g.delay_for(2_000_999, 0), 2000);
    assert_eq!(g.delay_for(u64::MAX, 0), 2000);
}

#[test]
fn jitter_moves_the_delay_by_its_share() {
    let g = PoissonDelayGenerator::new(500, 0, 10_000).unwrap();
    // a tenth either way
    assert_eq!(g.delay_for(1_000_000, 0), 900);
    assert_eq!(g.delay_for(1_000_000, 500_000), 1000);
    assert_eq!(g.delay_for(1_000_000, 250_000), 950);
    assert_eq!(g.delay_for(1_000_000, 999_999), 1099);
    let half = g.with_jitter(500_000);
    assert_eq!(half.delay_for(1_000_000, 0), 500);
    assert_eq!(half.delay_for(1_000_000, 999_999), 1499);
    // jitter is at most a half
    let more = g.with_jitter(900_000);
    assert_eq!(more.delay_for(1_000_000, 0), 500);
    let none = g.with_jitter(0);
    assert_eq!(none.delay_for(1_000_000, 0), 1000);
    assert_eq!(none.delay_for(1_000_000, 999_999), 1000);
}

#[test]
fn circuit_multiplier_scales_and_is_held_between_a_tenth_and_ten() {
    let mut g = PoissonDelayGenerator::new(500, 0, 100_000).unwrap().with_jitter(0);
    g.set_circuit_multiplier(2_000_000);
    assert_eq!(g.delay_for(1_000_000, 0), 2000);
    assert_eq!(g.effective_mean_delay(), 1000);
    g.set_circuit_multiplier(500_000);
    assert_eq!(g.delay_for(1_000_000, 0), 500);
    g.set_circuit_multiplier(1);
    assert_eq!(g.delay_for(1_000_000, 0), 100);
    g.set_circuit_multiplier(u64::MAX);
    assert_eq!(g.delay_for(1_000_000, 0), 10_000);
    assert_eq!(g.effective_mean_delay(), 5000);
}

#[test]
fn load_stretches_the_mean() {
    let mut g = PoissonDelayGenerator::new(500, 100, 2000).unwrap();
    g.adapt_to_network_load(0);
    assert_eq!(g.mean_delay(), 500_000);
    g.adapt_to_network_load(400_000);
    assert_eq!(g.mean_delay(), 660_000); // 1 + 2 * 0.16
    g.adapt_to_network_load(500_000);
    assert_eq!(g.mean_delay(), 750_000);
    g.adapt_to_network_load(1_000_000);
    assert_eq!(g.mean_delay(), 1_500_000);
    g.adapt_to_network_load(9_000_000);
    assert_eq!(g.mean_delay(), 1_500_000);
    assert_eq!(g.base_mean_delay(), 500_000);
    assert_eq!(g.effective_mean_delay(), 1500);
}

#[test]
fn clamp_holds_any_delay_in_bounds() {
    assert_eq!(clamp_delay(0, 5, 9), 5);
    assert_eq!(clamp_delay(5_999, 5, 9), 5);
    assert_eq!(clamp_delay(7_500, 5, 9), 7);
    assert_eq!(clamp_delay(9_999, 5, 9), 9);
    assert_eq!(clamp_delay(u128::MAX, 5, 9), 9);
    assert_eq!(clamp_delay(123_456, 0, u64::MAX), 123);
}

#[test]
fn poisson_delay_backup_test_poisson_delay_bounds() {
    // the plain generator: no jitter
    let generator = PoissonDelayGenerator::new(500, 100, 2000).unwrap().with_jitter(0);

    for delay in samples(&generator, 1000) {
        assert!(delay >= 100);
        assert!(delay <= 2000);
    }
}

#[test]
fn poisson_delay_backup_test_poisson_delay_mean() {
    let generator = PoissonDelayGenerator::new(500, 10, 5000).unwrap().with_jitter(0);

    let delays = samples(&generator, 10000);
    let sum: u64 = delays.iter().sum();
    let actual_mean = sum / delays.len() as u64;

    let expected_mean = 500u64;
    let tolerance = expected_mean / 5; // 20% tolerance

    assert!(
        actual_mean >= expected_mean - tolerance && actual_mean <= expected_mean + tolerance,
        "Mean {} is outside tolerance of expected {}",
        actual_mean,
        expected_mean
    );
}

#[test]
fn poisson_delay_backup_test_invalid_config() {
    let result = PoissonDelayGenerator::new(500, 600, 1000);
    assert!(result.is_err());
}
