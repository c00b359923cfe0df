//! Timing defence.

use betanet::timing_defense::{TimingDefenseConfig, TimingDefenseManager};

fn manager() -> TimingDefenseManager {
    TimingDefenseManager::new(TimingDefenseConfig::default())
}

#[test]
fn standard_timing_defence_settings() {
    let c = TimingDefenseConfig::default();
    assert!(c.enabled);
    assert_eq!(c.randomization_pct, 300_000);
    assert_eq!(c.correlation_window_size, 100);
    assert_eq!(c.burst_threshold, 100_000_000);
    assert_eq!(c.max_correlation, 300_000);
}

#[test]
fn randomisation_moves_a_delay_by_up_to_its_share() {
    let m = manager();
    assert_eq!(m.randomize_delay_with(100, 0), 70);
    assert_eq!(m.randomize_delay_with(100, 500_000), 100);
    assert_eq!(m.randomize_delay_with(100, 999_999), 129);
    assert_eq!(m.randomize_delay_with(0, 123), 0);
    let mut seen = std::collections::HashSet::new();
    for _ in 0..200 {
        let d = m.randomize_delay(100);
        assert!((70..130).contains(&d));
        seen.insert(d);
    }
    assert!(seen.len() > 10);
    let off = TimingDefenseManager::new(TimingDefenseConfig { enabled: false, ..Default::default() });
    assert_eq!(off.randomize_delay_with(100, 0), 100);
    assert_eq!(off.randomize_delay(100), 100);
    let full = TimingDefenseManager::new(TimingDefenseConfig { randomization_pct: 5_000_000, ..Default::default() });
    // a share above one counts as one: never below nothing
    assert_eq!(full.randomize_delay_with(100, 0), 0);
    assert_eq!(full.randomize_delay_with(100, 999_999), 199);
    assert_eq!(full.randomize_delay_with(u64::MAX, 999_999), u64::MAX);
}

#[test]
fn the_window_keeps_the_newest_packets() {
    let mut m = manager();
    for i in 0..150u64 {
        m.record_packet_timing(100, i, i, i * 1_000);
    }
    assert_eq!(m.history_len(), 100);
    let mut small = TimingDefenseManager::new(TimingDefenseConfig { correlation_window_size: 3, ..Default::default() });
    for i in 0..5u64 {
        small.record_packet_timing(1, i, 10 * i, i);
    }
    assert_eq!(small.history_len(), 3);
    // what is left are the delays 2, 3, 4 against 20, 30, 40
    assert_eq!(small.calculate_correlation(), 1_000_000);
    let mut none = TimingDefenseManager::new(TimingDefenseConfig { correlation_window_size: 0, ..Default::default() });
    none.record_packet_timing(1, 1, 1, 1);
    assert_eq!(none.history_len(), 0);
    let mut huge = TimingDefenseManager::new(TimingDefenseConfig { correlation_window_size: usize::MAX, ..Default::default() });
    for i in 0..1_100u64 {
        huge.record_packet_timing(1, i, i, i);
    }
    assert_eq!(huge.history_len(), 1_024);
    huge.reset_history();
    assert_eq!(huge.history_len(), 0);
}

#[test]
fn correlation_of_intended_and_actual_delays() {
    let mut m = manager();
    assert_eq!(m.calculate_correlation(), 0);
    m.record_packet_timing(1, 10, 20, 0);
    assert_eq!(m.calculate_correlation(), 0);
    for i in 2..=10u64 {
        m.record_packet_timing(1, 10 * i, 20 * i, i);
    }
    assert_eq!(m.calculate_correlation(), 1_000_000);
    assert!(!m.is_defense_effective());

    let mut against = manager();
    for i in 0..10u64 {
        against.record_packet_timing(1, 10 * i, 500 - 7 * i, i);
    }
    assert_eq!(against.calculate_correlation(), -1_000_000);
    assert!(!against.is_defense_effective());

    let mut flat = manager();
    for i in 0..10u64 {
        flat.record_packet_timing(1, 10 * i, 50, i);
    }
    assert_eq!(flat.calculate_correlation(), 0);
    assert!(flat.is_defense_effective());

    // x = 1, 2, 3, 4 and y = 2, 1, 4, 3: covariance 3, variances 5, r = 0.6
    let mut partly = manager();
    for (x, y) in [(1u64, 2u64), (2, 1), (3, 4), (4, 3)] {
        partly.record_packet_timing(1, x, y, 0);
    }
    assert_eq!(partly.calculate_correlation(), 600_000);
    // x = 1, 2, 3, 4 and y = 1, 3, 2, 4: covariance 4, variances 5, r = 0.8
    let mut more = manager();
    for (x, y) in [(1u64, 1u64), (2, 3), (3, 2), (4, 4)] {
        more.record_packet_timing(1, x, y, 0);
    }
    assert_eq!(more.calculate_correlation(), 800_000);
    // x = 1, 2, 3, 4, 5 and y = 2, 1, 3, 5, 4... covariance 4 * 53 - 15 * 15 = 40 over 50
    let mut odd = manager();
    for (x, y) in [(1u64, 3u64), (2, 1), (3, 2), (4, 5), (5, 4)] {
        odd.record_packet_timing(1, x, y, 0);
    }
    assert_eq!(odd.calculate_correlation(), 600_000);
    let strict = TimingDefenseManager::new(TimingDefenseConfig { max_correlation: 0, ..Default::default() });
    assert!(!strict.is_defense_effective());
}

#[test]
fn randomised_delays_keep_the_correlation_in_range() {
    let mut m = manager();
    for i in 0..100u64 {
        let intended = 50 + (i * 13) % 200;
        let actual = m.randomize_delay(intended);
        m.record_packet_timing(512, intended, actual, i * 5_000);
    }
    let r = m.calculate_correlation();
    assert!((-1_000_000..=1_000_000).contains(&r));
    assert!(r > 500_000);
}

#[test]
fn bursts_are_ten_packets_faster_than_the_threshold() {
    let mut m = manager();
    for i in 0..9u64 {
        m.record_packet_timing(1, 0, 0, i * 1_000);
    }
    assert!(!m.detect_burst());
    assert_eq!(m.mask_burst_pattern(), None);
    m.record_packet_timing(1, 0, 0, 9_000);
    // ten packets in 9 ms
    assert!(m.detect_burst());
    assert_eq!(m.mask_burst_pattern_with(0), Some(10));
    assert_eq!(m.mask_burst_pattern_with(500_000), Some(55));
    assert_eq!(m.mask_burst_pattern_with(999_999), Some(99));
    for _ in 0..100 {
        let d = m.mask_burst_pattern().unwrap();
        assert!((10..100).contains(&d));
    }

    let mut slow = manager();
    for i in 0..10u64 {
        slow.record_packet_timing(1, 0, 0, i * 200_000);
    }
    assert!(!slow.detect_burst());
    assert_eq!(slow.mask_burst_pattern_with(0), None);

    // ten packets over exactly a tenth of a second are 100 per second: not above the threshold
    let mut edge = manager();
    for i in 0..9u64 {
        edge.record_packet_timing(1, 0, 0, i);
    }
    edge.record_packet_timing(1, 0, 0, 100_000);
    assert!(!edge.detect_burst());
    let mut under = manager();
    for i in 0..9u64 {
        under.record_packet_timing(1, 0, 0, i + 1);
    }
    under.record_packet_timing(1, 0, 0, 100_000);
    assert!(under.detect_burst());

    let mut same = manager();
    for _ in 0..10 {
        same.record_packet_timing(1, 0, 0, 77);
    }
    assert!(same.detect_burst());
    // only the last ten count
    for i in 0..10u64 {
        same.record_packet_timing(1, 0, 0, 1_000_000 + i * 500_000);
    }
    assert!(!same.detect_burst());
}

#[test]
fn variance_of_the_intervals() {
    let mut m = manager();
    assert_eq!(m.calculate_timing_variance(), 0);
    m.record_packet_timing(1, 0, 0, 10_000);
    assert_eq!(m.calculate_timing_variance(), 0);
    m.record_packet_timing(1, 0, 0, 11_000);
    assert_eq!(m.calculate_timing_variance(), 0);
    m.record_packet_timing(1, 0, 0, 14_000);
    // intervals of 1000 and 3000 microseconds
    assert_eq!(m.calculate_timing_variance(), 1_000_000);
    m.record_packet_timing(1, 0, 0, 16_000);
    // 1000, 3000, 2000: variance 2,000,000 / 3
    assert_eq!(m.calculate_timing_variance(), 666_666);
    m.record_packet_timing(1, 0, 0, 15_000);
    // the clock went back: an interval of nothing; 1000, 3000, 2000, 0
    assert_eq!(m.calculate_timing_variance(), 1_250_000);
}

#[test]
fn histogram_of_the_actual_delays() {
    let mut m = manager();
    for d in 0..9u64 {
        m.record_packet_timing(1, 0, d, 0);
    }
    assert!(m.delay_histogram(5).is_empty()); // under ten packets
    m.record_packet_timing(1, 0, 9, 0);
    assert_eq!(m.delay_histogram(5), vec![2, 2, 2, 2, 2]);
    assert_eq!(m.delay_histogram(1), vec![10]);
    assert_eq!(m.delay_histogram(2), vec![5, 5]);
    assert_eq!(m.delay_histogram(3), vec![3, 3, 4]);
    assert!(m.delay_histogram(0).is_empty());
    assert_eq!(m.delay_histogram(20).iter().sum::<usize>(), 10);
    assert_eq!(m.delay_histogram(20)[19], 1);
    let mut flat = manager();
    for _ in 0..20 {
        flat.record_packet_timing(1, 0, 42, 0);
    }
    assert!(flat.delay_histogram(20).is_empty());
}

fn entropy_millionths(counts: &[usize]) -> u64 {
    let total: usize = counts.iter().sum();
    if total == 0 {
        return 0;
    }
    let bits: f64 = counts
        .iter()
        .filter(|&&c| c > 0)
        .map(|&c| {
            let p = c as f64 / total as f64;
            -p * p.log2()
        })
        .sum();
    (bits * 1_000_000.0).round() as u64
}

#[test]
fn test_resistance_score() {
    let manager_config = TimingDefenseConfig::default();
    let mut manager = TimingDefenseManager::new(manager_config);

    // Record packets with randomization
    for i in 0..100u64 {
        let original = 100;
        let actual = manager.randomize_delay(original);
        manager.record_packet_timing(1000, original, actual, i * 10_000);
    }

    let entropy = entropy_millionths(&manager.delay_histogram(20));
    let score = manager.timing_attack_resistance_score(entropy);
    assert!(score > 0 && score <= 1_000_000);
}

#[test]
fn test_timing_attack_resistance() {
    let mut manager = TimingDefenseManager::new(TimingDefenseConfig::default());
    for i in 0..100u64 {
        let original = 100;
        let randomized = manager.randomize_delay(original);
        manager.record_packet_timing(1000, original, randomized, i * 10_000);
    }
    // Check correlation is low
    assert!(manager.calculate_correlation().abs() < 500_000);
    // Check entropy is reasonable
    let entropy = entropy_millionths(&manager.delay_histogram(20));
    assert!(entropy > 1_000_000);
    // Check resistance score
    assert!(manager.timing_attack_resistance_score(entropy) > 400_000);
}

#[test]
fn resistance_score_weighs_correlation_variance_and_entropy() {
    // nothing recorded: no correlation, no variance
    let empty = manager();
    assert_eq!(empty.timing_attack_resistance_score(0), 300_000);
    assert_eq!(empty.timing_attack_resistance_score(2_160_000), 500_000);
    assert_eq!(empty.timing_attack_resistance_score(4_320_000), 700_000);
    assert_eq!(empty.timing_attack_resistance_score(u64::MAX), 700_000);
    assert_eq!(empty.timing_attack_resistance_score(1_000_000), 392_592);

    // actual delays equal to the intended ones: correlation one; intervals of
    // 0 and 200 ms in turn: variance 10000 square milliseconds
    let mut m = manager();
    let mut now = 0u64;
    for i in 0..9u64 {
        m.record_packet_timing(100, 10 * (i + 1), 10 * (i + 1), now);
        now += if i % 2 == 0 { 200_000 } else { 0 };
    }
    assert_eq!(m.calculate_correlation(), 1_000_000);
    assert_eq!(m.calculate_timing_variance(), 10_000_000_000);
    assert_eq!(m.timing_attack_resistance_score(0), 300_000);
    assert_eq!(m.timing_attack_resistance_score(4_320_000), 700_000);

    // intervals of 0 and 100 ms in turn: a quarter of the full variance
    let mut q = manager();
    let mut now = 0u64;
    for i in 0..9u64 {
        q.record_packet_timing(100, 10 * (i + 1), 10 * (i + 1), now);
        now += if i % 2 == 0 { 100_000 } else { 0 };
    }
    assert_eq!(q.calculate_timing_variance(), 2_500_000_000);
    assert_eq!(q.timing_attack_resistance_score(0), 75_000);
}
