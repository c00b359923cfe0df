//! Adaptive batching.

use betanet::batching::{
    AdaptiveBatchProcessor, AdaptiveBatchingConfig, BatchingStats, BatchingStrategy,
};
use betanet::error::MixnodeError;

fn config(strategy: BatchingStrategy, min: usize, max: usize) -> AdaptiveBatchingConfig {
    AdaptiveBatchingConfig {
        strategy,
        min_batch_size: min,
        max_batch_size: max,
        ..AdaptiveBatchingConfig::default()
    }
}

fn size_at(strategy: BatchingStrategy, min: usize, max: usize, load: u64) -> usize {
    let mut p = AdaptiveBatchProcessor::new_at(config(strategy, min, max), 0).unwrap();
    p.update_network_load(load);
    p.current_batch_size()
}

#[test]
fn test_adaptive_batching_basic() {
    let config = AdaptiveBatchingConfig::default();
    let mut processor = AdaptiveBatchProcessor::new(config).unwrap();

    // Submit packets
    for i in 0..100 {
        let packet = format!("packet_{}", i).into_bytes();
        processor.submit_packet(packet).unwrap();
    }

    assert_eq!(processor.queue_length(), 100);

    // Get batch
    let batch = processor.next_batch();
    assert!(!batch.is_empty());
    assert!(batch.len() <= 128);
}

#[test]
fn test_load_based_adaptation() {
    let mut config = AdaptiveBatchingConfig::default();
    config.strategy = BatchingStrategy::LoadBased;
    config.min_batch_size = 10;
    config.max_batch_size = 100;

    let mut processor = AdaptiveBatchProcessor::new(config).unwrap();

    // Low load: should use small batches
    processor.update_network_load(100_000);
    let low_load_size = processor.current_batch_size();

    // High load: should use large batches
    processor.update_network_load(900_000);
    let high_load_size = processor.current_batch_size();

    assert!(high_load_size > low_load_size);
    assert_eq!(low_load_size, 11); // 10 + 90 * 0.1^2 = 10.9
    assert_eq!(high_load_size, 33); // smoothed load 0.5: 10 + 90 * 0.25 = 32.5
}

#[test]
fn test_min_delay_enforcement() {
    let mut config = AdaptiveBatchingConfig::default();
    config.min_delay_ms = 50; // 50ms minimum delay

    let mut processor = AdaptiveBatchProcessor::new_at(config, 1_000).unwrap();

    for _ in 0..10 {
        processor.submit_packet(b"test".to_vec()).unwrap();
    }

    // Two batches right after each other: together they wait at least 50 ms
    let mut clock = 1_000;
    let wait1 = processor.begin_batch(clock);
    clock += wait1;
    let _batch1 = processor.next_batch();
    let wait2 = processor.begin_batch(clock);
    clock += wait2;
    let _batch2 = processor.next_batch();

    assert!(clock - 1_000 >= 50);
    assert_eq!(wait1, 50);
    assert_eq!(wait2, 50);
    assert_eq!(processor.stats().total_delay_ms, 100);
}

#[test]
fn test_strategy_differences() {
    let strategies =
        vec![BatchingStrategy::MinLatency, BatchingStrategy::MaxThroughput, BatchingStrategy::Balanced];

    for strategy in strategies {
        let mut config = AdaptiveBatchingConfig::default();
        config.strategy = strategy;
        config.min_batch_size = 1;
        config.max_batch_size = 100;

        let mut processor = AdaptiveBatchProcessor::new(config).unwrap();
        processor.update_network_load(500_000);

        let size = processor.current_batch_size();
        assert!(size >= 1 && size <= 100);
    }
}

#[test]
fn test_privacy_latency_score() {
    let config = AdaptiveBatchingConfig::default();
    let mut processor = AdaptiveBatchProcessor::new(config).unwrap();

    for _ in 0..50 {
        processor.submit_packet(b"test".to_vec()).unwrap();
    }

    let _batch = processor.next_batch();

    let score = processor.privacy_latency_score();
    assert!(score <= 1_000_000);
    // 32 of 128 and nothing waited for: 0.6 * 0.25 + 0.4 * 1
    assert_eq!(score, 550_000);
}

#[test]
fn configuration_is_checked() {
    let zero_min = AdaptiveBatchProcessor::new(config(BatchingStrategy::Fixed, 0, 10));
    assert_eq!(
        zero_min.err().unwrap(),
        MixnodeError::Config("Batch size must be between 1 and 128".to_string())
    );
    assert!(AdaptiveBatchProcessor::new(config(BatchingStrategy::Fixed, 1, 129)).is_err());
    let reversed = AdaptiveBatchProcessor::new(config(BatchingStrategy::Fixed, 20, 10));
    assert_eq!(
        reversed.err().unwrap(),
        MixnodeError::Config("Min batch size must be <= max batch size".to_string())
    );
    assert!(AdaptiveBatchProcessor::new(config(BatchingStrategy::Fixed, 1, 128)).is_ok());
    assert!(AdaptiveBatchProcessor::new(config(BatchingStrategy::Fixed, 128, 128)).is_ok());
    let d = AdaptiveBatchingConfig::default();
    assert_eq!((d.min_batch_size, d.max_batch_size, d.initial_batch_size), (1, 128, 32));
    assert_eq!(d.strategy, BatchingStrategy::Balanced);
    assert_eq!((d.min_delay_ms, d.max_throughput_pps), (10, 25_000));
    assert_eq!((d.load_increase_threshold, d.load_decrease_threshold), (700_000, 300_000));
}

#[test]
fn load_based_size_follows_the_square_of_the_load() {
    let s = BatchingStrategy::LoadBased;
    assert_eq!(size_at(s, 1, 128, 0), 1);
    assert_eq!(size_at(s, 1, 128, 1_000_000), 128);
    assert_eq!(size_at(s, 1, 128, 500_000), 33); // 1 + 127 * 0.25 = 32.75
    assert_eq!(size_at(s, 10, 100, 500_000), 33); // 32.5 rounds up
    assert_eq!(size_at(s, 10, 100, 100_000), 11);
    assert_eq!(size_at(s, 10, 100, 900_000), 83); // 10 + 72.9
    assert_eq!(size_at(s, 10, 100, 5_000_000), 100); // held at one
    assert_eq!(size_at(s, 7, 7, 333_333), 7);
}

#[test]
fn min_latency_uses_a_quarter_from_the_increase_threshold_on() {
    let s = BatchingStrategy::MinLatency;
    assert_eq!(size_at(s, 4, 100, 0), 4);
    assert_eq!(size_at(s, 4, 100, 699_999), 4);
    assert_eq!(size_at(s, 4, 100, 700_000), 26);
    assert_eq!(size_at(s, 4, 100, 1_000_000), 26);
    // a quarter that would be no packet at all is held at one
    assert_eq!(size_at(s, 1, 2, 900_000), 1);
}

#[test]
fn max_throughput_uses_three_quarters_up_to_the_decrease_threshold() {
    let s = BatchingStrategy::MaxThroughput;
    assert_eq!(size_at(s, 4, 100, 0), 76);
    assert_eq!(size_at(s, 4, 100, 300_000), 76);
    assert_eq!(size_at(s, 4, 100, 300_001), 100);
    assert_eq!(size_at(s, 4, 100, 1_000_000), 100);
}

#[test]
fn balanced_interpolates_between_the_thresholds() {
    let s = BatchingStrategy::Balanced;
    assert_eq!(size_at(s, 1, 101, 0), 1);
    assert_eq!(size_at(s, 1, 101, 299_999), 1);
    assert_eq!(size_at(s, 1, 101, 300_000), 51); // the midpoint
    assert_eq!(size_at(s, 1, 101, 500_000), 76); // half way from 51 to 101
    assert_eq!(size_at(s, 1, 101, 700_000), 101);
    assert_eq!(size_at(s, 1, 101, 700_001), 101);
    assert_eq!(size_at(s, 1, 100, 500_000), 75); // mid 50, 50 + 25
    assert_eq!(size_at(s, 1, 128, 400_000), 80); // mid 64, 64 + 64 / 4
    let mut one_threshold = config(s, 10, 20);
    one_threshold.load_increase_threshold = 500_000;
    one_threshold.load_decrease_threshold = 500_000;
    let mut p = AdaptiveBatchProcessor::new_at(one_threshold, 0).unwrap();
    p.update_network_load(500_000);
    assert_eq!(p.current_batch_size(), 15);
}

#[test]
fn fixed_size_is_held_between_one_and_128() {
    let mut c = config(BatchingStrategy::Fixed, 1, 128);
    c.initial_batch_size = 500;
    let mut p = AdaptiveBatchProcessor::new_at(c, 0).unwrap();
    assert_eq!(p.current_batch_size(), 128);
    p.update_network_load(1_000_000);
    assert_eq!(p.current_batch_size(), 128);
    assert_eq!(p.stats().adaptations_count, 0);
    c.initial_batch_size = 0;
    let p = AdaptiveBatchProcessor::new_at(c, 0).unwrap();
    assert_eq!(p.current_batch_size(), 1);
}

#[test]
fn load_is_the_mean_of_the_last_hundred_signals() {
    let mut p = AdaptiveBatchProcessor::new_at(config(BatchingStrategy::LoadBased, 1, 128), 0).unwrap();
    assert_eq!(p.current_network_load(), 0);
    p.update_network_load(400_000);
    assert_eq!(p.current_network_load(), 400_000);
    p.update_network_load(100_000);
    assert_eq!(p.current_network_load(), 250_000);
    p.update_network_load(7_000_000); // counts as one
    assert_eq!(p.current_network_load(), 500_000);
    for _ in 0..97 {
        p.update_network_load(0);
    }
    assert_eq!(p.current_network_load(), 15_000);
    // the oldest signal, 0.4, leaves the window
    p.update_network_load(0);
    assert_eq!(p.current_network_load(), 11_000);
    p.update_network_load(0);
    assert_eq!(p.current_network_load(), 10_000);
    p.update_network_load(0);
    assert_eq!(p.current_network_load(), 0);
}

#[test]
fn adaptations_are_counted_when_the_size_changes() {
    let mut p = AdaptiveBatchProcessor::new_at(config(BatchingStrategy::Balanced, 1, 128), 0).unwrap();
    assert_eq!(p.current_batch_size(), 32);
    p.update_network_load(0); // 32 -> 1
    assert_eq!(p.current_batch_size(), 1);
    assert_eq!(p.stats().adaptations_count, 1);
    p.update_network_load(0); // stays
    assert_eq!(p.stats().adaptations_count, 1);
    for _ in 0..98 {
        p.update_network_load(1_000_000);
    }
    assert_eq!(p.current_batch_size(), 128);
}

#[test]
fn batches_leave_in_order_and_are_counted() {
    let mut c = config(BatchingStrategy::Fixed, 1, 128);
    c.initial_batch_size = 3;
    let mut p = AdaptiveBatchProcessor::new_at(c, 0).unwrap();
    assert!(p.next_batch().is_empty());
    assert_eq!(*p.stats(), BatchingStats::new());
    for i in 0..7u8 {
        p.submit_packet(vec![i]).unwrap();
    }
    assert_eq!(p.next_batch(), vec![vec![0], vec![1], vec![2]]);
    assert_eq!(p.queue_length(), 4);
    assert_eq!(p.next_batch(), vec![vec![3], vec![4], vec![5]]);
    assert_eq!(p.next_batch(), vec![vec![6]]);
    assert!(p.next_batch().is_empty());
    let s = p.stats();
    assert_eq!(s.packets_processed, 7);
    assert_eq!(s.batches_created, 3);
    assert_eq!(s.avg_batch_size, 2);
    assert_eq!(s.average_batch_size(), 2_333_333);
    assert_eq!(s.throughput_pps(2_000), Some(3));
    assert_eq!(s.throughput_pps(0), None);
}

#[test]
fn waiting_makes_up_the_least_interval() {
    let mut c = config(BatchingStrategy::Fixed, 1, 128);
    c.min_delay_ms = 10;
    let mut p = AdaptiveBatchProcessor::new_at(c, 100).unwrap();
    assert_eq!(p.begin_batch(100), 10); // released at 110
    assert_eq!(p.begin_batch(113), 7); // released at 120
    assert_eq!(p.begin_batch(130), 0);
    assert_eq!(p.begin_batch(500), 0);
    assert_eq!(p.begin_batch(400), 10); // the clock went back
    assert_eq!(p.stats().total_delay_ms, 27);
    p.submit_packet(vec![1]).unwrap();
    p.submit_packet(vec![2]).unwrap();
    p.next_batch();
    assert_eq!(p.stats().average_delay_per_packet_us(), 13_500);
    // 32 of 128, and 10 ms aimed at against 13.5 ms waited per packet
    assert_eq!(p.privacy_latency_score(), (6 * 250_000 + 4 * 740_740) / 10);
}

#[test]
fn a_full_queue_turns_packets_away_and_counts_them() {
    let c = AdaptiveBatchingConfig {
        queue_capacity: 3,
        initial_batch_size: 2,
        strategy: BatchingStrategy::Fixed,
        ..AdaptiveBatchingConfig::default()
    };
    let mut p = AdaptiveBatchProcessor::new_at(c, 0).unwrap();
    for i in 0..3u8 {
        assert_eq!(p.submit_packet(vec![i]), Ok(()));
    }
    assert_eq!(p.queue_length(), 3);
    assert_eq!(p.stats().packets_dropped, 0);
    let full = MixnodeError::Packet("Batch queue full: packet dropped".to_string());
    assert_eq!(p.submit_packet(vec![3]), Err(full.clone()));
    assert_eq!(p.submit_packet(vec![4]), Err(full));
    assert_eq!(p.queue_length(), 3);
    assert_eq!(p.stats().packets_dropped, 2);
    // what waits is what was taken in, oldest first
    assert_eq!(p.next_batch(), vec![vec![0u8], vec![1u8]]);
    assert_eq!(p.queue_length(), 1);
    // with room again the next packet is taken in
    assert_eq!(p.submit_packet(vec![5]), Ok(()));
    assert_eq!(p.queue_length(), 2);
    assert_eq!(p.stats().packets_dropped, 2);
    assert_eq!(p.next_batch(), vec![vec![2u8], vec![5u8]]);
}

#[test]
fn a_queue_without_capacity_takes_nothing() {
    let c = AdaptiveBatchingConfig { queue_capacity: 0, ..AdaptiveBatchingConfig::default() };
    let mut p = AdaptiveBatchProcessor::new_at(c, 0).unwrap();
    for _ in 0..5 {
        assert!(p.submit_packet(vec![1, 2, 3]).is_err());
    }
    assert_eq!(p.queue_length(), 0);
    assert_eq!(p.stats().packets_dropped, 5);
    assert!(p.next_batch().is_empty());
}

#[test]
fn the_standard_queue_holds_1024_packets() {
    let c = AdaptiveBatchingConfig::default();
    assert_eq!(c.queue_capacity, 1024);
    let mut p = AdaptiveBatchProcessor::new_at(c, 0).unwrap();
    for i in 0..1024u32 {
        assert!(p.submit_packet(i.to_be_bytes().to_vec()).is_ok());
    }
    assert!(p.submit_packet(vec![0]).is_err());
    assert_eq!(p.queue_length(), 1024);
    assert_eq!(p.stats().packets_dropped, 1);
    assert_eq!(BatchingStats::new().packets_dropped, 0);
}
