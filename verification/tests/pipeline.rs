//! The packet pipeline.

use betanet::circuit_breaker::{CircuitBreaker, CircuitState};
use betanet::pipeline::{Admission, InflightPacket, MemoryPool, PacketPipeline, Priority};
use betanet::stats::{MixnodeStats, PerformanceTargets};

fn packet(id: u8) -> InflightPacket {
    InflightPacket {
        payload_bytes: vec![id; 4],
        origin_peer: "10.0.0.1:9000".to_string(),
        arrival_time: id as u64,
        deadline_after_delay: 0,
        priority: Priority::Normal,
    }
}

fn accounted(p: &PacketPipeline) -> bool {
    let s = p.stats();
    s.packets_received == s.packets_forwarded + s.packets_dropped + p.packets_in_flight()
}

#[test]
fn test_circuit_breaker_opens_after_failures() {
    let mut breaker = CircuitBreaker::new();
    assert_eq!(breaker.state, CircuitState::Closed);

    for _ in 0..5 {
        breaker.record_failure();
    }

    assert_eq!(breaker.state, CircuitState::Open);
}

#[test]
fn test_circuit_breaker_recovery() {
    let mut breaker = CircuitBreaker::new();
    breaker.state = CircuitState::HalfOpen;
    breaker.record_success();
    assert_eq!(breaker.state, CircuitState::Closed);
}

#[test]
fn breaker_holds_calls_back_until_its_time_has_passed() {
    let mut breaker = CircuitBreaker::new();
    assert!(breaker.can_attempt());
    for i in 0..4 {
        breaker.record_failure_at(1_000 + i);
        assert!(!breaker.is_open());
        assert!(breaker.can_attempt_at(1_000 + i));
    }
    breaker.record_failure_at(1_004);
    assert!(breaker.is_open());
    assert_eq!(breaker.failure_count, 5);
    assert_eq!(breaker.last_failure_time, Some(1_004));
    assert!(!breaker.can_attempt_at(1_004));
    assert!(!breaker.can_attempt_at(31_003));
    assert!(!breaker.can_attempt_at(0));
    assert!(breaker.is_open());
    assert!(breaker.can_attempt_at(31_004));
    assert_eq!(breaker.state, CircuitState::HalfOpen);
    assert!(breaker.can_attempt_at(31_005));
    // a failure while probing leaves the breaker probing
    breaker.record_failure_at(31_006);
    assert_eq!(breaker.state, CircuitState::HalfOpen);
    breaker.record_success();
    assert_eq!(breaker, CircuitBreaker::new());
    // a success in between starts the count again
    for _ in 0..4 {
        breaker.record_failure_at(50_000);
    }
    breaker.record_success();
    for _ in 0..4 {
        breaker.record_failure_at(50_001);
    }
    assert!(!breaker.is_open());
    let mut open_without_failure = CircuitBreaker::new();
    open_without_failure.state = CircuitState::Open;
    assert!(!open_without_failure.can_attempt_at(u64::MAX));
}

#[test]
fn pool_reuses_buffers_up_to_its_capacity() {
    let mut pool = MemoryPool::new(2, 2048);
    assert_eq!(pool.hit_rate(), 0);
    let mut a = pool.acquire();
    let b = pool.acquire();
    let c = pool.acquire();
    assert!(a.is_empty());
    assert!(a.capacity() >= 2048);
    assert_eq!(pool.hit_rate(), 0);
    a.extend_from_slice(&[1, 2, 3]);
    pool.release(a);
    pool.release(b);
    pool.release(c); // the pool is full: the buffer is let go
    let again = pool.acquire();
    assert!(again.is_empty());
    pool.acquire();
    // the third has to be made
    pool.acquire();
    // six buffers asked for, two of them from the pool
    assert_eq!(pool.hit_rate(), 333_333);
    let mut steady = MemoryPool::new(8, 64);
    for _ in 0..100 {
        let buffer = steady.acquire();
        steady.release(buffer);
    }
    assert_eq!(steady.hit_rate(), 990_000);
    let mut none = MemoryPool::new(0, 64);
    let buffer = none.acquire();
    none.release(buffer);
    none.acquire();
    assert_eq!(none.hit_rate(), 0);
}

#[test]
fn a_full_input_queue_drops_and_counts() {
    let mut p = PacketPipeline::new(2, 2);
    assert_eq!(p.submit_packet(packet(1)), Admission::Queued);
    assert_eq!(p.submit_packet(packet(2)), Admission::Queued);
    assert_eq!(p.submit_packet(packet(3)), Admission::Dropped);
    assert_eq!(p.queue_depths(), (2, 0));
    assert_eq!(p.input_load(), 1_000_000);
    assert_eq!(p.output_load(), 0);
    assert_eq!(p.drop_rate(), 333_333);
    let s = p.stats();
    assert_eq!((s.packets_received, s.packets_dropped), (3, 1));
    assert!(accounted(&p));
    assert_eq!(p.next_for_processing().unwrap().payload_bytes, vec![1; 4]);
    assert_eq!(p.input_load(), 500_000);
    assert_eq!(p.submit_packet(packet(4)), Admission::Queued);
    assert_eq!(p.next_for_processing().unwrap().payload_bytes, vec![2; 4]);
    assert_eq!(p.next_for_processing().unwrap().payload_bytes, vec![4; 4]);
    assert!(p.next_for_processing().is_none());
    assert_eq!(p.packets_in_flight(), 3);
    assert!(accounted(&p));
    let none = PacketPipeline::new(0, 0);
    assert_eq!(none.input_load(), 1_000_000);
}

#[test]
fn packets_wait_out_their_delay() {
    let mut p = PacketPipeline::new(8, 8);
    for i in 0..3 {
        p.submit_packet(packet(i));
    }
    let a = p.next_for_processing().unwrap();
    let b = p.next_for_processing().unwrap();
    let c = p.next_for_processing().unwrap();
    p.finish_processing(a, Some(500), 1_000);
    p.finish_processing(b, None, 1_000); // could not be peeled
    p.finish_processing(c, Some(100), 1_000);
    assert_eq!(p.stats().packets_dropped, 1);
    assert_eq!(p.stats().packets_processed, 3);
    assert!(accounted(&p));
    assert_eq!(p.release_due(1_099), 0);
    assert_eq!(p.release_due(1_100), 1);
    assert_eq!(p.queue_depths(), (0, 1));
    let out = p.next_output().unwrap();
    assert_eq!(out.payload_bytes, vec![2; 4]);
    assert_eq!(out.deadline_after_delay, 1_100);
    assert!(p.next_output().is_none());
    assert_eq!(p.release_due(1_499), 0);
    assert_eq!(p.release_due(u64::MAX), 1);
    assert_eq!(p.next_output().unwrap().deadline_after_delay, 1_500);
    let s = p.stats();
    assert_eq!((s.packets_received, s.packets_forwarded, s.packets_dropped), (3, 2, 1));
    assert_eq!(p.packets_in_flight(), 0);
    assert!(accounted(&p));
}

#[test]
fn a_full_output_queue_pushes_back_without_loss() {
    let mut p = PacketPipeline::new(8, 2);
    for i in 0..5 {
        p.submit_packet(packet(i));
        let taken = p.next_for_processing().unwrap();
        p.finish_processing(taken, Some(0), 10);
    }
    assert_eq!(p.release_due(10), 2);
    assert_eq!(p.release_due(10), 0);
    assert_eq!(p.queue_depths(), (0, 2));
    assert_eq!(p.packets_in_flight(), 5);
    assert!(p.next_output().is_some());
    assert_eq!(p.release_due(10), 1);
    let mut forwarded = 1;
    loop {
        while p.next_output().is_some() {
            forwarded += 1;
        }
        if p.release_due(10) == 0 {
            break;
        }
    }
    assert_eq!(forwarded, 5);
    assert_eq!(p.stats().packets_forwarded, 5);
    assert_eq!(p.stats().packets_dropped, 0);
    assert!(accounted(&p));
}

#[test]
fn no_packet_is_lost_on_any_path() {
    let mut p = PacketPipeline::new(16, 4);
    let mut held = Vec::new();
    let mut now = 0u64;
    for round in 0..400u64 {
        for i in 0..(round % 5) {
            p.submit_packet(packet((round + i) as u8));
        }
        if round % 3 != 0 {
            if let Some(taken) = p.next_for_processing() {
                held.push(taken);
            }
        }
        if round % 4 == 1 {
            if let Some(taken) = held.pop() {
                let delay = if round % 7 == 0 { None } else { Some((round * 37) % 900) };
                p.finish_processing(taken, delay, now);
            }
        }
        now += 50;
        p.release_due(now);
        if round % 2 == 0 {
            p.next_output();
        }
        assert!(accounted(&p), "round {round}");
        let (input, output) = p.queue_depths();
        assert!(input <= 16 && output <= 4);
    }
    let s = p.stats();
    assert_eq!(s.packets_received, 800);
    assert!(s.packets_dropped > 0 && s.packets_forwarded > 0);
    let in_flight = p.packets_in_flight();
    let pending = in_flight - held.len() as u64;
    assert_eq!(p.shutdown(), pending);
    assert_eq!(p.packets_in_flight(), held.len() as u64);
    // what workers still hold is dropped when they bring it back
    for taken in held {
        p.finish_processing(taken, Some(1), now);
    }
    assert_eq!(p.submit_packet(packet(0)), Admission::Dropped);
    assert_eq!(p.packets_in_flight(), 0);
    let s = p.stats();
    assert_eq!(s.packets_received, 801);
    assert_eq!(s.packets_received, s.packets_forwarded + s.packets_dropped);
}

#[test]
fn test_stats() {
    let mut stats = MixnodeStats::new();
    assert_eq!(stats.packets_processed, 0);

    stats.record_processed(100);
    assert_eq!(stats.packets_processed, 1);
    assert_eq!(stats.avg_processing_time_us(), 100);

    stats.record_forwarded();
    assert_eq!(stats.packets_forwarded, 1);
}

#[test]
fn lib_test_performance_targets() {
    let targets = PerformanceTargets::default();
    assert_eq!(targets.target_throughput_pps, 25_000);
    assert_eq!(targets.max_avg_latency_us, 1_000);
}

#[test]
fn node_counters() {
    let mut stats = MixnodeStats::default();
    assert_eq!(stats.avg_processing_time_us(), 0);
    stats.record_processed(100);
    stats.record_processed(301);
    assert_eq!(stats.avg_processing_time_us(), 200);
    stats.record_dropped();
    stats.record_cover_traffic();
    stats.record_cover_traffic();
    assert_eq!(stats.packets_dropped, 1);
    assert_eq!(stats.cover_traffic_sent, 2);
    stats.packets_forwarded = u64::MAX;
    stats.record_forwarded();
    assert_eq!(stats.packets_forwarded, u64::MAX);
    let t = PerformanceTargets::default();
    assert_eq!((t.min_pool_hit_rate, t.max_drop_rate), (850_000, 1_000));
}

#[test]
fn betanet_unit_tests_test_performance_targets() {
    let targets = PerformanceTargets::default();

    assert_eq!(targets.target_throughput_pps, 25_000);
    assert_eq!(targets.max_avg_latency_us, 1_000); // a millisecond
    assert_eq!(targets.min_pool_hit_rate, 850_000); // 85 %
    assert_eq!(targets.max_drop_rate, 1_000); // 0.1 %
}

#[test]
fn due_packets_leave_the_wheel_in_order_and_unchanged() {
    let mut p = PacketPipeline::new(8, 3);
    for i in 0..6 {
        p.submit_packet(packet(i));
    }
    // delays: due, not due, due, due, not due, due at time 2000
    let delays = [100u64, 5_000, 300, 200, 9_000, 50];
    for delay in delays {
        let x = p.next_for_processing().unwrap();
        p.finish_processing(x, Some(delay), 1_000);
    }
    // four are due at 2000, and the output queue has room for three
    assert_eq!(p.release_due(2_000), 3);
    assert_eq!(p.queue_depths(), (0, 3));
    let first = p.next_output().unwrap();
    assert_eq!(first.payload_bytes, vec![0; 4]);
    assert_eq!(first.origin_peer, packet(0).origin_peer);
    assert_eq!(first.deadline_after_delay, 1_100);
    assert_eq!(p.next_output().unwrap().payload_bytes, vec![2; 4]);
    assert_eq!(p.next_output().unwrap().payload_bytes, vec![3; 4]);
    assert!(p.next_output().is_none());
    // the fourth waited for room; the two that are not due stay behind it
    assert_eq!(p.release_due(2_000), 1);
    let fourth = p.next_output().unwrap();
    assert_eq!(fourth.payload_bytes, vec![5; 4]);
    assert_eq!(fourth.deadline_after_delay, 1_050);
    assert_eq!(p.release_due(2_000), 0);
    assert_eq!(p.release_due(10_000), 2);
    assert_eq!(p.next_output().unwrap().payload_bytes, vec![1; 4]);
    assert_eq!(p.next_output().unwrap().payload_bytes, vec![4; 4]);
    assert!(accounted(&p));
}
