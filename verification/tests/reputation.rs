//! The reputation ledger.

use betanet::reputation::{
    decay_points, NodeReputation, PenaltyType, PerformanceMetrics, ReputationAction,
    ReputationHistory, ReputationManager, ReputationStatistics, RewardType, Stake,
};

fn stake(amount: u64) -> Stake {
    let log = if amount == 0 { 0 } else { ((amount as f64).ln() * 1_000_000.0).round() as u64 };
    Stake::new(amount, log)
}

#[test]
fn test_new_node_base_reputation() {
    let node = NodeReputation::new("test-node".to_string());
    assert_eq!(node.reputation_points, 100);
    assert_eq!(node.reputation(), 500_000);
    assert_eq!(node.score(), 500_000);
}

#[test]
fn test_reputation_action_points() {
    assert_eq!(ReputationAction::SuccessfulTask.points_delta(), 10);
    assert_eq!(ReputationAction::UptimeMilestone.points_delta(), 5);
    assert_eq!(ReputationAction::HighQualityService.points_delta(), 20);
    assert_eq!(ReputationAction::TaskFailure.points_delta(), -15);
    assert_eq!(ReputationAction::DroppedConnection.points_delta(), -25);
    assert_eq!(ReputationAction::MaliciousBehavior.points_delta(), -50);
}

#[test]
fn test_apply_action() {
    let mut node = NodeReputation::new("test".to_string());

    // Success increases reputation
    node.apply_action(ReputationAction::SuccessfulTask);
    assert_eq!(node.reputation_points, 110);

    // Failure decreases reputation
    node.apply_action(ReputationAction::TaskFailure);
    assert_eq!(node.reputation_points, 95);
}

#[test]
fn test_reputation_bounds() {
    let mut node = NodeReputation::new("test".to_string());

    // Cannot go below 0
    for _ in 0..10 {
        node.apply_action(ReputationAction::MaliciousBehavior);
    }
    assert_eq!(node.reputation_points, 0);

    // Cannot go above 200
    let mut node2 = NodeReputation::new("test2".to_string());
    for _ in 0..20 {
        node2.apply_action(ReputationAction::HighQualityService);
    }
    assert_eq!(node2.reputation_points, 200);
}

#[test]
fn test_decay_mechanism() {
    let mut node = NodeReputation::new("test".to_string());
    node.reputation_points = 100;

    // Apply 1 day decay
    node.apply_decay(1);
    assert_eq!(node.reputation_points, 99); // 100 * 0.99 = 99

    // Apply 10 days decay
    node.reputation_points = 100;
    node.apply_decay(10);
    assert_eq!(node.reputation_points, 90); // 100 * 0.99^10 ≈ 90
}

#[test]
fn test_cost_of_forgery() {
    let mut node = NodeReputation::with_stake("test".to_string(), stake(10000));
    node.reputation_points = 150;

    let cost = node.cost_of_forgery();
    assert!(cost > 1_000_000, "High reputation + stake should have high cost");

    let mut low_node = NodeReputation::with_stake("low".to_string(), stake(100));
    low_node.reputation_points = 50;

    let low_cost = low_node.cost_of_forgery();
    assert!(cost > low_cost, "Higher reputation should cost more to forge");
}

#[test]
fn test_reputation_manager_basic() {
    let mut manager = ReputationManager::new();
    let addr = "127.0.0.1:8080";

    manager.add_node(addr, stake(5000));
    assert_eq!(manager.node_count(), 1);

    let rep = manager.get_reputation(addr).unwrap();
    assert_eq!(rep.reputation_points, 100);
    assert_eq!(rep.stake.amount, 5000);
}

#[test]
fn test_reputation_manager_updates() {
    let mut manager = ReputationManager::new();
    let addr = "127.0.0.1:8080";

    manager.add_node(addr, stake(1000));

    // Apply successful task
    manager.update_reputation(addr, ReputationAction::SuccessfulTask).unwrap();
    assert_eq!(manager.get_reputation_points(addr), 110);

    // Apply failure
    manager.update_reputation(addr, ReputationAction::TaskFailure).unwrap();
    assert_eq!(manager.get_reputation_points(addr), 95);
}

#[test]
fn test_weighted_candidates() {
    let mut manager = ReputationManager::new();

    let addr1 = "127.0.0.1:8080";
    let addr2 = "127.0.0.1:8081";
    let addr3 = "127.0.0.1:8082";

    manager.add_node(addr1, stake(5000));
    manager.add_node(addr2, stake(3000));
    manager.add_node(addr3, stake(1000));

    // Boost addr1 reputation
    manager.update_reputation(addr1, ReputationAction::HighQualityService).unwrap();
    manager.update_reputation(addr1, ReputationAction::SuccessfulTask).unwrap();

    // All nodes start with 100 points, addr1 now has 130 points
    let candidates = manager.get_weighted_relay_candidates(100);
    assert_eq!(candidates.len(), 3);

    // Get candidates with > 100 points (only addr1)
    let high_candidates = manager.get_weighted_relay_candidates(101);
    assert_eq!(high_candidates.len(), 1);
    assert_eq!(high_candidates[0], ("127.0.0.1:8080".to_string(), 650_000));
}

#[test]
fn test_persistence() {
    let mut manager = ReputationManager::new();
    let addr = "127.0.0.1:8080";

    manager.add_node(addr, stake(5000));
    manager.update_reputation(addr, ReputationAction::SuccessfulTask).unwrap();

    // Take a snapshot of the records
    let snapshot: Vec<NodeReputation> = manager.nodes().to_vec();

    // Restore into a new manager
    let mut manager2 = ReputationManager::new();
    manager2.restore(snapshot).unwrap();

    assert_eq!(manager2.get_reputation_points(addr), 110);
    let restored = manager2.get_reputation(addr).unwrap();
    let kept = manager.get_reputation(addr).unwrap();
    assert_eq!(restored.node_id, kept.node_id);
    assert_eq!(restored.stake, kept.stake);
    assert_eq!(restored.history, kept.history);
    assert_eq!(restored.metrics, kept.metrics);
    assert_eq!(restored.last_active, kept.last_active);
    assert_eq!(restored.created_at, kept.created_at);
}

#[test]
fn every_action_has_its_delta_and_its_counter() {
    let mut node = NodeReputation::new_at("n".to_string(), 1_000);
    node.apply_action_at(ReputationAction::UptimeMilestone, 2_000);
    assert_eq!(node.reputation_points, 105);
    assert_eq!(node.last_active, 2_000);
    assert_eq!(node.created_at, 1_000);
    node.apply_action_at(ReputationAction::HighQualityService, 2_001);
    assert_eq!(node.reputation_points, 125);
    node.apply_action_at(ReputationAction::DroppedConnection, 2_002);
    assert_eq!(node.reputation_points, 100);
    node.apply_action_at(ReputationAction::MaliciousBehavior, 2_003);
    assert_eq!(node.reputation_points, 50);
    node.apply_action_at(ReputationAction::Custom(7), 2_004);
    assert_eq!(node.reputation_points, 57);
    node.apply_action_at(ReputationAction::Custom(-7), 2_005);
    assert_eq!(node.reputation_points, 50);
    node.apply_action_at(ReputationAction::SuccessfulTask, 2_006);
    node.apply_action_at(ReputationAction::TaskFailure, 2_007);
    assert_eq!(node.reputation_points, 45);
    let h = node.history;
    assert_eq!(h.successful_tasks, 1);
    assert_eq!(h.failed_tasks, 1);
    assert_eq!(h.uptime_milestones, 1);
    assert_eq!(h.quality_bonuses, 1);
    assert_eq!(h.dropped_connections, 1);
    assert_eq!(h.malicious_events, 1);
    assert_eq!(h.decay_events, 0);
    assert_eq!(h.total_actions, 8);
    assert_eq!(h.success_rate(), 500_000);
}

#[test]
fn points_stay_in_range_under_extreme_custom_actions() {
    let mut node = NodeReputation::new_at("n".to_string(), 0);
    node.apply_action_at(ReputationAction::Custom(i32::MAX), 1);
    assert_eq!(node.reputation_points, 200);
    node.apply_action_at(ReputationAction::Custom(i32::MIN), 2);
    assert_eq!(node.reputation_points, 0);
    node.reputation_points = i32::MAX;
    node.apply_action_at(ReputationAction::Custom(i32::MAX), 3);
    assert_eq!(node.reputation_points, 200);
    node.reputation_points = i32::MIN;
    node.apply_action_at(ReputationAction::Custom(i32::MIN), 4);
    assert_eq!(node.reputation_points, 0);
    assert_eq!(node.reputation(), 0);
}

#[test]
fn reputation_is_points_over_two_hundred() {
    let mut node = NodeReputation::new_at("n".to_string(), 0);
    for (points, expected) in [(0, 0u64), (1, 5_000), (100, 500_000), (130, 650_000), (200, 1_000_000)] {
        node.reputation_points = points;
        assert_eq!(node.reputation(), expected);
    }
    node.reputation_points = 250;
    assert_eq!(node.reputation(), 1_000_000);
    node.reputation_points = -3;
    assert_eq!(node.reputation(), 0);
}

#[test]
fn decay_follows_ninety_nine_hundredths_per_day() {
    // floor(points * 0.99^days)
    assert_eq!(decay_points(100, 0), 100);
    assert_eq!(decay_points(100, 1), 99);
    assert_eq!(decay_points(200, 1), 198);
    assert_eq!(decay_points(100, 2), 98); // 98.01
    assert_eq!(decay_points(100, 10), 90); // 90.43
    assert_eq!(decay_points(50, 10), 45); // 45.21
    assert_eq!(decay_points(200, 10), 180); // 180.87
    assert_eq!(decay_points(100, 69), 49); // 49.98
    assert_eq!(decay_points(100, 100), 36); // 36.60
    assert_eq!(decay_points(200, 527), 1); // 1.002
    assert_eq!(decay_points(200, 528), 0); // 0.992
    assert_eq!(decay_points(200, u32::MAX), 0);
    assert_eq!(decay_points(0, 5), 0);
    assert_eq!(decay_points(-40, 5), 0);
    assert_eq!(decay_points(1_000, 1), 200); // 990, held at 200
    assert_eq!(decay_points(i32::MAX, 3), 200);
}

#[test]
fn decay_agrees_with_floating_point_within_one() {
    for points in [1, 7, 50, 99, 100, 137, 200] {
        for days in [1u32, 2, 3, 10, 30, 100, 365] {
            let exact = points as f64 * 0.99f64.powi(days as i32);
            let got = decay_points(points, days) as f64;
            assert!(got <= exact + 1e-9 && exact < got + 1.0 + 1e-9, "{points} after {days}: {got} vs {exact}");
        }
    }
}

#[test]
fn decay_counts_an_event_only_for_whole_days() {
    let mut node = NodeReputation::new_at("n".to_string(), 0);
    node.apply_decay(0);
    assert_eq!(node.reputation_points, 100);
    assert_eq!(node.history.decay_events, 0);
    node.apply_decay(3);
    assert_eq!(node.reputation_points, 97);
    assert_eq!(node.history.decay_events, 1);
    assert_eq!(node.history.total_actions, 0);
    assert_eq!(node.last_active, 0);
}

#[test]
fn ten_days_of_inactivity_leave_about_ninety_points() {
    let mut manager = ReputationManager::new();
    manager.add_node_at("10.0.0.1:9000", stake(1_000), 1_000_000);
    manager.apply_decay_all_at(1_000_000 + 10 * 86_400);
    assert_eq!(manager.get_reputation_points("10.0.0.1:9000"), 90);
    let node = manager.get_reputation("10.0.0.1:9000").unwrap();
    assert_eq!(node.history.decay_events, 1);
    assert_eq!(node.last_active, 1_000_000);
}

#[test]
fn ticks_on_the_way_compound() {
    // every tick takes 0.99^days off what is left, days counted from the last activity
    let mut manager = ReputationManager::new();
    manager.add_node_at("10.0.0.1:9000", stake(1_000), 0);
    let mut seen = Vec::new();
    for day in 1..=10u64 {
        manager.apply_decay_all_at(day * 86_400);
        seen.push(manager.get_reputation_points("10.0.0.1:9000"));
    }
    assert_eq!(seen, vec![99, 97, 94, 90, 85, 80, 74, 68, 62, 56]);
    assert_eq!(manager.get_reputation("10.0.0.1:9000").unwrap().history.decay_events, 10);
}

#[test]
fn decay_tick_before_a_whole_day_changes_nothing() {
    let mut manager = ReputationManager::new();
    manager.add_node_at("a:1", stake(10), 500);
    manager.apply_decay_all_at(500 + 86_399);
    assert_eq!(manager.get_reputation_points("a:1"), 100);
    assert_eq!(manager.get_reputation("a:1").unwrap().history.decay_events, 0);
    manager.apply_decay_all_at(499);
    assert_eq!(manager.get_reputation_points("a:1"), 100);
    manager.apply_decay_all_at(500 + 86_400);
    assert_eq!(manager.get_reputation_points("a:1"), 99);
}

#[test]
fn days_since_active_and_age() {
    let node = NodeReputation::new_at("n".to_string(), 1_000);
    assert_eq!(node.days_since_active_at(1_000), 0);
    assert_eq!(node.days_since_active_at(1_000 + 86_399), 0);
    assert_eq!(node.days_since_active_at(1_000 + 86_400), 1);
    assert_eq!(node.days_since_active_at(1_000 + 10 * 86_400 + 5), 10);
    assert_eq!(node.days_since_active_at(0), 0);
    assert_eq!(node.account_age_seconds_at(4_000), 3_000);
    assert_eq!(node.account_age_seconds_at(10), 0);
    assert!(node.days_since_active() > 19_000);
}

#[test]
fn cost_of_forgery_by_formula() {
    // max(1, ln stake) * max(0.1, points/100) * (1 + age/365d) * (1 + success rate)
    let mut node = NodeReputation::with_stake_at("n".to_string(), Stake::new(10_000, 9_210_340), 0);
    // new node: points 100, age 0, no packets: 9.21034 * 1 * 1 * 2
    assert_eq!(node.cost_of_forgery_at(0), 18_420_680);
    // half a year later
    assert_eq!(node.cost_of_forgery_at(15_768_000), 27_631_020);
    // age counts for at most a year
    assert_eq!(node.cost_of_forgery_at(31_536_000), 36_841_360);
    assert_eq!(node.cost_of_forgery_at(10 * 31_536_000), 36_841_360);
    node.reputation_points = 150;
    assert_eq!(node.cost_of_forgery_at(0), 27_631_020);
    node.reputation_points = 5;
    // points factor is at least a tenth
    assert_eq!(node.cost_of_forgery_at(0), 1_842_068);
    node.reputation_points = 100;
    node.metrics.packets_processed = 4;
    node.metrics.packets_forwarded = 1;
    // success rate a quarter: 9.21034 * 1.25
    assert_eq!(node.cost_of_forgery_at(0), 11_512_925);
    // a stake whose logarithm is under one counts as one
    let small = NodeReputation::with_stake_at("s".to_string(), Stake::new(2, 693_147), 0);
    assert_eq!(small.cost_of_forgery_at(0), 2_000_000);
    let none = NodeReputation::new_at("z".to_string(), 0);
    assert_eq!(none.cost_of_forgery_at(0), 2_000_000);
}

#[test]
fn metrics_scores() {
    let mut m = PerformanceMetrics::default();
    assert_eq!(m.success_rate(), 1_000_000);
    assert_eq!(m.latency_score(), 1_000_000);
    m.record_packet(true);
    m.record_packet(true);
    m.record_packet(false);
    assert_eq!(m.packets_processed, 3);
    assert_eq!(m.packets_forwarded, 2);
    assert_eq!(m.packets_dropped, 1);
    assert_eq!(m.success_rate(), 666_666);
    m.update_latency(100_000);
    assert_eq!(m.avg_latency_us, 100_000);
    assert_eq!(m.latency_score(), 500_000);
    m.update_latency(200_000);
    assert_eq!(m.avg_latency_us, 110_000);
    assert_eq!(m.latency_score(), 450_000);
    m.avg_latency_us = 200_000;
    assert_eq!(m.latency_score(), 0);
    m.avg_latency_us = 5_000_000;
    assert_eq!(m.latency_score(), 0);
    m.packets_processed = u64::MAX;
    m.record_packet(false);
    assert_eq!(m.packets_processed, u64::MAX);
}

#[test]
fn history_defaults_and_success_rate() {
    let mut h = ReputationHistory::default();
    assert_eq!(h.success_rate(), 1_000_000);
    h.record_action(ReputationAction::SuccessfulTask);
    h.record_action(ReputationAction::SuccessfulTask);
    h.record_action(ReputationAction::TaskFailure);
    assert_eq!(h.success_rate(), 666_666);
    h.record_action(ReputationAction::Custom(3));
    assert_eq!(h.total_actions, 4);
    h.total_actions = u32::MAX;
    h.record_action(ReputationAction::UptimeMilestone);
    assert_eq!(h.total_actions, u32::MAX);
    assert_eq!(h.uptime_milestones, 1);
}

#[test]
fn unknown_nodes_get_the_defaults() {
    let manager = ReputationManager::new();
    assert_eq!(manager.get_reputation_points("nobody:1"), 100);
    assert_eq!(manager.get_reputation_score("nobody:1"), 500_000);
    assert_eq!(manager.calculate_cost_of_forgery("nobody:1"), 1_000_000);
    assert!(manager.meets_threshold("nobody:1"));
    assert!(manager.get_reputation("nobody:1").is_none());
    assert_eq!(manager.min_threshold(), 50);
    assert_eq!(ReputationManager::with_threshold(70).min_threshold(), 70);
    assert_eq!(ReputationManager::default().min_threshold(), 0);
    assert_eq!(manager.statistics(), ReputationStatistics::default());
}

#[test]
fn update_of_an_unknown_node_makes_its_record() {
    let mut manager = ReputationManager::new();
    manager.update_reputation_at("new:1", ReputationAction::SuccessfulTask, 77).unwrap();
    let node = manager.get_reputation("new:1").unwrap();
    assert_eq!(node.node_id, "new:1");
    assert_eq!(node.reputation_points, 110);
    assert_eq!(node.stake, Stake::none());
    assert_eq!(node.created_at, 77);
    assert_eq!(node.last_active, 77);
    assert_eq!(manager.node_count(), 1);
}

#[test]
fn adding_a_node_again_replaces_its_record() {
    let mut manager = ReputationManager::new();
    manager.add_node_at("a:1", stake(5), 1);
    manager.update_reputation_at("a:1", ReputationAction::MaliciousBehavior, 2).unwrap();
    manager.add_node_at("b:1", stake(6), 3);
    manager.add_node_at("a:1", stake(9), 4);
    assert_eq!(manager.node_count(), 2);
    let a = manager.get_reputation("a:1").unwrap();
    assert_eq!(a.reputation_points, 100);
    assert_eq!(a.stake.amount, 9);
    assert_eq!(a.created_at, 4);
    assert_eq!(manager.get_reputation("b:1").unwrap().stake.amount, 6);
}

#[test]
fn penalties_and_rewards_map_to_actions() {
    let mut manager = ReputationManager::new();
    for (penalty, expected) in [
        (PenaltyType::DroppedPacket, 75),
        (PenaltyType::PacketDrop, 75),
        (PenaltyType::HighLatency, 85),
        (PenaltyType::FailedConnection, 75),
    ] {
        let addr = format!("p:{expected}:{penalty:?}");
        manager.add_node(&addr, stake(1));
        manager.apply_penalty(&addr, penalty).unwrap();
        assert_eq!(manager.get_reputation_points(&addr), expected);
    }
    for (reward, expected) in [
        (RewardType::SuccessfulForward, 110),
        (RewardType::HighUptime, 105),
        (RewardType::LowLatency, 120),
    ] {
        let addr = format!("r:{expected}");
        manager.add_node(&addr, stake(1));
        manager.apply_reward(&addr, reward).unwrap();
        assert_eq!(manager.get_reputation_points(&addr), expected);
    }
}

#[test]
fn threshold_is_inclusive() {
    let mut manager = ReputationManager::with_threshold(85);
    manager.add_node_at("a:1", stake(1), 0);
    assert!(manager.meets_threshold("a:1"));
    manager.update_reputation_at("a:1", ReputationAction::TaskFailure, 1).unwrap();
    assert!(manager.meets_threshold("a:1")); // 85
    manager.update_reputation_at("a:1", ReputationAction::Custom(-1), 2).unwrap();
    assert!(!manager.meets_threshold("a:1")); // 84
    let node = manager.get_reputation("a:1").unwrap();
    assert!(node.meets_threshold(84));
    assert!(!node.meets_threshold(85));
}

#[test]
fn statistics_are_rounded_down_means() {
    let mut manager = ReputationManager::with_threshold(100);
    manager.add_node_at("a:1", Stake::new(10_000, 9_210_340), 0);
    manager.add_node_at("b:1", Stake::new(10_000, 9_210_340), 0);
    manager.add_node_at("c:1", Stake::new(10_000, 9_210_340), 0);
    manager.update_reputation_at("a:1", ReputationAction::SuccessfulTask, 0).unwrap();
    manager.update_reputation_at("b:1", ReputationAction::Custom(-9), 0).unwrap();
    // points 110, 91, 100: sum 301
    let s = manager.statistics_at(0);
    assert_eq!(s.total_nodes, 3);
    assert_eq!(s.avg_points, 100);
    assert_eq!(s.avg_reputation, 501_666);
    assert_eq!(s.nodes_above_threshold, 2);
    assert_eq!(s.min_threshold, 100);
    // costs: 9.21034 * {1.1, 0.91, 1.0} * 1 * 2
    assert_eq!(s.avg_cost_of_forgery, (20_262_748 + 16_762_818 + 18_420_680) / 3);
}

#[test]
fn restore_rejects_duplicates_and_points_out_of_range() {
    let mut manager = ReputationManager::new();
    manager.add_node_at("keep:1", stake(1), 0);
    let a = NodeReputation::new_at("a:1".to_string(), 0);
    let b = NodeReputation::new_at("a:1".to_string(), 5);
    assert_eq!(
        manager.restore(vec![a.clone(), b]).unwrap_err(),
        "Duplicate node in reputation data"
    );
    let mut c = NodeReputation::new_at("c:1".to_string(), 0);
    c.reputation_points = 201;
    assert_eq!(manager.restore(vec![a.clone(), c.clone()]).unwrap_err(), "Reputation points out of range");
    c.reputation_points = -1;
    assert!(manager.restore(vec![c]).is_err());
    assert_eq!(manager.node_count(), 1);
    assert!(manager.get_reputation("keep:1").is_some());
    manager.restore(vec![a]).unwrap();
    assert!(manager.get_reputation("keep:1").is_none());
    assert_eq!(manager.get_reputation_points("a:1"), 100);
    manager.restore(Vec::new()).unwrap();
    assert_eq!(manager.node_count(), 0);
}
