//! The reputation ledger: points per node, what each kind of event is worth,
//! decay through inactivity, and what it would cost to forge a node.
//!
//! Fractions (reputation, rates, scores) are whole numbers of millionths.

use crate::clock::unix_now;
use crate::fixed::{clamped, raised, UNIT};
use vstd::arithmetic::power::pow;
use vstd::prelude::*;

verus! {

/// Reputation in points, from 0 to 200; a new node has 100.
pub type ReputationPoints = i32;

/// Points of a new node.
pub const BASE_POINTS: i32 = 100;

/// Most points a node can have.
pub const MAX_POINTS: i32 = 200;

/// Seconds in a day.
pub const SECONDS_PER_DAY: u64 = 86_400;

/// Days after which the age of an account counts in full.
pub const FULL_AGE_DAYS: u64 = 365;

/// The scale at which decay is computed: 10^27 parts per point.
pub const DECAY_SCALE: u128 = 1_000_000_000_000_000_000_000_000_000;

/// An event that changes a node's reputation.
#[derive(Debug, Clone, Copy)]
pub enum ReputationAction {
    /// A task completed: +10.
    SuccessfulTask,
    /// An uptime milestone reached: +5.
    UptimeMilestone,
    /// Service of high quality: +20.
    HighQualityService,
    /// A task failed: -15.
    TaskFailure,
    /// A connection dropped: -25.
    DroppedConnection,
    /// Malicious behaviour detected: -50.
    MaliciousBehavior,
    /// Any other change, in points.
    Custom(i32),
}

/// What an action is worth in points.
pub open spec fn delta_of(action: ReputationAction) -> int {
    match action {
        ReputationAction::SuccessfulTask => 10,
        ReputationAction::UptimeMilestone => 5,
        ReputationAction::HighQualityService => 20,
        ReputationAction::TaskFailure => -15,
        ReputationAction::DroppedConnection => -25,
        ReputationAction::MaliciousBehavior => -50,
        ReputationAction::Custom(delta) => delta as int,
    }
}

/// The points after an action: the sum, held between 0 and 200.
pub open spec fn after_action(points: int, action: ReputationAction) -> int {
    clamped(points + delta_of(action), 0, 200)
}

/// The points after a sequence of actions, first to last.
pub open spec fn after_actions(points: int, actions: Seq<ReputationAction>) -> int
    decreases actions.len(),
{
    if actions.len() == 0 {
        points
    } else {
        after_action(after_actions(points, actions.drop_last()), actions.last())
    }
}

/// Whatever the actions, points that start between 0 and 200 stay there, and
/// after one action or more they are there wherever they started.
pub proof fn lemma_points_stay_in_range(points: int, actions: Seq<ReputationAction>)
    ensures
        0 <= points <= 200 ==> 0 <= after_actions(points, actions) <= 200,
        actions.len() > 0 ==> 0 <= after_actions(points, actions) <= 200,
    decreases actions.len(),
{
    if actions.len() > 0 {
        lemma_points_stay_in_range(points, actions.drop_last());
    }
}

impl ReputationAction {
    /// What the action is worth in points.
    pub fn points_delta(&self) -> (delta: i32)
        ensures
            delta == delta_of(*self),
    {
        match self {
            ReputationAction::SuccessfulTask => 10,
            ReputationAction::UptimeMilestone => 5,
            ReputationAction::HighQualityService => 20,
            ReputationAction::TaskFailure => -15,
            ReputationAction::DroppedConnection => -25,
            ReputationAction::MaliciousBehavior => -50,
            ReputationAction::Custom(delta) => *delta,
        }
    }
}

/// A count one higher, stopping at the largest number.
pub open spec fn bumped(count: u32) -> u32 {
    if count == u32::MAX {
        count
    } else {
        (count + 1) as u32
    }
}

/// How often each kind of event happened to a node. A counter that has
/// reached the largest number stays there.
#[derive(Debug, Clone, Copy, PartialEq, Eq, Structural)]
pub struct ReputationHistory {
    pub successful_tasks: u32,
    pub failed_tasks: u32,
    pub uptime_milestones: u32,
    pub quality_bonuses: u32,
    pub dropped_connections: u32,
    pub malicious_events: u32,
    pub decay_events: u32,
    pub total_actions: u32,
}

impl Default for ReputationHistory {
    fn default() -> (h: ReputationHistory)
        ensures
            h == ReputationHistory::empty(),
    {
        ReputationHistory {
            successful_tasks: 0,
            failed_tasks: 0,
            uptime_milestones: 0,
            quality_bonuses: 0,
            dropped_connections: 0,
            malicious_events: 0,
            decay_events: 0,
            total_actions: 0,
        }
    }
}

impl ReputationHistory {
    /// The history of a node to which nothing has happened.
    pub open spec fn empty() -> ReputationHistory {
        ReputationHistory {
            successful_tasks: 0,
            failed_tasks: 0,
            uptime_milestones: 0,
            quality_bonuses: 0,
            dropped_connections: 0,
            malicious_events: 0,
            decay_events: 0,
            total_actions: 0,
        }
    }

    /// The history with one more `action`: its own counter (a custom action
    /// has none) and the total go up by one.
    pub open spec fn recorded(self, action: ReputationAction) -> ReputationHistory {
        let counted = match action {
            ReputationAction::SuccessfulTask => ReputationHistory {
                successful_tasks: bumped(self.successful_tasks),
                ..self
            },
            ReputationAction::UptimeMilestone => ReputationHistory {
                uptime_milestones: bumped(self.uptime_milestones),
                ..self
            },
            ReputationAction::HighQualityService => ReputationHistory {
                quality_bonuses: bumped(self.quality_bonuses),
                ..self
            },
            ReputationAction::TaskFailure => ReputationHistory {
                failed_tasks: bumped(self.failed_tasks),
                ..self
            },
            ReputationAction::DroppedConnection => ReputationHistory {
                dropped_connections: bumped(self.dropped_connections),
                ..self
            },
            ReputationAction::MaliciousBehavior => ReputationHistory {
                malicious_events: bumped(self.malicious_events),
                ..self
            },
            ReputationAction::Custom(_) => self,
        };
        ReputationHistory { total_actions: bumped(self.total_actions), ..counted }
    }

    /// Successful tasks as a share of successful and failed ones, in
    /// millionths, rounded down; one where there were neither.
    pub open spec fn task_success_rate(self) -> int {
        if self.successful_tasks + self.failed_tasks == 0 {
            1_000_000
        } else {
            self.successful_tasks * 1_000_000 / (self.successful_tasks + self.failed_tasks)
        }
    }

    /// Counts one more `action`.
    pub fn record_action(&mut self, action: ReputationAction)
        ensures
            *final(self) == old(self).recorded(action),
    {
        match action {
            ReputationAction::SuccessfulTask => {
                self.successful_tasks = self.successful_tasks.saturating_add(1);
            },
            ReputationAction::UptimeMilestone => {
                self.uptime_milestones = self.uptime_milestones.saturating_add(1);
            },
            ReputationAction::HighQualityService => {
                self.quality_bonuses = self.quality_bonuses.saturating_add(1);
            },
            ReputationAction::TaskFailure => {
                self.failed_tasks = self.failed_tasks.saturating_add(1);
            },
            ReputationAction::DroppedConnection => {
                self.dropped_connections = self.dropped_connections.saturating_add(1);
            },
            ReputationAction::MaliciousBehavior => {
                self.malicious_events = self.malicious_events.saturating_add(1);
            },
            ReputationAction::Custom(_) => {},
        }
        self.total_actions = self.total_actions.saturating_add(1);
    }

    /// Successful tasks as a share of successful and failed ones, in
    /// millionths.
    pub fn success_rate(&self) -> (rate: u64)
        ensures
            rate == self.task_success_rate(),
            rate <= UNIT,
    {
        let total: u64 = self.successful_tasks as u64 + self.failed_tasks as u64;
        if total == 0 {
            return 1_000_000;
        }
        let rate = (self.successful_tasks as u64) * 1_000_000 / total;
        assert(rate <= 1_000_000) by (nonlinear_arith)
            requires
                rate == (self.successful_tasks * 1_000_000) / (total as int),
                0 <= self.successful_tasks <= total,
                0 < total,
        ;
        rate
    }
}

/// What a node has done with the packets it was given.
#[derive(Debug, Clone, Copy, PartialEq, Eq, Structural)]
pub struct PerformanceMetrics {
    pub packets_processed: u64,
    pub packets_forwarded: u64,
    pub packets_dropped: u64,
    /// Share of time the node was up, in millionths.
    pub uptime: u64,
    /// Smoothed latency in microseconds.
    pub avg_latency_us: u64,
}

impl Default for PerformanceMetrics {
    fn default() -> (m: PerformanceMetrics)
        ensures
            m == PerformanceMetrics::empty(),
    {
        PerformanceMetrics {
            packets_processed: 0,
            packets_forwarded: 0,
            packets_dropped: 0,
            uptime: 0,
            avg_latency_us: 0,
        }
    }
}

impl PerformanceMetrics {
    /// The metrics of a node that has seen no packet.
    pub open spec fn empty() -> PerformanceMetrics {
        PerformanceMetrics {
            packets_processed: 0,
            packets_forwarded: 0,
            packets_dropped: 0,
            uptime: 0,
            avg_latency_us: 0,
        }
    }

    /// One at no latency, falling in a straight line to zero at 200 ms.
    pub open spec fn latency_score_of(self) -> int {
        if self.avg_latency_us >= 200_000 {
            0
        } else {
            (200_000 - self.avg_latency_us) * 5
        }
    }

    /// Forwarded packets as a share of processed ones, in millionths, rounded
    /// down and at most one; one where none was processed.
    pub open spec fn forward_rate(self) -> int {
        if self.packets_processed == 0 {
            1_000_000
        } else if self.packets_forwarded >= self.packets_processed {
            1_000_000
        } else {
            self.packets_forwarded * 1_000_000 / (self.packets_processed as int)
        }
    }

    /// The smoothed latency after a sample: the sample itself on the first
    /// one, else a tenth of the sample and nine tenths of the old value,
    /// rounded down.
    pub open spec fn smoothed(self, latency_us: u64) -> int {
        if self.avg_latency_us == 0 {
            latency_us as int
        } else {
            (latency_us + 9 * self.avg_latency_us) / 10
        }
    }

    /// Latency score in millionths.
    pub fn latency_score(&self) -> (score: u64)
        ensures
            score == self.latency_score_of(),
            score <= UNIT,
    {
        if self.avg_latency_us >= 200_000 {
            0
        } else {
            (200_000 - self.avg_latency_us) * 5
        }
    }

    /// Success rate in millionths.
    pub fn success_rate(&self) -> (rate: u64)
        ensures
            rate == self.forward_rate(),
            rate <= UNIT,
    {
        if self.packets_processed == 0 || self.packets_forwarded >= self.packets_processed {
            return 1_000_000;
        }
        let wide: u128 = (self.packets_forwarded as u128) * 1_000_000;
        let rate: u128 = wide / (self.packets_processed as u128);
        assert(rate <= 1_000_000) by (nonlinear_arith)
            requires
                rate == (self.packets_forwarded * 1_000_000) / (self.packets_processed as int),
                0 <= self.packets_forwarded < self.packets_processed,
        ;
        rate as u64
    }

    /// Counts one packet, forwarded or dropped.
    pub fn record_packet(&mut self, forwarded: bool)
        ensures
            final(self).packets_processed == raised(old(self).packets_processed, 1),
            forwarded ==> final(self).packets_forwarded == raised(old(self).packets_forwarded, 1)
                && final(self).packets_dropped == old(self).packets_dropped,
            !forwarded ==> final(self).packets_dropped == raised(old(self).packets_dropped, 1)
                && final(self).packets_forwarded == old(self).packets_forwarded,
            final(self).uptime == old(self).uptime,
            final(self).avg_latency_us == old(self).avg_latency_us,
    {
        self.packets_processed = self.packets_processed.saturating_add(1);
        if forwarded {
            self.packets_forwarded = self.packets_forwarded.saturating_add(1);
        } else {
            self.packets_dropped = self.packets_dropped.saturating_add(1);
        }
    }

    /// Takes a latency sample, in microseconds, into the smoothed latency.
    pub fn update_latency(&mut self, latency_us: u64)
        ensures
            final(self).avg_latency_us == old(self).smoothed(latency_us),
            final(self).packets_processed == old(self).packets_processed,
            final(self).packets_forwarded == old(self).packets_forwarded,
            final(self).packets_dropped == old(self).packets_dropped,
            final(self).uptime == old(self).uptime,
    {
        if self.avg_latency_us == 0 {
            self.avg_latency_us = latency_us;
        } else {
            let wide: u128 = latency_us as u128 + 9 * (self.avg_latency_us as u128);
            self.avg_latency_us = (wide / 10) as u64;
        }
    }
}

/// A quantity at decay scale after `days` days, each of which leaves 99
/// hundredths of it, rounded down.
pub open spec fn decay_scaled(x: nat, days: nat) -> nat
    decreases days,
{
    if days == 0 {
        x
    } else {
        decay_scaled(x * 99 / 100, (days - 1) as nat)
    }
}

/// The points left after `days` days without activity: `points * 0.99^days`
/// computed at 27 decimal places, its whole part held between 0 and 200.
pub open spec fn decayed_points(points: int, days: nat) -> int {
    let start = if points < 0 {
        0
    } else {
        points
    };
    clamped(
        (decay_scaled((start * DECAY_SCALE) as nat, days) / (DECAY_SCALE as nat)) as int,
        0,
        200,
    )
}

proof fn lemma_decay_of_nothing(days: nat)
    ensures
        decay_scaled(0, days) == 0,
    decreases days,
{
    if days > 0 {
        lemma_decay_of_nothing((days - 1) as nat);
    }
}

proof fn lemma_decay_bounds(x: nat, days: nat)
    ensures
        decay_scaled(x, days) * pow(100, days) <= x * pow(99, days),
        x * pow(99, days) <= (decay_scaled(x, days) + days) * pow(100, days),
        0 < pow(99, days) <= pow(100, days),
    decreases days,
{
    reveal(pow);
    if days > 0 {
        let next = x * 99 / 100;
        let d1 = (days - 1) as nat;
        lemma_decay_bounds(next, d1);
        let result = decay_scaled(x, days);
        let power99 = pow(99, d1);
        let power100 = pow(100, d1);
        assert(pow(99, days) == 99 * power99);
        assert(pow(100, days) == 100 * power100);
        assert(100 * next <= x * 99 < 100 * next + 100);
        assert(result * (100 * power100) <= x * (99 * power99)) by (nonlinear_arith)
            requires
                result * power100 <= next * power99,
                100 * next <= x * 99,
                0 < power99,
                0 <= result,
        ;
        assert(x * (99 * power99) <= (result + days) * (100 * power100)) by (nonlinear_arith)
            requires
                next * power99 <= (result + d1) * power100,
                x * 99 < 100 * next + 100,
                0 < power99 <= power100,
                days == d1 + 1,
                0 <= result,
                0 <= next,
        ;
        assert(0 < 99 * power99 <= 100 * power100) by (nonlinear_arith)
            requires
                0 < power99 <= power100,
        ;
    }
}

/// Decay follows `points * 0.99^days`: the points left are never more than
/// that value, and fall short of it by less than `1 + days / 10^27`.
pub proof fn lemma_decay_tracks_exact_value(points: int, days: nat)
    requires
        0 <= points <= 200,
    ensures
        0 <= decayed_points(points, days) <= points,
        decayed_points(points, days) * pow(100, days) <= points * pow(99, days),
        points * pow(99, days) * DECAY_SCALE <= ((decayed_points(points, days) + 1) * DECAY_SCALE
            + days) * pow(100, days),
{
    let scale = DECAY_SCALE as int;
    let start = (points * scale) as nat;
    let end = decay_scaled(start, days);
    let left = decayed_points(points, days);
    let power99 = pow(99, days);
    let power100 = pow(100, days);
    lemma_decay_bounds(start, days);
    assert(end <= start) by (nonlinear_arith)
        requires
            end * power100 <= start * power99,
            0 < power99 <= power100,
            0 <= end,
            0 <= start,
    ;
    let whole = (end / (scale as nat)) as int;
    assert(whole * scale <= end < (whole + 1) * scale) by (nonlinear_arith)
        requires
            whole == end as int / scale,
            scale > 0,
            end >= 0,
    ;
    assert(whole <= points) by (nonlinear_arith)
        requires
            whole * scale <= end,
            end <= points * scale,
            scale > 0,
    ;
    assert(left == whole);
    assert(left * power100 <= points * power99) by (nonlinear_arith)
        requires
            left * scale <= end,
            end * power100 <= points * scale * power99,
            scale > 0,
            0 < power100,
            0 <= left,
    ;
    assert(points * power99 * scale <= ((left + 1) * scale + days) * power100) by (nonlinear_arith)
        requires
            points * scale * power99 <= (end + days) * power100,
            end < (left + 1) * scale,
            0 < power100,
    ;
}

/// The points left after `days` days without activity.
pub fn decay_points(points: i32, days: u32) -> (left: i32)
    ensures
        left == decayed_points(points as int, days as nat),
        0 <= left <= 200,
{
    let start: u128 = if points < 0 {
        0
    } else {
        points as u128
    };
    let mut x: u128 = start * DECAY_SCALE;
    let mut i: u32 = 0;
    while i < days && x > 0
        invariant
            i <= days,
            x <= 2_147_483_647 * DECAY_SCALE,
            decay_scaled(x as nat, (days - i) as nat) == decay_scaled(
                (start * DECAY_SCALE) as nat,
                days as nat,
            ),
        decreases days - i,
    {
        x = x * 99 / 100;
        i = i + 1;
    }
    proof {
        if i < days {
            lemma_decay_of_nothing((days - i) as nat);
        }
    }
    let whole: u128 = x / DECAY_SCALE;
    if whole > 200 {
        200
    } else {
        whole as i32
    }
}

/// Largest natural logarithm of a stake, in millionths: that of 2^64.
pub const MAX_STAKE_LOG: u64 = 44_361_420;

/// A stake together with its natural logarithm.
///
/// The rules on stakes weigh them by their logarithm, which integer
/// arithmetic cannot give: whoever makes a `Stake` supplies it.
#[derive(Debug, Clone, Copy, PartialEq, Eq, Structural)]
pub struct Stake {
    /// The amount staked.
    pub amount: u64,
    /// The natural logarithm of the amount, in millionths; zero for the
    /// amounts 0 and 1.
    pub log: u64,
}

impl Stake {
    /// The logarithm as the rules use it: at most that of 2^64.
    pub open spec fn log_used(self) -> int {
        if self.log > 44_361_420 {
            44_361_420
        } else {
            self.log as int
        }
    }

    /// A stake of `amount` whose natural logarithm is `log` millionths.
    pub fn new(amount: u64, log: u64) -> (stake: Stake)
        ensures
            stake == (Stake { amount, log }),
    {
        Stake { amount, log }
    }

    /// No stake at all.
    pub fn none() -> (stake: Stake)
        ensures
            stake == (Stake { amount: 0, log: 0 }),
    {
        Stake { amount: 0, log: 0 }
    }
}

/// What is known of one node.
#[derive(Debug, Clone)]
pub struct NodeReputation {
    /// The node's address as text.
    pub node_id: String,
    /// Points, 0 to 200.
    pub reputation_points: ReputationPoints,
    /// The node's stake.
    pub stake: Stake,
    pub metrics: PerformanceMetrics,
    pub history: ReputationHistory,
    /// When the node last acted, in seconds since 1970.
    pub last_active: u64,
    /// When the record was made, in seconds since 1970.
    pub created_at: u64,
}

/// Reputation as a fraction, in millionths: the points, held between 0 and
/// 200, over 200.
pub open spec fn reputation_of(points: int) -> int {
    clamped(points, 0, 200) * 5_000
}

/// Whole days from `since` to `now`, as the 32-bit counter shows them; zero
/// where `now` is the earlier.
pub open spec fn days_between(since: u64, now: u64) -> int {
    if now < since {
        0
    } else {
        (now - since) / 86_400 % 0x1_0000_0000
    }
}

impl NodeReputation {
    /// The record of a node first seen at `now`: 100 points, nothing counted.
    pub open spec fn fresh(node_id: String, stake: Stake, now: u64) -> NodeReputation {
        NodeReputation {
            node_id,
            reputation_points: 100,
            stake,
            metrics: PerformanceMetrics::empty(),
            history: ReputationHistory::empty(),
            last_active: now,
            created_at: now,
        }
    }

    /// The record after `action` at `now`.
    pub open spec fn acted(self, action: ReputationAction, now: u64) -> NodeReputation {
        NodeReputation {
            reputation_points: after_action(self.reputation_points as int, action) as i32,
            history: self.history.recorded(action),
            last_active: now,
            ..self
        }
    }

    /// The record after `days` days without activity: unchanged for no days,
    /// else with decayed points and one more decay counted.
    pub open spec fn decayed(self, days: u32) -> NodeReputation {
        if days == 0 {
            self
        } else {
            NodeReputation {
                reputation_points: decayed_points(self.reputation_points as int, days as nat) as i32,
                history: ReputationHistory {
                    decay_events: bumped(self.history.decay_events),
                    ..self.history
                },
                ..self
            }
        }
    }

    /// Age of the record at `now`, in seconds.
    pub open spec fn age_seconds(self, now: u64) -> int {
        if now < self.created_at {
            0
        } else {
            now - self.created_at
        }
    }

    /// Age as a share of a year, in millionths, rounded down and at most one.
    pub open spec fn age_share(self, now: u64) -> int {
        if self.age_seconds(now) >= 31_536_000 {
            1_000_000
        } else {
            self.age_seconds(now) * 1_000_000 / 31_536_000
        }
    }

    /// A hundredth of the points, in millionths, and at least a tenth.
    pub open spec fn points_factor(self) -> int {
        if self.reputation_points < 10 {
            100_000
        } else {
            self.reputation_points * 10_000
        }
    }

    /// What it costs to forge this node, in millionths:
    /// `max(1, ln stake) * max(0.1, points / 100) * (1 + age share) * (1 +
    /// success rate)`, rounded down.
    pub open spec fn forgery_cost(self, now: u64) -> int {
        let stake_factor = if self.stake.log_used() < 1_000_000 {
            1_000_000
        } else {
            self.stake.log_used()
        };
        stake_factor * self.points_factor() * (1_000_000 + self.age_share(now)) * (1_000_000
            + self.metrics.forward_rate()) / 1_000_000_000_000_000_000
    }

    /// The record of a node first seen at `now`.
    pub fn new_at(node_id: String, now: u64) -> (node: NodeReputation)
        ensures
            node == NodeReputation::fresh(node_id, Stake { amount: 0, log: 0 }, now),
    {
        NodeReputation::with_stake_at(node_id, Stake::none(), now)
    }

    /// The record of a node first seen at the time of the call.
    pub fn new(node_id: String) -> (node: NodeReputation)
        ensures
            exists|now: u64| node == NodeReputation::fresh(node_id, Stake { amount: 0, log: 0 }, now),
    {
        let now = unix_now();
        NodeReputation::new_at(node_id, now)
    }

    /// The record of a node with a stake, first seen at `now`.
    pub fn with_stake_at(node_id: String, stake: Stake, now: u64) -> (node: NodeReputation)
        ensures
            node == NodeReputation::fresh(node_id, stake, now),
    {
        NodeReputation {
            node_id,
            reputation_points: BASE_POINTS,
            stake,
            metrics: PerformanceMetrics::default(),
            history: ReputationHistory::default(),
            last_active: now,
            created_at: now,
        }
    }

    /// The record of a node with a stake, first seen at the time of the call.
    pub fn with_stake(node_id: String, stake: Stake) -> (node: NodeReputation)
        ensures
            exists|now: u64| node == NodeReputation::fresh(node_id, stake, now),
    {
        let now = unix_now();
        NodeReputation::with_stake_at(node_id, stake, now)
    }

    /// A copy of the record.
    pub fn duplicate(&self) -> (copy: NodeReputation)
        ensures
            copy == *self,
    {
        NodeReputation {
            node_id: self.node_id.clone(),
            reputation_points: self.reputation_points,
            stake: self.stake,
            metrics: self.metrics,
            history: self.history,
            last_active: self.last_active,
            created_at: self.created_at,
        }
    }

    /// Reputation as a fraction, in millionths.
    pub fn reputation(&self) -> (fraction: u64)
        ensures
            fraction == reputation_of(self.reputation_points as int),
            fraction <= UNIT,
    {
        if self.reputation_points < 0 {
            0
        } else if self.reputation_points > MAX_POINTS {
            1_000_000
        } else {
            (self.reputation_points as u64) * 5_000
        }
    }

    /// The same as the reputation: the normalised score.
    pub fn score(&self) -> (fraction: u64)
        ensures
            fraction == reputation_of(self.reputation_points as int),
            fraction <= UNIT,
    {
        self.reputation()
    }

    /// Applies `action` at `now`: the points move by what the action is
    /// worth and stay between 0 and 200.
    pub fn apply_action_at(&mut self, action: ReputationAction, now: u64)
        ensures
            *final(self) == old(self).acted(action, now),
            0 <= final(self).reputation_points <= 200,
    {
        let sum: i64 = self.reputation_points as i64 + action.points_delta() as i64;
        self.reputation_points = if sum < 0 {
            0
        } else if sum > 200 {
            200
        } else {
            sum as i32
        };
        self.history.record_action(action);
        self.last_active = now;
    }

    /// Applies `action` at the time of the call.
    pub fn apply_action(&mut self, action: ReputationAction)
        ensures
            exists|now: u64| *final(self) == old(self).acted(action, now),
            0 <= final(self).reputation_points <= 200,
    {
        let now = unix_now();
        self.apply_action_at(action, now);
    }

    /// Lets the points decay for `days_inactive` days.
    pub fn apply_decay(&mut self, days_inactive: u32)
        ensures
            *final(self) == old(self).decayed(days_inactive),
            days_inactive > 0 ==> 0 <= final(self).reputation_points <= 200,
    {
        if days_inactive == 0 {
            return ;
        }
        self.reputation_points = decay_points(self.reputation_points, days_inactive);
        self.history.decay_events = self.history.decay_events.saturating_add(1);
    }

    /// Age of the record at `now`, in seconds; zero where `now` is earlier
    /// than its creation.
    pub fn account_age_seconds_at(&self, now: u64) -> (age: u64)
        ensures
            age == self.age_seconds(now),
    {
        if now < self.created_at {
            0
        } else {
            now - self.created_at
        }
    }

    /// Whole days since the node last acted, at `now`.
    pub fn days_since_active_at(&self, now: u64) -> (days: u32)
        ensures
            days == days_between(self.last_active, now),
    {
        if now < self.last_active {
            0
        } else {
            (((now - self.last_active) / SECONDS_PER_DAY) % 0x1_0000_0000) as u32
        }
    }

    /// Whole days since the node last acted, at the time of the call.
    pub fn days_since_active(&self) -> (days: u32)
        ensures
            exists|now: u64| days == days_between(self.last_active, now),
    {
        let now = unix_now();
        self.days_since_active_at(now)
    }

    /// What it costs to forge this node at the time of the call, in millionths.
    pub fn cost_of_forgery(&self) -> (cost: u64)
        ensures
            exists|now: u64| cost == self.forgery_cost(now),
    {
        let now = unix_now();
        self.cost_of_forgery_at(now)
    }

    /// What it costs to forge this node at `now`, in millionths.
    pub fn cost_of_forgery_at(&self, now: u64) -> (cost: u64)
        ensures
            cost == self.forgery_cost(now),
            cost <= 4_000_000_000_000_000,
    {
        let stake_factor: u128 = if self.stake.log < 1_000_000 {
            1_000_000
        } else if self.stake.log > MAX_STAKE_LOG {
            MAX_STAKE_LOG as u128
        } else {
            self.stake.log as u128
        };
        let points_factor: u128 = if self.reputation_points < 10 {
            100_000
        } else {
            (self.reputation_points as u128) * 10_000
        };
        let age = self.account_age_seconds_at(now);
        let age_share: u128 = if age >= SECONDS_PER_DAY * FULL_AGE_DAYS {
            1_000_000
        } else {
            (age as u128) * 1_000_000 / 31_536_000
        };
        let success: u128 = self.metrics.success_rate() as u128;
        assert(stake_factor * points_factor <= 44_361_420 * 21_474_836_470_000) by (nonlinear_arith)
            requires
                0 <= stake_factor <= 44_361_420,
                0 <= points_factor <= 21_474_836_470_000,
        ;
        let a: u128 = stake_factor * points_factor;
        assert((1_000_000 + age_share) * (1_000_000 + success) <= 4_000_000_000_000) by (nonlinear_arith)
            requires
                0 <= age_share <= 1_000_000,
                0 <= success <= 1_000_000,
        ;
        let b: u128 = (1_000_000 + age_share) * (1_000_000 + success);
        assert(a * b <= 44_361_420 * 21_474_836_470_000 * 4_000_000_000_000) by (nonlinear_arith)
            requires
                0 <= a <= 44_361_420 * 21_474_836_470_000,
                0 <= b <= 4_000_000_000_000,
        ;
        let wide: u128 = a * b;
        assert(wide == stake_factor * points_factor * (1_000_000 + age_share) * (1_000_000
            + success)) by (nonlinear_arith)
            requires
                wide == a * b,
                a == stake_factor * points_factor,
                b == (1_000_000 + age_share) * (1_000_000 + success),
        ;
        assert(44_361_420 * 21_474_836_470_000 * 4_000_000_000_000int
            <= 4_000_000_000_000_000 * 1_000_000_000_000_000_000int);
        (wide / 1_000_000_000_000_000_000) as u64
    }

    /// The node has at least `min_points` points.
    pub fn meets_threshold(&self, min_points: ReputationPoints) -> (ok: bool)
        ensures
            ok == (self.reputation_points >= min_points),
    {
        self.reputation_points >= min_points
    }
}

/// A fault that costs reputation.
#[derive(Debug, Clone, Copy)]
pub enum PenaltyType {
    DroppedPacket,
    /// The same as `DroppedPacket`.
    PacketDrop,
    HighLatency,
    FailedConnection,
}

/// A merit that earns reputation.
#[derive(Debug, Clone, Copy)]
pub enum RewardType {
    SuccessfulForward,
    HighUptime,
    LowLatency,
}

/// The action behind a penalty: high latency counts as a failed task, every
/// other penalty as a dropped connection.
pub open spec fn penalty_action(penalty: PenaltyType) -> ReputationAction {
    match penalty {
        PenaltyType::HighLatency => ReputationAction::TaskFailure,
        _ => ReputationAction::DroppedConnection,
    }
}

/// The action behind a reward.
pub open spec fn reward_action(reward: RewardType) -> ReputationAction {
    match reward {
        RewardType::SuccessfulForward => ReputationAction::SuccessfulTask,
        RewardType::HighUptime => ReputationAction::UptimeMilestone,
        RewardType::LowLatency => ReputationAction::HighQualityService,
    }
}

/// No two records are of one node.
pub open spec fn distinct_ids(entries: Seq<NodeReputation>) -> bool {
    forall|i: int, j: int|
        0 <= i < j < entries.len() ==> (#[trigger] entries[i]).node_id@ != (
        #[trigger] entries[j]).node_id@
}

/// Every record has between 0 and 200 points.
pub open spec fn points_in_range(entries: Seq<NodeReputation>) -> bool {
    forall|i: int|
        0 <= i < entries.len() ==> 0 <= (#[trigger] entries[i]).reputation_points <= 200
}

/// There is a record of the node `id`.
pub open spec fn is_recorded(entries: Seq<NodeReputation>, id: Seq<char>) -> bool {
    exists|i: int| 0 <= i < entries.len() && (#[trigger] entries[i]).node_id@ == id
}

/// The records by node.
pub open spec fn ledger_of(entries: Seq<NodeReputation>) -> Map<Seq<char>, NodeReputation> {
    Map::new(
        |id: Seq<char>| is_recorded(entries, id),
        |id: Seq<char>|
            entries[choose|i: int| 0 <= i < entries.len() && (#[trigger] entries[i]).node_id@ == id],
    )
}

proof fn lemma_ledger_at(entries: Seq<NodeReputation>, i: int)
    requires
        distinct_ids(entries),
        0 <= i < entries.len(),
    ensures
        ledger_of(entries).contains_key(entries[i].node_id@),
        ledger_of(entries)[entries[i].node_id@] == entries[i],
{
    let id = entries[i].node_id@;
    let j = choose|j: int| 0 <= j < entries.len() && (#[trigger] entries[j]).node_id@ == id;
    assert(j == i);
}

proof fn lemma_ledger_push(entries: Seq<NodeReputation>, node: NodeReputation)
    requires
        distinct_ids(entries),
        !is_recorded(entries, node.node_id@),
    ensures
        distinct_ids(entries.push(node)),
        ledger_of(entries.push(node)) == ledger_of(entries).insert(node.node_id@, node),
{
    let after = entries.push(node);
    assert forall|i: int, j: int| 0 <= i < j < after.len() implies (#[trigger] after[i]).node_id@ != (
    #[trigger] after[j]).node_id@ by {
        if j == entries.len() {
            assert(after[i] == entries[i]);
        } else {
            assert(after[i] == entries[i] && after[j] == entries[j]);
        }
    }
    let wanted = ledger_of(entries).insert(node.node_id@, node);
    assert forall|id: Seq<char>| ledger_of(after).contains_key(id) <==> wanted.contains_key(
        id,
    ) by {
        if is_recorded(after, id) {
            let i = choose|i: int| 0 <= i < after.len() && (#[trigger] after[i]).node_id@ == id;
            if i < entries.len() {
                assert(entries[i].node_id@ == id);
            }
        }
        if is_recorded(entries, id) {
            let i = choose|i: int| 0 <= i < entries.len() && (#[trigger] entries[i]).node_id@ == id;
            assert(after[i].node_id@ == id);
        }
        if id == node.node_id@ {
            assert(after[entries.len() as int].node_id@ == id);
        }
    }
    assert forall|id: Seq<char>| ledger_of(after).contains_key(id) implies ledger_of(after)[id]
        == wanted[id] by {
        let i = choose|i: int| 0 <= i < after.len() && (#[trigger] after[i]).node_id@ == id;
        lemma_ledger_at(after, i);
        if i < entries.len() {
            assert(after[i] == entries[i]);
            lemma_ledger_at(entries, i);
        }
    }
    assert(ledger_of(after) =~= wanted);
}

proof fn lemma_ledger_update(entries: Seq<NodeReputation>, i: int, node: NodeReputation)
    requires
        distinct_ids(entries),
        0 <= i < entries.len(),
        node.node_id@ == entries[i].node_id@,
    ensures
        distinct_ids(entries.update(i, node)),
        ledger_of(entries.update(i, node)) == ledger_of(entries).insert(node.node_id@, node),
{
    let after = entries.update(i, node);
    assert forall|a: int, b: int| 0 <= a < b < after.len() implies (#[trigger] after[a]).node_id@ != (
    #[trigger] after[b]).node_id@ by {
        assert(after[a].node_id@ == entries[a].node_id@);
        assert(after[b].node_id@ == entries[b].node_id@);
    }
    let wanted = ledger_of(entries).insert(node.node_id@, node);
    assert forall|id: Seq<char>| ledger_of(after).contains_key(id) <==> wanted.contains_key(
        id,
    ) by {
        if is_recorded(after, id) {
            let k = choose|k: int| 0 <= k < after.len() && (#[trigger] after[k]).node_id@ == id;
            assert(entries[k].node_id@ == id);
        }
        if is_recorded(entries, id) {
            let k = choose|k: int| 0 <= k < entries.len() && (#[trigger] entries[k]).node_id@ == id;
            assert(after[k].node_id@ == id);
        }
        if id == node.node_id@ {
            assert(after[i].node_id@ == id);
        }
    }
    assert forall|id: Seq<char>| ledger_of(after).contains_key(id) implies ledger_of(after)[id]
        == wanted[id] by {
        let k = choose|k: int| 0 <= k < after.len() && (#[trigger] after[k]).node_id@ == id;
        lemma_ledger_at(after, k);
        if k != i {
            assert(after[k] == entries[k]);
            lemma_ledger_at(entries, k);
        }
    }
    assert(ledger_of(after) =~= wanted);
}

/// Every record of `after` is the one of `before` at its place, decayed for
/// the whole days since that node last acted, as of `now`.
pub open spec fn all_decayed(before: Seq<NodeReputation>, after: Seq<NodeReputation>, now: u64) -> bool {
    &&& after.len() == before.len()
    &&& forall|i: int|
        0 <= i < before.len() ==> (#[trigger] after[i]) == before[i].decayed(
            days_between(before[i].last_active, now) as u32,
        )
}

/// The record of the node `node_id` after `action` at `now`: that of its old
/// record, or of a record made at `now` where it had none.
pub open spec fn record_after(
    ledger: Map<Seq<char>, NodeReputation>,
    node_id: String,
    action: ReputationAction,
    now: u64,
) -> NodeReputation {
    if ledger.contains_key(node_id@) {
        ledger[node_id@].acted(action, now)
    } else {
        NodeReputation::fresh(node_id, Stake { amount: 0, log: 0 }, now).acted(action, now)
    }
}

fn all_points_in_range(nodes: &Vec<NodeReputation>) -> (ok: bool)
    ensures
        ok == points_in_range(nodes@),
{
    let mut i: usize = 0;
    while i < nodes.len()
        invariant
            i <= nodes@.len(),
            forall|j: int| 0 <= j < i ==> 0 <= (#[trigger] nodes@[j]).reputation_points <= 200,
        decreases nodes@.len() - i,
    {
        if nodes[i].reputation_points < 0 || nodes[i].reputation_points > MAX_POINTS {
            return false;
        }
        i = i + 1;
    }
    true
}

fn all_ids_distinct(nodes: &Vec<NodeReputation>) -> (ok: bool)
    ensures
        ok == distinct_ids(nodes@),
{
    let mut a: usize = 0;
    while a < nodes.len()
        invariant
            a <= nodes@.len(),
            forall|x: int, y: int|
                0 <= x < a && x < y < nodes@.len() ==> (#[trigger] nodes@[x]).node_id@ != (
                #[trigger] nodes@[y]).node_id@,
        decreases nodes@.len() - a,
    {
        let mut b: usize = a + 1;
        while b < nodes.len()
            invariant
                a < b <= nodes@.len(),
                forall|y: int|
                    a < y < b ==> nodes@[a as int].node_id@ != (#[trigger] nodes@[y]).node_id@,
            decreases nodes@.len() - b,
        {
            if nodes[a].node_id == nodes[b].node_id {
                return false;
            }
            b = b + 1;
        }
        a = a + 1;
    }
    true
}

/// Sum of the points of all records.
pub open spec fn total_points(entries: Seq<NodeReputation>) -> int
    decreases entries.len(),
{
    if entries.len() == 0 {
        0
    } else {
        total_points(entries.drop_last()) + entries.last().reputation_points
    }
}

/// Number of records with at least `min_points` points.
pub open spec fn count_at_least(entries: Seq<NodeReputation>, min_points: int) -> int
    decreases entries.len(),
{
    if entries.len() == 0 {
        0
    } else {
        count_at_least(entries.drop_last(), min_points) + if entries.last().reputation_points
            >= min_points {
            1int
        } else {
            0int
        }
    }
}

/// The nodes with at least `min_points` points, each with its reputation in
/// millionths, in the order of the records.
pub open spec fn candidates(entries: Seq<NodeReputation>, min_points: int) -> Seq<(Seq<char>, u64)>
    decreases entries.len(),
{
    if entries.len() == 0 {
        Seq::empty()
    } else {
        let before = candidates(entries.drop_last(), min_points);
        let node = entries.last();
        if node.reputation_points >= min_points {
            before.push((node.node_id@, reputation_of(node.reputation_points as int) as u64))
        } else {
            before
        }
    }
}

/// The contents of a list of candidates.
pub open spec fn candidate_views(list: Seq<(String, u64)>) -> Seq<(Seq<char>, u64)> {
    list.map_values(|c: (String, u64)| (c.0@, c.1))
}

/// Figures on the whole ledger.
#[derive(Debug, Clone, Copy, PartialEq, Eq, Structural)]
pub struct ReputationStatistics {
    pub total_nodes: usize,
    /// Mean reputation in millionths, rounded down.
    pub avg_reputation: u64,
    /// Mean points, rounded down.
    pub avg_points: ReputationPoints,
    /// Mean cost of forgery in millionths, rounded down.
    pub avg_cost_of_forgery: u64,
    pub nodes_above_threshold: usize,
    pub min_threshold: ReputationPoints,
}

impl ReputationStatistics {
    /// The figures of an empty ledger.
    pub open spec fn of_nothing() -> ReputationStatistics {
        ReputationStatistics {
            total_nodes: 0,
            avg_reputation: 500_000,
            avg_points: 100,
            avg_cost_of_forgery: 1_000_000,
            nodes_above_threshold: 0,
            min_threshold: 50,
        }
    }
}

impl Default for ReputationStatistics {
    fn default() -> (s: ReputationStatistics)
        ensures
            s == ReputationStatistics::of_nothing(),
    {
        ReputationStatistics {
            total_nodes: 0,
            avg_reputation: 500_000,
            avg_points: 100,
            avg_cost_of_forgery: 1_000_000,
            nodes_above_threshold: 0,
            min_threshold: 50,
        }
    }
}

/// Sum of the costs of forgery of all records at `now`.
pub open spec fn total_forgery_cost(entries: Seq<NodeReputation>, now: u64) -> int
    decreases entries.len(),
{
    if entries.len() == 0 {
        0
    } else {
        total_forgery_cost(entries.drop_last(), now) + entries.last().forgery_cost(now)
    }
}

/// The figures on `entries` at `now` under the threshold `min_threshold`.
pub open spec fn statistics_of(entries: Seq<NodeReputation>, min_threshold: i32, now: u64) -> ReputationStatistics {
    if entries.len() == 0 {
        ReputationStatistics::of_nothing()
    } else {
        ReputationStatistics {
            total_nodes: entries.len() as usize,
            avg_reputation: (total_points(entries) * 5_000 / (entries.len() as int)) as u64,
            avg_points: (total_points(entries) / (entries.len() as int)) as i32,
            avg_cost_of_forgery: (total_forgery_cost(entries, now) / (entries.len() as int)) as u64,
            nodes_above_threshold: count_at_least(entries, min_threshold as int) as usize,
            min_threshold,
        }
    }
}

/// The reputation of every node of the network, by address.
///
/// No node has two records, and every record has between 0 and 200 points.
pub struct ReputationManager {
    nodes: Vec<NodeReputation>,
    min_reputation_threshold: ReputationPoints,
}

impl ReputationManager {
    /// No node has two records, and every record has between 0 and 200
    /// points.
    pub closed spec fn wf(self) -> bool {
        distinct_ids(self.nodes@) && points_in_range(self.nodes@)
    }

    /// The records, oldest first.
    pub closed spec fn entries(self) -> Seq<NodeReputation> {
        self.nodes@
    }

    /// The records by node address.
    pub open spec fn ledger(self) -> Map<Seq<char>, NodeReputation> {
        ledger_of(self.entries())
    }

    /// The points below which a node may not take part.
    pub closed spec fn threshold(self) -> ReputationPoints {
        self.min_reputation_threshold
    }

    /// An empty ledger with a threshold of 50 points.
    pub fn new() -> (manager: ReputationManager)
        ensures
            manager.wf(),
            manager.entries().len() == 0,
            manager.threshold() == 50,
    {
        ReputationManager { nodes: Vec::new(), min_reputation_threshold: 50 }
    }

    /// An empty ledger with the given threshold.
    pub fn with_threshold(min_threshold: ReputationPoints) -> (manager: ReputationManager)
        ensures
            manager.wf(),
            manager.entries().len() == 0,
            manager.threshold() == min_threshold,
    {
        ReputationManager { nodes: Vec::new(), min_reputation_threshold: min_threshold }
    }

    /// The points below which a node may not take part.
    pub fn min_threshold(&self) -> (t: ReputationPoints)
        requires
            self.wf(),
        ensures
            t == self.threshold(),
    {
        self.min_reputation_threshold
    }

    /// All records, oldest first.
    pub fn nodes(&self) -> (list: &[NodeReputation])
        requires
            self.wf(),
        ensures
            list@ == self.entries(),
            distinct_ids(list@),
            points_in_range(list@),
    {
        self.nodes.as_slice()
    }

    fn find(&self, key: &String) -> (at: Option<usize>)
        requires
            self.wf(),
        ensures
            match at {
                Some(i) => i < self.nodes@.len() && self.nodes@[i as int].node_id@ == key@,
                None => !is_recorded(self.nodes@, key@),
            },
    {
        let mut i: usize = 0;
        while i < self.nodes.len()
            invariant
                i <= self.nodes@.len(),
                forall|j: int| 0 <= j < i ==> (#[trigger] self.nodes@[j]).node_id@ != key@,
            decreases self.nodes@.len() - i,
        {
            if self.nodes[i].node_id == *key {
                return Some(i);
            }
            i = i + 1;
        }
        None
    }

    /// Puts a new record of the node at `addr` into the ledger, in place of
    /// any record that it had.
    pub fn add_node_at(&mut self, addr: &str, stake: Stake, now: u64)
        requires
            old(self).wf(),
        ensures
            final(self).wf(),
            final(self).ledger() == old(self).ledger().insert(
                addr@,
                final(self).ledger()[addr@],
            ),
            final(self).ledger()[addr@] == NodeReputation::fresh(
                final(self).ledger()[addr@].node_id,
                stake,
                now,
            ),
            final(self).ledger()[addr@].node_id@ == addr@,
            final(self).threshold() == old(self).threshold(),
    {
        let key = String::from_str(addr);
        let node = NodeReputation::with_stake_at(String::from_str(addr), stake, now);
        match self.find(&key) {
            Some(i) => {
                proof {
                    lemma_ledger_update(self.nodes@, i as int, node);
                }
                self.nodes[i] = node;
            },
            None => {
                proof {
                    lemma_ledger_push(self.nodes@, node);
                }
                self.nodes.push(node);
            },
        }
    }

    /// Puts a new record of the node at `addr` into the ledger, dated at the
    /// time of the call.
    pub fn add_node(&mut self, addr: &str, stake: Stake)
        requires
            old(self).wf(),
        ensures
            final(self).wf(),
            final(self).ledger() == old(self).ledger().insert(
                addr@,
                final(self).ledger()[addr@],
            ),
            exists|now: u64|
                final(self).ledger()[addr@] == NodeReputation::fresh(
                    final(self).ledger()[addr@].node_id,
                    stake,
                    now,
                ),
            final(self).ledger()[addr@].node_id@ == addr@,
            final(self).threshold() == old(self).threshold(),
    {
        let now = unix_now();
        self.add_node_at(addr, stake, now);
    }

    /// A copy of the record of the node at `addr`.
    pub fn get_reputation(&self, addr: &str) -> (found: Option<NodeReputation>)
        requires
            self.wf(),
        ensures
            match found {
                Some(node) => self.ledger().contains_key(addr@) && node == self.ledger()[addr@]
                    && 0 <= node.reputation_points <= 200 && node.node_id@ == addr@,
                None => !self.ledger().contains_key(addr@),
            },
    {
        let key = String::from_str(addr);
        match self.find(&key) {
            Some(i) => {
                proof {
                    lemma_ledger_at(self.nodes@, i as int);
                }
                Some(self.nodes[i].duplicate())
            },
            None => None,
        }
    }

    /// The reputation of the node at `addr` in millionths; a half for a node
    /// without a record.
    pub fn get_reputation_score(&self, addr: &str) -> (score: u64)
        requires
            self.wf(),
        ensures
            score == if self.ledger().contains_key(addr@) {
                reputation_of(self.ledger()[addr@].reputation_points as int)
            } else {
                500_000
            },
            score <= UNIT,
    {
        match self.get_reputation(addr) {
            Some(node) => node.reputation(),
            None => 500_000,
        }
    }

    /// The points of the node at `addr`; 100 for a node without a record.
    pub fn get_reputation_points(&self, addr: &str) -> (points: ReputationPoints)
        requires
            self.wf(),
        ensures
            points == if self.ledger().contains_key(addr@) {
                self.ledger()[addr@].reputation_points
            } else {
                100
            },
            0 <= points <= 200,
    {
        match self.get_reputation(addr) {
            Some(node) => node.reputation_points,
            None => BASE_POINTS,
        }
    }

    /// What it costs to forge the node at `addr`, in millionths; one for a
    /// node without a record.
    pub fn calculate_cost_of_forgery_at(&self, addr: &str, now: u64) -> (cost: u64)
        requires
            self.wf(),
        ensures
            cost == if self.ledger().contains_key(addr@) {
                self.ledger()[addr@].forgery_cost(now)
            } else {
                1_000_000
            },
    {
        match self.get_reputation(addr) {
            Some(node) => node.cost_of_forgery_at(now),
            None => 1_000_000,
        }
    }

    /// What it costs to forge the node at `addr` at the time of the call.
    pub fn calculate_cost_of_forgery(&self, addr: &str) -> (cost: u64)
        requires
            self.wf(),
        ensures
            !self.ledger().contains_key(addr@) ==> cost == 1_000_000,
            self.ledger().contains_key(addr@) ==> exists|now: u64|
                cost == self.ledger()[addr@].forgery_cost(now),
    {
        let now = unix_now();
        self.calculate_cost_of_forgery_at(addr, now)
    }

    /// Applies `action` at `now` to the node at `addr`, making its record
    /// first where it has none.
    pub fn update_reputation_at(&mut self, addr: &str, action: ReputationAction, now: u64) -> (done:
        Result<(), String>)
        requires
            old(self).wf(),
        ensures
            final(self).wf(),
            done is Ok,
            final(self).ledger() == old(self).ledger().insert(
                addr@,
                final(self).ledger()[addr@],
            ),
            final(self).ledger()[addr@] == record_after(
                old(self).ledger(),
                final(self).ledger()[addr@].node_id,
                action,
                now,
            ),
            final(self).ledger()[addr@].node_id@ == addr@,
            final(self).threshold() == old(self).threshold(),
    {
        let key = String::from_str(addr);
        match self.find(&key) {
            Some(i) => {
                let mut node = self.nodes[i].duplicate();
                node.apply_action_at(action, now);
                proof {
                    lemma_ledger_at(self.nodes@, i as int);
                    lemma_ledger_update(self.nodes@, i as int, node);
                }
                self.nodes[i] = node;
            },
            None => {
                let mut node = NodeReputation::new_at(String::from_str(addr), now);
                node.apply_action_at(action, now);
                proof {
                    lemma_ledger_push(self.nodes@, node);
                }
                self.nodes.push(node);
            },
        }
        Ok(())
    }

    /// Applies `action` to the node at `addr` at the time of the call.
    pub fn update_reputation(&mut self, addr: &str, action: ReputationAction) -> (done: Result<
        (),
        String,
    >)
        requires
            old(self).wf(),
        ensures
            final(self).wf(),
            done is Ok,
            final(self).ledger() == old(self).ledger().insert(
                addr@,
                final(self).ledger()[addr@],
            ),
            exists|now: u64|
                final(self).ledger()[addr@] == #[trigger] record_after(
                    old(self).ledger(),
                    final(self).ledger()[addr@].node_id,
                    action,
                    now,
                ),
            final(self).ledger()[addr@].node_id@ == addr@,
            final(self).threshold() == old(self).threshold(),
    {
        let now = unix_now();
        self.update_reputation_at(addr, action, now)
    }

    /// Applies the action behind `penalty` to the node at `addr`.
    pub fn apply_penalty(&mut self, addr: &str, penalty: PenaltyType) -> (done: Result<(), String>)
        requires
            old(self).wf(),
        ensures
            final(self).wf(),
            done is Ok,
            final(self).ledger() == old(self).ledger().insert(
                addr@,
                final(self).ledger()[addr@],
            ),
            exists|now: u64|
                final(self).ledger()[addr@] == #[trigger] record_after(
                    old(self).ledger(),
                    final(self).ledger()[addr@].node_id,
                    penalty_action(penalty),
                    now,
                ),
            final(self).ledger()[addr@].node_id@ == addr@,
            final(self).threshold() == old(self).threshold(),
    {
        let action = match penalty {
            PenaltyType::DroppedPacket => ReputationAction::DroppedConnection,
            PenaltyType::PacketDrop => ReputationAction::DroppedConnection,
            PenaltyType::HighLatency => ReputationAction::TaskFailure,
            PenaltyType::FailedConnection => ReputationAction::DroppedConnection,
        };
        self.update_reputation(addr, action)
    }

    /// Applies the action behind `reward` to the node at `addr`.
    pub fn apply_reward(&mut self, addr: &str, reward: RewardType) -> (done: Result<(), String>)
        requires
            old(self).wf(),
        ensures
            final(self).wf(),
            done is Ok,
            final(self).ledger() == old(self).ledger().insert(
                addr@,
                final(self).ledger()[addr@],
            ),
            exists|now: u64|
                final(self).ledger()[addr@] == #[trigger] record_after(
                    old(self).ledger(),
                    final(self).ledger()[addr@].node_id,
                    reward_action(reward),
                    now,
                ),
            final(self).ledger()[addr@].node_id@ == addr@,
            final(self).threshold() == old(self).threshold(),
    {
        let action = match reward {
            RewardType::SuccessfulForward => ReputationAction::SuccessfulTask,
            RewardType::HighUptime => ReputationAction::UptimeMilestone,
            RewardType::LowLatency => ReputationAction::HighQualityService,
        };
        self.update_reputation(addr, action)
    }

    /// Lets every node's points decay for the whole days since it last
    /// acted, as of `now`.
    pub fn apply_decay_all_at(&mut self, now: u64)
        requires
            old(self).wf(),
        ensures
            final(self).wf(),
            all_decayed(old(self).entries(), final(self).entries(), now),
            final(self).threshold() == old(self).threshold(),
    {
        let mut i: usize = 0;
        while i < self.nodes.len()
            invariant
                i <= self.nodes@.len(),
                self.nodes@.len() == old(self).nodes@.len(),
                self.min_reputation_threshold == old(self).min_reputation_threshold,
                forall|j: int|
                    0 <= j < i ==> (#[trigger] self.nodes@[j]) == old(self).nodes@[j].decayed(
                        days_between(old(self).nodes@[j].last_active, now) as u32,
                    ),
                forall|j: int| i <= j < self.nodes@.len() ==> (#[trigger] self.nodes@[j]) == old(
                    self,
                ).nodes@[j],
                forall|j: int|
                    0 <= j < self.nodes@.len() ==> (#[trigger] self.nodes@[j]).node_id == old(
                        self,
                    ).nodes@[j].node_id,
                points_in_range(self.nodes@),
                distinct_ids(old(self).nodes@),
            decreases self.nodes@.len() - i,
        {
            let days = self.nodes[i].days_since_active_at(now);
            if days > 0 {
                let mut node = self.nodes[i].duplicate();
                node.apply_decay(days);
                self.nodes[i] = node;
            }
            i = i + 1;
        }
        proof {
            assert forall|a: int, b: int| 0 <= a < b < self.nodes@.len() implies (
            #[trigger] self.nodes@[a]).node_id@ != (#[trigger] self.nodes@[b]).node_id@ by {
                assert(old(self).nodes@[a].node_id@ != old(self).nodes@[b].node_id@);
            }
        }
    }

    /// Lets every node's points decay, as of the time of the call.
    pub fn apply_decay_all(&mut self)
        requires
            old(self).wf(),
        ensures
            final(self).wf(),
            exists|now: u64| all_decayed(old(self).entries(), final(self).entries(), now),
            final(self).threshold() == old(self).threshold(),
    {
        let now = unix_now();
        self.apply_decay_all_at(now);
    }

    /// The nodes with at least `min_reputation` points, each with its
    /// reputation in millionths.
    pub fn get_weighted_relay_candidates(&self, min_reputation: ReputationPoints) -> (list: Vec<
        (String, u64),
    >)
        requires
            self.wf(),
        ensures
            candidate_views(list@) == candidates(self.entries(), min_reputation as int),
    {
        let mut list: Vec<(String, u64)> = Vec::new();
        let mut i: usize = 0;
        assert(self.nodes@.take(0) =~= Seq::<NodeReputation>::empty());
        assert(candidate_views(list@) =~= candidates(self.nodes@.take(0), min_reputation as int));
        while i < self.nodes.len()
            invariant
                i <= self.nodes@.len(),
                candidate_views(list@) == candidates(
                    self.nodes@.take(i as int),
                    min_reputation as int,
                ),
            decreases self.nodes@.len() - i,
        {
            proof {
                let next = self.nodes@.take(i + 1);
                assert(next.drop_last() =~= self.nodes@.take(i as int));
                assert(next.last() == self.nodes@[i as int]);
            }
            if self.nodes[i].reputation_points >= min_reputation {
                let ghost before = list@;
                let entry = (self.nodes[i].node_id.clone(), self.nodes[i].reputation());
                list.push(entry);
                assert(candidate_views(list@) =~= candidate_views(before).push(
                    (entry.0@, entry.1),
                ));
            }
            i = i + 1;
        }
        assert(self.nodes@.take(i as int) =~= self.nodes@);
        list
    }

    /// The node at `addr` has at least the threshold; a node without a record
    /// passes.
    pub fn meets_threshold(&self, addr: &str) -> (ok: bool)
        requires
            self.wf(),
        ensures
            ok == (self.ledger().contains_key(addr@) ==> self.ledger()[addr@].reputation_points
                >= self.threshold()),
    {
        match self.get_reputation(addr) {
            Some(node) => node.meets_threshold(self.min_reputation_threshold),
            None => true,
        }
    }

    /// Number of nodes on record.
    pub fn node_count(&self) -> (count: usize)
        requires
            self.wf(),
        ensures
            count == self.entries().len(),
    {
        self.nodes.len()
    }

    /// Figures on the whole ledger at the time of the call.
    pub fn statistics(&self) -> (figures: ReputationStatistics)
        requires
            self.wf(),
        ensures
            exists|now: u64| figures == statistics_of(self.entries(), self.threshold(), now),
    {
        let now = unix_now();
        self.statistics_at(now)
    }

    /// Figures on the whole ledger at `now`.
    pub fn statistics_at(&self, now: u64) -> (figures: ReputationStatistics)
        requires
            self.wf(),
        ensures
            figures == statistics_of(self.entries(), self.threshold(), now),
    {
        let n = self.nodes.len();
        if n == 0 {
            return ReputationStatistics::default();
        }
        let mut sum: u128 = 0;
        let mut cost: u128 = 0;
        let mut above: usize = 0;
        let mut i: usize = 0;
        assert(self.nodes@.take(0) =~= Seq::<NodeReputation>::empty());
        while i < n
            invariant
                i <= n == self.nodes@.len(),
                points_in_range(self.nodes@),
                sum == total_points(self.nodes@.take(i as int)),
                above == count_at_least(
                    self.nodes@.take(i as int),
                    self.min_reputation_threshold as int,
                ),
                0 <= sum <= 200 * i,
                cost == total_forgery_cost(self.nodes@.take(i as int), now),
                0 <= cost <= 4_000_000_000_000_000 * i,
                above <= i,
            decreases n - i,
        {
            proof {
                let next = self.nodes@.take(i + 1);
                assert(next.drop_last() =~= self.nodes@.take(i as int));
                assert(next.last() == self.nodes@[i as int]);
            }
            sum = sum + self.nodes[i].reputation_points as u128;
            cost = cost + self.nodes[i].cost_of_forgery_at(now) as u128;
            if self.nodes[i].reputation_points >= self.min_reputation_threshold {
                above = above + 1;
            }
            i = i + 1;
        }
        assert(self.nodes@.take(n as int) =~= self.nodes@);
        let avg_points: u128 = sum / (n as u128);
        let avg_reputation: u128 = sum * 5_000 / (n as u128);
        let avg_cost: u128 = cost / (n as u128);
        assert(avg_points <= 200 && avg_reputation <= 1_000_000 && avg_cost
            <= 4_000_000_000_000_000) by (nonlinear_arith)
            requires
                avg_points == sum / (n as u128),
                avg_reputation == (sum * 5_000) / (n as int),
                avg_cost == cost / (n as u128),
                0 <= sum <= 200 * n,
                0 <= cost <= 4_000_000_000_000_000 * n,
                n > 0,
        ;
        ReputationStatistics {
            total_nodes: n,
            avg_reputation: avg_reputation as u64,
            avg_points: avg_points as i32,
            avg_cost_of_forgery: avg_cost as u64,
            nodes_above_threshold: above,
            min_threshold: self.min_reputation_threshold,
        }
    }

    /// Replaces all records by `nodes`; refused, with the ledger unchanged,
    /// where two of them are of one node or one has points outside 0 to 200.
    pub fn restore(&mut self, nodes: Vec<NodeReputation>) -> (done: Result<(), String>)
        requires
            old(self).wf(),
        ensures
            final(self).wf(),
            distinct_ids(nodes@) && points_in_range(nodes@) <==> done is Ok,
            done is Ok ==> final(self).entries() == nodes@,
            done is Err ==> final(self).entries() == old(self).entries(),
            done is Err ==> done->Err_0@ == (if !points_in_range(nodes@) {
                "Reputation points out of range"@
            } else {
                "Duplicate node in reputation data"@
            }),
            final(self).threshold() == old(self).threshold(),
    {
        if !all_points_in_range(&nodes) {
            return Err(String::from_str("Reputation points out of range"));
        }
        if !all_ids_distinct(&nodes) {
            return Err(String::from_str("Duplicate node in reputation data"));
        }
        self.nodes = nodes;
        Ok(())
    }
}

impl Default for ReputationManager {
    /// An empty ledger with a threshold of zero.
    fn default() -> (manager: ReputationManager)
        ensures
            manager.wf(),
            manager.entries().len() == 0,
            manager.threshold() == 0,
    {
        ReputationManager::with_threshold(0)
    }
}

} // verus!
