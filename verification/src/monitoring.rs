//! What the monitoring side is told: kinds of metrics, their description,
//! and the windows over which they are aggregated.

use crate::clock::{now_millis, unix_millis, UtcInstant};
use std::collections::VecDeque;
use vstd::prelude::*;

verus! {

/// The kind of a metric.
#[derive(Debug, Clone, Copy, PartialEq, Eq, Structural)]
pub enum MetricType {
    /// A value at an instant.
    Gauge,
    /// A value that only goes up.
    Counter,
    /// A distribution.
    Histogram,
}

/// What a metric is.
#[derive(Debug, Clone)]
pub struct MetricMetadata {
    pub name: String,
    pub description: String,
    pub metric_type: MetricType,
    pub unit: Option<String>,
}

/// How many nodes there are.
#[derive(Debug, Clone, Copy, PartialEq, Eq, Structural)]
pub struct BetanetNodeStatus {
    pub active_nodes: u64,
    pub inactive_nodes: u64,
    pub total_nodes: u64,
}

/// The windows of aggregation, in seconds.
pub struct AggregationWindows;

impl AggregationWindows {
    /// Five minutes.
    pub const LAST_5_MINUTES: u64 = 300;

    /// A quarter of an hour.
    pub const LAST_15_MINUTES: u64 = 900;

    /// An hour.
    pub const LAST_HOUR: u64 = 3600;

    /// Six hours.
    pub const LAST_6_HOURS: u64 = 21600;

    /// A day.
    pub const LAST_24_HOURS: u64 = 86400;
}

/// The metrics of one node.
pub struct NodeMetricSource {
    node_id: String,
}

impl NodeMetricSource {
    /// The node that the metrics are of.
    pub closed spec fn node(self) -> String {
        self.node_id
    }

    /// The source of the metrics of the node `node_id`.
    pub fn new(node_id: String) -> (source: NodeMetricSource)
        ensures
            source.node() == node_id,
    {
        NodeMetricSource { node_id }
    }

    /// The name of the source.
    pub fn name(&self) -> (name: &'static str)
        ensures
            name@ == "node_metrics"@,
    {
        "node_metrics"
    }

    /// The node that the metrics are of.
    pub fn node_id(&self) -> (id: &String)
        ensures
            *id == self.node(),
    {
        &self.node_id
    }
}

/// The metrics of one deployment.
pub struct DeploymentMetricSource {
    deployment_id: String,
}

impl DeploymentMetricSource {
    /// The deployment that the metrics are of.
    pub closed spec fn deployment(self) -> String {
        self.deployment_id
    }

    /// The source of the metrics of the deployment `deployment_id`.
    pub fn new(deployment_id: String) -> (source: DeploymentMetricSource)
        ensures
            source.deployment() == deployment_id,
    {
        DeploymentMetricSource { deployment_id }
    }

    /// The name of the source.
    pub fn name(&self) -> (name: &'static str)
        ensures
            name@ == "deployment_metrics"@,
    {
        "deployment_metrics"
    }

    /// The deployment that the metrics are of.
    pub fn deployment_id(&self) -> (id: &String)
        ensures
            *id == self.deployment(),
    {
        &self.deployment_id
    }
}

/// One value of a metric.
#[derive(Debug, Clone)]
pub struct MetricDataPoint {
    /// When the value was taken, in seconds since 1970.
    pub timestamp: u64,
    /// The value, in millionths.
    pub value: i64,
    /// Names and values that tell where the value is from.
    pub labels: Vec<(String, String)>,
}

/// What a list of labels says.
pub open spec fn label_views(labels: Seq<(String, String)>) -> Seq<(Seq<char>, Seq<char>)> {
    labels.map_values(|l: (String, String)| (l.0@, l.1@))
}

impl MetricDataPoint {
    /// The point by content.
    pub open spec fn view(self) -> (u64, i64, Seq<(Seq<char>, Seq<char>)>) {
        (self.timestamp, self.value, label_views(self.labels@))
    }

    /// A copy of the point.
    pub fn duplicate(&self) -> (copy: MetricDataPoint)
        ensures
            copy@ == self@,
    {
        let mut labels: Vec<(String, String)> = Vec::new();
        let mut i: usize = 0;
        while i < self.labels.len()
            invariant
                i <= self.labels@.len(),
                labels@.len() == i,
                forall|j: int|
                    0 <= j < i ==> (#[trigger] labels@[j]).0@ == self.labels@[j].0@ && labels@[j].1@
                        == self.labels@[j].1@,
            decreases self.labels@.len() - i,
        {
            labels.push((self.labels[i].0.clone(), self.labels[i].1.clone()));
            i = i + 1;
        }
        assert(label_views(labels@) =~= label_views(self.labels@));
        MetricDataPoint { timestamp: self.timestamp, value: self.value, labels }
    }
}

/// The points of a list, by content.
pub open spec fn point_views(points: Seq<MetricDataPoint>) -> Seq<
    (u64, i64, Seq<(Seq<char>, Seq<char>)>),
> {
    points.map_values(|p: MetricDataPoint| p@)
}

/// The points taken from `start_time` to `end_time`, both included.
pub open spec fn in_range(points: Seq<MetricDataPoint>, start_time: u64, end_time: u64) -> Seq<
    MetricDataPoint,
>
    decreases points.len(),
{
    if points.len() == 0 {
        Seq::empty()
    } else {
        let before = in_range(points.drop_last(), start_time, end_time);
        if start_time <= points.last().timestamp <= end_time {
            before.push(points.last())
        } else {
            before
        }
    }
}

/// The last values of a metric: once the buffer is full, the oldest value
/// makes room for each new one.
pub struct TimeSeriesBuffer {
    data: VecDeque<MetricDataPoint>,
    max_size: usize,
    name: String,
}

impl TimeSeriesBuffer {
    /// The points, oldest first.
    pub closed spec fn points(self) -> Seq<MetricDataPoint> {
        self.data@
    }

    /// Most points that the buffer keeps.
    pub closed spec fn limit(self) -> usize {
        self.max_size
    }

    /// The name of the metric.
    pub closed spec fn metric(self) -> String {
        self.name
    }

    /// An empty buffer for up to `max_size` points of the metric `name`.
    pub fn new(name: String, max_size: usize) -> (buffer: TimeSeriesBuffer)
        ensures
            buffer.points().len() == 0,
            buffer.limit() == max_size,
            buffer.metric() == name,
    {
        TimeSeriesBuffer { data: VecDeque::new(), max_size, name }
    }

    /// Takes a point in; the oldest point leaves to make room where the
    /// buffer is full.
    pub fn push(&mut self, point: MetricDataPoint)
        ensures
            final(self).limit() == old(self).limit(),
            final(self).metric() == old(self).metric(),
            final(self).points() == (if old(self).points().len() >= old(self).limit() && old(self).points().len() > 0 {
                old(self).points().drop_first()
            } else {
                old(self).points()
            }).push(point),
    {
        if self.data.len() >= self.max_size {
            let _ = self.data.pop_front();
            assert(old(self).data@.len() > 0 ==> self.data@ =~= old(self).data@.drop_first());
        }
        self.data.push_back(point);
    }

    /// Copies of the points taken from `start_time` to `end_time`.
    pub fn get_range(&self, start_time: u64, end_time: u64) -> (list: Vec<MetricDataPoint>)
        ensures
            point_views(list@) == point_views(in_range(self.points(), start_time, end_time)),
    {
        let mut list: Vec<MetricDataPoint> = Vec::new();
        let mut i: usize = 0;
        assert(self.data@.take(0) =~= Seq::<MetricDataPoint>::empty());
        assert(point_views(list@) =~= point_views(in_range(self.data@.take(0), start_time, end_time)));
        while i < self.data.len()
            invariant
                i <= self.data@.len(),
                point_views(list@) == point_views(
                    in_range(self.data@.take(i as int), start_time, end_time),
                ),
            decreases self.data@.len() - i,
        {
            proof {
                let next = self.data@.take(i + 1);
                assert(next.drop_last() =~= self.data@.take(i as int));
                assert(next.last() == self.data@[i as int]);
            }
            if self.data[i].timestamp >= start_time && self.data[i].timestamp <= end_time {
                let ghost before = list@;
                let ghost kept = in_range(self.data@.take(i as int), start_time, end_time);
                list.push(self.data[i].duplicate());
                assert(point_views(list@) =~= point_views(before).push(self.data@[i as int]@));
                assert(point_views(kept.push(self.data@[i as int])) =~= point_views(kept).push(
                    self.data@[i as int]@,
                ));
            }
            i = i + 1;
        }
        assert(self.data@.take(i as int) =~= self.data@);
        list
    }

    /// Copies of all points.
    pub fn get_all(&self) -> (list: Vec<MetricDataPoint>)
        ensures
            point_views(list@) == point_views(self.points()),
    {
        let mut list: Vec<MetricDataPoint> = Vec::new();
        let mut i: usize = 0;
        while i < self.data.len()
            invariant
                i <= self.data@.len(),
                list@.len() == i,
                forall|j: int| 0 <= j < i ==> (#[trigger] list@[j])@ == self.data@[j]@,
            decreases self.data@.len() - i,
        {
            list.push(self.data[i].duplicate());
            i = i + 1;
        }
        assert(point_views(list@) =~= point_views(self.data@));
        list
    }

    /// The newest point.
    pub fn get_latest(&self) -> (latest: Option<&MetricDataPoint>)
        ensures
            match latest {
                Some(p) => self.points().len() > 0 && *p == self.points().last(),
                None => self.points().len() == 0,
            },
    {
        if self.data.len() == 0 {
            None
        } else {
            Some(&self.data[self.data.len() - 1])
        }
    }

    /// Number of points.
    pub fn len(&self) -> (count: usize)
        ensures
            count == self.points().len(),
    {
        self.data.len()
    }

    /// Whether there is no point.
    pub fn is_empty(&self) -> (empty: bool)
        ensures
            empty == (self.points().len() == 0),
    {
        self.data.len() == 0
    }
}

/// What a node reports of itself. The latency is in microseconds.
#[derive(Debug, Clone, Copy, PartialEq, Eq, Structural)]
pub struct BetanetMetricsResponse {
    pub node_count: u64,
    pub active_connections: u64,
    pub throughput_bytes: u64,
    pub latency_us: u64,
    pub packets_processed: u64,
    pub packets_dropped: u64,
}

/// The last report, good for a while. Times are milliseconds.
#[derive(Debug, Clone, Copy, PartialEq, Eq, Structural)]
pub struct MetricsCache {
    pub data: Option<BetanetMetricsResponse>,
    pub cached_at: Option<u64>,
    /// How long a report is good for.
    pub ttl: u64,
}

impl MetricsCache {
    /// The report where it is still good at `now`: there is one, and less
    /// time than it is good for has passed since it was taken.
    pub open spec fn fresh_at(self, now: u64) -> Option<BetanetMetricsResponse> {
        if self.data is Some && self.cached_at is Some && (now < self.cached_at->Some_0 || now
            - self.cached_at->Some_0 < self.ttl) {
            self.data
        } else {
            None
        }
    }

    /// An empty cache whose reports are good for `ttl_secs` seconds.
    pub fn new(ttl_secs: u64) -> (cache: MetricsCache)
        ensures
            cache.data is None,
            cache.cached_at is None,
            cache.ttl == crate::fixed::capped(ttl_secs * 1000),
    {
        MetricsCache {
            data: None,
            cached_at: None,
            ttl: if ttl_secs > u64::MAX / 1000 {
                u64::MAX
            } else {
                ttl_secs * 1000
            },
        }
    }

    /// The report, where it is still good at `now_ms`.
    pub fn get_at(&self, now_ms: u64) -> (report: Option<BetanetMetricsResponse>)
        ensures
            report == self.fresh_at(now_ms),
    {
        match (self.data, self.cached_at) {
            (Some(data), Some(at)) => {
                if now_ms < at || now_ms - at < self.ttl {
                    Some(data)
                } else {
                    None
                }
            },
            _ => None,
        }
    }

    /// The report, where it is still good at the time of the call.
    pub fn get(&self) -> (report: Option<BetanetMetricsResponse>)
        ensures
            exists|now: u64| report == #[trigger] self.fresh_at(now),
    {
        let now = now_millis();
        self.get_at(now)
    }

    /// Keeps a report taken at `now_ms`.
    pub fn set_at(&mut self, data: BetanetMetricsResponse, now_ms: u64)
        ensures
            *final(self) == (MetricsCache { data: Some(data), cached_at: Some(now_ms), ..*old(self) }),
    {
        self.data = Some(data);
        self.cached_at = Some(now_ms);
    }

    /// Keeps a report taken at the time of the call: at the milliseconds
    /// of the instant that the clock shows.
    pub fn set(&mut self, data: BetanetMetricsResponse)
        ensures
            final(self).data == Some(data),
            exists|now: UtcInstant| final(self).cached_at == Some(#[trigger] unix_millis(now)),
            final(self).ttl == old(self).ttl,
    {
        let now_ms = now_millis();
        self.set_at(data, now_ms);
    }

    /// Whether there is a report, good or not.
    pub fn has_stale_data(&self) -> (has: bool)
        ensures
            has == self.data is Some,
    {
        self.data.is_some()
    }

    /// The report, good or not.
    pub fn get_stale(&self) -> (report: Option<BetanetMetricsResponse>)
        ensures
            report == self.data,
    {
        self.data
    }
}

} // verus!
