//! The admin books and the monitoring types.

use betanet::admin::{
    content_type_text, fixed_response, get_timestamp, health_body, http_response, not_found_body,
    route_of, status_text, uuid_simple, AppState, Route,
};
use betanet::monitoring::{
    AggregationWindows, BetanetMetricsResponse, BetanetNodeStatus, DeploymentMetricSource,
    MetricDataPoint, MetricMetadata, MetricType, MetricsCache, NodeMetricSource,
    TimeSeriesBuffer,
};
use betanet::text::{decimal_string, hex_string};

#[test]
fn requests_are_routed_by_method_and_path() {
    assert_eq!(route_of("GET", "/status"), Route::Status);
    assert_eq!(route_of("GET", "/mixnodes"), Route::Mixnodes);
    assert_eq!(route_of("POST", "/deploy"), Route::Deploy);
    assert_eq!(route_of("GET", "/metrics"), Route::Metrics);
    assert_eq!(route_of("GET", "/deploy"), Route::NotFound);
    assert_eq!(route_of("POST", "/status"), Route::NotFound);
    assert_eq!(route_of("get", "/status"), Route::NotFound);
    assert_eq!(route_of("GET", "/status/"), Route::NotFound);
    assert_eq!(route_of("GET", "/health"), Route::Health);
    assert_eq!(route_of("POST", "/health"), Route::NotFound);
    assert_eq!(route_of("GET", "/healthy"), Route::NotFound);
    assert_eq!(route_of("GET", "/Health"), Route::NotFound);
    assert_eq!(route_of("", ""), Route::NotFound);
}

#[test]
fn packets_are_counted_for_the_first_node_of_that_name() {
    let mut state = AppState::new_at(1_000);
    assert_eq!(state.total_packets_processed(), 0);
    assert_eq!(state.total_connections(), 0);
    state.deploy("mixnode-a".to_string(), 1_500);
    state.deploy("mixnode-b".to_string(), 1_600);
    state.deploy("mixnode-a".to_string(), 1_700);
    state.record_packet("mixnode-a", 250, true);
    state.record_packet("mixnode-a", 350, false);
    state.record_packet("mixnode-b", 100, true);
    state.record_packet("mixnode-c", 100, true);
    let nodes = state.mixnodes();
    assert_eq!(nodes.len(), 3);
    assert_eq!(nodes[0].id, "mixnode-a");
    assert_eq!(nodes[0].status, "active");
    assert_eq!(nodes[0].start_time_ms, 1_500);
    assert_eq!(nodes[0].packets_processed, 2);
    assert_eq!(nodes[0].packets_forwarded, 1);
    assert_eq!(nodes[0].packets_dropped, 1);
    assert_eq!(nodes[0].latency_sum_us, 600);
    assert_eq!(nodes[0].latency_count, 2);
    assert_eq!(nodes[1].packets_processed, 1);
    assert_eq!(nodes[2].packets_processed, 0);
    assert_eq!(state.total_packets_processed(), 3);
    assert_eq!(state.total_connections(), 3);
    // 700 microseconds over 3 packets
    assert_eq!(state.avg_latency_us(), 233);
    assert_eq!(state.uptime_ms(4_000), 3_000);
    assert_eq!(state.uptime_ms(10), 0);
    let fresh = AppState::new();
    assert!(fresh.mixnodes().is_empty());
    // opened at the clock's time, in milliseconds since 1970
    assert_eq!(fresh.uptime_ms(1_600_000_000_000), 0);
    assert!(fresh.uptime_ms(u64::MAX) < u64::MAX - 1_600_000_000_000);
}

#[test]
fn identifiers_and_timestamps_are_numbers() {
    let stamp: u64 = get_timestamp().parse().unwrap();
    assert!(stamp > 1_600_000_000);
    let id = u128::from_str_radix(&uuid_simple(), 16).unwrap();
    assert!(id / 1_000_000_000 >= stamp as u128 - 1);
    assert_eq!(hex_string(0), "0");
    assert_eq!(hex_string(15), "f");
    assert_eq!(hex_string(16), "10");
    assert_eq!(hex_string(0xdead_beef_0123_4567_89ab_cdef), "deadbeef0123456789abcdef");
    assert_eq!(hex_string(u128::MAX), "f".repeat(32));
    assert_eq!(decimal_string(0), "0");
    assert_eq!(decimal_string(9), "9");
    assert_eq!(decimal_string(10), "10");
    assert_eq!(decimal_string(1_234_567_890), "1234567890");
    assert_eq!(decimal_string(u64::MAX), "18446744073709551615");
}

#[test]
fn monitoring_types() {
    assert_eq!(AggregationWindows::LAST_5_MINUTES, 300);
    assert_eq!(AggregationWindows::LAST_15_MINUTES, 900);
    assert_eq!(AggregationWindows::LAST_HOUR, 3600);
    assert_eq!(AggregationWindows::LAST_6_HOURS, 21600);
    assert_eq!(AggregationWindows::LAST_24_HOURS, 86400);
    let node = NodeMetricSource::new("node-1".to_string());
    assert_eq!(node.name(), "node_metrics");
    assert_eq!(node.node_id(), "node-1");
    let deployment = DeploymentMetricSource::new("d-7".to_string());
    assert_eq!(deployment.name(), "deployment_metrics");
    assert_eq!(deployment.deployment_id(), "d-7");
    let meta = MetricMetadata {
        name: "betanet_latency".to_string(),
        description: "Network latency".to_string(),
        metric_type: MetricType::Histogram,
        unit: Some("ms".to_string()),
    };
    assert_eq!(meta.metric_type, MetricType::Histogram);
    assert_ne!(MetricType::Gauge, MetricType::Counter);
    let status = BetanetNodeStatus { active_nodes: 3, inactive_nodes: 1, total_nodes: 4 };
    assert_eq!(status.active_nodes + status.inactive_nodes, status.total_nodes);
}

#[test]
fn test_time_series_buffer_ring() {
    let mut buffer = TimeSeriesBuffer::new("test".to_string(), 3);

    for i in 0..5 {
        buffer.push(MetricDataPoint { timestamp: i, value: i as i64 * 1_000_000, labels: Vec::new() });
    }

    assert_eq!(buffer.len(), 3);
    assert_eq!(buffer.get_latest().unwrap().value, 4_000_000);
}

#[test]
fn ring_buffer_keeps_the_newest_points_in_order() {
    let mut buffer = TimeSeriesBuffer::new("latency".to_string(), 4);
    assert!(buffer.is_empty());
    assert!(buffer.get_latest().is_none());
    for i in 0..10u64 {
        let labels = vec![("node".to_string(), format!("n{}", i % 2))];
        buffer.push(MetricDataPoint { timestamp: 100 + i, value: -(i as i64), labels });
    }
    let all = buffer.get_all();
    assert_eq!(all.iter().map(|p| p.timestamp).collect::<Vec<_>>(), vec![106, 107, 108, 109]);
    assert_eq!(all[0].value, -6);
    assert_eq!(all[1].labels, vec![("node".to_string(), "n1".to_string())]);
    let some = buffer.get_range(107, 108);
    assert_eq!(some.iter().map(|p| p.timestamp).collect::<Vec<_>>(), vec![107, 108]);
    assert_eq!(some[1].labels, vec![("node".to_string(), "n0".to_string())]);
    assert!(buffer.get_range(0, 105).is_empty());
    assert!(buffer.get_range(108, 107).is_empty());
    assert_eq!(buffer.get_range(0, u64::MAX).len(), 4);
    let mut one = TimeSeriesBuffer::new("x".to_string(), 0);
    one.push(MetricDataPoint { timestamp: 1, value: 1, labels: Vec::new() });
    one.push(MetricDataPoint { timestamp: 2, value: 2, labels: Vec::new() });
    assert_eq!(one.len(), 1);
    assert_eq!(one.get_latest().unwrap().timestamp, 2);
}

#[test]
fn cached_metrics_are_good_for_their_time() {
    let mut cache = MetricsCache::new(1);
    assert!(cache.get().is_none());
    assert!(!cache.has_stale_data());
    let metrics = BetanetMetricsResponse {
        node_count: 5,
        active_connections: 10,
        throughput_bytes: 1000,
        latency_us: 50_000,
        packets_processed: 5000,
        packets_dropped: 10,
    };
    cache.set_at(metrics, 10_000);
    assert_eq!(cache.get_at(10_000), Some(metrics));
    assert_eq!(cache.get_at(10_999), Some(metrics));
    assert_eq!(cache.get_at(11_000), None);
    assert_eq!(cache.get_at(12_000), None);
    assert!(cache.has_stale_data());
    assert_eq!(cache.get_stale(), Some(metrics));
    cache.set(metrics);
    assert!(cache.get().is_some());
    assert_eq!(MetricsCache::new(u64::MAX).ttl, u64::MAX);
}

#[test]
fn health_is_answered_with_a_json_object() {
    assert_eq!(route_of("GET", "/health"), Route::Health);
    assert_eq!(health_body(), r#"{"status":"healthy"}"#);
    assert_eq!(health_body().len(), 20);
}

#[test]
fn a_health_request_gets_the_whole_answer() {
    let answer = fixed_response(route_of("GET", "/health")).unwrap();
    assert_eq!(
        answer,
        "HTTP/1.1 200 OK\r\nContent-Type: application/json\r\nContent-Length: 20\r\n\
         Access-Control-Allow-Origin: *\r\n\r\n{\"status\":\"healthy\"}"
    );
    let nowhere = fixed_response(route_of("GET", "/nowhere")).unwrap();
    assert_eq!(
        nowhere,
        "HTTP/1.1 404 Not Found\r\nContent-Type: application/json\r\nContent-Length: 21\r\n\
         Access-Control-Allow-Origin: *\r\n\r\n{\"error\":\"Not Found\"}"
    );
    assert_eq!(not_found_body(), r#"{"error":"Not Found"}"#);
    for route in [Route::Status, Route::Mixnodes, Route::Deploy, Route::Metrics] {
        assert!(fixed_response(route).is_none());
        assert_eq!(status_text(route), "200 OK");
    }
    assert_eq!(status_text(Route::Health), "200 OK");
    assert_eq!(status_text(Route::NotFound), "404 Not Found");
    assert_eq!(content_type_text(Route::Metrics), "text/plain; version=0.0.4");
    assert_eq!(content_type_text(Route::Status), "application/json");
    assert_eq!(content_type_text(Route::NotFound), "application/json");
}

#[test]
fn the_announced_length_is_that_of_the_body_in_bytes() {
    assert_eq!(
        http_response("200 OK", "text/plain", ""),
        "HTTP/1.1 200 OK\r\nContent-Type: text/plain\r\nContent-Length: 0\r\n\
         Access-Control-Allow-Origin: *\r\n\r\n"
    );
    // two characters, five bytes
    let answer = http_response("200 OK", "application/json", "\u{e9}\u{20ac}");
    assert!(answer.contains("\r\nContent-Length: 5\r\n"));
    assert!(answer.ends_with("\r\n\r\n\u{e9}\u{20ac}"));
}
