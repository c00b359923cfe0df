//! The books behind the admin endpoint: the mixnodes that were deployed and
//! what they have done, where a request goes, and how an answer is put
//! together.

use crate::clock::{now_millis, now_nanos, unix_millis, unix_now, UtcInstant};
use crate::fixed::{capped, raised};
use crate::text::{decimal, decimal_string, hex_string, hexadecimal};
use vstd::prelude::*;
use vstd::string::is_ascii_spec_bytes;

verus! {

/// One deployed mixnode.
#[derive(Debug, Clone)]
pub struct MixnodeInfo {
    pub id: String,
    /// `active` for a node that takes connections.
    pub status: String,
    pub packets_processed: u64,
    pub packets_forwarded: u64,
    pub packets_dropped: u64,
    /// When the node was deployed, in milliseconds.
    pub start_time_ms: u64,
    /// Sum of the processing times, in microseconds.
    pub latency_sum_us: u64,
    /// Number of processing times in the sum.
    pub latency_count: u64,
}

impl MixnodeInfo {
    /// The node after one more packet.
    pub open spec fn with_packet(self, processing_time_us: u64, forwarded: bool) -> MixnodeInfo {
        MixnodeInfo {
            packets_processed: raised(self.packets_processed, 1),
            packets_forwarded: if forwarded {
                raised(self.packets_forwarded, 1)
            } else {
                self.packets_forwarded
            },
            packets_dropped: if forwarded {
                self.packets_dropped
            } else {
                raised(self.packets_dropped, 1)
            },
            latency_sum_us: raised(self.latency_sum_us, processing_time_us as int),
            latency_count: raised(self.latency_count, 1),
            ..self
        }
    }

    /// Whether the node takes connections.
    pub open spec fn active(self) -> bool {
        self.status@ == "active"@
    }
}

/// Index of the first node with the identifier `id`.
pub open spec fn first_with_id(nodes: Seq<MixnodeInfo>, id: Seq<char>) -> Option<int>
    decreases nodes.len(),
{
    if nodes.len() == 0 {
        None
    } else {
        match first_with_id(nodes.drop_last(), id) {
            Some(i) => Some(i),
            None => if nodes.last().id@ == id {
                Some(nodes.len() - 1)
            } else {
                None
            },
        }
    }
}

/// Sum of the packets that the nodes processed.
pub open spec fn processed_by(nodes: Seq<MixnodeInfo>) -> int
    decreases nodes.len(),
{
    if nodes.len() == 0 {
        0
    } else {
        processed_by(nodes.drop_last()) + nodes.last().packets_processed
    }
}

/// Number of nodes that take connections.
pub open spec fn active_among(nodes: Seq<MixnodeInfo>) -> int
    decreases nodes.len(),
{
    if nodes.len() == 0 {
        0
    } else {
        active_among(nodes.drop_last()) + if nodes.last().active() {
            1int
        } else {
            0int
        }
    }
}

/// Sum of the processing times of all nodes.
pub open spec fn latency_sums(nodes: Seq<MixnodeInfo>) -> nat
    decreases nodes.len(),
{
    if nodes.len() == 0 {
        0
    } else {
        latency_sums(nodes.drop_last()) + nodes.last().latency_sum_us as nat
    }
}

/// Number of processing times of all nodes.
pub open spec fn latency_counts(nodes: Seq<MixnodeInfo>) -> nat
    decreases nodes.len(),
{
    if nodes.len() == 0 {
        0
    } else {
        latency_counts(nodes.drop_last()) + nodes.last().latency_count as nat
    }
}

/// Where a request goes.
#[derive(Debug, Clone, Copy, PartialEq, Eq, Structural)]
pub enum Route {
    /// `GET /status`
    Status,
    /// `GET /mixnodes`
    Mixnodes,
    /// `POST /deploy`
    Deploy,
    /// `GET /metrics`
    Metrics,
    /// `GET /health`
    Health,
    /// Anything else.
    NotFound,
}

/// Where a request with the given method and path goes.
pub open spec fn routed(method: Seq<char>, path: Seq<char>) -> Route {
    if method == "GET"@ && path == "/status"@ {
        Route::Status
    } else if method == "GET"@ && path == "/mixnodes"@ {
        Route::Mixnodes
    } else if method == "POST"@ && path == "/deploy"@ {
        Route::Deploy
    } else if method == "GET"@ && path == "/metrics"@ {
        Route::Metrics
    } else if method == "GET"@ && path == "/health"@ {
        Route::Health
    } else {
        Route::NotFound
    }
}

fn same_text(a: &str, b: &str) -> (same: bool)
    ensures
        same == (a@ == b@),
{
    String::from_str(a) == String::from_str(b)
}

/// Where a request with the given method and path goes.
pub fn route_of(method: &str, path: &str) -> (route: Route)
    ensures
        route == routed(method@, path@),
{
    let get = same_text(method, "GET");
    if get && same_text(path, "/status") {
        Route::Status
    } else if get && same_text(path, "/mixnodes") {
        Route::Mixnodes
    } else if same_text(method, "POST") && same_text(path, "/deploy") {
        Route::Deploy
    } else if get && same_text(path, "/metrics") {
        Route::Metrics
    } else if get && same_text(path, "/health") {
        Route::Health
    } else {
        Route::NotFound
    }
}

/// What a request for the node's health is answered with: a JSON object
/// that says the node is healthy.
pub fn health_body() -> (body: &'static str)
    ensures
        body@ == "{\"status\":\"healthy\"}"@,
        body.len() == 20,
{
    proof {
        reveal_strlit("{\"status\":\"healthy\"}");
        is_ascii_spec_bytes("{\"status\":\"healthy\"}");
    }
    "{\"status\":\"healthy\"}"
}

/// What a request that goes nowhere is answered with.
pub fn not_found_body() -> (body: &'static str)
    ensures
        body@ == "{\"error\":\"Not Found\"}"@,
        body.len() == 21,
{
    proof {
        reveal_strlit("{\"error\":\"Not Found\"}");
        is_ascii_spec_bytes("{\"error\":\"Not Found\"}");
    }
    "{\"error\":\"Not Found\"}"
}

/// The status of the answer to a request: found, or not.
pub open spec fn status_of(route: Route) -> Seq<char> {
    if route is NotFound {
        "404 Not Found"@
    } else {
        "200 OK"@
    }
}

/// The content type of the answer to a request: the metrics are plain text
/// in the exposition format, everything else is JSON.
pub open spec fn content_type_of(route: Route) -> Seq<char> {
    if route is Metrics {
        "text/plain; version=0.0.4"@
    } else {
        "application/json"@
    }
}

/// The status of the answer to a request.
pub fn status_text(route: Route) -> (status: &'static str)
    ensures
        status@ == status_of(route),
{
    match route {
        Route::NotFound => "404 Not Found",
        _ => "200 OK",
    }
}

/// The content type of the answer to a request.
pub fn content_type_text(route: Route) -> (content_type: &'static str)
    ensures
        content_type@ == content_type_of(route),
{
    match route {
        Route::Metrics => "text/plain; version=0.0.4",
        _ => "application/json",
    }
}

/// An answer as it goes over the wire: the status line, the content type,
/// the length of the body in bytes, leave for any origin, an empty line and
/// the body.
pub open spec fn response_text(
    status: Seq<char>,
    content_type: Seq<char>,
    length: nat,
    body: Seq<char>,
) -> Seq<char> {
    "HTTP/1.1 "@ + status + "\r\nContent-Type: "@ + content_type + "\r\nContent-Length: "@
        + decimal(length) + "\r\nAccess-Control-Allow-Origin: *\r\n\r\n"@ + body
}

/// Puts an answer together; the length it announces is that of the body in
/// bytes.
pub fn http_response(status: &str, content_type: &str, body: &str) -> (text: String)
    ensures
        text@ == response_text(status@, content_type@, body.len() as nat, body@),
{
    let length = decimal_string(body.len() as u64);
    String::from_str("HTTP/1.1 ").concat(status).concat("\r\nContent-Type: ").concat(
        content_type,
    ).concat("\r\nContent-Length: ").concat(length.as_str()).concat(
        "\r\nAccess-Control-Allow-Origin: *\r\n\r\n",
    ).concat(body)
}

/// The whole answer to a request whose body does not depend on the node's
/// state: for its health, or that goes nowhere. Nothing for the others.
pub fn fixed_response(route: Route) -> (text: Option<String>)
    ensures
        route is Health ==> text is Some && text->Some_0@ == response_text(
            "200 OK"@,
            "application/json"@,
            20,
            "{\"status\":\"healthy\"}"@,
        ),
        route is NotFound ==> text is Some && text->Some_0@ == response_text(
            "404 Not Found"@,
            "application/json"@,
            21,
            "{\"error\":\"Not Found\"}"@,
        ),
        !(route is Health) && !(route is NotFound) ==> text is None,
{
    match route {
        Route::Health => Some(
            http_response(status_text(route), content_type_text(route), health_body()),
        ),
        Route::NotFound => Some(
            http_response(status_text(route), content_type_text(route), not_found_body()),
        ),
        _ => None,
    }
}

/// The mixnodes that were deployed.
pub struct AppState {
    mixnodes: Vec<MixnodeInfo>,
    start_time_ms: u64,
}

impl AppState {
    /// The nodes, in the order of their deployment.
    pub closed spec fn nodes(self) -> Seq<MixnodeInfo> {
        self.mixnodes@
    }

    /// When the books were opened, in milliseconds.
    pub closed spec fn started(self) -> u64 {
        self.start_time_ms
    }

    /// Empty books, opened at `now_ms`.
    pub fn new_at(now_ms: u64) -> (state: AppState)
        ensures
            state.nodes().len() == 0,
            state.started() == now_ms,
    {
        AppState { mixnodes: Vec::new(), start_time_ms: now_ms }
    }

    /// Empty books, opened at the time of the call: the milliseconds of the
    /// instant that the clock shows.
    pub fn new() -> (state: AppState)
        ensures
            state.nodes().len() == 0,
            exists|now: UtcInstant| state.started() == #[trigger] unix_millis(now),
    {
        let now_ms = now_millis();
        AppState::new_at(now_ms)
    }

    /// Enters a node that was deployed at `now_ms`: active, with nothing done.
    pub fn deploy(&mut self, id: String, now_ms: u64)
        ensures
            final(self).started() == old(self).started(),
            final(self).nodes().len() == old(self).nodes().len() + 1,
            final(self).nodes().drop_last() == old(self).nodes(),
            final(self).nodes().last().id == id,
            final(self).nodes().last().active(),
            final(self).nodes().last().packets_processed == 0,
            final(self).nodes().last().packets_forwarded == 0,
            final(self).nodes().last().packets_dropped == 0,
            final(self).nodes().last().latency_sum_us == 0,
            final(self).nodes().last().latency_count == 0,
            final(self).nodes().last().start_time_ms == now_ms,
    {
        self.mixnodes.push(
            MixnodeInfo {
                id,
                status: String::from_str("active"),
                packets_processed: 0,
                packets_forwarded: 0,
                packets_dropped: 0,
                start_time_ms: now_ms,
                latency_sum_us: 0,
                latency_count: 0,
            },
        );
        assert(self.mixnodes@.drop_last() =~= old(self).mixnodes@);
    }

    /// Counts a packet for the first node with the identifier `node_id`;
    /// nothing changes where there is none.
    pub fn record_packet(&mut self, node_id: &str, processing_time_us: u64, forwarded: bool)
        ensures
            final(self).started() == old(self).started(),
            final(self).nodes() == (match first_with_id(old(self).nodes(), node_id@) {
                Some(i) => old(self).nodes().update(
                    i,
                    old(self).nodes()[i].with_packet(processing_time_us, forwarded),
                ),
                None => old(self).nodes(),
            }),
    {
        let key = String::from_str(node_id);
        let mut i: usize = 0;
        assert(self.mixnodes@.take(0) =~= Seq::<MixnodeInfo>::empty());
        while i < self.mixnodes.len()
            invariant
                i <= self.mixnodes@.len(),
                self.mixnodes@ == old(self).mixnodes@,
                self.start_time_ms == old(self).start_time_ms,
                key@ == node_id@,
                first_with_id(self.mixnodes@.take(i as int), node_id@) is None,
            decreases self.mixnodes@.len() - i,
        {
            proof {
                let next = self.mixnodes@.take(i + 1);
                assert(next.drop_last() =~= self.mixnodes@.take(i as int));
                assert(next.last() == self.mixnodes@[i as int]);
            }
            if self.mixnodes[i].id == key {
                proof {
                    lemma_first_with_id_extends(self.mixnodes@, i as int + 1, node_id@);
                }
                let node = &self.mixnodes[i];
                let updated = MixnodeInfo {
                    id: node.id.clone(),
                    status: node.status.clone(),
                    packets_processed: node.packets_processed.saturating_add(1),
                    packets_forwarded: if forwarded {
                        node.packets_forwarded.saturating_add(1)
                    } else {
                        node.packets_forwarded
                    },
                    packets_dropped: if forwarded {
                        node.packets_dropped
                    } else {
                        node.packets_dropped.saturating_add(1)
                    },
                    start_time_ms: node.start_time_ms,
                    latency_sum_us: node.latency_sum_us.saturating_add(processing_time_us),
                    latency_count: node.latency_count.saturating_add(1),
                };
                self.mixnodes[i] = updated;
                return ;
            }
            i = i + 1;
        }
        assert(self.mixnodes@.take(i as int) =~= self.mixnodes@);
    }

    /// Packets processed by all nodes together; the largest number where
    /// the sum is beyond it.
    pub fn total_packets_processed(&self) -> (total: u64)
        ensures
            total == (if processed_by(self.nodes()) > u64::MAX {
                u64::MAX as int
            } else {
                processed_by(self.nodes())
            }),
    {
        let mut total: u128 = 0;
        let mut i: usize = 0;
        assert(self.mixnodes@.take(0) =~= Seq::<MixnodeInfo>::empty());
        while i < self.mixnodes.len()
            invariant
                i <= self.mixnodes@.len(),
                total == processed_by(self.mixnodes@.take(i as int)),
                total <= i * u64::MAX,
            decreases self.mixnodes@.len() - i,
        {
            proof {
                let next = self.mixnodes@.take(i + 1);
                assert(next.drop_last() =~= self.mixnodes@.take(i as int));
                assert(next.last() == self.mixnodes@[i as int]);
                assert((i + 1) * u64::MAX == i * u64::MAX + u64::MAX) by (nonlinear_arith);
                assert(i * u64::MAX <= usize::MAX * u64::MAX) by (nonlinear_arith)
                    requires
                        i <= usize::MAX,
                ;
            }
            total = total + self.mixnodes[i].packets_processed as u128;
            i = i + 1;
        }
        assert(self.mixnodes@.take(i as int) =~= self.mixnodes@);
        if total > u64::MAX as u128 {
            u64::MAX
        } else {
            total as u64
        }
    }

    /// Number of nodes that take connections.
    pub fn total_connections(&self) -> (count: usize)
        ensures
            count == active_among(self.nodes()),
    {
        let active = String::from_str("active");
        let mut count: usize = 0;
        let mut i: usize = 0;
        assert(self.mixnodes@.take(0) =~= Seq::<MixnodeInfo>::empty());
        while i < self.mixnodes.len()
            invariant
                i <= self.mixnodes@.len(),
                active@ == "active"@,
                count == active_among(self.mixnodes@.take(i as int)),
                count <= i,
            decreases self.mixnodes@.len() - i,
        {
            proof {
                let next = self.mixnodes@.take(i + 1);
                assert(next.drop_last() =~= self.mixnodes@.take(i as int));
                assert(next.last() == self.mixnodes@[i as int]);
            }
            if self.mixnodes[i].status == active {
                count = count + 1;
            }
            i = i + 1;
        }
        assert(self.mixnodes@.take(i as int) =~= self.mixnodes@);
        count
    }

    /// Mean processing time over all nodes in microseconds, rounded down
    /// and at most the largest number; zero where no packet was timed.
    pub fn avg_latency_us(&self) -> (mean: u64)
        ensures
            mean == (if latency_counts(self.nodes()) == 0 {
                0
            } else {
                capped((latency_sums(self.nodes()) / latency_counts(self.nodes())) as int)
            }),
    {
        let mut sum: u128 = 0;
        let mut count: u128 = 0;
        let mut i: usize = 0;
        assert(self.mixnodes@.take(0) =~= Seq::<MixnodeInfo>::empty());
        while i < self.mixnodes.len()
            invariant
                i <= self.mixnodes@.len(),
                sum == latency_sums(self.mixnodes@.take(i as int)),
                count == latency_counts(self.mixnodes@.take(i as int)),
                sum <= i * u64::MAX,
                count <= i * u64::MAX,
            decreases self.mixnodes@.len() - i,
        {
            proof {
                let next = self.mixnodes@.take(i + 1);
                assert(next.drop_last() =~= self.mixnodes@.take(i as int));
                assert(next.last() == self.mixnodes@[i as int]);
                assert((i + 1) * u64::MAX == i * u64::MAX + u64::MAX) by (nonlinear_arith);
                assert(i * u64::MAX <= usize::MAX * u64::MAX) by (nonlinear_arith)
                    requires
                        i <= usize::MAX,
                ;
            }
            sum = sum + self.mixnodes[i].latency_sum_us as u128;
            count = count + self.mixnodes[i].latency_count as u128;
            i = i + 1;
        }
        assert(self.mixnodes@.take(i as int) =~= self.mixnodes@);
        if count == 0 {
            0
        } else {
            let mean = sum / count;
            if mean > u64::MAX as u128 {
                u64::MAX
            } else {
                mean as u64
            }
        }
    }

    /// The nodes, in the order of their deployment.
    pub fn mixnodes(&self) -> (list: &[MixnodeInfo])
        ensures
            list@ == self.nodes(),
    {
        self.mixnodes.as_slice()
    }

    /// Milliseconds since the books were opened, at `now_ms`.
    pub fn uptime_ms(&self, now_ms: u64) -> (uptime: u64)
        ensures
            uptime == (if now_ms < self.started() {
                0
            } else {
                now_ms - self.started()
            }),
    {
        if now_ms < self.start_time_ms {
            0
        } else {
            now_ms - self.start_time_ms
        }
    }
}

proof fn lemma_first_with_id_extends(nodes: Seq<MixnodeInfo>, upto: int, id: Seq<char>)
    requires
        0 < upto <= nodes.len(),
        first_with_id(nodes.take(upto - 1), id) is None,
        nodes[upto - 1].id@ == id,
    ensures
        first_with_id(nodes, id) == Some(upto - 1),
    decreases nodes.len() - upto,
{
    let head = nodes.take(upto);
    assert(head.drop_last() =~= nodes.take(upto - 1));
    assert(head.last() == nodes[upto - 1]);
    assert(first_with_id(head, id) == Some(upto - 1));
    lemma_first_with_id_grows(nodes, upto, id);
}

proof fn lemma_first_with_id_grows(nodes: Seq<MixnodeInfo>, upto: int, id: Seq<char>)
    requires
        0 < upto <= nodes.len(),
        first_with_id(nodes.take(upto), id) is Some,
    ensures
        first_with_id(nodes, id) == first_with_id(nodes.take(upto), id),
    decreases nodes.len() - upto,
{
    if upto < nodes.len() {
        let next = nodes.take(upto + 1);
        assert(next.drop_last() =~= nodes.take(upto));
        lemma_first_with_id_grows(nodes, upto + 1, id);
    } else {
        assert(nodes.take(upto) =~= nodes);
    }
}

/// The current time as text: seconds since 1970.
pub fn get_timestamp() -> (text: String)
    ensures
        exists|now: u64| text@ == #[trigger] decimal(now as nat),
{
    let now = unix_now();
    let text = decimal_string(now);
    assert(text@ == decimal(now as nat));
    text
}

/// An identifier that differs from call to call as the clock moves: the
/// nanoseconds since 1970, in hexadecimal.
pub fn uuid_simple() -> (text: String)
    ensures
        exists|now: u128| text@ == #[trigger] hexadecimal(now as nat),
{
    let now = now_nanos();
    let text = hex_string(now);
    assert(text@ == hexadecimal(now as nat));
    text
}

} // verus!
