//! The packet pipeline of a mixnode: a pool of buffers, a bounded input
//! queue that drops when it is full, the packets that workers hold, the
//! delay wheel, and a bounded output queue that pushes back when it is full.
//!
//! Every packet that comes in is, at any time, in exactly one of these
//! places, or was forwarded, or was dropped and counted.

use crate::fixed::raised;
use std::collections::VecDeque;
use vstd::prelude::*;

verus! {

/// How urgent a packet is.
#[derive(Debug, Clone, Copy, PartialEq, Eq, Structural)]
pub enum Priority {
    Normal,
    High,
}

/// A packet on its way through the node.
#[derive(Debug, Clone)]
pub struct InflightPacket {
    pub payload_bytes: Vec<u8>,
    /// Address of the peer that the packet came from.
    pub origin_peer: String,
    /// When the packet arrived, in microseconds.
    pub arrival_time: u64,
    /// When the packet may leave, in microseconds; set when it is delayed.
    pub deadline_after_delay: u64,
    pub priority: Priority,
}

/// Buffers that are used again and again. At most `capacity` wait in the pool.
pub struct MemoryPool {
    free: Vec<Vec<u8>>,
    capacity: usize,
    buffer_size: usize,
    reused: u64,
    allocated: u64,
}

impl MemoryPool {
    /// The buffers that wait in the pool.
    pub closed spec fn free_buffers(self) -> Seq<Vec<u8>> {
        self.free@
    }

    /// Most buffers that wait in the pool.
    pub closed spec fn limit(self) -> usize {
        self.capacity
    }

    /// How often a buffer came out of the pool.
    pub closed spec fn hits(self) -> u64 {
        self.reused
    }

    /// How often a buffer had to be made.
    pub closed spec fn misses(self) -> u64 {
        self.allocated
    }

    /// The pool holds no more buffers than it may, and all of them are empty.
    pub closed spec fn wf(self) -> bool {
        &&& self.free@.len() <= self.capacity
        &&& forall|i: int| 0 <= i < self.free@.len() ==> (#[trigger] self.free@[i])@.len() == 0
    }

    /// An empty pool for up to `capacity` buffers of `buffer_size` bytes.
    pub fn new(capacity: usize, buffer_size: usize) -> (pool: MemoryPool)
        ensures
            pool.wf(),
            pool.free_buffers().len() == 0,
            pool.limit() == capacity,
            pool.hits() == 0,
            pool.misses() == 0,
    {
        MemoryPool { free: Vec::new(), capacity, buffer_size, reused: 0, allocated: 0 }
    }

    /// Hands out an empty buffer: one from the pool where one waits, else a
    /// new one.
    pub fn acquire(&mut self) -> (buffer: Vec<u8>)
        requires
            old(self).wf(),
        ensures
            final(self).wf(),
            buffer@.len() == 0,
            final(self).limit() == old(self).limit(),
            old(self).free_buffers().len() > 0 ==> final(self).free_buffers() == old(self).free_buffers().drop_last() && final(self).hits() == raised(old(self).hits(), 1)
                && final(self).misses() == old(self).misses(),
            old(self).free_buffers().len() == 0 ==> final(self).free_buffers().len() == 0 && final(self).misses() == raised(old(self).misses(), 1) && final(self).hits() == old(self).hits(),
    {
        match self.free.pop() {
            Some(buffer) => {
                assert(old(self).free@[old(self).free@.len() - 1]@.len() == 0);
                assert forall|i: int| 0 <= i < self.free@.len() implies (#[trigger] self.free@[i])@.len()
                    == 0 by {
                    assert(self.free@[i] == old(self).free@[i]);
                }
                self.reused = self.reused.saturating_add(1);
                buffer
            },
            None => {
                self.allocated = self.allocated.saturating_add(1);
                Vec::with_capacity(self.buffer_size)
            },
        }
    }

    /// Takes a buffer back: emptied, it waits in the pool if there is room,
    /// else it is let go.
    pub fn release(&mut self, buffer: Vec<u8>)
        requires
            old(self).wf(),
        ensures
            final(self).wf(),
            final(self).limit() == old(self).limit(),
            final(self).hits() == old(self).hits(),
            final(self).misses() == old(self).misses(),
            final(self).free_buffers().len() == (if old(self).free_buffers().len() < old(self).limit() {
                old(self).free_buffers().len() + 1
            } else {
                old(self).free_buffers().len()
            }),
    {
        if self.free.len() < self.capacity {
            let mut buffer = buffer;
            buffer.clear();
            let ghost before = self.free@;
            self.free.push(buffer);
            assert forall|i: int| 0 <= i < self.free@.len() implies (#[trigger] self.free@[i])@.len()
                == 0 by {
                if i < before.len() {
                    assert(self.free@[i] == before[i]);
                }
            }
        }
    }

    /// Share of buffers that came out of the pool, in millionths, rounded
    /// down; zero before the first buffer was asked for.
    pub fn hit_rate(&self) -> (rate: u64)
        ensures
            rate == (if self.hits() + self.misses() == 0 {
                0
            } else {
                self.hits() * 1_000_000 / (self.hits() + self.misses())
            }),
            rate <= 1_000_000,
    {
        let total: u128 = self.reused as u128 + self.allocated as u128;
        if total == 0 {
            return 0;
        }
        let rate: u128 = (self.reused as u128) * 1_000_000 / total;
        assert(rate <= 1_000_000) by (nonlinear_arith)
            requires
                rate == (self.reused * 1_000_000) / (total as int),
                0 <= self.reused <= total,
                total > 0,
        ;
        rate as u64
    }
}

/// What became of a packet that was offered.
#[derive(Debug, Clone, Copy, PartialEq, Eq, Structural)]
pub enum Admission {
    /// The packet waits in the input queue.
    Queued,
    /// The input queue was full or the node is shut down: the packet was
    /// dropped and counted.
    Dropped,
}

/// The packets of `wheel` whose delay has passed at `now_us`, in their order,
/// as far as `room` goes: the first `room` of them.
pub open spec fn released(wheel: Seq<InflightPacket>, now_us: u64, room: int) -> Seq<
    InflightPacket,
>
    decreases wheel.len(),
{
    if wheel.len() == 0 || room <= 0 {
        Seq::empty()
    } else if wheel[0].deadline_after_delay <= now_us {
        seq![wheel[0]] + released(wheel.drop_first(), now_us, room - 1)
    } else {
        released(wheel.drop_first(), now_us, room)
    }
}

/// What stays of `wheel` when the first `room` packets whose delay has
/// passed at `now_us` leave it: the others, in their order.
pub open spec fn retained(wheel: Seq<InflightPacket>, now_us: u64, room: int) -> Seq<
    InflightPacket,
>
    decreases wheel.len(),
{
    if wheel.len() == 0 {
        Seq::empty()
    } else if room <= 0 {
        wheel
    } else if wheel[0].deadline_after_delay <= now_us {
        retained(wheel.drop_first(), now_us, room - 1)
    } else {
        seq![wheel[0]] + retained(wheel.drop_first(), now_us, room)
    }
}

/// The counters of a pipeline. They only ever go up.
#[derive(Debug, Clone, Copy, PartialEq, Eq, Structural)]
pub struct PipelineStats {
    /// Packets offered.
    pub packets_received: u64,
    /// Packets handed to workers.
    pub packets_processed: u64,
    /// Packets handed to the writer.
    pub packets_forwarded: u64,
    /// Packets dropped, for whatever reason.
    pub packets_dropped: u64,
}

/// The packets of a node between arrival and departure.
pub struct PacketPipeline {
    input: VecDeque<InflightPacket>,
    input_capacity: usize,
    in_workers: u64,
    delayed: Vec<InflightPacket>,
    output: VecDeque<InflightPacket>,
    output_capacity: usize,
    stats: PipelineStats,
    closed: bool,
}

impl PacketPipeline {
    /// The packets that wait to be processed, oldest first.
    pub closed spec fn input_queue(self) -> Seq<InflightPacket> {
        self.input@
    }

    /// Number of packets that workers hold.
    pub closed spec fn with_workers(self) -> nat {
        self.in_workers as nat
    }

    /// The packets that wait for their delay to pass.
    pub closed spec fn delay_wheel(self) -> Seq<InflightPacket> {
        self.delayed@
    }

    /// The packets that wait to be written, oldest first.
    pub closed spec fn output_queue(self) -> Seq<InflightPacket> {
        self.output@
    }

    /// Most packets in the input queue.
    pub closed spec fn input_limit(self) -> usize {
        self.input_capacity
    }

    /// Most packets in the output queue.
    pub closed spec fn output_limit(self) -> usize {
        self.output_capacity
    }

    /// The counters.
    pub closed spec fn counters(self) -> PipelineStats {
        self.stats
    }

    /// Whether the pipeline was shut down.
    pub closed spec fn is_closed(self) -> bool {
        self.closed
    }

    /// Number of packets that are inside the pipeline.
    pub open spec fn in_flight(self) -> nat {
        self.input_queue().len() + self.with_workers() + self.delay_wheel().len()
            + self.output_queue().len()
    }

    /// Both queues are within their limits, and no packet is unaccounted
    /// for: what was received was forwarded, or dropped, or is in flight.
    pub open spec fn wf(self) -> bool {
        &&& self.input_queue().len() <= self.input_limit()
        &&& self.output_queue().len() <= self.output_limit()
        &&& self.counters().packets_received < u64::MAX
        &&& self.counters().packets_received == self.counters().packets_forwarded
            + self.counters().packets_dropped + self.in_flight()
    }

    /// An empty pipeline with the given queue limits.
    pub fn new(input_capacity: usize, output_capacity: usize) -> (pipeline: PacketPipeline)
        ensures
            pipeline.wf(),
            pipeline.in_flight() == 0,
            pipeline.input_limit() == input_capacity,
            pipeline.output_limit() == output_capacity,
            pipeline.counters() == (PipelineStats {
                packets_received: 0,
                packets_processed: 0,
                packets_forwarded: 0,
                packets_dropped: 0,
            }),
            !pipeline.is_closed(),
    {
        PacketPipeline {
            input: VecDeque::new(),
            input_capacity,
            in_workers: 0,
            delayed: Vec::new(),
            output: VecDeque::new(),
            output_capacity,
            stats: PipelineStats {
                packets_received: 0,
                packets_processed: 0,
                packets_forwarded: 0,
                packets_dropped: 0,
            },
            closed: false,
        }
    }

    /// Offers a packet. It joins the input queue, unless the queue is full
    /// or the pipeline shut down: then it is dropped and counted. The
    /// caller is never held up.
    pub fn submit_packet(&mut self, packet: InflightPacket) -> (admission: Admission)
        requires
            old(self).wf(),
            old(self).counters().packets_received < u64::MAX - 1,
        ensures
            final(self).wf(),
            final(self).counters().packets_received == old(self).counters().packets_received + 1,
            admission == (if !old(self).is_closed() && old(self).input_queue().len() < old(self).input_limit() {
                Admission::Queued
            } else {
                Admission::Dropped
            }),
            admission is Queued ==> final(self).input_queue() == old(self).input_queue().push(
                packet,
            ) && final(self).counters().packets_dropped == old(self).counters().packets_dropped,
            admission is Dropped ==> final(self).input_queue() == old(self).input_queue() && final(self).counters().packets_dropped == old(self).counters().packets_dropped + 1,
            final(self).counters().packets_forwarded == old(self).counters().packets_forwarded,
            final(self).counters().packets_processed == old(self).counters().packets_processed,
            final(self).with_workers() == old(self).with_workers(),
            final(self).delay_wheel() == old(self).delay_wheel(),
            final(self).output_queue() == old(self).output_queue(),
            final(self).input_limit() == old(self).input_limit(),
            final(self).output_limit() == old(self).output_limit(),
            final(self).is_closed() == old(self).is_closed(),
    {
        self.stats.packets_received = self.stats.packets_received + 1;
        if !self.closed && self.input.len() < self.input_capacity {
            self.input.push_back(packet);
            Admission::Queued
        } else {
            self.stats.packets_dropped = self.stats.packets_dropped + 1;
            Admission::Dropped
        }
    }

    /// Hands the oldest packet of the input queue to a worker.
    pub fn next_for_processing(&mut self) -> (packet: Option<InflightPacket>)
        requires
            old(self).wf(),
        ensures
            final(self).wf(),
            match packet {
                Some(p) => old(self).input_queue().len() > 0 && p == old(self).input_queue()[0]
                    && final(self).input_queue() == old(self).input_queue().drop_first() && final(self).with_workers() == old(self).with_workers() + 1 && final(self).counters().packets_processed == raised(old(self).counters().packets_processed, 1),
                None => old(self).input_queue().len() == 0 && final(self).input_queue() == old(self).input_queue() && final(self).with_workers() == old(self).with_workers() && final(self).counters().packets_processed == old(self).counters().packets_processed,
            },
            final(self).in_flight() == old(self).in_flight(),
            final(self).counters().packets_received == old(self).counters().packets_received,
            final(self).counters().packets_forwarded == old(self).counters().packets_forwarded,
            final(self).counters().packets_dropped == old(self).counters().packets_dropped,
            final(self).delay_wheel() == old(self).delay_wheel(),
            final(self).output_queue() == old(self).output_queue(),
            final(self).input_limit() == old(self).input_limit(),
            final(self).output_limit() == old(self).output_limit(),
            final(self).is_closed() == old(self).is_closed(),
    {
        match self.input.pop_front() {
            Some(packet) => {
                assert(self.input@ =~= old(self).input@.drop_first());
                self.in_workers = self.in_workers + 1;
                self.stats.packets_processed = self.stats.packets_processed.saturating_add(1);
                Some(packet)
            },
            None => None,
        }
    }

    /// Takes a packet back from a worker. A packet that could not be peeled
    /// (`delay_us` is nothing) is dropped and counted, and so is any packet
    /// once the pipeline shut down; else the packet waits in the delay
    /// wheel until `now_us + delay_us`.
    pub fn finish_processing(&mut self, packet: InflightPacket, delay_us: Option<u64>, now_us: u64)
        requires
            old(self).wf(),
            old(self).with_workers() > 0,
        ensures
            final(self).wf(),
            final(self).with_workers() == old(self).with_workers() - 1,
            delay_us is Some && !old(self).is_closed() ==> final(self).delay_wheel() == old(self).delay_wheel().push(
                InflightPacket {
                    deadline_after_delay: if now_us + delay_us->Some_0 > u64::MAX {
                        u64::MAX
                    } else {
                        (now_us + delay_us->Some_0) as u64
                    },
                    ..packet
                },
            ) && final(self).counters().packets_dropped == old(self).counters().packets_dropped,
            delay_us is None || old(self).is_closed() ==> final(self).delay_wheel() == old(self).delay_wheel() && final(self).counters().packets_dropped == old(self).counters().packets_dropped + 1,
            final(self).counters().packets_received == old(self).counters().packets_received,
            final(self).counters().packets_forwarded == old(self).counters().packets_forwarded,
            final(self).counters().packets_processed == old(self).counters().packets_processed,
            final(self).input_queue() == old(self).input_queue(),
            final(self).output_queue() == old(self).output_queue(),
            final(self).input_limit() == old(self).input_limit(),
            final(self).output_limit() == old(self).output_limit(),
            final(self).is_closed() == old(self).is_closed(),
    {
        self.in_workers = self.in_workers - 1;
        match delay_us {
            Some(delay) => {
                if self.closed {
                    self.stats.packets_dropped = self.stats.packets_dropped + 1;
                } else {
                    let mut packet = packet;
                    packet.deadline_after_delay = now_us.saturating_add(delay);
                    self.delayed.push(packet);
                }
            },
            None => {
                self.stats.packets_dropped = self.stats.packets_dropped + 1;
            },
        }
    }

    /// Moves the packets whose delay has passed at `now_us` from the delay
    /// wheel to the output queue, as far as the queue has room, and says
    /// how many it moved. They join the queue in the order in which they
    /// stood on the wheel, each as it was. Packets that are due and do not
    /// fit stay on the wheel, with those that are not due, in their order:
    /// nothing is lost to back-pressure.
    pub fn release_due(&mut self, now_us: u64) -> (moved: usize)
        requires
            old(self).wf(),
        ensures
            final(self).wf(),
            final(self).in_flight() == old(self).in_flight(),
            final(self).output_queue() == old(self).output_queue() + released(
                old(self).delay_wheel(),
                now_us,
                old(self).output_limit() - old(self).output_queue().len(),
            ),
            final(self).delay_wheel() == retained(
                old(self).delay_wheel(),
                now_us,
                old(self).output_limit() - old(self).output_queue().len(),
            ),
            moved == released(
                old(self).delay_wheel(),
                now_us,
                old(self).output_limit() - old(self).output_queue().len(),
            ).len(),
            final(self).delay_wheel().len() == old(self).delay_wheel().len() - moved,
            forall|i: int|
                old(self).output_queue().len() <= i < final(self).output_queue().len() ==> (
                #[trigger] final(self).output_queue()[i]).deadline_after_delay <= now_us,
            final(self).output_queue().len() < final(self).output_limit() ==> forall|i: int|
                0 <= i < final(self).delay_wheel().len() ==> (#[trigger] final(self).delay_wheel()[i]).deadline_after_delay > now_us,
            final(self).counters() == old(self).counters(),
            final(self).input_queue() == old(self).input_queue(),
            final(self).with_workers() == old(self).with_workers(),
            final(self).input_limit() == old(self).input_limit(),
            final(self).output_limit() == old(self).output_limit(),
            final(self).is_closed() == old(self).is_closed(),
    {
        let mut moved: usize = 0;
        let mut i: usize = 0;
        let ghost start = old(self).delayed@;
        let ghost room = old(self).output_capacity - old(self).output@.len();
        let ghost out: Seq<InflightPacket> = Seq::empty();
        proof {
            assert(self.output@ =~= old(self).output@ + out);
            assert(self.delayed@.skip(0) =~= start);
            assert(self.delayed@.take(0) + retained(start, now_us, room) =~= retained(
                start,
                now_us,
                room,
            ));
            assert(out + released(start, now_us, room) =~= released(start, now_us, room));
        }
        while i < self.delayed.len() && self.output.len() < self.output_capacity
            invariant
                i <= self.delayed@.len(),
                self.delayed@.len() == start.len() - moved,
                moved == out.len(),
                self.output@ == old(self).output@ + out,
                self.output@.len() <= self.output_capacity,
                released(start, now_us, room) == out + released(
                    self.delayed@.skip(i as int),
                    now_us,
                    self.output_capacity - self.output@.len(),
                ),
                retained(start, now_us, room) == self.delayed@.take(i as int) + retained(
                    self.delayed@.skip(i as int),
                    now_us,
                    self.output_capacity - self.output@.len(),
                ),
                forall|k: int| 0 <= k < out.len() ==> (#[trigger] out[k]).deadline_after_delay
                    <= now_us,
                forall|k: int|
                    0 <= k < i ==> (#[trigger] self.delayed@[k]).deadline_after_delay > now_us,
                self.input == old(self).input,
                self.in_workers == old(self).in_workers,
                self.stats == old(self).stats,
                self.input_capacity == old(self).input_capacity,
                self.output_capacity == old(self).output_capacity,
                self.closed == old(self).closed,
                start == old(self).delayed@,
                room == old(self).output_capacity - old(self).output@.len(),
                old(self).wf(),
            decreases self.delayed@.len() - i,
        {
            let ghost wheel = self.delayed@;
            let ghost rest = self.delayed@.skip(i as int);
            let ghost left = self.output_capacity - self.output@.len();
            assert(rest.len() > 0 && rest[0] == wheel[i as int]);
            if self.delayed[i].deadline_after_delay <= now_us {
                let ghost queue = self.output@;
                let ghost before = out;
                let packet = self.delayed.remove(i);
                self.output.push_back(packet);
                moved = moved + 1;
                proof {
                    out = before.push(packet);
                    assert(self.output@ =~= old(self).output@ + out);
                    assert(self.delayed@.skip(i as int) =~= rest.drop_first());
                    assert(self.delayed@.take(i as int) =~= wheel.take(i as int));
                    assert(before + (seq![packet] + released(rest.drop_first(), now_us, left - 1))
                        =~= out + released(rest.drop_first(), now_us, left - 1));
                    assert forall|k: int| 0 <= k < out.len() implies (
                    #[trigger] out[k]).deadline_after_delay <= now_us by {
                        if k < before.len() {
                            assert(out[k] == before[k]);
                        }
                    }
                    assert forall|k: int| 0 <= k < i implies (
                    #[trigger] self.delayed@[k]).deadline_after_delay > now_us by {
                        assert(self.delayed@[k] == wheel[k]);
                    }
                }
            } else {
                i = i + 1;
                proof {
                    assert(self.delayed@.skip(i as int) =~= rest.drop_first());
                    assert(self.delayed@.take(i as int) =~= wheel.take(i - 1).push(rest[0]));
                    assert(wheel.take(i - 1) + (seq![rest[0]] + retained(
                        rest.drop_first(),
                        now_us,
                        left,
                    )) =~= wheel.take(i - 1).push(rest[0]) + retained(
                        rest.drop_first(),
                        now_us,
                        left,
                    ));
                }
            }
        }
        proof {
            let rest = self.delayed@.skip(i as int);
            let left = self.output_capacity - self.output@.len();
            assert(released(rest, now_us, left) =~= Seq::<InflightPacket>::empty());
            assert(retained(rest, now_us, left) =~= rest);
            assert(out + Seq::<InflightPacket>::empty() =~= out);
            assert(self.delayed@.take(i as int) + rest =~= self.delayed@);
            assert forall|k: int|
                old(self).output@.len() <= k < self.output@.len() implies (
            #[trigger] self.output@[k]).deadline_after_delay <= now_us by {
                assert(self.output@[k] == out[k - old(self).output@.len()]);
            }
        }
        moved
    }

    /// Hands the oldest packet of the output queue to the writer. It counts
    /// as forwarded.
    pub fn next_output(&mut self) -> (packet: Option<InflightPacket>)
        requires
            old(self).wf(),
        ensures
            final(self).wf(),
            match packet {
                Some(p) => old(self).output_queue().len() > 0 && p == old(self).output_queue()[0]
                    && final(self).output_queue() == old(self).output_queue().drop_first() && final(self).counters().packets_forwarded == old(self).counters().packets_forwarded + 1,
                None => old(self).output_queue().len() == 0 && final(self).output_queue() == old(self).output_queue() && final(self).counters().packets_forwarded == old(self).counters().packets_forwarded,
            },
            final(self).counters().packets_received == old(self).counters().packets_received,
            final(self).counters().packets_processed == old(self).counters().packets_processed,
            final(self).counters().packets_dropped == old(self).counters().packets_dropped,
            final(self).input_queue() == old(self).input_queue(),
            final(self).with_workers() == old(self).with_workers(),
            final(self).delay_wheel() == old(self).delay_wheel(),
            final(self).input_limit() == old(self).input_limit(),
            final(self).output_limit() == old(self).output_limit(),
            final(self).is_closed() == old(self).is_closed(),
    {
        match self.output.pop_front() {
            Some(packet) => {
                assert(self.output@ =~= old(self).output@.drop_first());
                self.stats.packets_forwarded = self.stats.packets_forwarded + 1;
                Some(packet)
            },
            None => None,
        }
    }

    /// Shuts the pipeline down: every packet that waits in a queue or on
    /// the delay wheel is dropped and counted, and from now on every packet
    /// that is offered or that a worker brings back is dropped too.
    pub fn shutdown(&mut self) -> (dropped: u64)
        requires
            old(self).wf(),
        ensures
            final(self).wf(),
            final(self).is_closed(),
            dropped == old(self).input_queue().len() + old(self).delay_wheel().len() + old(self).output_queue().len(),
            final(self).input_queue().len() == 0,
            final(self).delay_wheel().len() == 0,
            final(self).output_queue().len() == 0,
            final(self).with_workers() == old(self).with_workers(),
            final(self).counters().packets_dropped == old(self).counters().packets_dropped
                + dropped,
            final(self).counters().packets_received == old(self).counters().packets_received,
            final(self).counters().packets_forwarded == old(self).counters().packets_forwarded,
            final(self).counters().packets_processed == old(self).counters().packets_processed,
            final(self).input_limit() == old(self).input_limit(),
            final(self).output_limit() == old(self).output_limit(),
    {
        let pending: u64 = (self.input.len() as u64) + (self.delayed.len() as u64) + (
        self.output.len() as u64);
        self.input.clear();
        self.delayed.clear();
        self.output.clear();
        self.stats.packets_dropped = self.stats.packets_dropped + pending;
        self.closed = true;
        pending
    }

    /// The counters.
    pub fn stats(&self) -> (stats: PipelineStats)
        ensures
            stats == self.counters(),
    {
        self.stats
    }

    /// How many packets wait in the input and in the output queue.
    pub fn queue_depths(&self) -> (depths: (usize, usize))
        ensures
            depths.0 == self.input_queue().len(),
            depths.1 == self.output_queue().len(),
    {
        (self.input.len(), self.output.len())
    }

    /// How full the input queue is, in millionths: a signal for the load
    /// estimate. A queue without room counts as full.
    pub fn input_load(&self) -> (load: u64)
        requires
            self.wf(),
        ensures
            load == (if self.input_limit() == 0 {
                1_000_000
            } else {
                self.input_queue().len() * 1_000_000 / (self.input_limit() as nat)
            }),
            load <= 1_000_000,
    {
        if self.input_capacity == 0 {
            return 1_000_000;
        }
        let load: u128 = (self.input.len() as u128) * 1_000_000 / (self.input_capacity as u128);
        assert(load <= 1_000_000) by (nonlinear_arith)
            requires
                load == (self.input@.len() * 1_000_000) / (self.input_capacity as nat),
                0 <= self.input@.len() <= self.input_capacity,
                self.input_capacity > 0,
        ;
        load as u64
    }

    /// How full the output queue is, in millionths: the writer's
    /// back-pressure, a signal for the load estimate. A queue without room
    /// counts as full.
    pub fn output_load(&self) -> (load: u64)
        requires
            self.wf(),
        ensures
            load == (if self.output_limit() == 0 {
                1_000_000
            } else {
                self.output_queue().len() * 1_000_000 / (self.output_limit() as nat)
            }),
            load <= 1_000_000,
    {
        if self.output_capacity == 0 {
            return 1_000_000;
        }
        let load: u128 = (self.output.len() as u128) * 1_000_000 / (self.output_capacity as u128);
        assert(load <= 1_000_000) by (nonlinear_arith)
            requires
                load == (self.output@.len() * 1_000_000) / (self.output_capacity as nat),
                0 <= self.output@.len() <= self.output_capacity,
                self.output_capacity > 0,
        ;
        load as u64
    }

    /// Dropped packets as a share of received ones, in millionths, rounded
    /// down: a signal for the load estimate. Zero before the first packet.
    pub fn drop_rate(&self) -> (rate: u64)
        requires
            self.wf(),
        ensures
            rate == (if self.counters().packets_received == 0 {
                0
            } else {
                self.counters().packets_dropped * 1_000_000 / (
                self.counters().packets_received as int)
            }),
            rate <= 1_000_000,
    {
        if self.stats.packets_received == 0 {
            return 0;
        }
        let rate: u128 = (self.stats.packets_dropped as u128) * 1_000_000 / (
        self.stats.packets_received as u128);
        assert(rate <= 1_000_000) by (nonlinear_arith)
            requires
                rate == (self.stats.packets_dropped * 1_000_000) / (
                self.stats.packets_received as int),
                0 <= self.stats.packets_dropped <= self.stats.packets_received,
                self.stats.packets_received > 0,
        ;
        rate as u64
    }

    /// Number of packets inside the pipeline.
    pub fn packets_in_flight(&self) -> (count: u64)
        requires
            self.wf(),
        ensures
            count == self.in_flight(),
            self.counters().packets_received == self.counters().packets_forwarded
                + self.counters().packets_dropped + count,
    {
        self.stats.packets_received - self.stats.packets_forwarded - self.stats.packets_dropped
    }
}

/// No packet is lost in silence: of the packets that a pipeline received,
/// each was forwarded, or was dropped and counted, or is still in one of
/// the queues, with a worker or on the delay wheel; and no queue holds more
/// than it may.
pub proof fn lemma_no_silent_loss(pipeline: PacketPipeline)
    requires
        pipeline.wf(),
    ensures
        pipeline.counters().packets_received == pipeline.counters().packets_forwarded
            + pipeline.counters().packets_dropped + pipeline.input_queue().len()
            + pipeline.with_workers() + pipeline.delay_wheel().len()
            + pipeline.output_queue().len(),
        pipeline.input_queue().len() <= pipeline.input_limit(),
        pipeline.output_queue().len() <= pipeline.output_limit(),
{
}

} // verus!
