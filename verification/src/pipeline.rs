//! The pipeline as a whole: subscribers, fan-in queue, sink writer and sink,
//! as a transition system over the decisions that the workers make. The
//! queue is first in, first out; the steps of different workers interleave
//! in any order.

use vstd::prelude::*;
use crate::cli::Cli;
use crate::clock::Timestamp;
use crate::controller::{Controller, Phase};
use crate::format::{capture_header_for, header_bytes, lemma_header_length};
use crate::startup::{Startup, StartupStage};
use crate::subscriber::{
    start_subscribers, subscriber_next, subscribers_for, Subscriber, SubscriberAction,
    SubscriberEvent,
};
use crate::worker::{InboundMessage, WorkerState};
use crate::writer::{sink_next, sink_target, FIFOWriter, SinkEffect, SinkEvent, SinkWorker};

verus! {

/// A message in the queue, with the subscriber that forwarded it and its
/// place among the messages that this subscriber's channel delivered.
pub struct Routed {
    pub channel: int,
    pub index: int,
    pub message: InboundMessage,
}

/// A message whose record is in the sink, with the reading of the clock at
/// which the sink writer took it from the queue.
pub struct Written {
    pub route: Routed,
    pub at: Timestamp,
}

/// The state of the pipeline.
pub struct Pipeline {
    /// The subscribers, one for each requested channel.
    pub subscribers: Seq<Subscriber>,
    /// For each subscriber, the messages that its channel has delivered.
    pub delivered: Seq<Seq<InboundMessage>>,
    /// The fan-in queue, oldest message first.
    pub queue: Seq<Routed>,
    /// The sink writer.
    pub sink_worker: SinkWorker,
    /// The bytes in the sink.
    pub sink: Seq<u8>,
    /// The messages whose records are in the sink, oldest first.
    pub written: Seq<Written>,
    /// Whether the cancellation signal was given.
    pub cancelled: bool,
}

/// What can happen next.
pub enum Step {
    /// A channel delivers a message to its subscriber.
    Deliver { channel: int, message: InboundMessage },
    /// A channel's stream ends or fails.
    StreamClosed { channel: int },
    /// A subscriber sees the cancellation signal.
    SubscriberCancelled { channel: int },
    /// The sink writer takes the oldest message from the queue at `now`;
    /// `accepted` tells whether the sink takes the bytes of its record. A
    /// sink that does not, takes none of them.
    Dequeue { now: Timestamp, accepted: bool },
    /// The sink writer finds the queue empty with no producer left.
    QueueClosed,
    /// The sink writer sees the cancellation signal.
    SinkCancelled,
    /// The controller gives the cancellation signal.
    Cancel,
}

/// The bytes that stand in the sink for one written message.
pub open spec fn frame_of(writer: FIFOWriter, w: Written) -> Seq<u8> {
    match writer.record(w.route.message@, w.at) {
        Ok(bytes) => bytes,
        Err(_) => Seq::empty(),
    }
}

/// The records of the written messages, one after the other.
pub open spec fn frames(writer: FIFOWriter, written: Seq<Written>) -> Seq<u8>
    decreases written.len(),
{
    if written.len() == 0 {
        Seq::empty()
    } else {
        frames(writer, written.drop_last()) + frame_of(writer, written.last())
    }
}

impl Pipeline {
    /// The pipeline just after start: every subscriber runs, nothing was
    /// delivered, and the sink holds the global header.
    pub open spec fn init(channels: Seq<String>, sink_worker: SinkWorker) -> Pipeline {
        Pipeline {
            subscribers: subscribers_for(channels),
            delivered: Seq::new(channels.len(), |i: int| Seq::<InboundMessage>::empty()),
            queue: Seq::empty(),
            sink_worker,
            sink: header_bytes(sink_worker.writer.header),
            written: Seq::empty(),
            cancelled: false,
        }
    }

    /// Whether `channel` names one of the subscribers.
    pub open spec fn has_channel(self, channel: int) -> bool {
        0 <= channel < self.subscribers.len()
    }

    /// Whether every subscriber has stopped.
    pub open spec fn producers_gone(self) -> bool {
        forall|c: int| 0 <= c < self.subscribers.len() ==> self.subscribers[c].state == WorkerState::Stopped
    }

    /// Whether `step` can happen in this state. A worker sees the
    /// cancellation signal only once it was given; the sink writer finds the
    /// queue closed only when it is empty and every subscriber has stopped.
    pub open spec fn enabled(self, step: Step) -> bool {
        match step {
            Step::Deliver { channel, message } => self.has_channel(channel),
            Step::StreamClosed { channel } => self.has_channel(channel),
            Step::SubscriberCancelled { channel } => self.has_channel(channel) && self.cancelled,
            Step::Dequeue { now, accepted } => {
                &&& self.queue.len() > 0
                &&& self.sink_worker.state == WorkerState::Running
                &&& now.wf()
            },
            Step::QueueClosed => self.queue.len() == 0 && self.producers_gone(),
            Step::SinkCancelled => self.cancelled,
            Step::Cancel => true,
        }
    }

    /// The pipeline after subscriber `channel` has taken `event`.
    pub open spec fn subscriber_step(self, channel: int, event: SubscriberEvent) -> Pipeline {
        let sub = self.subscribers[channel];
        let (state, action) = subscriber_next(sub.state, event);
        let subscribers = self.subscribers.update(
            channel,
            Subscriber { channel: sub.channel, state },
        );
        match event {
            SubscriberEvent::Message(message) => Pipeline {
                subscribers,
                delivered: self.delivered.update(channel, self.delivered[channel].push(message)),
                queue: match action {
                    SubscriberAction::Forward(m) => self.queue.push(
                        Routed { channel, index: self.delivered[channel].len() as int, message: m },
                    ),
                    _ => self.queue,
                },
                ..self
            },
            _ => Pipeline { subscribers, ..self },
        }
    }

    /// The pipeline after the sink writer has taken `event`, where `accepted`
    /// tells whether the sink takes what the writer appends.
    pub open spec fn sink_step(self, event: SinkEvent, accepted: bool) -> Pipeline {
        let (state, effect) = sink_next(self.sink_worker, event);
        let sink_worker = SinkWorker { writer: self.sink_worker.writer, state };
        match event {
            SinkEvent::Message(message, now) => {
                let head = self.queue[0];
                match effect {
                    SinkEffect::Append(bytes) => if accepted {
                        Pipeline {
                            queue: self.queue.drop_first(),
                            sink_worker,
                            sink: self.sink + bytes,
                            written: self.written.push(Written { route: head, at: now }),
                            ..self
                        }
                    } else {
                        Pipeline {
                            queue: self.queue.drop_first(),
                            sink_worker: SinkWorker {
                                writer: sink_worker.writer,
                                state: sink_next(sink_worker, SinkEvent::WriteFailed).0,
                            },
                            ..self
                        }
                    },
                    _ => Pipeline { queue: self.queue.drop_first(), sink_worker, ..self },
                }
            },
            _ => Pipeline { sink_worker, ..self },
        }
    }

    /// The pipeline after `step`; a step that cannot happen changes nothing.
    pub open spec fn next(self, step: Step) -> Pipeline {
        if !self.enabled(step) {
            self
        } else {
            match step {
                Step::Deliver { channel, message } => self.subscriber_step(
                    channel,
                    SubscriberEvent::Message(message),
                ),
                Step::StreamClosed { channel } => self.subscriber_step(
                    channel,
                    SubscriberEvent::StreamClosed,
                ),
                Step::SubscriberCancelled { channel } => self.subscriber_step(
                    channel,
                    SubscriberEvent::Cancelled,
                ),
                Step::Dequeue { now, accepted } => self.sink_step(
                    SinkEvent::Message(self.queue[0].message, now),
                    accepted,
                ),
                Step::QueueClosed => self.sink_step(SinkEvent::QueueClosed, true),
                Step::SinkCancelled => self.sink_step(SinkEvent::Cancelled, true),
                Step::Cancel => Pipeline { cancelled: true, ..self },
            }
        }
    }

    /// The pipeline after `steps`, taken in order.
    pub open spec fn run(self, steps: Seq<Step>) -> Pipeline
        decreases steps.len(),
    {
        if steps.len() == 0 {
            self
        } else {
            self.run(steps.drop_last()).next(steps.last())
        }
    }

    /// Whether `r` is a message that its channel delivered, at its place.
    pub open spec fn routed_from_delivery(self, r: Routed) -> bool {
        &&& self.has_channel(r.channel)
        &&& 0 <= r.index < self.delivered[r.channel].len()
        &&& self.delivered[r.channel][r.index] == r.message
    }

    /// Whether every message in the queue and every written message is one
    /// that its channel delivered.
    pub open spec fn routes_known(self) -> bool {
        &&& forall|k: int|
            0 <= k < self.queue.len() ==> self.routed_from_delivery(#[trigger] self.queue[k])
        &&& forall|k: int|
            0 <= k < self.written.len() ==> self.routed_from_delivery(
                (#[trigger] self.written[k]).route,
            )
    }

    /// Whether the messages of each channel stand in the order in which the
    /// channel delivered them: within the queue, within the written messages,
    /// and every written one before every queued one.
    pub open spec fn ordered(self) -> bool {
        &&& forall|a: int, b: int|
            0 <= a < b < self.queue.len() && (#[trigger] self.queue[a]).channel == (
            #[trigger] self.queue[b]).channel ==> self.queue[a].index < self.queue[b].index
        &&& forall|a: int, b: int|
            0 <= a < b < self.written.len() && (#[trigger] self.written[a]).route.channel == (
            #[trigger] self.written[b]).route.channel ==> self.written[a].route.index
                < self.written[b].route.index
        &&& forall|a: int, b: int|
            0 <= a < self.written.len() && 0 <= b < self.queue.len() && (
            #[trigger] self.written[a]).route.channel == (#[trigger] self.queue[b]).channel
                ==> self.written[a].route.index < self.queue[b].index
    }

    /// Whether the sink holds the global header and then the records of the
    /// written messages, each of which could be framed.
    pub open spec fn sink_framed(self) -> bool {
        &&& forall|k: int|
            0 <= k < self.written.len() ==> self.sink_worker.writer.record(
                (#[trigger] self.written[k]).route.message@,
                self.written[k].at,
            ).is_ok()
        &&& self.sink == header_bytes(self.sink_worker.writer.header) + frames(
            self.sink_worker.writer,
            self.written,
        )
    }

    /// What holds of every state that a run reaches from a start.
    pub open spec fn wf(self) -> bool {
        &&& self.sink_worker.wf()
        &&& self.delivered.len() == self.subscribers.len()
        &&& self.routes_known()
        &&& self.ordered()
        &&& self.sink_framed()
    }
}

/// What a capture is made of: the start that has yet to be made, the
/// workers, the bytes that open the sink, and the controller in charge of the
/// workers.
#[derive(Debug)]
pub struct Capture {
    /// The start, with nothing done yet.
    pub startup: Startup,
    /// One subscriber for each requested channel, in the order requested.
    pub subscribers: Vec<Subscriber>,
    /// The sink writer.
    pub sink_worker: SinkWorker,
    /// The global header, to be written to the sink before anything else.
    pub opening: Vec<u8>,
    /// The lifecycle controller.
    pub controller: Controller,
}

impl Capture {
    /// The pipeline that this capture starts as.
    pub open spec fn pipeline(&self) -> Pipeline {
        Pipeline {
            subscribers: self.subscribers@,
            delivered: Seq::new(self.subscribers@.len(), |i: int| Seq::<InboundMessage>::empty()),
            queue: Seq::empty(),
            sink_worker: self.sink_worker,
            sink: self.opening@,
            written: Seq::empty(),
            cancelled: false,
        }
    }
}

/// Sets a capture up: the start for as many channels as `args.channels`
/// names, one running subscriber for each name, the sink writer for the sink
/// that `args.fifo` chooses, started at `now`, and a controller in charge of
/// all of them.
pub fn capture(args: Cli, now: Timestamp) -> (started: Capture)
    requires
        now.wf(),
        args.channels.len() < usize::MAX,
    ensures
        started.startup == (Startup {
            channels: args.channels.len(),
            stage: StartupStage::Connecting,
        }),
        started.subscribers@ == subscribers_for(args.channels@),
        started.sink_worker.wf(),
        started.sink_worker == (SinkWorker {
            writer: FIFOWriter {
                target: sink_target(args.fifo),
                header: capture_header_for(started.sink_worker.writer.header.endianness),
                startup_time: now,
            },
            state: WorkerState::Running,
        }),
        started.opening@ == header_bytes(started.sink_worker.writer.header),
        started.controller == (Controller {
            phase: Phase::Running,
            pending: (args.channels.len() + 1) as usize,
        }),
        started.pipeline() == Pipeline::init(args.channels@, started.sink_worker),
{
    let workers: usize = args.channels.len() + 1;
    let startup = Startup::new(args.channels.len());
    let subscribers = start_subscribers(args.channels);
    let (writer, opening) = FIFOWriter::new(args.fifo, now);
    let sink_worker = SinkWorker::new(writer);
    let controller = Controller::new(workers);
    Capture { startup, subscribers, sink_worker, opening, controller }
}

/// The start is well formed.
pub proof fn lemma_init_wf(channels: Seq<String>, sink_worker: SinkWorker)
    requires
        sink_worker.wf(),
    ensures
        Pipeline::init(channels, sink_worker).wf(),
{
    let p = Pipeline::init(channels, sink_worker);
    assert(frames(sink_worker.writer, p.written) =~= Seq::<u8>::empty());
    assert(p.sink =~= header_bytes(sink_worker.writer.header) + frames(
        sink_worker.writer,
        p.written,
    ));
}

/// A delivery keeps the pipeline well formed.
proof fn lemma_deliver_wf(p: Pipeline, channel: int, message: InboundMessage)
    requires
        p.wf(),
        p.has_channel(channel),
    ensures
        p.subscriber_step(channel, SubscriberEvent::Message(message)).wf(),
{
    let q = p.subscriber_step(channel, SubscriberEvent::Message(message));
    assert(q.routes_known()) by {
        assert forall|k: int| 0 <= k < q.queue.len() implies q.routed_from_delivery(
            #[trigger] q.queue[k],
        ) by {
            if k < p.queue.len() {
                assert(p.routed_from_delivery(p.queue[k]));
            }
        }
        assert forall|k: int| 0 <= k < q.written.len() implies q.routed_from_delivery(
            (#[trigger] q.written[k]).route,
        ) by {
            assert(p.routed_from_delivery(p.written[k].route));
        }
    }
    assert(q.ordered()) by {
        assert forall|a: int, b: int|
            0 <= a < b < q.queue.len() && (#[trigger] q.queue[a]).channel == (
            #[trigger] q.queue[b]).channel implies q.queue[a].index < q.queue[b].index by {
            assert(p.routed_from_delivery(p.queue[a]));
        }
        assert forall|a: int, b: int|
            0 <= a < q.written.len() && 0 <= b < q.queue.len() && (
            #[trigger] q.written[a]).route.channel == (#[trigger] q.queue[b]).channel
            implies q.written[a].route.index < q.queue[b].index by {
            assert(p.routed_from_delivery(p.written[a].route));
        }
    }
}

/// Taking a message from the queue keeps its messages known and in order.
proof fn lemma_dequeue_order(p: Pipeline, now: Timestamp, accepted: bool)
    requires
        p.wf(),
        p.enabled(Step::Dequeue { now, accepted }),
    ensures
        p.next(Step::Dequeue { now, accepted }).routes_known(),
        p.next(Step::Dequeue { now, accepted }).ordered(),
{
    let q = p.next(Step::Dequeue { now, accepted });
    assert(p.routed_from_delivery(p.queue[0]));
    assert(q.queue == p.queue.drop_first());
    assert(q.written == p.written || q.written == p.written.push(
        Written { route: p.queue[0], at: now },
    ));
    assert(q.delivered == p.delivered && q.subscribers == p.subscribers);
    assert forall|k: int| 0 <= k < q.queue.len() implies q.routed_from_delivery(
        #[trigger] q.queue[k],
    ) by {
        assert(p.routed_from_delivery(p.queue[k + 1]));
    }
    assert forall|k: int| 0 <= k < q.written.len() implies q.routed_from_delivery(
        (#[trigger] q.written[k]).route,
    ) by {
        if k < p.written.len() {
            assert(p.routed_from_delivery(p.written[k].route));
        }
    }
    assert forall|a: int, b: int|
        0 <= a < b < q.queue.len() && (#[trigger] q.queue[a]).channel == (
        #[trigger] q.queue[b]).channel implies q.queue[a].index < q.queue[b].index by {
        assert(q.queue[a] == p.queue[a + 1]);
        assert(q.queue[b] == p.queue[b + 1]);
    }
    assert forall|a: int, b: int|
        0 <= a < b < q.written.len() && (#[trigger] q.written[a]).route.channel == (
        #[trigger] q.written[b]).route.channel implies q.written[a].route.index
        < q.written[b].route.index by {
        if b == p.written.len() {
            assert(q.written[a] == p.written[a]);
        }
    }
    assert forall|a: int, b: int|
        0 <= a < q.written.len() && 0 <= b < q.queue.len() && (
        #[trigger] q.written[a]).route.channel == (#[trigger] q.queue[b]).channel
        implies q.written[a].route.index < q.queue[b].index by {
        assert(q.queue[b] == p.queue[b + 1]);
        if a < p.written.len() {
            assert(q.written[a] == p.written[a]);
        }
    }
}

/// Taking a message from the queue keeps the sink a header and records.
proof fn lemma_dequeue_framed(p: Pipeline, now: Timestamp, accepted: bool)
    requires
        p.wf(),
        p.enabled(Step::Dequeue { now, accepted }),
    ensures
        p.next(Step::Dequeue { now, accepted }).sink_framed(),
        p.next(Step::Dequeue { now, accepted }).sink_worker.writer == p.sink_worker.writer,
        p.next(Step::Dequeue { now, accepted }).subscribers == p.subscribers,
        p.next(Step::Dequeue { now, accepted }).delivered == p.delivered,
{
    let q = p.next(Step::Dequeue { now, accepted });
    let writer = p.sink_worker.writer;
    let head = p.queue[0];
    if accepted {
        if let Ok(bytes) = writer.record(head.message@, now) {
            assert(q.written.drop_last() =~= p.written);
            assert(frames(writer, q.written) == frames(writer, p.written) + bytes);
            assert(q.sink =~= header_bytes(writer.header) + frames(writer, q.written));
        }
    }
}

/// Every step keeps the pipeline well formed.
pub proof fn lemma_next_wf(p: Pipeline, step: Step)
    requires
        p.wf(),
    ensures
        p.next(step).wf(),
{
    if p.enabled(step) {
        match step {
            Step::Deliver { channel, message } => {
                lemma_deliver_wf(p, channel, message);
            },
            Step::Dequeue { now, accepted } => {
                lemma_dequeue_order(p, now, accepted);
                lemma_dequeue_framed(p, now, accepted);
            },
            _ => {},
        }
    }
}

/// Every run from a well-formed state ends in a well-formed state.
pub proof fn lemma_run_wf(p: Pipeline, steps: Seq<Step>)
    requires
        p.wf(),
    ensures
        p.run(steps).wf(),
    decreases steps.len(),
{
    if steps.len() > 0 {
        lemma_run_wf(p, steps.drop_last());
        lemma_next_wf(p.run(steps.drop_last()), steps.last());
    }
}

/// What no step changes: the number of subscribers and their channels, the
/// writer and its header, the bytes already in the sink, a cancellation
/// signal that was given, and the rest of a worker that has stopped.
pub proof fn lemma_next_keeps(p: Pipeline, step: Step)
    ensures
        p.next(step).subscribers.len() == p.subscribers.len(),
        p.cancelled ==> p.next(step).cancelled,
        p.next(step).sink_worker.writer == p.sink_worker.writer,
        p.sink.is_prefix_of(p.next(step).sink),
        p.written.is_prefix_of(p.next(step).written),
        forall|c: int|
            p.has_channel(c) ==> (#[trigger] p.next(step).subscribers[c]).channel
                == p.subscribers[c].channel,
        forall|c: int|
            p.has_channel(c) && p.subscribers[c].state == WorkerState::Stopped ==> (
            #[trigger] p.next(step).subscribers[c]).state == WorkerState::Stopped,
        p.sink_worker.state == WorkerState::Stopped ==> {
            &&& p.next(step).sink_worker.state == WorkerState::Stopped
            &&& p.next(step).sink == p.sink
            &&& p.next(step).written == p.written
        },
{
}

/// What no run changes: as `lemma_next_keeps`, for any number of steps.
pub proof fn lemma_run_keeps(p: Pipeline, steps: Seq<Step>)
    ensures
        p.run(steps).subscribers.len() == p.subscribers.len(),
        p.cancelled ==> p.run(steps).cancelled,
        p.run(steps).sink_worker.writer == p.sink_worker.writer,
        p.sink.is_prefix_of(p.run(steps).sink),
        p.written.is_prefix_of(p.run(steps).written),
        forall|c: int|
            p.has_channel(c) ==> (#[trigger] p.run(steps).subscribers[c]).channel
                == p.subscribers[c].channel,
        forall|c: int|
            p.has_channel(c) && p.subscribers[c].state == WorkerState::Stopped ==> (
            #[trigger] p.run(steps).subscribers[c]).state == WorkerState::Stopped,
        p.sink_worker.state == WorkerState::Stopped ==> {
            &&& p.run(steps).sink_worker.state == WorkerState::Stopped
            &&& p.run(steps).sink == p.sink
            &&& p.run(steps).written == p.written
        },
    decreases steps.len(),
{
    if steps.len() > 0 {
        let before = p.run(steps.drop_last());
        lemma_run_keeps(p, steps.drop_last());
        lemma_next_keeps(before, steps.last());
    }
}

/// One header, then records only: whatever happens after the start, the sink
/// holds the global header once, at its beginning, followed by the records of
/// the messages written, in the order in which they were taken from the
/// queue, and by nothing else.
pub proof fn lemma_one_header(channels: Seq<String>, sink_worker: SinkWorker, steps: Seq<Step>)
    requires
        sink_worker.wf(),
    ensures
        ({
            let end = Pipeline::init(channels, sink_worker).run(steps);
            &&& end.sink == header_bytes(sink_worker.writer.header) + frames(
                sink_worker.writer,
                end.written,
            )
            &&& end.sink.subrange(0, 24) == header_bytes(sink_worker.writer.header)
            &&& forall|k: int|
                0 <= k < end.written.len() ==> sink_worker.writer.record(
                    (#[trigger] end.written[k]).route.message@,
                    end.written[k].at,
                ).is_ok()
        }),
{
    let start = Pipeline::init(channels, sink_worker);
    lemma_init_wf(channels, sink_worker);
    lemma_run_wf(start, steps);
    lemma_run_keeps(start, steps);
    let end = start.run(steps);
    let header = header_bytes(sink_worker.writer.header);
    lemma_header_length(sink_worker.writer.header);
    assert((header + frames(sink_worker.writer, end.written)).subrange(0, 24) =~= header);
}

/// Order within a channel: of two records in the sink that come from the same
/// channel, the earlier one holds the message that the channel delivered
/// earlier, so that no message is written twice; and every record holds a
/// message that its channel delivered.
pub proof fn lemma_channel_order(
    channels: Seq<String>,
    sink_worker: SinkWorker,
    steps: Seq<Step>,
    a: int,
    b: int,
)
    requires
        sink_worker.wf(),
        0 <= a < b < Pipeline::init(channels, sink_worker).run(steps).written.len(),
        Pipeline::init(channels, sink_worker).run(steps).written[a].route.channel
            == Pipeline::init(channels, sink_worker).run(steps).written[b].route.channel,
    ensures
        ({
            let end = Pipeline::init(channels, sink_worker).run(steps);
            &&& end.written[a].route.index < end.written[b].route.index
            &&& end.routed_from_delivery(end.written[a].route)
            &&& end.routed_from_delivery(end.written[b].route)
        }),
{
    let start = Pipeline::init(channels, sink_worker);
    lemma_init_wf(channels, sink_worker);
    lemma_run_wf(start, steps);
}

/// Whether subscriber `channel` looks for the cancellation signal in one of
/// `steps`.
pub open spec fn subscriber_sees_cancel(steps: Seq<Step>, channel: int) -> bool {
    exists|k: int| 0 <= k < steps.len() && steps[k] == (Step::SubscriberCancelled { channel })
}

/// Whether the sink writer looks for the cancellation signal in one of
/// `steps`.
pub open spec fn sink_sees_cancel(steps: Seq<Step>) -> bool {
    exists|k: int| 0 <= k < steps.len() && steps[k] == Step::SinkCancelled
}

/// After the cancellation signal, a subscriber that has come to the point
/// where it looks for the signal has stopped, whatever else happened before
/// or after.
pub proof fn lemma_cancelled_subscriber_stops(p: Pipeline, steps: Seq<Step>, channel: int)
    requires
        p.cancelled,
        p.has_channel(channel),
        subscriber_sees_cancel(steps, channel),
    ensures
        p.run(steps).subscribers[channel].state == WorkerState::Stopped,
    decreases steps.len(),
{
    let k = choose|k: int|
        0 <= k < steps.len() && steps[k] == (Step::SubscriberCancelled { channel });
    let before = p.run(steps.drop_last());
    lemma_run_keeps(p, steps.drop_last());
    lemma_next_keeps(before, steps.last());
    if k < steps.len() - 1 {
        assert(steps.drop_last()[k] == (Step::SubscriberCancelled { channel }));
        lemma_cancelled_subscriber_stops(p, steps.drop_last(), channel);
    }
}

/// After the cancellation signal, a sink writer that has come to the point
/// where it looks for the signal has stopped, whatever else happened before
/// or after.
pub proof fn lemma_cancelled_sink_stops(p: Pipeline, steps: Seq<Step>)
    requires
        p.cancelled,
        sink_sees_cancel(steps),
    ensures
        p.run(steps).sink_worker.state == WorkerState::Stopped,
    decreases steps.len(),
{
    let k = choose|k: int| 0 <= k < steps.len() && steps[k] == Step::SinkCancelled;
    let before = p.run(steps.drop_last());
    lemma_run_keeps(p, steps.drop_last());
    lemma_next_keeps(before, steps.last());
    if k < steps.len() - 1 {
        assert(steps.drop_last()[k] == Step::SinkCancelled);
        lemma_cancelled_sink_stops(p, steps.drop_last());
    }
}

/// Cancellation ends the capture: after the cancellation signal, when every
/// worker has come once to the point where it looks for the signal, in any
/// interleaving with the steps of the others, every worker has stopped. From
/// then on nothing runs again and the sink stays as it is.
pub proof fn lemma_cancellation_terminates(p: Pipeline, steps: Seq<Step>, later: Seq<Step>)
    requires
        p.cancelled,
        forall|c: int| p.has_channel(c) ==> subscriber_sees_cancel(steps, c),
        sink_sees_cancel(steps),
    ensures
        p.run(steps).producers_gone(),
        p.run(steps).sink_worker.state == WorkerState::Stopped,
        p.run(steps).run(later).producers_gone(),
        p.run(steps).run(later).sink_worker.state == WorkerState::Stopped,
        p.run(steps).run(later).sink == p.run(steps).sink,
{
    let end = p.run(steps);
    lemma_run_keeps(p, steps);
    assert forall|c: int| 0 <= c < end.subscribers.len() implies end.subscribers[c].state
        == WorkerState::Stopped by {
        lemma_cancelled_subscriber_stops(p, steps, c);
    }
    lemma_cancelled_sink_stops(p, steps);
    lemma_run_keeps(end, later);
}

/// A failing stream stops its own subscriber and touches nothing else: the
/// other subscribers, the queue, the sink writer and the sink are as before.
pub proof fn lemma_failure_is_contained(p: Pipeline, failed: int)
    requires
        p.has_channel(failed),
    ensures
        ({
            let q = p.next(Step::StreamClosed { channel: failed });
            &&& q.subscribers[failed].state == WorkerState::Stopped
            &&& forall|c: int|
                p.has_channel(c) && c != failed ==> #[trigger] q.subscribers[c] == p.subscribers[c]
            &&& q.subscribers.len() == p.subscribers.len()
            &&& q.delivered == p.delivered
            &&& q.queue == p.queue
            &&& q.sink_worker == p.sink_worker
            &&& q.sink == p.sink
            &&& q.written == p.written
            &&& q.cancelled == p.cancelled
        }),
{
}

/// Whether every one of `steps` is the sink writer taking a message from the
/// queue, at a well-formed reading of the clock.
pub open spec fn all_dequeues(steps: Seq<Step>) -> bool {
    forall|k: int|
        0 <= k < steps.len() ==> (#[trigger] steps[k] matches Step::Dequeue { now, accepted }
            && now.wf())
}

/// A running sink writer that takes no more messages than the queue holds
/// takes them from the front and keeps running.
pub proof fn lemma_dequeues(p: Pipeline, steps: Seq<Step>)
    requires
        p.sink_worker.state == WorkerState::Running,
        all_dequeues(steps),
        steps.len() <= p.queue.len(),
    ensures
        p.run(steps).queue == p.queue.skip(steps.len() as int),
        p.run(steps).sink_worker.state == WorkerState::Running,
        p.run(steps).subscribers == p.subscribers,
        p.run(steps).delivered == p.delivered,
    decreases steps.len(),
{
    if steps.len() == 0 {
        assert(p.queue.skip(0) =~= p.queue);
    } else {
        let earlier = steps.drop_last();
        assert forall|k: int| 0 <= k < earlier.len() implies (
        #[trigger] earlier[k] matches Step::Dequeue { now, accepted } && now.wf()) by {
            assert(earlier[k] == steps[k]);
        }
        lemma_dequeues(p, earlier);
        let before = p.run(earlier);
        assert(steps.last() == steps[steps.len() - 1]);
        assert(before.queue.len() > 0);
        assert(before.queue.drop_first() =~= p.queue.skip(steps.len() as int));
    }
}

/// A message that a running subscriber receives reaches the sink, whatever
/// state the other subscribers are in: once the sink writer has taken the
/// messages queued before it, which may or may not be written, it takes this
/// one, and if its record can be framed and the sink accepts it, the record
/// is the last in the sink.
pub proof fn lemma_delivery_reaches_sink(
    p: Pipeline,
    channel: int,
    message: InboundMessage,
    earlier: Seq<Step>,
    now: Timestamp,
)
    requires
        p.wf(),
        p.has_channel(channel),
        p.subscribers[channel].state == WorkerState::Running,
        p.sink_worker.state == WorkerState::Running,
        all_dequeues(earlier),
        earlier.len() == p.queue.len(),
        now.wf(),
        p.sink_worker.writer.record(message@, now).is_ok(),
    ensures
        ({
            let before = p.next(Step::Deliver { channel, message }).run(earlier);
            let end = before.next(Step::Dequeue { now, accepted: true });
            let route = Routed { channel, index: p.delivered[channel].len() as int, message };
            &&& end.written == before.written.push(Written { route, at: now })
            &&& end.sink == before.sink + p.sink_worker.writer.record(message@, now).unwrap()
            &&& end.wf()
        }),
{
    let queued = p.next(Step::Deliver { channel, message });
    lemma_next_wf(p, Step::Deliver { channel, message });
    lemma_dequeues(queued, earlier);
    lemma_run_wf(queued, earlier);
    lemma_run_keeps(queued, earlier);
    let before = queued.run(earlier);
    assert(before.queue =~= seq![
        Routed { channel, index: p.delivered[channel].len() as int, message },
    ]);
    lemma_next_wf(before, Step::Dequeue { now, accepted: true });
}

/// Fault isolation: when the stream of one subscriber fails, a message that
/// another, running subscriber receives afterwards still reaches the sink, as
/// `lemma_delivery_reaches_sink` says it does without the failure.
pub proof fn lemma_fault_isolation(
    p: Pipeline,
    failed: int,
    channel: int,
    message: InboundMessage,
    earlier: Seq<Step>,
    now: Timestamp,
)
    requires
        p.wf(),
        p.has_channel(failed),
        p.has_channel(channel),
        failed != channel,
        p.subscribers[channel].state == WorkerState::Running,
        p.sink_worker.state == WorkerState::Running,
        all_dequeues(earlier),
        earlier.len() == p.queue.len(),
        now.wf(),
        p.sink_worker.writer.record(message@, now).is_ok(),
    ensures
        ({
            let broken = p.next(Step::StreamClosed { channel: failed });
            let before = broken.next(Step::Deliver { channel, message }).run(earlier);
            let end = before.next(Step::Dequeue { now, accepted: true });
            let route = Routed { channel, index: p.delivered[channel].len() as int, message };
            &&& broken.subscribers[failed].state == WorkerState::Stopped
            &&& end.written == before.written.push(Written { route, at: now })
            &&& end.sink == before.sink + p.sink_worker.writer.record(message@, now).unwrap()
        }),
{
    let broken = p.next(Step::StreamClosed { channel: failed });
    lemma_failure_is_contained(p, failed);
    lemma_next_wf(p, Step::StreamClosed { channel: failed });
    lemma_delivery_reaches_sink(broken, channel, message, earlier, now);
}

/// A record that the sink refuses is lost and nothing else: the sink writer
/// keeps running, the sink is as before, and the queue has lost the one
/// message whose record was refused. The same holds of a message that cannot
/// be framed.
pub proof fn lemma_lost_record_is_skipped(p: Pipeline, now: Timestamp, accepted: bool)
    requires
        p.enabled(Step::Dequeue { now, accepted }),
        !accepted || p.sink_worker.writer.record(p.queue[0].message@, now).is_err(),
    ensures
        ({
            let q = p.next(Step::Dequeue { now, accepted });
            &&& q.sink_worker == p.sink_worker
            &&& q.sink == p.sink
            &&& q.written == p.written
            &&& q.queue == p.queue.drop_first()
            &&& q.subscribers == p.subscribers
            &&& q.delivered == p.delivered
        }),
{
}

impl Pipeline {
    /// Whether the record of the message at place `index` of channel
    /// `channel` is in the sink.
    pub open spec fn is_written(self, channel: int, index: int) -> bool {
        exists|k: int|
            0 <= k < self.written.len() && (#[trigger] self.written[k]).route.channel == channel
                && self.written[k].route.index == index
    }

    /// Whether the message at place `index` of channel `channel` waits in the
    /// queue.
    pub open spec fn is_queued(self, channel: int, index: int) -> bool {
        exists|k: int|
            0 <= k < self.queue.len() && (#[trigger] self.queue[k]).channel == channel
                && self.queue[k].index == index
    }

    /// Whether `step` loses no message: if it is the sink writer taking a
    /// message, the message can be framed and the sink accepts its record.
    pub open spec fn keeps(self, step: Step) -> bool {
        step matches Step::Dequeue { now, accepted } ==> (self.enabled(step) ==> accepted
            && self.sink_worker.writer.record(self.queue[0].message@, now).is_ok())
    }

    /// Whether no step of a run of `steps` from this state loses a message.
    pub open spec fn keeps_all(self, steps: Seq<Step>) -> bool
        decreases steps.len(),
    {
        steps.len() > 0 ==> self.keeps_all(steps.drop_last()) && self.run(
            steps.drop_last(),
        ).keeps(steps.last())
    }

    /// Whether every message that the channel of a running subscriber has
    /// delivered is in the queue or has its record in the sink.
    pub open spec fn lossless(self) -> bool {
        forall|c: int, i: int|
            self.has_channel(c) && self.subscribers[c].state == WorkerState::Running && 0 <= i
                < self.delivered[c].len() ==> #[trigger] self.is_written(c, i)
                || #[trigger] self.is_queued(c, i)
    }
}

/// A message that is in the queue or written stays so when a step that
/// loses no message is taken.
proof fn lemma_next_holds(p: Pipeline, step: Step, c: int, i: int)
    requires
        p.keeps(step),
        p.is_written(c, i) || p.is_queued(c, i),
    ensures
        p.next(step).is_written(c, i) || p.next(step).is_queued(c, i),
{
    let q = p.next(step);
    if p.enabled(step) {
        if p.is_written(c, i) {
            let k = choose|k: int|
                0 <= k < p.written.len() && (#[trigger] p.written[k]).route.channel == c
                    && p.written[k].route.index == i;
            assert(p.written.is_prefix_of(q.written)) by {
                lemma_next_keeps(p, step);
            }
            assert(q.written[k] == p.written[k]);
            assert(q.is_written(c, i));
        } else {
            let k = choose|k: int|
                0 <= k < p.queue.len() && (#[trigger] p.queue[k]).channel == c && p.queue[k].index
                    == i;
            match step {
                Step::Dequeue { now, accepted } => {
                    if k == 0 {
                        let last = q.written.len() - 1;
                        assert(q.written[last].route == p.queue[0]);
                        assert(q.is_written(c, i));
                    } else {
                        assert(q.queue[k - 1] == p.queue[k]);
                        assert(q.is_queued(c, i));
                    }
                },
                _ => {
                    assert(q.queue[k] == p.queue[k]);
                    assert(q.is_queued(c, i));
                },
            }
        }
    }
}

/// A step that loses no message keeps a lossless pipeline lossless.
proof fn lemma_next_lossless(p: Pipeline, step: Step)
    requires
        p.wf(),
        p.lossless(),
        p.keeps(step),
    ensures
        p.next(step).lossless(),
{
    let q = p.next(step);
    lemma_next_keeps(p, step);
    assert forall|c: int, i: int|
        q.has_channel(c) && q.subscribers[c].state == WorkerState::Running && 0 <= i
            < q.delivered[c].len() implies #[trigger] q.is_written(c, i)
        || #[trigger] q.is_queued(c, i) by {
        assert(p.has_channel(c));
        assert(p.subscribers[c].state == WorkerState::Running);
        if i < p.delivered[c].len() {
            assert(p.is_written(c, i) || p.is_queued(c, i));
            lemma_next_holds(p, step, c, i);
        } else {
            assert(step == (Step::Deliver { channel: c, message: step->message }));
            let last = q.queue.len() - 1;
            assert(q.queue[last].channel == c && q.queue[last].index == i);
            assert(q.is_queued(c, i));
        }
    }
}

/// A run that loses no message keeps a lossless pipeline lossless.
proof fn lemma_run_lossless(p: Pipeline, steps: Seq<Step>)
    requires
        p.wf(),
        p.lossless(),
        p.keeps_all(steps),
    ensures
        p.run(steps).lossless(),
        p.run(steps).wf(),
    decreases steps.len(),
{
    if steps.len() > 0 {
        lemma_run_lossless(p, steps.drop_last());
        lemma_next_lossless(p.run(steps.drop_last()), steps.last());
        lemma_next_wf(p.run(steps.drop_last()), steps.last());
    }
}

/// Nothing is lost: in a run from the start in which every message that the
/// sink writer took could be framed and was accepted by the sink, every
/// message that the channel of a still running subscriber has delivered
/// either waits in the queue or has its record in the sink, where it stands
/// once, with the payload delivered, and in the order of delivery. Once the
/// queue is empty, the records of the channel are the messages that the
/// channel delivered, all of them.
pub proof fn lemma_nothing_lost(
    channels: Seq<String>,
    sink_worker: SinkWorker,
    steps: Seq<Step>,
    channel: int,
    index: int,
)
    requires
        sink_worker.wf(),
        Pipeline::init(channels, sink_worker).keeps_all(steps),
        0 <= channel < channels.len(),
        Pipeline::init(channels, sink_worker).run(steps).subscribers[channel].state
            == WorkerState::Running,
        0 <= index < Pipeline::init(channels, sink_worker).run(steps).delivered[channel].len(),
    ensures
        ({
            let end = Pipeline::init(channels, sink_worker).run(steps);
            &&& end.is_written(channel, index) || end.is_queued(channel, index)
            &&& end.queue.len() == 0 ==> end.is_written(channel, index)
            &&& forall|k: int|
                0 <= k < end.written.len() && (#[trigger] end.written[k]).route.channel == channel
                    && end.written[k].route.index == index ==> end.written[k].route.message
                    == end.delivered[channel][index]
            &&& forall|k: int|
                0 <= k < end.queue.len() && (#[trigger] end.queue[k]).channel == channel
                    && end.queue[k].index == index ==> end.queue[k].message
                    == end.delivered[channel][index]
        }),
{
    let start = Pipeline::init(channels, sink_worker);
    lemma_init_wf(channels, sink_worker);
    lemma_run_lossless(start, steps);
    lemma_run_keeps(start, steps);
    let end = start.run(steps);
    assert(end.is_written(channel, index) || end.is_queued(channel, index));
    assert forall|k: int|
        0 <= k < end.written.len() && (#[trigger] end.written[k]).route.channel == channel
            && end.written[k].route.index == index implies end.written[k].route.message
        == end.delivered[channel][index] by {
        assert(end.routed_from_delivery(end.written[k].route));
    }
    assert forall|k: int|
        0 <= k < end.queue.len() && (#[trigger] end.queue[k]).channel == channel
            && end.queue[k].index == index implies end.queue[k].message
        == end.delivered[channel][index] by {
        assert(end.routed_from_delivery(end.queue[k]));
    }
}

impl Pipeline {
    /// Whether `step` is taken by a worker that looks for the cancellation
    /// signal before anything else: once the signal was given, a running
    /// worker takes no message and no end of stream, only the signal.
    pub open spec fn heeds(self, step: Step) -> bool {
        self.cancelled && self.enabled(step) ==> match step {
            Step::Deliver { channel, message } => self.subscribers[channel].state
                == WorkerState::Stopped,
            Step::StreamClosed { channel } => self.subscribers[channel].state
                == WorkerState::Stopped,
            Step::Dequeue { now, accepted } => false,
            Step::QueueClosed => self.sink_worker.state == WorkerState::Stopped,
            _ => true,
        }
    }

    /// Whether every step of a run of `steps` from this state is taken by a
    /// worker that looks for the cancellation signal first.
    pub open spec fn heeds_all(self, steps: Seq<Step>) -> bool
        decreases steps.len(),
    {
        steps.len() > 0 ==> self.heeds_all(steps.drop_last()) && self.run(
            steps.drop_last(),
        ).heeds(steps.last())
    }
}

/// After the cancellation signal, a worker that looks for the signal first
/// stops at its next step, whichever it is, and the step moves no message:
/// the queue and the sink are as before.
pub proof fn lemma_stops_at_next_step(p: Pipeline, step: Step)
    requires
        p.cancelled,
        p.enabled(step),
        p.heeds(step),
    ensures
        ({
            let q = p.next(step);
            &&& q.cancelled
            &&& q.queue == p.queue
            &&& q.sink == p.sink
            &&& q.written == p.written
            &&& step matches Step::Deliver { channel, message } ==> q.subscribers[channel].state
                == WorkerState::Stopped
            &&& step matches Step::StreamClosed { channel } ==> q.subscribers[channel].state
                == WorkerState::Stopped
            &&& step matches Step::SubscriberCancelled { channel } ==> q.subscribers[channel].state
                == WorkerState::Stopped
            &&& (step is QueueClosed || step is SinkCancelled) ==> q.sink_worker.state
                == WorkerState::Stopped
        }),
{
}

/// After the cancellation signal, when the workers look for the signal
/// first, nothing more is taken from a channel or from the queue and nothing
/// more is written: whatever steps follow, the queue and the sink stay as
/// they were when the signal was given.
pub proof fn lemma_nothing_moves_after_cancel(p: Pipeline, steps: Seq<Step>)
    requires
        p.cancelled,
        p.heeds_all(steps),
    ensures
        p.run(steps).cancelled,
        p.run(steps).queue == p.queue,
        p.run(steps).sink == p.sink,
        p.run(steps).written == p.written,
    decreases steps.len(),
{
    if steps.len() > 0 {
        let before = p.run(steps.drop_last());
        lemma_nothing_moves_after_cancel(p, steps.drop_last());
        if before.enabled(steps.last()) {
            lemma_stops_at_next_step(before, steps.last());
        }
    }
}

} // verus!
