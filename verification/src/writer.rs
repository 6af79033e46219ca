//! The sink writer: the one consumer of the fan-in queue. It frames the
//! global header once and then one packet record for each message it takes
//! from the queue. The bytes it returns are what the caller appends to the
//! sink, in the order in which they were returned.

use vstd::prelude::*;
use crate::clock::{elapsed, elapsed_between, Timestamp};
use crate::format::{
    capture_header, capture_header_for, encode_header, encode_record, header_bytes,
    lemma_record_holds_payload, record_bytes, ts_fraction, CaptureHeader, Endianness, RecordError,
};
use crate::worker::{InboundMessage, WorkerState};

verus! {

/// Where the capture goes.
#[derive(Debug, PartialEq, Eq)]
pub enum SinkTarget {
    /// The standard output of the process.
    StdOut,
    /// The file or named pipe at this path, opened for appending.
    File(String),
}

/// The target that the `fifo` option chooses: its path, or standard output
/// without one.
pub open spec fn sink_target(fifo: Option<String>) -> SinkTarget {
    match fifo {
        Some(path) => SinkTarget::File(path),
        None => SinkTarget::StdOut,
    }
}

/// Frames the capture for one sink.
#[derive(Debug, PartialEq, Eq)]
pub struct FIFOWriter {
    pub target: SinkTarget,
    pub header: CaptureHeader,
    pub startup_time: Timestamp,
}

impl FIFOWriter {
    /// The writer's header is the fixed one and its start is a clock reading.
    pub open spec fn wf(&self) -> bool {
        &&& self.startup_time.wf()
        &&& self.header == capture_header_for(self.header.endianness)
    }

    /// The record for `payload` taken from the queue at `now`, or the reason
    /// why there is none. The timestamp is the time since the writer's start;
    /// the captured bytes are the whole payload and the declared length is
    /// the payload's length. Payloads are not capped: only the width of the
    /// record's fields stands in the way, 32 bits for the seconds and 32 bits
    /// for the length.
    pub open spec fn record(&self, payload: Seq<u8>, now: Timestamp) -> Result<
        Seq<u8>,
        RecordError,
    > {
        let since = elapsed_between(self.startup_time, now);
        if since.secs > u32::MAX {
            Err(RecordError::TimestampOutOfRange)
        } else if payload.len() > u32::MAX {
            Err(RecordError::PayloadTooLong)
        } else {
            Ok(
                record_bytes(
                    self.header.endianness,
                    since.secs as u32,
                    ts_fraction(self.header.ts_resolution, since.nanos),
                    payload.len() as u32,
                    payload,
                ),
            )
        }
    }

    /// Makes the writer for the sink that `fifo` chooses, started at `now`,
    /// with the fixed header in the given byte order, and with it the bytes
    /// of that header, which open the sink.
    pub fn with_endianness(fifo: Option<String>, endianness: Endianness, now: Timestamp) -> (made: (
        FIFOWriter,
        Vec<u8>,
    ))
        requires
            now.wf(),
        ensures
            made.0.wf(),
            made.0 == (FIFOWriter {
                target: sink_target(fifo),
                header: capture_header_for(endianness),
                startup_time: now,
            }),
            made.1@ == header_bytes(capture_header_for(endianness)),
    {
        let header = CaptureHeader::fixed(endianness);
        let target = match fifo {
            Some(path) => SinkTarget::File(path),
            None => SinkTarget::StdOut,
        };
        let opening = encode_header(&header);
        (FIFOWriter { target, header, startup_time: now }, opening)
    }

    /// Makes the writer for the sink that `fifo` chooses, started at `now`,
    /// in the byte order of the machine that runs the program, and with it
    /// the bytes of the global header, which open the sink.
    pub fn new(fifo: Option<String>, now: Timestamp) -> (made: (FIFOWriter, Vec<u8>))
        requires
            now.wf(),
        ensures
            made.0.wf(),
            made.0 == (FIFOWriter {
                target: sink_target(fifo),
                header: capture_header_for(made.0.header.endianness),
                startup_time: now,
            }),
            made.1@ == header_bytes(made.0.header),
    {
        let header = capture_header();
        FIFOWriter::with_endianness(fifo, header.endianness, now)
    }

    /// Frames the record for a message taken from the queue at `now`. The
    /// snapshot length that the header announces does not cap the record: it
    /// holds the whole payload.
    pub fn write_pcap(&self, packet: InboundMessage, now: Timestamp) -> (out: Result<
        Vec<u8>,
        RecordError,
    >)
        requires
            self.wf(),
            now.wf(),
        ensures
            match self.record(packet@, now) {
                Ok(bytes) => out matches Ok(framed) && framed@ == bytes,
                Err(err) => out == Err::<Vec<u8>, RecordError>(err),
            },
    {
        let since = elapsed(self.startup_time, now);
        let len: usize = packet.payload.len();
        let declared: u32 = if len <= 0xffff_ffff {
            len as u32
        } else {
            u32::MAX
        };
        let framing = CaptureHeader {
            version_major: self.header.version_major,
            version_minor: self.header.version_minor,
            ts_correction: self.header.ts_correction,
            ts_accuracy: self.header.ts_accuracy,
            snaplen: u32::MAX,
            datalink: self.header.datalink,
            ts_resolution: self.header.ts_resolution,
            endianness: self.header.endianness,
        };
        encode_record(&framing, since, declared, packet.payload.as_slice())
    }
}

/// A payload is framed exactly when its length fits in 32 bits and the
/// capture is younger than 2^32 seconds, whatever the snapshot length of the
/// header. Its record then holds the whole seconds and the microseconds since
/// the start, the payload's length twice, as the captured and as the declared
/// length, and the whole payload at its end.
pub proof fn lemma_record_outcome(w: FIFOWriter, payload: Seq<u8>, now: Timestamp)
    requires
        w.wf(),
    ensures
        ({
            let since = elapsed_between(w.startup_time, now);
            &&& w.record(payload, now).is_ok() <==> (payload.len() <= u32::MAX && since.secs
                <= u32::MAX)
            &&& w.record(payload, now) matches Ok(bytes) ==> {
                &&& bytes == record_bytes(
                    w.header.endianness,
                    since.secs as u32,
                    since.nanos / 1000,
                    payload.len() as u32,
                    payload,
                )
                &&& bytes.len() == 16 + payload.len()
                &&& bytes.subrange(16, 16 + payload.len() as int) == payload
            }
            &&& w.record(payload, now) matches Err(err) ==> err
                == RecordError::TimestampOutOfRange || err == RecordError::PayloadTooLong
        }),
{
    let since = elapsed_between(w.startup_time, now);
    lemma_record_holds_payload(
        w.header.endianness,
        since.secs as u32,
        since.nanos / 1000,
        payload.len() as u32,
        payload,
    );
}

/// What the sink writer finds when it wakes up.
#[derive(Debug, PartialEq, Eq)]
pub enum SinkEvent {
    /// A message was taken from the queue, at this reading of the clock.
    Message(InboundMessage, Timestamp),
    /// The queue is empty and no producer is left.
    QueueClosed,
    /// The cancellation signal was seen.
    Cancelled,
    /// The sink did not take the bytes of the last record.
    WriteFailed,
}

impl SinkEvent {
    /// An event is well formed when the clock reading it carries is.
    pub open spec fn wf(&self) -> bool {
        self matches SinkEvent::Message(_, now) ==> now.wf()
    }
}

/// What the sink writer does next.
#[derive(Debug, PartialEq, Eq)]
pub enum SinkAction {
    /// Append these bytes, one whole record, to the sink and wait again.
    Append(Vec<u8>),
    /// Report that the message cannot be framed, drop it and wait again.
    Report(RecordError),
    /// Report that the sink refused a record and wait again.
    ReportWriteFailure,
    /// End.
    Stop,
}

/// An action of the sink writer, with the bytes as a sequence.
pub enum SinkEffect {
    Append(Seq<u8>),
    Report(RecordError),
    ReportWriteFailure,
    Stop,
}

impl View for SinkAction {
    type V = SinkEffect;

    open spec fn view(&self) -> SinkEffect {
        match self {
            SinkAction::Append(bytes) => SinkEffect::Append(bytes@),
            SinkAction::Report(err) => SinkEffect::Report(*err),
            SinkAction::ReportWriteFailure => SinkEffect::ReportWriteFailure,
            SinkAction::Stop => SinkEffect::Stop,
        }
    }
}

/// The task that empties the queue into the sink.
#[derive(Debug, PartialEq, Eq)]
pub struct SinkWorker {
    pub writer: FIFOWriter,
    pub state: WorkerState,
}

/// The state and the effect that follow from a worker and an event. A running
/// worker frames every message, goes on after a message that cannot be
/// framed and after a write that failed, and stops when the queue is closed
/// or the capture is cancelled; a stopped one frames nothing.
pub open spec fn sink_next(worker: SinkWorker, event: SinkEvent) -> (WorkerState, SinkEffect) {
    match worker.state {
        WorkerState::Stopped => (WorkerState::Stopped, SinkEffect::Stop),
        WorkerState::Running => match event {
            SinkEvent::Message(m, now) => (
                WorkerState::Running,
                match worker.writer.record(m@, now) {
                    Ok(bytes) => SinkEffect::Append(bytes),
                    Err(err) => SinkEffect::Report(err),
                },
            ),
            SinkEvent::QueueClosed => (WorkerState::Stopped, SinkEffect::Stop),
            SinkEvent::Cancelled => (WorkerState::Stopped, SinkEffect::Stop),
            SinkEvent::WriteFailed => (WorkerState::Running, SinkEffect::ReportWriteFailure),
        },
    }
}

impl SinkWorker {
    /// The worker's writer is well formed.
    pub open spec fn wf(&self) -> bool {
        self.writer.wf()
    }

    /// A running worker that frames with `writer`.
    pub fn new(writer: FIFOWriter) -> (worker: SinkWorker)
        ensures
            worker == (SinkWorker { writer, state: WorkerState::Running }),
    {
        SinkWorker { writer, state: WorkerState::Running }
    }

    /// Takes one event and says what to do.
    pub fn step(&mut self, event: SinkEvent) -> (action: SinkAction)
        requires
            old(self).wf(),
            event.wf(),
        ensures
            final(self).writer == old(self).writer,
            (final(self).state, action@) == sink_next(*old(self), event),
    {
        match self.state {
            WorkerState::Stopped => SinkAction::Stop,
            WorkerState::Running => match event {
                SinkEvent::Message(m, now) => match self.writer.write_pcap(m, now) {
                    Ok(bytes) => SinkAction::Append(bytes),
                    Err(err) => SinkAction::Report(err),
                },
                SinkEvent::QueueClosed => {
                    self.state = WorkerState::Stopped;
                    SinkAction::Stop
                },
                SinkEvent::Cancelled => {
                    self.state = WorkerState::Stopped;
                    SinkAction::Stop
                },
                SinkEvent::WriteFailed => SinkAction::ReportWriteFailure,
            },
        }
    }
}

} // verus!
