use zenoh_extcap::clock::Timestamp;
use zenoh_extcap::format::{
    CaptureHeader, Endianness, LinkType, RecordError, TsResolution,
};
use zenoh_extcap::worker::{InboundMessage, WorkerState};
use zenoh_extcap::writer::{FIFOWriter, SinkAction, SinkEvent, SinkTarget, SinkWorker};

fn message(bytes: &[u8]) -> InboundMessage {
    InboundMessage { payload: bytes.to_vec() }
}

fn at(secs: u64, nanos: u32) -> Timestamp {
    Timestamp::new(secs, nanos).unwrap()
}

fn writer(endianness: Endianness, startup_time: Timestamp) -> FIFOWriter {
    FIFOWriter {
        target: SinkTarget::StdOut,
        header: CaptureHeader {
            version_major: 2,
            version_minor: 4,
            ts_correction: 0,
            ts_accuracy: 0,
            snaplen: 65535,
            datalink: LinkType::Raw,
            ts_resolution: TsResolution::MicroSecond,
            endianness,
        },
        startup_time,
    }
}

#[test]
fn new_writer_without_a_path_goes_to_standard_output() {
    let (w, _) = FIFOWriter::new(None, at(5, 6));
    assert_eq!(w.target, SinkTarget::StdOut);
    assert_eq!(w.startup_time, at(5, 6));
}

#[test]
fn new_writer_with_a_path_goes_to_that_file() {
    let (w, _) = FIFOWriter::new(Some("/tmp/capture.fifo".to_string()), at(0, 0));
    assert_eq!(w.target, SinkTarget::File("/tmp/capture.fifo".to_string()));
}

#[test]
fn new_writer_hands_out_the_global_header() {
    let (w, opening) = FIFOWriter::new(None, at(0, 0));
    assert_eq!(w.header.version_major, 2);
    assert_eq!(w.header.version_minor, 4);
    assert_eq!(w.header.snaplen, 65535);
    assert_eq!(w.header.datalink, LinkType::Raw);
    assert_eq!(w.header.ts_resolution, TsResolution::MicroSecond);
    let expected: Vec<u8> = match w.header.endianness {
        Endianness::Little => vec![
            0xd4, 0xc3, 0xb2, 0xa1, 2, 0, 4, 0, 0, 0, 0, 0, 0, 0, 0, 0, 0xff, 0xff, 0, 0, 0x65, 0,
            0, 0,
        ],
        Endianness::Big => vec![
            0xa1, 0xb2, 0xc3, 0xd4, 0, 2, 0, 4, 0, 0, 0, 0, 0, 0, 0, 0, 0, 0, 0xff, 0xff, 0, 0, 0,
            0x65,
        ],
    };
    assert_eq!(opening, expected);
}

#[test]
fn record_carries_the_time_since_start_in_microseconds() {
    let w = writer(Endianness::Little, at(10, 900_000_000));
    let bytes = w.write_pcap(message(b"xy"), at(12, 100_500_999)).unwrap();
    // 1 s and 200_500_999 ns after the start: 200_500 microseconds are 0x00030f34
    assert_eq!(
        bytes,
        vec![1, 0, 0, 0, 0x34, 0x0f, 0x03, 0x00, 2, 0, 0, 0, 2, 0, 0, 0, b'x', b'y']
    );
}

#[test]
fn record_in_big_endian() {
    let w = writer(Endianness::Big, at(0, 0));
    let bytes = w.write_pcap(message(&[9, 8, 7]), at(258, 1_000)).unwrap();
    assert_eq!(bytes, vec![0, 0, 1, 2, 0, 0, 0, 1, 0, 0, 0, 3, 0, 0, 0, 3, 9, 8, 7]);
}

#[test]
fn record_declares_the_payload_length() {
    let w = writer(Endianness::Little, at(0, 0));
    let payload = vec![0x5au8; 300];
    let bytes = w.write_pcap(InboundMessage { payload: payload.clone() }, at(0, 0)).unwrap();
    assert_eq!(bytes.len(), 316);
    // captured length and declared length: 300 is 0x012c
    assert_eq!(&bytes[8..12], &[0x2c, 0x01, 0, 0]);
    assert_eq!(&bytes[12..16], &[0x2c, 0x01, 0, 0]);
    assert_eq!(&bytes[16..], &payload[..]);
}

#[test]
fn record_of_a_message_taken_before_the_start_has_time_zero() {
    let w = writer(Endianness::Little, at(100, 0));
    let bytes = w.write_pcap(message(b"a"), at(99, 999_999_999)).unwrap();
    assert_eq!(&bytes[..8], &[0u8; 8]);
}

#[test]
fn written_record_of_an_empty_payload() {
    let w = writer(Endianness::Little, at(0, 0));
    assert_eq!(w.write_pcap(message(b""), at(0, 0)).unwrap(), vec![0u8; 16]);
}

#[test]
fn payload_as_long_as_the_snapshot_length_is_framed() {
    let w = writer(Endianness::Little, at(0, 0));
    let bytes = w.write_pcap(InboundMessage { payload: vec![1u8; 65535] }, at(0, 0)).unwrap();
    assert_eq!(bytes.len(), 16 + 65535);
    assert_eq!(&bytes[8..16], &[0xff, 0xff, 0, 0, 0xff, 0xff, 0, 0]);
}

#[test]
fn payload_longer_than_the_snapshot_length_is_framed_whole() {
    let w = writer(Endianness::Little, at(0, 0));
    assert_eq!(w.header.snaplen, 65535);
    let payload: Vec<u8> = (0..65536u32).map(|n| (n % 251) as u8).collect();
    let bytes = w.write_pcap(InboundMessage { payload: payload.clone() }, at(0, 0)).unwrap();
    assert_eq!(bytes.len(), 16 + 65536);
    // captured length and declared length: 65536 is 0x0001_0000
    assert_eq!(&bytes[8..12], &[0, 0, 1, 0]);
    assert_eq!(&bytes[12..16], &[0, 0, 1, 0]);
    assert_eq!(&bytes[16..], &payload[..]);

    let w = writer(Endianness::Big, at(0, 0));
    let payload = vec![0xc3u8; 1_000_000];
    let bytes = w.write_pcap(InboundMessage { payload: payload.clone() }, at(7, 0)).unwrap();
    assert_eq!(bytes.len(), 16 + 1_000_000);
    // 1_000_000 is 0x000f_4240
    assert_eq!(&bytes[..16], &[0, 0, 0, 7, 0, 0, 0, 0, 0, 0x0f, 0x42, 0x40, 0, 0x0f, 0x42, 0x40]);
    assert_eq!(&bytes[16..], &payload[..]);
}

#[test]
fn long_record_is_read_back_whole() {
    let w = writer(Endianness::Little, at(0, 0));
    let payload = vec![0x11u8; 70_000];
    let bytes = w.write_pcap(InboundMessage { payload: payload.clone() }, at(0, 0)).unwrap();
    let (rest, raw) =
        pcap_file::pcap::RawPcapPacket::from_slice::<byteorder::LittleEndian>(&bytes).unwrap();
    assert!(rest.is_empty());
    assert_eq!(raw.incl_len, 70_000);
    assert_eq!(raw.orig_len, 70_000);
    assert_eq!(&raw.data[..], &payload[..]);
}

#[test]
fn capture_older_than_32_bits_of_seconds_is_refused() {
    let w = writer(Endianness::Little, at(1, 0));
    let last = w.write_pcap(message(b"a"), at((1 << 32) + 1, 0));
    assert_eq!(last, Err(RecordError::TimestampOutOfRange));
    let bytes = w.write_pcap(message(b"a"), at(1 << 32, 999_999_999)).unwrap();
    assert_eq!(&bytes[..4], &[0xff, 0xff, 0xff, 0xff]);
}

#[test]
fn new_sink_worker_runs() {
    let worker = SinkWorker::new(writer(Endianness::Big, at(3, 4)));
    assert_eq!(
        worker,
        SinkWorker { writer: writer(Endianness::Big, at(3, 4)), state: WorkerState::Running }
    );
}

#[test]
fn writer_in_a_given_byte_order() {
    let (w, opening) = FIFOWriter::with_endianness(Some("p".to_string()), Endianness::Big, at(3, 4));
    assert_eq!(
        w,
        FIFOWriter {
            target: SinkTarget::File("p".to_string()),
            header: writer(Endianness::Big, at(0, 0)).header,
            startup_time: at(3, 4),
        }
    );
    assert_eq!(
        opening,
        vec![0xa1, 0xb2, 0xc3, 0xd4, 0, 2, 0, 4, 0, 0, 0, 0, 0, 0, 0, 0, 0, 0, 0xff, 0xff, 0, 0, 0, 0x65]
    );
    let (w, opening) = FIFOWriter::with_endianness(None, Endianness::Little, at(0, 1));
    assert_eq!(w, writer(Endianness::Little, at(0, 1)));
    assert_eq!(
        opening,
        vec![0xd4, 0xc3, 0xb2, 0xa1, 2, 0, 4, 0, 0, 0, 0, 0, 0, 0, 0, 0, 0xff, 0xff, 0, 0, 0x65, 0, 0, 0]
    );
}

#[test]
fn sink_worker_frames_each_message() {
    let mut worker = SinkWorker { writer: writer(Endianness::Little, at(0, 0)), state: WorkerState::Running };
    let action = worker.step(SinkEvent::Message(message(b"q"), at(2, 3_000)));
    assert_eq!(action, SinkAction::Append(vec![2, 0, 0, 0, 3, 0, 0, 0, 1, 0, 0, 0, 1, 0, 0, 0, b'q']));
    assert_eq!(worker.state, WorkerState::Running);
}

#[test]
fn sink_worker_reports_what_cannot_be_framed_and_goes_on() {
    let mut worker = SinkWorker { writer: writer(Endianness::Little, at(0, 0)), state: WorkerState::Running };
    let action = worker.step(SinkEvent::Message(message(b"late"), at(1 << 32, 0)));
    assert_eq!(action, SinkAction::Report(RecordError::TimestampOutOfRange));
    assert_eq!(worker.state, WorkerState::Running);
    let action = worker.step(SinkEvent::Message(message(b"ok"), at(0, 0)));
    assert!(matches!(action, SinkAction::Append(_)));
}

#[test]
fn sink_worker_goes_on_after_a_failed_write() {
    let mut worker = SinkWorker { writer: writer(Endianness::Little, at(0, 0)), state: WorkerState::Running };
    assert_eq!(worker.step(SinkEvent::WriteFailed), SinkAction::ReportWriteFailure);
    assert_eq!(worker.state, WorkerState::Running);
    assert!(matches!(worker.step(SinkEvent::Message(message(b"next"), at(1, 0))), SinkAction::Append(_)));
}

#[test]
fn sink_worker_stops_when_the_queue_is_closed() {
    let mut worker = SinkWorker { writer: writer(Endianness::Little, at(0, 0)), state: WorkerState::Running };
    assert_eq!(worker.step(SinkEvent::QueueClosed), SinkAction::Stop);
    assert_eq!(worker.state, WorkerState::Stopped);
}

#[test]
fn sink_worker_stops_on_cancellation() {
    let mut worker = SinkWorker { writer: writer(Endianness::Little, at(0, 0)), state: WorkerState::Running };
    assert_eq!(worker.step(SinkEvent::Cancelled), SinkAction::Stop);
    assert_eq!(worker.state, WorkerState::Stopped);
}

#[test]
fn stopped_sink_worker_frames_nothing() {
    let mut worker = SinkWorker { writer: writer(Endianness::Little, at(0, 0)), state: WorkerState::Running };
    worker.step(SinkEvent::Cancelled);
    assert_eq!(worker.step(SinkEvent::Message(message(b"late"), at(1, 0))), SinkAction::Stop);
    assert_eq!(worker.step(SinkEvent::WriteFailed), SinkAction::Stop);
    assert_eq!(worker.step(SinkEvent::QueueClosed), SinkAction::Stop);
    assert_eq!(worker.step(SinkEvent::Cancelled), SinkAction::Stop);
    assert_eq!(worker.state, WorkerState::Stopped);
    assert_eq!(worker.writer, writer(Endianness::Little, at(0, 0)));
}
