//! The capture-file framing: the global header and the packet records, as the
//! byte sequences that a consumer reads from the sink.

use vstd::prelude::*;
use crate::clock::Timestamp;

verus! {

/// Byte order of the integers in the header and in the record headers.
#[derive(Clone, Copy, Debug, PartialEq, Eq, Structural)]
pub enum Endianness {
    Big,
    Little,
}

/// Unit of the fractional part of a record's timestamp.
#[derive(Clone, Copy, Debug, PartialEq, Eq, Structural)]
pub enum TsResolution {
    MicroSecond,
    NanoSecond,
}

/// What the first byte of a captured payload belongs to.
#[derive(Clone, Copy, Debug, PartialEq, Eq, Structural)]
pub enum LinkType {
    /// Payloads carry no link-layer framing.
    Raw,
}

/// The fields of a capture file's global header.
#[derive(Clone, Copy, Debug, PartialEq, Eq, Structural)]
pub struct CaptureHeader {
    pub version_major: u16,
    pub version_minor: u16,
    pub ts_correction: i32,
    pub ts_accuracy: u32,
    pub snaplen: u32,
    pub datalink: LinkType,
    pub ts_resolution: TsResolution,
    pub endianness: Endianness,
}

/// Why a message could not be framed as a packet record.
#[derive(Clone, Copy, Debug, PartialEq, Eq, Structural)]
pub enum RecordError {
    /// The seconds of the timestamp do not fit in 32 bits.
    TimestampOutOfRange,
    /// The payload's length does not fit in 32 bits.
    PayloadTooLong,
    /// The payload is longer than the header's snapshot length.
    ExceedsSnapLength,
    /// The payload is longer than the length declared for it.
    ExceedsDeclaredLength,
}

/// Length in bytes of the global header.
pub const HEADER_LEN: usize = 24;

/// Length in bytes of the fixed part of a packet record.
pub const RECORD_HEADER_LEN: usize = 16;

/// The two bytes of `v` in the given order.
pub open spec fn u16_bytes(e: Endianness, v: u16) -> Seq<u8> {
    let b0 = (v % 256) as u8;
    let b1 = (v / 256) as u8;
    match e {
        Endianness::Little => seq![b0, b1],
        Endianness::Big => seq![b1, b0],
    }
}

/// The four bytes of `v` in the given order.
pub open spec fn u32_bytes(e: Endianness, v: u32) -> Seq<u8> {
    let b0 = (v % 256) as u8;
    let b1 = (v / 0x100 % 256) as u8;
    let b2 = (v / 0x1_0000 % 256) as u8;
    let b3 = (v / 0x100_0000) as u8;
    match e {
        Endianness::Little => seq![b0, b1, b2, b3],
        Endianness::Big => seq![b3, b2, b1, b0],
    }
}

/// The four bytes of `v` in two's complement, in the given order.
pub open spec fn i32_bytes(e: Endianness, v: i32) -> Seq<u8> {
    u32_bytes(e, (if v >= 0 { v as int } else { v + 0x1_0000_0000 }) as u32)
}

/// The number that opens a capture file and tells its timestamp resolution.
pub open spec fn magic_number(r: TsResolution) -> u32 {
    match r {
        TsResolution::MicroSecond => 0xA1B2_C3D4,
        TsResolution::NanoSecond => 0xA1B2_3C4D,
    }
}

/// The number by which the header names a link type.
pub open spec fn link_type_code(l: LinkType) -> u32 {
    match l {
        LinkType::Raw => 101,
    }
}

/// The global header as it stands at the start of a capture file.
#[verifier::opaque]
pub open spec fn header_bytes(h: CaptureHeader) -> Seq<u8> {
    u32_bytes(h.endianness, magic_number(h.ts_resolution))
        + u16_bytes(h.endianness, h.version_major)
        + u16_bytes(h.endianness, h.version_minor)
        + i32_bytes(h.endianness, h.ts_correction)
        + u32_bytes(h.endianness, h.ts_accuracy)
        + u32_bytes(h.endianness, h.snaplen)
        + u32_bytes(h.endianness, link_type_code(h.datalink))
}

/// The global header is 24 bytes long.
pub proof fn lemma_header_length(h: CaptureHeader)
    ensures
        header_bytes(h).len() == HEADER_LEN,
{
    reveal(header_bytes);
}

/// A record is 16 bytes longer than its payload and ends with the payload,
/// byte for byte.
pub proof fn lemma_record_holds_payload(
    e: Endianness,
    ts_sec: u32,
    ts_frac: u32,
    orig_len: u32,
    data: Seq<u8>,
)
    ensures
        record_bytes(e, ts_sec, ts_frac, orig_len, data).len() == RECORD_HEADER_LEN + data.len(),
        record_bytes(e, ts_sec, ts_frac, orig_len, data).subrange(
            RECORD_HEADER_LEN as int,
            RECORD_HEADER_LEN + data.len() as int,
        ) == data,
{
    reveal(record_bytes);
    let fixed = u32_bytes(e, ts_sec) + u32_bytes(e, ts_frac) + u32_bytes(e, data.len() as u32)
        + u32_bytes(e, orig_len);
    assert(fixed.len() == 16);
    assert((fixed + data).subrange(16, 16 + data.len() as int) =~= data);
}

/// The fractional part of a timestamp, given the nanoseconds of its second.
pub open spec fn ts_fraction(r: TsResolution, nanos: u32) -> u32 {
    match r {
        TsResolution::MicroSecond => nanos / 1000,
        TsResolution::NanoSecond => nanos,
    }
}

/// One packet record: seconds, fraction, captured length, declared length,
/// then the captured bytes.
#[verifier::opaque]
pub open spec fn record_bytes(
    e: Endianness,
    ts_sec: u32,
    ts_frac: u32,
    orig_len: u32,
    data: Seq<u8>,
) -> Seq<u8> {
    u32_bytes(e, ts_sec) + u32_bytes(e, ts_frac) + u32_bytes(e, data.len() as u32) + u32_bytes(
        e,
        orig_len,
    ) + data
}

/// The reason for which a record cannot be framed, if there is one. The
/// checks are made in this order and the first that fails decides.
pub open spec fn record_error(snaplen: u32, secs: u64, orig_len: u32, len: nat) -> Option<
    RecordError,
> {
    if secs > u32::MAX {
        Some(RecordError::TimestampOutOfRange)
    } else if len > u32::MAX {
        Some(RecordError::PayloadTooLong)
    } else if len > snaplen {
        Some(RecordError::ExceedsSnapLength)
    } else if len > orig_len {
        Some(RecordError::ExceedsDeclaredLength)
    } else {
        None
    }
}

/// `pcap_file::PcapError`, the error of the capture-format crate. Nothing is
/// read from a value of it.
#[verifier::external_type_specification]
#[verifier::external_body]
pub struct ExPcapError(pcap_file::PcapError);

/// `pcap_file::Endianness::native`: the byte order of the machine that runs
/// the program. Nothing is claimed of which of the two it is.
#[verifier::external_body]
fn native_endianness() -> (e: Endianness) {
    match pcap_file::Endianness::native() {
        pcap_file::Endianness::Big => Endianness::Big,
        pcap_file::Endianness::Little => Endianness::Little,
    }
}

/// `pcap_file::pcap::PcapHeader::write_to` on an empty byte vector. The
/// claim: it appends the magic number of the resolution, the two version
/// numbers, the correction, the accuracy, the snapshot length and the link
/// type's number, each in the header's byte order, and writing to a vector
/// does not fail.
#[verifier::external_body]
fn write_header(h: &CaptureHeader) -> (out: Vec<u8>)
    ensures
        out@ == header_bytes(*h),
{
    let header = pcap_file::pcap::PcapHeader {
        version_major: h.version_major,
        version_minor: h.version_minor,
        ts_correction: h.ts_correction,
        ts_accuracy: h.ts_accuracy,
        snaplen: h.snaplen,
        datalink: match h.datalink { LinkType::Raw => pcap_file::DataLink::RAW },
        ts_resolution: match h.ts_resolution { TsResolution::MicroSecond => pcap_file::TsResolution::MicroSecond, TsResolution::NanoSecond => pcap_file::TsResolution::NanoSecond },
        endianness: match h.endianness { Endianness::Big => pcap_file::Endianness::Big, Endianness::Little => pcap_file::Endianness::Little },
    };
    let mut out = Vec::new();
    let _ = header.write_to(&mut out);
    out
}

/// `pcap_file::pcap::PcapPacket::new` and then `PcapPacket::write_to` on an
/// empty byte vector, with a timestamp of `secs` seconds and `nanos`
/// nanoseconds. The claim: it fails exactly when one of the checks of
/// `record_error` fails, and otherwise appends the seconds, the fraction in
/// the given resolution, the payload's length and the declared length, each
/// in the given byte order, and then the payload.
#[verifier::external_body]
fn write_packet(
    e: Endianness,
    r: TsResolution,
    snaplen: u32,
    secs: u64,
    nanos: u32,
    orig_len: u32,
    data: &[u8],
) -> (out: Result<Vec<u8>, pcap_file::PcapError>)
    requires
        nanos < 1_000_000_000,
    ensures
        out.is_ok() <==> record_error(snaplen, secs, orig_len, data@.len()).is_none(),
        out matches Ok(bytes) ==> bytes@ == record_bytes(
            e,
            secs as u32,
            ts_fraction(r, nanos),
            orig_len,
            data@,
        ),
{
    let packet = pcap_file::pcap::PcapPacket::new(std::time::Duration::new(secs, nanos), orig_len, data);
    let res = match r { TsResolution::MicroSecond => pcap_file::TsResolution::MicroSecond, TsResolution::NanoSecond => pcap_file::TsResolution::NanoSecond };
    let mut out = Vec::new();
    let written = match e {
        Endianness::Big => packet.write_to::<Vec<u8>, byteorder::BigEndian>(&mut out, res, snaplen),
        Endianness::Little => packet.write_to::<Vec<u8>, byteorder::LittleEndian>(&mut out, res, snaplen),
    };
    written.map(|_| out)
}

/// The header that every capture of this program starts with: format version
/// 2.4, no correction, raw link type, microsecond timestamps, snapshot length
/// 65535, in the given byte order.
pub open spec fn capture_header_for(e: Endianness) -> CaptureHeader {
    CaptureHeader {
        version_major: 2,
        version_minor: 4,
        ts_correction: 0,
        ts_accuracy: 0,
        snaplen: 65535,
        datalink: LinkType::Raw,
        ts_resolution: TsResolution::MicroSecond,
        endianness: e,
    }
}

impl CaptureHeader {
    /// The fixed capture header in the given byte order.
    pub fn fixed(endianness: Endianness) -> (h: CaptureHeader)
        ensures
            h == capture_header_for(endianness),
    {
        CaptureHeader {
            version_major: 2,
            version_minor: 4,
            ts_correction: 0,
            ts_accuracy: 0,
            snaplen: 65535,
            datalink: LinkType::Raw,
            ts_resolution: TsResolution::MicroSecond,
            endianness,
        }
    }
}

/// The fixed capture header, in the byte order of the machine that runs the
/// program. Which of the two orders that is, is not stated.
pub fn capture_header() -> (h: CaptureHeader)
    ensures
        h == capture_header_for(h.endianness),
{
    CaptureHeader::fixed(native_endianness())
}

/// Frames the global header.
pub fn encode_header(h: &CaptureHeader) -> (out: Vec<u8>)
    ensures
        out@ == header_bytes(*h),
        out@.len() == HEADER_LEN,
{
    proof {
        lemma_header_length(*h);
    }
    write_header(h)
}

/// The error that `record_error` names, for inputs on which there is one.
fn classify(snaplen: u32, secs: u64, orig_len: u32, len: usize) -> (err: RecordError)
    requires
        record_error(snaplen, secs, orig_len, len as nat).is_some(),
    ensures
        record_error(snaplen, secs, orig_len, len as nat) == Some(err),
{
    if secs > 0xffff_ffff {
        RecordError::TimestampOutOfRange
    } else if len > 0xffff_ffff {
        RecordError::PayloadTooLong
    } else if len > snaplen as usize {
        RecordError::ExceedsSnapLength
    } else {
        RecordError::ExceedsDeclaredLength
    }
}

/// Frames one packet record under header `h`: a payload `data` captured at
/// the time `at` into the capture, with `orig_len` as its declared length.
pub fn encode_record(h: &CaptureHeader, at: Timestamp, orig_len: u32, data: &[u8]) -> (out: Result<
    Vec<u8>,
    RecordError,
>)
    requires
        at.wf(),
    ensures
        match record_error(h.snaplen, at.secs, orig_len, data@.len()) {
            Some(err) => out == Err::<Vec<u8>, RecordError>(err),
            None => out matches Ok(bytes) && bytes@ == record_bytes(
                h.endianness,
                at.secs as u32,
                ts_fraction(h.ts_resolution, at.nanos),
                orig_len,
                data@,
            ) && bytes@.len() == RECORD_HEADER_LEN + data@.len(),
        },
{
    proof {
        lemma_record_holds_payload(
            h.endianness,
            at.secs as u32,
            ts_fraction(h.ts_resolution, at.nanos),
            orig_len,
            data@,
        );
    }
    match write_packet(h.endianness, h.ts_resolution, h.snaplen, at.secs, at.nanos, orig_len, data) {
        Ok(bytes) => Ok(bytes),
        Err(_) => Err(classify(h.snaplen, at.secs, orig_len, data.len())),
    }
}

} // verus!
