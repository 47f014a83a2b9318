//! The capture trace: its file header and the record written for each frame.

use vstd::prelude::*;
use vstd::slice::slice_to_vec;

verus! {

/// The four bytes of `value`, least significant first.
pub open spec fn le32(value: int) -> Seq<u8> {
    seq![
        (value % 256) as u8,
        (value / 256 % 256) as u8,
        (value / 65536 % 256) as u8,
        (value / 16777216 % 256) as u8,
    ]
}

/// The two bytes of `value`, least significant first.
pub open spec fn le16(value: int) -> Seq<u8> {
    seq![(value % 256) as u8, (value / 256 % 256) as u8]
}

/// The header that opens a trace file: magic number, version 2.4, time zone
/// and accuracy zero, a snapshot length of 65535 and Ethernet as link type.
pub open spec fn global_header() -> Seq<u8> {
    le32(0xa1b2c3d4) + le16(2) + le16(4) + le32(0) + le32(0) + le32(65535) + le32(1)
}

/// The header of one record: the capture time in seconds and microseconds,
/// then the captured and the original length of the frame, which are the
/// same here. Seconds count modulo 2^32.
pub open spec fn record_header(packet_length: int, secs: int, micros: int) -> Seq<u8> {
    le32(secs % 0x1_0000_0000) + le32(micros) + le32(packet_length) + le32(packet_length)
}

/// One record of the trace: the record header, then the frame as captured.
/// The lengths in the header count modulo 2^32.
pub open spec fn trace_record_of(frame: Seq<u8>, secs: int, micros: int) -> Seq<u8> {
    record_header(frame.len() as int % 0x1_0000_0000, secs, micros) + frame
}

/// `value` in little-endian byte order.
pub fn u32_le_bytes(value: u32) -> (bytes: [u8; 4])
    ensures
        bytes@ == le32(value as int),
{
    let b0 = (value & 0xff) as u8;
    let b1 = ((value >> 8) & 0xff) as u8;
    let b2 = ((value >> 16) & 0xff) as u8;
    let b3 = ((value >> 24) & 0xff) as u8;
    assert(value & 0xff == value % 256 && (value >> 8) & 0xff == value / 256 % 256 && (value >> 16)
        & 0xff == value / 65536 % 256 && (value >> 24) & 0xff == value / 16777216 % 256)
        by (bit_vector);
    [b0, b1, b2, b3]
}

/// The header that opens a trace file.
pub fn pcap_global_header() -> (header: [u8; 24])
    ensures
        header@ == global_header(),
{
    [
        0xd4, 0xc3, 0xb2, 0xa1,
        0x02, 0x00, 0x04, 0x00,
        0x00, 0x00, 0x00, 0x00,
        0x00, 0x00, 0x00, 0x00,
        0xff, 0xff, 0x00, 0x00,
        0x01, 0x00, 0x00, 0x00,
    ]
}

/// The header of the record for a frame of `packet_length` bytes, captured
/// `secs` seconds and `micros` microseconds after the Unix epoch.
pub fn pcap_packet_header(packet_length: u32, secs: u64, micros: u32) -> (header: [u8; 16])
    ensures
        header@ == record_header(packet_length as int, secs as int, micros as int),
{
    let low_secs: u32 = (secs & 0xffff_ffff) as u32;
    assert(secs & 0xffff_ffff == secs % 0x1_0000_0000) by (bit_vector);
    let s = u32_le_bytes(low_secs);
    let u = u32_le_bytes(micros);
    let l = u32_le_bytes(packet_length);
    [
        s[0], s[1], s[2], s[3],
        u[0], u[1], u[2], u[3],
        l[0], l[1], l[2], l[3],
        l[0], l[1], l[2], l[3],
    ]
}

/// The trace record for one captured frame.
pub fn trace_record(frame: &[u8], secs: u64, micros: u32) -> (record: Vec<u8>)
    ensures
        record@ == trace_record_of(frame@, secs as int, micros as int),
{
    let len = frame.len() as u64;
    let length: u32 = (len & 0xffff_ffff) as u32;
    assert(len & 0xffff_ffff == len % 0x1_0000_0000) by (bit_vector);
    let header = pcap_packet_header(length, secs, micros);
    let mut record = slice_to_vec(header.as_slice());
    record.extend_from_slice(frame);
    assert(record@ =~= header@ + frame@);
    record
}

} // verus!
