//! What a captured Ethernet frame holds, as pnet's packet types read it.

use crate::options::big_endian_16;
use pnet::packet::ethernet::EthernetPacket;
use pnet::packet::ipv4::Ipv4Packet;
use pnet::packet::Packet;
use vstd::prelude::*;

verus! {

/// The length of an Ethernet header.
pub const ETHERNET_HEADER_LEN: usize = 14;

/// The shortest IPv4 packet: a header without options.
pub const IPV4_MIN_LEN: usize = 20;

/// The protocol number of TCP in an IPv4 header.
pub const PROTOCOL_TCP: u8 = 6;

/// The payload of an Ethernet frame: what follows its 14-byte header.
pub open spec fn ethernet_payload_of(frame: Seq<u8>) -> Option<Seq<u8>> {
    if frame.len() >= 14 {
        Some(frame.subrange(14, frame.len() as int))
    } else {
        None
    }
}

/// The payload of an IPv4 packet of at least 20 bytes. It starts behind the
/// header, whose length is the low nibble of byte 0 in 32-bit words and at
/// least 20 bytes. It is as long as the total length (bytes 2 and 3,
/// big-endian) exceeds the declared header length, cut at the end of the
/// packet.
pub open spec fn ipv4_payload_of(packet: Seq<u8>) -> Seq<u8>
    recommends
        packet.len() >= 20,
{
    let header = (packet[0] as int % 16) * 4;
    let start = if header > 20 {
        header
    } else {
        20
    };
    let total = big_endian_16(packet[2], packet[3]);
    let declared = if total > header {
        total - header
    } else {
        0
    };
    let end = if start + declared < packet.len() {
        start + declared
    } else {
        packet.len() as int
    };
    if packet.len() <= start {
        Seq::empty()
    } else {
        packet.subrange(start, end)
    }
}

/// pnet's `EthernetPacket::new` and the `payload` of the packet it gives.
/// `new` refuses a buffer of less than 14 bytes; the payload is everything
/// behind the first 14 bytes.
#[verifier::external_body]
pub(crate) fn ethernet_payload(frame: &[u8]) -> (payload: Option<Vec<u8>>)
    ensures
        payload is Some == ethernet_payload_of(frame@) is Some,
        payload matches Some(p) ==> Some(p@) == ethernet_payload_of(frame@),
{
    match EthernetPacket::new(frame) {
        Some(ethernet) => Some(ethernet.payload().to_vec()),
        None => None,
    }
}

/// pnet's `Ipv4Packet::new` and `get_source`. `new` refuses a buffer of less
/// than 20 bytes; the source address is bytes 12 to 15.
#[verifier::external_body]
pub(crate) fn ipv4_source(packet: &[u8]) -> (octets: Option<[u8; 4]>)
    ensures
        octets is Some == (packet@.len() >= 20),
        octets matches Some(o) ==> o@ == packet@.subrange(12, 16),
{
    match Ipv4Packet::new(packet) {
        Some(ipv4) => Some(ipv4.get_source().octets()),
        None => None,
    }
}

/// pnet's `Ipv4Packet::new` and `get_destination`. `new` refuses a buffer of
/// less than 20 bytes; the destination address is bytes 16 to 19.
#[verifier::external_body]
pub(crate) fn ipv4_destination(packet: &[u8]) -> (octets: Option<[u8; 4]>)
    ensures
        octets is Some == (packet@.len() >= 20),
        octets matches Some(o) ==> o@ == packet@.subrange(16, 20),
{
    match Ipv4Packet::new(packet) {
        Some(ipv4) => Some(ipv4.get_destination().octets()),
        None => None,
    }
}

/// pnet's `Ipv4Packet::new` and `get_next_level_protocol`. `new` refuses a
/// buffer of less than 20 bytes; the protocol number is byte 9.
#[verifier::external_body]
pub(crate) fn ipv4_protocol(packet: &[u8]) -> (protocol: Option<u8>)
    ensures
        protocol is Some == (packet@.len() >= 20),
        protocol matches Some(p) ==> p == packet@[9],
{
    match Ipv4Packet::new(packet) {
        Some(ipv4) => Some(ipv4.get_next_level_protocol().0),
        None => None,
    }
}

/// pnet's `Ipv4Packet::new` and the `payload` of the packet it gives. `new`
/// refuses a buffer of less than 20 bytes.
#[verifier::external_body]
pub(crate) fn ipv4_payload(packet: &[u8]) -> (payload: Option<Vec<u8>>)
    ensures
        payload is Some == (packet@.len() >= 20),
        payload matches Some(p) ==> p@ == ipv4_payload_of(packet@),
{
    match Ipv4Packet::new(packet) {
        Some(ipv4) => Some(ipv4.payload().to_vec()),
        None => None,
    }
}

} // verus!
