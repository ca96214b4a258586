//! Building the broadcast DHCP Discover frame, innermost layer first:
//! DHCP message, UDP datagram, IPv4 packet, Ethernet frame.

use vstd::prelude::*;
use crate::address::HardwareAddress;
use crate::bytes::{append_be16, append_be32, append_bytes, append_zeros, be16, be32, zeros};
use crate::checksum::{
    forge_udp_checksum_for_dhcp_discover, ones_complement_fold, udp_checksum, words_total,
    MAX_UDP_PAYLOAD, UDP_CLIENT_PORT, UDP_HEADER_SIZE, UDP_SERVER_PORT,
};

verus! {

/// Length of the DHCP message.
pub const DHCP_LENGTH: usize = 300;

/// Length of the UDP datagram that carries it.
pub const UDP_LENGTH: usize = 308;

/// Length of the IPv4 packet that carries the datagram.
pub const IP_LENGTH: usize = 328;

/// Length of the whole Ethernet frame.
pub const DHCP_DISCOVER_BUFFER_LENGTH: usize = 342;

/// Checksum of the fixed IPv4 header.
pub const IP_HEADER_CHECKSUM: u16 = 0x3996;

/// The cookie that opens the options region of a DHCP message.
pub const MAGIC_COOKIE: [u8; 4] = [0x63, 0x82, 0x53, 0x63];

/// The host name announced in option 12.
pub const HOST_NAME: [u8; 17] = [
    0x44, 0x43, 0x53, 0x2d, 0x43, 0x59, 0x42, 0x45, 0x52, 0x41, 0x54, 0x54, 0x41, 0x51, 0x55, 0x45,
    0x34,
];

/// The parameters asked for in option 55.
pub const PARAMETER_REQUEST_LIST: [u8; 13] = [
    0x01, 0x1c, 0x02, 0x03, 0x0f, 0x06, 0x77, 0x0c, 0x2c, 0x2f, 0x1a, 0x79, 0x2a,
];

/// The 64-byte options region: cookie, message type Discover, host name,
/// parameter request list, end marker, zero padding.
pub open spec fn discover_options() -> Seq<u8> {
    MAGIC_COOKIE@ + seq![53u8, 1u8, 1u8] + seq![12u8, 17u8] + HOST_NAME@ + seq![55u8, 13u8]
        + PARAMETER_REQUEST_LIST@ + seq![255u8] + zeros(22)
}

/// The 300-byte DHCP Discover message of `mac` with transaction id `xid` and
/// elapsed-seconds field `secs`.
pub open spec fn dhcp_layer(mac: HardwareAddress, xid: u32, secs: u16) -> Seq<u8> {
    seq![1u8, 1u8, 6u8, 0u8] + be32(xid) + be16(secs) + be16(0) + zeros(16) + mac.octets() + zeros(
        10,
    ) + zeros(64) + zeros(128) + discover_options()
}

/// The UDP datagram from port 68 to port 67 that carries `payload`.
pub open spec fn udp_layer(payload: Seq<u8>) -> Seq<u8> {
    be16(UDP_CLIENT_PORT) + be16(UDP_SERVER_PORT) + be16(
        (payload.len() + UDP_HEADER_SIZE as int) as u16,
    ) + be16(udp_checksum(payload) as u16) + payload
}

/// The fixed 20-byte IPv4 header: version 4, five header words, DSCP 4,
/// total length 328, no fragmentation, TTL 128, protocol UDP, from 0.0.0.0 to
/// 255.255.255.255.
pub open spec fn ip_header() -> Seq<u8> {
    seq![0x45u8, 0x10u8] + be16(IP_LENGTH as u16) + be16(0) + be16(0) + seq![128u8, 17u8] + be16(
        IP_HEADER_CHECKSUM,
    ) + zeros(4) + seq![255u8, 255u8, 255u8, 255u8]
}

/// The IPv4 packet that carries `payload` behind the fixed header.
pub open spec fn ip_layer(payload: Seq<u8>) -> Seq<u8> {
    ip_header() + payload
}

/// The Ethernet frame from `mac` to the broadcast address that carries the
/// IPv4 packet `payload`.
pub open spec fn eth_layer(mac: HardwareAddress, payload: Seq<u8>) -> Seq<u8> {
    HardwareAddress::broadcast_spec().octets() + mac.octets() + be16(0x0800) + payload
}

/// The whole Discover frame.
pub open spec fn discover_frame(mac: HardwareAddress, xid: u32, secs: u16) -> Seq<u8> {
    eth_layer(mac, ip_layer(udp_layer(dhcp_layer(mac, xid, secs))))
}

/// Every Discover frame is 342 bytes long: 14 of Ethernet, 20 of IPv4, 8 of
/// UDP and 300 of DHCP.
pub proof fn lemma_frame_lengths(mac: HardwareAddress, xid: u32, secs: u16)
    ensures
        dhcp_layer(mac, xid, secs).len() == DHCP_LENGTH,
        udp_layer(dhcp_layer(mac, xid, secs)).len() == UDP_LENGTH,
        ip_layer(udp_layer(dhcp_layer(mac, xid, secs))).len() == IP_LENGTH,
        discover_frame(mac, xid, secs).len() == DHCP_DISCOVER_BUFFER_LENGTH,
{
}

/// The constant in the IPv4 header is the one's-complement checksum of the
/// header: the complement of the folded sum of its ten words, the checksum
/// field taken as zero.
pub proof fn lemma_ip_header_checksum()
    ensures
        ip_header().len() == 20,
        IP_HEADER_CHECKSUM as int == 0xffff - ones_complement_fold(
            words_total(ip_header().update(10, 0u8).update(11, 0u8), 10),
        ),
{
    let header = ip_header().update(10, 0u8).update(11, 0u8);
    assert(header =~= seq![
        0x45u8, 0x10u8, 0x01u8, 0x48u8, 0u8, 0u8, 0u8, 0u8, 128u8, 17u8,
        0u8, 0u8, 0u8, 0u8, 0u8, 0u8, 255u8, 255u8, 255u8, 255u8,
    ]);
    reveal_with_fuel(words_total, 11);
    assert(words_total(header, 10) == 0x4510 + 0x0148 + 0x8011 + 0xffff + 0xffff);
}

/// Builds the DHCP Discover message.
pub fn forge_dhcp_packet(source_mac: HardwareAddress, xid: u32, secs: u16) -> (packet: Vec<u8>)
    ensures
        packet@ == dhcp_layer(source_mac, xid, secs),
        packet@.len() == DHCP_LENGTH,
{
    let mut packet: Vec<u8> = Vec::new();
    let fixed: [u8; 4] = [1, 1, 6, 0];
    append_bytes(&mut packet, fixed.as_slice());
    append_be32(&mut packet, xid);
    append_be16(&mut packet, secs);
    append_be16(&mut packet, 0);
    append_zeros(&mut packet, 16);
    let octets = source_mac.to_octets();
    append_bytes(&mut packet, octets.as_slice());
    append_zeros(&mut packet, 10);
    append_zeros(&mut packet, 64);
    append_zeros(&mut packet, 128);
    assert(fixed@ =~= seq![1u8, 1u8, 6u8, 0u8]);
    let ghost head = packet@;
    append_bytes(&mut packet, MAGIC_COOKIE.as_slice());
    let message_type: [u8; 3] = [53, 1, 1];
    append_bytes(&mut packet, message_type.as_slice());
    let host_name_head: [u8; 2] = [12, 17];
    append_bytes(&mut packet, host_name_head.as_slice());
    append_bytes(&mut packet, HOST_NAME.as_slice());
    let request_head: [u8; 2] = [55, 13];
    append_bytes(&mut packet, request_head.as_slice());
    append_bytes(&mut packet, PARAMETER_REQUEST_LIST.as_slice());
    packet.push(255);
    append_zeros(&mut packet, 22);
    proof {
        assert(message_type@ =~= seq![53u8, 1u8, 1u8]);
        assert(host_name_head@ =~= seq![12u8, 17u8]);
        assert(request_head@ =~= seq![55u8, 13u8]);
        assert(packet@ =~= head + discover_options());
        lemma_frame_lengths(source_mac, xid, secs);
    }
    packet
}

/// Wraps `payload` in a UDP datagram from port 68 to port 67, with its
/// length and checksum.
pub fn forge_udp_packet(payload: &[u8]) -> (packet: Vec<u8>)
    requires
        payload@.len() <= MAX_UDP_PAYLOAD,
    ensures
        packet@ == udp_layer(payload@),
{
    let mut packet: Vec<u8> = Vec::new();
    let length: u16 = payload.len() as u16 + UDP_HEADER_SIZE;
    let checksum = forge_udp_checksum_for_dhcp_discover(payload);
    append_be16(&mut packet, UDP_CLIENT_PORT);
    append_be16(&mut packet, UDP_SERVER_PORT);
    append_be16(&mut packet, length);
    append_be16(&mut packet, checksum);
    append_bytes(&mut packet, payload);
    packet
}

/// Wraps `payload` in an IPv4 packet behind the fixed header.
pub fn forge_ip_packet(payload: &[u8]) -> (packet: Vec<u8>)
    ensures
        packet@ == ip_layer(payload@),
{
    let mut packet: Vec<u8> = Vec::new();
    packet.push(0x45);
    packet.push(0x10);
    append_be16(&mut packet, IP_LENGTH as u16);
    append_be16(&mut packet, 0);
    append_be16(&mut packet, 0);
    packet.push(128);
    packet.push(17);
    append_be16(&mut packet, IP_HEADER_CHECKSUM);
    append_zeros(&mut packet, 4);
    packet.push(255);
    packet.push(255);
    packet.push(255);
    packet.push(255);
    let ghost head = packet@;
    assert(head =~= ip_header());
    append_bytes(&mut packet, payload);
    packet
}

/// Wraps the IPv4 packet `payload` in an Ethernet frame from `source_mac` to
/// the broadcast address.
pub fn forge_eth_packet(source_mac: HardwareAddress, payload: &[u8]) -> (packet: Vec<u8>)
    ensures
        packet@ == eth_layer(source_mac, payload@),
{
    let mut packet: Vec<u8> = Vec::new();
    let destination = HardwareAddress::broadcast().to_octets();
    let source = source_mac.to_octets();
    append_bytes(&mut packet, destination.as_slice());
    append_bytes(&mut packet, source.as_slice());
    append_be16(&mut packet, 0x0800);
    append_bytes(&mut packet, payload);
    packet
}

/// Builds the whole Discover frame of `source_mac`.
pub fn build_discover_frame(source_mac: HardwareAddress, xid: u32, secs: u16) -> (frame: Vec<u8>)
    ensures
        frame@ == discover_frame(source_mac, xid, secs),
        frame@.len() == DHCP_DISCOVER_BUFFER_LENGTH,
{
    let dhcp = forge_dhcp_packet(source_mac, xid, secs);
    let udp = forge_udp_packet(dhcp.as_slice());
    let ip = forge_ip_packet(udp.as_slice());
    let frame = forge_eth_packet(source_mac, ip.as_slice());
    proof {
        lemma_frame_lengths(source_mac, xid, secs);
    }
    frame
}

/// Writes the Discover frame of `source_mac` over the first 342 bytes of
/// `buffer` and leaves the rest as it was.
pub fn forge_dhcp_discover(source_mac: HardwareAddress, buffer: &mut Vec<u8>, xid: u32, secs: u16)
    requires
        old(buffer)@.len() >= DHCP_DISCOVER_BUFFER_LENGTH,
    ensures
        final(buffer)@ == discover_frame(source_mac, xid, secs) + old(buffer)@.skip(
            DHCP_DISCOVER_BUFFER_LENGTH as int,
        ),
        final(buffer)@.len() == old(buffer)@.len(),
{
    let frame = build_discover_frame(source_mac, xid, secs);
    let mut i: usize = 0;
    while i < DHCP_DISCOVER_BUFFER_LENGTH
        invariant
            i <= DHCP_DISCOVER_BUFFER_LENGTH,
            frame@.len() == DHCP_DISCOVER_BUFFER_LENGTH,
            buffer@.len() == old(buffer)@.len(),
            buffer@.len() >= DHCP_DISCOVER_BUFFER_LENGTH,
            buffer@ =~= frame@.take(i as int) + old(buffer)@.skip(i as int),
        decreases DHCP_DISCOVER_BUFFER_LENGTH - i,
    {
        buffer.set(i, frame[i]);
        i += 1;
    }
    assert(frame@.take(DHCP_DISCOVER_BUFFER_LENGTH as int) =~= frame@);
}

} // verus!
