//! ARP over Ethernet: the request frames of a sweep and the replies to it.
//!
//! The fields are read and written by `pnet`; each accessor below states which
//! octets of the frame it touches.

use vstd::prelude::*;
use pnet::packet::arp::{ArpHardwareType, ArpOperation, ArpPacket, MutableArpPacket};
use pnet::packet::ethernet::{EtherType, EthernetPacket, MutableEthernetPacket};
use pnet::packet::{MutablePacket, Packet};
use crate::models::ArpHit;
use crate::net::{octet, MacAddr};

verus! {

/// The length of an Ethernet header.
pub const ETHERNET_HEADER: usize = 14;

/// The length of an ARP packet for IPv4 over Ethernet.
pub const ARP_PACKET: usize = 28;

/// The EtherType of ARP.
pub const ETHERTYPE_ARP: u16 = 0x0806;

/// The EtherType of IPv4.
pub const ETHERTYPE_IPV4: u16 = 0x0800;

/// The ARP hardware type of Ethernet.
pub const HARDWARE_ETHERNET: u16 = 1;

/// The ARP operation of a request.
pub const OPERATION_REQUEST: u16 = 1;

/// The ARP operation of a reply.
pub const OPERATION_REPLY: u16 = 2;

// ---- octets ----

/// The number that two octets spell, the higher one first.
pub open spec fn be16(high: u8, low: u8) -> u16 {
    (high * 0x100 + low) as u16
}

/// The octets of a 16-bit number, the higher one first.
pub open spec fn be16_octets(n: u16) -> Seq<u8> {
    seq![(n / 0x100) as u8, (n % 0x100) as u8]
}

/// The IPv4 address that four octets spell.
pub open spec fn be32(a: u8, b: u8, c: u8, d: u8) -> u32 {
    (a * 0x100_0000 + b * 0x1_0000 + c * 0x100 + d) as u32
}

/// The four octets of an IPv4 address.
pub open spec fn ip_octets(ip: u32) -> Seq<u8> {
    seq![octet(ip, 0) as u8, octet(ip, 1) as u8, octet(ip, 2) as u8, octet(ip, 3) as u8]
}

/// `s` with `bytes` written over it from position `at` on.
pub open spec fn overwritten(s: Seq<u8>, at: int, bytes: Seq<u8>) -> Seq<u8> {
    Seq::new(
        s.len(),
        |i: int|
            if at <= i < at + bytes.len() {
                bytes[i - at]
            } else {
                s[i]
            },
    )
}

// ---- what pnet writes ----

/// `MutableEthernetPacket::set_destination`: octets 0 to 5 of the frame.
#[verifier::external_body]
fn set_destination(frame: &mut Vec<u8>, mac: MacAddr)
    requires
        old(frame).len() >= ETHERNET_HEADER,
    ensures
        final(frame)@ == overwritten(old(frame)@, 0, mac.octets()),
{
    let mac = pnet::util::MacAddr(mac.0, mac.1, mac.2, mac.3, mac.4, mac.5);
    MutableEthernetPacket::new(frame).unwrap().set_destination(mac);
}

/// `MutableEthernetPacket::set_source`: octets 6 to 11 of the frame.
#[verifier::external_body]
fn set_source(frame: &mut Vec<u8>, mac: MacAddr)
    requires
        old(frame).len() >= ETHERNET_HEADER,
    ensures
        final(frame)@ == overwritten(old(frame)@, 6, mac.octets()),
{
    let mac = pnet::util::MacAddr(mac.0, mac.1, mac.2, mac.3, mac.4, mac.5);
    MutableEthernetPacket::new(frame).unwrap().set_source(mac);
}

/// `MutableEthernetPacket::set_ethertype`: octets 12 and 13 of the frame, the
/// higher one first.
#[verifier::external_body]
fn set_ethertype(frame: &mut Vec<u8>, ethertype: u16)
    requires
        old(frame).len() >= ETHERNET_HEADER,
    ensures
        final(frame)@ == overwritten(old(frame)@, 12, be16_octets(ethertype)),
{
    MutableEthernetPacket::new(frame).unwrap().set_ethertype(EtherType(ethertype));
}

/// `MutableArpPacket::set_hardware_type`: octets 0 and 1 of the payload.
#[verifier::external_body]
fn set_hardware_type(frame: &mut Vec<u8>, hardware_type: u16)
    requires
        old(frame).len() >= ETHERNET_HEADER + ARP_PACKET,
    ensures
        final(frame)@ == overwritten(old(frame)@, 14, be16_octets(hardware_type)),
{
    let mut eth = MutableEthernetPacket::new(frame).unwrap();
    let mut arp = MutableArpPacket::new(eth.payload_mut()).unwrap();
    arp.set_hardware_type(ArpHardwareType(hardware_type));
}

/// `MutableArpPacket::set_protocol_type`: octets 2 and 3 of the payload.
#[verifier::external_body]
fn set_protocol_type(frame: &mut Vec<u8>, protocol_type: u16)
    requires
        old(frame).len() >= ETHERNET_HEADER + ARP_PACKET,
    ensures
        final(frame)@ == overwritten(old(frame)@, 16, be16_octets(protocol_type)),
{
    let mut eth = MutableEthernetPacket::new(frame).unwrap();
    let mut arp = MutableArpPacket::new(eth.payload_mut()).unwrap();
    arp.set_protocol_type(EtherType(protocol_type));
}

/// `MutableArpPacket::set_hw_addr_len`: octet 4 of the payload.
#[verifier::external_body]
fn set_hw_addr_len(frame: &mut Vec<u8>, len: u8)
    requires
        old(frame).len() >= ETHERNET_HEADER + ARP_PACKET,
    ensures
        final(frame)@ == overwritten(old(frame)@, 18, seq![len]),
{
    let mut eth = MutableEthernetPacket::new(frame).unwrap();
    let mut arp = MutableArpPacket::new(eth.payload_mut()).unwrap();
    arp.set_hw_addr_len(len);
}

/// `MutableArpPacket::set_proto_addr_len`: octet 5 of the payload.
#[verifier::external_body]
fn set_proto_addr_len(frame: &mut Vec<u8>, len: u8)
    requires
        old(frame).len() >= ETHERNET_HEADER + ARP_PACKET,
    ensures
        final(frame)@ == overwritten(old(frame)@, 19, seq![len]),
{
    let mut eth = MutableEthernetPacket::new(frame).unwrap();
    let mut arp = MutableArpPacket::new(eth.payload_mut()).unwrap();
    arp.set_proto_addr_len(len);
}

/// `MutableArpPacket::set_operation`: octets 6 and 7 of the payload.
#[verifier::external_body]
fn set_operation(frame: &mut Vec<u8>, operation: u16)
    requires
        old(frame).len() >= ETHERNET_HEADER + ARP_PACKET,
    ensures
        final(frame)@ == overwritten(old(frame)@, 20, be16_octets(operation)),
{
    let mut eth = MutableEthernetPacket::new(frame).unwrap();
    let mut arp = MutableArpPacket::new(eth.payload_mut()).unwrap();
    arp.set_operation(ArpOperation(operation));
}

/// `MutableArpPacket::set_sender_hw_addr`: octets 8 to 13 of the payload.
#[verifier::external_body]
fn set_sender_hw_addr(frame: &mut Vec<u8>, mac: MacAddr)
    requires
        old(frame).len() >= ETHERNET_HEADER + ARP_PACKET,
    ensures
        final(frame)@ == overwritten(old(frame)@, 22, mac.octets()),
{
    let mac = pnet::util::MacAddr(mac.0, mac.1, mac.2, mac.3, mac.4, mac.5);
    let mut eth = MutableEthernetPacket::new(frame).unwrap();
    let mut arp = MutableArpPacket::new(eth.payload_mut()).unwrap();
    arp.set_sender_hw_addr(mac);
}

/// `MutableArpPacket::set_sender_proto_addr`: octets 14 to 17 of the payload.
#[verifier::external_body]
fn set_sender_proto_addr(frame: &mut Vec<u8>, ip: u32)
    requires
        old(frame).len() >= ETHERNET_HEADER + ARP_PACKET,
    ensures
        final(frame)@ == overwritten(old(frame)@, 28, ip_octets(ip)),
{
    let mut eth = MutableEthernetPacket::new(frame).unwrap();
    let mut arp = MutableArpPacket::new(eth.payload_mut()).unwrap();
    arp.set_sender_proto_addr(ip.into());
}

/// `MutableArpPacket::set_target_hw_addr`: octets 18 to 23 of the payload.
#[verifier::external_body]
fn set_target_hw_addr(frame: &mut Vec<u8>, mac: MacAddr)
    requires
        old(frame).len() >= ETHERNET_HEADER + ARP_PACKET,
    ensures
        final(frame)@ == overwritten(old(frame)@, 32, mac.octets()),
{
    let mac = pnet::util::MacAddr(mac.0, mac.1, mac.2, mac.3, mac.4, mac.5);
    let mut eth = MutableEthernetPacket::new(frame).unwrap();
    let mut arp = MutableArpPacket::new(eth.payload_mut()).unwrap();
    arp.set_target_hw_addr(mac);
}

/// `MutableArpPacket::set_target_proto_addr`: octets 24 to 27 of the payload.
#[verifier::external_body]
fn set_target_proto_addr(frame: &mut Vec<u8>, ip: u32)
    requires
        old(frame).len() >= ETHERNET_HEADER + ARP_PACKET,
    ensures
        final(frame)@ == overwritten(old(frame)@, 38, ip_octets(ip)),
{
    let mut eth = MutableEthernetPacket::new(frame).unwrap();
    let mut arp = MutableArpPacket::new(eth.payload_mut()).unwrap();
    arp.set_target_proto_addr(ip.into());
}

// ---- what pnet reads ----

/// `EthernetPacket::get_ethertype`: octets 12 and 13, the higher one first;
/// `None` where the frame is shorter than an Ethernet header.
#[verifier::external_body]
fn get_ethertype(frame: &[u8]) -> (ethertype: Option<u16>)
    ensures
        ethertype == if frame@.len() >= ETHERNET_HEADER {
            Some(be16(frame@[12], frame@[13]))
        } else {
            None
        },
{
    let eth = EthernetPacket::new(frame)?;
    Some(eth.get_ethertype().0)
}

/// `EthernetPacket::payload`: what follows the header; `None` where the frame
/// is shorter than an Ethernet header.
#[verifier::external_body]
fn get_payload(frame: &[u8]) -> (payload: Option<Vec<u8>>)
    ensures
        match payload {
            Some(payload) => frame@.len() >= ETHERNET_HEADER && payload@ == frame@.skip(14),
            None => frame@.len() < ETHERNET_HEADER,
        },
{
    let eth = EthernetPacket::new(frame)?;
    Some(eth.payload().to_vec())
}

/// `ArpPacket::get_operation`: octets 6 and 7, the higher one first; `None`
/// where the packet is too short.
#[verifier::external_body]
fn get_operation(packet: &[u8]) -> (operation: Option<u16>)
    ensures
        operation == if packet@.len() >= ARP_PACKET {
            Some(be16(packet@[6], packet@[7]))
        } else {
            None
        },
{
    let arp = ArpPacket::new(packet)?;
    Some(arp.get_operation().0)
}

/// `ArpPacket::get_sender_hw_addr`: octets 8 to 13; `None` where the packet is
/// too short.
#[verifier::external_body]
fn get_sender_hw_addr(packet: &[u8]) -> (mac: Option<MacAddr>)
    ensures
        mac == if packet@.len() >= ARP_PACKET {
            Some(
                MacAddr(packet@[8], packet@[9], packet@[10], packet@[11], packet@[12], packet@[13]),
            )
        } else {
            None
        },
{
    let mac = ArpPacket::new(packet)?.get_sender_hw_addr();
    Some(MacAddr(mac.0, mac.1, mac.2, mac.3, mac.4, mac.5))
}

/// `ArpPacket::get_sender_proto_addr`: octets 14 to 17; `None` where the packet
/// is too short.
#[verifier::external_body]
fn get_sender_proto_addr(packet: &[u8]) -> (ip: Option<u32>)
    ensures
        ip == if packet@.len() >= ARP_PACKET {
            Some(be32(packet@[14], packet@[15], packet@[16], packet@[17]))
        } else {
            None
        },
{
    Some(ArpPacket::new(packet)?.get_sender_proto_addr().into())
}

// ---- requests ----

/// The broadcast frame that asks who has `target`.
pub open spec fn request_frame(src_mac: MacAddr, src_ip: u32, target: u32) -> Seq<u8> {
    MacAddr(0xff, 0xff, 0xff, 0xff, 0xff, 0xff).octets() + src_mac.octets() + be16_octets(
        ETHERTYPE_ARP,
    ) + be16_octets(HARDWARE_ETHERNET) + be16_octets(ETHERTYPE_IPV4) + seq![6u8, 4u8]
        + be16_octets(OPERATION_REQUEST) + src_mac.octets() + ip_octets(src_ip) + MacAddr(
        0,
        0,
        0,
        0,
        0,
        0,
    ).octets() + ip_octets(target)
}

/// Builds the broadcast frame that asks who has `target`.
pub fn arp_request(src_mac: MacAddr, src_ip: u32, target: u32) -> (frame: Vec<u8>)
    ensures
        frame@ == request_frame(src_mac, src_ip, target),
{
    let mut frame: Vec<u8> = vec![0u8; 42];
    set_destination(&mut frame, MacAddr(0xff, 0xff, 0xff, 0xff, 0xff, 0xff));
    set_source(&mut frame, src_mac);
    set_ethertype(&mut frame, ETHERTYPE_ARP);
    set_hardware_type(&mut frame, HARDWARE_ETHERNET);
    set_protocol_type(&mut frame, ETHERTYPE_IPV4);
    set_hw_addr_len(&mut frame, 6);
    set_proto_addr_len(&mut frame, 4);
    set_operation(&mut frame, OPERATION_REQUEST);
    set_sender_hw_addr(&mut frame, src_mac);
    set_sender_proto_addr(&mut frame, src_ip);
    set_target_hw_addr(&mut frame, MacAddr(0, 0, 0, 0, 0, 0));
    set_target_proto_addr(&mut frame, target);
    assert(frame@ =~= request_frame(src_mac, src_ip, target));
    frame
}

// ---- replies ----

/// The sender that a frame announces, where it is an ARP reply.
pub open spec fn reply_hit(frame: Seq<u8>) -> Option<ArpHit> {
    if frame.len() >= ETHERNET_HEADER + ARP_PACKET && be16(frame[12], frame[13]) == ETHERTYPE_ARP
        && be16(frame[20], frame[21]) == OPERATION_REPLY {
        Some(
            ArpHit {
                ip: be32(frame[28], frame[29], frame[30], frame[31]),
                mac: MacAddr(frame[22], frame[23], frame[24], frame[25], frame[26], frame[27]),
            },
        )
    } else {
        None
    }
}

/// If `frame` is an ARP reply, the sender's address and MAC.
pub fn parse_arp_reply(frame: &[u8]) -> (hit: Option<ArpHit>)
    ensures
        hit == reply_hit(frame@),
{
    let ethertype = get_ethertype(frame)?;
    if ethertype != ETHERTYPE_ARP {
        return None;
    }
    let payload = get_payload(frame)?;
    let operation = get_operation(payload.as_slice())?;
    if operation != OPERATION_REPLY {
        return None;
    }
    let ip = get_sender_proto_addr(payload.as_slice())?;
    let mac = get_sender_hw_addr(payload.as_slice())?;
    Some(ArpHit { ip, mac })
}

} // verus!
