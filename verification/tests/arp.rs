use mce_inventory::arp::{
    arp_request, parse_arp_reply, ETHERTYPE_ARP, ETHERTYPE_IPV4, HARDWARE_ETHERNET,
    OPERATION_REPLY, OPERATION_REQUEST,
};
use mce_inventory::models::ArpHit;
use mce_inventory::net::MacAddr;
use pnet::packet::arp::{ArpHardwareTypes, ArpOperations};
use pnet::packet::ethernet::EtherTypes;

const MAC: MacAddr = MacAddr(0x02, 0x11, 0x22, 0x33, 0x44, 0x55);

fn reply() -> Vec<u8> {
    let mut frame = arp_request(MAC, 0x0a00_0102, 0x0a00_01fe);
    frame[20] = 0;
    frame[21] = 2;
    frame
}

#[test]
fn the_codes_are_those_of_the_packet_library() {
    assert_eq!(ETHERTYPE_ARP, EtherTypes::Arp.0);
    assert_eq!(ETHERTYPE_IPV4, EtherTypes::Ipv4.0);
    assert_eq!(HARDWARE_ETHERNET, ArpHardwareTypes::Ethernet.0);
    assert_eq!(OPERATION_REQUEST, ArpOperations::Request.0);
    assert_eq!(OPERATION_REPLY, ArpOperations::Reply.0);
}

#[test]
fn a_request_frame_octet_by_octet() {
    let frame = arp_request(MAC, 0x0a00_0102, 0x0a00_01fe);
    let expected: Vec<u8> = vec![
        0xff, 0xff, 0xff, 0xff, 0xff, 0xff, // destination
        0x02, 0x11, 0x22, 0x33, 0x44, 0x55, // source
        0x08, 0x06, // ARP
        0x00, 0x01, // Ethernet
        0x08, 0x00, // IPv4
        6, 4, // address lengths
        0x00, 0x01, // request
        0x02, 0x11, 0x22, 0x33, 0x44, 0x55, // sender MAC
        10, 0, 1, 2, // sender address
        0, 0, 0, 0, 0, 0, // target MAC
        10, 0, 1, 254, // target address
    ];
    assert_eq!(frame, expected);
}

#[test]
fn a_reply_announces_its_sender() {
    assert_eq!(parse_arp_reply(&reply()), Some(ArpHit { ip: 0x0a00_0102, mac: MAC }));
}

#[test]
fn padding_after_a_reply_is_ignored() {
    let mut frame = reply();
    frame.resize(60, 0);
    assert_eq!(parse_arp_reply(&frame), Some(ArpHit { ip: 0x0a00_0102, mac: MAC }));
}

#[test]
fn a_request_is_no_reply() {
    assert_eq!(parse_arp_reply(&arp_request(MAC, 1, 2)), None);
}

#[test]
fn other_ethertypes_are_no_replies() {
    let mut frame = reply();
    frame[12] = 0x86;
    frame[13] = 0xdd;
    assert_eq!(parse_arp_reply(&frame), None);
}

#[test]
fn short_frames_are_no_replies() {
    assert_eq!(parse_arp_reply(&[]), None);
    assert_eq!(parse_arp_reply(&reply()[..13]), None);
    assert_eq!(parse_arp_reply(&reply()[..14]), None);
    assert_eq!(parse_arp_reply(&reply()[..41]), None);
}
