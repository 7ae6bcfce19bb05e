use mce_inventory::net::{default_subnet, format_ip, format_mac, IpAddr, MacAddr, Subnet};

const LAN: Subnet = Subnet { addr: 0xc0a8_0117, prefix_len: 24 };

#[test]
fn a_network_holds_the_addresses_of_its_prefix() {
    assert!(LAN.contains(0xc0a8_0100));
    assert!(LAN.contains(0xc0a8_01ff));
    assert!(!LAN.contains(0xc0a8_0200));
    assert!(!LAN.contains(0xc0a8_00ff));
}

#[test]
fn the_widest_and_the_narrowest_network() {
    let all = Subnet { addr: 0x0102_0304, prefix_len: 0 };
    assert!(all.contains(0));
    assert!(all.contains(u32::MAX));
    let one = Subnet { addr: 0x0102_0304, prefix_len: 32 };
    assert!(one.contains(0x0102_0304));
    assert!(!one.contains(0x0102_0305));
}

#[test]
fn networks_are_written_in_cidr_notation() {
    assert_eq!(LAN.to_text(), "192.168.1.23/24");
    assert_eq!(Subnet { addr: 0, prefix_len: 0 }.to_text(), "0.0.0.0/0");
}

#[test]
fn the_default_network() {
    assert_eq!(default_subnet(), Subnet { addr: 0xc0a8_0100, prefix_len: 24 });
    assert_eq!(default_subnet().to_text(), "192.168.1.0/24");
}

#[test]
fn addresses_are_written_in_dotted_decimal() {
    assert_eq!(format_ip(0xc0a8_0109), "192.168.1.9");
    assert_eq!(format_ip(0), "0.0.0.0");
    assert_eq!(format_ip(u32::MAX), "255.255.255.255");
    assert_eq!(format_ip(0x0a64_0a01), "10.100.10.1");
}

#[test]
fn macs_are_written_in_canonical_notation() {
    assert_eq!(format_mac(MacAddr(0xaa, 0xbb, 0xcc, 0xdd, 0xee, 0xff)), "aa:bb:cc:dd:ee:ff");
    assert_eq!(format_mac(MacAddr(0, 1, 0x10, 9, 0x0a, 0xa0)), "00:01:10:09:0a:a0");
}

#[test]
fn different_macs_are_written_differently() {
    let a = format_mac(MacAddr(1, 2, 3, 4, 5, 6));
    let b = format_mac(MacAddr(1, 2, 3, 4, 5, 7));
    assert_ne!(a, b);
}

#[test]
fn addresses_of_both_families_differ() {
    assert_ne!(IpAddr::V4(1), IpAddr::V6(1));
}
