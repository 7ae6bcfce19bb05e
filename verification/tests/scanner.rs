use mce_inventory::arp::arp_request;
use mce_inventory::models::ArpHit;
use mce_inventory::net::{IpAddr, MacAddr, Subnet};
use mce_inventory::oui::{LoadEvent, LoadStep, OuiDb};
use mce_inventory::scanner::{
    list_targets, pick_interface, plan_sweep, record_frame, reverse_dns, run_scan_once, sweep_source,
    Interface, Scan, ScanAction, ScanEvent, SweepError, ONLINE_WINDOW_MINUTES,
};

const LAN: Subnet = Subnet { addr: 0xc0a8_0100, prefix_len: 24 };
const MAC: MacAddr = MacAddr(0xb8, 0x27, 0xeb, 1, 2, 3);

fn interface(name: &str, ips: Vec<IpAddr>) -> Interface {
    Interface { name: name.to_string(), loopback: false, up: true, mac: Some(MAC), ips }
}

fn vendors() -> OuiDb {
    match OuiDb::load(LoadEvent::FetchFailed) {
        LoadStep::Ready(db) => db,
        _ => panic!("no table"),
    }
}

fn reply(mac: MacAddr, ip: u32) -> Vec<u8> {
    let mut frame = arp_request(mac, ip, 0);
    frame[21] = 2;
    frame
}

#[test]
fn the_first_interface_in_the_network_is_picked() {
    let inside = IpAddr::V4(0xc0a8_0105);
    let mut down = interface("down", vec![inside]);
    down.up = false;
    let mut lo = interface("lo", vec![inside]);
    lo.loopback = true;
    let mut bare = interface("bare", vec![inside]);
    bare.mac = None;
    let away = interface("away", vec![IpAddr::V4(0x0a00_0001), IpAddr::V6(0xc0a8_0105)]);
    let none = interface("none", vec![]);
    let good = interface("good", vec![IpAddr::V6(7), inside]);
    let list = vec![down, lo, bare, away, none, good.clone(), good];
    assert_eq!(pick_interface(&list, LAN), Some(5));
    assert_eq!(pick_interface(&list[..5].to_vec(), LAN), None);
}

#[test]
fn a_sweep_starts_from_the_first_address_in_the_network() {
    let list = vec![interface(
        "eth0",
        vec![IpAddr::V4(0x0a00_0001), IpAddr::V4(0xc0a8_0109), IpAddr::V4(0xc0a8_0107)],
    )];
    let plan = plan_sweep(&list, LAN).unwrap();
    assert_eq!(plan.interface, 0);
    assert_eq!(plan.src_mac, MAC);
    assert_eq!(plan.src_ip, 0xc0a8_0109);
    assert_eq!(plan.targets.len(), 253);
    assert!(!plan.targets.contains(&0xc0a8_0109));
    assert!(plan.targets.contains(&0xc0a8_0107));
}

#[test]
fn without_an_interface_there_is_no_sweep() {
    let error = plan_sweep(&vec![], LAN).unwrap_err();
    assert!(matches!(error, SweepError::NoInterface));
    assert_eq!(error.message(LAN), "no local interface found inside 192.168.1.0/24");
}

#[test]
fn an_interface_without_addresses_is_no_source() {
    let mut eth0 = interface("eth0", vec![IpAddr::V4(0x0a00_0001)]);
    let error = sweep_source(&eth0, LAN).unwrap_err();
    assert!(matches!(error, SweepError::NoIpv4(_)));
    assert_eq!(error.message(LAN), "interface eth0 has no IPv4 in 192.168.1.0/24");
    eth0.mac = None;
    let error = sweep_source(&eth0, LAN).unwrap_err();
    assert!(matches!(error, SweepError::NoMac(_)));
    assert_eq!(error.message(LAN), "interface eth0 has no MAC address");
}

#[test]
fn network_and_broadcast_addresses_are_not_asked() {
    let net = Subnet { addr: 0x0a00_0005, prefix_len: 29 };
    assert_eq!(
        list_targets(net, 0x0a00_0003),
        vec![0x0a00_0001, 0x0a00_0002, 0x0a00_0004, 0x0a00_0005, 0x0a00_0006]
    );
}

#[test]
fn every_address_of_a_tiny_network_is_a_host() {
    assert_eq!(list_targets(Subnet { addr: 9, prefix_len: 31 }, 0), vec![8, 9]);
    assert_eq!(list_targets(Subnet { addr: 9, prefix_len: 31 }, 9), vec![8]);
    assert_eq!(list_targets(Subnet { addr: 9, prefix_len: 32 }, 0), vec![9]);
    assert_eq!(list_targets(Subnet { addr: 9, prefix_len: 30 }, 0), vec![9, 10]);
}

#[test]
fn the_top_of_the_address_space_is_reached() {
    let net = Subnet { addr: u32::MAX, prefix_len: 30 };
    assert_eq!(list_targets(net, 0), vec![u32::MAX - 2, u32::MAX - 1]);
}

#[test]
fn only_the_first_reply_of_a_mac_counts() {
    let other = MacAddr(1, 1, 1, 1, 1, 1);
    let mut hits: Vec<ArpHit> = Vec::new();
    record_frame(&mut hits, &reply(MAC, 5));
    record_frame(&mut hits, &reply(MAC, 6));
    record_frame(&mut hits, &arp_request(other, 7, 8));
    record_frame(&mut hits, &[1, 2, 3]);
    record_frame(&mut hits, &reply(other, 5));
    assert_eq!(hits, vec![ArpHit { ip: 5, mac: MAC }, ArpHit { ip: 5, mac: other }]);
}

#[test]
fn a_name_that_says_nothing_is_no_name() {
    let ip = 0xc0a8_0105;
    assert_eq!(reverse_dns(ip, Some("printer.lan".to_string())), Some("printer.lan".to_string()));
    assert_eq!(reverse_dns(ip, Some(String::new())), None);
    assert_eq!(reverse_dns(ip, Some("192.168.1.5".to_string())), None);
    assert_eq!(reverse_dns(ip, Some("192.168.1.50".to_string())), Some("192.168.1.50".to_string()));
    assert_eq!(reverse_dns(ip, None), None);
}

#[test]
fn a_scan_runs_to_its_end_though_a_device_cannot_be_saved() {
    let oui = vendors();
    let (mut scan, action) = Scan::begin();
    assert!(matches!(action, ScanAction::StartScan));
    assert!(matches!(run_scan_once(&mut scan, ScanEvent::Started(7), &oui), ScanAction::Sweep));
    let hits = vec![
        ArpHit { ip: 0xc0a8_0105, mac: MAC },
        ArpHit { ip: 0xc0a8_0106, mac: MacAddr(1, 2, 3, 4, 5, 6) },
    ];
    let action = run_scan_once(&mut scan, ScanEvent::Swept(hits), &oui);
    assert!(matches!(action, ScanAction::ResolveName(0xc0a8_0105)));
    match run_scan_once(&mut scan, ScanEvent::NameFound(Some("pi.lan".to_string())), &oui) {
        ScanAction::SaveDevice(update) => {
            assert_eq!(update.mac, "b8:27:eb:01:02:03");
            assert_eq!(update.ip, "192.168.1.5");
            assert_eq!(update.hostname, Some("pi.lan".to_string()));
            assert_eq!(update.vendor, Some("Raspberry Pi Foundation".to_string()));
        }
        _ => panic!("nothing to save"),
    }
    let action = run_scan_once(&mut scan, ScanEvent::SaveDone(false), &oui);
    assert!(matches!(action, ScanAction::ResolveName(0xc0a8_0106)));
    match run_scan_once(&mut scan, ScanEvent::NameFound(None), &oui) {
        ScanAction::SaveDevice(update) => {
            assert_eq!(update.mac, "01:02:03:04:05:06");
            assert_eq!(update.hostname, None);
            assert_eq!(update.vendor, None);
        }
        _ => panic!("nothing to save"),
    }
    let action = run_scan_once(&mut scan, ScanEvent::SaveDone(true), &oui);
    assert!(matches!(action, ScanAction::MarkStale(ONLINE_WINDOW_MINUTES)));
    let action = run_scan_once(&mut scan, ScanEvent::StaleMarked, &oui);
    assert!(matches!(action, ScanAction::FinishScan(7, 2)));
    let action = run_scan_once(&mut scan, ScanEvent::Finished, &oui);
    assert!(matches!(action, ScanAction::Complete(2)));
}

#[test]
fn a_scan_without_answers_marks_stale_devices_at_once() {
    let oui = vendors();
    let (mut scan, _) = Scan::begin();
    run_scan_once(&mut scan, ScanEvent::Started(1), &oui);
    let action = run_scan_once(&mut scan, ScanEvent::Swept(vec![]), &oui);
    assert!(matches!(action, ScanAction::MarkStale(15)));
    let action = run_scan_once(&mut scan, ScanEvent::StaleMarked, &oui);
    assert!(matches!(action, ScanAction::FinishScan(1, 0)));
}

#[test]
fn a_failed_step_ends_the_scan() {
    let oui = vendors();
    let (mut scan, _) = Scan::begin();
    run_scan_once(&mut scan, ScanEvent::Started(1), &oui);
    assert!(matches!(run_scan_once(&mut scan, ScanEvent::Failed, &oui), ScanAction::Abort));
    assert!(matches!(run_scan_once(&mut scan, ScanEvent::StaleMarked, &oui), ScanAction::Abort));
}

#[test]
fn an_event_out_of_turn_ends_the_scan() {
    let oui = vendors();
    let (mut scan, _) = Scan::begin();
    assert!(matches!(run_scan_once(&mut scan, ScanEvent::Finished, &oui), ScanAction::Abort));
}

#[test]
fn every_host_is_asked_once_in_ascending_order() {
    let targets = list_targets(LAN, 0xc0a8_0101);
    assert_eq!(targets.first(), Some(&0xc0a8_0102));
    assert_eq!(targets.last(), Some(&0xc0a8_01fe));
    assert!(targets.windows(2).all(|pair| pair[0] + 1 == pair[1]));
}
