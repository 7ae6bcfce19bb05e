use mce_inventory::models::{Device, ScanRun};
use mce_inventory::time::Timestamp;
use mce_inventory::web::{
    device_status, list_devices, list_devices_at, stats, stats_at, trigger_scan, ApiError, Status,
};

const NOW: Timestamp = Timestamp { secs: 1_700_000_000, nanos: 500 };

fn device(id: i64, first_age: i64, last_age: i64, vendor: Option<&str>) -> Device {
    Device {
        id,
        mac: "aa:bb:cc:dd:ee:ff".to_string(),
        ip: "10.0.0.1".to_string(),
        hostname: Some("host.lan".to_string()),
        vendor: vendor.map(|s| s.to_string()),
        first_seen: Timestamp { secs: NOW.secs - first_age, nanos: NOW.nanos },
        last_seen: Timestamp { secs: NOW.secs - last_age, nanos: NOW.nanos },
        is_online: true,
    }
}

fn sample() -> Vec<Device> {
    vec![
        device(1, 10, 10, Some("Google")),
        device(2, 200_000, 899, Some("")),
        device(3, 86_399, 900, None),
        device(4, 86_400, 900, Some("Apple")),
    ]
}

#[test]
fn online_trumps_new_and_new_trumps_offline() {
    let statuses: Vec<Status> = sample().iter().map(|d| device_status(d, &NOW)).collect();
    assert_eq!(statuses, vec![Status::Online, Status::Online, Status::New, Status::Offline]);
}

#[test]
fn the_online_window_ends_before_fifteen_minutes() {
    let mut d = device(1, 200_000, 900, None);
    assert_eq!(device_status(&d, &NOW), Status::Offline);
    d.last_seen.nanos += 1;
    assert_eq!(device_status(&d, &NOW), Status::Online);
}

#[test]
fn the_new_window_ends_before_a_day() {
    let mut d = device(1, 86_400, 900, None);
    assert_eq!(device_status(&d, &NOW), Status::Offline);
    d.first_seen.nanos += 1;
    assert_eq!(device_status(&d, &NOW), Status::New);
}

#[test]
fn a_device_seen_exactly_fifteen_minutes_ago_is_offline() {
    // 2024-01-02T00:15:00Z; first seen on 2023-12-01, last seen at midnight.
    let now = Timestamp { secs: 1_704_154_500, nanos: 0 };
    let mut d = device(1, 0, 0, None);
    d.first_seen = Timestamp { secs: 1_701_388_800, nanos: 0 };
    d.last_seen = Timestamp { secs: 1_704_153_600, nanos: 0 };
    let views = list_devices_at(vec![d.clone()], &now);
    assert_eq!(views[0].last_seen, "2024-01-02T00:00:00+00:00");
    assert_eq!(views[0].status.as_str(), "offline");
    assert_eq!(stats_at(&vec![d], None, &now).online, 0);
}

#[test]
fn statuses_have_words() {
    assert_eq!(Status::Online.as_str(), "online");
    assert_eq!(Status::New.as_str(), "new");
    assert_eq!(Status::Offline.as_str(), "offline");
}

#[test]
fn the_list_shows_each_device_in_order() {
    let views = list_devices_at(sample(), &NOW);
    assert_eq!(views.len(), 4);
    assert_eq!(views[0].id, 1);
    assert_eq!(views[3].id, 4);
    assert_eq!(views[1].mac, "aa:bb:cc:dd:ee:ff");
    assert_eq!(views[1].ip, "10.0.0.1");
    assert_eq!(views[1].hostname, Some("host.lan".to_string()));
    assert_eq!(views[0].vendor, Some("Google".to_string()));
    assert_eq!(views[0].last_seen, "2023-11-14T22:13:10.000000500+00:00");
    assert_eq!(views[2].first_seen, "2023-11-13T22:13:21.000000500+00:00");
    assert_eq!(views[3].status, Status::Offline);
}

#[test]
fn old_devices_are_offline_by_the_clock() {
    let views = list_devices(sample());
    assert!(views.iter().all(|v| v.status == Status::Offline));
}

#[test]
fn the_statistics_count_devices() {
    let run = ScanRun {
        id: 1,
        started_at: Timestamp { secs: 1_700_000_000, nanos: 0 },
        completed_at: None,
        devices_found: 12,
    };
    let s = stats_at(&sample(), Some(run), &NOW);
    assert_eq!(s.total, 4);
    assert_eq!(s.online, 2);
    assert_eq!(s.new_last_24h, 2);
    assert_eq!(s.unknown_vendor, 2);
    assert_eq!(s.last_scan_started, Some("2023-11-14T22:13:20+00:00".to_string()));
    assert_eq!(s.last_scan_completed, None);
    assert_eq!(s.last_scan_found, Some(12));
}

#[test]
fn the_statistics_agree_with_the_list() {
    let views = list_devices_at(sample(), &NOW);
    let s = stats_at(&sample(), None, &NOW);
    assert_eq!(views.iter().filter(|v| v.status == Status::Online).count(), s.online);
    let new = views.iter().filter(|v| v.status == Status::New).count();
    assert!(new <= s.new_last_24h);
    assert!(s.new_last_24h <= new + s.online);
}

#[test]
fn without_a_scan_there_is_no_last_scan() {
    let s = stats(&vec![], None);
    assert_eq!((s.total, s.online, s.new_last_24h, s.unknown_vendor), (0, 0, 0, 0));
    assert_eq!(s.last_scan_started, None);
    assert_eq!(s.last_scan_completed, None);
    assert_eq!(s.last_scan_found, None);
}

#[test]
fn a_completed_scan_is_shown_with_its_end() {
    let run = ScanRun {
        id: 1,
        started_at: Timestamp { secs: 1_700_000_000, nanos: 0 },
        completed_at: Some(Timestamp { secs: 1_700_000_003, nanos: 0 }),
        devices_found: 0,
    };
    let s = stats(&sample(), Some(run));
    assert_eq!(s.last_scan_completed, Some("2023-11-14T22:13:23+00:00".to_string()));
    assert_eq!(s.last_scan_found, Some(0));
    assert_eq!(s.online, 0);
}

#[test]
fn a_scan_request_is_accepted() {
    let answer = trigger_scan();
    assert_eq!(answer.status, 202);
    assert!(answer.ok);
}

#[test]
fn a_failed_request_is_answered_with_its_error() {
    let reply = ApiError::from("no such table".to_string()).into_response();
    assert_eq!(reply.status, 500);
    assert_eq!(reply.error, "no such table");
}

#[test]
fn an_unseen_device_ages_from_online_to_new_to_offline() {
    let d = device(1, 0, 0, None);
    let later = |secs: i64| Timestamp { secs: NOW.secs + secs, nanos: NOW.nanos };
    assert_eq!(device_status(&d, &later(899)), Status::Online);
    assert_eq!(device_status(&d, &later(900)), Status::New);
    assert_eq!(device_status(&d, &later(86_399)), Status::New);
    assert_eq!(device_status(&d, &later(86_400)), Status::Offline);
}
