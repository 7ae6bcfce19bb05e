use mce_inventory::db::{
    finish_scan, finish_scan_at, init, init_in, latest_row, latest_scan, list_devices,
    mark_stale_offline, mark_stale_offline_at, parse_ts, read_device, read_scan, sort_newest_first, start_scan, start_scan_at,
    upsert_device, upsert_device_at, DeviceRecord, DeviceRow, ScanRecord, ScanRow,
};
use mce_inventory::time::{Timestamp, YEAR_0_SECS, YEAR_9999_SECS};
use mce_inventory::web::{device_status, Status};

const NOON: Timestamp = Timestamp { secs: 1_700_000_000, nanos: 0 };

fn record(mac: &str, last_seen: &str) -> DeviceRecord {
    DeviceRecord {
        mac: mac.to_string(),
        ip: "10.0.0.1".to_string(),
        hostname: Some("old.lan".to_string()),
        vendor: Some("Google".to_string()),
        first_seen: "2020-01-01T00:00:00+00:00".to_string(),
        last_seen: last_seen.to_string(),
        is_online: 1,
    }
}

fn row(id: i64, last_seen: &str) -> DeviceRow {
    DeviceRow { id, record: record("aa", last_seen) }
}

#[test]
fn the_parent_directory_is_created_first() {
    let setup = init("data/inventory.db");
    assert_eq!(setup.create_dir, Some("data".to_string()));
    assert_eq!(setup.url, "sqlite://data/inventory.db");
    assert_eq!(init("./inventory.db").create_dir, Some(".".to_string()));
    assert_eq!(init("/inventory.db").create_dir, Some("/".to_string()));
    assert_eq!(init("data/inventory.db/").create_dir, Some("data".to_string()));
    assert_eq!(init("/").create_dir, None);
}

#[test]
fn the_working_directory_need_not_be_created() {
    let setup = init("inventory.db");
    assert_eq!(setup.create_dir, None);
    assert_eq!(setup.url, "sqlite://inventory.db");
    assert_eq!(init("").create_dir, None);
    assert_eq!(init_in("x", Some(String::new())).create_dir, None);
    assert_eq!(init_in("d/x", Some("d".to_string())).create_dir, Some("d".to_string()));
    assert_eq!(init_in("x", None).url, "sqlite://x");
}

#[test]
fn timestamps_are_stored_as_rfc3339() {
    let record = start_scan_at(&NOON);
    assert_eq!(record.started_at, "2023-11-14T22:13:20+00:00");
    assert_eq!(record.completed_at, None);
    assert_eq!(record.devices_found, 0);
    let t = Timestamp { secs: 1_700_000_000, nanos: 120_000_000 };
    assert_eq!(start_scan_at(&t).started_at, "2023-11-14T22:13:20.120+00:00");
}

#[test]
fn stored_timestamps_are_read_back() {
    for nanos in [0, 1, 1_000, 120_000_000, 999_999_999] {
        let t = Timestamp { secs: 1_700_000_000, nanos };
        assert_eq!(parse_ts(&start_scan_at(&t).started_at), t);
    }
    for secs in [YEAR_0_SECS, -1, 0, YEAR_9999_SECS] {
        let t = Timestamp { secs, nanos: 5 };
        assert_eq!(parse_ts(&start_scan_at(&t).started_at), t);
    }
}

#[test]
fn leap_seconds_are_read_back() {
    for (secs, nanos) in [(1_483_228_799, 1_000_000_000), (YEAR_9999_SECS, 1_999_999_999)] {
        let t = Timestamp { secs, nanos };
        assert_eq!(parse_ts(&start_scan_at(&t).started_at), t);
    }
    let leap = Timestamp { secs: 1_483_228_799, nanos: 1_500_000_000 };
    assert_eq!(start_scan_at(&leap).started_at, "2016-12-31T23:59:60.500+00:00");
}

#[test]
fn stored_texts_stand_in_the_order_of_time() {
    let points: Vec<Timestamp> = [
        (YEAR_0_SECS, 0),
        (-1, 999_999_999),
        (0, 0),
        (0, 1),
        (0, 1_000),
        (0, 120_000_000),
        (0, 120_000_001),
        (1_483_228_799, 999_999_999),
        (1_483_228_799, 1_000_000_000),
        (1_483_228_799, 1_000_000_001),
        (1_483_228_800, 0),
        (YEAR_9999_SECS, 1_999_999_999),
    ]
    .into_iter()
    .map(|(secs, nanos)| Timestamp { secs, nanos })
    .collect();
    for pair in points.windows(2) {
        assert!(pair[0].is_before(&pair[1]));
        assert!(start_scan_at(&pair[0]).started_at < start_scan_at(&pair[1]).started_at);
    }
}

#[test]
fn timestamps_with_an_offset_are_read_in_utc() {
    assert_eq!(parse_ts("2023-11-14T23:13:20+01:00"), NOON);
    assert_eq!(parse_ts("2023-11-14T16:43:20-05:30"), NOON);
    assert_eq!(parse_ts("2023-11-15T22:12:20+23:59"), NOON);
    assert_eq!(parse_ts("2023-11-13T22:14:20-23:59"), NOON);
}

#[test]
fn an_unreadable_timestamp_counts_as_now() {
    let before = Timestamp::now();
    let read = parse_ts("yesterday");
    let after = Timestamp::now();
    assert!(!read.is_before(&before));
    assert!(!after.is_before(&read));
}

#[test]
fn a_scan_is_recorded_at_its_start_and_end() {
    let before = Timestamp::now();
    let started = parse_ts(&start_scan().started_at);
    assert!(!started.is_before(&before));
    let done = finish_scan(3, 12);
    assert_eq!((done.scan_id, done.devices_found), (3, 12));
    assert!(!parse_ts(&done.completed_at).is_before(&started));
    let done = finish_scan_at(4, 0, &NOON);
    assert_eq!(done.scan_id, 4);
    assert_eq!(done.devices_found, 0);
    assert_eq!(done.completed_at, "2023-11-14T22:13:20+00:00");
}

#[test]
fn a_new_device_is_first_seen_now() {
    let new = upsert_device_at(None, "aa", "10.0.0.9", None, Some("Apple"), &NOON);
    assert_eq!(new.mac, "aa");
    assert_eq!(new.ip, "10.0.0.9");
    assert_eq!(new.hostname, None);
    assert_eq!(new.vendor, Some("Apple".to_string()));
    assert_eq!(new.first_seen, "2023-11-14T22:13:20+00:00");
    assert_eq!(new.last_seen, new.first_seen);
    assert_eq!(new.is_online, 1);
}

#[test]
fn a_known_device_is_renewed() {
    let mut known = record("aa", "2021-01-01T00:00:00+00:00");
    known.is_online = 0;
    let seen = upsert_device_at(Some(known), "aa", "10.0.0.9", Some("new.lan"), None, &NOON);
    assert_eq!(seen.mac, "aa");
    assert_eq!(seen.ip, "10.0.0.9");
    assert_eq!(seen.hostname, Some("new.lan".to_string()));
    assert_eq!(seen.vendor, Some("Google".to_string()));
    assert_eq!(seen.first_seen, "2020-01-01T00:00:00+00:00");
    assert_eq!(seen.last_seen, "2023-11-14T22:13:20+00:00");
    assert_eq!(seen.is_online, 1);
}

#[test]
fn a_known_name_is_not_lost() {
    let known = record("aa", "2021-01-01T00:00:00+00:00");
    let seen = upsert_device(Some(known), "aa", "10.0.0.9", None, Some("Apple"));
    assert_eq!(seen.hostname, Some("old.lan".to_string()));
    assert_eq!(seen.vendor, Some("Apple".to_string()));
    assert_eq!(seen.first_seen, "2020-01-01T00:00:00+00:00");
}

#[test]
fn devices_outside_the_window_go_offline() {
    let mut rows = vec![
        row(1, "2023-11-14T21:58:19.999999999+00:00"),
        row(2, "2023-11-14T21:58:20+00:00"),
        row(3, "2023-11-14T21:58:20.001+00:00"),
        row(4, "2023-11-14T22:13:20+00:00"),
    ];
    mark_stale_offline_at(&mut rows, 15, &NOON);
    let online: Vec<i64> = rows.iter().map(|r| r.record.is_online).collect();
    assert_eq!(online, vec![0, 1, 1, 1]);
    assert_eq!(rows[0].id, 1);
    assert_eq!(rows[0].record.last_seen, "2023-11-14T21:58:19.999999999+00:00");
}

#[test]
fn a_device_just_seen_stays_online() {
    let new = upsert_device(None, "aa", "10.0.0.9", None, None);
    let mut rows = vec![DeviceRow { id: 1, record: new }, row(2, "2001-01-01T00:00:00+00:00")];
    mark_stale_offline(&mut rows, 15);
    assert_eq!(rows[0].record.is_online, 1);
    assert_eq!(rows[1].record.is_online, 0);
}

#[test]
fn devices_are_listed_newest_first() {
    let rows = vec![
        row(1, "2023-01-01T00:00:00+00:00"),
        row(2, "2023-01-01T00:00:00.500+00:00"),
        row(3, "2022-12-31T23:59:59.999+00:00"),
        row(4, "2023-01-01T00:00:00.500001+00:00"),
    ];
    let ids: Vec<i64> = list_devices(rows).iter().map(|d| d.id).collect();
    assert_eq!(ids, vec![4, 2, 1, 3]);
}

#[test]
fn rows_seen_at_the_same_time_keep_their_order() {
    let t = "2023-01-01T00:00:00+00:00";
    let ids: Vec<i64> =
        sort_newest_first(vec![row(1, t), row(2, t), row(3, t)]).iter().map(|r| r.id).collect();
    assert_eq!(ids, vec![1, 2, 3]);
}

#[test]
fn a_row_is_read_as_a_device() {
    let mut offline = row(9, "2023-11-14T22:13:20+00:00");
    offline.record.is_online = 0;
    let device = read_device(offline, Timestamp { secs: 1, nanos: 2 }, NOON);
    assert_eq!(device.id, 9);
    assert_eq!(device.mac, "aa");
    assert_eq!(device.ip, "10.0.0.1");
    assert_eq!(device.hostname, Some("old.lan".to_string()));
    assert_eq!(device.vendor, Some("Google".to_string()));
    assert_eq!(device.first_seen, Timestamp { secs: 1, nanos: 2 });
    assert_eq!(device.last_seen, NOON);
    assert!(!device.is_online);
}

#[test]
fn a_stored_device_is_read_back() {
    let new = upsert_device_at(None, "aa", "10.0.0.9", Some("pi"), None, &NOON);
    let devices = list_devices(vec![DeviceRow { id: 5, record: new }]);
    assert_eq!(devices[0].first_seen, NOON);
    assert_eq!(devices[0].last_seen, NOON);
    assert!(devices[0].is_online);
}

#[test]
fn the_latest_scan_has_the_highest_id() {
    let scan = |id: i64, completed_at: Option<&str>| ScanRow {
        id,
        record: ScanRecord {
            started_at: "2023-11-14T22:13:20+00:00".to_string(),
            completed_at: completed_at.map(|s| s.to_string()),
            devices_found: id * 10,
        },
    };
    assert!(latest_scan(&vec![]).is_none());
    let run = latest_scan(&vec![scan(1, None), scan(3, Some("2023-11-14T22:13:21Z")), scan(2, None)]);
    let run = run.unwrap();
    assert_eq!(run.id, 3);
    assert_eq!(run.started_at, NOON);
    assert_eq!(run.completed_at, Some(Timestamp { secs: 1_700_000_001, nanos: 0 }));
    assert_eq!(run.devices_found, 30);
    assert_eq!(latest_scan(&vec![scan(4, None)]).unwrap().completed_at, None);
}

#[test]
fn a_scan_row_is_read_as_a_run() {
    let row = ScanRow {
        id: 6,
        record: ScanRecord {
            started_at: "ignored".to_string(),
            completed_at: None,
            devices_found: 4,
        },
    };
    let run = read_scan(&row, NOON, Some(Timestamp { secs: 2, nanos: 3 }));
    assert_eq!((run.id, run.devices_found), (6, 4));
    assert_eq!(run.started_at, NOON);
    assert_eq!(run.completed_at, Some(Timestamp { secs: 2, nanos: 3 }));
    assert_eq!(latest_row(&vec![]), None);
    assert_eq!(latest_row(&vec![row.clone(), ScanRow { id: 9, ..row.clone() }, row]), Some(1));
}

#[test]
fn devices_seen_one_after_the_other_are_all_recorded() {
    let later = Timestamp { secs: NOON.secs + 60, nanos: 0 };
    let a = upsert_device_at(None, "aa", "10.0.0.1", None, None, &NOON);
    let b = upsert_device_at(None, "bb", "10.0.0.2", None, None, &later);
    let a = upsert_device_at(Some(a), "aa", "10.0.0.3", None, None, &later);
    assert_eq!((a.mac.as_str(), a.ip.as_str(), a.is_online), ("aa", "10.0.0.3", 1));
    assert_eq!((b.mac.as_str(), b.ip.as_str(), b.is_online), ("bb", "10.0.0.2", 1));
    assert_eq!(parse_ts(&a.first_seen), NOON);
    assert_eq!(parse_ts(&a.last_seen), later);
    assert_eq!(parse_ts(&b.first_seen), later);
}

#[test]
fn the_mark_agrees_with_the_badge() {
    let mut rows = vec![
        row(1, "2023-11-14T21:58:19.999+00:00"),
        row(2, "2023-11-14T21:58:20.001+00:00"),
        row(3, "2023-11-14T22:13:20+00:00"),
    ];
    mark_stale_offline_at(&mut rows, 15, &NOON);
    for device in list_devices(rows) {
        assert_eq!(device.is_online, device_status(&device, &NOON) == Status::Online);
    }
}

#[test]
fn at_the_cutoff_a_device_is_not_stale_and_no_longer_shown_online() {
    let mut rows = vec![row(1, "2023-11-14T21:58:20+00:00")];
    mark_stale_offline_at(&mut rows, 15, &NOON);
    let device = &list_devices(rows)[0];
    assert!(device.is_online);
    assert_eq!(device_status(device, &NOON), Status::Offline);
}

#[test]
fn a_scan_is_the_latest_when_it_starts_and_when_it_ends() {
    let older = ScanRow { id: 1, record: start_scan_at(&Timestamp { secs: 5, nanos: 0 }) };
    let mut row = ScanRow { id: 2, record: start_scan_at(&NOON) };
    let run = latest_scan(&vec![older.clone(), row.clone()]).unwrap();
    assert_eq!((run.id, run.started_at), (2, NOON));
    assert_eq!((run.completed_at, run.devices_found), (None, 0));

    let end = Timestamp { secs: NOON.secs + 4, nanos: 250_000_000 };
    let done = finish_scan_at(2, 7, &end);
    row.record.completed_at = Some(done.completed_at);
    row.record.devices_found = done.devices_found;
    let run = latest_scan(&vec![row, older]).unwrap();
    assert_eq!((run.id, run.started_at), (2, NOON));
    assert_eq!((run.completed_at, run.devices_found), (Some(end), 7));
}

#[test]
fn a_device_keeps_its_first_sighting_through_stale_marks() {
    let first = upsert_device_at(None, "aa", "10.0.0.1", None, None, &NOON);
    let hour = Timestamp { secs: NOON.secs + 3600, nanos: 0 };
    let mut rows = vec![DeviceRow { id: 1, record: first }];
    mark_stale_offline_at(&mut rows, 15, &hour);
    assert_eq!(rows.len(), 1);
    assert_eq!(rows[0].record.is_online, 0);
    let known = rows.remove(0).record;
    let again = upsert_device_at(Some(known), "aa", "10.0.0.1", None, None, &hour);
    assert_eq!(again.is_online, 1);
    assert_eq!(parse_ts(&again.first_seen), NOON);
    assert_eq!(parse_ts(&again.last_seen), hour);
}
