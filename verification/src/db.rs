//! The store: what is written to its two tables and what is read from them.
//!
//! A row holds what a table holds, timestamps as RFC 3339 texts. The functions
//! here compute rows from rows; fetching and storing them is left to the
//! caller.

use vstd::prelude::*;
use vstd::seq_lib::lemma_multiset_commutative;
use crate::models::{opt_str, opt_text, Device, ScanRun};
use crate::paths::{lies_in, may_be_parent, parent_dir, without_trailing};
use crate::text::{
    is_text_before, lemma_text_before_asymmetric, lemma_text_before_total, text_before,
};
use crate::time::{
    is_stamp_of, local_text, parse_rfc3339, rfc3339_instant, rfc3339_text, stands_for, to_rfc3339,
    Timestamp,
};

verus! {

/// A row of the table of devices, but for its id. No two rows have the same
/// `mac`.
#[derive(Debug, Clone)]
pub struct DeviceRecord<Text = String> {
    pub mac: Text,
    pub ip: Text,
    pub hostname: Option<Text>,
    pub vendor: Option<Text>,
    pub first_seen: Text,
    pub last_seen: Text,
    pub is_online: i64,
}

/// A row of the table of devices.
#[derive(Debug, Clone)]
pub struct DeviceRow<Text = String> {
    pub id: i64,
    pub record: DeviceRecord<Text>,
}

/// A row of the table of scans, but for its id.
#[derive(Debug, Clone)]
pub struct ScanRecord<Text = String> {
    pub started_at: Text,
    pub completed_at: Option<Text>,
    pub devices_found: i64,
}

/// A row of the table of scans.
#[derive(Debug, Clone)]
pub struct ScanRow<Text = String> {
    pub id: i64,
    pub record: ScanRecord<Text>,
}

/// What is written to a row of the table of scans when the scan is over.
#[derive(Debug, Clone)]
pub struct ScanCompletion<Text = String> {
    pub scan_id: i64,
    pub completed_at: Text,
    pub devices_found: i64,
}

/// What opening the store takes.
#[derive(Debug, Clone)]
pub struct DbSetup {
    /// The directory that has to exist first, if there is one.
    pub create_dir: Option<String>,
    /// The address of the database.
    pub url: String,
}

impl View for DeviceRecord {
    type V = DeviceRecord<Seq<char>>;

    open spec fn view(&self) -> DeviceRecord<Seq<char>> {
        DeviceRecord {
            mac: self.mac@,
            ip: self.ip@,
            hostname: opt_text(self.hostname),
            vendor: opt_text(self.vendor),
            first_seen: self.first_seen@,
            last_seen: self.last_seen@,
            is_online: self.is_online,
        }
    }
}

impl View for ScanRecord {
    type V = ScanRecord<Seq<char>>;

    open spec fn view(&self) -> ScanRecord<Seq<char>> {
        ScanRecord {
            started_at: self.started_at@,
            completed_at: opt_text(self.completed_at),
            devices_found: self.devices_found,
        }
    }
}

// ---- opening ----

/// The directory to create, from the parent of the database path: the parent,
/// unless that is the working directory.
pub open spec fn dir_to_create(parent: Option<Seq<char>>) -> Option<Seq<char>> {
    match parent {
        Some(dir) => if dir.len() > 0 {
            Some(dir)
        } else {
            None
        },
        None => None,
    }
}

/// What opening the store takes, from its path and the parent of that path.
pub fn init_in(db_path: &str, parent: Option<String>) -> (setup: DbSetup)
    ensures
        opt_text(setup.create_dir) == dir_to_create(opt_text(parent)),
        setup.url@ == "sqlite://"@ + db_path@,
{
    let create_dir = match parent {
        Some(dir) => if dir.as_str().is_empty() {
            None
        } else {
            Some(dir)
        },
        None => None,
    };
    DbSetup { create_dir, url: "sqlite://".to_owned().concat(db_path) }
}

/// What opening the store at this path takes: the directory of the file has to
/// exist, and the database is addressed by its path.
pub fn init(db_path: &str) -> (setup: DbSetup)
    ensures
        setup.url@ == "sqlite://"@ + db_path@,
        exists|parent: Option<Seq<char>>| #[trigger]
            may_be_parent(db_path@, parent) && opt_text(setup.create_dir) == dir_to_create(parent),
        db_path@.len() == 0 ==> setup.create_dir is None,
        forall|dir: Seq<char>| #[trigger]
            lies_in(without_trailing(db_path@), dir) ==> opt_text(setup.create_dir)
                == dir_to_create(Some(dir)),
{
    let parent = parent_dir(db_path);
    let ghost known = opt_text(parent);
    assert(may_be_parent(db_path@, known));
    init_in(db_path, parent)
}

// ---- scans ----

/// The record of a scan that starts at `started_at`: it is not completed, and no
/// device has been found yet.
pub open spec fn started_record(started_at: Seq<char>) -> ScanRecord<Seq<char>> {
    ScanRecord { started_at, completed_at: None, devices_found: 0 }
}

/// The record of a scan after it has been completed.
pub open spec fn completed_record(
    record: ScanRecord<Seq<char>>,
    completed_at: Seq<char>,
    devices_found: i64,
) -> ScanRecord<Seq<char>> {
    ScanRecord { completed_at: Some(completed_at), devices_found, ..record }
}

/// The record of a scan that starts now.
pub fn start_scan_at(now: &Timestamp) -> (record: ScanRecord)
    requires
        now.valid(),
    ensures
        record@ == started_record(rfc3339_text(now.secs, now.nanos)),
        is_stamp_of(record.started_at@, *now),
{
    ScanRecord { started_at: to_rfc3339(now), completed_at: None, devices_found: 0 }
}

/// The record of a scan that starts at the time of the call.
pub fn start_scan() -> (record: ScanRecord)
    ensures
        exists|now: Timestamp| #[trigger]
            now.on_clock() && record@ == started_record(rfc3339_text(now.secs, now.nanos))
                && is_stamp_of(record.started_at@, now),
{
    let now = Timestamp::now();
    start_scan_at(&now)
}

/// What is written when a scan is completed now.
pub fn finish_scan_at(scan_id: i64, devices_found: i64, now: &Timestamp) -> (done: ScanCompletion)
    requires
        now.valid(),
    ensures
        done.scan_id == scan_id,
        done.devices_found == devices_found,
        is_stamp_of(done.completed_at@, *now),
{
    ScanCompletion { scan_id, completed_at: to_rfc3339(now), devices_found }
}

/// What is written when a scan is completed at the time of the call.
pub fn finish_scan(scan_id: i64, devices_found: i64) -> (done: ScanCompletion)
    ensures
        done.scan_id == scan_id,
        done.devices_found == devices_found,
        exists|now: Timestamp| #[trigger] now.on_clock() && is_stamp_of(done.completed_at@, now),
{
    let now = Timestamp::now();
    finish_scan_at(scan_id, devices_found, &now)
}

// ---- devices ----

/// The first of two texts that is there.
pub open spec fn or_else(new: Option<Seq<char>>, known: Option<Seq<char>>) -> Option<Seq<char>> {
    match new {
        Some(_) => new,
        None => known,
    }
}

/// The record of a device that has been seen at `seen`. A new device is first
/// seen then; of a known one the address and the time are renewed, and the name
/// and the vendor where there is a new one.
pub open spec fn seen_record(
    known: Option<DeviceRecord<Seq<char>>>,
    mac: Seq<char>,
    ip: Seq<char>,
    hostname: Option<Seq<char>>,
    vendor: Option<Seq<char>>,
    seen: Seq<char>,
) -> DeviceRecord<Seq<char>> {
    match known {
        Some(known) => DeviceRecord {
            mac,
            ip,
            hostname: or_else(hostname, known.hostname),
            vendor: or_else(vendor, known.vendor),
            first_seen: known.first_seen,
            last_seen: seen,
            is_online: 1,
        },
        None => DeviceRecord {
            mac,
            ip,
            hostname,
            vendor,
            first_seen: seen,
            last_seen: seen,
            is_online: 1,
        },
    }
}

/// The text of an optional record.
pub open spec fn opt_record(known: Option<DeviceRecord>) -> Option<DeviceRecord<Seq<char>>> {
    match known {
        Some(known) => Some(known@),
        None => None,
    }
}

fn own_text(new: Option<&str>, known: Option<String>) -> (text: Option<String>)
    ensures
        opt_text(text) == or_else(opt_str(new), opt_text(known)),
{
    match new {
        Some(text) => Some(text.to_owned()),
        None => known,
    }
}

/// The record of a device that is seen now; `known` is the record that the
/// store has under this MAC.
pub fn upsert_device_at(
    known: Option<DeviceRecord>,
    mac: &str,
    ip: &str,
    hostname: Option<&str>,
    vendor: Option<&str>,
    now: &Timestamp,
) -> (record: DeviceRecord)
    requires
        now.valid(),
        known matches Some(known) ==> known.mac@ == mac@,
    ensures
        record@ == seen_record(
            opt_record(known),
            mac@,
            ip@,
            opt_str(hostname),
            opt_str(vendor),
            rfc3339_text(now.secs, now.nanos),
        ),
        is_stamp_of(record.last_seen@, *now),
{
    let seen = to_rfc3339(now);
    match known {
        Some(known) => DeviceRecord {
            mac: mac.to_owned(),
            ip: ip.to_owned(),
            hostname: own_text(hostname, known.hostname),
            vendor: own_text(vendor, known.vendor),
            first_seen: known.first_seen,
            last_seen: seen,
            is_online: 1,
        },
        None => DeviceRecord {
            mac: mac.to_owned(),
            ip: ip.to_owned(),
            hostname: own_text(hostname, None),
            vendor: own_text(vendor, None),
            first_seen: seen.clone(),
            last_seen: seen,
            is_online: 1,
        },
    }
}

/// The record of a device that is seen at the time of the call; `known` is the
/// record that the store has under this MAC.
pub fn upsert_device(
    known: Option<DeviceRecord>,
    mac: &str,
    ip: &str,
    hostname: Option<&str>,
    vendor: Option<&str>,
) -> (record: DeviceRecord)
    requires
        known matches Some(known) ==> known.mac@ == mac@,
    ensures
        exists|now: Timestamp| #[trigger]
            now.on_clock() && record@ == seen_record(
                opt_record(known),
                mac@,
                ip@,
                opt_str(hostname),
                opt_str(vendor),
                rfc3339_text(now.secs, now.nanos),
            ) && is_stamp_of(record.last_seen@, now),
{
    let now = Timestamp::now();
    upsert_device_at(known, mac, ip, hostname, vendor, &now)
}

/// What marking the devices offline whose `last_seen` stands before `cutoff`
/// makes of the table: their `is_online` becomes 0, nothing else changes.
pub open spec fn marks_stale(
    before: Seq<DeviceRow>,
    after: Seq<DeviceRow>,
    cutoff: Seq<char>,
) -> bool {
    &&& after.len() == before.len()
    &&& forall|i: int|
        0 <= i < before.len() ==> (#[trigger] after[i]).id == before[i].id && after[i].record@ == (
        if text_before(before[i].record.last_seen@, cutoff) {
            DeviceRecord { is_online: 0, ..before[i].record@ }
        } else {
            before[i].record@
        })
}

/// Of the devices that were last seen at a point of time with a four-digit year,
/// those are marked offline that were last seen before `cutoff`.
pub open spec fn marks_older_than(
    before: Seq<DeviceRow>,
    after: Seq<DeviceRow>,
    cutoff: Timestamp,
) -> bool {
    forall|i: int, seen: Timestamp|
        0 <= i < before.len() && seen.four_digit_year() && before[i].record.last_seen@
            == rfc3339_text(seen.secs, seen.nanos) ==> (#[trigger] after[i]).record.is_online == (
        if #[trigger] seen.before(cutoff) {
            0
        } else {
            before[i].record.is_online
        })
}

/// Marks every device offline that was last seen more than the given number of
/// minutes before `now`.
pub fn mark_stale_offline_at(
    rows: &mut Vec<DeviceRow>,
    online_window_minutes: i64,
    now: &Timestamp,
)
    requires
        now.valid(),
        now.nanos < 1_000_000_000,
        now.reaches_back(60 * online_window_minutes),
    ensures
        ({
            let cutoff = now.earlier_by(60 * online_window_minutes);
            &&& marks_stale(old(rows)@, final(rows)@, rfc3339_text(cutoff.secs, cutoff.nanos))
            &&& cutoff.four_digit_year() ==> marks_older_than(old(rows)@, final(rows)@, cutoff)
        }),
{
    let cutoff = now.minutes_earlier(online_window_minutes);
    let text = to_rfc3339(&cutoff);
    let count = rows.len();
    for i in 0..count
        invariant
            rows.len() == count,
            count == old(rows).len(),
            forall|j: int|
                0 <= j < i ==> (#[trigger] rows@[j]).id == old(rows)@[j].id && rows@[j].record@ == (
                if text_before(old(rows)@[j].record.last_seen@, text@) {
                    DeviceRecord { is_online: 0, ..old(rows)@[j].record@ }
                } else {
                    old(rows)@[j].record@
                }),
            forall|j: int| i <= j < rows.len() ==> #[trigger] rows@[j] == old(rows)@[j],
    {
        if is_text_before(rows[i].record.last_seen.as_str(), text.as_str()) {
            rows[i].record.is_online = 0;
        }
    }
}

/// Marks every device offline that was last seen more than the given number of
/// minutes before the time of the call.
pub fn mark_stale_offline(rows: &mut Vec<DeviceRow>, online_window_minutes: i64)
    requires
        0 <= online_window_minutes <= 138_910_020_480,
    ensures
        exists|now: Timestamp| #[trigger]
            now.on_clock() && {
                let cutoff = now.earlier_by(60 * online_window_minutes);
                &&& marks_stale(old(rows)@, final(rows)@, rfc3339_text(cutoff.secs, cutoff.nanos))
                &&& cutoff.four_digit_year() ==> marks_older_than(old(rows)@, final(rows)@, cutoff)
            },
{
    let now = Timestamp::now();
    mark_stale_offline_at(rows, online_window_minutes, &now);
}

// ---- reading ----

/// Whether a stored timestamp may be read as `t`: it is what the text says, or
/// the time of reading where the text cannot be parsed.
pub open spec fn reads_as(text: Seq<char>, t: Timestamp) -> bool {
    match rfc3339_instant(text) {
        Some((secs, nanos)) => t == (Timestamp { secs, nanos }),
        None => t.on_clock(),
    }
}

/// Reads a stored timestamp; one that cannot be parsed counts as the time of
/// the call. The timestamp of a point with a four-digit year is read as that point,
/// whatever offset from UTC it is written with.
pub fn parse_ts(s: &str) -> (t: Timestamp)
    ensures
        reads_as(s@, t),
        t.valid(),
        forall|written: Timestamp|
            written.four_digit_year() && s@ == #[trigger] rfc3339_text(written.secs, written.nanos)
                ==> t == written && stands_for(s@, written),
        forall|local: Timestamp, minutes: int|
            local.four_digit_year() && -1440 < minutes < 1440 && s@ == #[trigger] local_text(
                local,
                minutes,
            ) ==> t == local.earlier_by(60 * minutes),
{
    match parse_rfc3339(s) {
        Some(t) => t,
        None => Timestamp::now(),
    }
}

/// Whether a text is what is stored for some point in time with a four-digit
/// year.
pub open spec fn is_stored_time(text: Seq<char>) -> bool {
    exists|t: Timestamp|
        t.four_digit_year() && text == #[trigger] rfc3339_text(t.secs, t.nanos)
}

/// Whether `device` is what a row of the table of devices says.
pub open spec fn device_of(row: DeviceRow, device: Device) -> bool {
    &&& device.id == row.id
    &&& device.mac@ == row.record.mac@
    &&& device.ip@ == row.record.ip@
    &&& opt_text(device.hostname) == opt_text(row.record.hostname)
    &&& opt_text(device.vendor) == opt_text(row.record.vendor)
    &&& reads_as(row.record.first_seen@, device.first_seen)
    &&& reads_as(row.record.last_seen@, device.last_seen)
    &&& device.is_online == (row.record.is_online != 0)
}

/// The device that a row says, with its timestamps as they have been read.
pub fn read_device(row: DeviceRow, first_seen: Timestamp, last_seen: Timestamp) -> (device: Device)
    ensures
        device@ == (Device {
            id: row.id,
            mac: row.record.mac@,
            ip: row.record.ip@,
            hostname: opt_text(row.record.hostname),
            vendor: opt_text(row.record.vendor),
            first_seen,
            last_seen,
            is_online: row.record.is_online != 0,
        }),
{
    Device {
        id: row.id,
        mac: row.record.mac,
        ip: row.record.ip,
        hostname: row.record.hostname,
        vendor: row.record.vendor,
        first_seen,
        last_seen,
        is_online: row.record.is_online != 0,
    }
}

/// The rows stand in the order of `last_seen`, the newest first.
pub open spec fn newest_first(rows: Seq<DeviceRow>) -> bool {
    forall|i: int, j: int|
        0 <= i < j < rows.len() ==> !text_before(
            (#[trigger] rows[i]).record.last_seen@,
            (#[trigger] rows[j]).record.last_seen@,
        )
}

/// Puts the rows in the order of `last_seen`, the newest first.
pub fn sort_newest_first(rows: Vec<DeviceRow>) -> (sorted: Vec<DeviceRow>)
    ensures
        newest_first(sorted@),
        sorted@.to_multiset() == rows@.to_multiset(),
{
    let mut rest = rows;
    let mut sorted: Vec<DeviceRow> = Vec::new();
    proof {
        assert(sorted@ =~= Seq::empty());
        lemma_multiset_commutative(rest@, sorted@);
        assert(rest@ + sorted@ =~= rest@);
    }
    while rest.len() > 0
        invariant
            newest_first(sorted@),
            (rest@ + sorted@).to_multiset() == rows@.to_multiset(),
        decreases rest.len(),
    {
        let ghost rest_before = rest@;
        let ghost sorted_before = sorted@;
        let row = rest.pop().unwrap();
        let mut at: usize = 0;
        while at < sorted.len() && is_text_before(
            row.record.last_seen.as_str(),
            sorted[at].record.last_seen.as_str(),
        )
            invariant
                at <= sorted.len(),
                sorted@ == sorted_before,
                forall|j: int|
                    0 <= j < at ==> text_before(
                        row.record.last_seen@,
                        (#[trigger] sorted@[j]).record.last_seen@,
                    ),
            decreases sorted.len() - at,
        {
            at += 1;
        }
        sorted.insert(at, row);
        proof {
            lemma_inserted_in_order(sorted_before, at as int, row);
            assert(rest_before =~= rest@.push(row));
            let head = sorted_before.take(at as int);
            let tail = sorted_before.skip(at as int);
            assert(sorted@ =~= head + (seq![row] + tail));
            assert(sorted_before =~= head + tail);
            lemma_multiset_commutative(rest_before, sorted_before);
            lemma_multiset_commutative(rest@, seq![row]);
            assert(rest_before =~= rest@ + seq![row]);
            lemma_multiset_commutative(head, tail);
            lemma_multiset_commutative(rest@, sorted@);
            lemma_multiset_commutative(head, seq![row] + tail);
            lemma_multiset_commutative(seq![row], tail);
            assert((rest@ + sorted@).to_multiset() =~= (rest_before + sorted_before).to_multiset());
        }
    }
    proof {
        assert(rest@ + sorted@ =~= sorted@);
    }
    sorted
}

/// Putting a row where only newer rows stand before it and the row behind it is
/// not newer keeps the order.
proof fn lemma_inserted_in_order(sorted: Seq<DeviceRow>, at: int, row: DeviceRow)
    requires
        newest_first(sorted),
        0 <= at <= sorted.len(),
        forall|j: int|
            0 <= j < at ==> text_before(
                row.record.last_seen@,
                (#[trigger] sorted[j]).record.last_seen@,
            ),
        at < sorted.len() ==> !text_before(row.record.last_seen@, sorted[at].record.last_seen@),
    ensures
        newest_first(sorted.insert(at, row)),
{
    let after = sorted.insert(at, row);
    assert forall|i: int, j: int| 0 <= i < j < after.len() implies !text_before(
        (#[trigger] after[i]).record.last_seen@,
        (#[trigger] after[j]).record.last_seen@,
    ) by {
        let seen = row.record.last_seen@;
        if j < at {
            assert(after[i] == sorted[i] && after[j] == sorted[j]);
        } else if j == at {
            assert(after[i] == sorted[i]);
            lemma_text_before_asymmetric(seen, sorted[i].record.last_seen@);
        } else if i == at {
            assert(after[j] == sorted[j - 1]);
            if j - 1 > at {
                assert(sorted[at] == sorted[at]);
                lemma_text_before_total(
                    seen,
                    sorted[at].record.last_seen@,
                    sorted[j - 1].record.last_seen@,
                );
            }
        } else if i < at {
            assert(after[i] == sorted[i] && after[j] == sorted[j - 1]);
        } else {
            assert(after[i] == sorted[i - 1] && after[j] == sorted[j - 1]);
        }
    }
}

/// Whether a stored text is the one of `t` and stands in the order of the points.
spec fn is_read_in_order(text: Seq<char>, t: Timestamp) -> bool {
    t.four_digit_year() && text == rfc3339_text(t.secs, t.nanos) && stands_for(text, t)
}

/// The devices of the table, the newest `last_seen` first.
pub fn list_devices(rows: Vec<DeviceRow>) -> (devices: Vec<Device>)
    ensures
        exists|sorted: Seq<DeviceRow>| #[trigger]
            newest_first(sorted) && sorted.to_multiset() == rows@.to_multiset() && devices.len()
                == sorted.len() && forall|i: int|
                0 <= i < devices.len() ==> device_of(sorted[i], #[trigger] devices@[i]),
        (forall|i: int|
            0 <= i < rows.len() ==> is_stored_time((#[trigger] rows@[i]).record.last_seen@)) ==> (
        forall|i: int, j: int|
            0 <= i < j < devices.len() ==> !(#[trigger] devices@[i]).last_seen.before(
                (#[trigger] devices@[j]).last_seen,
            )),
        forall|i: int|
            0 <= i < devices.len() ==> (#[trigger] devices@[i]).first_seen.valid()
                && devices@[i].last_seen.valid(),
{
    let sorted = sort_newest_first(rows);
    let ghost all = sorted@;
    let mut devices: Vec<Device> = Vec::new();
    for row in it: sorted
        invariant
            it.seq() == all,
            devices.len() == it.index(),
            forall|i: int|
                0 <= i < devices.len() ==> device_of(all[i], #[trigger] devices@[i])
                    && devices@[i].first_seen.valid() && devices@[i].last_seen.valid()
                    && (is_stored_time(all[i].record.last_seen@) ==> is_read_in_order(
                    all[i].record.last_seen@,
                    devices@[i].last_seen,
                )),
    {
        let first_seen = parse_ts(row.record.first_seen.as_str());
        let last_seen = parse_ts(row.record.last_seen.as_str());
        devices.push(read_device(row, first_seen, last_seen));
    }
    assert(newest_first(all));
    proof {
        if forall|i: int|
            0 <= i < rows.len() ==> is_stored_time((#[trigger] rows@[i]).record.last_seen@) {
            assert forall|i: int| 0 <= i < all.len() implies is_stored_time(
                (#[trigger] all[i]).record.last_seen@,
            ) by {
                all.to_multiset_ensures();
                rows@.to_multiset_ensures();
                assert(all.to_multiset().count(all[i]) > 0);
                assert(rows@.contains(all[i]));
            }
            assert forall|i: int, j: int| 0 <= i < j < devices.len() implies !(
            #[trigger] devices@[i]).last_seen.before((#[trigger] devices@[j]).last_seen) by {
                assert(is_stored_time(all[i].record.last_seen@));
                assert(is_stored_time(all[j].record.last_seen@));
                assert(is_read_in_order(all[i].record.last_seen@, devices@[i].last_seen));
                assert(is_read_in_order(all[j].record.last_seen@, devices@[j].last_seen));
            }
        }
    }
    devices
}

/// Whether `run` is what a row of the table of scans says.
pub open spec fn scan_of(row: ScanRow, run: ScanRun) -> bool {
    &&& run.id == row.id
    &&& reads_as(row.record.started_at@, run.started_at)
    &&& match (row.record.completed_at, run.completed_at) {
        (Some(text), Some(t)) => reads_as(text@, t) && t.valid(),
        (None, None) => true,
        _ => false,
    }
    &&& run.devices_found == row.record.devices_found
    &&& run.started_at.valid()
}

/// The run that a row says, with its timestamps as they have been read.
pub fn read_scan(row: &ScanRow, started_at: Timestamp, completed_at: Option<Timestamp>) -> (run:
    ScanRun)
    ensures
        run == (ScanRun {
            id: row.id,
            started_at,
            completed_at,
            devices_found: row.record.devices_found,
        }),
{
    ScanRun { id: row.id, started_at, completed_at, devices_found: row.record.devices_found }
}

/// The position of the row with the highest id, if there is any row.
pub fn latest_row(rows: &Vec<ScanRow>) -> (latest: Option<usize>)
    ensures
        match latest {
            Some(at) => at < rows.len() && forall|i: int|
                0 <= i < rows.len() ==> (#[trigger] rows@[i]).id <= rows@[at as int].id,
            None => rows.len() == 0,
        },
{
    if rows.len() == 0 {
        return None;
    }
    let mut at: usize = 0;
    for i in 0..rows.len()
        invariant
            at < rows.len(),
            forall|j: int| 0 <= j < i ==> (#[trigger] rows@[j]).id <= rows@[at as int].id,
    {
        if rows[i].id > rows[at].id {
            at = i;
        }
    }
    Some(at)
}

/// Whether `latest` is the most recent scan of the table: what the row with the
/// highest id says, and none where there is no row.
pub open spec fn is_latest(rows: Seq<ScanRow>, latest: Option<ScanRun>) -> bool {
    match latest {
        Some(run) => exists|at: int|
            0 <= at < rows.len() && scan_of(#[trigger] rows[at], run) && forall|i: int|
                0 <= i < rows.len() ==> (#[trigger] rows[i]).id <= rows[at].id,
        None => rows.len() == 0,
    }
}

/// The most recent scan of the table, if there is any: the one with the highest
/// id.
pub fn latest_scan(rows: &Vec<ScanRow>) -> (latest: Option<ScanRun>)
    ensures
        is_latest(rows@, latest),
        latest matches Some(run) ==> run.started_at.valid() && (run.completed_at matches Some(t)
            ==> t.valid()),
{
    match latest_row(rows) {
        Some(at) => {
            let row = &rows[at];
            let started_at = parse_ts(row.record.started_at.as_str());
            let completed_at = match &row.record.completed_at {
                Some(text) => Some(parse_ts(text.as_str())),
                None => None,
            };
            let run = read_scan(row, started_at, completed_at);
            assert(scan_of(rows@[at as int], run));
            Some(run)
        },
        None => None,
    }
}

} // verus!
