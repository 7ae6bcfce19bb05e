//! What the JSON endpoints answer.

use vstd::prelude::*;
use crate::models::{opt_text, Device, ScanRun};
use crate::scanner::ONLINE_WINDOW_MINUTES;
use crate::time::{is_stamp_of, rfc3339_text, to_rfc3339, Timestamp};

verus! {

/// Devices first seen less than this many hours ago count as new.
pub const NEW_WINDOW_HOURS: i64 = 24;

// ---- status ----

/// The status badge of a device.
#[derive(Debug, Clone, Copy, PartialEq, Eq, Structural)]
pub enum Status {
    Online,
    New,
    Offline,
}

impl Status {
    /// The word for a status.
    pub fn as_str(&self) -> (word: &'static str)
        ensures
            word@ == match *self {
                Status::Online => "online"@,
                Status::New => "new"@,
                Status::Offline => "offline"@,
            },
    {
        match self {
            Status::Online => "online",
            Status::New => "new",
            Status::Offline => "offline",
        }
    }
}

/// A time from which the windows of both rules can be looked back over.
pub open spec fn is_view_time(now: Timestamp) -> bool {
    now.valid() && now.nanos < 1_000_000_000 && now.reaches_back(3600 * NEW_WINDOW_HOURS)
}

/// Whether a device was last seen less than 15 minutes before `now`.
pub open spec fn seen_lately(device: Device, now: Timestamp) -> bool {
    now.earlier_by(60 * ONLINE_WINDOW_MINUTES).before(device.last_seen)
}

/// Whether a device was first seen less than 24 hours before `now`.
pub open spec fn seen_first_lately(device: Device, now: Timestamp) -> bool {
    now.earlier_by(3600 * NEW_WINDOW_HOURS).before(device.first_seen)
}

/// The status of a device: online if it was seen lately, else new if it was
/// first seen lately, else offline.
pub open spec fn status_at(device: Device, now: Timestamp) -> Status {
    if seen_lately(device, now) {
        Status::Online
    } else if seen_first_lately(device, now) {
        Status::New
    } else {
        Status::Offline
    }
}

/// The status of a device at `now`.
pub fn device_status(device: &Device, now: &Timestamp) -> (status: Status)
    requires
        is_view_time(*now),
    ensures
        status == status_at(*device, *now),
{
    let online_cutoff = now.minutes_earlier(ONLINE_WINDOW_MINUTES);
    let new_cutoff = now.hours_earlier(NEW_WINDOW_HOURS);
    if online_cutoff.is_before(&device.last_seen) {
        Status::Online
    } else if new_cutoff.is_before(&device.first_seen) {
        Status::New
    } else {
        Status::Offline
    }
}

// ---- the list of devices ----

/// A device as the list of devices shows it.
#[derive(Debug, Clone)]
pub struct DeviceView<Text = String> {
    pub id: i64,
    pub mac: Text,
    pub ip: Text,
    pub hostname: Option<Text>,
    pub vendor: Option<Text>,
    pub first_seen: Text,
    pub last_seen: Text,
    pub status: Status,
}

impl View for DeviceView {
    type V = DeviceView<Seq<char>>;

    open spec fn view(&self) -> DeviceView<Seq<char>> {
        DeviceView {
            id: self.id,
            mac: self.mac@,
            ip: self.ip@,
            hostname: opt_text(self.hostname),
            vendor: opt_text(self.vendor),
            first_seen: self.first_seen@,
            last_seen: self.last_seen@,
            status: self.status,
        }
    }
}

/// How the list of devices shows a device at `now`.
pub open spec fn shown(device: Device, now: Timestamp) -> DeviceView<Seq<char>> {
    DeviceView {
        id: device.id,
        mac: device.mac@,
        ip: device.ip@,
        hostname: opt_text(device.hostname),
        vendor: opt_text(device.vendor),
        first_seen: rfc3339_text(device.first_seen.secs, device.first_seen.nanos),
        last_seen: rfc3339_text(device.last_seen.secs, device.last_seen.nanos),
        status: status_at(device, now),
    }
}

/// Whether the list shows a device at `now` as `view`. The times that it shows
/// read back in the years 0 to 9999.
pub open spec fn shown_as(device: Device, view: DeviceView, now: Timestamp) -> bool {
    &&& view@ == shown(device, now)
    &&& is_stamp_of(view.first_seen@, device.first_seen)
    &&& is_stamp_of(view.last_seen@, device.last_seen)
}

/// The timestamps of every device are valid.
pub open spec fn all_valid(devices: Seq<Device>) -> bool {
    forall|i: int|
        0 <= i < devices.len() ==> (#[trigger] devices[i]).first_seen.valid()
            && devices[i].last_seen.valid()
}

/// The list of devices as it is shown at `now`, in the same order.
pub fn list_devices_at(devices: Vec<Device>, now: &Timestamp) -> (views: Vec<DeviceView>)
    requires
        all_valid(devices@),
        is_view_time(*now),
    ensures
        views.len() == devices.len(),
        forall|i: int|
            0 <= i < views.len() ==> shown_as(devices@[i], #[trigger] views@[i], *now),
{
    let ghost all = devices@;
    let mut views: Vec<DeviceView> = Vec::new();
    for device in it: devices
        invariant
            it.seq() == all,
            all_valid(all),
            is_view_time(*now),
            views.len() == it.index(),
            forall|i: int|
                0 <= i < views.len() ==> shown_as(all[i], #[trigger] views@[i], *now),
    {
        assert(all[it.index()] == device);
        let status = device_status(&device, now);
        let first_seen = to_rfc3339(&device.first_seen);
        let last_seen = to_rfc3339(&device.last_seen);
        views.push(
            DeviceView {
                id: device.id,
                mac: device.mac,
                ip: device.ip,
                hostname: device.hostname,
                vendor: device.vendor,
                first_seen,
                last_seen,
                status,
            },
        );
    }
    views
}

/// The list of devices as it is shown at the time of the call.
pub fn list_devices(devices: Vec<Device>) -> (views: Vec<DeviceView>)
    requires
        all_valid(devices@),
    ensures
        views.len() == devices.len(),
        exists|now: Timestamp| #[trigger]
            now.on_clock() && forall|i: int|
                0 <= i < views.len() ==> shown_as(devices@[i], #[trigger] views@[i], now),
{
    let now = Timestamp::now();
    list_devices_at(devices, &now)
}

// ---- the statistics ----

/// The summary counts and the last scan.
#[derive(Debug, Clone)]
pub struct Stats<Text = String> {
    pub total: usize,
    pub online: usize,
    pub new_last_24h: usize,
    pub unknown_vendor: usize,
    pub last_scan_started: Option<Text>,
    pub last_scan_completed: Option<Text>,
    pub last_scan_found: Option<i64>,
}

/// Tells the devices that were last seen less than 15 minutes ago.
pub open spec fn lately(now: Timestamp) -> spec_fn(Device) -> bool {
    |device: Device| seen_lately(device, now)
}

/// Tells the devices that were first seen less than 24 hours ago.
pub open spec fn first_lately(now: Timestamp) -> spec_fn(Device) -> bool {
    |device: Device| seen_first_lately(device, now)
}

/// Tells the devices whose vendor is missing or empty.
pub open spec fn no_vendor() -> spec_fn(Device) -> bool {
    |device: Device|
        match device.vendor {
            Some(vendor) => vendor@.len() == 0,
            None => true,
        }
}

/// The text of an optional point in time.
pub open spec fn opt_time_text(t: Option<Timestamp>) -> Option<Seq<char>> {
    match t {
        Some(t) => Some(rfc3339_text(t.secs, t.nanos)),
        None => None,
    }
}

/// The statistics at `now`, of these devices and the latest scan.
pub fn stats_at(devices: &Vec<Device>, latest: Option<ScanRun>, now: &Timestamp) -> (stats: Stats)
    requires
        is_view_time(*now),
        latest matches Some(run) ==> run.started_at.valid() && (run.completed_at matches Some(t)
            ==> t.valid()),
    ensures
        stats.total == devices.len(),
        stats.online == devices@.filter(lately(*now)).len(),
        stats.new_last_24h == devices@.filter(first_lately(*now)).len(),
        stats.unknown_vendor == devices@.filter(no_vendor()).len(),
        match latest {
            Some(run) => opt_text(stats.last_scan_started) == opt_time_text(Some(run.started_at))
                && opt_text(stats.last_scan_completed) == opt_time_text(run.completed_at)
                && stats.last_scan_found == Some(run.devices_found),
            None => stats.last_scan_started is None && stats.last_scan_completed is None
                && stats.last_scan_found is None,
        },
{
    let online_cutoff = now.minutes_earlier(ONLINE_WINDOW_MINUTES);
    let new_cutoff = now.hours_earlier(NEW_WINDOW_HOURS);
    let mut online: usize = 0;
    let mut new_last_24h: usize = 0;
    let mut unknown_vendor: usize = 0;
    proof {
        reveal(Seq::filter);
        assert(devices@.take(0) =~= Seq::empty());
    }
    for i in 0..devices.len()
        invariant
            online_cutoff == now.earlier_by(60 * ONLINE_WINDOW_MINUTES),
            new_cutoff == now.earlier_by(3600 * NEW_WINDOW_HOURS),
            online == devices@.take(i as int).filter(lately(*now)).len(),
            new_last_24h == devices@.take(i as int).filter(first_lately(*now)).len(),
            unknown_vendor == devices@.take(i as int).filter(no_vendor()).len(),
            online <= i,
            new_last_24h <= i,
            unknown_vendor <= i,
    {
        let device = &devices[i];
        proof {
            reveal(Seq::filter);
            assert(devices@.take(i + 1).drop_last() =~= devices@.take(i as int));
        }
        if online_cutoff.is_before(&device.last_seen) {
            online += 1;
        }
        if new_cutoff.is_before(&device.first_seen) {
            new_last_24h += 1;
        }
        let unknown = match &device.vendor {
            Some(vendor) => vendor.as_str().is_empty(),
            None => true,
        };
        if unknown {
            unknown_vendor += 1;
        }
    }
    assert(devices@.take(devices@.len() as int) =~= devices@);
    let (started, completed, found) = match latest {
        Some(run) => {
            let completed = match run.completed_at {
                Some(t) => Some(to_rfc3339(&t)),
                None => None,
            };
            (Some(to_rfc3339(&run.started_at)), completed, Some(run.devices_found))
        },
        None => (None, None, None),
    };
    Stats {
        total: devices.len(),
        online,
        new_last_24h,
        unknown_vendor,
        last_scan_started: started,
        last_scan_completed: completed,
        last_scan_found: found,
    }
}

/// The statistics at the time of the call, of these devices and the latest scan.
pub fn stats(devices: &Vec<Device>, latest: Option<ScanRun>) -> (stats: Stats)
    requires
        latest matches Some(run) ==> run.started_at.valid() && (run.completed_at matches Some(t)
            ==> t.valid()),
    ensures
        stats.total == devices.len(),
        exists|now: Timestamp| #[trigger]
            now.on_clock() && stats.online == devices@.filter(lately(now)).len()
                && stats.new_last_24h == devices@.filter(first_lately(now)).len(),
        stats.unknown_vendor == devices@.filter(no_vendor()).len(),
        match latest {
            Some(run) => opt_text(stats.last_scan_started) == opt_time_text(Some(run.started_at))
                && opt_text(stats.last_scan_completed) == opt_time_text(run.completed_at)
                && stats.last_scan_found == Some(run.devices_found),
            None => stats.last_scan_started is None && stats.last_scan_completed is None
                && stats.last_scan_found is None,
        },
{
    let now = Timestamp::now();
    stats_at(devices, latest, &now)
}

// ---- other answers ----

/// The answer to a request for an immediate scan.
#[derive(Debug, Clone, Copy)]
pub struct ScanAccepted {
    /// The HTTP status.
    pub status: u16,
    pub ok: bool,
}

/// The answer to a request for an immediate scan: it is accepted.
pub fn trigger_scan() -> (answer: ScanAccepted)
    ensures
        answer.status == 202,
        answer.ok,
{
    ScanAccepted { status: 202, ok: true }
}

/// A request that failed, and why.
#[derive(Debug)]
pub struct ApiError {
    message: String,
}

/// The answer to a request that failed.
#[derive(Debug)]
pub struct ErrorReply {
    /// The HTTP status.
    pub status: u16,
    pub error: String,
}

impl View for ApiError {
    type V = Seq<char>;

    closed spec fn view(&self) -> Seq<char> {
        self.message@
    }
}

impl ApiError {
    /// The error that is described by a message.
    pub fn from(message: String) -> (error: ApiError)
        ensures
            error@ == message@,
    {
        ApiError { message }
    }

    /// The answer to the request: an internal server error with its description.
    pub fn into_response(self) -> (reply: ErrorReply)
        ensures
            reply.status == 500,
            reply.error@ == self@,
    {
        ErrorReply { status: 500, error: self.message }
    }
}

} // verus!
