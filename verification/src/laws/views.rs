//! What holds of the list of devices and the statistics together.

use vstd::prelude::*;
use crate::models::{opt_text, Device};
use crate::time::{is_stamp_of, rfc3339_text, Timestamp, MAX_SECS, MIN_SECS};
use crate::web::{
    first_lately, is_view_time, lately, no_vendor, opt_time_text, shown_as, status_at, DeviceView, Status,
};

verus! {

/// The statuses that the list of devices shows at `now`.
pub open spec fn statuses(devices: Seq<Device>, now: Timestamp) -> Seq<Status> {
    devices.map_values(|device: Device| status_at(device, now))
}

/// Tells one status from the others.
pub open spec fn is_status(status: Status) -> spec_fn(Status) -> bool {
    |other: Status| other == status
}

/// The statistics agree with the list: as many devices are online as the list
/// shows online; the devices first seen less than 24 hours ago are at least those
/// that it shows as new, and at most those that it shows as new or online; and each
/// device has one status.
pub proof fn law_stats_agree_with_list(devices: Seq<Device>, now: Timestamp)
    ensures
        statuses(devices, now).filter(is_status(Status::Online)).len() == devices.filter(
            lately(now),
        ).len(),
        statuses(devices, now).filter(is_status(Status::New)).len() <= devices.filter(
            first_lately(now),
        ).len(),
        devices.filter(first_lately(now)).len() <= statuses(devices, now).filter(
            is_status(Status::New),
        ).len() + statuses(devices, now).filter(is_status(Status::Online)).len(),
        statuses(devices, now).filter(is_status(Status::Online)).len() + statuses(
            devices,
            now,
        ).filter(is_status(Status::New)).len() + statuses(devices, now).filter(
            is_status(Status::Offline),
        ).len() == devices.len(),
    decreases devices.len(),
{
    reveal(Seq::filter);
    if devices.len() > 0 {
        law_stats_agree_with_list(devices.drop_last(), now);
        assert(statuses(devices, now).drop_last() =~= statuses(devices.drop_last(), now));
        assert(statuses(devices, now).last() == status_at(devices.last(), now));
    }
}

/// A device that is not seen again only ages: an offline device stays offline,
/// and one that is not online does not come online.
pub proof fn law_unseen_device_ages(device: Device, now: Timestamp, later: Timestamp)
    requires
        is_view_time(now),
        is_view_time(later),
        now.before(later),
    ensures
        status_at(device, now) == Status::Offline ==> status_at(device, later) == Status::Offline,
        status_at(device, now) != Status::Online ==> status_at(device, later) != Status::Online,
{
}

// ---- the windows, in seconds and nanoseconds ----

/// Whether `t` lies less than `secs` seconds before `now`.
pub open spec fn is_within(t: Timestamp, now: Timestamp, secs: int) -> bool {
    t.secs > now.secs - secs || (t.secs == now.secs - secs && t.nanos > now.nanos)
}

/// The status of a device is a matter of two times alone. Last seen less than 15 minutes
/// ago, it is online; else, first seen less than 24 hours ago, it is new; else it is
/// offline. Nothing else counts, what the store says of it included.
pub proof fn law_status_by_time(device: Device, now: Timestamp)
    requires
        MIN_SECS + 86_400 <= now.secs <= MAX_SECS,
    ensures
        status_at(device, now) == Status::Online <==> is_within(device.last_seen, now, 900),
        status_at(device, now) == Status::New <==> !is_within(device.last_seen, now, 900)
            && is_within(device.first_seen, now, 86_400),
        status_at(device, now) == Status::Offline <==> !is_within(device.last_seen, now, 900)
            && !is_within(device.first_seen, now, 86_400),
{
}

/// Two devices that were first and last seen at the same times have the same status, whatever
/// else is different about them.
pub proof fn law_status_of_like_devices(a: Device, b: Device, now: Timestamp)
    requires
        a.first_seen == b.first_seen,
        a.last_seen == b.last_seen,
    ensures
        status_at(a, now) == status_at(b, now),
        lately(now)(a) == lately(now)(b),
        first_lately(now)(a) == first_lately(now)(b),
{
}

/// What the statistics count: a device counts as online exactly if it was last seen less than
/// 15 minutes ago, as new exactly if it was first seen less than 24 hours ago, be it online or
/// not, and as one of unknown vendor exactly if its vendor is missing or empty.
pub proof fn law_what_is_counted(device: Device, now: Timestamp)
    requires
        MIN_SECS + 86_400 <= now.secs <= MAX_SECS,
    ensures
        lately(now)(device) <==> is_within(device.last_seen, now, 900),
        first_lately(now)(device) <==> is_within(device.first_seen, now, 86_400),
        no_vendor()(device) <==> (device.vendor matches Some(vendor) ==> vendor@.len() == 0),
{
}

/// A device is shown as it is: every field of it, its times as texts, and its status.
pub proof fn law_device_is_shown(device: Device, view: DeviceView, now: Timestamp)
    requires
        shown_as(device, view, now),
    ensures
        view.id == device.id,
        view.mac@ == device.mac@,
        view.ip@ == device.ip@,
        opt_text(view.hostname) == opt_text(device.hostname),
        opt_text(view.vendor) == opt_text(device.vendor),
        is_stamp_of(view.first_seen@, device.first_seen),
        is_stamp_of(view.last_seen@, device.last_seen),
        view.status == status_at(device, now),
{
    assert(view@.hostname == opt_text(view.hostname) && view@.vendor == opt_text(view.vendor));
    assert(view@.id == view.id && view@.mac == view.mac@ && view@.ip == view.ip@);
    assert(view@.status == view.status);
}

/// A time of the last scan is shown exactly if there is one, and as its text.
pub proof fn law_scan_times_are_shown(t: Timestamp)
    ensures
        opt_time_text(Some(t)) == Some(rfc3339_text(t.secs, t.nanos)),
        opt_time_text(None) is None,
{
}

} // verus!
