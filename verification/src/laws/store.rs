//! What holds of the two tables over several writes and reads.

use vstd::prelude::*;
use crate::db::{
    completed_record, device_of, dir_to_create, is_latest, marks_older_than, marks_stale, newest_first,
    reads_as, scan_of, seen_record, started_record, DeviceRecord, DeviceRow, ScanRow,
};
use crate::laws::sweep::{law_hits_are_distinct, law_mac_text_identifies};
use crate::models::{opt_text, Device, DeviceUpdate, ScanRun};
use crate::net::mac_text;
use crate::scanner::{hits_of, update_for, ONLINE_WINDOW_MINUTES};
use crate::text::text_before;
use crate::time::{is_stamp_of, rfc3339_instant, rfc3339_text, Timestamp};
use crate::web::{status_at, Status};

verus! {

/// A scan that has just been started is the latest one, with the time at which it
/// was started, not completed and with nothing found. Ids are given out in
/// ascending order.
pub proof fn law_started_scan_is_latest(
    rows: Seq<ScanRow>,
    row: ScanRow,
    now: Timestamp,
    latest: Option<ScanRun>,
)
    requires
        now.four_digit_year(),
        row.record@ == started_record(rfc3339_text(now.secs, now.nanos)),
        is_stamp_of(row.record.started_at@, now),
        forall|i: int| 0 <= i < rows.len() ==> (#[trigger] rows[i]).id < row.id,
        is_latest(rows.push(row), latest),
    ensures
        latest == Some(
            ScanRun { id: row.id, started_at: now, completed_at: None, devices_found: 0 },
        ),
{
    let all = rows.push(row);
    assert(row.record@.completed_at == opt_text(row.record.completed_at));
    assert(row.record@.devices_found == row.record.devices_found);
    assert(all[rows.len() as int] == row);
    let at = choose|at: int|
        0 <= at < all.len() && scan_of(#[trigger] all[at], latest->0) && forall|i: int|
            0 <= i < all.len() ==> (#[trigger] all[i]).id <= all[at].id;
    assert(all[rows.len() as int].id <= all[at].id);
}

/// A scan that has been completed, and after which none has been started, is the
/// latest one, with both of its times and with the devices it found.
pub proof fn law_completed_scan_is_latest(
    rows: Seq<ScanRow>,
    row: ScanRow,
    started: Timestamp,
    now: Timestamp,
    devices_found: i64,
    latest: Option<ScanRun>,
)
    requires
        started.four_digit_year(),
        now.four_digit_year(),
        row.record@ == completed_record(
            started_record(rfc3339_text(started.secs, started.nanos)),
            rfc3339_text(now.secs, now.nanos),
            devices_found,
        ),
        is_stamp_of(rfc3339_text(started.secs, started.nanos), started),
        is_stamp_of(rfc3339_text(now.secs, now.nanos), now),
        forall|i: int| 0 <= i < rows.len() ==> (#[trigger] rows[i]).id < row.id,
        is_latest(rows.push(row), latest),
    ensures
        latest == Some(
            ScanRun { id: row.id, started_at: started, completed_at: Some(now), devices_found },
        ),
{
    let all = rows.push(row);
    assert(row.record@.started_at == row.record.started_at@);
    assert(row.record@.completed_at == opt_text(row.record.completed_at));
    assert(row.record@.devices_found == row.record.devices_found);
    assert(all[rows.len() as int] == row);
    let at = choose|at: int|
        0 <= at < all.len() && scan_of(#[trigger] all[at], latest->0) && forall|i: int|
            0 <= i < all.len() ==> (#[trigger] all[i]).id <= all[at].id;
    assert(all[rows.len() as int].id <= all[at].id);
}


/// The table of devices, by MAC, after a device has been seen.
pub open spec fn table_after(
    table: Map<Seq<char>, DeviceRecord<Seq<char>>>,
    update: DeviceUpdate<Seq<char>>,
    seen: Seq<char>,
) -> Map<Seq<char>, DeviceRecord<Seq<char>>> {
    let known = if table.contains_key(update.mac) {
        Some(table[update.mac])
    } else {
        None
    };
    table.insert(
        update.mac,
        seen_record(known, update.mac, update.ip, update.hostname, update.vendor, seen),
    )
}

/// Seeing a device changes nothing about the others, forgets no device, leaves
/// when a known device was first seen, and loses no name and no vendor.
pub proof fn law_sighting_keeps_the_table(
    table: Map<Seq<char>, DeviceRecord<Seq<char>>>,
    update: DeviceUpdate<Seq<char>>,
    seen: Seq<char>,
    mac: Seq<char>,
)
    requires
        table.contains_key(mac),
    ensures
        table_after(table, update, seen).contains_key(mac),
        mac != update.mac ==> table_after(table, update, seen)[mac] == table[mac],
        table_after(table, update, seen)[mac].first_seen == table[mac].first_seen,
        table[mac].hostname is Some ==> table_after(table, update, seen)[mac].hostname is Some,
        table[mac].vendor is Some ==> table_after(table, update, seen)[mac].vendor is Some,
{
}

/// A device that has been seen is in the table under its MAC and no other device
/// has been added; it is online, was last seen then and, if it was unknown, first
/// seen then.
pub proof fn law_sighting_is_recorded(
    table: Map<Seq<char>, DeviceRecord<Seq<char>>>,
    update: DeviceUpdate<Seq<char>>,
    seen: Seq<char>,
)
    ensures
        table_after(table, update, seen).dom() == table.dom().insert(update.mac),
        table_after(table, update, seen)[update.mac].mac == update.mac,
        table_after(table, update, seen)[update.mac].ip == update.ip,
        table_after(table, update, seen)[update.mac].last_seen == seen,
        table_after(table, update, seen)[update.mac].is_online == 1,
        !table.contains_key(update.mac) ==> table_after(table, update, seen)[update.mac].first_seen
            == seen,
        update.hostname is Some ==> table_after(table, update, seen)[update.mac].hostname
            == update.hostname,
        update.vendor is Some ==> table_after(table, update, seen)[update.mac].vendor
            == update.vendor,
{
    assert(table_after(table, update, seen).dom() =~= table.dom().insert(update.mac));
}

/// The table of devices, by MAC, after some devices have been seen one after the
/// other.
pub open spec fn table_after_all(
    table: Map<Seq<char>, DeviceRecord<Seq<char>>>,
    updates: Seq<DeviceUpdate<Seq<char>>>,
    seen: Seq<Seq<char>>,
) -> Map<Seq<char>, DeviceRecord<Seq<char>>>
    decreases updates.len(),
{
    if updates.len() == 0 {
        table
    } else {
        table_after(
            table_after_all(table, updates.drop_last(), seen.drop_last()),
            updates.last(),
            seen.last(),
        )
    }
}

/// The hosts that one sweep heard from are saved under different MACs.
pub proof fn law_updates_are_distinct(
    frames: Seq<Seq<u8>>,
    names: Seq<Option<Seq<char>>>,
    vendors: Map<Seq<char>, Seq<char>>,
    i: int,
    j: int,
)
    requires
        0 <= i < j < hits_of(frames).len(),
    ensures
        update_for(hits_of(frames)[i], names[i], vendors).mac != update_for(
            hits_of(frames)[j],
            names[j],
            vendors,
        ).mac,
{
    law_hits_are_distinct(frames);
    let a = hits_of(frames)[i];
    let b = hits_of(frames)[j];
    assert(a.mac != b.mac);
    if mac_text(a.mac) == mac_text(b.mac) {
        law_mac_text_identifies(a.mac, b.mac);
    }
}

/// After some devices with different MACs have been seen, each of them is in the
/// table, online, with the address and the time of its own sighting; the others
/// are as they were, and nothing else has been added.
pub proof fn law_sightings_are_recorded(
    table: Map<Seq<char>, DeviceRecord<Seq<char>>>,
    updates: Seq<DeviceUpdate<Seq<char>>>,
    seen: Seq<Seq<char>>,
)
    requires
        seen.len() == updates.len(),
        forall|i: int, j: int|
            0 <= i < j < updates.len() ==> (#[trigger] updates[i]).mac != (
            #[trigger] updates[j]).mac,
    ensures
        forall|i: int|
            0 <= i < updates.len() ==> {
                let after = table_after_all(table, updates, seen);
                let update = #[trigger] updates[i];
                &&& after.contains_key(update.mac)
                &&& after[update.mac] == table_after(table, update, seen[i])[update.mac]
            },
        forall|mac: Seq<char>|
            (forall|i: int| 0 <= i < updates.len() ==> (#[trigger] updates[i]).mac != mac) ==> (
            #[trigger] table_after_all(table, updates, seen).contains_key(mac)
                == table.contains_key(mac)) && (table.contains_key(mac) ==> table_after_all(
                table,
                updates,
                seen,
            )[mac] == table[mac]),
    decreases updates.len(),
{
    if updates.len() > 0 {
        let init = updates.drop_last();
        let times = seen.drop_last();
        let last = updates.last();
        let before = table_after_all(table, init, times);
        let after = table_after_all(table, updates, seen);
        assert(updates[updates.len() - 1] == last);
        assert forall|i: int, j: int| 0 <= i < j < init.len() implies (#[trigger] init[i]).mac != (
        #[trigger] init[j]).mac by {
            assert(init[i] == updates[i] && init[j] == updates[j]);
        }
        law_sightings_are_recorded(table, init, times);
        assert forall|i: int| 0 <= i < init.len() implies (#[trigger] init[i]).mac != last.mac by {
            assert(init[i] == updates[i]);
        }
        assert(before.contains_key(last.mac) == table.contains_key(last.mac));
        assert forall|i: int| 0 <= i < updates.len() implies {
            let update = #[trigger] updates[i];
            &&& after.contains_key(update.mac)
            &&& after[update.mac] == table_after(table, update, seen[i])[update.mac]
        } by {
            if i < init.len() {
                assert(init[i] == updates[i]);
                assert(times[i] == seen[i]);
            }
        }
        assert forall|mac: Seq<char>|
            (forall|i: int| 0 <= i < updates.len() ==> (#[trigger] updates[i]).mac != mac) implies (
        #[trigger] after.contains_key(mac) == table.contains_key(mac)) && (table.contains_key(mac)
            ==> after[mac] == table[mac]) by {
            assert forall|i: int| 0 <= i < init.len() implies (#[trigger] init[i]).mac != mac by {
                assert(init[i] == updates[i]);
            }
            assert(before.contains_key(mac) == table.contains_key(mac));
        }
    }
}

/// A record after the devices last seen before `cutoff` have been marked offline.
pub open spec fn marked_record(record: DeviceRecord<Seq<char>>, cutoff: Seq<char>) -> DeviceRecord<
    Seq<char>,
> {
    if text_before(record.last_seen, cutoff) {
        DeviceRecord { is_online: 0, ..record }
    } else {
        record
    }
}

/// The table of devices, by MAC, after the devices last seen before `cutoff` have
/// been marked offline.
pub open spec fn table_marked(
    table: Map<Seq<char>, DeviceRecord<Seq<char>>>,
    cutoff: Seq<char>,
) -> Map<Seq<char>, DeviceRecord<Seq<char>>> {
    table.map_values(|record: DeviceRecord<Seq<char>>| marked_record(record, cutoff))
}

/// Whether `table` is what some rows hold, by MAC: no two rows have the same MAC,
/// and the table has each of their records and no other.
pub open spec fn is_table_of(
    rows: Seq<DeviceRow>,
    table: Map<Seq<char>, DeviceRecord<Seq<char>>>,
) -> bool {
    &&& forall|i: int, j: int|
        0 <= i < j < rows.len() ==> (#[trigger] rows[i]).record.mac@ != (
        #[trigger] rows[j]).record.mac@
    &&& forall|i: int|
        0 <= i < rows.len() ==> table.contains_key((#[trigger] rows[i]).record.mac@)
            && table[rows[i].record.mac@] == rows[i].record@
    &&& forall|mac: Seq<char>| #[trigger]
        table.contains_key(mac) ==> exists|i: int|
            0 <= i < rows.len() && (#[trigger] rows[i]).record.mac@ == mac
}

/// Marking the stale rows marks the table: it adds and loses no device.
pub proof fn law_marking_marks_the_table(
    before: Seq<DeviceRow>,
    after: Seq<DeviceRow>,
    table: Map<Seq<char>, DeviceRecord<Seq<char>>>,
    cutoff: Seq<char>,
)
    requires
        is_table_of(before, table),
        marks_stale(before, after, cutoff),
    ensures
        is_table_of(after, table_marked(table, cutoff)),
        table_marked(table, cutoff).dom() == table.dom(),
{
    let marked = table_marked(table, cutoff);
    assert(marked.dom() =~= table.dom());
    assert forall|i: int| 0 <= i < after.len() implies (#[trigger] after[i]).record@
        == marked_record(before[i].record@, cutoff) && after[i].record.mac@
        == before[i].record.mac@ by {
        assert(before[i].record@.last_seen == before[i].record.last_seen@);
        assert(before[i].record@.mac == before[i].record.mac@);
        assert(after[i].record@.mac == after[i].record.mac@);
    }
    assert forall|i: int, j: int| 0 <= i < j < after.len() implies (#[trigger] after[i]).record.mac@
        != (#[trigger] after[j]).record.mac@ by {
        assert(before[i].record.mac@ != before[j].record.mac@);
    }
    assert forall|i: int| 0 <= i < after.len() implies marked.contains_key(
        (#[trigger] after[i]).record.mac@,
    ) && marked[after[i].record.mac@] == after[i].record@ by {
        assert(table[before[i].record.mac@] == before[i].record@);
    }
    assert forall|mac: Seq<char>| #[trigger] marked.contains_key(mac) implies exists|i: int|
        0 <= i < after.len() && (#[trigger] after[i]).record.mac@ == mac by {
        assert(table.contains_key(mac));
        let i = choose|i: int| 0 <= i < before.len() && (#[trigger] before[i]).record.mac@ == mac;
        assert(after[i].record.mac@ == mac);
    }
}

/// Storing a sighting puts it into the table: in the place of the row that has its
/// MAC, or behind the others where none has it.
pub proof fn law_stored_sighting_is_in_the_table(
    rows: Seq<DeviceRow>,
    table: Map<Seq<char>, DeviceRecord<Seq<char>>>,
    update: DeviceUpdate<Seq<char>>,
    seen: Seq<char>,
    row: DeviceRow,
    at: int,
)
    requires
        is_table_of(rows, table),
        row.record@ == table_after(table, update, seen)[update.mac],
        table.contains_key(update.mac) ==> 0 <= at < rows.len() && rows[at].record.mac@
            == update.mac,
    ensures
        is_table_of(
            if table.contains_key(update.mac) {
                rows.update(at, row)
            } else {
                rows.push(row)
            },
            table_after(table, update, seen),
        ),
{
    let next = table_after(table, update, seen);
    let after = if table.contains_key(update.mac) {
        rows.update(at, row)
    } else {
        rows.push(row)
    };
    assert(row.record@.mac == row.record.mac@);
    assert(row.record.mac@ == update.mac);
    let place = if table.contains_key(update.mac) {
        at
    } else {
        rows.len() as int
    };
    assert(after[place] == row);
    assert forall|i: int| 0 <= i < after.len() && i != place implies #[trigger] after[i] == rows[i]
        && rows[i].record.mac@ != update.mac && i < rows.len() by {
        assert(table.contains_key(rows[i].record.mac@));
    }
    assert forall|i: int, j: int| 0 <= i < j < after.len() implies (#[trigger] after[i]).record.mac@
        != (#[trigger] after[j]).record.mac@ by {
        if i != place && j != place {
            assert(rows[i].record.mac@ != rows[j].record.mac@);
        }
    }
    assert forall|i: int| 0 <= i < after.len() implies next.contains_key(
        (#[trigger] after[i]).record.mac@,
    ) && next[after[i].record.mac@] == after[i].record@ by {
        if i != place {
            assert(table[rows[i].record.mac@] == rows[i].record@);
        }
    }
    assert forall|mac: Seq<char>| #[trigger] next.contains_key(mac) implies exists|i: int|
        0 <= i < after.len() && (#[trigger] after[i]).record.mac@ == mac by {
        if mac == update.mac {
            assert(after[place].record.mac@ == mac);
        } else {
            assert(table.contains_key(mac));
            let i = choose|i: int| 0 <= i < rows.len() && (#[trigger] rows[i]).record.mac@ == mac;
            assert(after[i] == rows[i]);
        }
    }
}

/// One write to the store.
pub enum StoreStep {
    /// A device was seen at this time.
    Sighting(DeviceUpdate<Seq<char>>, Timestamp),
    /// The devices were marked offline whose `last_seen` stands before this text.
    Marking(Seq<char>),
    /// A scan was recorded or completed, in the other table.
    ScanWritten,
}

/// The table of devices, by MAC, after one write to the store.
pub open spec fn table_after_step(
    table: Map<Seq<char>, DeviceRecord<Seq<char>>>,
    step: StoreStep,
) -> Map<Seq<char>, DeviceRecord<Seq<char>>> {
    match step {
        StoreStep::Sighting(update, t) => table_after(table, update, rfc3339_text(t.secs, t.nanos)),
        StoreStep::Marking(cutoff) => table_marked(table, cutoff),
        StoreStep::ScanWritten => table,
    }
}

/// The table of devices, by MAC, after a whole history of writes to a new store.
pub open spec fn table_of_history(steps: Seq<StoreStep>) -> Map<
    Seq<char>,
    DeviceRecord<Seq<char>>,
>
    decreases steps.len(),
{
    if steps.len() == 0 {
        Map::empty()
    } else {
        table_after_step(table_of_history(steps.drop_last()), steps.last())
    }
}

/// Whether a write is a sighting of this MAC.
pub open spec fn sights(step: StoreStep, mac: Seq<char>) -> bool {
    match step {
        StoreStep::Sighting(update, _) => update.mac == mac,
        _ => false,
    }
}

/// When a sighting was made.
pub open spec fn time_of(step: StoreStep) -> Timestamp
    recommends
        step is Sighting,
{
    step->Sighting_1
}

/// Whether no sighting was made at a time before that of an earlier one.
pub open spec fn clock_goes_on(steps: Seq<StoreStep>) -> bool {
    forall|i: int, j: int|
        0 <= i < j < steps.len() && (#[trigger] steps[i]) is Sighting && (
        #[trigger] steps[j]) is Sighting ==> !time_of(steps[j]).before(time_of(steps[i]))
}

/// Whether the write numbered `at` is the first sighting of this MAC.
pub open spec fn is_first_sighting(steps: Seq<StoreStep>, mac: Seq<char>, at: int) -> bool {
    &&& 0 <= at < steps.len()
    &&& sights(steps[at], mac)
    &&& forall|i: int| 0 <= i < at ==> !sights(#[trigger] steps[i], mac)
}

/// Whether the write numbered `at` is the last sighting of this MAC.
pub open spec fn is_last_sighting(steps: Seq<StoreStep>, mac: Seq<char>, at: int) -> bool {
    &&& 0 <= at < steps.len()
    &&& sights(steps[at], mac)
    &&& forall|i: int| at < i < steps.len() ==> !sights(#[trigger] steps[i], mac)
}

/// Whether a record was first seen at the write numbered `first` and last seen at the
/// one numbered `last`, which are the first and the last sighting of this MAC.
pub open spec fn was_seen(
    record: DeviceRecord<Seq<char>>,
    steps: Seq<StoreStep>,
    mac: Seq<char>,
    first: int,
    last: int,
) -> bool {
    let (from, to) = (time_of(steps[first]), time_of(steps[last]));
    &&& is_first_sighting(steps, mac, first)
    &&& is_last_sighting(steps, mac, last)
    &&& record.mac == mac
    &&& record.first_seen == rfc3339_text(from.secs, from.nanos)
    &&& record.last_seen == rfc3339_text(to.secs, to.nanos)
    &&& !to.before(from)
}

/// Over a whole history of sightings, stale marks and scans, under a clock that does
/// not go back, the table holds exactly the MACs that have been seen, each with the
/// time of its first and of its last sighting, the first not after the last.
pub proof fn law_table_is_its_history(steps: Seq<StoreStep>, mac: Seq<char>)
    requires
        clock_goes_on(steps),
    ensures
        table_of_history(steps).contains_key(mac) <==> exists|i: int|
            0 <= i < steps.len() && sights(#[trigger] steps[i], mac),
        table_of_history(steps).contains_key(mac) ==> exists|first: int, last: int|
            was_seen(table_of_history(steps)[mac], steps, mac, first, last),
    decreases steps.len(),
{
    if steps.len() > 0 {
        let init = steps.drop_last();
        let end = steps.len() - 1;
        let step = steps.last();
        let before = table_of_history(init);
        let table = table_of_history(steps);
        assert(step == steps[end]);
        assert(clock_goes_on(init)) by {
            assert forall|i: int, j: int|
                0 <= i < j < init.len() && (#[trigger] init[i]) is Sighting && (
                #[trigger] init[j]) is Sighting implies !time_of(init[j]).before(
                time_of(init[i]),
            ) by {
                assert(init[i] == steps[i] && init[j] == steps[j]);
            }
        }
        law_table_is_its_history(init, mac);
        assert forall|i: int| 0 <= i < init.len() implies #[trigger] init[i] == steps[i] by {}
        assert forall|i: int| 0 <= i < end implies #[trigger] steps[i] == init[i] by {}
        if before.contains_key(mac) {
            let (first, last) = choose|first: int, last: int|
                was_seen(before[mac], init, mac, first, last);
            assert(is_first_sighting(steps, mac, first));
            assert(sights(steps[first], mac));
            if sights(step, mac) {
                assert(is_last_sighting(steps, mac, end));
                assert(steps[first] is Sighting && steps[end] is Sighting);
                assert(was_seen(table[mac], steps, mac, first, end));
            } else {
                assert(is_last_sighting(steps, mac, last));
                assert(was_seen(table[mac], steps, mac, first, last));
            }
        } else if sights(step, mac) {
            assert(is_first_sighting(steps, mac, end));
            assert(is_last_sighting(steps, mac, end));
            assert(was_seen(table[mac], steps, mac, end, end));
        }
    }
}

/// A device that was stored when it was seen is read back, with the time at which
/// it was seen.
pub proof fn law_stored_device_reads_back(
    known: Option<DeviceRecord<Seq<char>>>,
    update: DeviceUpdate<Seq<char>>,
    now: Timestamp,
    row: DeviceRow,
    device: Device,
)
    requires
        now.four_digit_year(),
        is_stamp_of(rfc3339_text(now.secs, now.nanos), now),
        row.record@ == seen_record(
            known,
            update.mac,
            update.ip,
            update.hostname,
            update.vendor,
            rfc3339_text(now.secs, now.nanos),
        ),
        device_of(row, device),
    ensures
        device.mac@ == update.mac,
        device.ip@ == update.ip,
        device.last_seen == now,
        device.is_online,
        known is None ==> device.first_seen == now,
        update.hostname is Some ==> opt_text(device.hostname) == update.hostname,
        update.vendor is Some ==> opt_text(device.vendor) == update.vendor,
{
    assert(row.record@.mac == row.record.mac@);
    assert(row.record@.is_online == row.record.is_online);
}

/// A device that has just been seen is still online after the stale devices have
/// been marked.
pub proof fn law_seen_device_stays_online(
    before: Seq<DeviceRow>,
    after: Seq<DeviceRow>,
    at: int,
    seen: Timestamp,
    cutoff: Timestamp,
)
    requires
        marks_older_than(before, after, cutoff),
        0 <= at < before.len(),
        seen.four_digit_year(),
        before[at].record.last_seen@ == rfc3339_text(seen.secs, seen.nanos),
        !seen.before(cutoff),
        before[at].record.is_online == 1,
    ensures
        after[at].record.is_online == 1,
{
    assert(after[at].record.is_online == if seen.before(cutoff) {
        0
    } else {
        before[at].record.is_online
    });
}

/// The mark in the store agrees with the badge: after the stale devices have been
/// marked at `now`, a device that was online before and is shown online is online in
/// the store, and one that is online in the store is shown online, but for a device
/// last seen at the cutoff itself: that one is not stale yet, and its badge is
/// online no more.
pub proof fn law_mark_agrees_with_status(
    before: Seq<DeviceRow>,
    after: Seq<DeviceRow>,
    at: int,
    seen: Timestamp,
    now: Timestamp,
    device: Device,
)
    requires
        ({
            let cutoff = now.earlier_by(60 * ONLINE_WINDOW_MINUTES);
            &&& marks_stale(before, after, rfc3339_text(cutoff.secs, cutoff.nanos))
            &&& marks_older_than(before, after, cutoff)
        }),
        0 <= at < before.len(),
        seen.four_digit_year(),
        is_stamp_of(before[at].record.last_seen@, seen),
        device_of(after[at], device),
    ensures
        before[at].record.is_online != 0 && status_at(device, now) == Status::Online
            ==> device.is_online,
        device.is_online && seen != now.earlier_by(60 * ONLINE_WINDOW_MINUTES) ==> status_at(
            device,
            now,
        ) == Status::Online,
{
    let cutoff = now.earlier_by(60 * ONLINE_WINDOW_MINUTES);
    assert(after[at].record@.last_seen == after[at].record.last_seen@);
    assert(before[at].record@.last_seen == before[at].record.last_seen@);
    assert(after[at].record.last_seen@ == before[at].record.last_seen@);
    assert(device.last_seen == seen);
    assert(after[at].record.is_online == if seen.before(cutoff) {
        0
    } else {
        before[at].record.is_online
    });
}

// ---- records, field by field ----

/// A device that was unknown is recorded as it was seen: with the MAC, the address, the name
/// and the vendor of the sighting, online, first and last seen then.
pub proof fn law_first_sighting(
    mac: Seq<char>,
    ip: Seq<char>,
    hostname: Option<Seq<char>>,
    vendor: Option<Seq<char>>,
    seen: Seq<char>,
)
    ensures
        seen_record(None, mac, ip, hostname, vendor, seen) == (DeviceRecord {
            mac,
            ip,
            hostname,
            vendor,
            first_seen: seen,
            last_seen: seen,
            is_online: 1,
        }),
{
}

/// Another sighting renews the address and the last time, brings the device online, and
/// leaves when it was first seen, whatever the record said of it before; a name or a vendor
/// that the sighting lacks stays as it was, also where there was none, and one that it has
/// replaces the other. The name and the vendor do not depend on each other.
pub proof fn law_later_sighting(
    known: DeviceRecord<Seq<char>>,
    mac: Seq<char>,
    ip: Seq<char>,
    hostname: Option<Seq<char>>,
    vendor: Option<Seq<char>>,
    seen: Seq<char>,
)
    ensures
        ({
            let record = seen_record(Some(known), mac, ip, hostname, vendor, seen);
            &&& record.mac == mac
            &&& record.ip == ip
            &&& record.first_seen == known.first_seen
            &&& record.last_seen == seen
            &&& record.is_online == 1
            &&& hostname is Some ==> record.hostname == hostname
            &&& hostname is None ==> record.hostname == known.hostname
            &&& vendor is Some ==> record.vendor == vendor
            &&& vendor is None ==> record.vendor == known.vendor
        }),
{
}

/// Seeing a device twice at one time is seeing it once.
pub proof fn law_sighting_again(
    known: Option<DeviceRecord<Seq<char>>>,
    mac: Seq<char>,
    ip: Seq<char>,
    hostname: Option<Seq<char>>,
    vendor: Option<Seq<char>>,
    seen: Seq<char>,
)
    ensures
        ({
            let once = seen_record(known, mac, ip, hostname, vendor, seen);
            seen_record(Some(once), mac, ip, hostname, vendor, seen) == once
        }),
{
}

/// Marking leaves every row in its place with its id, its device and its times; it takes a
/// row offline exactly if its `last_seen` stands before the cutoff, and brings none online.
pub proof fn law_marking_row_by_row(
    before: Seq<DeviceRow>,
    after: Seq<DeviceRow>,
    cutoff: Seq<char>,
    at: int,
)
    requires
        marks_stale(before, after, cutoff),
        0 <= at < before.len(),
    ensures
        after.len() == before.len(),
        after[at].id == before[at].id,
        after[at].record.mac@ == before[at].record.mac@,
        after[at].record.ip@ == before[at].record.ip@,
        opt_text(after[at].record.hostname) == opt_text(before[at].record.hostname),
        opt_text(after[at].record.vendor) == opt_text(before[at].record.vendor),
        after[at].record.first_seen@ == before[at].record.first_seen@,
        after[at].record.last_seen@ == before[at].record.last_seen@,
        text_before(before[at].record.last_seen@, cutoff) ==> after[at].record.is_online == 0,
        !text_before(before[at].record.last_seen@, cutoff) ==> after[at].record.is_online
            == before[at].record.is_online,
{
    let x = before[at].record@;
    let y = after[at].record@;
    assert(y == if text_before(x.last_seen, cutoff) {
        DeviceRecord { is_online: 0, ..x }
    } else {
        x
    });
    assert(y.mac == x.mac && y.ip == x.ip && y.hostname == x.hostname && y.vendor == x.vendor);
    assert(y.first_seen == x.first_seen && y.last_seen == x.last_seen);
}

/// By time: of the rows last seen at a point with a four-digit year, exactly those last seen
/// before the cutoff are taken offline, whatever else they hold.
pub proof fn law_marking_by_time(
    before: Seq<DeviceRow>,
    after: Seq<DeviceRow>,
    cutoff: Timestamp,
    at: int,
    seen: Timestamp,
)
    requires
        marks_older_than(before, after, cutoff),
        0 <= at < before.len(),
        seen.four_digit_year(),
        before[at].record.last_seen@ == rfc3339_text(seen.secs, seen.nanos),
    ensures
        seen.secs < cutoff.secs || (seen.secs == cutoff.secs && seen.nanos < cutoff.nanos)
            ==> after[at].record.is_online == 0,
        !(seen.secs < cutoff.secs || (seen.secs == cutoff.secs && seen.nanos < cutoff.nanos))
            ==> after[at].record.is_online == before[at].record.is_online,
{
    assert(after[at].record.is_online == if seen.before(cutoff) {
        0
    } else {
        before[at].record.is_online
    });
}

/// A row is read field by field; the device is online exactly if the row does not say zero.
pub proof fn law_row_is_read(row: DeviceRow, device: Device)
    requires
        device_of(row, device),
    ensures
        device.id == row.id,
        device.mac@ == row.record.mac@,
        device.ip@ == row.record.ip@,
        opt_text(device.hostname) == opt_text(row.record.hostname),
        opt_text(device.vendor) == opt_text(row.record.vendor),
        device.is_online <==> row.record.is_online != 0,
        rfc3339_instant(row.record.first_seen@) matches Some((secs, nanos))
            ==> device.first_seen.secs == secs && device.first_seen.nanos == nanos,
        rfc3339_instant(row.record.last_seen@) matches Some((secs, nanos))
            ==> device.last_seen.secs == secs && device.last_seen.nanos == nanos,
{
}

/// A text that says when is read as that point; only one that does not counts as the time of
/// reading.
pub proof fn law_time_is_read(text: Seq<char>, t: Timestamp)
    requires
        reads_as(text, t),
    ensures
        rfc3339_instant(text) matches Some((secs, nanos)) ==> t.secs == secs && t.nanos == nanos,
        rfc3339_instant(text) is None ==> t.on_clock(),
{
}

/// In the list no row stands before one that was seen later.
pub proof fn law_newest_stand_first(rows: Seq<DeviceRow>, i: int, j: int)
    requires
        newest_first(rows),
        0 <= i < j < rows.len(),
    ensures
        !text_before(rows[i].record.last_seen@, rows[j].record.last_seen@),
{
}

/// The latest scan is read field by field from a row that no other row has a higher id than;
/// there is none only where there is no row.
pub proof fn law_latest_scan(rows: Seq<ScanRow>, latest: Option<ScanRun>)
    requires
        is_latest(rows, latest),
    ensures
        latest is None <==> rows.len() == 0,
        latest matches Some(run) ==> exists|at: int|
            {
                &&& 0 <= at < rows.len()
                &&& (#[trigger] rows[at]).id == run.id
                &&& run.devices_found == rows[at].record.devices_found
                &&& run.completed_at is Some <==> rows[at].record.completed_at is Some
                &&& rfc3339_instant(rows[at].record.started_at@) matches Some((secs, nanos))
                    ==> run.started_at == (Timestamp { secs, nanos })
                &&& rows[at].record.completed_at matches Some(text) ==> (rfc3339_instant(
                    text@,
                ) matches Some((secs, nanos)) ==> run.completed_at == Some(
                    Timestamp { secs, nanos },
                ))
            },
        latest matches Some(run) ==> forall|i: int|
            0 <= i < rows.len() ==> (#[trigger] rows[i]).id <= run.id,
{
    if let Some(run) = latest {
        let at = choose|at: int|
            0 <= at < rows.len() && scan_of(#[trigger] rows[at], run) && forall|i: int|
                0 <= i < rows.len() ==> (#[trigger] rows[i]).id <= rows[at].id;
        assert(rows[at].id == run.id);
    }
}

/// The directory of the database is created first, unless it is the working directory.
pub proof fn law_directory_is_created(dir: Seq<char>)
    ensures
        dir.len() > 0 ==> dir_to_create(Some(dir)) == Some(dir),
        dir.len() == 0 ==> dir_to_create(Some(dir)) is None,
        dir_to_create(None) is None,
{
}

} // verus!
