//! What holds of texts, of the notation of addresses and of points in time.

use vstd::prelude::*;
use crate::db::{DeviceRecord, ScanRecord};
use crate::models::{opt_str, opt_text, Device, DeviceUpdate};
use crate::net::{hex_pair, ip_text, mac_text, octet, MacAddr};
use crate::paths::{in_dir, is_dir_name, is_file_name, lies_in, without_trailing};
use crate::text::{decimal, lines_after, lines_of, text_before, without_cr};
use crate::time::Timestamp;
use crate::web::DeviceView;

verus! {

// ---- texts ----

/// An optional text is there exactly if the string is, and is what the string says.
pub proof fn law_optional_texts(owned: String, borrowed: &str)
    ensures
        opt_text(Some(owned)) == Some(owned@),
        opt_text(None) is None,
        opt_str(Some(borrowed)) == Some(borrowed@),
        opt_str(None) is None,
{
}

/// In contracts a device, what is saved of one and what is shown of one have every field that
/// they have in programs, and so do the records of both tables.
pub proof fn law_every_field_is_seen(
    device: Device,
    update: DeviceUpdate,
    record: DeviceRecord,
    scan: ScanRecord,
    view: DeviceView,
)
    ensures
        device@ == (Device {
            id: device.id,
            mac: device.mac@,
            ip: device.ip@,
            hostname: opt_text(device.hostname),
            vendor: opt_text(device.vendor),
            first_seen: device.first_seen,
            last_seen: device.last_seen,
            is_online: device.is_online,
        }),
        update@ == (DeviceUpdate {
            mac: update.mac@,
            ip: update.ip@,
            hostname: opt_text(update.hostname),
            vendor: opt_text(update.vendor),
        }),
        record@ == (DeviceRecord {
            mac: record.mac@,
            ip: record.ip@,
            hostname: opt_text(record.hostname),
            vendor: opt_text(record.vendor),
            first_seen: record.first_seen@,
            last_seen: record.last_seen@,
            is_online: record.is_online,
        }),
        scan@ == (ScanRecord {
            started_at: scan.started_at@,
            completed_at: opt_text(scan.completed_at),
            devices_found: scan.devices_found,
        }),
        view@ == (DeviceView {
            id: view.id,
            mac: view.mac@,
            ip: view.ip@,
            hostname: opt_text(view.hostname),
            vendor: opt_text(view.vendor),
            first_seen: view.first_seen@,
            last_seen: view.last_seen@,
            status: view.status,
        }),
{
}

/// Whether `a` and `b` agree up to position `at`, and `a` ends there before `b` does
/// or has the lower character there.
pub open spec fn is_lower_at(a: Seq<char>, b: Seq<char>, at: int) -> bool {
    &&& 0 <= at <= a.len()
    &&& at < b.len()
    &&& forall|i: int| 0 <= i < at ==> a[i] == b[i]
    &&& at < a.len() ==> a[at] < b[at]
}

/// Texts are ordered by the first character in which they differ; a text stands after
/// its own beginnings.
pub proof fn law_text_order(a: Seq<char>, b: Seq<char>)
    ensures
        text_before(a, b) <==> exists|at: int| is_lower_at(a, b, at),
    decreases b.len(),
{
    if b.len() > 0 {
        if a.len() == 0 {
            assert(is_lower_at(a, b, 0));
        } else if a.first() == b.first() {
            let x = a.drop_first();
            let y = b.drop_first();
            law_text_order(x, y);
            if text_before(x, y) {
                let at = choose|at: int| is_lower_at(x, y, at);
                assert forall|i: int| 0 <= i < at + 1 implies a[i] == b[i] by {
                    if i > 0 {
                        assert(x[i - 1] == y[i - 1]);
                    }
                }
                assert(is_lower_at(a, b, at + 1));
            }
            if exists|at: int| is_lower_at(a, b, at) {
                let at = choose|at: int| is_lower_at(a, b, at);
                assert forall|i: int| 0 <= i < at - 1 implies x[i] == y[i] by {
                    assert(a[i + 1] == b[i + 1]);
                }
                assert(is_lower_at(x, y, at - 1));
            }
        } else {
            if a.first() < b.first() {
                assert(is_lower_at(a, b, 0));
            }
            if exists|at: int| is_lower_at(a, b, at) {
                let at = choose|at: int| is_lower_at(a, b, at);
                if at > 0 {
                    assert(a[0] == b[0]);
                }
            }
        }
    }
}

/// The lines of a text that starts with a whole line: that line, whether it is closed
/// by a line feed or by a carriage return and a line feed, and the lines of the rest.
/// A carriage return elsewhere is part of its line.
pub proof fn law_first_line(line: Seq<char>, rest: Seq<char>)
    requires
        forall|i: int| 0 <= i < line.len() ==> line[i] != '\n',
    ensures
        line.len() == 0 || line[line.len() - 1] != '\r' ==> lines_of(line + seq!['\n'] + rest)
            == seq![line] + lines_of(rest),
        lines_of(line + seq!['\r', '\n'] + rest) == seq![line] + lines_of(rest),
{
    lemma_first_line(Seq::empty(), line, rest);
    assert(Seq::<char>::empty() + line =~= line);
    let longer = line.push('\r');
    lemma_first_line(Seq::empty(), longer, rest);
    assert(Seq::<char>::empty() + longer =~= longer);
    assert(without_cr(longer) =~= line);
    assert(longer + seq!['\n'] + rest =~= line + seq!['\r', '\n'] + rest);
}

proof fn lemma_first_line(read: Seq<char>, line: Seq<char>, rest: Seq<char>)
    requires
        forall|i: int| 0 <= i < line.len() ==> line[i] != '\n',
    ensures
        lines_after(read, line + seq!['\n'] + rest) == seq![without_cr(read + line)] + lines_of(
            rest,
        ),
    decreases line.len(),
{
    let s = line + seq!['\n'] + rest;
    if line.len() == 0 {
        assert(s.drop_first() =~= rest);
        assert(read + line =~= read);
    } else {
        assert(line[0] != '\n');
        lemma_first_line(read.push(line.first()), line.drop_first(), rest);
        assert(s.drop_first() =~= line.drop_first() + seq!['\n'] + rest);
        assert(read.push(line.first()) + line.drop_first() =~= read + line);
    }
}

/// The last line needs no ending: a text without a line feed is one line, as it
/// stands, and the empty text has none.
pub proof fn law_last_line(line: Seq<char>)
    requires
        forall|i: int| 0 <= i < line.len() ==> line[i] != '\n',
    ensures
        line.len() > 0 ==> lines_of(line) == seq![line],
        line.len() == 0 ==> lines_of(line).len() == 0,
{
    lemma_last_line(Seq::empty(), line);
    assert(Seq::<char>::empty() + line =~= line);
}

proof fn lemma_last_line(read: Seq<char>, line: Seq<char>)
    requires
        forall|i: int| 0 <= i < line.len() ==> line[i] != '\n',
    ensures
        lines_after(read, line) == if read.len() + line.len() == 0 {
            Seq::empty()
        } else {
            seq![read + line]
        },
    decreases line.len(),
{
    if line.len() == 0 {
        assert(read + line =~= read);
    } else {
        assert(line[0] != '\n');
        lemma_last_line(read.push(line.first()), line.drop_first());
        assert(read.push(line.first()) + line.drop_first() =~= read + line);
    }
}

// ---- addresses ----

/// The decimal notation of an octet has no leading zero, and its digits spell it.
pub proof fn law_decimal_octet(n: u8)
    ensures
        n < 10 ==> decimal(n as nat) == seq![(48 + n) as char],
        10 <= n < 100 ==> decimal(n as nat) == seq![(48 + n / 10) as char, (48 + n % 10) as char],
        100 <= n ==> decimal(n as nat) == seq![
            (48 + n / 100) as char,
            (48 + n / 10 % 10) as char,
            (48 + n % 10) as char,
        ],
{
    reveal_with_fuel(decimal, 4);
    if n < 10 {
        assert(decimal(n as nat) =~= seq![(48 + n) as char]);
    } else if n < 100 {
        assert(decimal(n as nat) =~= seq![(48 + n / 10) as char, (48 + n % 10) as char]);
    } else {
        assert((n as nat) / 10 / 10 == (n / 100) as nat);
        assert(decimal(n as nat) =~= seq![
            (48 + n / 100) as char,
            (48 + n / 10 % 10) as char,
            (48 + n % 10) as char,
        ]);
    }
}

/// An IPv4 address is written as the decimal notations of its four octets, the highest
/// first, with a dot between them.
pub proof fn law_dotted_decimal(a: u8, b: u8, c: u8, d: u8, ip: u32)
    requires
        ip == a * 0x100_0000 + b * 0x1_0000 + c * 0x100 + d,
    ensures
        ip_text(ip) == decimal(a as nat) + seq!['.'] + decimal(b as nat) + seq!['.'] + decimal(
            c as nat,
        ) + seq!['.'] + decimal(d as nat),
{
    assert(ip / 0x100_0000 == a);
    assert(ip / 0x1_0000 == a * 0x100 + b);
    assert(ip / 0x100 == a * 0x1_0000 + b * 0x100 + c);
    assert(octet(ip, 0) == a as nat);
    assert(octet(ip, 1) == b as nat);
    assert(octet(ip, 2) == c as nat);
    assert(octet(ip, 3) == d as nat);
}

/// The hexadecimal digit of a number below 16: `0` to `9`, then the letters from
/// `first_letter` on.
pub open spec fn hex_character(n: int, first_letter: char) -> char {
    if n < 10 {
        (48 + n) as u8 as char
    } else {
        (first_letter as u8 + n - 10) as u8 as char
    }
}

/// A MAC is written in seventeen characters: the two lower-case hexadecimal digits of
/// each octet, and a colon between one octet and the next.
pub proof fn law_mac_notation(mac: MacAddr, at: int)
    requires
        0 <= at < 6,
    ensures
        mac_text(mac).len() == 17,
        mac_text(mac)[3 * at] == hex_character(mac.octets()[at] as int / 16, 'a'),
        mac_text(mac)[3 * at + 1] == hex_character(mac.octets()[at] as int % 16, 'a'),
        at < 5 ==> mac_text(mac)[3 * at + 2] == ':',
{
    let b = mac.octets()[at];
    assert(hex_pair(b)[0] == hex_character(b as int / 16, 'a'));
    assert(hex_pair(b)[1] == hex_character(b as int % 16, 'a'));
}

// ---- points in time ----

/// One point lies before another exactly if its second is lower, or the same and its
/// fraction is lower: the order of the nanoseconds that have passed.
pub proof fn law_time_order(a: Timestamp, b: Timestamp)
    requires
        a.nanos < 2_000_000_000,
        b.nanos < 2_000_000_000,
    ensures
        a.before(b) <==> a.secs * 2_000_000_000 + a.nanos < b.secs * 2_000_000_000 + b.nanos,
{
}

/// Going back by some seconds leaves the fraction and takes the seconds off.
pub proof fn law_going_back(t: Timestamp, secs: int)
    requires
        t.reaches_back(secs),
    ensures
        t.earlier_by(secs).secs == t.secs - secs,
        t.earlier_by(secs).nanos == t.nanos,
{
}

/// Every point from the first second of the year 0 to the last one of the year 9999 has a
/// four-digit year; a leap second among them stands at the end of a minute.
pub proof fn law_four_digit_years(t: Timestamp)
    requires
        t.nanos < 1_000_000_000 || (t.nanos < 2_000_000_000 && t.secs as int % 60 == 59),
    ensures
        t.four_digit_year() <==> -62_167_219_200 <= t.secs <= 253_402_300_799,
{
}

// ---- paths ----

/// A name without separators and colons, other than `.` and `..`, is that of a file: alone in
/// the working directory, behind `/` in the root, and behind a directory and `/` in that
/// directory, if the directory has no backslash and no colon, does not begin with two
/// separators, and ends neither in a separator nor in a dot.
pub proof fn law_file_in_directory(dir: Seq<char>, name: Seq<char>)
    requires
        name.len() > 0,
        forall|i: int|
            0 <= i < name.len() ==> #[trigger] name[i] != '/' && name[i] != '\\' && name[i] != ':',
        name != seq!['.'],
        name != seq!['.', '.'],
    ensures
        lies_in(name, Seq::empty()),
        lies_in(seq!['/'] + name, seq!['/']),
        dir.len() > 0 && (forall|i: int|
            0 <= i < dir.len() ==> #[trigger] dir[i] != '\\' && dir[i] != ':') && !(dir.len() > 1
            && dir[0] == '/' && dir[1] == '/') && dir[dir.len() - 1] != '/' && dir[dir.len() - 1]
            != '.' ==> lies_in(dir + seq!['/'] + name, dir),
        lies_in(seq!['.', '/'] + name, seq!['.']),
{
    assert(is_file_name(name));
    let here = seq!['.'];
    assert(here.last() == '.');
    assert(is_dir_name(here));
    assert(seq!['.', '/'] + name =~= here + seq!['/'] + name);
    assert(seq!['.', '/'] + name == in_dir(here, '/', name));
    let root = seq!['/'];
    assert(root.last() == '/');
    assert(root + name == in_dir(root, '/', name));
    assert(name == in_dir(Seq::empty(), '/', name));
    if is_dir_name(dir) {
        assert(dir + seq!['/'] + name == in_dir(dir, '/', name));
    }
}

/// A separator more at the end of a path does not matter.
pub proof fn law_separators_at_the_end(path: Seq<char>)
    requires
        path.len() > 0,
    ensures
        without_trailing(path.push('/')) == without_trailing(path),
        path.last() != '/' ==> without_trailing(path) == path,
{
    assert(path.push('/').drop_last() =~= path);
}

} // verus!
