//! The data that the scanner, the store and the web views share.
//!
//! Types that hold texts are generic in what a text is: `String` in programs,
//! `Seq<char>` in contracts.

use vstd::prelude::*;
use crate::net::MacAddr;
use crate::time::Timestamp;

verus! {

/// A device as it comes out of the store.
#[derive(Debug, Clone)]
pub struct Device<Text = String> {
    pub id: i64,
    /// Canonical lower-case, colon-separated MAC, such as `aa:bb:cc:dd:ee:ff`.
    pub mac: Text,
    pub ip: Text,
    pub hostname: Option<Text>,
    pub vendor: Option<Text>,
    pub first_seen: Timestamp,
    pub last_seen: Timestamp,
    pub is_online: bool,
}

/// The record of one sweep.
#[derive(Debug, Clone)]
pub struct ScanRun {
    pub id: i64,
    pub started_at: Timestamp,
    pub completed_at: Option<Timestamp>,
    pub devices_found: i64,
}

/// What the ARP scanner produces for each responding host.
#[derive(Debug, Clone, Copy, PartialEq, Eq, Structural)]
pub struct ArpHit {
    pub ip: u32,
    pub mac: MacAddr,
}

/// What a sweep has learned about one device.
#[derive(Debug, Clone)]
pub struct DeviceUpdate<Text = String> {
    pub mac: Text,
    pub ip: Text,
    pub hostname: Option<Text>,
    pub vendor: Option<Text>,
}

/// The text of an optional string.
pub open spec fn opt_text(s: Option<String>) -> Option<Seq<char>> {
    match s {
        Some(s) => Some(s@),
        None => None,
    }
}

/// The text of an optional string slice.
pub open spec fn opt_str(s: Option<&str>) -> Option<Seq<char>> {
    match s {
        Some(s) => Some(s@),
        None => None,
    }
}

impl View for Device {
    type V = Device<Seq<char>>;

    open spec fn view(&self) -> Device<Seq<char>> {
        Device {
            id: self.id,
            mac: self.mac@,
            ip: self.ip@,
            hostname: opt_text(self.hostname),
            vendor: opt_text(self.vendor),
            first_seen: self.first_seen,
            last_seen: self.last_seen,
            is_online: self.is_online,
        }
    }
}

impl View for DeviceUpdate {
    type V = DeviceUpdate<Seq<char>>;

    open spec fn view(&self) -> DeviceUpdate<Seq<char>> {
        DeviceUpdate {
            mac: self.mac@,
            ip: self.ip@,
            hostname: opt_text(self.hostname),
            vendor: opt_text(self.vendor),
        }
    }
}

} // verus!
