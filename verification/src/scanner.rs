//! The sweep and the scan around it: which interface is used, which hosts are
//! asked, which replies count, and in which order the steps of a scan follow
//! each other.

use vstd::prelude::*;
use crate::arp::{parse_arp_reply, reply_hit};
use crate::models::{opt_text, ArpHit, DeviceUpdate};
use crate::net::{
    format_ip, format_mac, ip_text, lemma_host_list, mac_text, net_host, subnet_text, IpAddr, MacAddr,
    Subnet,
};
use crate::oui::{vendor_of, OuiDb};
use crate::text::same_text;

verus! {

/// How many seconds replies are listened for after the last request.
pub const ARP_LISTEN_SECS: u64 = 3;

/// How many milliseconds one read waits for a frame while listening.
pub const READ_TIMEOUT_MILLIS: u64 = 250;

/// Devices whose `last_seen` lies less than this many minutes back are considered
/// online.
pub const ONLINE_WINDOW_MINUTES: i64 = 15;

// ---- the interface ----

/// A network interface of this machine.
#[derive(Debug, Clone)]
pub struct Interface {
    pub name: String,
    pub loopback: bool,
    pub up: bool,
    pub mac: Option<MacAddr>,
    pub ips: Vec<IpAddr>,
}

/// Why a sweep cannot start.
#[derive(Debug, Clone)]
pub enum SweepError {
    /// No local interface has an address in the network.
    NoInterface,
    /// The interface of this name has no MAC address.
    NoMac(String),
    /// The interface of this name has no IPv4 address in the network.
    NoIpv4(String),
}

/// What a sweep sends: from which interface and addresses, and to whom.
#[derive(Debug, Clone)]
pub struct SweepPlan {
    /// The position of the interface in the list that was offered.
    pub interface: usize,
    pub src_mac: MacAddr,
    pub src_ip: u32,
    pub targets: Vec<u32>,
}

/// Whether an address is an IPv4 address in the network.
pub open spec fn in_subnet(ip: IpAddr, subnet: Subnet) -> bool {
    match ip {
        IpAddr::V4(v4) => subnet.holds(v4),
        IpAddr::V6(_) => false,
    }
}

/// The first IPv4 address of a list that lies in the network.
pub open spec fn first_ip_in(ips: Seq<IpAddr>, subnet: Subnet) -> Option<u32>
    decreases ips.len(),
{
    if ips.len() == 0 {
        None
    } else if in_subnet(ips.first(), subnet) {
        match ips.first() {
            IpAddr::V4(v4) => Some(v4),
            IpAddr::V6(_) => None,
        }
    } else {
        first_ip_in(ips.drop_first(), subnet)
    }
}

/// Whether an interface can carry a sweep: it is up, it is not the loopback, it
/// has a MAC and an IPv4 address in the network.
pub open spec fn can_sweep(interface: Interface, subnet: Subnet) -> bool {
    &&& !interface.loopback
    &&& interface.up
    &&& interface.mac is Some
    &&& exists|i: int|
        0 <= i < interface.ips@.len() && in_subnet(#[trigger] interface.ips@[i], subnet)
}

proof fn lemma_first_ip_in(ips: Seq<IpAddr>, subnet: Subnet)
    ensures
        first_ip_in(ips, subnet) is Some <==> exists|i: int|
            0 <= i < ips.len() && in_subnet(#[trigger] ips[i], subnet),
        first_ip_in(ips, subnet) matches Some(ip) ==> subnet.holds(ip) && ips.contains(
            IpAddr::V4(ip),
        ),
    decreases ips.len(),
{
    if ips.len() > 0 {
        let rest = ips.drop_first();
        lemma_first_ip_in(rest, subnet);
        if in_subnet(ips.first(), subnet) {
            assert(in_subnet(ips[0], subnet));
            assert(ips[0] == ips.first());
        } else {
            if exists|i: int| 0 <= i < ips.len() && in_subnet(#[trigger] ips[i], subnet) {
                let i = choose|i: int| 0 <= i < ips.len() && in_subnet(#[trigger] ips[i], subnet);
                assert(rest[i - 1] == ips[i]);
            }
            if exists|i: int| 0 <= i < rest.len() && in_subnet(#[trigger] rest[i], subnet) {
                let i = choose|i: int| 0 <= i < rest.len() && in_subnet(#[trigger] rest[i], subnet);
                assert(ips[i + 1] == rest[i]);
            }
            if first_ip_in(rest, subnet) is Some {
                let ip = IpAddr::V4(first_ip_in(rest, subnet)->0);
                let i = choose|i: int| 0 <= i < rest.len() && rest[i] == ip;
                assert(ips[i + 1] == ip);
            }
        }
    }
}

/// The first IPv4 address of a list that lies in the network.
fn find_ip_in(ips: &Vec<IpAddr>, subnet: Subnet) -> (found: Option<u32>)
    requires
        subnet.valid(),
    ensures
        found == first_ip_in(ips@, subnet),
{
    assert(ips@.skip(0) =~= ips@);
    for i in 0..ips.len()
        invariant
            subnet.valid(),
            first_ip_in(ips@, subnet) == first_ip_in(ips@.skip(i as int), subnet),
    {
        assert(ips@.skip(i as int).drop_first() =~= ips@.skip(i + 1));
        match ips[i] {
            IpAddr::V4(v4) => {
                if subnet.contains(v4) {
                    return Some(v4);
                }
            },
            IpAddr::V6(_) => {},
        }
    }
    None
}

/// Chooses the first interface that can carry a sweep of the network, by its
/// position.
pub fn pick_interface(interfaces: &Vec<Interface>, subnet: Subnet) -> (picked: Option<usize>)
    requires
        subnet.valid(),
    ensures
        match picked {
            Some(at) => at < interfaces.len() && can_sweep(interfaces@[at as int], subnet)
                && forall|i: int| 0 <= i < at ==> !can_sweep(#[trigger] interfaces@[i], subnet),
            None => forall|i: int|
                0 <= i < interfaces.len() ==> !can_sweep(#[trigger] interfaces@[i], subnet),
        },
{
    for i in 0..interfaces.len()
        invariant
            subnet.valid(),
            forall|j: int| 0 <= j < i ==> !can_sweep(#[trigger] interfaces@[j], subnet),
    {
        let interface = &interfaces[i];
        proof {
            lemma_first_ip_in(interface.ips@, subnet);
        }
        if !interface.loopback && interface.up && interface.mac.is_some() && find_ip_in(
            &interface.ips,
            subnet,
        ).is_some() {
            return Some(i);
        }
    }
    None
}

/// The addresses from which an interface sweeps the network: its MAC and its
/// first IPv4 address there.
pub fn sweep_source(interface: &Interface, subnet: Subnet) -> (source: Result<
    (MacAddr, u32),
    SweepError,
>)
    requires
        subnet.valid(),
    ensures
        match source {
            Ok((mac, ip)) => interface.mac == Some(mac) && first_ip_in(interface.ips@, subnet)
                == Some(ip),
            Err(SweepError::NoMac(name)) => interface.mac is None && name@ == interface.name@,
            Err(SweepError::NoIpv4(name)) => interface.mac is Some && first_ip_in(
                interface.ips@,
                subnet,
            ) is None && name@ == interface.name@,
            Err(SweepError::NoInterface) => false,
        },
{
    match interface.mac {
        Some(mac) => match find_ip_in(&interface.ips, subnet) {
            Some(ip) => Ok((mac, ip)),
            None => Err(SweepError::NoIpv4(interface.name.clone())),
        },
        None => Err(SweepError::NoMac(interface.name.clone())),
    }
}

/// Tells every address but `src_ip`.
pub open spec fn other_than(src_ip: u32) -> spec_fn(u32) -> bool {
    |ip: u32| ip != src_ip
}

/// The hosts that a sweep asks: every host of the network but the sender.
pub open spec fn sweep_targets(subnet: Subnet, src_ip: u32) -> Seq<u32> {
    subnet.host_list().filter(other_than(src_ip))
}

/// Lists the hosts that a sweep asks.
pub fn list_targets(subnet: Subnet, src_ip: u32) -> (targets: Vec<u32>)
    requires
        subnet.valid(),
    ensures
        targets@ == sweep_targets(subnet, src_ip),
{
    let mut targets: Vec<u32> = Vec::new();
    let mut index: usize = 0;
    let ghost hosts = subnet.host_list();
    let ghost wanted = other_than(src_ip);
    proof {
        lemma_host_list(subnet);
        reveal(Seq::filter);
        assert(hosts.take(0).filter(wanted) =~= Seq::empty());
    }
    loop
        invariant
            subnet.valid(),
            hosts == subnet.host_list(),
            wanted == other_than(src_ip),
            index <= hosts.len(),
            hosts.len() <= 0xffff_fffe,
            targets@ == hosts.take(index as int).filter(wanted),
        ensures
            targets@ == hosts.filter(wanted),
        decreases hosts.len() - index,
    {
        match net_host(subnet, index) {
            Some(host) => {
                proof {
                    reveal(Seq::filter);
                    assert(hosts.take(index + 1).drop_last() =~= hosts.take(index as int));
                }
                if host != src_ip {
                    targets.push(host);
                }
                index += 1;
            },
            None => {
                assert(hosts.take(hosts.len() as int) =~= hosts);
                break;
            },
        }
    }
    targets
}

/// Plans a sweep of the network: the first interface that can carry it, that
/// interface's addresses, and every other host of the network.
pub fn plan_sweep(interfaces: &Vec<Interface>, subnet: Subnet) -> (plan: Result<
    SweepPlan,
    SweepError,
>)
    requires
        subnet.valid(),
    ensures
        match plan {
            Ok(plan) => {
                let at = plan.interface as int;
                &&& at < interfaces.len()
                &&& can_sweep(interfaces@[at], subnet)
                &&& forall|i: int| 0 <= i < at ==> !can_sweep(#[trigger] interfaces@[i], subnet)
                &&& interfaces@[at].mac == Some(plan.src_mac)
                &&& first_ip_in(interfaces@[at].ips@, subnet) == Some(plan.src_ip)
                &&& plan.targets@ == sweep_targets(subnet, plan.src_ip)
            },
            Err(error) => error is NoInterface && forall|i: int|
                0 <= i < interfaces.len() ==> !can_sweep(#[trigger] interfaces@[i], subnet),
        },
{
    match pick_interface(interfaces, subnet) {
        Some(at) => {
            proof {
                lemma_first_ip_in(interfaces@[at as int].ips@, subnet);
            }
            match sweep_source(&interfaces[at], subnet) {
                Ok((src_mac, src_ip)) => {
                    let targets = list_targets(subnet, src_ip);
                    Ok(SweepPlan { interface: at, src_mac, src_ip, targets })
                },
                Err(error) => Err(error),
            }
        },
        None => Err(SweepError::NoInterface),
    }
}

impl SweepError {
    /// What is said about the error, for a sweep of `subnet`.
    pub open spec fn text(self, subnet: Subnet) -> Seq<char> {
        match self {
            SweepError::NoInterface => "no local interface found inside "@ + subnet_text(subnet),
            SweepError::NoMac(name) => "interface "@ + name@ + " has no MAC address"@,
            SweepError::NoIpv4(name) => "interface "@ + name@ + " has no IPv4 in "@ + subnet_text(
                subnet,
            ),
        }
    }

    /// Describes the error, for a sweep of `subnet`.
    pub fn message(&self, subnet: Subnet) -> (message: String)
        requires
            subnet.valid(),
        ensures
            message@ == self.text(subnet),
    {
        match self {
            SweepError::NoInterface => {
                "no local interface found inside ".to_owned().concat(subnet.to_text().as_str())
            },
            SweepError::NoMac(name) => {
                "interface ".to_owned().concat(name.as_str()).concat(" has no MAC address")
            },
            SweepError::NoIpv4(name) => {
                "interface ".to_owned().concat(name.as_str()).concat(" has no IPv4 in ").concat(
                    subnet.to_text().as_str(),
                )
            },
        }
    }
}

// ---- replies ----

/// Whether one of the hits carries this MAC.
pub open spec fn heard_from(hits: Seq<ArpHit>, mac: MacAddr) -> bool {
    exists|i: int| 0 <= i < hits.len() && (#[trigger] hits[i]).mac == mac
}

/// The hits after one more frame: a reply from a MAC that has not been heard
/// from yet is added at the end, every other frame changes nothing.
pub open spec fn with_frame(hits: Seq<ArpHit>, frame: Seq<u8>) -> Seq<ArpHit> {
    match reply_hit(frame) {
        Some(hit) => if heard_from(hits, hit.mac) {
            hits
        } else {
            hits.push(hit)
        },
        None => hits,
    }
}

/// The hits of a whole listening window, from the frames in the order in which
/// they arrived.
pub open spec fn hits_of(frames: Seq<Seq<u8>>) -> Seq<ArpHit>
    decreases frames.len(),
{
    if frames.len() == 0 {
        Seq::empty()
    } else {
        with_frame(hits_of(frames.drop_last()), frames.last())
    }
}

/// Takes note of a frame. Hosts with several addresses may reply more than
/// once, so only the first reply of each MAC counts.
pub fn record_frame(hits: &mut Vec<ArpHit>, frame: &[u8])
    ensures
        final(hits)@ == with_frame(old(hits)@, frame@),
{
    match parse_arp_reply(frame) {
        Some(hit) => {
            for i in 0..hits.len()
                invariant
                    hits@ == old(hits)@,
                    reply_hit(frame@) == Some(hit),
                    forall|j: int| 0 <= j < i ==> (#[trigger] hits@[j]).mac != hit.mac,
            {
                if hits[i].mac == hit.mac {
                    return;
                }
            }
            hits.push(hit);
        },
        None => {},
    }
}

// ---- host names ----

/// The host name that a reverse lookup yields: the name it found, unless that is
/// empty or only the address again.
pub open spec fn host_name(ip: u32, found: Option<Seq<char>>) -> Option<Seq<char>> {
    match found {
        Some(name) => if name.len() > 0 && name != ip_text(ip) {
            Some(name)
        } else {
            None
        },
        None => None,
    }
}

/// The host name that a reverse lookup of `ip` yields, from what it found.
pub fn reverse_dns(ip: u32, found: Option<String>) -> (name: Option<String>)
    ensures
        opt_text(name) == host_name(ip, opt_text(found)),
{
    match found {
        Some(name) => {
            if !name.as_str().is_empty() && !same_text(name.as_str(), format_ip(ip).as_str()) {
                Some(name)
            } else {
                None
            }
        },
        None => None,
    }
}

// ---- a scan, step by step ----

/// Where a scan stands.
#[derive(Debug, Clone, Copy, PartialEq, Eq, Structural)]
pub enum ScanPhase {
    /// The scan is being recorded.
    Starting,
    /// The network is being swept.
    Sweeping,
    /// The name of a host is being looked up.
    Resolving,
    /// A device is being saved.
    Saving,
    /// Stale devices are being marked offline.
    Marking,
    /// The scan is being recorded as completed.
    Finishing,
    /// Nothing is left to do.
    Over,
}

/// How the last step of a scan came out.
#[derive(Debug, Clone)]
pub enum ScanEvent {
    /// The scan has been recorded under this id.
    Started(i64),
    /// These hosts answered the sweep.
    Swept(Vec<ArpHit>),
    /// The reverse lookup ended with this name, or with none.
    NameFound(Option<String>),
    /// The device was saved, or saving it failed.
    SaveDone(bool),
    /// Stale devices have been marked offline.
    StaleMarked,
    /// The scan has been recorded as completed.
    Finished,
    /// A step other than saving a device has failed.
    Failed,
}

/// What a scan does next.
#[derive(Debug, Clone)]
pub enum ScanAction<Text = String> {
    /// Record a new scan.
    StartScan,
    /// Sweep the network.
    Sweep,
    /// Look up the name of this address.
    ResolveName(u32),
    /// Save what is known about a device.
    SaveDevice(DeviceUpdate<Text>),
    /// Mark the devices offline that have not been seen for so many minutes.
    MarkStale(i64),
    /// Record the scan of this id as completed, with so many devices found.
    FinishScan(i64, i64),
    /// The scan succeeded and so many hosts answered.
    Complete(usize),
    /// The scan failed.
    Abort,
}

impl View for ScanAction {
    type V = ScanAction<Seq<char>>;

    open spec fn view(&self) -> ScanAction<Seq<char>> {
        match *self {
            ScanAction::StartScan => ScanAction::StartScan,
            ScanAction::Sweep => ScanAction::Sweep,
            ScanAction::ResolveName(ip) => ScanAction::ResolveName(ip),
            ScanAction::SaveDevice(update) => ScanAction::SaveDevice(update@),
            ScanAction::MarkStale(minutes) => ScanAction::MarkStale(minutes),
            ScanAction::FinishScan(id, found) => ScanAction::FinishScan(id, found),
            ScanAction::Complete(found) => ScanAction::Complete(found),
            ScanAction::Abort => ScanAction::Abort,
        }
    }
}

/// The state of a scan: its phase, the id it was recorded under, the hosts that
/// answered, and how many of them have been dealt with.
#[verifier::ext_equal]
pub struct ScanState {
    pub phase: ScanPhase,
    pub scan_id: i64,
    pub hits: Seq<ArpHit>,
    pub done: nat,
}

impl ScanState {
    /// No more hosts are dealt with than answered, and there is one at hand
    /// while a name is looked up or a device saved.
    pub open spec fn valid(self) -> bool {
        &&& self.done <= self.hits.len()
        &&& (self.phase == ScanPhase::Resolving || self.phase == ScanPhase::Saving) ==> self.done
            < self.hits.len()
    }
}

/// The state in which a scan begins.
pub open spec fn first_state() -> ScanState {
    ScanState { phase: ScanPhase::Starting, scan_id: 0, hits: Seq::empty(), done: 0 }
}

/// What is saved of a host that answered.
pub open spec fn update_for(
    hit: ArpHit,
    found: Option<Seq<char>>,
    vendors: Map<Seq<char>, Seq<char>>,
) -> DeviceUpdate<Seq<char>> {
    DeviceUpdate {
        mac: mac_text(hit.mac),
        ip: ip_text(hit.ip),
        hostname: host_name(hit.ip, found),
        vendor: vendor_of(vendors, mac_text(hit.mac)),
    }
}

/// The state in which the host numbered `done` is taken up, or the stale devices
/// if no host is left.
pub open spec fn at_host(state: ScanState, done: nat) -> ScanState {
    ScanState {
        phase: if done < state.hits.len() {
            ScanPhase::Resolving
        } else {
            ScanPhase::Marking
        },
        done,
        ..state
    }
}

/// The action that takes up the host numbered `done`, or the stale devices if no
/// host is left.
pub open spec fn host_action(hits: Seq<ArpHit>, done: nat) -> ScanAction<Seq<char>> {
    if done < hits.len() {
        ScanAction::ResolveName(hits[done as int].ip)
    } else {
        ScanAction::MarkStale(ONLINE_WINDOW_MINUTES)
    }
}

/// The state of a scan after an event. An event that does not answer the last
/// action, a failure among them, ends the scan.
pub open spec fn state_after(state: ScanState, event: ScanEvent) -> ScanState {
    match (state.phase, event) {
        (ScanPhase::Starting, ScanEvent::Started(id)) => ScanState {
            phase: ScanPhase::Sweeping,
            scan_id: id,
            ..state
        },
        (ScanPhase::Sweeping, ScanEvent::Swept(hits)) => at_host(
            ScanState { hits: hits@, ..state },
            0,
        ),
        (ScanPhase::Resolving, ScanEvent::NameFound(_)) => ScanState {
            phase: ScanPhase::Saving,
            ..state
        },
        (ScanPhase::Saving, ScanEvent::SaveDone(_)) => at_host(state, state.done + 1),
        (ScanPhase::Marking, ScanEvent::StaleMarked) => ScanState {
            phase: ScanPhase::Finishing,
            ..state
        },
        _ => ScanState { phase: ScanPhase::Over, ..state },
    }
}

/// The action that answers an event.
pub open spec fn action_after(
    state: ScanState,
    event: ScanEvent,
    vendors: Map<Seq<char>, Seq<char>>,
) -> ScanAction<Seq<char>> {
    match (state.phase, event) {
        (ScanPhase::Starting, ScanEvent::Started(_)) => ScanAction::Sweep,
        (ScanPhase::Sweeping, ScanEvent::Swept(hits)) => host_action(hits@, 0),
        (ScanPhase::Resolving, ScanEvent::NameFound(found)) => ScanAction::SaveDevice(
            update_for(state.hits[state.done as int], opt_text(found), vendors),
        ),
        (ScanPhase::Saving, ScanEvent::SaveDone(_)) => host_action(state.hits, state.done + 1),
        (ScanPhase::Marking, ScanEvent::StaleMarked) => ScanAction::FinishScan(
            state.scan_id,
            state.hits.len() as i64,
        ),
        (ScanPhase::Finishing, ScanEvent::Finished) => ScanAction::Complete(
            state.hits.len() as usize,
        ),
        _ => ScanAction::Abort,
    }
}

/// A scan in progress: it is told how each step came out and says what to do
/// next.
pub struct Scan {
    phase: ScanPhase,
    scan_id: i64,
    hits: Vec<ArpHit>,
    done: usize,
}

impl View for Scan {
    type V = ScanState;

    closed spec fn view(&self) -> ScanState {
        ScanState {
            phase: self.phase,
            scan_id: self.scan_id,
            hits: self.hits@,
            done: self.done as nat,
        }
    }
}

impl Scan {
    /// A new scan, and its first action.
    pub fn begin() -> (start: (Scan, ScanAction))
        ensures
            start.0@ == first_state(),
            start.0@.valid(),
            start.1 is StartScan,
    {
        let scan = Scan { phase: ScanPhase::Starting, scan_id: 0, hits: Vec::new(), done: 0 };
        assert(scan@ =~= first_state());
        (scan, ScanAction::StartScan)
    }

    /// Takes up the host numbered `done`, or the stale devices if no host is
    /// left.
    fn take_up(&mut self, done: usize) -> (action: ScanAction)
        requires
            done <= old(self)@.hits.len(),
        ensures
            final(self)@ == at_host(old(self)@, done as nat),
            action@ == host_action(old(self)@.hits, done as nat),
    {
        self.done = done;
        if done < self.hits.len() {
            self.phase = ScanPhase::Resolving;
            ScanAction::ResolveName(self.hits[done].ip)
        } else {
            self.phase = ScanPhase::Marking;
            ScanAction::MarkStale(ONLINE_WINDOW_MINUTES)
        }
    }
}

/// Takes note of how the last action came out and says what to do next. A
/// device that could not be saved does not stop the scan; any other failure
/// does.
pub fn run_scan_once(scan: &mut Scan, event: ScanEvent, oui: &OuiDb) -> (action: ScanAction)
    requires
        old(scan)@.valid(),
    ensures
        final(scan)@ == state_after(old(scan)@, event),
        final(scan)@.valid(),
        action@ == action_after(old(scan)@, event, oui@),
{
    match (scan.phase, event) {
        (ScanPhase::Starting, ScanEvent::Started(id)) => {
            scan.scan_id = id;
            scan.phase = ScanPhase::Sweeping;
            ScanAction::Sweep
        },
        (ScanPhase::Sweeping, ScanEvent::Swept(hits)) => {
            scan.hits = hits;
            scan.take_up(0)
        },
        (ScanPhase::Resolving, ScanEvent::NameFound(found)) => {
            let hit = scan.hits[scan.done];
            let mac = format_mac(hit.mac);
            let vendor = match oui.lookup(mac.as_str()) {
                Some(vendor) => Some(vendor.to_owned()),
                None => None,
            };
            let hostname = reverse_dns(hit.ip, found);
            scan.phase = ScanPhase::Saving;
            ScanAction::SaveDevice(
                DeviceUpdate { mac, ip: format_ip(hit.ip), hostname, vendor },
            )
        },
        (ScanPhase::Saving, ScanEvent::SaveDone(_)) => {
            let total = scan.hits.len();
            assert(scan.done < total);
            let next = scan.done + 1;
            scan.take_up(next)
        },
        (ScanPhase::Marking, ScanEvent::StaleMarked) => {
            scan.phase = ScanPhase::Finishing;
            ScanAction::FinishScan(scan.scan_id, scan.hits.len() as i64)
        },
        (ScanPhase::Finishing, ScanEvent::Finished) => {
            scan.phase = ScanPhase::Over;
            ScanAction::Complete(scan.hits.len())
        },
        _ => {
            scan.phase = ScanPhase::Over;
            ScanAction::Abort
        },
    }
}

} // verus!
