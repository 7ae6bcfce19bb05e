//! What holds of addresses, of the frames of a sweep and of what it hears.

use vstd::prelude::*;
use crate::arp::{
    be16_octets, be32, ip_octets, overwritten, reply_hit, request_frame, OPERATION_REPLY,
};
use crate::models::ArpHit;
use crate::net::{
    hex_digit, hex_pair, lemma_host_list, lemma_network_range, mac_text, subnet_text, IpAddr, MacAddr,
    Subnet,
};
use crate::scanner::{
    can_sweep, first_ip_in, heard_from, hits_of, in_subnet, other_than, sweep_targets, with_frame,
    Interface, SweepError, ARP_LISTEN_SECS, READ_TIMEOUT_MILLIS,
};

verus! {

proof fn lemma_hex_pair_identifies(a: u8, b: u8)
    requires
        hex_pair(a) == hex_pair(b),
    ensures
        a == b,
{
    assert(hex_pair(a)[0] == hex_pair(b)[0]);
    assert(hex_pair(a)[1] == hex_pair(b)[1]);
    assert(hex_digit(a as nat / 16) == hex_digit(b as nat / 16));
    assert(hex_digit(a as nat % 16) == hex_digit(b as nat % 16));
    assert(a as nat / 16 == b as nat / 16);
    assert(a as nat % 16 == b as nat % 16);
}

/// The canonical notation tells MACs apart.
pub proof fn law_mac_text_identifies(a: MacAddr, b: MacAddr)
    requires
        mac_text(a) == mac_text(b),
    ensures
        a == b,
{
    let s = mac_text(a);
    let t = mac_text(b);
    assert(s.subrange(0, 2) =~= hex_pair(a.0) && t.subrange(0, 2) =~= hex_pair(b.0));
    assert(s.subrange(3, 5) =~= hex_pair(a.1) && t.subrange(3, 5) =~= hex_pair(b.1));
    assert(s.subrange(6, 8) =~= hex_pair(a.2) && t.subrange(6, 8) =~= hex_pair(b.2));
    assert(s.subrange(9, 11) =~= hex_pair(a.3) && t.subrange(9, 11) =~= hex_pair(b.3));
    assert(s.subrange(12, 14) =~= hex_pair(a.4) && t.subrange(12, 14) =~= hex_pair(b.4));
    assert(s.subrange(15, 17) =~= hex_pair(a.5) && t.subrange(15, 17) =~= hex_pair(b.5));
    lemma_hex_pair_identifies(a.0, b.0);
    lemma_hex_pair_identifies(a.1, b.1);
    lemma_hex_pair_identifies(a.2, b.2);
    lemma_hex_pair_identifies(a.3, b.3);
    lemma_hex_pair_identifies(a.4, b.4);
    lemma_hex_pair_identifies(a.5, b.5);
}

/// A sweep asks every host of the network but the sender, and nobody else: an
/// address is asked exactly if it lies in the network, is not the sender's and,
/// in a network of more than two addresses, is neither the network address nor
/// the broadcast address.
pub proof fn law_sweep_asks_the_hosts(subnet: Subnet, src_ip: u32, ip: u32)
    requires
        subnet.valid(),
    ensures
        sweep_targets(subnet, src_ip).contains(ip) <==> subnet.holds(ip) && ip != src_ip && (
        subnet.prefix_len < 31 ==> ip != subnet.network() && ip != subnet.broadcast()),
{
    let hosts = subnet.host_list();
    let wanted = other_than(src_ip);
    lemma_host_list(subnet);
    lemma_network_range(subnet);
    if sweep_targets(subnet, src_ip).contains(ip) {
        hosts.lemma_filter_contains_rev(wanted, ip);
        let i = choose|i: int| 0 <= i < hosts.len() && hosts[i] == ip;
        assert(hosts[i] == subnet.first_host() + i);
        let j = choose|j: int|
            0 <= j < hosts.filter(wanted).len() && hosts.filter(wanted)[j] == ip;
        assert(wanted(hosts.filter(wanted)[j]));
    }
    if subnet.first_host() <= ip <= subnet.last_host() && ip != src_ip {
        let i = ip - subnet.first_host();
        assert(hosts[i] == ip);
        assert(wanted(hosts[i]));
        hosts.lemma_filter_contains(wanted, i);
    }
}

proof fn lemma_filter_keeps_ascending(hosts: Seq<u32>, wanted: spec_fn(u32) -> bool)
    requires
        forall|i: int, j: int| 0 <= i < j < hosts.len() ==> hosts[i] < hosts[j],
    ensures
        forall|i: int, j: int|
            0 <= i < j < hosts.filter(wanted).len() ==> hosts.filter(wanted)[i] < hosts.filter(
                wanted,
            )[j],
    decreases hosts.len(),
{
    reveal(Seq::filter);
    if hosts.len() > 0 {
        let init = hosts.drop_last();
        lemma_filter_keeps_ascending(init, wanted);
        let kept = init.filter(wanted);
        assert forall|i: int| 0 <= i < kept.len() implies kept[i] < hosts.last() by {
            init.lemma_filter_contains_rev(wanted, kept[i]);
            let j = choose|j: int| 0 <= j < init.len() && init[j] == kept[i];
            assert(hosts[j] < hosts[hosts.len() - 1]);
        }
    }
}

/// A sweep asks the hosts in ascending order, and so each of them once.
pub proof fn law_sweep_asks_once(subnet: Subnet, src_ip: u32)
    requires
        subnet.valid(),
    ensures
        forall|i: int, j: int|
            0 <= i < j < sweep_targets(subnet, src_ip).len() ==> sweep_targets(subnet, src_ip)[i]
                < sweep_targets(subnet, src_ip)[j],
        sweep_targets(subnet, src_ip).no_duplicates(),
{
    lemma_host_list(subnet);
    let hosts = subnet.host_list();
    assert forall|i: int, j: int| 0 <= i < j < hosts.len() implies hosts[i] < hosts[j] by {
        assert(hosts[i] == subnet.first_host() + i);
        assert(hosts[j] == subnet.first_host() + j);
    }
    lemma_filter_keeps_ascending(hosts, other_than(src_ip));
}


/// A request is never taken for a reply.
pub proof fn law_request_is_no_reply(src_mac: MacAddr, src_ip: u32, target: u32)
    ensures
        reply_hit(request_frame(src_mac, src_ip, target)) is None,
{
    let frame = request_frame(src_mac, src_ip, target);
    assert(frame[20] == 0 && frame[21] == 1);
}

proof fn lemma_ip_octets(ip: u32)
    ensures
        be32(ip_octets(ip)[0], ip_octets(ip)[1], ip_octets(ip)[2], ip_octets(ip)[3]) == ip,
{
}

/// The sender of a reply is read back: a frame that differs from the request of
/// a host only in being a reply announces that host.
pub proof fn law_reply_announces_its_sender(mac: MacAddr, ip: u32, target: u32)
    ensures
        reply_hit(overwritten(request_frame(mac, ip, target), 20, be16_octets(OPERATION_REPLY)))
            == Some(ArpHit { ip, mac }),
{
    let request = request_frame(mac, ip, target);
    let frame = overwritten(request, 20, be16_octets(OPERATION_REPLY));
    lemma_ip_octets(ip);
    assert(frame.len() == 42);
    assert(frame[12] == 0x08 && frame[13] == 0x06);
    assert(frame[20] == 0 && frame[21] == 2);
    assert(frame[22] == mac.0 && frame[23] == mac.1 && frame[24] == mac.2);
    assert(frame[25] == mac.3 && frame[26] == mac.4 && frame[27] == mac.5);
    assert(frame[28] == ip_octets(ip)[0] && frame[29] == ip_octets(ip)[1]);
    assert(frame[30] == ip_octets(ip)[2] && frame[31] == ip_octets(ip)[3]);
}

/// No MAC is counted twice.
pub proof fn law_hits_are_distinct(frames: Seq<Seq<u8>>)
    ensures
        forall|i: int, j: int|
            0 <= i < j < hits_of(frames).len() ==> (#[trigger] hits_of(frames)[i]).mac != (
            #[trigger] hits_of(frames)[j]).mac,
    decreases frames.len(),
{
    if frames.len() > 0 {
        law_hits_are_distinct(frames.drop_last());
        let before = hits_of(frames.drop_last());
        if let Some(hit) = reply_hit(frames.last()) {
            if !heard_from(before, hit.mac) {
                assert forall|i: int| 0 <= i < before.len() implies (#[trigger] before[i]).mac
                    != hit.mac by {}
            }
        }
    }
}

/// Every hit comes from a reply that arrived.
pub proof fn law_hits_are_replies(frames: Seq<Seq<u8>>, at: int)
    requires
        0 <= at < hits_of(frames).len(),
    ensures
        exists|i: int|
            0 <= i < frames.len() && reply_hit(#[trigger] frames[i]) == Some(hits_of(frames)[at]),
    decreases frames.len(),
{
    let init = frames.drop_last();
    let before = hits_of(init);
    if at < before.len() {
        law_hits_are_replies(init, at);
        let i = choose|i: int|
            0 <= i < init.len() && reply_hit(#[trigger] init[i]) == Some(before[at]);
        assert(frames[i] == init[i]);
    } else {
        assert(reply_hit(frames[frames.len() - 1]) == Some(hits_of(frames)[at]));
    }
}

/// The first reply of each MAC counts.
pub proof fn law_first_reply_counts(frames: Seq<Seq<u8>>, at: int, hit: ArpHit)
    requires
        0 <= at < frames.len(),
        reply_hit(frames[at]) == Some(hit),
        forall|i: int|
            0 <= i < at ==> (reply_hit(#[trigger] frames[i]) matches Some(other) ==> other.mac
                != hit.mac),
    ensures
        hits_of(frames).contains(hit),
    decreases frames.len(),
{
    let init = frames.drop_last();
    let before = hits_of(init);
    if at < frames.len() - 1 {
        assert(init[at] == frames[at]);
        assert forall|i: int| 0 <= i < at implies (reply_hit(#[trigger] init[i]) matches Some(other)
            ==> other.mac != hit.mac) by {
            assert(init[i] == frames[i]);
        }
        law_first_reply_counts(init, at, hit);
        let k = choose|k: int| 0 <= k < before.len() && before[k] == hit;
        assert(hits_of(frames)[k] == hit);
    } else {
        assert(!heard_from(before, hit.mac)) by {
            if heard_from(before, hit.mac) {
                let k = choose|k: int| 0 <= k < before.len() && (#[trigger] before[k]).mac == hit.mac;
                law_hits_are_replies(init, k);
                let i = choose|i: int|
                    0 <= i < init.len() && reply_hit(#[trigger] init[i]) == Some(before[k]);
                assert(init[i] == frames[i]);
            }
        }
        assert(hits_of(frames) == before.push(hit));
        assert(hits_of(frames)[before.len() as int] == hit);
    }
}

// ---- frames, octet by octet ----

/// A request for `target`, octet by octet: broadcast, from the sender's MAC; ARP for IPv4
/// over Ethernet, a request; the sender's MAC and address, an empty MAC, the target's
/// address.
pub proof fn law_request_octets(src_mac: MacAddr, src_ip: u32, target: u32)
    ensures
        ({
            let f = request_frame(src_mac, src_ip, target);
            &&& f.len() == 42
            &&& forall|i: int| 0 <= i < 6 ==> #[trigger] f[i] == 0xff
            &&& f[6] == src_mac.0 && f[7] == src_mac.1 && f[8] == src_mac.2
            &&& f[9] == src_mac.3 && f[10] == src_mac.4 && f[11] == src_mac.5
            &&& f[12] == 8 && f[13] == 6
            &&& f[14] == 0 && f[15] == 1
            &&& f[16] == 8 && f[17] == 0
            &&& f[18] == 6 && f[19] == 4
            &&& f[20] == 0 && f[21] == 1
            &&& f[22] == src_mac.0 && f[23] == src_mac.1 && f[24] == src_mac.2
            &&& f[25] == src_mac.3 && f[26] == src_mac.4 && f[27] == src_mac.5
            &&& f[28] * 0x100_0000 + f[29] * 0x1_0000 + f[30] * 0x100 + f[31] == src_ip
            &&& forall|i: int| 32 <= i < 38 ==> #[trigger] f[i] == 0
            &&& f[38] * 0x100_0000 + f[39] * 0x1_0000 + f[40] * 0x100 + f[41] == target
        }),
{
    let f = request_frame(src_mac, src_ip, target);
    assert(f[28] == ip_octets(src_ip)[0] && f[29] == ip_octets(src_ip)[1]);
    assert(f[30] == ip_octets(src_ip)[2] && f[31] == ip_octets(src_ip)[3]);
    assert(f[38] == ip_octets(target)[0] && f[39] == ip_octets(target)[1]);
    assert(f[40] == ip_octets(target)[2] && f[41] == ip_octets(target)[3]);
}

/// Every frame that is long enough and is marked as ARP and as a reply is heard, whatever
/// else it holds: its hit has the address and the MAC that stand in the sender's place.
pub proof fn law_every_reply_is_heard(frame: Seq<u8>)
    requires
        frame.len() >= 42,
        frame[12] == 8 && frame[13] == 6,
        frame[20] == 0 && frame[21] == 2,
    ensures
        reply_hit(frame) matches Some(hit) && {
            &&& hit.ip == frame[28] * 0x100_0000 + frame[29] * 0x1_0000 + frame[30] * 0x100
                + frame[31]
            &&& hit.mac.octets() == frame.subrange(22, 28)
        },
{
    let hit = reply_hit(frame)->0;
    assert(hit.mac.octets() =~= frame.subrange(22, 28));
}

/// No other frame is heard: one that is too short, or that is not marked as ARP or not as
/// a reply.
pub proof fn law_only_replies_are_heard(frame: Seq<u8>)
    requires
        frame.len() < 42 || frame[12] != 8 || frame[13] != 6 || frame[20] != 0 || frame[21] != 2,
    ensures
        reply_hit(frame) is None,
{
}

/// Two frames that agree in the octets that mark a reply and in those of the sender are
/// heard alike, whatever their destination, source, target and padding.
pub proof fn law_rest_of_a_frame_does_not_matter(a: Seq<u8>, b: Seq<u8>)
    requires
        a.len() >= 42,
        b.len() >= 42,
        a.subrange(12, 14) == b.subrange(12, 14),
        a.subrange(20, 32) == b.subrange(20, 32),
    ensures
        reply_hit(a) == reply_hit(b),
{
    assert forall|i: int| 12 <= i < 14 implies #[trigger] a[i] == b[i] by {
        assert(a.subrange(12, 14)[i - 12] == a[i]);
        assert(b.subrange(12, 14)[i - 12] == b[i]);
    }
    assert forall|i: int| 20 <= i < 32 implies #[trigger] a[i] == b[i] by {
        assert(a.subrange(20, 32)[i - 20] == a[i]);
        assert(b.subrange(20, 32)[i - 20] == b[i]);
    }
}

/// A frame adds at most one hit, behind the others: a reply of a MAC that none of them has
/// adds its sender, every other frame leaves them as they are.
pub proof fn law_frame_is_recorded(hits: Seq<ArpHit>, frame: Seq<u8>)
    ensures
        reply_hit(frame) is None ==> with_frame(hits, frame) == hits,
        reply_hit(frame) matches Some(hit) ==> {
            &&& (exists|i: int| 0 <= i < hits.len() && (#[trigger] hits[i]).mac == hit.mac)
                ==> with_frame(hits, frame) == hits
            &&& (forall|i: int| 0 <= i < hits.len() ==> (#[trigger] hits[i]).mac != hit.mac)
                ==> with_frame(hits, frame) == hits.push(hit)
        },
{
}

/// Listening on only adds hits: those of the frames so far stay, in their order, in front.
pub proof fn law_hits_stand_in_order(frames: Seq<Seq<u8>>, more: Seq<Seq<u8>>)
    ensures
        hits_of(frames).len() <= hits_of(frames + more).len(),
        hits_of(frames) == hits_of(frames + more).take(hits_of(frames).len() as int),
    decreases more.len(),
{
    let all = frames + more;
    if more.len() == 0 {
        assert(all =~= frames);
        assert(hits_of(frames).take(hits_of(frames).len() as int) =~= hits_of(frames));
    } else {
        law_hits_stand_in_order(frames, more.drop_last());
        assert(all.drop_last() =~= frames + more.drop_last());
        let before = hits_of(all.drop_last());
        let n = hits_of(frames).len() as int;
        assert(hits_of(all).take(n) =~= before.take(n));
    }
}

// ---- the interface ----

/// The address that a sweep starts from is the first IPv4 address of the interface that
/// lies in the network: it is there, and no address before it lies in the network.
pub proof fn law_first_address(ips: Seq<IpAddr>, subnet: Subnet, ip: u32)
    ensures
        first_ip_in(ips, subnet) == Some(ip) <==> exists|at: int|
            {
                &&& 0 <= at < ips.len()
                &&& #[trigger] ips[at] == IpAddr::V4(ip)
                &&& subnet.holds(ip)
                &&& forall|i: int|
                    0 <= i < at ==> (#[trigger] ips[i] matches IpAddr::V4(v4) ==> !subnet.holds(v4))
            },
    decreases ips.len(),
{
    if ips.len() > 0 {
        let rest = ips.drop_first();
        law_first_address(rest, subnet, ip);
        assert(ips.first() == ips[0]);
        if in_subnet(ips[0], subnet) {
            if first_ip_in(ips, subnet) == Some(ip) {
                assert(ips[0] == IpAddr::V4(ip));
            }
        } else {
            if first_ip_in(rest, subnet) == Some(ip) {
                let at = choose|at: int|
                    {
                        &&& 0 <= at < rest.len()
                        &&& #[trigger] rest[at] == IpAddr::V4(ip)
                        &&& subnet.holds(ip)
                        &&& forall|i: int|
                    0 <= i < at ==> (#[trigger] rest[i] matches IpAddr::V4(v4) ==> !subnet.holds(v4))
                    };
                assert(ips[at + 1] == rest[at]);
                assert forall|i: int| 0 <= i < at + 1 implies (#[trigger] ips[i] matches IpAddr::V4(v4)
                    ==> !subnet.holds(v4)) by {
                    if i > 0 {
                        assert(rest[i - 1] == ips[i]);
                    }
                }
            }
            if exists|at: int|
                {
                    &&& 0 <= at < ips.len()
                    &&& #[trigger] ips[at] == IpAddr::V4(ip)
                    &&& subnet.holds(ip)
                    &&& forall|i: int|
                    0 <= i < at ==> (#[trigger] ips[i] matches IpAddr::V4(v4) ==> !subnet.holds(v4))
                } {
                let at = choose|at: int|
                    {
                        &&& 0 <= at < ips.len()
                        &&& #[trigger] ips[at] == IpAddr::V4(ip)
                        &&& subnet.holds(ip)
                        &&& forall|i: int|
                    0 <= i < at ==> (#[trigger] ips[i] matches IpAddr::V4(v4) ==> !subnet.holds(v4))
                    };
                assert(rest[at - 1] == ips[at]);
                assert forall|i: int| 0 <= i < at - 1 implies (#[trigger] rest[i] matches IpAddr::V4(v4)
                    ==> !subnet.holds(v4)) by {
                    assert(ips[i + 1] == rest[i]);
                }
            }
        }
    }
}

/// An interface carries a sweep exactly if it is up and not the loopback, has a MAC, and
/// one of its addresses is an IPv4 address of the network; its name does not matter.
pub proof fn law_usable_interface(interface: Interface, subnet: Subnet)
    ensures
        can_sweep(interface, subnet) <==> {
            &&& interface.up
            &&& !interface.loopback
            &&& interface.mac is Some
            &&& exists|i: int|
                0 <= i < interface.ips@.len() && (#[trigger] interface.ips@[i] matches IpAddr::V4(v4)
                    && subnet.holds(v4))
        },
{
    if can_sweep(interface, subnet) {
        let i = choose|i: int|
            0 <= i < interface.ips@.len() && in_subnet(#[trigger] interface.ips@[i], subnet);
        assert(interface.ips@[i] matches IpAddr::V4(v4) && subnet.holds(v4));
    }
    if exists|i: int|
        0 <= i < interface.ips@.len() && (#[trigger] interface.ips@[i] matches IpAddr::V4(v4)
            && subnet.holds(v4)) {
        let i = choose|i: int|
            0 <= i < interface.ips@.len() && (#[trigger] interface.ips@[i] matches IpAddr::V4(v4)
                && subnet.holds(v4));
        assert(in_subnet(interface.ips@[i], subnet));
    }
}

/// What is said where a sweep cannot start names the network, or the interface and what it
/// lacks.
pub proof fn law_sweep_errors(name: String, subnet: Subnet)
    ensures
        SweepError::NoInterface.text(subnet) == "no local interface found inside "@ + subnet_text(
            subnet,
        ),
        SweepError::NoMac(name).text(subnet) == "interface "@ + name@ + " has no MAC address"@,
        SweepError::NoIpv4(name).text(subnet) == "interface "@ + name@ + " has no IPv4 in "@
            + subnet_text(subnet),
{
}

/// Replies are listened for for three seconds, in steps of a quarter of a second.
pub proof fn law_listening_times()
    ensures
        ARP_LISTEN_SECS == 3,
        1000 * ARP_LISTEN_SECS == 12 * READ_TIMEOUT_MILLIS,
{
}

} // verus!
