//! Network addresses as plain values, and what `ipnet` and `pnet` compute on
//! them. An IPv4 address is the 32-bit number that its four octets spell,
//! highest octet first.

use vstd::prelude::*;
use vstd::arithmetic::div_mod::lemma_fundamental_div_mod;
use vstd::arithmetic::power2::{
    lemma2_to64, lemma_pow2_adds, lemma_pow2_pos, lemma_pow2_strictly_increases, pow2,
};
use ipnet::Ipv4Net;
use crate::text::{decimal, digit, lower, push_decimal, to_lower};

verus! {

/// A MAC address, octet by octet.
#[derive(Clone, Copy, Debug, PartialEq, Eq, Structural)]
pub struct MacAddr(pub u8, pub u8, pub u8, pub u8, pub u8, pub u8);

impl MacAddr {
    /// The six octets in transmission order.
    pub open spec fn octets(self) -> Seq<u8> {
        seq![self.0, self.1, self.2, self.3, self.4, self.5]
    }
}

/// An IP address of either family.
#[derive(Clone, Copy, Debug, PartialEq, Eq, Structural)]
pub enum IpAddr {
    V4(u32),
    V6(u128),
}

/// An IPv4 network: an address inside it and the length of the network prefix.
#[derive(Clone, Copy, Debug, PartialEq, Eq, Structural)]
pub struct Subnet {
    pub addr: u32,
    pub prefix_len: u8,
}

impl Subnet {
    /// A prefix covers at most the whole address.
    pub open spec fn valid(self) -> bool {
        self.prefix_len <= 32
    }

    /// How many addresses the network has.
    pub open spec fn size(self) -> nat {
        pow2((32 - self.prefix_len) as nat)
    }

    /// The network address: the lowest address of the network.
    pub open spec fn network(self) -> int {
        self.addr as int - self.addr as int % self.size() as int
    }

    /// The broadcast address: the highest address of the network.
    pub open spec fn broadcast(self) -> int {
        self.network() + self.size() - 1
    }

    /// Whether an address lies in the network.
    pub open spec fn holds(self, ip: u32) -> bool {
        self.network() <= ip <= self.broadcast()
    }

    /// The lowest host address. The network address is a host only where the
    /// network has at most two addresses.
    pub open spec fn first_host(self) -> int {
        if self.prefix_len < 31 {
            self.network() + 1
        } else {
            self.network()
        }
    }

    /// The highest host address. The broadcast address is a host only where
    /// the network has at most two addresses.
    pub open spec fn last_host(self) -> int {
        if self.prefix_len < 31 {
            self.broadcast() - 1
        } else {
            self.broadcast()
        }
    }

    /// The host addresses of the network, in ascending order.
    pub open spec fn host_list(self) -> Seq<u32> {
        Seq::new(
            (self.last_host() - self.first_host() + 1) as nat,
            |i: int| (self.first_host() + i) as u32,
        )
    }

    /// Whether an address lies in the network.
    pub fn contains(&self, ip: u32) -> (inside: bool)
        requires
            self.valid(),
        ensures
            inside == self.holds(ip),
    {
        net_contains(*self, ip)
    }

    /// The network in CIDR notation.
    pub fn to_text(&self) -> (text: String)
        requires
            self.valid(),
        ensures
            text@ == subnet_text(*self),
    {
        net_display(*self)
    }
}

/// The addresses of a network are 32-bit numbers, and its address is among
/// them.
pub(crate) proof fn lemma_network_range(net: Subnet)
    requires
        net.valid(),
    ensures
        0 <= net.network() <= net.addr <= net.broadcast() <= u32::MAX,
        1 <= net.size() <= 0x1_0000_0000,
        net.prefix_len < 31 ==> net.size() >= 4,
        net.prefix_len >= 31 ==> net.size() <= 2,
{
    let size = net.size() as int;
    let count = pow2(net.prefix_len as nat) as int;
    lemma2_to64();
    lemma_pow2_pos((32 - net.prefix_len) as nat);
    lemma_pow2_adds((32 - net.prefix_len) as nat, net.prefix_len as nat);
    if net.prefix_len < 31 {
        if net.prefix_len < 30 {
            lemma_pow2_strictly_increases(2, (32 - net.prefix_len) as nat);
        }
    }
    if net.prefix_len > 0 {
        lemma_pow2_strictly_increases((32 - net.prefix_len) as nat, 32);
    }
    let addr = net.addr as int;
    let block = addr / size;
    lemma_fundamental_div_mod(addr, size);
    assert(net.network() == size * block);
    assert(block < count) by (nonlinear_arith)
        requires
            size > 0,
            size * count == 0x1_0000_0000,
            size * block <= addr,
            addr < 0x1_0000_0000,
    ;
    assert(size * block + size <= size * count) by (nonlinear_arith)
        requires
            size > 0,
            block + 1 <= count,
    ;
    assert(0 <= size * block) by (nonlinear_arith)
        requires
            size > 0,
            0 <= block,
    ;
}

/// The hosts of a network: how many there are, and that they lie in it.
pub(crate) proof fn lemma_host_list(net: Subnet)
    requires
        net.valid(),
    ensures
        1 <= net.host_list().len() <= 0xffff_fffe,
        net.host_list().len() == net.last_host() - net.first_host() + 1,
        forall|i: int|
            0 <= i < net.host_list().len() ==> #[trigger] net.host_list()[i] == net.first_host() + i
                && net.holds(net.host_list()[i]),
{
    lemma_network_range(net);
}

// ---- what ipnet computes ----

/// `Ipv4Net::contains` on an address: it lies between the network address and
/// the broadcast address, both of them included.
#[verifier::external_body]
fn net_contains(net: Subnet, ip: u32) -> (inside: bool)
    requires
        net.valid(),
    ensures
        inside == net.holds(ip),
{
    let host = Ipv4Net::new(ip.into(), 32).unwrap().addr();
    Ipv4Net::new(net.addr.into(), net.prefix_len).unwrap().contains(&host)
}

/// `Ipv4Net::hosts`, read at one position: the host addresses in ascending
/// order, without the network and broadcast addresses unless the prefix is
/// longer than 30 bits; `None` past the last one.
#[verifier::external_body]
pub(crate) fn net_host(net: Subnet, index: usize) -> (host: Option<u32>)
    requires
        net.valid(),
    ensures
        match host {
            Some(host) => index < net.host_list().len() && host == net.host_list()[index as int],
            None => index >= net.host_list().len(),
        },
{
    let host = Ipv4Net::new(net.addr.into(), net.prefix_len).unwrap().hosts().nth(index)?;
    Some(host.into())
}

/// `Ipv4Net`'s `Display`: the address, a slash and the prefix length.
#[verifier::external_body]
fn net_display(net: Subnet) -> (text: String)
    requires
        net.valid(),
    ensures
        text@ == subnet_text(net),
{
    Ipv4Net::new(net.addr.into(), net.prefix_len).unwrap().to_string()
}

/// `Ipv4Net`'s `FromStr`, on the notation that its `Display` writes: it is read
/// back as the network it was written from.
#[verifier::external_body]
fn net_parse(text: &str) -> (net: Subnet)
    requires
        exists|written: Subnet| written.valid() && text@ == #[trigger] subnet_text(written),
    ensures
        forall|written: Subnet|
            written.valid() && text@ == #[trigger] subnet_text(written) ==> net == written,
{
    let net = text.parse::<Ipv4Net>().unwrap();
    Subnet { addr: net.addr().into(), prefix_len: net.prefix_len() }
}

/// The default network to scan.
pub fn default_subnet() -> (net: Subnet)
    ensures
        net == (Subnet { addr: 0xc0a8_0100, prefix_len: 24 }),
{
    proof {
        lemma_default_subnet_text();
    }
    net_parse("192.168.1.0/24")
}

proof fn lemma_default_subnet_text()
    ensures
        "192.168.1.0/24"@ == subnet_text(Subnet { addr: 0xc0a8_0100, prefix_len: 24 }),
{
    reveal_strlit("192.168.1.0/24");
    reveal_with_fuel(decimal, 3);
    assert(decimal(192) =~= seq!['1', '9', '2']);
    assert(decimal(168) =~= seq!['1', '6', '8']);
    assert(decimal(1) =~= seq!['1']);
    assert(decimal(0) =~= seq!['0']);
    assert(decimal(24) =~= seq!['2', '4']);
    assert("192.168.1.0/24"@ =~= subnet_text(Subnet { addr: 0xc0a8_0100, prefix_len: 24 }));
}

// ---- notation ----

/// Octet `n` of an IPv4 address, counted from the highest.
pub open spec fn octet(ip: u32, n: int) -> nat {
    if n == 0 {
        (ip / 0x100_0000) as nat
    } else if n == 1 {
        (ip / 0x1_0000 % 0x100) as nat
    } else if n == 2 {
        (ip / 0x100 % 0x100) as nat
    } else {
        (ip % 0x100) as nat
    }
}

/// An IPv4 address in dotted decimal notation.
pub open spec fn ip_text(ip: u32) -> Seq<char> {
    decimal(octet(ip, 0)) + seq!['.'] + decimal(octet(ip, 1)) + seq!['.'] + decimal(octet(ip, 2))
        + seq!['.'] + decimal(octet(ip, 3))
}

/// An IPv4 network in CIDR notation.
pub open spec fn subnet_text(net: Subnet) -> Seq<char> {
    ip_text(net.addr) + seq!['/'] + decimal(net.prefix_len as nat)
}

/// Writes an IPv4 address in dotted decimal notation.
pub fn format_ip(ip: u32) -> (text: String)
    ensures
        text@ == ip_text(ip),
{
    let mut text: String = String::new();
    push_decimal(&mut text, (ip / 0x100_0000) as u8);
    text.push('.');
    push_decimal(&mut text, (ip / 0x1_0000 % 0x100) as u8);
    text.push('.');
    push_decimal(&mut text, (ip / 0x100 % 0x100) as u8);
    text.push('.');
    push_decimal(&mut text, (ip % 0x100) as u8);
    assert(text@ =~= ip_text(ip));
    text
}

/// The lower-case hexadecimal digit of value `d`.
pub open spec fn hex_digit(d: nat) -> char {
    if d < 10 {
        digit(d)
    } else {
        (87 + d) as u8 as char
    }
}

/// The two hexadecimal digits of an octet.
pub open spec fn hex_pair(b: u8) -> Seq<char> {
    seq![hex_digit(b as nat / 16), hex_digit(b as nat % 16)]
}

/// A MAC in canonical notation: six pairs of lower-case hexadecimal digits,
/// separated by colons.
pub open spec fn mac_text(mac: MacAddr) -> Seq<char> {
    hex_pair(mac.0) + seq![':'] + hex_pair(mac.1) + seq![':'] + hex_pair(mac.2) + seq![':']
        + hex_pair(mac.3) + seq![':'] + hex_pair(mac.4) + seq![':'] + hex_pair(mac.5)
}

/// `pnet::util::MacAddr`'s `Display`: the octets as pairs of lower-case
/// hexadecimal digits, separated by colons.
#[verifier::external_body]
fn mac_display(mac: MacAddr) -> (text: String)
    ensures
        text@ == mac_text(mac),
{
    pnet::util::MacAddr::new(mac.0, mac.1, mac.2, mac.3, mac.4, mac.5).to_string()
}

/// Writes a MAC in canonical notation.
pub fn format_mac(mac: MacAddr) -> (text: String)
    ensures
        text@ == mac_text(mac),
{
    let text = mac_display(mac).as_str().to_ascii_lowercase();
    proof {
        let shown = mac_text(mac);
        assert forall|i: int| 0 <= i < shown.len() implies #[trigger] lower(shown[i])
            == shown[i] by {}
        assert(to_lower(shown) =~= shown);
    }
    text
}

} // verus!
