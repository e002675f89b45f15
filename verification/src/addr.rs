//! Socket addresses as plain values, the IPv4/IPv6 rules the server applies
//! to them, and LAN membership.
use vstd::prelude::*;

verus! {

/// A socket address. IP addresses are held as big-endian integers, the way
/// `u32::from(Ipv4Addr)` and `u128::from(Ipv6Addr)` produce them.
#[allow(inconsistent_fields)]
#[derive(PartialEq, Eq, Structural, Clone, Copy, Debug)]
pub enum PeerAddr {
    V4 { ip: u32, port: u16 },
    V6 { ip: u128, port: u16, flowinfo: u32, scope_id: u32 },
}

/// The embedded IPv4 address of an IPv4-compatible (`::a.b.c.d`) or
/// IPv4-mapped (`::ffff:a.b.c.d`) IPv6 address.
pub open spec fn spec_ipv6_to_ipv4(ip: u128) -> Option<u32> {
    if (ip >> 48u128) == 0 && (((ip >> 32u128) & 0xffffu128) == 0 || ((ip >> 32u128) & 0xffffu128)
        == 0xffff) {
        Some(ip as u32)
    } else {
        None
    }
}

/// An IPv6 address embeds an IPv4 address exactly when its top 96 bits are
/// all zero (`::a.b.c.d`) or are zero followed by `ffff`
/// (`::ffff:a.b.c.d`); the embedded address is the low 32 bits.
pub proof fn lemma_ipv6_embedding(ip: u128)
    ensures
        spec_ipv6_to_ipv4(ip) is Some <==> ((ip >> 32u128) == 0 || (ip >> 32u128) == 0xffff),
        spec_ipv6_to_ipv4(ip) matches Some(v) ==> v as u128 == ip & 0xffff_ffffu128,
{
    assert(((ip >> 48u128) == 0 && (((ip >> 32u128) & 0xffffu128) == 0 || ((ip >> 32u128)
        & 0xffffu128) == 0xffff)) == ((ip >> 32u128) == 0 || (ip >> 32u128) == 0xffff))
        by (bit_vector);
    assert((ip as u32) as u128 == ip & 0xffff_ffffu128) by (bit_vector);
}

/// IPv4 loopback: the network 127.0.0.0/8.
pub open spec fn spec_v4_is_loopback(ip: u32) -> bool {
    (ip >> 24u32) == 127
}

/// IPv6 loopback: exactly `::1`.
pub open spec fn spec_v6_is_loopback(ip: u128) -> bool {
    ip == 1
}

pub open spec fn spec_is_loopback(a: PeerAddr) -> bool {
    match a {
        PeerAddr::V4 { ip, .. } => spec_v4_is_loopback(ip),
        PeerAddr::V6 { ip, .. } => spec_v6_is_loopback(ip),
    }
}

pub open spec fn spec_port(a: PeerAddr) -> u16 {
    match a {
        PeerAddr::V4 { port, .. } => port,
        PeerAddr::V6 { port, .. } => port,
    }
}

/// Whether two addresses carry the same IP (same family, same value).
pub open spec fn spec_same_ip(a: PeerAddr, b: PeerAddr) -> bool {
    match (a, b) {
        (PeerAddr::V4 { ip: x, .. }, PeerAddr::V4 { ip: y, .. }) => x == y,
        (PeerAddr::V6 { ip: x, .. }, PeerAddr::V6 { ip: y, .. }) => x == y,
        _ => false,
    }
}

/// A non-loopback IPv6 address that embeds an IPv4 address becomes that
/// IPv4 address with the same port; every other address is unchanged.
pub open spec fn spec_try_into_v4(a: PeerAddr) -> PeerAddr {
    match a {
        PeerAddr::V6 { ip, port, .. } => {
            if !spec_v6_is_loopback(ip) && spec_ipv6_to_ipv4(ip) is Some {
                PeerAddr::V4 { ip: spec_ipv6_to_ipv4(ip)->0, port }
            } else {
                a
            }
        },
        PeerAddr::V4 { .. } => a,
    }
}

/// The IPv4 address embedded in an IPv6 address, if any.
pub fn ipv6_to_ipv4(ip: u128) -> (r: Option<u32>)
    ensures
        r == spec_ipv6_to_ipv4(ip),
{
    if (ip >> 48u128) == 0 {
        let seg = (ip >> 32u128) & 0xffffu128;
        if seg == 0 || seg == 0xffff {
            return Some(ip as u32);
        }
    }
    None
}

pub fn is_loopback(a: &PeerAddr) -> (r: bool)
    ensures
        r == spec_is_loopback(*a),
{
    match a {
        PeerAddr::V4 { ip, .. } => (*ip >> 24u32) == 127,
        PeerAddr::V6 { ip, .. } => *ip == 1,
    }
}

pub fn port(a: &PeerAddr) -> (r: u16)
    ensures
        r == spec_port(*a),
{
    match a {
        PeerAddr::V4 { port, .. } => *port,
        PeerAddr::V6 { port, .. } => *port,
    }
}

pub fn same_ip(a: &PeerAddr, b: &PeerAddr) -> (r: bool)
    ensures
        r == spec_same_ip(*a, *b),
{
    match (a, b) {
        (PeerAddr::V4 { ip: x, .. }, PeerAddr::V4 { ip: y, .. }) => *x == *y,
        (PeerAddr::V6 { ip: x, .. }, PeerAddr::V6 { ip: y, .. }) => *x == *y,
        _ => false,
    }
}

/// Normalises an address: an IPv4-mapped or IPv4-compatible IPv6 address
/// that is not the IPv6 loopback becomes the plain IPv4 address.
pub fn try_into_v4(addr: PeerAddr) -> (r: PeerAddr)
    ensures
        r == spec_try_into_v4(addr),
{
    match addr {
        PeerAddr::V6 { ip, port, .. } => {
            if ip != 1 {
                if let Some(v4) = ipv6_to_ipv4(ip) {
                    return PeerAddr::V4 { ip: v4, port };
                }
            }
            addr
        },
        PeerAddr::V4 { .. } => addr,
    }
}

/// Normalising twice is the same as normalising once, and the port is kept.
pub proof fn lemma_try_into_v4_idempotent(a: PeerAddr)
    ensures
        spec_try_into_v4(spec_try_into_v4(a)) == spec_try_into_v4(a),
        spec_port(spec_try_into_v4(a)) == spec_port(a),
{
}

/// The netmask of a prefix length: the `prefix` high bits set.
pub open spec fn spec_prefix_mask(prefix: u8) -> u32 {
    (!(0xffff_ffffu64 >> prefix)) as u32
}

/// Membership of `ip` in the IPv4 network `addr/prefix`: the masked
/// addresses agree.
pub open spec fn spec_network_contains(addr: u32, prefix: u8, ip: u32) -> bool {
    (ip & spec_prefix_mask(prefix)) == (addr & spec_prefix_mask(prefix))
}

/// An IPv4 address lies in `addr/prefix` exactly when its top `prefix`
/// bits equal those of `addr` (every address lies in a `/0` network).
pub proof fn lemma_network_contains_top_bits(addr: u32, prefix: u8, ip: u32)
    requires
        prefix <= 32,
    ensures
        spec_network_contains(addr, prefix, ip) == (prefix == 0 || (ip >> ((32 - prefix) as u32)) == (
        addr >> ((32 - prefix) as u32))),
{
    assert(spec_network_contains(addr, prefix, ip) == (prefix == 0 || (ip >> ((32 - prefix) as u32))
        == (addr >> ((32 - prefix) as u32)))) by (bit_vector)
        requires
            prefix <= 32,
    ;
}

/// The result of parsing a CIDR text such as `192.168.0.0/16` with
/// `ipnetwork::Ipv4Network::from_str`: the address and the prefix length.
pub uninterp spec fn spec_parse_ipv4_network(s: Seq<char>) -> Option<(u32, u8)>;

/// The IPv4 network that decides whether a peer is on the server's LAN.
#[derive(Clone, Copy)]
pub struct LanMask {
    addr: u32,
    prefix: u8,
}

impl LanMask {
    #[verifier::type_invariant]
    spec fn wf(self) -> bool {
        self.prefix <= 32
    }

    pub closed spec fn spec_addr(self) -> u32 {
        self.addr
    }

    pub closed spec fn spec_prefix(self) -> u8 {
        self.prefix
    }

    /// A network from an address and a prefix length; `None` when the
    /// prefix is longer than 32 bits.
    pub fn new(addr: u32, prefix: u8) -> (r: Option<LanMask>)
        ensures
            r is Some <==> prefix <= 32,
            r matches Some(m) ==> m.spec_addr() == addr && m.spec_prefix() == prefix,
    {
        if prefix <= 32 {
            Some(LanMask { addr, prefix })
        } else {
            None
        }
    }

    pub fn addr(&self) -> (r: u32)
        ensures
            r == self.spec_addr(),
    {
        self.addr
    }

    pub fn prefix(&self) -> (r: u8)
        ensures
            r == self.spec_prefix(),
            r <= 32,
    {
        proof {
            use_type_invariant(self);
        }
        self.prefix
    }

    /// Parses a mask argument in CIDR notation; `None` when it does not parse.
    pub fn parse(s: &str) -> (r: Option<LanMask>)
        ensures
            r is Some <==> spec_parse_ipv4_network(s@) is Some,
            r matches Some(m) ==> (m.spec_addr(), m.spec_prefix()) == spec_parse_ipv4_network(
                s@,
            )->0,
    {
        match parse_ipv4_network(s) {
            Some((addr, prefix)) => LanMask::new(addr, prefix),
            None => None,
        }
    }

    /// Whether the IPv4 address `ip` lies in this network.
    pub fn contains(&self, ip: u32) -> (r: bool)
        ensures
            r == spec_network_contains(self.spec_addr(), self.spec_prefix(), ip),
            r == (self.spec_prefix() == 0 || (ip >> ((32 - self.spec_prefix()) as u32)) == (
            self.spec_addr() >> ((32 - self.spec_prefix()) as u32))),
    {
        proof {
            use_type_invariant(self);
            lemma_network_contains_top_bits(self.addr, self.prefix, ip);
        }
        let mask: u32 = (!(0xffff_ffffu64 >> self.prefix)) as u32;
        (ip & mask) == (self.addr & mask)
    }
}

/// `ipnetwork::Ipv4Network::from_str`, with the network taken apart into
/// its address (as a big-endian integer) and its prefix length. The contract
/// names the result and states the one fact the crate's `new` guarantees:
/// the prefix of a parsed network is at most 32.
#[verifier::external_body]
fn parse_ipv4_network(s: &str) -> (r: Option<(u32, u8)>)
    ensures
        r == spec_parse_ipv4_network(s@),
        r matches Some(p) ==> p.1 <= 32,
{
    match s.parse::<ipnetwork::Ipv4Network>() {
        Ok(net) => Some((u32::from(net.ip()), net.prefix())),
        Err(_) => None,
    }
}

/// Whether an address belongs to the LAN: an IPv4 address inside the mask,
/// or an IPv6 address whose embedded IPv4 address is inside it. Without a
/// mask nothing is on the LAN.
pub open spec fn spec_is_lan(mask: Option<LanMask>, addr: PeerAddr) -> bool {
    match mask {
        None => false,
        Some(m) => match addr {
            PeerAddr::V4 { ip, .. } => spec_network_contains(m.spec_addr(), m.spec_prefix(), ip),
            PeerAddr::V6 { ip, .. } => match spec_ipv6_to_ipv4(ip) {
                Some(v4) => spec_network_contains(m.spec_addr(), m.spec_prefix(), v4),
                None => false,
            },
        },
    }
}

pub fn is_lan(mask: &Option<LanMask>, addr: &PeerAddr) -> (r: bool)
    ensures
        r == spec_is_lan(*mask, *addr),
{
    match mask {
        None => false,
        Some(m) => match addr {
            PeerAddr::V4 { ip, .. } => m.contains(*ip),
            PeerAddr::V6 { ip, .. } => match ipv6_to_ipv4(*ip) {
                Some(v4) => m.contains(v4),
                None => false,
            },
        },
    }
}

/// LAN membership does not change when an address is normalised to IPv4.
pub proof fn lemma_is_lan_after_normalising(mask: Option<LanMask>, a: PeerAddr)
    ensures
        spec_is_lan(mask, spec_try_into_v4(a)) == spec_is_lan(mask, a),
{
}

} // verus!
