//! IPv4 address ranges and the destination of an IPv4 packet.
use vstd::prelude::*;

verus! {

/// An IPv4 subnet: a base address and a prefix length.
#[derive(Debug, Clone, Copy, PartialEq, Eq, Structural)]
pub struct Ipv4Net {
    pub addr: u32,
    pub prefix: u8,
}

/// The top `prefix` bits of `a`.
pub open spec fn network_bits(a: u32, prefix: u8) -> u32 {
    if prefix == 0 { 0 } else { a >> ((32 - prefix) as u32) }
}

impl Ipv4Net {
    /// The prefix length is at most 32.
    pub open spec fn wf(self) -> bool {
        self.prefix <= 32
    }

    /// Whether address `ip` lies in this subnet.
    pub open spec fn contains_spec(self, ip: u32) -> bool {
        network_bits(self.addr, self.prefix) == network_bits(ip, self.prefix)
    }

    /// The subnet `addr/prefix`, if the prefix length is at most 32.
    pub fn new(addr: u32, prefix: u8) -> (r: Option<Ipv4Net>)
        ensures
            prefix <= 32 <==> r is Some,
            r matches Some(n) ==> n.addr == addr && n.prefix == prefix && n.wf(),
    {
        if prefix <= 32 { Some(Ipv4Net { addr, prefix }) } else { None }
    }

    /// Whether address `ip` lies in this subnet.
    pub fn contains(&self, ip: u32) -> (r: bool)
        requires
            self.wf(),
        ensures
            r == self.contains_spec(ip),
    {
        if self.prefix == 0 {
            true
        } else {
            let shift: u32 = (32 - self.prefix) as u32;
            (self.addr >> shift) == (ip >> shift)
        }
    }
}

/// The address `a.b.c.d`.
pub open spec fn ipv4_spec(a: u8, b: u8, c: u8, d: u8) -> u32 {
    (a as int * 16777216 + b as int * 65536 + c as int * 256 + d as int) as u32
}

/// The address `a.b.c.d`.
pub fn ipv4(a: u8, b: u8, c: u8, d: u8) -> (r: u32)
    ensures
        r == ipv4_spec(a, b, c, d),
{
    assert(a as int * 16777216 + b as int * 65536 + c as int * 256 + d as int <= 0xffff_ffff)
        by (nonlinear_arith)
        requires a <= 255, b <= 255, c <= 255, d <= 255;
    (a as u32) * 16777216 + (b as u32) * 65536 + (c as u32) * 256 + (d as u32)
}

/// The destination of an IPv4 packet: a 20-byte header at least, version 4.
pub open spec fn destination_spec(p: Seq<u8>) -> Option<u32> {
    if p.len() >= 20 && p[0] / 16 == 4 {
        Some(ipv4_spec(p[16], p[17], p[18], p[19]))
    } else {
        None
    }
}

/// The destination address of an IPv4 packet, or `None` if `p` is not one.
pub fn packet_destination(p: &[u8]) -> (r: Option<u32>)
    ensures
        r == destination_spec(p@),
{
    if p.len() >= 20 && p[0] / 16 == 4 {
        Some(ipv4(p[16], p[17], p[18], p[19]))
    } else {
        None
    }
}

/// Whether some range of `allowed` holds `ip`.
pub open spec fn any_contains(allowed: Seq<Ipv4Net>, ip: u32) -> bool {
    exists|i: int| 0 <= i < allowed.len() && (#[trigger] allowed[i]).contains_spec(ip)
}

/// Whether every range of `allowed` is well formed.
pub open spec fn all_wf(allowed: Seq<Ipv4Net>) -> bool {
    forall|i: int| 0 <= i < allowed.len() ==> (#[trigger] allowed[i]).wf()
}

/// Whether a packet bound for the transport of a peer with ranges `allowed`
/// passes the filter: always when filtering is off or the peer lists no
/// range, else only an IPv4 packet whose destination lies in some range.
pub open spec fn forward_spec(allowed: Seq<Ipv4Net>, ip_filtering: bool, p: Seq<u8>) -> bool {
    if !ip_filtering || allowed.len() == 0 {
        true
    } else {
        match destination_spec(p) {
            Some(d) => any_contains(allowed, d),
            None => false,
        }
    }
}

/// Whether some range of `allowed` holds `ip`.
pub fn any_range_contains(allowed: &[Ipv4Net], ip: u32) -> (r: bool)
    requires
        all_wf(allowed@),
    ensures
        r == any_contains(allowed@, ip),
{
    let mut i: usize = 0;
    while i < allowed.len()
        invariant
            0 <= i <= allowed@.len(),
            all_wf(allowed@),
            forall|j: int| 0 <= j < i ==> !(#[trigger] allowed@[j]).contains_spec(ip),
        decreases allowed@.len() - i,
    {
        if allowed[i].contains(ip) {
            return true;
        }
        i = i + 1;
    }
    false
}

/// Decides whether a packet passes a peer's address filter.
pub fn should_forward(allowed: &[Ipv4Net], ip_filtering: bool, p: &[u8]) -> (r: bool)
    requires
        all_wf(allowed@),
    ensures
        r == forward_spec(allowed@, ip_filtering, p@),
{
    if !ip_filtering || allowed.len() == 0 {
        return true;
    }
    match packet_destination(p) {
        Some(d) => any_range_contains(allowed, d),
        None => false,
    }
}

} // verus!
