//! Minimal Ethernet and IPv4 framing: just what a TCP probe needs on the way
//! out and what reply correlation needs on the way back in.

use vstd::prelude::*;

use crate::addr::{Ipv4Addr, MacAddr};
use crate::checksum::{checksum16, internet_checksum};
use crate::wire::{u16_hi, u16_lo};

verus! {

/// The protocol number that IPv4 assigns to TCP.
pub const IP_PROTO_TCP: u8 = 6;

/// The fields of an enclosing IPv4 header that the TCP codec and the probe
/// framing read: addresses and protocol feed the pseudo-header checksum,
/// the TTL feeds the emitted header.
#[derive(Clone, Copy, Debug, PartialEq, Eq)]
pub struct Ipv4PacketHeader {
    pub src: Ipv4Addr,
    pub dst: Ipv4Addr,
    pub ttl: u8,
    pub protocol: u8,
}

impl Ipv4PacketHeader {
    pub fn new(src: Ipv4Addr, dst: Ipv4Addr, ttl: u8, protocol: u8) -> (r: Ipv4PacketHeader)
        ensures
            r == (Ipv4PacketHeader { src, dst, ttl, protocol }),
    {
        Ipv4PacketHeader { src, dst, ttl, protocol }
    }
}

/// The EtherType of IPv4, as its two network-order bytes.
pub const ETHERTYPE_IPV4_HI: u8 = 8;

pub const ETHERTYPE_IPV4_LO: u8 = 0;

/// The fourteen bytes of an Ethernet header carrying IPv4: destination,
/// source, EtherType 0x0800.
pub open spec fn ether_header_bytes(dst: MacAddr, src: MacAddr) -> Seq<u8> {
    dst.octets_seq() + src.octets_seq() + seq![ETHERTYPE_IPV4_HI, ETHERTYPE_IPV4_LO]
}

/// Appends an Ethernet header carrying IPv4.
pub fn encode_ether_header(dst: &MacAddr, src: &MacAddr, out: &mut Vec<u8>)
    ensures
        final(out)@ == old(out)@ + ether_header_bytes(*dst, *src),
{
    out.push(dst.a);
    out.push(dst.b);
    out.push(dst.c);
    out.push(dst.d);
    out.push(dst.e);
    out.push(dst.f);
    out.push(src.a);
    out.push(src.b);
    out.push(src.c);
    out.push(src.d);
    out.push(src.e);
    out.push(src.f);
    out.push(ETHERTYPE_IPV4_HI);
    out.push(ETHERTYPE_IPV4_LO);
    proof {
        assert(out@ =~= old(out)@ + ether_header_bytes(*dst, *src));
    }
}

/// The twenty bytes of an option-less IPv4 header around a body of the given
/// length, with a given value in the header-checksum field: version 4,
/// header length 5 words, no fragmentation, identification zero.
pub open spec fn ipv4_header_bytes_ck(h: Ipv4PacketHeader, body_len: int, ck: u16) -> Seq<u8> {
    seq![
        0x45u8,
        0u8,
        u16_hi((20 + body_len) as u16),
        u16_lo((20 + body_len) as u16),
        0u8,
        0u8,
        0u8,
        0u8,
        h.ttl,
        h.protocol,
        u16_hi(ck),
        u16_lo(ck),
        h.src.a,
        h.src.b,
        h.src.c,
        h.src.d,
        h.dst.a,
        h.dst.b,
        h.dst.c,
        h.dst.d,
    ]
}

/// The header checksum: the Internet checksum of the header with a zero
/// checksum field.
pub open spec fn ipv4_checksum(h: Ipv4PacketHeader, body_len: int) -> u16 {
    checksum16(ipv4_header_bytes_ck(h, body_len, 0))
}

/// The emitted IPv4 header, checksum filled in.
pub open spec fn ipv4_header_bytes(h: Ipv4PacketHeader, body_len: int) -> Seq<u8> {
    ipv4_header_bytes_ck(h, body_len, ipv4_checksum(h, body_len))
}

/// Appends an option-less IPv4 header around a body of the given length.
pub fn encode_ipv4_header(h: &Ipv4PacketHeader, body_len: usize, out: &mut Vec<u8>)
    requires
        20 + body_len <= 0xffff,
    ensures
        final(out)@ == old(out)@ + ipv4_header_bytes(*h, body_len as int),
{
    let total: u16 = 20 + body_len as u16;
    let mut hdr: Vec<u8> = Vec::new();
    hdr.push(0x45);
    hdr.push(0);
    hdr.push((total / 256) as u8);
    hdr.push((total % 256) as u8);
    hdr.push(0);
    hdr.push(0);
    hdr.push(0);
    hdr.push(0);
    hdr.push(h.ttl);
    hdr.push(h.protocol);
    hdr.push(0);
    hdr.push(0);
    hdr.push(h.src.a);
    hdr.push(h.src.b);
    hdr.push(h.src.c);
    hdr.push(h.src.d);
    hdr.push(h.dst.a);
    hdr.push(h.dst.b);
    hdr.push(h.dst.c);
    hdr.push(h.dst.d);
    proof {
        assert(hdr@ =~= ipv4_header_bytes_ck(*h, body_len as int, 0));
    }
    let ck = internet_checksum(hdr.as_slice());
    hdr[10] = (ck / 256) as u8;
    hdr[11] = (ck % 256) as u8;
    proof {
        assert(hdr@ =~= ipv4_header_bytes(*h, body_len as int));
    }
    let mut encoded = hdr;
    out.append(&mut encoded);
}

} // verus!
