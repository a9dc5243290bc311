//! The active scan: a pull-based generator that emits one SYN probe per
//! (host, port) pair in host-major order, the capture filter that selects
//! SYN-ACK replies, and the correlation of captured frames back into
//! discovered services.

use vstd::prelude::*;

use vstd::string::StringExecFns;

use crate::addr::{Ipv4Addr, MacAddr};
use crate::frame::{
    encode_ether_header, encode_ipv4_header, ether_header_bytes, ipv4_header_bytes,
    Ipv4PacketHeader, IP_PROTO_TCP,
};
use crate::ports::{flat_ports, lemma_flat_ports_skip, range_ports, PortCollection, PortRange};
use crate::tcp::{
    lemma_simple_segment_bytes, parse_ok, parse_sport, simple_segment_bytes, TcpPacket,
    TCP_FLAG_SYN,
};
use crate::wire::{be16, read_u16};

verus! {

/// A host to probe: its link address and its network address.
pub type Host = (MacAddr, Ipv4Addr);

/// A discovered service: link address, network address, open port.
pub type Service = (MacAddr, Ipv4Addr, u16);

/// The cartesian product of hosts and ports, host-major: every port of the
/// first host, then every port of the second, and so on.
pub open spec fn host_port_pairs(hosts: Seq<Host>, ports: Seq<u16>) -> Seq<(Host, u16)>
    decreases hosts.len(),
{
    if hosts.len() == 0 {
        Seq::empty()
    } else {
        ports.map_values(|p: u16| (hosts[0], p)) + host_port_pairs(hosts.skip(1), ports)
    }
}

/// Peeling one host off the front of the product.
pub proof fn lemma_host_port_pairs_skip(hosts: Seq<Host>, i: int, ports: Seq<u16>)
    requires
        0 <= i < hosts.len(),
    ensures
        host_port_pairs(hosts.skip(i), ports) == ports.map_values(|p: u16| (hosts[i], p))
            + host_port_pairs(hosts.skip(i + 1), ports),
{
    assert(hosts.skip(i).skip(1) =~= hosts.skip(i + 1));
    assert(host_port_pairs(hosts.skip(i), ports) == ports.map_values(
        |p: u16| (hosts.skip(i)[0], p),
    ) + host_port_pairs(hosts.skip(i).skip(1), ports));
}

/// The product has one pair per host and port: its length is the product of
/// the two lengths.
pub proof fn lemma_host_port_pairs_len(hosts: Seq<Host>, ports: Seq<u16>)
    ensures
        host_port_pairs(hosts, ports).len() == hosts.len() * ports.len(),
    decreases hosts.len(),
{
    if hosts.len() == 0 {
    } else {
        lemma_host_port_pairs_len(hosts.skip(1), ports);
        assert(hosts.len() * ports.len() == ports.len() + (hosts.len() - 1) * ports.len())
            by (nonlinear_arith);
    }
}

/// The bytes of one SYN probe: an Ethernet frame from the scanning device to
/// the target host, an IPv4 header with TTL 64, and a payload-less TCP
/// segment with only the SYN flag set.
pub open spec fn probe_frame_bytes(
    device_mac: MacAddr,
    device_ip: Ipv4Addr,
    sport: u16,
    host: Host,
    dport: u16,
) -> Seq<u8> {
    let iph = Ipv4PacketHeader { src: device_ip, dst: host.1, ttl: 64, protocol: IP_PROTO_TCP };
    ether_header_bytes(host.0, device_mac) + ipv4_header_bytes(iph, 20) + simple_segment_bytes(
        sport,
        dport,
        TCP_FLAG_SYN,
        iph,
    )
}

/// A pull-based producer of SYN probes over `hosts × ports`, host-major: the
/// port cursor runs over the whole collection once per host, and the host
/// cursor advances when it is exhausted. Terminal once the hosts run out.
pub struct ScanPacketGenerator {
    pub device_mac: MacAddr,
    pub device_ip: Ipv4Addr,
    pub sport: u16,
    pub hosts: Vec<Host>,
    pub endpoints: PortCollection,
    pub host_idx: usize,
    pub ridx: usize,
    pub port: u32,
    pub last: u32,
}

impl ScanPacketGenerator {
    /// The pending part of the port cursor for the current host.
    pub open spec fn cursor_remaining(&self) -> Seq<u16> {
        range_ports(self.port as int, self.last as int) + flat_ports(
            self.endpoints.ranges@.skip(self.ridx as int),
        )
    }

    /// The (host, port) pairs this generator will still emit, in order.
    pub open spec fn remaining(&self) -> Seq<(Host, u16)> {
        if self.host_idx < self.hosts@.len() {
            self.cursor_remaining().map_values(
                |p: u16| (self.hosts@[self.host_idx as int], p),
            ) + host_port_pairs(self.hosts@.skip(self.host_idx as int + 1), self.endpoints.ports())
        } else {
            Seq::empty()
        }
    }

    pub open spec fn wf(&self) -> bool {
        &&& self.host_idx <= self.hosts@.len()
        &&& self.ridx <= self.endpoints.ranges@.len()
        &&& self.port <= 0x10000
        &&& self.last <= 0x10000
    }

    /// A generator that has not emitted yet: it will walk the full product
    /// of the given hosts and ports, in order.
    pub fn new(
        device_mac: MacAddr,
        device_ip: Ipv4Addr,
        hosts: Vec<Host>,
        sport: u16,
        endpoints: PortCollection,
    ) -> (r: ScanPacketGenerator)
        ensures
            r.wf(),
            r.device_mac == device_mac,
            r.device_ip == device_ip,
            r.sport == sport,
            r.hosts@ == hosts@,
            r.endpoints.ranges@ == endpoints.ranges@,
            r.remaining() == host_port_pairs(hosts@, endpoints.ports()),
    {
        let r = ScanPacketGenerator {
            device_mac,
            device_ip,
            sport,
            hosts,
            endpoints,
            host_idx: 0,
            ridx: 0,
            port: 0,
            last: 0,
        };
        proof {
            assert(r.endpoints.ranges@.skip(0) =~= r.endpoints.ranges@);
            assert(r.cursor_remaining() =~= r.endpoints.ports());
            if r.hosts@.len() > 0 {
                lemma_host_port_pairs_skip(r.hosts@, 0, r.endpoints.ports());
                assert(r.hosts@.skip(0) =~= r.hosts@);
                assert(r.remaining() =~= host_port_pairs(r.hosts@, r.endpoints.ports()));
            } else {
                assert(r.remaining() =~= host_port_pairs(r.hosts@, r.endpoints.ports()));
            }
        }
        r
    }

    /// Emit the next SYN probe, or nothing — for good, once the pairs are
    /// exhausted. One emitted frame per (host, port) pair, host-major,
    /// never revisited.
    pub fn next(&mut self) -> (r: Option<Vec<u8>>)
        requires
            old(self).wf(),
        ensures
            final(self).wf(),
            final(self).device_mac == old(self).device_mac,
            final(self).device_ip == old(self).device_ip,
            final(self).sport == old(self).sport,
            final(self).hosts@ == old(self).hosts@,
            final(self).endpoints.ranges@ == old(self).endpoints.ranges@,
            match r {
                Some(frame) => {
                    &&& old(self).remaining().len() > 0
                    &&& frame@ == probe_frame_bytes(
                        old(self).device_mac,
                        old(self).device_ip,
                        old(self).sport,
                        old(self).remaining()[0].0,
                        old(self).remaining()[0].1,
                    )
                    &&& final(self).remaining() == old(self).remaining().skip(1)
                },
                None => {
                    &&& old(self).remaining().len() == 0
                    &&& final(self).remaining().len() == 0
                },
            },
    {
        while !(self.host_idx < self.hosts.len() && self.port < self.last)
            invariant
                self.wf(),
                self.device_mac == old(self).device_mac,
                self.device_ip == old(self).device_ip,
                self.sport == old(self).sport,
                self.hosts@ == old(self).hosts@,
                self.endpoints.ranges@ == old(self).endpoints.ranges@,
                self.remaining() == old(self).remaining(),
            decreases
                    self.hosts@.len() - self.host_idx,
                    self.endpoints.ranges@.len() - self.ridx,
        {
            if self.host_idx >= self.hosts.len() {
                return None;
            }
            let ghost pre_rem = self.remaining();
            let ghost pre_cur = self.cursor_remaining();
            if self.ridx < self.endpoints.ranges.len() {
                proof {
                    lemma_flat_ports_skip(self.endpoints.ranges@, self.ridx as int);
                }
                let next_range = &self.endpoints.ranges[self.ridx];
                match next_range {
                    PortRange::Single(p) => {
                        self.port = *p as u32;
                        self.last = *p as u32 + 1;
                        proof {
                            assert(range_ports(*p as int, *p as int + 1) =~= seq![*p]);
                        }
                    },
                    PortRange::Range(rg) => {
                        self.port = rg.start as u32;
                        self.last = rg.end as u32;
                        proof {
                            if rg.start >= rg.end {
                                assert(range_ports(rg.start as int, rg.end as int) =~= Seq::<
                                    u16,
                                >::empty());
                            }
                        }
                    },
                }
                self.ridx = self.ridx + 1;
                proof {
                    assert(self.cursor_remaining() =~= pre_cur);
                    assert(self.remaining() =~= pre_rem);
                }
            } else {
                proof {
                    assert(self.endpoints.ranges@.skip(self.ridx as int) =~= Seq::<
                        PortRange,
                    >::empty());
                    assert(flat_ports(Seq::<PortRange>::empty()) =~= Seq::<u16>::empty());
                    assert(pre_cur =~= Seq::<u16>::empty());
                    assert(pre_rem =~= host_port_pairs(
                        self.hosts@.skip(self.host_idx as int + 1),
                        self.endpoints.ports(),
                    ));
                    if self.host_idx + 1 < self.hosts@.len() {
                        lemma_host_port_pairs_skip(
                            self.hosts@,
                            self.host_idx as int + 1,
                            self.endpoints.ports(),
                        );
                    } else {
                        assert(self.hosts@.skip(self.host_idx as int + 1) =~= Seq::<Host>::empty());
                    }
                }
                self.host_idx = self.host_idx + 1;
                self.ridx = 0;
                self.port = 0;
                self.last = 0;
                proof {
                    assert(self.endpoints.ranges@.skip(0) =~= self.endpoints.ranges@);
                    if self.host_idx < self.hosts@.len() {
                        assert(self.cursor_remaining() =~= self.endpoints.ports());
                        assert(self.remaining() =~= pre_rem);
                    } else {
                        assert(self.remaining() =~= pre_rem);
                    }
                }
            }
        }
        let ghost pre_rem = self.remaining();
        let ghost pre_cur = self.cursor_remaining();
        let host = self.hosts[self.host_idx];
        let dport: u16 = self.port as u16;
        proof {
            assert(pre_cur[0] == dport);
            assert(pre_rem[0] == (host, dport));
        }
        let tcpp = TcpPacket::new(self.sport, dport, TCP_FLAG_SYN, &[]);
        proof {
            assert(TCP_FLAG_SYN == 2u16) by (bit_vector);
            assert(tcpp.wf());
        }
        let iph = Ipv4PacketHeader::new(self.device_ip, host.1, 64, IP_PROTO_TCP);
        let mut frame: Vec<u8> = Vec::new();
        encode_ether_header(&host.0, &self.device_mac, &mut frame);
        let tcp_len = tcpp.len();
        encode_ipv4_header(&iph, tcp_len, &mut frame);
        tcpp.serialize(&iph, &mut frame);
        proof {
            lemma_simple_segment_bytes(tcpp, iph);
            assert(frame@ =~= probe_frame_bytes(
                self.device_mac,
                self.device_ip,
                self.sport,
                host,
                dport,
            ));
        }
        self.port = self.port + 1;
        proof {
            assert(self.cursor_remaining() =~= pre_cur.skip(1));
            assert(self.remaining() =~= pre_rem.skip(1));
        }
        Some(frame)
    }
}

/// The IPv4 header length of a captured frame, in 32-bit words: the low
/// nibble of the first IPv4 byte.
pub open spec fn reply_ihl(s: Seq<u8>) -> int {
    s[14] as int % 16
}

/// The total length the IPv4 header declares.
pub open spec fn reply_total(s: Seq<u8>) -> int {
    be16(s[16], s[17]) as int
}

/// The TCP segment carried by a captured frame: the IPv4 payload, bounded
/// by the declared total length.
pub open spec fn reply_tcp_bytes(s: Seq<u8>) -> Seq<u8> {
    s.subrange(14 + 4 * reply_ihl(s), 14 + reply_total(s))
}

/// Whether a captured frame parses as exactly Ethernet carrying IPv4
/// carrying TCP. Anything else is silently discarded by correlation.
pub open spec fn reply_ok(s: Seq<u8>) -> bool {
    &&& s.len() >= 34
    &&& s[12] == 8
    &&& s[13] == 0
    &&& s[14] as int / 16 == 4
    &&& reply_ihl(s) >= 5
    &&& 4 * reply_ihl(s) <= reply_total(s)
    &&& 14 + reply_total(s) <= s.len()
    &&& s[23] == IP_PROTO_TCP
    &&& parse_ok(reply_tcp_bytes(s))
}

/// The service a well-formed reply witnesses: the frame's Ethernet source,
/// the IPv4 source, and the TCP source port.
pub open spec fn reply_service(s: Seq<u8>) -> Service {
    (
        MacAddr { a: s[6], b: s[7], c: s[8], d: s[9], e: s[10], f: s[11] },
        Ipv4Addr { a: s[26], b: s[27], c: s[28], d: s[29] },
        parse_sport(reply_tcp_bytes(s)),
    )
}

/// Parse one captured frame as Ethernet, IPv4, TCP; a frame that is not
/// exactly that stack yields nothing.
pub fn parse_reply(frame: &[u8]) -> (r: Option<Service>)
    ensures
        match r {
            Some(svc) => reply_ok(frame@) && svc == reply_service(frame@),
            None => !reply_ok(frame@),
        },
{
    if frame.len() < 34 {
        return None;
    }
    if frame[12] != 8 || frame[13] != 0 {
        return None;
    }
    if frame[14] / 16 != 4 {
        return None;
    }
    let ihl: usize = (frame[14] % 16) as usize;
    if ihl < 5 {
        return None;
    }
    let total: usize = read_u16(frame, 16) as usize;
    if 4 * ihl > total {
        return None;
    }
    if 14 + total > frame.len() {
        return None;
    }
    if frame[23] != IP_PROTO_TCP {
        return None;
    }
    let tcp = vstd::slice::slice_subrange(frame, 14 + 4 * ihl, 14 + total);
    match TcpPacket::parse(tcp) {
        Ok(p) => Some(
            (
                MacAddr::new(frame[6], frame[7], frame[8], frame[9], frame[10], frame[11]),
                Ipv4Addr::new(frame[26], frame[27], frame[28], frame[29]),
                p.sport,
            ),
        ),
        Err(_) => None,
    }
}

/// The services witnessed by a sequence of captured frames, in arrival
/// order: one per frame that parses as a TCP reply, duplicates kept.
pub open spec fn services_of(frames: Seq<Seq<u8>>) -> Seq<Service>
    decreases frames.len(),
{
    if frames.len() == 0 {
        Seq::empty()
    } else {
        (if reply_ok(frames[0]) {
            seq![reply_service(frames[0])]
        } else {
            Seq::empty()
        }) + services_of(frames.skip(1))
    }
}

pub proof fn lemma_services_of_concat(u: Seq<Seq<u8>>, v: Seq<Seq<u8>>)
    ensures
        services_of(u + v) == services_of(u) + services_of(v),
    decreases u.len(),
{
    if u.len() == 0 {
        assert(u + v =~= v);
        assert(services_of(u) + services_of(v) =~= services_of(v));
    } else {
        assert((u + v).skip(1) =~= u.skip(1) + v);
        lemma_services_of_concat(u.skip(1), v);
        assert(services_of(u + v) =~= services_of(u) + services_of(v));
    }
}

/// Correlate every captured frame into a discovered service. Frames that do
/// not parse as Ethernet, IPv4, TCP are dropped; duplicates are kept for
/// the caller to absorb.
pub fn collect_services(frames: &Vec<Vec<u8>>) -> (r: Vec<Service>)
    ensures
        r@ == services_of(frames@.map_values(|f: Vec<u8>| f@)),
{
    let ghost views = frames@.map_values(|f: Vec<u8>| f@);
    let mut services: Vec<Service> = Vec::new();
    let mut i: usize = 0;
    while i < frames.len()
        invariant
            i <= frames@.len(),
            views == frames@.map_values(|f: Vec<u8>| f@),
            services@ == services_of(views.take(i as int)),
        decreases frames@.len() - i,
    {
        let got = parse_reply(frames[i].as_slice());
        proof {
            let prefix = views.take(i as int);
            let step = views.subrange(i as int, i + 1);
            assert(views.take(i + 1) =~= prefix + step);
            lemma_services_of_concat(prefix, step);
            assert(step.skip(1) =~= Seq::<Seq<u8>>::empty());
            assert(services_of(Seq::<Seq<u8>>::empty()) =~= Seq::<Service>::empty());
        }
        match got {
            Some(svc) => {
                services.push(svc);
                proof {
                    assert(services@ =~= services_of(views.take(i + 1)));
                }
            },
            None => {
                proof {
                    assert(services@ =~= services_of(views.take(i + 1)));
                }
            },
        }
        i = i + 1;
    }
    proof {
        assert(views.take(views.len() as int) =~= views);
    }
    services
}

/// The decimal digit characters of a non-negative number, most significant
/// first.
pub open spec fn dec_digit(d: int) -> char {
    if d == 0 {
        '0'
    } else if d == 1 {
        '1'
    } else if d == 2 {
        '2'
    } else if d == 3 {
        '3'
    } else if d == 4 {
        '4'
    } else if d == 5 {
        '5'
    } else if d == 6 {
        '6'
    } else if d == 7 {
        '7'
    } else if d == 8 {
        '8'
    } else {
        '9'
    }
}

pub open spec fn dec_chars(n: int) -> Seq<char>
    decreases n,
{
    if n < 10 {
        seq![dec_digit(n)]
    } else {
        dec_chars(n / 10) + seq![dec_digit(n % 10)]
    }
}

/// One decimal digit as a string.
fn digit_str(d: u32) -> (r: &'static str)
    requires
        d < 10,
    ensures
        r@ == seq![dec_digit(d as int)],
{
    if d == 0 {
        proof {
            reveal_strlit("0");
        }
        "0"
    } else if d == 1 {
        proof {
            reveal_strlit("1");
        }
        "1"
    } else if d == 2 {
        proof {
            reveal_strlit("2");
        }
        "2"
    } else if d == 3 {
        proof {
            reveal_strlit("3");
        }
        "3"
    } else if d == 4 {
        proof {
            reveal_strlit("4");
        }
        "4"
    } else if d == 5 {
        proof {
            reveal_strlit("5");
        }
        "5"
    } else if d == 6 {
        proof {
            reveal_strlit("6");
        }
        "6"
    } else if d == 7 {
        proof {
            reveal_strlit("7");
        }
        "7"
    } else if d == 8 {
        proof {
            reveal_strlit("8");
        }
        "8"
    } else {
        proof {
            reveal_strlit("9");
        }
        "9"
    }
}

/// Appends a number in decimal.
fn push_decimal(s: &mut String, n: u32)
    ensures
        final(s)@ == old(s)@ + dec_chars(n as int),
    decreases n,
{
    if n >= 10 {
        push_decimal(s, n / 10);
    }
    s.append(digit_str(n % 10));
    proof {
        assert(s@ =~= old(s)@ + dec_chars(n as int));
    }
}

/// The capture filter a scan uses: TCP frames addressed to the scanning
/// device at the scan's source port, with both SYN and ACK set.
pub open spec fn filter_chars(ip: Ipv4Addr, sport: u16) -> Seq<char> {
    "tcp and dst host "@ + dec_chars(ip.a as int) + "."@ + dec_chars(ip.b as int) + "."@
        + dec_chars(ip.c as int) + "."@ + dec_chars(ip.d as int) + " and dst port "@ + dec_chars(
        sport as int,
    ) + " and tcp[tcpflags] & tcp-syn != 0 and tcp[tcpflags] & tcp-ack != 0"@
}

/// Render the capture filter for a device address and source port.
pub fn scan_filter(ip: &Ipv4Addr, sport: u16) -> (r: String)
    ensures
        r@ == filter_chars(*ip, sport),
{
    let mut s = String::new();
    s.append("tcp and dst host ");
    push_decimal(&mut s, ip.a as u32);
    s.append(".");
    push_decimal(&mut s, ip.b as u32);
    s.append(".");
    push_decimal(&mut s, ip.c as u32);
    s.append(".");
    push_decimal(&mut s, ip.d as u32);
    s.append(" and dst port ");
    push_decimal(&mut s, sport as u32);
    s.append(" and tcp[tcpflags] & tcp-syn != 0 and tcp[tcpflags] & tcp-ack != 0");
    proof {
        assert(s@ =~= filter_chars(*ip, sport));
    }
    s
}

} // verus!
