//! Host records: the per-host aggregate of a scan pass, and its wire
//! encoding inside the scan-report message body.

use vstd::prelude::*;

use crate::addr::{IpAddr, MacAddr};
use crate::wire::{push_bytes, push_u16, u16_bytes};

verus! {

/// The host was seen via ARP discovery.
pub const HR_FLAG_ARP: u8 = 0x01;

/// The host was seen via ICMP discovery.
pub const HR_FLAG_ICMP: u8 = 0x02;

/// The wire form of a sequence of ports: each as two bytes in network byte
/// order, concatenated.
pub open spec fn ports_bytes(ps: Seq<u16>) -> Seq<u8>
    decreases ps.len(),
{
    if ps.len() == 0 {
        Seq::empty()
    } else {
        u16_bytes(ps[0]) + ports_bytes(ps.skip(1))
    }
}

pub proof fn lemma_ports_bytes_len(ps: Seq<u16>)
    ensures
        ports_bytes(ps).len() == 2 * ps.len(),
    decreases ps.len(),
{
    if ps.len() > 0 {
        lemma_ports_bytes_len(ps.skip(1));
    }
}

pub proof fn lemma_ports_bytes_concat(u: Seq<u16>, v: Seq<u16>)
    ensures
        ports_bytes(u + v) == ports_bytes(u) + ports_bytes(v),
    decreases u.len(),
{
    if u.len() == 0 {
        assert(u + v =~= v);
        assert(ports_bytes(u) + ports_bytes(v) =~= ports_bytes(v));
    } else {
        assert((u + v).skip(1) =~= u.skip(1) + v);
        lemma_ports_bytes_concat(u.skip(1), v);
        assert(ports_bytes(u + v) =~= ports_bytes(u) + ports_bytes(v));
    }
}

/// A port joining a record's port set: appended if new, absorbed if already
/// present.
pub open spec fn insert_port(ps: Seq<u16>, port: u16) -> Seq<u16> {
    if ps.contains(port) {
        ps
    } else {
        ps.push(port)
    }
}

/// Every port of `more` joining a record's port set in turn.
pub open spec fn insert_ports(ps: Seq<u16>, more: Seq<u16>) -> Seq<u16>
    decreases more.len(),
{
    if more.len() == 0 {
        ps
    } else {
        insert_ports(insert_port(ps, more[0]), more.skip(1))
    }
}

pub proof fn lemma_insert_ports_concat(ps: Seq<u16>, u: Seq<u16>, v: Seq<u16>)
    ensures
        insert_ports(ps, u + v) == insert_ports(insert_ports(ps, u), v),
    decreases u.len(),
{
    if u.len() == 0 {
        assert(u + v =~= v);
    } else {
        assert((u + v).skip(1) =~= u.skip(1) + v);
        lemma_insert_ports_concat(insert_port(ps, u[0]), u.skip(1), v);
    }
}

/// One discovered host: link address, network address, discovery flags, and
/// the set of its open ports. The ports are kept unique, in the order of
/// first insertion; the wire does not promise any order.
#[derive(Clone, Debug)]
pub struct HostRecord {
    pub flags: u8,
    pub mac: MacAddr,
    pub ip: IpAddr,
    pub ports: Vec<u16>,
}

impl HostRecord {
    /// The port set holds no duplicates.
    pub open spec fn wf(&self) -> bool {
        forall|i: int, j: int|
            0 <= i < j < self.ports@.len() ==> self.ports@[i] != self.ports@[j]
    }

    /// The record's wire form: flags, link address, IP version tag, the
    /// sixteen-byte address field, the port count, then the ports.
    pub open spec fn record_bytes(&self) -> Seq<u8> {
        seq![self.flags] + self.mac.octets_seq() + seq![self.ip.spec_version()] + self.ip.bytes16()
            + u16_bytes(self.ports@.len() as u16) + ports_bytes(self.ports@)
    }

    /// The record's encoded length.
    pub open spec fn spec_len(&self) -> int {
        26 + 2 * self.ports@.len() as int
    }

    /// Create a new host record with no ports discovered yet.
    pub fn new(mac: MacAddr, ip: IpAddr, flags: u8) -> (r: HostRecord)
        ensures
            r.flags == flags,
            r.mac == mac,
            r.ip == ip,
            r.ports@ == Seq::<u16>::empty(),
            r.wf(),
    {
        HostRecord { flags, mac, ip, ports: Vec::new() }
    }

    /// Whether a port was already discovered on this host.
    pub fn has_port(&self, port: u16) -> (r: bool)
        ensures
            r == self.ports@.contains(port),
    {
        let mut i: usize = 0;
        while i < self.ports.len()
            invariant
                i <= self.ports@.len(),
                forall|k: int| 0 <= k < i ==> self.ports@[k] != port,
            decreases self.ports@.len() - i,
        {
            if self.ports[i] == port {
                return true;
            }
            i = i + 1;
        }
        false
    }

    /// Add a given port; one already present is absorbed.
    pub fn add_port(&mut self, port: u16)
        requires
            old(self).wf(),
        ensures
            final(self).wf(),
            final(self).flags == old(self).flags,
            final(self).mac == old(self).mac,
            final(self).ip == old(self).ip,
            final(self).ports@ == insert_port(old(self).ports@, port),
    {
        if !self.has_port(port) {
            self.ports.push(port);
        }
    }

    /// Add every port in a slice, in order; duplicates are absorbed.
    pub fn add_ports(&mut self, ports: &[u16])
        requires
            old(self).wf(),
        ensures
            final(self).wf(),
            final(self).flags == old(self).flags,
            final(self).mac == old(self).mac,
            final(self).ip == old(self).ip,
            final(self).ports@ == insert_ports(old(self).ports@, ports@),
    {
        let mut i: usize = 0;
        while i < ports.len()
            invariant
                i <= ports@.len(),
                self.wf(),
                self.flags == old(self).flags,
                self.mac == old(self).mac,
                self.ip == old(self).ip,
                self.ports@ == insert_ports(old(self).ports@, ports@.take(i as int)),
            decreases ports@.len() - i,
        {
            let p = ports[i];
            self.add_port(p);
            i = i + 1;
            proof {
                let prefix = ports@.take(i - 1);
                let step = ports@.subrange(i - 1, i as int);
                assert(ports@.take(i as int) =~= prefix + step);
                lemma_insert_ports_concat(old(self).ports@, prefix, step);
                assert(step.skip(1) =~= Seq::<u16>::empty());
                let base = insert_ports(old(self).ports@, prefix);
                assert(insert_ports(base, step) == insert_ports(insert_port(base, step[0]), step.skip(1)));
                assert(insert_ports(insert_port(base, step[0]), Seq::<u16>::empty()) == insert_port(base, step[0]));
            }
        }
        proof {
            assert(ports@.take(ports@.len() as int) =~= ports@);
        }
    }

    /// An iterator over the discovered ports, in stored order.
    pub fn ports(&self) -> (r: PortIterator<'_>)
        ensures
            r.wf(),
            r.remaining() == self.ports@,
    {
        PortIterator::new(self)
    }

    /// Encode the record, appending to `buf`.
    pub fn encode(&self, buf: &mut Vec<u8>)
        requires
            self.ports@.len() <= 0xffff,
        ensures
            final(buf)@ == old(buf)@ + self.record_bytes(),
    {
        buf.push(self.flags);
        buf.push(self.mac.a);
        buf.push(self.mac.b);
        buf.push(self.mac.c);
        buf.push(self.mac.d);
        buf.push(self.mac.e);
        buf.push(self.mac.f);
        match &self.ip {
            IpAddr::V4(v4) => {
                buf.push(4);
                buf.push(v4.a);
                buf.push(v4.b);
                buf.push(v4.c);
                buf.push(v4.d);
                let mut z: usize = 0;
                while z < 12
                    invariant
                        z <= 12,
                        buf@ == old(buf)@ + seq![self.flags] + self.mac.octets_seq() + seq![
                            self.ip.spec_version(),
                        ] + v4.octets_seq() + Seq::new(z as nat, |i: int| 0u8),
                    decreases 12 - z,
                {
                    buf.push(0);
                    z = z + 1;
                    proof {
                        assert(buf@ =~= old(buf)@ + seq![self.flags] + self.mac.octets_seq()
                            + seq![self.ip.spec_version()] + v4.octets_seq() + Seq::new(
                            z as nat,
                            |i: int| 0u8,
                        ));
                    }
                }
            },
            IpAddr::V6(v6) => {
                buf.push(6);
                push_bytes(buf, &v6.octets);
            },
        }
        proof {
            assert(buf@ =~= old(buf)@ + seq![self.flags] + self.mac.octets_seq() + seq![
                self.ip.spec_version(),
            ] + self.ip.bytes16());
        }
        let ghost before_count = buf@;
        push_u16(buf, self.ports.len() as u16);
        let mut k: usize = 0;
        while k < self.ports.len()
            invariant
                k <= self.ports@.len(),
                buf@ == before_count + u16_bytes(self.ports@.len() as u16) + ports_bytes(
                    self.ports@.take(k as int),
                ),
            decreases self.ports@.len() - k,
        {
            let p = self.ports[k];
            push_u16(buf, p);
            k = k + 1;
            proof {
                let prefix = self.ports@.take(k - 1);
                let step = self.ports@.subrange(k - 1, k as int);
                assert(self.ports@.take(k as int) =~= prefix + step);
                lemma_ports_bytes_concat(prefix, step);
                assert(step.skip(1) =~= Seq::<u16>::empty());
                assert(ports_bytes(Seq::<u16>::empty()) =~= Seq::<u8>::empty());
                assert(ports_bytes(step) =~= u16_bytes(self.ports@[k - 1]));
                assert(buf@ =~= before_count + u16_bytes(self.ports@.len() as u16) + ports_bytes(
                    self.ports@.take(k as int),
                ));
            }
        }
        proof {
            assert(self.ports@.take(self.ports@.len() as int) =~= self.ports@);
            assert(buf@ =~= old(buf)@ + self.record_bytes());
        }
    }

    /// The exact encoded byte length: the 26 fixed bytes plus two per port.
    pub fn len(&self) -> (r: usize)
        requires
            self.ports@.len() <= 0xffff,
        ensures
            r == self.spec_len(),
            r == self.record_bytes().len(),
    {
        proof {
            lemma_ports_bytes_len(self.ports@);
        }
        26 + 2 * self.ports.len()
    }
}

/// An iterator over a record's discovered ports.
pub struct PortIterator<'a> {
    pub record: &'a HostRecord,
    pub idx: usize,
}

impl<'a> PortIterator<'a> {
    /// The ports this iterator will still yield, in order.
    pub open spec fn remaining(&self) -> Seq<u16> {
        self.record.ports@.skip(self.idx as int)
    }

    pub open spec fn wf(&self) -> bool {
        self.idx <= self.record.ports@.len()
    }

    /// Start at the first discovered port of a record.
    pub fn new(record: &'a HostRecord) -> (r: PortIterator<'a>)
        ensures
            r.wf(),
            r.remaining() == record.ports@,
    {
        let r = PortIterator { record, idx: 0 };
        proof {
            assert(r.remaining() =~= record.ports@);
        }
        r
    }

    /// Yield the next discovered port.
    pub fn next(&mut self) -> (r: Option<u16>)
        requires
            old(self).wf(),
        ensures
            final(self).wf(),
            final(self).record == old(self).record,
            match r {
                Some(p) => {
                    &&& old(self).remaining().len() > 0
                    &&& p == old(self).remaining()[0]
                    &&& final(self).remaining() == old(self).remaining().skip(1)
                },
                None => {
                    &&& old(self).remaining().len() == 0
                    &&& final(self).remaining() == old(self).remaining()
                },
            },
    {
        if self.idx < self.record.ports.len() {
            let p = self.record.ports[self.idx];
            self.idx = self.idx + 1;
            proof {
                assert(self.remaining() =~= old(self).remaining().skip(1));
            }
            Some(p)
        } else {
            None
        }
    }

    /// How many ports are left to yield.
    pub fn len(&self) -> (r: usize)
        requires
            self.wf(),
        ensures
            r == self.remaining().len(),
    {
        self.record.ports.len() - self.idx
    }
}

} // verus!
