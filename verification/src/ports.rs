//! Port ranges and the lazily-flattened collection of ports a scan walks.

use vstd::prelude::*;

use core::ops::Range;

verus! {

/// Relies on the derived `Range::clone`, which copies the two bounds; vstd
/// gives it no specification, and nothing here is proved about the copy.
pub assume_specification<Idx: std::clone::Clone>[ <std::ops::Range<Idx> as std::clone::Clone>::clone ](
    r: &std::ops::Range<Idx>,
) -> std::ops::Range<Idx>;

/// A single port, or a half-open range of ports.
#[derive(Debug, Clone, Eq, PartialEq)]
pub enum PortRange {
    Single(u16),
    Range(Range<u16>),
}

/// The ports from `start` up to but excluding `end`, ascending.
pub open spec fn range_ports(start: int, end: int) -> Seq<u16> {
    if start >= end {
        Seq::empty()
    } else {
        Seq::new((end - start) as nat, |i: int| (start + i) as u16)
    }
}

impl PortRange {
    /// The ports this range covers, in the order iteration yields them: a
    /// singleton `p` covers exactly `[p, p + 1)`.
    pub open spec fn ports(&self) -> Seq<u16> {
        match self {
            PortRange::Single(p) => seq![*p],
            PortRange::Range(r) => range_ports(r.start as int, r.end as int),
        }
    }

    /// Convert into the half-open `Range` it covers.
    pub fn to_range(&self) -> (r: Range<u16>)
        requires
            self matches PortRange::Single(p) ==> p < 0xffff,
        ensures
            range_ports(r.start as int, r.end as int) == self.ports(),
    {
        match self {
            PortRange::Range(r) => r.start..r.end,
            PortRange::Single(p) => {
                proof {
                    assert(range_ports(*p as int, *p as int + 1) =~= seq![*p]);
                }
                *p..(*p + 1)
            },
        }
    }
}

impl From<u16> for PortRange {
    fn from(p: u16) -> (r: PortRange)
        ensures
            r == PortRange::Single(p),
    {
        PortRange::Single(p)
    }
}

impl vstd::std_specs::convert::FromSpecImpl<u16> for PortRange {
    open spec fn obeys_from_spec() -> bool {
        true
    }

    open spec fn from_spec(p: u16) -> PortRange {
        PortRange::Single(p)
    }
}

impl From<Range<u16>> for PortRange {
    fn from(r: Range<u16>) -> (pr: PortRange)
        ensures
            pr == PortRange::Range(r),
    {
        PortRange::Range(r)
    }
}

impl vstd::std_specs::convert::FromSpecImpl<Range<u16>> for PortRange {
    open spec fn obeys_from_spec() -> bool {
        true
    }

    open spec fn from_spec(r: Range<u16>) -> PortRange {
        PortRange::Range(r)
    }
}

/// The flattened stream of ports of a sequence of ranges: ascending within
/// each range, insertion-ordered across ranges, duplicates kept.
pub open spec fn flat_ports(rs: Seq<PortRange>) -> Seq<u16>
    decreases rs.len(),
{
    if rs.len() == 0 {
        Seq::empty()
    } else {
        rs[0].ports() + flat_ports(rs.skip(1))
    }
}

/// Peeling one range off the front of the flattened stream.
pub proof fn lemma_flat_ports_skip(rs: Seq<PortRange>, i: int)
    requires
        0 <= i < rs.len(),
    ensures
        flat_ports(rs.skip(i)) == rs[i].ports() + flat_ports(rs.skip(i + 1)),
{
    assert(rs.skip(i).skip(1) =~= rs.skip(i + 1));
    assert(flat_ports(rs.skip(i)) == rs.skip(i)[0].ports() + flat_ports(rs.skip(i).skip(1)));
}

/// An ordered collection of port ranges. Overlaps between ranges are kept,
/// not suppressed: iteration yields duplicates where ranges overlap.
#[derive(Debug, Clone)]
pub struct PortCollection {
    pub ranges: Vec<PortRange>,
}

impl PortCollection {
    /// The full stream of ports that iteration yields.
    pub open spec fn ports(&self) -> Seq<u16> {
        flat_ports(self.ranges@)
    }

    /// Create a new empty collection of ports.
    pub fn new() -> (r: PortCollection)
        ensures
            r.ranges@ =~= Seq::<PortRange>::empty(),
            r.ports() =~= Seq::<u16>::empty(),
    {
        PortCollection { ranges: Vec::new() }
    }

    /// Append a single port or a range; returns the collection for
    /// chaining.
    pub fn add<T>(self, v: T) -> (r: PortCollection) where PortRange: From<T>
        requires
            <PortRange as vstd::std_specs::convert::FromSpec<T>>::obeys_from_spec(),
        ensures
            r.ranges@ == self.ranges@.push(
                <PortRange as vstd::std_specs::convert::FromSpec<T>>::from_spec(v),
            ),
    {
        let mut c = self;
        c.ranges.push(PortRange::from(v));
        c
    }

    /// Append every port or range in a slice; returns the collection for
    /// chaining.
    pub fn add_all<T: Copy>(self, vs: &[T]) -> (r: PortCollection) where PortRange: From<T>
        requires
            <PortRange as vstd::std_specs::convert::FromSpec<T>>::obeys_from_spec(),
        ensures
            r.ranges@ == self.ranges@ + vs@.map_values(
                |v: T| <PortRange as vstd::std_specs::convert::FromSpec<T>>::from_spec(v),
            ),
    {
        let mut c = self;
        let mut i: usize = 0;
        while i < vs.len()
            invariant
                <PortRange as vstd::std_specs::convert::FromSpec<T>>::obeys_from_spec(),
                i <= vs@.len(),
                c.ranges@ == self.ranges@ + vs@.take(i as int).map_values(
                    |v: T| <PortRange as vstd::std_specs::convert::FromSpec<T>>::from_spec(v),
                ),
            decreases vs@.len() - i,
        {
            let v = vs[i];
            c.ranges.push(PortRange::from(v));
            i = i + 1;
            proof {
                assert(c.ranges@ =~= self.ranges@ + vs@.take(i as int).map_values(
                    |v: T| <PortRange as vstd::std_specs::convert::FromSpec<T>>::from_spec(v),
                ));
            }
        }
        proof {
            assert(vs@.take(vs@.len() as int) =~= vs@);
        }
        c
    }

    /// A fresh iterator over the flattened stream of ports.
    pub fn iter<'a>(&'a self) -> (r: PortCollectionIterator<'a>)
        ensures
            r.wf(),
            r.remaining() == self.ports(),
    {
        PortCollectionIterator::new(&self.ranges)
    }
}

/// A cursor over the flattened port stream: the pending part of the current
/// range, plus all ranges not yet pulled.
#[derive(Clone)]
pub struct PortCollectionIterator<'a> {
    pub ranges: &'a Vec<PortRange>,
    pub idx: usize,
    pub port: u32,
    pub last: u32,
}

impl<'a> PortCollectionIterator<'a> {
    /// The ports this iterator will still yield, in order.
    pub open spec fn remaining(&self) -> Seq<u16> {
        range_ports(self.port as int, self.last as int) + flat_ports(
            self.ranges@.skip(self.idx as int),
        )
    }

    pub open spec fn wf(&self) -> bool {
        &&& self.idx <= self.ranges@.len()
        &&& self.port <= 0x10000
        &&& self.last <= 0x10000
    }

    /// Start a fresh cursor at the head of a sequence of ranges.
    pub fn new(ranges: &'a Vec<PortRange>) -> (r: PortCollectionIterator<'a>)
        ensures
            r.wf(),
            r.remaining() == flat_ports(ranges@),
    {
        let r = PortCollectionIterator { ranges, idx: 0, port: 0, last: 0 };
        proof {
            assert(r.ranges@.skip(0) =~= ranges@);
            assert(r.remaining() =~= flat_ports(ranges@));
        }
        r
    }

    /// Yield the next port of the flattened stream, pulling ranges (and
    /// skipping empty ones) as the current one is exhausted.
    pub fn next(&mut self) -> (r: Option<u16>)
        requires
            old(self).wf(),
        ensures
            final(self).wf(),
            match r {
                Some(p) => {
                    &&& old(self).remaining().len() > 0
                    &&& p == old(self).remaining()[0]
                    &&& final(self).remaining() == old(self).remaining().skip(1)
                },
                None => {
                    &&& old(self).remaining().len() == 0
                    &&& final(self).remaining().len() == 0
                },
            },
    {
        while self.port >= self.last
            invariant
                self.wf(),
                self.ranges == old(self).ranges,
                self.remaining() == old(self).remaining(),
            decreases self.ranges@.len() - self.idx,
        {
            if self.idx >= self.ranges.len() {
                proof {
                    assert(self.ranges@.skip(self.idx as int) =~= Seq::<PortRange>::empty());
                    assert(flat_ports(Seq::<PortRange>::empty()) =~= Seq::<u16>::empty());
                    assert(self.remaining().len() == 0);
                    assert(old(self).remaining().len() == 0);
                }
                return None;
            }
            proof {
                lemma_flat_ports_skip(self.ranges@, self.idx as int);
            }
            let next_range = &self.ranges[self.idx];
            match next_range {
                PortRange::Single(p) => {
                    self.port = *p as u32;
                    self.last = *p as u32 + 1;
                    proof {
                        assert(range_ports(*p as int, *p as int + 1) =~= seq![*p]);
                    }
                },
                PortRange::Range(rg) => {
                    self.port = rg.start as u32;
                    self.last = rg.end as u32;
                    proof {
                        if rg.start >= rg.end {
                            assert(range_ports(rg.start as int, rg.end as int) =~= Seq::<
                                u16,
                            >::empty());
                        }
                    }
                },
            }
            self.idx = self.idx + 1;
        }
        let res: u16 = self.port as u16;
        self.port = self.port + 1;
        proof {
            assert(res == old(self).remaining()[0]);
            assert(self.remaining() =~= old(self).remaining().skip(1));
        }
        Some(res)
    }
}

} // verus!
