//! The TCP segment codec: decoding a segment out of raw bytes, and encoding
//! one — checksum included — given the enclosing IPv4 context.

use vstd::prelude::*;

use crate::addr::Ipv4Addr;
use crate::checksum::{checksum16, checksum_finish, internet_sum, lemma_sum16_concat, sum16};
use crate::frame::Ipv4PacketHeader;
use crate::wire::{
    be16, be32, lemma_be16_split, lemma_be32_split, push_u16, push_u32, read_u16, read_u32, u16_hi,
    u16_lo, u32_b0, u32_b1, u32_b2, u32_b3, u32_bytes,
};

verus! {

pub const TCP_FLAG_NS: u16 = 1 << 8;

pub const TCP_FLAG_CWR: u16 = 1 << 7;

pub const TCP_FLAG_ECE: u16 = 1 << 6;

pub const TCP_FLAG_URG: u16 = 1 << 5;

pub const TCP_FLAG_ACK: u16 = 1 << 4;

pub const TCP_FLAG_PSH: u16 = 1 << 3;

pub const TCP_FLAG_RST: u16 = 1 << 2;

pub const TCP_FLAG_SYN: u16 = 1 << 1;

pub const TCP_FLAG_FIN: u16 = 1;

/// The fixed TCP header is twenty bytes; options follow as 32-bit words.
pub const TCP_HEADER_SIZE: usize = 20;

/// Decoding failed: the buffer is shorter than the fixed header, or its
/// data-offset field promises options beyond the end of the buffer.
#[derive(Clone, Copy, Debug, PartialEq, Eq)]
pub enum ParseError {
    NotEnoughData,
}

/// A TCP segment: header fields, option words, payload.
///
/// The flag set is nine bits wide; the data-offset field is not stored but
/// derived as five plus the number of option words.
#[derive(Clone, Debug)]
pub struct TcpPacket {
    pub sport: u16,
    pub dport: u16,
    pub seq: u32,
    pub ack: u32,
    pub flags: u16,
    pub wsize: u16,
    pub uptr: u16,
    pub options: Vec<u32>,
    pub data: Vec<u8>,
}

/// The wire form of a sequence of option words: each as four bytes in
/// network byte order, concatenated.
pub open spec fn options_bytes(opts: Seq<u32>) -> Seq<u8>
    decreases opts.len(),
{
    if opts.len() == 0 {
        Seq::empty()
    } else {
        u32_bytes(opts[0]) + options_bytes(opts.skip(1))
    }
}

pub proof fn lemma_options_bytes_len(opts: Seq<u32>)
    ensures
        options_bytes(opts).len() == 4 * opts.len(),
    decreases opts.len(),
{
    if opts.len() > 0 {
        lemma_options_bytes_len(opts.skip(1));
    }
}

pub proof fn lemma_options_bytes_concat(u: Seq<u32>, v: Seq<u32>)
    ensures
        options_bytes(u + v) == options_bytes(u) + options_bytes(v),
    decreases u.len(),
{
    if u.len() == 0 {
        assert(u + v =~= v);
        assert(options_bytes(u) + options_bytes(v) =~= options_bytes(v));
    } else {
        assert((u + v).skip(1) =~= u.skip(1) + v);
        lemma_options_bytes_concat(u.skip(1), v);
        assert(u32_bytes((u + v)[0]) + (options_bytes(u.skip(1)) + options_bytes(v)) =~= (u32_bytes(
            u[0],
        ) + options_bytes(u.skip(1))) + options_bytes(v));
    }
}

/// The bytes of option word `i` sit at offsets `4*i` through `4*i + 3`.
pub proof fn lemma_options_bytes_index(opts: Seq<u32>, i: int)
    requires
        0 <= i < opts.len(),
    ensures
        options_bytes(opts)[4 * i] == u32_b0(opts[i]),
        options_bytes(opts)[4 * i + 1] == u32_b1(opts[i]),
        options_bytes(opts)[4 * i + 2] == u32_b2(opts[i]),
        options_bytes(opts)[4 * i + 3] == u32_b3(opts[i]),
    decreases i,
{
    lemma_options_bytes_len(opts.skip(1));
    if i > 0 {
        lemma_options_bytes_index(opts.skip(1), i - 1);
    }
}

impl TcpPacket {
    /// A well-formed segment: at most ten option words (the data offset is a
    /// four-bit count of 32-bit words, five of which are the fixed header),
    /// a nine-bit flag set, and a total length that fits the pseudo-header's
    /// 16-bit length field.
    pub open spec fn wf(&self) -> bool {
        &&& self.options@.len() <= 10
        &&& self.flags < 0x200
        &&& 20 + 4 * self.options@.len() + self.data@.len() <= 0xffff
    }

    /// The exact encoded length: fixed header, options, payload.
    pub open spec fn spec_len(&self) -> int {
        20 + 4 * self.options@.len() + self.data@.len() as int
    }

    /// The combined data-offset / flags field: offset in the top four bits,
    /// the nine-bit flag set in the low bits.
    pub open spec fn spec_doffset_flags(&self) -> u16 {
        (((5 + self.options@.len()) * 4096) + (self.flags % 512) as int) as u16
    }

    /// The twenty bytes of the fixed header, network byte order, with a
    /// given value in the checksum field.
    pub open spec fn header_bytes(&self, checksum: u16) -> Seq<u8> {
        seq![
            u16_hi(self.sport),
            u16_lo(self.sport),
            u16_hi(self.dport),
            u16_lo(self.dport),
            u32_b0(self.seq),
            u32_b1(self.seq),
            u32_b2(self.seq),
            u32_b3(self.seq),
            u32_b0(self.ack),
            u32_b1(self.ack),
            u32_b2(self.ack),
            u32_b3(self.ack),
            u16_hi(self.spec_doffset_flags()),
            u16_lo(self.spec_doffset_flags()),
            u16_hi(self.wsize),
            u16_lo(self.wsize),
            u16_hi(checksum),
            u16_lo(checksum),
            u16_hi(self.uptr),
            u16_lo(self.uptr),
        ]
    }

    /// Header, options and payload concatenated, with a given checksum.
    pub open spec fn body_bytes(&self, checksum: u16) -> Seq<u8> {
        self.header_bytes(checksum) + options_bytes(self.options@) + self.data@
    }

    /// The segment's checksum in its IPv4 context: the Internet checksum of
    /// the pseudo-header followed by the segment with a zero checksum field.
    pub open spec fn spec_checksum(&self, iph: Ipv4PacketHeader) -> u16 {
        checksum16(pseudo_header_bytes(iph, self.spec_len()) + self.body_bytes(0))
    }

    /// The full encoding of the segment in its IPv4 context.
    pub open spec fn spec_serialize(&self, iph: Ipv4PacketHeader) -> Seq<u8> {
        self.body_bytes(self.spec_checksum(iph))
    }

    /// Create a new TCP segment: sequence numbers zero, window size 8192,
    /// no urgent pointer, no options, the payload copied from the caller.
    pub fn new(sport: u16, dport: u16, flags: u16, data: &[u8]) -> (r: TcpPacket)
        ensures
            r.sport == sport,
            r.dport == dport,
            r.seq == 0,
            r.ack == 0,
            r.flags == flags,
            r.wsize == 8192,
            r.uptr == 0,
            r.options@ == Seq::<u32>::empty(),
            r.data@ == data@,
    {
        TcpPacket {
            sport,
            dport,
            seq: 0,
            ack: 0,
            flags,
            wsize: 8192,
            uptr: 0,
            options: Vec::new(),
            data: vstd::slice::slice_to_vec(data),
        }
    }

    /// The protocol number under which this segment travels inside IPv4.
    pub fn packet_type(&self) -> (r: u8)
        ensures
            r == crate::frame::IP_PROTO_TCP,
    {
        crate::frame::IP_PROTO_TCP
    }

    /// The exact encoded byte length; used to size the enclosing datagram.
    pub fn len(&self) -> (r: usize)
        requires
            self.wf(),
        ensures
            r == self.spec_len(),
    {
        TCP_HEADER_SIZE + 4 * self.options.len() + self.data.len()
    }
}

/// The pseudo-header summed into the TCP checksum: source and destination
/// address, a zero byte, the protocol number, and the segment length.
pub open spec fn pseudo_header_bytes(iph: Ipv4PacketHeader, tcp_len: int) -> Seq<u8> {
    seq![
        iph.src.a,
        iph.src.b,
        iph.src.c,
        iph.src.d,
        iph.dst.a,
        iph.dst.b,
        iph.dst.c,
        iph.dst.d,
        0u8,
        iph.protocol,
        u16_hi(tcp_len as u16),
        u16_lo(tcp_len as u16),
    ]
}

/// The data offset declared at byte twelve: a count of 32-bit words.
pub open spec fn parse_doffset(s: Seq<u8>) -> int {
    s[12] as int / 16
}

/// Whether a buffer decodes as a TCP segment: it covers the fixed header,
/// declares an offset of at least five words, and covers the declared
/// options.
pub open spec fn parse_ok(s: Seq<u8>) -> bool {
    &&& s.len() >= 20
    &&& parse_doffset(s) >= 5
    &&& 4 * parse_doffset(s) <= s.len()
}

pub open spec fn parse_sport(s: Seq<u8>) -> u16 {
    be16(s[0], s[1])
}

pub open spec fn parse_dport(s: Seq<u8>) -> u16 {
    be16(s[2], s[3])
}

pub open spec fn parse_seq(s: Seq<u8>) -> u32 {
    be32(s[4], s[5], s[6], s[7])
}

pub open spec fn parse_ack(s: Seq<u8>) -> u32 {
    be32(s[8], s[9], s[10], s[11])
}

/// The nine-bit flag set: the low bit of byte twelve and all of byte
/// thirteen.
pub open spec fn parse_flags(s: Seq<u8>) -> u16 {
    (((s[12] % 2) as int * 256) + s[13] as int) as u16
}

pub open spec fn parse_wsize(s: Seq<u8>) -> u16 {
    be16(s[14], s[15])
}

pub open spec fn parse_uptr(s: Seq<u8>) -> u16 {
    be16(s[18], s[19])
}

/// The option words declared by the data offset, read in network byte
/// order.
pub open spec fn parse_options(s: Seq<u8>) -> Seq<u32> {
    Seq::new(
        (parse_doffset(s) - 5) as nat,
        |i: int| be32(s[20 + 4 * i], s[21 + 4 * i], s[22 + 4 * i], s[23 + 4 * i]),
    )
}

/// Everything after header and options is payload.
pub open spec fn parse_data(s: Seq<u8>) -> Seq<u8> {
    s.skip(4 * parse_doffset(s))
}

impl TcpPacket {
    /// Decode a TCP segment from raw bytes, validating that the buffer
    /// covers the fixed header and the options the data offset declares.
    /// The checksum field is not verified; the payload is copied, so the
    /// result owns its data.
    pub fn parse(data: &[u8]) -> (r: Result<TcpPacket, ParseError>)
        ensures
            match r {
                Ok(p) => {
                    &&& parse_ok(data@)
                    &&& p.sport == parse_sport(data@)
                    &&& p.dport == parse_dport(data@)
                    &&& p.seq == parse_seq(data@)
                    &&& p.ack == parse_ack(data@)
                    &&& p.flags == parse_flags(data@)
                    &&& p.wsize == parse_wsize(data@)
                    &&& p.uptr == parse_uptr(data@)
                    &&& p.options@ == parse_options(data@)
                    &&& p.data@ == parse_data(data@)
                },
                Err(e) => !parse_ok(data@) && e == ParseError::NotEnoughData,
            },
    {
        if data.len() < TCP_HEADER_SIZE {
            return Err(ParseError::NotEnoughData);
        }
        let doffset: usize = (data[12] / 16) as usize;
        if doffset < 5 {
            return Err(ParseError::NotEnoughData);
        }
        let end_of_options: usize = 4 * doffset;
        if end_of_options > data.len() {
            return Err(ParseError::NotEnoughData);
        }
        let optcount: usize = doffset - 5;
        let mut options: Vec<u32> = Vec::new();
        let mut k: usize = 0;
        while k < optcount
            invariant
                parse_ok(data@),
                doffset == parse_doffset(data@),
                optcount == doffset - 5,
                end_of_options == 4 * doffset <= data@.len(),
                k <= optcount,
                options@ == parse_options(data@).take(k as int),
            decreases optcount - k,
        {
            let w = read_u32(data, TCP_HEADER_SIZE + 4 * k);
            options.push(w);
            k = k + 1;
            proof {
                assert(options@ =~= parse_options(data@).take(k as int));
            }
        }
        let mut payload: Vec<u8> = Vec::new();
        let mut j: usize = end_of_options;
        while j < data.len()
            invariant
                end_of_options <= j <= data@.len(),
                payload@ == data@.subrange(end_of_options as int, j as int),
            decreases data@.len() - j,
        {
            let b = data[j];
            payload.push(b);
            j = j + 1;
            proof {
                assert(payload@ =~= data@.subrange(end_of_options as int, j as int));
            }
        }
        let flags: u16 = ((data[12] % 2) as u16) * 256 + (data[13] as u16);
        proof {
            assert(parse_options(data@).take(optcount as int) =~= parse_options(data@));
            assert(data@.subrange(end_of_options as int, data@.len() as int) =~= parse_data(data@));
        }
        Ok(
            TcpPacket {
                sport: read_u16(data, 0),
                dport: read_u16(data, 2),
                seq: read_u32(data, 4),
                ack: read_u32(data, 8),
                flags,
                wsize: read_u16(data, 14),
                uptr: read_u16(data, 18),
                options,
                data: payload,
            },
        )
    }

    /// Encode the segment into its wire form, appending to `out`: fixed
    /// header, option words, payload, with the pseudo-header checksum of
    /// the enclosing IPv4 context written into the checksum field. Returns
    /// the number of bytes written.
    pub fn serialize(&self, iph: &Ipv4PacketHeader, out: &mut Vec<u8>) -> (n: usize)
        requires
            self.wf(),
        ensures
            final(out)@ == old(out)@ + self.spec_serialize(*iph),
            n == self.spec_len(),
    {
        let tcp_len: usize = self.len();
        // Pseudo-header for the checksum.
        let mut pseudo: Vec<u8> = Vec::new();
        pseudo.push(iph.src.a);
        pseudo.push(iph.src.b);
        pseudo.push(iph.src.c);
        pseudo.push(iph.src.d);
        pseudo.push(iph.dst.a);
        pseudo.push(iph.dst.b);
        pseudo.push(iph.dst.c);
        pseudo.push(iph.dst.d);
        pseudo.push(0);
        pseudo.push(iph.protocol);
        push_u16(&mut pseudo, tcp_len as u16);
        proof {
            assert(pseudo@ =~= pseudo_header_bytes(*iph, self.spec_len()));
        }
        // Segment with a zero checksum field.
        let mut body: Vec<u8> = Vec::new();
        push_u16(&mut body, self.sport);
        push_u16(&mut body, self.dport);
        push_u32(&mut body, self.seq);
        push_u32(&mut body, self.ack);
        let doffset_flags: u16 = (5 + self.options.len() as u16) * 4096 + (self.flags % 512);
        proof {
            assert(doffset_flags == self.spec_doffset_flags());
        }
        push_u16(&mut body, doffset_flags);
        push_u16(&mut body, self.wsize);
        push_u16(&mut body, 0);
        push_u16(&mut body, self.uptr);
        proof {
            assert(body@ =~= self.header_bytes(0));
        }
        let mut k: usize = 0;
        while k < self.options.len()
            invariant
                self.wf(),
                k <= self.options@.len(),
                body@ == self.header_bytes(0) + options_bytes(self.options@.take(k as int)),
            decreases self.options@.len() - k,
        {
            let w = self.options[k];
            push_u32(&mut body, w);
            k = k + 1;
            proof {
                let prefix = self.options@.take(k as int - 1);
                let step = self.options@.subrange(k as int - 1, k as int);
                assert(self.options@.take(k as int) =~= prefix + step);
                lemma_options_bytes_concat(prefix, step);
                assert(step.skip(1) =~= Seq::<u32>::empty());
                assert(options_bytes(Seq::<u32>::empty()) =~= Seq::<u8>::empty());
                assert(options_bytes(step) =~= u32_bytes(self.options@[k as int - 1]));
                assert(body@ =~= self.header_bytes(0) + options_bytes(
                    self.options@.take(k as int),
                ));
            }
        }
        proof {
            assert(self.options@.take(self.options@.len() as int) =~= self.options@);
        }
        let mut j: usize = 0;
        while j < self.data.len()
            invariant
                j <= self.data@.len(),
                body@ == self.header_bytes(0) + options_bytes(self.options@) + self.data@.take(
                    j as int,
                ),
            decreases self.data@.len() - j,
        {
            let b = self.data[j];
            body.push(b);
            j = j + 1;
            proof {
                assert(body@ =~= self.header_bytes(0) + options_bytes(self.options@)
                    + self.data@.take(j as int));
            }
        }
        proof {
            assert(self.data@.take(self.data@.len() as int) =~= self.data@);
            assert(body@ == self.body_bytes(0));
            lemma_options_bytes_len(self.options@);
        }
        // Checksum over pseudo-header and zero-checksum segment.
        let s1 = internet_sum(pseudo.as_slice());
        let s2 = internet_sum(body.as_slice());
        proof {
            lemma_sum16_concat(pseudo@, body@);
            crate::checksum::lemma_sum16_nonneg(pseudo@ + body@);
        }
        let ck = checksum_finish(s1 + s2);
        proof {
            assert(ck == self.spec_checksum(*iph));
        }
        body[16] = (ck / 256) as u8;
        body[17] = (ck % 256) as u8;
        proof {
            assert(body@ =~= self.body_bytes(ck));
        }
        let mut encoded = body;
        out.append(&mut encoded);
        tcp_len
    }
}

/// The fixed header of an option-less, payload-less segment with sequence
/// numbers zero, window size 8192 and no urgent pointer — the shape of a
/// probe — with a given checksum field.
pub open spec fn simple_header_bytes(sport: u16, dport: u16, flags: u16, ck: u16) -> Seq<u8> {
    seq![
        u16_hi(sport),
        u16_lo(sport),
        u16_hi(dport),
        u16_lo(dport),
        0u8,
        0u8,
        0u8,
        0u8,
        0u8,
        0u8,
        0u8,
        0u8,
        u16_hi((5 * 4096 + (flags % 512) as int) as u16),
        u16_lo((5 * 4096 + (flags % 512) as int) as u16),
        u16_hi(8192),
        u16_lo(8192),
        u16_hi(ck),
        u16_lo(ck),
        0u8,
        0u8,
    ]
}

/// The full twenty-byte encoding of such a segment in its IPv4 context.
pub open spec fn simple_segment_bytes(
    sport: u16,
    dport: u16,
    flags: u16,
    iph: Ipv4PacketHeader,
) -> Seq<u8> {
    simple_header_bytes(
        sport,
        dport,
        flags,
        checksum16(pseudo_header_bytes(iph, 20) + simple_header_bytes(sport, dport, flags, 0)),
    )
}

/// A segment in probe shape encodes exactly to `simple_segment_bytes`.
pub proof fn lemma_simple_segment_bytes(p: TcpPacket, iph: Ipv4PacketHeader)
    requires
        p.wf(),
        p.seq == 0,
        p.ack == 0,
        p.wsize == 8192,
        p.uptr == 0,
        p.options@.len() == 0,
        p.data@.len() == 0,
    ensures
        p.spec_serialize(iph) == simple_segment_bytes(p.sport, p.dport, p.flags, iph),
{
    assert(p.header_bytes(0) =~= simple_header_bytes(p.sport, p.dport, p.flags, 0));
    assert(p.body_bytes(0) =~= p.header_bytes(0));
    let ck = p.spec_checksum(iph);
    assert(ck == checksum16(
        pseudo_header_bytes(iph, 20) + simple_header_bytes(p.sport, p.dport, p.flags, 0),
    ));
    assert(p.header_bytes(ck) =~= simple_header_bytes(p.sport, p.dport, p.flags, ck));
    assert(p.spec_serialize(iph) =~= simple_segment_bytes(p.sport, p.dport, p.flags, iph));
}

/// Round trip: decoding an encoded segment reproduces it field for field,
/// whatever its option words and payload, for any enclosing IPv4 context.
pub proof fn lemma_parse_serialize_round_trip(p: TcpPacket, iph: Ipv4PacketHeader)
    requires
        p.wf(),
    ensures
        parse_ok(p.spec_serialize(iph)),
        parse_sport(p.spec_serialize(iph)) == p.sport,
        parse_dport(p.spec_serialize(iph)) == p.dport,
        parse_seq(p.spec_serialize(iph)) == p.seq,
        parse_ack(p.spec_serialize(iph)) == p.ack,
        parse_flags(p.spec_serialize(iph)) == p.flags,
        parse_wsize(p.spec_serialize(iph)) == p.wsize,
        parse_uptr(p.spec_serialize(iph)) == p.uptr,
        parse_options(p.spec_serialize(iph)) == p.options@,
        parse_data(p.spec_serialize(iph)) == p.data@,
{
    let t = p.spec_serialize(iph);
    let ck = p.spec_checksum(iph);
    let n = p.options@.len() as int;
    let f = p.flags as int;
    let df = p.spec_doffset_flags();
    lemma_options_bytes_len(p.options@);
    assert(t.len() == p.spec_len());
    assert((5 + n) * 4096 + f < 0x10000) by (nonlinear_arith)
        requires
            0 <= n <= 10,
            0 <= f < 512,
    ;
    assert(df == (5 + n) * 4096 + f);
    assert(t[12] == u16_hi(df) && t[13] == u16_lo(df));
    assert(u16_hi(df) as int == df as int / 256);
    assert((((5 + n) * 4096 + f) / 256) / 16 == 5 + n) by (nonlinear_arith)
        requires
            0 <= n <= 10,
            0 <= f < 512,
    ;
    assert(parse_doffset(t) == 5 + n);
    assert(parse_ok(t));
    assert(((((5 + n) * 4096 + f) / 256) % 2) * 256 + ((5 + n) * 4096 + f) % 256 == f)
        by (nonlinear_arith)
        requires
            0 <= n <= 10,
            0 <= f < 512,
    ;
    assert(parse_flags(t) == p.flags);
    lemma_be16_split(p.sport);
    lemma_be16_split(p.dport);
    lemma_be32_split(p.seq);
    lemma_be32_split(p.ack);
    lemma_be16_split(p.wsize);
    lemma_be16_split(p.uptr);
    assert(parse_sport(t) == p.sport);
    assert(parse_dport(t) == p.dport);
    assert(parse_seq(t) == p.seq);
    assert(parse_ack(t) == p.ack);
    assert(parse_wsize(t) == p.wsize);
    assert(parse_uptr(t) == p.uptr);
    assert forall|i: int| 0 <= i < n implies parse_options(t)[i] == p.options@[i] by {
        lemma_options_bytes_index(p.options@, i);
        assert(t[20 + 4 * i] == options_bytes(p.options@)[4 * i]);
        assert(t[21 + 4 * i] == options_bytes(p.options@)[4 * i + 1]);
        assert(t[22 + 4 * i] == options_bytes(p.options@)[4 * i + 2]);
        assert(t[23 + 4 * i] == options_bytes(p.options@)[4 * i + 3]);
        lemma_be32_split(p.options@[i]);
    }
    assert(parse_options(t) =~= p.options@);
    assert(parse_data(t) =~= p.data@);
}

} // verus!

