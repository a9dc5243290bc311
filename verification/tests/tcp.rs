use arrow_scan::addr::Ipv4Addr;
use arrow_scan::frame::{encode_ether_header, encode_ipv4_header, Ipv4PacketHeader, IP_PROTO_TCP};
use arrow_scan::addr::MacAddr;
use arrow_scan::tcp::{ParseError, TcpPacket, TCP_FLAG_FIN, TCP_FLAG_SYN};

#[test]
fn test_tcp_packet() {
    let sip = Ipv4Addr::new(192, 168, 3, 7);
    let dip = Ipv4Addr::new(192, 168, 8, 1);
    let mac = MacAddr::new(0, 0, 0, 0, 0, 0);

    let data = [1, 2, 3];

    let p1 = TcpPacket::new(10, 20, TCP_FLAG_FIN | TCP_FLAG_SYN, &data);
    let iph = Ipv4PacketHeader::new(sip, dip, 64, IP_PROTO_TCP);

    let mut buf = Vec::new();
    encode_ether_header(&mac, &mac, &mut buf);
    encode_ipv4_header(&iph, p1.len(), &mut buf);
    p1.serialize(&iph, &mut buf);

    let p2 = TcpPacket::parse(&buf[34..]).unwrap();

    assert_eq!(p1.sport, p2.sport);
    assert_eq!(p1.dport, p2.dport);
    assert_eq!(p1.seq, p2.seq);
    assert_eq!(p1.ack, p2.ack);
    assert_eq!(p1.flags, p2.flags);
    assert_eq!(p1.wsize, p2.wsize);
    assert_eq!(p1.uptr, p2.uptr);
    assert_eq!(p1.options, p2.options);
    assert_eq!(p1.data, p2.data);
}

#[test]
fn tcp_checksum_scenario_fields_survive() {
    let sip = Ipv4Addr::new(192, 168, 3, 7);
    let dip = Ipv4Addr::new(192, 168, 8, 1);
    let iph = Ipv4PacketHeader::new(sip, dip, 64, IP_PROTO_TCP);

    let p1 = TcpPacket::new(10, 20, TCP_FLAG_FIN | TCP_FLAG_SYN, &[1, 2, 3]);
    let mut buf = Vec::new();
    let written = p1.serialize(&iph, &mut buf);
    assert_eq!(written, 23);
    assert_eq!(buf.len(), 23);

    // The pseudo-header checksum of exactly this segment, worked out by
    // hand, sits in bytes 16 and 17 of the header in network byte order.
    assert_eq!(&buf[16..18], &[0xff, 0x65]);

    let p2 = TcpPacket::parse(&buf).unwrap();
    assert_eq!(p2.sport, 10);
    assert_eq!(p2.dport, 20);
    assert_eq!(p2.flags, TCP_FLAG_FIN | TCP_FLAG_SYN);
    assert_eq!(p2.options, Vec::<u32>::new());
    assert_eq!(p2.data, vec![1, 2, 3]);
}

#[test]
fn tcp_round_trip_with_options() {
    let iph = Ipv4PacketHeader::new(
        Ipv4Addr::new(10, 0, 0, 1),
        Ipv4Addr::new(10, 0, 0, 2),
        64,
        IP_PROTO_TCP,
    );
    let mut p1 = TcpPacket::new(4321, 80, TCP_FLAG_SYN, &[0xde, 0xad, 0xbe, 0xef]);
    p1.seq = 0x01020304;
    p1.ack = 0xa0b0c0d0;
    p1.uptr = 7;
    p1.options = vec![0x0204_05b4, 0x0101_0402];

    let mut buf = Vec::new();
    p1.serialize(&iph, &mut buf);
    assert_eq!(buf.len(), 20 + 8 + 4);
    // Data offset: 7 words in the top nibble of byte 12.
    assert_eq!(buf[12] >> 4, 7);

    let p2 = TcpPacket::parse(&buf).unwrap();
    assert_eq!(p2.seq, 0x01020304);
    assert_eq!(p2.ack, 0xa0b0c0d0);
    assert_eq!(p2.uptr, 7);
    assert_eq!(p2.options, vec![0x0204_05b4, 0x0101_0402]);
    assert_eq!(p2.data, vec![0xde, 0xad, 0xbe, 0xef]);
}

#[test]
fn tcp_parse_short_buffer_fails() {
    let short = [0u8; 19];
    assert_eq!(TcpPacket::parse(&short).unwrap_err(), ParseError::NotEnoughData);
}

#[test]
fn tcp_parse_offset_beyond_buffer_fails() {
    // A fixed-size header whose data offset declares one option word that
    // the buffer does not hold.
    let mut buf = [0u8; 20];
    buf[12] = 6 << 4;
    assert_eq!(TcpPacket::parse(&buf).unwrap_err(), ParseError::NotEnoughData);
}

#[test]
fn tcp_parse_offset_below_header_fails() {
    let mut buf = [0u8; 20];
    buf[12] = 4 << 4;
    assert_eq!(TcpPacket::parse(&buf).unwrap_err(), ParseError::NotEnoughData);
}

#[test]
fn tcp_parse_owns_payload() {
    let mut buf = vec![0u8; 24];
    buf[12] = 5 << 4;
    buf[20] = 9;
    buf[21] = 8;
    buf[22] = 7;
    buf[23] = 6;
    let p = TcpPacket::parse(&buf).unwrap();
    drop(buf);
    assert_eq!(p.data, vec![9, 8, 7, 6]);
}
