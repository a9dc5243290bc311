use arrow_scan::addr::{IpAddr, Ipv4Addr, Ipv6Addr, MacAddr};
use arrow_scan::report::{HostRecord, HR_FLAG_ARP, HR_FLAG_ICMP};

#[test]
fn host_record_encodes_v4() {
    let mac = MacAddr::new(1, 2, 3, 4, 5, 6);
    let ip = IpAddr::V4(Ipv4Addr::new(192, 168, 0, 9));
    let mut rec = HostRecord::new(mac, ip, HR_FLAG_ARP);
    rec.add_port(80);
    rec.add_port(443);

    let mut buf = Vec::new();
    rec.encode(&mut buf);

    // 26 fixed bytes plus two per port, and len() matches exactly.
    assert_eq!(buf.len(), 26 + 2 * 2);
    assert_eq!(rec.len(), buf.len());

    assert_eq!(buf[0], HR_FLAG_ARP);
    assert_eq!(&buf[1..7], &[1, 2, 3, 4, 5, 6]);
    assert_eq!(buf[7], 4);
    assert_eq!(&buf[8..12], &[192, 168, 0, 9]);
    assert_eq!(&buf[12..24], &[0u8; 12]);
    assert_eq!(&buf[24..26], &[0, 2]);
    assert_eq!(&buf[26..30], &[0, 80, 1, 187]);
}

#[test]
fn host_record_encodes_v6() {
    let mac = MacAddr::new(1, 2, 3, 4, 5, 6);
    let octets = [
        0x20, 0x01, 0x0d, 0xb8, 0, 0, 0, 0, 0, 0, 0, 0, 0, 0, 0, 0x42,
    ];
    let ip = IpAddr::V6(Ipv6Addr::new(octets));
    let mut rec = HostRecord::new(mac, ip, HR_FLAG_ICMP);
    rec.add_ports(&[80, 443]);

    let mut buf = Vec::new();
    rec.encode(&mut buf);

    assert_eq!(buf.len(), 26 + 2 * 2);
    assert_eq!(rec.len(), buf.len());
    assert_eq!(buf[7], 6);
    assert_eq!(&buf[8..24], &octets);
    assert_eq!(&buf[24..26], &[0, 2]);
}

#[test]
fn host_record_absorbs_duplicate_ports() {
    let mac = MacAddr::new(0, 0, 0, 0, 0, 1);
    let ip = IpAddr::V4(Ipv4Addr::new(10, 0, 0, 1));
    let mut rec = HostRecord::new(mac, ip, 0);
    rec.add_port(80);
    rec.add_port(443);
    rec.add_port(80);
    rec.add_ports(&[443, 22, 22]);

    let mut iter = rec.ports();
    assert_eq!(iter.len(), 3);
    assert_eq!(iter.next(), Some(80));
    assert_eq!(iter.next(), Some(443));
    assert_eq!(iter.next(), Some(22));
    assert_eq!(iter.next(), None);
    assert_eq!(iter.len(), 0);
}

#[test]
fn host_record_empty_len() {
    let mac = MacAddr::new(0, 0, 0, 0, 0, 1);
    let ip = IpAddr::V4(Ipv4Addr::new(10, 0, 0, 1));
    let rec = HostRecord::new(mac, ip, 0);
    let mut buf = Vec::new();
    rec.encode(&mut buf);
    assert_eq!(rec.len(), 26);
    assert_eq!(buf.len(), 26);
}
