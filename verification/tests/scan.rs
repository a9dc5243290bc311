use arrow_scan::addr::{Ipv4Addr, MacAddr};
use arrow_scan::ports::PortCollection;
use arrow_scan::scan::{collect_services, parse_reply, scan_filter, ScanPacketGenerator};
use arrow_scan::tcp::TcpPacket;

fn be16_at(buf: &[u8], i: usize) -> u16 {
    (buf[i] as u16) * 256 + buf[i + 1] as u16
}

#[test]
fn generator_emits_host_major_probes_then_stops() {
    let device_mac = MacAddr::new(2, 2, 2, 2, 2, 2);
    let device_ip = Ipv4Addr::new(10, 0, 0, 1);
    let host_macs = [MacAddr::new(1, 0, 0, 0, 0, 1), MacAddr::new(1, 0, 0, 0, 0, 2)];
    let host_ips = [Ipv4Addr::new(10, 0, 0, 7), Ipv4Addr::new(10, 0, 0, 8)];
    let hosts = vec![(host_macs[0], host_ips[0]), (host_macs[1], host_ips[1])];
    let ports = PortCollection::new().add_all(&[80u16, 443, 8080]);
    let expected_ports = [80u16, 443, 8080];

    let mut generator = ScanPacketGenerator::new(device_mac, device_ip, hosts, 61234, ports);

    for h in 0..2 {
        for p in 0..3 {
            let frame = generator.next().expect("a probe was owed");
            // Ethernet: destination is the host, source is the device.
            assert_eq!(&frame[0..6], &[1, 0, 0, 0, 0, host_macs[h].f]);
            assert_eq!(&frame[6..12], &[2, 2, 2, 2, 2, 2]);
            assert_eq!(&frame[12..14], &[8, 0]);
            // IPv4: TTL 64, protocol TCP, device to host.
            assert_eq!(frame[22], 64);
            assert_eq!(frame[23], 6);
            assert_eq!(&frame[26..30], &[10, 0, 0, 1]);
            assert_eq!(&frame[30..34], &[10, 0, 0, host_ips[h].d]);
            // TCP: fixed source port, the walked destination port, SYN only.
            assert_eq!(be16_at(&frame, 34), 61234);
            assert_eq!(be16_at(&frame, 36), expected_ports[p]);
            let seg = TcpPacket::parse(&frame[34..]).unwrap();
            assert_eq!(seg.flags, 2);
            assert_eq!(seg.data, Vec::<u8>::new());
        }
    }
    assert!(generator.next().is_none());
    assert!(generator.next().is_none());
}

#[test]
fn generator_with_no_hosts_is_terminal() {
    let device_mac = MacAddr::new(2, 2, 2, 2, 2, 2);
    let device_ip = Ipv4Addr::new(10, 0, 0, 1);
    let ports = PortCollection::new().add(80);
    let mut generator = ScanPacketGenerator::new(device_mac, device_ip, Vec::new(), 61234, ports);
    assert!(generator.next().is_none());
}

#[test]
fn scan_filter_text() {
    let ip = Ipv4Addr::new(192, 168, 3, 7);
    let filter = scan_filter(&ip, 61234);
    assert_eq!(
        filter,
        "tcp and dst host 192.168.3.7 and dst port 61234 and \
         tcp[tcpflags] & tcp-syn != 0 and tcp[tcpflags] & tcp-ack != 0"
    );
}

#[test]
fn collect_services_keeps_replies_and_drops_noise() {
    // A genuine probe frame is a valid Ethernet/IPv4/TCP stack, so it
    // correlates; garbage does not.
    let device_mac = MacAddr::new(2, 2, 2, 2, 2, 2);
    let device_ip = Ipv4Addr::new(10, 0, 0, 1);
    let hosts = vec![(MacAddr::new(1, 1, 1, 1, 1, 1), Ipv4Addr::new(10, 0, 0, 7))];
    let ports = PortCollection::new().add(80);
    let mut generator = ScanPacketGenerator::new(device_mac, device_ip, hosts, 61234, ports);
    let frame = generator.next().unwrap();

    let frames = vec![frame.clone(), vec![0u8; 10], vec![0xffu8; 60], frame.clone()];
    let services = collect_services(&frames);

    // The frame's Ethernet source is the device, its IPv4 source the
    // device's address, and its TCP source port 61234; duplicates are kept.
    assert_eq!(services.len(), 2);
    assert_eq!(services[0], (device_mac, device_ip, 61234));
    assert_eq!(services[1], (device_mac, device_ip, 61234));
}

#[test]
fn parse_reply_rejects_non_tcp() {
    let device_mac = MacAddr::new(2, 2, 2, 2, 2, 2);
    let device_ip = Ipv4Addr::new(10, 0, 0, 1);
    let hosts = vec![(MacAddr::new(1, 1, 1, 1, 1, 1), Ipv4Addr::new(10, 0, 0, 7))];
    let ports = PortCollection::new().add(80);
    let mut generator = ScanPacketGenerator::new(device_mac, device_ip, hosts, 61234, ports);
    let frame = generator.next().unwrap();

    assert!(parse_reply(&frame).is_some());

    let mut not_ipv4 = frame.clone();
    not_ipv4[12] = 0x86;
    assert!(parse_reply(&not_ipv4).is_none());

    let mut not_tcp = frame.clone();
    not_tcp[23] = 17;
    assert!(parse_reply(&not_tcp).is_none());

    let truncated = &frame[..30];
    assert!(parse_reply(truncated).is_none());
}
