use arrow_scan::register::{RegisterMessage, RegisterMessageHeader};

#[test]
fn register_message_encodes_verbatim() {
    let uuid = [
        1, 2, 3, 4, 5, 6, 7, 8, 9, 10, 11, 12, 13, 14, 15, 16,
    ];
    let mac = [0xaa, 0xbb, 0xcc, 0xdd, 0xee, 0xff];
    let passwd = [
        16, 15, 14, 13, 12, 11, 10, 9, 8, 7, 6, 5, 4, 3, 2, 1,
    ];
    let header = RegisterMessageHeader::new(uuid, mac, passwd);
    let msg = RegisterMessage::new(header, vec![0x51, 0x52, 0x53]);

    let mut buf = Vec::new();
    msg.encode(&mut buf);

    assert_eq!(msg.len(), 38 + 3);
    assert_eq!(buf.len(), 38 + 3);
    assert_eq!(&buf[0..16], &uuid);
    assert_eq!(&buf[16..22], &mac);
    assert_eq!(&buf[22..38], &passwd);
    assert_eq!(&buf[38..], &[0x51, 0x52, 0x53]);
}

#[test]
fn register_message_empty_table() {
    let header = RegisterMessageHeader::new([0; 16], [0; 6], [0; 16]);
    let msg = RegisterMessage::new(header, Vec::new());
    let mut buf = Vec::new();
    msg.encode(&mut buf);
    assert_eq!(msg.len(), 38);
    assert_eq!(buf.len(), 38);
}
