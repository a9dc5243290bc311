use arrow_scan::ports::{PortCollection, PortRange};

#[test]
fn test_port_collection() {
    let col = PortCollection::new().add_all(&[3, 5]).add(10..15).add(100);

    let mut iter = col.iter();

    let ports = vec![3, 5, 10, 11, 12, 13, 14, 100];

    for p in ports {
        assert_eq!(p, iter.next().unwrap());
    }
    assert_eq!(iter.next(), None);
}

#[test]
fn port_collection_empty_yields_nothing() {
    let col = PortCollection::new();
    let mut iter = col.iter();
    assert_eq!(iter.next(), None);
    assert_eq!(iter.next(), None);
}

#[test]
fn port_collection_keeps_duplicates_across_ranges() {
    let col = PortCollection::new().add(4..7).add(5);
    let mut iter = col.iter();
    assert_eq!(iter.next(), Some(4));
    assert_eq!(iter.next(), Some(5));
    assert_eq!(iter.next(), Some(6));
    assert_eq!(iter.next(), Some(5));
    assert_eq!(iter.next(), None);
}

#[test]
fn port_collection_skips_empty_ranges() {
    let col = PortCollection::new().add(10..10).add(42);
    let mut iter = col.iter();
    assert_eq!(iter.next(), Some(42));
    assert_eq!(iter.next(), None);
}

#[test]
fn port_collection_iterates_highest_port() {
    let col = PortCollection::new().add(65535);
    let mut iter = col.iter();
    assert_eq!(iter.next(), Some(65535));
    assert_eq!(iter.next(), None);
}

#[test]
fn port_range_to_range() {
    assert_eq!(PortRange::Single(80).to_range(), 80..81);
    assert_eq!(PortRange::Range(10..15).to_range(), 10..15);
    assert_eq!(PortRange::from(443), PortRange::Single(443));
    assert_eq!(PortRange::from(1..3), PortRange::Range(1..3));
}
