use user_net::ethernet::{EtherType, EthernetFrame};

#[test]
fn test_ether_type() {
    // Ipv4
    let input = EtherType::from_bytes(0x800);
    assert_eq!(input, EtherType::IPv4);

    // ARP
    let input = EtherType::from_bytes(0x806);
    assert_eq!(input, EtherType::ARP);

    // Ipv6
    let input = EtherType::from_bytes(0x86DD);
    assert_eq!(input, EtherType::IPv6);

    // EtherCAT, unsupported
    let input = EtherType::from_bytes(0xA488);
    assert_eq!(input, EtherType::Unsupported);
}

#[test]
fn ether_type_values() {
    assert_eq!(EtherType::IPv4.value(), 0x800);
    assert_eq!(EtherType::ARP.value(), 0x806);
    assert_eq!(EtherType::IPv6.value(), 0x86DD);
}

#[test]
fn short_frame_is_refused() {
    assert!(EthernetFrame::from_bytes(vec![0u8; 13]).is_none());
    assert!(EthernetFrame::from_bytes(vec![0u8; 14]).is_some());
}

#[test]
fn frame_fields_are_read_in_place() {
    let mut bytes = vec![1, 2, 3, 4, 5, 6, 7, 8, 9, 10, 11, 12, 0x08, 0x06];
    bytes.extend_from_slice(&[0xaa, 0xbb, 0xcc]);
    let f = EthernetFrame::from_bytes(bytes).unwrap();
    assert_eq!(f.dst(), [1, 2, 3, 4, 5, 6]);
    assert_eq!(f.src(), [7, 8, 9, 10, 11, 12]);
    assert_eq!(f.ether_type(), 0x0806);
    assert_eq!(f.payload(), &[0xaa, 0xbb, 0xcc]);
}

#[test]
fn frame_round_trip() {
    let mut bytes = vec![0x10, 0x20, 0x30, 0x40, 0x50, 0x60, 1, 1, 2, 2, 3, 3, 0x86, 0xdd];
    bytes.extend((0..100u32).map(|i| i as u8));
    let first = EthernetFrame::from_bytes(bytes.clone()).unwrap();
    let encoded = EthernetFrame::new(first.dst(), first.src(), first.ether_type(), first.payload());
    let second = EthernetFrame::from_bytes(encoded.bytes().to_vec()).unwrap();
    assert_eq!(second.dst(), first.dst());
    assert_eq!(second.src(), first.src());
    assert_eq!(second.ether_type(), first.ether_type());
    assert_eq!(second.payload(), first.payload());
    assert_eq!(encoded.bytes(), &bytes[..]);
}

#[test]
fn frame_of_header_only_round_trips() {
    let bytes = vec![0xff; 14];
    let first = EthernetFrame::from_bytes(bytes.clone()).unwrap();
    let encoded = EthernetFrame::new(first.dst(), first.src(), first.ether_type(), first.payload());
    assert_eq!(encoded.bytes(), &bytes[..]);
    assert!(encoded.payload().is_empty());
}
