use user_net::arp::{ARPKind, ARP};
use user_net::icmp::{IcmpType, ICMP};
use user_net::ipv4::{IpHeader, IPv4, Protocol};
use user_net::net_util::compute_ip_checksum;
use user_net::udp::{UdpHeader, UDP};

fn header(proto: Protocol, payload_len: u16) -> IpHeader {
    IpHeader {
        version: 4,
        ihl: 5,
        ecn: 0,
        t_len: 20 + payload_len,
        id: 0x1c46,
        flags: 2,
        frag_offset: 0,
        ttl: 64,
        proto,
        chksm: 0,
        src: [10, 0, 0, 1],
        dst: [10, 0, 0, 2],
    }
}

#[test]
fn ip_header_round_trip() {
    let p = IPv4 { header: header(Protocol::UDP, 3), data: vec![7, 8, 9] };
    let bytes = p.packet_to_bytes();
    assert_eq!(bytes.len(), 23);
    let decoded = IPv4::packet_from_net_bytes(&bytes);
    let expected = IpHeader { chksm: decoded.header.chksm, ..p.header };
    assert_eq!(decoded.header, expected);
    assert_eq!(decoded.data, vec![7, 8, 9]);
    // With its own checksum in place, the header comes back unchanged.
    let again = IPv4::packet_from_net_bytes(&decoded.packet_to_bytes());
    assert_eq!(again.header, decoded.header);
}

#[test]
fn ip_flags_and_offset_are_packed_high_and_low() {
    let mut h = header(Protocol::ICMP, 0);
    h.flags = 0b101;
    h.frag_offset = 0x1abc;
    let bytes = IPv4 { header: h, data: vec![] }.packet_to_bytes();
    assert_eq!(bytes[6], 0b1011_1010);
    assert_eq!(bytes[7], 0xbc);
    let decoded = IPv4::packet_from_net_bytes(&bytes);
    assert_eq!(decoded.header.flags, 0b101);
    assert_eq!(decoded.header.frag_offset, 0x1abc);
}

#[test]
fn ip_header_checksum_verifies() {
    let bytes = IPv4 { header: header(Protocol::UDP, 0), data: vec![] }.packet_to_bytes();
    let (computed, stored) = compute_ip_checksum(&bytes[0..20], 10..12);
    assert_eq!(computed, stored);
    assert_ne!(stored, 0);
}

#[test]
fn known_ip_header_checksum() {
    // A header whose checksum is known from the wire: 0xb1e6.
    let h = IpHeader {
        version: 4,
        ihl: 5,
        ecn: 0,
        t_len: 0x3c,
        id: 0x1c46,
        flags: 2,
        frag_offset: 0,
        ttl: 0x40,
        proto: Protocol::TCP,
        chksm: 0,
        src: [0xac, 0x10, 0x0a, 0x63],
        dst: [0xac, 0x10, 0x0a, 0x0c],
    };
    let bytes = IPv4 { header: h, data: vec![] }.packet_to_bytes();
    assert_eq!(&bytes[10..12], &[0xb1, 0xe6]);
}

#[test]
fn ip_response_goes_back_to_the_source() {
    let h = header(Protocol::UDP, 4);
    let p = IPv4::build_ipv4_response(h, vec![1, 2, 3, 4], 17).unwrap();
    assert_eq!(p.header.src, [10, 0, 0, 2]);
    assert_eq!(p.header.dst, [10, 0, 0, 1]);
    assert_eq!(p.header.ttl, 50);
    assert_eq!(p.header.t_len, 24);
    assert_eq!(p.header.ihl, 5);
    assert!(IPv4::build_ipv4_response(h, vec![0; 1601], 17).is_none());
    assert!(IPv4::build_ipv4_response(h, vec![0; 1600], 17).is_some());
}

#[test]
fn unfragmented_header_fields() {
    let h = IpHeader::make_unfragmented_ip_header([1, 2, 3, 4], [5, 6, 7, 8], 1, 10);
    assert_eq!(h.t_len, 30);
    assert_eq!(h.ttl, 50);
    assert_eq!(h.proto, Protocol::ICMP);
    assert_eq!(h.src, [1, 2, 3, 4]);
    assert_eq!(h.dst, [5, 6, 7, 8]);
}

#[test]
fn src_str_is_dotted_quad() {
    let p = IPv4 { header: header(Protocol::UDP, 0), data: vec![] };
    assert_eq!(p.src_str(), "10.0.0.1");
}

#[test]
fn udp_packet_checksum_verifies_over_pseudo_header() {
    let (d, bytes) = UDP::create_packet(b"hello", 4000, 5055, [10, 0, 0, 1], [10, 0, 0, 2]);
    assert_eq!(bytes.len(), 13);
    assert_eq!(d.length(), 13);
    assert_eq!(&bytes[6..8], &d.chksm().to_be_bytes());
    assert_ne!(d.chksm(), 0);
    let mut pseudo = vec![10, 0, 0, 1, 10, 0, 0, 2, 0, 17, 0, 13];
    pseudo.extend_from_slice(&bytes);
    let (computed, stored) = compute_ip_checksum(&pseudo, 18..20);
    assert_eq!(computed, stored);
}

#[test]
fn udp_parse_accepts_right_checksum() {
    let (_, bytes) = UDP::create_packet(b"hi", 4000, 5055, [10, 0, 0, 1], [10, 0, 0, 2]);
    let mut h = header(Protocol::UDP, bytes.len() as u16);
    h.src = [10, 0, 0, 1];
    let d = UDP::packet_from_bytes(&IPv4 { header: h, data: bytes }).unwrap();
    assert_eq!(d.src_port(), 4000);
    assert_eq!(d.dst_port(), 5055);
    assert_eq!(d.length(), 10);
    assert_eq!(d.payload, b"hi".to_vec());
}

#[test]
fn udp_zero_checksum_skips_verification() {
    let bytes = vec![0x0f, 0xa0, 0x13, 0xbf, 0, 10, 0, 0, b'h', b'i'];
    let h = header(Protocol::UDP, 10);
    let d = UDP::packet_from_bytes(&IPv4 { header: h, data: bytes }).unwrap();
    assert_eq!(d.header(), UdpHeader { src_port: 4000, dst_port: 5055, length: 10, chksm: 0 });
    assert_eq!(d.payload, b"hi".to_vec());
}

#[test]
fn udp_wrong_checksum_is_dropped() {
    let bytes = vec![0x0f, 0xa0, 0x13, 0xbf, 0, 10, 0x12, 0x34, b'h', b'i'];
    let h = header(Protocol::UDP, 10);
    assert!(UDP::packet_from_bytes(&IPv4 { header: h, data: bytes }).is_none());
}

#[test]
fn udp_short_datagram_is_dropped() {
    let h = header(Protocol::UDP, 7);
    assert!(UDP::packet_from_bytes(&IPv4 { header: h, data: vec![0; 7] }).is_none());
}

fn echo_request(payload: &[u8]) -> Vec<u8> {
    let mut m = vec![8, 0, 0, 0, 0x12, 0x34, 0, 1];
    m.extend_from_slice(payload);
    let (c, _) = compute_ip_checksum(&m, 2..4);
    m[2..4].copy_from_slice(&c.to_be_bytes());
    m
}

#[test]
fn icmp_echo_reply_mirrors_request() {
    let req = ICMP::packet_from_bytes(&echo_request(b"ping")).unwrap();
    assert!(matches!(req.icmp_type(), IcmpType::EchoRequest));
    let reply = ICMP::build_icmp_echo_reply(req);
    assert!(matches!(reply.icmp_type(), IcmpType::EchoReply));
    let bytes = reply.packet_to_bytes();
    assert_eq!(&bytes[0..2], &[0, 0]);
    assert_eq!(&bytes[4..8], &[0x12, 0x34, 0, 1]);
    assert_eq!(&bytes[8..], b"ping");
    let (computed, stored) = compute_ip_checksum(&bytes, 2..4);
    assert_eq!(computed, stored);
}

#[test]
fn icmp_bad_checksum_is_dropped() {
    let mut m = echo_request(b"ping");
    m[9] ^= 1;
    assert!(ICMP::packet_from_bytes(&m).is_none());
    assert!(ICMP::packet_from_bytes(&[8, 0, 0]).is_none());
}

fn arp_request(target: [u8; 4]) -> Vec<u8> {
    let mut b = vec![0, 1, 8, 0, 6, 4, 0, 1];
    b.extend_from_slice(&[2, 0, 0, 0, 0, 1]);
    b.extend_from_slice(&[10, 0, 0, 1]);
    b.extend_from_slice(&[0; 6]);
    b.extend_from_slice(&target);
    b
}

#[test]
fn arp_reply_swaps_addresses() {
    let local = [0x02, 0xaa, 0xbb, 0xcc, 0xdd, 0xee];
    let reply = ARP::handle_packet(arp_request([10, 0, 0, 2]), local);
    assert_eq!(reply.op(), [0, 2]);
    assert_eq!(reply.sha(), &local);
    assert_eq!(reply.spa(), &[10, 0, 0, 2]);
    assert_eq!(reply.tha(), &[2, 0, 0, 0, 0, 1]);
    assert_eq!(reply.tpa(), &[10, 0, 0, 1]);
    assert_eq!(reply.hrd(), [0, 1]);
    assert_eq!(reply.pro(), [8, 0]);
    assert_eq!(reply.hln(), 6);
    assert_eq!(reply.pln(), 4);
    assert_eq!(reply.operation(), Some(ARPKind::Reply));
}

#[test]
fn arp_request_layout() {
    let req = ARP::make_req_for_addr([10, 0, 0, 7], &[1, 2, 3, 4, 5, 6]);
    assert_eq!(
        req.data(),
        vec![0, 1, 8, 0, 6, 4, 0, 1, 1, 2, 3, 4, 5, 6, 10, 0, 0, 2, 255, 255, 255, 255, 255, 255, 10, 0, 0, 7]
    );
}

#[test]
fn arp_malformed_or_unknown_opcode_is_refused() {
    let mut b = arp_request([10, 0, 0, 2]);
    b[7] = 3;
    assert!(ARP::build_packet(b).is_none());
    let mut b = arp_request([10, 0, 0, 2]);
    b[4] = 8;
    assert!(ARP::build_packet(b).is_none());
    assert!(ARP::build_packet(vec![0, 1, 8, 0, 6, 4, 0, 1]).is_none());
    assert!(ARP::build_packet(arp_request([10, 0, 0, 2])).is_some());
}
