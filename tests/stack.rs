use user_net::ethernet::{Ethernet, EthernetFrame, LinkPayload};
use user_net::ipv4::{IpHeader, IPv4, Protocol};
use user_net::net_util::compute_ip_checksum;
use user_net::udp::UDP;
use user_net::udp_socket::{bind, SocketAddress, SocketError, UdpSocketIdentifier};

const LOCAL_HW: [u8; 6] = [0x02, 0x11, 0x22, 0x33, 0x44, 0x55];
const REMOTE_HW: [u8; 6] = [0x02, 0x00, 0x00, 0x00, 0x00, 0x01];
const REMOTE_IP: [u8; 4] = [10, 0, 0, 1];
const LOCAL_IP: [u8; 4] = [10, 0, 0, 2];

fn stack() -> Ethernet {
    Ethernet::with_address(3, LOCAL_HW)
}

fn v4(ip: [u8; 4], port: u16) -> SocketAddress {
    SocketAddress::V4 { ip, port }
}

fn frame(dst: [u8; 6], src: [u8; 6], ether_type: u16, payload: &[u8]) -> EthernetFrame {
    EthernetFrame::new(dst, src, ether_type, payload)
}

fn ip_packet(proto: Protocol, src: [u8; 4], dst: [u8; 4], data: Vec<u8>) -> Vec<u8> {
    let h = IpHeader {
        version: 4,
        ihl: 5,
        ecn: 0,
        t_len: 20 + data.len() as u16,
        id: 1,
        flags: 0,
        frag_offset: 0,
        ttl: 64,
        proto,
        chksm: 0,
        src,
        dst,
    };
    IPv4 { header: h, data }.packet_to_bytes()
}

/// Runs both egress steps until the queues are empty; returns the frames for the device.
fn drain(eth: &mut Ethernet) -> Vec<EthernetFrame> {
    let mut out = Vec::new();
    while let Some(l) = eth.ip_stack.next() {
        eth.write_ip_response(l);
    }
    let mut rounds = 0;
    while let Some(p) = eth.next_link_payload() {
        if let Some(f) = eth.write_response(p) {
            out.push(f);
        }
        while let Some(l) = eth.ip_stack.next() {
            eth.write_ip_response(l);
        }
        rounds += 1;
        if rounds > 16 {
            break;
        }
    }
    out
}

#[test]
fn arp_request_for_local_ip_is_answered() {
    let mut eth = stack();
    let mut arp = vec![0, 1, 8, 0, 6, 4, 0, 1];
    arp.extend_from_slice(&REMOTE_HW);
    arp.extend_from_slice(&REMOTE_IP);
    arp.extend_from_slice(&[0; 6]);
    arp.extend_from_slice(&LOCAL_IP);
    eth.process_frame(&frame([0xff; 6], REMOTE_HW, 0x0806, &arp));
    let out = drain(&mut eth);
    assert_eq!(out.len(), 1);
    let f = &out[0];
    assert_eq!(f.dst(), REMOTE_HW);
    assert_eq!(f.src(), LOCAL_HW);
    assert_eq!(f.ether_type(), 0x0806);
    let p = f.payload();
    assert_eq!(&p[6..8], &[0, 2]);
    assert_eq!(&p[8..14], &LOCAL_HW);
    assert_eq!(&p[14..18], &LOCAL_IP);
    assert_eq!(&p[18..24], &REMOTE_HW);
    assert_eq!(&p[24..28], &REMOTE_IP);
}

#[test]
fn arp_request_for_other_ip_is_dropped() {
    let mut eth = stack();
    let mut arp = vec![0, 1, 8, 0, 6, 4, 0, 1];
    arp.extend_from_slice(&REMOTE_HW);
    arp.extend_from_slice(&REMOTE_IP);
    arp.extend_from_slice(&[0; 6]);
    arp.extend_from_slice(&[10, 0, 0, 9]);
    eth.process_frame(&frame([0xff; 6], REMOTE_HW, 0x0806, &arp));
    assert!(!eth.has_link_payload());
    assert!(!eth.arp_cache_exists(&REMOTE_IP));
}

#[test]
fn arp_reply_fills_cache() {
    let mut eth = stack();
    assert!(!eth.arp_cache_exists(&REMOTE_IP));
    assert!(eth.arp_cache_exists(&LOCAL_IP));
    assert_eq!(eth.get_hw_addr_from_cache(&LOCAL_IP), LOCAL_HW);
    let mut arp = vec![0, 1, 8, 0, 6, 4, 0, 2];
    arp.extend_from_slice(&REMOTE_HW);
    arp.extend_from_slice(&REMOTE_IP);
    arp.extend_from_slice(&LOCAL_HW);
    arp.extend_from_slice(&LOCAL_IP);
    eth.process_frame(&frame(LOCAL_HW, REMOTE_HW, 0x0806, &arp));
    assert!(eth.arp_cache_exists(&REMOTE_IP));
    assert_eq!(eth.get_hw_addr_from_cache(&REMOTE_IP), REMOTE_HW);
    assert!(!eth.has_link_payload());
}

#[test]
fn icmp_echo_request_is_answered() {
    let mut eth = stack();
    eth.update_arp_cache(REMOTE_IP, REMOTE_HW);
    let mut icmp = vec![8, 0, 0, 0, 0, 7, 0, 1];
    icmp.extend_from_slice(b"ping");
    let (c, _) = compute_ip_checksum(&icmp, 2..4);
    icmp[2..4].copy_from_slice(&c.to_be_bytes());
    let ip = ip_packet(Protocol::ICMP, REMOTE_IP, LOCAL_IP, icmp);
    eth.process_frame(&frame(LOCAL_HW, REMOTE_HW, 0x0800, &ip));
    let out = drain(&mut eth);
    assert_eq!(out.len(), 1);
    let f = &out[0];
    assert_eq!(f.dst(), REMOTE_HW);
    assert_eq!(f.ether_type(), 0x0800);
    let reply = IPv4::packet_from_net_bytes(f.payload());
    assert_eq!(reply.header.proto, Protocol::ICMP);
    assert_eq!(reply.header.src, LOCAL_IP);
    assert_eq!(reply.header.dst, REMOTE_IP);
    let (hc, hs) = compute_ip_checksum(&f.payload()[0..20], 10..12);
    assert_eq!(hc, hs);
    let m = reply.payload_bytes();
    assert_eq!(m[0], 0);
    assert_eq!(m[1], 0);
    assert_eq!(&m[4..8], &[0, 7, 0, 1]);
    assert_eq!(&m[8..], b"ping");
    let (computed, stored) = compute_ip_checksum(m, 2..4);
    assert_eq!(computed, stored);
}

#[test]
fn udp_datagram_reaches_bound_socket() {
    let mut eth = stack();
    let server = bind(&mut eth, v4(LOCAL_IP, 5055)).unwrap();
    assert_eq!(server.identifier(), "10.0.0.2:5055");
    assert_eq!(server.ip(), LOCAL_IP);
    assert_eq!(server.port(), 5055);
    let (_, udp) = UDP::create_packet(b"hi", 4000, 5055, REMOTE_IP, LOCAL_IP);
    let ip = ip_packet(Protocol::UDP, REMOTE_IP, LOCAL_IP, udp);
    eth.process_frame(&frame(LOCAL_HW, REMOTE_HW, 0x0800, &ip));
    let mut buf = Vec::with_capacity(1000);
    let (n, src) = server.recv_from(&mut eth, &mut buf).unwrap();
    assert_eq!(n, 2);
    assert_eq!(src.src_ip_header.src, REMOTE_IP);
    assert_eq!(src.src_udp_header.src_port(), 4000);
    assert_eq!(buf, b"hi".to_vec());
}

#[test]
fn receive_copies_up_to_capacity_and_reports_full_length() {
    let mut eth = stack();
    let server = bind(&mut eth, v4(LOCAL_IP, 5055)).unwrap();
    let (_, udp) = UDP::create_packet(b"hello", 4000, 5055, REMOTE_IP, LOCAL_IP);
    let ip = ip_packet(Protocol::UDP, REMOTE_IP, LOCAL_IP, udp);
    eth.process_frame(&frame(LOCAL_HW, REMOTE_HW, 0x0800, &ip));
    let mut buf = Vec::new();
    let (n, _) = server.recv_from_up_to(&mut eth, &mut buf, 2).unwrap();
    assert_eq!(n, 5);
    assert_eq!(buf, b"he".to_vec());
}

#[test]
fn datagrams_are_received_oldest_first() {
    let mut eth = stack();
    let server = bind(&mut eth, v4(LOCAL_IP, 5055)).unwrap();
    for msg in [&b"one"[..], &b"two"[..]] {
        let (_, udp) = UDP::create_packet(msg, 4000, 5055, REMOTE_IP, LOCAL_IP);
        let ip = ip_packet(Protocol::UDP, REMOTE_IP, LOCAL_IP, udp);
        eth.process_frame(&frame(LOCAL_HW, REMOTE_HW, 0x0800, &ip));
    }
    let mut buf = Vec::with_capacity(100);
    server.recv_from(&mut eth, &mut buf).unwrap();
    assert_eq!(buf, b"one".to_vec());
    let mut buf = Vec::with_capacity(100);
    server.recv_from(&mut eth, &mut buf).unwrap();
    assert_eq!(buf, b"two".to_vec());
    let mut buf = Vec::with_capacity(100);
    assert_eq!(server.recv_from(&mut eth, &mut buf).unwrap_err(), SocketError::WouldBlock);
}

#[test]
fn datagram_for_unbound_port_is_dropped() {
    let mut eth = stack();
    let server = bind(&mut eth, v4(LOCAL_IP, 5055)).unwrap();
    let (_, udp) = UDP::create_packet(b"hi", 4000, 6000, REMOTE_IP, LOCAL_IP);
    let ip = ip_packet(Protocol::UDP, REMOTE_IP, LOCAL_IP, udp);
    eth.process_frame(&frame(LOCAL_HW, REMOTE_HW, 0x0800, &ip));
    let mut buf = Vec::with_capacity(10);
    assert_eq!(server.recv_from(&mut eth, &mut buf).unwrap_err(), SocketError::WouldBlock);
}

#[test]
fn second_bind_is_addr_in_use() {
    let mut eth = stack();
    assert!(bind(&mut eth, v4(LOCAL_IP, 5055)).is_ok());
    assert_eq!(bind(&mut eth, v4(LOCAL_IP, 5055)).unwrap_err(), SocketError::AddrInUse);
    assert!(bind(&mut eth, v4(LOCAL_IP, 5056)).is_ok());
}

#[test]
fn ipv6_bind_is_invalid_input() {
    let mut eth = stack();
    let addr = SocketAddress::V6 { segments: [0, 0, 0, 0, 0, 0, 0, 1], port: 5055 };
    assert_eq!(bind(&mut eth, addr).unwrap_err(), SocketError::InvalidInput);
    let s = bind(&mut eth, v4(LOCAL_IP, 5055)).unwrap();
    assert_eq!(s.connect(&mut eth, addr).unwrap_err(), SocketError::InvalidInput);
}

#[test]
fn send_without_connect_is_not_connected() {
    let mut eth = stack();
    let s = bind(&mut eth, v4(LOCAL_IP, 4055)).unwrap();
    assert_eq!(s.send(&mut eth, b"x").unwrap_err(), SocketError::NotConnected);
    assert!(eth.ip_stack.is_empty());
}

#[test]
fn unbound_identifier_is_stale() {
    let mut eth = stack();
    let s = UdpSocketIdentifier::new(String::from("10.0.0.2:9"), LOCAL_IP, 9);
    let mut buf = Vec::new();
    assert_eq!(s.recv_from(&mut eth, &mut buf).unwrap_err(), SocketError::StaleSocket);
    assert_eq!(s.send(&mut eth, b"x").unwrap_err(), SocketError::StaleSocket);
    assert_eq!(s.connect(&mut eth, v4(REMOTE_IP, 1)).unwrap_err(), SocketError::StaleSocket);
}

#[test]
fn oversized_send_is_refused() {
    let mut eth = stack();
    let s = bind(&mut eth, v4(LOCAL_IP, 4055)).unwrap();
    s.connect(&mut eth, v4(REMOTE_IP, 5055)).unwrap();
    assert_eq!(s.send(&mut eth, &[0u8; 1593]).unwrap_err(), SocketError::MessageTooLong);
    assert_eq!(s.send(&mut eth, &[0u8; 1592]).unwrap(), 1600);
}

#[test]
fn loopback_between_two_sockets() {
    let mut eth = stack();
    let client = bind(&mut eth, v4(LOCAL_IP, 4055)).unwrap();
    let server = bind(&mut eth, v4(LOCAL_IP, 5055)).unwrap();
    client.connect(&mut eth, v4(LOCAL_IP, 5055)).unwrap();
    assert_eq!(client.send(&mut eth, b"x").unwrap(), 9);
    let out = drain(&mut eth);
    assert!(out.is_empty());
    let mut buf = Vec::with_capacity(100);
    let (n, src) = server.recv_from(&mut eth, &mut buf).unwrap();
    assert_eq!(n, 1);
    assert_eq!(src.src_ip_header.src, LOCAL_IP);
    assert_eq!(src.src_udp_header.src_port(), 4055);
    assert_eq!(buf, b"x".to_vec());
    // And the reply finds its way back.
    server.send_to(&mut eth, b"ok", &src).unwrap();
    assert!(drain(&mut eth).is_empty());
    let mut buf = Vec::with_capacity(100);
    let (n, from) = client.recv_from(&mut eth, &mut buf).unwrap();
    assert_eq!(n, 2);
    assert_eq!(from.src_udp_header.src_port(), 5055);
    assert_eq!(buf, b"ok".to_vec());
}

#[test]
fn send_to_replies_to_the_sender() {
    let mut eth = stack();
    eth.update_arp_cache(REMOTE_IP, REMOTE_HW);
    let server = bind(&mut eth, v4(LOCAL_IP, 5055)).unwrap();
    let (_, udp) = UDP::create_packet(b"hi", 4000, 5055, REMOTE_IP, LOCAL_IP);
    let ip = ip_packet(Protocol::UDP, REMOTE_IP, LOCAL_IP, udp);
    eth.process_frame(&frame(LOCAL_HW, REMOTE_HW, 0x0800, &ip));
    let mut buf = Vec::with_capacity(10);
    let (_, src) = server.recv_from(&mut eth, &mut buf).unwrap();
    assert_eq!(server.send_to(&mut eth, b"back", &src).unwrap(), 12);
    let out = drain(&mut eth);
    assert_eq!(out.len(), 1);
    assert_eq!(out[0].dst(), REMOTE_HW);
    let reply = IPv4::packet_from_net_bytes(out[0].payload());
    assert_eq!(reply.header.dst, REMOTE_IP);
    assert_eq!(reply.header.src, LOCAL_IP);
    let d = UDP::packet_from_bytes(&reply).unwrap();
    assert_eq!(d.dst_port(), 4000);
    assert_eq!(d.src_port(), 5055);
    assert_eq!(d.payload, b"back".to_vec());
}

#[test]
fn unresolved_target_triggers_arp_request_and_requeue() {
    let mut eth = stack();
    let s = bind(&mut eth, v4(LOCAL_IP, 4055)).unwrap();
    s.connect(&mut eth, v4(REMOTE_IP, 5055)).unwrap();
    s.send(&mut eth, b"x").unwrap();
    let l = eth.ip_stack.next().unwrap();
    eth.write_ip_response(l);
    let p = eth.next_link_payload().unwrap();
    assert!(matches!(p, LinkPayload::Ip(_)));
    let f = eth.write_response(p).unwrap();
    assert_eq!(f.dst(), [0xff; 6]);
    assert_eq!(f.ether_type(), 0x0806);
    assert_eq!(&f.payload()[24..28], &REMOTE_IP);
    assert!(eth.has_link_payload());
    // Once the peer answers, the waiting packet goes out to it.
    eth.update_arp_cache(REMOTE_IP, REMOTE_HW);
    let p = eth.next_link_payload().unwrap();
    let f = eth.write_response(p).unwrap();
    assert_eq!(f.dst(), REMOTE_HW);
    assert_eq!(f.ether_type(), 0x0800);
}

#[test]
fn unknown_ether_type_is_ignored() {
    let mut eth = stack();
    eth.process_frame(&frame(LOCAL_HW, REMOTE_HW, 0x86dd, &[0; 40]));
    assert!(!eth.has_link_payload());
    assert!(eth.ip_stack.is_empty());
}

#[test]
fn random_addresses_are_drawn_per_stack() {
    let a = Ethernet::bind(3);
    let b = Ethernet::bind(3);
    let c = Ethernet::bind(3);
    assert_eq!(a.hw_address(), a.address());
    assert!(a.address() != b.address() || b.address() != c.address());
}

#[test]
fn datagram_for_another_address_is_not_delivered() {
    let mut eth = stack();
    let server = bind(&mut eth, v4(LOCAL_IP, 5055)).unwrap();
    let other = [10, 0, 0, 9];
    let (_, udp) = UDP::create_packet(b"hi", 4000, 5055, REMOTE_IP, other);
    let ip = ip_packet(Protocol::UDP, REMOTE_IP, other, udp);
    eth.process_frame(&frame(LOCAL_HW, REMOTE_HW, 0x0800, &ip));
    let mut buf = Vec::with_capacity(10);
    assert_eq!(server.recv_from(&mut eth, &mut buf).unwrap_err(), SocketError::WouldBlock);
    let elsewhere = bind(&mut eth, v4(other, 5055)).unwrap();
    eth.process_frame(&frame(LOCAL_HW, REMOTE_HW, 0x0800, &ip));
    let (n, _) = elsewhere.recv_from(&mut eth, &mut buf).unwrap();
    assert_eq!(n, 2);
}
