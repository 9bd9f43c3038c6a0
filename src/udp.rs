use vstd::prelude::*;
use crate::ethernet::{EthernetFrame, ProtocolAddr};
use crate::ipv4::{header_from_bytes, IPv4, IP_HEADER_LEN};
use crate::net_util::{
    be16, be16_bytes, checksum_of, checksum_verifies, compute_ip_checksum, lemma_patched_checksum_verifies,
    ntohs, patch_be16, push_all, push_be16, set_be16, stored_checksum, MAX_CHECKSUM_LEN,
};
use crate::udp_socket::{socket_key, SocketModel, SocketTable};

verus! {

pub const UDP_PROTO: u8 = 17;

/// Length of a UDP header.
pub const UDP_HEADER_LEN: usize = 8;

#[derive(Copy, Clone, Debug, PartialEq, Eq)]
pub struct UdpHeader {
    pub src_port: u16,
    pub dst_port: u16,
    pub length: u16,
    pub chksm: u16,
}

impl UdpHeader {
    pub fn src_port(&self) -> (r: u16)
        ensures
            r == self.src_port,
    {
        self.src_port
    }

    pub fn dst_port(&self) -> (r: u16)
        ensures
            r == self.dst_port,
    {
        self.dst_port
    }

    pub fn length(&self) -> (r: u16)
        ensures
            r == self.length,
    {
        self.length
    }

    pub fn chksm(&self) -> (r: u16)
        ensures
            r == self.chksm,
    {
        self.chksm
    }

    pub fn set_chksm(&mut self, value: u16)
        ensures
            *final(self) == (UdpHeader { chksm: value, ..*old(self) }),
    {
        self.chksm = value;
    }
}

/// A UDP datagram: its header and its payload.
#[derive(Clone, Debug)]
pub struct UDP {
    pub header: UdpHeader,
    pub payload: Vec<u8>,
}

/// The bytes of a datagram with header `h` and payload `payload`.
pub open spec fn udp_bytes(h: UdpHeader, payload: Seq<u8>) -> Seq<u8> {
    be16_bytes(h.src_port) + be16_bytes(h.dst_port) + be16_bytes(h.length) + be16_bytes(h.chksm)
        + payload
}

/// The sequence the UDP checksum is computed over: source and destination
/// addresses, a zero byte, the protocol number, the UDP length, then the
/// datagram itself.
pub open spec fn pseudo_header(src_ip: Seq<u8>, dst_ip: Seq<u8>, udp: Seq<u8>) -> Seq<u8> {
    src_ip + dst_ip + seq![0u8, UDP_PROTO] + be16_bytes(udp.len() as u16) + udp
}

/// The checksum of a datagram sent from `src_ip` to `dst_ip`.
pub open spec fn udp_checksum(src_ip: ProtocolAddr, dst_ip: ProtocolAddr, h: UdpHeader, payload: Seq<u8>) -> u16 {
    checksum_of(pseudo_header(src_ip@, dst_ip@, udp_bytes(h, payload)), 18)
}

/// The bytes of the datagram `src_port -> dst_port` carrying `payload`, sent
/// from `src_ip` to `dst_ip`, with its checksum.
pub open spec fn datagram_bytes(
    src_ip: ProtocolAddr,
    dst_ip: ProtocolAddr,
    src_port: u16,
    dst_port: u16,
    payload: Seq<u8>,
) -> Seq<u8> {
    let h0 = UdpHeader { src_port, dst_port, length: (payload.len() + 8) as u16, chksm: 0 };
    udp_bytes(UdpHeader { chksm: udp_checksum(src_ip, dst_ip, h0, payload), ..h0 }, payload)
}

/// A received datagram is taken: its checksum field is zero, or the checksum verifies.
pub open spec fn udp_accepts(src_ip: Seq<u8>, dst_ip: Seq<u8>, udp: Seq<u8>) -> bool {
    let p = pseudo_header(src_ip, dst_ip, udp);
    stored_checksum(p, 18) == 0 || checksum_verifies(p, 18)
}

/// The datagram read from `b`.
pub open spec fn datagram_from_bytes(b: Seq<u8>) -> (UdpHeader, Seq<u8>) {
    (
        UdpHeader {
            src_port: be16(b[0], b[1]) as u16,
            dst_port: be16(b[2], b[3]) as u16,
            length: be16(b[4], b[5]) as u16,
            chksm: be16(b[6], b[7]) as u16,
        },
        b.subrange(8, b.len() as int),
    )
}

/// What an IP packet `ip` does to the sockets when it is handed to UDP: a
/// datagram whose checksum is zero or right goes to the socket bound to its
/// destination address and port, if there is one and it has room; anything
/// else leaves the sockets as they were.
pub open spec fn udp_ingress(old_t: Map<u64, SocketModel>, new_t: Map<u64, SocketModel>, ip: Seq<u8>) -> bool {
    let h = header_from_bytes(ip);
    let udp = ip.subrange(20, ip.len() as int);
    let (uh, payload) = datagram_from_bytes(udp);
    let key = socket_key(h.dst, uh.dst_port);
    if ip.len() >= 20 && 8 <= udp.len() <= u16::MAX && udp_accepts(h.src@, h.dst@, udp)
        && old_t.contains_key(key) {
        new_t == old_t.insert(key, old_t[key].receive((uh, payload, h)))
    } else {
        new_t == old_t
    }
}

impl UDP {
    /// Hands a datagram that arrived in `frame` to the socket bound to its
    /// destination address and port; drops it when the frame is no UDP
    /// datagram, its checksum fails, no socket is bound there, or the
    /// socket's buffer is full.
    pub fn process_packet(frame: &EthernetFrame, sockets: &mut SocketTable)
        requires
            frame.wf(),
            old(sockets).wf(),
        ensures
            final(sockets).wf(),
            udp_ingress(old(sockets)@, final(sockets)@, frame@.subrange(14, frame@.len() as int)),
    {
        let ip_bytes = frame.payload();
        if ip_bytes.len() < IP_HEADER_LEN {
            return ;
        }
        let ipv4_packet = IPv4::packet_from_net_bytes(ip_bytes);
        let ip_header = ipv4_packet.ip_header();
        match Self::packet_from_bytes(&ipv4_packet) {
            Some(datagram) => {
                let port = datagram.dst_port();
                sockets.deliver(ip_header.dst, port, datagram, ip_header);
            },
            None => {},
        }
    }

    pub fn header(&self) -> (r: UdpHeader)
        ensures
            r == self.header,
    {
        self.header
    }

    pub fn src_port(&self) -> (r: u16)
        ensures
            r == self.header.src_port,
    {
        self.header.src_port
    }

    pub fn dst_port(&self) -> (r: u16)
        ensures
            r == self.header.dst_port,
    {
        self.header.dst_port
    }

    pub fn length(&self) -> (r: u16)
        ensures
            r == self.header.length,
    {
        self.header.length
    }

    pub fn chksm(&self) -> (r: u16)
        ensures
            r == self.header.chksm,
    {
        self.header.chksm
    }

    pub fn set_chksm(&mut self, value: u16)
        ensures
            final(self).header == (UdpHeader { chksm: value, ..old(self).header }),
            final(self).payload == old(self).payload,
    {
        self.header.chksm = value;
    }

    /// Builds the datagram `src_port -> dst_port` carrying `payload`, with its
    /// checksum over the pseudo-header of `src_ip -> dst_ip` written in, and
    /// its bytes.
    pub fn create_packet(
        payload: &[u8],
        src_port: u16,
        dst_port: u16,
        src_ip: ProtocolAddr,
        dst_ip: ProtocolAddr,
    ) -> (r: (UDP, Vec<u8>))
        requires
            payload@.len() + UDP_HEADER_LEN <= u16::MAX,
        ensures
            ({
                let h0 = UdpHeader {
                    src_port,
                    dst_port,
                    length: (payload@.len() + 8) as u16,
                    chksm: 0,
                };
                &&& r.0.header == (UdpHeader { chksm: udp_checksum(src_ip, dst_ip, h0, payload@), ..h0 })
                &&& r.0.payload@ == payload@
                &&& r.1@ == udp_bytes(r.0.header, payload@)
            }),
            r.1@ == datagram_bytes(src_ip, dst_ip, src_port, dst_port, payload@),
            checksum_verifies(pseudo_header(src_ip@, dst_ip@, r.1@), 18),
    {
        let mut packet = UDP {
            header: UdpHeader {
                src_port: src_port,
                dst_port: dst_port,
                // Header length (8 bytes) and the payload length.
                length: (UDP_HEADER_LEN + payload.len()) as u16,
                chksm: 0u16,
            },
            payload: vstd::slice::slice_to_vec(payload),
        };
        let mut packet_bytes = packet.packet_to_bytes();
        let pseudo = Self::create_pseudo_header(
            packet_bytes.as_slice(),
            src_ip.as_slice(),
            dst_ip.as_slice(),
        );
        let (cmpted_chksum, _) = compute_ip_checksum(pseudo.as_slice(), 18..20);
        packet.set_chksm(cmpted_chksum);
        set_be16(&mut packet_bytes, 6, cmpted_chksum);
        proof {
            let ghost h0 = UdpHeader {
                src_port,
                dst_port,
                length: (payload@.len() + 8) as u16,
                chksm: 0,
            };
            let ghost ub = udp_bytes(h0, payload@);
            let ghost ps = pseudo_header(src_ip@, dst_ip@, ub);
            assert(packet_bytes@ =~= udp_bytes(packet.header, payload@));
            assert(patch_be16(ps, 18, cmpted_chksum) =~= pseudo_header(src_ip@, dst_ip@, packet_bytes@));
            lemma_patched_checksum_verifies(ps, 18);
        }
        (packet, packet_bytes)
    }

    /// Reads the datagram carried by `ipv4_packet`; none when it is shorter
    /// than a UDP header, longer than a UDP length can say, or its checksum is
    /// neither zero nor right.
    pub fn packet_from_bytes(ipv4_packet: &IPv4) -> (r: Option<UDP>)
        ensures
            ({
                let udp = ipv4_packet.data@;
                r is Some <==> (8 <= udp.len() <= u16::MAX && udp_accepts(
                    ipv4_packet.header.src@,
                    ipv4_packet.header.dst@,
                    udp,
                ))
            }),
            r matches Some(d) ==> (d.header, d.payload@) == datagram_from_bytes(ipv4_packet.data@),
    {
        let udp_bytes = ipv4_packet.payload_bytes();
        if udp_bytes.len() < UDP_HEADER_LEN || udp_bytes.len() > u16::MAX as usize {
            return None;
        }
        let pseudo = Self::create_pseudo_header(
            udp_bytes,
            ipv4_packet.header.src.as_slice(),
            ipv4_packet.header.dst.as_slice(),
        );
        let (cmpted_chksum, received_chksm) = compute_ip_checksum(pseudo.as_slice(), 18..20);
        // A zero checksum means the sender did not compute one.
        if (cmpted_chksum != received_chksm) && (received_chksm != 0) {
            None
        } else {
            let udp_datagram = UDP {
                header: UdpHeader {
                    src_port: ntohs(vstd::slice::slice_subrange(udp_bytes, 0, 2)),
                    dst_port: ntohs(vstd::slice::slice_subrange(udp_bytes, 2, 4)),
                    length: ntohs(vstd::slice::slice_subrange(udp_bytes, 4, 6)),
                    chksm: ntohs(vstd::slice::slice_subrange(udp_bytes, 6, 8)),
                },
                payload: vstd::slice::slice_to_vec(
                    vstd::slice::slice_subrange(udp_bytes, 8, udp_bytes.len()),
                ),
            };
            Some(udp_datagram)
        }
    }

    /// The pseudo-header sequence for a datagram from `src_ip` to `dst_ip`.
    fn create_pseudo_header(udp_packet_bytes: &[u8], src_ip: &[u8], dst_ip: &[u8]) -> (r: Vec<u8>)
        requires
            udp_packet_bytes@.len() <= u16::MAX,
            src_ip@.len() == 4,
            dst_ip@.len() == 4,
        ensures
            r@ == pseudo_header(src_ip@, dst_ip@, udp_packet_bytes@),
            r@.len() <= MAX_CHECKSUM_LEN,
    {
        let mut bytes: Vec<u8> = Vec::new();
        push_all(&mut bytes, src_ip);
        push_all(&mut bytes, dst_ip);
        bytes.push(0u8);
        bytes.push(UDP_PROTO);
        push_be16(&mut bytes, udp_packet_bytes.len() as u16);
        push_all(&mut bytes, udp_packet_bytes);
        assert(bytes@ =~= pseudo_header(src_ip@, dst_ip@, udp_packet_bytes@));
        bytes
    }

    /// The datagram's bytes, its checksum field as it stands.
    pub fn packet_to_bytes(&self) -> (r: Vec<u8>)
        ensures
            r@ == udp_bytes(self.header, self.payload@),
    {
        let mut packet_bytes: Vec<u8> = Vec::new();
        push_be16(&mut packet_bytes, self.src_port());
        push_be16(&mut packet_bytes, self.dst_port());
        push_be16(&mut packet_bytes, self.length());
        push_be16(&mut packet_bytes, self.chksm());
        push_all(&mut packet_bytes, self.payload.as_slice());
        assert(packet_bytes@ =~= udp_bytes(self.header, self.payload@));
        packet_bytes
    }
}

} // verus!
