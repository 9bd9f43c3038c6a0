use vstd::prelude::*;
use std::collections::VecDeque;
use crate::ethernet::{ip_ingress, Ethernet, EthernetFrame, ProtocolAddr, MTU};
use crate::icmp::ICMP as IcmpMessage;
use crate::udp::UDP as UdpDatagram;
use crate::udp_socket::SocketTable;
use crate::net_util::{
    be16, be16_bytes, checksum_of, checksum_verifies, compute_ip_checksum, dotted_quad, get_bits,
    lemma_patched_checksum_verifies, ntohs, patch_be16, push_all, push_be16, push_dotted_quad,
    set_be16,
};

verus! {

pub const ICMP: u8 = 1;

pub const TCP: u8 = 6;

pub const UDP: u8 = 17;

/// Length of a header without options.
pub const IP_HEADER_LEN: usize = 20;

/// Time to live of every packet this stack sends.
pub const DEFAULT_TTL: u8 = 50;

/// The transport protocol named by a header's protocol field.
#[derive(Debug, Clone, Copy, PartialEq, Eq, Structural)]
pub enum Protocol {
    ICMP,
    TCP,
    UDP,
    Unsupported,
}

/// The protocol named by a protocol number.
pub open spec fn protocol_of(byte: u8) -> Protocol {
    if byte == ICMP {
        Protocol::ICMP
    } else if byte == TCP {
        Protocol::TCP
    } else if byte == UDP {
        Protocol::UDP
    } else {
        Protocol::Unsupported
    }
}

/// The protocol number of a known protocol.
pub open spec fn protocol_number(p: Protocol) -> u8 {
    match p {
        Protocol::ICMP => ICMP,
        Protocol::TCP => TCP,
        Protocol::UDP => UDP,
        Protocol::Unsupported => 0,
    }
}

/// The fields of an IPv4 header.
#[derive(Debug, Clone, Copy, PartialEq, Eq)]
pub struct IpHeader {
    pub version: u8,
    pub ihl: u8,
    pub ecn: u8,
    pub t_len: u16,
    pub id: u16,
    pub flags: u8,
    pub frag_offset: u16,
    pub ttl: u8,
    pub proto: Protocol,
    pub chksm: u16,
    pub src: ProtocolAddr,
    pub dst: ProtocolAddr,
}

impl IpHeader {
    /// Each field fits the bits that the wire format gives it.
    pub open spec fn fields_fit(&self) -> bool {
        &&& self.version < 16
        &&& self.ihl < 16
        &&& self.flags < 8
        &&& self.frag_offset < 8192
    }

    /// The header with `c` as its checksum.
    pub open spec fn with_checksum(self, c: u16) -> IpHeader {
        IpHeader { chksm: c, ..self }
    }

    /// The header of a packet with no options and no fragmentation, sent with
    /// the default time to live.
    pub fn make_unfragmented_ip_header(
        src_ip: ProtocolAddr,
        dst_ip: ProtocolAddr,
        proto: u8,
        payload_len: u16,
    ) -> (r: Self)
        requires
            payload_len as int + IP_HEADER_LEN <= u16::MAX,
        ensures
            r == (IpHeader {
                version: 4,
                ihl: 5,
                ecn: 0,
                t_len: (payload_len + 20) as u16,
                id: 0,
                flags: 0,
                frag_offset: 0,
                ttl: DEFAULT_TTL,
                proto: protocol_of(proto),
                chksm: 0,
                src: src_ip,
                dst: dst_ip,
            }),
    {
        let ihl = 5u8;
        IpHeader {
            version: 4,
            ihl: ihl,
            ecn: 0,
            t_len: payload_len + (ihl * 4) as u16,
            id: 0,
            flags: 0,
            frag_offset: 0,
            ttl: DEFAULT_TTL,
            proto: set_proto(proto),
            chksm: 0,
            src: src_ip,
            dst: dst_ip,
        }
    }
}

/// The header of the packet that answers a packet with header `src`: no
/// options, no fragmentation, the default time to live, from `src`'s
/// destination back to its source.
pub open spec fn response_header(src: IpHeader, payload_len: nat, proto: u8) -> IpHeader {
    IpHeader {
        version: 4,
        ihl: 5,
        ecn: src.ecn,
        t_len: (payload_len + 20) as u16,
        id: 0,
        flags: 0,
        frag_offset: 0,
        ttl: DEFAULT_TTL,
        proto: protocol_of(proto),
        chksm: 0,
        src: src.dst,
        dst: src.src,
    }
}

/// The 20 header bytes of `h`, its checksum field as it stands.
pub open spec fn header_bytes(h: IpHeader) -> Seq<u8> {
    seq![(h.version * 16 + h.ihl) as u8, h.ecn] + be16_bytes(h.t_len) + be16_bytes(h.id)
        + be16_bytes((h.flags * 8192 + h.frag_offset) as u16) + seq![h.ttl, protocol_number(h.proto)]
        + be16_bytes(h.chksm) + h.src@ + h.dst@
}

/// The checksum of the header of `h`.
pub open spec fn header_checksum(h: IpHeader) -> u16 {
    checksum_of(header_bytes(h), 10)
}

/// The bytes of a packet with header `h`, its checksum computed, and payload `data`.
pub open spec fn packet_bytes(h: IpHeader, data: Seq<u8>) -> Seq<u8> {
    header_bytes(h.with_checksum(header_checksum(h))) + data
}

/// The header read from the first 20 bytes of `b`.
pub open spec fn header_from_bytes(b: Seq<u8>) -> IpHeader {
    IpHeader {
        version: (b[0] / 16) as u8,
        ihl: (b[0] % 16) as u8,
        ecn: b[1],
        t_len: be16(b[2], b[3]) as u16,
        id: be16(b[4], b[5]) as u16,
        flags: (b[6] / 32) as u8,
        frag_offset: ((b[6] % 32) * 256 + b[7]) as u16,
        ttl: b[8],
        proto: protocol_of(b[9]),
        chksm: be16(b[10], b[11]) as u16,
        src: [b[12], b[13], b[14], b[15]],
        dst: [b[16], b[17], b[18], b[19]],
    }
}

/// An IPv4 packet: its header and its payload.
#[derive(Debug, Clone)]
pub struct IPv4 {
    pub header: IpHeader,
    pub data: Vec<u8>,
}

/// A transport payload waiting to be sent, with the header of the packet it
/// answers: the reply goes from that header's destination to its source.
#[derive(Debug, Clone)]
pub struct Layer4Response {
    pub data: Vec<u8>,
    pub protocol: u8,
    pub src_ip_header: IpHeader,
}

/// The queue of transport payloads waiting for the IP layer, oldest first.
pub struct IPstackWriter {
    queue: VecDeque<Layer4Response>,
}

impl View for IPstackWriter {
    type V = Seq<Layer4Response>;

    closed spec fn view(&self) -> Seq<Layer4Response> {
        self.queue@
    }
}

impl IPstackWriter {
    pub fn new() -> (r: Self)
        ensures
            r@ == Seq::<Layer4Response>::empty(),
    {
        IPstackWriter { queue: VecDeque::new() }
    }

    /// Queues a payload behind those already waiting.
    pub fn write(&mut self, packet_to_write: Layer4Response)
        ensures
            final(self)@ == old(self)@.push(packet_to_write),
    {
        self.queue.push_back(packet_to_write);
    }

    /// Takes the oldest waiting payload.
    pub fn next(&mut self) -> (r: Option<Layer4Response>)
        ensures
            old(self)@.len() == 0 ==> r is None && final(self)@ == old(self)@,
            old(self)@.len() > 0 ==> r == Some(old(self)@[0]) && final(self)@ == old(self)@.drop_first(),
    {
        let r = self.queue.pop_front();
        proof {
            if r is Some {
                assert(self@ =~= old(self)@.drop_first());
            }
        }
        r
    }

    pub fn is_empty(&self) -> (r: bool)
        ensures
            r == (self@.len() == 0),
    {
        self.queue.len() == 0
    }
}

/// The protocol named by a protocol number.
pub fn set_proto(byte: u8) -> (r: Protocol)
    ensures
        r == protocol_of(byte),
{
    if byte == ICMP {
        Protocol::ICMP
    } else if byte == TCP {
        Protocol::TCP
    } else if byte == UDP {
        Protocol::UDP
    } else {
        Protocol::Unsupported
    }
}

impl IPv4 {
    /// Hands an IP packet that arrived in `frame` to its transport protocol.
    pub fn process_packet(eth: &mut Ethernet, frame: &EthernetFrame)
        requires
            old(eth).wf(),
            frame.wf(),
        ensures
            final(eth).wf(),
            ip_ingress(*old(eth), *final(eth), frame@.subrange(14, frame@.len() as int)),
    {
        IPv4::handle_frame(frame, &mut eth.ip_stack, &mut eth.sockets);
    }

    fn handle_frame(frame: &EthernetFrame, ipv4_stack: &mut IPstackWriter, sockets: &mut SocketTable)
        requires
            frame.wf(),
            old(sockets).wf(),
        ensures
            final(sockets).wf(),
            ({
                let ip = frame@.subrange(14, frame@.len() as int);
                if ip.len() >= 20 && protocol_of(ip[9]) == Protocol::ICMP {
                    crate::icmp::icmp_ingress(old(ipv4_stack)@, final(ipv4_stack)@, ip) && final(sockets)@
                        == old(sockets)@
                } else if ip.len() >= 20 && protocol_of(ip[9]) == Protocol::UDP {
                    crate::udp::udp_ingress(old(sockets)@, final(sockets)@, ip) && final(ipv4_stack)@
                        == old(ipv4_stack)@
                } else {
                    final(ipv4_stack)@ == old(ipv4_stack)@ && final(sockets)@ == old(sockets)@
                }
            }),
    {
        let ip_bytes = frame.payload();
        if ip_bytes.len() < IP_HEADER_LEN {
            return ;
        }
        let protocol = IPv4::protocol_from_ip_bytes(ip_bytes);
        match protocol {
            Protocol::ICMP => {
                IcmpMessage::process_packet(frame, ipv4_stack);
            },
            Protocol::UDP => {
                UdpDatagram::process_packet(frame, sockets);
            },
            // TCP and other protocols are not handled: the packet is dropped.
            _ => {},
        }
    }

    pub fn payload_bytes(&self) -> (r: &[u8])
        ensures
            r@ == self.data@,
    {
        self.data.as_slice()
    }

    /// Reads a packet whose header has no options: the header from the first 20
    /// bytes, the payload from the rest.
    pub fn packet_from_net_bytes(data: &[u8]) -> (r: IPv4)
        requires
            data@.len() >= IP_HEADER_LEN,
        ensures
            r.header == header_from_bytes(data@),
            r.data@ == data@.subrange(20, data@.len() as int),
    {
        proof {
            vstd::arithmetic::power2::lemma2_to64();
        }
        let version = get_bits(data[0], 4..8);
        let ihl = get_bits(data[0], 0..4);
        let flags = get_bits(data[6], 5..8);
        let frag_high = get_bits(data[6], 0..5);
        assert(version == data@[0] / 16 && ihl == data@[0] % 16 && flags == data@[6] / 32
            && frag_high == data@[6] % 32) by (nonlinear_arith)
            requires
                version as nat == (data@[0] as nat / 16) % 16,
                ihl as nat == (data@[0] as nat / 1) % 16,
                flags as nat == (data@[6] as nat / 32) % 8,
                frag_high as nat == (data@[6] as nat / 1) % 32,
        ;
        let header = IpHeader {
            version: version,
            ihl: ihl,
            ecn: data[1],
            t_len: ntohs(vstd::slice::slice_subrange(data, 2, 4)),
            id: ntohs(vstd::slice::slice_subrange(data, 4, 6)),
            flags: flags,
            frag_offset: (frag_high as u16) * 256 + data[7] as u16,
            ttl: data[8],
            proto: set_proto(data[9]),
            chksm: ntohs(vstd::slice::slice_subrange(data, 10, 12)),
            src: [data[12], data[13], data[14], data[15]],
            dst: [data[16], data[17], data[18], data[19]],
        };
        let payload = vstd::slice::slice_to_vec(
            vstd::slice::slice_subrange(data, 20, data.len()),
        );
        assert(header.src =~= header_from_bytes(data@).src);
        assert(header.dst =~= header_from_bytes(data@).dst);
        IPv4 { header, data: payload }
    }

    /// The packet's bytes, with its header checksum computed and written in.
    pub fn packet_to_bytes(&self) -> (r: Vec<u8>)
        requires
            self.header.fields_fit(),
            self.header.proto != Protocol::Unsupported,
        ensures
            r@ == packet_bytes(self.header, self.data@),
            checksum_verifies(r@.subrange(0, 20), 10),
    {
        let h = &self.header;
        let mut packet_buffer: Vec<u8> = Vec::new();
        let flag_frag_offset: u16 = (h.flags as u16) * 8192 + h.frag_offset;
        packet_buffer.push(h.version * 16 + h.ihl);
        packet_buffer.push(h.ecn);
        push_be16(&mut packet_buffer, h.t_len);
        push_be16(&mut packet_buffer, h.id);
        push_be16(&mut packet_buffer, flag_frag_offset);
        packet_buffer.push(h.ttl);
        packet_buffer.push(self.get_proto_val());
        push_be16(&mut packet_buffer, h.chksm);
        push_all(&mut packet_buffer, h.src.as_slice());
        push_all(&mut packet_buffer, h.dst.as_slice());
        assert(packet_buffer@ =~= header_bytes(self.header));
        let (checksum, _) = compute_ip_checksum(packet_buffer.as_slice(), 10..12);
        set_be16(&mut packet_buffer, 10, checksum);
        proof {
            let hb = header_bytes(self.header);
            let c = header_checksum(self.header);
            assert(patch_be16(hb, 10, c) =~= header_bytes(self.header.with_checksum(c)));
            lemma_patched_checksum_verifies(hb, 10);
        }
        let ghost header_done = packet_buffer@;
        push_all(&mut packet_buffer, self.payload_bytes());
        assert(packet_buffer@.subrange(0, 20) =~= header_done);
        packet_buffer
    }

    pub fn ip_header(&self) -> (r: IpHeader)
        ensures
            r == self.header,
    {
        self.header
    }

    /// The source address in dotted decimal form.
    pub fn src_str(&self) -> (r: String)
        ensures
            r@ == dotted_quad(self.header.src),
    {
        let mut s = String::new();
        push_dotted_quad(&mut s, self.header.src);
        assert(s@ =~= dotted_quad(self.header.src));
        s
    }

    fn get_proto_val(&self) -> (r: u8)
        requires
            self.header.proto != Protocol::Unsupported,
        ensures
            r == protocol_number(self.header.proto),
            protocol_of(r) == self.header.proto,
    {
        match self.header.proto {
            Protocol::TCP => TCP,
            Protocol::ICMP => ICMP,
            Protocol::UDP => UDP,
            Protocol::Unsupported => 0,
        }
    }

    /// A packet with no options and no fragmentation that answers the packet
    /// whose header is `src_header`: it goes back to that header's source.
    pub fn build_unfragmented_packet(src_header: IpHeader, payload: Vec<u8>, proto: u8) -> (r: IPv4)
        requires
            payload@.len() + IP_HEADER_LEN <= u16::MAX,
        ensures
            r.header == response_header(src_header, payload@.len(), proto),
            r.data@ == payload@,
    {
        let total_packet_len = (IP_HEADER_LEN + payload.len()) as u16;
        IPv4 {
            header: IpHeader {
                version: 4u8,
                ihl: 5u8,
                ecn: src_header.ecn,
                t_len: total_packet_len,
                id: 0u16,
                flags: 0u8,
                frag_offset: 0u16,
                ttl: DEFAULT_TTL,
                proto: set_proto(proto),
                chksm: 0u16,
                src: src_header.dst,
                dst: src_header.src,
            },
            data: payload,
        }
    }

    /// The reply packet for a payload, or none when the payload exceeds the MTU
    /// (this stack does not fragment).
    pub fn build_ipv4_response(src_ip_header: IpHeader, payload: Vec<u8>, protocol: u8) -> (r: Option<IPv4>)
        ensures
            payload@.len() > MTU <==> r is None,
            r matches Some(p) ==> p.data@ == payload@ && p.header == response_header(
                src_ip_header,
                payload@.len(),
                protocol,
            ),
    {
        if payload.len() > MTU as usize {
            None
        } else {
            Some(IPv4::build_unfragmented_packet(src_ip_header, payload, protocol))
        }
    }

    /// The protocol named by the header in `ipv4_bytes`.
    pub fn protocol_from_ip_bytes(ipv4_bytes: &[u8]) -> (r: Protocol)
        requires
            ipv4_bytes@.len() >= 10,
        ensures
            r == protocol_of(ipv4_bytes@[9]),
    {
        set_proto(ipv4_bytes[9])
    }

    pub fn src_from_bytes(ip_bytes: &[u8]) -> (r: &[u8])
        requires
            ip_bytes@.len() >= IP_HEADER_LEN,
        ensures
            r@ == ip_bytes@.subrange(12, 16),
    {
        vstd::slice::slice_subrange(ip_bytes, 12, 16)
    }

    pub fn dst_from_bytes(ip_bytes: &[u8]) -> (r: &[u8])
        requires
            ip_bytes@.len() >= IP_HEADER_LEN,
        ensures
            r@ == ip_bytes@.subrange(16, 20),
    {
        vstd::slice::slice_subrange(ip_bytes, 16, 20)
    }

    pub fn payload_from_bytes(ip_bytes: &[u8]) -> (r: &[u8])
        requires
            ip_bytes@.len() >= IP_HEADER_LEN,
        ensures
            r@ == ip_bytes@.subrange(20, ip_bytes@.len() as int),
    {
        vstd::slice::slice_subrange(ip_bytes, 20, ip_bytes.len())
    }
}

/// Every packet this stack encodes carries a header checksum that verifies.
pub proof fn lemma_packet_checksum_verifies(h: IpHeader, data: Seq<u8>)
    ensures
        checksum_verifies(packet_bytes(h, data).subrange(0, 20), 10),
{
    let hb = header_bytes(h);
    let c = header_checksum(h);
    assert(patch_be16(hb, 10, c) =~= header_bytes(h.with_checksum(c)));
    assert(packet_bytes(h, data).subrange(0, 20) =~= header_bytes(h.with_checksum(c)));
    lemma_patched_checksum_verifies(hb, 10);
}

/// Encoding a packet whose header has no options, fits its fields and carries
/// its own checksum, then decoding the bytes, gives the same header and payload.
pub proof fn lemma_ip_round_trip(h: IpHeader, data: Seq<u8>)
    requires
        h.ihl == 5,
        h.fields_fit(),
        h.proto != Protocol::Unsupported,
        h.chksm == header_checksum(h),
    ensures
        header_from_bytes(packet_bytes(h, data)) == h,
        packet_bytes(h, data).subrange(20, packet_bytes(h, data).len() as int) == data,
{
    let b = packet_bytes(h, data);
    assert(h.with_checksum(header_checksum(h)) == h);
    let v = h.version;
    let w = (h.flags * 8192 + h.frag_offset) as u16;
    assert(b[0] == (v * 16 + 5) as u8);
    assert((v * 16 + 5) / 16 == v && (v * 16 + 5) % 16 == 5) by (nonlinear_arith)
        requires
            v < 16,
    ;
    assert(w / 256 / 32 == h.flags && (w / 256 % 32) * 256 + w % 256 == h.frag_offset)
        by (nonlinear_arith)
        requires
            w == h.flags * 8192 + h.frag_offset,
            h.flags < 8,
            h.frag_offset < 8192,
    ;
    assert(be16((h.t_len / 256) as u8, (h.t_len % 256) as u8) == h.t_len);
    assert(be16((h.id / 256) as u8, (h.id % 256) as u8) == h.id);
    assert(be16((h.chksm / 256) as u8, (h.chksm % 256) as u8) == h.chksm);
    assert(protocol_of(protocol_number(h.proto)) == h.proto);
    let d = header_from_bytes(b);
    assert(d.src =~= h.src);
    assert(d.dst =~= h.dst);
    assert(b.subrange(20, b.len() as int) =~= data);
}

} // verus!
