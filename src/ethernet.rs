use vstd::prelude::*;
use std::collections::HashMap;
use std::collections::VecDeque;
use crate::arp::{arp_well_formed, kind_of, reply_bytes, request_bytes, ARPKind, ARP};
use crate::icmp::icmp_ingress;
use crate::ipv4::{
    packet_bytes, protocol_of, response_header, IPstackWriter, IPv4, Layer4Response, Protocol,
};
use crate::net_util::{be16, be16_bytes, be32, bytes_equal, ntohs, push_all, push_be16};
use crate::udp::udp_ingress;
use crate::udp_socket::SocketTable;

verus! {

/// A 6-byte link-layer (MAC) address.
pub type HwAddr = [u8; 6];

/// A 4-byte IPv4 address.
pub type ProtocolAddr = [u8; 4];

pub const ETH_IPV4: i32 = 0x800;

pub const ETH_ARP: i32 = 0x806;

pub const ETH_IPV6: i32 = 0x86DD;

/// The address this stack answers on.
pub const IP_ADDR: ProtocolAddr = [10, 0, 0, 2];

/// Largest frame the device exchanges.
pub const MTU: u32 = 1600;

/// The link-layer broadcast address.
pub const BROADCAST_ADDR: HwAddr = [0xff, 0xff, 0xff, 0xff, 0xff, 0xff];

/// The protocol carried by a frame, from its ether-type field.
#[derive(Debug, PartialEq, Eq, Structural, Clone, Copy)]
pub enum EtherType {
    IPv4,
    ARP,
    IPv6,
    Unsupported,
}

/// The protocol named by an ether-type value.
pub open spec fn ether_type_of(v: u16) -> EtherType {
    if v as i32 == ETH_IPV4 {
        EtherType::IPv4
    } else if v as i32 == ETH_ARP {
        EtherType::ARP
    } else if v as i32 == ETH_IPV6 {
        EtherType::IPv6
    } else {
        EtherType::Unsupported
    }
}

impl EtherType {
    pub fn from_bytes(input: u16) -> (r: Self)
        ensures
            r == ether_type_of(input),
    {
        let input = input as i32;
        if input == ETH_IPV4 {
            Self::IPv4
        } else if input == ETH_ARP {
            Self::ARP
        } else if input == ETH_IPV6 {
            Self::IPv6
        } else {
            Self::Unsupported
        }
    }

    /// The ether-type value of a known protocol.
    pub fn value(&self) -> (r: u16)
        requires
            *self != EtherType::Unsupported,
        ensures
            ether_type_of(r) == *self,
    {
        match self {
            Self::IPv4 => ETH_IPV4 as u16,
            Self::IPv6 => ETH_IPV6 as u16,
            Self::ARP => ETH_ARP as u16,
            Self::Unsupported => 0,
        }
    }
}

/// The bytes of a frame: destination, source, ether-type, payload.
pub open spec fn frame_bytes(dst: Seq<u8>, src: Seq<u8>, ether_type: u16, payload: Seq<u8>) -> Seq<u8> {
    dst + src + be16_bytes(ether_type) + payload
}

/// The fields of a frame read from its bytes: destination, source, ether-type, payload.
pub open spec fn decode_frame(b: Seq<u8>) -> (Seq<u8>, Seq<u8>, nat, Seq<u8>) {
    (b.subrange(0, 6), b.subrange(6, 12), be16(b[12], b[13]), b.subrange(14, b.len() as int))
}

/// An Ethernet II frame of at least 14 bytes.
#[derive(Debug, Clone)]
pub struct EthernetFrame {
    data: Vec<u8>,
}

impl View for EthernetFrame {
    type V = Seq<u8>;

    closed spec fn view(&self) -> Seq<u8> {
        self.data@
    }
}

impl EthernetFrame {
    pub open spec fn wf(&self) -> bool {
        self@.len() >= 14
    }

    /// Takes `data` as a frame; none when it is shorter than a frame header.
    pub fn from_bytes(data: Vec<u8>) -> (r: Option<EthernetFrame>)
        ensures
            r is Some <==> data@.len() >= 14,
            r matches Some(f) ==> f@ == data@ && f.wf(),
    {
        if data.len() >= 14 {
            Some(EthernetFrame { data })
        } else {
            None
        }
    }

    /// Builds the frame `dst | src | ether_type | payload`.
    pub fn new(dst: HwAddr, src: HwAddr, ether_type: u16, payload: &[u8]) -> (r: EthernetFrame)
        ensures
            r@ == frame_bytes(dst@, src@, ether_type, payload@),
            r.wf(),
    {
        let mut data: Vec<u8> = Vec::new();
        push_all(&mut data, dst.as_slice());
        push_all(&mut data, src.as_slice());
        push_be16(&mut data, ether_type);
        push_all(&mut data, payload);
        EthernetFrame { data }
    }

    /// A frame that answers this one: addressed to this frame's source, with
    /// the header otherwise kept and `payload` as its payload.
    pub fn build_response_frame<T: LinkLayerWritable>(&self, payload: &T) -> (r: Self)
        requires
            self.wf(),
            payload.writable(),
        ensures
            r@ == self@.subrange(6, 12) + self@.subrange(6, 14) + payload.wire_data(),
            r.wf(),
    {
        let mut response: Vec<u8> = Vec::new();
        // The response goes to the request's source.
        push_all(&mut response, vstd::slice::slice_subrange(self.data.as_slice(), 6, 12));
        push_all(&mut response, vstd::slice::slice_subrange(self.data.as_slice(), 6, 14));
        let data = payload.data();
        push_all(&mut response, data.as_slice());
        Self { data: response }
    }

    pub fn dst(&self) -> (r: HwAddr)
        requires
            self.wf(),
        ensures
            r@ == self@.subrange(0, 6),
    {
        let d = &self.data;
        let r = [d[0], d[1], d[2], d[3], d[4], d[5]];
        assert(r@ =~= self@.subrange(0, 6));
        r
    }

    pub fn src(&self) -> (r: HwAddr)
        requires
            self.wf(),
        ensures
            r@ == self@.subrange(6, 12),
    {
        let d = &self.data;
        let r = [d[6], d[7], d[8], d[9], d[10], d[11]];
        assert(r@ =~= self@.subrange(6, 12));
        r
    }

    pub fn ether_type(&self) -> (r: u16)
        requires
            self.wf(),
        ensures
            r as nat == be16(self@[12], self@[13]),
    {
        ntohs(vstd::slice::slice_subrange(self.data.as_slice(), 12, 14))
    }

    pub fn payload(&self) -> (r: &[u8])
        requires
            self.wf(),
        ensures
            r@ == self@.subrange(14, self@.len() as int),
    {
        vstd::slice::slice_subrange(self.data.as_slice(), 14, self.data.len())
    }

    /// All bytes of the frame, as written to the device.
    pub fn bytes(&self) -> (r: &[u8])
        ensures
            r@ == self@,
    {
        self.data.as_slice()
    }
}

/// Decoding a frame, encoding its fields and decoding again gives the same fields.
pub proof fn lemma_frame_round_trip(b: Seq<u8>)
    requires
        14 <= b.len() <= 1600,
    ensures
        ({
            let (dst, src, ether_type, payload) = decode_frame(b);
            decode_frame(frame_bytes(dst, src, ether_type as u16, payload)) == decode_frame(b)
        }),
{
    let (dst, src, ether_type, payload) = decode_frame(b);
    let e = frame_bytes(dst, src, ether_type as u16, payload);
    assert(e =~= b);
}

/// A message waiting for the link layer: an IP packet or an ARP message.
pub enum LinkPayload {
    Ip(IPv4),
    Arp(ARP),
}

/// The message can be written: an IP packet whose header fields fit and
/// whose protocol is known, or a well-formed ARP message.
pub open spec fn link_writable(p: LinkPayload) -> bool {
    match p {
        LinkPayload::Ip(ip) => ip.header.fields_fit() && ip.header.proto != Protocol::Unsupported,
        LinkPayload::Arp(a) => a.wf(),
    }
}

/// The protocol address the message is sent from.
pub open spec fn link_spa(p: LinkPayload) -> Seq<u8> {
    match p {
        LinkPayload::Ip(ip) => ip.header.src@,
        LinkPayload::Arp(a) => a@.subrange(14, 18),
    }
}

/// The protocol address the message is for.
pub open spec fn link_tpa(p: LinkPayload) -> Seq<u8> {
    match p {
        LinkPayload::Ip(ip) => ip.header.dst@,
        LinkPayload::Arp(a) => a@.subrange(24, 28),
    }
}

pub open spec fn link_ether_type(p: LinkPayload) -> u16 {
    match p {
        LinkPayload::Ip(_) => ETH_IPV4 as u16,
        LinkPayload::Arp(_) => ETH_ARP as u16,
    }
}

/// The bytes of the message as they follow a frame header.
pub open spec fn link_data(p: LinkPayload) -> Seq<u8> {
    match p {
        LinkPayload::Ip(ip) => packet_bytes(ip.header, ip.data@),
        LinkPayload::Arp(a) => a@,
    }
}

/// A message that the link layer can put in a frame.
pub trait LinkLayerWritable {
    spec fn writable(&self) -> bool;

    /// The bytes of the message as they follow a frame header.
    spec fn wire_data(&self) -> Seq<u8>;

    fn spa(&self) -> (r: ProtocolAddr)
        requires
            self.writable(),
    ;

    fn tpa(&self) -> (r: ProtocolAddr)
        requires
            self.writable(),
    ;

    fn ether_type(&self) -> (r: [u8; 2]);

    fn data(&self) -> (r: Vec<u8>)
        requires
            self.writable(),
        ensures
            r@ == self.wire_data(),
    ;
}

impl LinkLayerWritable for LinkPayload {
    open spec fn writable(&self) -> bool {
        link_writable(*self)
    }

    open spec fn wire_data(&self) -> Seq<u8> {
        link_data(*self)
    }

    fn spa(&self) -> (r: ProtocolAddr)
        ensures
            r@ == link_spa(*self),
    {
        match self {
            LinkPayload::Ip(ip) => ip.header.src,
            LinkPayload::Arp(a) => {
                let s = a.spa();
                let r = [s[0], s[1], s[2], s[3]];
                assert(r@ =~= link_spa(*self));
                r
            },
        }
    }

    fn tpa(&self) -> (r: ProtocolAddr)
        ensures
            r@ == link_tpa(*self),
    {
        match self {
            LinkPayload::Ip(ip) => ip.header.dst,
            LinkPayload::Arp(a) => {
                let s = a.tpa();
                let r = [s[0], s[1], s[2], s[3]];
                assert(r@ =~= link_tpa(*self));
                r
            },
        }
    }

    fn ether_type(&self) -> (r: [u8; 2])
        ensures
            r@ == be16_bytes(link_ether_type(*self)),
    {
        let r = match self {
            LinkPayload::Ip(_) => [8u8, 0u8],
            LinkPayload::Arp(_) => [8u8, 6u8],
        };
        assert(r@ =~= be16_bytes(link_ether_type(*self)));
        r
    }

    fn data(&self) -> (r: Vec<u8>)
        ensures
            r@ == link_data(*self),
    {
        match self {
            LinkPayload::Ip(ip) => ip.packet_to_bytes(),
            LinkPayload::Arp(a) => a.data(),
        }
    }
}

/// The key under which the ARP cache keeps a protocol address.
pub open spec fn ip_key(pa: Seq<u8>) -> u32 {
    be32(pa[0], pa[1], pa[2], pa[3]) as u32
}

fn ip_key_of(pa: &ProtocolAddr) -> (r: u32)
    ensures
        r == ip_key(pa@),
{
    (pa[0] as u32) * 16777216 + (pa[1] as u32) * 65536 + (pa[2] as u32) * 256 + pa[3] as u32
}

/// Relies on rand::random: a value drawn from the thread-local generator; nothing is
/// known of which one.
#[verifier::external_body]
fn random_hw_addr() -> (r: HwAddr) {
    rand::random::<HwAddr>()
}

/// The state of the stack: the device it is bound to, its hardware address,
/// the ARP cache, the queue of messages for the link layer, the queue of
/// transport payloads for the IP layer, and the UDP sockets.
pub struct Ethernet {
    pub socket: i32,
    pub address: HwAddr,
    pub arp_cache: HashMap<u32, HwAddr>,
    pub l3_resp_queue: VecDeque<LinkPayload>,
    pub ip_stack: IPstackWriter,
    pub sockets: SocketTable,
}

/// What an ARP message `b` does to the stack: a reply teaches the cache its
/// sender; a request for this host's address teaches the cache its sender and
/// gets its reply queued for the link layer; anything else is dropped.
pub open spec fn arp_ingress(old: Ethernet, new: Ethernet, b: Seq<u8>) -> bool {
    let k = ip_key(b.subrange(14, 18));
    &&& new.socket == old.socket
    &&& new.address == old.address
    &&& new.ip_stack == old.ip_stack
    &&& new.sockets == old.sockets
    &&& if arp_well_formed(b) && kind_of(b) == Some(ARPKind::Reply) {
        &&& new.arp_cache@ == old.arp_cache@.insert(k, new.arp_cache@[k])
        &&& new.arp_cache@[k]@ == b.subrange(8, 14)
        &&& new.l3_resp_queue@ == old.l3_resp_queue@
    } else if arp_well_formed(b) && kind_of(b) == Some(ARPKind::Req) && b.subrange(24, 28) == IP_ADDR@ {
        &&& new.arp_cache@ == old.arp_cache@.insert(k, new.arp_cache@[k])
        &&& new.arp_cache@[k]@ == b.subrange(8, 14)
        &&& new.l3_resp_queue@.len() == old.l3_resp_queue@.len() + 1
        &&& new.l3_resp_queue@.drop_last() == old.l3_resp_queue@
        &&& new.l3_resp_queue@.last() matches LinkPayload::Arp(a) && a@ == reply_bytes(b, old.address)
    } else {
        &&& new.arp_cache@ == old.arp_cache@
        &&& new.l3_resp_queue@ == old.l3_resp_queue@
    }
}

/// What an IP packet `ip` does to the stack: ICMP goes to the echo responder,
/// UDP to the sockets, anything else is dropped.
pub open spec fn ip_ingress(old: Ethernet, new: Ethernet, ip: Seq<u8>) -> bool {
    &&& new.socket == old.socket
    &&& new.address == old.address
    &&& new.arp_cache@ == old.arp_cache@
    &&& new.l3_resp_queue@ == old.l3_resp_queue@
    &&& if ip.len() >= 20 && protocol_of(ip[9]) == Protocol::ICMP {
        icmp_ingress(old.ip_stack@, new.ip_stack@, ip) && new.sockets@ == old.sockets@
    } else if ip.len() >= 20 && protocol_of(ip[9]) == Protocol::UDP {
        udp_ingress(old.sockets@, new.sockets@, ip) && new.ip_stack@ == old.ip_stack@
    } else {
        new.ip_stack@ == old.ip_stack@ && new.sockets@ == old.sockets@
    }
}

/// What a frame `f` that arrives does to the stack, by its ether-type.
pub open spec fn frame_ingress(old: Ethernet, new: Ethernet, f: Seq<u8>) -> bool {
    let payload = f.subrange(14, f.len() as int);
    let t = ether_type_of(be16(f[12], f[13]) as u16);
    if t == EtherType::ARP {
        arp_ingress(old, new, payload)
    } else if t == EtherType::IPv4 {
        ip_ingress(old, new, payload)
    } else {
        new == old
    }
}

/// The broadcast frame that asks for the hardware address of `target`.
pub open spec fn arp_request_frame(address: HwAddr, target: Seq<u8>) -> Seq<u8> {
    frame_bytes(BROADCAST_ADDR@, address@, ETH_ARP as u16, request_bytes(
        [target[0], target[1], target[2], target[3]],
        address@,
    ))
}

/// What writing message `p` does: when its target resolves, the frame for it
/// goes to the device, or, addressed to this host, comes straight back in;
/// when it does not, an ARP request goes to the device and `p` waits at the
/// tail of the link queue.
pub open spec fn link_write(old: Ethernet, new: Ethernet, p: LinkPayload, r: Option<EthernetFrame>) -> bool {
    let t = link_tpa(p);
    if old.resolves(t) {
        let f = frame_bytes(old.resolved_hw(t), old.address@, link_ether_type(p), link_data(p));
        if old.resolved_hw(t) == old.address@ {
            r is None && frame_ingress(old, new, f)
        } else {
            (r matches Some(fr) && fr@ == f && new == old)
        }
    } else {
        &&& r matches Some(fr) && fr@ == arp_request_frame(old.address, t)
        &&& new.l3_resp_queue@ == old.l3_resp_queue@.push(p)
        &&& new.socket == old.socket
        &&& new.address == old.address
        &&& new.arp_cache@ == old.arp_cache@
        &&& new.ip_stack == old.ip_stack
        &&& new.sockets == old.sockets
    }
}

impl Ethernet {
    pub open spec fn wf(&self) -> bool {
        &&& self.sockets.wf()
        &&& forall|i: int|
            0 <= i < self.l3_resp_queue@.len() ==> link_writable(#[trigger] self.l3_resp_queue@[i])
    }

    /// The hardware address of protocol address `pa` is known.
    pub open spec fn resolves(&self, pa: Seq<u8>) -> bool {
        pa == IP_ADDR@ || self.arp_cache@.contains_key(ip_key(pa))
    }

    /// The hardware address of protocol address `pa`: this host's own for its
    /// own address, else what the cache holds.
    pub open spec fn resolved_hw(&self, pa: Seq<u8>) -> Seq<u8> {
        if pa == IP_ADDR@ {
            self.address@
        } else {
            self.arp_cache@[ip_key(pa)]@
        }
    }

    /// A stack on device `fd` with hardware address `address`, its cache,
    /// queues and socket table empty.
    pub fn with_address(fd: i32, address: HwAddr) -> (r: Ethernet)
        ensures
            r.socket == fd,
            r.address == address,
            r.arp_cache@ == Map::<u32, HwAddr>::empty(),
            r.l3_resp_queue@ == Seq::<LinkPayload>::empty(),
            r.ip_stack@ == Seq::<Layer4Response>::empty(),
            r.sockets@ == Map::<u64, crate::udp_socket::SocketModel>::empty(),
            r.wf(),
    {
        Ethernet {
            socket: fd,
            address: address,
            arp_cache: HashMap::new(),
            l3_resp_queue: VecDeque::new(),
            ip_stack: IPstackWriter::new(),
            sockets: SocketTable::new(),
        }
    }

    /// A stack on device `fd` with a randomly drawn hardware address.
    pub fn bind(fd: i32) -> (r: Ethernet)
        ensures
            r.socket == fd,
            r.arp_cache@ == Map::<u32, HwAddr>::empty(),
            r.l3_resp_queue@ == Seq::<LinkPayload>::empty(),
            r.ip_stack@ == Seq::<Layer4Response>::empty(),
            r.sockets@ == Map::<u64, crate::udp_socket::SocketModel>::empty(),
            r.wf(),
    {
        Ethernet::with_address(fd, random_hw_addr())
    }

    pub fn address(&self) -> (r: HwAddr)
        ensures
            r == self.address,
    {
        self.address
    }

    pub fn hw_address(&self) -> (r: HwAddr)
        ensures
            r == self.address,
    {
        self.address
    }

    /// Records that `protocol_addr` is at `hw_addr`.
    pub fn update_arp_cache(&mut self, protocol_addr: ProtocolAddr, hw_addr: HwAddr)
        requires
            old(self).wf(),
        ensures
            final(self).wf(),
            final(self).arp_cache@ == old(self).arp_cache@.insert(ip_key(protocol_addr@), hw_addr),
            final(self).socket == old(self).socket,
            final(self).address == old(self).address,
            final(self).l3_resp_queue == old(self).l3_resp_queue,
            final(self).ip_stack == old(self).ip_stack,
            final(self).sockets == old(self).sockets,
    {
        let key = ip_key_of(&protocol_addr);
        self.arp_cache.insert(key, hw_addr);
    }

    pub fn arp_cache_exists(&self, protocol_addr: &ProtocolAddr) -> (r: bool)
        ensures
            r == self.resolves(protocol_addr@),
    {
        if bytes_equal(protocol_addr.as_slice(), IP_ADDR.as_slice()) {
            true
        } else {
            let key = ip_key_of(protocol_addr);
            self.arp_cache.contains_key(&key)
        }
    }

    pub fn get_hw_addr_from_cache(&self, protocol_addr: &ProtocolAddr) -> (r: HwAddr)
        requires
            self.resolves(protocol_addr@),
        ensures
            r@ == self.resolved_hw(protocol_addr@),
    {
        if bytes_equal(protocol_addr.as_slice(), IP_ADDR.as_slice()) {
            self.hw_address()
        } else {
            let key = ip_key_of(protocol_addr);
            match self.arp_cache.get(&key) {
                Some(hw) => *hw,
                None => self.hw_address(),
            }
        }
    }

    /// Queues a message for the link layer, behind those already waiting.
    pub fn eth_layer_write(&mut self, payload: LinkPayload)
        requires
            old(self).wf(),
            link_writable(payload),
        ensures
            final(self).wf(),
            final(self).l3_resp_queue@ == old(self).l3_resp_queue@.push(payload),
            final(self).socket == old(self).socket,
            final(self).address == old(self).address,
            final(self).arp_cache == old(self).arp_cache,
            final(self).ip_stack == old(self).ip_stack,
            final(self).sockets == old(self).sockets,
    {
        self.l3_resp_queue.push_back(payload);
        assert forall|i: int| 0 <= i < self.l3_resp_queue@.len() implies link_writable(
            #[trigger] self.l3_resp_queue@[i],
        ) by {
            if i < old(self).l3_resp_queue@.len() {
                assert(self.l3_resp_queue@[i] == old(self).l3_resp_queue@[i]);
            }
        }
    }

    /// Takes the oldest message waiting for the link layer.
    pub fn next_link_payload(&mut self) -> (r: Option<LinkPayload>)
        requires
            old(self).wf(),
        ensures
            final(self).wf(),
            old(self).l3_resp_queue@.len() == 0 ==> r is None && *final(self) == *old(self),
            old(self).l3_resp_queue@.len() > 0 ==> {
                &&& r == Some(old(self).l3_resp_queue@[0])
                &&& final(self).l3_resp_queue@ == old(self).l3_resp_queue@.drop_first()
                &&& link_writable(old(self).l3_resp_queue@[0])
                &&& final(self).socket == old(self).socket
                &&& final(self).address == old(self).address
                &&& final(self).arp_cache == old(self).arp_cache
                &&& final(self).ip_stack == old(self).ip_stack
                &&& final(self).sockets == old(self).sockets
            },
    {
        if self.l3_resp_queue.len() == 0 {
            return None;
        }
        let r = self.l3_resp_queue.pop_front();
        assert(self.l3_resp_queue@ =~= old(self).l3_resp_queue@.drop_first());
        assert forall|i: int| 0 <= i < self.l3_resp_queue@.len() implies link_writable(
            #[trigger] self.l3_resp_queue@[i],
        ) by {
            assert(self.l3_resp_queue@[i] == old(self).l3_resp_queue@[i + 1]);
        }
        assert(link_writable(old(self).l3_resp_queue@[0]));
        r
    }

    /// Whether a message waits for the link layer.
    pub fn has_link_payload(&self) -> (r: bool)
        ensures
            r == (self.l3_resp_queue@.len() > 0),
    {
        self.l3_resp_queue.len() > 0
    }

    /// Builds the IP packet for a transport payload and queues it for the
    /// link layer. A payload over the MTU, or of an unknown protocol, is dropped.
    pub fn write_ip_response(&mut self, packet_to_write: Layer4Response)
        requires
            old(self).wf(),
        ensures
            final(self).wf(),
            final(self).socket == old(self).socket,
            final(self).address == old(self).address,
            final(self).arp_cache == old(self).arp_cache,
            final(self).ip_stack == old(self).ip_stack,
            final(self).sockets == old(self).sockets,
            ({
                let l = packet_to_write;
                if l.data@.len() <= MTU && protocol_of(l.protocol) != Protocol::Unsupported {
                    &&& final(self).l3_resp_queue@.len() == old(self).l3_resp_queue@.len() + 1
                    &&& final(self).l3_resp_queue@.drop_last() == old(self).l3_resp_queue@
                    &&& final(self).l3_resp_queue@.last() matches LinkPayload::Ip(p) && p.header
                        == response_header(l.src_ip_header, l.data@.len(), l.protocol) && p.data@
                        == l.data@
                } else {
                    final(self).l3_resp_queue@ == old(self).l3_resp_queue@
                }
            }),
    {
        let src_ip_header = packet_to_write.src_ip_header;
        let protocol = packet_to_write.protocol;
        if crate::ipv4::set_proto(protocol) == Protocol::Unsupported {
            return ;
        }
        match IPv4::build_ipv4_response(src_ip_header, packet_to_write.data, protocol) {
            Some(ip_resp_packet) => {
                self.eth_layer_write(LinkPayload::Ip(ip_resp_packet));
                assert(self.l3_resp_queue@.drop_last() =~= old(self).l3_resp_queue@);
            },
            // Fragmentation is not done: the payload is dropped.
            None => {},
        }
    }

    /// The frame that carries message `layer_3_resp` from this host to `dst_hw_addr`.
    pub fn make_response_frame(&self, layer_3_resp: &LinkPayload, dst_hw_addr: HwAddr) -> (r: EthernetFrame)
        requires
            link_writable(*layer_3_resp),
        ensures
            r@ == frame_bytes(dst_hw_addr@, self.address@, link_ether_type(*layer_3_resp), link_data(*layer_3_resp)),
            r.wf(),
    {
        let ether_type = layer_3_resp.ether_type();
        let data = layer_3_resp.data();
        EthernetFrame::new(dst_hw_addr, self.address, ntohs(ether_type.as_slice()), data.as_slice())
    }

    /// The broadcast ARP request for the hardware address of `target_protocol_addr`.
    pub fn make_arp_req_for_addr(&self, target_protocol_addr: ProtocolAddr) -> (r: EthernetFrame)
        ensures
            r@ == arp_request_frame(self.address, target_protocol_addr@),
            r.wf(),
    {
        let arp_req = ARP::make_req_for_addr(target_protocol_addr, self.address.as_slice());
        let data = arp_req.data();
        assert([target_protocol_addr@[0], target_protocol_addr@[1], target_protocol_addr@[2], target_protocol_addr@[3]] =~= target_protocol_addr);
        EthernetFrame::new(BROADCAST_ADDR, self.address, ETH_ARP as u16, data.as_slice())
    }

    /// Sends a frame: one addressed to this host comes straight back in;
    /// any other is handed back to be written to the device.
    pub fn write_frame(&mut self, eth_frame: EthernetFrame) -> (r: Option<EthernetFrame>)
        requires
            old(self).wf(),
            eth_frame.wf(),
        ensures
            final(self).wf(),
            eth_frame@.subrange(0, 6) == old(self).address@ ==> r is None && frame_ingress(
                *old(self),
                *final(self),
                eth_frame@,
            ),
            eth_frame@.subrange(0, 6) != old(self).address@ ==> (r matches Some(f) && f@ == eth_frame@
                && *final(self) == *old(self)),
    {
        let dst = eth_frame.dst();
        if bytes_equal(dst.as_slice(), self.address.as_slice()) {
            self.process_frame(&eth_frame);
            None
        } else {
            Some(eth_frame)
        }
    }

    /// Writes a message: resolved, its frame goes out (or loops back); not
    /// resolved, an ARP request goes out and the message is queued again.
    pub fn write_response(&mut self, layer_3_resp: LinkPayload) -> (r: Option<EthernetFrame>)
        requires
            old(self).wf(),
            link_writable(layer_3_resp),
        ensures
            final(self).wf(),
            link_write(*old(self), *final(self), layer_3_resp, r),
    {
        let target_protocol_addr = layer_3_resp.tpa();
        if self.arp_cache_exists(&target_protocol_addr) {
            let dst_hw_addr = self.get_hw_addr_from_cache(&target_protocol_addr);
            let resp_eth_frame = self.make_response_frame(&layer_3_resp, dst_hw_addr);
            proof {
                assert(resp_eth_frame@.subrange(0, 6) =~= dst_hw_addr@);
            }
            self.write_frame(resp_eth_frame)
        } else {
            // Ask for the target's address, then queue the message again.
            let req = self.make_arp_req_for_addr(target_protocol_addr);
            self.eth_layer_write(layer_3_resp);
            Some(req)
        }
    }

    /// Dispatches a received frame by its ether-type.
    pub fn process_frame(&mut self, frame: &EthernetFrame)
        requires
            old(self).wf(),
            frame.wf(),
        ensures
            final(self).wf(),
            frame_ingress(*old(self), *final(self), frame@),
    {
        let eth_type = frame.ether_type();
        match EtherType::from_bytes(eth_type) {
            EtherType::ARP => {
                ARP::process_packet(self, frame);
            },
            EtherType::IPv4 => {
                IPv4::process_packet(self, frame);
            },
            _ => {},
        }
    }
}

} // verus!
