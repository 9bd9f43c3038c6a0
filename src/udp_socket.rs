use vstd::prelude::*;
use std::collections::HashMap;
use std::collections::VecDeque;
use crate::ethernet::{Ethernet, ProtocolAddr, MTU};
use crate::ipv4::{response_header, IpHeader, Layer4Response};
use crate::net_util::{addr_identifier, be32, identifier_text};
use crate::udp::{datagram_bytes, UdpHeader, UDP, UDP_HEADER_LEN, UDP_PROTO};

verus! {

broadcast use vstd::std_specs::hash::group_hash_axioms;

/// Most datagrams a socket holds before it drops new ones.
pub const MAX_BUFF_SIZE: u16 = 10000;

/// Why a socket operation did not happen.
#[derive(Debug, Clone, Copy, PartialEq, Eq, Structural)]
pub enum SocketError {
    /// The address is not an IPv4 address.
    InvalidInput,
    /// A socket is already bound to the address.
    AddrInUse,
    /// The socket has no connected peer.
    NotConnected,
    /// No socket is bound to the identifier any more.
    StaleSocket,
    /// Nothing has arrived yet; the caller waits and asks again.
    WouldBlock,
    /// The datagram would not fit the MTU, and this stack does not fragment.
    MessageTooLong,
}

/// A socket address as a caller gives it.
#[derive(Debug, Clone, Copy)]
pub enum SocketAddress {
    V4 { ip: ProtocolAddr, port: u16 },
    V6 { segments: [u16; 8], port: u16 },
}

/// What a received datagram leaves in a socket's buffer: its UDP header, its
/// payload, and the IP header it came with.
pub type Received = (UdpHeader, Seq<u8>, IpHeader);

/// A datagram waiting in a socket's buffer, with the IP header it came with.
#[derive(Clone, Debug)]
pub struct PayloadBuff {
    pub udp_packet: UDP,
    pub src_ip_header: IpHeader,
}

impl View for PayloadBuff {
    type V = Received;

    open spec fn view(&self) -> Received {
        (self.udp_packet.header, self.udp_packet.payload@, self.src_ip_header)
    }
}

/// The name of a bound socket: its identifier text, address and port.
#[derive(Clone, Debug)]
pub struct UdpSocketIdentifier {
    pub socket_identifier: String,
    pub bind_ip: ProtocolAddr,
    pub port: u16,
}

/// Where a received datagram came from, so that a reply can be sent back.
#[derive(Clone, Copy, Debug)]
pub struct SocketOutPut {
    pub src_ip_header: IpHeader,
    pub src_udp_header: UdpHeader,
}

/// What a socket is: its address, its identifier, the datagrams waiting in
/// it (oldest first), how many it may hold, and its connected peer.
pub struct SocketModel {
    pub ip: ProtocolAddr,
    pub port: u16,
    pub identifier: Seq<char>,
    pub buffer: Seq<Received>,
    pub max_buff_size: nat,
    pub peer: Option<(ProtocolAddr, u16)>,
}

impl SocketModel {
    /// The socket after a datagram arrives: kept when there is room, else dropped.
    pub open spec fn receive(self, e: Received) -> SocketModel {
        if self.buffer.len() < self.max_buff_size {
            SocketModel { buffer: self.buffer.push(e), ..self }
        } else {
            self
        }
    }
}

/// A socket as `bind` creates it.
pub open spec fn fresh_socket(ip: ProtocolAddr, port: u16) -> SocketModel {
    SocketModel {
        ip,
        port,
        identifier: identifier_text(ip, port),
        buffer: Seq::empty(),
        max_buff_size: MAX_BUFF_SIZE as nat,
        peer: None,
    }
}

/// The key under which the socket bound to `ip:port` is kept.
pub open spec fn socket_key(ip: ProtocolAddr, port: u16) -> u64 {
    (be32(ip[0], ip[1], ip[2], ip[3]) * 65536 + port) as u64
}

/// The IPv4 address and port of `addr`, or none for an IPv6 address.
pub open spec fn v4_parts(addr: SocketAddress) -> Option<(ProtocolAddr, u16)> {
    match addr {
        SocketAddress::V4 { ip, port } => Some((ip, port)),
        SocketAddress::V6 { .. } => None,
    }
}

/// What binding `addr` returns on socket table `t`.
pub open spec fn bind_result(t: Map<u64, SocketModel>, addr: SocketAddress) -> Result<(), SocketError> {
    match v4_parts(addr) {
        None => Err(SocketError::InvalidInput),
        Some((ip, port)) => if t.contains_key(socket_key(ip, port)) {
            Err(SocketError::AddrInUse)
        } else {
            Ok(())
        },
    }
}

/// The socket table after binding `addr` on `t`.
pub open spec fn table_after_bind(t: Map<u64, SocketModel>, addr: SocketAddress) -> Map<u64, SocketModel> {
    match v4_parts(addr) {
        Some((ip, port)) => if t.contains_key(socket_key(ip, port)) {
            t
        } else {
            t.insert(socket_key(ip, port), fresh_socket(ip, port))
        },
        None => t,
    }
}

/// The stacks agree on all but their sockets and their IP queue.
pub open spec fn same_link_state(a: Ethernet, b: Ethernet) -> bool {
    &&& a.socket == b.socket
    &&& a.address == b.address
    &&& a.arp_cache == b.arp_cache
    &&& a.l3_resp_queue == b.l3_resp_queue
}

/// Relies on Vec::capacity: never less than the vector's length.
#[verifier::external_body]
fn vec_capacity(v: &Vec<u8>) -> (r: usize)
    ensures
        r >= v@.len(),
{
    v.capacity()
}

pub fn key_of(ip: ProtocolAddr, port: u16) -> (r: u64)
    ensures
        r == socket_key(ip, port),
{
    let ip32 = (ip[0] as u64) * 16777216 + (ip[1] as u64) * 65536 + (ip[2] as u64) * 256
        + ip[3] as u64;
    ip32 * 65536 + port as u64
}

/// A bound UDP socket.
pub struct UdpSocket {
    bind_ip: ProtocolAddr,
    port: u16,
    addr_identifier: String,
    buffer: VecDeque<PayloadBuff>,
    max_buff_size: u16,
    connected_sock: Option<UdpSocketIdentifier>,
}

impl View for UdpSocket {
    type V = SocketModel;

    closed spec fn view(&self) -> SocketModel {
        SocketModel {
            ip: self.bind_ip,
            port: self.port,
            identifier: self.addr_identifier@,
            buffer: self.buffer@.map_values(|b: PayloadBuff| b@),
            max_buff_size: self.max_buff_size as nat,
            peer: match self.connected_sock {
                Some(c) => Some((c.bind_ip, c.port)),
                None => None,
            },
        }
    }
}

impl UdpSocket {
    /// Binds a new socket to `addr` and returns its name. An IPv6 address is
    /// refused, as is an address a socket is already bound to.
    pub fn bind(stack: &mut Ethernet, addr: SocketAddress) -> (r: Result<UdpSocketIdentifier, SocketError>)
        requires
            old(stack).wf(),
        ensures
            final(stack).wf(),
            same_link_state(*final(stack), *old(stack)),
            final(stack).ip_stack == old(stack).ip_stack,
            final(stack).sockets@ == table_after_bind(old(stack).sockets@, addr),
            match r {
                Ok(id) => {
                    &&& bind_result(old(stack).sockets@, addr) == Ok::<(), SocketError>(())
                    &&& v4_parts(addr) == Some((id.bind_ip, id.port))
                    &&& id.socket_identifier@ == identifier_text(id.bind_ip, id.port)
                },
                Err(e) => bind_result(old(stack).sockets@, addr) == Err::<(), SocketError>(e),
            },
    {
        let (ip_addr, port) = match Self::sock_addr_parse(&addr) {
            Ok(parts) => parts,
            Err(e) => return Err(e),
        };
        let identifier = addr_identifier(ip_addr, port);
        let copy = identifier.clone();
        match stack.sockets.add_to_created_sockets(ip_addr, port, copy) {
            Ok(()) => Ok(UdpSocketIdentifier::new(identifier, ip_addr, port)),
            Err(e) => Err(e),
        }
    }

    /// The IPv4 address and port of `sock_addr`; an IPv6 address is refused.
    fn sock_addr_parse(sock_addr: &SocketAddress) -> (r: Result<(ProtocolAddr, u16), SocketError>)
        ensures
            match v4_parts(*sock_addr) {
                Some(parts) => r == Ok::<(ProtocolAddr, u16), SocketError>(parts),
                None => r == Err::<(ProtocolAddr, u16), SocketError>(SocketError::InvalidInput),
            },
    {
        match sock_addr {
            SocketAddress::V4 { ip, port } => Ok((*ip, *port)),
            SocketAddress::V6 { .. } => Err(SocketError::InvalidInput),
        }
    }

    fn sock_addr(&self) -> (r: ProtocolAddr)
        ensures
            r == self@.ip,
    {
        self.bind_ip
    }

    fn sock_port(&self) -> (r: u16)
        ensures
            r == self@.port,
    {
        self.port
    }

    /// The address and port of the connected peer, if any.
    fn peer(&self) -> (r: Option<(ProtocolAddr, u16)>)
        ensures
            r == self@.peer,
    {
        match &self.connected_sock {
            Some(c) => Some((c.ip(), c.port())),
            None => None,
        }
    }

    /// Keeps a received datagram when the buffer has room; drops it otherwise.
    pub fn write_to_sockbuff(&mut self, udp_packet: UDP, src_ip_header: IpHeader)
        ensures
            final(self)@ == old(self)@.receive((udp_packet.header, udp_packet.payload@, src_ip_header)),
    {
        if self.buffer.len() < self.max_buff_size as usize {
            let ghost e = (udp_packet.header, udp_packet.payload@, src_ip_header);
            self.buffer.push_back(PayloadBuff { src_ip_header: src_ip_header, udp_packet: udp_packet });
            assert(self@.buffer =~= old(self)@.buffer.push(e));
        }
    }
}

impl UdpSocketIdentifier {
    pub fn new(identifier: String, bind_ip: ProtocolAddr, port: u16) -> (r: Self)
        ensures
            r.socket_identifier == identifier,
            r.bind_ip == bind_ip,
            r.port == port,
    {
        Self { socket_identifier: identifier, bind_ip: bind_ip, port: port }
    }

    pub fn identifier(&self) -> (r: &String)
        ensures
            r == &self.socket_identifier,
    {
        &self.socket_identifier
    }

    pub fn ip(&self) -> (r: ProtocolAddr)
        ensures
            r == self.bind_ip,
    {
        self.bind_ip
    }

    pub fn port(&self) -> (r: u16)
        ensures
            r == self.port,
    {
        self.port
    }

    /// Takes the oldest datagram waiting in this socket: its payload is
    /// appended to `buf` up to `buf`'s capacity, and its full length and origin
    /// are returned. With nothing waiting the result is `WouldBlock`; the
    /// caller waits for the socket and asks again.
    pub fn recv_from(&self, stack: &mut Ethernet, buf: &mut Vec<u8>) -> (r: Result<(usize, SocketOutPut), SocketError>)
        requires
            old(stack).wf(),
        ensures
            final(stack).wf(),
            same_link_state(*final(stack), *old(stack)),
            final(stack).ip_stack == old(stack).ip_stack,
            exists|cap: usize|
                cap >= old(buf)@.len() && #[trigger] received(
                    *old(stack),
                    *final(stack),
                    socket_key(self.bind_ip, self.port),
                    old(buf)@,
                    final(buf)@,
                    cap,
                    r,
                ),
    {
        let capacity = vec_capacity(buf);
        self.recv_from_up_to(stack, buf, capacity)
    }

    /// Takes the oldest datagram waiting in this socket, as `recv_from` does,
    /// with `capacity` as the most bytes `buf` may hold.
    pub fn recv_from_up_to(
        &self,
        stack: &mut Ethernet,
        buf: &mut Vec<u8>,
        capacity: usize,
    ) -> (r: Result<(usize, SocketOutPut), SocketError>)
        requires
            old(stack).wf(),
        ensures
            final(stack).wf(),
            same_link_state(*final(stack), *old(stack)),
            final(stack).ip_stack == old(stack).ip_stack,
            received(
                *old(stack),
                *final(stack),
                socket_key(self.bind_ip, self.port),
                old(buf)@,
                final(buf)@,
                capacity,
                r,
            ),
    {
        let recent_buff = match stack.sockets.pop_received(self.bind_ip, self.port) {
            Ok(b) => b,
            Err(e) => return Err(e),
        };
        let received_ip_header = recent_buff.src_ip_header;
        let last_udp_packet = recent_buff.udp_packet;
        let received_len = last_udp_packet.payload.len();
        let copy_till = if capacity > received_len {
            received_len
        } else {
            capacity
        };
        let mut i: usize = 0;
        while i < copy_till
            invariant
                copy_till <= last_udp_packet.payload@.len(),
                i <= copy_till,
                buf@ == old(buf)@ + last_udp_packet.payload@.subrange(0, i as int),
            decreases copy_till - i,
        {
            buf.push(last_udp_packet.payload[i]);
            i = i + 1;
            assert(buf@ =~= old(buf)@ + last_udp_packet.payload@.subrange(0, i as int));
        }
        Ok((
            received_len,
            SocketOutPut { src_ip_header: received_ip_header, src_udp_header: last_udp_packet.header() },
        ))
    }

    /// Connects this socket to `addr`: later `send`s go there. An IPv6
    /// address is refused.
    pub fn connect(&self, stack: &mut Ethernet, addr: SocketAddress) -> (r: Result<(), SocketError>)
        requires
            old(stack).wf(),
        ensures
            final(stack).wf(),
            same_link_state(*final(stack), *old(stack)),
            final(stack).ip_stack == old(stack).ip_stack,
            ({
                let key = socket_key(self.bind_ip, self.port);
                match v4_parts(addr) {
                    None => r == Err::<(), SocketError>(SocketError::InvalidInput) && final(stack).sockets@
                        == old(stack).sockets@,
                    Some(peer) => if old(stack).sockets@.contains_key(key) {
                        r is Ok && final(stack).sockets@ == old(stack).sockets@.insert(
                            key,
                            SocketModel { peer: Some(peer), ..old(stack).sockets@[key] },
                        )
                    } else {
                        r == Err::<(), SocketError>(SocketError::StaleSocket) && final(stack).sockets@
                            == old(stack).sockets@
                    },
                }
            }),
    {
        let (remote_ip_addr, remote_port) = match UdpSocket::sock_addr_parse(&addr) {
            Ok(parts) => parts,
            Err(e) => return Err(e),
        };
        let identifier = Self::new(
            addr_identifier(remote_ip_addr, remote_port),
            remote_ip_addr,
            remote_port,
        );
        if stack.sockets.set_peer(self.bind_ip, self.port, identifier) {
            Ok(())
        } else {
            Err(SocketError::StaleSocket)
        }
    }

    /// Sends `buf` to the connected peer: the datagram is queued for the IP
    /// layer and its length (header included) returned.
    pub fn send(&self, stack: &mut Ethernet, buf: &[u8]) -> (r: Result<usize, SocketError>)
        requires
            old(stack).wf(),
        ensures
            final(stack).wf(),
            same_link_state(*final(stack), *old(stack)),
            final(stack).sockets == old(stack).sockets,
            ({
                let key = socket_key(self.bind_ip, self.port);
                let s = old(stack).sockets@[key];
                if !old(stack).sockets@.contains_key(key) {
                    r == Err::<usize, SocketError>(SocketError::StaleSocket) && final(stack).ip_stack
                        == old(stack).ip_stack
                } else if s.peer is None {
                    r == Err::<usize, SocketError>(SocketError::NotConnected) && final(stack).ip_stack
                        == old(stack).ip_stack
                } else if buf@.len() + UDP_HEADER_LEN > MTU {
                    r == Err::<usize, SocketError>(SocketError::MessageTooLong) && final(stack).ip_stack
                        == old(stack).ip_stack
                } else {
                    let (peer_ip, peer_port) = s.peer->Some_0;
                    let q = final(stack).ip_stack@;
                    &&& r == Ok::<usize, SocketError>((buf@.len() + 8) as usize)
                    &&& q.len() == old(stack).ip_stack@.len() + 1
                    &&& q.drop_last() == old(stack).ip_stack@
                    &&& q.last().protocol == UDP_PROTO
                    &&& q.last().data@ == datagram_bytes(s.ip, peer_ip, s.port, peer_port, buf@)
                    &&& q.last().src_ip_header == IpHeader {
                        version: 4,
                        ihl: 5,
                        ecn: 0,
                        t_len: (buf@.len() + 28) as u16,
                        id: 0,
                        flags: 0,
                        frag_offset: 0,
                        ttl: crate::ipv4::DEFAULT_TTL,
                        proto: crate::ipv4::Protocol::UDP,
                        chksm: 0,
                        src: peer_ip,
                        dst: s.ip,
                    }
                }
            }),
    {
        let sock = match stack.sockets.get_sock(self.bind_ip, self.port) {
            Some(sk) => sk,
            None => return Err(SocketError::StaleSocket),
        };
        let (dst_ip, dst_port) = match sock.peer() {
            Some(remote_sock) => remote_sock,
            None => return Err(SocketError::NotConnected),
        };
        if buf.len() > MTU as usize - UDP_HEADER_LEN {
            return Err(SocketError::MessageTooLong);
        }
        let src_ip = sock.sock_addr();
        let src_port = sock.sock_port();
        let (_, udp_resp_bytes) = UDP::create_packet(buf, src_port, dst_port, src_ip, dst_ip);
        let udp_len = udp_resp_bytes.len();
        // The template names the peer as source: the IP layer sends replies to
        // a template's source.
        let ip_header = IpHeader::make_unfragmented_ip_header(dst_ip, src_ip, UDP_PROTO, udp_len as u16);
        let l4_resp = Layer4Response { data: udp_resp_bytes, protocol: UDP_PROTO, src_ip_header: ip_header };
        stack.ip_stack.write(l4_resp);
        assert(stack.ip_stack@.drop_last() =~= old(stack).ip_stack@);
        Ok(udp_len)
    }

    /// Sends `buf` back to where the datagram described by `src` came from.
    pub fn send_to(&self, stack: &mut Ethernet, buf: &[u8], src: &SocketOutPut) -> (r: Result<usize, SocketError>)
        requires
            old(stack).wf(),
        ensures
            final(stack).wf(),
            same_link_state(*final(stack), *old(stack)),
            final(stack).sockets == old(stack).sockets,
            ({
                let key = socket_key(self.bind_ip, self.port);
                let s = old(stack).sockets@[key];
                if !old(stack).sockets@.contains_key(key) {
                    r == Err::<usize, SocketError>(SocketError::StaleSocket) && final(stack).ip_stack
                        == old(stack).ip_stack
                } else if buf@.len() + UDP_HEADER_LEN > MTU {
                    r == Err::<usize, SocketError>(SocketError::MessageTooLong) && final(stack).ip_stack
                        == old(stack).ip_stack
                } else {
                    let q = final(stack).ip_stack@;
                    &&& r == Ok::<usize, SocketError>((buf@.len() + 8) as usize)
                    &&& q.len() == old(stack).ip_stack@.len() + 1
                    &&& q.drop_last() == old(stack).ip_stack@
                    &&& q.last().protocol == UDP_PROTO
                    &&& q.last().src_ip_header == src.src_ip_header
                    &&& q.last().data@ == datagram_bytes(
                        s.ip,
                        src.src_ip_header.src,
                        s.port,
                        src.src_udp_header.src_port,
                        buf@,
                    )
                }
            }),
    {
        let sock = match stack.sockets.get_sock(self.bind_ip, self.port) {
            Some(sk) => sk,
            None => return Err(SocketError::StaleSocket),
        };
        if buf.len() > MTU as usize - UDP_HEADER_LEN {
            return Err(SocketError::MessageTooLong);
        }
        // The reply goes back to where the datagram came from.
        let (dst_ip, dst_port, src_ip, src_port) = (
            src.src_ip_header.src,
            src.src_udp_header.src_port(),
            sock.sock_addr(),
            sock.sock_port(),
        );
        let (_, udp_resp_bytes) = UDP::create_packet(buf, src_port, dst_port, src_ip, dst_ip);
        let udp_len = udp_resp_bytes.len();
        stack.ip_stack.write(
            Layer4Response { data: udp_resp_bytes, protocol: UDP_PROTO, src_ip_header: src.src_ip_header },
        );
        assert(stack.ip_stack@.drop_last() =~= old(stack).ip_stack@);
        Ok(udp_len)
    }
}

/// What receiving on the socket under `key` does, with `cap` as the most
/// bytes the buffer may hold: the oldest datagram waiting leaves the socket,
/// as much of its payload as fits is appended to the buffer, and its full
/// length and origin are returned.
pub open spec fn received(
    old: Ethernet,
    new: Ethernet,
    key: u64,
    old_buf: Seq<u8>,
    new_buf: Seq<u8>,
    cap: usize,
    r: Result<(usize, SocketOutPut), SocketError>,
) -> bool {
    let t = old.sockets@;
    if !t.contains_key(key) {
        r == Err::<(usize, SocketOutPut), SocketError>(SocketError::StaleSocket) && new.sockets@ == t
            && new_buf == old_buf
    } else if t[key].buffer.len() == 0 {
        r == Err::<(usize, SocketOutPut), SocketError>(SocketError::WouldBlock) && new.sockets@ == t
            && new_buf == old_buf
    } else {
        let (uh, payload, ih) = t[key].buffer[0];
        let n = if cap > payload.len() {
            payload.len() as int
        } else {
            cap as int
        };
        &&& r == Ok::<(usize, SocketOutPut), SocketError>(
            (payload.len() as usize, SocketOutPut { src_ip_header: ih, src_udp_header: uh }),
        )
        &&& new.sockets@ == t.insert(key, SocketModel { buffer: t[key].buffer.drop_first(), ..t[key] })
        &&& new_buf == old_buf + payload.subrange(0, n)
    }
}

/// Binds a new UDP socket to `addr`; see `UdpSocket::bind`.
pub fn bind(stack: &mut Ethernet, addr: SocketAddress) -> (r: Result<UdpSocketIdentifier, SocketError>)
    requires
        old(stack).wf(),
    ensures
        final(stack).wf(),
        same_link_state(*final(stack), *old(stack)),
        final(stack).ip_stack == old(stack).ip_stack,
        final(stack).sockets@ == table_after_bind(old(stack).sockets@, addr),
        match r {
            Ok(id) => {
                &&& bind_result(old(stack).sockets@, addr) == Ok::<(), SocketError>(())
                &&& v4_parts(addr) == Some((id.bind_ip, id.port))
                &&& id.socket_identifier@ == identifier_text(id.bind_ip, id.port)
            },
            Err(e) => bind_result(old(stack).sockets@, addr) == Err::<(), SocketError>(e),
        },
{
    UdpSocket::bind(stack, addr)
}

/// Once an address is bound, binding it again fails with `AddrInUse`.
pub proof fn lemma_second_bind_in_use(t: Map<u64, SocketModel>, addr: SocketAddress)
    requires
        bind_result(t, addr) is Ok,
    ensures
        bind_result(table_after_bind(t, addr), addr) == Err::<(), SocketError>(SocketError::AddrInUse),
{
}

/// A reply that `send_to` queues for a received datagram goes back to that
/// datagram's sender: the IP layer addresses it to the source of the received
/// IP header, and its destination port is the received source port.
pub proof fn lemma_reply_reaches_sender(
    src: SocketOutPut,
    local_ip: ProtocolAddr,
    local_port: u16,
    payload: Seq<u8>,
)
    ensures
        response_header(src.src_ip_header, (payload.len() + 8) as nat, UDP_PROTO).dst
            == src.src_ip_header.src,
        crate::udp::datagram_from_bytes(
            datagram_bytes(local_ip, src.src_ip_header.src, local_port, src.src_udp_header.src_port, payload),
        ).0.dst_port == src.src_udp_header.src_port,
{
    let b = datagram_bytes(local_ip, src.src_ip_header.src, local_port, src.src_udp_header.src_port, payload);
    let p = src.src_udp_header.src_port;
    assert(b[2] == (p / 256) as u8 && b[3] == (p % 256) as u8);
}

/// The sockets of the stack, each under the key of its address.
pub struct SocketTable {
    sockets: HashMap<u64, UdpSocket>,
}

impl View for SocketTable {
    type V = Map<u64, SocketModel>;

    closed spec fn view(&self) -> Map<u64, SocketModel> {
        self.sockets@.map_values(|s: UdpSocket| s@)
    }
}

impl SocketTable {
    /// Each socket is kept under the key of its own address.
    pub open spec fn wf(&self) -> bool {
        forall|k: u64| #[trigger]
            self@.contains_key(k) ==> socket_key(self@[k].ip, self@[k].port) == k
    }

    pub fn new() -> (r: Self)
        ensures
            r@ == Map::<u64, SocketModel>::empty(),
            r.wf(),
    {
        let r = SocketTable { sockets: HashMap::new() };
        assert(r@ =~= Map::<u64, SocketModel>::empty());
        r
    }

    /// Whether a socket is bound to `ip:port`.
    pub fn contains(&self, ip: ProtocolAddr, port: u16) -> (r: bool)
        ensures
            r == self@.contains_key(socket_key(ip, port)),
    {
        let key = key_of(ip, port);
        self.sockets.contains_key(&key)
    }

    /// The socket bound to `ip:port`, if any.
    pub fn get_sock(&self, ip: ProtocolAddr, port: u16) -> (r: Option<&UdpSocket>)
        ensures
            r is Some <==> self@.contains_key(socket_key(ip, port)),
            r matches Some(s) ==> s@ == self@[socket_key(ip, port)],
    {
        let key = key_of(ip, port);
        self.sockets.get(&key)
    }

    /// Registers a fresh socket bound to `ip:port`; fails when one is already there.
    fn add_to_created_sockets(&mut self, ip: ProtocolAddr, port: u16, identifier: String) -> (r: Result<(), SocketError>)
        requires
            old(self).wf(),
            identifier@ == identifier_text(ip, port),
        ensures
            final(self).wf(),
            old(self)@.contains_key(socket_key(ip, port)) ==> r == Err::<(), SocketError>(SocketError::AddrInUse)
                && final(self)@ == old(self)@,
            !old(self)@.contains_key(socket_key(ip, port)) ==> r is Ok && final(self)@ == old(self)@.insert(
                socket_key(ip, port),
                fresh_socket(ip, port),
            ),
    {
        let key = key_of(ip, port);
        if self.sockets.contains_key(&key) {
            Err(SocketError::AddrInUse)
        } else {
            let socket = UdpSocket {
                bind_ip: ip,
                port: port,
                addr_identifier: identifier,
                buffer: VecDeque::new(),
                max_buff_size: MAX_BUFF_SIZE,
                connected_sock: None,
            };
            assert(socket@.buffer =~= Seq::<Received>::empty());
            self.sockets.insert(key, socket);
            assert(self@ =~= old(self)@.insert(key, fresh_socket(ip, port)));
            assert forall|k: u64| #[trigger] self@.contains_key(k) implies socket_key(
                self@[k].ip,
                self@[k].port,
            ) == k by {
                if k != key {
                    assert(old(self)@.contains_key(k));
                }
            }
            Ok(())
        }
    }

    /// Sets the connected peer of the socket bound to `ip:port`; false when none is.
    fn set_peer(&mut self, ip: ProtocolAddr, port: u16, peer: UdpSocketIdentifier) -> (r: bool)
        requires
            old(self).wf(),
        ensures
            final(self).wf(),
            r == old(self)@.contains_key(socket_key(ip, port)),
            r ==> final(self)@ == old(self)@.insert(
                socket_key(ip, port),
                SocketModel { peer: Some((peer.bind_ip, peer.port)), ..old(self)@[socket_key(ip, port)] },
            ),
            !r ==> final(self)@ == old(self)@,
    {
        let key = key_of(ip, port);
        match self.sockets.remove(&key) {
            Some(mut sock) => {
                let ghost p = (peer.bind_ip, peer.port);
                sock.connected_sock = Some(peer);
                self.sockets.insert(key, sock);
                assert(self@ =~= old(self)@.insert(
                    key,
                    SocketModel { peer: Some(p), ..old(self)@[key] },
                ));
                assert forall|k: u64| #[trigger] self@.contains_key(k) implies socket_key(
                    self@[k].ip,
                    self@[k].port,
                ) == k by {
                    if k != key {
                        assert(old(self)@.contains_key(k));
                    }
                }
                true
            },
            None => {
                assert(self.sockets@ =~= old(self).sockets@);
                false
            },
        }
    }

    /// Takes the oldest datagram waiting in the socket bound to `ip:port`.
    fn pop_received(&mut self, ip: ProtocolAddr, port: u16) -> (r: Result<PayloadBuff, SocketError>)
        requires
            old(self).wf(),
        ensures
            final(self).wf(),
            ({
                let key = socket_key(ip, port);
                if !old(self)@.contains_key(key) {
                    r == Err::<PayloadBuff, SocketError>(SocketError::StaleSocket) && final(self)@ == old(self)@
                } else if old(self)@[key].buffer.len() == 0 {
                    r == Err::<PayloadBuff, SocketError>(SocketError::WouldBlock) && final(self)@ == old(self)@
                } else {
                    &&& r matches Ok(b) && b@ == old(self)@[key].buffer[0]
                    &&& final(self)@ == old(self)@.insert(
                        key,
                        SocketModel { buffer: old(self)@[key].buffer.drop_first(), ..old(self)@[key] },
                    )
                }
            }),
    {
        let key = key_of(ip, port);
        match self.sockets.remove(&key) {
            Some(mut sock) => {
                match sock.buffer.pop_front() {
                    Some(b) => {
                        self.sockets.insert(key, sock);
                        assert(self@[key].buffer =~= old(self)@[key].buffer.drop_first());
                        assert(self@ =~= old(self)@.insert(
                            key,
                            SocketModel { buffer: old(self)@[key].buffer.drop_first(), ..old(self)@[key] },
                        ));
                        assert forall|k: u64| #[trigger] self@.contains_key(k) implies socket_key(
                            self@[k].ip,
                            self@[k].port,
                        ) == k by {
                            if k != key {
                                assert(old(self)@.contains_key(k));
                            }
                        }
                        Ok(b)
                    },
                    None => {
                        self.sockets.insert(key, sock);
                        assert(self@ =~= old(self)@);
                        Err(SocketError::WouldBlock)
                    },
                }
            },
            None => {
                assert(self.sockets@ =~= old(self).sockets@);
                Err(SocketError::StaleSocket)
            },
        }
    }

    /// Hands a received datagram to the socket bound to `ip:port`, if any.
    pub fn deliver(&mut self, ip: ProtocolAddr, port: u16, datagram: UDP, ip_header: IpHeader)
        requires
            old(self).wf(),
        ensures
            final(self).wf(),
            ({
                let key = socket_key(ip, port);
                if old(self)@.contains_key(key) {
                    final(self)@ == old(self)@.insert(
                        key,
                        old(self)@[key].receive((datagram.header, datagram.payload@, ip_header)),
                    )
                } else {
                    final(self)@ == old(self)@
                }
            }),
    {
        let key = key_of(ip, port);
        match self.sockets.remove(&key) {
            Some(mut sock) => {
                sock.write_to_sockbuff(datagram, ip_header);
                self.sockets.insert(key, sock);
                assert(self@ =~= old(self)@.insert(
                    key,
                    old(self)@[key].receive((datagram.header, datagram.payload@, ip_header)),
                ));
                assert forall|k: u64| #[trigger] self@.contains_key(k) implies socket_key(
                    self@[k].ip,
                    self@[k].port,
                ) == k by {
                    if k != key {
                        assert(old(self)@.contains_key(k));
                    }
                }
            },
            None => {
                assert(self.sockets@ =~= old(self).sockets@);
            },
        }
    }
}

} // verus!
