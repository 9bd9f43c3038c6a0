use vstd::prelude::*;
use crate::ethernet::EthernetFrame;
use crate::ipv4::{header_from_bytes, IPstackWriter, IPv4, Layer4Response, ICMP as ICMP_PROTO, IP_HEADER_LEN};
use crate::net_util::{
    be16, be16_bytes, be32, be32_bytes, checksum_of, checksum_verifies, compute_ip_checksum,
    lemma_patched_checksum_verifies, ntohl, ntohs, patch_be16, push_all, push_be16, push_be32,
    MAX_CHECKSUM_LEN,
};

verus! {

pub const ECHO_REPLY: u8 = 0u8;

pub const ECHO_REQ: u8 = 8u8;

/// Length of an ICMP header.
pub const ICMP_HEADER_LEN: usize = 8;

/// The kind of an ICMP message, from its type field.
#[derive(Debug, Clone, Copy, PartialEq, Eq, Structural)]
pub enum IcmpType {
    EchoReply,
    DestinationUnreachable,
    EchoRequest,
    Unsupported,
}

pub open spec fn icmp_type_of(t: u8) -> IcmpType {
    if t == 0 {
        IcmpType::EchoReply
    } else if t == 3 {
        IcmpType::DestinationUnreachable
    } else if t == 8 {
        IcmpType::EchoRequest
    } else {
        IcmpType::Unsupported
    }
}

/// An ICMP message.
#[derive(Debug, Clone)]
pub struct ICMP {
    pub msg_type: u8,
    pub code: u8,
    pub checksum: u16,
    pub header_dat: u32,
    pub payload: Vec<u8>,
}

/// The bytes of an ICMP message with the given fields.
pub open spec fn icmp_bytes(msg_type: u8, code: u8, checksum: u16, header_dat: u32, payload: Seq<u8>) -> Seq<u8> {
    seq![msg_type, code] + be16_bytes(checksum) + be32_bytes(header_dat) + payload
}

/// The echo reply that carries `header_dat` and `payload`, its checksum written in.
pub open spec fn echo_reply_bytes(header_dat: u32, payload: Seq<u8>) -> Seq<u8> {
    let b = icmp_bytes(ECHO_REPLY, 0, 0, header_dat, payload);
    patch_be16(b, 2, checksum_of(b, 2))
}

/// The bytes of an echo request that this stack answers: long enough, its
/// checksum right, and its type 8.
pub open spec fn answers_echo(b: Seq<u8>) -> bool {
    &&& ICMP_HEADER_LEN <= b.len() <= MAX_CHECKSUM_LEN
    &&& checksum_verifies(b, 2)
    &&& b[0] == ECHO_REQ
}

/// What an IP packet `ip` does to the queue of replies when it is handed to
/// ICMP: an echo request that verifies gets its echo reply queued, addressed
/// back to its sender; anything else leaves the queue as it was.
pub open spec fn icmp_ingress(old_q: Seq<Layer4Response>, new_q: Seq<Layer4Response>, ip: Seq<u8>) -> bool {
    let m = ip.subrange(20, ip.len() as int);
    if ip.len() >= 20 && answers_echo(m) {
        &&& new_q.len() == old_q.len() + 1
        &&& new_q.drop_last() == old_q
        &&& new_q.last().protocol == ICMP_PROTO
        &&& new_q.last().src_ip_header == header_from_bytes(ip)
        &&& new_q.last().data@ == echo_reply_bytes(
            be32(m[4], m[5], m[6], m[7]) as u32,
            m.subrange(8, m.len() as int),
        )
    } else {
        new_q == old_q
    }
}

impl ICMP {
    pub fn icmp_type(&self) -> (r: IcmpType)
        ensures
            r == icmp_type_of(self.msg_type),
    {
        if self.msg_type == 0 {
            IcmpType::EchoReply
        } else if self.msg_type == 3 {
            IcmpType::DestinationUnreachable
        } else if self.msg_type == 8 {
            IcmpType::EchoRequest
        } else {
            IcmpType::Unsupported
        }
    }

    pub fn packet_to_bytes(&self) -> (r: Vec<u8>)
        ensures
            r@ == icmp_bytes(self.msg_type, self.code, self.checksum, self.header_dat, self.payload@),
    {
        let mut buffer: Vec<u8> = Vec::new();
        buffer.push(self.msg_type);
        buffer.push(self.code);
        push_be16(&mut buffer, self.checksum);
        push_be32(&mut buffer, self.header_dat);
        push_all(&mut buffer, self.payload.as_slice());
        assert(buffer@ =~= icmp_bytes(self.msg_type, self.code, self.checksum, self.header_dat, self.payload@));
        buffer
    }

    /// Reads a message; none when it is shorter than a header, too long to
    /// checksum, or its checksum is wrong.
    pub fn packet_from_bytes(data: &[u8]) -> (r: Option<Self>)
        ensures
            r is Some <==> ICMP_HEADER_LEN <= data@.len() <= MAX_CHECKSUM_LEN && checksum_verifies(data@, 2),
            r matches Some(m) ==> {
                &&& m.msg_type == data@[0]
                &&& m.code == data@[1]
                &&& m.checksum as nat == be16(data@[2], data@[3])
                &&& m.header_dat as nat == be32(data@[4], data@[5], data@[6], data@[7])
                &&& m.payload@ == data@.subrange(8, data@.len() as int)
            },
    {
        if data.len() < ICMP_HEADER_LEN || data.len() > MAX_CHECKSUM_LEN {
            return None;
        }
        let icmp_packet = ICMP {
            msg_type: data[0],
            code: data[1],
            checksum: ntohs(vstd::slice::slice_subrange(data, 2, 4)),
            header_dat: ntohl(vstd::slice::slice_subrange(data, 4, 8)),
            payload: vstd::slice::slice_to_vec(vstd::slice::slice_subrange(data, 8, data.len())),
        };
        let (computed_chksum, received_chksum) = compute_ip_checksum(data, 2..4);
        if computed_chksum == received_chksum {
            Some(icmp_packet)
        } else {
            None
        }
    }

    /// The echo reply to `packet`: type 0, code 0, the same header data and
    /// payload, and its checksum computed.
    pub fn build_icmp_echo_reply(packet: ICMP) -> (r: ICMP)
        requires
            packet.payload@.len() + ICMP_HEADER_LEN <= MAX_CHECKSUM_LEN,
        ensures
            r.msg_type == ECHO_REPLY,
            r.code == 0,
            r.header_dat == packet.header_dat,
            r.payload@ == packet.payload@,
            icmp_bytes(r.msg_type, r.code, r.checksum, r.header_dat, r.payload@) == echo_reply_bytes(
                packet.header_dat,
                packet.payload@,
            ),
            checksum_verifies(echo_reply_bytes(packet.header_dat, packet.payload@), 2),
    {
        let mut reply = ICMP {
            msg_type: ECHO_REPLY,
            // The code is zero for echo requests and replies.
            code: 0u8,
            checksum: 0u16,
            header_dat: packet.header_dat,
            payload: packet.payload,
        };
        let bytes = reply.packet_to_bytes();
        let (check_sum, _) = compute_ip_checksum(bytes.as_slice(), 2..4);
        reply.checksum = check_sum;
        proof {
            let b = icmp_bytes(ECHO_REPLY, 0, 0, reply.header_dat, reply.payload@);
            assert(icmp_bytes(reply.msg_type, reply.code, reply.checksum, reply.header_dat, reply.payload@)
                =~= patch_be16(b, 2, check_sum));
            lemma_patched_checksum_verifies(b, 2);
        }
        reply
    }

    /// Answers an echo request that arrived in `frame` by queueing the echo
    /// reply for the IP layer; any other message is dropped.
    pub fn process_packet(frame: &EthernetFrame, layer_3_writer: &mut IPstackWriter)
        requires
            frame.wf(),
        ensures
            icmp_ingress(old(layer_3_writer)@, final(layer_3_writer)@, frame@.subrange(14, frame@.len() as int)),
    {
        let ip_bytes = frame.payload();
        if ip_bytes.len() < IP_HEADER_LEN {
            return ;
        }
        let ipv4_packet = IPv4::packet_from_net_bytes(ip_bytes);
        let icmp_reply = match ICMP::packet_from_bytes(ipv4_packet.payload_bytes()) {
            Some(icmp_packet) => match icmp_packet.icmp_type() {
                IcmpType::EchoRequest => {
                    let reply = ICMP::build_icmp_echo_reply(icmp_packet);
                    reply.packet_to_bytes()
                },
                // Other message types are not answered.
                _ => return ,
            },
            // A wrong checksum: the message is dropped.
            None => return ,
        };
        let layer4_resp = Layer4Response {
            data: icmp_reply,
            protocol: ICMP_PROTO,
            src_ip_header: ipv4_packet.ip_header(),
        };
        layer_3_writer.write(layer4_resp);
        assert(final(layer_3_writer)@.drop_last() =~= old(layer_3_writer)@);
    }
}

} // verus!
