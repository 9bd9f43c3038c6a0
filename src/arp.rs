use vstd::prelude::*;
use crate::ethernet::{
    arp_ingress, Ethernet, EthernetFrame, HwAddr, LinkPayload, ProtocolAddr,
    BROADCAST_ADDR, ETH_IPV4, IP_ADDR,
};
use crate::net_util::{be16_bytes, bytes_equal, push_all, push_be16};

verus! {

pub const ARP_REPLY_OPCODE: u16 = 2u16;

pub const ARP_REQ_OPCODE: u16 = 1u16;

/// Length of an ARP message for IPv4 over Ethernet.
pub const ARP_PACKET_LEN: usize = 28;

/// Whether an ARP message asks or answers.
#[derive(Debug, Clone, Copy, PartialEq, Eq, Structural)]
pub enum ARPKind {
    Req,
    Reply,
}

/// The bytes are an ARP message for IPv4 over Ethernet: 6-byte hardware
/// addresses, 4-byte protocol addresses, and room for all four of them.
pub open spec fn arp_well_formed(b: Seq<u8>) -> bool {
    b.len() >= ARP_PACKET_LEN && b[4] == 6 && b[5] == 4
}

/// The kind named by the opcode in `b`, if it is one this stack knows.
pub open spec fn kind_of(b: Seq<u8>) -> Option<ARPKind> {
    if b[6] == 0 && b[7] == 2 {
        Some(ARPKind::Reply)
    } else if b[6] == 0 && b[7] == 1 {
        Some(ARPKind::Req)
    } else {
        None
    }
}

/// The request that asks who has `target`, sent by `sender_hw` from this host's address.
pub open spec fn request_bytes(target: ProtocolAddr, sender_hw: Seq<u8>) -> Seq<u8> {
    be16_bytes(1) + be16_bytes(ETH_IPV4 as u16) + seq![6u8, 4u8] + be16_bytes(ARP_REQ_OPCODE)
        + sender_hw + IP_ADDR@ + BROADCAST_ADDR@ + target@
}

/// The reply to request `req` from the host with hardware address `hw`:
/// opcode 2, `hw` as sender, the request's sender as target, and the two
/// protocol addresses swapped.
pub open spec fn reply_bytes(req: Seq<u8>, hw: HwAddr) -> Seq<u8> {
    req.subrange(0, 6) + be16_bytes(ARP_REPLY_OPCODE) + hw@ + req.subrange(24, 28) + req.subrange(8, 14)
        + req.subrange(14, 18) + req.subrange(28, req.len() as int)
}

/// An ARP message.
pub struct ARP {
    data: Vec<u8>,
    kind: ARPKind,
}

impl View for ARP {
    type V = Seq<u8>;

    closed spec fn view(&self) -> Seq<u8> {
        self.data@
    }
}

// Message building and classification.
impl ARP {
    pub open spec fn wf(&self) -> bool {
        arp_well_formed(self@)
    }

    pub closed spec fn spec_kind(&self) -> ARPKind {
        self.kind
    }

    /// Handles an ARP message that arrived in `frame`: a reply teaches the
    /// cache its sender; a request for this host's address teaches the cache
    /// its sender and is answered.
    pub fn process_packet(eth: &mut Ethernet, frame: &EthernetFrame)
        requires
            old(eth).wf(),
            frame.wf(),
        ensures
            final(eth).wf(),
            arp_ingress(*old(eth), *final(eth), frame@.subrange(14, frame@.len() as int)),
    {
        let received = vstd::slice::slice_to_vec(frame.payload());
        let received_arp_packet = match ARP::build_packet(received) {
            Some(p) => p,
            // Malformed, or an opcode this stack does not handle.
            None => return ,
        };
        match received_arp_packet.kind {
            ARPKind::Reply => {
                let (protocol_addr, hw_addr) = received_arp_packet.parse_for_addr();
                eth.update_arp_cache(protocol_addr, hw_addr);
            },
            ARPKind::Req => {
                // Only requests for this host's own address are answered.
                if bytes_equal(received_arp_packet.tpa(), IP_ADDR.as_slice()) {
                    // The asker will be answered, so its address is worth keeping.
                    let (protocol_addr, hw_addr) = received_arp_packet.parse_for_addr();
                    eth.update_arp_cache(protocol_addr, hw_addr);
                    let resp = received_arp_packet.build_response(eth.address());
                    eth.eth_layer_write(LinkPayload::Arp(resp));
                    assert(eth.l3_resp_queue@.drop_last() =~= old(eth).l3_resp_queue@);
                }
            },
        }
    }

    /// The message's bytes.
    pub fn data(&self) -> (r: Vec<u8>)
        ensures
            r@ == self@,
    {
        vstd::slice::slice_to_vec(self.data.as_slice())
    }

    /// Reads a received message; none when it is malformed or its opcode is
    /// neither request nor reply.
    pub fn build_packet(data: Vec<u8>) -> (r: Option<ARP>)
        ensures
            r is Some <==> arp_well_formed(data@) && kind_of(data@) is Some,
            r matches Some(a) ==> a@ == data@ && a.wf() && Some(a.spec_kind()) == kind_of(data@),
    {
        if data.len() < ARP_PACKET_LEN || data[4] != 6 || data[5] != 4 {
            return None;
        }
        match Self::arp_kind_from_bytes(data.as_slice()) {
            Some(arp_kind) => Some(ARP { data: data, kind: arp_kind }),
            None => None,
        }
    }

    /// The protocol and hardware address of the sender.
    pub fn parse_for_addr(&self) -> (r: (ProtocolAddr, HwAddr))
        requires
            self.wf(),
        ensures
            r.0@ == self@.subrange(14, 18),
            r.1@ == self@.subrange(8, 14),
    {
        let d = &self.data;
        let pa = [d[14], d[15], d[16], d[17]];
        let hw = [d[8], d[9], d[10], d[11], d[12], d[13]];
        assert(pa@ =~= self@.subrange(14, 18));
        assert(hw@ =~= self@.subrange(8, 14));
        (pa, hw)
    }

    pub fn arp_kind_from_bytes(bytes: &[u8]) -> (r: Option<ARPKind>)
        requires
            bytes@.len() >= 8,
        ensures
            r == kind_of(bytes@),
    {
        if bytes[6] == 0 && bytes[7] == 2 {
            Some(ARPKind::Reply)
        } else if bytes[6] == 0 && bytes[7] == 1 {
            Some(ARPKind::Req)
        } else {
            None
        }
    }

    pub fn operation(&self) -> (r: Option<ARPKind>)
        requires
            self.wf(),
        ensures
            r == kind_of(self@),
    {
        Self::arp_kind_from_bytes(self.data.as_slice())
    }

    /// The request that asks which host has `target_addr`.
    pub fn make_req_for_addr(target_addr: ProtocolAddr, sender_hw_addr: &[u8]) -> (r: ARP)
        requires
            sender_hw_addr@.len() == 6,
        ensures
            r@ == request_bytes(target_addr, sender_hw_addr@),
            r.wf(),
            r.spec_kind() == ARPKind::Req,
    {
        let mut payload: Vec<u8> = Vec::new();
        push_be16(&mut payload, 1u16);
        push_be16(&mut payload, ETH_IPV4 as u16);
        payload.push(6u8);
        payload.push(4u8);
        push_be16(&mut payload, ARP_REQ_OPCODE);
        push_all(&mut payload, sender_hw_addr);
        push_all(&mut payload, IP_ADDR.as_slice());
        push_all(&mut payload, BROADCAST_ADDR.as_slice());
        push_all(&mut payload, target_addr.as_slice());
        assert(payload@ =~= request_bytes(target_addr, sender_hw_addr@));
        ARP { data: payload, kind: ARPKind::Req }
    }

    /// The reply from `eth_addr` to the request in `data`.
    pub fn handle_packet(data: Vec<u8>, eth_addr: HwAddr) -> (r: ARP)
        requires
            arp_well_formed(data@),
        ensures
            r@ == reply_bytes(data@, eth_addr),
            r.wf(),
            r.spec_kind() == ARPKind::Reply,
    {
        let req = ARP::build_request(data);
        req.build_response(eth_addr)
    }

    pub fn build_request(data: Vec<u8>) -> (r: ARP)
        requires
            arp_well_formed(data@),
        ensures
            r@ == data@,
            r.wf(),
            r.spec_kind() == ARPKind::Req,
    {
        ARP { data: data, kind: ARPKind::Req }
    }

    /// The reply from `eth_addr` to this request.
    pub fn build_response(&self, eth_addr: HwAddr) -> (r: ARP)
        requires
            self.wf(),
        ensures
            r@ == reply_bytes(self@, eth_addr),
            r.wf(),
            r.spec_kind() == ARPKind::Reply,
    {
        let mut resp = ARP { data: vstd::slice::slice_to_vec(self.data.as_slice()), kind: ARPKind::Reply };
        resp.fill_values(eth_addr);
        resp
    }

    fn fill_values(&mut self, eth_addr: HwAddr)
        requires
            old(self).wf(),
        ensures
            final(self)@ == reply_bytes(old(self)@, eth_addr),
            final(self).spec_kind() == old(self).spec_kind(),
    {
        let ghost req = self@;
        self.set_op_code();
        self.set_hw_addrs(eth_addr);
        self.set_protocol_addrs();
        assert(self@ =~= reply_bytes(req, eth_addr));
    }

    /// Swaps the sender and target protocol addresses.
    fn set_protocol_addrs(&mut self)
        requires
            old(self).wf(),
        ensures
            final(self)@ == old(self)@.subrange(0, 14) + old(self)@.subrange(24, 28) + old(self)@.subrange(
                18,
                24,
            ) + old(self)@.subrange(14, 18) + old(self)@.subrange(28, old(self)@.len() as int),
            final(self).spec_kind() == old(self).spec_kind(),
    {
        let sender_ip_start = self.sha_boundary();
        let target_ip_start = self.tha_boundary();
        let addr_length = self.pln() as usize;
        let mut i: usize = 0;
        while i < addr_length
            invariant
                sender_ip_start == 14,
                target_ip_start == 24,
                addr_length == 4,
                i <= 4,
                arp_well_formed(old(self)@),
                self.kind == old(self).kind,
                self@.len() == old(self)@.len(),
                forall|j: int|
                    0 <= j < self@.len() ==> #[trigger] self@[j] == if 14 <= j < 14 + i {
                        old(self)@[j + 10]
                    } else if 24 <= j < 24 + i {
                        old(self)@[j - 10]
                    } else {
                        old(self)@[j]
                    },
            decreases 4 - i,
        {
            let a = self.data[sender_ip_start + i];
            let b = self.data[target_ip_start + i];
            self.data.set(sender_ip_start + i, b);
            self.data.set(target_ip_start + i, a);
            i = i + 1;
        }
        assert(self@ =~= old(self)@.subrange(0, 14) + old(self)@.subrange(24, 28) + old(self)@.subrange(
            18,
            24,
        ) + old(self)@.subrange(14, 18) + old(self)@.subrange(28, old(self)@.len() as int));
    }

    /// Makes the request's sender the target, and `eth_addr` the sender.
    fn set_hw_addrs(&mut self, eth_addr: HwAddr)
        requires
            old(self).wf(),
        ensures
            final(self)@ == old(self)@.subrange(0, 8) + eth_addr@ + old(self)@.subrange(14, 18)
                + old(self)@.subrange(8, 14) + old(self)@.subrange(24, old(self)@.len() as int),
            final(self).spec_kind() == old(self).spec_kind(),
    {
        let sender_hw = self.sha_bytes();
        let tha_start = self.spa_boundary();
        let sha_start = self.op_boundary();
        let mut i: usize = 0;
        while i < 6
            invariant
                tha_start == 18,
                sha_start == 8,
                sender_hw@ == old(self)@.subrange(8, 14),
                i <= 6,
                arp_well_formed(old(self)@),
                self.kind == old(self).kind,
                self@.len() == old(self)@.len(),
                forall|j: int|
                    0 <= j < self@.len() ==> #[trigger] self@[j] == if 8 <= j < 8 + i {
                        eth_addr@[j - 8]
                    } else if 18 <= j < 18 + i {
                        old(self)@[j - 10]
                    } else {
                        old(self)@[j]
                    },
            decreases 6 - i,
        {
            self.data.set(tha_start + i, sender_hw[i]);
            self.data.set(sha_start + i, eth_addr[i]);
            i = i + 1;
        }
        assert(self@ =~= old(self)@.subrange(0, 8) + eth_addr@ + old(self)@.subrange(14, 18)
            + old(self)@.subrange(8, 14) + old(self)@.subrange(24, old(self)@.len() as int));
    }

    /// Writes the reply opcode.
    fn set_op_code(&mut self)
        requires
            old(self).wf(),
        ensures
            final(self)@ == old(self)@.subrange(0, 6) + be16_bytes(ARP_REPLY_OPCODE) + old(self)@.subrange(
                8,
                old(self)@.len() as int,
            ),
            final(self).spec_kind() == old(self).spec_kind(),
    {
        let start = self.pln_boundary();
        self.data.set(start, 0u8);
        self.data.set(start + 1, 2u8);
        assert(self@ =~= old(self)@.subrange(0, 6) + be16_bytes(ARP_REPLY_OPCODE) + old(self)@.subrange(
            8,
            old(self)@.len() as int,
        ));
    }

    fn sha_bytes(&self) -> (r: Vec<u8>)
        requires
            self.wf(),
        ensures
            r@ == self@.subrange(8, 14),
    {
        vstd::slice::slice_to_vec(self.sha())
    }
}

// Field accessors and the offsets they derive from the address lengths.
impl ARP {
    pub fn hrd(&self) -> (r: [u8; 2])
        requires
            self.wf(),
        ensures
            r@ == self@.subrange(0, 2),
    {
        let r = [self.data[0], self.data[1]];
        assert(r@ =~= self@.subrange(0, 2));
        r
    }

    pub fn pro(&self) -> (r: [u8; 2])
        requires
            self.wf(),
        ensures
            r@ == self@.subrange(2, 4),
    {
        let r = [self.data[2], self.data[3]];
        assert(r@ =~= self@.subrange(2, 4));
        r
    }

    pub fn hln(&self) -> (r: u8)
        requires
            self.wf(),
        ensures
            r == self@[4],
    {
        self.data[4]
    }

    pub fn pln(&self) -> (r: u8)
        requires
            self.wf(),
        ensures
            r == self@[5],
    {
        self.data[5]
    }

    pub fn op(&self) -> (r: [u8; 2])
        requires
            self.wf(),
        ensures
            r@ == self@.subrange(6, 8),
    {
        let r = [self.data[6], self.data[7]];
        assert(r@ =~= self@.subrange(6, 8));
        r
    }

    pub fn sha(&self) -> (r: &[u8])
        requires
            self.wf(),
        ensures
            r@ == self@.subrange(8, 14),
    {
        vstd::slice::slice_subrange(self.data.as_slice(), self.op_boundary(), self.sha_boundary())
    }

    pub fn spa(&self) -> (r: &[u8])
        requires
            self.wf(),
        ensures
            r@ == self@.subrange(14, 18),
    {
        vstd::slice::slice_subrange(self.data.as_slice(), self.sha_boundary(), self.spa_boundary())
    }

    pub fn tha(&self) -> (r: &[u8])
        requires
            self.wf(),
        ensures
            r@ == self@.subrange(18, 24),
    {
        vstd::slice::slice_subrange(self.data.as_slice(), self.spa_boundary(), self.tha_boundary())
    }

    pub fn tpa(&self) -> (r: &[u8])
        requires
            self.wf(),
        ensures
            r@ == self@.subrange(24, 28),
    {
        vstd::slice::slice_subrange(self.data.as_slice(), self.tha_boundary(), self.tpa_boundary())
    }

    fn pln_boundary(&self) -> (r: usize)
        ensures
            r == 6,
    {
        6
    }

    fn op_boundary(&self) -> (r: usize)
        ensures
            r == 8,
    {
        8
    }

    fn sha_boundary(&self) -> (r: usize)
        requires
            self.wf(),
        ensures
            r == 14,
    {
        self.hln() as usize + self.op_boundary()
    }

    fn spa_boundary(&self) -> (r: usize)
        requires
            self.wf(),
        ensures
            r == 18,
    {
        self.sha_boundary() + self.pln() as usize
    }

    fn tha_boundary(&self) -> (r: usize)
        requires
            self.wf(),
        ensures
            r == 24,
    {
        self.spa_boundary() + self.hln() as usize
    }

    fn tpa_boundary(&self) -> (r: usize)
        requires
            self.wf(),
        ensures
            r == 28,
    {
        self.tha_boundary() + self.pln() as usize
    }
}

} // verus!
