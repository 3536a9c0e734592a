use vstd::prelude::*;
use crate::rfc_791::{ipv4_header_checksum, with_ipv4_checksum};
use crate::rfc_793::{tcp_checksum, with_tcp_checksum};
use super::arp_payload::{
    AddressResolutionProtocolPayload, ArpMessage, arp_error_message, parse_arp, serialize_arp,
};
use super::ethernet_packet::{EthernetFrame, EthernetPacket, parse_ethernet, serialize_ethernet};

verus! {

broadcast use vstd::array::group_array_axioms;

/// What a bridge end does with one frame read from its interface.
pub enum PacketResponse {
    /// An IPv4 frame, readdressed for the other subnet, to be written out
    /// on the other interface. `carries_tcp` tells that the datagram holds
    /// a TCP segment (protocol 6), whose checksum was then computed anew too.
    Forward { frame: Vec<u8>, carries_tcp: bool },
    /// An ARP reply, to be written back on the interface the ARP message came in on.
    Reply(Vec<u8>),
    /// An ARP frame whose payload could not be read, with the reason.
    ArpRejected(&'static str),
    /// Nothing to send: IPv6, other EtherTypes and frames too short for a header.
    Ignore,
}

/// The mathematical value of a [`PacketResponse`].
pub enum ResponseView {
    Forward { frame: Seq<u8>, carries_tcp: bool },
    Reply(Seq<u8>),
    ArpRejected(Seq<char>),
    Ignore,
}

impl View for PacketResponse {
    type V = ResponseView;

    open spec fn view(&self) -> ResponseView {
        match self {
            PacketResponse::Forward { frame, carries_tcp } => ResponseView::Forward {
                frame: frame@,
                carries_tcp: *carries_tcp,
            },
            PacketResponse::Reply(f) => ResponseView::Reply(f@),
            PacketResponse::ArpRejected(e) => ResponseView::ArpRejected(e@),
            PacketResponse::Ignore => ResponseView::Ignore,
        }
    }
}

/// `b` with the values `x` and `y` exchanged.
pub open spec fn exchange(b: u8, x: u8, y: u8) -> u8 {
    if b == x {
        y
    } else if b == y {
        x
    } else {
        b
    }
}

/// The IPv4 datagram with its source and destination addresses moved
/// between the two bridged subnets: a third octet of 0x4b becomes 0x4c and
/// the other way round, and a fourth octet of 1 becomes 2 and the other way
/// round.
pub open spec fn readdress_ipv4(p: Seq<u8>) -> Seq<u8> {
    p.update(14, exchange(p[14], 0x4b, 0x4c)).update(18, exchange(p[18], 0x4b, 0x4c)).update(
        15,
        exchange(p[15], 0x01, 0x02),
    ).update(19, exchange(p[19], 0x01, 0x02))
}

/// The TCP segment of the readdressed datagram `r` as it is forwarded: for
/// protocol 6 with its checksum computed anew over the new addresses,
/// otherwise as it is.
pub open spec fn forwarded_segment(r: Seq<u8>) -> Seq<u8> {
    let seg = r.subrange(20, r.len() as int);
    if r[9] == 0x06 {
        with_tcp_checksum(r.subrange(12, 16), r.subrange(16, 20), seg)
    } else {
        seg
    }
}

/// The readdressed datagram with its header checksum, and for TCP its
/// segment checksum, computed anew.
pub open spec fn forwarded_ipv4_payload(p: Seq<u8>) -> Seq<u8> {
    let r = readdress_ipv4(p);
    with_ipv4_checksum(r.subrange(0, 20)) + forwarded_segment(r)
}

/// The reply to an ARP message `m` (a request or a reply alike) that came
/// in a frame from `src_mac` to `dst_mac`: the frame goes back to
/// `src_mac`, and the reply says that the asked-for address is at
/// `01:02:03:04:05:other_mac_id`.
pub open spec fn arp_reply_frame(dst_mac: Seq<u8>, src_mac: Seq<u8>, m: ArpMessage, other_mac_id: u8) -> Seq<u8> {
    serialize_ethernet(
        EthernetFrame::ARP {
            dst_mac: src_mac,
            src_mac: dst_mac,
            payload: serialize_arp(
                ArpMessage {
                    is_request: false,
                    sender_hardware_address: seq![1u8, 2u8, 3u8, 4u8, 5u8, other_mac_id],
                    sender_protocol_address: m.target_protocol_address,
                    target_hardware_address: m.sender_hardware_address,
                    target_protocol_address: m.sender_protocol_address,
                },
            ),
        },
    )
}

/// What is done with the frame `pkt`: IPv4 is readdressed and forwarded,
/// ARP is answered (or its refusal reported), anything else is ignored.
pub open spec fn response_to(pkt: Seq<u8>, other_mac_id: u8) -> ResponseView {
    match parse_ethernet(pkt) {
        EthernetFrame::IPv4 { dst_mac, src_mac, payload } => ResponseView::Forward {
            frame: serialize_ethernet(
                EthernetFrame::IPv4 { dst_mac, src_mac, payload: forwarded_ipv4_payload(payload) },
            ),
            carries_tcp: payload[9] == 0x06,
        },
        EthernetFrame::ARP { dst_mac, src_mac, payload } => match parse_arp(payload) {
            Ok(m) => ResponseView::Reply(arp_reply_frame(dst_mac, src_mac, m, other_mac_id)),
            Err(k) => ResponseView::ArpRejected(arp_error_message(k)),
        },
        _ => ResponseView::Ignore,
    }
}

/// An IPv4 frame must hold a full 20-byte header for it to be readdressed,
/// and a TCP datagram a segment of 20 to 65535 bytes for its checksum.
pub open spec fn can_respond_to(pkt: Seq<u8>) -> bool {
    parse_ethernet(pkt) is IPv4 ==> {
        &&& pkt.len() >= 34
        &&& pkt[23] == 0x06 ==> 54 <= pkt.len() <= 34 + 0xFFFF
    }
}

/// Readdressing is its own inverse: a datagram readdressed on its way from
/// one subnet to the other gets its addresses back when readdressed again.
pub proof fn lemma_readdress_twice(p: Seq<u8>)
    requires
        p.len() >= 20,
    ensures
        readdress_ipv4(readdress_ipv4(p)) == p,
{
    assert(readdress_ipv4(readdress_ipv4(p)) =~= p);
}

/// The frame that is forwarded is again an IPv4 frame between the same
/// MAC addresses, of the same length, whose header checksum verifies, and,
/// when it carries TCP, whose segment checksum verifies for the new addresses.
pub proof fn lemma_forwarded_frame_verifies(pkt: Seq<u8>, other_mac_id: u8)
    requires
        can_respond_to(pkt),
        parse_ethernet(pkt) is IPv4,
    ensures
        response_to(pkt, other_mac_id) matches ResponseView::Forward { frame, .. } && ({
            &&& frame.len() == pkt.len()
            &&& parse_ethernet(frame) matches EthernetFrame::IPv4 { dst_mac, src_mac, payload }
            &&& dst_mac == pkt.subrange(0, 6)
            &&& src_mac == pkt.subrange(6, 12)
            &&& crate::rfc_791::header_sum(payload.subrange(0, 20)) == 0xFFFF
            &&& payload[9] == 0x06 ==> crate::rfc_793::tcp_sum(
                payload.subrange(12, 16),
                payload.subrange(16, 20),
                payload.subrange(20, payload.len() as int),
            ) == 0xFFFF
        }),
{
    let payload = pkt.subrange(14, pkt.len() as int);
    let r = readdress_ipv4(payload);
    crate::rfc_791::lemma_checksummed_header_verifies(r.subrange(0, 20));
    crate::rfc_791::lemma_checksum_idempotent(r.subrange(0, 20));
    let fwd = forwarded_ipv4_payload(payload);
    let frame = serialize_ethernet(
        EthernetFrame::IPv4 { dst_mac: pkt.subrange(0, 6), src_mac: pkt.subrange(6, 12), payload: fwd },
    );
    assert(frame.subrange(0, 6) =~= pkt.subrange(0, 6));
    assert(frame.subrange(6, 12) =~= pkt.subrange(6, 12));
    assert(frame.subrange(12, 14) =~= seq![0x08u8, 0x00u8]);
    assert(frame.subrange(14, frame.len() as int) =~= fwd);
    assert(fwd.subrange(0, 20) =~= with_ipv4_checksum(r.subrange(0, 20)));
    let h = with_ipv4_checksum(r.subrange(0, 20));
    assert(fwd.subrange(20, fwd.len() as int) =~= forwarded_segment(r));
    assert(h.subrange(12, 16) =~= r.subrange(12, 16));
    assert(h.subrange(16, 20) =~= r.subrange(16, 20));
    assert(fwd.subrange(12, 16) =~= r.subrange(12, 16));
    assert(fwd.subrange(16, 20) =~= r.subrange(16, 20));
    assert(fwd[9] == r[9]);
    if r[9] == 0x06 {
        crate::rfc_793::lemma_tcp_checksummed_segment_verifies(
            r.subrange(12, 16),
            r.subrange(16, 20),
            r.subrange(20, r.len() as int),
        );
    }
}

/// Which frames get which response, by their bytes: a frame of 14 bytes or
/// more with EtherType 08 00 is forwarded, one with 08 06 gets a reply or a
/// refusal, and every other frame (shorter ones, IPv6, other EtherTypes)
/// is ignored.
pub proof fn lemma_response_kind_by_ether_type(pkt: Seq<u8>, other_mac_id: u8)
    ensures
        pkt.len() >= 14 && pkt[12] == 0x08 && pkt[13] == 0x00 ==> response_to(pkt, other_mac_id) is Forward,
        pkt.len() >= 14 && pkt[12] == 0x08 && pkt[13] == 0x06 ==> (response_to(pkt, other_mac_id) is Reply
            || response_to(pkt, other_mac_id) is ArpRejected),
        !(pkt.len() >= 14 && pkt[12] == 0x08 && (pkt[13] == 0x00 || pkt[13] == 0x06)) ==> response_to(
            pkt,
            other_mac_id,
        ) is Ignore,
{
    if pkt.len() >= 14 {
        let t = pkt.subrange(12, 14);
        assert(t[0] == pkt[12] && t[1] == pkt[13]);
    }
}

/// What forwarding changes in an IPv4 frame: only the third and fourth
/// octets of the two addresses (frame bytes 28, 29, 32, 33, where 0x4b and
/// 0x4c, and 1 and 2, trade places and any other value stays), the header
/// checksum (bytes 24 and 25) and, for TCP (protocol byte 23 is 6), the TCP
/// checksum (bytes 50 and 51). Every other byte, and the length, is kept.
pub proof fn lemma_forwarding_changes_only_addresses_and_checksums(pkt: Seq<u8>, other_mac_id: u8)
    requires
        can_respond_to(pkt),
        pkt.len() >= 14 && pkt[12] == 0x08 && pkt[13] == 0x00,
    ensures
        response_to(pkt, other_mac_id) matches ResponseView::Forward { frame, carries_tcp } && {
            &&& carries_tcp <==> pkt[23] == 0x06
            &&& frame.len() == pkt.len()
            &&& frame[28] == (if pkt[28] == 0x4b { 0x4cu8 } else if pkt[28] == 0x4c { 0x4bu8 } else { pkt[28] })
            &&& frame[32] == (if pkt[32] == 0x4b { 0x4cu8 } else if pkt[32] == 0x4c { 0x4bu8 } else { pkt[32] })
            &&& frame[29] == (if pkt[29] == 0x01 { 0x02u8 } else if pkt[29] == 0x02 { 0x01u8 } else { pkt[29] })
            &&& frame[33] == (if pkt[33] == 0x01 { 0x02u8 } else if pkt[33] == 0x02 { 0x01u8 } else { pkt[33] })
            &&& forall|i: int|
                0 <= i < pkt.len() && i != 24 && i != 25 && i != 28 && i != 29 && i != 32 && i != 33
                    && !(pkt[23] == 0x06 && (i == 50 || i == 51)) ==> #[trigger] frame[i] == pkt[i]
        },
{
    let payload = pkt.subrange(14, pkt.len() as int);
    assert(parse_ethernet(pkt) is IPv4) by {
        assert(pkt.subrange(12, 14)[0] == pkt[12] && pkt.subrange(12, 14)[1] == pkt[13]);
    }
    let r = readdress_ipv4(payload);
    let h = with_ipv4_checksum(r.subrange(0, 20));
    let seg = forwarded_segment(r);
    let fwd = forwarded_ipv4_payload(payload);
    let frame = serialize_ethernet(
        EthernetFrame::IPv4 { dst_mac: pkt.subrange(0, 6), src_mac: pkt.subrange(6, 12), payload: fwd },
    );
    if r[9] == 0x06 {
        crate::rfc_793::lemma_tcp_checksum_receiver_check(
            r.subrange(12, 16),
            r.subrange(16, 20),
            r.subrange(20, r.len() as int),
        );
    }
    assert forall|i: int|
        0 <= i < pkt.len() && i != 24 && i != 25 && i != 28 && i != 29 && i != 32 && i != 33
            && !(pkt[23] == 0x06 && (i == 50 || i == 51)) implies #[trigger] frame[i] == pkt[i] by {
        if i < 14 {
            if i < 6 {
                assert(frame[i] == pkt.subrange(0, 6)[i]);
            } else if i < 12 {
                assert(frame[i] == pkt.subrange(6, 12)[i - 6]);
            }
        } else if i < 34 {
            assert(frame[i] == fwd[i - 14]);
            assert(fwd[i - 14] == h[i - 14]);
            assert(h[i - 14] == r[i - 14]);
        } else {
            assert(frame[i] == fwd[i - 14]);
            assert(fwd[i - 14] == seg[i - 34]);
            assert(r.subrange(20, r.len() as int)[i - 34] == r[i - 14]);
        }
    }
    assert(frame[28] == h[14] && frame[29] == h[15] && frame[32] == h[18] && frame[33] == h[19]);
}

/// The answer to an ARP message (a request or a reply alike) reads back as
/// an ARP reply sent to its sender, saying that the asked-for protocol address is at
/// `01:02:03:04:05:other_mac_id`.
pub proof fn lemma_arp_reply_answers(pkt: Seq<u8>, other_mac_id: u8)
    requires
        parse_ethernet(pkt) matches EthernetFrame::ARP { payload, .. } && parse_arp(payload) is Ok,
    ensures
        response_to(pkt, other_mac_id) matches ResponseView::Reply(frame) && ({
            let asked = parse_arp(pkt.subrange(14, pkt.len() as int))->Ok_0;
            &&& parse_ethernet(frame) matches EthernetFrame::ARP { dst_mac, src_mac, payload }
            &&& dst_mac == pkt.subrange(6, 12)
            &&& src_mac == pkt.subrange(0, 6)
            &&& parse_arp(payload) matches Ok(m)
            &&& !m.is_request
            &&& m.sender_hardware_address == seq![1u8, 2u8, 3u8, 4u8, 5u8, other_mac_id]
            &&& m.sender_protocol_address == asked.target_protocol_address
            &&& m.target_hardware_address == asked.sender_hardware_address
            &&& m.target_protocol_address == asked.sender_protocol_address
        }),
{
    let asked = parse_arp(pkt.subrange(14, pkt.len() as int))->Ok_0;
    let answer = ArpMessage {
        is_request: false,
        sender_hardware_address: seq![1u8, 2u8, 3u8, 4u8, 5u8, other_mac_id],
        sender_protocol_address: asked.target_protocol_address,
        target_hardware_address: asked.sender_hardware_address,
        target_protocol_address: asked.sender_protocol_address,
    };
    let b = serialize_arp(answer);
    assert(b.subrange(0, 6) =~= super::arp_payload::arp_fixed_header());
    assert(b.subrange(8, 14) =~= answer.sender_hardware_address);
    assert(b.subrange(14, 18) =~= answer.sender_protocol_address);
    assert(b.subrange(18, 24) =~= answer.target_hardware_address);
    assert(b.subrange(24, 28) =~= answer.target_protocol_address);
    let frame = arp_reply_frame(pkt.subrange(0, 6), pkt.subrange(6, 12), asked, other_mac_id);
    assert(frame.subrange(0, 6) =~= pkt.subrange(6, 12));
    assert(frame.subrange(6, 12) =~= pkt.subrange(0, 6));
    assert(frame.subrange(12, 14) =~= seq![0x08u8, 0x06u8]);
    assert(frame.subrange(14, frame.len() as int) =~= b);
}

fn exchange_at(payload: &mut Vec<u8>, idx: usize, x: u8, y: u8)
    requires
        idx < old(payload)@.len(),
    ensures
        final(payload)@ == old(payload)@.update(idx as int, exchange(old(payload)@[idx as int], x, y)),
{
    if payload[idx] == x {
        payload.set(idx, y);
    } else if payload[idx] == y {
        payload.set(idx, x);
    }
}

/// Decides what to do with the frame `pkt` read from one end of the
/// bridge; see [`response_to`]. `other_mac_id` is the last byte of the MAC
/// address given out for the other end.
pub fn respond_to_packet(pkt: &[u8], other_mac_id: u8) -> (r: PacketResponse)
    requires
        can_respond_to(pkt@),
    ensures
        r@ == response_to(pkt@, other_mac_id),
{
    match EthernetPacket::from_slice(pkt) {
        EthernetPacket::IPv4 { dst_mac, src_mac, payload } => {
            let mut payload = payload;
            let ghost original = payload@;
            exchange_at(&mut payload, 14, 0x4b, 0x4c);
            exchange_at(&mut payload, 18, 0x4b, 0x4c);
            exchange_at(&mut payload, 15, 0x01, 0x02);
            exchange_at(&mut payload, 19, 0x01, 0x02);
            assert(payload@ =~= readdress_ipv4(original));
            let carries_tcp = payload[9] == 0x06;
            let mut rest = payload.split_off(20);
            let ghost r = readdress_ipv4(original);
            assert(rest@ =~= r.subrange(20, r.len() as int));
            assert(payload@ =~= r.subrange(0, 20));
            if carries_tcp {
                let src_addr = [payload[12], payload[13], payload[14], payload[15]];
                let dst_addr = [payload[16], payload[17], payload[18], payload[19]];
                assert(src_addr@ =~= r.subrange(12, 16));
                assert(dst_addr@ =~= r.subrange(16, 20));
                let tcp = tcp_checksum(&src_addr, &dst_addr, rest.as_mut_slice());
                assert(tcp is Ok);
                assert(r[9] == 0x06);
            } else {
                assert(r[9] != 0x06);
            }
            assert(rest@ =~= forwarded_segment(r));
            let checked = ipv4_header_checksum(payload.as_mut_slice());
            assert(checked is Ok);
            payload.append(&mut rest);
            assert(payload@ =~= forwarded_ipv4_payload(original));
            let frame = EthernetPacket::IPv4 { dst_mac, src_mac, payload }.to_bytes();
            PacketResponse::Forward { frame, carries_tcp }
        },
        EthernetPacket::ARP { dst_mac, src_mac, payload } => {
            match AddressResolutionProtocolPayload::from_slice(payload.as_slice()) {
                Ok(arp) => {
                    let reply = AddressResolutionProtocolPayload {
                        is_request: false,
                        sender_hardware_address: [1, 2, 3, 4, 5, other_mac_id],
                        sender_protocol_address: arp.target_protocol_address,
                        target_hardware_address: arp.sender_hardware_address,
                        target_protocol_address: arp.sender_protocol_address,
                    };
                    let frame = EthernetPacket::ARP {
                        dst_mac: src_mac,
                        src_mac: dst_mac,
                        payload: reply.to_bytes(),
                    }.to_bytes();
                    assert(reply.sender_hardware_address@ =~= seq![1u8, 2u8, 3u8, 4u8, 5u8, other_mac_id]);
                    PacketResponse::Reply(frame)
                },
                Err(e) => PacketResponse::ArpRejected(e),
            }
        },
        _ => PacketResponse::Ignore,
    }
}

} // verus!
