use vstd::prelude::*;
use crate::utils::{append_bytes, copy_tail, get_2_starting_at, get_6_starting_at};

verus! {

broadcast use vstd::array::group_array_axioms;

/// An Ethernet II frame, sorted by its EtherType.
#[derive(Debug, Clone)]
pub enum EthernetPacket {
    ARP { dst_mac: [u8; 6], src_mac: [u8; 6], payload: Vec<u8> },
    IPv4 { dst_mac: [u8; 6], src_mac: [u8; 6], payload: Vec<u8> },
    IPv6 { dst_mac: [u8; 6], src_mac: [u8; 6], payload: Vec<u8> },
    Generic { dst_mac: [u8; 6], src_mac: [u8; 6], ether_type: [u8; 2], payload: Vec<u8> },
    /// A frame too short to hold the two addresses and the EtherType.
    Invalid(Vec<u8>),
}

/// The mathematical value of an [`EthernetPacket`]: every field as a byte
/// sequence.
pub enum EthernetFrame {
    ARP { dst_mac: Seq<u8>, src_mac: Seq<u8>, payload: Seq<u8> },
    IPv4 { dst_mac: Seq<u8>, src_mac: Seq<u8>, payload: Seq<u8> },
    IPv6 { dst_mac: Seq<u8>, src_mac: Seq<u8>, payload: Seq<u8> },
    Generic { dst_mac: Seq<u8>, src_mac: Seq<u8>, ether_type: Seq<u8>, payload: Seq<u8> },
    Invalid(Seq<u8>),
}

impl View for EthernetPacket {
    type V = EthernetFrame;

    open spec fn view(&self) -> EthernetFrame {
        match self {
            EthernetPacket::ARP { dst_mac, src_mac, payload } => EthernetFrame::ARP {
                dst_mac: dst_mac@,
                src_mac: src_mac@,
                payload: payload@,
            },
            EthernetPacket::IPv4 { dst_mac, src_mac, payload } => EthernetFrame::IPv4 {
                dst_mac: dst_mac@,
                src_mac: src_mac@,
                payload: payload@,
            },
            EthernetPacket::IPv6 { dst_mac, src_mac, payload } => EthernetFrame::IPv6 {
                dst_mac: dst_mac@,
                src_mac: src_mac@,
                payload: payload@,
            },
            EthernetPacket::Generic { dst_mac, src_mac, ether_type, payload } =>
                EthernetFrame::Generic {
                dst_mac: dst_mac@,
                src_mac: src_mac@,
                ether_type: ether_type@,
                payload: payload@,
            },
            EthernetPacket::Invalid(v) => EthernetFrame::Invalid(v@),
        }
    }
}

/// Length of the Ethernet II header: two MAC addresses and the EtherType.
pub open spec fn ethernet_header_len() -> int {
    14
}

pub open spec fn is_ether_type(t: Seq<u8>, hi: u8, lo: u8) -> bool {
    t.len() == 2 && t[0] == hi && t[1] == lo
}

/// The EtherTypes that have a variant of their own: IPv4, ARP and IPv6.
pub open spec fn is_known_ether_type(t: Seq<u8>) -> bool {
    is_ether_type(t, 0x08, 0x00) || is_ether_type(t, 0x08, 0x06) || is_ether_type(t, 0x86, 0xDD)
}

/// How a received frame is read. A frame shorter than the header is
/// `Invalid` and keeps all its bytes. A frame of a known EtherType keeps the
/// bytes after the header as payload; one of any other EtherType keeps, as
/// payload, everything from byte 10 on.
pub open spec fn parse_ethernet(data: Seq<u8>) -> EthernetFrame {
    if data.len() < ethernet_header_len() {
        EthernetFrame::Invalid(data)
    } else {
        let dst_mac = data.subrange(0, 6);
        let src_mac = data.subrange(6, 12);
        let ether_type = data.subrange(12, 14);
        let payload = data.subrange(14, data.len() as int);
        if is_ether_type(ether_type, 0x08, 0x00) {
            EthernetFrame::IPv4 { dst_mac, src_mac, payload }
        } else if is_ether_type(ether_type, 0x08, 0x06) {
            EthernetFrame::ARP { dst_mac, src_mac, payload }
        } else if is_ether_type(ether_type, 0x86, 0xDD) {
            EthernetFrame::IPv6 { dst_mac, src_mac, payload }
        } else {
            EthernetFrame::Generic {
                dst_mac,
                src_mac,
                ether_type,
                payload: data.subrange(10, data.len() as int),
            }
        }
    }
}

/// The bytes of a frame: destination, source, EtherType, payload; an
/// `Invalid` frame is its bytes.
pub open spec fn serialize_ethernet(f: EthernetFrame) -> Seq<u8> {
    match f {
        EthernetFrame::IPv4 { dst_mac, src_mac, payload } => dst_mac + src_mac + seq![0x08u8, 0x00u8]
            + payload,
        EthernetFrame::ARP { dst_mac, src_mac, payload } => dst_mac + src_mac + seq![0x08u8, 0x06u8]
            + payload,
        EthernetFrame::IPv6 { dst_mac, src_mac, payload } => dst_mac + src_mac + seq![0x86u8, 0xDDu8]
            + payload,
        EthernetFrame::Generic { dst_mac, src_mac, ether_type, payload } => dst_mac + src_mac
            + ether_type + payload,
        EthernetFrame::Invalid(v) => v,
    }
}

/// Writing out a received frame gives back the bytes it was read from,
/// unless the frame has a header and an EtherType other than IPv4, ARP and
/// IPv6: such a frame keeps bytes 10 to 13 in its payload as well as in its
/// header, and so comes out four bytes longer.
pub proof fn lemma_parse_then_serialize_ethernet(data: Seq<u8>)
    requires
        !(data.len() >= ethernet_header_len() && !is_known_ether_type(data.subrange(12, 14))),
    ensures
        serialize_ethernet(parse_ethernet(data)) == data,
{
    if data.len() >= ethernet_header_len() {
        let t = data.subrange(12, 14);
        if is_ether_type(t, 0x08, 0x00) {
            assert(t =~= seq![0x08u8, 0x00u8]);
        } else if is_ether_type(t, 0x08, 0x06) {
            assert(t =~= seq![0x08u8, 0x06u8]);
        } else {
            assert(t =~= seq![0x86u8, 0xDDu8]);
        }
        assert(serialize_ethernet(parse_ethernet(data)) =~= data);
    }
}

/// Reading the bytes of an IPv4, ARP or IPv6 frame gives back the same
/// frame, and so does reading an invalid frame shorter than the header.
/// (A `Generic` frame reads back with four more payload bytes, and a longer
/// invalid frame reads back as a frame of its EtherType.)
pub proof fn lemma_serialize_then_parse_ethernet(p: EthernetPacket)
    requires
        !(p is Generic),
        p matches EthernetPacket::Invalid(v) ==> v@.len() < ethernet_header_len(),
    ensures
        parse_ethernet(serialize_ethernet(p@)) == p@,
{
    let b = serialize_ethernet(p@);
    match p {
        EthernetPacket::IPv4 { dst_mac, src_mac, payload } => {
            assert(b.subrange(0, 6) =~= dst_mac@);
            assert(b.subrange(6, 12) =~= src_mac@);
            assert(b.subrange(14, b.len() as int) =~= payload@);
        },
        EthernetPacket::ARP { dst_mac, src_mac, payload } => {
            assert(b.subrange(0, 6) =~= dst_mac@);
            assert(b.subrange(6, 12) =~= src_mac@);
            assert(b.subrange(14, b.len() as int) =~= payload@);
        },
        EthernetPacket::IPv6 { dst_mac, src_mac, payload } => {
            assert(b.subrange(0, 6) =~= dst_mac@);
            assert(b.subrange(6, 12) =~= src_mac@);
            assert(b.subrange(14, b.len() as int) =~= payload@);
        },
        _ => {},
    }
}

/// `part` is the `len` bytes of `data` that start at `start`, byte by byte.
pub open spec fn copied_from(part: Seq<u8>, data: Seq<u8>, start: int, len: int) -> bool {
    &&& part.len() == len
    &&& forall|i: int| 0 <= i < len ==> part[i] == #[trigger] data[start + i]
}

/// Where each field of a frame that was read comes from: a frame of fewer
/// than 14 bytes is invalid and keeps them all; otherwise the destination
/// is bytes 0 to 5, the source bytes 6 to 11, and bytes 12 and 13 choose the
/// variant: 08 00 is IPv4, 08 06 ARP and 86 DD IPv6, each with the bytes
/// from 14 on as payload, and any other pair is `Generic` with that pair as
/// EtherType and the bytes from 10 on as payload.
pub proof fn lemma_ethernet_fields_by_offset(data: Seq<u8>)
    ensures
        data.len() < 14 ==> parse_ethernet(data) == EthernetFrame::Invalid(data),
        data.len() >= 14 ==> match parse_ethernet(data) {
            EthernetFrame::IPv4 { dst_mac, src_mac, payload } => {
                &&& data[12] == 0x08 && data[13] == 0x00
                &&& copied_from(dst_mac, data, 0, 6)
                &&& copied_from(src_mac, data, 6, 6)
                &&& copied_from(payload, data, 14, data.len() - 14)
            },
            EthernetFrame::ARP { dst_mac, src_mac, payload } => {
                &&& data[12] == 0x08 && data[13] == 0x06
                &&& copied_from(dst_mac, data, 0, 6)
                &&& copied_from(src_mac, data, 6, 6)
                &&& copied_from(payload, data, 14, data.len() - 14)
            },
            EthernetFrame::IPv6 { dst_mac, src_mac, payload } => {
                &&& data[12] == 0x86 && data[13] == 0xDD
                &&& copied_from(dst_mac, data, 0, 6)
                &&& copied_from(src_mac, data, 6, 6)
                &&& copied_from(payload, data, 14, data.len() - 14)
            },
            EthernetFrame::Generic { dst_mac, src_mac, ether_type, payload } => {
                &&& !(data[12] == 0x08 && data[13] == 0x00)
                &&& !(data[12] == 0x08 && data[13] == 0x06)
                &&& !(data[12] == 0x86 && data[13] == 0xDD)
                &&& copied_from(dst_mac, data, 0, 6)
                &&& copied_from(src_mac, data, 6, 6)
                &&& copied_from(ether_type, data, 12, 2)
                &&& copied_from(payload, data, 10, data.len() - 10)
            },
            EthernetFrame::Invalid(_) => false,
        },
{
    if data.len() >= 14 {
        let t = data.subrange(12, 14);
        assert(t[0] == data[12] && t[1] == data[13]);
    }
}

/// Where each field of a frame is written: destination in bytes 0 to 5,
/// source in bytes 6 to 11, the EtherType (08 00 for IPv4, 08 06 for ARP,
/// 86 DD for IPv6, its own for `Generic`) in bytes 12 and 13, and the
/// payload from byte 14 on; an invalid frame is written as its bytes.
pub proof fn lemma_ethernet_bytes_by_offset(p: EthernetPacket)
    ensures
        ({
            let b = serialize_ethernet(p@);
            match p {
                EthernetPacket::Invalid(v) => b == v@,
                EthernetPacket::IPv4 { dst_mac, src_mac, payload } => {
                    &&& b[12] == 0x08 && b[13] == 0x00
                    &&& copied_from(dst_mac@, b, 0, 6) && copied_from(src_mac@, b, 6, 6)
                    &&& copied_from(payload@, b, 14, payload@.len() as int)
                    &&& b.len() == 14 + payload@.len()
                },
                EthernetPacket::ARP { dst_mac, src_mac, payload } => {
                    &&& b[12] == 0x08 && b[13] == 0x06
                    &&& copied_from(dst_mac@, b, 0, 6) && copied_from(src_mac@, b, 6, 6)
                    &&& copied_from(payload@, b, 14, payload@.len() as int)
                    &&& b.len() == 14 + payload@.len()
                },
                EthernetPacket::IPv6 { dst_mac, src_mac, payload } => {
                    &&& b[12] == 0x86 && b[13] == 0xDD
                    &&& copied_from(dst_mac@, b, 0, 6) && copied_from(src_mac@, b, 6, 6)
                    &&& copied_from(payload@, b, 14, payload@.len() as int)
                    &&& b.len() == 14 + payload@.len()
                },
                EthernetPacket::Generic { dst_mac, src_mac, ether_type, payload } => {
                    &&& b[12] == ether_type[0] && b[13] == ether_type[1]
                    &&& copied_from(dst_mac@, b, 0, 6) && copied_from(src_mac@, b, 6, 6)
                    &&& copied_from(payload@, b, 14, payload@.len() as int)
                    &&& b.len() == 14 + payload@.len()
                },
            }
        }),
{
}

impl EthernetPacket {
    /// Reads a received frame; see [`parse_ethernet`].
    pub fn from_slice(data: &[u8]) -> (r: Self)
        ensures
            r@ == parse_ethernet(data@),
    {
        assert(data@.subrange(0, data@.len() as int) =~= data@);
        let dst_mac = match get_6_starting_at(data, 0) {
            Some(mac) => mac,
            None => {
                return Self::Invalid(copy_tail(data, 0));
            },
        };
        let src_mac = match get_6_starting_at(data, 6) {
            Some(mac) => mac,
            None => {
                return Self::Invalid(copy_tail(data, 0));
            },
        };
        let ether_type = get_2_starting_at(data, 12);
        match ether_type {
            Some(t) => {
                if t[0] == 0x08 && t[1] == 0x00 {
                    Self::IPv4 { dst_mac, src_mac, payload: copy_tail(data, 14) }
                } else if t[0] == 0x08 && t[1] == 0x06 {
                    Self::ARP { dst_mac, src_mac, payload: copy_tail(data, 14) }
                } else if t[0] == 0x86 && t[1] == 0xDD {
                    Self::IPv6 { dst_mac, src_mac, payload: copy_tail(data, 14) }
                } else {
                    Self::Generic { dst_mac, src_mac, ether_type: t, payload: copy_tail(data, 10) }
                }
            },
            None => Self::Invalid(copy_tail(data, 0)),
        }
    }

    /// The bytes of the frame; see [`serialize_ethernet`].
    pub fn to_bytes(&self) -> (out: Vec<u8>)
        ensures
            out@ == serialize_ethernet(self@),
    {
        match self {
            EthernetPacket::IPv4 { dst_mac, src_mac, payload } => {
                Self::header_then_payload(dst_mac, src_mac, [0x08, 0x00], payload)
            },
            EthernetPacket::ARP { dst_mac, src_mac, payload } => {
                Self::header_then_payload(dst_mac, src_mac, [0x08, 0x06], payload)
            },
            EthernetPacket::IPv6 { dst_mac, src_mac, payload } => {
                Self::header_then_payload(dst_mac, src_mac, [0x86, 0xDD], payload)
            },
            EthernetPacket::Generic { dst_mac, src_mac, ether_type, payload } => {
                Self::header_then_payload(dst_mac, src_mac, *ether_type, payload)
            },
            EthernetPacket::Invalid(v) => v.clone(),
        }
    }

    fn header_then_payload(dst_mac: &[u8; 6], src_mac: &[u8; 6], ether_type: [u8; 2], payload: &Vec<u8>) -> (out: Vec<u8>)
        ensures
            out@ == dst_mac@ + src_mac@ + ether_type@ + payload@,
    {
        let mut out: Vec<u8> = Vec::new();
        append_bytes(&mut out, dst_mac.as_slice());
        append_bytes(&mut out, src_mac.as_slice());
        append_bytes(&mut out, ether_type.as_slice());
        append_bytes(&mut out, payload.as_slice());
        assert(out@ =~= dst_mac@ + src_mac@ + ether_type@ + payload@);
        out
    }
}

} // verus!
