use vstd::prelude::*;
use crate::utils::{get_2_starting_at, get_4_starting_at, get_6_starting_at};
use crate::utils::append_bytes;

verus! {

broadcast use vstd::array::group_array_axioms;

/// An ARP message for IPv4 over Ethernet.
#[derive(Debug, Clone)]
pub struct AddressResolutionProtocolPayload {
    pub is_request: bool,
    pub sender_hardware_address: [u8; 6],
    pub sender_protocol_address: [u8; 4],
    pub target_hardware_address: [u8; 6],
    pub target_protocol_address: [u8; 4],
}

/// The mathematical value of an [`AddressResolutionProtocolPayload`].
pub struct ArpMessage {
    pub is_request: bool,
    pub sender_hardware_address: Seq<u8>,
    pub sender_protocol_address: Seq<u8>,
    pub target_hardware_address: Seq<u8>,
    pub target_protocol_address: Seq<u8>,
}

impl View for AddressResolutionProtocolPayload {
    type V = ArpMessage;

    open spec fn view(&self) -> ArpMessage {
        ArpMessage {
            is_request: self.is_request,
            sender_hardware_address: self.sender_hardware_address@,
            sender_protocol_address: self.sender_protocol_address@,
            target_hardware_address: self.target_hardware_address@,
            target_protocol_address: self.target_protocol_address@,
        }
    }
}

/// Why a byte sequence is not an ARP message for IPv4 over Ethernet.
pub enum ArpParseError {
    /// The message ends before a field that is still needed.
    TooShort,
    /// The hardware type is not Ethernet (1), the protocol type not IPv4
    /// (0x0800), or the address lengths not 6 and 4.
    UnexpectedParameters,
    /// The operation is neither request (1) nor reply (2).
    UnexpectedOperation,
}

/// The text with which each refusal is reported.
pub open spec fn arp_error_message(e: ArpParseError) -> Seq<char> {
    match e {
        ArpParseError::TooShort => "Too few bytes for ARP"@,
        ArpParseError::UnexpectedParameters => "Unexpected parameters for ARP message"@,
        ArpParseError::UnexpectedOperation => "Unexpected value in the operation field for ARP packet"@,
    }
}

/// Number of bytes an ARP message for IPv4 over Ethernet takes.
pub open spec fn arp_message_len() -> int {
    28
}

/// The fixed header: Ethernet hardware, IPv4 protocol, 6- and 4-byte addresses.
pub open spec fn arp_fixed_header() -> Seq<u8> {
    seq![0x00u8, 0x01u8, 0x08u8, 0x00u8, 0x06u8, 0x04u8]
}

/// How bytes are read as an ARP message. The checks come in the order of
/// the fields: the fixed header must be there and be right, then the
/// operation, then the four addresses. Bytes after the 28th are ignored.
pub open spec fn parse_arp(data: Seq<u8>) -> Result<ArpMessage, ArpParseError> {
    if data.len() < 6 {
        Err(ArpParseError::TooShort)
    } else if data.subrange(0, 6) != arp_fixed_header() {
        Err(ArpParseError::UnexpectedParameters)
    } else if data.len() < 8 {
        Err(ArpParseError::TooShort)
    } else if !(data[6] == 0 && (data[7] == 1 || data[7] == 2)) {
        Err(ArpParseError::UnexpectedOperation)
    } else if data.len() < arp_message_len() {
        Err(ArpParseError::TooShort)
    } else {
        Ok(
            ArpMessage {
                is_request: data[7] == 1,
                sender_hardware_address: data.subrange(8, 14),
                sender_protocol_address: data.subrange(14, 18),
                target_hardware_address: data.subrange(18, 24),
                target_protocol_address: data.subrange(24, 28),
            },
        )
    }
}

/// The bytes of an ARP message: the fixed header, the operation (1 for a
/// request, 2 for a reply), then the four addresses.
pub open spec fn serialize_arp(m: ArpMessage) -> Seq<u8> {
    arp_fixed_header() + (if m.is_request {
        seq![0x00u8, 0x01u8]
    } else {
        seq![0x00u8, 0x02u8]
    }) + m.sender_hardware_address + m.sender_protocol_address + m.target_hardware_address
        + m.target_protocol_address
}

/// Reading the bytes of an ARP message gives back the same message.
pub proof fn lemma_serialize_then_parse_arp(p: AddressResolutionProtocolPayload)
    ensures
        parse_arp(serialize_arp(p@)) == Ok::<ArpMessage, ArpParseError>(p@),
{
    let b = serialize_arp(p@);
    assert(b.subrange(0, 6) =~= arp_fixed_header());
    assert(b.subrange(8, 14) =~= p.sender_hardware_address@);
    assert(b.subrange(14, 18) =~= p.sender_protocol_address@);
    assert(b.subrange(18, 24) =~= p.target_hardware_address@);
    assert(b.subrange(24, 28) =~= p.target_protocol_address@);
}

/// Writing out a message that was read gives back the first 28 bytes it
/// was read from.
pub proof fn lemma_parse_then_serialize_arp(data: Seq<u8>)
    requires
        parse_arp(data) is Ok,
    ensures
        parse_arp(data) matches Ok(m) && serialize_arp(m) == data.subrange(0, arp_message_len()),
{
    let m = parse_arp(data)->Ok_0;
    assert(data.subrange(0, 6) == arp_fixed_header());
    assert(serialize_arp(m) =~= data.subrange(0, 28)) by {
        assert forall|i: int| 0 <= i < 6 implies data[i] == arp_fixed_header()[i] by {
            assert(data.subrange(0, 6)[i] == data[i]);
        }
    }
}

/// Where each field of a message that was read comes from: the operation
/// is byte 7 (1 for a request), the sender's hardware and protocol
/// addresses are bytes 8 to 13 and 14 to 17, the target's bytes 18 to 23
/// and 24 to 27. A message is read exactly when there are 28 bytes, the
/// first six are 00 01 08 00 06 04, and the operation is 00 01 or 00 02.
pub proof fn lemma_arp_fields_by_offset(data: Seq<u8>)
    ensures
        parse_arp(data) is Ok <==> {
            &&& data.len() >= 28
            &&& data[0] == 0x00 && data[1] == 0x01 && data[2] == 0x08
            &&& data[3] == 0x00 && data[4] == 0x06 && data[5] == 0x04
            &&& data[6] == 0x00 && (data[7] == 0x01 || data[7] == 0x02)
        },
        parse_arp(data) matches Ok(m) ==> {
            &&& m.is_request <==> data[7] == 0x01
            &&& m.sender_hardware_address.len() == 6
            &&& m.sender_protocol_address.len() == 4
            &&& m.target_hardware_address.len() == 6
            &&& m.target_protocol_address.len() == 4
            &&& forall|i: int| 0 <= i < 6 ==> m.sender_hardware_address[i] == data[8 + i]
            &&& forall|i: int| 0 <= i < 4 ==> m.sender_protocol_address[i] == data[14 + i]
            &&& forall|i: int| 0 <= i < 6 ==> m.target_hardware_address[i] == data[18 + i]
            &&& forall|i: int| 0 <= i < 4 ==> m.target_protocol_address[i] == data[24 + i]
        },
{
    if data.len() >= 6 {
        let h = data.subrange(0, 6);
        if h == arp_fixed_header() {
            assert(h[0] == data[0] && h[1] == data[1] && h[2] == data[2]);
            assert(h[3] == data[3] && h[4] == data[4] && h[5] == data[5]);
        }
        if data[0] == 0x00 && data[1] == 0x01 && data[2] == 0x08 && data[3] == 0x00 && data[4] == 0x06
            && data[5] == 0x04 {
            assert(h =~= arp_fixed_header());
        }
    }
}

/// Which refusal each malformed message gets, checked in the order of the
/// fields: fewer than 6 bytes is too short; a first six bytes other than
/// 00 01 08 00 06 04 are unexpected parameters; then fewer than 8 bytes is
/// too short; an operation other than 00 01 and 00 02 is an unexpected
/// operation; then fewer than 28 bytes is too short.
pub proof fn lemma_arp_refusals_by_offset(data: Seq<u8>)
    ensures
        ({
            let header_ok = data.len() >= 6 && data[0] == 0x00 && data[1] == 0x01 && data[2] == 0x08
                && data[3] == 0x00 && data[4] == 0x06 && data[5] == 0x04;
            let op_ok = data.len() >= 8 && data[6] == 0x00 && (data[7] == 0x01 || data[7] == 0x02);
            &&& data.len() < 6 ==> (parse_arp(data) matches Err(k) && arp_error_message(k)
                == "Too few bytes for ARP"@)
            &&& data.len() >= 6 && !header_ok ==> (parse_arp(data) matches Err(k)
                && arp_error_message(k) == "Unexpected parameters for ARP message"@)
            &&& header_ok && data.len() < 8 ==> (parse_arp(data) matches Err(k)
                && arp_error_message(k) == "Too few bytes for ARP"@)
            &&& header_ok && data.len() >= 8 && !op_ok ==> (parse_arp(data) matches Err(k)
                && arp_error_message(k) == "Unexpected value in the operation field for ARP packet"@)
            &&& header_ok && op_ok && data.len() < 28 ==> (parse_arp(data) matches Err(k)
                && arp_error_message(k) == "Too few bytes for ARP"@)
        }),
{
    lemma_arp_fields_by_offset(data);
    if data.len() >= 6 {
        let h = data.subrange(0, 6);
        if h == arp_fixed_header() {
            assert(h[0] == data[0] && h[1] == data[1] && h[2] == data[2]);
            assert(h[3] == data[3] && h[4] == data[4] && h[5] == data[5]);
        }
        if data[0] == 0x00 && data[1] == 0x01 && data[2] == 0x08 && data[3] == 0x00 && data[4] == 0x06
            && data[5] == 0x04 {
            assert(h =~= arp_fixed_header());
        }
    }
}

/// Where each field of a message is written: bytes 0 to 5 are
/// 00 01 08 00 06 04, bytes 6 and 7 are 00 01 for a request and 00 02
/// otherwise, then come the sender's hardware address (bytes 8 to 13) and
/// protocol address (14 to 17), the target's hardware address (18 to 23)
/// and protocol address (24 to 27).
pub proof fn lemma_arp_bytes_by_offset(p: AddressResolutionProtocolPayload)
    ensures
        ({
            let b = serialize_arp(p@);
            &&& b.len() == 28
            &&& b[0] == 0x00 && b[1] == 0x01 && b[2] == 0x08 && b[3] == 0x00
            &&& b[4] == 0x06 && b[5] == 0x04 && b[6] == 0x00
            &&& b[7] == (if p.is_request { 0x01u8 } else { 0x02u8 })
            &&& forall|i: int| 0 <= i < 6 ==> b[8 + i] == p.sender_hardware_address[i]
            &&& forall|i: int| 0 <= i < 4 ==> b[14 + i] == p.sender_protocol_address[i]
            &&& forall|i: int| 0 <= i < 6 ==> b[18 + i] == p.target_hardware_address[i]
            &&& forall|i: int| 0 <= i < 4 ==> b[24 + i] == p.target_protocol_address[i]
        }),
{
}

impl AddressResolutionProtocolPayload {
    /// Reads an ARP message; see [`parse_arp`] for when it is refused and
    /// [`arp_error_message`] for the text of each refusal.
    pub fn from_slice(data: &[u8]) -> (r: Result<Self, &'static str>)
        ensures
            r is Ok <==> parse_arp(data@) is Ok,
            r matches Ok(p) ==> parse_arp(data@) == Ok::<ArpMessage, ArpParseError>(p@),
            r matches Err(e) ==> (parse_arp(data@) matches Err(k) && e@ == arp_error_message(k)),
    {
        let htype = match get_2_starting_at(data, 0) {
            Some(b) => b,
            None => return Err("Too few bytes for ARP"),
        };
        let ptype = match get_2_starting_at(data, 2) {
            Some(b) => b,
            None => return Err("Too few bytes for ARP"),
        };
        let sizes = match get_2_starting_at(data, 4) {
            Some(b) => b,
            None => return Err("Too few bytes for ARP"),
        };
        assert(data@.len() >= 6);
        if !(htype[0] == 0x00 && htype[1] == 0x01) || !(ptype[0] == 0x08 && ptype[1] == 0x00) || !(
        sizes[0] == 0x06 && sizes[1] == 0x04) {
            assert(data@.subrange(0, 6) != arp_fixed_header()) by {
                if data@.subrange(0, 6) == arp_fixed_header() {
                    assert(data@.subrange(0, 6)[0] == data@[0]);
                }
            }
            return Err("Unexpected parameters for ARP message");
        }
        assert(data@.subrange(0, 6) =~= arp_fixed_header());
        let operation = match get_2_starting_at(data, 6) {
            Some(b) => b,
            None => return Err("Too few bytes for ARP"),
        };
        let is_request = if operation[0] == 0x00 && operation[1] == 0x01 {
            true
        } else if operation[0] == 0x00 && operation[1] == 0x02 {
            false
        } else {
            return Err("Unexpected value in the operation field for ARP packet");
        };
        let sender_hardware_address = match get_6_starting_at(data, 8) {
            Some(b) => b,
            None => return Err("Too few bytes for ARP"),
        };
        let sender_protocol_address = match get_4_starting_at(data, 14) {
            Some(b) => b,
            None => return Err("Too few bytes for ARP"),
        };
        let target_hardware_address = match get_6_starting_at(data, 18) {
            Some(b) => b,
            None => return Err("Too few bytes for ARP"),
        };
        let target_protocol_address = match get_4_starting_at(data, 24) {
            Some(b) => b,
            None => return Err("Too few bytes for ARP"),
        };
        Ok(
            Self {
                is_request,
                sender_hardware_address,
                sender_protocol_address,
                target_hardware_address,
                target_protocol_address,
            },
        )
    }

    /// The 28 bytes of the message; see [`serialize_arp`].
    pub fn to_bytes(&self) -> (out: Vec<u8>)
        ensures
            out@ == serialize_arp(self@),
    {
        let mut out: Vec<u8> = Vec::new();
        append_bytes(&mut out, [0x00u8, 0x01, 0x08, 0x00, 0x06, 0x04].as_slice());
        if self.is_request {
            append_bytes(&mut out, [0x00u8, 0x01].as_slice());
        } else {
            append_bytes(&mut out, [0x00u8, 0x02].as_slice());
        }
        append_bytes(&mut out, self.sender_hardware_address.as_slice());
        append_bytes(&mut out, self.sender_protocol_address.as_slice());
        append_bytes(&mut out, self.target_hardware_address.as_slice());
        append_bytes(&mut out, self.target_protocol_address.as_slice());
        assert(out@ =~= serialize_arp(self@));
        out
    }
}

} // verus!
