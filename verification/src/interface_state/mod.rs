mod arp_payload;
mod ethernet_packet;
mod response;

pub use self::ethernet_packet::{
    EthernetFrame, EthernetPacket, copied_from, ethernet_header_len, lemma_ethernet_bytes_by_offset,
    lemma_ethernet_fields_by_offset, is_ether_type,
    is_known_ether_type, lemma_parse_then_serialize_ethernet, lemma_serialize_then_parse_ethernet,
    parse_ethernet, serialize_ethernet,
};
pub use self::arp_payload::{
    AddressResolutionProtocolPayload, ArpMessage, ArpParseError, arp_error_message,
    arp_fixed_header, arp_message_len, lemma_arp_bytes_by_offset, lemma_arp_fields_by_offset,
    lemma_arp_refusals_by_offset,
    lemma_parse_then_serialize_arp,
    lemma_serialize_then_parse_arp, parse_arp, serialize_arp,
};
pub use self::response::{
    PacketResponse, ResponseView, arp_reply_frame, can_respond_to, exchange,
    forwarded_ipv4_payload, forwarded_segment, lemma_arp_reply_answers, lemma_forwarded_frame_verifies,
    lemma_forwarding_changes_only_addresses_and_checksums, lemma_response_kind_by_ether_type,
    lemma_readdress_twice, readdress_ipv4, respond_to_packet, response_to,
};
