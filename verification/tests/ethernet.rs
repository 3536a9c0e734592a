use bifrost::interface_state::EthernetPacket;

const DST: [u8; 6] = [1, 2, 3, 4, 5, 6];
const SRC: [u8; 6] = [0xa, 0xb, 0xc, 0xd, 0xe, 0xf];

fn frame(ether_type: [u8; 2], payload: &[u8]) -> Vec<u8> {
    let mut v = Vec::new();
    v.extend_from_slice(&DST);
    v.extend_from_slice(&SRC);
    v.extend_from_slice(&ether_type);
    v.extend_from_slice(payload);
    v
}

#[test]
fn ethernet_reads_ipv4_arp_ipv6() {
    let p = [9u8, 8, 7];
    match EthernetPacket::from_slice(&frame([0x08, 0x00], &p)) {
        EthernetPacket::IPv4 { dst_mac, src_mac, payload } => {
            assert_eq!(dst_mac, DST);
            assert_eq!(src_mac, SRC);
            assert_eq!(payload, p.to_vec());
        }
        other => panic!("expected IPv4, got {:?}", other),
    }
    match EthernetPacket::from_slice(&frame([0x08, 0x06], &p)) {
        EthernetPacket::ARP { dst_mac, src_mac, payload } => {
            assert_eq!(dst_mac, DST);
            assert_eq!(src_mac, SRC);
            assert_eq!(payload, p.to_vec());
        }
        other => panic!("expected ARP, got {:?}", other),
    }
    match EthernetPacket::from_slice(&frame([0x86, 0xDD], &[])) {
        EthernetPacket::IPv6 { dst_mac, src_mac, payload } => {
            assert_eq!(dst_mac, DST);
            assert_eq!(src_mac, SRC);
            assert!(payload.is_empty());
        }
        other => panic!("expected IPv6, got {:?}", other),
    }
}

#[test]
fn ethernet_generic_payload_starts_at_byte_10() {
    let data = frame([0x88, 0xcc], &[0x55]);
    match EthernetPacket::from_slice(&data) {
        EthernetPacket::Generic { dst_mac, src_mac, ether_type, payload } => {
            assert_eq!(dst_mac, DST);
            assert_eq!(src_mac, SRC);
            assert_eq!(ether_type, [0x88, 0xcc]);
            assert_eq!(payload, vec![0x0e, 0x0f, 0x88, 0xcc, 0x55]);
        }
        other => panic!("expected Generic, got {:?}", other),
    }
}

#[test]
fn ethernet_short_frames_are_invalid() {
    for len in [0usize, 5, 6, 11, 12, 13] {
        let data: Vec<u8> = (0..len as u8).collect();
        match EthernetPacket::from_slice(&data) {
            EthernetPacket::Invalid(v) => assert_eq!(v, data),
            other => panic!("expected Invalid, got {:?}", other),
        }
    }
}

#[test]
fn ethernet_to_bytes_layout() {
    let p = EthernetPacket::IPv4 { dst_mac: DST, src_mac: SRC, payload: vec![1, 2] };
    assert_eq!(p.to_bytes(), frame([0x08, 0x00], &[1, 2]));
    let p = EthernetPacket::ARP { dst_mac: DST, src_mac: SRC, payload: vec![3] };
    assert_eq!(p.to_bytes(), frame([0x08, 0x06], &[3]));
    let p = EthernetPacket::IPv6 { dst_mac: DST, src_mac: SRC, payload: vec![] };
    assert_eq!(p.to_bytes(), frame([0x86, 0xDD], &[]));
    let p = EthernetPacket::Generic { dst_mac: DST, src_mac: SRC, ether_type: [0x12, 0x34], payload: vec![7] };
    assert_eq!(p.to_bytes(), frame([0x12, 0x34], &[7]));
    let p = EthernetPacket::Invalid(vec![4, 5, 6]);
    assert_eq!(p.to_bytes(), vec![4, 5, 6]);
}

#[test]
fn ethernet_bytes_round_trip_for_known_types() {
    for t in [[0x08u8, 0x00], [0x08, 0x06], [0x86, 0xDD]] {
        let data = frame(t, &[1, 2, 3, 4]);
        assert_eq!(EthernetPacket::from_slice(&data).to_bytes(), data);
    }
    let short = vec![1u8, 2, 3];
    assert_eq!(EthernetPacket::from_slice(&short).to_bytes(), short);
}

#[test]
fn ethernet_generic_does_not_round_trip() {
    let data = frame([0x12, 0x34], &[1]);
    let again = EthernetPacket::from_slice(&data).to_bytes();
    assert_eq!(again.len(), data.len() + 4);
}

#[test]
fn ethernet_packet_round_trip() {
    let p = EthernetPacket::ARP { dst_mac: SRC, src_mac: DST, payload: vec![1, 2, 3] };
    match EthernetPacket::from_slice(&p.to_bytes()) {
        EthernetPacket::ARP { dst_mac, src_mac, payload } => {
            assert_eq!(dst_mac, SRC);
            assert_eq!(src_mac, DST);
            assert_eq!(payload, vec![1, 2, 3]);
        }
        other => panic!("expected ARP, got {:?}", other),
    }
}
