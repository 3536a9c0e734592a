use bifrost::interface_state::AddressResolutionProtocolPayload;

fn request_bytes() -> Vec<u8> {
    vec![
        0x00, 0x01, 0x08, 0x00, 0x06, 0x04, 0x00, 0x01, // header, request
        0x0a, 0x0b, 0x0c, 0x0d, 0x0e, 0x00, // sender MAC
        192, 168, 75, 1, // sender IP
        0, 0, 0, 0, 0, 0, // target MAC
        192, 168, 75, 2, // target IP
    ]
}

#[test]
fn arp_reads_request() {
    let arp = AddressResolutionProtocolPayload::from_slice(&request_bytes()).unwrap();
    assert!(arp.is_request);
    assert_eq!(arp.sender_hardware_address, [0x0a, 0x0b, 0x0c, 0x0d, 0x0e, 0x00]);
    assert_eq!(arp.sender_protocol_address, [192, 168, 75, 1]);
    assert_eq!(arp.target_hardware_address, [0; 6]);
    assert_eq!(arp.target_protocol_address, [192, 168, 75, 2]);
}

#[test]
fn arp_reads_reply_and_ignores_trailing_bytes() {
    let mut data = request_bytes();
    data[7] = 2;
    data.extend_from_slice(&[0xee; 18]);
    let arp = AddressResolutionProtocolPayload::from_slice(&data).unwrap();
    assert!(!arp.is_request);
    assert_eq!(arp.to_bytes(), data[..28].to_vec());
}

#[test]
fn arp_too_short() {
    let data = request_bytes();
    for len in [0usize, 1, 5, 6, 7, 8, 20, 27] {
        let r = AddressResolutionProtocolPayload::from_slice(&data[..len]);
        assert_eq!(r.err(), Some("Too few bytes for ARP"), "length {}", len);
    }
}

#[test]
fn arp_unexpected_parameters() {
    for idx in 0..6 {
        let mut data = request_bytes();
        data[idx] ^= 0x10;
        let r = AddressResolutionProtocolPayload::from_slice(&data);
        assert_eq!(r.err(), Some("Unexpected parameters for ARP message"));
    }
    // The header is checked before the length of the rest.
    let mut data = request_bytes();
    data[4] = 0x08;
    assert_eq!(
        AddressResolutionProtocolPayload::from_slice(&data[..6]).err(),
        Some("Unexpected parameters for ARP message")
    );
}

#[test]
fn arp_unexpected_operation() {
    for op in [[0u8, 0], [0, 3], [1, 1], [0xff, 0x02]] {
        let mut data = request_bytes();
        data[6] = op[0];
        data[7] = op[1];
        assert_eq!(
            AddressResolutionProtocolPayload::from_slice(&data).err(),
            Some("Unexpected value in the operation field for ARP packet")
        );
    }
    // The operation is checked before the length of the addresses.
    let mut data = request_bytes();
    data[7] = 9;
    assert_eq!(
        AddressResolutionProtocolPayload::from_slice(&data[..8]).err(),
        Some("Unexpected value in the operation field for ARP packet")
    );
}

#[test]
fn arp_to_bytes_layout() {
    let arp = AddressResolutionProtocolPayload {
        is_request: false,
        sender_hardware_address: [1, 2, 3, 4, 5, 6],
        sender_protocol_address: [7, 8, 9, 10],
        target_hardware_address: [11, 12, 13, 14, 15, 16],
        target_protocol_address: [17, 18, 19, 20],
    };
    assert_eq!(
        arp.to_bytes(),
        vec![0, 1, 8, 0, 6, 4, 0, 2, 1, 2, 3, 4, 5, 6, 7, 8, 9, 10, 11, 12, 13, 14, 15, 16, 17, 18, 19, 20]
    );
}

#[test]
fn arp_round_trip() {
    let arp = AddressResolutionProtocolPayload {
        is_request: true,
        sender_hardware_address: [6, 5, 4, 3, 2, 1],
        sender_protocol_address: [10, 0, 0, 1],
        target_hardware_address: [0; 6],
        target_protocol_address: [10, 0, 0, 2],
    };
    let back = AddressResolutionProtocolPayload::from_slice(&arp.to_bytes()).unwrap();
    assert_eq!(back.is_request, arp.is_request);
    assert_eq!(back.sender_hardware_address, arp.sender_hardware_address);
    assert_eq!(back.sender_protocol_address, arp.sender_protocol_address);
    assert_eq!(back.target_hardware_address, arp.target_hardware_address);
    assert_eq!(back.target_protocol_address, arp.target_protocol_address);
    assert_eq!(request_bytes(), AddressResolutionProtocolPayload::from_slice(&request_bytes()).unwrap().to_bytes());
}
