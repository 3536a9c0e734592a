use bifrost::interface_state::{respond_to_packet, PacketResponse};

const DST: [u8; 6] = [0xa, 0xb, 0xc, 0xd, 0xe, 0x0];
const SRC: [u8; 6] = [0x11, 0x22, 0x33, 0x44, 0x55, 0x66];

fn frame(ether_type: [u8; 2], payload: &[u8]) -> Vec<u8> {
    let mut v = Vec::new();
    v.extend_from_slice(&DST);
    v.extend_from_slice(&SRC);
    v.extend_from_slice(&ether_type);
    v.extend_from_slice(payload);
    v
}

fn ipv4_datagram(protocol: u8) -> Vec<u8> {
    vec![
        0x45, 0x00, 0x00, 0x54, 0x9f, 0xd4, 0x40, 0x00, 0x40, protocol, 0x81, 0x80, 0xc0, 0xa8, 0x4c, 0x02,
        0xc0, 0xa8, 0x4c, 0x01, 0xde, 0xad,
    ]
}

fn words_sum(h: &[u8]) -> u32 {
    let mut sum = 0u32;
    for i in 0..10 {
        sum += (h[2 * i] as u32) * 256 + h[2 * i + 1] as u32;
        while sum > 0xFFFF {
            sum = (sum & 0xFFFF) + (sum >> 16);
        }
    }
    sum
}

#[test]
fn ipv4_is_readdressed_and_forwarded() {
    let pkt = frame([0x08, 0x00], &ipv4_datagram(0x01));
    match respond_to_packet(&pkt, 1) {
        PacketResponse::Forward { frame: out, carries_tcp } => {
            assert!(!carries_tcp);
            assert_eq!(out.len(), pkt.len());
            assert_eq!(&out[..14], &pkt[..14]);
            let ip = &out[14..];
            assert_eq!(&ip[12..20], &[0xc0, 0xa8, 0x4b, 0x01, 0xc0, 0xa8, 0x4b, 0x02]);
            assert_eq!(&ip[20..], &[0xde, 0xad]);
            assert_eq!(words_sum(&ip[..20]), 0xFFFF);
            assert_ne!(&ip[10..12], &[0x81, 0x80]);
        }
        _ => panic!("expected a frame to forward"),
    }
}

#[test]
fn ipv4_readdressed_twice_is_unchanged() {
    // The datagram's header checksum is right, so forwarding it there and
    // back gives the same bytes.
    let pkt = frame([0x08, 0x00], &ipv4_datagram(0x01));
    let once = match respond_to_packet(&pkt, 0) {
        PacketResponse::Forward { frame, .. } => frame,
        _ => panic!("expected a frame to forward"),
    };
    let twice = match respond_to_packet(&once, 0) {
        PacketResponse::Forward { frame, .. } => frame,
        _ => panic!("expected a frame to forward"),
    };
    assert_eq!(twice, pkt);
}

#[test]
fn ipv4_other_octets_are_kept() {
    let mut dg = ipv4_datagram(0x01);
    dg[14] = 0x10;
    dg[15] = 0x03;
    dg[18] = 0x4c;
    dg[19] = 0x07;
    let pkt = frame([0x08, 0x00], &dg);
    match respond_to_packet(&pkt, 1) {
        PacketResponse::Forward { frame: out, .. } => {
            assert_eq!(&out[14 + 14..14 + 20], &[0x10, 0x03, 0xc0, 0xa8, 0x4b, 0x07]);
        }
        _ => panic!("expected a frame to forward"),
    }
}

fn tcp_words_sum(src: &[u8], dst: &[u8], seg: &[u8]) -> u32 {
    let mut bytes = Vec::new();
    bytes.extend_from_slice(src);
    bytes.extend_from_slice(dst);
    bytes.extend_from_slice(&[0, 6, (seg.len() >> 8) as u8, seg.len() as u8]);
    bytes.extend_from_slice(seg);
    if bytes.len() % 2 == 1 {
        bytes.push(0);
    }
    let mut total: u64 = 0;
    for w in bytes.chunks(2) {
        total += ((w[0] as u64) << 8) | w[1] as u64;
    }
    while total > 0xFFFF {
        total = (total & 0xFFFF) + (total >> 16);
    }
    total as u32
}

#[test]
fn ipv4_tcp_checksum_is_recomputed() {
    let mut dg = ipv4_datagram(0x06);
    dg.truncate(20);
    let seg: Vec<u8> = (0u8..25).map(|i| i.wrapping_mul(13)).collect();
    dg.extend_from_slice(&seg);
    let pkt = frame([0x08, 0x00], &dg);
    match respond_to_packet(&pkt, 1) {
        PacketResponse::Forward { frame: out, carries_tcp } => {
            assert!(carries_tcp);
            let ip = &out[14..];
            assert_eq!(&ip[12..20], &[0xc0, 0xa8, 0x4b, 0x01, 0xc0, 0xa8, 0x4b, 0x02]);
            assert_eq!(words_sum(&ip[..20]), 0xFFFF);
            assert_eq!(tcp_words_sum(&ip[12..16], &ip[16..20], &ip[20..]), 0xFFFF);
            assert_eq!(&ip[20..36], &seg[..16]);
            assert_eq!(&ip[38..], &seg[18..]);
        }
        _ => panic!("expected a frame to forward"),
    }
}

#[test]
fn ipv4_non_tcp_segment_is_kept() {
    let mut dg = ipv4_datagram(0x11);
    dg.truncate(20);
    dg.extend_from_slice(&[9u8; 30]);
    let pkt = frame([0x08, 0x00], &dg);
    match respond_to_packet(&pkt, 1) {
        PacketResponse::Forward { frame: out, carries_tcp } => {
            assert!(!carries_tcp);
            assert_eq!(&out[34..], &[9u8; 30]);
        }
        _ => panic!("expected a frame to forward"),
    }
}

#[test]
fn arp_request_is_answered() {
    let request = vec![
        0x00, 0x01, 0x08, 0x00, 0x06, 0x04, 0x00, 0x01, 0x0a, 0x0b, 0x0c, 0x0d, 0x0e, 0x00, 192, 168, 75, 1, 0,
        0, 0, 0, 0, 0, 192, 168, 75, 2,
    ];
    let pkt = frame([0x08, 0x06], &request);
    match respond_to_packet(&pkt, 1) {
        PacketResponse::Reply(out) => {
            let mut expected = Vec::new();
            expected.extend_from_slice(&SRC);
            expected.extend_from_slice(&DST);
            expected.extend_from_slice(&[0x08, 0x06]);
            expected.extend_from_slice(&[0x00, 0x01, 0x08, 0x00, 0x06, 0x04, 0x00, 0x02]);
            expected.extend_from_slice(&[1, 2, 3, 4, 5, 1]);
            expected.extend_from_slice(&[192, 168, 75, 2]);
            expected.extend_from_slice(&[0x0a, 0x0b, 0x0c, 0x0d, 0x0e, 0x00]);
            expected.extend_from_slice(&[192, 168, 75, 1]);
            assert_eq!(out, expected);
        }
        _ => panic!("expected an ARP reply"),
    }
}

#[test]
fn bad_arp_is_rejected() {
    let pkt = frame([0x08, 0x06], &[0x00, 0x01, 0x08]);
    match respond_to_packet(&pkt, 0) {
        PacketResponse::ArpRejected(e) => assert_eq!(e, "Too few bytes for ARP"),
        _ => panic!("expected a rejection"),
    }
}

#[test]
fn other_frames_are_ignored() {
    assert!(matches!(respond_to_packet(&frame([0x86, 0xDD], &[1, 2, 3]), 0), PacketResponse::Ignore));
    assert!(matches!(respond_to_packet(&frame([0x12, 0x34], &[1, 2, 3]), 0), PacketResponse::Ignore));
    assert!(matches!(respond_to_packet(&[1, 2, 3], 0), PacketResponse::Ignore));
}
