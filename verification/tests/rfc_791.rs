use bifrost::rfc_791::ipv4_header_checksum;

fn words_sum(h: &[u8]) -> u32 {
    let mut sum = 0u32;
    for i in 0..10 {
        sum += (h[2 * i] as u32) * 256 + h[2 * i + 1] as u32;
        while sum > 0xFFFF {
            sum = (sum & 0xFFFF) + (sum >> 16);
        }
    }
    sum
}

#[test]
fn header_checksum_test1() -> Result<(), &'static str> {
    let header_original: Vec<u8> = vec![
        0x45, 0x00, 0x00, 0x73, 0x00, 0x00, 0x40, 0x00, 0x40, 0x11, 0xb8, 0x61, 0xc0, 0xa8, 0x00, 0x01,
        0xc0, 0xa8, 0x00, 0xc7,
    ];

    let mut header = header_original.clone();

    ipv4_header_checksum(&mut header)?;

    assert_eq!(header, header_original);

    Ok(())
}

#[test]
fn header_checksum_test2() -> Result<(), &'static str> {
    let header_original: Vec<u8> = vec![
        0x45, 0x00, 0x00, 0x54, 0x9f, 0xd4, 0x40, 0x00, 0x40, 0x01, 0x81, 0x80, 0xc0, 0xa8, 0x4c, 0x02,
        0xc0, 0xa8, 0x4c, 0x01,
    ];

    let mut header = header_original.clone();

    ipv4_header_checksum(&mut header)?;

    assert_eq!(header, header_original);

    Ok(())
}

#[test]
fn checksum_filled_in_from_zero() {
    let mut header: Vec<u8> = vec![
        0x45, 0x00, 0x00, 0x73, 0x00, 0x00, 0x40, 0x00, 0x40, 0x11, 0x00, 0x00, 0xc0, 0xa8, 0x00, 0x01,
        0xc0, 0xa8, 0x00, 0xc7,
    ];
    assert_eq!(ipv4_header_checksum(&mut header), Ok(()));
    assert_eq!(header[10], 0xb8);
    assert_eq!(header[11], 0x61);
}

#[test]
fn checksum_ignores_old_field_value() {
    let mut header: Vec<u8> = vec![
        0x45, 0x00, 0x00, 0x54, 0x9f, 0xd4, 0x40, 0x00, 0x40, 0x01, 0x12, 0x34, 0xc0, 0xa8, 0x4c, 0x02,
        0xc0, 0xa8, 0x4c, 0x01,
    ];
    ipv4_header_checksum(&mut header).unwrap();
    assert_eq!(&header[10..12], &[0x81, 0x80]);
}

#[test]
fn checksummed_header_sums_to_ffff() {
    let mut header: Vec<u8> = (0u8..20).map(|i| i.wrapping_mul(37).wrapping_add(200)).collect();
    ipv4_header_checksum(&mut header).unwrap();
    assert_eq!(words_sum(&header), 0xFFFF);
}

#[test]
fn checksum_twice_is_checksum_once() {
    let mut header: Vec<u8> = (0u8..20).map(|i| i.wrapping_mul(91).wrapping_add(3)).collect();
    ipv4_header_checksum(&mut header).unwrap();
    let once = header.clone();
    ipv4_header_checksum(&mut header).unwrap();
    assert_eq!(header, once);
}

#[test]
fn all_zero_header_gets_ffff() {
    let mut header = vec![0u8; 20];
    ipv4_header_checksum(&mut header).unwrap();
    assert_eq!(&header[10..12], &[0xff, 0xff]);
}

#[test]
fn checksum_field_ffff_is_recomputed_as_zero() {
    // The other words sum to 0xFFFF, so the computed checksum is 0x0000,
    // although a field holding 0xFFFF also verifies.
    let mut header = vec![0u8; 20];
    header[0] = 0xff;
    header[1] = 0xff;
    header[10] = 0xff;
    header[11] = 0xff;
    assert_eq!(words_sum(&header), 0xFFFF);
    ipv4_header_checksum(&mut header).unwrap();
    assert_eq!(&header[10..12], &[0x00, 0x00]);
}

#[test]
fn checksum_refuses_wrong_length() {
    let mut short = vec![1u8; 19];
    assert_eq!(ipv4_header_checksum(&mut short), Err("Expected 20 bytes"));
    assert_eq!(short, vec![1u8; 19]);
    let mut long = vec![2u8; 24];
    assert_eq!(ipv4_header_checksum(&mut long), Err("Expected 20 bytes"));
    assert_eq!(long, vec![2u8; 24]);
    let mut empty: Vec<u8> = vec![];
    assert_eq!(ipv4_header_checksum(&mut empty), Err("Expected 20 bytes"));
}
