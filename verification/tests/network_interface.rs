use bifrost::network_interface::{
    ifreq_hw_addr_is, set_ifreq_hw_addr, set_ifreq_i32, set_ifreq_ipv4, set_ifreq_name, set_ifreq_netmask,
};

#[test]
fn ifreq_name_is_nul_terminated() {
    let mut ifr = [0xaau8; 40];
    set_ifreq_name(&mut ifr, b"custom0");
    assert_eq!(&ifr[..8], b"custom0\0");
    assert_eq!(ifr[8], 0xaa);
}

#[test]
fn ifreq_long_name_is_cut() {
    let mut ifr = [0xaau8; 40];
    let name = [b'x'; 50];
    set_ifreq_name(&mut ifr, &name);
    assert_eq!(&ifr[..39], &name[..39]);
    assert_eq!(ifr[39], 0);
}

#[test]
fn ifreq_flags_little_endian() {
    let mut ifr = [0u8; 40];
    set_ifreq_i32(&mut ifr, 0x1002);
    assert_eq!(&ifr[16..20], &[0x02, 0x10, 0x00, 0x00]);
    set_ifreq_i32(&mut ifr, -2);
    assert_eq!(&ifr[16..20], &[0xfe, 0xff, 0xff, 0xff]);
    assert_eq!(&ifr[..16], &[0u8; 16]);
    assert_eq!(&ifr[20..], &[0u8; 20]);
}

#[test]
fn ifreq_hw_addr_reads_back() {
    let mut ifr = [0x33u8; 40];
    let mac = [0xa, 0xb, 0xc, 0xd, 0xe, 0x1];
    set_ifreq_hw_addr(&mut ifr, mac);
    assert_eq!(&ifr[16..24], &[0x01, 0x00, 0xa, 0xb, 0xc, 0xd, 0xe, 0x1]);
    assert!(ifreq_hw_addr_is(&ifr, mac));
    assert!(!ifreq_hw_addr_is(&ifr, [0xa, 0xb, 0xc, 0xd, 0xe, 0x2]));
}

#[test]
fn ifreq_address_and_netmask() {
    let mut ifr = [0u8; 40];
    set_ifreq_ipv4(&mut ifr, [192, 168, 75, 1]);
    assert_eq!(&ifr[20..24], &[192, 168, 75, 1]);
    set_ifreq_netmask(&mut ifr);
    assert_eq!(&ifr[20..24], &[255, 255, 255, 0]);
}
