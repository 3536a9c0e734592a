use vstd::prelude::*;

verus! {

broadcast use vstd::array::group_array_axioms;

/// Size of the interface request buffer handed to the TUN/TAP and socket
/// `ioctl` calls.
pub open spec fn ifreq_len() -> int {
    40
}

/// Longest interface name written into a request: one byte of the buffer
/// is kept for the terminating NUL.
pub open spec fn max_name_len() -> int {
    39
}

/// The four bytes of `x`, least significant first.
pub open spec fn le_bytes_u32(x: u32) -> Seq<u8> {
    seq![
        (x % 256) as u8,
        (x / 256 % 256) as u8,
        (x / 65536 % 256) as u8,
        (x / 16777216) as u8,
    ]
}

/// `buf` with the bytes of `bytes` written from `offset` on.
pub open spec fn overwrite(buf: Seq<u8>, offset: int, bytes: Seq<u8>) -> Seq<u8> {
    buf.subrange(0, offset) + bytes + buf.subrange(offset + bytes.len(), buf.len() as int)
}

/// The hardware type of Ethernet (ARPHRD_ETHER), least significant byte first.
pub open spec fn ether_hw_type_le() -> Seq<u8> {
    seq![0x01u8, 0x00u8]
}

/// The IPv4 netmask that the interfaces get: 255.255.255.0.
pub open spec fn netmask() -> Seq<u8> {
    seq![255u8, 255u8, 255u8, 0u8]
}

fn write_bytes_at(ifr: &mut [u8; 40], offset: usize, bytes: &[u8])
    requires
        offset + bytes@.len() <= 40,
    ensures
        final(ifr)@ == overwrite(old(ifr)@, offset as int, bytes@),
{
    let mut i: usize = 0;
    while i < bytes.len()
        invariant
            offset + bytes@.len() <= 40,
            i <= bytes@.len(),
            ifr@ == overwrite(old(ifr)@, offset as int, bytes@.subrange(0, i as int)),
        decreases bytes@.len() - i,
    {
        ifr[offset + i] = bytes[i];
        i += 1;
        assert(ifr@ =~= overwrite(old(ifr)@, offset as int, bytes@.subrange(0, i as int)));
    }
    assert(bytes@.subrange(0, bytes@.len() as int) =~= bytes@);
}

/// Writes the interface name at the start of the request, NUL-terminated;
/// a name longer than 39 bytes is cut to its first 39.
pub fn set_ifreq_name(ifr: &mut [u8; 40], name: &[u8])
    ensures
        ({
            let k = if name@.len() <= max_name_len() { name@.len() as int } else { max_name_len() };
            final(ifr)@ == overwrite(old(ifr)@, 0, name@.subrange(0, k).push(0u8))
        }),
{
    let k: usize = if name.len() <= 39 { name.len() } else { 39 };
    let mut i: usize = 0;
    while i < k
        invariant
            k <= 39,
            k <= name@.len(),
            i <= k,
            ifr@ == overwrite(old(ifr)@, 0, name@.subrange(0, i as int)),
        decreases k - i,
    {
        ifr[i] = name[i];
        i += 1;
        assert(ifr@ =~= overwrite(old(ifr)@, 0, name@.subrange(0, i as int)));
    }
    ifr[k] = 0;
    assert(ifr@ =~= overwrite(old(ifr)@, 0, name@.subrange(0, k as int).push(0u8)));
}

/// Writes a 32-bit value, least significant byte first, into bytes 16 to 19
/// of the request, where the kernel reads interface flags and the address
/// family.
pub fn set_ifreq_i32(ifr: &mut [u8; 40], value: i32)
    ensures
        final(ifr)@ == overwrite(old(ifr)@, 16, le_bytes_u32(value as u32)),
{
    let x = value as u32;
    let bytes = [(x % 256) as u8, (x / 256 % 256) as u8, (x / 65536 % 256) as u8, (x / 16777216) as u8];
    assert(bytes@ =~= le_bytes_u32(x));
    write_bytes_at(ifr, 16, bytes.as_slice());
}

/// Writes an Ethernet hardware address into the request: the hardware
/// type in bytes 16 and 17, the address in bytes 18 to 23.
pub fn set_ifreq_hw_addr(ifr: &mut [u8; 40], mac: [u8; 6])
    ensures
        final(ifr)@ == overwrite(overwrite(old(ifr)@, 16, ether_hw_type_le()), 18, mac@),
{
    let hw_type = [0x01u8, 0x00u8];
    assert(hw_type@ =~= ether_hw_type_le());
    write_bytes_at(ifr, 16, hw_type.as_slice());
    write_bytes_at(ifr, 18, mac.as_slice());
}

/// Writing `bytes` at `offset` keeps the length, puts `bytes[i]` at
/// `offset + i`, and keeps every other byte.
pub proof fn lemma_overwrite_by_offset(buf: Seq<u8>, offset: int, bytes: Seq<u8>)
    requires
        0 <= offset,
        offset + bytes.len() <= buf.len(),
    ensures
        overwrite(buf, offset, bytes).len() == buf.len(),
        forall|i: int| 0 <= i < bytes.len() ==> overwrite(buf, offset, bytes)[offset + i] == bytes[i],
        forall|i: int|
            0 <= i < buf.len() && !(offset <= i < offset + bytes.len()) ==> overwrite(
                buf,
                offset,
                bytes,
            )[i] == buf[i],
{
}

/// The four bytes written for a 32-bit value, read back least significant
/// first, give the value again (as an unsigned number), and no other byte
/// of the request changes.
pub proof fn lemma_ifreq_i32_reads_back(ifr: Seq<u8>, value: i32)
    requires
        ifr.len() == ifreq_len(),
    ensures
        ({
            let b = overwrite(ifr, 16, le_bytes_u32(value as u32));
            &&& b.len() == ifreq_len()
            &&& b[16] + 256 * b[17] + 65536 * b[18] + 16777216 * b[19] == value as u32
            &&& forall|i: int| 0 <= i < 40 && !(16 <= i < 20) ==> b[i] == ifr[i]
        }),
{
    let x = value as u32;
    let b = overwrite(ifr, 16, le_bytes_u32(x));
    lemma_overwrite_by_offset(ifr, 16, le_bytes_u32(x));
    assert(b[16] == le_bytes_u32(x)[0]);
    assert(b[17] == le_bytes_u32(x)[1]);
    assert(b[18] == le_bytes_u32(x)[2]);
    assert(b[19] == le_bytes_u32(x)[3]);
    assert((x % 256) as u8 + 256 * ((x / 256 % 256) as u8) + 65536 * ((x / 65536 % 256) as u8)
        + 16777216 * ((x / 16777216) as u8) == x) by (bit_vector);
}

/// After the name is written, its first `k` bytes (all of it, or its first
/// 39 bytes when it is longer) begin the request, byte `k` is zero, and the
/// rest of the request is as it was.
pub proof fn lemma_ifreq_name_by_offset(ifr: Seq<u8>, name: Seq<u8>)
    requires
        ifr.len() == ifreq_len(),
    ensures
        ({
            let k = if name.len() <= 39 { name.len() as int } else { 39 };
            let b = overwrite(ifr, 0, name.subrange(0, k).push(0u8));
            &&& b.len() == ifreq_len()
            &&& forall|i: int| 0 <= i < k ==> b[i] == name[i]
            &&& b[k] == 0
            &&& forall|i: int| k < i < 40 ==> b[i] == ifr[i]
        }),
{
    let k = if name.len() <= 39 { name.len() as int } else { 39 };
    let w = name.subrange(0, k).push(0u8);
    lemma_overwrite_by_offset(ifr, 0, w);
    assert forall|i: int| 0 <= i < k implies overwrite(ifr, 0, w)[i] == name[i] by {
        assert(overwrite(ifr, 0, w)[0 + i] == w[i]);
    }
    assert(overwrite(ifr, 0, w)[0 + k] == w[k]);
}

/// An IPv4 address (or the netmask 255.255.255.0) written into the request
/// is in bytes 20 to 23, and no other byte changes.
pub proof fn lemma_ifreq_ipv4_by_offset(ifr: Seq<u8>, addr: Seq<u8>)
    requires
        ifr.len() == ifreq_len(),
        addr.len() == 4,
    ensures
        ({
            let b = overwrite(ifr, 20, addr);
            &&& b.len() == ifreq_len()
            &&& b[20] == addr[0] && b[21] == addr[1] && b[22] == addr[2] && b[23] == addr[3]
            &&& forall|i: int| 0 <= i < 40 && !(20 <= i < 24) ==> b[i] == ifr[i]
        }),
        netmask()[0] == 255 && netmask()[1] == 255 && netmask()[2] == 255 && netmask()[3] == 0,
        netmask().len() == 4,
{
    lemma_overwrite_by_offset(ifr, 20, addr);
    assert(overwrite(ifr, 20, addr)[20int + 0] == addr[0]);
    assert(overwrite(ifr, 20, addr)[20int + 1] == addr[1]);
    assert(overwrite(ifr, 20, addr)[20int + 2] == addr[2]);
    assert(overwrite(ifr, 20, addr)[20int + 3] == addr[3]);
}

/// A hardware address written into the request is read back from it.
pub proof fn lemma_hw_addr_reads_back(ifr: Seq<u8>, mac: Seq<u8>)
    requires
        ifr.len() == ifreq_len(),
        mac.len() == 6,
    ensures
        overwrite(overwrite(ifr, 16, ether_hw_type_le()), 18, mac).subrange(18, 24) == mac,
        overwrite(overwrite(ifr, 16, ether_hw_type_le()), 18, mac).len() == ifreq_len(),
{
    assert(overwrite(overwrite(ifr, 16, ether_hw_type_le()), 18, mac).subrange(18, 24) =~= mac);
}

/// The hardware type written with a hardware address is Ethernet (1),
/// least significant byte first, in bytes 16 and 17; the address is in
/// bytes 18 to 23, and no other byte changes.
pub proof fn lemma_hw_addr_by_offset(ifr: Seq<u8>, mac: Seq<u8>)
    requires
        ifr.len() == ifreq_len(),
        mac.len() == 6,
    ensures
        ({
            let b = overwrite(overwrite(ifr, 16, ether_hw_type_le()), 18, mac);
            &&& b.len() == ifreq_len()
            &&& b[16] == 0x01 && b[17] == 0x00
            &&& forall|i: int| 0 <= i < 6 ==> b[18 + i] == mac[i]
            &&& forall|i: int| 0 <= i < 40 && !(16 <= i < 24) ==> b[i] == ifr[i]
        }),
{
    let a = overwrite(ifr, 16, ether_hw_type_le());
    lemma_overwrite_by_offset(ifr, 16, ether_hw_type_le());
    lemma_overwrite_by_offset(a, 18, mac);
    assert(a[16int + 0] == ether_hw_type_le()[0]);
    assert(a[16int + 1] == ether_hw_type_le()[1]);
}

/// Whether the request holds `mac` as its hardware address (bytes 18 to 23).
pub fn ifreq_hw_addr_is(ifr: &[u8; 40], mac: [u8; 6]) -> (b: bool)
    ensures
        b <==> ifr@.subrange(18, 24) == mac@,
{
    let mut i: usize = 0;
    while i < 6
        invariant
            i <= 6,
            ifr@.subrange(18, 18 + i as int) == mac@.subrange(0, i as int),
        decreases 6 - i,
    {
        if ifr[18 + i] != mac[i] {
            assert(ifr@.subrange(18, 24)[i as int] != mac@[i as int]);
            return false;
        }
        i += 1;
        assert(ifr@.subrange(18, 18 + i as int) =~= mac@.subrange(0, i as int));
    }
    assert(mac@.subrange(0, 6) =~= mac@);
    true
}

/// Writes an IPv4 address (or netmask) into bytes 20 to 23 of the request.
pub fn set_ifreq_ipv4(ifr: &mut [u8; 40], addr: [u8; 4])
    ensures
        final(ifr)@ == overwrite(old(ifr)@, 20, addr@),
{
    write_bytes_at(ifr, 20, addr.as_slice());
}

/// Writes the netmask 255.255.255.0 into bytes 20 to 23 of the request.
pub fn set_ifreq_netmask(ifr: &mut [u8; 40])
    ensures
        final(ifr)@ == overwrite(old(ifr)@, 20, netmask()),
{
    let mask = [255u8, 255u8, 255u8, 0u8];
    assert(mask@ =~= netmask());
    set_ifreq_ipv4(ifr, mask);
}

} // verus!
