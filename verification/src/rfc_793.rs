use vstd::prelude::*;
use crate::rfc_791::{
    be_word, lemma_complement_sums_to_ffff, lemma_word_total_nonneg,
    lemma_word_total_one_word_differs, ones_complement_sum, ones_complement_word_sum, word_total,
};
use crate::utils::append_bytes;

verus! {

broadcast use vstd::array::group_array_axioms;

/// Shortest TCP segment: a header without options.
pub open spec fn tcp_header_len() -> int {
    20
}

/// The pseudo-header that RFC 793 puts in front of a segment for its
/// checksum: source and destination address, a zero byte, the protocol
/// (6) and the segment length.
pub open spec fn tcp_pseudo_header(src: Seq<u8>, dst: Seq<u8>, len: int) -> Seq<u8> {
    src + dst + seq![0u8, 6u8, (len / 256) as u8, (len % 256) as u8]
}

/// `s` with a zero byte added when its length is odd.
pub open spec fn pad_to_words(s: Seq<u8>) -> Seq<u8> {
    if s.len() % 2 == 1 {
        s.push(0u8)
    } else {
        s
    }
}

/// The bytes whose 16-bit words the TCP checksum adds up.
pub open spec fn tcp_checksum_bytes(src: Seq<u8>, dst: Seq<u8>, seg: Seq<u8>) -> Seq<u8> {
    pad_to_words(tcp_pseudo_header(src, dst, seg.len() as int) + seg)
}

/// The ones'-complement sum over the pseudo-header and the segment.
pub open spec fn tcp_sum(src: Seq<u8>, dst: Seq<u8>, seg: Seq<u8>) -> int {
    let b = tcp_checksum_bytes(src, dst, seg);
    ones_complement_sum(word_total(b, (b.len() / 2) as int))
}

/// The segment with its checksum field (bytes 16 and 17) cleared.
pub open spec fn without_tcp_checksum(seg: Seq<u8>) -> Seq<u8> {
    seg.update(16, 0u8).update(17, 0u8)
}

/// The RFC 793 checksum: the ones' complement of the ones'-complement sum
/// of pseudo-header and segment, taken with the checksum field cleared.
pub open spec fn tcp_checksum_value(src: Seq<u8>, dst: Seq<u8>, seg: Seq<u8>) -> int {
    0xFFFF - tcp_sum(src, dst, without_tcp_checksum(seg))
}

/// The segment with its checksum field set, high byte first.
pub open spec fn with_tcp_checksum(src: Seq<u8>, dst: Seq<u8>, seg: Seq<u8>) -> Seq<u8> {
    let c = tcp_checksum_value(src, dst, seg);
    seg.update(16, (c / 256) as u8).update(17, (c % 256) as u8)
}

/// Computes the RFC 793 checksum of the TCP segment `segment` sent from
/// `src_addr` to `dst_addr` and writes it into the segment's checksum field
/// (bytes 16 and 17). A segment shorter than a TCP header, or too long for
/// the pseudo-header's 16-bit length, is refused and left as it was.
pub fn tcp_checksum(src_addr: &[u8; 4], dst_addr: &[u8; 4], segment: &mut [u8]) -> (r: Result<(), &'static str>)
    ensures
        (tcp_header_len() <= old(segment)@.len() <= 0xFFFF) <==> r is Ok,
        r is Ok ==> final(segment)@ == with_tcp_checksum(src_addr@, dst_addr@, old(segment)@),
        r matches Err(e) ==> e@ == "TCP segment length out of range"@ && final(segment)@ == old(
            segment,
        )@,
{
    let n = segment.len();
    if n < 20 || n > 0xFFFF {
        return Err("TCP segment length out of range");
    }
    let ghost original = segment@;
    segment[16] = 0;
    segment[17] = 0;
    assert(segment@ =~= without_tcp_checksum(original));

    let mut bytes: Vec<u8> = Vec::new();
    append_bytes(&mut bytes, src_addr.as_slice());
    append_bytes(&mut bytes, dst_addr.as_slice());
    let rest = [0u8, 6u8, (n / 256) as u8, (n % 256) as u8];
    append_bytes(&mut bytes, rest.as_slice());
    assert(bytes@ =~= tcp_pseudo_header(src_addr@, dst_addr@, n as int));
    append_bytes(&mut bytes, segment);
    if n % 2 == 1 {
        bytes.push(0);
    }
    assert(bytes@ =~= tcp_checksum_bytes(src_addr@, dst_addr@, segment@));
    let sum = ones_complement_word_sum(bytes.as_slice());
    let c: u32 = 0xFFFF - sum;
    segment[16] = (c / 256) as u8;
    segment[17] = (c % 256) as u8;
    assert(segment@ =~= with_tcp_checksum(src_addr@, dst_addr@, original));
    Ok(())
}

/// A segment whose checksum was just filled in sums, together with its
/// pseudo-header, to `0xFFFF`, which is what the receiver checks.
pub proof fn lemma_tcp_checksummed_segment_verifies(src: Seq<u8>, dst: Seq<u8>, seg: Seq<u8>)
    requires
        src.len() == 4,
        dst.len() == 4,
        tcp_header_len() <= seg.len() <= 0xFFFF,
    ensures
        tcp_sum(src, dst, with_tcp_checksum(src, dst, seg)) == 0xFFFF,
{
    let z = without_tcp_checksum(seg);
    let w = with_tcp_checksum(src, dst, seg);
    let bz = tcp_checksum_bytes(src, dst, z);
    let bw = tcp_checksum_bytes(src, dst, w);
    let n: int = (bz.len() / 2) as int;
    let t = word_total(bz, n);
    lemma_word_total_nonneg(bz, n);
    lemma_complement_sums_to_ffff(t);
    let c = tcp_checksum_value(src, dst, seg);
    assert(bw.len() == bz.len());
    assert forall|i: int| 0 <= i < bw.len() && i != 28 && i != 29 implies bw[i] == bz[i] by {
        if i < 12 {
        } else if i < 12 + seg.len() {
            assert(bw[i] == w[i - 12]);
            assert(bz[i] == z[i - 12]);
        } else {
        }
    }
    lemma_word_total_one_word_differs(bw, bz, 14, n);
    assert(bw[28] == w[16] && bw[29] == w[17]);
    assert(bz[28] == z[16] && bz[29] == z[17]);
    assert(be_word(bw, 14) == c);
    assert(be_word(bz, 14) == 0);
}

/// Word sums depend only on the bytes summed.
proof fn lemma_word_total_prefix(s: Seq<u8>, t: Seq<u8>, n: int)
    requires
        0 <= n,
        2 * n <= s.len(),
        2 * n <= t.len(),
        forall|i: int| 0 <= i < 2 * n ==> s[i] == t[i],
    ensures
        word_total(s, n) == word_total(t, n),
    decreases n,
{
    if n > 0 {
        lemma_word_total_prefix(s, t, n - 1);
        assert(s[2 * (n - 1)] == t[2 * (n - 1)]);
        assert(s[2 * (n - 1) + 1] == t[2 * (n - 1) + 1]);
    }
}

/// The word sum of two byte strings put together is the sum of their word
/// sums, when the first has an even length.
proof fn lemma_word_total_concat(a: Seq<u8>, b: Seq<u8>, na: int, n: int)
    requires
        a.len() == 2 * na,
        0 <= n,
        2 * n <= b.len(),
    ensures
        word_total(a + b, na + n) == word_total(a, na) + word_total(b, n),
    decreases n,
{
    if n == 0 {
        lemma_word_total_prefix(a + b, a, na);
    } else {
        lemma_word_total_concat(a, b, na, n - 1);
        assert((a + b)[2 * (na + n - 1)] == b[2 * (n - 1)]);
        assert((a + b)[2 * (na + n - 1) + 1] == b[2 * (n - 1) + 1]);
    }
}

/// What the receiver checks: after the checksum is filled in, the
/// ones'-complement sum of the pseudo-header words (the two halves of
/// each address, the protocol 6 and the segment length) and of the words
/// of the segment, padded with a zero byte to an even length, is `0xFFFF`.
/// Filling in the checksum changes bytes 16 and 17 of the segment only.
pub proof fn lemma_tcp_checksum_receiver_check(src: Seq<u8>, dst: Seq<u8>, seg: Seq<u8>)
    requires
        src.len() == 4,
        dst.len() == 4,
        tcp_header_len() <= seg.len() <= 0xFFFF,
    ensures
        ({
            let w = with_tcp_checksum(src, dst, seg);
            let padded = if w.len() % 2 == 1 { w.push(0u8) } else { w };
            ones_complement_sum(
                (src[0] * 256 + src[1]) + (src[2] * 256 + src[3]) + (dst[0] * 256 + dst[1]) + (dst[2]
                    * 256 + dst[3]) + 6 + seg.len() + word_total(padded, (padded.len() / 2) as int),
            ) == 0xFFFF
        }),
        with_tcp_checksum(src, dst, seg).len() == seg.len(),
        forall|i: int|
            0 <= i < seg.len() && i != 16 && i != 17 ==> with_tcp_checksum(src, dst, seg)[i] == seg[i],
{
    let w = with_tcp_checksum(src, dst, seg);
    let padded = if w.len() % 2 == 1 { w.push(0u8) } else { w };
    let ph = tcp_pseudo_header(src, dst, w.len() as int);
    lemma_tcp_checksummed_segment_verifies(src, dst, seg);
    let b = tcp_checksum_bytes(src, dst, w);
    assert(b =~= ph + padded);
    let m = (padded.len() / 2) as int;
    lemma_word_total_concat(ph, padded, 6, m);
    assert(b.len() / 2 == 6 + m);
    reveal_with_fuel(word_total, 7);
    let len = seg.len() as int;
    assert(ph[10] == (len / 256) as u8 && ph[11] == (len % 256) as u8);
    assert(be_word(ph, 5) == len);
    assert(word_total(ph, 6) == (src[0] * 256 + src[1]) + (src[2] * 256 + src[3]) + (dst[0] * 256
        + dst[1]) + (dst[2] * 256 + dst[3]) + 6 + len);
}

/// Filling in the checksum of a segment whose checksum was just filled in
/// changes nothing.
pub proof fn lemma_tcp_checksum_idempotent(src: Seq<u8>, dst: Seq<u8>, seg: Seq<u8>)
    requires
        tcp_header_len() <= seg.len(),
    ensures
        with_tcp_checksum(src, dst, with_tcp_checksum(src, dst, seg)) == with_tcp_checksum(src, dst, seg),
{
    let w = with_tcp_checksum(src, dst, seg);
    assert(without_tcp_checksum(w) =~= without_tcp_checksum(seg));
    assert(with_tcp_checksum(src, dst, w) =~= w);
}

} // verus!
