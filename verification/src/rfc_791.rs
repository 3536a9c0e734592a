use vstd::prelude::*;
use vstd::arithmetic::div_mod::lemma_fundamental_div_mod_converse;

verus! {

/// Number of bytes in an IPv4 header without options.
pub open spec fn ipv4_header_len() -> int {
    20
}

/// The 16-bit word `i` of `data`, read in network byte order.
pub open spec fn be_word(data: Seq<u8>, i: int) -> int {
    data[2 * i] * 256 + data[2 * i + 1]
}

/// The plain (carry-keeping) sum of the first `n` 16-bit words of `data`.
pub open spec fn word_total(data: Seq<u8>, n: int) -> int
    decreases n,
{
    if n <= 0 {
        0
    } else {
        word_total(data, n - 1) + be_word(data, n - 1)
    }
}

/// The ones'-complement (end-around carry) sum of 16-bit words whose plain
/// sum is `total`: 0 when the total is 0, else the value in `1..=0xFFFF`
/// congruent to `total` modulo `0xFFFF`.
pub open spec fn ones_complement_sum(total: int) -> int {
    if total == 0 {
        0
    } else {
        (total - 1) % 0xFFFF + 1
    }
}

/// Adding one 16-bit word to a ones'-complement sum, with the carry out of
/// bit 16 added back in.
pub open spec fn add_with_end_around_carry(sum: int, word: int) -> int {
    if sum + word > 0xFFFF {
        sum + word - 0xFFFF
    } else {
        sum + word
    }
}

/// The header with its checksum field (bytes 10 and 11) cleared.
pub open spec fn without_checksum(header: Seq<u8>) -> Seq<u8> {
    header.update(10, 0u8).update(11, 0u8)
}

/// The ones'-complement sum of the ten words of a 20-byte header.
pub open spec fn header_sum(header: Seq<u8>) -> int {
    ones_complement_sum(word_total(header, 10))
}

/// The RFC 791 header checksum: the ones' complement of the ones'-complement
/// sum of the header's words, taken with the checksum field cleared.
pub open spec fn ipv4_checksum(header: Seq<u8>) -> int {
    0xFFFF - header_sum(without_checksum(header))
}

/// The header with its checksum field set, high byte first.
pub open spec fn with_ipv4_checksum(header: Seq<u8>) -> Seq<u8> {
    let c = ipv4_checksum(header);
    header.update(10, (c / 256) as u8).update(11, (c % 256) as u8)
}

/// Folding one more word into the running sum keeps it equal to the
/// ones'-complement sum of everything added so far.
proof fn lemma_fold_step(total: int, word: int)
    requires
        total >= 0,
        0 <= word <= 0xFFFF,
    ensures
        add_with_end_around_carry(ones_complement_sum(total), word) == ones_complement_sum(
            total + word,
        ),
        0 <= ones_complement_sum(total) <= 0xFFFF,
{
    if total == 0 {
        if word != 0 {
            lemma_fundamental_div_mod_converse(word - 1, 0xFFFF, 0, word - 1);
        }
    } else {
        let q = (total - 1) / 0xFFFF;
        let r = (total - 1) % 0xFFFF;
        lemma_fundamental_div_mod_converse(total - 1, 0xFFFF, q, r);
        vstd::arithmetic::div_mod::lemma_fundamental_div_mod(total - 1, 0xFFFF);
        if r + word < 0xFFFF {
            lemma_fundamental_div_mod_converse(total + word - 1, 0xFFFF, q, r + word);
        } else {
            lemma_fundamental_div_mod_converse(
                total + word - 1,
                0xFFFF,
                q + 1,
                r + word - 0xFFFF,
            );
        }
    }
}

pub proof fn lemma_word_total_nonneg(data: Seq<u8>, n: int)
    ensures
        word_total(data, n) >= 0,
    decreases n,
{
    if n > 0 {
        lemma_word_total_nonneg(data, n - 1);
    }
}

/// The words of a header and of the same header with its checksum field
/// cleared differ only in word 5.
proof fn lemma_word_total_without_checksum(h: Seq<u8>, n: int)
    requires
        h.len() == 20,
        0 <= n <= 10,
    ensures
        word_total(h, n) == word_total(without_checksum(h), n) + if n > 5 {
            be_word(h, 5)
        } else {
            0
        },
    decreases n,
{
    if n > 0 {
        lemma_word_total_without_checksum(h, n - 1);
    }
}

proof fn lemma_checksum_field(h: Seq<u8>)
    requires
        h.len() == 20,
    ensures
        0 <= ipv4_checksum(h) <= 0xFFFF,
        without_checksum(with_ipv4_checksum(h)) == without_checksum(h),
        be_word(with_ipv4_checksum(h), 5) == ipv4_checksum(h),
        with_ipv4_checksum(h).len() == 20,
{
    let z = without_checksum(h);
    lemma_word_total_nonneg(z, 10);
    lemma_fold_step(word_total(z, 10), 0);
    assert(without_checksum(with_ipv4_checksum(h)) =~= z);
}

/// Two byte sequences that differ at most in word `k` have plain word sums
/// that differ by the difference of that word.
pub proof fn lemma_word_total_one_word_differs(s: Seq<u8>, t: Seq<u8>, k: int, n: int)
    requires
        s.len() == t.len(),
        0 <= k,
        2 * k + 1 < s.len(),
        0 <= n,
        2 * n <= s.len(),
        forall|i: int| 0 <= i < s.len() && i != 2 * k && i != 2 * k + 1 ==> s[i] == t[i],
    ensures
        word_total(s, n) == word_total(t, n) + if n > k {
            be_word(s, k) - be_word(t, k)
        } else {
            0
        },
    decreases n,
{
    if n > 0 {
        lemma_word_total_one_word_differs(s, t, k, n - 1);
        if n - 1 != k {
            assert(s[2 * (n - 1)] == t[2 * (n - 1)]);
            assert(s[2 * (n - 1) + 1] == t[2 * (n - 1) + 1]);
        }
    }
}

/// Adding the ones' complement of a ones'-complement sum to the words gives
/// `0xFFFF`: this is why a filled-in checksum verifies.
pub proof fn lemma_complement_sums_to_ffff(t: int)
    requires
        t >= 0,
    ensures
        0 <= ones_complement_sum(t) <= 0xFFFF,
        ones_complement_sum(t + (0xFFFF - ones_complement_sum(t))) == 0xFFFF,
{
    lemma_fold_step(t, 0);
    if t == 0 {
        lemma_fundamental_div_mod_converse(0xFFFF - 1, 0xFFFF, 0, 0xFFFF - 1);
    } else {
        let q = (t - 1) / 0xFFFF;
        vstd::arithmetic::div_mod::lemma_fundamental_div_mod(t - 1, 0xFFFF);
        lemma_fundamental_div_mod_converse(t - 1, 0xFFFF, q, (t - 1) % 0xFFFF);
        lemma_fundamental_div_mod_converse(
            t + (0xFFFF - ones_complement_sum(t)) - 1,
            0xFFFF,
            q,
            0xFFFF - 1,
        );
    }
}

/// The ones'-complement sum of the 16-bit words (network byte order) of
/// `bytes`, folding each carry back in as it arises.
pub fn ones_complement_word_sum(bytes: &[u8]) -> (sum: u32)
    requires
        bytes@.len() % 2 == 0,
    ensures
        sum == ones_complement_sum(word_total(bytes@, (bytes@.len() / 2) as int)),
        sum <= 0xFFFF,
{
    let n: usize = bytes.len() / 2;
    let mut sum: u32 = 0;
    let mut i: usize = 0;
    while i < n
        invariant
            n == bytes@.len() / 2,
            2 * n == bytes@.len(),
            bytes@.len() == bytes.len(),
            bytes@.len() % 2 == 0,
            i <= n,
            sum == ones_complement_sum(word_total(bytes@, i as int)),
            sum <= 0xFFFF,
        decreases n - i,
    {
        let word: u32 = (bytes[2 * i] as u32) * 256 + (bytes[2 * i + 1] as u32);
        proof {
            lemma_word_total_nonneg(bytes@, i as int);
            lemma_fold_step(word_total(bytes@, i as int), word as int);
            lemma_fold_step(word_total(bytes@, i as int) + word, 0);
        }
        sum += word;
        if sum > 0xFFFF {
            sum -= 0xFFFF;
        }
        i += 1;
    }
    sum
}

/// Filling in the checksum changes bytes 10 and 11 of the header only,
/// and writes the checksum there high byte first.
pub proof fn lemma_checksum_changes_only_its_field(h: Seq<u8>)
    requires
        h.len() == ipv4_header_len(),
    ensures
        with_ipv4_checksum(h).len() == 20,
        forall|i: int| 0 <= i < 20 && i != 10 && i != 11 ==> with_ipv4_checksum(h)[i] == h[i],
        with_ipv4_checksum(h)[10] * 256 + with_ipv4_checksum(h)[11] == ipv4_checksum(h),
{
    lemma_checksum_field(h);
}

/// A header whose checksum field was just filled in sums to `0xFFFF`
/// (negative zero), which is what a receiver checks.
pub proof fn lemma_checksummed_header_verifies(h: Seq<u8>)
    requires
        h.len() == ipv4_header_len(),
    ensures
        header_sum(with_ipv4_checksum(h)) == 0xFFFF,
{
    let w = with_ipv4_checksum(h);
    let z = without_checksum(h);
    let t = word_total(z, 10);
    lemma_checksum_field(h);
    lemma_word_total_without_checksum(w, 10);
    lemma_word_total_nonneg(z, 10);
    assert(word_total(w, 10) == t + ipv4_checksum(h));
    if t == 0 {
        lemma_fundamental_div_mod_converse(0xFFFF - 1, 0xFFFF, 0, 0xFFFF - 1);
    } else {
        let q = (t - 1) / 0xFFFF;
        vstd::arithmetic::div_mod::lemma_fundamental_div_mod(t - 1, 0xFFFF);
        lemma_fundamental_div_mod_converse(t - 1, 0xFFFF, q, (t - 1) % 0xFFFF);
        lemma_fundamental_div_mod_converse(
            t + ipv4_checksum(h) - 1,
            0xFFFF,
            q,
            0xFFFF - 1,
        );
    }
}

/// Filling in the checksum of a header whose checksum was just filled in
/// changes nothing.
pub proof fn lemma_checksum_idempotent(h: Seq<u8>)
    requires
        h.len() == ipv4_header_len(),
    ensures
        with_ipv4_checksum(with_ipv4_checksum(h)) == with_ipv4_checksum(h),
{
    lemma_checksum_field(h);
    let w = with_ipv4_checksum(h);
    assert(ipv4_checksum(w) == ipv4_checksum(h));
    assert(with_ipv4_checksum(w) =~= w);
}

/// A header that already verifies (its words sum to `0xFFFF`) keeps its
/// bytes when its checksum is computed again, unless its checksum field
/// holds `0xFFFF` where the computation gives the other zero, `0x0000`:
/// that is, unless the rest of the header also sums to `0xFFFF`.
pub proof fn lemma_valid_header_unchanged(h: Seq<u8>)
    requires
        h.len() == ipv4_header_len(),
        header_sum(h) == 0xFFFF,
        !(be_word(h, 5) == 0xFFFF && header_sum(without_checksum(h)) == 0xFFFF),
    ensures
        with_ipv4_checksum(h) == h,
{
    let z = without_checksum(h);
    let t = word_total(z, 10);
    let c = be_word(h, 5);
    lemma_word_total_without_checksum(h, 10);
    lemma_word_total_nonneg(z, 10);
    assert(word_total(h, 10) == t + c);
    if t == 0 {
        if c != 0xFFFF {
            if c == 0 {
            } else {
                lemma_fundamental_div_mod_converse(c - 1, 0xFFFF, 0, c - 1);
            }
        }
    } else {
        let q = (t - 1) / 0xFFFF;
        let r = (t - 1) % 0xFFFF;
        vstd::arithmetic::div_mod::lemma_fundamental_div_mod(t - 1, 0xFFFF);
        lemma_fundamental_div_mod_converse(t - 1, 0xFFFF, q, r);
        if r + c < 0xFFFF {
            lemma_fundamental_div_mod_converse(t + c - 1, 0xFFFF, q, r + c);
        } else {
            lemma_fundamental_div_mod_converse(t + c - 1, 0xFFFF, q + 1, r + c - 0xFFFF);
        }
    }
    assert(ipv4_checksum(h) == c);
    assert(with_ipv4_checksum(h) =~= h);
}

/// Computes the RFC 791 checksum of a 20-byte IPv4 header and writes it into
/// the header's checksum field (bytes 10 and 11). Any other length is
/// refused, and the data is then left as it was.
pub fn ipv4_header_checksum(data: &mut [u8]) -> (r: Result<(), &'static str>)
    ensures
        old(data)@.len() == ipv4_header_len() <==> r is Ok,
        r is Ok ==> final(data)@ == with_ipv4_checksum(old(data)@),
        r matches Err(e) ==> e@ == "Expected 20 bytes"@ && final(data)@ == old(data)@,
{
    if data.len() != 20 {
        return Err("Expected 20 bytes");
    }
    let ghost original = data@;
    data[10] = 0;
    data[11] = 0;
    assert(data@ =~= without_checksum(original));

    let mut sum: u32 = 0;
    let mut i: usize = 0;
    while i < 10
        invariant
            data@ == without_checksum(original),
            data@.len() == 20,
            i <= 10,
            sum == ones_complement_sum(word_total(data@, i as int)),
            sum <= 0xFFFF,
        decreases 10 - i,
    {
        let word: u32 = (data[2 * i] as u32) * 256 + (data[2 * i + 1] as u32);
        proof {
            lemma_word_total_nonneg(data@, i as int);
            lemma_fold_step(word_total(data@, i as int), word as int);
            lemma_fold_step(word_total(data@, i as int) + word, 0);
        }
        sum += word;
        let ghost before_carry = sum;
        while sum > 0xFFFF
            invariant
                sum <= 0x1FFFE,
                sum > 0xFFFF ==> sum == before_carry,
                sum <= 0xFFFF ==> sum == add_with_end_around_carry(before_carry - word, word as int),
                before_carry == (before_carry - word) + word,
                before_carry - word <= 0xFFFF,
            decreases sum,
        {
            let carry = (sum & 0xFFFF0000) >> 16;
            assert(0xFFFF < sum <= 0x1FFFE ==> (sum & 0xFFFF0000) >> 16 == 1u32 && sum & 0xFFFF
                == sum - 0x10000) by (bit_vector);
            sum &= 0xFFFF;
            sum += carry;
        }
        i += 1;
    }
    let checksum: u32 = 0xFFFF - sum;
    assert(checksum == ipv4_checksum(original));
    data[10] = (checksum / 256) as u8;
    data[11] = (checksum % 256) as u8;
    assert(data@ =~= with_ipv4_checksum(original));
    Ok(())
}

} // verus!
