use vstd::prelude::*;

verus! {

/// The `n` bytes of `data` that start at `idx`, when all of them are there.
pub open spec fn spec_bytes_at(data: Seq<u8>, idx: int, n: int) -> Option<Seq<u8>> {
    if 0 <= idx && 0 <= n && idx + n <= data.len() {
        Some(data.subrange(idx, idx + n))
    } else {
        None
    }
}

/// The bytes at an offset are there exactly when the offset and the count
/// fit in `data`, and they are then `data[idx]`, `data[idx + 1]`, ... in order.
pub proof fn lemma_bytes_at_by_offset(data: Seq<u8>, idx: int, n: int)
    requires
        0 <= n,
    ensures
        spec_bytes_at(data, idx, n) is Some <==> (0 <= idx && idx + n <= data.len()),
        spec_bytes_at(data, idx, n) matches Some(s) ==> s.len() == n && forall|i: int|
            0 <= i < n ==> s[i] == data[idx + i],
{
}

/// The two bytes of `data` at `idx` and `idx + 1`, or `None` when `data`
/// ends before them.
pub fn get_2_starting_at(data: &[u8], idx: usize) -> (r: Option<[u8; 2]>)
    ensures
        r matches Some(a) ==> spec_bytes_at(data@, idx as int, 2) == Some(a@),
        r is None <==> spec_bytes_at(data@, idx as int, 2) is None,
{
    if idx < data.len() && data.len() - idx >= 2 {
        let a = [data[idx], data[idx + 1]];
        assert(a@ =~= data@.subrange(idx as int, idx + 2));
        Some(a)
    } else {
        None
    }
}

/// The four bytes of `data` from `idx` to `idx + 3`, or `None` when `data`
/// ends before them.
pub fn get_4_starting_at(data: &[u8], idx: usize) -> (r: Option<[u8; 4]>)
    ensures
        r matches Some(a) ==> spec_bytes_at(data@, idx as int, 4) == Some(a@),
        r is None <==> spec_bytes_at(data@, idx as int, 4) is None,
{
    if idx < data.len() && data.len() - idx >= 4 {
        let a = [data[idx], data[idx + 1], data[idx + 2], data[idx + 3]];
        assert(a@ =~= data@.subrange(idx as int, idx + 4));
        Some(a)
    } else {
        None
    }
}

/// The six bytes of `data` from `idx` to `idx + 5`, or `None` when `data`
/// ends before them.
pub fn get_6_starting_at(data: &[u8], idx: usize) -> (r: Option<[u8; 6]>)
    ensures
        r matches Some(a) ==> spec_bytes_at(data@, idx as int, 6) == Some(a@),
        r is None <==> spec_bytes_at(data@, idx as int, 6) is None,
{
    if idx < data.len() && data.len() - idx >= 6 {
        let a = [data[idx], data[idx + 1], data[idx + 2], data[idx + 3], data[idx + 4], data[idx + 5]];
        assert(a@ =~= data@.subrange(idx as int, idx + 6));
        Some(a)
    } else {
        None
    }
}

/// The bytes of `data` from `start` to the end, copied.
pub(crate) fn copy_tail(data: &[u8], start: usize) -> (out: Vec<u8>)
    requires
        start <= data@.len(),
    ensures
        out@ == data@.subrange(start as int, data@.len() as int),
{
    let mut out: Vec<u8> = Vec::new();
    let mut i = start;
    while i < data.len()
        invariant
            start <= i <= data@.len(),
            out@ == data@.subrange(start as int, i as int),
        decreases data@.len() - i,
    {
        out.push(data[i]);
        i += 1;
        assert(out@ =~= data@.subrange(start as int, i as int));
    }
    out
}

/// Appends all of `src` to `out`.
pub(crate) fn append_bytes(out: &mut Vec<u8>, src: &[u8])
    ensures
        final(out)@ == old(out)@ + src@,
{
    let mut i: usize = 0;
    while i < src.len()
        invariant
            i <= src@.len(),
            out@ == old(out)@ + src@.subrange(0, i as int),
        decreases src@.len() - i,
    {
        out.push(src[i]);
        i += 1;
        assert(out@ =~= old(out)@ + src@.subrange(0, i as int));
    }
    assert(src@.subrange(0, src@.len() as int) =~= src@);
}

} // verus!
