use vstd::prelude::*;

verus! {

/// Big-endian value of four bytes.
pub open spec fn be32_value(b: Seq<u8>) -> int {
    b[0] as int * 16777216 + b[1] as int * 65536 + b[2] as int * 256 + b[3] as int
}

/// Big-endian encoding of a 32-bit value.
pub open spec fn be32_bytes(n: u32) -> Seq<u8> {
    seq![
        (n / 16777216) as u8,
        ((n / 65536) % 256) as u8,
        ((n / 256) % 256) as u8,
        (n % 256) as u8,
    ]
}

pub proof fn lemma_be32_round_trip(n: u32)
    ensures
        be32_value(be32_bytes(n)) == n,
        be32_bytes(n).len() == 4,
{
    let b = be32_bytes(n);
    assert(b[0] as int == n as int / 16777216);
    assert(b[1] as int == (n as int / 65536) % 256);
    assert(b[2] as int == (n as int / 256) % 256);
    assert(b[3] as int == n as int % 256);
    assert(be32_value(b) == n as int) by (nonlinear_arith)
        requires
            b[0] as int == n as int / 16777216,
            b[1] as int == (n as int / 65536) % 256,
            b[2] as int == (n as int / 256) % 256,
            b[3] as int == n as int % 256,
            0 <= n as int <= 0xffff_ffff,
    ;
}

/// The four big-endian bytes of `n`.
pub fn u32_to_be(n: u32) -> (r: [u8; 4])
    ensures
        r@ == be32_bytes(n),
{
    let r = [(n / 16777216) as u8, ((n / 65536) % 256) as u8, ((n / 256) % 256) as u8, (n % 256) as u8];
    assert(r@ =~= be32_bytes(n));
    r
}

/// The 32-bit value of four big-endian bytes starting at `start`.
pub fn u32_from_be(b: &[u8], start: usize) -> (r: u32)
    requires
        start + 4 <= b@.len(),
    ensures
        r == be32_value(b@.subrange(start as int, start + 4)),
{
    let r = (b[start] as u32) * 16777216 + (b[start + 1] as u32) * 65536 + (b[start + 2] as u32)
        * 256 + (b[start + 3] as u32);
    r
}

/// Appends `s` to `v`.
pub fn append_bytes(v: &mut Vec<u8>, s: &[u8])
    ensures
        final(v)@ == old(v)@ + s@,
{
    let ghost start = v@;
    let mut i: usize = 0;
    while i < s.len()
        invariant
            i <= s@.len(),
            v@ == start + s@.subrange(0, i as int),
        decreases s@.len() - i,
    {
        v.push(s[i]);
        i = i + 1;
        assert(s@.subrange(0, i as int) =~= s@.subrange(0, i - 1) + seq![s@[i - 1]]);
    }
    assert(s@.subrange(0, s@.len() as int) =~= s@);
}

/// A copy of `s[start..end]`.
pub fn copy_range(s: &[u8], start: usize, end: usize) -> (r: Vec<u8>)
    requires
        start <= end <= s@.len(),
    ensures
        r@ == s@.subrange(start as int, end as int),
{
    let mut r: Vec<u8> = Vec::new();
    let mut i: usize = start;
    while i < end
        invariant
            start <= i <= end <= s@.len(),
            r@ == s@.subrange(start as int, i as int),
        decreases end - i,
    {
        r.push(s[i]);
        i = i + 1;
        assert(s@.subrange(start as int, i as int) =~= s@.subrange(start as int, i - 1) + seq![s@[i - 1]]);
    }
    r
}

} // verus!
