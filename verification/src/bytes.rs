//! Integers as bytes, in either order.

use vstd::prelude::*;

verus! {

/// The two bytes of `n`, least significant first.
pub open spec fn le16(n: u16) -> Seq<u8> {
    seq![(n % 256) as u8, (n / 256) as u8]
}

/// The two bytes of `n`, most significant first.
pub open spec fn be16(n: u16) -> Seq<u8> {
    seq![(n / 256) as u8, (n % 256) as u8]
}

/// The four bytes of `n`, most significant first.
pub open spec fn be32(n: u32) -> Seq<u8> {
    seq![
        (n / 0x100_0000) as u8,
        (n / 0x1_0000 % 256) as u8,
        (n / 256 % 256) as u8,
        (n % 256) as u8,
    ]
}

/// The number whose bytes are `lo` and `hi`.
pub open spec fn word16(hi: u8, lo: u8) -> int {
    hi * 256 + lo
}

/// The number whose bytes, most significant first, stand in `s` from `i` on.
pub open spec fn word32(s: Seq<u8>, i: int) -> int {
    s[i] * 0x100_0000 + s[i + 1] * 0x1_0000 + s[i + 2] * 256 + s[i + 3]
}

/// Appends the two bytes of `n`, least significant first.
pub fn put_le16(out: &mut Vec<u8>, n: u16)
    ensures
        final(out)@ == old(out)@ + le16(n),
{
    out.push((n % 256) as u8);
    out.push((n / 256) as u8);
    assert(out@ =~= old(out)@ + le16(n));
}

/// Appends the two bytes of `n`, most significant first.
pub fn put_be16(out: &mut Vec<u8>, n: u16)
    ensures
        final(out)@ == old(out)@ + be16(n),
{
    out.push((n / 256) as u8);
    out.push((n % 256) as u8);
    assert(out@ =~= old(out)@ + be16(n));
}

/// Appends the four bytes of `n`, most significant first.
pub fn put_be32(out: &mut Vec<u8>, n: u32)
    ensures
        final(out)@ == old(out)@ + be32(n),
{
    out.push((n / 0x100_0000) as u8);
    out.push((n / 0x1_0000 % 256) as u8);
    out.push((n / 256 % 256) as u8);
    out.push((n % 256) as u8);
    assert(out@ =~= old(out)@ + be32(n));
}

/// Appends `more`.
pub fn put_all(out: &mut Vec<u8>, more: &[u8])
    ensures
        final(out)@ == old(out)@ + more@,
{
    let mut i: usize = 0;
    while i < more.len()
        invariant
            i <= more.len(),
            out@ == old(out)@ + more@.take(i as int),
        decreases more.len() - i,
    {
        out.push(more[i]);
        assert(out@ =~= old(out)@ + more@.take(i + 1));
        i = i + 1;
    }
    assert(more@.take(i as int) =~= more@);
}

/// `n` zero bytes.
pub open spec fn zeros(n: int) -> Seq<u8> {
    Seq::new(n as nat, |i: int| 0u8)
}

/// Appends `n` zero bytes.
pub fn put_zeros(out: &mut Vec<u8>, n: usize)
    ensures
        final(out)@ == old(out)@ + zeros(n as int),
{
    let mut i: usize = 0;
    while i < n
        invariant
            i <= n,
            out@ == old(out)@ + zeros(i as int),
        decreases n - i,
    {
        out.push(0);
        assert(out@ =~= old(out)@ + zeros(i + 1));
        i = i + 1;
    }
}

/// The number whose bytes are `lo` and `hi`.
pub fn join16(hi: u8, lo: u8) -> (r: u16)
    ensures
        r == word16(hi, lo),
{
    hi as u16 * 256 + lo as u16
}

/// The number whose bytes, most significant first, stand in `s` from `i` on.
pub fn get_be32(s: &[u8], i: usize) -> (r: u32)
    requires
        i + 4 <= s.len(),
    ensures
        r == word32(s@, i as int),
{
    s[i] as u32 * 0x100_0000 + s[i + 1] as u32 * 0x1_0000 + s[i + 2] as u32 * 256 + s[i + 3] as u32
}

/// Reading four bytes gives back the number that was written there.
pub proof fn law_be32_round_trip(before: Seq<u8>, n: u32, after: Seq<u8>)
    ensures
        word32(before + be32(n) + after, before.len() as int) == n,
{
    let s = before + be32(n) + after;
    let i = before.len() as int;
    assert(s[i] == be32(n)[0] && s[i + 1] == be32(n)[1] && s[i + 2] == be32(n)[2] && s[i + 3]
        == be32(n)[3]);
}

/// Reading two bytes gives back the number that was written there, in either
/// order.
pub proof fn law_16_round_trip(n: u16)
    ensures
        word16(le16(n)[1], le16(n)[0]) == n,
        word16(be16(n)[0], be16(n)[1]) == n,
{
}

} // verus!
