//! Big-endian integers on the wire.
use vstd::prelude::*;

verus! {

/// A 16-bit value as two bytes, most significant first.
pub open spec fn be16(v: u16) -> Seq<u8> {
    seq![(v / 256) as u8, (v % 256) as u8]
}

/// A 32-bit value as four bytes, most significant first.
pub open spec fn be32(v: u32) -> Seq<u8> {
    seq![(v / 0x1000000) as u8, ((v / 0x10000) % 256) as u8, ((v / 256) % 256) as u8, (v % 256) as u8]
}

/// The 16-bit value of the two bytes at `i`, most significant first.
pub open spec fn read16(b: Seq<u8>, i: int) -> u16 {
    (b[i] as nat * 256 + b[i + 1] as nat) as u16
}

/// The 32-bit value of the four bytes at `i`, most significant first.
pub open spec fn read32(b: Seq<u8>, i: int) -> u32 {
    (b[i] as nat * 0x1000000 + b[i + 1] as nat * 0x10000 + b[i + 2] as nat * 256 + b[i + 3] as nat) as u32
}

pub proof fn lemma_read16_be16(v: u16, pre: Seq<u8>, post: Seq<u8>)
    ensures
        read16(pre + be16(v) + post, pre.len() as int) == v,
{
    let b = pre + be16(v) + post;
    assert(b[pre.len() as int] == (v / 256) as u8);
    assert(b[pre.len() as int + 1] == (v % 256) as u8);
}

pub proof fn lemma_read32_be32(v: u32, pre: Seq<u8>, post: Seq<u8>)
    ensures
        read32(pre + be32(v) + post, pre.len() as int) == v,
{
    let b = pre + be32(v) + post;
    let n = pre.len() as int;
    assert(b[n] == (v / 0x1000000) as u8);
    assert(b[n + 1] == ((v / 0x10000) % 256) as u8);
    assert(b[n + 2] == ((v / 256) % 256) as u8);
    assert(b[n + 3] == (v % 256) as u8);
    assert(v == (v / 0x1000000) * 0x1000000 + ((v / 0x10000) % 256) * 0x10000 + ((v / 256) % 256)
        * 256 + v % 256) by (nonlinear_arith);
}

/// Appends `v` as two bytes, most significant first.
pub fn push_be16(out: &mut Vec<u8>, v: u16)
    ensures
        final(out)@ == old(out)@ + be16(v),
{
    out.push((v / 256) as u8);
    out.push((v % 256) as u8);
    assert(final(out)@ =~= old(out)@ + be16(v));
}

/// Appends `v` as four bytes, most significant first.
pub fn push_be32(out: &mut Vec<u8>, v: u32)
    ensures
        final(out)@ == old(out)@ + be32(v),
{
    out.push((v / 0x1000000) as u8);
    out.push(((v / 0x10000) % 256) as u8);
    out.push(((v / 256) % 256) as u8);
    out.push((v % 256) as u8);
    assert(final(out)@ =~= old(out)@ + be32(v));
}

/// Appends every byte of `b`.
pub fn push_all(out: &mut Vec<u8>, b: &[u8])
    ensures
        final(out)@ == old(out)@ + b@,
{
    let mut i: usize = 0;
    while i < b.len()
        invariant
            i <= b@.len(),
            out@ == old(out)@ + b@.subrange(0, i as int),
        decreases b.len() - i,
    {
        out.push(b[i]);
        i = i + 1;
        assert(out@ =~= old(out)@ + b@.subrange(0, i as int));
    }
    assert(b@.subrange(0, i as int) =~= b@);
}

} // verus!
