//! Integers on the wire: big-endian, most significant byte first.

use vstd::prelude::*;

verus! {

/// The two bytes of `v`, high byte first.
pub open spec fn be16(v: u16) -> Seq<u8> {
    seq![(v / 256) as u8, (v % 256) as u8]
}

/// The number whose high byte is `b[0]` and whose low byte is `b[1]`.
pub open spec fn from_be16(b: Seq<u8>) -> u16
    recommends
        b.len() >= 2,
{
    (b[0] * 256 + b[1]) as u16
}

/// The eight bytes of `v`, most significant first.
pub open spec fn be64(v: u64) -> Seq<u8> {
    seq![
        (v / 0x100_0000_0000_0000) as u8,
        (v / 0x1_0000_0000_0000 % 256) as u8,
        (v / 0x100_0000_0000 % 256) as u8,
        (v / 0x1_0000_0000 % 256) as u8,
        (v / 0x100_0000 % 256) as u8,
        (v / 0x1_0000 % 256) as u8,
        (v / 0x100 % 256) as u8,
        (v % 256) as u8,
    ]
}

/// The number that the first eight bytes of `b` spell, most significant first.
pub open spec fn from_be64(b: Seq<u8>) -> u64
    recommends
        b.len() >= 8,
{
    (b[0] * 0x100_0000_0000_0000 + b[1] * 0x1_0000_0000_0000 + b[2] * 0x100_0000_0000 + b[3]
        * 0x1_0000_0000 + b[4] * 0x100_0000 + b[5] * 0x1_0000 + b[6] * 0x100 + b[7]) as u64
}

/// Reading back what `be16` wrote gives the number again, whatever follows.
pub proof fn lemma_be16_read_back(v: u16, rest: Seq<u8>)
    ensures
        from_be16(be16(v) + rest) == v,
        (be16(v) + rest).skip(2) == rest,
        be16(v).len() == 2,
{
    assert((be16(v) + rest).skip(2) =~= rest);
}

/// The eight bytes of a number, each weighted by its place, add up to it.
proof fn lemma_u64_places(v: u64)
    by (bit_vector)
    ensures
        v / 0x100_0000_0000_0000 < 256,
        (v / 0x100_0000_0000_0000) * 0x100_0000_0000_0000 + (v / 0x1_0000_0000_0000 % 256)
            * 0x1_0000_0000_0000 + (v / 0x100_0000_0000 % 256) * 0x100_0000_0000 + (v
            / 0x1_0000_0000 % 256) * 0x1_0000_0000 + (v / 0x100_0000 % 256) * 0x100_0000 + (v
            / 0x1_0000 % 256) * 0x1_0000 + (v / 0x100 % 256) * 0x100 + v % 256 == v,
{
}

/// Reading back what `be64` wrote gives the number again, whatever follows.
pub proof fn lemma_be64_read_back(v: u64, rest: Seq<u8>)
    ensures
        from_be64(be64(v) + rest) == v,
        (be64(v) + rest).skip(8) == rest,
        be64(v).len() == 8,
{
    let b = be64(v) + rest;
    lemma_u64_places(v);
    assert(b[0] == v / 0x100_0000_0000_0000);
    assert(b[1] == v / 0x1_0000_0000_0000 % 256);
    assert(b[2] == v / 0x100_0000_0000 % 256);
    assert(b[3] == v / 0x1_0000_0000 % 256);
    assert(b[4] == v / 0x100_0000 % 256);
    assert(b[5] == v / 0x1_0000 % 256);
    assert(b[6] == v / 0x100 % 256);
    assert(b[7] == v % 256);
    assert(b.skip(8) =~= rest);
}

/// Appends `v` as two bytes.
pub(crate) fn write_be_u16(w: &mut Vec<u8>, v: u16)
    ensures
        final(w)@ == old(w)@ + be16(v),
{
    w.push((v / 256) as u8);
    w.push((v % 256) as u8);
    assert(w@ =~= old(w)@ + be16(v));
}

/// Appends `v` as eight bytes.
pub(crate) fn write_be_u64(w: &mut Vec<u8>, v: u64)
    ensures
        final(w)@ == old(w)@ + be64(v),
{
    w.push((v / 0x100_0000_0000_0000) as u8);
    w.push((v / 0x1_0000_0000_0000 % 256) as u8);
    w.push((v / 0x100_0000_0000 % 256) as u8);
    w.push((v / 0x1_0000_0000 % 256) as u8);
    w.push((v / 0x100_0000 % 256) as u8);
    w.push((v / 0x1_0000 % 256) as u8);
    w.push((v / 0x100 % 256) as u8);
    w.push((v % 256) as u8);
    assert(w@ =~= old(w)@ + be64(v));
}

/// The number in the first two bytes of `r`.
pub(crate) fn read_be_u16(r: &[u8]) -> (v: u16)
    requires
        r@.len() >= 2,
    ensures
        v == from_be16(r@),
{
    let hi: u16 = r[0] as u16;
    let lo: u16 = r[1] as u16;
    hi * 256 + lo
}

/// The number in the first eight bytes of `r`.
pub(crate) fn read_be_u64(r: &[u8]) -> (v: u64)
    requires
        r@.len() >= 8,
    ensures
        v == from_be64(r@),
{
    let b0: u64 = r[0] as u64;
    let b1: u64 = r[1] as u64;
    let b2: u64 = r[2] as u64;
    let b3: u64 = r[3] as u64;
    let b4: u64 = r[4] as u64;
    let b5: u64 = r[5] as u64;
    let b6: u64 = r[6] as u64;
    let b7: u64 = r[7] as u64;
    b0 * 0x100_0000_0000_0000 + b1 * 0x1_0000_0000_0000 + b2 * 0x100_0000_0000 + b3
        * 0x1_0000_0000 + b4 * 0x100_0000 + b5 * 0x1_0000 + b6 * 0x100 + b7
}

} // verus!
