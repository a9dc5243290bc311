//! Big-endian byte-order helpers shared by the wire encodings.

use vstd::prelude::*;

verus! {

/// The high byte of a 16-bit value in network byte order.
pub open spec fn u16_hi(x: u16) -> u8 {
    (x / 256) as u8
}

/// The low byte of a 16-bit value in network byte order.
pub open spec fn u16_lo(x: u16) -> u8 {
    (x % 256) as u8
}

/// The two bytes of a 16-bit value, most significant first.
pub open spec fn u16_bytes(x: u16) -> Seq<u8> {
    seq![u16_hi(x), u16_lo(x)]
}

/// A 16-bit value read from two bytes, most significant first.
pub open spec fn be16(hi: u8, lo: u8) -> u16 {
    ((hi as u16) * 256 + (lo as u16)) as u16
}

/// The most significant byte of a 32-bit value in network byte order.
pub open spec fn u32_b0(x: u32) -> u8 {
    (x / 0x100_0000) as u8
}

/// The second byte of a 32-bit value in network byte order.
pub open spec fn u32_b1(x: u32) -> u8 {
    ((x / 0x1_0000) % 256) as u8
}

/// The third byte of a 32-bit value in network byte order.
pub open spec fn u32_b2(x: u32) -> u8 {
    ((x / 0x100) % 256) as u8
}

/// The least significant byte of a 32-bit value in network byte order.
pub open spec fn u32_b3(x: u32) -> u8 {
    (x % 256) as u8
}

/// The four bytes of a 32-bit value, most significant first.
pub open spec fn u32_bytes(x: u32) -> Seq<u8> {
    seq![u32_b0(x), u32_b1(x), u32_b2(x), u32_b3(x)]
}

/// A 32-bit value read from four bytes, most significant first.
pub open spec fn be32(b0: u8, b1: u8, b2: u8, b3: u8) -> u32 {
    ((b0 as u32) * 0x100_0000 + (b1 as u32) * 0x1_0000 + (b2 as u32) * 0x100 + (b3 as u32)) as u32
}

/// Splitting a 16-bit value into bytes and reading them back is the identity.
pub proof fn lemma_be16_split(x: u16)
    ensures
        be16(u16_hi(x), u16_lo(x)) == x,
{
}

/// Splitting a 32-bit value into bytes and reading them back is the identity.
pub proof fn lemma_be32_split(x: u32)
    ensures
        be32(u32_bytes(x)[0], u32_bytes(x)[1], u32_bytes(x)[2], u32_bytes(x)[3]) == x,
{
    assert((x / 0x100_0000) * 0x100_0000 + ((x / 0x1_0000) % 256) * 0x1_0000 + ((x / 0x100) % 256)
        * 0x100 + (x % 256) == x) by (nonlinear_arith);
}

/// Appends a 16-bit value in network byte order.
pub fn push_u16(out: &mut Vec<u8>, x: u16)
    ensures
        final(out)@ == old(out)@ + u16_bytes(x),
{
    out.push((x / 256) as u8);
    out.push((x % 256) as u8);
    proof {
        assert(out@ =~= old(out)@ + u16_bytes(x));
    }
}

/// Appends a 32-bit value in network byte order.
pub fn push_u32(out: &mut Vec<u8>, x: u32)
    ensures
        final(out)@ == old(out)@ + u32_bytes(x),
{
    out.push((x / 0x100_0000) as u8);
    out.push(((x / 0x1_0000) % 256) as u8);
    out.push(((x / 0x100) % 256) as u8);
    out.push((x % 256) as u8);
    proof {
        assert(out@ =~= old(out)@ + u32_bytes(x));
    }
}

/// Appends a fixed-size byte array verbatim.
pub fn push_bytes<const N: usize>(out: &mut Vec<u8>, arr: &[u8; N])
    ensures
        final(out)@ == old(out)@ + arr@,
{
    let mut i: usize = 0;
    while i < N
        invariant
            i <= N,
            arr@.len() == N,
            out@ == old(out)@ + arr@.take(i as int),
        decreases N - i,
    {
        let b = arr[i];
        out.push(b);
        i = i + 1;
        proof {
            assert(out@ =~= old(out)@ + arr@.take(i as int));
        }
    }
    proof {
        assert(arr@.take(N as int) =~= arr@);
    }
}

/// Reads a 16-bit value in network byte order at a given offset.
pub fn read_u16(data: &[u8], i: usize) -> (r: u16)
    requires
        i + 2 <= data@.len(),
    ensures
        r == be16(data@[i as int], data@[i + 1]),
{
    (data[i] as u16) * 256 + (data[i + 1] as u16)
}

/// Reads a 32-bit value in network byte order at a given offset.
pub fn read_u32(data: &[u8], i: usize) -> (r: u32)
    requires
        i + 4 <= data@.len(),
    ensures
        r == be32(data@[i as int], data@[i + 1], data@[i + 2], data@[i + 3]),
{
    (data[i] as u32) * 0x100_0000 + (data[i + 1] as u32) * 0x1_0000 + (data[i + 2] as u32) * 0x100
        + (data[i + 3] as u32)
}

} // verus!
