//! The Internet ones'-complement 16-bit checksum.
//!
//! A byte sequence is read as big-endian 16-bit words (an odd trailing byte
//! is padded with a zero), the words are summed, 32-bit carries are folded
//! back into 16 bits, and the result is the ones' complement of the folded
//! sum.

use vstd::prelude::*;

verus! {

/// The plain sum of a byte sequence read as big-endian 16-bit words, with an
/// odd trailing byte padded by zero. Carries are not folded here.
pub open spec fn sum16(s: Seq<u8>) -> int
    decreases s.len(),
{
    if s.len() == 0 {
        0
    } else if s.len() == 1 {
        (s[0] as int) * 256
    } else {
        (s[0] as int) * 256 + (s[1] as int) + sum16(s.skip(2))
    }
}

/// Folds the carries of a word sum back into 16 bits.
pub open spec fn fold16(n: int) -> int
    decreases n,
{
    if n <= 0xffff {
        n
    } else {
        fold16(n / 0x10000 + n % 0x10000)
    }
}

/// The Internet checksum of a byte sequence: the ones' complement of the
/// folded word sum.
pub open spec fn checksum16(s: Seq<u8>) -> u16 {
    (0xffff - fold16(sum16(s))) as u16
}

/// The word sum is never negative.
pub proof fn lemma_sum16_nonneg(s: Seq<u8>)
    ensures
        sum16(s) >= 0,
    decreases s.len(),
{
    if s.len() >= 2 {
        lemma_sum16_nonneg(s.skip(2));
    }
}

/// Folding a non-negative sum lands in the 16-bit range.
pub proof fn lemma_fold16_range(n: int)
    requires
        n >= 0,
    ensures
        0 <= fold16(n) <= 0xffff,
    decreases n,
{
    if n > 0xffff {
        lemma_fold16_range(n / 0x10000 + n % 0x10000);
    }
}

/// The word sum splits over concatenation at an even boundary.
pub proof fn lemma_sum16_concat(u: Seq<u8>, v: Seq<u8>)
    requires
        u.len() % 2 == 0,
    ensures
        sum16(u + v) == sum16(u) + sum16(v),
    decreases u.len(),
{
    if u.len() == 0 {
        assert(u + v =~= v);
    } else {
        assert((u + v).skip(2) =~= u.skip(2) + v);
        lemma_sum16_concat(u.skip(2), v);
    }
}

/// Computes the plain word sum of a byte slice.
pub fn internet_sum(data: &[u8]) -> (r: u64)
    requires
        data@.len() <= 0x1000_0000,
    ensures
        r == sum16(data@),
        r <= 0xffff * data@.len(),
{
    let len = data.len();
    let mut acc: u64 = 0;
    let mut i: usize = 0;
    proof {
        assert(data@.take(0) =~= Seq::<u8>::empty());
    }
    while i + 1 < len
        invariant
            len == data@.len() <= 0x1000_0000,
            i <= len,
            i % 2 == 0,
            acc == sum16(data@.take(i as int)),
            acc <= 0xffff * i,
        decreases len - i,
    {
        let word: u64 = (data[i] as u64) * 256 + (data[i + 1] as u64);
        proof {
            let t = data@.take(i as int);
            let w = data@.subrange(i as int, i + 2);
            assert(data@.take(i + 2) =~= t + w);
            lemma_sum16_concat(t, w);
            assert(sum16(Seq::<u8>::empty()) == 0);
            assert(w.skip(2) =~= Seq::<u8>::empty());
            assert(sum16(w) == (w[0] as int) * 256 + (w[1] as int));
        }
        acc = acc + word;
        i = i + 2;
    }
    if i < len {
        let word: u64 = (data[i] as u64) * 256;
        proof {
            let t = data@.take(i as int);
            let w = data@.subrange(i as int, i + 1);
            assert(data@.take(i + 1) =~= t + w);
            lemma_sum16_concat(t, w);
            assert(sum16(w) == (w[0] as int) * 256);
        }
        acc = acc + word;
        i = i + 1;
    }
    proof {
        assert(data@.take(len as int) =~= data@);
    }
    acc
}

/// Folds carries into 16 bits and takes the ones' complement.
pub fn checksum_finish(sum: u64) -> (r: u16)
    ensures
        r == (0xffff - fold16(sum as int)) as u16,
{
    let mut acc: u64 = sum;
    while acc > 0xffff
        invariant
            fold16(acc as int) == fold16(sum as int),
            acc >= 0,
        decreases acc,
    {
        acc = acc % 0x10000 + acc / 0x10000;
    }
    proof {
        lemma_fold16_range(sum as int);
    }
    (0xffff - acc) as u16
}

/// The Internet checksum of a byte slice.
pub fn internet_checksum(data: &[u8]) -> (r: u16)
    requires
        data@.len() <= 0x1000_0000,
    ensures
        r == checksum16(data@),
{
    let s = internet_sum(data);
    proof {
        lemma_sum16_nonneg(data@);
    }
    checksum_finish(s)
}

} // verus!
