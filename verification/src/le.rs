//! Little-endian integer decoding over byte sequences.

use vstd::prelude::*;

verus! {

/// `256^k`.
pub open spec fn p256(k: nat) -> nat
    decreases k,
{
    if k == 0 {
        1
    } else {
        256 * p256((k - 1) as nat)
    }
}

/// The unsigned little-endian value of the `n` bytes of `b` starting at `o`.
pub open spec fn le_uint(b: Seq<u8>, o: int, n: nat) -> nat
    decreases n,
{
    if n == 0 {
        0
    } else {
        b[o] as nat + 256 * le_uint(b, o + 1, (n - 1) as nat)
    }
}

pub proof fn lemma_p256_values()
    ensures
        p256(1) == 0x100,
        p256(2) == 0x1_0000,
        p256(3) == 0x100_0000,
        p256(4) == 0x1_0000_0000,
        p256(5) == 0x100_0000_0000,
        p256(6) == 0x1_0000_0000_0000,
        p256(7) == 0x100_0000_0000_0000,
        p256(8) == 0x1_0000_0000_0000_0000,
{
    reveal_with_fuel(p256, 9);
}

pub proof fn lemma_p256_mono(i: nat, j: nat)
    requires
        i <= j,
    ensures
        p256(i) <= p256(j),
    decreases j,
{
    if i < j {
        lemma_p256_mono(i, (j - 1) as nat);
    }
}

pub proof fn lemma_le_uint_bound(b: Seq<u8>, o: int, n: nat)
    ensures
        le_uint(b, o, n) < p256(n),
    decreases n,
{
    if n > 0 {
        lemma_le_uint_bound(b, o + 1, (n - 1) as nat);
    }
}

/// Decodes `n` (1..=8) little-endian bytes of `b` starting at `o`.
pub fn read_le(b: &[u8], o: usize, n: usize) -> (r: u64)
    requires
        1 <= n <= 8,
        o + n <= b@.len(),
    ensures
        r as nat == le_uint(b@, o as int, n as nat),
{
    let blen = b.len();
    let mut acc: u64 = 0;
    let mut i: usize = n;
    proof {
        lemma_p256_values();
    }
    while i > 0
        invariant
            n <= 8,
            o + n <= b@.len(),
            blen == b@.len(),
            i <= n,
            acc as nat == le_uint(b@, o + i, (n - i) as nat),
            acc < p256((n - i) as nat),
            p256(7) == 0x100_0000_0000_0000,
        decreases i,
    {
        proof {
            lemma_p256_mono((n - i) as nat, 7);
        }
        assert(o + i - 1 < b@.len());
        let idx: usize = o + i - 1;
        let byte = b[idx];
        assert(acc * 256 + byte < p256((n - i) as nat) * 256);
        acc = acc * 256 + byte as u64;
        i = i - 1;
    }
    acc
}

/// The little-endian `u16` at `o`.
pub fn read_u16(b: &[u8], o: usize) -> (r: u16)
    requires
        o + 2 <= b@.len(),
    ensures
        r as nat == le_uint(b@, o as int, 2),
{
    proof {
        lemma_le_uint_bound(b@, o as int, 2);
        lemma_p256_values();
    }
    read_le(b, o, 2) as u16
}

/// The little-endian `u32` at `o`.
pub fn read_u32(b: &[u8], o: usize) -> (r: u32)
    requires
        o + 4 <= b@.len(),
    ensures
        r as nat == le_uint(b@, o as int, 4),
{
    proof {
        lemma_le_uint_bound(b@, o as int, 4);
        lemma_p256_values();
    }
    read_le(b, o, 4) as u32
}

/// The little-endian `u64` at `o`.
pub fn read_u64(b: &[u8], o: usize) -> (r: u64)
    requires
        o + 8 <= b@.len(),
    ensures
        r as nat == le_uint(b@, o as int, 8),
{
    read_le(b, o, 8)
}

} // verus!
