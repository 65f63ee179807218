//! Fingerprints are 64-bit vectors. Their distance is the number of bit
//! positions in which two of them differ.

use vstd::prelude::*;

verus! {

/// Whether bit `i` of `x` is set (bit 0 is the least significant one).
pub open spec fn bit(x: u64, i: nat) -> bool {
    (x >> (i as u64)) & 1 == 1
}

/// Number of set bits among the lowest `n` bits of `x`.
pub open spec fn ones_below(x: u64, n: nat) -> nat
    decreases n,
{
    if n == 0 {
        0
    } else {
        ones_below(x, (n - 1) as nat) + if bit(x, (n - 1) as nat) {
            1nat
        } else {
            0nat
        }
    }
}

/// Number of set bits of `x`.
pub open spec fn popcount(x: u64) -> nat {
    ones_below(x, 64)
}

/// Hamming distance of two fingerprints: the number of set bits of their
/// exclusive or.
pub open spec fn hamming(a: u64, b: u64) -> nat {
    popcount(a ^ b)
}

/// The signed integer with the same 64-bit two's complement pattern as `f`.
pub open spec fn signed_value(f: u64) -> int {
    if f < 0x8000_0000_0000_0000 {
        f as int
    } else {
        f as int - 0x1_0000_0000_0000_0000
    }
}

/// The fingerprint whose 64-bit two's complement pattern is that of `s`.
pub open spec fn unsigned_value(s: i64) -> u64 {
    if s >= 0 {
        s as u64
    } else {
        (s + 0x1_0000_0000_0000_0000) as u64
    }
}

/// The value of eight bytes read as one big-endian number.
pub open spec fn be_value(b: Seq<u8>) -> nat
    recommends
        b.len() == 8,
{
    (b[0] as nat) * 0x0100_0000_0000_0000 + (b[1] as nat) * 0x0001_0000_0000_0000 + (b[2] as nat)
        * 0x0000_0100_0000_0000 + (b[3] as nat) * 0x0000_0001_0000_0000 + (b[4] as nat)
        * 0x0000_0000_0100_0000 + (b[5] as nat) * 0x0000_0000_0001_0000 + (b[6] as nat)
        * 0x0000_0000_0000_0100 + (b[7] as nat)
}

/// Among `n` bits no more than `n` are set.
pub proof fn lemma_ones_below_bounded(x: u64, n: nat)
    ensures
        ones_below(x, n) <= n,
    decreases n,
{
    if n > 0 {
        lemma_ones_below_bounded(x, (n - 1) as nat);
    }
}

proof fn lemma_xor_bit(a: u64, b: u64, i: nat)
    requires
        i < 64,
    ensures
        bit(a ^ b, i) == (bit(a, i) != bit(b, i)),
{
    let s = i as u64;
    assert(((a ^ b) >> s) & 1 == 1 <==> (((a >> s) & 1 == 1) != ((b >> s) & 1 == 1)))
        by (bit_vector);
}

proof fn lemma_low_bits_clear(x: u64, n: nat)
    requires
        n <= 64,
        ones_below(x, n) == 0,
    ensures
        n < 64 ==> x & (((1u64 << (n as u64)) - 1) as u64) == 0,
        n == 64 ==> x == 0,
    decreases n,
{
    if n == 0 {
        assert(x & (((1u64 << 0u64) - 1) as u64) == 0) by (bit_vector);
    } else {
        let m = (n - 1) as u64;
        lemma_low_bits_clear(x, (n - 1) as nat);
        assert(!bit(x, (n - 1) as nat));
        if n < 64 {
            let k = n as u64;
            assert(x & (((1u64 << k) - 1) as u64) == 0) by (bit_vector)
                requires
                    m < 63,
                    k == m + 1,
                    x & (((1u64 << m) - 1) as u64) == 0,
                    (x >> m) & 1 != 1,
            ;
        } else {
            assert(x == 0) by (bit_vector)
                requires
                    m == 63,
                    x & (((1u64 << m) - 1) as u64) == 0,
                    (x >> m) & 1 != 1,
            ;
        }
    }
}

proof fn lemma_ones_below_zero(n: nat)
    requires
        n <= 64,
    ensures
        ones_below(0, n) == 0,
    decreases n,
{
    if n > 0 {
        let m = (n - 1) as u64;
        lemma_ones_below_zero((n - 1) as nat);
        assert((0u64 >> m) & 1 != 1) by (bit_vector);
    }
}

/// A fingerprint has no set bit exactly when it is zero.
pub proof fn lemma_popcount_zero(x: u64)
    ensures
        popcount(x) == 0 <==> x == 0,
{
    if x == 0 {
        lemma_ones_below_zero(64);
    }
    if popcount(x) == 0 {
        lemma_low_bits_clear(x, 64);
    }
}

/// The distance of two fingerprints does not depend on their order.
pub proof fn lemma_hamming_symmetric(a: u64, b: u64)
    ensures
        hamming(a, b) == hamming(b, a),
{
    assert(a ^ b == b ^ a) by (bit_vector);
}

/// Two fingerprints are at distance zero exactly when they are equal.
pub proof fn lemma_hamming_zero_iff_equal(a: u64, b: u64)
    ensures
        hamming(a, b) == 0 <==> a == b,
{
    lemma_popcount_zero(a ^ b);
    assert(a ^ b == 0 <==> a == b) by (bit_vector);
}

/// No two fingerprints are further apart than the fingerprint is wide.
pub proof fn lemma_hamming_bounded(a: u64, b: u64)
    ensures
        hamming(a, b) <= 64,
{
    lemma_ones_below_bounded(a ^ b, 64);
}

proof fn lemma_triangle_below(a: u64, b: u64, c: u64, n: nat)
    requires
        n <= 64,
    ensures
        ones_below(a ^ c, n) <= ones_below(a ^ b, n) + ones_below(b ^ c, n),
    decreases n,
{
    if n > 0 {
        let i = (n - 1) as nat;
        lemma_triangle_below(a, b, c, i);
        lemma_xor_bit(a, c, i);
        lemma_xor_bit(a, b, i);
        lemma_xor_bit(b, c, i);
    }
}

/// The distance obeys the triangle inequality, so it is a metric on
/// fingerprints.
pub proof fn lemma_hamming_triangle(a: u64, b: u64, c: u64)
    ensures
        hamming(a, c) <= hamming(a, b) + hamming(b, c),
{
    lemma_triangle_below(a, b, c, 64);
}

/// Counts the set bits of `x`.
pub fn count_ones(x: u64) -> (n: u64)
    ensures
        n == popcount(x),
        n <= 64,
{
    let mut n: u64 = 0;
    let mut i: u64 = 0;
    while i < 64
        invariant
            i <= 64,
            n == ones_below(x, i as nat),
            n <= i,
        decreases 64 - i,
    {
        if (x >> i) & 1 == 1 {
            n = n + 1;
        }
        i = i + 1;
    }
    n
}

/// Computes the Hamming distance of two fingerprints.
pub fn hamming_distance(a: u64, b: u64) -> (d: u64)
    ensures
        d == hamming(a, b),
        d <= 64,
{
    count_ones(a ^ b)
}

/// Reads eight bytes as a big-endian fingerprint.
pub fn from_be_bytes(bytes: &[u8; 8]) -> (f: u64)
    ensures
        f == be_value(bytes@),
{
    let b0: u64 = bytes[0] as u64;
    let b1: u64 = bytes[1] as u64;
    let b2: u64 = bytes[2] as u64;
    let b3: u64 = bytes[3] as u64;
    let b4: u64 = bytes[4] as u64;
    let b5: u64 = bytes[5] as u64;
    let b6: u64 = bytes[6] as u64;
    let b7: u64 = bytes[7] as u64;
    b0 * 0x0100_0000_0000_0000 + b1 * 0x0001_0000_0000_0000 + b2 * 0x0000_0100_0000_0000 + b3
        * 0x0000_0001_0000_0000 + b4 * 0x0000_0000_0100_0000 + b5 * 0x0000_0000_0001_0000 + b6
        * 0x0000_0000_0000_0100 + b7
}

/// Reinterprets a fingerprint as the signed integer with the same bit
/// pattern, the form in which fingerprints are stored and reported.
pub fn to_signed(f: u64) -> (s: i64)
    ensures
        s == signed_value(f),
{
    if f < 0x8000_0000_0000_0000 {
        f as i64
    } else {
        let low: u64 = f - 0x8000_0000_0000_0000;
        (low as i64) + i64::MIN
    }
}

/// Reinterprets a stored signed integer as the fingerprint with the same
/// bit pattern.
pub fn from_signed(s: i64) -> (f: u64)
    ensures
        f == unsigned_value(s),
        signed_value(f) == s,
{
    if s >= 0 {
        s as u64
    } else {
        let low: i64 = s - i64::MIN;
        (low as u64) + 0x8000_0000_0000_0000
    }
}

/// Going to the signed form and back, or the other way round, changes
/// nothing: the two forms name the same bit patterns.
pub proof fn lemma_signed_round_trip(f: u64, s: i64)
    ensures
        i64::MIN <= signed_value(f) <= i64::MAX,
        unsigned_value(signed_value(f) as i64) == f,
        signed_value(unsigned_value(s)) == s,
{
}

} // verus!
