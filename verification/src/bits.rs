//! Reversal of the bit order inside bytes.

use vstd::prelude::*;

verus! {

/// The byte whose bit `7 - i` is bit `i` of `b`, for every `i` in `0..8`.
pub open spec fn reversed_byte(b: u8) -> u8 {
    ((b & 0x01) << 7) | ((b & 0x02) << 5) | ((b & 0x04) << 3) | ((b & 0x08) << 1)
        | ((b & 0x10) >> 1) | ((b & 0x20) >> 3) | ((b & 0x40) >> 5) | ((b & 0x80) >> 7)
}

/// The sequence that holds, at each position, the reversed byte of `s` at
/// that position.
pub open spec fn reversed_bytes(s: Seq<u8>) -> Seq<u8> {
    Seq::new(s.len(), |i: int| reversed_byte(s[i]))
}

/// Whether bit `i` of `b` is set; bit 0 is the least significant.
pub open spec fn bit_is_set(b: u8, i: u8) -> bool {
    (b >> i) & 1 == 1
}

/// Reverses the bit order of one byte: bit 7 trades places with bit 0,
/// bit 6 with bit 1, bit 5 with bit 2 and bit 4 with bit 3.
pub fn reverse_bits_in_byte(b: u8) -> (r: u8)
    ensures
        r == reversed_byte(b),
{
    let x: u8 = (b >> 4) | (b << 4);
    let y: u8 = ((x & 0b1100_1100) >> 2) | ((x & 0b0011_0011) << 2);
    let z: u8 = ((y & 0b1010_1010) >> 1) | ((y & 0b0101_0101) << 1);
    assert(z == reversed_byte(b)) by (bit_vector)
        requires
            x == (b >> 4) | (b << 4),
            y == ((x & 0b1100_1100) >> 2) | ((x & 0b0011_0011) << 2),
            z == ((y & 0b1010_1010) >> 1) | ((y & 0b0101_0101) << 1),
    ;
    z
}

/// Reverses the bit order of every byte of `bytes_in`. Length and byte
/// order stay as they are.
pub fn reverse_all_bytes(bytes_in: &[u8]) -> (out: Vec<u8>)
    ensures
        out@ == reversed_bytes(bytes_in@),
{
    let n: usize = bytes_in.len();
    let mut out: Vec<u8> = Vec::with_capacity(n);
    let mut i: usize = 0;
    while i < n
        invariant
            n == bytes_in@.len(),
            i <= n,
            out@.len() == i,
            forall|k: int| 0 <= k < i ==> out@[k] == reversed_byte(#[trigger] bytes_in@[k]),
        decreases n - i,
    {
        out.push(reverse_bits_in_byte(bytes_in[i]));
        i += 1;
    }
    assert(out@ =~= reversed_bytes(bytes_in@));
    out
}

/// Reversal mirrors the bit positions: bit `i` of the reversed byte is
/// bit `7 - i` of the byte.
pub proof fn lemma_reversed_byte_mirrors(b: u8, i: u8)
    requires
        i < 8,
    ensures
        bit_is_set(reversed_byte(b), i) == bit_is_set(b, (7 - i) as u8),
{
    assert(((reversed_byte(b) >> i) & 1 == 1) == ((b >> (7 - i) as u8) & 1 == 1)) by (bit_vector)
        requires
            i < 8,
    ;
}

/// Reversing a byte twice gives the byte back.
pub proof fn lemma_reverse_involution(b: u8)
    ensures
        reversed_byte(reversed_byte(b)) == b,
{
    assert(reversed_byte(reversed_byte(b)) == b) by (bit_vector);
}

/// Reversing every byte of a sequence twice gives the sequence back.
pub proof fn lemma_reverse_all_involution(s: Seq<u8>)
    ensures
        reversed_bytes(reversed_bytes(s)) == s,
{
    assert forall|i: int| 0 <= i < s.len() implies reversed_bytes(reversed_bytes(s))[i] == s[i] by {
        lemma_reverse_involution(s[i]);
    }
    assert(reversed_bytes(reversed_bytes(s)) =~= s);
}

} // verus!
