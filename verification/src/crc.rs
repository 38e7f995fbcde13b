//! CRC-32/MPEG-2 over a zero-padded, word-reordered view of the input.
//!
//! The register starts at `0xFFFFFFFF`, the polynomial is `0x04C11DB7`,
//! neither input nor output bits are reflected, and nothing is XORed onto
//! the result.

use vstd::prelude::*;
use crate::bits::bit_is_set;

verus! {

/// The generator polynomial, without its leading term.
pub const CRC_POLYNOMIAL: u32 = 0x04C1_1DB7;

/// The value the register starts from.
pub const CRC_INITIAL: u32 = 0xFFFF_FFFF;

/// The register after one input bit: it moves up by one place, and the
/// polynomial is XORed in when the bit that left differs from the input bit.
pub open spec fn crc_shift(reg: u32, bit: bool) -> u32 {
    if (reg & 0x8000_0000 != 0) != bit {
        (reg << 1) ^ CRC_POLYNOMIAL
    } else {
        reg << 1
    }
}

/// The register after the `n` most significant bits of `byte`, taken from
/// bit 7 downwards.
pub open spec fn crc_after_bits(reg: u32, byte: u8, n: nat) -> u32
    decreases n,
{
    if n == 0 {
        reg
    } else {
        crc_shift(crc_after_bits(reg, byte, (n - 1) as nat), bit_is_set(byte, (8 - n) as u8))
    }
}

/// The register after all eight bits of `byte`.
pub open spec fn crc_after_byte(reg: u32, byte: u8) -> u32 {
    crc_after_bits(reg, byte, 8)
}

/// The register after every byte of `s`, first byte first.
pub open spec fn crc_after_bytes(reg: u32, s: Seq<u8>) -> u32
    decreases s.len(),
{
    if s.len() == 0 {
        reg
    } else {
        crc_after_byte(crc_after_bytes(reg, s.drop_last()), s.last())
    }
}

/// How many zero bytes bring a length of `n` up to a multiple of four.
pub open spec fn padding_len(n: nat) -> nat {
    ((4 - n % 4) % 4) as nat
}

/// `s` followed by as few zero bytes as make its length a multiple of four.
pub open spec fn zero_padded(s: Seq<u8>) -> Seq<u8> {
    s + Seq::new(padding_len(s.len()), |i: int| 0u8)
}

/// `s` with the byte order turned round inside each group of four bytes.
/// Bytes after the last whole group are left out; a padded sequence has
/// none.
pub open spec fn word_reordered(s: Seq<u8>) -> Seq<u8> {
    Seq::new((s.len() - s.len() % 4) as nat, |i: int| s[i - i % 4 + (3 - i % 4)])
}

/// The four bytes of `x`, least significant first.
pub open spec fn le_bytes(x: u32) -> Seq<u8> {
    seq![
        (x % 0x100) as u8,
        (x / 0x100 % 0x100) as u8,
        (x / 0x1_0000 % 0x100) as u8,
        (x / 0x100_0000) as u8,
    ]
}

/// The checksum of `s`: the final register over the padded and reordered
/// bytes, least significant byte first.
pub open spec fn checksum(s: Seq<u8>) -> Seq<u8> {
    le_bytes(crc_after_bytes(CRC_INITIAL, word_reordered(zero_padded(s))))
}

/// Copies `data` and appends zero bytes until the length is a multiple of
/// four.
pub fn pad_to_words(data: &[u8]) -> (padded: Vec<u8>)
    ensures
        padded@ == zero_padded(data@),
        padded@.len() % 4 == 0,
{
    let n: usize = data.len();
    let mut padded: Vec<u8> = Vec::with_capacity(n);
    let mut i: usize = 0;
    while i < n
        invariant
            n == data@.len(),
            i <= n,
            padded@ == data@.take(i as int),
        decreases n - i,
    {
        padded.push(data[i]);
        i += 1;
        assert(padded@ =~= data@.take(i as int));
    }
    assert(data@.take(n as int) =~= data@);
    let rem: usize = n % 4;
    let pad: usize = if rem == 0 { 0 } else { 4 - rem };
    let mut k: usize = 0;
    while k < pad
        invariant
            pad == padding_len(data@.len()),
            k <= pad,
            padded@ == data@ + Seq::new(k as nat, |i: int| 0u8),
        decreases pad - k,
    {
        padded.push(0u8);
        k += 1;
        assert(padded@ =~= data@ + Seq::new(k as nat, |i: int| 0u8));
    }
    padded
}

/// Turns the byte order round inside each group of four bytes. Bytes after
/// the last whole group are left out.
pub fn reorder_words(padded: &[u8]) -> (out: Vec<u8>)
    ensures
        out@ == word_reordered(padded@),
{
    let n: usize = padded.len();
    let whole: usize = n - n % 4;
    let mut out: Vec<u8> = Vec::with_capacity(whole);
    let mut k: usize = 0;
    while k < whole
        invariant
            n == padded@.len(),
            whole == n - n % 4,
            k % 4 == 0,
            k <= whole,
            out@.len() == k,
            forall|i: int| 0 <= i < k ==> #[trigger] out@[i] == padded@[i - i % 4 + (3 - i % 4)],
        decreases whole - k,
    {
        out.push(padded[k + 3]);
        out.push(padded[k + 2]);
        out.push(padded[k + 1]);
        out.push(padded[k]);
        k += 4;
    }
    assert(out@ =~= word_reordered(padded@));
    out
}

/// Feeds one byte to the register, most significant bit first.
pub fn crc32_mpeg2_update(reg: u32, byte: u8) -> (next: u32)
    ensures
        next == crc_after_byte(reg, byte),
{
    let mut crc: u32 = reg;
    let mut cur: u32 = (byte as u32) << 24;
    let mut j: u8 = 0;
    assert(cur == cur << 0u32) by (bit_vector);
    while j < 8
        invariant
            j <= 8,
            crc == crc_after_bits(reg, byte, j as nat),
            cur == ((byte as u32) << 24) << (j as u32),
        decreases 8 - j,
    {
        let top: u32 = (crc ^ cur) & 0x8000_0000;
        let fed: u32 = if top != 0 { CRC_POLYNOMIAL } else { 0 };
        let next_crc: u32 = (crc << 1) ^ fed;
        let next_cur: u32 = cur << 1;
        proof {
            let i: u8 = (7 - j) as u8;
            assert(((top != 0) == ((crc & 0x8000_0000 != 0) != ((byte >> i) & 1 == 1)))
                && (crc << 1) ^ 0 == crc << 1
                && next_cur == ((byte as u32) << 24) << ((j + 1) as u32)) by (bit_vector)
                requires
                    j < 8,
                    i == 7 - j,
                    cur == ((byte as u32) << 24) << (j as u32),
                    top == (crc ^ cur) & 0x8000_0000,
                    next_cur == cur << 1,
            ;
            assert(next_crc == crc_shift(crc, bit_is_set(byte, i)));
            assert((8 - (j + 1) as nat) as u8 == i);
        }
        crc = next_crc;
        cur = next_cur;
        j += 1;
    }
    crc
}

/// Runs the register over `data` as it stands, starting from
/// `CRC_INITIAL`.
pub fn crc32_mpeg2(data: &[u8]) -> (crc: u32)
    ensures
        crc == crc_after_bytes(CRC_INITIAL, data@),
{
    let n: usize = data.len();
    let mut crc: u32 = CRC_INITIAL;
    let mut i: usize = 0;
    while i < n
        invariant
            n == data@.len(),
            i <= n,
            crc == crc_after_bytes(CRC_INITIAL, data@.take(i as int)),
        decreases n - i,
    {
        crc = crc32_mpeg2_update(crc, data[i]);
        i += 1;
        assert(data@.take(i as int).drop_last() =~= data@.take(i - 1));
    }
    assert(data@.take(n as int) =~= data@);
    crc
}

/// The checksum of a frame body: `data_in` is padded with zero bytes to a
/// multiple of four, the byte order is turned round inside each group of
/// four, the register is run over the result, and its final value is given
/// least significant byte first.
pub fn crc32_mpeg2_with_padding(data_in: &[u8]) -> (out: [u8; 4])
    ensures
        out@ == checksum(data_in@),
{
    let padded: Vec<u8> = pad_to_words(data_in);
    let be_words: Vec<u8> = reorder_words(padded.as_slice());
    let crc: u32 = crc32_mpeg2(be_words.as_slice());
    let b0: u8 = (crc & 0xff) as u8;
    let b1: u8 = ((crc >> 8) & 0xff) as u8;
    let b2: u8 = ((crc >> 16) & 0xff) as u8;
    let b3: u8 = (crc >> 24) as u8;
    assert(b0 == (crc % 0x100) as u8 && b1 == (crc / 0x100 % 0x100) as u8
        && b2 == (crc / 0x1_0000 % 0x100) as u8 && b3 == (crc / 0x100_0000) as u8) by (bit_vector)
        requires
            b0 == (crc & 0xff) as u8,
            b1 == ((crc >> 8) & 0xff) as u8,
            b2 == ((crc >> 16) & 0xff) as u8,
            b3 == (crc >> 24) as u8,
    ;
    let out: [u8; 4] = [b0, b1, b2, b3];
    assert(out@ =~= checksum(data_in@));
    out
}

/// The checksum of no bytes is the initial register, `FF FF FF FF`:
/// nothing is padded and nothing is fed.
pub proof fn lemma_checksum_of_nothing()
    ensures
        zero_padded(Seq::<u8>::empty()) == Seq::<u8>::empty(),
        checksum(Seq::<u8>::empty()) == seq![0xFFu8, 0xFFu8, 0xFFu8, 0xFFu8],
{
    let nothing = Seq::<u8>::empty();
    assert(zero_padded(nothing) =~= nothing);
    assert(word_reordered(nothing) =~= nothing);
    assert(crc_after_bytes(CRC_INITIAL, nothing) == CRC_INITIAL);
    assert(le_bytes(CRC_INITIAL) =~= seq![0xFFu8, 0xFFu8, 0xFFu8, 0xFFu8]);
}

/// A checksum has four bytes, and they give the final register back,
/// least significant byte first.
pub proof fn lemma_checksum_holds_register(s: Seq<u8>)
    ensures
        checksum(s).len() == 4,
        crc_after_bytes(CRC_INITIAL, word_reordered(zero_padded(s))) == checksum(s)[0] + checksum(
            s,
        )[1] * 0x100 + checksum(s)[2] * 0x1_0000 + checksum(s)[3] * 0x100_0000,
{
    let x: u32 = crc_after_bytes(CRC_INITIAL, word_reordered(zero_padded(s)));
    let b0: u32 = le_bytes(x)[0] as u32;
    let b1: u32 = le_bytes(x)[1] as u32;
    let b2: u32 = le_bytes(x)[2] as u32;
    let b3: u32 = le_bytes(x)[3] as u32;
    assert(b0 == x % 0x100 && b1 == x / 0x100 % 0x100 && b2 == x / 0x1_0000 % 0x100 && b3 == x
        / 0x100_0000);
    assert(x == b0 + b1 * 0x100 + b2 * 0x1_0000 + b3 * 0x100_0000) by (bit_vector)
        requires
            b0 == x % 0x100,
            b1 == x / 0x100 % 0x100,
            b2 == x / 0x1_0000 % 0x100,
            b3 == x / 0x100_0000,
    ;
}

/// Padding brings the length up to the next multiple of four, by at most
/// three bytes, and leaves a sequence of such a length as it is.
pub proof fn lemma_zero_padded_length(s: Seq<u8>)
    ensures
        zero_padded(s).len() % 4 == 0,
        s.len() <= zero_padded(s).len() < s.len() + 4,
        s.len() % 4 == 0 ==> zero_padded(s) == s,
        zero_padded(zero_padded(s)) == zero_padded(s),
        word_reordered(zero_padded(s)).len() == zero_padded(s).len(),
{
    if s.len() % 4 == 0 {
        assert(zero_padded(s) =~= s);
    }
    let p = zero_padded(s);
    assert(zero_padded(p) =~= p);
}

/// The checksum does not tell an input from its padded form: zero bytes
/// at the end, up to the next multiple of four, change nothing.
pub proof fn lemma_checksum_of_padded(s: Seq<u8>)
    ensures
        checksum(zero_padded(s)) == checksum(s),
{
    lemma_zero_padded_length(s);
}

/// The register can be run over a sequence piece by piece: after `s + t`
/// it is where running over `t` brings it from where it is after `s`.
pub proof fn lemma_crc_after_concat(reg: u32, s: Seq<u8>, t: Seq<u8>)
    ensures
        crc_after_bytes(reg, s + t) == crc_after_bytes(crc_after_bytes(reg, s), t),
    decreases t.len(),
{
    if t.len() == 0 {
        assert(s + t =~= s);
    } else {
        assert((s + t).drop_last() =~= s + t.drop_last());
        assert((s + t).last() == t.last());
        lemma_crc_after_concat(reg, s, t.drop_last());
    }
}

} // verus!
