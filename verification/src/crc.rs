//! The CRC-8 trailer that closes every frame.

use vstd::prelude::*;

verus! {

/// The reflected generator polynomial of the checksum.
pub const CRC8_POLY: u8 = 0x8C;

/// One shift of the checksum register: the low bit decides whether the
/// polynomial is folded in.
pub open spec fn crc8_shift(crc: u8) -> u8 {
    if crc & 1 == 1 {
        (crc >> 1) ^ CRC8_POLY
    } else {
        crc >> 1
    }
}

/// The register after `n` shifts.
pub open spec fn crc8_shifts(crc: u8, n: nat) -> u8
    decreases n,
{
    if n == 0 {
        crc
    } else {
        crc8_shift(crc8_shifts(crc, (n - 1) as nat))
    }
}

/// The register after one input byte: the byte is XORed in, then the
/// register is shifted eight times.
pub open spec fn crc8_absorb(crc: u8, byte: u8) -> u8 {
    crc8_shifts(crc ^ byte, 8)
}

/// The checksum of a byte sequence, starting from a zero register.
pub open spec fn crc8(data: Seq<u8>) -> u8
    decreases data.len(),
{
    if data.len() == 0 {
        0
    } else {
        crc8_absorb(crc8(data.drop_last()), data.last())
    }
}

/// Computes the CRC-8 checksum of `data`.
pub fn create_crc8(data: &[u8]) -> (crc: u8)
    ensures
        crc == crc8(data@),
{
    let mut crc: u8 = 0;
    let mut i: usize = 0;
    while i < data.len()
        invariant
            i <= data.len(),
            crc == crc8(data@.take(i as int)),
        decreases data.len() - i,
    {
        let ghost before = crc;
        crc = crc ^ data[i];
        let mut bit: u8 = 0;
        while bit < 8
            invariant
                bit <= 8,
                crc == crc8_shifts(before ^ data@[i as int], bit as nat),
            decreases 8 - bit,
        {
            if crc & 1 == 1 {
                crc = (crc >> 1) ^ CRC8_POLY;
            } else {
                crc = crc >> 1;
            }
            bit = bit + 1;
        }
        proof {
            assert(data@.take(i + 1).drop_last() == data@.take(i as int));
        }
        i = i + 1;
    }
    proof {
        assert(data@.take(i as int) == data@);
    }
    crc
}

/// The checksum of nothing is zero.
pub proof fn lemma_crc8_empty()
    ensures
        crc8(Seq::<u8>::empty()) == 0,
{
}

/// The checksum is computed front to back: the checksum of a sequence with
/// one more byte at its end is the checksum so far with that byte absorbed.
pub proof fn lemma_crc8_push(data: Seq<u8>, byte: u8)
    ensures
        crc8(data.push(byte)) == crc8_absorb(crc8(data), byte),
{
    assert(data.push(byte).drop_last() == data);
}

/// One shift loses nothing: two registers that shift to the same value were
/// the same.
pub proof fn lemma_shift_injective(a: u8, b: u8)
    requires
        crc8_shift(a) == crc8_shift(b),
    ensures
        a == b,
{
    assert((if a & 1 == 1 {
        (a >> 1) ^ 0x8Cu8
    } else {
        a >> 1
    }) == (if b & 1 == 1 {
        (b >> 1) ^ 0x8Cu8
    } else {
        b >> 1
    }) ==> a == b) by (bit_vector);
}

/// Any number of shifts loses nothing.
pub proof fn lemma_shifts_injective(a: u8, b: u8, n: nat)
    requires
        crc8_shifts(a, n) == crc8_shifts(b, n),
    ensures
        a == b,
    decreases n,
{
    if n > 0 {
        lemma_shift_injective(crc8_shifts(a, (n - 1) as nat), crc8_shifts(b, (n - 1) as nat));
        lemma_shifts_injective(a, b, (n - 1) as nat);
    }
}

/// Absorbing a byte loses nothing: from the same register two different
/// bytes lead to different registers, and the same byte leads from different
/// registers to different registers.
pub proof fn lemma_absorb_injective(crc_a: u8, byte_a: u8, crc_b: u8, byte_b: u8)
    requires
        crc8_absorb(crc_a, byte_a) == crc8_absorb(crc_b, byte_b),
    ensures
        crc_a == crc_b <==> byte_a == byte_b,
{
    lemma_shifts_injective(crc_a ^ byte_a, crc_b ^ byte_b, 8);
    assert(crc_a ^ byte_a == crc_b ^ byte_b ==> (crc_a == crc_b <==> byte_a == byte_b))
        by (bit_vector);
}

/// The checksum catches every change of a single byte: two sequences of one
/// length that differ in exactly one place have different checksums.
pub proof fn lemma_crc8_detects_one_changed_byte(a: Seq<u8>, b: Seq<u8>, at: int)
    requires
        a.len() == b.len(),
        0 <= at < a.len(),
        a[at] != b[at],
        forall|i: int| 0 <= i < a.len() && i != at ==> a[i] == b[i],
    ensures
        crc8(a) != crc8(b),
    decreases a.len(),
{
    let front_a = a.drop_last();
    let front_b = b.drop_last();
    if at == a.len() - 1 {
        assert(front_a =~= front_b);
    } else {
        lemma_crc8_detects_one_changed_byte(front_a, front_b, at);
    }
    if crc8(a) == crc8(b) {
        lemma_absorb_injective(crc8(front_a), a.last(), crc8(front_b), b.last());
    }
}

} // verus!
