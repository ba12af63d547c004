//! The checksum of an RPU: CRC-32 with the polynomial `0x04C11DB7`, the
//! start value `0xFFFFFFFF`, no reflection and no final inversion.

use vstd::prelude::*;
use crate::bits::{bytes_bits, value_bits};

verus! {

/// The polynomial, without its leading term.
pub const POLYNOMIAL: u32 = 0x04C1_1DB7;

/// The start value of the register.
pub const INITIAL: u32 = 0xFFFF_FFFF;

/// The register after one more bit of the message.
pub open spec fn spec_crc_step(register: u32, bit: bool) -> u32 {
    if (register >= 0x8000_0000) != bit {
        (register << 1) ^ POLYNOMIAL
    } else {
        register << 1
    }
}

/// The register after the bits of a message, first bit first.
pub open spec fn crc_bits(register: u32, bits: Seq<bool>) -> u32
    decreases bits.len(),
{
    if bits.len() == 0 {
        register
    } else {
        spec_crc_step(crc_bits(register, bits.drop_last()), bits.last())
    }
}

/// The checksum of `bytes`.
pub open spec fn spec_crc32(bytes: Seq<u8>) -> u32 {
    crc_bits(INITIAL, bytes_bits(bytes))
}

/// The register after one more bit of the message.
#[verifier::when_used_as_spec(spec_crc_step)]
pub fn crc_step(register: u32, bit: bool) -> (next: u32)
    ensures
        next == spec_crc_step(register, bit),
{
    if (register >= 0x8000_0000) != bit {
        (register << 1) ^ POLYNOMIAL
    } else {
        register << 1
    }
}

/// The register after the bits of `first` and then those of `second`.
pub proof fn lemma_crc_bits_concat(register: u32, first: Seq<bool>, second: Seq<bool>)
    ensures
        crc_bits(register, first + second) == crc_bits(crc_bits(register, first), second),
    decreases second.len(),
{
    if second.len() == 0 {
        assert(first + second =~= first);
    } else {
        lemma_crc_bits_concat(register, first, second.drop_last());
        assert((first + second).drop_last() =~= first + second.drop_last());
    }
}

fn crc_byte(register: u32, byte: u8) -> (next: u32)
    ensures
        next == crc_bits(register, value_bits(byte as nat, 8)),
{
    let mut crc = register;
    let mut rest: u8 = byte;
    let mut bits: Vec<bool> = Vec::new();
    crate::bits::push_value_bits(&mut bits, byte as u128, 8);
    proof {
        crate::bits::lemma_value_bits_len(byte as nat, 8);
    }
    let mut i: usize = 0;
    assert(bits@.take(0) =~= Seq::<bool>::empty());
    while i < 8
        invariant
            i <= 8,
            bits@.len() == 8,
            crc == crc_bits(register, bits@.take(i as int)),
        decreases 8 - i,
    {
        proof {
            assert(bits@.take(i + 1).drop_last() =~= bits@.take(i as int));
        }
        crc = crc_step(crc, bits[i]);
        i += 1;
    }
    assert(bits@.take(8) =~= bits@);
    crc
}

/// The checksum of the bytes of `data` from `start` up to `end`.
pub fn compute_crc32_range(data: &Vec<u8>, start: usize, end: usize) -> (crc: u32)
    requires
        start <= end <= data@.len(),
    ensures
        crc == spec_crc32(data@.subrange(start as int, end as int)),
{
    let mut crc: u32 = INITIAL;
    let mut i: usize = start;
    assert(data@.subrange(start as int, start as int) =~= Seq::<u8>::empty());
    while i < end
        invariant
            start <= i <= end,
            end <= data@.len(),
            crc == spec_crc32(data@.subrange(start as int, i as int)),
        decreases end - i,
    {
        proof {
            assert(data@.subrange(start as int, i + 1).drop_last() =~= data@.subrange(
                start as int,
                i as int,
            ));
            lemma_crc_bits_concat(
                INITIAL,
                bytes_bits(data@.subrange(start as int, i as int)),
                value_bits(data@[i as int] as nat, 8),
            );
        }
        crc = crc_byte(crc, data[i]);
        i += 1;
    }
    crc
}

/// The checksum of `data`.
pub fn compute_crc32(data: &Vec<u8>) -> (crc: u32)
    ensures
        crc == spec_crc32(data@),
{
    assert(data@.subrange(0, data@.len() as int) =~= data@);
    compute_crc32_range(data, 0, data.len())
}

} // verus!
