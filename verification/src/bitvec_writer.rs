//! An append-only sequence of bits.

use vstd::prelude::*;
use vstd::arithmetic::power2::{pow2, lemma_pow2_unfold, lemma2_to64};
use crate::bits::{bits_bytes, bits_value, pad_to_byte, push_value_bits, ue_bits, ue_prefix_len, value_bits, zero_bits,
    lemma_ue_prefix_len_bounds};

verus! {

/// Collects bits in the order in which they are written.
pub struct BitVecWriter {
    bits: Vec<bool>,
}

impl View for BitVecWriter {
    type V = Seq<bool>;

    closed spec fn view(&self) -> Seq<bool> {
        self.bits@
    }
}

impl BitVecWriter {
    /// A writer that holds no bit.
    pub fn new() -> (writer: BitVecWriter)
        ensures
            writer@ == Seq::<bool>::empty(),
    {
        BitVecWriter { bits: Vec::new() }
    }

    /// Appends one bit.
    pub fn write(&mut self, bit: bool)
        ensures
            final(self)@ == old(self)@.push(bit),
    {
        self.bits.push(bit);
    }

    /// Appends `n` zero bits.
    pub fn write_zeros(&mut self, n: usize)
        ensures
            final(self)@ == old(self)@ + zero_bits(n as nat),
    {
        let mut i: usize = 0;
        while i < n
            invariant
                i <= n,
                self@ == old(self)@ + zero_bits(i as nat),
            decreases n - i,
        {
            self.bits.push(false);
            i += 1;
            assert(self@ =~= old(self)@ + zero_bits(i as nat));
        }
        assert(old(self)@ + zero_bits(0) =~= old(self)@);
    }

    /// Appends the lowest `n` bits of `value`, most significant first.
    pub fn write_n(&mut self, value: u64, n: u32)
        ensures
            final(self)@ == old(self)@ + value_bits(value as nat, n as nat),
    {
        push_value_bits(&mut self.bits, value as u128, n);
    }

    /// Appends the unsigned Exp-Golomb code of `value`.
    pub fn write_ue(&mut self, value: u64)
        ensures
            final(self)@ == old(self)@ + ue_bits(value as nat),
    {
        let mut rest: u64 = value;
        let mut k: u32 = 0;
        proof {
            lemma_ue_prefix_len_bounds(value as nat);
            lemma2_to64();
            if ue_prefix_len(value as nat) > 64 {
                vstd::arithmetic::power2::lemma_pow2_strictly_increases(
                    64,
                    ue_prefix_len(value as nat),
                );
            }
        }
        while rest > 0
            invariant
                ue_prefix_len(value as nat) == k + ue_prefix_len(rest as nat),
                k + ue_prefix_len(rest as nat) <= 64,
            decreases rest,
        {
            rest = (rest - 1) / 2;
            k += 1;
        }
        self.write_zeros(k as usize);
        push_value_bits(&mut self.bits, value as u128 + 1, k + 1);
        assert(self@ =~= old(self)@ + ue_bits(value as nat));
    }

    /// Appends `bits` as they stand.
    pub fn write_bits(&mut self, bits: &Vec<bool>)
        ensures
            final(self)@ == old(self)@ + bits@,
    {
        let mut i: usize = 0;
        assert(old(self)@ + bits@.take(0) =~= old(self)@);
        while i < bits.len()
            invariant
                i <= bits.len(),
                self@ == old(self)@ + bits@.take(i as int),
            decreases bits.len() - i,
        {
            self.bits.push(bits[i]);
            i += 1;
            assert(self@ =~= old(self)@ + bits@.take(i as int));
        }
        assert(bits@.take(i as int) =~= bits@);
    }

    /// Whether the number of bits written is a multiple of eight.
    pub fn is_aligned(&self) -> (aligned: bool)
        ensures
            aligned == (self@.len() % 8 == 0),
    {
        self.bits.len() % 8 == 0
    }

    /// The number of bits written.
    pub fn len(&self) -> (n: usize)
        ensures
            n == self@.len(),
    {
        self.bits.len()
    }

    /// The bits written so far.
    pub fn bits(&self) -> (bits: &Vec<bool>)
        ensures
            bits@ == self@,
    {
        &self.bits
    }

    /// The bits written so far as bytes; the last byte is filled up with zero bits.
    pub fn as_bytes(&self) -> (bytes: Vec<u8>)
        ensures
            bytes@ == bits_bytes(self@),
    {
        let n = self.bits.len();
        let count = n / 8 + if n % 8 == 0 { 0 } else { 1 };
        let ghost padded = pad_to_byte(self@);
        let mut bytes: Vec<u8> = Vec::new();
        let mut i: usize = 0;
        while i < count
            invariant
                n == self.bits.len(),
                count == (n + 7) / 8,
                padded == pad_to_byte(self@),
                i <= count,
                bytes@ == Seq::new(
                    i as nat,
                    |j: int| bits_value(padded.subrange(8 * j, 8 * j + 8)) as u8,
                ),
            decreases count - i,
        {
            let mut byte: u8 = 0;
            let mut j: usize = 0;
            proof {
                lemma2_to64();
                assert(padded.subrange(8 * i, 8 * i + 0).len() == 0);
            }
            while j < 8
                invariant
                    n == self.bits.len(),
                    i < count,
                    count == (n + 7) / 8,
                    padded == pad_to_byte(self@),
                    j <= 8,
                    byte == bits_value(padded.subrange(8 * i, 8 * i + j)),
                    byte < pow2(j as nat),
                decreases 8 - j,
            {
                let at = i * 8 + j;
                let bit = at < n && self.bits[at];
                proof {
                    let prev = padded.subrange(8 * i, 8 * i + j);
                    let next = padded.subrange(8 * i, 8 * i + j + 1);
                    assert(next.drop_last() =~= prev);
                    assert(next.last() == padded[at as int]);
                    assert(padded[at as int] == bit);
                    lemma_pow2_unfold((j + 1) as nat);
                    lemma2_to64();
                    assert(pow2(j as nat) <= 128) by {
                        assert(j == 0 || j == 1 || j == 2 || j == 3 || j == 4 || j == 5 || j == 6
                            || j == 7);
                    }
                }
                byte = byte * 2 + if bit { 1 } else { 0 };
                j += 1;
            }
            bytes.push(byte);
            i += 1;
            assert(bytes@ =~= Seq::new(
                i as nat,
                |j: int| bits_value(padded.subrange(8 * j, 8 * j + 8)) as u8,
            ));
        }
        bytes
    }
}

} // verus!
