//! A cursor over a sequence of bits.

use vstd::prelude::*;
use vstd::arithmetic::power2::lemma2_to64;
use crate::bits::{
    bits_value, bytes_bits, push_value_bits, spec_get_n, spec_get_ue, lemma_bits_value_bound,
    lemma_bits_value_leading_one, lemma_leading_zeros_count,
};
use crate::error::RpuError;

verus! {

/// Reads bits front to back. A read that fails leaves the cursor where it was.
pub struct BitVecReader {
    bits: Vec<bool>,
    offset: usize,
}

impl BitVecReader {
    /// All the bits, read or not.
    pub closed spec fn bits(&self) -> Seq<bool> {
        self.bits@
    }

    /// How many bits have been read.
    pub closed spec fn position(&self) -> nat {
        if self.offset <= self.bits.len() {
            self.offset as nat
        } else {
            self.bits.len() as nat
        }
    }

    /// The bits that have not been read yet.
    pub open spec fn remaining(&self) -> Seq<bool> {
        self.bits().skip(self.position() as int)
    }

    /// The cursor never stands beyond the last bit.
    pub proof fn lemma_position_in_range(&self)
        ensures
            self.position() <= self.bits().len(),
            self.remaining().len() == self.bits().len() - self.position(),
    {
    }

    /// A reader at the first bit of `data`.
    pub fn new(data: &Vec<u8>) -> (reader: BitVecReader)
        ensures
            reader.bits() == bytes_bits(data@),
            reader.position() == 0,
    {
        let mut bits: Vec<bool> = Vec::new();
        let mut i: usize = 0;
        while i < data.len()
            invariant
                i <= data.len(),
                bits@ == bytes_bits(data@.take(i as int)),
            decreases data.len() - i,
        {
            push_value_bits(&mut bits, data[i] as u128, 8);
            assert(data@.take(i + 1).drop_last() =~= data@.take(i as int));
            i += 1;
        }
        assert(data@.take(i as int) =~= data@);
        BitVecReader { bits, offset: 0 }
    }

    /// A reader at the first of `bits`.
    pub fn from_bits(bits: Vec<bool>) -> (reader: BitVecReader)
        ensures
            reader.bits() == bits@,
            reader.position() == 0,
    {
        BitVecReader { bits, offset: 0 }
    }

    /// The number of bits left to read.
    pub fn available(&self) -> (n: usize)
        ensures
            n == self.remaining().len(),
    {
        if self.offset <= self.bits.len() {
            self.bits.len() - self.offset
        } else {
            0
        }
    }

    /// Whether the cursor stands at the start of a byte.
    pub fn is_aligned(&self) -> (aligned: bool)
        ensures
            aligned == (self.position() % 8 == 0),
    {
        if self.offset <= self.bits.len() {
            self.offset % 8 == 0
        } else {
            self.bits.len() % 8 == 0
        }
    }

    /// The index of the byte in which the cursor stands.
    pub fn byte_offset(&self) -> (index: usize)
        ensures
            index == self.position() / 8,
    {
        if self.offset <= self.bits.len() {
            self.offset / 8
        } else {
            self.bits.len() / 8
        }
    }

    /// Reads one bit.
    pub fn get(&mut self) -> (r: Result<bool, RpuError>)
        ensures
            final(self).bits() == old(self).bits(),
            old(self).remaining().len() == 0 ==> r == Err::<bool, _>(RpuError::Truncated)
                && final(self).position() == old(self).position(),
            old(self).remaining().len() > 0 ==> r == Ok::<_, RpuError>(old(self).remaining()[0])
                && final(self).position() == old(self).position() + 1,
    {
        if self.offset < self.bits.len() {
            let bit = self.bits[self.offset];
            self.offset += 1;
            Ok(bit)
        } else {
            Err(RpuError::Truncated)
        }
    }

    fn take_value(&mut self, n: u32) -> (value: u64)
        requires
            n <= 64,
            n <= old(self).remaining().len(),
        ensures
            final(self).bits() == old(self).bits(),
            final(self).position() == old(self).position() + n,
            value == bits_value(old(self).remaining().take(n as int)),
    {
        if self.offset > self.bits.len() {
            self.offset = self.bits.len();
        }
        let ghost rem = self.remaining();
        let mut value: u64 = 0;
        let mut i: u32 = 0;
        assert(rem.take(0).len() == 0);
        while i < n
            invariant
                n <= 64,
                i <= n,
                self.bits() == old(self).bits(),
                rem == old(self).remaining(),
                n <= rem.len(),
                self.offset == old(self).position() + i,
                self.offset <= self.bits.len(),
                value == bits_value(rem.take(i as int)),
            decreases n - i,
        {
            let bit = self.bits[self.offset];
            proof {
                let prev = rem.take(i as int);
                let next = rem.take(i + 1);
                assert(next.drop_last() =~= prev);
                assert(next.last() == bit);
                lemma_bits_value_bound(next);
                lemma2_to64();
                if i + 1 < 64 {
                    vstd::arithmetic::power2::lemma_pow2_strictly_increases((i + 1) as nat, 64);
                }
            }
            value = value * 2 + if bit { 1 } else { 0 };
            self.offset += 1;
            i += 1;
        }
        value
    }

    /// Reads `n` bits as a number, most significant bit first.
    pub fn get_n(&mut self, n: u32) -> (r: Result<u32, RpuError>)
        requires
            n <= 32,
        ensures
            final(self).bits() == old(self).bits(),
            match spec_get_n(old(self).remaining(), n as nat) {
                Ok((value, rest)) => r == Ok::<_, RpuError>(value as u32) && value <= u32::MAX
                    && final(self).remaining() == rest
                    && final(self).position() == old(self).position() + n,
                Err(e) => r == Err::<u32, _>(e) && final(self).position() == old(self).position(),
            },
    {
        if self.available() < n as usize {
            return Err(RpuError::Truncated);
        }
        proof {
            lemma_bits_value_bound(self.remaining().take(n as int));
            lemma2_to64();
            if n < 32 {
                vstd::arithmetic::power2::lemma_pow2_strictly_increases(n as nat, 32);
            }
        }
        let value = self.take_value(n);
        assert(self.remaining() =~= old(self).remaining().skip(n as int));
        Ok(value as u32)
    }

    /// Reads one unsigned Exp-Golomb code.
    pub fn get_ue(&mut self) -> (r: Result<u64, RpuError>)
        ensures
            final(self).bits() == old(self).bits(),
            match spec_get_ue(old(self).remaining()) {
                Ok((value, rest)) => r == Ok::<_, RpuError>(value as u64) && value <= u64::MAX
                    && final(self).remaining() == rest
                    && final(self).position() + rest.len() == old(self).position()
                    + old(self).remaining().len(),
                Err(e) => r == Err::<u64, _>(e) && final(self).position() == old(self).position(),
            },
    {
        let avail = self.available();
        let ghost rem = self.remaining();
        let mut z: usize = 0;
        while z < avail && z <= 32 && !self.bits[self.offset + z]
            invariant
                self.bits() == old(self).bits(),
                self.offset == old(self).offset,
                rem == old(self).remaining(),
                avail == rem.len(),
                z <= avail,
                z <= 33,
                avail > 0 ==> self.offset + avail == self.bits.len(),
                forall|i: int| 0 <= i < z ==> !rem[i],
            decreases avail - z,
        {
            z += 1;
        }
        proof {
            lemma_leading_zeros_count(rem, z as nat);
        }
        if z > 32 {
            return Err(RpuError::MalformedExpGolomb);
        }
        if avail < 2 * z + 1 {
            return Err(RpuError::Truncated);
        }
        self.offset += z;
        assert(self.remaining() =~= rem.skip(z as int));
        let ghost body = rem.subrange(z as int, 2 * z + 1);
        proof {
            assert(self.remaining().take(z + 1) =~= body);
            lemma_bits_value_leading_one(body);
            lemma_bits_value_bound(body);
            vstd::arithmetic::power2::lemma_pow2_pos(z as nat);
            lemma2_to64();
            if z + 1 < 64 {
                vstd::arithmetic::power2::lemma_pow2_strictly_increases((z + 1) as nat, 64);
            }
        }
        let value = self.take_value((z + 1) as u32);
        assert(self.remaining() =~= rem.skip(2 * z + 1));
        Ok(value - 1)
    }

    /// Reads `n` bits as they stand.
    pub fn get_bits(&mut self, n: usize) -> (r: Result<Vec<bool>, RpuError>)
        ensures
            final(self).bits() == old(self).bits(),
            n <= old(self).remaining().len() ==> r is Ok && r->Ok_0@ == old(self).remaining().take(
                n as int,
            ) && final(self).remaining() == old(self).remaining().skip(n as int)
                && final(self).position() == old(self).position() + n,
            n > old(self).remaining().len() ==> r == Err::<Vec<bool>, _>(RpuError::Truncated)
                && final(self).position() == old(self).position(),
    {
        if self.available() < n {
            return Err(RpuError::Truncated);
        }
        let ghost rem = self.remaining();
        let start = self.offset;
        let mut out: Vec<bool> = Vec::new();
        let mut i: usize = 0;
        while i < n
            invariant
                i <= n,
                self.bits() == old(self).bits(),
                self.offset == old(self).offset,
                start == self.offset,
                rem == old(self).remaining(),
                n <= rem.len(),
                n > 0 ==> start + rem.len() == self.bits.len(),
                out@ == rem.take(i as int),
            decreases n - i,
        {
            out.push(self.bits[start + i]);
            i += 1;
            assert(out@ =~= rem.take(i as int));
        }
        if n > 0 {
            self.offset = start + n;
        }
        assert(self.remaining() =~= rem.skip(n as int));
        Ok(out)
    }
}

} // verus!
