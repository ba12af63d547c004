//! Bit sequences, most significant bit first: their values as numbers, the
//! unsigned Exp-Golomb code, and a reader and a writer over them.

use vstd::prelude::*;
use vstd::arithmetic::power2::{pow2, lemma_pow2_pos, lemma_pow2_unfold};
use crate::error::RpuError;

verus! {

/// The number that `bits` spells, first bit most significant.
pub open spec fn bits_value(bits: Seq<bool>) -> nat
    decreases bits.len(),
{
    if bits.len() == 0 {
        0
    } else {
        2 * bits_value(bits.drop_last()) + if bits.last() { 1nat } else { 0nat }
    }
}

/// The lowest `n` bits of `value`, first bit most significant.
pub open spec fn value_bits(value: nat, n: nat) -> Seq<bool>
    decreases n,
{
    if n == 0 {
        Seq::empty()
    } else {
        value_bits(value / 2, (n - 1) as nat).push(value % 2 == 1)
    }
}

/// `n` zero bits.
pub open spec fn zero_bits(n: nat) -> Seq<bool> {
    Seq::new(n, |i: int| false)
}

/// How many zero bits `bits` starts with.
pub open spec fn leading_zeros(bits: Seq<bool>) -> nat
    decreases bits.len(),
{
    if bits.len() == 0 || bits[0] {
        0
    } else {
        1 + leading_zeros(bits.drop_first())
    }
}

/// The number of zero bits that the Exp-Golomb code of `value` starts with:
/// the integer part of the binary logarithm of `value + 1`.
pub open spec fn ue_prefix_len(value: nat) -> nat
    decreases value,
{
    if value == 0 {
        0
    } else {
        1 + ue_prefix_len(((value - 1) / 2) as nat)
    }
}

/// The unsigned Exp-Golomb code of `value`: `k` zero bits, then `value + 1`
/// in `k + 1` bits, where `k` is `ue_prefix_len(value)`.
pub open spec fn ue_bits(value: nat) -> Seq<bool> {
    zero_bits(ue_prefix_len(value)) + value_bits(value + 1, ue_prefix_len(value) + 1)
}

/// The bits of a byte sequence, each byte most significant bit first.
pub open spec fn bytes_bits(bytes: Seq<u8>) -> Seq<bool>
    decreases bytes.len(),
{
    if bytes.len() == 0 {
        Seq::empty()
    } else {
        bytes_bits(bytes.drop_last()) + value_bits(bytes.last() as nat, 8)
    }
}

/// `bits` followed by as few zero bits as make its length a multiple of eight.
pub open spec fn pad_to_byte(bits: Seq<bool>) -> Seq<bool> {
    bits + zero_bits(((8 - bits.len() % 8) % 8) as nat)
}

/// The bytes that hold `bits`, the last one filled up with zero bits.
pub open spec fn bits_bytes(bits: Seq<bool>) -> Seq<u8> {
    Seq::new(
        ((bits.len() + 7) / 8) as nat,
        |i: int| bits_value(pad_to_byte(bits).subrange(8 * i, 8 * i + 8)) as u8,
    )
}

/// Reading `n` bits as a number: the value and the bits that follow.
pub open spec fn spec_get_n(bits: Seq<bool>, n: nat) -> Result<(nat, Seq<bool>), RpuError> {
    if bits.len() < n {
        Err(RpuError::Truncated)
    } else {
        Ok((bits_value(bits.take(n as int)), bits.skip(n as int)))
    }
}

/// Reading one Exp-Golomb code: the value and the bits that follow.
pub open spec fn spec_get_ue(bits: Seq<bool>) -> Result<(nat, Seq<bool>), RpuError> {
    let z = leading_zeros(bits) as int;
    if z > 32 {
        Err(RpuError::MalformedExpGolomb)
    } else if bits.len() < 2 * z + 1 {
        Err(RpuError::Truncated)
    } else {
        Ok(((bits_value(bits.subrange(z, 2 * z + 1)) - 1) as nat, bits.skip(2 * z + 1)))
    }
}

/// Appends the lowest `n` bits of `value` to `bits`, most significant first.
pub(crate) fn push_value_bits(bits: &mut Vec<bool>, value: u128, n: u32)
    ensures
        final(bits)@ == old(bits)@ + value_bits(value as nat, n as nat),
    decreases n,
{
    if n > 0 {
        push_value_bits(bits, value / 2, n - 1);
        bits.push(value % 2 == 1);
    }
    assert(bits@ =~= old(bits)@ + value_bits(value as nat, n as nat));
}

/// Each byte gives eight bits.
pub proof fn lemma_bytes_bits_len(bytes: Seq<u8>)
    ensures
        bytes_bits(bytes).len() == 8 * bytes.len(),
    decreases bytes.len(),
{
    if bytes.len() > 0 {
        lemma_bytes_bits_len(bytes.drop_last());
        lemma_value_bits_len(bytes.last() as nat, 8);
    }
}

/// A number written in `n` bits takes `n` bits.
pub proof fn lemma_value_bits_len(value: nat, n: nat)
    ensures
        value_bits(value, n).len() == n,
    decreases n,
{
    if n > 0 {
        lemma_value_bits_len(value / 2, (n - 1) as nat);
    }
}

/// A sequence of `n` bits spells a number below `2^n`.
pub proof fn lemma_bits_value_bound(bits: Seq<bool>)
    ensures
        bits_value(bits) < pow2(bits.len()),
    decreases bits.len(),
{
    if bits.len() == 0 {
        lemma_pow2_pos(0);
    } else {
        lemma_bits_value_bound(bits.drop_last());
        lemma_pow2_unfold(bits.len());
    }
}

/// Writing a number in `n` bits and reading it back gives the number modulo `2^n`.
pub proof fn lemma_value_of_value_bits(value: nat, n: nat)
    ensures
        bits_value(value_bits(value, n)) == value % pow2(n),
    decreases n,
{
    if n == 0 {
        assert(pow2(0) == 1) by { vstd::arithmetic::power2::lemma2_to64(); }
    } else {
        let m = (n - 1) as nat;
        lemma_value_of_value_bits(value / 2, m);
        let s = value_bits(value, n);
        assert(s.drop_last() =~= value_bits(value / 2, m));
        lemma_pow2_unfold(n);
        lemma_pow2_pos(m);
        let p = pow2(m) as int;
        vstd::arithmetic::div_mod::lemma_mod_breakdown(value as int, 2, p);
        assert(2 * p == p * 2) by (nonlinear_arith);
    }
}

/// Reading `n` bits as a number and writing it in `n` bits gives the bits back.
pub proof fn lemma_value_bits_of_value(bits: Seq<bool>)
    ensures
        value_bits(bits_value(bits), bits.len()) == bits,
    decreases bits.len(),
{
    if bits.len() == 0 {
        assert(value_bits(bits_value(bits), 0) =~= bits);
    } else {
        let v = bits_value(bits);
        let head = bits.drop_last();
        lemma_value_bits_of_value(head);
        assert(v / 2 == bits_value(head));
        assert((v % 2 == 1) == bits.last());
        assert(value_bits(v, bits.len()) =~= bits);
    }
}


/// A sequence that starts with a one bit spells a number of at least `2^(len - 1)`.
pub proof fn lemma_bits_value_leading_one(bits: Seq<bool>)
    requires
        bits.len() > 0,
        bits[0],
    ensures
        bits_value(bits) >= pow2((bits.len() - 1) as nat),
    decreases bits.len(),
{
    if bits.len() == 1 {
        assert(bits.drop_last().len() == 0);
        assert(bits_value(bits.drop_last()) == 0);
        assert(pow2(0) == 1) by { vstd::arithmetic::power2::lemma2_to64(); }
    } else {
        let head = bits.drop_last();
        assert(head[0] == bits[0]);
        lemma_bits_value_leading_one(head);
        lemma_pow2_unfold((bits.len() - 1) as nat);
    }
}

/// `value + 1` lies between `2^k` and `2^(k+1)`, where `k` is `ue_prefix_len(value)`.
pub proof fn lemma_ue_prefix_len_bounds(value: nat)
    ensures
        pow2(ue_prefix_len(value)) <= value + 1 < pow2(ue_prefix_len(value) + 1),
    decreases value,
{
    vstd::arithmetic::power2::lemma2_to64();
    if value > 0 {
        let half = ((value - 1) / 2) as nat;
        lemma_ue_prefix_len_bounds(half);
        lemma_pow2_unfold(ue_prefix_len(half) + 1);
        lemma_pow2_unfold(ue_prefix_len(half) + 2);
    }
}

/// The only `k` with `2^k <= value + 1 < 2^(k+1)` is `ue_prefix_len(value)`.
pub proof fn lemma_ue_prefix_len_unique(value: nat, k: nat)
    requires
        pow2(k) <= value + 1 < pow2(k + 1),
    ensures
        ue_prefix_len(value) == k,
{
    lemma_ue_prefix_len_bounds(value);
    let j = ue_prefix_len(value);
    if j < k {
        vstd::arithmetic::power2::lemma_pow2_strictly_increases(j, k);
        if j + 1 < k {
            vstd::arithmetic::power2::lemma_pow2_strictly_increases(j + 1, k);
        }
    } else if k < j {
        vstd::arithmetic::power2::lemma_pow2_strictly_increases(k, j);
        if k + 1 < j {
            vstd::arithmetic::power2::lemma_pow2_strictly_increases(k + 1, j);
        }
    }
}

/// The first of the `n` bits of a number between `2^(n-1)` and `2^n` is set.
pub proof fn lemma_value_bits_leading_one(value: nat, n: nat)
    requires
        n > 0,
        pow2((n - 1) as nat) <= value < pow2(n),
    ensures
        value_bits(value, n).len() == n,
        value_bits(value, n)[0],
    decreases n,
{
    lemma_value_bits_len(value, n);
    vstd::arithmetic::power2::lemma2_to64();
    if n == 1 {
        assert(value == 1);
        assert(value_bits(value / 2, 0).len() == 0);
    } else {
        lemma_pow2_unfold(n);
        lemma_pow2_unfold((n - 1) as nat);
        lemma_value_bits_len(value / 2, (n - 1) as nat);
        lemma_value_bits_leading_one(value / 2, (n - 1) as nat);
    }
}

/// Zero bits in front of a one bit are counted exactly.
pub proof fn lemma_leading_zeros_count(bits: Seq<bool>, z: nat)
    requires
        z <= bits.len(),
        forall|i: int| 0 <= i < z ==> !bits[i],
    ensures
        leading_zeros(bits) >= z,
        (z == bits.len() || bits[z as int]) ==> leading_zeros(bits) == z,
    decreases z,
{
    if z > 0 {
        let tail = bits.drop_first();
        assert forall|i: int| 0 <= i < z - 1 implies !tail[i] by {
            assert(tail[i] == bits[i + 1]);
        }
        if z < bits.len() {
            assert(tail[z - 1] == bits[z as int]);
        }
        lemma_leading_zeros_count(tail, (z - 1) as nat);
    }
}

/// What `leading_zeros` counts are zero bits, and the bit after them, if any, is set.
pub proof fn lemma_leading_zeros_are_zero(bits: Seq<bool>)
    ensures
        leading_zeros(bits) <= bits.len(),
        forall|i: int| 0 <= i < leading_zeros(bits) ==> !bits[i],
        leading_zeros(bits) < bits.len() ==> bits[leading_zeros(bits) as int],
    decreases bits.len(),
{
    if bits.len() > 0 && !bits[0] {
        let tail = bits.drop_first();
        lemma_leading_zeros_are_zero(tail);
        assert forall|i: int| 0 <= i < leading_zeros(bits) implies !bits[i] by {
            if i > 0 {
                assert(bits[i] == tail[i - 1]);
            }
        }
        if leading_zeros(bits) < bits.len() {
            assert(bits[leading_zeros(bits) as int] == tail[leading_zeros(tail) as int]);
        }
    }
}

/// A number below `2^n`, written in `n` bits and read back, is unchanged.
pub proof fn lemma_get_n_of_value_bits(value: nat, n: nat, rest: Seq<bool>)
    requires
        value < pow2(n),
    ensures
        spec_get_n(value_bits(value, n) + rest, n) == Ok::<_, RpuError>((value, rest)),
{
    let bits = value_bits(value, n) + rest;
    lemma_value_bits_len(value, n);
    lemma_value_of_value_bits(value, n);
    assert(bits.take(n as int) =~= value_bits(value, n));
    assert(bits.skip(n as int) =~= rest);
    vstd::arithmetic::div_mod::lemma_small_mod(value, pow2(n));
}

/// Bits that read as a number are that number written in as many bits.
pub proof fn lemma_value_bits_of_get_n(bits: Seq<bool>, n: nat)
    requires
        spec_get_n(bits, n) is Ok,
    ensures
        bits == value_bits(spec_get_n(bits, n)->Ok_0.0, n) + spec_get_n(bits, n)->Ok_0.1,
        spec_get_n(bits, n)->Ok_0.0 < pow2(n),
{
    let head = bits.take(n as int);
    lemma_value_bits_of_value(head);
    lemma_bits_value_bound(head);
    assert(bits =~= head + bits.skip(n as int));
}

/// An Exp-Golomb code of at most 32 zero bits, read back, gives the value it was made from.
pub proof fn lemma_get_ue_of_ue_bits(value: nat, rest: Seq<bool>)
    requires
        ue_prefix_len(value) <= 32,
    ensures
        spec_get_ue(ue_bits(value) + rest) == Ok::<_, RpuError>((value, rest)),
{
    let kn = ue_prefix_len(value);
    let k = kn as int;
    let body = value_bits(value + 1, kn + 1);
    let bits = ue_bits(value) + rest;
    lemma_ue_prefix_len_bounds(value);
    lemma_value_bits_leading_one(value + 1, kn + 1);
    assert(bits.len() == 2 * k + 1 + rest.len());
    assert(bits[k] == body[0]);
    assert forall|i: int| 0 <= i < k implies !bits[i] by {
        assert(bits[i] == zero_bits(kn)[i]);
    }
    lemma_leading_zeros_count(bits, kn);
    assert(bits.subrange(k, 2 * k + 1) =~= body);
    assert(bits.skip(2 * k + 1) =~= rest);
    lemma_value_of_value_bits(value + 1, kn + 1);
    vstd::arithmetic::div_mod::lemma_small_mod(value + 1, pow2(kn + 1));
}

/// Bits that read as an Exp-Golomb code are the code of the value read.
pub proof fn lemma_ue_bits_of_get_ue(bits: Seq<bool>)
    requires
        spec_get_ue(bits) is Ok,
    ensures
        bits == ue_bits(spec_get_ue(bits)->Ok_0.0) + spec_get_ue(bits)->Ok_0.1,
        ue_prefix_len(spec_get_ue(bits)->Ok_0.0) <= 32,
{
    let zn = leading_zeros(bits);
    let z = zn as int;
    let body = bits.subrange(z, 2 * z + 1);
    let value = spec_get_ue(bits)->Ok_0.0;
    lemma_leading_zeros_are_zero(bits);
    assert(body[0] == bits[z]);
    lemma_bits_value_leading_one(body);
    lemma_bits_value_bound(body);
    lemma_pow2_pos(zn);
    assert(value + 1 == bits_value(body));
    lemma_ue_prefix_len_unique(value, zn);
    lemma_value_bits_of_value(body);
    assert(bits.take(z) =~= zero_bits(zn));
    assert(bits =~= bits.take(z) + body + bits.skip(2 * z + 1));
}


/// The eight bits of the byte at `index` stand at its place among the bits of `bytes`.
pub proof fn lemma_bytes_bits_at(bytes: Seq<u8>, index: int)
    requires
        0 <= index < bytes.len(),
    ensures
        bytes_bits(bytes).len() == 8 * bytes.len(),
        bytes_bits(bytes).subrange(8 * index, 8 * index + 8) == value_bits(bytes[index] as nat, 8),
    decreases bytes.len(),
{
    lemma_bytes_bits_len(bytes);
    lemma_bytes_bits_len(bytes.drop_last());
    lemma_value_bits_len(bytes.last() as nat, 8);
    if index == bytes.len() - 1 {
        assert(bytes_bits(bytes).subrange(8 * index, 8 * index + 8) =~= value_bits(
            bytes[index] as nat,
            8,
        ));
    } else {
        lemma_bytes_bits_at(bytes.drop_last(), index);
        assert(bytes_bits(bytes).subrange(8 * index, 8 * index + 8) =~= bytes_bits(
            bytes.drop_last(),
        ).subrange(8 * index, 8 * index + 8));
    }
}

/// Bytes, taken as bits and packed again, are unchanged.
pub proof fn lemma_bits_bytes_of_bytes_bits(bytes: Seq<u8>)
    ensures
        bits_bytes(bytes_bits(bytes)) == bytes,
{
    let bits = bytes_bits(bytes);
    lemma_bytes_bits_len(bytes);
    assert(pad_to_byte(bits) =~= bits);
    assert forall|i: int| 0 <= i < bytes.len() implies bits_bytes(bits)[i] == bytes[i] by {
        lemma_bytes_bits_at(bytes, i);
        lemma_value_of_value_bits(bytes[i] as nat, 8);
        vstd::arithmetic::power2::lemma2_to64();
    }
    assert(bits_bytes(bits) =~= bytes);
}

/// The bits of `first` and then those of `second`.
pub proof fn lemma_bytes_bits_concat(first: Seq<u8>, second: Seq<u8>)
    ensures
        bytes_bits(first + second) == bytes_bits(first) + bytes_bits(second),
    decreases second.len(),
{
    if second.len() == 0 {
        assert(first + second =~= first);
        assert(bytes_bits(first) + bytes_bits(second) =~= bytes_bits(first));
    } else {
        lemma_bytes_bits_concat(first, second.drop_last());
        assert((first + second).drop_last() =~= first + second.drop_last());
        assert(bytes_bits(first + second) =~= bytes_bits(first) + bytes_bits(second));
    }
}

/// Bits that fill whole bytes, packed and taken as bits again, are unchanged.
pub proof fn lemma_bytes_bits_of_bits_bytes(bits: Seq<bool>)
    requires
        bits.len() % 8 == 0,
    ensures
        bytes_bits(bits_bytes(bits)) == bits,
        bits_bytes(bits).len() == bits.len() / 8,
{
    let bytes = bits_bytes(bits);
    lemma_bytes_bits_len(bytes);
    assert(pad_to_byte(bits) =~= bits);
    assert forall|k: int| 0 <= k < bits.len() implies bytes_bits(bytes)[k] == bits[k] by {
        let i = k / 8;
        lemma_bytes_bits_at(bytes, i);
        let chunk = bits.subrange(8 * i, 8 * i + 8);
        lemma_bits_value_bound(chunk);
        vstd::arithmetic::power2::lemma2_to64();
        lemma_value_bits_of_value(chunk);
        assert(bytes[i] as nat == bits_value(chunk));
        assert(bytes_bits(bytes).subrange(8 * i, 8 * i + 8)[k - 8 * i] == bytes_bits(bytes)[k]);
        assert(chunk[k - 8 * i] == bits[k]);
    }
    assert(bytes_bits(bytes) =~= bits);
}


/// The greatest number whose Exp-Golomb code a reader accepts: its code
/// has 32 zero bits in front.
pub const MAX_UE: u64 = 0x1_ffff_fffe;

/// The Exp-Golomb code of a number of at most `MAX_UE` has at most 32 zero
/// bits in front, and that of a greater number has more.
pub proof fn lemma_ue_prefix_len_small(value: nat)
    ensures
        value <= MAX_UE <==> ue_prefix_len(value) <= 32,
{
    lemma_ue_prefix_len_bounds(value);
    vstd::arithmetic::power2::lemma2_to64();
    vstd::arithmetic::power2::lemma2_to64_rest();
    let k = ue_prefix_len(value);
    if k > 32 {
        if k > 33 {
            vstd::arithmetic::power2::lemma_pow2_strictly_increases(33, k);
        }
    } else if k < 32 {
        vstd::arithmetic::power2::lemma_pow2_strictly_increases(k + 1, 33);
    }
}


/// Bits that fill whole bytes are packed byte by byte: those of `first`,
/// then those of `second`.
pub proof fn lemma_bits_bytes_concat(first: Seq<bool>, second: Seq<bool>)
    requires
        first.len() % 8 == 0,
        second.len() % 8 == 0,
    ensures
        bits_bytes(first + second) == bits_bytes(first) + bits_bytes(second),
{
    let a = bits_bytes(first);
    let b = bits_bytes(second);
    lemma_bytes_bits_of_bits_bytes(first);
    lemma_bytes_bits_of_bits_bytes(second);
    lemma_bytes_bits_concat(a, b);
    lemma_bits_bytes_of_bytes_bits(a + b);
}

/// A number of `n` bits, written in `n` bits, spells itself.
pub proof fn lemma_bits_value_of_value_bits(value: nat, n: nat)
    requires
        value < pow2(n),
    ensures
        bits_value(value_bits(value, n)) == value,
        value_bits(value, n).len() == n,
{
    lemma_value_of_value_bits(value, n);
    lemma_value_bits_len(value, n);
    vstd::arithmetic::div_mod::lemma_small_mod(value, pow2(n));
}

} // verus!
