//! The coefficients of the mapping and of the quantization.

use vstd::prelude::*;
use crate::bitvec_reader::BitVecReader;
use crate::bitvec_writer::BitVecWriter;
use crate::error::RpuError;
use crate::fields::{
    fields_bits, list1, list2, read_fields, spec_read_fields, write_fields, FieldKind,
    lemma_fields_bits_of_read_fields,
};
use crate::rpu_header::CoefficientFormat;

verus! {

/// A coefficient: its integer part as the unsigned Exp-Golomb code that
/// stands for it, zero where the format has none, and its fraction.
#[derive(Clone, Copy, Debug, PartialEq, Eq, Structural)]
pub struct Coefficient {
    pub integer: u64,
    pub fraction: u64,
}

/// The signed number that an Exp-Golomb code stands for: codes 1, 2, 3, 4
/// stand for 1, -1, 2, -2, and so on.
pub open spec fn spec_signed(code: u64) -> int {
    if code % 2 == 1 {
        (code + 1) / 2
    } else {
        -(code / 2)
    }
}

/// The Exp-Golomb code that stands for a signed number.
pub open spec fn spec_signed_code(value: int) -> int {
    if value > 0 {
        2 * value - 1
    } else {
        -2 * value
    }
}

/// A signed number is read back unchanged from its code, and a code from
/// the number it stands for.
pub proof fn lemma_signed_code(code: u64, value: int)
    ensures
        spec_signed_code(spec_signed(code)) == code,
        spec_signed(spec_signed_code(value) as u64) == value || spec_signed_code(value) > u64::MAX,
{
}

impl Coefficient {
    /// The integer part as a signed number.
    pub fn signed_integer(&self) -> (value: i128)
        ensures
            value == spec_signed(self.integer),
    {
        if self.integer % 2 == 1 {
            ((self.integer as u128 + 1) / 2) as i128
        } else {
            -((self.integer / 2) as i128)
        }
    }
}

impl CoefficientFormat {
    /// The fields of a coefficient.
    pub open spec fn layout(self) -> Seq<FieldKind> {
        if self.with_integer {
            seq![FieldKind::Ue, FieldKind::Bits(self.fraction_bits)]
        } else {
            seq![FieldKind::Bits(self.fraction_bits)]
        }
    }

    /// The codes of the fields of `coefficient`.
    pub open spec fn codes(self, coefficient: Coefficient) -> Seq<u64> {
        if self.with_integer {
            seq![coefficient.integer, coefficient.fraction]
        } else {
            seq![coefficient.fraction]
        }
    }

    /// The coefficient whose fields have the given codes.
    pub open spec fn coefficient(self, codes: Seq<u64>) -> Coefficient {
        if self.with_integer {
            Coefficient { integer: codes[0], fraction: codes[1] }
        } else {
            Coefficient { integer: 0, fraction: codes[0] }
        }
    }
}

/// Reading one coefficient: the coefficient and the bits that follow.
pub open spec fn spec_read_coefficient(bits: Seq<bool>, format: CoefficientFormat) -> Result<
    (Coefficient, Seq<bool>),
    RpuError,
> {
    match spec_read_fields(bits, format.layout()) {
        Err(e) => Err(e),
        Ok((codes, rest)) => Ok((format.coefficient(codes), rest)),
    }
}

/// The bits of one coefficient.
pub open spec fn coefficient_bits(coefficient: Coefficient, format: CoefficientFormat) -> Seq<bool> {
    fields_bits(format.codes(coefficient), format.layout())
}

/// Reading `count` coefficients: the coefficients and the bits that
/// follow, or the error of the first that cannot be read.
pub open spec fn spec_read_coefficients(bits: Seq<bool>, format: CoefficientFormat, count: nat) -> Result<
    (Seq<Coefficient>, Seq<bool>),
    RpuError,
>
    decreases count,
{
    if count == 0 {
        Ok((Seq::empty(), bits))
    } else {
        match spec_read_coefficients(bits, format, (count - 1) as nat) {
            Err(e) => Err(e),
            Ok((list, rest)) => match spec_read_coefficient(rest, format) {
                Err(e) => Err(e),
                Ok((coefficient, rest)) => Ok((list.push(coefficient), rest)),
            },
        }
    }
}

/// The bits of `list`, one coefficient after the other.
pub open spec fn coefficients_bits(list: Seq<Coefficient>, format: CoefficientFormat) -> Seq<bool>
    decreases list.len(),
{
    if list.len() == 0 {
        Seq::empty()
    } else {
        coefficients_bits(list.drop_last(), format) + coefficient_bits(list.last(), format)
    }
}

/// An error in reading the first `n` coefficients is the error of reading more.
pub proof fn lemma_read_coefficients_prefix_error(
    bits: Seq<bool>,
    format: CoefficientFormat,
    n: nat,
    count: nat,
)
    requires
        n <= count,
    ensures
        spec_read_coefficients(bits, format, n) is Err ==> spec_read_coefficients(
            bits,
            format,
            count,
        ) == Err::<(Seq<Coefficient>, Seq<bool>), _>(
            spec_read_coefficients(bits, format, n)->Err_0,
        ),
    decreases count - n,
{
    if n < count {
        lemma_read_coefficients_prefix_error(bits, format, n, (count - 1) as nat);
    }
}

/// Bits that read as a coefficient are the bits of that coefficient.
pub proof fn lemma_coefficient_bits_of_read(bits: Seq<bool>, format: CoefficientFormat)
    requires
        format.fraction_bits <= 32,
        spec_read_coefficient(bits, format) is Ok,
    ensures
        bits == coefficient_bits(spec_read_coefficient(bits, format)->Ok_0.0, format)
            + spec_read_coefficient(bits, format)->Ok_0.1,
{
    lemma_fields_bits_of_read_fields(bits, format.layout());
    let codes = spec_read_fields(bits, format.layout())->Ok_0.0;
    assert(format.codes(format.coefficient(codes)) =~= codes);
}

/// Bits that read as coefficients are the bits of those coefficients.
pub proof fn lemma_coefficients_bits_of_read(bits: Seq<bool>, format: CoefficientFormat, count: nat)
    requires
        format.fraction_bits <= 32,
        spec_read_coefficients(bits, format, count) is Ok,
    ensures
        bits == coefficients_bits(spec_read_coefficients(bits, format, count)->Ok_0.0, format)
            + spec_read_coefficients(bits, format, count)->Ok_0.1,
        spec_read_coefficients(bits, format, count)->Ok_0.0.len() == count,
    decreases count,
{
    let (list, rest) = spec_read_coefficients(bits, format, count)->Ok_0;
    if count == 0 {
        assert(bits =~= coefficients_bits(list, format) + rest);
    } else {
        lemma_coefficients_bits_of_read(bits, format, (count - 1) as nat);
        let (front, middle) = spec_read_coefficients(bits, format, (count - 1) as nat)->Ok_0;
        lemma_coefficient_bits_of_read(middle, format);
        assert(list.drop_last() =~= front);
        assert(bits =~= coefficients_bits(list, format) + rest);
    }
}

/// Reads one coefficient.
pub fn read_coefficient(reader: &mut BitVecReader, format: CoefficientFormat) -> (r: Result<
    Coefficient,
    RpuError,
>)
    requires
        format.fraction_bits <= 32,
    ensures
        final(reader).bits() == old(reader).bits(),
        match spec_read_coefficient(old(reader).remaining(), format) {
            Ok((coefficient, rest)) => r == Ok::<_, RpuError>(coefficient)
                && final(reader).remaining() == rest,
            Err(e) => r == Err::<Coefficient, _>(e),
        },
{
    if format.with_integer {
        match read_fields(reader, &list2(FieldKind::Ue, FieldKind::Bits(format.fraction_bits))) {
            Ok(codes) => Ok(Coefficient { integer: codes[0], fraction: codes[1] }),
            Err(e) => Err(e),
        }
    } else {
        match read_fields(reader, &list1(FieldKind::Bits(format.fraction_bits))) {
            Ok(codes) => Ok(Coefficient { integer: 0, fraction: codes[0] }),
            Err(e) => Err(e),
        }
    }
}

/// Writes one coefficient.
pub fn write_coefficient(writer: &mut BitVecWriter, coefficient: Coefficient, format: CoefficientFormat)
    ensures
        final(writer)@ == old(writer)@ + coefficient_bits(coefficient, format),
{
    if format.with_integer {
        write_fields(
            writer,
            &list2(coefficient.integer, coefficient.fraction),
            &list2(FieldKind::Ue, FieldKind::Bits(format.fraction_bits)),
        );
    } else {
        write_fields(
            writer,
            &list1(coefficient.fraction),
            &list1(FieldKind::Bits(format.fraction_bits)),
        );
    }
}

/// Reads `count` coefficients.
pub fn read_coefficients(reader: &mut BitVecReader, format: CoefficientFormat, count: u64) -> (r:
    Result<Vec<Coefficient>, RpuError>)
    requires
        format.fraction_bits <= 32,
    ensures
        final(reader).bits() == old(reader).bits(),
        match spec_read_coefficients(old(reader).remaining(), format, count as nat) {
            Ok((list, rest)) => r is Ok && r->Ok_0@ == list && final(reader).remaining() == rest,
            Err(e) => r == Err::<Vec<Coefficient>, _>(e),
        },
{
    let mut list: Vec<Coefficient> = Vec::new();
    let mut i: u64 = 0;
    while i < count
        invariant
            i <= count,
            format.fraction_bits <= 32,
            reader.bits() == old(reader).bits(),
            spec_read_coefficients(old(reader).remaining(), format, i as nat) == Ok::<_, RpuError>(
                (list@, reader.remaining()),
            ),
        decreases count - i,
    {
        proof {
            lemma_read_coefficients_prefix_error(
                old(reader).remaining(),
                format,
                (i + 1) as nat,
                count as nat,
            );
        }
        let coefficient = match read_coefficient(reader, format) {
            Ok(c) => c,
            Err(e) => {
                return Err(e);
            },
        };
        list.push(coefficient);
        i += 1;
    }
    Ok(list)
}

/// Writes the coefficients of `list`, one after the other.
pub fn write_coefficients(writer: &mut BitVecWriter, list: &Vec<Coefficient>, format: CoefficientFormat)
    ensures
        final(writer)@ == old(writer)@ + coefficients_bits(list@, format),
{
    let mut i: usize = 0;
    assert(old(writer)@ + coefficients_bits(list@.take(0), format) =~= old(writer)@);
    while i < list.len()
        invariant
            i <= list.len(),
            writer@ == old(writer)@ + coefficients_bits(list@.take(i as int), format),
        decreases list.len() - i,
    {
        proof {
            assert(list@.take(i + 1).drop_last() =~= list@.take(i as int));
        }
        write_coefficient(writer, list[i], format);
        i += 1;
        assert(writer@ =~= old(writer)@ + coefficients_bits(list@.take(i as int), format));
    }
    assert(list@.take(i as int) =~= list@);
}

} // verus!
