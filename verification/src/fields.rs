//! Records on the wire: a list of unsigned numbers, each coded as its place in
//! a layout says.

use vstd::prelude::*;
use vstd::arithmetic::power2::pow2;
use crate::bits::{spec_get_n, spec_get_ue, ue_bits, ue_prefix_len, value_bits,
    lemma_get_n_of_value_bits, lemma_get_ue_of_ue_bits, lemma_ue_bits_of_get_ue,
    lemma_value_bits_of_get_n};
use crate::bitvec_reader::BitVecReader;
use crate::bitvec_writer::BitVecWriter;
use crate::error::RpuError;

verus! {

/// How one number is coded.
#[derive(Clone, Copy, Debug, PartialEq, Eq, Structural)]
pub enum FieldKind {
    /// Unsigned Exp-Golomb.
    Ue,
    /// The given number of bits, at most 32, most significant first.
    Bits(u8),
}

/// Whether every fixed-width field of `layout` has at most 32 bits.
pub open spec fn layout_ok(layout: Seq<FieldKind>) -> bool {
    forall|i: int|
        0 <= i < layout.len() ==> (#[trigger] layout[i] matches FieldKind::Bits(n) ==> n <= 32)
}

/// The code of one number.
pub open spec fn field_bits(value: u64, kind: FieldKind) -> Seq<bool> {
    match kind {
        FieldKind::Ue => ue_bits(value as nat),
        FieldKind::Bits(n) => value_bits(value as nat, n as nat),
    }
}

/// Whether `value` is read back unchanged from its code.
pub open spec fn field_fits(value: u64, kind: FieldKind) -> bool {
    match kind {
        FieldKind::Ue => ue_prefix_len(value as nat) <= 32,
        FieldKind::Bits(n) => value < pow2(n as nat),
    }
}

/// Whether each of `values` is read back unchanged from its code.
pub open spec fn fields_fit(values: Seq<u64>, layout: Seq<FieldKind>) -> bool {
    &&& values.len() == layout.len()
    &&& forall|i: int| 0 <= i < values.len() ==> field_fits(#[trigger] values[i], layout[i])
}

/// The codes of `values`, one after the other.
#[verifier::opaque]
pub open spec fn fields_bits(values: Seq<u64>, layout: Seq<FieldKind>) -> Seq<bool>
    decreases layout.len(),
{
    if layout.len() == 0 || values.len() == 0 {
        Seq::empty()
    } else {
        fields_bits(values.drop_last(), layout.drop_last()) + field_bits(
            values.last(),
            layout.last(),
        )
    }
}

/// Reading one number: the value and the bits that follow.
pub open spec fn spec_read_field(bits: Seq<bool>, kind: FieldKind) -> Result<
    (u64, Seq<bool>),
    RpuError,
> {
    match kind {
        FieldKind::Ue => match spec_get_ue(bits) {
            Ok((value, rest)) => Ok((value as u64, rest)),
            Err(e) => Err(e),
        },
        FieldKind::Bits(n) => match spec_get_n(bits, n as nat) {
            Ok((value, rest)) => Ok((value as u64, rest)),
            Err(e) => Err(e),
        },
    }
}

/// Reading the numbers of `layout` in order: the values and the bits that
/// follow, or the error of the first field that cannot be read.
#[verifier::opaque]
pub open spec fn spec_read_fields(bits: Seq<bool>, layout: Seq<FieldKind>) -> Result<
    (Seq<u64>, Seq<bool>),
    RpuError,
>
    decreases layout.len(),
{
    if layout.len() == 0 {
        Ok((Seq::empty(), bits))
    } else {
        match spec_read_fields(bits, layout.drop_last()) {
            Err(e) => Err(e),
            Ok((values, rest)) => match spec_read_field(rest, layout.last()) {
                Err(e) => Err(e),
                Ok((value, rest)) => Ok((values.push(value), rest)),
            },
        }
    }
}

/// One number that fits, written and read back, is unchanged.
pub proof fn lemma_read_field_of_field_bits(value: u64, kind: FieldKind, rest: Seq<bool>)
    requires
        field_fits(value, kind),
    ensures
        spec_read_field(field_bits(value, kind) + rest, kind) == Ok::<_, RpuError>((value, rest)),
{
    match kind {
        FieldKind::Ue => lemma_get_ue_of_ue_bits(value as nat, rest),
        FieldKind::Bits(n) => lemma_get_n_of_value_bits(value as nat, n as nat, rest),
    }
}

/// Bits that read as one number are the code of that number, which fits.
pub proof fn lemma_field_bits_of_read_field(bits: Seq<bool>, kind: FieldKind)
    requires
        spec_read_field(bits, kind) is Ok,
        kind matches FieldKind::Bits(n) ==> n <= 32,
    ensures
        bits == field_bits(spec_read_field(bits, kind)->Ok_0.0, kind) + spec_read_field(
            bits,
            kind,
        )->Ok_0.1,
        field_fits(spec_read_field(bits, kind)->Ok_0.0, kind),
{
    vstd::arithmetic::power2::lemma2_to64();
    match kind {
        FieldKind::Ue => {
            lemma_ue_bits_of_get_ue(bits);
            let v = spec_get_ue(bits)->Ok_0.0;
            crate::bits::lemma_ue_prefix_len_bounds(v);
            if ue_prefix_len(v) < 32 {
                vstd::arithmetic::power2::lemma_pow2_strictly_increases(ue_prefix_len(v) + 1, 64);
            } else {
                vstd::arithmetic::power2::lemma_pow2_strictly_increases(33, 64);
            }
        },
        FieldKind::Bits(n) => {
            lemma_value_bits_of_get_n(bits, n as nat);
            if n < 64 {
                vstd::arithmetic::power2::lemma_pow2_strictly_increases(n as nat, 64);
            }
        },
    }
}

/// Numbers that fit, written one after the other and read back, are unchanged.
pub proof fn lemma_read_fields_of_fields_bits(
    values: Seq<u64>,
    layout: Seq<FieldKind>,
    rest: Seq<bool>,
)
    requires
        fields_fit(values, layout),
    ensures
        spec_read_fields(fields_bits(values, layout) + rest, layout) == Ok::<_, RpuError>(
            (values, rest),
        ),
    decreases layout.len(),
{
    reveal(fields_bits);
    reveal(spec_read_fields);
    if layout.len() == 0 {
        assert(fields_bits(values, layout) + rest =~= rest);
        assert(values =~= Seq::<u64>::empty());
    } else {
        let head = fields_bits(values.drop_last(), layout.drop_last());
        let last = field_bits(values.last(), layout.last());
        lemma_read_fields_of_fields_bits(values.drop_last(), layout.drop_last(), last + rest);
        assert(fields_bits(values, layout) + rest =~= head + (last + rest));
        lemma_read_field_of_field_bits(values.last(), layout.last(), rest);
        assert(values.drop_last().push(values.last()) =~= values);
    }
}

/// Bits that read as a list of numbers are the codes of those numbers, each of which fits.
pub proof fn lemma_fields_bits_of_read_fields(bits: Seq<bool>, layout: Seq<FieldKind>)
    requires
        layout_ok(layout),
        spec_read_fields(bits, layout) is Ok,
    ensures
        bits == fields_bits(spec_read_fields(bits, layout)->Ok_0.0, layout) + spec_read_fields(
            bits,
            layout,
        )->Ok_0.1,
        fields_fit(spec_read_fields(bits, layout)->Ok_0.0, layout),
    decreases layout.len(),
{
    reveal(fields_bits);
    reveal(spec_read_fields);
    if layout.len() == 0 {
        assert(bits =~= Seq::<bool>::empty() + bits);
    } else {
        let front = layout.drop_last();
        assert(layout_ok(front)) by {
            assert forall|i: int| 0 <= i < front.len() implies (#[trigger] front[i] matches FieldKind::Bits(
                n,
            ) ==> n <= 32) by {
                assert(front[i] == layout[i]);
            }
        }
        lemma_fields_bits_of_read_fields(bits, front);
        let (values, rest) = spec_read_fields(bits, front)->Ok_0;
        assert(layout.last() == layout[layout.len() - 1]);
        lemma_field_bits_of_read_field(rest, layout.last());
        let (value, rest2) = spec_read_field(rest, layout.last())->Ok_0;
        let all = values.push(value);
        assert(all.drop_last() =~= values);
        assert(bits =~= fields_bits(all, layout) + rest2);
        assert forall|i: int| 0 <= i < all.len() implies field_fits(#[trigger] all[i], layout[i]) by {
            if i < values.len() {
                assert(all[i] == values[i]);
                assert(layout[i] == front[i]);
            }
        }
    }
}

/// Reads the numbers of `layout` in order.
pub fn read_fields(reader: &mut BitVecReader, layout: &Vec<FieldKind>) -> (r: Result<
    Vec<u64>,
    RpuError,
>)
    requires
        layout_ok(layout@),
    ensures
        final(reader).bits() == old(reader).bits(),
        match spec_read_fields(old(reader).remaining(), layout@) {
            Ok((values, rest)) => r is Ok && r->Ok_0@ == values && final(reader).remaining()
                == rest,
            Err(e) => r == Err::<Vec<u64>, _>(e),
        },
        r is Ok ==> fields_fit(r->Ok_0@, layout@),
{
    reveal(fields_bits);
    reveal(spec_read_fields);
    let mut values: Vec<u64> = Vec::new();
    let mut i: usize = 0;
    proof {
        if spec_read_fields(old(reader).remaining(), layout@) is Ok {
            lemma_fields_bits_of_read_fields(old(reader).remaining(), layout@);
        }
    }
    assert(layout@.take(0) =~= Seq::<FieldKind>::empty());
    while i < layout.len()
        invariant
            i <= layout.len(),
            layout_ok(layout@),
            spec_read_fields(old(reader).remaining(), layout@) is Ok ==> fields_fit(
                spec_read_fields(old(reader).remaining(), layout@)->Ok_0.0,
                layout@,
            ),
            reader.bits() == old(reader).bits(),
            spec_read_fields(old(reader).remaining(), layout@.take(i as int)) == Ok::<_, RpuError>(
                (values@, reader.remaining()),
            ),
        decreases layout.len() - i,
    {
        proof {
            reveal(fields_bits);
            reveal(spec_read_fields);
        }
        let ghost front = layout@.take(i as int);
        let ghost next = layout@.take(i + 1);
        proof {
            assert(next.drop_last() =~= front);
            assert(next.last() == layout@[i as int]);
            if i + 1 < layout.len() {
                lemma_read_fields_prefix_error(old(reader).remaining(), layout@, i + 1);
            } else {
                assert(next =~= layout@);
            }
        }
        let value = match layout[i] {
            FieldKind::Ue => match reader.get_ue() {
                Ok(v) => v,
                Err(e) => {
                    return Err(e);
                },
            },
            FieldKind::Bits(n) => match reader.get_n(n as u32) {
                Ok(v) => v as u64,
                Err(e) => {
                    return Err(e);
                },
            },
        };
        values.push(value);
        i += 1;
    }
    assert(layout@.take(i as int) =~= layout@);
    Ok(values)
}

/// An error in reading the first `n` fields is the error of reading them all.
pub proof fn lemma_read_fields_prefix_error(bits: Seq<bool>, layout: Seq<FieldKind>, n: int)
    requires
        0 <= n <= layout.len(),
    ensures
        spec_read_fields(bits, layout.take(n)) is Err ==> spec_read_fields(bits, layout) == Err::<
            (Seq<u64>, Seq<bool>),
            _,
        >(spec_read_fields(bits, layout.take(n))->Err_0),
    decreases layout.len() - n,
{
    reveal(fields_bits);
    reveal(spec_read_fields);
    if n < layout.len() {
        assert(layout.take(n + 1).drop_last() =~= layout.take(n));
        lemma_read_fields_prefix_error(bits, layout, n + 1);
    } else {
        assert(layout.take(n) =~= layout);
    }
}

/// Writes `values` as `layout` says, the lowest bits of each where it does not fit.
pub fn write_fields(writer: &mut BitVecWriter, values: &Vec<u64>, layout: &Vec<FieldKind>)
    requires
        values.len() == layout.len(),
    ensures
        final(writer)@ == old(writer)@ + fields_bits(values@, layout@),
{
    reveal(fields_bits);
    reveal(spec_read_fields);
    let mut i: usize = 0;
    assert(old(writer)@ + fields_bits(values@.take(0), layout@.take(0)) =~= old(writer)@);
    while i < layout.len()
        invariant
            i <= layout.len(),
            values.len() == layout.len(),
            writer@ == old(writer)@ + fields_bits(values@.take(i as int), layout@.take(i as int)),
        decreases layout.len() - i,
    {
        proof {
            reveal(fields_bits);
            reveal(spec_read_fields);
        }
        proof {
            assert(layout@.take(i + 1).drop_last() =~= layout@.take(i as int));
            assert(values@.take(i + 1).drop_last() =~= values@.take(i as int));
        }
        let ghost before = writer@;
        match layout[i] {
            FieldKind::Ue => writer.write_ue(values[i]),
            FieldKind::Bits(n) => writer.write_n(values[i], n as u32),
        }
        assert(writer@ =~= old(writer)@ + fields_bits(
            values@.take(i + 1),
            layout@.take(i + 1),
        ));
        i += 1;
    }
    assert(layout@.take(i as int) =~= layout@);
    assert(values@.take(i as int) =~= values@);
}


/// What a number that fits a field of at most 32 bits is less than.
pub proof fn lemma_fits_bound(values: Seq<u64>, layout: Seq<FieldKind>, i: int)
    requires
        fields_fit(values, layout),
        0 <= i < values.len(),
    ensures
        layout[i] == FieldKind::Bits(1) ==> values[i] < 2,
        layout[i] == FieldKind::Bits(2) ==> values[i] < 4,
        layout[i] == FieldKind::Bits(3) ==> values[i] < 8,
        layout[i] == FieldKind::Bits(4) ==> values[i] < 16,
        layout[i] == FieldKind::Bits(6) ==> values[i] < 64,
        layout[i] == FieldKind::Bits(8) ==> values[i] < 256,
        layout[i] == FieldKind::Bits(11) ==> values[i] < 2048,
        layout[i] == FieldKind::Bits(32) ==> values[i] < 0x1_0000_0000,
        layout[i] == FieldKind::Ue ==> values[i] < 0x2_0000_0000,
{
    vstd::arithmetic::power2::lemma2_to64();
    vstd::arithmetic::power2::lemma2_to64_rest();
    assert(field_fits(values[i], layout[i]));
    if layout[i] == FieldKind::Ue {
        let k = ue_prefix_len(values[i] as nat);
        crate::bits::lemma_ue_prefix_len_bounds(values[i] as nat);
        if k < 32 {
            vstd::arithmetic::power2::lemma_pow2_strictly_increases(k + 1, 33);
        }
    }
}

/// The layout of `count` fields of the same kind.
pub open spec fn repeated(kind: FieldKind, count: nat) -> Seq<FieldKind> {
    Seq::new(count, |i: int| kind)
}

/// Reads `count` numbers of the same kind.
pub fn read_repeated(reader: &mut BitVecReader, kind: FieldKind, count: u64) -> (r: Result<
    Vec<u64>,
    RpuError,
>)
    requires
        kind matches FieldKind::Bits(n) ==> n <= 32,
    ensures
        final(reader).bits() == old(reader).bits(),
        match spec_read_fields(old(reader).remaining(), repeated(kind, count as nat)) {
            Ok((values, rest)) => r is Ok && r->Ok_0@ == values && final(reader).remaining()
                == rest,
            Err(e) => r == Err::<Vec<u64>, _>(e),
        },
        r is Ok ==> fields_fit(r->Ok_0@, repeated(kind, count as nat)),
{
    reveal(fields_bits);
    reveal(spec_read_fields);
    let mut values: Vec<u64> = Vec::new();
    let mut i: u64 = 0;
    let ghost layout = repeated(kind, count as nat);
    proof {
        if spec_read_fields(old(reader).remaining(), layout) is Ok {
            lemma_fields_bits_of_read_fields(old(reader).remaining(), layout);
        }
    }
    assert(layout.take(0) =~= Seq::<FieldKind>::empty());
    while i < count
        invariant
            i <= count,
            kind matches FieldKind::Bits(n) ==> n <= 32,
            layout == repeated(kind, count as nat),
            spec_read_fields(old(reader).remaining(), layout) is Ok ==> fields_fit(
                spec_read_fields(old(reader).remaining(), layout)->Ok_0.0,
                layout,
            ),
            reader.bits() == old(reader).bits(),
            spec_read_fields(old(reader).remaining(), layout.take(i as int)) == Ok::<_, RpuError>(
                (values@, reader.remaining()),
            ),
        decreases count - i,
    {
        proof {
            reveal(fields_bits);
            reveal(spec_read_fields);
        }
        proof {
            assert(layout.take(i + 1).drop_last() =~= layout.take(i as int));
            assert(layout.take(i + 1).last() == kind);
            lemma_read_fields_prefix_error(old(reader).remaining(), layout, i + 1);
        }
        let value = match kind {
            FieldKind::Ue => match reader.get_ue() {
                Ok(v) => v,
                Err(e) => {
                    return Err(e);
                },
            },
            FieldKind::Bits(n) => match reader.get_n(n as u32) {
                Ok(v) => v as u64,
                Err(e) => {
                    return Err(e);
                },
            },
        };
        values.push(value);
        i += 1;
    }
    assert(layout.take(i as int) =~= layout);
    Ok(values)
}

/// Writes `values`, each as `kind` says.
pub fn write_repeated(writer: &mut BitVecWriter, values: &Vec<u64>, kind: FieldKind)
    ensures
        final(writer)@ == old(writer)@ + fields_bits(values@, repeated(kind, values@.len())),
{
    reveal(fields_bits);
    reveal(spec_read_fields);
    let mut i: usize = 0;
    let ghost layout = repeated(kind, values@.len());
    assert(old(writer)@ + fields_bits(values@.take(0), layout.take(0)) =~= old(writer)@);
    while i < values.len()
        invariant
            i <= values.len(),
            layout == repeated(kind, values@.len()),
            writer@ == old(writer)@ + fields_bits(values@.take(i as int), layout.take(i as int)),
        decreases values.len() - i,
    {
        proof {
            reveal(fields_bits);
            reveal(spec_read_fields);
        }
        proof {
            assert(layout.take(i + 1).drop_last() =~= layout.take(i as int));
            assert(values@.take(i + 1).drop_last() =~= values@.take(i as int));
            assert(layout.take(i + 1).last() == kind);
        }
        match kind {
            FieldKind::Ue => writer.write_ue(values[i]),
            FieldKind::Bits(n) => writer.write_n(values[i], n as u32),
        }
        assert(writer@ =~= old(writer)@ + fields_bits(
            values@.take(i + 1),
            layout.take(i + 1),
        ));
        i += 1;
    }
    assert(layout.take(i as int) =~= layout);
    assert(values@.take(i as int) =~= values@);
}


/// The list of the given values.
pub fn list1<T>(a: T) -> (list: Vec<T>)
    ensures
        list@ == seq![a],
{
    let mut list: Vec<T> = Vec::new();
    list.push(a);
    assert(list@ =~= seq![a]);
    list
}

/// The list of the given values.
pub fn list2<T>(a: T, b: T) -> (list: Vec<T>)
    ensures
        list@ == seq![a, b],
{
    let mut list: Vec<T> = Vec::new();
    list.push(a);
    list.push(b);
    assert(list@ =~= seq![a, b]);
    list
}

/// The list of the given values.
pub fn list3<T>(a: T, b: T, c: T) -> (list: Vec<T>)
    ensures
        list@ == seq![a, b, c],
{
    let mut list: Vec<T> = Vec::new();
    list.push(a);
    list.push(b);
    list.push(c);
    assert(list@ =~= seq![a, b, c]);
    list
}

/// The list of the given values.
pub fn list4<T>(a: T, b: T, c: T, d: T) -> (list: Vec<T>)
    ensures
        list@ == seq![a, b, c, d],
{
    let mut list: Vec<T> = Vec::new();
    list.push(a);
    list.push(b);
    list.push(c);
    list.push(d);
    assert(list@ =~= seq![a, b, c, d]);
    list
}

/// The list of the given values.
pub fn list7<T>(a: T, b: T, c: T, d: T, e: T, f: T, g: T) -> (list: Vec<T>)
    ensures
        list@ == seq![a, b, c, d, e, f, g],
{
    let mut list: Vec<T> = Vec::new();
    list.push(a);
    list.push(b);
    list.push(c);
    list.push(d);
    list.push(e);
    list.push(f);
    list.push(g);
    assert(list@ =~= seq![a, b, c, d, e, f, g]);
    list
}


/// Whether `value` fits a field of `kind`, by its size: at most `MAX_UE`
/// for an Exp-Golomb code, less than `2^n` for `n` bits.
pub proof fn lemma_field_fits(value: u64, kind: FieldKind)
    ensures
        kind == FieldKind::Ue ==> (field_fits(value, kind) <==> value <= crate::bits::MAX_UE),
        kind == FieldKind::Bits(1) ==> (field_fits(value, kind) <==> value < 2),
        kind == FieldKind::Bits(2) ==> (field_fits(value, kind) <==> value < 4),
        kind == FieldKind::Bits(3) ==> (field_fits(value, kind) <==> value < 8),
        kind == FieldKind::Bits(4) ==> (field_fits(value, kind) <==> value < 16),
        kind == FieldKind::Bits(6) ==> (field_fits(value, kind) <==> value < 64),
        kind == FieldKind::Bits(8) ==> (field_fits(value, kind) <==> value < 256),
        kind == FieldKind::Bits(11) ==> (field_fits(value, kind) <==> value < 2048),
        kind == FieldKind::Bits(32) ==> (field_fits(value, kind) <==> value < 0x1_0000_0000),
{
    vstd::arithmetic::power2::lemma2_to64();
    crate::bits::lemma_ue_prefix_len_small(value as nat);
}

/// Numbers that fit, written as one list and read back, are unchanged.
pub proof fn lemma_read_list(values: Seq<u64>, layout: Seq<FieldKind>, rest: Seq<bool>)
    requires
        values.len() == layout.len(),
        forall|i: int| 0 <= i < values.len() ==> field_fits(#[trigger] values[i], layout[i]),
    ensures
        spec_read_fields(fields_bits(values, layout) + rest, layout) == Ok::<_, RpuError>(
            (values, rest),
        ),
{
    lemma_read_fields_of_fields_bits(values, layout, rest);
}


/// The codes of a list whose last field has a given number of bits take
/// at least that many bits.
pub proof fn lemma_fields_bits_min_len(values: Seq<u64>, layout: Seq<FieldKind>, n: u8)
    requires
        values.len() == layout.len(),
        layout.len() > 0,
        layout.last() == FieldKind::Bits(n),
    ensures
        fields_bits(values, layout).len() >= n,
{
    reveal(fields_bits);
    crate::bits::lemma_value_bits_len(values.last() as nat, n as nat);
}

} // verus!
