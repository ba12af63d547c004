//! The mapping of the base layer to the output signal, and the
//! quantization of the enhancement layer.

use vstd::prelude::*;
use crate::bitvec_reader::BitVecReader;
use crate::bitvec_writer::BitVecWriter;
use crate::coefficients::{
    coefficient_bits, coefficients_bits, read_coefficient, read_coefficients,
    spec_read_coefficient, spec_read_coefficients, write_coefficient, write_coefficients,
    Coefficient, lemma_coefficient_bits_of_read, lemma_coefficients_bits_of_read,
};
use crate::error::RpuError;
use crate::fields::{
    fields_bits, list1, read_fields, spec_read_fields, write_fields, FieldKind,
    lemma_fields_bits_of_read_fields, lemma_fits_bound,
};
use crate::rpu_header::{
    spec_flag_code, flag_code, CoefficientFormat, RpuDataHeader, RpuDataHeaderView,
};

verus! {

/// The mapping of one stretch between two pivots.
///
/// `mapping_idc` 0 is a polynomial and 1 a multivariate multiple
/// regression. `order_minus1` is the order of either, less one. A
/// polynomial of order one, with `linear_interp_flag`, is given by its
/// values at the pivots and not by coefficients.
#[derive(Clone, Debug, PartialEq, Eq)]
pub struct MappingCurve {
    pub mapping_idc: u64,
    pub order_minus1: u64,
    pub linear_interp_flag: bool,
    pub coefficients: Vec<Coefficient>,
}

/// A curve with its coefficients as a sequence.
pub struct MappingCurveView {
    pub mapping_idc: u64,
    pub order_minus1: u64,
    pub linear_interp_flag: bool,
    pub coefficients: Seq<Coefficient>,
}

impl View for MappingCurve {
    type V = MappingCurveView;

    open spec fn view(&self) -> MappingCurveView {
        MappingCurveView {
            mapping_idc: self.mapping_idc,
            order_minus1: self.order_minus1,
            linear_interp_flag: self.linear_interp_flag,
            coefficients: self.coefficients@,
        }
    }
}

/// The views of `curves`.
pub open spec fn curve_views(curves: Seq<MappingCurve>) -> Seq<MappingCurveView> {
    curves.map_values(|c: MappingCurve| c@)
}

/// The mapping: for each of the three components, a curve for each stretch
/// between two pivots.
#[derive(Clone, Debug, PartialEq, Eq)]
pub struct RpuDataMapping {
    pub curves: Vec<Vec<MappingCurve>>,
}

/// The views of the curves of the components.
pub open spec fn component_views(components: Seq<Vec<MappingCurve>>) -> Seq<Seq<MappingCurveView>> {
    components.map_values(|c: Vec<MappingCurve>| curve_views(c@))
}

impl View for RpuDataMapping {
    type V = Seq<Seq<MappingCurveView>>;

    open spec fn view(&self) -> Seq<Seq<MappingCurveView>> {
        component_views(self.curves@)
    }
}

/// How many coefficients a curve has: a polynomial one more than its
/// order, or as many values as it has pivots of its own, which is one, and
/// for the last stretch two; a regression one constant and seven
/// coefficients for each step of its order.
pub open spec fn spec_coefficient_count(
    mapping_idc: u64,
    order_minus1: u64,
    linear_interp_flag: bool,
    last: bool,
) -> u64 {
    if mapping_idc == 0 {
        if order_minus1 == 0 && linear_interp_flag {
            if last {
                2
            } else {
                1
            }
        } else if order_minus1 < 0x2_0000_0000 {
            (order_minus1 + 2) as u64
        } else {
            0
        }
    } else if mapping_idc == 1 && order_minus1 < 4 {
        (1 + 7 * (order_minus1 + 1)) as u64
    } else {
        0
    }
}

/// How many coefficients a curve has.
#[verifier::when_used_as_spec(spec_coefficient_count)]
pub fn coefficient_count(mapping_idc: u64, order_minus1: u64, linear_interp_flag: bool, last: bool) -> (count:
    u64)
    ensures
        count == spec_coefficient_count(mapping_idc, order_minus1, linear_interp_flag, last),
{
    if mapping_idc == 0 {
        if order_minus1 == 0 && linear_interp_flag {
            if last {
                2
            } else {
                1
            }
        } else if order_minus1 < 0x2_0000_0000 {
            order_minus1 + 2
        } else {
            0
        }
    } else if mapping_idc == 1 && order_minus1 < 4 {
        1 + 7 * (order_minus1 + 1)
    } else {
        0
    }
}

/// Reading what stands between the kind of a curve and its coefficients:
/// the order, and for a polynomial of order one the flag; `(order_minus1,
/// linear_interp_flag)` and the bits that follow.
pub open spec fn spec_parse_curve_head(bits: Seq<bool>, mapping_idc: u64) -> Result<
    ((u64, bool), Seq<bool>),
    RpuError,
> {
    if mapping_idc == 0 {
        match spec_read_fields(bits, seq![FieldKind::Ue]) {
            Err(e) => Err(e),
            Ok((a, bits)) => if a[0] == 0 {
                match spec_read_fields(bits, seq![FieldKind::Bits(1)]) {
                    Err(e) => Err(e),
                    Ok((b, bits)) => Ok(((a[0], b[0] == 1), bits)),
                }
            } else {
                Ok(((a[0], false), bits))
            },
        }
    } else if mapping_idc == 1 {
        match spec_read_fields(bits, seq![FieldKind::Bits(2)]) {
            Err(e) => Err(e),
            Ok((a, bits)) => Ok(((a[0], false), bits)),
        }
    } else {
        Ok(((0, false), bits))
    }
}

/// The bits of what stands between the kind of a curve and its coefficients.
pub open spec fn spec_curve_head_bits(curve: MappingCurveView) -> Seq<bool> {
    if curve.mapping_idc == 0 {
        fields_bits(seq![curve.order_minus1], seq![FieldKind::Ue]) + (if curve.order_minus1 == 0 {
            fields_bits(seq![spec_flag_code(curve.linear_interp_flag)], seq![FieldKind::Bits(1)])
        } else {
            Seq::empty()
        })
    } else if curve.mapping_idc == 1 {
        fields_bits(seq![curve.order_minus1], seq![FieldKind::Bits(2)])
    } else {
        Seq::empty()
    }
}

/// Reading one curve: its kind, its order, and as many coefficients as
/// that makes; `last` says whether it is the curve of the last stretch.
pub open spec fn spec_parse_curve(bits: Seq<bool>, format: CoefficientFormat, last: bool) -> Result<
    (MappingCurveView, Seq<bool>),
    RpuError,
> {
    match spec_read_fields(bits, seq![FieldKind::Ue]) {
        Err(e) => Err(e),
        Ok((a, bits)) => match spec_parse_curve_head(bits, a[0]) {
            Err(e) => Err(e),
            Ok(((order_minus1, linear_interp_flag), bits)) => match spec_read_coefficients(
                bits,
                format,
                spec_coefficient_count(a[0], order_minus1, linear_interp_flag, last) as nat,
            ) {
                Err(e) => Err(e),
                Ok((coefficients, bits)) => Ok(
                    (
                        MappingCurveView {
                            mapping_idc: a[0],
                            order_minus1,
                            linear_interp_flag,
                            coefficients,
                        },
                        bits,
                    ),
                ),
            },
        },
    }
}

/// The bits of one curve.
pub open spec fn spec_curve_bits(curve: MappingCurveView, format: CoefficientFormat) -> Seq<bool> {
    fields_bits(seq![curve.mapping_idc], seq![FieldKind::Ue]) + spec_curve_head_bits(curve)
        + coefficients_bits(curve.coefficients, format)
}

/// Reading the first `count` of the `total` curves of a component: the
/// curves and the bits that follow, or the error of the first curve that
/// cannot be read.
pub open spec fn spec_parse_curves(bits: Seq<bool>, format: CoefficientFormat, total: nat, count: nat) -> Result<
    (Seq<MappingCurveView>, Seq<bool>),
    RpuError,
>
    decreases count,
{
    if count == 0 {
        Ok((Seq::empty(), bits))
    } else {
        match spec_parse_curves(bits, format, total, (count - 1) as nat) {
            Err(e) => Err(e),
            Ok((curves, rest)) => match spec_parse_curve(rest, format, count == total) {
                Err(e) => Err(e),
                Ok((curve, rest)) => Ok((curves.push(curve), rest)),
            },
        }
    }
}

/// The bits of `curves`, one after the other.
pub open spec fn spec_curves_bits(curves: Seq<MappingCurveView>, format: CoefficientFormat) -> Seq<
    bool,
>
    decreases curves.len(),
{
    if curves.len() == 0 {
        Seq::empty()
    } else {
        spec_curves_bits(curves.drop_last(), format) + spec_curve_bits(curves.last(), format)
    }
}

/// How many curves the component `component` has: one for each stretch
/// between two of its pivots.
pub open spec fn curve_count(header: RpuDataHeaderView, component: int) -> nat {
    (header.num_pivots_minus_2[component] + 1) as nat
}

/// Reading the mapping that `header` announces: the curves of the three components.
pub open spec fn spec_parse_mapping(bits: Seq<bool>, header: RpuDataHeaderView) -> Result<
    (Seq<Seq<MappingCurveView>>, Seq<bool>),
    RpuError,
> {
    let format = header.coefficient_format();
    match spec_parse_curves(bits, format, curve_count(header, 0), curve_count(header, 0)) {
        Err(e) => Err(e),
        Ok((first, bits)) => match spec_parse_curves(
            bits,
            format,
            curve_count(header, 1),
            curve_count(header, 1),
        ) {
            Err(e) => Err(e),
            Ok((second, bits)) => match spec_parse_curves(
                bits,
                format,
                curve_count(header, 2),
                curve_count(header, 2),
            ) {
                Err(e) => Err(e),
                Ok((third, bits)) => Ok((seq![first, second, third], bits)),
            },
        },
    }
}

/// The bits of the curves of the components, one component after the other.
pub open spec fn spec_components_bits(mapping: Seq<Seq<MappingCurveView>>, format: CoefficientFormat) -> Seq<
    bool,
>
    decreases mapping.len(),
{
    if mapping.len() == 0 {
        Seq::empty()
    } else {
        spec_components_bits(mapping.drop_last(), format) + spec_curves_bits(
            mapping.last(),
            format,
        )
    }
}

/// The bits of `mapping` in an RPU with the given header.
pub open spec fn spec_mapping_bits(mapping: Seq<Seq<MappingCurveView>>, header: RpuDataHeaderView) -> Seq<
    bool,
> {
    spec_components_bits(mapping, header.coefficient_format())
}

/// An error in reading the first `n` curves is the error of reading more.
pub proof fn lemma_parse_curves_prefix_error(
    bits: Seq<bool>,
    format: CoefficientFormat,
    total: nat,
    n: nat,
    count: nat,
)
    requires
        n <= count,
    ensures
        spec_parse_curves(bits, format, total, n) is Err ==> spec_parse_curves(
            bits,
            format,
            total,
            count,
        ) == Err::<(Seq<MappingCurveView>, Seq<bool>), _>(
            spec_parse_curves(bits, format, total, n)->Err_0,
        ),
    decreases count - n,
{
    if n < count {
        lemma_parse_curves_prefix_error(bits, format, total, n, (count - 1) as nat);
    }
}

/// Bits that read as a curve are the bits of that curve.
pub proof fn lemma_curve_bits_of_parse(bits: Seq<bool>, format: CoefficientFormat, last: bool)
    requires
        format.fraction_bits <= 32,
        spec_parse_curve(bits, format, last) is Ok,
    ensures
        bits == spec_curve_bits(spec_parse_curve(bits, format, last)->Ok_0.0, format)
            + spec_parse_curve(bits, format, last)->Ok_0.1,
{
    let (curve, rest) = spec_parse_curve(bits, format, last)->Ok_0;
    let ue = seq![FieldKind::Ue];
    lemma_fields_bits_of_read_fields(bits, ue);
    let (a, bits1) = spec_read_fields(bits, ue)->Ok_0;
    assert(seq![a[0]] =~= a);
    let ((order_minus1, flag), bits2) = spec_parse_curve_head(bits1, a[0])->Ok_0;
    assert(bits1 == spec_curve_head_bits(curve) + bits2) by {
        if a[0] == 0 {
            lemma_fields_bits_of_read_fields(bits1, ue);
            let (b, after) = spec_read_fields(bits1, ue)->Ok_0;
            assert(seq![b[0]] =~= b);
            if b[0] == 0 {
                let one = seq![FieldKind::Bits(1)];
                lemma_fields_bits_of_read_fields(after, one);
                let c = spec_read_fields(after, one)->Ok_0.0;
                lemma_fits_bound(c, one, 0);
                assert(seq![spec_flag_code(c[0] == 1)] =~= c);
                assert(bits1 =~= spec_curve_head_bits(curve) + bits2);
            } else {
                assert(bits1 =~= spec_curve_head_bits(curve) + bits2);
            }
        } else if a[0] == 1 {
            let two = seq![FieldKind::Bits(2)];
            lemma_fields_bits_of_read_fields(bits1, two);
            let b = spec_read_fields(bits1, two)->Ok_0.0;
            assert(seq![b[0]] =~= b);
        } else {
            assert(bits1 =~= spec_curve_head_bits(curve) + bits2);
        }
    }
    lemma_coefficients_bits_of_read(
        bits2,
        format,
        spec_coefficient_count(a[0], order_minus1, flag, last) as nat,
    );
    assert(bits =~= spec_curve_bits(curve, format) + rest);
}

/// Bits that read as curves are the bits of those curves.
pub proof fn lemma_curves_bits_of_parse(bits: Seq<bool>, format: CoefficientFormat, total: nat, count: nat)
    requires
        format.fraction_bits <= 32,
        spec_parse_curves(bits, format, total, count) is Ok,
    ensures
        bits == spec_curves_bits(spec_parse_curves(bits, format, total, count)->Ok_0.0, format)
            + spec_parse_curves(bits, format, total, count)->Ok_0.1,
        spec_parse_curves(bits, format, total, count)->Ok_0.0.len() == count,
    decreases count,
{
    let (curves, rest) = spec_parse_curves(bits, format, total, count)->Ok_0;
    if count == 0 {
        assert(bits =~= spec_curves_bits(curves, format) + rest);
    } else {
        lemma_curves_bits_of_parse(bits, format, total, (count - 1) as nat);
        let (front, middle) = spec_parse_curves(bits, format, total, (count - 1) as nat)->Ok_0;
        lemma_curve_bits_of_parse(middle, format, count == total);
        assert(curves.drop_last() =~= front);
        assert(bits =~= spec_curves_bits(curves, format) + rest);
    }
}

/// Reading, then writing. Bits that read as a mapping are the bits of that mapping.
pub proof fn lemma_mapping_bits_of_parse(bits: Seq<bool>, header: RpuDataHeaderView)
    requires
        spec_parse_mapping(bits, header) is Ok,
    ensures
        bits == spec_mapping_bits(spec_parse_mapping(bits, header)->Ok_0.0, header)
            + spec_parse_mapping(bits, header)->Ok_0.1,
        spec_parse_mapping(bits, header)->Ok_0.0.len() == 3,
{
    let format = header.coefficient_format();
    let (mapping, rest) = spec_parse_mapping(bits, header)->Ok_0;
    lemma_curves_bits_of_parse(bits, format, curve_count(header, 0), curve_count(header, 0));
    let (first, bits1) = spec_parse_curves(
        bits,
        format,
        curve_count(header, 0),
        curve_count(header, 0),
    )->Ok_0;
    lemma_curves_bits_of_parse(bits1, format, curve_count(header, 1), curve_count(header, 1));
    let (second, bits2) = spec_parse_curves(
        bits1,
        format,
        curve_count(header, 1),
        curve_count(header, 1),
    )->Ok_0;
    lemma_curves_bits_of_parse(bits2, format, curve_count(header, 2), curve_count(header, 2));
    let (third, bits3) = spec_parse_curves(
        bits2,
        format,
        curve_count(header, 2),
        curve_count(header, 2),
    )->Ok_0;
    let one = seq![first];
    let two = seq![first, second];
    assert(mapping.drop_last() =~= two);
    assert(two.drop_last() =~= one);
    let none = Seq::<Seq<MappingCurveView>>::empty();
    assert(one.drop_last() =~= none);
    assert(spec_components_bits(none, format) =~= Seq::<bool>::empty());
    assert(spec_components_bits(one, format) =~= spec_curves_bits(first, format));
    assert(spec_components_bits(two, format) =~= spec_curves_bits(first, format)
        + spec_curves_bits(second, format));
    assert(spec_components_bits(mapping, format) =~= spec_curves_bits(first, format)
        + spec_curves_bits(second, format) + spec_curves_bits(third, format));
    assert(bits =~= spec_mapping_bits(mapping, header) + rest);
}

impl MappingCurve {
    /// Reads one curve; `last` says whether it is the curve of the last stretch.
    pub fn parse(reader: &mut BitVecReader, format: CoefficientFormat, last: bool) -> (r: Result<
        MappingCurve,
        RpuError,
    >)
        requires
            format.fraction_bits <= 32,
        ensures
            final(reader).bits() == old(reader).bits(),
            match spec_parse_curve(old(reader).remaining(), format, last) {
                Ok((curve, rest)) => r is Ok && r->Ok_0@ == curve && final(reader).remaining()
                    == rest,
                Err(e) => r == Err::<MappingCurve, _>(e),
            },
    {
        let mapping_idc = match read_fields(reader, &list1(FieldKind::Ue)) {
            Ok(v) => v[0],
            Err(e) => {
                return Err(e);
            },
        };
        let mut order_minus1: u64 = 0;
        let mut linear_interp_flag = false;
        if mapping_idc == 0 {
            order_minus1 = match read_fields(reader, &list1(FieldKind::Ue)) {
                Ok(v) => v[0],
                Err(e) => {
                    return Err(e);
                },
            };
            if order_minus1 == 0 {
                linear_interp_flag = match read_fields(reader, &list1(FieldKind::Bits(1))) {
                    Ok(v) => v[0] == 1,
                    Err(e) => {
                        return Err(e);
                    },
                };
            }
        } else if mapping_idc == 1 {
            order_minus1 = match read_fields(reader, &list1(FieldKind::Bits(2))) {
                Ok(v) => v[0],
                Err(e) => {
                    return Err(e);
                },
            };
        }
        let count = coefficient_count(mapping_idc, order_minus1, linear_interp_flag, last);
        let coefficients = match read_coefficients(reader, format, count) {
            Ok(list) => list,
            Err(e) => {
                return Err(e);
            },
        };
        Ok(MappingCurve { mapping_idc, order_minus1, linear_interp_flag, coefficients })
    }

    /// Writes the curve with the coefficients it holds.
    pub fn write(&self, writer: &mut BitVecWriter, format: CoefficientFormat)
        ensures
            final(writer)@ == old(writer)@ + spec_curve_bits(self@, format),
    {
        write_fields(writer, &list1(self.mapping_idc), &list1(FieldKind::Ue));
        if self.mapping_idc == 0 {
            write_fields(writer, &list1(self.order_minus1), &list1(FieldKind::Ue));
            if self.order_minus1 == 0 {
                write_fields(
                    writer,
                    &list1(flag_code(self.linear_interp_flag)),
                    &list1(FieldKind::Bits(1)),
                );
            }
        } else if self.mapping_idc == 1 {
            write_fields(writer, &list1(self.order_minus1), &list1(FieldKind::Bits(2)));
        }
        write_coefficients(writer, &self.coefficients, format);
        assert(writer@ =~= old(writer)@ + spec_curve_bits(self@, format));
    }

    /// The curve that maps every value to itself.
    pub fn identity() -> (curve: MappingCurve)
        ensures
            curve@ == identity_curve(),
    {
        let mut coefficients: Vec<Coefficient> = Vec::new();
        coefficients.push(Coefficient { integer: 0, fraction: 0 });
        coefficients.push(Coefficient { integer: 1, fraction: 0 });
        let curve = MappingCurve {
            mapping_idc: 0,
            order_minus1: 0,
            linear_interp_flag: false,
            coefficients,
        };
        assert(curve@.coefficients =~= identity_curve().coefficients);
        curve
    }
}

/// The curve that maps every value to itself: the polynomial of order one
/// with the constant 0 and the slope 1.
pub open spec fn identity_curve() -> MappingCurveView {
    MappingCurveView {
        mapping_idc: 0,
        order_minus1: 0,
        linear_interp_flag: false,
        coefficients: seq![
            Coefficient { integer: 0, fraction: 0 },
            Coefficient { integer: 1, fraction: 0 },
        ],
    }
}

/// The mapping that maps every value of every component to itself.
pub open spec fn identity_mapping() -> Seq<Seq<MappingCurveView>> {
    seq![seq![identity_curve()], seq![identity_curve()], seq![identity_curve()]]
}

fn parse_curves(reader: &mut BitVecReader, format: CoefficientFormat, total: u64) -> (r: Result<
    Vec<MappingCurve>,
    RpuError,
>)
    requires
        format.fraction_bits <= 32,
    ensures
        final(reader).bits() == old(reader).bits(),
        match spec_parse_curves(old(reader).remaining(), format, total as nat, total as nat) {
            Ok((curves, rest)) => r is Ok && curve_views(r->Ok_0@) == curves
                && final(reader).remaining() == rest,
            Err(e) => r == Err::<Vec<MappingCurve>, _>(e),
        },
{
    let mut curves: Vec<MappingCurve> = Vec::new();
    let mut i: u64 = 0;
    assert(curve_views(curves@) =~= Seq::<MappingCurveView>::empty());
    while i < total
        invariant
            i <= total,
            format.fraction_bits <= 32,
            reader.bits() == old(reader).bits(),
            spec_parse_curves(old(reader).remaining(), format, total as nat, i as nat) == Ok::<
                _,
                RpuError,
            >((curve_views(curves@), reader.remaining())),
        decreases total - i,
    {
        proof {
            lemma_parse_curves_prefix_error(
                old(reader).remaining(),
                format,
                total as nat,
                (i + 1) as nat,
                total as nat,
            );
        }
        let ghost before = curve_views(curves@);
        let curve = match MappingCurve::parse(reader, format, i + 1 == total) {
            Ok(c) => c,
            Err(e) => {
                return Err(e);
            },
        };
        curves.push(curve);
        assert(curve_views(curves@) =~= before.push(curve@));
        i += 1;
    }
    Ok(curves)
}

fn write_curves(writer: &mut BitVecWriter, curves: &Vec<MappingCurve>, format: CoefficientFormat)
    ensures
        final(writer)@ == old(writer)@ + spec_curves_bits(curve_views(curves@), format),
{
    let mut i: usize = 0;
    let ghost views = curve_views(curves@);
    assert(old(writer)@ + spec_curves_bits(views.take(0), format) =~= old(writer)@);
    while i < curves.len()
        invariant
            i <= curves.len(),
            views == curve_views(curves@),
            writer@ == old(writer)@ + spec_curves_bits(views.take(i as int), format),
        decreases curves.len() - i,
    {
        proof {
            assert(views.take(i + 1).drop_last() =~= views.take(i as int));
            assert(views.take(i + 1).last() == curves@[i as int]@);
        }
        curves[i].write(writer, format);
        i += 1;
        assert(writer@ =~= old(writer)@ + spec_curves_bits(views.take(i as int), format));
    }
    assert(views.take(i as int) =~= views);
}

impl RpuDataMapping {
    /// Reads the mapping that `header` announces.
    pub fn parse(reader: &mut BitVecReader, header: &RpuDataHeader) -> (r: Result<
        RpuDataMapping,
        RpuError,
    >)
        requires
            header@.wf(),
        ensures
            final(reader).bits() == old(reader).bits(),
            match spec_parse_mapping(old(reader).remaining(), header@) {
                Ok((mapping, rest)) => r is Ok && r->Ok_0@ == mapping && final(reader).remaining()
                    == rest,
                Err(e) => r == Err::<RpuDataMapping, _>(e),
            },
    {
        let format = header.coefficient_format();
        let first = match parse_curves(reader, format, header.num_pivots_minus_2[0] + 1) {
            Ok(c) => c,
            Err(e) => {
                return Err(e);
            },
        };
        let second = match parse_curves(reader, format, header.num_pivots_minus_2[1] + 1) {
            Ok(c) => c,
            Err(e) => {
                return Err(e);
            },
        };
        let third = match parse_curves(reader, format, header.num_pivots_minus_2[2] + 1) {
            Ok(c) => c,
            Err(e) => {
                return Err(e);
            },
        };
        let ghost views = seq![curve_views(first@), curve_views(second@), curve_views(third@)];
        let mut curves: Vec<Vec<MappingCurve>> = Vec::new();
        curves.push(first);
        curves.push(second);
        curves.push(third);
        let mapping = RpuDataMapping { curves };
        assert(mapping@ =~= views);
        Ok(mapping)
    }

    /// Writes the curves of all components.
    pub fn write(&self, writer: &mut BitVecWriter, header: &RpuDataHeader)
        ensures
            final(writer)@ == old(writer)@ + spec_mapping_bits(self@, header@),
    {
        let format = header.coefficient_format();
        let mut i: usize = 0;
        let ghost views = self@;
        assert(old(writer)@ + spec_components_bits(views.take(0), format) =~= old(writer)@);
        while i < self.curves.len()
            invariant
                i <= self.curves.len(),
                views == self@,
                format == header@.coefficient_format(),
                writer@ == old(writer)@ + spec_components_bits(views.take(i as int), format),
            decreases self.curves.len() - i,
        {
            proof {
                assert(views.take(i + 1).drop_last() =~= views.take(i as int));
                assert(views.take(i + 1).last() == curve_views(self.curves@[i as int]@));
            }
            write_curves(writer, &self.curves[i], format);
            i += 1;
            assert(writer@ =~= old(writer)@ + spec_components_bits(views.take(i as int), format));
        }
        assert(views.take(i as int) =~= views);
    }

    /// The mapping that maps every value of every component to itself.
    pub fn identity() -> (mapping: RpuDataMapping)
        ensures
            mapping@ == identity_mapping(),
    {
        let mut curves: Vec<Vec<MappingCurve>> = Vec::new();
        let mut i: usize = 0;
        while i < 3
            invariant
                i <= 3,
                curves@.len() == i,
                forall|k: int| 0 <= k < i ==> curve_views(#[trigger] curves@[k]@) == seq![identity_curve()],
            decreases 3 - i,
        {
            let mut component: Vec<MappingCurve> = Vec::new();
            component.push(MappingCurve::identity());
            assert(curve_views(component@) =~= seq![identity_curve()]);
            curves.push(component);
            i += 1;
        }
        let mapping = RpuDataMapping { curves };
        assert(mapping@ =~= identity_mapping());
        mapping
    }
}

/// The quantization of the enhancement layer for one component.
#[derive(Clone, Copy, Debug, PartialEq, Eq, Structural)]
pub struct NlqParams {
    pub nlq_offset: u64,
    pub hdr_in_max: Coefficient,
    pub linear_deadzone_slope: Coefficient,
    pub linear_deadzone_threshold: Coefficient,
}

/// The quantization of the enhancement layer: parameters for each of the
/// three components.
#[derive(Clone, Debug, PartialEq, Eq)]
pub struct RpuDataNlq {
    pub params: Vec<NlqParams>,
}

impl View for RpuDataNlq {
    type V = Seq<NlqParams>;

    open spec fn view(&self) -> Seq<NlqParams> {
        self.params@
    }
}

/// Reading the parameters of one component: the offset, the greatest
/// input, and for the method 0 the slope and the threshold of the dead
/// zone, which are zero for every other method.
pub open spec fn spec_parse_nlq_params(bits: Seq<bool>, header: RpuDataHeaderView) -> Result<
    (NlqParams, Seq<bool>),
    RpuError,
> {
    let format = header.coefficient_format();
    let zero = Coefficient { integer: 0, fraction: 0 };
    match spec_read_fields(bits, seq![FieldKind::Bits(header.el_bits())]) {
        Err(e) => Err(e),
        Ok((a, bits)) => match spec_read_coefficient(bits, format) {
            Err(e) => Err(e),
            Ok((hdr_in_max, bits)) => if header.nlq_method_idc != 0 {
                Ok(
                    (
                        NlqParams {
                            nlq_offset: a[0],
                            hdr_in_max,
                            linear_deadzone_slope: zero,
                            linear_deadzone_threshold: zero,
                        },
                        bits,
                    ),
                )
            } else {
                match spec_read_coefficient(bits, format) {
                    Err(e) => Err(e),
                    Ok((slope, bits)) => match spec_read_coefficient(bits, format) {
                        Err(e) => Err(e),
                        Ok((threshold, bits)) => Ok(
                            (
                                NlqParams {
                                    nlq_offset: a[0],
                                    hdr_in_max,
                                    linear_deadzone_slope: slope,
                                    linear_deadzone_threshold: threshold,
                                },
                                bits,
                            ),
                        ),
                    },
                }
            },
        },
    }
}

/// The bits of the parameters of one component.
pub open spec fn spec_nlq_params_bits(params: NlqParams, header: RpuDataHeaderView) -> Seq<bool> {
    let format = header.coefficient_format();
    fields_bits(seq![params.nlq_offset], seq![FieldKind::Bits(header.el_bits())])
        + coefficient_bits(params.hdr_in_max, format) + (if header.nlq_method_idc != 0 {
        Seq::empty()
    } else {
        coefficient_bits(params.linear_deadzone_slope, format) + coefficient_bits(
            params.linear_deadzone_threshold,
            format,
        )
    })
}

/// Reading the quantization: the parameters of the three components.
pub open spec fn spec_parse_nlq(bits: Seq<bool>, header: RpuDataHeaderView) -> Result<
    (Seq<NlqParams>, Seq<bool>),
    RpuError,
> {
    match spec_parse_nlq_params(bits, header) {
        Err(e) => Err(e),
        Ok((first, bits)) => match spec_parse_nlq_params(bits, header) {
            Err(e) => Err(e),
            Ok((second, bits)) => match spec_parse_nlq_params(bits, header) {
                Err(e) => Err(e),
                Ok((third, bits)) => Ok((seq![first, second, third], bits)),
            },
        },
    }
}

/// The bits of the parameters of `list`, one component after the other.
pub open spec fn spec_nlq_bits(list: Seq<NlqParams>, header: RpuDataHeaderView) -> Seq<bool>
    decreases list.len(),
{
    if list.len() == 0 {
        Seq::empty()
    } else {
        spec_nlq_bits(list.drop_last(), header) + spec_nlq_params_bits(list.last(), header)
    }
}

/// Bits that read as the parameters of one component are the bits of those.
pub proof fn lemma_nlq_params_bits_of_parse(bits: Seq<bool>, header: RpuDataHeaderView)
    requires
        spec_parse_nlq_params(bits, header) is Ok,
    ensures
        bits == spec_nlq_params_bits(spec_parse_nlq_params(bits, header)->Ok_0.0, header)
            + spec_parse_nlq_params(bits, header)->Ok_0.1,
{
    let format = header.coefficient_format();
    let (params, rest) = spec_parse_nlq_params(bits, header)->Ok_0;
    let offset = seq![FieldKind::Bits(header.el_bits())];
    lemma_fields_bits_of_read_fields(bits, offset);
    let (a, bits1) = spec_read_fields(bits, offset)->Ok_0;
    assert(seq![a[0]] =~= a);
    lemma_coefficient_bits_of_read(bits1, format);
    let bits2 = spec_read_coefficient(bits1, format)->Ok_0.1;
    if header.nlq_method_idc == 0 {
        lemma_coefficient_bits_of_read(bits2, format);
        let bits3 = spec_read_coefficient(bits2, format)->Ok_0.1;
        lemma_coefficient_bits_of_read(bits3, format);
        assert(bits =~= spec_nlq_params_bits(params, header) + rest);
    } else {
        assert(bits =~= spec_nlq_params_bits(params, header) + rest);
    }
}

/// Reading, then writing. Bits that read as a quantization are the bits of it.
pub proof fn lemma_nlq_bits_of_parse(bits: Seq<bool>, header: RpuDataHeaderView)
    requires
        spec_parse_nlq(bits, header) is Ok,
    ensures
        bits == spec_nlq_bits(spec_parse_nlq(bits, header)->Ok_0.0, header) + spec_parse_nlq(
            bits,
            header,
        )->Ok_0.1,
        spec_parse_nlq(bits, header)->Ok_0.0.len() == 3,
{
    let (list, rest) = spec_parse_nlq(bits, header)->Ok_0;
    lemma_nlq_params_bits_of_parse(bits, header);
    let (first, bits1) = spec_parse_nlq_params(bits, header)->Ok_0;
    lemma_nlq_params_bits_of_parse(bits1, header);
    let (second, bits2) = spec_parse_nlq_params(bits1, header)->Ok_0;
    lemma_nlq_params_bits_of_parse(bits2, header);
    let (third, bits3) = spec_parse_nlq_params(bits2, header)->Ok_0;
    let none = Seq::<NlqParams>::empty();
    let one = seq![first];
    let two = seq![first, second];
    assert(list.drop_last() =~= two);
    assert(two.drop_last() =~= one);
    assert(one.drop_last() =~= none);
    assert(spec_nlq_bits(none, header) =~= Seq::<bool>::empty());
    assert(spec_nlq_bits(one, header) =~= spec_nlq_params_bits(first, header));
    assert(spec_nlq_bits(two, header) =~= spec_nlq_params_bits(first, header)
        + spec_nlq_params_bits(second, header));
    assert(spec_nlq_bits(list, header) =~= spec_nlq_params_bits(first, header)
        + spec_nlq_params_bits(second, header) + spec_nlq_params_bits(third, header));
    assert(bits =~= spec_nlq_bits(list, header) + rest);
}

fn parse_nlq_params(reader: &mut BitVecReader, header: &RpuDataHeader) -> (r: Result<
    NlqParams,
    RpuError,
>)
    ensures
        final(reader).bits() == old(reader).bits(),
        match spec_parse_nlq_params(old(reader).remaining(), header@) {
            Ok((params, rest)) => r == Ok::<_, RpuError>(params) && final(reader).remaining()
                == rest,
            Err(e) => r == Err::<NlqParams, _>(e),
        },
{
    let format = header.coefficient_format();
    let zero = Coefficient { integer: 0, fraction: 0 };
    let nlq_offset = match read_fields(reader, &list1(FieldKind::Bits(header.el_bits()))) {
        Ok(v) => v[0],
        Err(e) => {
            return Err(e);
        },
    };
    let hdr_in_max = match read_coefficient(reader, format) {
        Ok(c) => c,
        Err(e) => {
            return Err(e);
        },
    };
    if header.nlq_method_idc != 0 {
        return Ok(
            NlqParams {
                nlq_offset,
                hdr_in_max,
                linear_deadzone_slope: zero,
                linear_deadzone_threshold: zero,
            },
        );
    }
    let linear_deadzone_slope = match read_coefficient(reader, format) {
        Ok(c) => c,
        Err(e) => {
            return Err(e);
        },
    };
    let linear_deadzone_threshold = match read_coefficient(reader, format) {
        Ok(c) => c,
        Err(e) => {
            return Err(e);
        },
    };
    Ok(NlqParams { nlq_offset, hdr_in_max, linear_deadzone_slope, linear_deadzone_threshold })
}

fn write_nlq_params(writer: &mut BitVecWriter, params: NlqParams, header: &RpuDataHeader)
    ensures
        final(writer)@ == old(writer)@ + spec_nlq_params_bits(params, header@),
{
    let format = header.coefficient_format();
    write_fields(writer, &list1(params.nlq_offset), &list1(FieldKind::Bits(header.el_bits())));
    write_coefficient(writer, params.hdr_in_max, format);
    if header.nlq_method_idc == 0 {
        write_coefficient(writer, params.linear_deadzone_slope, format);
        write_coefficient(writer, params.linear_deadzone_threshold, format);
    }
    assert(writer@ =~= old(writer)@ + spec_nlq_params_bits(params, header@));
}

impl RpuDataNlq {
    /// Reads the quantization of an RPU with the given header.
    pub fn parse(reader: &mut BitVecReader, header: &RpuDataHeader) -> (r: Result<
        RpuDataNlq,
        RpuError,
    >)
        ensures
            final(reader).bits() == old(reader).bits(),
            match spec_parse_nlq(old(reader).remaining(), header@) {
                Ok((list, rest)) => r is Ok && r->Ok_0@ == list && final(reader).remaining()
                    == rest,
                Err(e) => r == Err::<RpuDataNlq, _>(e),
            },
    {
        let first = match parse_nlq_params(reader, header) {
            Ok(p) => p,
            Err(e) => {
                return Err(e);
            },
        };
        let second = match parse_nlq_params(reader, header) {
            Ok(p) => p,
            Err(e) => {
                return Err(e);
            },
        };
        let third = match parse_nlq_params(reader, header) {
            Ok(p) => p,
            Err(e) => {
                return Err(e);
            },
        };
        let mut params: Vec<NlqParams> = Vec::new();
        params.push(first);
        params.push(second);
        params.push(third);
        assert(params@ =~= seq![first, second, third]);
        Ok(RpuDataNlq { params })
    }

    /// Writes the parameters of all components.
    pub fn write(&self, writer: &mut BitVecWriter, header: &RpuDataHeader)
        ensures
            final(writer)@ == old(writer)@ + spec_nlq_bits(self@, header@),
    {
        let mut i: usize = 0;
        assert(old(writer)@ + spec_nlq_bits(self@.take(0), header@) =~= old(writer)@);
        while i < self.params.len()
            invariant
                i <= self.params.len(),
                writer@ == old(writer)@ + spec_nlq_bits(self@.take(i as int), header@),
            decreases self.params.len() - i,
        {
            proof {
                assert(self@.take(i + 1).drop_last() =~= self@.take(i as int));
            }
            write_nlq_params(writer, self.params[i], header);
            i += 1;
            assert(writer@ =~= old(writer)@ + spec_nlq_bits(self@.take(i as int), header@));
        }
        assert(self@.take(i as int) =~= self@);
    }
}

} // verus!
