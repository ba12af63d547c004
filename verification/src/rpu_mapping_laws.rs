//! Writing a mapping or a quantization and reading it back.

use vstd::prelude::*;
use vstd::arithmetic::power2::pow2;
use crate::bits::MAX_UE;
use crate::coefficients::{
    coefficient_bits, coefficients_bits, spec_read_coefficient, spec_read_coefficients,
    Coefficient,
};
use crate::error::RpuError;
use crate::fields::{
    field_fits, fields_bits, spec_read_fields, FieldKind, lemma_field_fits,
    lemma_fields_bits_of_read_fields, lemma_read_list,
};
use crate::rpu_header::{spec_flag_code, CoefficientFormat, RpuDataHeaderView};
use crate::rpu_mapping::{
    curve_count, spec_coefficient_count, spec_components_bits, spec_curve_bits,
    spec_curve_head_bits, spec_curves_bits, spec_mapping_bits, spec_nlq_bits,
    spec_nlq_params_bits, spec_parse_curve, spec_parse_curve_head, spec_parse_curves,
    spec_parse_mapping, spec_parse_nlq, spec_parse_nlq_params, MappingCurveView, NlqParams,
};

verus! {

impl CoefficientFormat {
    /// Whether `coefficient` is as a reader gives it: its fraction fits its
    /// bits, and its integer part an Exp-Golomb code, or is zero where the
    /// format has none.
    pub open spec fn canonical(self, coefficient: Coefficient) -> bool {
        &&& coefficient.fraction < pow2(self.fraction_bits as nat)
        &&& if self.with_integer {
            coefficient.integer <= MAX_UE
        } else {
            coefficient.integer == 0
        }
    }

    /// Whether each of `list` is as a reader gives it.
    pub open spec fn all_canonical(self, list: Seq<Coefficient>) -> bool {
        forall|i: int| 0 <= i < list.len() ==> self.canonical(#[trigger] list[i])
    }
}

/// A coefficient that is as a reader gives it is read back as it was written.
pub proof fn lemma_read_coefficient_of_bits(
    coefficient: Coefficient,
    format: CoefficientFormat,
    rest: Seq<bool>,
)
    requires
        format.canonical(coefficient),
    ensures
        spec_read_coefficient(coefficient_bits(coefficient, format) + rest, format) == Ok::<
            _,
            RpuError,
        >((coefficient, rest)),
{
    let codes = format.codes(coefficient);
    let layout = format.layout();
    assert forall|i: int| 0 <= i < codes.len() implies field_fits(#[trigger] codes[i], layout[i]) by {
        lemma_field_fits(codes[i], layout[i]);
    }
    lemma_read_list(codes, layout, rest);
}

/// A coefficient that was read is as a reader gives it.
pub proof fn lemma_read_coefficient_canonical(bits: Seq<bool>, format: CoefficientFormat)
    requires
        format.fraction_bits <= 32,
        spec_read_coefficient(bits, format) is Ok,
    ensures
        format.canonical(spec_read_coefficient(bits, format)->Ok_0.0),
{
    let layout = format.layout();
    lemma_fields_bits_of_read_fields(bits, layout);
    let codes = spec_read_fields(bits, layout)->Ok_0.0;
    assert(field_fits(codes[0], layout[0]));
    lemma_field_fits(codes[0], layout[0]);
    if format.with_integer {
        assert(field_fits(codes[1], layout[1]));
    }
}

/// Coefficients that are as a reader gives them are read back as they were written.
pub proof fn lemma_read_coefficients_of_bits(
    list: Seq<Coefficient>,
    format: CoefficientFormat,
    rest: Seq<bool>,
)
    requires
        format.all_canonical(list),
    ensures
        spec_read_coefficients(coefficients_bits(list, format) + rest, format, list.len())
            == Ok::<_, RpuError>((list, rest)),
    decreases list.len(),
{
    if list.len() == 0 {
        assert(coefficients_bits(list, format) + rest =~= rest);
        assert(list =~= Seq::<Coefficient>::empty());
    } else {
        let front = list.drop_last();
        let last = coefficient_bits(list.last(), format);
        assert forall|i: int| 0 <= i < front.len() implies format.canonical(#[trigger] front[i]) by {
            assert(front[i] == list[i]);
        }
        lemma_read_coefficients_of_bits(front, format, last + rest);
        assert(coefficients_bits(list, format) + rest =~= coefficients_bits(front, format) + (
        last + rest));
        assert(format.canonical(list[list.len() - 1]));
        lemma_read_coefficient_of_bits(list.last(), format, rest);
        assert(front.push(list.last()) =~= list);
    }
}

/// Coefficients that were read are as a reader gives them.
pub proof fn lemma_read_coefficients_canonical(bits: Seq<bool>, format: CoefficientFormat, count: nat)
    requires
        format.fraction_bits <= 32,
        spec_read_coefficients(bits, format, count) is Ok,
    ensures
        format.all_canonical(spec_read_coefficients(bits, format, count)->Ok_0.0),
        spec_read_coefficients(bits, format, count)->Ok_0.0.len() == count,
    decreases count,
{
    if count > 0 {
        lemma_read_coefficients_canonical(bits, format, (count - 1) as nat);
        let (front, middle) = spec_read_coefficients(bits, format, (count - 1) as nat)->Ok_0;
        lemma_read_coefficient_canonical(middle, format);
        let list = spec_read_coefficients(bits, format, count)->Ok_0.0;
        assert forall|i: int| 0 <= i < list.len() implies format.canonical(#[trigger] list[i]) by {
            if i < front.len() {
                assert(list[i] == front[i]);
            }
        }
    }
}

impl MappingCurveView {
    /// Whether the curve is as a reader gives it: its kind and its order
    /// fit their places, the flag is set only where it is on the wire, and
    /// there are as many coefficients as the kind and the order make, each
    /// as a reader gives it. `last` says whether it is the curve of the
    /// last stretch.
    pub open spec fn canonical(self, format: CoefficientFormat, last: bool) -> bool {
        &&& self.mapping_idc <= MAX_UE
        &&& if self.mapping_idc == 0 {
            self.order_minus1 <= MAX_UE && (self.order_minus1 != 0 ==> !self.linear_interp_flag)
        } else if self.mapping_idc == 1 {
            self.order_minus1 < 4 && !self.linear_interp_flag
        } else {
            self.order_minus1 == 0 && !self.linear_interp_flag
        }
        &&& self.coefficients.len() == spec_coefficient_count(
            self.mapping_idc,
            self.order_minus1,
            self.linear_interp_flag,
            last,
        )
        &&& format.all_canonical(self.coefficients)
    }
}

/// Whether each of `curves` is as a reader gives it, the last of `total`
/// being the curve of the last stretch.
pub open spec fn curves_canonical(curves: Seq<MappingCurveView>, format: CoefficientFormat, total: nat) -> bool {
    forall|i: int| 0 <= i < curves.len() ==> (#[trigger] curves[i]).canonical(format, i + 1 == total)
}

/// Whether `mapping` is as a reader gives it for `header`: three
/// components, each with a curve for each stretch between two pivots, each
/// curve as a reader gives it.
pub open spec fn mapping_canonical(mapping: Seq<Seq<MappingCurveView>>, header: RpuDataHeaderView) -> bool {
    &&& mapping.len() == 3
    &&& forall|c: int|
        0 <= c < 3 ==> (#[trigger] mapping[c]).len() == curve_count(header, c) && curves_canonical(
            mapping[c],
            header.coefficient_format(),
            curve_count(header, c),
        )
}

/// A curve that is as a reader gives it is read back as it was written.
pub proof fn lemma_parse_curve_of_bits(
    curve: MappingCurveView,
    format: CoefficientFormat,
    last: bool,
    rest: Seq<bool>,
)
    requires
        curve.canonical(format, last),
    ensures
        spec_parse_curve(spec_curve_bits(curve, format) + rest, format, last) == Ok::<_, RpuError>(
            (curve, rest),
        ),
{
    let ue = seq![FieldKind::Ue];
    let idc = seq![curve.mapping_idc];
    let head = spec_curve_head_bits(curve);
    let body = coefficients_bits(curve.coefficients, format);
    let bits = spec_curve_bits(curve, format) + rest;
    assert(bits =~= fields_bits(idc, ue) + (head + (body + rest)));
    lemma_field_fits(idc[0], ue[0]);
    lemma_read_list(idc, ue, head + (body + rest));
    assert(spec_parse_curve_head(head + (body + rest), curve.mapping_idc) == Ok::<_, RpuError>(
        ((curve.order_minus1, curve.linear_interp_flag), body + rest),
    )) by {
        if curve.mapping_idc == 0 {
            let order = seq![curve.order_minus1];
            let one = seq![FieldKind::Bits(1)];
            let flag = seq![spec_flag_code(curve.linear_interp_flag)];
            lemma_field_fits(order[0], ue[0]);
            if curve.order_minus1 == 0 {
                assert(head + (body + rest) =~= fields_bits(order, ue) + (fields_bits(flag, one)
                    + (body + rest)));
                lemma_read_list(order, ue, fields_bits(flag, one) + (body + rest));
                lemma_field_fits(flag[0], one[0]);
                lemma_read_list(flag, one, body + rest);
            } else {
                assert(head + (body + rest) =~= fields_bits(order, ue) + (body + rest));
                lemma_read_list(order, ue, body + rest);
            }
        } else if curve.mapping_idc == 1 {
            let two = seq![FieldKind::Bits(2)];
            let order = seq![curve.order_minus1];
            lemma_field_fits(order[0], two[0]);
            lemma_read_list(order, two, body + rest);
        } else {
            assert(head + (body + rest) =~= body + rest);
        }
    }
    lemma_read_coefficients_of_bits(curve.coefficients, format, rest);
}

/// A curve that was read is as a reader gives it.
pub proof fn lemma_parsed_curve_canonical(bits: Seq<bool>, format: CoefficientFormat, last: bool)
    requires
        format.fraction_bits <= 32,
        spec_parse_curve(bits, format, last) is Ok,
    ensures
        spec_parse_curve(bits, format, last)->Ok_0.0.canonical(format, last),
{
    let ue = seq![FieldKind::Ue];
    lemma_fields_bits_of_read_fields(bits, ue);
    let (a, bits1) = spec_read_fields(bits, ue)->Ok_0;
    assert(field_fits(a[0], ue[0]));
    lemma_field_fits(a[0], ue[0]);
    let ((order, flag), bits2) = spec_parse_curve_head(bits1, a[0])->Ok_0;
    if a[0] == 0 {
        lemma_fields_bits_of_read_fields(bits1, ue);
        let b = spec_read_fields(bits1, ue)->Ok_0.0;
        assert(field_fits(b[0], ue[0]));
        lemma_field_fits(b[0], ue[0]);
    } else if a[0] == 1 {
        let two = seq![FieldKind::Bits(2)];
        lemma_fields_bits_of_read_fields(bits1, two);
        let b = spec_read_fields(bits1, two)->Ok_0.0;
        assert(field_fits(b[0], two[0]));
        lemma_field_fits(b[0], two[0]);
    }
    lemma_read_coefficients_canonical(
        bits2,
        format,
        spec_coefficient_count(a[0], order, flag, last) as nat,
    );
}

/// Curves that are as a reader gives them are read back as they were written.
pub proof fn lemma_parse_curves_of_bits(
    curves: Seq<MappingCurveView>,
    format: CoefficientFormat,
    total: nat,
    rest: Seq<bool>,
)
    requires
        curves_canonical(curves, format, total),
    ensures
        spec_parse_curves(spec_curves_bits(curves, format) + rest, format, total, curves.len())
            == Ok::<_, RpuError>((curves, rest)),
    decreases curves.len(),
{
    if curves.len() == 0 {
        assert(spec_curves_bits(curves, format) + rest =~= rest);
        assert(curves =~= Seq::<MappingCurveView>::empty());
    } else {
        let front = curves.drop_last();
        let last = spec_curve_bits(curves.last(), format);
        assert forall|i: int| 0 <= i < front.len() implies (#[trigger] front[i]).canonical(
            format,
            i + 1 == total,
        ) by {
            assert(front[i] == curves[i]);
        }
        lemma_parse_curves_of_bits(front, format, total, last + rest);
        assert(spec_curves_bits(curves, format) + rest =~= spec_curves_bits(front, format) + (
        last + rest));
        assert(curves[curves.len() - 1].canonical(format, curves.len() == total));
        lemma_parse_curve_of_bits(curves.last(), format, curves.len() == total, rest);
        assert(front.push(curves.last()) =~= curves);
    }
}

/// Curves that were read are as a reader gives them.
pub proof fn lemma_parsed_curves_canonical(bits: Seq<bool>, format: CoefficientFormat, total: nat, count: nat)
    requires
        format.fraction_bits <= 32,
        spec_parse_curves(bits, format, total, count) is Ok,
    ensures
        curves_canonical(spec_parse_curves(bits, format, total, count)->Ok_0.0, format, total),
        spec_parse_curves(bits, format, total, count)->Ok_0.0.len() == count,
    decreases count,
{
    if count > 0 {
        lemma_parsed_curves_canonical(bits, format, total, (count - 1) as nat);
        let (front, middle) = spec_parse_curves(bits, format, total, (count - 1) as nat)->Ok_0;
        lemma_parsed_curve_canonical(middle, format, count == total);
        let curves = spec_parse_curves(bits, format, total, count)->Ok_0.0;
        assert forall|i: int| 0 <= i < curves.len() implies (#[trigger] curves[i]).canonical(
            format,
            i + 1 == total,
        ) by {
            if i < front.len() {
                assert(curves[i] == front[i]);
            }
        }
    }
}

/// Writing, then reading. A mapping that is as a reader gives it is read
/// back from its bits as it was written.
pub proof fn lemma_parse_mapping_of_bits(
    mapping: Seq<Seq<MappingCurveView>>,
    header: RpuDataHeaderView,
    rest: Seq<bool>,
)
    requires
        mapping_canonical(mapping, header),
    ensures
        spec_parse_mapping(spec_mapping_bits(mapping, header) + rest, header) == Ok::<_, RpuError>(
            (mapping, rest),
        ),
{
    let format = header.coefficient_format();
    let b0 = spec_curves_bits(mapping[0], format);
    let b1 = spec_curves_bits(mapping[1], format);
    let b2 = spec_curves_bits(mapping[2], format);
    let none = Seq::<Seq<MappingCurveView>>::empty();
    let one = seq![mapping[0]];
    let two = seq![mapping[0], mapping[1]];
    assert(mapping.drop_last() =~= two);
    assert(two.drop_last() =~= one);
    assert(one.drop_last() =~= none);
    assert(spec_components_bits(none, format) =~= Seq::<bool>::empty());
    assert(spec_components_bits(one, format) =~= b0);
    assert(spec_components_bits(two, format) =~= b0 + b1);
    assert(spec_components_bits(mapping, format) =~= b0 + b1 + b2);
    assert(spec_mapping_bits(mapping, header) + rest =~= b0 + (b1 + (b2 + rest)));
    lemma_parse_curves_of_bits(mapping[0], format, curve_count(header, 0), b1 + (b2 + rest));
    lemma_parse_curves_of_bits(mapping[1], format, curve_count(header, 1), b2 + rest);
    lemma_parse_curves_of_bits(mapping[2], format, curve_count(header, 2), rest);
    assert(seq![mapping[0], mapping[1], mapping[2]] =~= mapping);
}

/// A mapping that was read is as a reader gives it.
pub proof fn lemma_parsed_mapping_canonical(bits: Seq<bool>, header: RpuDataHeaderView)
    requires
        spec_parse_mapping(bits, header) is Ok,
    ensures
        mapping_canonical(spec_parse_mapping(bits, header)->Ok_0.0, header),
{
    let format = header.coefficient_format();
    let n0 = curve_count(header, 0);
    let n1 = curve_count(header, 1);
    let n2 = curve_count(header, 2);
    lemma_parsed_curves_canonical(bits, format, n0, n0);
    let bits1 = spec_parse_curves(bits, format, n0, n0)->Ok_0.1;
    lemma_parsed_curves_canonical(bits1, format, n1, n1);
    let bits2 = spec_parse_curves(bits1, format, n1, n1)->Ok_0.1;
    lemma_parsed_curves_canonical(bits2, format, n2, n2);
}

impl RpuDataHeaderView {
    /// Whether `params` are as a reader gives them: the offset fits its
    /// bits, each coefficient is as a reader gives it, and the slope and
    /// the threshold are zero for a method that has none.
    pub open spec fn nlq_params_canonical(self, params: NlqParams) -> bool {
        let format = self.coefficient_format();
        let zero = Coefficient { integer: 0, fraction: 0 };
        &&& params.nlq_offset < pow2(self.el_bits() as nat)
        &&& format.canonical(params.hdr_in_max)
        &&& if self.nlq_method_idc == 0 {
            format.canonical(params.linear_deadzone_slope) && format.canonical(
                params.linear_deadzone_threshold,
            )
        } else {
            params.linear_deadzone_slope == zero && params.linear_deadzone_threshold == zero
        }
    }

    /// Whether `list` is as a reader gives it: parameters for three
    /// components, each as a reader gives them.
    pub open spec fn nlq_canonical(self, list: Seq<NlqParams>) -> bool {
        &&& list.len() == 3
        &&& forall|i: int| 0 <= i < 3 ==> self.nlq_params_canonical(#[trigger] list[i])
    }
}

/// Parameters that are as a reader gives them are read back as they were written.
pub proof fn lemma_parse_nlq_params_of_bits(params: NlqParams, header: RpuDataHeaderView, rest: Seq<bool>)
    requires
        header.nlq_params_canonical(params),
    ensures
        spec_parse_nlq_params(spec_nlq_params_bits(params, header) + rest, header) == Ok::<
            _,
            RpuError,
        >((params, rest)),
{
    let format = header.coefficient_format();
    let lo = seq![FieldKind::Bits(header.el_bits())];
    let o = seq![params.nlq_offset];
    let m = coefficient_bits(params.hdr_in_max, format);
    let s = coefficient_bits(params.linear_deadzone_slope, format);
    let t = coefficient_bits(params.linear_deadzone_threshold, format);
    let bits = spec_nlq_params_bits(params, header) + rest;
    if header.nlq_method_idc == 0 {
        assert(bits =~= fields_bits(o, lo) + (m + (s + (t + rest))));
        lemma_read_list(o, lo, m + (s + (t + rest)));
        lemma_read_coefficient_of_bits(params.hdr_in_max, format, s + (t + rest));
        lemma_read_coefficient_of_bits(params.linear_deadzone_slope, format, t + rest);
        lemma_read_coefficient_of_bits(params.linear_deadzone_threshold, format, rest);
    } else {
        assert(bits =~= fields_bits(o, lo) + (m + rest));
        lemma_read_list(o, lo, m + rest);
        lemma_read_coefficient_of_bits(params.hdr_in_max, format, rest);
    }
}

/// Parameters that were read are as a reader gives them.
pub proof fn lemma_parsed_nlq_params_canonical(bits: Seq<bool>, header: RpuDataHeaderView)
    requires
        spec_parse_nlq_params(bits, header) is Ok,
    ensures
        header.nlq_params_canonical(spec_parse_nlq_params(bits, header)->Ok_0.0),
{
    let format = header.coefficient_format();
    let lo = seq![FieldKind::Bits(header.el_bits())];
    lemma_fields_bits_of_read_fields(bits, lo);
    let (a, bits1) = spec_read_fields(bits, lo)->Ok_0;
    assert(field_fits(a[0], lo[0]));
    lemma_read_coefficient_canonical(bits1, format);
    let bits2 = spec_read_coefficient(bits1, format)->Ok_0.1;
    if header.nlq_method_idc == 0 {
        lemma_read_coefficient_canonical(bits2, format);
        let bits3 = spec_read_coefficient(bits2, format)->Ok_0.1;
        lemma_read_coefficient_canonical(bits3, format);
    }
}

/// Writing, then reading. A quantization that is as a reader gives it is
/// read back from its bits as it was written.
pub proof fn lemma_parse_nlq_of_bits(list: Seq<NlqParams>, header: RpuDataHeaderView, rest: Seq<bool>)
    requires
        header.nlq_canonical(list),
    ensures
        spec_parse_nlq(spec_nlq_bits(list, header) + rest, header) == Ok::<_, RpuError>(
            (list, rest),
        ),
{
    let b0 = spec_nlq_params_bits(list[0], header);
    let b1 = spec_nlq_params_bits(list[1], header);
    let b2 = spec_nlq_params_bits(list[2], header);
    let none = Seq::<NlqParams>::empty();
    let one = seq![list[0]];
    let two = seq![list[0], list[1]];
    assert(list.drop_last() =~= two);
    assert(two.drop_last() =~= one);
    assert(one.drop_last() =~= none);
    assert(spec_nlq_bits(none, header) =~= Seq::<bool>::empty());
    assert(spec_nlq_bits(one, header) =~= b0);
    assert(spec_nlq_bits(two, header) =~= b0 + b1);
    assert(spec_nlq_bits(list, header) =~= b0 + b1 + b2);
    assert(spec_nlq_bits(list, header) + rest =~= b0 + (b1 + (b2 + rest)));
    lemma_parse_nlq_params_of_bits(list[0], header, b1 + (b2 + rest));
    lemma_parse_nlq_params_of_bits(list[1], header, b2 + rest);
    lemma_parse_nlq_params_of_bits(list[2], header, rest);
    assert(seq![list[0], list[1], list[2]] =~= list);
}

/// A quantization that was read is as a reader gives it.
pub proof fn lemma_parsed_nlq_canonical(bits: Seq<bool>, header: RpuDataHeaderView)
    requires
        spec_parse_nlq(bits, header) is Ok,
    ensures
        header.nlq_canonical(spec_parse_nlq(bits, header)->Ok_0.0),
{
    lemma_parsed_nlq_params_canonical(bits, header);
    let bits1 = spec_parse_nlq_params(bits, header)->Ok_0.1;
    lemma_parsed_nlq_params_canonical(bits1, header);
    let bits2 = spec_parse_nlq_params(bits1, header)->Ok_0.1;
    lemma_parsed_nlq_params_canonical(bits2, header);
}

} // verus!
