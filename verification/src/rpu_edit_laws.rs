//! What holds of an RPU after it was changed.

use vstd::prelude::*;
use vstd::arithmetic::power2::{lemma2_to64, lemma_pow2_pos};

use crate::error::RpuError;
use crate::fields::{field_fits, lemma_field_fits};
use crate::rpu::{spec_parse_rpu, spec_write_rpu, DoviRpu, DoviRpuView, RpuPartsView};
use crate::rpu_edit::{converted_to_81, header_from_profile5, header_from_profile7,
    header_without_mapping};
use crate::rpu_header::RpuDataHeaderView;
use crate::rpu_laws::{read_back, lemma_parse_rpu_of_encoded};
use crate::rpu_mapping::{curve_count, identity_curve, identity_mapping};
use crate::rpu_mapping_laws::mapping_canonical;
use crate::vdr_dm_data::{header_layout, lemma_i16_code_value, VdrDmData};

verus! {

/// A header that is as a reader gives it stays so when its mapping is removed.
pub proof fn lemma_header_without_mapping_canonical(header: RpuDataHeaderView)
    requires
        header.canonical(),
    ensures
        header_without_mapping(header).canonical(),
{
    reveal(RpuDataHeaderView::canonical);
    let out = header_without_mapping(header);
    if !header.use_prev_vdr_rpu_flag {
        lemma_pow2_pos(header.pivot_bits() as nat);
        lemma2_to64();
        if header.pivot_bits() < 32 {
            vstd::arithmetic::power2::lemma_pow2_strictly_increases(
                header.pivot_bits() as nat,
                32,
            );
        }
        assert(out.pivot_bits() == header.pivot_bits());
        assert(out.pivots_canonical(0));
        assert(out.pivots_canonical(1));
        assert(out.pivots_canonical(2));
        assert(out.has_nlq() == header.has_nlq());
        assert(out.sequence_info_canonical() == header.sequence_info_canonical());
        assert(out.checked() == header.checked());
    }
}

/// The header of a profile 7 RPU, as a reader gives it and with sequence
/// information, is after its conversion as a reader gives it, and stands
/// for profile 8: the RPU profile is 1 and there is no quantization.
pub proof fn lemma_header_from_profile7_canonical(header: RpuDataHeaderView)
    requires
        header.canonical(),
        header.dovi_profile() == 7,
        header.vdr_seq_info_present_flag,
    ensures
        header_from_profile7(header).canonical(),
        header_from_profile7(header).dovi_profile() == 8,
        header_from_profile7(header).vdr_rpu_profile == 1,
        !header_from_profile7(header).has_nlq(),
        !header_from_profile7(header).use_prev_vdr_rpu_flag,
        header_from_profile7(header).coefficient_format() == header.coefficient_format(),
        forall|c: int| 0 <= c < 3 ==> curve_count(header_from_profile7(header), c) == 1,
{
    reveal(RpuDataHeaderView::canonical);
    let middle = RpuDataHeaderView {
        el_spatial_resampling_filter_flag: false,
        disable_residual_flag: true,
        nlq_method_idc: 0,
        ..header
    };
    assert(middle.sequence_info_canonical());
    assert(middle.checked() == header.checked());
    assert(middle.pivots_canonical(0) == header.pivots_canonical(0));
    assert(middle.pivots_canonical(1) == header.pivots_canonical(1));
    assert(middle.pivots_canonical(2) == header.pivots_canonical(2));
    assert(middle.canonical());
    lemma_header_without_mapping_canonical(middle);
}

/// The header of a profile 5 RPU, as a reader gives it, is after its
/// conversion as a reader gives it, and stands for profile 8.
pub proof fn lemma_header_from_profile5_canonical(header: RpuDataHeaderView)
    requires
        header.canonical(),
        header.dovi_profile() == 5,
    ensures
        header_from_profile5(header).canonical(),
        header_from_profile5(header).dovi_profile() == 8,
        header_from_profile5(header).vdr_rpu_profile == 1,
{
    reveal(RpuDataHeaderView::canonical);
    let out = header_from_profile5(header);
    assert(out.sequence_info_canonical() == header.sequence_info_canonical());
    assert(out.checked() == header.checked());
    assert(out.pivots_canonical(0) == header.pivots_canonical(0));
    assert(out.pivots_canonical(1) == header.pivots_canonical(1));
    assert(out.pivots_canonical(2) == header.pivots_canonical(2));
}

/// The mapping that maps every value to itself is as a reader gives it,
/// for a header with two pivots in each component and coefficients with
/// integer parts.
pub proof fn lemma_identity_mapping_canonical(header: RpuDataHeaderView)
    requires
        header.coefficient_data_type == 0,
        forall|c: int| 0 <= c < 3 ==> curve_count(header, c) == 1,
    ensures
        mapping_canonical(identity_mapping(), header),
{
    let format = header.coefficient_format();
    lemma_pow2_pos(format.fraction_bits as nat);
    let curve = identity_curve();
    assert forall|i: int| 0 <= i < curve.coefficients.len() implies format.canonical(
        #[trigger] curve.coefficients[i],
    ) by {}
    assert(curve.canonical(format, true));
    assert forall|c: int| 0 <= c < 3 implies (#[trigger] identity_mapping()[c]).len()
        == curve_count(header, c) && crate::rpu_mapping_laws::curves_canonical(
        identity_mapping()[c],
        format,
        curve_count(header, c),
    ) by {
        assert(identity_mapping()[c] =~= seq![curve]);
        assert forall|i: int| 0 <= i < identity_mapping()[c].len() implies (
        #[trigger] identity_mapping()[c][i]).canonical(format, i + 1 == curve_count(header, c)) by {
            assert(identity_mapping()[c][i] == curve);
        }
    }
}

/// Display management data that is as a reader gives it stays so when it
/// gets the colour matrices of profile 8.1, and keeps its blocks.
pub proof fn lemma_p81_data_canonical(data: VdrDmData)
    requires
        data@.wf(),
        data@.fits(),
    ensures
        data.spec_p5_to_p81()@.wf(),
        data.spec_p5_to_p81()@.fits(),
        data.spec_p5_to_p81()@.blocks == data@.blocks,
{
    let before = data@.header;
    let after = data.spec_p5_to_p81()@.header;
    let layout = header_layout();
    assert(after.len() == 36);
    assert(after[35] == before[35]);
    assert forall|i: int| 0 <= i < 36 implies field_fits(#[trigger] after[i], layout[i]) by {
        lemma_field_fits(after[i], layout[i]);
        lemma2_to64();
        if 3 <= i < 24 {
            lemma_p81_code_bounds(data, i);
        } else if i == 29 {
            assert(after[29] == 0);
        } else {
            assert(after[i] == before[i]);
            assert(field_fits(before[i], layout[i]));
        }
    }
}

/// The codes of the colour matrices of profile 8.1 fit their places.
pub proof fn lemma_p81_code_bounds(data: VdrDmData, i: int)
    requires
        3 <= i < 24,
    ensures
        12 <= i < 15 ==> data.spec_p5_to_p81().spec_header_codes()[i] < 0x1_0000_0000,
        !(12 <= i < 15) ==> data.spec_p5_to_p81().spec_header_codes()[i] < 65536,
{
    let after = data.spec_p5_to_p81();
    let codes = after.spec_header_codes();
    lemma_i16_code_value(after.ycc_to_rgb_coef4, 0);
    lemma_i16_code_value(after.ycc_to_rgb_coef5, 0);
    assert(codes[3] == 9574 && codes[4] == 0 && codes[5] == 13802 && codes[6] == 9574);
    assert(codes[7] < 65536 && codes[8] < 65536);
    assert(codes[9] == 9574 && codes[10] == 17610 && codes[11] == 0);
    assert(codes[12] == 16777216 && codes[13] == 134217728 && codes[14] == 134217728);
    assert(codes[15] == 7222 && codes[16] == 8771 && codes[17] == 390 && codes[18] == 2654);
    assert(codes[19] == 12430 && codes[20] == 1300 && codes[21] == 0 && codes[22] == 422);
    assert(codes[23] == 15962);
}

/// Conversion of profile 7, then writing, then reading. Let `before` be an
/// RPU of profile 7 that is as a reader gives it, with sequence information
/// and coefficients with integer parts, and `after` what `convert_to_81`
/// makes of it. Then what is read from the bytes of `after` is `after`
/// itself, but for the checksum, which is that of its bytes: of profile 8,
/// with the RPU profile 1, without a quantization, with the mapping that
/// maps every value to itself, with the colour matrices of profile 8.1, and
/// with the blocks of `before`, the bits after their fields as a writer
/// puts them.
pub proof fn lemma_converted_profile7_is_read_back(before: DoviRpu, after: DoviRpu)
    requires
        before@.parts().canonical(),
        before.dovi_profile == 7,
        before@.header.dovi_profile() == 7,
        before@.header.vdr_seq_info_present_flag,
        before@.header.coefficient_data_type == 0,
        converted_to_81(before, after, Ok(())),
        spec_write_rpu(after) is Ok,
    ensures
        after@.parts().canonical(),
        spec_parse_rpu(spec_write_rpu(after)->Ok_0) == Ok::<_, RpuError>(read_back(after@)),
        read_back(after@).dovi_profile == 8,
        read_back(after@).header == after@.header,
        read_back(after@).header.vdr_rpu_profile == 1,
        read_back(after@).nlq is None,
        read_back(after@).mapping == Some(identity_mapping()),
        before.vdr_dm_data is Some ==> read_back(after@).vdr_dm_data == Some(
            before.vdr_dm_data->Some_0.spec_p5_to_p81()@.written(),
        ) && read_back(after@).vdr_dm_data->Some_0.blocks == before@.vdr_dm_data->Some_0.written().blocks,
{
    reveal(RpuPartsView::canonical);
    lemma_header_from_profile7_canonical(before@.header);
    lemma_identity_mapping_canonical(after@.header);
    if before.vdr_dm_data is Some {
        lemma_p81_data_canonical(before.vdr_dm_data->Some_0);
    }
    assert(after@.parts().canonical());
    lemma_parse_rpu_of_encoded(after@);
}

/// Conversion of profile 5, then writing, then reading. Let `before` be an
/// RPU of profile 5 that is as a reader gives it, and `after` what
/// `convert_to_81` makes of it. Then what is read from the bytes of `after`
/// is `after` itself, but for the checksum, which is that of its bytes: of
/// profile 8, with the colour matrices of profile 8.1.
pub proof fn lemma_converted_profile5_is_read_back(before: DoviRpu, after: DoviRpu)
    requires
        before@.parts().canonical(),
        before.dovi_profile == 5,
        before@.header.dovi_profile() == 5,
        converted_to_81(before, after, Ok(())),
        spec_write_rpu(after) is Ok,
    ensures
        after@.parts().canonical(),
        spec_parse_rpu(spec_write_rpu(after)->Ok_0) == Ok::<_, RpuError>(read_back(after@)),
        read_back(after@).dovi_profile == 8,
        read_back(after@).header == after@.header,
        read_back(after@).mapping == before@.mapping,
        read_back(after@).nlq == before@.nlq,
{
    reveal(RpuPartsView::canonical);
    lemma_header_from_profile5_canonical(before@.header);
    let h = before@.header;
    let g = after@.header;
    assert(g.coefficient_format() == h.coefficient_format());
    assert(g.has_nlq() == h.has_nlq());
    assert(g.el_bits() == h.el_bits());
    assert(g.nlq_method_idc == h.nlq_method_idc);
    assert forall|c: int| 0 <= c < 3 implies curve_count(g, c) == curve_count(h, c) by {}
    if before.vdr_dm_data is Some {
        lemma_p81_data_canonical(before.vdr_dm_data->Some_0);
    }
    if before@.nlq is Some {
        assert(g.nlq_canonical(before@.nlq->Some_0)) by {
            assert forall|i: int| 0 <= i < 3 implies g.nlq_params_canonical(
                #[trigger] before@.nlq->Some_0[i],
            ) by {
                assert(h.nlq_params_canonical(before@.nlq->Some_0[i]));
            }
        }
    }
    if before@.mapping is Some {
        assert(mapping_canonical(before@.mapping->Some_0, g)) by {
            assert forall|c: int| 0 <= c < 3 implies (#[trigger] before@.mapping->Some_0[c]).len()
                == curve_count(g, c) && crate::rpu_mapping_laws::curves_canonical(
                before@.mapping->Some_0[c],
                g.coefficient_format(),
                curve_count(g, c),
            ) by {
                assert(curve_count(g, c) == curve_count(h, c));
            }
        }
    }
    assert(after@.parts().canonical());
    lemma_parse_rpu_of_encoded(after@);
}

} // verus!
