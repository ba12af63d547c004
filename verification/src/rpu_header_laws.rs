//! Writing a header and reading it back.

use vstd::prelude::*;
use vstd::arithmetic::power2::pow2;
use crate::bits::MAX_UE;
use crate::error::RpuError;
use crate::fields::{
    field_fits, fields_bits, layout_ok, repeated, spec_read_fields, FieldKind, lemma_field_fits,
    lemma_fields_bits_of_read_fields, lemma_read_list,
};
use crate::rpu_header::{
    depth_layout, empty_header, profile_layout, spec_flag_code, spec_header_bits,
    spec_mapping_info_bits, spec_parse_all_pivots, spec_parse_header, spec_parse_mapping_info,
    spec_parse_partitions, spec_parse_pivots, spec_parse_sequence_info, spec_partitions_bits,
    spec_pivots_bits, spec_sequence_info_bits, start_layout, RpuDataHeaderView,
};

verus! {

impl RpuDataHeaderView {
    /// Whether the sequence information is as a reader gives it: what is
    /// on the wire fits its place, and what is not is zero, or false.
    pub open spec fn sequence_info_canonical(self) -> bool {
        if !self.vdr_seq_info_present_flag {
            self.sequence_info_absent() && self.depths_absent()
        } else {
            &&& self.coefficient_data_type < 4
            &&& self.coefficient_log2_denom <= MAX_UE
            &&& self.coefficient_data_type != 0 ==> self.coefficient_log2_denom == 0
            &&& self.vdr_rpu_normalized_idc < 4
            &&& if self.base_format() {
                &&& self.bl_bit_depth_minus8 <= MAX_UE
                &&& self.el_bit_depth_minus8 <= MAX_UE
                &&& self.vdr_bit_depth_minus_8 <= MAX_UE
                &&& self.reserved_zero_3bits < 8
            } else {
                self.depths_absent()
            }
        }
    }

    /// Whether the coefficient format and what stands with it are zero, or false.
    pub open spec fn sequence_info_absent(self) -> bool {
        &&& !self.chroma_resampling_explicit_filter_flag
        &&& self.coefficient_data_type == 0
        &&& self.coefficient_log2_denom == 0
        &&& self.vdr_rpu_normalized_idc == 0
        &&& !self.bl_video_full_range_flag
    }

    /// Whether the bit depths and the flags that stand with them are zero, or false.
    pub open spec fn depths_absent(self) -> bool {
        &&& self.bl_bit_depth_minus8 == 0
        &&& self.el_bit_depth_minus8 == 0
        &&& self.vdr_bit_depth_minus_8 == 0
        &&& !self.spatial_resampling_filter_flag
        &&& self.reserved_zero_3bits == 0
        &&& !self.el_spatial_resampling_filter_flag
        &&& !self.disable_residual_flag
    }

    /// Whether the pivots of the component `component` are as a reader
    /// gives them: as many as are announced, each of as many bits as a
    /// pivot has.
    pub open spec fn pivots_canonical(self, component: int) -> bool {
        &&& self.num_pivots_minus_2[component] <= MAX_UE
        &&& self.pred_pivot_value[component].len() == self.num_pivots_minus_2[component] + 2
        &&& forall|i: int|
            0 <= i < self.pred_pivot_value[component].len() ==> (
            #[trigger] self.pred_pivot_value[component][i]) < pow2(self.pivot_bits() as nat)
    }

    /// Whether what describes the mapping is zero, or empty.
    pub open spec fn mapping_info_absent(self) -> bool {
        &&& self.vdr_rpu_id == 0
        &&& self.mapping_color_space == 0
        &&& self.mapping_chroma_format_idc == 0
        &&& self.num_pivots_minus_2 == [0u64, 0u64, 0u64]
        &&& self.pred_pivot_value == seq![Seq::<u64>::empty(), Seq::empty(), Seq::empty()]
        &&& self.nlq_method_idc == 0
        &&& self.num_x_partitions_minus1 == 0
        &&& self.num_y_partitions_minus1 == 0
    }

    /// Whether the header is as a reader gives it: it starts an RPU; every
    /// field that is on the wire fits its place, and every other is zero,
    /// false, or empty; and the sequence information passes its check.
    #[verifier::opaque]
    pub open spec fn canonical(self) -> bool {
        &&& self.rpu_nal_prefix == 25
        &&& self.rpu_type == 2
        &&& self.rpu_format < 2048
        &&& self.vdr_rpu_profile < 16
        &&& self.vdr_rpu_level < 16
        &&& self.sequence_info_canonical()
        &&& self.checked() is Ok
        &&& self.nlq_num_pivots_minus2 == 0
        &&& self.pred_pivot_value.len() == 3
        &&& if self.use_prev_vdr_rpu_flag {
            self.prev_vdr_rpu_id <= MAX_UE && self.mapping_info_absent()
        } else {
            &&& self.prev_vdr_rpu_id == 0
            &&& self.vdr_rpu_id <= MAX_UE
            &&& self.mapping_color_space <= MAX_UE
            &&& self.mapping_chroma_format_idc <= MAX_UE
            &&& self.pivots_canonical(0)
            &&& self.pivots_canonical(1)
            &&& self.pivots_canonical(2)
            &&& self.nlq_method_idc < 8
            &&& !self.has_nlq() ==> self.nlq_method_idc == 0
            &&& self.num_x_partitions_minus1 <= MAX_UE
            &&& self.num_y_partitions_minus1 <= MAX_UE
        }
    }

    /// The header as far as it is read when the sequence information begins.
    pub open spec fn read_to_profile(self) -> RpuDataHeaderView {
        RpuDataHeaderView {
            rpu_nal_prefix: self.rpu_nal_prefix,
            rpu_type: self.rpu_type,
            rpu_format: self.rpu_format,
            vdr_rpu_profile: self.vdr_rpu_profile,
            vdr_rpu_level: self.vdr_rpu_level,
            vdr_seq_info_present_flag: self.vdr_seq_info_present_flag,
            ..empty_header()
        }
    }

    /// The header as far as it is read when the sequence information ends.
    pub open spec fn read_to_sequence_info(self) -> RpuDataHeaderView {
        RpuDataHeaderView {
            chroma_resampling_explicit_filter_flag: self.chroma_resampling_explicit_filter_flag,
            coefficient_data_type: self.coefficient_data_type,
            coefficient_log2_denom: self.coefficient_log2_denom,
            vdr_rpu_normalized_idc: self.vdr_rpu_normalized_idc,
            bl_video_full_range_flag: self.bl_video_full_range_flag,
            bl_bit_depth_minus8: self.bl_bit_depth_minus8,
            el_bit_depth_minus8: self.el_bit_depth_minus8,
            vdr_bit_depth_minus_8: self.vdr_bit_depth_minus_8,
            spatial_resampling_filter_flag: self.spatial_resampling_filter_flag,
            reserved_zero_3bits: self.reserved_zero_3bits,
            el_spatial_resampling_filter_flag: self.el_spatial_resampling_filter_flag,
            disable_residual_flag: self.disable_residual_flag,
            ..self.read_to_profile()
        }
    }

    /// The header as far as it is read when the pivots begin.
    pub open spec fn read_to_ids(self) -> RpuDataHeaderView {
        RpuDataHeaderView {
            vdr_dm_metadata_present_flag: self.vdr_dm_metadata_present_flag,
            use_prev_vdr_rpu_flag: self.use_prev_vdr_rpu_flag,
            vdr_rpu_id: self.vdr_rpu_id,
            mapping_color_space: self.mapping_color_space,
            mapping_chroma_format_idc: self.mapping_chroma_format_idc,
            ..self.read_to_sequence_info()
        }
    }

    /// The header as far as it is read after the pivots of `count` components.
    pub open spec fn read_to_pivots(self, count: int) -> RpuDataHeaderView {
        RpuDataHeaderView {
            num_pivots_minus_2: [
                if count > 0 {
                    self.num_pivots_minus_2[0]
                } else {
                    0
                },
                if count > 1 {
                    self.num_pivots_minus_2[1]
                } else {
                    0
                },
                if count > 2 {
                    self.num_pivots_minus_2[2]
                } else {
                    0
                },
            ],
            pred_pivot_value: seq![
                if count > 0 {
                    self.pred_pivot_value[0]
                } else {
                    Seq::empty()
                },
                if count > 1 {
                    self.pred_pivot_value[1]
                } else {
                    Seq::empty()
                },
                if count > 2 {
                    self.pred_pivot_value[2]
                } else {
                    Seq::empty()
                },
            ],
            ..self.read_to_ids()
        }
    }
}

/// Sequence information that is as a reader gives it is read back as it was written.
pub proof fn lemma_parse_sequence_info_of_bits(header: RpuDataHeaderView, rest: Seq<bool>)
    requires
        header.sequence_info_canonical(),
    ensures
        spec_parse_sequence_info(spec_sequence_info_bits(header) + rest, header.read_to_profile())
            == Ok::<_, RpuError>((header.read_to_sequence_info(), rest)),
{
    let start = header.read_to_profile();
    let bits = spec_sequence_info_bits(header) + rest;
    if !header.vdr_seq_info_present_flag {
        assert(bits =~= rest);
        assert(header.read_to_sequence_info() == start);
    } else {
        let la = seq![FieldKind::Bits(1), FieldKind::Bits(2)];
        let a = seq![
            spec_flag_code(header.chroma_resampling_explicit_filter_flag),
            header.coefficient_data_type as u64,
        ];
        let lb = seq![FieldKind::Ue];
        let b = seq![header.coefficient_log2_denom];
        let lc = seq![FieldKind::Bits(2), FieldKind::Bits(1)];
        let c = seq![
            header.vdr_rpu_normalized_idc as u64,
            spec_flag_code(header.bl_video_full_range_flag),
        ];
        let ld = depth_layout();
        let d = seq![
            header.bl_bit_depth_minus8,
            header.el_bit_depth_minus8,
            header.vdr_bit_depth_minus_8,
            spec_flag_code(header.spatial_resampling_filter_flag),
            header.reserved_zero_3bits as u64,
            spec_flag_code(header.el_spatial_resampling_filter_flag),
            spec_flag_code(header.disable_residual_flag),
        ];
        let bits_b = if header.coefficient_data_type == 0 {
            fields_bits(b, lb)
        } else {
            Seq::empty()
        };
        let bits_d = if header.base_format() {
            fields_bits(d, ld)
        } else {
            Seq::empty()
        };
        assert(bits =~= fields_bits(a, la) + (bits_b + (fields_bits(c, lc) + (bits_d + rest))));
        assert forall|i: int| 0 <= i < a.len() implies field_fits(#[trigger] a[i], la[i]) by {
            lemma_field_fits(a[i], la[i]);
        }
        lemma_read_list(a, la, bits_b + (fields_bits(c, lc) + (bits_d + rest)));
        if header.coefficient_data_type == 0 {
            assert forall|i: int| 0 <= i < b.len() implies field_fits(#[trigger] b[i], lb[i]) by {
                lemma_field_fits(b[i], lb[i]);
            }
            lemma_read_list(b, lb, fields_bits(c, lc) + (bits_d + rest));
        } else {
            assert(bits_b + (fields_bits(c, lc) + (bits_d + rest)) =~= fields_bits(c, lc) + (bits_d
                + rest));
        }
        assert forall|i: int| 0 <= i < c.len() implies field_fits(#[trigger] c[i], lc[i]) by {
            lemma_field_fits(c[i], lc[i]);
        }
        lemma_read_list(c, lc, bits_d + rest);
        if header.base_format() {
            assert forall|i: int| 0 <= i < d.len() implies field_fits(#[trigger] d[i], ld[i]) by {
                lemma_field_fits(d[i], ld[i]);
            }
            lemma_read_list(d, ld, rest);
        } else {
            assert(bits_d + rest =~= rest);
        }
    }
}

/// Pivots that are as a reader gives them are read back as they were written.
pub proof fn lemma_parse_pivots_of_bits(header: RpuDataHeaderView, component: int, rest: Seq<bool>)
    requires
        0 <= component < 3,
        header.pred_pivot_value.len() == 3,
        header.pivots_canonical(component),
    ensures
        spec_parse_pivots(
            spec_pivots_bits(header, component) + rest,
            header.read_to_pivots(component),
            component,
        ) == Ok::<_, RpuError>((header.read_to_pivots(component + 1), rest)),
{
    let start = header.read_to_pivots(component);
    let la = seq![FieldKind::Ue];
    let a = seq![header.num_pivots_minus_2[component]];
    let pivots = header.pred_pivot_value[component];
    let lp = repeated(FieldKind::Bits(header.pivot_bits()), pivots.len());
    let bits = spec_pivots_bits(header, component) + rest;
    assert(bits =~= fields_bits(a, la) + (fields_bits(pivots, lp) + rest));
    assert forall|i: int| 0 <= i < a.len() implies field_fits(#[trigger] a[i], la[i]) by {
        lemma_field_fits(a[i], la[i]);
    }
    lemma_read_list(a, la, fields_bits(pivots, lp) + rest);
    assert(start.pivot_bits() == header.pivot_bits());
    assert(lp =~= repeated(FieldKind::Bits(start.pivot_bits()), (a[0] + 2) as nat));
    lemma_read_list(pivots, lp, rest);
    let out = spec_parse_pivots(bits, start, component)->Ok_0.0;
    let want = header.read_to_pivots(component + 1);
    assert(out.pred_pivot_value =~= want.pred_pivot_value);
    assert(out.num_pivots_minus_2 =~= want.num_pivots_minus_2);
}

/// The header as far as it is read when the method of the quantization
/// and the partitions are read: all of it.
pub proof fn lemma_parse_partitions_of_bits(header: RpuDataHeaderView, rest: Seq<bool>)
    requires
        header.canonical(),
        !header.use_prev_vdr_rpu_flag,
    ensures
        spec_parse_partitions(spec_partitions_bits(header) + rest, header.read_to_pivots(3))
            == Ok::<_, RpuError>((header, rest)),
{
    reveal(RpuDataHeaderView::canonical);
    let start = header.read_to_pivots(3);
    let lb = seq![FieldKind::Bits(3)];
    let b = seq![header.nlq_method_idc as u64];
    let lc = seq![FieldKind::Ue, FieldKind::Ue];
    let c = seq![header.num_x_partitions_minus1, header.num_y_partitions_minus1];
    let bits = spec_partitions_bits(header) + rest;
    assert(start.has_nlq() == header.has_nlq());
    if header.has_nlq() {
        assert(bits =~= fields_bits(b, lb) + (fields_bits(c, lc) + rest));
        assert forall|i: int| 0 <= i < b.len() implies field_fits(#[trigger] b[i], lb[i]) by {
            lemma_field_fits(b[i], lb[i]);
        }
        lemma_read_list(b, lb, fields_bits(c, lc) + rest);
    } else {
        assert(bits =~= fields_bits(c, lc) + rest);
    }
    assert forall|i: int| 0 <= i < c.len() implies field_fits(#[trigger] c[i], lc[i]) by {
        lemma_field_fits(c[i], lc[i]);
    }
    lemma_read_list(c, lc, rest);
    let out = spec_parse_partitions(bits, start)->Ok_0.0;
    assert(out.pred_pivot_value =~= header.pred_pivot_value);
    assert(out.num_pivots_minus_2 =~= header.num_pivots_minus_2);
    assert(out == header);
}

/// What describes the mapping, as a reader gives it, is read back as it was written.
pub proof fn lemma_parse_mapping_info_of_bits(header: RpuDataHeaderView, rest: Seq<bool>)
    requires
        header.canonical(),
        !header.use_prev_vdr_rpu_flag,
    ensures
        spec_parse_mapping_info(
            spec_mapping_info_bits(header) + rest,
            RpuDataHeaderView {
                vdr_dm_metadata_present_flag: header.vdr_dm_metadata_present_flag,
                use_prev_vdr_rpu_flag: header.use_prev_vdr_rpu_flag,
                ..header.read_to_sequence_info()
            },
        ) == Ok::<_, RpuError>((header, rest)),
{
    reveal(RpuDataHeaderView::canonical);
    let start = RpuDataHeaderView {
        vdr_dm_metadata_present_flag: header.vdr_dm_metadata_present_flag,
        use_prev_vdr_rpu_flag: header.use_prev_vdr_rpu_flag,
        ..header.read_to_sequence_info()
    };
    let la = seq![FieldKind::Ue, FieldKind::Ue, FieldKind::Ue];
    let a = seq![header.vdr_rpu_id, header.mapping_color_space, header.mapping_chroma_format_idc];
    let p0 = spec_pivots_bits(header, 0);
    let p1 = spec_pivots_bits(header, 1);
    let p2 = spec_pivots_bits(header, 2);
    let tail = spec_partitions_bits(header);
    let bits = spec_mapping_info_bits(header) + rest;
    assert(bits =~= fields_bits(a, la) + (p0 + (p1 + (p2 + (tail + rest)))));
    assert forall|i: int| 0 <= i < a.len() implies field_fits(#[trigger] a[i], la[i]) by {
        lemma_field_fits(a[i], la[i]);
    }
    lemma_read_list(a, la, p0 + (p1 + (p2 + (tail + rest))));
    let ids = RpuDataHeaderView {
        vdr_rpu_id: a[0],
        mapping_color_space: a[1],
        mapping_chroma_format_idc: a[2],
        ..start
    };
    assert(ids.pred_pivot_value =~= header.read_to_pivots(0).pred_pivot_value);
    assert(ids.num_pivots_minus_2 =~= header.read_to_pivots(0).num_pivots_minus_2);
    assert(ids == header.read_to_pivots(0));
    lemma_parse_pivots_of_bits(header, 0, p1 + (p2 + (tail + rest)));
    lemma_parse_pivots_of_bits(header, 1, p2 + (tail + rest));
    lemma_parse_pivots_of_bits(header, 2, tail + rest);
    assert(spec_parse_all_pivots(p0 + (p1 + (p2 + (tail + rest))), ids) == Ok::<_, RpuError>(
        (header.read_to_pivots(3), tail + rest),
    ));
    lemma_parse_partitions_of_bits(header, rest);
}

/// Writing, then reading. A header that is as a reader gives it is read
/// back from its bits as it was written.
pub proof fn lemma_parse_header_of_bits(header: RpuDataHeaderView, rest: Seq<bool>)
    requires
        header.canonical(),
    ensures
        spec_parse_header(spec_header_bits(header) + rest) == Ok::<_, RpuError>((header, rest)),
{
    reveal(RpuDataHeaderView::canonical);
    let la = start_layout();
    let a = seq![header.rpu_nal_prefix as u64, header.rpu_type as u64];
    let lb = profile_layout();
    let b = seq![
        header.rpu_format as u64,
        header.vdr_rpu_profile as u64,
        header.vdr_rpu_level as u64,
        spec_flag_code(header.vdr_seq_info_present_flag),
    ];
    let lc = seq![FieldKind::Bits(1), FieldKind::Bits(1)];
    let c = seq![
        spec_flag_code(header.vdr_dm_metadata_present_flag),
        spec_flag_code(header.use_prev_vdr_rpu_flag),
    ];
    let ld = seq![FieldKind::Ue];
    let d = seq![header.prev_vdr_rpu_id];
    let info = spec_sequence_info_bits(header);
    let tail = if header.use_prev_vdr_rpu_flag {
        fields_bits(d, ld)
    } else {
        spec_mapping_info_bits(header)
    };
    let bits = spec_header_bits(header) + rest;
    assert(bits =~= fields_bits(a, la) + (fields_bits(b, lb) + (info + (fields_bits(c, lc) + (tail
        + rest)))));
    assert forall|i: int| 0 <= i < a.len() implies field_fits(#[trigger] a[i], la[i]) by {
        lemma_field_fits(a[i], la[i]);
    }
    lemma_read_list(a, la, fields_bits(b, lb) + (info + (fields_bits(c, lc) + (tail + rest))));
    assert forall|i: int| 0 <= i < b.len() implies field_fits(#[trigger] b[i], lb[i]) by {
        lemma_field_fits(b[i], lb[i]);
    }
    lemma_read_list(b, lb, info + (fields_bits(c, lc) + (tail + rest)));
    let first = RpuDataHeaderView {
        rpu_nal_prefix: a[0] as u8,
        rpu_type: a[1] as u8,
        rpu_format: b[0] as u16,
        vdr_rpu_profile: b[1] as u8,
        vdr_rpu_level: b[2] as u8,
        vdr_seq_info_present_flag: b[3] == 1,
        ..empty_header()
    };
    assert(first == header.read_to_profile());
    lemma_parse_sequence_info_of_bits(header, fields_bits(c, lc) + (tail + rest));
    let second = header.read_to_sequence_info();
    assert(second.checked() == header.checked());
    assert forall|i: int| 0 <= i < c.len() implies field_fits(#[trigger] c[i], lc[i]) by {
        lemma_field_fits(c[i], lc[i]);
    }
    lemma_read_list(c, lc, tail + rest);
    let third = RpuDataHeaderView {
        vdr_dm_metadata_present_flag: c[0] == 1,
        use_prev_vdr_rpu_flag: c[1] == 1,
        ..second
    };
    if header.use_prev_vdr_rpu_flag {
        assert forall|i: int| 0 <= i < d.len() implies field_fits(#[trigger] d[i], ld[i]) by {
            lemma_field_fits(d[i], ld[i]);
        }
        lemma_read_list(d, ld, rest);
        let out = RpuDataHeaderView { prev_vdr_rpu_id: d[0], ..third };
        assert(out.pred_pivot_value =~= header.pred_pivot_value);
        assert(out.num_pivots_minus_2 =~= header.num_pivots_minus_2);
        assert(out == header);
    } else {
        lemma_parse_mapping_info_of_bits(header, rest);
    }
}

/// The numbers that were read as a list fit their places.
proof fn lemma_read_fits(bits: Seq<bool>, layout: Seq<FieldKind>)
    requires
        layout_ok(layout),
        spec_read_fields(bits, layout) is Ok,
    ensures
        spec_read_fields(bits, layout)->Ok_0.0.len() == layout.len(),
        forall|i: int|
            0 <= i < layout.len() ==> field_fits(
                #[trigger] spec_read_fields(bits, layout)->Ok_0.0[i],
                layout[i],
            ),
{
    lemma_fields_bits_of_read_fields(bits, layout);
}

/// Sequence information that was read is as a reader gives it.
pub proof fn lemma_parsed_sequence_info_canonical(bits: Seq<bool>, start: RpuDataHeaderView)
    requires
        start.sequence_info_absent(),
        start.depths_absent(),
        spec_parse_sequence_info(bits, start) is Ok,
    ensures
        spec_parse_sequence_info(bits, start)->Ok_0.0.sequence_info_canonical(),
{
    crate::rpu_header::lemma_header_layouts_ok();
    if start.vdr_seq_info_present_flag {
        let la = seq![FieldKind::Bits(1), FieldKind::Bits(2)];
        lemma_read_fits(bits, la);
        let (a, bits1) = spec_read_fields(bits, la)->Ok_0;
        lemma_field_fits(a[0], la[0]);
        lemma_field_fits(a[1], la[1]);
        let lb = seq![FieldKind::Ue];
        let bits2 = if a[1] == 0 {
            lemma_read_fits(bits1, lb);
            let b = spec_read_fields(bits1, lb)->Ok_0.0;
            lemma_field_fits(b[0], lb[0]);
            spec_read_fields(bits1, lb)->Ok_0.1
        } else {
            bits1
        };
        let lc = seq![FieldKind::Bits(2), FieldKind::Bits(1)];
        lemma_read_fits(bits2, lc);
        let (c, bits3) = spec_read_fields(bits2, lc)->Ok_0;
        lemma_field_fits(c[0], lc[0]);
        lemma_field_fits(c[1], lc[1]);
        if start.base_format() {
            let ld = depth_layout();
            lemma_read_fits(bits3, ld);
            let d = spec_read_fields(bits3, ld)->Ok_0.0;
            lemma_field_fits(d[0], ld[0]);
            lemma_field_fits(d[1], ld[1]);
            lemma_field_fits(d[2], ld[2]);
            lemma_field_fits(d[4], ld[4]);
        }
    }
}

/// Pivots that were read are as a reader gives them.
pub proof fn lemma_parsed_pivots_canonical(bits: Seq<bool>, start: RpuDataHeaderView, component: int)
    requires
        0 <= component < 3,
        start.pred_pivot_value.len() == 3,
        spec_parse_pivots(bits, start, component) is Ok,
    ensures
        spec_parse_pivots(bits, start, component)->Ok_0.0.pivots_canonical(component),
        spec_parse_pivots(bits, start, component)->Ok_0.0.pred_pivot_value.len() == 3,
        forall|k: int|
            0 <= k < 3 && k != component && start.pivots_canonical(k) ==> spec_parse_pivots(
                bits,
                start,
                component,
            )->Ok_0.0.pivots_canonical(k),
{
    crate::rpu_header::lemma_header_layouts_ok();
    let la = seq![FieldKind::Ue];
    lemma_read_fits(bits, la);
    let (a, bits1) = spec_read_fields(bits, la)->Ok_0;
    lemma_field_fits(a[0], la[0]);
    let lp = repeated(FieldKind::Bits(start.pivot_bits()), (a[0] + 2) as nat);
    assert(layout_ok(lp));
    lemma_read_fits(bits1, lp);
    let pivots = spec_read_fields(bits1, lp)->Ok_0.0;
    let out = spec_parse_pivots(bits, start, component)->Ok_0.0;
    assert(out.pred_pivot_value[component] == pivots);
    assert forall|i: int| 0 <= i < pivots.len() implies (#[trigger] pivots[i]) < pow2(
        out.pivot_bits() as nat,
    ) by {
        assert(field_fits(pivots[i], lp[i]));
    }
    assert forall|k: int| 0 <= k < 3 && k != component && start.pivots_canonical(k) implies out.pivots_canonical(
        k,
    ) by {
        assert(out.pred_pivot_value[k] == start.pred_pivot_value[k]);
        assert(out.num_pivots_minus_2[k] == start.num_pivots_minus_2[k]);
    }
}

/// What describes the mapping, once read, is as a reader gives it.
pub proof fn lemma_parsed_mapping_info_canonical(bits: Seq<bool>, start: RpuDataHeaderView)
    requires
        start.pred_pivot_value.len() == 3,
        spec_parse_mapping_info(bits, start) is Ok,
    ensures
        ({
            let out = spec_parse_mapping_info(bits, start)->Ok_0.0;
            &&& out.vdr_rpu_id <= MAX_UE
            &&& out.mapping_color_space <= MAX_UE
            &&& out.mapping_chroma_format_idc <= MAX_UE
            &&& out.pivots_canonical(0)
            &&& out.pivots_canonical(1)
            &&& out.pivots_canonical(2)
            &&& out.pred_pivot_value.len() == 3
            &&& out.nlq_method_idc < 8
            &&& !out.has_nlq() ==> out.nlq_method_idc == 0
            &&& out.num_x_partitions_minus1 <= MAX_UE
            &&& out.num_y_partitions_minus1 <= MAX_UE
        }),
{
    crate::rpu_header::lemma_header_layouts_ok();
    let la = seq![FieldKind::Ue, FieldKind::Ue, FieldKind::Ue];
    lemma_read_fits(bits, la);
    let (a, bits1) = spec_read_fields(bits, la)->Ok_0;
    lemma_field_fits(a[0], la[0]);
    lemma_field_fits(a[1], la[1]);
    lemma_field_fits(a[2], la[2]);
    let h1 = RpuDataHeaderView {
        vdr_rpu_id: a[0],
        mapping_color_space: a[1],
        mapping_chroma_format_idc: a[2],
        ..start
    };
    lemma_parsed_pivots_canonical(bits1, h1, 0);
    let (h2, bits2) = spec_parse_pivots(bits1, h1, 0)->Ok_0;
    lemma_parsed_pivots_canonical(bits2, h2, 1);
    let (h3, bits3) = spec_parse_pivots(bits2, h2, 1)->Ok_0;
    lemma_parsed_pivots_canonical(bits3, h3, 2);
    let (h4, bits4) = spec_parse_pivots(bits3, h3, 2)->Ok_0;
    assert(h3.pivots_canonical(0));
    assert(h4.pivots_canonical(0) && h4.pivots_canonical(1));
    let lb = seq![FieldKind::Bits(3)];
    let lc = seq![FieldKind::Ue, FieldKind::Ue];
    let bits5 = if h4.has_nlq() {
        lemma_read_fits(bits4, lb);
        let b = spec_read_fields(bits4, lb)->Ok_0.0;
        lemma_field_fits(b[0], lb[0]);
        spec_read_fields(bits4, lb)->Ok_0.1
    } else {
        bits4
    };
    lemma_read_fits(bits5, lc);
    let c = spec_read_fields(bits5, lc)->Ok_0.0;
    lemma_field_fits(c[0], lc[0]);
    lemma_field_fits(c[1], lc[1]);
    let out = spec_parse_mapping_info(bits, start)->Ok_0.0;
    assert(out.pred_pivot_value == h4.pred_pivot_value);
    assert(out.num_pivots_minus_2 == h4.num_pivots_minus_2);
    assert(out.pivot_bits() == h4.pivot_bits());
    assert(out.has_nlq() == h4.has_nlq());
}

/// A header that was read is as a reader gives it.
pub proof fn lemma_parsed_header_canonical(bits: Seq<bool>)
    requires
        spec_parse_header(bits) is Ok,
    ensures
        spec_parse_header(bits)->Ok_0.0.canonical(),
{
    reveal(RpuDataHeaderView::canonical);
    crate::rpu_header::lemma_header_layouts_ok();
    let out = spec_parse_header(bits)->Ok_0.0;
    lemma_read_fits(bits, start_layout());
    let (a, bits1) = spec_read_fields(bits, start_layout())->Ok_0;
    lemma_read_fits(bits1, profile_layout());
    let (b, bits2) = spec_read_fields(bits1, profile_layout())->Ok_0;
    lemma_field_fits(b[0], profile_layout()[0]);
    lemma_field_fits(b[1], profile_layout()[1]);
    lemma_field_fits(b[2], profile_layout()[2]);
    let h1 = RpuDataHeaderView {
        rpu_nal_prefix: a[0] as u8,
        rpu_type: a[1] as u8,
        rpu_format: b[0] as u16,
        vdr_rpu_profile: b[1] as u8,
        vdr_rpu_level: b[2] as u8,
        vdr_seq_info_present_flag: b[3] == 1,
        ..empty_header()
    };
    lemma_parsed_sequence_info_canonical(bits2, h1);
    let (h2, bits3) = spec_parse_sequence_info(bits2, h1)->Ok_0;
    let lc = seq![FieldKind::Bits(1), FieldKind::Bits(1)];
    let (c, bits4) = spec_read_fields(bits3, lc)->Ok_0;
    let h3 = RpuDataHeaderView {
        vdr_dm_metadata_present_flag: c[0] == 1,
        use_prev_vdr_rpu_flag: c[1] == 1,
        ..h2
    };
    assert(h3.sequence_info_canonical());
    assert(h3.pred_pivot_value =~= empty_header().pred_pivot_value);
    if h3.use_prev_vdr_rpu_flag {
        let ld = seq![FieldKind::Ue];
        lemma_read_fits(bits4, ld);
        let d = spec_read_fields(bits4, ld)->Ok_0.0;
        lemma_field_fits(d[0], ld[0]);
        assert(out.sequence_info_canonical());
        assert(out.mapping_info_absent());
    } else {
        lemma_parsed_mapping_info_canonical(bits4, h3);
        crate::rpu_header::lemma_mapping_info_keeps(bits4, h3);
        assert(out.sequence_info_canonical());
    }
}

} // verus!
