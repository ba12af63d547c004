//! The header of an RPU.

use vstd::prelude::*;
use crate::bitvec_reader::BitVecReader;
use crate::bitvec_writer::BitVecWriter;
use crate::error::{RpuError, ValidatedField};
use crate::fields::{fields_bits, layout_ok, list1, list2, list3, list4, list7, read_fields,
    read_repeated, repeated, spec_read_fields, write_fields, write_repeated, FieldKind,
    lemma_fields_bits_of_read_fields, lemma_fits_bound};

verus! {

/// The header of an RPU. A field that the RPU leaves out is zero, or false.
#[derive(Clone, Debug, PartialEq, Eq)]
pub struct RpuDataHeader {
    pub rpu_nal_prefix: u8,
    pub rpu_type: u8,
    pub rpu_format: u16,
    pub vdr_rpu_profile: u8,
    pub vdr_rpu_level: u8,
    pub vdr_seq_info_present_flag: bool,
    pub chroma_resampling_explicit_filter_flag: bool,
    pub coefficient_data_type: u8,
    pub coefficient_log2_denom: u64,
    pub vdr_rpu_normalized_idc: u8,
    pub bl_video_full_range_flag: bool,
    pub bl_bit_depth_minus8: u64,
    pub el_bit_depth_minus8: u64,
    pub vdr_bit_depth_minus_8: u64,
    pub spatial_resampling_filter_flag: bool,
    pub reserved_zero_3bits: u8,
    pub el_spatial_resampling_filter_flag: bool,
    pub disable_residual_flag: bool,
    pub vdr_dm_metadata_present_flag: bool,
    pub use_prev_vdr_rpu_flag: bool,
    pub prev_vdr_rpu_id: u64,
    pub vdr_rpu_id: u64,
    pub mapping_color_space: u64,
    pub mapping_chroma_format_idc: u64,
    pub num_pivots_minus_2: [u64; 3],
    pub nlq_method_idc: u8,
    pub nlq_num_pivots_minus2: u8,
    pub num_x_partitions_minus1: u64,
    pub num_y_partitions_minus1: u64,
    /// The pivots of each of the three components.
    pub pred_pivot_value: Vec<Vec<u64>>,
}

/// A header with its pivots as sequences.
pub struct RpuDataHeaderView {
    pub rpu_nal_prefix: u8,
    pub rpu_type: u8,
    pub rpu_format: u16,
    pub vdr_rpu_profile: u8,
    pub vdr_rpu_level: u8,
    pub vdr_seq_info_present_flag: bool,
    pub chroma_resampling_explicit_filter_flag: bool,
    pub coefficient_data_type: u8,
    pub coefficient_log2_denom: u64,
    pub vdr_rpu_normalized_idc: u8,
    pub bl_video_full_range_flag: bool,
    pub bl_bit_depth_minus8: u64,
    pub el_bit_depth_minus8: u64,
    pub vdr_bit_depth_minus_8: u64,
    pub spatial_resampling_filter_flag: bool,
    pub reserved_zero_3bits: u8,
    pub el_spatial_resampling_filter_flag: bool,
    pub disable_residual_flag: bool,
    pub vdr_dm_metadata_present_flag: bool,
    pub use_prev_vdr_rpu_flag: bool,
    pub prev_vdr_rpu_id: u64,
    pub vdr_rpu_id: u64,
    pub mapping_color_space: u64,
    pub mapping_chroma_format_idc: u64,
    pub num_pivots_minus_2: [u64; 3],
    pub nlq_method_idc: u8,
    pub nlq_num_pivots_minus2: u8,
    pub num_x_partitions_minus1: u64,
    pub num_y_partitions_minus1: u64,
    pub pred_pivot_value: Seq<Seq<u64>>,
}

/// The views of `lists`.
pub open spec fn list_views(lists: Seq<Vec<u64>>) -> Seq<Seq<u64>> {
    lists.map_values(|v: Vec<u64>| v@)
}

impl View for RpuDataHeader {
    type V = RpuDataHeaderView;

    open spec fn view(&self) -> RpuDataHeaderView {
        RpuDataHeaderView {
            rpu_nal_prefix: self.rpu_nal_prefix,
            rpu_type: self.rpu_type,
            rpu_format: self.rpu_format,
            vdr_rpu_profile: self.vdr_rpu_profile,
            vdr_rpu_level: self.vdr_rpu_level,
            vdr_seq_info_present_flag: self.vdr_seq_info_present_flag,
            chroma_resampling_explicit_filter_flag: self.chroma_resampling_explicit_filter_flag,
            coefficient_data_type: self.coefficient_data_type,
            coefficient_log2_denom: self.coefficient_log2_denom,
            vdr_rpu_normalized_idc: self.vdr_rpu_normalized_idc,
            bl_video_full_range_flag: self.bl_video_full_range_flag,
            bl_bit_depth_minus8: self.bl_bit_depth_minus8,
            el_bit_depth_minus8: self.el_bit_depth_minus8,
            vdr_bit_depth_minus_8: self.vdr_bit_depth_minus_8,
            spatial_resampling_filter_flag: self.spatial_resampling_filter_flag,
            reserved_zero_3bits: self.reserved_zero_3bits,
            el_spatial_resampling_filter_flag: self.el_spatial_resampling_filter_flag,
            disable_residual_flag: self.disable_residual_flag,
            vdr_dm_metadata_present_flag: self.vdr_dm_metadata_present_flag,
            use_prev_vdr_rpu_flag: self.use_prev_vdr_rpu_flag,
            prev_vdr_rpu_id: self.prev_vdr_rpu_id,
            vdr_rpu_id: self.vdr_rpu_id,
            mapping_color_space: self.mapping_color_space,
            mapping_chroma_format_idc: self.mapping_chroma_format_idc,
            num_pivots_minus_2: self.num_pivots_minus_2,
            nlq_method_idc: self.nlq_method_idc,
            nlq_num_pivots_minus2: self.nlq_num_pivots_minus2,
            num_x_partitions_minus1: self.num_x_partitions_minus1,
            num_y_partitions_minus1: self.num_y_partitions_minus1,
            pred_pivot_value: list_views(self.pred_pivot_value@),
        }
    }
}

/// How the coefficients of the mapping and of the quantization are coded.
#[derive(Clone, Copy, Debug, PartialEq, Eq, Structural)]
pub struct CoefficientFormat {
    /// Whether a coefficient has an integer part, coded apart from its fraction.
    pub with_integer: bool,
    /// The number of bits of the fraction.
    pub fraction_bits: u8,
}

impl RpuDataHeaderView {
    /// Whether the RPU is of the format that has bit depths and an enhancement layer.
    pub open spec fn base_format(self) -> bool {
        self.rpu_format / 256 % 8 == 0
    }

    /// Whether the RPU has parameters for the quantization of the enhancement layer.
    pub open spec fn has_nlq(self) -> bool {
        !self.use_prev_vdr_rpu_flag && self.base_format() && !self.disable_residual_flag
    }

    /// The number of bits of a pivot: those of the base layer, at most 32.
    pub open spec fn pivot_bits(self) -> u8 {
        if self.bl_bit_depth_minus8 <= 24 {
            (self.bl_bit_depth_minus8 + 8) as u8
        } else {
            32
        }
    }

    /// The number of bits of an offset of the quantization: those of the
    /// enhancement layer, at most 32.
    pub open spec fn el_bits(self) -> u8 {
        if self.el_bit_depth_minus8 <= 24 {
            (self.el_bit_depth_minus8 + 8) as u8
        } else {
            32
        }
    }

    /// Whether the header has pivots for three components, of each fewer
    /// than an Exp-Golomb code can count.
    pub open spec fn wf(self) -> bool {
        &&& self.pred_pivot_value.len() == 3
        &&& self.num_pivots_minus_2[0] < 0x2_0000_0000
        &&& self.num_pivots_minus_2[1] < 0x2_0000_0000
        &&& self.num_pivots_minus_2[2] < 0x2_0000_0000
    }

    /// How coefficients are coded.
    pub open spec fn coefficient_format(self) -> CoefficientFormat {
        if self.coefficient_data_type == 0 {
            CoefficientFormat {
                with_integer: true,
                fraction_bits: if self.coefficient_log2_denom <= 32 {
                    self.coefficient_log2_denom as u8
                } else {
                    32
                },
            }
        } else {
            CoefficientFormat { with_integer: false, fraction_bits: 32 }
        }
    }

    /// The first of the conditions on the sequence information that fails:
    /// the coefficient data type is 0 or 1, the binary logarithm of the
    /// denominator is at most 32, and the bit depths are at most 32.
    pub open spec fn checked(self) -> Result<(), RpuError> {
        if self.coefficient_data_type > 1 {
            Err(RpuError::ValidationFailed(ValidatedField::CoefficientDataType))
        } else if self.coefficient_log2_denom > 32 {
            Err(RpuError::ValidationFailed(ValidatedField::CoefficientLog2Denom))
        } else if self.bl_bit_depth_minus8 > 24 {
            Err(RpuError::ValidationFailed(ValidatedField::BlBitDepth))
        } else if self.el_bit_depth_minus8 > 24 {
            Err(RpuError::ValidationFailed(ValidatedField::ElBitDepth))
        } else {
            Ok(())
        }
    }

    /// The profile that the header stands for: 5 and 8 without parameters
    /// for the enhancement layer, 4 and 7 with them, for the RPU profiles 0
    /// and 1; 0 for every other.
    pub open spec fn dovi_profile(self) -> u8 {
        if self.vdr_rpu_profile == 0 {
            if self.has_nlq() {
                4
            } else {
                5
            }
        } else if self.vdr_rpu_profile == 1 {
            if self.has_nlq() {
                7
            } else {
                8
            }
        } else {
            0
        }
    }
}


/// The number that stands for `flag` on the wire.
pub open spec fn spec_flag_code(flag: bool) -> u64 {
    if flag {
        1
    } else {
        0
    }
}

/// The number that stands for `flag` on the wire.
#[verifier::when_used_as_spec(spec_flag_code)]
pub fn flag_code(flag: bool) -> (code: u64)
    ensures
        code == spec_flag_code(flag),
{
    if flag {
        1
    } else {
        0
    }
}

/// The layout of the NAL prefix and the RPU type.
pub open spec fn start_layout() -> Seq<FieldKind> {
    seq![FieldKind::Bits(8), FieldKind::Bits(6)]
}

/// The layout of the format, the profile, the level and the flag that
/// announces the sequence information.
pub open spec fn profile_layout() -> Seq<FieldKind> {
    seq![FieldKind::Bits(11), FieldKind::Bits(4), FieldKind::Bits(4), FieldKind::Bits(1)]
}

/// The layout of the bit depths and the flags that follow them.
pub open spec fn depth_layout() -> Seq<FieldKind> {
    seq![
        FieldKind::Ue,
        FieldKind::Ue,
        FieldKind::Ue,
        FieldKind::Bits(1),
        FieldKind::Bits(3),
        FieldKind::Bits(1),
        FieldKind::Bits(1),
    ]
}

/// A header of which nothing has been read.
pub open spec fn empty_header() -> RpuDataHeaderView {
    RpuDataHeaderView {
        rpu_nal_prefix: 0,
        rpu_type: 0,
        rpu_format: 0,
        vdr_rpu_profile: 0,
        vdr_rpu_level: 0,
        vdr_seq_info_present_flag: false,
        chroma_resampling_explicit_filter_flag: false,
        coefficient_data_type: 0,
        coefficient_log2_denom: 0,
        vdr_rpu_normalized_idc: 0,
        bl_video_full_range_flag: false,
        bl_bit_depth_minus8: 0,
        el_bit_depth_minus8: 0,
        vdr_bit_depth_minus_8: 0,
        spatial_resampling_filter_flag: false,
        reserved_zero_3bits: 0,
        el_spatial_resampling_filter_flag: false,
        disable_residual_flag: false,
        vdr_dm_metadata_present_flag: false,
        use_prev_vdr_rpu_flag: false,
        prev_vdr_rpu_id: 0,
        vdr_rpu_id: 0,
        mapping_color_space: 0,
        mapping_chroma_format_idc: 0,
        num_pivots_minus_2: [0, 0, 0],
        nlq_method_idc: 0,
        nlq_num_pivots_minus2: 0,
        num_x_partitions_minus1: 0,
        num_y_partitions_minus1: 0,
        pred_pivot_value: seq![Seq::empty(), Seq::empty(), Seq::empty()],
    }
}

/// Reading the sequence information into `header`, where it is announced:
/// the coefficient format, and in the base format the bit depths.
pub open spec fn spec_parse_sequence_info(bits: Seq<bool>, header: RpuDataHeaderView) -> Result<
    (RpuDataHeaderView, Seq<bool>),
    RpuError,
> {
    if !header.vdr_seq_info_present_flag {
        Ok((header, bits))
    } else {
        match spec_read_fields(bits, seq![FieldKind::Bits(1), FieldKind::Bits(2)]) {
            Err(e) => Err(e),
            Ok((a, bits)) => match (if a[1] == 0 {
                spec_read_fields(bits, seq![FieldKind::Ue])
            } else {
                Ok((seq![0u64], bits))
            }) {
                Err(e) => Err(e),
                Ok((b, bits)) => match spec_read_fields(
                    bits,
                    seq![FieldKind::Bits(2), FieldKind::Bits(1)],
                ) {
                    Err(e) => Err(e),
                    Ok((c, bits)) => {
                        let header = RpuDataHeaderView {
                            chroma_resampling_explicit_filter_flag: a[0] == 1,
                            coefficient_data_type: a[1] as u8,
                            coefficient_log2_denom: b[0],
                            vdr_rpu_normalized_idc: c[0] as u8,
                            bl_video_full_range_flag: c[1] == 1,
                            ..header
                        };
                        if !header.base_format() {
                            Ok((header, bits))
                        } else {
                            match spec_read_fields(bits, depth_layout()) {
                                Err(e) => Err(e),
                                Ok((d, bits)) => Ok(
                                    (
                                        RpuDataHeaderView {
                                            bl_bit_depth_minus8: d[0],
                                            el_bit_depth_minus8: d[1],
                                            vdr_bit_depth_minus_8: d[2],
                                            spatial_resampling_filter_flag: d[3] == 1,
                                            reserved_zero_3bits: d[4] as u8,
                                            el_spatial_resampling_filter_flag: d[5] == 1,
                                            disable_residual_flag: d[6] == 1,
                                            ..header
                                        },
                                        bits,
                                    ),
                                ),
                            }
                        }
                    },
                },
            },
        }
    }
}

/// The bits of the sequence information of `header`.
pub open spec fn spec_sequence_info_bits(header: RpuDataHeaderView) -> Seq<bool> {
    if !header.vdr_seq_info_present_flag {
        Seq::empty()
    } else {
        fields_bits(
            seq![
                spec_flag_code(header.chroma_resampling_explicit_filter_flag),
                header.coefficient_data_type as u64,
            ],
            seq![FieldKind::Bits(1), FieldKind::Bits(2)],
        ) + (if header.coefficient_data_type == 0 {
            fields_bits(seq![header.coefficient_log2_denom], seq![FieldKind::Ue])
        } else {
            Seq::empty()
        }) + fields_bits(
            seq![
                header.vdr_rpu_normalized_idc as u64,
                spec_flag_code(header.bl_video_full_range_flag),
            ],
            seq![FieldKind::Bits(2), FieldKind::Bits(1)],
        ) + (if header.base_format() {
            fields_bits(
                seq![
                    header.bl_bit_depth_minus8,
                    header.el_bit_depth_minus8,
                    header.vdr_bit_depth_minus_8,
                    spec_flag_code(header.spatial_resampling_filter_flag),
                    header.reserved_zero_3bits as u64,
                    spec_flag_code(header.el_spatial_resampling_filter_flag),
                    spec_flag_code(header.disable_residual_flag),
                ],
                depth_layout(),
            )
        } else {
            Seq::empty()
        })
    }
}

/// Reading the pivots of the component `component` into `header`: their
/// number less two, and then each in as many bits as a pivot has.
pub open spec fn spec_parse_pivots(bits: Seq<bool>, header: RpuDataHeaderView, component: int) -> Result<
    (RpuDataHeaderView, Seq<bool>),
    RpuError,
> {
    match spec_read_fields(bits, seq![FieldKind::Ue]) {
        Err(e) => Err(e),
        Ok((a, bits)) => match spec_read_fields(
            bits,
            repeated(FieldKind::Bits(header.pivot_bits()), (a[0] + 2) as nat),
        ) {
            Err(e) => Err(e),
            Ok((pivots, bits)) => Ok(
                (
                    RpuDataHeaderView {
                        num_pivots_minus_2: spec_set3(header.num_pivots_minus_2, component, a[0]),
                        pred_pivot_value: header.pred_pivot_value.update(component, pivots),
                        ..header
                    },
                    bits,
                ),
            ),
        },
    }
}

/// `values` with the value at `index` replaced by `value`.
pub open spec fn spec_set3(values: [u64; 3], index: int, value: u64) -> [u64; 3] {
    if index == 0 {
        [value, values[1], values[2]]
    } else if index == 1 {
        [values[0], value, values[2]]
    } else {
        [values[0], values[1], value]
    }
}

/// The bits of the pivots of the component `component` of `header`.
pub open spec fn spec_pivots_bits(header: RpuDataHeaderView, component: int) -> Seq<bool> {
    fields_bits(seq![header.num_pivots_minus_2[component]], seq![FieldKind::Ue]) + fields_bits(
        header.pred_pivot_value[component],
        repeated(
            FieldKind::Bits(header.pivot_bits()),
            header.pred_pivot_value[component].len(),
        ),
    )
}

/// Reading what describes the mapping into `header`: its id, its colour
/// space and chroma format, the pivots of the three components, the method
/// of the quantization where the RPU has one, and the partitions.
pub open spec fn spec_parse_mapping_info(bits: Seq<bool>, header: RpuDataHeaderView) -> Result<
    (RpuDataHeaderView, Seq<bool>),
    RpuError,
> {
    match spec_read_fields(bits, seq![FieldKind::Ue, FieldKind::Ue, FieldKind::Ue]) {
        Err(e) => Err(e),
        Ok((a, bits)) => {
            let header = RpuDataHeaderView {
                vdr_rpu_id: a[0],
                mapping_color_space: a[1],
                mapping_chroma_format_idc: a[2],
                ..header
            };
            match spec_parse_all_pivots(bits, header) {
                Err(e) => Err(e),
                Ok((header, bits)) => spec_parse_partitions(bits, header),
            }
        },
    }
}

/// Reading the pivots of the three components into `header`.
pub open spec fn spec_parse_all_pivots(bits: Seq<bool>, header: RpuDataHeaderView) -> Result<
    (RpuDataHeaderView, Seq<bool>),
    RpuError,
> {
    match spec_parse_pivots(bits, header, 0) {
        Err(e) => Err(e),
        Ok((header, bits)) => match spec_parse_pivots(bits, header, 1) {
            Err(e) => Err(e),
            Ok((header, bits)) => spec_parse_pivots(bits, header, 2),
        },
    }
}

/// Reading the method of the quantization, where the RPU has one, and the
/// partitions into `header`.
pub open spec fn spec_parse_partitions(bits: Seq<bool>, header: RpuDataHeaderView) -> Result<
    (RpuDataHeaderView, Seq<bool>),
    RpuError,
> {
    match (if header.has_nlq() {
        spec_read_fields(bits, seq![FieldKind::Bits(3)])
    } else {
        Ok((seq![0u64], bits))
    }) {
        Err(e) => Err(e),
        Ok((b, bits)) => match spec_read_fields(bits, seq![FieldKind::Ue, FieldKind::Ue]) {
            Err(e) => Err(e),
            Ok((c, bits)) => Ok(
                (
                    RpuDataHeaderView {
                        nlq_method_idc: b[0] as u8,
                        num_x_partitions_minus1: c[0],
                        num_y_partitions_minus1: c[1],
                        ..header
                    },
                    bits,
                ),
            ),
        },
    }
}

/// The bits of the method of the quantization and of the partitions of `header`.
pub open spec fn spec_partitions_bits(header: RpuDataHeaderView) -> Seq<bool> {
    (if header.has_nlq() {
        fields_bits(seq![header.nlq_method_idc as u64], seq![FieldKind::Bits(3)])
    } else {
        Seq::empty()
    }) + fields_bits(
        seq![header.num_x_partitions_minus1, header.num_y_partitions_minus1],
        seq![FieldKind::Ue, FieldKind::Ue],
    )
}

/// The bits of what describes the mapping in `header`.
pub open spec fn spec_mapping_info_bits(header: RpuDataHeaderView) -> Seq<bool> {
    fields_bits(
        seq![header.vdr_rpu_id, header.mapping_color_space, header.mapping_chroma_format_idc],
        seq![FieldKind::Ue, FieldKind::Ue, FieldKind::Ue],
    ) + spec_pivots_bits(header, 0) + spec_pivots_bits(header, 1) + spec_pivots_bits(header, 2)
        + spec_partitions_bits(header)
}

/// Reading the header of an RPU: the NAL prefix, which has to be 25, and
/// the type, which has to be 2; the format, the profile and the level; the
/// sequence information, where it is announced, which is then checked; the
/// flags that announce display management data and the reuse of an earlier
/// RPU; and the id of that RPU, or else what describes the mapping.
pub open spec fn spec_parse_header(bits: Seq<bool>) -> Result<
    (RpuDataHeaderView, Seq<bool>),
    RpuError,
> {
    match spec_read_fields(bits, start_layout()) {
        Err(e) => Err(e),
        Ok((a, bits)) => if a[0] != 25 || a[1] != 2 {
            Err(RpuError::UnsupportedNalType)
        } else {
            match spec_read_fields(bits, profile_layout()) {
                Err(e) => Err(e),
                Ok((b, bits)) => match spec_parse_sequence_info(
                    bits,
                    RpuDataHeaderView {
                        rpu_nal_prefix: a[0] as u8,
                        rpu_type: a[1] as u8,
                        rpu_format: b[0] as u16,
                        vdr_rpu_profile: b[1] as u8,
                        vdr_rpu_level: b[2] as u8,
                        vdr_seq_info_present_flag: b[3] == 1,
                        ..empty_header()
                    },
                ) {
                    Err(e) => Err(e),
                    Ok((header, bits)) => match header.checked() {
                        Err(e) => Err(e),
                        Ok(()) => spec_parse_header_end(bits, header),
                    },
                },
            }
        },
    }
}

/// Reading the end of a header into `header`: the flags that announce
/// display management data and the reuse of an earlier RPU, and the id of
/// that RPU, or else what describes the mapping.
pub open spec fn spec_parse_header_end(bits: Seq<bool>, header: RpuDataHeaderView) -> Result<
    (RpuDataHeaderView, Seq<bool>),
    RpuError,
> {
    match spec_read_fields(bits, seq![FieldKind::Bits(1), FieldKind::Bits(1)]) {
        Err(e) => Err(e),
        Ok((c, bits)) => {
            let header = RpuDataHeaderView {
                vdr_dm_metadata_present_flag: c[0] == 1,
                use_prev_vdr_rpu_flag: c[1] == 1,
                ..header
            };
            if header.use_prev_vdr_rpu_flag {
                match spec_read_fields(bits, seq![FieldKind::Ue]) {
                    Err(e) => Err(e),
                    Ok((d, bits)) => Ok((RpuDataHeaderView { prev_vdr_rpu_id: d[0], ..header }, bits)),
                }
            } else {
                spec_parse_mapping_info(bits, header)
            }
        },
    }
}

/// The bits of the end of `header`.
pub open spec fn spec_header_end_bits(header: RpuDataHeaderView) -> Seq<bool> {
    fields_bits(
        seq![
            spec_flag_code(header.vdr_dm_metadata_present_flag),
            spec_flag_code(header.use_prev_vdr_rpu_flag),
        ],
        seq![FieldKind::Bits(1), FieldKind::Bits(1)],
    ) + (if header.use_prev_vdr_rpu_flag {
        fields_bits(seq![header.prev_vdr_rpu_id], seq![FieldKind::Ue])
    } else {
        spec_mapping_info_bits(header)
    })
}

/// The bits of `header`.
pub open spec fn spec_header_bits(header: RpuDataHeaderView) -> Seq<bool> {
    fields_bits(
        seq![header.rpu_nal_prefix as u64, header.rpu_type as u64],
        start_layout(),
    ) + fields_bits(
        seq![
            header.rpu_format as u64,
            header.vdr_rpu_profile as u64,
            header.vdr_rpu_level as u64,
            spec_flag_code(header.vdr_seq_info_present_flag),
        ],
        profile_layout(),
    ) + spec_sequence_info_bits(header) + spec_header_end_bits(header)
}


/// Every layout of the header has fields of at most 32 bits.
pub proof fn lemma_header_layouts_ok()
    ensures
        layout_ok(start_layout()),
        layout_ok(profile_layout()),
        layout_ok(depth_layout()),
        layout_ok(seq![FieldKind::Bits(1), FieldKind::Bits(2)]),
        layout_ok(seq![FieldKind::Bits(2), FieldKind::Bits(1)]),
        layout_ok(seq![FieldKind::Bits(1), FieldKind::Bits(1)]),
        layout_ok(seq![FieldKind::Bits(3)]),
        layout_ok(seq![FieldKind::Ue]),
        layout_ok(seq![FieldKind::Ue, FieldKind::Ue]),
        layout_ok(seq![FieldKind::Ue, FieldKind::Ue, FieldKind::Ue]),
{
}

impl RpuDataHeader {
    /// A header of which nothing has been read.
    pub fn empty() -> (header: RpuDataHeader)
        ensures
            header@ == empty_header(),
            header.pred_pivot_value@.len() == 3,
    {
        let header = RpuDataHeader {
            rpu_nal_prefix: 0,
            rpu_type: 0,
            rpu_format: 0,
            vdr_rpu_profile: 0,
            vdr_rpu_level: 0,
            vdr_seq_info_present_flag: false,
            chroma_resampling_explicit_filter_flag: false,
            coefficient_data_type: 0,
            coefficient_log2_denom: 0,
            vdr_rpu_normalized_idc: 0,
            bl_video_full_range_flag: false,
            bl_bit_depth_minus8: 0,
            el_bit_depth_minus8: 0,
            vdr_bit_depth_minus_8: 0,
            spatial_resampling_filter_flag: false,
            reserved_zero_3bits: 0,
            el_spatial_resampling_filter_flag: false,
            disable_residual_flag: false,
            vdr_dm_metadata_present_flag: false,
            use_prev_vdr_rpu_flag: false,
            prev_vdr_rpu_id: 0,
            vdr_rpu_id: 0,
            mapping_color_space: 0,
            mapping_chroma_format_idc: 0,
            num_pivots_minus_2: [0, 0, 0],
            nlq_method_idc: 0,
            nlq_num_pivots_minus2: 0,
            num_x_partitions_minus1: 0,
            num_y_partitions_minus1: 0,
            pred_pivot_value: list3(Vec::new(), Vec::new(), Vec::new()),
        };
        assert(header@.pred_pivot_value =~= empty_header().pred_pivot_value);
        header
    }

    /// Whether the RPU is of the format that has bit depths and an enhancement layer.
    pub fn base_format(&self) -> (r: bool)
        ensures
            r == self@.base_format(),
    {
        self.rpu_format / 256 % 8 == 0
    }

    /// Whether the RPU has parameters for the quantization of the enhancement layer.
    pub fn has_nlq(&self) -> (r: bool)
        ensures
            r == self@.has_nlq(),
    {
        !self.use_prev_vdr_rpu_flag && self.base_format() && !self.disable_residual_flag
    }

    /// The profile that the header stands for.
    pub fn dovi_profile(&self) -> (profile: u8)
        ensures
            profile == self@.dovi_profile(),
    {
        if self.vdr_rpu_profile == 0 {
            if self.has_nlq() {
                4
            } else {
                5
            }
        } else if self.vdr_rpu_profile == 1 {
            if self.has_nlq() {
                7
            } else {
                8
            }
        } else {
            0
        }
    }

    /// The first of the conditions on the sequence information that fails.
    pub fn check(&self) -> (r: Result<(), RpuError>)
        ensures
            r == self@.checked(),
    {
        if self.coefficient_data_type > 1 {
            Err(RpuError::ValidationFailed(ValidatedField::CoefficientDataType))
        } else if self.coefficient_log2_denom > 32 {
            Err(RpuError::ValidationFailed(ValidatedField::CoefficientLog2Denom))
        } else if self.bl_bit_depth_minus8 > 24 {
            Err(RpuError::ValidationFailed(ValidatedField::BlBitDepth))
        } else if self.el_bit_depth_minus8 > 24 {
            Err(RpuError::ValidationFailed(ValidatedField::ElBitDepth))
        } else {
            Ok(())
        }
    }

    /// How coefficients are coded.
    pub fn coefficient_format(&self) -> (format: CoefficientFormat)
        ensures
            format == self@.coefficient_format(),
            format.fraction_bits <= 32,
    {
        if self.coefficient_data_type == 0 {
            CoefficientFormat {
                with_integer: true,
                fraction_bits: if self.coefficient_log2_denom <= 32 {
                    self.coefficient_log2_denom as u8
                } else {
                    32
                },
            }
        } else {
            CoefficientFormat { with_integer: false, fraction_bits: 32 }
        }
    }

    /// The number of bits of an offset of the quantization.
    pub fn el_bits(&self) -> (bits: u8)
        ensures
            bits == self@.el_bits(),
            bits <= 32,
    {
        if self.el_bit_depth_minus8 <= 24 {
            (self.el_bit_depth_minus8 + 8) as u8
        } else {
            32
        }
    }

    /// The number of bits of a pivot.
    pub fn pivot_bits(&self) -> (bits: u8)
        ensures
            bits == self@.pivot_bits(),
            bits <= 32,
    {
        if self.bl_bit_depth_minus8 <= 24 {
            (self.bl_bit_depth_minus8 + 8) as u8
        } else {
            32
        }
    }

    fn parse_sequence_info(&mut self, reader: &mut BitVecReader) -> (r: Result<(), RpuError>)
        ensures
            final(reader).bits() == old(reader).bits(),
            final(self).pred_pivot_value == old(self).pred_pivot_value,
            match spec_parse_sequence_info(old(reader).remaining(), old(self)@) {
                Ok((header, rest)) => r is Ok && final(self)@ == header && final(reader).remaining()
                    == rest,
                Err(e) => r == Err::<(), _>(e),
            },
    {
        if !self.vdr_seq_info_present_flag {
            return Ok(());
        }
        proof {
            lemma_header_layouts_ok();
        }
        let a = match read_fields(reader, &list2(FieldKind::Bits(1), FieldKind::Bits(2))) {
            Ok(v) => v,
            Err(e) => {
                return Err(e);
            },
        };
        let log2_denom = if a[1] == 0 {
            match read_fields(reader, &list1(FieldKind::Ue)) {
                Ok(v) => v[0],
                Err(e) => {
                    return Err(e);
                },
            }
        } else {
            0
        };
        let c = match read_fields(reader, &list2(FieldKind::Bits(2), FieldKind::Bits(1))) {
            Ok(v) => v,
            Err(e) => {
                return Err(e);
            },
        };
        self.chroma_resampling_explicit_filter_flag = a[0] == 1;
        self.coefficient_data_type = a[1] as u8;
        self.coefficient_log2_denom = log2_denom;
        self.vdr_rpu_normalized_idc = c[0] as u8;
        self.bl_video_full_range_flag = c[1] == 1;
        if self.base_format() {
            let d = match read_fields(
                reader,
                &list7(
                    FieldKind::Ue,
                    FieldKind::Ue,
                    FieldKind::Ue,
                    FieldKind::Bits(1),
                    FieldKind::Bits(3),
                    FieldKind::Bits(1),
                    FieldKind::Bits(1),
                ),
            ) {
                Ok(v) => v,
                Err(e) => {
                    return Err(e);
                },
            };
            self.bl_bit_depth_minus8 = d[0];
            self.el_bit_depth_minus8 = d[1];
            self.vdr_bit_depth_minus_8 = d[2];
            self.spatial_resampling_filter_flag = d[3] == 1;
            self.reserved_zero_3bits = d[4] as u8;
            self.el_spatial_resampling_filter_flag = d[5] == 1;
            self.disable_residual_flag = d[6] == 1;
        }
        Ok(())
    }

    fn write_sequence_info(&self, writer: &mut BitVecWriter)
        ensures
            final(writer)@ == old(writer)@ + spec_sequence_info_bits(self@),
    {
        if !self.vdr_seq_info_present_flag {
            assert(old(writer)@ + Seq::<bool>::empty() =~= old(writer)@);
            return ;
        }
        write_fields(
            writer,
            &list2(
                flag_code(self.chroma_resampling_explicit_filter_flag),
                self.coefficient_data_type as u64,
            ),
            &list2(FieldKind::Bits(1), FieldKind::Bits(2)),
        );
        if self.coefficient_data_type == 0 {
            write_fields(writer, &list1(self.coefficient_log2_denom), &list1(FieldKind::Ue));
        }
        write_fields(
            writer,
            &list2(self.vdr_rpu_normalized_idc as u64, flag_code(self.bl_video_full_range_flag)),
            &list2(FieldKind::Bits(2), FieldKind::Bits(1)),
        );
        if self.base_format() {
            write_fields(
                writer,
                &list7(
                    self.bl_bit_depth_minus8,
                    self.el_bit_depth_minus8,
                    self.vdr_bit_depth_minus_8,
                    flag_code(self.spatial_resampling_filter_flag),
                    self.reserved_zero_3bits as u64,
                    flag_code(self.el_spatial_resampling_filter_flag),
                    flag_code(self.disable_residual_flag),
                ),
                &list7(
                    FieldKind::Ue,
                    FieldKind::Ue,
                    FieldKind::Ue,
                    FieldKind::Bits(1),
                    FieldKind::Bits(3),
                    FieldKind::Bits(1),
                    FieldKind::Bits(1),
                ),
            );
        }
        assert(writer@ =~= old(writer)@ + spec_sequence_info_bits(self@));
    }

    fn parse_pivots(&mut self, reader: &mut BitVecReader, component: usize) -> (r: Result<
        (),
        RpuError,
    >)
        requires
            component < 3,
            old(self).pred_pivot_value@.len() == 3,
        ensures
            final(reader).bits() == old(reader).bits(),
            final(self).pred_pivot_value@.len() == 3,
            r is Ok ==> final(self).num_pivots_minus_2[component as int] < 0x2_0000_0000,
            r is Ok ==> forall|k: int|
                0 <= k < 3 && k != component ==> final(self).num_pivots_minus_2[k]
                    == old(self).num_pivots_minus_2[k],
            match spec_parse_pivots(old(reader).remaining(), old(self)@, component as int) {
                Ok((header, rest)) => r is Ok && final(self)@ == header && final(reader).remaining()
                    == rest,
                Err(e) => r == Err::<(), _>(e),
            },
    {
        proof {
            lemma_header_layouts_ok();
        }
        let count = match read_fields(reader, &list1(FieldKind::Ue)) {
            Ok(v) => v[0],
            Err(e) => {
                return Err(e);
            },
        };
        proof {
            let fit = spec_read_fields(old(reader).remaining(), seq![FieldKind::Ue])->Ok_0.0;
            crate::fields::lemma_fits_bound(fit, seq![FieldKind::Ue], 0);
        }
        let width = self.pivot_bits();
        let pivots = match read_repeated(reader, FieldKind::Bits(width), count + 2) {
            Ok(v) => v,
            Err(e) => {
                return Err(e);
            },
        };
        let ghost before = self@;
        let mut numbers = self.num_pivots_minus_2;
        numbers[component] = count;
        self.num_pivots_minus_2 = numbers;
        self.pred_pivot_value[component] = pivots;
        proof {
            assert(self@.pred_pivot_value =~= before.pred_pivot_value.update(
                component as int,
                pivots@,
            ));
            assert(self@.num_pivots_minus_2 =~= spec_set3(
                before.num_pivots_minus_2,
                component as int,
                count,
            ));
        }
        Ok(())
    }

    fn write_pivots(&self, writer: &mut BitVecWriter, component: usize)
        requires
            component < 3,
            self.pred_pivot_value@.len() == 3,
        ensures
            final(writer)@ == old(writer)@ + spec_pivots_bits(self@, component as int),
    {
        write_fields(writer, &list1(self.num_pivots_minus_2[component]), &list1(FieldKind::Ue));
        let width = self.pivot_bits();
        write_repeated(writer, &self.pred_pivot_value[component], FieldKind::Bits(width));
        assert(writer@ =~= old(writer)@ + spec_pivots_bits(self@, component as int));
    }

    fn parse_mapping_info(&mut self, reader: &mut BitVecReader) -> (r: Result<(), RpuError>)
        requires
            old(self).pred_pivot_value@.len() == 3,
        ensures
            final(reader).bits() == old(reader).bits(),
            final(self).pred_pivot_value@.len() == 3,
            r is Ok ==> final(self)@.wf(),
            match spec_parse_mapping_info(old(reader).remaining(), old(self)@) {
                Ok((header, rest)) => r is Ok && final(self)@ == header && final(reader).remaining()
                    == rest,
                Err(e) => r == Err::<(), _>(e),
            },
    {
        proof {
            lemma_header_layouts_ok();
        }
        let a = match read_fields(reader, &list3(FieldKind::Ue, FieldKind::Ue, FieldKind::Ue)) {
            Ok(v) => v,
            Err(e) => {
                return Err(e);
            },
        };
        self.vdr_rpu_id = a[0];
        self.mapping_color_space = a[1];
        self.mapping_chroma_format_idc = a[2];
        if let Err(e) = self.parse_all_pivots(reader) {
            return Err(e);
        }
        self.parse_partitions(reader)
    }

    fn parse_all_pivots(&mut self, reader: &mut BitVecReader) -> (r: Result<(), RpuError>)
        requires
            old(self).pred_pivot_value@.len() == 3,
        ensures
            final(reader).bits() == old(reader).bits(),
            final(self).pred_pivot_value@.len() == 3,
            r is Ok ==> final(self)@.wf(),
            match spec_parse_all_pivots(old(reader).remaining(), old(self)@) {
                Ok((header, rest)) => r is Ok && final(self)@ == header && final(reader).remaining()
                    == rest,
                Err(e) => r == Err::<(), _>(e),
            },
    {
        if let Err(e) = self.parse_pivots(reader, 0) {
            return Err(e);
        }
        if let Err(e) = self.parse_pivots(reader, 1) {
            return Err(e);
        }
        self.parse_pivots(reader, 2)
    }

    fn parse_partitions(&mut self, reader: &mut BitVecReader) -> (r: Result<(), RpuError>)
        ensures
            final(reader).bits() == old(reader).bits(),
            final(self).pred_pivot_value == old(self).pred_pivot_value,
            final(self).num_pivots_minus_2 == old(self).num_pivots_minus_2,
            match spec_parse_partitions(old(reader).remaining(), old(self)@) {
                Ok((header, rest)) => r is Ok && final(self)@ == header && final(reader).remaining()
                    == rest,
                Err(e) => r == Err::<(), _>(e),
            },
    {
        proof {
            lemma_header_layouts_ok();
        }
        let method = if self.has_nlq() {
            match read_fields(reader, &list1(FieldKind::Bits(3))) {
                Ok(v) => v[0],
                Err(e) => {
                    return Err(e);
                },
            }
        } else {
            0
        };
        let c = match read_fields(reader, &list2(FieldKind::Ue, FieldKind::Ue)) {
            Ok(v) => v,
            Err(e) => {
                return Err(e);
            },
        };
        self.nlq_method_idc = method as u8;
        self.num_x_partitions_minus1 = c[0];
        self.num_y_partitions_minus1 = c[1];
        Ok(())
    }

    fn write_mapping_info(&self, writer: &mut BitVecWriter)
        requires
            self.pred_pivot_value@.len() == 3,
        ensures
            final(writer)@ == old(writer)@ + spec_mapping_info_bits(self@),
    {
        write_fields(
            writer,
            &list3(self.vdr_rpu_id, self.mapping_color_space, self.mapping_chroma_format_idc),
            &list3(FieldKind::Ue, FieldKind::Ue, FieldKind::Ue),
        );
        self.write_pivots(writer, 0);
        self.write_pivots(writer, 1);
        self.write_pivots(writer, 2);
        self.write_partitions(writer);
        assert(writer@ =~= old(writer)@ + spec_mapping_info_bits(self@));
    }

    fn write_partitions(&self, writer: &mut BitVecWriter)
        ensures
            final(writer)@ == old(writer)@ + spec_partitions_bits(self@),
    {
        if self.has_nlq() {
            write_fields(writer, &list1(self.nlq_method_idc as u64), &list1(FieldKind::Bits(3)));
        }
        write_fields(
            writer,
            &list2(self.num_x_partitions_minus1, self.num_y_partitions_minus1),
            &list2(FieldKind::Ue, FieldKind::Ue),
        );
        assert(writer@ =~= old(writer)@ + spec_partitions_bits(self@));
    }

    /// Reads the header of an RPU.
    pub fn parse(reader: &mut BitVecReader) -> (r: Result<RpuDataHeader, RpuError>)
        ensures
            final(reader).bits() == old(reader).bits(),
            match spec_parse_header(old(reader).remaining()) {
                Ok((header, rest)) => r is Ok && r->Ok_0@ == header && final(reader).remaining()
                    == rest && r->Ok_0.pred_pivot_value@.len() == 3,
                Err(e) => r == Err::<RpuDataHeader, _>(e),
            },
            r is Ok ==> r->Ok_0@.wf() && r->Ok_0@.checked() is Ok,
    {
        proof {
            lemma_header_layouts_ok();
        }
        let a = match read_fields(reader, &list2(FieldKind::Bits(8), FieldKind::Bits(6))) {
            Ok(v) => v,
            Err(e) => {
                return Err(e);
            },
        };
        if a[0] != 25 || a[1] != 2 {
            return Err(RpuError::UnsupportedNalType);
        }
        let b = match read_fields(
            reader,
            &list4(FieldKind::Bits(11), FieldKind::Bits(4), FieldKind::Bits(4), FieldKind::Bits(1)),
        ) {
            Ok(v) => v,
            Err(e) => {
                return Err(e);
            },
        };
        let mut header = RpuDataHeader::empty();
        header.rpu_nal_prefix = a[0] as u8;
        header.rpu_type = a[1] as u8;
        header.rpu_format = b[0] as u16;
        header.vdr_rpu_profile = b[1] as u8;
        header.vdr_rpu_level = b[2] as u8;
        header.vdr_seq_info_present_flag = b[3] == 1;
        if let Err(e) = header.parse_sequence_info(reader) {
            return Err(e);
        }
        if let Err(e) = header.check() {
            return Err(e);
        }
        let ghost checked = header@;
        let ghost bits = reader.remaining();
        if let Err(e) = header.parse_end(reader) {
            return Err(e);
        }
        proof {
            lemma_header_end_keeps(bits, checked);
        }
        Ok(header)
    }

    fn parse_end(&mut self, reader: &mut BitVecReader) -> (r: Result<(), RpuError>)
        requires
            old(self)@.wf(),
        ensures
            final(reader).bits() == old(reader).bits(),
            r is Ok ==> final(self)@.wf(),
            match spec_parse_header_end(old(reader).remaining(), old(self)@) {
                Ok((header, rest)) => r is Ok && final(self)@ == header && final(reader).remaining()
                    == rest,
                Err(e) => r == Err::<(), _>(e),
            },
    {
        proof {
            lemma_header_layouts_ok();
        }
        let c = match read_fields(reader, &list2(FieldKind::Bits(1), FieldKind::Bits(1))) {
            Ok(v) => v,
            Err(e) => {
                return Err(e);
            },
        };
        self.vdr_dm_metadata_present_flag = c[0] == 1;
        self.use_prev_vdr_rpu_flag = c[1] == 1;
        if self.use_prev_vdr_rpu_flag {
            let d = match read_fields(reader, &list1(FieldKind::Ue)) {
                Ok(v) => v,
                Err(e) => {
                    return Err(e);
                },
            };
            self.prev_vdr_rpu_id = d[0];
            Ok(())
        } else {
            self.parse_mapping_info(reader)
        }
    }

    /// Writes the header: of each field the lowest bits that its place holds.
    pub fn write(&self, writer: &mut BitVecWriter)
        requires
            self.pred_pivot_value@.len() == 3,
        ensures
            final(writer)@ == old(writer)@ + spec_header_bits(self@),
    {
        write_fields(
            writer,
            &list2(self.rpu_nal_prefix as u64, self.rpu_type as u64),
            &list2(FieldKind::Bits(8), FieldKind::Bits(6)),
        );
        write_fields(
            writer,
            &list4(
                self.rpu_format as u64,
                self.vdr_rpu_profile as u64,
                self.vdr_rpu_level as u64,
                flag_code(self.vdr_seq_info_present_flag),
            ),
            &list4(FieldKind::Bits(11), FieldKind::Bits(4), FieldKind::Bits(4), FieldKind::Bits(1)),
        );
        self.write_sequence_info(writer);
        self.write_end(writer);
        assert(writer@ =~= old(writer)@ + spec_header_bits(self@));
    }

    fn write_end(&self, writer: &mut BitVecWriter)
        requires
            self.pred_pivot_value@.len() == 3,
        ensures
            final(writer)@ == old(writer)@ + spec_header_end_bits(self@),
    {
        write_fields(
            writer,
            &list2(
                flag_code(self.vdr_dm_metadata_present_flag),
                flag_code(self.use_prev_vdr_rpu_flag),
            ),
            &list2(FieldKind::Bits(1), FieldKind::Bits(1)),
        );
        if self.use_prev_vdr_rpu_flag {
            write_fields(writer, &list1(self.prev_vdr_rpu_id), &list1(FieldKind::Ue));
        } else {
            self.write_mapping_info(writer);
        }
        assert(writer@ =~= old(writer)@ + spec_header_end_bits(self@));
    }
}


/// Bits that read as a list of numbers are the codes of those numbers.
proof fn lemma_segment(bits: Seq<bool>, layout: Seq<FieldKind>)
    requires
        layout_ok(layout),
        spec_read_fields(bits, layout) is Ok,
    ensures
        bits == fields_bits(spec_read_fields(bits, layout)->Ok_0.0, layout) + spec_read_fields(
            bits,
            layout,
        )->Ok_0.1,
        spec_read_fields(bits, layout)->Ok_0.0.len() == layout.len(),
        forall|i: int|
            0 <= i < layout.len() ==> (layout[i] == FieldKind::Bits(1) ==> (#[trigger] spec_read_fields(
                bits,
                layout,
            )->Ok_0.0[i]) < 2) && (layout[i] == FieldKind::Bits(2) ==> spec_read_fields(
                bits,
                layout,
            )->Ok_0.0[i] < 4) && (layout[i] == FieldKind::Bits(3) ==> spec_read_fields(
                bits,
                layout,
            )->Ok_0.0[i] < 8) && (layout[i] == FieldKind::Bits(4) ==> spec_read_fields(
                bits,
                layout,
            )->Ok_0.0[i] < 16) && (layout[i] == FieldKind::Bits(6) ==> spec_read_fields(
                bits,
                layout,
            )->Ok_0.0[i] < 64) && (layout[i] == FieldKind::Bits(8) ==> spec_read_fields(
                bits,
                layout,
            )->Ok_0.0[i] < 256) && (layout[i] == FieldKind::Bits(11) ==> spec_read_fields(
                bits,
                layout,
            )->Ok_0.0[i] < 2048),
{
    lemma_fields_bits_of_read_fields(bits, layout);
    let values = spec_read_fields(bits, layout)->Ok_0.0;
    assert forall|i: int| 0 <= i < layout.len() implies (layout[i] == FieldKind::Bits(1) ==> (#[trigger] values[i]) < 2)
        && (layout[i] == FieldKind::Bits(2) ==> values[i] < 4) && (layout[i] == FieldKind::Bits(3)
        ==> values[i] < 8) && (layout[i] == FieldKind::Bits(4) ==> values[i] < 16) && (layout[i]
        == FieldKind::Bits(6) ==> values[i] < 64) && (layout[i] == FieldKind::Bits(8) ==> values[i]
        < 256) && (layout[i] == FieldKind::Bits(11) ==> values[i] < 2048) by {
        lemma_fits_bound(values, layout, i);
    }
}

/// Bits that read as sequence information are the bits of that information.
pub proof fn lemma_sequence_info_bits_of_parse(bits: Seq<bool>, header: RpuDataHeaderView)
    requires
        spec_parse_sequence_info(bits, header) is Ok,
    ensures
        bits == spec_sequence_info_bits(spec_parse_sequence_info(bits, header)->Ok_0.0)
            + spec_parse_sequence_info(bits, header)->Ok_0.1,
{
    lemma_header_layouts_ok();
    let (out, rest) = spec_parse_sequence_info(bits, header)->Ok_0;
    if header.vdr_seq_info_present_flag {
        let la = seq![FieldKind::Bits(1), FieldKind::Bits(2)];
        lemma_segment(bits, la);
        let (a, bits1) = spec_read_fields(bits, la)->Ok_0;
        let lb = seq![FieldKind::Ue];
        let bits2 = if a[1] == 0 {
            lemma_segment(bits1, lb);
            spec_read_fields(bits1, lb)->Ok_0.1
        } else {
            bits1
        };
        let b = if a[1] == 0 {
            spec_read_fields(bits1, lb)->Ok_0.0
        } else {
            seq![0u64]
        };
        let lc = seq![FieldKind::Bits(2), FieldKind::Bits(1)];
        lemma_segment(bits2, lc);
        let (c, bits3) = spec_read_fields(bits2, lc)->Ok_0;
        assert(a[0] < 2 && a[1] < 4) by {
            assert(la[0] == FieldKind::Bits(1) && la[1] == FieldKind::Bits(2));
        }
        assert(c[0] < 4 && c[1] < 2) by {
            assert(lc[0] == FieldKind::Bits(2) && lc[1] == FieldKind::Bits(1));
        }
        assert(seq![spec_flag_code(a[0] == 1), (a[1] as u8) as u64] =~= a);
        assert(seq![(c[0] as u8) as u64, spec_flag_code(c[1] == 1)] =~= c);
        if a[1] == 0 {
            assert(seq![b[0]] =~= b);
        }
        if out.base_format() {
            lemma_segment(bits3, depth_layout());
            let (d, bits4) = spec_read_fields(bits3, depth_layout())->Ok_0;
            assert(d[3] < 2 && d[4] < 8 && d[5] < 2 && d[6] < 2) by {
                assert(depth_layout()[3] == FieldKind::Bits(1));
                assert(depth_layout()[4] == FieldKind::Bits(3));
                assert(depth_layout()[5] == FieldKind::Bits(1));
                assert(depth_layout()[6] == FieldKind::Bits(1));
            }
            assert(seq![
                d[0],
                d[1],
                d[2],
                spec_flag_code(d[3] == 1),
                (d[4] as u8) as u64,
                spec_flag_code(d[5] == 1),
                spec_flag_code(d[6] == 1),
            ] =~= d);
            assert(bits =~= spec_sequence_info_bits(out) + rest);
        } else {
            assert(bits =~= spec_sequence_info_bits(out) + rest);
        }
    } else {
        assert(bits =~= spec_sequence_info_bits(out) + rest);
    }
}

/// Bits that read as the pivots of a component are the bits of those pivots.
pub proof fn lemma_pivots_bits_of_parse(bits: Seq<bool>, header: RpuDataHeaderView, component: int)
    requires
        0 <= component < 3,
        header.pred_pivot_value.len() == 3,
        spec_parse_pivots(bits, header, component) is Ok,
    ensures
        bits == spec_pivots_bits(spec_parse_pivots(bits, header, component)->Ok_0.0, component)
            + spec_parse_pivots(bits, header, component)->Ok_0.1,
        spec_parse_pivots(bits, header, component)->Ok_0.0.pred_pivot_value.len() == 3,
{
    let (out, rest) = spec_parse_pivots(bits, header, component)->Ok_0;
    let la = seq![FieldKind::Ue];
    lemma_header_layouts_ok();
    lemma_segment(bits, la);
    let (a, bits1) = spec_read_fields(bits, la)->Ok_0;
    let lp = repeated(FieldKind::Bits(header.pivot_bits()), (a[0] + 2) as nat);
    assert(layout_ok(lp));
    lemma_fields_bits_of_read_fields(bits1, lp);
    let (pivots, bits2) = spec_read_fields(bits1, lp)->Ok_0;
    assert(seq![out.num_pivots_minus_2[component]] =~= a);
    assert(out.pred_pivot_value[component] == pivots);
    assert(pivots.len() == (a[0] + 2) as nat);
    assert(bits =~= spec_pivots_bits(out, component) + rest);
}

/// Bits that read as the method of the quantization and the partitions
/// are the bits of those.
pub proof fn lemma_partitions_bits_of_parse(bits: Seq<bool>, header: RpuDataHeaderView)
    requires
        spec_parse_partitions(bits, header) is Ok,
    ensures
        bits == spec_partitions_bits(spec_parse_partitions(bits, header)->Ok_0.0)
            + spec_parse_partitions(bits, header)->Ok_0.1,
{
    lemma_header_layouts_ok();
    let (out, rest) = spec_parse_partitions(bits, header)->Ok_0;
    let lb = seq![FieldKind::Bits(3)];
    let lc = seq![FieldKind::Ue, FieldKind::Ue];
    let bits1 = if header.has_nlq() {
        lemma_segment(bits, lb);
        let b = spec_read_fields(bits, lb)->Ok_0.0;
        assert(b[0] < 8) by {
            assert(lb[0] == FieldKind::Bits(3));
        }
        assert(seq![(b[0] as u8) as u64] =~= b);
        spec_read_fields(bits, lb)->Ok_0.1
    } else {
        bits
    };
    lemma_segment(bits1, lc);
    let (c, bits2) = spec_read_fields(bits1, lc)->Ok_0;
    assert(seq![c[0], c[1]] =~= c);
    assert(out.has_nlq() == header.has_nlq());
    assert(bits =~= spec_partitions_bits(out) + rest);
}

/// Bits that read as what describes the mapping are the bits of that.
pub proof fn lemma_mapping_info_bits_of_parse(bits: Seq<bool>, header: RpuDataHeaderView)
    requires
        header.pred_pivot_value.len() == 3,
        spec_parse_mapping_info(bits, header) is Ok,
    ensures
        bits == spec_mapping_info_bits(spec_parse_mapping_info(bits, header)->Ok_0.0)
            + spec_parse_mapping_info(bits, header)->Ok_0.1,
{
    lemma_header_layouts_ok();
    let (out, rest) = spec_parse_mapping_info(bits, header)->Ok_0;
    let la = seq![FieldKind::Ue, FieldKind::Ue, FieldKind::Ue];
    lemma_segment(bits, la);
    let (a, bits1) = spec_read_fields(bits, la)->Ok_0;
    let h1 = RpuDataHeaderView {
        vdr_rpu_id: a[0],
        mapping_color_space: a[1],
        mapping_chroma_format_idc: a[2],
        ..header
    };
    assert(seq![a[0], a[1], a[2]] =~= a);
    lemma_pivots_bits_of_parse(bits1, h1, 0);
    let (h2, bits2) = spec_parse_pivots(bits1, h1, 0)->Ok_0;
    lemma_pivots_bits_of_parse(bits2, h2, 1);
    let (h3, bits3) = spec_parse_pivots(bits2, h2, 1)->Ok_0;
    lemma_pivots_bits_of_parse(bits3, h3, 2);
    let (h4, bits4) = spec_parse_pivots(bits3, h3, 2)->Ok_0;
    lemma_partitions_bits_of_parse(bits4, h4);
    assert(spec_pivots_bits(out, 0) == spec_pivots_bits(h2, 0)) by {
        assert(out.pred_pivot_value[0] == h2.pred_pivot_value[0]);
        assert(out.num_pivots_minus_2[0] == h2.num_pivots_minus_2[0]);
    }
    assert(spec_pivots_bits(out, 1) == spec_pivots_bits(h3, 1)) by {
        assert(out.pred_pivot_value[1] == h3.pred_pivot_value[1]);
        assert(out.num_pivots_minus_2[1] == h3.num_pivots_minus_2[1]);
    }
    assert(spec_pivots_bits(out, 2) == spec_pivots_bits(h4, 2)) by {
        assert(out.pred_pivot_value[2] == h4.pred_pivot_value[2]);
        assert(out.num_pivots_minus_2[2] == h4.num_pivots_minus_2[2]);
    }
    assert(bits =~= spec_mapping_info_bits(out) + rest);
}

/// Bits that read as the end of a header are the bits of that end.
pub proof fn lemma_header_end_bits_of_parse(bits: Seq<bool>, header: RpuDataHeaderView)
    requires
        header.pred_pivot_value.len() == 3,
        spec_parse_header_end(bits, header) is Ok,
    ensures
        bits == spec_header_end_bits(spec_parse_header_end(bits, header)->Ok_0.0)
            + spec_parse_header_end(bits, header)->Ok_0.1,
        spec_parse_header_end(bits, header)->Ok_0.0.pred_pivot_value.len() == 3,
{
    lemma_header_layouts_ok();
    let (out, rest) = spec_parse_header_end(bits, header)->Ok_0;
    let lc = seq![FieldKind::Bits(1), FieldKind::Bits(1)];
    lemma_segment(bits, lc);
    let (c, bits1) = spec_read_fields(bits, lc)->Ok_0;
    assert(c[0] < 2 && c[1] < 2) by {
        assert(lc[0] == FieldKind::Bits(1) && lc[1] == FieldKind::Bits(1));
    }
    assert(seq![spec_flag_code(c[0] == 1), spec_flag_code(c[1] == 1)] =~= c);
    let h3 = RpuDataHeaderView {
        vdr_dm_metadata_present_flag: c[0] == 1,
        use_prev_vdr_rpu_flag: c[1] == 1,
        ..header
    };
    if h3.use_prev_vdr_rpu_flag {
        let ld = seq![FieldKind::Ue];
        lemma_segment(bits1, ld);
        let (d, bits2) = spec_read_fields(bits1, ld)->Ok_0;
        assert(seq![d[0]] =~= d);
        assert(bits =~= spec_header_end_bits(out) + rest);
    } else {
        lemma_mapping_info_bits_of_parse(bits1, h3);
        assert(bits =~= spec_header_end_bits(out) + rest);
    }
}

/// Reading the end of a header leaves what was read before as it is.
pub proof fn lemma_header_end_keeps(bits: Seq<bool>, header: RpuDataHeaderView)
    requires
        spec_parse_header_end(bits, header) is Ok,
    ensures
        spec_sequence_info_bits(spec_parse_header_end(bits, header)->Ok_0.0)
            == spec_sequence_info_bits(header),
        spec_parse_header_end(bits, header)->Ok_0.0.rpu_nal_prefix == header.rpu_nal_prefix,
        spec_parse_header_end(bits, header)->Ok_0.0.rpu_type == header.rpu_type,
        spec_parse_header_end(bits, header)->Ok_0.0.rpu_format == header.rpu_format,
        spec_parse_header_end(bits, header)->Ok_0.0.vdr_rpu_profile == header.vdr_rpu_profile,
        spec_parse_header_end(bits, header)->Ok_0.0.vdr_rpu_level == header.vdr_rpu_level,
        spec_parse_header_end(bits, header)->Ok_0.0.vdr_seq_info_present_flag
            == header.vdr_seq_info_present_flag,
        spec_parse_header_end(bits, header)->Ok_0.0.checked() == header.checked(),
{
    let lc = seq![FieldKind::Bits(1), FieldKind::Bits(1)];
    let (c, bits1) = spec_read_fields(bits, lc)->Ok_0;
    let h3 = RpuDataHeaderView {
        vdr_dm_metadata_present_flag: c[0] == 1,
        use_prev_vdr_rpu_flag: c[1] == 1,
        ..header
    };
    if !h3.use_prev_vdr_rpu_flag {
        lemma_mapping_info_keeps(bits1, h3);
    }
}

/// Reading, then writing. Bits that read as a header are the bits of that header.
pub proof fn lemma_header_bits_of_parse(bits: Seq<bool>)
    requires
        spec_parse_header(bits) is Ok,
    ensures
        bits == spec_header_bits(spec_parse_header(bits)->Ok_0.0) + spec_parse_header(
            bits,
        )->Ok_0.1,
        spec_parse_header(bits)->Ok_0.0.pred_pivot_value.len() == 3,
        spec_parse_header(bits)->Ok_0.0.checked() is Ok,
{
    lemma_header_layouts_ok();
    let (out, rest) = spec_parse_header(bits)->Ok_0;
    lemma_segment(bits, start_layout());
    let (a, bits1) = spec_read_fields(bits, start_layout())->Ok_0;
    lemma_segment(bits1, profile_layout());
    let (b, bits2) = spec_read_fields(bits1, profile_layout())->Ok_0;
    let h1 = RpuDataHeaderView {
        rpu_nal_prefix: a[0] as u8,
        rpu_type: a[1] as u8,
        rpu_format: b[0] as u16,
        vdr_rpu_profile: b[1] as u8,
        vdr_rpu_level: b[2] as u8,
        vdr_seq_info_present_flag: b[3] == 1,
        ..empty_header()
    };
    assert(a[0] < 256 && a[1] < 64) by {
        assert(start_layout()[0] == FieldKind::Bits(8) && start_layout()[1] == FieldKind::Bits(6));
    }
    assert(b[0] < 2048 && b[1] < 16 && b[2] < 16 && b[3] < 2) by {
        assert(profile_layout()[0] == FieldKind::Bits(11));
        assert(profile_layout()[1] == FieldKind::Bits(4));
        assert(profile_layout()[2] == FieldKind::Bits(4));
        assert(profile_layout()[3] == FieldKind::Bits(1));
    }
    assert(seq![(a[0] as u8) as u64, (a[1] as u8) as u64] =~= a);
    assert(seq![
        (b[0] as u16) as u64,
        (b[1] as u8) as u64,
        (b[2] as u8) as u64,
        spec_flag_code(b[3] == 1),
    ] =~= b);
    lemma_sequence_info_bits_of_parse(bits2, h1);
    let (h2, bits3) = spec_parse_sequence_info(bits2, h1)->Ok_0;
    assert(h2.pred_pivot_value.len() == 3);
    lemma_header_end_bits_of_parse(bits3, h2);
    lemma_header_end_keeps(bits3, h2);
    assert(bits =~= spec_header_bits(out) + rest);
}

/// Reading what describes the mapping leaves what was read before as it is.
pub proof fn lemma_mapping_info_keeps(bits: Seq<bool>, start: RpuDataHeaderView)
    requires
        spec_parse_mapping_info(bits, start) is Ok,
    ensures
        spec_parse_mapping_info(bits, start)->Ok_0.0 == (RpuDataHeaderView {
            vdr_rpu_id: spec_parse_mapping_info(bits, start)->Ok_0.0.vdr_rpu_id,
            mapping_color_space: spec_parse_mapping_info(bits, start)->Ok_0.0.mapping_color_space,
            mapping_chroma_format_idc: spec_parse_mapping_info(
                bits,
                start,
            )->Ok_0.0.mapping_chroma_format_idc,
            num_pivots_minus_2: spec_parse_mapping_info(bits, start)->Ok_0.0.num_pivots_minus_2,
            pred_pivot_value: spec_parse_mapping_info(bits, start)->Ok_0.0.pred_pivot_value,
            nlq_method_idc: spec_parse_mapping_info(bits, start)->Ok_0.0.nlq_method_idc,
            num_x_partitions_minus1: spec_parse_mapping_info(
                bits,
                start,
            )->Ok_0.0.num_x_partitions_minus1,
            num_y_partitions_minus1: spec_parse_mapping_info(
                bits,
                start,
            )->Ok_0.0.num_y_partitions_minus1,
            ..start
        }),
{
}

} // verus!
