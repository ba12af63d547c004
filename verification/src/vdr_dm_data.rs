//! The display management payload: a fixed header and a list of extension
//! metadata blocks.

use vstd::prelude::*;
use vstd::arithmetic::power2::lemma2_to64;
use crate::bits::zero_bits;
use crate::block_order::{block_le, blocks_sorted, sort_blocks, sorted_blocks};
use crate::stable_sort::lemma_stable_sort_of_sorted;
use crate::blocks::{BlockKind, BlockView, ExtMetadataBlock, ExtMetadataBlockLevel2,
    ExtMetadataBlockLevel5, ExtMetadataBlockLevel6};
use crate::error::{RpuError, ValidatedField};
use crate::generate::GenerateConfig;
use crate::fields::{fields_fit, field_fits, layout_ok, FieldKind};

verus! {

/// The display management payload of one RPU.
#[derive(Clone, Debug, PartialEq, Eq)]
pub struct VdrDmData {
    pub affected_dm_metadata_id: u64,
    pub current_dm_metadata_id: u64,
    pub scene_refresh_flag: u64,
    pub ycc_to_rgb_coef0: i16,
    pub ycc_to_rgb_coef1: i16,
    pub ycc_to_rgb_coef2: i16,
    pub ycc_to_rgb_coef3: i16,
    pub ycc_to_rgb_coef4: i16,
    pub ycc_to_rgb_coef5: i16,
    pub ycc_to_rgb_coef6: i16,
    pub ycc_to_rgb_coef7: i16,
    pub ycc_to_rgb_coef8: i16,
    pub ycc_to_rgb_offset0: u32,
    pub ycc_to_rgb_offset1: u32,
    pub ycc_to_rgb_offset2: u32,
    pub rgb_to_lms_coef0: i16,
    pub rgb_to_lms_coef1: i16,
    pub rgb_to_lms_coef2: i16,
    pub rgb_to_lms_coef3: i16,
    pub rgb_to_lms_coef4: i16,
    pub rgb_to_lms_coef5: i16,
    pub rgb_to_lms_coef6: i16,
    pub rgb_to_lms_coef7: i16,
    pub rgb_to_lms_coef8: i16,
    pub signal_eotf: u16,
    pub signal_eotf_param0: u16,
    pub signal_eotf_param1: u16,
    pub signal_eotf_param2: u32,
    pub signal_bit_depth: u8,
    pub signal_color_space: u8,
    pub signal_chroma_format: u8,
    pub signal_full_range_flag: u8,
    pub source_min_pq: u16,
    pub source_max_pq: u16,
    pub source_diagonal: u16,
    pub num_ext_blocks: u64,
    pub ext_metadata_blocks: Vec<ExtMetadataBlock>,
}

/// The number of header fields.
pub const HEADER_FIELDS: usize = 36;

/// The fields of the header, in wire order.
pub open spec fn header_layout() -> Seq<FieldKind> {
    seq![
        FieldKind::Ue,
        FieldKind::Ue,
        FieldKind::Ue,
        FieldKind::Bits(16),
        FieldKind::Bits(16),
        FieldKind::Bits(16),
        FieldKind::Bits(16),
        FieldKind::Bits(16),
        FieldKind::Bits(16),
        FieldKind::Bits(16),
        FieldKind::Bits(16),
        FieldKind::Bits(16),
        FieldKind::Bits(32),
        FieldKind::Bits(32),
        FieldKind::Bits(32),
        FieldKind::Bits(16),
        FieldKind::Bits(16),
        FieldKind::Bits(16),
        FieldKind::Bits(16),
        FieldKind::Bits(16),
        FieldKind::Bits(16),
        FieldKind::Bits(16),
        FieldKind::Bits(16),
        FieldKind::Bits(16),
        FieldKind::Bits(16),
        FieldKind::Bits(16),
        FieldKind::Bits(16),
        FieldKind::Bits(32),
        FieldKind::Bits(5),
        FieldKind::Bits(2),
        FieldKind::Bits(2),
        FieldKind::Bits(2),
        FieldKind::Bits(12),
        FieldKind::Bits(12),
        FieldKind::Bits(10),
        FieldKind::Ue,
    ]
}

/// The fields of the header, in wire order.
pub fn header_layout_vec() -> (layout: Vec<FieldKind>)
    ensures
        layout@ == header_layout(),
        layout@.len() == HEADER_FIELDS,
{
    vec![
        FieldKind::Ue,
        FieldKind::Ue,
        FieldKind::Ue,
        FieldKind::Bits(16),
        FieldKind::Bits(16),
        FieldKind::Bits(16),
        FieldKind::Bits(16),
        FieldKind::Bits(16),
        FieldKind::Bits(16),
        FieldKind::Bits(16),
        FieldKind::Bits(16),
        FieldKind::Bits(16),
        FieldKind::Bits(32),
        FieldKind::Bits(32),
        FieldKind::Bits(32),
        FieldKind::Bits(16),
        FieldKind::Bits(16),
        FieldKind::Bits(16),
        FieldKind::Bits(16),
        FieldKind::Bits(16),
        FieldKind::Bits(16),
        FieldKind::Bits(16),
        FieldKind::Bits(16),
        FieldKind::Bits(16),
        FieldKind::Bits(16),
        FieldKind::Bits(16),
        FieldKind::Bits(16),
        FieldKind::Bits(32),
        FieldKind::Bits(5),
        FieldKind::Bits(2),
        FieldKind::Bits(2),
        FieldKind::Bits(2),
        FieldKind::Bits(12),
        FieldKind::Bits(12),
        FieldKind::Bits(10),
        FieldKind::Ue,
    ]
}

/// No field of the header has more than 32 bits.
pub proof fn lemma_header_layout_ok()
    ensures
        layout_ok(header_layout()),
{
}

/// The 16 bits that stand for a signed number on the wire, as an unsigned number.
pub open spec fn spec_i16_code(value: i16) -> u64 {
    ((value as int) % 65536) as u64
}

/// The signed number that 16 bits stand for.
pub open spec fn spec_i16_value(code: u64) -> i16 {
    if code % 65536 >= 32768 {
        (code % 65536 - 65536) as i16
    } else {
        (code % 65536) as i16
    }
}

/// The 16 bits that stand for a signed number on the wire, as an unsigned number.
#[verifier::when_used_as_spec(spec_i16_code)]
pub fn i16_code(value: i16) -> (code: u64)
    ensures
        code == spec_i16_code(value),
        code < 65536,
{
    if value < 0 {
        (value as i32 + 65536) as u64
    } else {
        value as u64
    }
}

/// The signed number that 16 bits stand for.
#[verifier::when_used_as_spec(spec_i16_value)]
pub fn i16_value(code: u64) -> (value: i16)
    ensures
        value == spec_i16_value(code),
{
    let low: u64 = code % 65536;
    if low >= 32768 {
        (low as i32 - 65536) as i16
    } else {
        low as i16
    }
}

/// A signed number of 16 bits is read back unchanged from its code, and a
/// code of 16 bits from the number it stands for.
pub proof fn lemma_i16_code_value(value: i16, code: u64)
    ensures
        spec_i16_value(spec_i16_code(value)) == value,
        spec_i16_code(value) < 65536,
        code < 65536 ==> spec_i16_code(spec_i16_value(code)) == code,
{
}

/// The payload as the wire sees it: the unsigned codes of the header fields
/// in wire order, and the blocks.
pub struct VdrDmDataView {
    pub header: Seq<u64>,
    pub blocks: Seq<BlockView>,
}

impl VdrDmDataView {
    /// Whether the payload is one that a reader can produce: the header has
    /// its 36 fields and announces as many blocks as there are, and each
    /// block is well formed.
    pub open spec fn wf(self) -> bool {
        &&& self.header.len() == 36
        &&& self.header[35] == self.blocks.len()
        &&& forall|i: int| 0 <= i < self.blocks.len() ==> (#[trigger] self.blocks[i]).wf()
    }

    /// Whether every field of the header and of the blocks is read back
    /// unchanged from its code.
    pub open spec fn fits(self) -> bool {
        &&& fields_fit(self.header, header_layout())
        &&& forall|i: int| 0 <= i < self.blocks.len() ==> (#[trigger] self.blocks[i]).fits()
    }

    /// Whether the bits after the fields of each block are what a writer puts there.
    pub open spec fn zero_padded(self) -> bool {
        forall|i: int| 0 <= i < self.blocks.len() ==> (#[trigger] self.blocks[i]).zero_padded()
    }

    /// The payload with the bits after the fields of each block as a writer puts them.
    pub open spec fn written(self) -> VdrDmDataView {
        VdrDmDataView {
            header: self.header,
            blocks: self.blocks.map_values(|b: BlockView| b.written()),
        }
    }
}

impl VdrDmData {
    /// The unsigned codes of the header fields, in wire order.
    pub open spec fn spec_header_codes(&self) -> Seq<u64> {
        seq![
            self.affected_dm_metadata_id,
            self.current_dm_metadata_id,
            self.scene_refresh_flag,
            spec_i16_code(self.ycc_to_rgb_coef0),
            spec_i16_code(self.ycc_to_rgb_coef1),
            spec_i16_code(self.ycc_to_rgb_coef2),
            spec_i16_code(self.ycc_to_rgb_coef3),
            spec_i16_code(self.ycc_to_rgb_coef4),
            spec_i16_code(self.ycc_to_rgb_coef5),
            spec_i16_code(self.ycc_to_rgb_coef6),
            spec_i16_code(self.ycc_to_rgb_coef7),
            spec_i16_code(self.ycc_to_rgb_coef8),
            self.ycc_to_rgb_offset0 as u64,
            self.ycc_to_rgb_offset1 as u64,
            self.ycc_to_rgb_offset2 as u64,
            spec_i16_code(self.rgb_to_lms_coef0),
            spec_i16_code(self.rgb_to_lms_coef1),
            spec_i16_code(self.rgb_to_lms_coef2),
            spec_i16_code(self.rgb_to_lms_coef3),
            spec_i16_code(self.rgb_to_lms_coef4),
            spec_i16_code(self.rgb_to_lms_coef5),
            spec_i16_code(self.rgb_to_lms_coef6),
            spec_i16_code(self.rgb_to_lms_coef7),
            spec_i16_code(self.rgb_to_lms_coef8),
            self.signal_eotf as u64,
            self.signal_eotf_param0 as u64,
            self.signal_eotf_param1 as u64,
            self.signal_eotf_param2 as u64,
            self.signal_bit_depth as u64,
            self.signal_color_space as u64,
            self.signal_chroma_format as u64,
            self.signal_full_range_flag as u64,
            self.source_min_pq as u64,
            self.source_max_pq as u64,
            self.source_diagonal as u64,
            self.num_ext_blocks,
        ]
    }

    /// The unsigned codes of the header fields, in wire order.
    pub fn header_codes(&self) -> (codes: Vec<u64>)
        ensures
            codes@ == self.spec_header_codes(),
            codes@.len() == HEADER_FIELDS,
    {
        vec![
            self.affected_dm_metadata_id,
            self.current_dm_metadata_id,
            self.scene_refresh_flag,
            i16_code(self.ycc_to_rgb_coef0),
            i16_code(self.ycc_to_rgb_coef1),
            i16_code(self.ycc_to_rgb_coef2),
            i16_code(self.ycc_to_rgb_coef3),
            i16_code(self.ycc_to_rgb_coef4),
            i16_code(self.ycc_to_rgb_coef5),
            i16_code(self.ycc_to_rgb_coef6),
            i16_code(self.ycc_to_rgb_coef7),
            i16_code(self.ycc_to_rgb_coef8),
            self.ycc_to_rgb_offset0 as u64,
            self.ycc_to_rgb_offset1 as u64,
            self.ycc_to_rgb_offset2 as u64,
            i16_code(self.rgb_to_lms_coef0),
            i16_code(self.rgb_to_lms_coef1),
            i16_code(self.rgb_to_lms_coef2),
            i16_code(self.rgb_to_lms_coef3),
            i16_code(self.rgb_to_lms_coef4),
            i16_code(self.rgb_to_lms_coef5),
            i16_code(self.rgb_to_lms_coef6),
            i16_code(self.rgb_to_lms_coef7),
            i16_code(self.rgb_to_lms_coef8),
            self.signal_eotf as u64,
            self.signal_eotf_param0 as u64,
            self.signal_eotf_param1 as u64,
            self.signal_eotf_param2 as u64,
            self.signal_bit_depth as u64,
            self.signal_color_space as u64,
            self.signal_chroma_format as u64,
            self.signal_full_range_flag as u64,
            self.source_min_pq as u64,
            self.source_max_pq as u64,
            self.source_diagonal as u64,
            self.num_ext_blocks,
        ]
    }

    /// The payload whose header fields have the given codes, with the given blocks.
    pub(crate) fn from_codes(codes: &Vec<u64>, ext_metadata_blocks: Vec<ExtMetadataBlock>) -> (data:
        VdrDmData)
        requires
            fields_fit(codes@, header_layout()),
        ensures
            data.spec_header_codes() == codes@,
            data.ext_metadata_blocks == ext_metadata_blocks,
    {
        proof {
            lemma2_to64();
            lemma_header_codes_bounds(codes@);
        }
        let data = VdrDmData {
            affected_dm_metadata_id: codes[0],
            current_dm_metadata_id: codes[1],
            scene_refresh_flag: codes[2],
            ycc_to_rgb_coef0: i16_value(codes[3]),
            ycc_to_rgb_coef1: i16_value(codes[4]),
            ycc_to_rgb_coef2: i16_value(codes[5]),
            ycc_to_rgb_coef3: i16_value(codes[6]),
            ycc_to_rgb_coef4: i16_value(codes[7]),
            ycc_to_rgb_coef5: i16_value(codes[8]),
            ycc_to_rgb_coef6: i16_value(codes[9]),
            ycc_to_rgb_coef7: i16_value(codes[10]),
            ycc_to_rgb_coef8: i16_value(codes[11]),
            ycc_to_rgb_offset0: codes[12] as u32,
            ycc_to_rgb_offset1: codes[13] as u32,
            ycc_to_rgb_offset2: codes[14] as u32,
            rgb_to_lms_coef0: i16_value(codes[15]),
            rgb_to_lms_coef1: i16_value(codes[16]),
            rgb_to_lms_coef2: i16_value(codes[17]),
            rgb_to_lms_coef3: i16_value(codes[18]),
            rgb_to_lms_coef4: i16_value(codes[19]),
            rgb_to_lms_coef5: i16_value(codes[20]),
            rgb_to_lms_coef6: i16_value(codes[21]),
            rgb_to_lms_coef7: i16_value(codes[22]),
            rgb_to_lms_coef8: i16_value(codes[23]),
            signal_eotf: codes[24] as u16,
            signal_eotf_param0: codes[25] as u16,
            signal_eotf_param1: codes[26] as u16,
            signal_eotf_param2: codes[27] as u32,
            signal_bit_depth: codes[28] as u8,
            signal_color_space: codes[29] as u8,
            signal_chroma_format: codes[30] as u8,
            signal_full_range_flag: codes[31] as u8,
            source_min_pq: codes[32] as u16,
            source_max_pq: codes[33] as u16,
            source_diagonal: codes[34] as u16,
            num_ext_blocks: codes[35],
            ext_metadata_blocks,
        };
        proof {
            lemma_header_codes_bounds(codes@);
            lemma_codes_signed(codes@);
            lemma_header_codes_are(data.spec_header_codes(), codes@);
        }
        data
    }
}

/// Each of the codes of the colour matrices is the code of the signed number it stands for.
pub proof fn lemma_codes_signed(codes: Seq<u64>)
    requires
        fields_fit(codes, header_layout()),
    ensures
        forall|i: int|
            (3 <= i < 12 || 15 <= i < 24) ==> spec_i16_code(spec_i16_value(#[trigger] codes[i]))
                == codes[i],
{
    lemma_header_codes_bounds(codes);
    assert forall|i: int| (3 <= i < 12 || 15 <= i < 24) implies spec_i16_code(
        spec_i16_value(#[trigger] codes[i]),
    ) == codes[i] by {
        lemma_i16_code_value(0, codes[i]);
    }
}

/// Two lists of 36 codes that agree in each place are the same list.
pub proof fn lemma_header_codes_are(made: Seq<u64>, codes: Seq<u64>)
    requires
        made.len() == 36,
        codes.len() == 36,
        forall|i: int| 0 <= i < 36 ==> made[i] == codes[i],
    ensures
        made == codes,
{
    assert(made =~= codes);
}

/// Header codes that fit their places are below the limits of the types that hold them.
pub proof fn lemma_header_codes_bounds(codes: Seq<u64>)
    requires
        fields_fit(codes, header_layout()),
    ensures
        codes.len() == 36,
        forall|i: int| 3 <= i < 12 ==> codes[i] < 65536,
        forall|i: int| 12 <= i < 15 ==> codes[i] < 0x1_0000_0000,
        forall|i: int| 15 <= i < 27 ==> codes[i] < 65536,
        codes[27] < 0x1_0000_0000,
        codes[28] < 32,
        codes[29] < 4,
        codes[30] < 4,
        codes[31] < 4,
        codes[32] < 4096,
        codes[33] < 4096,
        codes[34] < 1024,
{
    lemma2_to64();
    assert forall|i: int| 3 <= i < 35 implies field_fits(codes[i], header_layout()[i]) by {}
    assert forall|i: int| 3 <= i < 12 implies codes[i] < 65536 by {
        assert(field_fits(codes[i], header_layout()[i]));
    }
    assert forall|i: int| 12 <= i < 15 implies codes[i] < 0x1_0000_0000 by {
        assert(field_fits(codes[i], header_layout()[i]));
    }
    assert forall|i: int| 15 <= i < 27 implies codes[i] < 65536 by {
        assert(field_fits(codes[i], header_layout()[i]));
    }
    assert(field_fits(codes[27], header_layout()[27]));
    assert(field_fits(codes[28], header_layout()[28]));
    assert(field_fits(codes[29], header_layout()[29]));
    assert(field_fits(codes[30], header_layout()[30]));
    assert(field_fits(codes[31], header_layout()[31]));
    assert(field_fits(codes[32], header_layout()[32]));
    assert(field_fits(codes[33], header_layout()[33]));
    assert(field_fits(codes[34], header_layout()[34]));
}

impl View for VdrDmData {
    type V = VdrDmDataView;

    open spec fn view(&self) -> VdrDmDataView {
        VdrDmDataView {
            header: self.spec_header_codes(),
            blocks: self.ext_metadata_blocks@.map_values(|b: ExtMetadataBlock| b@),
        }
    }
}


/// A level 2 block of the usual length for a target display of the given
/// peak, as a PQ code, with every trim at its neutral value.
pub open spec fn level2_view(target_max_pq: u16) -> BlockView {
    BlockView {
        kind: BlockKind::Level2,
        length: 11,
        level: 2,
        fields: seq![target_max_pq as u64, 2048, 2048, 2048, 2048, 2048, 2048],
        remaining: zero_bits(3),
    }
}

/// A level 5 block of the usual length with the given offsets.
pub open spec fn level5_view(left: u16, right: u16, top: u16, bottom: u16) -> BlockView {
    BlockView {
        kind: BlockKind::Level5,
        length: 7,
        level: 5,
        fields: seq![left as u64, right as u64, top as u64, bottom as u64],
        remaining: zero_bits(4),
    }
}

/// A level 6 block of the usual length with the light levels of `levels`.
pub open spec fn level6_view(levels: ExtMetadataBlockLevel6) -> BlockView {
    BlockView {
        kind: BlockKind::Level6,
        length: 8,
        level: 6,
        fields: seq![
            levels.max_display_mastering_luminance as u64,
            levels.min_display_mastering_luminance as u64,
            levels.max_content_light_level as u64,
            levels.max_frame_average_light_level as u64,
        ],
        remaining: zero_bits(0),
    }
}

/// The level 5 block that `config` asks for: its own, or one of zero offsets.
pub open spec fn config_level5_view(config: GenerateConfig) -> BlockView {
    match config.level5 {
        Some(l5) => level5_view(
            l5.active_area_left_offset,
            l5.active_area_right_offset,
            l5.active_area_top_offset,
            l5.active_area_bottom_offset,
        ),
        None => level5_view(0, 0, 0, 0),
    }
}

/// The least source level that stands for a mastering display of the given
/// minimum luminance, in units of 0.0001 nits.
pub open spec fn source_min_pq_for(min_luminance: u16) -> u16 {
    if min_luminance <= 10 {
        7
    } else if min_luminance == 50 {
        62
    } else {
        0
    }
}

/// The greatest source level that stands for a mastering display of the given
/// maximum luminance, in nits.
pub open spec fn source_max_pq_for(max_luminance: u16) -> u16 {
    if max_luminance == 4000 {
        3696
    } else if max_luminance == 10000 {
        4095
    } else {
        3079
    }
}

impl VdrDmData {
    /// Whether the payload may be written: the first of the conditions that
    /// fails is reported, in this order.
    pub open spec fn spec_validate(&self) -> Result<(), RpuError> {
        if self.affected_dm_metadata_id > 15 {
            Err(RpuError::ValidationFailed(ValidatedField::AffectedDmMetadataId))
        } else if !(8 <= self.signal_bit_depth <= 16) {
            Err(RpuError::ValidationFailed(ValidatedField::SignalBitDepth))
        } else if self.signal_eotf_param0 == 0 && self.signal_eotf_param1 == 0
            && self.signal_eotf_param2 == 0 && self.signal_eotf != 65535 {
            Err(RpuError::ValidationFailed(ValidatedField::SignalEotf))
        } else if self.num_ext_blocks != self.ext_metadata_blocks@.len() {
            Err(RpuError::ValidationFailed(ValidatedField::NumExtBlocks))
        } else {
            Ok(())
        }
    }

    /// Checks that `affected_dm_metadata_id` is at most 15, that
    /// `signal_bit_depth` is between 8 and 16, that `signal_eotf` is 65535
    /// where its three parameters are all zero, and that `num_ext_blocks` is
    /// the number of blocks.
    pub fn validate(&self) -> (r: Result<(), RpuError>)
        ensures
            r == self.spec_validate(),
    {
        if self.affected_dm_metadata_id > 15 {
            Err(RpuError::ValidationFailed(ValidatedField::AffectedDmMetadataId))
        } else if self.signal_bit_depth < 8 || self.signal_bit_depth > 16 {
            Err(RpuError::ValidationFailed(ValidatedField::SignalBitDepth))
        } else if self.signal_eotf_param0 == 0 && self.signal_eotf_param1 == 0
            && self.signal_eotf_param2 == 0 && self.signal_eotf != 65535 {
            Err(RpuError::ValidationFailed(ValidatedField::SignalEotf))
        } else if self.num_ext_blocks != self.ext_metadata_blocks.len() as u64 {
            Err(RpuError::ValidationFailed(ValidatedField::NumExtBlocks))
        } else {
            Ok(())
        }
    }

    /// The payload with the colour matrices of profile 8.1 and colour space 0.
    pub open spec fn spec_p5_to_p81(self) -> VdrDmData {
        VdrDmData {
            ycc_to_rgb_coef0: 9574,
            ycc_to_rgb_coef1: 0,
            ycc_to_rgb_coef2: 13802,
            ycc_to_rgb_coef3: 9574,
            ycc_to_rgb_coef4: (-1540i16),
            ycc_to_rgb_coef5: (-5348i16),
            ycc_to_rgb_coef6: 9574,
            ycc_to_rgb_coef7: 17610,
            ycc_to_rgb_coef8: 0,
            ycc_to_rgb_offset0: 16777216,
            ycc_to_rgb_offset1: 134217728,
            ycc_to_rgb_offset2: 134217728,
            rgb_to_lms_coef0: 7222,
            rgb_to_lms_coef1: 8771,
            rgb_to_lms_coef2: 390,
            rgb_to_lms_coef3: 2654,
            rgb_to_lms_coef4: 12430,
            rgb_to_lms_coef5: 1300,
            rgb_to_lms_coef6: 0,
            rgb_to_lms_coef7: 422,
            rgb_to_lms_coef8: 15962,
            signal_color_space: 0,
            ..self
        }
    }

    /// Replaces the colour matrices by those of profile 8.1, sets the colour
    /// space to 0, and leaves everything else as it is.
    pub fn p5_to_p81(&mut self)
        ensures
            *final(self) == old(self).spec_p5_to_p81(),
    {
        self.ycc_to_rgb_coef0 = 9574;
        self.ycc_to_rgb_coef1 = 0;
        self.ycc_to_rgb_coef2 = 13802;
        self.ycc_to_rgb_coef3 = 9574;
        self.ycc_to_rgb_coef4 = -1540;
        self.ycc_to_rgb_coef5 = -5348;
        self.ycc_to_rgb_coef6 = 9574;
        self.ycc_to_rgb_coef7 = 17610;
        self.ycc_to_rgb_coef8 = 0;
        self.ycc_to_rgb_offset0 = 16777216;
        self.ycc_to_rgb_offset1 = 134217728;
        self.ycc_to_rgb_offset2 = 134217728;

        self.rgb_to_lms_coef0 = 7222;
        self.rgb_to_lms_coef1 = 8771;
        self.rgb_to_lms_coef2 = 390;
        self.rgb_to_lms_coef3 = 2654;
        self.rgb_to_lms_coef4 = 12430;
        self.rgb_to_lms_coef5 = 1300;
        self.rgb_to_lms_coef6 = 0;
        self.rgb_to_lms_coef7 = 422;
        self.rgb_to_lms_coef8 = 15962;

        self.signal_color_space = 0;
    }

    /// Replaces each source level for which a value is given, and leaves
    /// everything else as it is.
    pub fn change_source_levels(&mut self, min_pq: Option<u16>, max_pq: Option<u16>)
        ensures
            *final(self) == (VdrDmData {
                source_min_pq: match min_pq {
                    Some(v) => v,
                    None => old(self).source_min_pq,
                },
                source_max_pq: match max_pq {
                    Some(v) => v,
                    None => old(self).source_max_pq,
                },
                ..*old(self)
            }),
    {
        if let Some(v) = min_pq {
            self.source_min_pq = v;
        }
        if let Some(v) = max_pq {
            self.source_max_pq = v;
        }
    }

    /// Puts the blocks in the order of their levels, level 2 blocks in the
    /// order of their target displays; blocks that are equal in this keep
    /// the order they had. The header stays as it is.
    pub fn sort_extension_blocks(&mut self)
        ensures
            *final(self) == (VdrDmData {
                ext_metadata_blocks: final(self).ext_metadata_blocks,
                ..*old(self)
            }),
            final(self)@.blocks == sorted_blocks(old(self)@.blocks),
            final(self).ext_metadata_blocks@.len() == old(self).ext_metadata_blocks@.len(),
    {
        sort_blocks(&mut self.ext_metadata_blocks);
    }

    /// Appends a level 2 block for a target display of the given peak, as a
    /// PQ code, with every trim at its neutral value.
    pub fn set_level2_from_target(&mut self, target_max_pq: u16)
        ensures
            *final(self) == (VdrDmData {
                ext_metadata_blocks: final(self).ext_metadata_blocks,
                ..*old(self)
            }),
            final(self)@.blocks == old(self)@.blocks.push(level2_view(target_max_pq)),
    {
        let block = ExtMetadataBlockLevel2::from_target_max_pq(target_max_pq);
        self.ext_metadata_blocks.push(ExtMetadataBlock::Level2(block));
        assert(self@.blocks =~= old(self)@.blocks.push(level2_view(target_max_pq)));
    }

    /// Appends the level 5 block that `config` asks for: with its offsets, or
    /// with zero offsets where it has none.
    pub fn set_level5_from_config(&mut self, config: &GenerateConfig)
        ensures
            *final(self) == (VdrDmData {
                ext_metadata_blocks: final(self).ext_metadata_blocks,
                ..*old(self)
            }),
            final(self)@.blocks == old(self)@.blocks.push(config_level5_view(*config)),
    {
        let (left, right, top, bottom) = match &config.level5 {
            Some(l5) => (
                l5.active_area_left_offset,
                l5.active_area_right_offset,
                l5.active_area_top_offset,
                l5.active_area_bottom_offset,
            ),
            None => (0, 0, 0, 0),
        };
        let block = ExtMetadataBlockLevel5::from_offsets(left, right, top, bottom);
        self.ext_metadata_blocks.push(ExtMetadataBlock::Level5(block));
        assert(self@.blocks =~= old(self)@.blocks.push(config_level5_view(*config)));
    }

    /// The source levels after `set_level6_from_config`: a level that is
    /// zero is replaced by the one that stands for the mastering display of
    /// `config`, the minimum only where that display has one.
    pub open spec fn spec_source_levels_from(self, config: GenerateConfig) -> (u16, u16) {
        match config.level6 {
            Some(l6) => (
                if l6.min_display_mastering_luminance > 0 && self.source_min_pq == 0 {
                    source_min_pq_for(l6.min_display_mastering_luminance)
                } else {
                    self.source_min_pq
                },
                if self.source_max_pq == 0 {
                    source_max_pq_for(l6.max_display_mastering_luminance)
                } else {
                    self.source_max_pq
                },
            ),
            None => (self.source_min_pq, self.source_max_pq),
        }
    }

    /// Where `config` has light levels: appends a level 6 block with them,
    /// and replaces each source level that is zero by the one that stands
    /// for the mastering display. Otherwise nothing changes.
    pub fn set_level6_from_config(&mut self, config: &GenerateConfig)
        ensures
            final(self)@.blocks == (match config.level6 {
                Some(l6) => old(self)@.blocks.push(level6_view(l6)),
                None => old(self)@.blocks,
            }),
            *final(self) == (VdrDmData {
                source_min_pq: old(self).spec_source_levels_from(*config).0,
                source_max_pq: old(self).spec_source_levels_from(*config).1,
                ext_metadata_blocks: final(self).ext_metadata_blocks,
                ..*old(self)
            }),
    {
        if let Some(l6) = &config.level6 {
            let mdl_min = l6.min_display_mastering_luminance;
            let mdl_max = l6.max_display_mastering_luminance;
            if mdl_min > 0 && self.source_min_pq == 0 {
                self.source_min_pq = if mdl_min <= 10 {
                    7
                } else if mdl_min == 50 {
                    62
                } else {
                    0
                };
            }
            if self.source_max_pq == 0 {
                self.source_max_pq = if mdl_max == 4000 {
                    3696
                } else if mdl_max == 10000 {
                    4095
                } else {
                    3079
                };
            }
            let block = ExtMetadataBlockLevel6::from_levels(
                l6.max_display_mastering_luminance,
                l6.min_display_mastering_luminance,
                l6.max_content_light_level,
                l6.max_frame_average_light_level,
            );
            self.ext_metadata_blocks.push(ExtMetadataBlock::Level6(block));
            assert(self@.blocks =~= old(self)@.blocks.push(level6_view(*l6)));
        }
    }

    /// Appends a level 5 block with the given offsets, counts the blocks
    /// anew, and puts them in order.
    pub fn add_level5_metadata(&mut self, left: u16, right: u16, top: u16, bottom: u16)
        ensures
            final(self)@.blocks == sorted_blocks(
                old(self)@.blocks.push(level5_view(left, right, top, bottom)),
            ),
            final(self).num_ext_blocks == old(self).ext_metadata_blocks@.len() + 1,
            *final(self) == (VdrDmData {
                num_ext_blocks: final(self).num_ext_blocks,
                ext_metadata_blocks: final(self).ext_metadata_blocks,
                ..*old(self)
            }),
    {
        let block = ExtMetadataBlockLevel5::from_offsets(left, right, top, bottom);
        self.ext_metadata_blocks.push(ExtMetadataBlock::Level5(block));
        assert(self@.blocks =~= old(self)@.blocks.push(level5_view(left, right, top, bottom)));
        self.num_ext_blocks = self.ext_metadata_blocks.len() as u64;
        sort_blocks(&mut self.ext_metadata_blocks);
    }
}


/// The source levels of a generated payload: those that `config` gives, and
/// for one that it leaves out or gives as zero, the one that stands for its
/// mastering display, if it has one.
pub open spec fn generated_source_levels(config: GenerateConfig) -> (u16, u16) {
    let min = match config.source_min_pq {
        Some(v) => v,
        None => 0,
    };
    let max = match config.source_max_pq {
        Some(v) => v,
        None => 0,
    };
    match config.level6 {
        Some(l6) => (
            if l6.min_display_mastering_luminance > 0 && min == 0 {
                source_min_pq_for(l6.min_display_mastering_luminance)
            } else {
                min
            },
            if max == 0 {
                source_max_pq_for(l6.max_display_mastering_luminance)
            } else {
                max
            },
        ),
        None => (min, max),
    }
}

/// The blocks of a generated payload: level 2 for the target display, level
/// 5, and level 6 where `config` has light levels.
pub open spec fn generated_blocks(config: GenerateConfig, target_max_pq: u16) -> Seq<BlockView> {
    let head = seq![level2_view(target_max_pq), config_level5_view(config)];
    match config.level6 {
        Some(l6) => head.push(level6_view(l6)),
        None => head,
    }
}

/// The blocks of a generated payload are in order as they stand.
pub proof fn lemma_generated_blocks_sorted(config: GenerateConfig, target_max_pq: u16)
    ensures
        blocks_sorted(generated_blocks(config, target_max_pq)),
        sorted_blocks(generated_blocks(config, target_max_pq)) == generated_blocks(
            config,
            target_max_pq,
        ),
{
    let blocks = generated_blocks(config, target_max_pq);
    assert(blocks[0].level == 2);
    assert(blocks[1].level == 5);
    if config.level6 is Some {
        assert(blocks[2].level == 6);
    }
    lemma_stable_sort_of_sorted(blocks, block_le());
}

/// The header fields of a generated payload for the given scene refresh
/// flag and number of blocks; it holds no particular blocks.
pub open spec fn generated_data(config: GenerateConfig, scene_refresh_flag: u64, count: u64) -> VdrDmData {
    (VdrDmData {
        affected_dm_metadata_id: 0,
        current_dm_metadata_id: 0,
        scene_refresh_flag,
        ycc_to_rgb_coef0: 0,
        ycc_to_rgb_coef1: 0,
        ycc_to_rgb_coef2: 0,
        ycc_to_rgb_coef3: 0,
        ycc_to_rgb_coef4: 0,
        ycc_to_rgb_coef5: 0,
        ycc_to_rgb_coef6: 0,
        ycc_to_rgb_coef7: 0,
        ycc_to_rgb_coef8: 0,
        ycc_to_rgb_offset0: 0,
        ycc_to_rgb_offset1: 0,
        ycc_to_rgb_offset2: 0,
        rgb_to_lms_coef0: 0,
        rgb_to_lms_coef1: 0,
        rgb_to_lms_coef2: 0,
        rgb_to_lms_coef3: 0,
        rgb_to_lms_coef4: 0,
        rgb_to_lms_coef5: 0,
        rgb_to_lms_coef6: 0,
        rgb_to_lms_coef7: 0,
        rgb_to_lms_coef8: 0,
        signal_eotf: 65535,
        signal_eotf_param0: 0,
        signal_eotf_param1: 0,
        signal_eotf_param2: 0,
        signal_bit_depth: 12,
        signal_color_space: 0,
        signal_chroma_format: 0,
        signal_full_range_flag: 1,
        source_min_pq: generated_source_levels(config).0,
        source_max_pq: generated_source_levels(config).1,
        source_diagonal: 42,
        num_ext_blocks: count,
        ext_metadata_blocks: arbitrary(),
    }).spec_p5_to_p81()
}

/// Whether `data` has the header fields of a generated payload for the
/// given scene refresh flag and number of blocks.
pub open spec fn is_generated(
    data: VdrDmData,
    config: GenerateConfig,
    scene_refresh_flag: u64,
    count: u64,
) -> bool {
    data == (VdrDmData {
        ext_metadata_blocks: data.ext_metadata_blocks,
        ..generated_data(config, scene_refresh_flag, count)
    })
}

impl VdrDmData {
    /// The payload that every generated RPU starts from: the colour matrices
    /// of profile 8.1, a 12-bit full-range PQ signal, no source levels, no blocks.
    pub fn generated_base() -> (data: VdrDmData)
        ensures
            data == (VdrDmData {
                affected_dm_metadata_id: 0,
                current_dm_metadata_id: 0,
                scene_refresh_flag: 0,
                signal_eotf: 65535,
                signal_eotf_param0: 0,
                signal_eotf_param1: 0,
                signal_eotf_param2: 0,
                signal_bit_depth: 12,
                signal_chroma_format: 0,
                signal_full_range_flag: 1,
                source_min_pq: 0,
                source_max_pq: 0,
                source_diagonal: 42,
                num_ext_blocks: 0,
                ..data
            }).spec_p5_to_p81(),
            data.ext_metadata_blocks@.len() == 0,
    {
        VdrDmData {
            affected_dm_metadata_id: 0,
            current_dm_metadata_id: 0,
            scene_refresh_flag: 0,
            ycc_to_rgb_coef0: 9574,
            ycc_to_rgb_coef1: 0,
            ycc_to_rgb_coef2: 13802,
            ycc_to_rgb_coef3: 9574,
            ycc_to_rgb_coef4: -1540,
            ycc_to_rgb_coef5: -5348,
            ycc_to_rgb_coef6: 9574,
            ycc_to_rgb_coef7: 17610,
            ycc_to_rgb_coef8: 0,
            ycc_to_rgb_offset0: 16777216,
            ycc_to_rgb_offset1: 134217728,
            ycc_to_rgb_offset2: 134217728,
            rgb_to_lms_coef0: 7222,
            rgb_to_lms_coef1: 8771,
            rgb_to_lms_coef2: 390,
            rgb_to_lms_coef3: 2654,
            rgb_to_lms_coef4: 12430,
            rgb_to_lms_coef5: 1300,
            rgb_to_lms_coef6: 0,
            rgb_to_lms_coef7: 422,
            rgb_to_lms_coef8: 15962,
            signal_eotf: 65535,
            signal_eotf_param0: 0,
            signal_eotf_param1: 0,
            signal_eotf_param2: 0,
            signal_bit_depth: 12,
            signal_color_space: 0,
            signal_chroma_format: 0,
            signal_full_range_flag: 1,
            source_min_pq: 0,
            source_max_pq: 0,
            source_diagonal: 42,
            num_ext_blocks: 0,
            ext_metadata_blocks: Vec::new(),
        }
    }

    /// The payload that `config` asks for, for a target display whose peak
    /// is `target_max_pq` as a PQ code: the generated base with the source
    /// levels of `config`, and its blocks, counted and in order.
    pub fn from_config(config: &GenerateConfig, target_max_pq: u16) -> (data: VdrDmData)
        ensures
            data@.blocks == generated_blocks(*config, target_max_pq),
            is_generated(
                data,
                *config,
                0,
                generated_blocks(*config, target_max_pq).len() as u64,
            ),
            data.spec_validate() is Ok,
    {
        let mut data = VdrDmData::generated_base();
        assert(data@.blocks =~= Seq::<BlockView>::empty());
        data.change_source_levels(config.source_min_pq, config.source_max_pq);
        data.set_level2_from_target(target_max_pq);
        data.set_level5_from_config(config);
        data.set_level6_from_config(config);
        assert(data@.blocks =~= generated_blocks(*config, target_max_pq));
        data.num_ext_blocks = data.ext_metadata_blocks.len() as u64;
        proof {
            lemma_generated_blocks_sorted(*config, target_max_pq);
        }
        data.sort_extension_blocks();
        data
    }
}

} // verus!
