//! Extension metadata blocks: their levels, their fields, and how each level
//! is laid out on the wire.

use vstd::prelude::*;
use vstd::arithmetic::power2::lemma2_to64;
use crate::bits::{ue_prefix_len, zero_bits};
use crate::fields::{fields_fit, FieldKind};

verus! {

/// The levels of extension block that have a layout of their own, and the rest.
#[derive(Clone, Copy, Debug, PartialEq, Eq, Structural)]
pub enum BlockKind {
    Level1,
    Level2,
    Level3,
    Level4,
    Level5,
    Level6,
    Level8,
    Level9,
    Reserved,
}

impl BlockKind {
    /// The kind of block that `level` announces.
    pub open spec fn spec_of_level(level: u8) -> BlockKind {
        if level == 1 {
            BlockKind::Level1
        } else if level == 2 {
            BlockKind::Level2
        } else if level == 3 {
            BlockKind::Level3
        } else if level == 4 {
            BlockKind::Level4
        } else if level == 5 {
            BlockKind::Level5
        } else if level == 6 {
            BlockKind::Level6
        } else if level == 8 {
            BlockKind::Level8
        } else if level == 9 {
            BlockKind::Level9
        } else {
            BlockKind::Reserved
        }
    }

    /// The kind of block that `level` announces.
    #[verifier::when_used_as_spec(spec_of_level)]
    pub fn of_level(level: u8) -> (kind: BlockKind)
        ensures
            kind == BlockKind::spec_of_level(level),
    {
        if level == 1 {
            BlockKind::Level1
        } else if level == 2 {
            BlockKind::Level2
        } else if level == 3 {
            BlockKind::Level3
        } else if level == 4 {
            BlockKind::Level4
        } else if level == 5 {
            BlockKind::Level5
        } else if level == 6 {
            BlockKind::Level6
        } else if level == 8 {
            BlockKind::Level8
        } else if level == 9 {
            BlockKind::Level9
        } else {
            BlockKind::Reserved
        }
    }

    /// The fields of the payload, in wire order.
    pub open spec fn layout(self) -> Seq<FieldKind> {
        match self {
            BlockKind::Level1 => seq![FieldKind::Bits(12), FieldKind::Bits(12), FieldKind::Bits(12)],
            BlockKind::Level2 => seq![
                FieldKind::Bits(12),
                FieldKind::Bits(12),
                FieldKind::Bits(12),
                FieldKind::Bits(12),
                FieldKind::Bits(12),
                FieldKind::Bits(12),
                FieldKind::Bits(13),
            ],
            BlockKind::Level3 => seq![FieldKind::Bits(12), FieldKind::Bits(12), FieldKind::Bits(12)],
            BlockKind::Level4 => seq![FieldKind::Bits(12), FieldKind::Bits(12)],
            BlockKind::Level5 => seq![
                FieldKind::Bits(13),
                FieldKind::Bits(13),
                FieldKind::Bits(13),
                FieldKind::Bits(13),
            ],
            BlockKind::Level6 => seq![
                FieldKind::Bits(16),
                FieldKind::Bits(16),
                FieldKind::Bits(16),
                FieldKind::Bits(16),
            ],
            BlockKind::Level8 => seq![
                FieldKind::Bits(8),
                FieldKind::Bits(12),
                FieldKind::Bits(12),
                FieldKind::Bits(12),
                FieldKind::Bits(12),
                FieldKind::Bits(12),
                FieldKind::Bits(12),
            ],
            BlockKind::Level9 => seq![FieldKind::Bits(8)],
            BlockKind::Reserved => seq![],
        }
    }

    /// The fields of the payload, in wire order.
    pub fn layout_vec(self) -> (layout: Vec<FieldKind>)
        ensures
            layout@ == self.layout(),
    {
        match self {
            BlockKind::Level1 => vec![FieldKind::Bits(12), FieldKind::Bits(12), FieldKind::Bits(12)],
            BlockKind::Level2 => vec![
                FieldKind::Bits(12),
                FieldKind::Bits(12),
                FieldKind::Bits(12),
                FieldKind::Bits(12),
                FieldKind::Bits(12),
                FieldKind::Bits(12),
                FieldKind::Bits(13),
            ],
            BlockKind::Level3 => vec![FieldKind::Bits(12), FieldKind::Bits(12), FieldKind::Bits(12)],
            BlockKind::Level4 => vec![FieldKind::Bits(12), FieldKind::Bits(12)],
            BlockKind::Level5 => vec![
                FieldKind::Bits(13),
                FieldKind::Bits(13),
                FieldKind::Bits(13),
                FieldKind::Bits(13),
            ],
            BlockKind::Level6 => vec![
                FieldKind::Bits(16),
                FieldKind::Bits(16),
                FieldKind::Bits(16),
                FieldKind::Bits(16),
            ],
            BlockKind::Level8 => vec![
                FieldKind::Bits(8),
                FieldKind::Bits(12),
                FieldKind::Bits(12),
                FieldKind::Bits(12),
                FieldKind::Bits(12),
                FieldKind::Bits(12),
                FieldKind::Bits(12),
            ],
            BlockKind::Level9 => vec![FieldKind::Bits(8)],
            BlockKind::Reserved => vec![],
        }
    }

    /// The number of bits that the fields of the payload take.
    pub open spec fn spec_payload_bits(self) -> u64 {
        match self {
            BlockKind::Level1 => 36,
            BlockKind::Level2 => 85,
            BlockKind::Level3 => 36,
            BlockKind::Level4 => 24,
            BlockKind::Level5 => 52,
            BlockKind::Level6 => 64,
            BlockKind::Level8 => 80,
            BlockKind::Level9 => 8,
            BlockKind::Reserved => 0,
        }
    }

    /// The number of bits that the fields of the payload take.
    #[verifier::when_used_as_spec(spec_payload_bits)]
    pub fn payload_bits(self) -> (bits: u64)
        ensures
            bits == self.spec_payload_bits(),
    {
        match self {
            BlockKind::Level1 => 36,
            BlockKind::Level2 => 85,
            BlockKind::Level3 => 36,
            BlockKind::Level4 => 24,
            BlockKind::Level5 => 52,
            BlockKind::Level6 => 64,
            BlockKind::Level8 => 80,
            BlockKind::Level9 => 8,
            BlockKind::Reserved => 0,
        }
    }

    /// The length in bytes that a block of this kind declares; for level 8
    /// the least such length, for a reserved block none in particular.
    pub open spec fn spec_nominal_length(self) -> u64 {
        match self {
            BlockKind::Level1 => 5,
            BlockKind::Level2 => 11,
            BlockKind::Level3 => 2,
            BlockKind::Level4 => 3,
            BlockKind::Level5 => 7,
            BlockKind::Level6 => 8,
            BlockKind::Level8 => 10,
            BlockKind::Level9 => 1,
            BlockKind::Reserved => 0,
        }
    }

    /// The length in bytes that a block of this kind declares; for level 8
    /// the least such length, for a reserved block none in particular.
    #[verifier::when_used_as_spec(spec_nominal_length)]
    pub fn nominal_length(self) -> (length: u64)
        ensures
            length == self.spec_nominal_length(),
    {
        match self {
            BlockKind::Level1 => 5,
            BlockKind::Level2 => 11,
            BlockKind::Level3 => 2,
            BlockKind::Level4 => 3,
            BlockKind::Level5 => 7,
            BlockKind::Level6 => 8,
            BlockKind::Level8 => 10,
            BlockKind::Level9 => 1,
            BlockKind::Reserved => 0,
        }
    }

    /// Whether a block of this kind may declare `length` bytes.
    pub open spec fn spec_length_allowed(self, length: u64) -> bool {
        match self {
            BlockKind::Reserved => true,
            BlockKind::Level8 => length >= 10,
            _ => length == self.spec_nominal_length(),
        }
    }

    /// Whether a block of this kind may declare `length` bytes.
    #[verifier::when_used_as_spec(spec_length_allowed)]
    pub fn length_allowed(self, length: u64) -> (allowed: bool)
        ensures
            allowed == self.spec_length_allowed(length),
    {
        match self {
            BlockKind::Reserved => true,
            BlockKind::Level8 => length >= 10,
            _ => length == self.nominal_length(),
        }
    }

    /// The number of bits that follow the fields in a block that declares
    /// `length` bytes: what the declared length leaves after the payload.
    pub open spec fn pad_bits(self, length: u64) -> nat {
        if 8 * length >= self.spec_payload_bits() {
            (8 * length - self.spec_payload_bits()) as nat
        } else {
            0
        }
    }
}

/// What every extension block starts with, and the bits that follow its fields.
#[derive(Clone, Debug, PartialEq, Eq)]
pub struct BlockInfo {
    pub ext_block_length: u64,
    pub ext_block_level: u8,
    pub remaining: Vec<bool>,
}

/// Level 1: the luminance range of the picture.
#[derive(Clone, Debug, PartialEq, Eq)]
pub struct ExtMetadataBlockLevel1 {
    pub block_info: BlockInfo,
    pub min_pq: u16,
    pub max_pq: u16,
    pub avg_pq: u16,
}

/// Level 2: a trim pass for one target display.
#[derive(Clone, Debug, PartialEq, Eq)]
pub struct ExtMetadataBlockLevel2 {
    pub block_info: BlockInfo,
    pub target_max_pq: u16,
    pub trim_slope: u16,
    pub trim_offset: u16,
    pub trim_power: u16,
    pub trim_chroma_weight: u16,
    pub trim_saturation_gain: u16,
    pub ms_weight: i16,
}

/// Level 3: offsets to the level 1 values.
#[derive(Clone, Debug, PartialEq, Eq)]
pub struct ExtMetadataBlockLevel3 {
    pub block_info: BlockInfo,
    pub min_pq_offset: u16,
    pub max_pq_offset: u16,
    pub avg_pq_offset: u16,
}

/// Level 4: the anchor of the temporal filter.
#[derive(Clone, Debug, PartialEq, Eq)]
pub struct ExtMetadataBlockLevel4 {
    pub block_info: BlockInfo,
    pub anchor_pq: u16,
    pub anchor_power: u16,
}

/// Level 5: the active area of the picture.
#[derive(Clone, Debug, PartialEq, Eq)]
pub struct ExtMetadataBlockLevel5 {
    pub block_info: BlockInfo,
    pub active_area_left_offset: u16,
    pub active_area_right_offset: u16,
    pub active_area_top_offset: u16,
    pub active_area_bottom_offset: u16,
}

/// Level 6: the static light levels of the content and of its mastering display.
#[derive(Clone, Debug, PartialEq, Eq)]
pub struct ExtMetadataBlockLevel6 {
    pub block_info: BlockInfo,
    pub max_display_mastering_luminance: u16,
    pub min_display_mastering_luminance: u16,
    pub max_content_light_level: u16,
    pub max_frame_average_light_level: u16,
}

/// Level 8: a trim pass for one target display, by its index.
#[derive(Clone, Debug, PartialEq, Eq)]
pub struct ExtMetadataBlockLevel8 {
    pub block_info: BlockInfo,
    pub target_display_index: u8,
    pub trim_slope: u16,
    pub trim_offset: u16,
    pub trim_power: u16,
    pub trim_chroma_weight: u16,
    pub trim_saturation_gain: u16,
    pub ms_weight: u16,
}

/// Level 9: the colour primaries of the source.
#[derive(Clone, Debug, PartialEq, Eq)]
pub struct ExtMetadataBlockLevel9 {
    pub block_info: BlockInfo,
    pub source_primary_index: u8,
}

/// A block of a level that has no layout of its own; its bits are kept as they came.
#[derive(Clone, Debug, PartialEq, Eq)]
pub struct ReservedExtMetadataBlock {
    pub block_info: BlockInfo,
}

/// One extension metadata block.
#[derive(Clone, Debug, PartialEq, Eq)]
pub enum ExtMetadataBlock {
    Level1(ExtMetadataBlockLevel1),
    Level2(ExtMetadataBlockLevel2),
    Level3(ExtMetadataBlockLevel3),
    Level4(ExtMetadataBlockLevel4),
    Level5(ExtMetadataBlockLevel5),
    Level6(ExtMetadataBlockLevel6),
    Level8(ExtMetadataBlockLevel8),
    Level9(ExtMetadataBlockLevel9),
    Reserved(ReservedExtMetadataBlock),
}

/// The 13 bits that stand for a signed number on the wire, as an unsigned number.
pub open spec fn spec_i13_code(value: i16) -> u64 {
    ((value as int) % 8192) as u64
}

/// The signed number that 13 bits stand for.
pub open spec fn spec_i13_value(code: u64) -> i16 {
    if code % 8192 >= 4096 {
        (code % 8192 - 8192) as i16
    } else {
        (code % 8192) as i16
    }
}

/// The 13 bits that stand for a signed number on the wire, as an unsigned number.
#[verifier::when_used_as_spec(spec_i13_code)]
pub fn i13_code(value: i16) -> (code: u64)
    ensures
        code == spec_i13_code(value),
        code < 8192,
{
    let shifted: u32 = (value as i32 + 32768) as u32;
    (shifted % 8192) as u64
}

/// The signed number that 13 bits stand for.
#[verifier::when_used_as_spec(spec_i13_value)]
pub fn i13_value(code: u64) -> (value: i16)
    ensures
        value == spec_i13_value(code),
        -4096 <= value < 4096,
{
    let low: u64 = code % 8192;
    if low >= 4096 {
        (low as i32 - 8192) as i16
    } else {
        low as i16
    }
}

/// A signed number of 13 bits is read back unchanged from its code, and a
/// code of 13 bits from the number it stands for.
pub proof fn lemma_i13_code_value(value: i16, code: u64)
    ensures
        -4096 <= value < 4096 ==> spec_i13_value(spec_i13_code(value)) == value,
        code < 8192 ==> spec_i13_code(spec_i13_value(code)) == code,
{
}


/// An extension block as the wire sees it: its kind, what it declares, the
/// unsigned codes of its fields in wire order, and the bits after them.
pub struct BlockView {
    pub kind: BlockKind,
    pub length: u64,
    pub level: u8,
    pub fields: Seq<u64>,
    pub remaining: Seq<bool>,
}

impl BlockView {
    /// Whether the block is one that a reader can produce: the level
    /// announces the kind, the kind allows the length, there is a code for
    /// each field, and the bits after the fields fill the declared length.
    pub open spec fn wf(self) -> bool {
        &&& self.kind == BlockKind::spec_of_level(self.level)
        &&& self.kind.spec_length_allowed(self.length)
        &&& self.fields.len() == self.kind.layout().len()
        &&& self.remaining.len() == self.kind.pad_bits(self.length)
    }

    /// Whether the length and every field are read back unchanged from their codes.
    pub open spec fn fits(self) -> bool {
        &&& ue_prefix_len(self.length as nat) <= 32
        &&& fields_fit(self.fields, self.kind.layout())
    }

    /// Whether the bits after the fields are what a writer puts there: for a
    /// reserved block any bits, for the others zeros.
    pub open spec fn zero_padded(self) -> bool {
        self.kind != BlockKind::Reserved ==> self.remaining == zero_bits(self.remaining.len())
    }

    /// The block with the bits after its fields as a writer puts them.
    pub open spec fn written(self) -> BlockView {
        if self.kind == BlockKind::Reserved {
            self
        } else {
            BlockView { remaining: zero_bits(self.remaining.len()), ..self }
        }
    }
}

impl BlockView {
    /// A block of `kind` of its usual length with the given field codes.
    pub open spec fn of_kind(kind: BlockKind, level: u8, fields: Seq<u64>) -> BlockView {
        BlockView {
            kind,
            length: kind.spec_nominal_length(),
            level,
            fields,
            remaining: zero_bits(kind.pad_bits(kind.spec_nominal_length())),
        }
    }
}

impl BlockInfo {
    /// What a block of `kind` with `length` bytes starts with, and zero bits after its fields.
    pub fn new(kind: BlockKind, level: u8, length: u64) -> (info: BlockInfo)
        requires
            kind.pad_bits(length) <= usize::MAX,
        ensures
            info.ext_block_length == length,
            info.ext_block_level == level,
            info.remaining@ == zero_bits(kind.pad_bits(length)),
    {
        let payload: u128 = kind.payload_bits() as u128;
        let total: u128 = 8 * (length as u128);
        let mut remaining: Vec<bool> = Vec::new();
        if total >= payload {
            let pad: u128 = total - payload;
            let mut i: u128 = 0;
            while i < pad
                invariant
                    i <= pad,
                    remaining@ == zero_bits(i as nat),
                decreases pad - i,
            {
                remaining.push(false);
                i += 1;
                assert(remaining@ =~= zero_bits(i as nat));
            }
        }
        assert(remaining@ =~= zero_bits(kind.pad_bits(length)));
        BlockInfo { ext_block_length: length, ext_block_level: level, remaining }
    }

    /// What a block of `kind` of its usual length starts with.
    pub fn for_kind(kind: BlockKind, level: u8) -> (info: BlockInfo)
        ensures
            info.ext_block_length == kind.spec_nominal_length(),
            info.ext_block_level == level,
            info.remaining@ == zero_bits(kind.pad_bits(kind.spec_nominal_length())),
    {
        BlockInfo::new(kind, level, kind.nominal_length())
    }

    /// A copy of `self`.
    pub fn duplicate(&self) -> (copy: BlockInfo)
        ensures
            copy.ext_block_length == self.ext_block_length,
            copy.ext_block_level == self.ext_block_level,
            copy.remaining@ == self.remaining@,
    {
        let mut remaining: Vec<bool> = Vec::new();
        let mut i: usize = 0;
        while i < self.remaining.len()
            invariant
                i <= self.remaining.len(),
                remaining@ == self.remaining@.take(i as int),
            decreases self.remaining.len() - i,
        {
            remaining.push(self.remaining[i]);
            i += 1;
            assert(remaining@ =~= self.remaining@.take(i as int));
        }
        assert(self.remaining@.take(i as int) =~= self.remaining@);
        BlockInfo {
            ext_block_length: self.ext_block_length,
            ext_block_level: self.ext_block_level,
            remaining,
        }
    }
}

impl ExtMetadataBlockLevel1 {
    /// The unsigned codes of the fields, in wire order.
    pub open spec fn spec_codes(&self) -> Seq<u64> {
        seq![self.min_pq as u64, self.max_pq as u64, self.avg_pq as u64]
    }

    /// A level 1 block of the usual length with the given values.
    pub fn from_stats(min_pq: u16, max_pq: u16, avg_pq: u16) -> (block: ExtMetadataBlockLevel1)
        ensures
            block.min_pq == min_pq,
            block.max_pq == max_pq,
            block.avg_pq == avg_pq,
            block.block_info.ext_block_length == 5,
            block.block_info.ext_block_level == 1,
            block.block_info.remaining@ == zero_bits(4),
    {
        ExtMetadataBlockLevel1 {
            block_info: BlockInfo::for_kind(BlockKind::Level1, 1),
            min_pq,
            max_pq,
            avg_pq,
        }
    }
}

impl ExtMetadataBlockLevel2 {
    /// The unsigned codes of the fields, in wire order.
    pub open spec fn spec_codes(&self) -> Seq<u64> {
        seq![
            self.target_max_pq as u64,
            self.trim_slope as u64,
            self.trim_offset as u64,
            self.trim_power as u64,
            self.trim_chroma_weight as u64,
            self.trim_saturation_gain as u64,
            spec_i13_code(self.ms_weight),
        ]
    }

    /// A level 2 block of the usual length for a target display of the given
    /// peak, as a PQ code, with every trim at its neutral value 2048.
    pub fn from_target_max_pq(target_max_pq: u16) -> (block: ExtMetadataBlockLevel2)
        ensures
            block.target_max_pq == target_max_pq,
            block.trim_slope == 2048,
            block.trim_offset == 2048,
            block.trim_power == 2048,
            block.trim_chroma_weight == 2048,
            block.trim_saturation_gain == 2048,
            block.ms_weight == 2048,
            block.block_info.ext_block_length == 11,
            block.block_info.ext_block_level == 2,
            block.block_info.remaining@ == zero_bits(3),
    {
        ExtMetadataBlockLevel2 {
            block_info: BlockInfo::for_kind(BlockKind::Level2, 2),
            target_max_pq,
            trim_slope: 2048,
            trim_offset: 2048,
            trim_power: 2048,
            trim_chroma_weight: 2048,
            trim_saturation_gain: 2048,
            ms_weight: 2048,
        }
    }
}

impl ExtMetadataBlockLevel2 {
    /// A level 2 block of the usual length with the given values.
    pub fn from_trims(
        target_max_pq: u16,
        trim_slope: u16,
        trim_offset: u16,
        trim_power: u16,
        trim_chroma_weight: u16,
        trim_saturation_gain: u16,
        ms_weight: i16,
    ) -> (block: ExtMetadataBlockLevel2)
        ensures
            block.target_max_pq == target_max_pq,
            block.trim_slope == trim_slope,
            block.trim_offset == trim_offset,
            block.trim_power == trim_power,
            block.trim_chroma_weight == trim_chroma_weight,
            block.trim_saturation_gain == trim_saturation_gain,
            block.ms_weight == ms_weight,
            block.block_info.ext_block_length == 11,
            block.block_info.ext_block_level == 2,
            block.block_info.remaining@ == zero_bits(3),
    {
        ExtMetadataBlockLevel2 {
            block_info: BlockInfo::for_kind(BlockKind::Level2, 2),
            target_max_pq,
            trim_slope,
            trim_offset,
            trim_power,
            trim_chroma_weight,
            trim_saturation_gain,
            ms_weight,
        }
    }
}

impl ExtMetadataBlockLevel3 {
    /// The unsigned codes of the fields, in wire order.
    pub open spec fn spec_codes(&self) -> Seq<u64> {
        seq![self.min_pq_offset as u64, self.max_pq_offset as u64, self.avg_pq_offset as u64]
    }

    /// A level 3 block of the usual length with the given offsets.
    pub fn from_offsets(min_pq_offset: u16, max_pq_offset: u16, avg_pq_offset: u16) -> (block:
        ExtMetadataBlockLevel3)
        ensures
            block.min_pq_offset == min_pq_offset,
            block.max_pq_offset == max_pq_offset,
            block.avg_pq_offset == avg_pq_offset,
            block.block_info.ext_block_length == 2,
            block.block_info.ext_block_level == 3,
            block.block_info.remaining@ == zero_bits(0),
    {
        ExtMetadataBlockLevel3 {
            block_info: BlockInfo::for_kind(BlockKind::Level3, 3),
            min_pq_offset,
            max_pq_offset,
            avg_pq_offset,
        }
    }
}

impl ExtMetadataBlockLevel4 {
    /// The unsigned codes of the fields, in wire order.
    pub open spec fn spec_codes(&self) -> Seq<u64> {
        seq![self.anchor_pq as u64, self.anchor_power as u64]
    }
}

impl ExtMetadataBlockLevel5 {
    /// The unsigned codes of the fields, in wire order.
    pub open spec fn spec_codes(&self) -> Seq<u64> {
        seq![
            self.active_area_left_offset as u64,
            self.active_area_right_offset as u64,
            self.active_area_top_offset as u64,
            self.active_area_bottom_offset as u64,
        ]
    }

    /// A level 5 block of the usual length with the given offsets.
    pub fn from_offsets(left: u16, right: u16, top: u16, bottom: u16) -> (block:
        ExtMetadataBlockLevel5)
        ensures
            block.active_area_left_offset == left,
            block.active_area_right_offset == right,
            block.active_area_top_offset == top,
            block.active_area_bottom_offset == bottom,
            block.block_info.ext_block_length == 7,
            block.block_info.ext_block_level == 5,
            block.block_info.remaining@ == zero_bits(4),
    {
        ExtMetadataBlockLevel5 {
            block_info: BlockInfo::for_kind(BlockKind::Level5, 5),
            active_area_left_offset: left,
            active_area_right_offset: right,
            active_area_top_offset: top,
            active_area_bottom_offset: bottom,
        }
    }

    /// The four offsets: left, right, top, bottom.
    pub fn _get_offsets(&self) -> (offsets: Vec<u16>)
        ensures
            offsets@ == seq![
                self.active_area_left_offset,
                self.active_area_right_offset,
                self.active_area_top_offset,
                self.active_area_bottom_offset,
            ],
    {
        vec![
            self.active_area_left_offset,
            self.active_area_right_offset,
            self.active_area_top_offset,
            self.active_area_bottom_offset,
        ]
    }

    /// Replaces the four offsets and leaves the rest of the block as it is.
    pub fn set_offsets(&mut self, left: u16, right: u16, top: u16, bottom: u16)
        ensures
            final(self).active_area_left_offset == left,
            final(self).active_area_right_offset == right,
            final(self).active_area_top_offset == top,
            final(self).active_area_bottom_offset == bottom,
            final(self).block_info == old(self).block_info,
    {
        self.active_area_left_offset = left;
        self.active_area_right_offset = right;
        self.active_area_top_offset = top;
        self.active_area_bottom_offset = bottom;
    }

    /// Sets the four offsets to zero and leaves the rest of the block as it is.
    pub fn crop(&mut self)
        ensures
            final(self).active_area_left_offset == 0,
            final(self).active_area_right_offset == 0,
            final(self).active_area_top_offset == 0,
            final(self).active_area_bottom_offset == 0,
            final(self).block_info == old(self).block_info,
    {
        self.active_area_left_offset = 0;
        self.active_area_right_offset = 0;
        self.active_area_top_offset = 0;
        self.active_area_bottom_offset = 0;
    }
}

impl ExtMetadataBlockLevel6 {
    /// The unsigned codes of the fields, in wire order.
    pub open spec fn spec_codes(&self) -> Seq<u64> {
        seq![
            self.max_display_mastering_luminance as u64,
            self.min_display_mastering_luminance as u64,
            self.max_content_light_level as u64,
            self.max_frame_average_light_level as u64,
        ]
    }

    /// A level 6 block of the usual length with the given light levels.
    pub fn from_levels(
        max_display_mastering_luminance: u16,
        min_display_mastering_luminance: u16,
        max_content_light_level: u16,
        max_frame_average_light_level: u16,
    ) -> (block: ExtMetadataBlockLevel6)
        ensures
            block.max_display_mastering_luminance == max_display_mastering_luminance,
            block.min_display_mastering_luminance == min_display_mastering_luminance,
            block.max_content_light_level == max_content_light_level,
            block.max_frame_average_light_level == max_frame_average_light_level,
            block.block_info.ext_block_length == 8,
            block.block_info.ext_block_level == 6,
            block.block_info.remaining@ == zero_bits(0),
    {
        ExtMetadataBlockLevel6 {
            block_info: BlockInfo::for_kind(BlockKind::Level6, 6),
            max_display_mastering_luminance,
            min_display_mastering_luminance,
            max_content_light_level,
            max_frame_average_light_level,
        }
    }
}

impl ExtMetadataBlockLevel8 {
    /// The unsigned codes of the fields, in wire order.
    pub open spec fn spec_codes(&self) -> Seq<u64> {
        seq![
            self.target_display_index as u64,
            self.trim_slope as u64,
            self.trim_offset as u64,
            self.trim_power as u64,
            self.trim_chroma_weight as u64,
            self.trim_saturation_gain as u64,
            self.ms_weight as u64,
        ]
    }
}

impl ExtMetadataBlockLevel8 {
    /// A level 8 block of the least length with the given values.
    pub fn from_trims(
        target_display_index: u8,
        trim_slope: u16,
        trim_offset: u16,
        trim_power: u16,
        trim_chroma_weight: u16,
        trim_saturation_gain: u16,
        ms_weight: u16,
    ) -> (block: ExtMetadataBlockLevel8)
        ensures
            block.target_display_index == target_display_index,
            block.trim_slope == trim_slope,
            block.trim_offset == trim_offset,
            block.trim_power == trim_power,
            block.trim_chroma_weight == trim_chroma_weight,
            block.trim_saturation_gain == trim_saturation_gain,
            block.ms_weight == ms_weight,
            block.block_info.ext_block_length == 10,
            block.block_info.ext_block_level == 8,
            block.block_info.remaining@ == zero_bits(0),
    {
        ExtMetadataBlockLevel8 {
            block_info: BlockInfo::for_kind(BlockKind::Level8, 8),
            target_display_index,
            trim_slope,
            trim_offset,
            trim_power,
            trim_chroma_weight,
            trim_saturation_gain,
            ms_weight,
        }
    }
}

impl ExtMetadataBlockLevel9 {
    /// The unsigned codes of the fields, in wire order.
    pub open spec fn spec_codes(&self) -> Seq<u64> {
        seq![self.source_primary_index as u64]
    }

    /// A level 9 block of the usual length for the given primaries.
    pub fn from_index(source_primary_index: u8) -> (block: ExtMetadataBlockLevel9)
        ensures
            block.source_primary_index == source_primary_index,
            block.block_info.ext_block_length == 1,
            block.block_info.ext_block_level == 9,
            block.block_info.remaining@ == zero_bits(0),
    {
        ExtMetadataBlockLevel9 {
            block_info: BlockInfo::for_kind(BlockKind::Level9, 9),
            source_primary_index,
        }
    }
}

impl ExtMetadataBlock {
    /// The kind of block that the variant stands for.
    pub open spec fn spec_kind(&self) -> BlockKind {
        match self {
            ExtMetadataBlock::Level1(_) => BlockKind::Level1,
            ExtMetadataBlock::Level2(_) => BlockKind::Level2,
            ExtMetadataBlock::Level3(_) => BlockKind::Level3,
            ExtMetadataBlock::Level4(_) => BlockKind::Level4,
            ExtMetadataBlock::Level5(_) => BlockKind::Level5,
            ExtMetadataBlock::Level6(_) => BlockKind::Level6,
            ExtMetadataBlock::Level8(_) => BlockKind::Level8,
            ExtMetadataBlock::Level9(_) => BlockKind::Level9,
            ExtMetadataBlock::Reserved(_) => BlockKind::Reserved,
        }
    }

    /// The kind of block that the variant stands for.
    #[verifier::when_used_as_spec(spec_kind)]
    pub fn kind(&self) -> (kind: BlockKind)
        ensures
            kind == self.spec_kind(),
    {
        match self {
            ExtMetadataBlock::Level1(_) => BlockKind::Level1,
            ExtMetadataBlock::Level2(_) => BlockKind::Level2,
            ExtMetadataBlock::Level3(_) => BlockKind::Level3,
            ExtMetadataBlock::Level4(_) => BlockKind::Level4,
            ExtMetadataBlock::Level5(_) => BlockKind::Level5,
            ExtMetadataBlock::Level6(_) => BlockKind::Level6,
            ExtMetadataBlock::Level8(_) => BlockKind::Level8,
            ExtMetadataBlock::Level9(_) => BlockKind::Level9,
            ExtMetadataBlock::Reserved(_) => BlockKind::Reserved,
        }
    }

    /// What the block starts with, and the bits after its fields.
    pub open spec fn spec_block_info(&self) -> BlockInfo {
        match self {
            ExtMetadataBlock::Level1(b) => b.block_info,
            ExtMetadataBlock::Level2(b) => b.block_info,
            ExtMetadataBlock::Level3(b) => b.block_info,
            ExtMetadataBlock::Level4(b) => b.block_info,
            ExtMetadataBlock::Level5(b) => b.block_info,
            ExtMetadataBlock::Level6(b) => b.block_info,
            ExtMetadataBlock::Level8(b) => b.block_info,
            ExtMetadataBlock::Level9(b) => b.block_info,
            ExtMetadataBlock::Reserved(b) => b.block_info,
        }
    }

    /// What the block starts with, and the bits after its fields.
    pub fn block_info(&self) -> (info: &BlockInfo)
        ensures
            *info == self.spec_block_info(),
    {
        match self {
            ExtMetadataBlock::Level1(b) => &b.block_info,
            ExtMetadataBlock::Level2(b) => &b.block_info,
            ExtMetadataBlock::Level3(b) => &b.block_info,
            ExtMetadataBlock::Level4(b) => &b.block_info,
            ExtMetadataBlock::Level5(b) => &b.block_info,
            ExtMetadataBlock::Level6(b) => &b.block_info,
            ExtMetadataBlock::Level8(b) => &b.block_info,
            ExtMetadataBlock::Level9(b) => &b.block_info,
            ExtMetadataBlock::Reserved(b) => &b.block_info,
        }
    }

    /// The unsigned codes of the fields, in wire order.
    pub open spec fn spec_codes(&self) -> Seq<u64> {
        match self {
            ExtMetadataBlock::Level1(b) => b.spec_codes(),
            ExtMetadataBlock::Level2(b) => b.spec_codes(),
            ExtMetadataBlock::Level3(b) => b.spec_codes(),
            ExtMetadataBlock::Level4(b) => b.spec_codes(),
            ExtMetadataBlock::Level5(b) => b.spec_codes(),
            ExtMetadataBlock::Level6(b) => b.spec_codes(),
            ExtMetadataBlock::Level8(b) => b.spec_codes(),
            ExtMetadataBlock::Level9(b) => b.spec_codes(),
            ExtMetadataBlock::Reserved(_) => seq![],
        }
    }

    /// The unsigned codes of the fields, in wire order.
    pub fn codes(&self) -> (codes: Vec<u64>)
        ensures
            codes@ == self.spec_codes(),
            codes@.len() == self.spec_kind().layout().len(),
    {
        match self {
            ExtMetadataBlock::Level1(b) => vec![b.min_pq as u64, b.max_pq as u64, b.avg_pq as u64],
            ExtMetadataBlock::Level2(b) => vec![
                b.target_max_pq as u64,
                b.trim_slope as u64,
                b.trim_offset as u64,
                b.trim_power as u64,
                b.trim_chroma_weight as u64,
                b.trim_saturation_gain as u64,
                i13_code(b.ms_weight),
            ],
            ExtMetadataBlock::Level3(b) => vec![
                b.min_pq_offset as u64,
                b.max_pq_offset as u64,
                b.avg_pq_offset as u64,
            ],
            ExtMetadataBlock::Level4(b) => vec![b.anchor_pq as u64, b.anchor_power as u64],
            ExtMetadataBlock::Level5(b) => vec![
                b.active_area_left_offset as u64,
                b.active_area_right_offset as u64,
                b.active_area_top_offset as u64,
                b.active_area_bottom_offset as u64,
            ],
            ExtMetadataBlock::Level6(b) => vec![
                b.max_display_mastering_luminance as u64,
                b.min_display_mastering_luminance as u64,
                b.max_content_light_level as u64,
                b.max_frame_average_light_level as u64,
            ],
            ExtMetadataBlock::Level8(b) => vec![
                b.target_display_index as u64,
                b.trim_slope as u64,
                b.trim_offset as u64,
                b.trim_power as u64,
                b.trim_chroma_weight as u64,
                b.trim_saturation_gain as u64,
                b.ms_weight as u64,
            ],
            ExtMetadataBlock::Level9(b) => vec![b.source_primary_index as u64],
            ExtMetadataBlock::Reserved(_) => vec![],
        }
    }

    /// The block of `kind` that starts with `block_info` and whose fields have the given codes.
    pub(crate) fn from_codes(kind: BlockKind, block_info: BlockInfo, codes: &Vec<u64>) -> (block:
        ExtMetadataBlock)
        requires
            fields_fit(codes@, kind.layout()),
        ensures
            block@ == (BlockView {
                kind,
                length: block_info.ext_block_length,
                level: block_info.ext_block_level,
                fields: codes@,
                remaining: block_info.remaining@,
            }),
    {
        proof {
            lemma2_to64();
            let layout = kind.layout();
            assert forall|i: int| 0 <= i < codes@.len() implies codes@[i] < 65536 && (
            layout[i] == FieldKind::Bits(8) ==> codes@[i] < 256) && (layout[i] == FieldKind::Bits(13)
                ==> codes@[i] < 8192) by {
                assert(crate::fields::field_fits(codes@[i], layout[i]));
            }
        }
        let block = match kind {
            BlockKind::Level1 => ExtMetadataBlock::Level1(
                ExtMetadataBlockLevel1 {
                    block_info,
                    min_pq: codes[0] as u16,
                    max_pq: codes[1] as u16,
                    avg_pq: codes[2] as u16,
                },
            ),
            BlockKind::Level2 => {
                proof {
                    lemma_i13_code_value(0, codes@[6]);
                }
                ExtMetadataBlock::Level2(
                    ExtMetadataBlockLevel2 {
                        block_info,
                        target_max_pq: codes[0] as u16,
                        trim_slope: codes[1] as u16,
                        trim_offset: codes[2] as u16,
                        trim_power: codes[3] as u16,
                        trim_chroma_weight: codes[4] as u16,
                        trim_saturation_gain: codes[5] as u16,
                        ms_weight: i13_value(codes[6]),
                    },
                )
            },
            BlockKind::Level3 => ExtMetadataBlock::Level3(
                ExtMetadataBlockLevel3 {
                    block_info,
                    min_pq_offset: codes[0] as u16,
                    max_pq_offset: codes[1] as u16,
                    avg_pq_offset: codes[2] as u16,
                },
            ),
            BlockKind::Level4 => ExtMetadataBlock::Level4(
                ExtMetadataBlockLevel4 {
                    block_info,
                    anchor_pq: codes[0] as u16,
                    anchor_power: codes[1] as u16,
                },
            ),
            BlockKind::Level5 => ExtMetadataBlock::Level5(
                ExtMetadataBlockLevel5 {
                    block_info,
                    active_area_left_offset: codes[0] as u16,
                    active_area_right_offset: codes[1] as u16,
                    active_area_top_offset: codes[2] as u16,
                    active_area_bottom_offset: codes[3] as u16,
                },
            ),
            BlockKind::Level6 => ExtMetadataBlock::Level6(
                ExtMetadataBlockLevel6 {
                    block_info,
                    max_display_mastering_luminance: codes[0] as u16,
                    min_display_mastering_luminance: codes[1] as u16,
                    max_content_light_level: codes[2] as u16,
                    max_frame_average_light_level: codes[3] as u16,
                },
            ),
            BlockKind::Level8 => ExtMetadataBlock::Level8(
                ExtMetadataBlockLevel8 {
                    block_info,
                    target_display_index: codes[0] as u8,
                    trim_slope: codes[1] as u16,
                    trim_offset: codes[2] as u16,
                    trim_power: codes[3] as u16,
                    trim_chroma_weight: codes[4] as u16,
                    trim_saturation_gain: codes[5] as u16,
                    ms_weight: codes[6] as u16,
                },
            ),
            BlockKind::Level9 => ExtMetadataBlock::Level9(
                ExtMetadataBlockLevel9 { block_info, source_primary_index: codes[0] as u8 },
            ),
            BlockKind::Reserved => ExtMetadataBlock::Reserved(ReservedExtMetadataBlock { block_info }),
        };
        assert(block@.fields =~= codes@);
        block
    }

    /// The level that the block announces.
    pub fn level(&self) -> (level: u8)
        ensures
            level == self@.level,
    {
        self.block_info().ext_block_level
    }
}

impl View for ExtMetadataBlock {
    type V = BlockView;

    open spec fn view(&self) -> BlockView {
        BlockView {
            kind: self.spec_kind(),
            length: self.spec_block_info().ext_block_length,
            level: self.spec_block_info().ext_block_level,
            fields: self.spec_codes(),
            remaining: self.spec_block_info().remaining@,
        }
    }
}


impl ExtMetadataBlock {
    /// A copy of the block.
    pub fn duplicate(&self) -> (copy: ExtMetadataBlock)
        ensures
            copy@ == self@,
    {
        let copy = match self {
            ExtMetadataBlock::Level1(b) => ExtMetadataBlock::Level1(
                ExtMetadataBlockLevel1 {
                    block_info: b.block_info.duplicate(),
                    min_pq: b.min_pq,
                    max_pq: b.max_pq,
                    avg_pq: b.avg_pq,
                },
            ),
            ExtMetadataBlock::Level2(b) => ExtMetadataBlock::Level2(
                ExtMetadataBlockLevel2 {
                    block_info: b.block_info.duplicate(),
                    target_max_pq: b.target_max_pq,
                    trim_slope: b.trim_slope,
                    trim_offset: b.trim_offset,
                    trim_power: b.trim_power,
                    trim_chroma_weight: b.trim_chroma_weight,
                    trim_saturation_gain: b.trim_saturation_gain,
                    ms_weight: b.ms_weight,
                },
            ),
            ExtMetadataBlock::Level3(b) => ExtMetadataBlock::Level3(
                ExtMetadataBlockLevel3 {
                    block_info: b.block_info.duplicate(),
                    min_pq_offset: b.min_pq_offset,
                    max_pq_offset: b.max_pq_offset,
                    avg_pq_offset: b.avg_pq_offset,
                },
            ),
            ExtMetadataBlock::Level4(b) => ExtMetadataBlock::Level4(
                ExtMetadataBlockLevel4 {
                    block_info: b.block_info.duplicate(),
                    anchor_pq: b.anchor_pq,
                    anchor_power: b.anchor_power,
                },
            ),
            ExtMetadataBlock::Level5(b) => ExtMetadataBlock::Level5(
                ExtMetadataBlockLevel5 {
                    block_info: b.block_info.duplicate(),
                    active_area_left_offset: b.active_area_left_offset,
                    active_area_right_offset: b.active_area_right_offset,
                    active_area_top_offset: b.active_area_top_offset,
                    active_area_bottom_offset: b.active_area_bottom_offset,
                },
            ),
            ExtMetadataBlock::Level6(b) => ExtMetadataBlock::Level6(
                ExtMetadataBlockLevel6 {
                    block_info: b.block_info.duplicate(),
                    max_display_mastering_luminance: b.max_display_mastering_luminance,
                    min_display_mastering_luminance: b.min_display_mastering_luminance,
                    max_content_light_level: b.max_content_light_level,
                    max_frame_average_light_level: b.max_frame_average_light_level,
                },
            ),
            ExtMetadataBlock::Level8(b) => ExtMetadataBlock::Level8(
                ExtMetadataBlockLevel8 {
                    block_info: b.block_info.duplicate(),
                    target_display_index: b.target_display_index,
                    trim_slope: b.trim_slope,
                    trim_offset: b.trim_offset,
                    trim_power: b.trim_power,
                    trim_chroma_weight: b.trim_chroma_weight,
                    trim_saturation_gain: b.trim_saturation_gain,
                    ms_weight: b.ms_weight,
                },
            ),
            ExtMetadataBlock::Level9(b) => ExtMetadataBlock::Level9(
                ExtMetadataBlockLevel9 {
                    block_info: b.block_info.duplicate(),
                    source_primary_index: b.source_primary_index,
                },
            ),
            ExtMetadataBlock::Reserved(b) => ExtMetadataBlock::Reserved(
                ReservedExtMetadataBlock { block_info: b.block_info.duplicate() },
            ),
        };
        assert(copy@.fields =~= self@.fields);
        copy
    }
}

} // verus!
