//! Generating the RPUs of a sequence, one for each frame of each shot.

use vstd::prelude::*;
use crate::block_order::{block_views, sort_blocks, sorted_blocks};
use crate::blocks::{BlockView, ExtMetadataBlock};
use crate::generate::{
    frame_edit_views, shot_views, GenerateConfig, ShotFrameEdit, ShotFrameEditView, VideoShot,
    VideoShotView,
};
use crate::rpu::{spec_encoded, DoviRpu, DoviRpuView};
use crate::rpu_header::{RpuDataHeader, RpuDataHeaderView};
use crate::rpu_mapping::{identity_mapping, RpuDataMapping};
use crate::vdr_dm_data::{generated_blocks, generated_data, is_generated, VdrDmData, VdrDmDataView};

verus! {

/// Whether one of `blocks` announces `level`.
pub open spec fn has_level(blocks: Seq<BlockView>, level: u8) -> bool {
    exists|i: int| 0 <= i < blocks.len() && (#[trigger] blocks[i]).level == level
}

/// Those of the first `upto` of `base` whose level none of `over` announces.
pub open spec fn kept_blocks(base: Seq<BlockView>, over: Seq<BlockView>, upto: int) -> Seq<BlockView>
    decreases upto,
{
    if upto <= 0 || upto > base.len() {
        Seq::empty()
    } else if has_level(over, base[upto - 1].level) {
        kept_blocks(base, over, upto - 1)
    } else {
        kept_blocks(base, over, upto - 1).push(base[upto - 1])
    }
}

/// `base` with `over` in place of its blocks of the same levels: the
/// blocks of `base` whose level none of `over` announces, then `over`.
pub open spec fn override_blocks(base: Seq<BlockView>, over: Seq<BlockView>) -> Seq<BlockView> {
    kept_blocks(base, over, base.len() as int) + over
}

/// The blocks of the first of `edits` from `from` on that is for `frame`;
/// none where there is no such edit.
pub open spec fn edit_blocks(edits: Seq<ShotFrameEditView>, frame: usize, from: int) -> Seq<BlockView>
    decreases edits.len() - from,
{
    if from < 0 || from >= edits.len() {
        Seq::empty()
    } else if edits[from].edit_offset == frame {
        edits[from].blocks
    } else {
        edit_blocks(edits, frame, from + 1)
    }
}

/// The blocks of the frame `frame` of `shot`: those that `config` asks
/// for in every frame, with the blocks of the shot in place of those of
/// the same levels, and the blocks of the edit of the frame, if it has one,
/// in place of those of the same levels; in order.
pub open spec fn frame_blocks(
    config: GenerateConfig,
    target_max_pq: u16,
    shot: VideoShotView,
    frame: usize,
) -> Seq<BlockView> {
    sorted_blocks(
        override_blocks(
            override_blocks(generated_blocks(config, target_max_pq), shot.blocks),
            edit_blocks(shot.frame_edits, frame, 0),
        ),
    )
}

/// The scene refresh flag of the frame `frame` of a shot: set in the first.
pub open spec fn scene_refresh_flag(frame: usize) -> u64 {
    if frame == 0 {
        1
    } else {
        0
    }
}

/// The display management data of the frame `frame` of `shot`.
pub open spec fn frame_data(config: GenerateConfig, target_max_pq: u16, shot: VideoShotView, frame: usize) -> VdrDmDataView {
    VdrDmDataView {
        header: generated_data(
            config,
            scene_refresh_flag(frame),
            frame_blocks(config, target_max_pq, shot, frame).len() as u64,
        ).spec_header_codes(),
        blocks: frame_blocks(config, target_max_pq, shot, frame),
    }
}

/// The header of a generated RPU: profile 8.1, a base layer of 10 bits, no
/// enhancement layer, display management data, and for each component the
/// two pivots 0 and 1023.
pub open spec fn generated_header() -> RpuDataHeaderView {
    RpuDataHeaderView {
        rpu_nal_prefix: 25,
        rpu_type: 2,
        rpu_format: 18,
        vdr_rpu_profile: 1,
        vdr_rpu_level: 0,
        vdr_seq_info_present_flag: true,
        chroma_resampling_explicit_filter_flag: false,
        coefficient_data_type: 0,
        coefficient_log2_denom: 23,
        vdr_rpu_normalized_idc: 1,
        bl_video_full_range_flag: false,
        bl_bit_depth_minus8: 2,
        el_bit_depth_minus8: 2,
        vdr_bit_depth_minus_8: 4,
        spatial_resampling_filter_flag: false,
        reserved_zero_3bits: 0,
        el_spatial_resampling_filter_flag: false,
        disable_residual_flag: true,
        vdr_dm_metadata_present_flag: true,
        use_prev_vdr_rpu_flag: false,
        prev_vdr_rpu_id: 0,
        vdr_rpu_id: 0,
        mapping_color_space: 0,
        mapping_chroma_format_idc: 0,
        num_pivots_minus_2: [0, 0, 0],
        nlq_method_idc: 0,
        nlq_num_pivots_minus2: 0,
        num_x_partitions_minus1: 0,
        num_y_partitions_minus1: 0,
        pred_pivot_value: seq![seq![0u64, 1023], seq![0u64, 1023], seq![0u64, 1023]],
    }
}

/// The generated RPU that carries `data`: of profile 8.1, with the mapping
/// that maps every value to itself, marked as changed so that its checksum
/// is computed when it is written.
pub open spec fn generated_rpu(data: VdrDmDataView) -> DoviRpuView {
    DoviRpuView {
        dovi_profile: 8,
        header: generated_header(),
        mapping: Some(identity_mapping()),
        nlq: None,
        vdr_dm_data: Some(data),
        trailing_zero_bits: 0,
        crc32: 0,
        modified: true,
    }
}

/// The RPUs of the first `frames` frames of `shot`, as bytes.
pub open spec fn shot_payloads(config: GenerateConfig, target_max_pq: u16, shot: VideoShotView, frames: nat) -> Seq<
    Seq<u8>,
>
    decreases frames,
{
    if frames == 0 {
        Seq::empty()
    } else {
        shot_payloads(config, target_max_pq, shot, (frames - 1) as nat).push(
            spec_encoded(
                generated_rpu(frame_data(config, target_max_pq, shot, (frames - 1) as usize)),
            ),
        )
    }
}

/// The RPUs of all the frames of `shots`, shot after shot, as bytes.
pub open spec fn payloads(config: GenerateConfig, target_max_pq: u16, shots: Seq<VideoShotView>) -> Seq<
    Seq<u8>,
>
    decreases shots.len(),
{
    if shots.len() == 0 {
        Seq::empty()
    } else {
        payloads(config, target_max_pq, shots.drop_last()) + shot_payloads(
            config,
            target_max_pq,
            shots.last(),
            shots.last().duration as nat,
        )
    }
}

/// The views of `lists`.
pub open spec fn byte_views(lists: Seq<Vec<u8>>) -> Seq<Seq<u8>> {
    lists.map_values(|v: Vec<u8>| v@)
}

/// Whether one of `blocks` announces `level`.
pub fn announces(blocks: &Vec<ExtMetadataBlock>, level: u8) -> (r: bool)
    ensures
        r == has_level(block_views(blocks@), level),
{
    let mut i: usize = 0;
    while i < blocks.len()
        invariant
            i <= blocks.len(),
            forall|k: int| 0 <= k < i ==> (#[trigger] block_views(blocks@)[k]).level != level,
        decreases blocks.len() - i,
    {
        if blocks[i].level() == level {
            assert(block_views(blocks@)[i as int].level == level);
            return true;
        }
        i += 1;
    }
    false
}

/// Copies of `base` with copies of `over` in place of its blocks of the same levels.
pub fn merge_blocks(base: &Vec<ExtMetadataBlock>, over: &Vec<ExtMetadataBlock>) -> (merged: Vec<
    ExtMetadataBlock,
>)
    ensures
        block_views(merged@) == override_blocks(block_views(base@), block_views(over@)),
{
    let mut merged: Vec<ExtMetadataBlock> = Vec::new();
    let ghost b = block_views(base@);
    let ghost o = block_views(over@);
    let mut i: usize = 0;
    assert(block_views(merged@) =~= kept_blocks(b, o, 0));
    while i < base.len()
        invariant
            i <= base.len(),
            b == block_views(base@),
            o == block_views(over@),
            block_views(merged@) == kept_blocks(b, o, i as int),
        decreases base.len() - i,
    {
        let ghost before = block_views(merged@);
        if !announces(over, base[i].level()) {
            merged.push(base[i].duplicate());
            assert(block_views(merged@) =~= before.push(b[i as int]));
        }
        i += 1;
    }
    let ghost kept = block_views(merged@);
    let mut j: usize = 0;
    assert(kept + o.take(0) =~= kept);
    while j < over.len()
        invariant
            j <= over.len(),
            o == block_views(over@),
            block_views(merged@) == kept + o.take(j as int),
        decreases over.len() - j,
    {
        let ghost before = block_views(merged@);
        merged.push(over[j].duplicate());
        assert(block_views(merged@) =~= before.push(o[j as int]));
        j += 1;
        assert(block_views(merged@) =~= kept + o.take(j as int));
    }
    assert(o.take(j as int) =~= o);
    merged
}

/// The first of `edits` that is for `frame`.
pub fn find_edit(edits: &Vec<ShotFrameEdit>, frame: usize) -> (r: Option<usize>)
    ensures
        match r {
            Some(at) => at < edits@.len() && edit_blocks(frame_edit_views(edits@), frame, 0)
                == block_views(edits@[at as int].metadata_blocks@),
            None => edit_blocks(frame_edit_views(edits@), frame, 0) == Seq::<BlockView>::empty(),
        },
{
    let mut i: usize = 0;
    while i < edits.len()
        invariant
            i <= edits.len(),
            edit_blocks(frame_edit_views(edits@), frame, 0) == edit_blocks(
                frame_edit_views(edits@),
                frame,
                i as int,
            ),
        decreases edits.len() - i,
    {
        if edits[i].edit_offset == frame {
            return Some(i);
        }
        i += 1;
    }
    None
}

impl VdrDmData {
    /// The display management data of the frame `frame` of `shot`, for a
    /// target display whose peak is `target_max_pq` as a PQ code.
    pub fn for_frame(config: &GenerateConfig, target_max_pq: u16, shot: &VideoShot, frame: usize) -> (data:
        VdrDmData)
        ensures
            data@ == frame_data(*config, target_max_pq, shot@, frame),
            data.spec_validate() is Ok,
    {
        let mut data = VdrDmData::from_config(config, target_max_pq);
        let with_shot = merge_blocks(&data.ext_metadata_blocks, &shot.metadata_blocks);
        let mut blocks = match find_edit(&shot.frame_edits, frame) {
            Some(at) => merge_blocks(&with_shot, &shot.frame_edits[at].metadata_blocks),
            None => {
                let none: Vec<ExtMetadataBlock> = Vec::new();
                assert(block_views(none@) =~= Seq::<BlockView>::empty());
                merge_blocks(&with_shot, &none)
            },
        };
        sort_blocks(&mut blocks);
        data.scene_refresh_flag = if frame == 0 {
            1
        } else {
            0
        };
        data.num_ext_blocks = blocks.len() as u64;
        data.ext_metadata_blocks = blocks;
        assert(is_generated(data, *config, scene_refresh_flag(frame), data.num_ext_blocks));
        assert(data.spec_header_codes() == generated_data(
            *config,
            scene_refresh_flag(frame),
            data.num_ext_blocks,
        ).spec_header_codes());
        data
    }
}

impl RpuDataHeader {
    /// The header of a generated RPU.
    pub fn generated() -> (header: RpuDataHeader)
        ensures
            header@ == generated_header(),
            header@.wf(),
    {
        let mut header = RpuDataHeader::empty();
        header.rpu_nal_prefix = 25;
        header.rpu_type = 2;
        header.rpu_format = 18;
        header.vdr_rpu_profile = 1;
        header.vdr_seq_info_present_flag = true;
        header.coefficient_log2_denom = 23;
        header.vdr_rpu_normalized_idc = 1;
        header.bl_bit_depth_minus8 = 2;
        header.el_bit_depth_minus8 = 2;
        header.vdr_bit_depth_minus_8 = 4;
        header.disable_residual_flag = true;
        header.vdr_dm_metadata_present_flag = true;
        let mut lists: Vec<Vec<u64>> = Vec::new();
        let mut i: usize = 0;
        while i < 3
            invariant
                i <= 3,
                lists@.len() == i,
                forall|k: int| 0 <= k < i ==> (#[trigger] lists@[k])@ == seq![0u64, 1023],
            decreases 3 - i,
        {
            let mut pivots: Vec<u64> = Vec::new();
            pivots.push(0);
            pivots.push(1023);
            assert(pivots@ =~= seq![0u64, 1023]);
            lists.push(pivots);
            i += 1;
        }
        header.pred_pivot_value = lists;
        assert(header@.pred_pivot_value =~= generated_header().pred_pivot_value);
        header
    }
}

impl DoviRpu {
    /// The generated RPU that carries `data`.
    pub fn generated(data: VdrDmData) -> (rpu: DoviRpu)
        ensures
            rpu@ == generated_rpu(data@),
            rpu.vdr_dm_data == Some(data),
            rpu.wf(),
    {
        DoviRpu {
            dovi_profile: 8,
            header: RpuDataHeader::generated(),
            mapping: Some(RpuDataMapping::identity()),
            nlq: None,
            vdr_dm_data: Some(data),
            trailing_zero_bits: 0,
            crc32: 0,
            modified: true,
        }
    }
}

impl GenerateConfig {
    /// The RPUs of the sequence as bytes: one for each frame of each shot,
    /// shot after shot, for a target display whose peak is `target_max_pq`
    /// as a PQ code. The RPU of the first frame of a shot has the scene
    /// refresh flag set.
    pub fn generate_rpu_bytes(&self, target_max_pq: u16) -> (r: Vec<Vec<u8>>)
        ensures
            byte_views(r@) == payloads(*self, target_max_pq, shot_views(self.shots@)),
    {
        let mut out: Vec<Vec<u8>> = Vec::new();
        let ghost shots = shot_views(self.shots@);
        let mut s: usize = 0;
        assert(byte_views(out@) =~= payloads(*self, target_max_pq, shots.take(0)));
        while s < self.shots.len()
            invariant
                s <= self.shots.len(),
                shots == shot_views(self.shots@),
                byte_views(out@) == payloads(*self, target_max_pq, shots.take(s as int)),
            decreases self.shots.len() - s,
        {
            let shot = &self.shots[s];
            let ghost done = byte_views(out@);
            let mut frame: usize = 0;
            assert(done + shot_payloads(*self, target_max_pq, shot@, 0) =~= done);
            while frame < shot.duration
                invariant
                    frame <= shot.duration,
                    byte_views(out@) == done + shot_payloads(
                        *self,
                        target_max_pq,
                        shot@,
                        frame as nat,
                    ),
                decreases shot.duration - frame,
            {
                let data = VdrDmData::for_frame(self, target_max_pq, shot, frame);
                let rpu = DoviRpu::generated(data);
                let ghost before = byte_views(out@);
                match rpu.write_rpu() {
                    Ok(bytes) => {
                        out.push(bytes);
                        assert(byte_views(out@) =~= before.push(bytes@));
                    },
                    Err(_) => {
                        assert(false);
                    },
                }
                frame += 1;
                assert(byte_views(out@) =~= done + shot_payloads(
                    *self,
                    target_max_pq,
                    shot@,
                    frame as nat,
                ));
            }
            proof {
                assert(shots.take(s + 1).drop_last() =~= shots.take(s as int));
                assert(shots.take(s + 1).last() == shot@);
            }
            s += 1;
        }
        assert(shots.take(s as int) =~= shots);
        out
    }
}

} // verus!
