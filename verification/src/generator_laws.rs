//! What is read back from the RPUs that are generated.

use vstd::prelude::*;
use vstd::arithmetic::power2::lemma2_to64;
use crate::bits::MAX_UE;
use crate::block_order::{block_le, sorted_blocks, lemma_block_le_total_preorder};
use crate::blocks::BlockView;
use crate::error::RpuError;
use crate::fields::{field_fits, fields_fit, lemma_field_fits};
use crate::generate::{GenerateConfig, ShotFrameEditView, VideoShotView};
use crate::generator::{edit_blocks, frame_blocks, frame_data, generated_header, generated_rpu,
    kept_blocks, override_blocks, scene_refresh_flag};
use crate::rpu::{spec_encoded, spec_parse_rpu, RpuPartsView};
use crate::rpu_header::RpuDataHeaderView;
use crate::rpu_laws::{read_back, lemma_parse_rpu_of_encoded};
use crate::rpu_mapping::curve_count;
use crate::stable_sort::lemma_stable_sort_properties;
use crate::vdr_dm_data::{
    config_level5_view, generated_blocks, generated_data, generated_source_levels, header_layout,
    level2_view, level6_view,
};

verus! {

/// Whether each of `blocks` is well formed and fits its places.
pub open spec fn blocks_readable(blocks: Seq<BlockView>) -> bool {
    forall|i: int| 0 <= i < blocks.len() ==> (#[trigger] blocks[i]).wf() && blocks[i].fits()
}

/// Whether `shot` has only blocks that are well formed and fit their
/// places, of its own and in its frame edits.
pub open spec fn shot_readable(shot: VideoShotView) -> bool {
    &&& blocks_readable(shot.blocks)
    &&& forall|i: int|
        0 <= i < shot.frame_edits.len() ==> blocks_readable((#[trigger] shot.frame_edits[i]).blocks)
}

/// Whether what `config` asks for in every frame fits its places: the
/// source levels 12 bits, the offsets of the active area 13 bits; and the
/// peak of the target display, as a PQ code, 12 bits.
pub open spec fn config_readable(config: GenerateConfig, target_max_pq: u16) -> bool {
    &&& target_max_pq < 4096
    &&& generated_source_levels(config).0 < 4096
    &&& generated_source_levels(config).1 < 4096
    &&& config.level5 matches Some(l5) ==> l5.active_area_left_offset < 8192
        && l5.active_area_right_offset < 8192 && l5.active_area_top_offset < 8192
        && l5.active_area_bottom_offset < 8192
}

/// The blocks that a readable configuration asks for in every frame are readable.
pub proof fn lemma_generated_blocks_readable(config: GenerateConfig, target_max_pq: u16)
    requires
        config_readable(config, target_max_pq),
    ensures
        blocks_readable(generated_blocks(config, target_max_pq)),
{
    lemma2_to64();
    crate::bits::lemma_ue_prefix_len_small(11);
    crate::bits::lemma_ue_prefix_len_small(7);
    crate::bits::lemma_ue_prefix_len_small(8);
    let blocks = generated_blocks(config, target_max_pq);
    let l2 = level2_view(target_max_pq);
    let l5 = config_level5_view(config);
    assert(l2.wf() && l2.fits()) by {
        assert forall|i: int| 0 <= i < l2.fields.len() implies field_fits(
            #[trigger] l2.fields[i],
            l2.kind.layout()[i],
        ) by {}
    }
    assert(l5.wf() && l5.fits()) by {
        assert forall|i: int| 0 <= i < l5.fields.len() implies field_fits(
            #[trigger] l5.fields[i],
            l5.kind.layout()[i],
        ) by {}
    }
    if config.level6 is Some {
        let l6 = level6_view(config.level6->Some_0);
        assert(l6.wf() && l6.fits()) by {
            assert forall|i: int| 0 <= i < l6.fields.len() implies field_fits(
                #[trigger] l6.fields[i],
                l6.kind.layout()[i],
            ) by {}
        }
    }
    assert forall|i: int| 0 <= i < blocks.len() implies (#[trigger] blocks[i]).wf()
        && blocks[i].fits() by {
        if i == 0 {
            assert(blocks[0] == l2);
        } else if i == 1 {
            assert(blocks[1] == l5);
        }
    }
}

/// Those of readable blocks that are kept are readable.
pub proof fn lemma_kept_blocks_readable(base: Seq<BlockView>, over: Seq<BlockView>, upto: int)
    requires
        blocks_readable(base),
    ensures
        blocks_readable(kept_blocks(base, over, upto)),
    decreases upto,
{
    if !(upto <= 0 || upto > base.len()) {
        lemma_kept_blocks_readable(base, over, upto - 1);
        let front = kept_blocks(base, over, upto - 1);
        let all = kept_blocks(base, over, upto);
        assert forall|i: int| 0 <= i < all.len() implies (#[trigger] all[i]).wf()
            && all[i].fits() by {
            if i < front.len() {
                assert(all[i] == front[i]);
            } else {
                assert(all[i] == base[upto - 1]);
            }
        }
    }
}

/// Readable blocks with readable blocks in place of some of them are readable.
pub proof fn lemma_override_blocks_readable(base: Seq<BlockView>, over: Seq<BlockView>)
    requires
        blocks_readable(base),
        blocks_readable(over),
    ensures
        blocks_readable(override_blocks(base, over)),
{
    lemma_kept_blocks_readable(base, over, base.len() as int);
    let kept = kept_blocks(base, over, base.len() as int);
    let all = override_blocks(base, over);
    assert forall|i: int| 0 <= i < all.len() implies (#[trigger] all[i]).wf() && all[i].fits() by {
        if i < kept.len() {
            assert(all[i] == kept[i]);
        } else {
            assert(all[i] == over[i - kept.len()]);
        }
    }
}

/// The blocks of the edit of a frame of a readable shot are readable.
pub proof fn lemma_edit_blocks_readable(edits: Seq<ShotFrameEditView>, frame: usize, from: int)
    requires
        0 <= from,
        forall|i: int| 0 <= i < edits.len() ==> blocks_readable((#[trigger] edits[i]).blocks),
    ensures
        blocks_readable(edit_blocks(edits, frame, from)),
    decreases edits.len() - from,
{
    if from < edits.len() && edits[from].edit_offset != frame {
        lemma_edit_blocks_readable(edits, frame, from + 1);
    }
}

/// Readable blocks stay readable when they are put in order.
pub proof fn lemma_sorted_blocks_readable(blocks: Seq<BlockView>)
    requires
        blocks_readable(blocks),
    ensures
        blocks_readable(sorted_blocks(blocks)),
        sorted_blocks(blocks).len() == blocks.len(),
{
    broadcast use vstd::seq_lib::group_to_multiset_ensures;

    lemma_block_le_total_preorder();
    lemma_stable_sort_properties(blocks, block_le());
    let sorted = sorted_blocks(blocks);
    assert forall|i: int| 0 <= i < sorted.len() implies (#[trigger] sorted[i]).wf()
        && sorted[i].fits() by {
        assert(sorted.to_multiset().contains(sorted[i]));
        assert(blocks.to_multiset().contains(sorted[i]));
        let k = choose|k: int| 0 <= k < blocks.len() && blocks[k] == sorted[i];
        assert(blocks[k].wf());
    }
}

/// The blocks of a frame of a readable shot of a readable configuration are readable.
pub proof fn lemma_frame_blocks_readable(
    config: GenerateConfig,
    target_max_pq: u16,
    shot: VideoShotView,
    frame: usize,
)
    requires
        config_readable(config, target_max_pq),
        shot_readable(shot),
    ensures
        blocks_readable(frame_blocks(config, target_max_pq, shot, frame)),
{
    let base = generated_blocks(config, target_max_pq);
    lemma_generated_blocks_readable(config, target_max_pq);
    lemma_override_blocks_readable(base, shot.blocks);
    lemma_edit_blocks_readable(shot.frame_edits, frame, 0);
    let edit = edit_blocks(shot.frame_edits, frame, 0);
    lemma_override_blocks_readable(override_blocks(base, shot.blocks), edit);
    lemma_sorted_blocks_readable(override_blocks(override_blocks(base, shot.blocks), edit));
}

/// The header fields of a generated payload fit their places, where the
/// source levels fit theirs and the number of blocks an Exp-Golomb code.
pub proof fn lemma_generated_data_fits(config: GenerateConfig, flag: u64, count: u64)
    requires
        flag <= 1,
        count <= MAX_UE,
        generated_source_levels(config).0 < 4096,
        generated_source_levels(config).1 < 4096,
    ensures
        fields_fit(generated_data(config, flag, count).spec_header_codes(), header_layout()),
        generated_data(config, flag, count).spec_header_codes().len() == 36,
        generated_data(config, flag, count).spec_header_codes()[35] == count,
        generated_data(config, flag, count).spec_header_codes()[2] == flag,
{
    let data = generated_data(config, flag, count);
    let codes = data.spec_header_codes();
    let layout = header_layout();
    lemma2_to64();
    assert forall|i: int| 0 <= i < 36 implies field_fits(#[trigger] codes[i], layout[i]) by {
        lemma_field_fits(codes[i], layout[i]);
        if 3 <= i < 24 {
            crate::rpu_edit_laws::lemma_p81_code_bounds(data, i);
            assert(data.spec_p5_to_p81() == data);
        }
    }
}

/// The header of a generated RPU is as a reader gives it, and stands for profile 8.
pub proof fn lemma_generated_header_canonical()
    ensures
        generated_header().canonical(),
        generated_header().dovi_profile() == 8,
        generated_header().coefficient_data_type == 0,
        !generated_header().has_nlq(),
        generated_header().vdr_dm_metadata_present_flag,
        !generated_header().use_prev_vdr_rpu_flag,
        forall|c: int| 0 <= c < 3 ==> curve_count(generated_header(), c) == 1,
{
    reveal(RpuDataHeaderView::canonical);
    lemma2_to64();
    let header = generated_header();
    assert(header.pivot_bits() == 10);
    assert(header.pivots_canonical(0));
    assert(header.pivots_canonical(1));
    assert(header.pivots_canonical(2));
}

/// Generating, then reading. The RPU that is generated for a frame of a
/// readable shot of a readable configuration is read back from its bytes:
/// of profile 8, with the mapping that maps every value to itself, and
/// with the display management data of the frame, in which the scene
/// refresh flag is set in the first frame of the shot and in no other.
pub proof fn lemma_generated_rpu_is_read_back(
    config: GenerateConfig,
    target_max_pq: u16,
    shot: VideoShotView,
    frame: usize,
)
    requires
        config_readable(config, target_max_pq),
        shot_readable(shot),
        frame_blocks(config, target_max_pq, shot, frame).len() <= MAX_UE,
    ensures
        ({
            let data = frame_data(config, target_max_pq, shot, frame);
            let read = spec_parse_rpu(spec_encoded(generated_rpu(data)));
            &&& read == Ok::<_, RpuError>(read_back(generated_rpu(data)))
            &&& read->Ok_0.dovi_profile == 8
            &&& read->Ok_0.vdr_dm_data == Some(data.written())
            &&& data.written().header == data.header
            &&& data.header[2] == scene_refresh_flag(frame)
            &&& data.written().blocks.len() == data.blocks.len()
        }),
{
    reveal(RpuPartsView::canonical);
    let blocks = frame_blocks(config, target_max_pq, shot, frame);
    let data = frame_data(config, target_max_pq, shot, frame);
    let rpu = generated_rpu(data);
    lemma_frame_blocks_readable(config, target_max_pq, shot, frame);
    lemma_generated_data_fits(config, scene_refresh_flag(frame), blocks.len() as u64);
    lemma_generated_header_canonical();
    crate::rpu_edit_laws::lemma_identity_mapping_canonical(generated_header());
    assert(data.wf());
    assert(data.fits());
    assert(rpu.parts().canonical());
    lemma_parse_rpu_of_encoded(rpu);
}

} // verus!
