//! Changing an RPU that was read.

use vstd::prelude::*;
use vstd::arithmetic::power2::{pow2, lemma2_to64, lemma_pow2_unfold, lemma_pow2_strictly_increases};
use crate::block_order::{block_views, sorted_blocks};
use crate::blocks::{BlockKind, BlockView, ExtMetadataBlock, ExtMetadataBlockLevel5};
use crate::error::RpuError;
use crate::rpu::{DoviRpu, DoviRpuView};
use crate::rpu_header::{RpuDataHeader, RpuDataHeaderView};
use crate::rpu_mapping::{identity_mapping, RpuDataMapping};

use crate::vdr_dm_data::{level5_view, VdrDmData};

verus! {

/// The place of the first level 5 block among `blocks` from `from` on.
pub open spec fn spec_find_level5(blocks: Seq<BlockView>, from: int) -> Option<int>
    decreases blocks.len() - from,
{
    if from < 0 || from >= blocks.len() {
        None
    } else if blocks[from].kind == BlockKind::Level5 {
        Some(from)
    } else {
        spec_find_level5(blocks, from + 1)
    }
}

/// The place of the first level 5 block among `blocks`.
pub fn find_level5(blocks: &Vec<ExtMetadataBlock>) -> (r: Option<usize>)
    ensures
        match r {
            Some(i) => spec_find_level5(block_views(blocks@), 0) == Some(i as int) && i
                < blocks@.len() && blocks@[i as int] is Level5,
            None => spec_find_level5(block_views(blocks@), 0) is None,
        },
{
    let mut i: usize = 0;
    while i < blocks.len()
        invariant
            i <= blocks.len(),
            spec_find_level5(block_views(blocks@), 0) == spec_find_level5(
                block_views(blocks@),
                i as int,
            ),
        decreases blocks.len() - i,
    {
        if let ExtMetadataBlock::Level5(_) = &blocks[i] {
            return Some(i);
        }
        i += 1;
    }
    None
}

impl ExtMetadataBlockLevel5 {
    /// The first level 5 block of the display management data of `rpu`, to be changed.
    pub fn get_mut(rpu: &mut DoviRpu) -> (r: Option<&mut ExtMetadataBlockLevel5>)
        ensures
            match r {
                Some(block) => {
                    let data = old(rpu).vdr_dm_data->Some_0;
                    let at = spec_find_level5(data@.blocks, 0)->Some_0;
                    &&& old(rpu).vdr_dm_data is Some
                    &&& spec_find_level5(data@.blocks, 0) is Some
                    &&& ExtMetadataBlock::Level5(*block) == data.ext_metadata_blocks@[at]
                    &&& final(rpu).vdr_dm_data is Some
                    &&& final(rpu).vdr_dm_data->Some_0.ext_metadata_blocks@
                        == data.ext_metadata_blocks@.update(
                        at,
                        ExtMetadataBlock::Level5(*final(block)),
                    )
                    &&& *final(rpu) == (DoviRpu {
                        vdr_dm_data: Some(
                            VdrDmData {
                                ext_metadata_blocks: final(rpu).vdr_dm_data->Some_0.ext_metadata_blocks,
                                ..data
                            },
                        ),
                        ..*old(rpu)
                    })
                },
                None => {
                    &&& *final(rpu) == *old(rpu)
                    &&& old(rpu).vdr_dm_data is None || spec_find_level5(
                        old(rpu).vdr_dm_data->Some_0@.blocks,
                        0,
                    ) is None
                },
            },
    {
        match &mut rpu.vdr_dm_data {
            Some(dm) => match find_level5(&dm.ext_metadata_blocks) {
                Some(i) => match &mut dm.ext_metadata_blocks[i] {
                    ExtMetadataBlock::Level5(block) => Some(block),
                    _ => None,
                },
                None => None,
            },
            None => None,
        }
    }
}

/// `block` with the codes of its fields replaced by those of the given offsets.
pub open spec fn with_offsets(block: BlockView, left: u16, right: u16, top: u16, bottom: u16) -> BlockView {
    BlockView { fields: seq![left as u64, right as u64, top as u64, bottom as u64], ..block }
}

/// The blocks after the first level 5 block among them was given the
/// offsets; where there is none, a level 5 block with the offsets is
/// appended and the blocks are put in order.
pub open spec fn spec_crop_blocks(blocks: Seq<BlockView>, left: u16, right: u16, top: u16, bottom: u16) -> Seq<
    BlockView,
> {
    match spec_find_level5(blocks, 0) {
        Some(at) => blocks.update(at, with_offsets(blocks[at], left, right, top, bottom)),
        None => sorted_blocks(blocks.push(level5_view(left, right, top, bottom))),
    }
}

/// The place that `spec_find_level5` gives is the place of the first level 5 block.
pub proof fn lemma_find_level5(blocks: Seq<BlockView>, from: int)
    requires
        0 <= from,
    ensures
        match spec_find_level5(blocks, from) {
            Some(at) => from <= at < blocks.len() && blocks[at].kind == BlockKind::Level5
                && forall|k: int| from <= k < at ==> (#[trigger] blocks[k]).kind != BlockKind::Level5,
            None => forall|k: int|
                from <= k < blocks.len() ==> (#[trigger] blocks[k]).kind != BlockKind::Level5,
        },
    decreases blocks.len() - from,
{
    if from < blocks.len() && blocks[from].kind != BlockKind::Level5 {
        lemma_find_level5(blocks, from + 1);
    }
}

/// Where the first of the level 5 blocks stands, no other stands before
/// it, and `spec_find_level5` finds it.
pub proof fn lemma_find_level5_at(blocks: Seq<BlockView>, at: int)
    requires
        0 <= at < blocks.len(),
        blocks[at].kind == BlockKind::Level5,
        forall|k: int| 0 <= k < at ==> (#[trigger] blocks[k]).kind != BlockKind::Level5,
    ensures
        spec_find_level5(blocks, 0) == Some(at),
{
    lemma_find_level5(blocks, 0);
}

/// Cropping a second time changes nothing: giving the first level 5 block
/// the same offsets again leaves the blocks as they are.
pub proof fn lemma_crop_blocks_idempotent(blocks: Seq<BlockView>, left: u16, right: u16, top: u16, bottom: u16)
    ensures
        spec_crop_blocks(spec_crop_blocks(blocks, left, right, top, bottom), left, right, top, bottom)
            == spec_crop_blocks(blocks, left, right, top, bottom),
        spec_find_level5(spec_crop_blocks(blocks, left, right, top, bottom), 0) is Some,
        spec_crop_blocks(blocks, left, right, top, bottom)[spec_find_level5(
            spec_crop_blocks(blocks, left, right, top, bottom),
            0,
        )->Some_0].fields == seq![left as u64, right as u64, top as u64, bottom as u64],
{
    broadcast use vstd::seq_lib::group_to_multiset_ensures;

    let once = spec_crop_blocks(blocks, left, right, top, bottom);
    lemma_find_level5(blocks, 0);
    match spec_find_level5(blocks, 0) {
        Some(at) => {
            assert forall|k: int| 0 <= k < at implies (#[trigger] once[k]).kind
                != BlockKind::Level5 by {
                assert(once[k] == blocks[k]);
            }
            lemma_find_level5_at(once, at);
            assert(once.update(at, with_offsets(once[at], left, right, top, bottom)) =~= once);
        },
        None => {
            let block = level5_view(left, right, top, bottom);
            let all = blocks.push(block);
            crate::block_order::lemma_sorted_blocks_properties(all);
            assert(all.to_multiset().contains(block)) by {
                assert(all[all.len() - 1] == block);
            }
            assert(once.to_multiset().contains(block));
            let at = choose|k: int| 0 <= k < once.len() && once[k] == block;
            assert forall|k: int| 0 <= k < once.len() && k != at implies (#[trigger] once[k]).kind
                != BlockKind::Level5 by {
                if once[k].kind == BlockKind::Level5 {
                    assert(once.to_multiset().contains(once[k]));
                    assert(all.to_multiset().contains(once[k]));
                    let j = choose|j: int| 0 <= j < all.len() && all[j] == once[k];
                    if j < blocks.len() {
                        assert(all[j] == blocks[j]);
                    }
                    assert(once[k] == block);
                    assert(all.to_multiset().count(block) == 1) by {
                        assert(blocks.to_multiset().count(block) == 0) by {
                            if blocks.to_multiset().count(block) > 0 {
                                assert(blocks.to_multiset().contains(block));
                                let i = choose|i: int| 0 <= i < blocks.len() && blocks[i] == block;
                                assert(blocks[i].kind != BlockKind::Level5);
                            }
                        }
                    }
                    lemma_two_places_count(once, at, k);
                }
            }
            lemma_find_level5_at(once, at);
            assert(once.update(at, with_offsets(once[at], left, right, top, bottom)) =~= once);
        },
    }
}

/// A value that stands at two places of a sequence is counted at least twice.
pub proof fn lemma_two_places_count(blocks: Seq<BlockView>, first: int, second: int)
    requires
        0 <= first < blocks.len(),
        0 <= second < blocks.len(),
        first != second,
        blocks[first] == blocks[second],
    ensures
        blocks.to_multiset().count(blocks[first]) >= 2,
    decreases blocks.len(),
{
    broadcast use vstd::seq_lib::group_to_multiset_ensures;

    let last = blocks.len() - 1;
    let front = blocks.drop_last();
    assert(blocks =~= front.push(blocks[last]));
    if first == last || second == last {
        let other = if first == last {
            second
        } else {
            first
        };
        assert(front[other] == blocks[other]);
        assert(front.to_multiset().contains(front[other]));
    } else {
        assert(front[first] == blocks[first]);
        assert(front[second] == blocks[second]);
        lemma_two_places_count(front, first, second);
    }
}

impl VdrDmData {
    /// Gives the first level 5 block the offsets; where there is none,
    /// appends a level 5 block with them, counts the blocks anew and puts
    /// them in order.
    pub fn set_level5_offsets(&mut self, left: u16, right: u16, top: u16, bottom: u16)
        ensures
            final(self)@.blocks == spec_crop_blocks(old(self)@.blocks, left, right, top, bottom),
            *final(self) == (VdrDmData {
                num_ext_blocks: if spec_find_level5(old(self)@.blocks, 0) is Some {
                    old(self).num_ext_blocks
                } else {
                    (old(self).ext_metadata_blocks@.len() + 1) as u64
                },
                ext_metadata_blocks: final(self).ext_metadata_blocks,
                ..*old(self)
            }),
    {
        match find_level5(&self.ext_metadata_blocks) {
            Some(at) => {
                let ghost before = self@.blocks;
                match &mut self.ext_metadata_blocks[at] {
                    ExtMetadataBlock::Level5(block) => {
                        block.set_offsets(left, right, top, bottom);
                    },
                    _ => {},
                }
                assert(self@.blocks =~= before.update(
                    at as int,
                    with_offsets(before[at as int], left, right, top, bottom),
                ));
            },
            None => {
                self.add_level5_metadata(left, right, top, bottom);
            },
        }
    }
}

impl DoviRpu {
    /// Sets the offsets of the first level 5 block of the display
    /// management data to zero; where there is no such block, adds one.
    /// Marks the RPU as changed.
    pub fn crop_l5(&mut self)
        ensures
            *final(self) == (DoviRpu {
                vdr_dm_data: final(self).vdr_dm_data,
                modified: true,
                ..*old(self)
            }),
            old(self).vdr_dm_data is Some ==> final(self).vdr_dm_data is Some,
            old(self).vdr_dm_data is Some ==> final(self).vdr_dm_data->Some_0@.blocks
                == spec_crop_blocks(old(self).vdr_dm_data->Some_0@.blocks, 0, 0, 0, 0),
            old(self).vdr_dm_data is Some ==> final(self).vdr_dm_data->Some_0 == (VdrDmData {
                num_ext_blocks: if spec_find_level5(old(self).vdr_dm_data->Some_0@.blocks, 0)
                    is Some {
                    old(self).vdr_dm_data->Some_0.num_ext_blocks
                } else {
                    (old(self).vdr_dm_data->Some_0.ext_metadata_blocks@.len() + 1) as u64
                },
                ext_metadata_blocks: final(self).vdr_dm_data->Some_0.ext_metadata_blocks,
                ..old(self).vdr_dm_data->Some_0
            }),
            old(self).vdr_dm_data is None ==> final(self).vdr_dm_data is None,
    {
        self.modified = true;
        match &mut self.vdr_dm_data {
            Some(data) => {
                data.set_level5_offsets(0, 0, 0, 0);
            },
            None => {},
        }
    }

    /// Sets the offsets of the first level 5 block of the display
    /// management data; where there is no such block, adds one. Puts the
    /// blocks in order and marks the RPU as changed.
    pub fn set_l5_offsets(&mut self, left: u16, right: u16, top: u16, bottom: u16)
        ensures
            *final(self) == (DoviRpu {
                vdr_dm_data: final(self).vdr_dm_data,
                modified: true,
                ..*old(self)
            }),
            old(self).vdr_dm_data is Some ==> final(self).vdr_dm_data is Some,
            old(self).vdr_dm_data is Some ==> final(self).vdr_dm_data->Some_0@.blocks
                == sorted_blocks(
                spec_crop_blocks(old(self).vdr_dm_data->Some_0@.blocks, left, right, top, bottom),
            ),
            old(self).vdr_dm_data is Some ==> final(self).vdr_dm_data->Some_0 == (VdrDmData {
                num_ext_blocks: if spec_find_level5(old(self).vdr_dm_data->Some_0@.blocks, 0)
                    is Some {
                    old(self).vdr_dm_data->Some_0.num_ext_blocks
                } else {
                    (old(self).vdr_dm_data->Some_0.ext_metadata_blocks@.len() + 1) as u64
                },
                ext_metadata_blocks: final(self).vdr_dm_data->Some_0.ext_metadata_blocks,
                ..old(self).vdr_dm_data->Some_0
            }),
            old(self).vdr_dm_data is None ==> final(self).vdr_dm_data is None,
    {
        self.modified = true;
        match &mut self.vdr_dm_data {
            Some(data) => {
                data.set_level5_offsets(left, right, top, bottom);
                data.sort_extension_blocks();
            },
            None => {},
        }
    }

    /// Replaces each source level of the display management data for
    /// which a value is given, and marks the RPU as changed.
    pub fn change_source_levels(&mut self, min_pq: Option<u16>, max_pq: Option<u16>)
        ensures
            *final(self) == (DoviRpu {
                vdr_dm_data: match old(self).vdr_dm_data {
                    Some(data) => Some(
                        VdrDmData {
                            source_min_pq: match min_pq {
                                Some(v) => v,
                                None => data.source_min_pq,
                            },
                            source_max_pq: match max_pq {
                                Some(v) => v,
                                None => data.source_max_pq,
                            },
                            ..data
                        },
                    ),
                    None => None,
                },
                modified: true,
                ..*old(self)
            }),
    {
        self.modified = true;
        match &mut self.vdr_dm_data {
            Some(data) => {
                data.change_source_levels(min_pq, max_pq);
            },
            None => {},
        }
    }
}

/// The greatest number of the given number of bits.
pub fn max_code(bits: u8) -> (max: u64)
    requires
        bits <= 32,
    ensures
        max == pow2(bits as nat) - 1,
{
    let mut power: u64 = 1;
    let mut i: u8 = 0;
    proof {
        lemma2_to64();
    }
    while i < bits
        invariant
            i <= bits,
            bits <= 32,
            power == pow2(i as nat),
            power <= 0x1_0000_0000,
        decreases bits - i,
    {
        proof {
            lemma_pow2_unfold((i + 1) as nat);
            lemma2_to64();
            if i + 1 < 32 {
                lemma_pow2_strictly_increases((i + 1) as nat, 32);
            }
        }
        power = power * 2;
        i += 1;
    }
    power - 1
}

/// The header after the mapping was removed: each component has the two
/// pivots 0 and the greatest number that a pivot can be. A header that
/// reuses the mapping of an earlier RPU stays as it is.
pub open spec fn header_without_mapping(header: RpuDataHeaderView) -> RpuDataHeaderView {
    if header.use_prev_vdr_rpu_flag {
        header
    } else {
        let pivots = seq![0u64, (pow2(header.pivot_bits() as nat) - 1) as u64];
        RpuDataHeaderView {
            num_pivots_minus_2: [0, 0, 0],
            pred_pivot_value: seq![pivots, pivots, pivots],
            ..header
        }
    }
}

/// The header of a profile 7 RPU as one of profile 8.1: without an
/// enhancement layer and without a mapping.
pub open spec fn header_from_profile7(header: RpuDataHeaderView) -> RpuDataHeaderView {
    header_without_mapping(
        RpuDataHeaderView {
            el_spatial_resampling_filter_flag: false,
            disable_residual_flag: true,
            nlq_method_idc: 0,
            ..header
        },
    )
}

/// The header of a profile 5 RPU as one of profile 8.1.
pub open spec fn header_from_profile5(header: RpuDataHeaderView) -> RpuDataHeaderView {
    RpuDataHeaderView { vdr_rpu_profile: 1, ..header }
}

impl RpuDataHeader {
    /// Gives each component the two pivots 0 and the greatest number that
    /// a pivot can be, unless the header reuses the mapping of an earlier RPU.
    pub fn remove_mapping(&mut self)
        requires
            old(self)@.wf(),
        ensures
            final(self)@ == header_without_mapping(old(self)@),
            final(self)@.wf(),
    {
        if self.use_prev_vdr_rpu_flag {
            return ;
        }
        let max = max_code(self.pivot_bits());
        let mut lists: Vec<Vec<u64>> = Vec::new();
        let mut i: usize = 0;
        while i < 3
            invariant
                i <= 3,
                lists@.len() == i,
                forall|k: int| 0 <= k < i ==> (#[trigger] lists@[k])@ == seq![0u64, max],
            decreases 3 - i,
        {
            let mut pivots: Vec<u64> = Vec::new();
            pivots.push(0);
            pivots.push(max);
            assert(pivots@ =~= seq![0u64, max]);
            lists.push(pivots);
            i += 1;
        }
        self.num_pivots_minus_2 = [0, 0, 0];
        self.pred_pivot_value = lists;
        assert(self@.pred_pivot_value =~= header_without_mapping(old(self)@).pred_pivot_value);
    }
}

/// Whether `after` and `r` are what `convert_to_81` makes of `before`: an
/// RPU of profile 7 loses its enhancement layer and its mapping; one of
/// profile 7 or 5 gets the colour matrices of profile 8.1 in its display
/// management data, whose blocks stay as they are, becomes one of profile
/// 8 and is marked as changed; one of another profile is refused and stays
/// as it is.
pub open spec fn converted_to_81(before: DoviRpu, after: DoviRpu, r: Result<(), RpuError>) -> bool {
    if before.dovi_profile != 7 && before.dovi_profile != 5 {
        r == Err::<(), _>(RpuError::InvalidProfile) && after == before
    } else {
        &&& r is Ok
        &&& after@ == (DoviRpuView {
            dovi_profile: 8,
            header: if before.dovi_profile == 7 {
                header_from_profile7(before@.header)
            } else {
                header_from_profile5(before@.header)
            },
            mapping: if before.dovi_profile == 7 && !before.header.use_prev_vdr_rpu_flag {
                Some(identity_mapping())
            } else {
                before@.mapping
            },
            nlq: if before.dovi_profile == 7 {
                None
            } else {
                before@.nlq
            },
            vdr_dm_data: after@.vdr_dm_data,
            modified: true,
            ..before@
        })
        &&& after.vdr_dm_data == (match before.vdr_dm_data {
            Some(data) => Some(data.spec_p5_to_p81()),
            None => None,
        })
    }
}

impl DoviRpu {
    /// Replaces the mapping by the one that maps every value to itself,
    /// unless the RPU reuses the mapping of an earlier one, and marks the
    /// RPU as changed.
    pub fn remove_mapping(&mut self)
        requires
            old(self).wf(),
        ensures
            final(self).wf(),
            final(self)@ == (DoviRpuView {
                header: header_without_mapping(old(self)@.header),
                mapping: if old(self).header.use_prev_vdr_rpu_flag {
                    old(self)@.mapping
                } else {
                    Some(identity_mapping())
                },
                modified: true,
                ..old(self)@
            }),
            final(self).vdr_dm_data == old(self).vdr_dm_data,
    {
        self.modified = true;
        if !self.header.use_prev_vdr_rpu_flag {
            self.mapping = Some(RpuDataMapping::identity());
        }
        self.header.remove_mapping();
    }

    /// Turns the RPU into one of the profile `target`. The only target is 8,
    /// for which see `convert_to_81`; for every other the RPU is refused and
    /// stays as it is.
    pub fn convert_profile(&mut self, target: u8) -> (r: Result<(), RpuError>)
        requires
            old(self).wf(),
        ensures
            final(self).wf(),
            target != 8 ==> r == Err::<(), _>(RpuError::InvalidProfile) && *final(self) == *old(self),
            target == 8 ==> converted_to_81(*old(self), *final(self), r),
    {
        if target == 8 {
            self.convert_to_81()
        } else {
            Err(RpuError::InvalidProfile)
        }
    }

    /// Turns an RPU of profile 7 or 5 into one of profile 8.1, and marks it
    /// as changed. An RPU of profile 7 loses its enhancement layer and its
    /// mapping; either gets the colour matrices of profile 8.1 in its
    /// display management data, whose blocks stay as they are. An RPU of
    /// another profile is refused and stays as it is.
    pub fn convert_to_81(&mut self) -> (r: Result<(), RpuError>)
        requires
            old(self).wf(),
        ensures
            final(self).wf(),
            converted_to_81(*old(self), *final(self), r),
    {
        if self.dovi_profile == 7 {
            self.header.el_spatial_resampling_filter_flag = false;
            self.header.disable_residual_flag = true;
            self.header.nlq_method_idc = 0;
            self.nlq = None;
            self.remove_mapping();
        } else if self.dovi_profile == 5 {
            self.header.vdr_rpu_profile = 1;
        } else {
            return Err(RpuError::InvalidProfile);
        }
        match &mut self.vdr_dm_data {
            Some(data) => {
                data.p5_to_p81();
            },
            None => {},
        }
        self.dovi_profile = 8;
        self.modified = true;
        Ok(())
    }
}

} // verus!
