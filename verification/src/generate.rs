//! What a generated RPU sequence is made from.

use vstd::prelude::*;
use crate::block_order::block_views;
use crate::blocks::{BlockView, ExtMetadataBlock, ExtMetadataBlockLevel5, ExtMetadataBlockLevel6};
use crate::stable_sort::{lemma_sort_step, stable_sort};

verus! {

/// The generation of the colour management metadata.
#[derive(Clone, Copy, Debug, PartialEq, Eq, Structural)]
pub enum CmVersion {
    V29,
    V40,
}

/// Blocks that replace those of the shot in one of its frames.
#[derive(Clone, Debug, PartialEq, Eq)]
pub struct ShotFrameEdit {
    /// The frame, counted from the first frame of the shot.
    pub edit_offset: usize,
    pub metadata_blocks: Vec<ExtMetadataBlock>,
}

/// A run of frames that share their metadata.
#[derive(Clone, Debug, PartialEq, Eq)]
pub struct VideoShot {
    pub id: String,
    /// The first frame of the shot.
    pub start: usize,
    /// The number of frames of the shot.
    pub duration: usize,
    pub metadata_blocks: Vec<ExtMetadataBlock>,
    pub frame_edits: Vec<ShotFrameEdit>,
}

/// What the RPUs of a sequence are generated from.
#[derive(Clone, Debug, PartialEq, Eq)]
pub struct GenerateConfig {
    pub cm_version: CmVersion,
    /// The number of frames.
    pub length: usize,
    /// The peak of the target display, in nits.
    pub target_nits: u16,
    pub source_min_pq: Option<u16>,
    pub source_max_pq: Option<u16>,
    /// The shots, in the order of their first frames.
    pub shots: Vec<VideoShot>,
    /// The active area of every frame.
    pub level5: Option<ExtMetadataBlockLevel5>,
    /// The light levels of the sequence.
    pub level6: Option<ExtMetadataBlockLevel6>,
}

impl GenerateConfig {
    /// A configuration of no frames for a target display of 100 nits.
    pub fn new() -> (config: GenerateConfig)
        ensures
            config.cm_version == CmVersion::V40,
            config.length == 0,
            config.target_nits == 100,
            config.source_min_pq is None,
            config.source_max_pq is None,
            config.shots@.len() == 0,
            config.level5 is None,
            config.level6 is None,
    {
        GenerateConfig {
            cm_version: CmVersion::V40,
            length: 0,
            target_nits: 100,
            source_min_pq: None,
            source_max_pq: None,
            shots: Vec::new(),
            level5: None,
            level6: None,
        }
    }
}


/// A frame edit with its blocks as the wire sees them.
pub struct ShotFrameEditView {
    pub edit_offset: usize,
    pub blocks: Seq<BlockView>,
}

/// A shot with its id as a sequence of characters and its blocks as the wire sees them.
pub struct VideoShotView {
    pub id: Seq<char>,
    pub start: usize,
    pub duration: usize,
    pub blocks: Seq<BlockView>,
    pub frame_edits: Seq<ShotFrameEditView>,
}

/// A configuration with its shots and blocks as the wire sees them.
pub struct GenerateConfigView {
    pub cm_version: CmVersion,
    pub length: usize,
    pub target_nits: u16,
    pub source_min_pq: Option<u16>,
    pub source_max_pq: Option<u16>,
    pub shots: Seq<VideoShotView>,
    pub level5: Option<BlockView>,
    pub level6: Option<BlockView>,
}

impl View for ShotFrameEdit {
    type V = ShotFrameEditView;

    open spec fn view(&self) -> ShotFrameEditView {
        ShotFrameEditView {
            edit_offset: self.edit_offset,
            blocks: block_views(self.metadata_blocks@),
        }
    }
}

/// The views of `edits`.
pub open spec fn frame_edit_views(edits: Seq<ShotFrameEdit>) -> Seq<ShotFrameEditView> {
    edits.map_values(|e: ShotFrameEdit| e@)
}

impl View for VideoShot {
    type V = VideoShotView;

    open spec fn view(&self) -> VideoShotView {
        VideoShotView {
            id: self.id@,
            start: self.start,
            duration: self.duration,
            blocks: block_views(self.metadata_blocks@),
            frame_edits: frame_edit_views(self.frame_edits@),
        }
    }
}

/// The views of `shots`.
pub open spec fn shot_views(shots: Seq<VideoShot>) -> Seq<VideoShotView> {
    shots.map_values(|s: VideoShot| s@)
}

impl View for GenerateConfig {
    type V = GenerateConfigView;

    open spec fn view(&self) -> GenerateConfigView {
        GenerateConfigView {
            cm_version: self.cm_version,
            length: self.length,
            target_nits: self.target_nits,
            source_min_pq: self.source_min_pq,
            source_max_pq: self.source_max_pq,
            shots: shot_views(self.shots@),
            level5: match self.level5 {
                Some(block) => Some(ExtMetadataBlock::Level5(block)@),
                None => None,
            },
            level6: match self.level6 {
                Some(block) => Some(ExtMetadataBlock::Level6(block)@),
                None => None,
            },
        }
    }
}

/// Whether shot `a` may stand in front of shot `b`: it starts no later.
pub open spec fn shot_le() -> spec_fn(VideoShotView, VideoShotView) -> bool {
    |a: VideoShotView, b: VideoShotView| a.start <= b.start
}

/// The shots in the order of their first frames; shots that start at the
/// same frame keep the order they had.
pub open spec fn sorted_shots(shots: Seq<VideoShotView>) -> Seq<VideoShotView> {
    stable_sort(shots, shot_le())
}

/// Puts the shots in the order of their first frames; shots that start at
/// the same frame keep the order they had.
pub fn sort_shots(shots: &mut Vec<VideoShot>)
    ensures
        shot_views(final(shots)@) == sorted_shots(shot_views(old(shots)@)),
        final(shots)@.len() == old(shots)@.len(),
{
    let n = shots.len();
    let mut i: usize = 0;
    let ghost unsorted = shot_views(old(shots)@);
    assert(shot_views(shots@).take(0) =~= sorted_shots(unsorted.take(0)));
    while i < n
        invariant
            i <= n,
            n == shots@.len(),
            unsorted == shot_views(old(shots)@),
            n == unsorted.len(),
            shot_views(shots@).take(i as int) == sorted_shots(unsorted.take(i as int)),
            shot_views(shots@).skip(i as int) == unsorted.skip(i as int),
        decreases n - i,
    {
        let ghost before = shot_views(shots@);
        let shot = shots.remove(i);
        let start = shot.start;
        assert(shot_views(shots@) =~= before.remove(i as int));
        assert(shot@ == before[i as int]);
        let mut at: usize = i;
        while at > 0 && shots[at - 1].start > start
            invariant
                at <= i,
                i < n,
                shots@.len() == n - 1,
                before.len() == n,
                start == shot@.start,
                shot@ == before[i as int],
                shot_views(shots@) == before.remove(i as int),
                forall|k: int| at <= k < i ==> !shot_le()(#[trigger] before[k], before[i as int]),
            decreases at,
        {
            proof {
                assert(before.remove(i as int)[at - 1] == before[at - 1]);
                assert(before[at - 1] == shots@[at - 1]@);
            }
            at -= 1;
        }
        proof {
            if at > 0 {
                assert(before.remove(i as int)[at - 1] == before[at - 1]);
                assert(before[at - 1] == shots@[at - 1]@);
            }
            lemma_sort_step(unsorted, before, shot_le(), i as int, at as int);
        }
        shots.insert(at, shot);
        assert(shot_views(shots@) =~= before.remove(i as int).insert(at as int, before[i as int]));
        i += 1;
    }
    assert(shot_views(shots@).take(n as int) =~= shot_views(shots@));
    assert(unsorted.take(n as int) =~= unsorted);
}

} // verus!
