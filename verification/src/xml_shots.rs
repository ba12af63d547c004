//! Reading a metadata document: the shots, and the document as a whole.

use vstd::prelude::*;

use crate::blocks::{BlockView, ExtMetadataBlock, ExtMetadataBlockLevel5, ExtMetadataBlockLevel6};
use crate::error::{XmlError, XmlErrorView, XmlPath};
use crate::generate::{
    frame_edit_views, shot_le, shot_views, sort_shots, sorted_shots, CmVersion, GenerateConfig,
    GenerateConfigView, ShotFrameEdit, ShotFrameEditView, VideoShot, VideoShotView,
};
use crate::stable_sort::{lemma_stable_sort_properties, total_preorder};

use crate::xml_numbers::{
    answers_all, answers_as, ask, level5_of, usable_answer, Formula, NumberRequest,
    NumberRequestView, Oracle,
};
use crate::xml_parser::{
    child_text, spec_child_text, spec_cm_version, spec_level6, spec_mastering_display,
    spec_target_displays, spec_whole_number, target_display_views, whole_number, CmXmlParser,
    XmlParserOpts,
};
use crate::xml_tree::{
    spec_children, spec_descendants, spec_find_child, spec_find_descendant, spec_text,
    xml_document_nodes, NodeTest, XmlNode, XmlTree,
};
use crate::xml_trims::{block_list_outcome, spec_shot_trims, spec_trim_nodes, without_levels_8_and_9,
    TrimContext, lemma_version_29_has_no_level_8_or_9};

verus! {

/// The greatest frame number that a document may give.
pub open spec fn max_frame() -> u64 {
    (usize::MAX / 2) as u64
}

/// The frame edit that the `Frame` element at `frame` describes: its
/// `EditOffset` and its trims.
pub open spec fn spec_frame_edit(nodes: Seq<XmlNode>, frame: int, ctx: TrimContext, oracle: Oracle) -> Result<
    ShotFrameEditView,
    XmlErrorView,
> {
    match spec_child_text(nodes, frame, "EditOffset", XmlPath::EditOffset) {
        Err(e) => Err(e),
        Ok(text) => match spec_whole_number(text, max_frame() as nat, XmlPath::EditOffset) {
            Err(e) => Err(e),
            Ok(offset) => match spec_shot_trims(nodes, frame, ctx, oracle) {
                Err(e) => Err(e),
                Ok(blocks) => Ok(ShotFrameEditView { edit_offset: offset as usize, blocks }),
            },
        },
    }
}

/// The frame edits that the `Frame` elements at `found` describe, in that
/// order, or the error of the first that describes none.
pub open spec fn spec_frame_edits_of(
    nodes: Seq<XmlNode>,
    found: Seq<usize>,
    ctx: TrimContext,
    oracle: Oracle,
) -> Result<Seq<ShotFrameEditView>, XmlErrorView>
    decreases found.len(),
{
    if found.len() == 0 {
        Ok(Seq::empty())
    } else {
        match spec_frame_edits_of(nodes, found.drop_last(), ctx, oracle) {
            Err(e) => Err(e),
            Ok(edits) => match spec_frame_edit(nodes, found.last() as int, ctx, oracle) {
                Err(e) => Err(e),
                Ok(edit) => Ok(edits.push(edit)),
            },
        }
    }
}

/// The first frame and the number of frames of the shot at `shot`, from
/// the `In` and the `Duration` of its `Record`.
pub open spec fn spec_shot_record(nodes: Seq<XmlNode>, shot: int) -> Result<
    (usize, usize),
    XmlErrorView,
> {
    match spec_find_child(nodes, shot, NodeTest::Tag("Record"), 0) {
        None => Err(XmlErrorView::XmlMissingNode(XmlPath::Record)),
        Some(record) => match spec_child_text(nodes, record, "In", XmlPath::RecordIn) {
            Err(e) => Err(e),
            Ok(text) => match spec_whole_number(text, max_frame() as nat, XmlPath::RecordIn) {
                Err(e) => Err(e),
                Ok(start) => match spec_child_text(
                    nodes,
                    record,
                    "Duration",
                    XmlPath::RecordDuration,
                ) {
                    Err(e) => Err(e),
                    Ok(text) => match spec_whole_number(
                        text,
                        max_frame() as nat,
                        XmlPath::RecordDuration,
                    ) {
                        Err(e) => Err(e),
                        Ok(duration) => Ok((start as usize, duration as usize)),
                    },
                },
            },
        },
    }
}

/// The shot that the `Shot` element at `shot` describes: its `UniqueID`,
/// its `Record`, its trims, and the edits of its `Frame` children.
pub open spec fn spec_shot(nodes: Seq<XmlNode>, shot: int, ctx: TrimContext, oracle: Oracle) -> Result<
    VideoShotView,
    XmlErrorView,
> {
    match spec_child_text(nodes, shot, "UniqueID", XmlPath::UniqueId) {
        Err(e) => Err(e),
        Ok(id) => match spec_shot_record(nodes, shot) {
            Err(e) => Err(e),
            Ok((start, duration)) => match spec_shot_trims(nodes, shot, ctx, oracle) {
                Err(e) => Err(e),
                Ok(blocks) => match spec_frame_edits_of(
                    nodes,
                    spec_children(nodes, shot, NodeTest::Tag("Frame"), nodes.len() as int),
                    ctx,
                    oracle,
                ) {
                    Err(e) => Err(e),
                    Ok(frame_edits) => Ok(
                        VideoShotView { id, start, duration, blocks, frame_edits },
                    ),
                },
            },
        },
    }
}

/// The shots that the `Shot` elements at `found` describe, in that order,
/// or the error of the first that describes none.
pub open spec fn spec_shots_of(nodes: Seq<XmlNode>, found: Seq<usize>, ctx: TrimContext, oracle: Oracle) -> Result<
    Seq<VideoShotView>,
    XmlErrorView,
>
    decreases found.len(),
{
    if found.len() == 0 {
        Ok(Seq::empty())
    } else {
        match spec_shots_of(nodes, found.drop_last(), ctx, oracle) {
            Err(e) => Err(e),
            Ok(shots) => match spec_shot(nodes, found.last() as int, ctx, oracle) {
                Err(e) => Err(e),
                Ok(shot) => Ok(shots.push(shot)),
            },
        }
    }
}

/// The shots of the document: one for each `Shot` element below the node
/// at `video`, in document order.
pub open spec fn spec_shots(nodes: Seq<XmlNode>, video: int, ctx: TrimContext, oracle: Oracle) -> Result<
    Seq<VideoShotView>,
    XmlErrorView,
> {
    spec_shots_of(
        nodes,
        spec_descendants(nodes, video, NodeTest::Tag("Shot"), nodes.len() as int),
        ctx,
        oracle,
    )
}

/// An error for the first of `found` is the error for all of them.
pub proof fn lemma_frame_edits_prefix_error(
    nodes: Seq<XmlNode>,
    found: Seq<usize>,
    ctx: TrimContext,
    oracle: Oracle,
    n: int,
)
    requires
        0 <= n <= found.len(),
    ensures
        spec_frame_edits_of(nodes, found.take(n), ctx, oracle) is Err ==> spec_frame_edits_of(
            nodes,
            found,
            ctx,
            oracle,
        ) == Err::<Seq<ShotFrameEditView>, _>(
            spec_frame_edits_of(nodes, found.take(n), ctx, oracle)->Err_0,
        ),
    decreases found.len() - n,
{
    if n < found.len() {
        assert(found.take(n + 1).drop_last() =~= found.take(n));
        lemma_frame_edits_prefix_error(nodes, found, ctx, oracle, n + 1);
    } else {
        assert(found.take(n) =~= found);
    }
}

/// An error for the first of `found` is the error for all of them.
pub proof fn lemma_shots_prefix_error(
    nodes: Seq<XmlNode>,
    found: Seq<usize>,
    ctx: TrimContext,
    oracle: Oracle,
    n: int,
)
    requires
        0 <= n <= found.len(),
    ensures
        spec_shots_of(nodes, found.take(n), ctx, oracle) is Err ==> spec_shots_of(
            nodes,
            found,
            ctx,
            oracle,
        ) == Err::<Seq<VideoShotView>, _>(spec_shots_of(nodes, found.take(n), ctx, oracle)->Err_0),
    decreases found.len() - n,
{
    if n < found.len() {
        assert(found.take(n + 1).drop_last() =~= found.take(n));
        lemma_shots_prefix_error(nodes, found, ctx, oracle, n + 1);
    } else {
        assert(found.take(n) =~= found);
    }
}

/// What `r` is as a result over views.
pub open spec fn frame_edit_outcome(r: Result<ShotFrameEdit, XmlError>) -> Result<
    ShotFrameEditView,
    XmlErrorView,
> {
    match r {
        Ok(edit) => Ok(edit@),
        Err(e) => Err(e@),
    }
}

/// What `r` is as a result over views.
pub open spec fn frame_edits_outcome(r: Result<Vec<ShotFrameEdit>, XmlError>) -> Result<
    Seq<ShotFrameEditView>,
    XmlErrorView,
> {
    match r {
        Ok(edits) => Ok(frame_edit_views(edits@)),
        Err(e) => Err(e@),
    }
}

/// What `r` is as a result over views.
pub open spec fn shot_outcome(r: Result<VideoShot, XmlError>) -> Result<VideoShotView, XmlErrorView> {
    match r {
        Ok(shot) => Ok(shot@),
        Err(e) => Err(e@),
    }
}

/// What `r` is as a result over views.
pub open spec fn shots_outcome(r: Result<Vec<VideoShot>, XmlError>) -> Result<
    Seq<VideoShotView>,
    XmlErrorView,
> {
    match r {
        Ok(shots) => Ok(shot_views(shots@)),
        Err(e) => Err(e@),
    }
}

fn frame_limit() -> (max: u64)
    ensures
        max == max_frame(),
{
    (usize::MAX / 2) as u64
}

impl CmXmlParser {
    /// The frame edit that the `Frame` element at `frame` describes.
    pub fn parse_frame_edit<F: Fn(&NumberRequest) -> Option<Vec<i32>>>(
        &self,
        tree: &XmlTree,
        frame: usize,
        convert: &F,
    ) -> (r: Result<ShotFrameEdit, XmlError>)
        requires
            answers_all(convert),
        ensures
            forall|oracle: Oracle|
                answers_as(convert, oracle) ==> frame_edit_outcome(r) == #[trigger] spec_frame_edit(
                    tree.nodes@,
                    frame as int,
                    self.context(),
                    oracle,
                ),
    {
        let text = match child_text(tree, frame, "EditOffset", XmlPath::EditOffset) {
            Ok(text) => text,
            Err(e) => {
                return Err(e);
            },
        };
        let offset = match whole_number(text, frame_limit(), XmlPath::EditOffset) {
            Ok(v) => v,
            Err(e) => {
                return Err(e);
            },
        };
        let trims = self.parse_shot_trims(tree, frame, convert);
        match trims {
            Ok(metadata_blocks) => {
                let edit = ShotFrameEdit { edit_offset: offset as usize, metadata_blocks };
                assert forall|oracle: Oracle| answers_as(convert, oracle) implies frame_edit_outcome(
                    Ok(edit),
                ) == #[trigger] spec_frame_edit(tree.nodes@, frame as int, self.context(), oracle) by {
                    assert(block_list_outcome(trims) == spec_shot_trims(
                        tree.nodes@,
                        frame as int,
                        self.context(),
                        oracle,
                    ));
                }
                Ok(edit)
            },
            Err(e) => {
                assert forall|oracle: Oracle| answers_as(convert, oracle) implies frame_edit_outcome(
                    Err(e),
                ) == #[trigger] spec_frame_edit(tree.nodes@, frame as int, self.context(), oracle) by {
                    assert(block_list_outcome(trims) == spec_shot_trims(
                        tree.nodes@,
                        frame as int,
                        self.context(),
                        oracle,
                    ));
                }
                Err(e)
            },
        }
    }

    /// The frame edits that the `Frame` elements at `found` describe.
    pub fn parse_frame_edits<F: Fn(&NumberRequest) -> Option<Vec<i32>>>(
        &self,
        tree: &XmlTree,
        found: &Vec<usize>,
        convert: &F,
    ) -> (r: Result<Vec<ShotFrameEdit>, XmlError>)
        requires
            answers_all(convert),
        ensures
            forall|oracle: Oracle|
                answers_as(convert, oracle) ==> frame_edits_outcome(r)
                    == #[trigger] spec_frame_edits_of(tree.nodes@, found@, self.context(), oracle),
    {
        let mut edits: Vec<ShotFrameEdit> = Vec::new();
        let mut i: usize = 0;
        let ghost nodes = tree.nodes@;
        let ghost ctx = self.context();
        proof {
            assert(found@.take(0) =~= Seq::<usize>::empty());
            assert(frame_edit_views(edits@) =~= Seq::<ShotFrameEditView>::empty());
        }
        while i < found.len()
            invariant
                i <= found.len(),
                answers_all(convert),
                nodes == tree.nodes@,
                ctx == self.context(),
                forall|oracle: Oracle|
                    answers_as(convert, oracle) ==> #[trigger] spec_frame_edits_of(
                        nodes,
                        found@.take(i as int),
                        ctx,
                        oracle,
                    ) == Ok::<_, XmlErrorView>(frame_edit_views(edits@)),
            decreases found.len() - i,
        {
            let ghost before = frame_edit_views(edits@);
            proof {
                assert(found@.take(i + 1).drop_last() =~= found@.take(i as int));
                assert(found@.take(i + 1).last() == found@[i as int]);
            }
            let r = self.parse_frame_edit(tree, found[i], convert);
            match r {
                Ok(edit) => {
                    edits.push(edit);
                    assert(frame_edit_views(edits@) =~= before.push(edit@));
                    assert forall|oracle: Oracle| answers_as(convert, oracle) implies #[trigger] spec_frame_edits_of(
                        nodes,
                        found@.take(i + 1),
                        ctx,
                        oracle,
                    ) == Ok::<_, XmlErrorView>(frame_edit_views(edits@)) by {
                        assert(spec_frame_edits_of(nodes, found@.take(i as int), ctx, oracle)
                            == Ok::<_, XmlErrorView>(before));
                        assert(frame_edit_outcome(r) == spec_frame_edit(
                            nodes,
                            found@[i as int] as int,
                            ctx,
                            oracle,
                        ));
                    }
                },
                Err(e) => {
                    assert forall|oracle: Oracle| answers_as(convert, oracle) implies frame_edits_outcome(
                        Err(e),
                    ) == #[trigger] spec_frame_edits_of(nodes, found@, ctx, oracle) by {
                        assert(spec_frame_edits_of(nodes, found@.take(i as int), ctx, oracle)
                            == Ok::<_, XmlErrorView>(before));
                        assert(frame_edit_outcome(r) == spec_frame_edit(
                            nodes,
                            found@[i as int] as int,
                            ctx,
                            oracle,
                        ));
                        lemma_frame_edits_prefix_error(nodes, found@, ctx, oracle, i + 1);
                    }
                    return Err(e);
                },
            }
            i += 1;
        }
        proof {
            assert(found@.take(i as int) =~= found@);
            assert forall|oracle: Oracle| answers_as(convert, oracle) implies frame_edits_outcome(
                Ok(edits),
            ) == #[trigger] spec_frame_edits_of(nodes, found@, ctx, oracle) by {
                assert(spec_frame_edits_of(nodes, found@.take(i as int), ctx, oracle) == Ok::<
                    _,
                    XmlErrorView,
                >(frame_edit_views(edits@)));
            }
        }
        Ok(edits)
    }

    /// The first frame and the number of frames of the shot at `shot`.
    pub fn parse_shot_record(tree: &XmlTree, shot: usize) -> (r: Result<(usize, usize), XmlError>)
        ensures
            match r {
                Ok(record) => spec_shot_record(tree.nodes@, shot as int) == Ok::<_, XmlErrorView>(
                    record,
                ),
                Err(e) => spec_shot_record(tree.nodes@, shot as int) == Err::<(usize, usize), _>(
                    e@,
                ),
            },
    {
        let record = match tree.find_child(shot, &NodeTest::Tag("Record")) {
            Some(record) => record,
            None => {
                return Err(XmlError::XmlMissingNode(XmlPath::Record));
            },
        };
        let text = match child_text(tree, record, "In", XmlPath::RecordIn) {
            Ok(text) => text,
            Err(e) => {
                return Err(e);
            },
        };
        let start = match whole_number(text, frame_limit(), XmlPath::RecordIn) {
            Ok(v) => v,
            Err(e) => {
                return Err(e);
            },
        };
        let text = match child_text(tree, record, "Duration", XmlPath::RecordDuration) {
            Ok(text) => text,
            Err(e) => {
                return Err(e);
            },
        };
        let duration = match whole_number(text, frame_limit(), XmlPath::RecordDuration) {
            Ok(v) => v,
            Err(e) => {
                return Err(e);
            },
        };
        Ok((start as usize, duration as usize))
    }

    /// The shot that the `Shot` element at `shot` describes.
    pub fn parse_shot<F: Fn(&NumberRequest) -> Option<Vec<i32>>>(
        &self,
        tree: &XmlTree,
        shot: usize,
        convert: &F,
    ) -> (r: Result<VideoShot, XmlError>)
        requires
            answers_all(convert),
        ensures
            forall|oracle: Oracle|
                answers_as(convert, oracle) ==> shot_outcome(r) == #[trigger] spec_shot(
                    tree.nodes@,
                    shot as int,
                    self.context(),
                    oracle,
                ),
            r is Ok ==> r->Ok_0.start <= max_frame() && r->Ok_0.duration <= max_frame(),
    {
        let ghost nodes = tree.nodes@;
        let ghost ctx = self.context();
        let id = match child_text(tree, shot, "UniqueID", XmlPath::UniqueId) {
            Ok(text) => text,
            Err(e) => {
                return Err(e);
            },
        };
        let (start, duration) = match CmXmlParser::parse_shot_record(tree, shot) {
            Ok(record) => record,
            Err(e) => {
                return Err(e);
            },
        };
        let trims = self.parse_shot_trims(tree, shot, convert);
        let metadata_blocks = match trims {
            Ok(blocks) => blocks,
            Err(e) => {
                assert forall|oracle: Oracle| answers_as(convert, oracle) implies shot_outcome(
                    Err(e),
                ) == #[trigger] spec_shot(nodes, shot as int, ctx, oracle) by {
                    assert(block_list_outcome(trims) == spec_shot_trims(
                        nodes,
                        shot as int,
                        ctx,
                        oracle,
                    ));
                }
                return Err(e);
            },
        };
        let frames = tree.children(shot, &NodeTest::Tag("Frame"));
        let edits = self.parse_frame_edits(tree, &frames, convert);
        match edits {
            Ok(frame_edits) => {
                let made = VideoShot { id: id.clone(), start, duration, metadata_blocks, frame_edits };
                assert forall|oracle: Oracle| answers_as(convert, oracle) implies shot_outcome(
                    Ok(made),
                ) == #[trigger] spec_shot(nodes, shot as int, ctx, oracle) by {
                    assert(block_list_outcome(trims) == spec_shot_trims(
                        nodes,
                        shot as int,
                        ctx,
                        oracle,
                    ));
                    assert(frame_edits_outcome(edits) == spec_frame_edits_of(
                        nodes,
                        frames@,
                        ctx,
                        oracle,
                    ));
                }
                Ok(made)
            },
            Err(e) => {
                assert forall|oracle: Oracle| answers_as(convert, oracle) implies shot_outcome(
                    Err(e),
                ) == #[trigger] spec_shot(nodes, shot as int, ctx, oracle) by {
                    assert(block_list_outcome(trims) == spec_shot_trims(
                        nodes,
                        shot as int,
                        ctx,
                        oracle,
                    ));
                    assert(frame_edits_outcome(edits) == spec_frame_edits_of(
                        nodes,
                        frames@,
                        ctx,
                        oracle,
                    ));
                }
                Err(e)
            },
        }
    }

    /// The shots of the document, in document order.
    pub fn parse_shots<F: Fn(&NumberRequest) -> Option<Vec<i32>>>(
        &self,
        tree: &XmlTree,
        video: usize,
        convert: &F,
    ) -> (r: Result<Vec<VideoShot>, XmlError>)
        requires
            answers_all(convert),
        ensures
            forall|oracle: Oracle|
                answers_as(convert, oracle) ==> shots_outcome(r) == #[trigger] spec_shots(
                    tree.nodes@,
                    video as int,
                    self.context(),
                    oracle,
                ),
            r is Ok ==> shots_bounded(shot_views(r->Ok_0@)),
    {
        let found = tree.descendants(video, &NodeTest::Tag("Shot"));
        let mut shots: Vec<VideoShot> = Vec::new();
        let mut i: usize = 0;
        let ghost nodes = tree.nodes@;
        let ghost ctx = self.context();
        proof {
            assert(found@.take(0) =~= Seq::<usize>::empty());
            assert(shot_views(shots@) =~= Seq::<VideoShotView>::empty());
        }
        while i < found.len()
            invariant
                i <= found.len(),
                answers_all(convert),
                nodes == tree.nodes@,
                ctx == self.context(),
                found@ == spec_descendants(
                    nodes,
                    video as int,
                    NodeTest::Tag("Shot"),
                    nodes.len() as int,
                ),
                forall|oracle: Oracle|
                    answers_as(convert, oracle) ==> #[trigger] spec_shots_of(
                        nodes,
                        found@.take(i as int),
                        ctx,
                        oracle,
                    ) == Ok::<_, XmlErrorView>(shot_views(shots@)),
                shots_bounded(shot_views(shots@)),
            decreases found.len() - i,
        {
            let ghost before = shot_views(shots@);
            proof {
                assert(found@.take(i + 1).drop_last() =~= found@.take(i as int));
                assert(found@.take(i + 1).last() == found@[i as int]);
            }
            let r = self.parse_shot(tree, found[i], convert);
            match r {
                Ok(shot) => {
                    shots.push(shot);
                    assert(shot_views(shots@) =~= before.push(shot@));
                    assert(shots_bounded(shot_views(shots@))) by {
                        assert forall|k: int| 0 <= k < shot_views(shots@).len() implies (#[trigger] shot_views(
                            shots@,
                        )[k]).start <= max_frame() && shot_views(shots@)[k].duration
                            <= max_frame() by {
                            if k < before.len() {
                                assert(shot_views(shots@)[k] == before[k]);
                            }
                        }
                    }
                    assert forall|oracle: Oracle| answers_as(convert, oracle) implies #[trigger] spec_shots_of(
                        nodes,
                        found@.take(i + 1),
                        ctx,
                        oracle,
                    ) == Ok::<_, XmlErrorView>(shot_views(shots@)) by {
                        assert(spec_shots_of(nodes, found@.take(i as int), ctx, oracle) == Ok::<
                            _,
                            XmlErrorView,
                        >(before));
                        assert(shot_outcome(r) == spec_shot(
                            nodes,
                            found@[i as int] as int,
                            ctx,
                            oracle,
                        ));
                    }
                },
                Err(e) => {
                    assert forall|oracle: Oracle| answers_as(convert, oracle) implies shots_outcome(
                        Err(e),
                    ) == #[trigger] spec_shots(nodes, video as int, ctx, oracle) by {
                        assert(spec_shots_of(nodes, found@.take(i as int), ctx, oracle) == Ok::<
                            _,
                            XmlErrorView,
                        >(before));
                        assert(shot_outcome(r) == spec_shot(
                            nodes,
                            found@[i as int] as int,
                            ctx,
                            oracle,
                        ));
                        lemma_shots_prefix_error(nodes, found@, ctx, oracle, i + 1);
                    }
                    return Err(e);
                },
            }
            i += 1;
        }
        proof {
            assert(found@.take(i as int) =~= found@);
            assert forall|oracle: Oracle| answers_as(convert, oracle) implies shots_outcome(
                Ok(shots),
            ) == #[trigger] spec_shots(nodes, video as int, ctx, oracle) by {
                assert(spec_shots_of(nodes, found@.take(i as int), ctx, oracle) == Ok::<
                    _,
                    XmlErrorView,
                >(shot_views(shots@)));
            }
        }
        Ok(shots)
    }
}

/// What was read from a document, with texts as sequences of characters
/// and blocks as the wire sees them.
pub struct CmXmlParserView {
    pub opts: XmlParserOpts,
    pub cm_version: Seq<char>,
    pub separator: char,
    pub target_displays: Seq<(Seq<char>, u16)>,
    pub config: GenerateConfigView,
}

impl View for CmXmlParser {
    type V = CmXmlParserView;

    open spec fn view(&self) -> CmXmlParserView {
        CmXmlParserView {
            opts: self.opts,
            cm_version: self.cm_version@,
            separator: self.separator,
            target_displays: target_display_views(self.target_displays@),
            config: self.config@,
        }
    }
}

/// The text of the first child of the node at `parent` that is an element
/// named `tag`, if there is such a child and it has a text.
pub open spec fn spec_optional_text(nodes: Seq<XmlNode>, parent: int, tag: &str) -> Option<Seq<char>> {
    match spec_find_child(nodes, parent, NodeTest::Tag(tag), 0) {
        Some(child) => spec_text(nodes[child]),
        None => None,
    }
}

/// The level 5 block for the whole sequence: where the node at `output`
/// gives the aspect ratios of canvas and image as numbers and the size of
/// the canvas is known, the block that they ask for; else none.
pub open spec fn spec_global_level5(
    nodes: Seq<XmlNode>,
    output: int,
    opts: XmlParserOpts,
    oracle: Oracle,
) -> Option<BlockView> {
    match (
        spec_optional_text(nodes, output, "CanvasAspectRatio"),
        spec_optional_text(nodes, output, "ImageAspectRatio"),
        opts.canvas_width,
        opts.canvas_height,
    ) {
        (Some(canvas), Some(image), Some(width), Some(height)) => match usable_answer(
            oracle,
            NumberRequestView {
                formula: Formula::Level5,
                values: seq![canvas, image],
                peak_nits: 0,
                canvas_width: width,
                canvas_height: height,
            },
        ) {
            Some(numbers) => Some(level5_of(numbers)),
            None => None,
        },
        _ => None,
    }
}

/// What stands between the numbers of a list in a document of the given version.
pub open spec fn separator_for(cm_version: Seq<char>) -> char {
    if cm_version == "4.0.2"@ {
        ' '
    } else {
        ','
    }
}

/// What is read from the document with the given nodes:
///
/// - the version of the colour management, which decides what separates
///   the numbers of a list and where the trims stand;
/// - from the first `Output` element, the level 5 block for the whole sequence;
/// - from the first `Video` element below it, the light levels, the
///   target displays and the shots;
/// - the shots in the order of their first frames, of which there has to
///   be one, and the number of frames from the first frame of the first
///   shot to the last frame of the last.
pub open spec fn spec_from_nodes(nodes: Seq<XmlNode>, opts: XmlParserOpts, oracle: Oracle) -> Result<
    CmXmlParserView,
    XmlErrorView,
> {
    match spec_cm_version(nodes) {
        Err(e) => Err(e),
        Ok(cm_version) => match spec_find_descendant(nodes, 0, NodeTest::Tag("Output"), 0) {
            None => Err(XmlErrorView::XmlMissingNode(XmlPath::Output)),
            Some(output) => match spec_find_descendant(
                nodes,
                output,
                NodeTest::Tag("Video"),
                output,
            ) {
                None => Err(XmlErrorView::XmlMissingNode(XmlPath::Video)),
                Some(video) => match spec_level6(nodes, video) {
                    Err(e) => Err(e),
                    Ok((max_fall, max_cll)) => match spec_mastering_display(nodes, video, oracle) {
                        Err(e) => Err(e),
                        Ok((min_luminance, max_luminance)) => match spec_target_displays(
                            nodes,
                            video,
                        ) {
                            Err(e) => Err(e),
                            Ok(target_displays) => {
                                let ctx = TrimContext {
                                    cmv4: cm_version == "4.0.2"@,
                                    separator: separator_for(cm_version),
                                    displays: target_displays,
                                    canvas_width: opts.canvas_width,
                                    canvas_height: opts.canvas_height,
                                };
                                match spec_shots(nodes, video, ctx, oracle) {
                                    Err(e) => Err(e),
                                    Ok(shots) => {
                                        let shots = sorted_shots(shots);
                                        if shots.len() == 0 {
                                            Err(XmlErrorView::XmlMissingNode(XmlPath::Shot))
                                        } else {
                                            Ok(
                                                CmXmlParserView {
                                                    opts,
                                                    cm_version,
                                                    separator: separator_for(cm_version),
                                                    target_displays,
                                                    config: GenerateConfigView {
                                                        cm_version: if cm_version == "4.0.2"@ {
                                                            CmVersion::V40
                                                        } else {
                                                            CmVersion::V29
                                                        },
                                                        length: (shots.last().start
                                                            + shots.last().duration
                                                            - shots[0].start) as usize,
                                                        target_nits: 100,
                                                        source_min_pq: None,
                                                        source_max_pq: None,
                                                        shots,
                                                        level5: spec_global_level5(
                                                            nodes,
                                                            output,
                                                            opts,
                                                            oracle,
                                                        ),
                                                        level6: Some(
                                                            BlockView::of_kind(
                                                                crate::blocks::BlockKind::Level6,
                                                                6,
                                                                seq![
                                                                    max_luminance as u64,
                                                                    min_luminance as u64,
                                                                    max_cll as u64,
                                                                    max_fall as u64,
                                                                ],
                                                            ),
                                                        ),
                                                    },
                                                },
                                            )
                                        }
                                    },
                                }
                            },
                        },
                    },
                },
            },
        },
    }
}

/// What is read from a text: what its document holds, if it is one.
pub open spec fn spec_new(text: Seq<char>, opts: XmlParserOpts, oracle: Oracle) -> Result<
    CmXmlParserView,
    XmlErrorView,
> {
    match xml_document_nodes(text) {
        Some(nodes) => spec_from_nodes(nodes, opts, oracle),
        None => Err(XmlErrorView::Malformed),
    }
}

/// What `r` is as a result over views.
pub open spec fn parser_outcome(r: Result<CmXmlParser, XmlError>) -> Result<
    CmXmlParserView,
    XmlErrorView,
> {
    match r {
        Ok(parser) => Ok(parser@),
        Err(e) => Err(e@),
    }
}

/// Shots are compared by their first frames, which are numbers.
pub proof fn lemma_shot_le_total_preorder()
    ensures
        total_preorder(shot_le()),
{
    let le = shot_le();
    assert forall|a: VideoShotView, b: VideoShotView| #[trigger] le(a, b) || le(b, a) by {}
    assert forall|a: VideoShotView, b: VideoShotView, c: VideoShotView| #[trigger]
        le(a, b) && #[trigger] le(b, c) implies le(a, c) by {}
}

/// Whether every shot starts and lasts at most `max_frame()`.
pub open spec fn shots_bounded(shots: Seq<VideoShotView>) -> bool {
    forall|i: int|
        0 <= i < shots.len() ==> (#[trigger] shots[i]).start <= max_frame() && shots[i].duration
            <= max_frame()
}

/// Sorting shots that start and last at most `max_frame()` leaves them so,
/// and puts one that starts first in front.
pub proof fn lemma_sorted_shots_bounded(shots: Seq<VideoShotView>)
    requires
        shots_bounded(shots),
    ensures
        shots_bounded(sorted_shots(shots)),
        sorted_shots(shots).len() == shots.len(),
        shots.len() > 0 ==> sorted_shots(shots)[0].start <= sorted_shots(shots).last().start,
{
    broadcast use vstd::seq_lib::group_to_multiset_ensures;

    lemma_shot_le_total_preorder();
    lemma_stable_sort_properties(shots, shot_le());
    let sorted = sorted_shots(shots);
    assert forall|i: int| 0 <= i < sorted.len() implies (#[trigger] sorted[i]).start <= max_frame()
        && sorted[i].duration <= max_frame() by {
        assert(sorted.to_multiset().contains(sorted[i]));
        assert(shots.to_multiset().contains(sorted[i]));
        let k = choose|k: int| 0 <= k < shots.len() && shots[k] == sorted[i];
        assert(shots[k].start <= max_frame());
    }
    if sorted.len() > 1 {
        assert(shot_le()(sorted[0], sorted[sorted.len() - 1]));
    }
}

impl CmXmlParser {
    /// Sets the level 5 block for the whole sequence, where the node at
    /// `output` gives the aspect ratios of canvas and image as numbers and
    /// the size of the canvas is known; else leaves it as it is.
    pub fn parse_global_level5<F: Fn(&NumberRequest) -> Option<Vec<i32>>>(
        &mut self,
        tree: &XmlTree,
        output: usize,
        convert: &F,
    ) -> (r: Result<(), XmlError>)
        requires
            answers_all(convert),
        ensures
            r is Ok,
            forall|oracle: Oracle|
                answers_as(convert, oracle) ==> final(self)@ == (CmXmlParserView {
                    config: GenerateConfigView {
                        level5: match #[trigger] spec_global_level5(
                            tree.nodes@,
                            output as int,
                            old(self).opts,
                            oracle,
                        ) {
                            Some(block) => Some(block),
                            None => old(self)@.config.level5,
                        },
                        ..old(self)@.config
                    },
                    ..old(self)@
                }),
    {
        let canvas = match tree.find_child(output, &NodeTest::Tag("CanvasAspectRatio")) {
            Some(child) => tree.text(child),
            None => None,
        };
        let image = match tree.find_child(output, &NodeTest::Tag("ImageAspectRatio")) {
            Some(child) => tree.text(child),
            None => None,
        };
        match (canvas, image, self.opts.canvas_width, self.opts.canvas_height) {
            (Some(canvas), Some(image), Some(width), Some(height)) => {
                let request = NumberRequest {
                    formula: Formula::Level5,
                    values: vec![canvas.clone(), image.clone()],
                    peak_nits: 0,
                    canvas_width: width,
                    canvas_height: height,
                };
                assert(request@.values =~= seq![canvas@, image@]);
                if let Some(numbers) = ask(convert, &request) {
                    self.config.level5 = Some(ExtMetadataBlockLevel5::from_numbers(&numbers));
                }
            },
            _ => {},
        }
        Ok(())
    }

    /// Reads the document `tree`. The numbers that are not whole are
    /// computed by `convert`.
    pub fn from_tree<F: Fn(&NumberRequest) -> Option<Vec<i32>>>(
        tree: &XmlTree,
        opts: XmlParserOpts,
        convert: &F,
    ) -> (r: Result<CmXmlParser, XmlError>)
        requires
            answers_all(convert),
        ensures
            forall|oracle: Oracle|
                answers_as(convert, oracle) ==> parser_outcome(r) == #[trigger] spec_from_nodes(
                    tree.nodes@,
                    opts,
                    oracle,
                ),
    {
        let ghost nodes = tree.nodes@;
        let cm_version = match CmXmlParser::parse_cm_version(tree) {
            Ok(version) => version,
            Err(e) => {
                return Err(e);
            },
        };
        let mut parser = CmXmlParser {
            opts,
            cm_version,
            separator: ',',
            target_displays: Vec::new(),
            config: GenerateConfig::new(),
        };
        if parser.is_cmv4() {
            parser.separator = ' ';
        } else {
            parser.config.cm_version = CmVersion::V29;
        }
        let output = match tree.find_descendant(0, &NodeTest::Tag("Output")) {
            Some(output) => output,
            None => {
                return Err(XmlError::XmlMissingNode(XmlPath::Output));
            },
        };
        let ghost bare = parser@;
        assert(shot_views(parser.config.shots@) =~= Seq::<VideoShotView>::empty());
        let _ = parser.parse_global_level5(tree, output, convert);
        let video = match tree.find_descendant(output, &NodeTest::Tag("Video")) {
            Some(video) => video,
            None => {
                return Err(XmlError::XmlMissingNode(XmlPath::Video));
            },
        };
        let (max_fall, max_cll) = match CmXmlParser::parse_level6(tree, video) {
            Ok(levels) => levels,
            Err(e) => {
                return Err(e);
            },
        };
        let mastering = CmXmlParser::parse_mastering_display_metadata(tree, video, convert);
        let (min_luminance, max_luminance) = match mastering {
            Ok(range) => range,
            Err(e) => {
                assert forall|oracle: Oracle| answers_as(convert, oracle) implies parser_outcome(
                    Err(e),
                ) == #[trigger] spec_from_nodes(nodes, opts, oracle) by {
                    assert((match mastering {
                        Ok(range) => Ok(range),
                        Err(e) => Err(e@),
                    }) == spec_mastering_display(nodes, video as int, oracle));
                }
                return Err(e);
            },
        };
        let level6 = ExtMetadataBlockLevel6::from_levels(
            max_luminance,
            min_luminance,
            max_cll,
            max_fall,
        );
        parser.config.level6 = Some(level6);
        parser.target_displays = match CmXmlParser::parse_target_displays(tree, video) {
            Ok(displays) => displays,
            Err(e) => {
                assert forall|oracle: Oracle| answers_as(convert, oracle) implies parser_outcome(
                    Err(e),
                ) == #[trigger] spec_from_nodes(nodes, opts, oracle) by {
                    assert((match mastering {
                        Ok(range) => Ok(range),
                        Err(e) => Err(e@),
                    }) == spec_mastering_display(nodes, video as int, oracle));
                }
                return Err(e);
            },
        };
        let ghost ctx = parser.context();
        let read = parser.parse_shots(tree, video, convert);
        let mut shots = match read {
            Ok(shots) => shots,
            Err(e) => {
                assert forall|oracle: Oracle| answers_as(convert, oracle) implies parser_outcome(
                    Err(e),
                ) == #[trigger] spec_from_nodes(nodes, opts, oracle) by {
                    assert((match mastering {
                        Ok(range) => Ok(range),
                        Err(e) => Err(e@),
                    }) == spec_mastering_display(nodes, video as int, oracle));
                    assert(shots_outcome(read) == spec_shots(nodes, video as int, ctx, oracle));
                }
                return Err(e);
            },
        };
        let ghost unsorted = shot_views(shots@);
        sort_shots(&mut shots);
        if shots.len() == 0 {
            assert forall|oracle: Oracle| answers_as(convert, oracle) implies parser_outcome(
                Err(XmlError::XmlMissingNode(XmlPath::Shot)),
            ) == #[trigger] spec_from_nodes(nodes, opts, oracle) by {
                assert((match mastering {
                    Ok(range) => Ok(range),
                    Err(e) => Err(e@),
                }) == spec_mastering_display(nodes, video as int, oracle));
                assert(shots_outcome(read) == spec_shots(nodes, video as int, ctx, oracle));
            }
            return Err(XmlError::XmlMissingNode(XmlPath::Shot));
        }
        let first_start = shots[0].start;
        let last = &shots[shots.len() - 1];
        let ghost sorted = shot_views(shots@);
        proof {
            lemma_sorted_shots_bounded(unsorted);
            assert(sorted[0].start == first_start);
            assert(sorted.last() == last@);
            assert(sorted[sorted.len() - 1].start <= max_frame());
        }
        parser.config.length = last.start + last.duration - first_start;
        parser.config.shots = shots;
        proof {
            assert forall|oracle: Oracle| answers_as(convert, oracle) implies parser_outcome(
                Ok(parser),
            ) == #[trigger] spec_from_nodes(nodes, opts, oracle) by {
                assert((match mastering {
                    Ok(range) => Ok(range),
                    Err(e) => Err(e@),
                }) == spec_mastering_display(nodes, video as int, oracle));
                assert(shots_outcome(read) == spec_shots(nodes, video as int, ctx, oracle));
                let global = spec_global_level5(nodes, output as int, opts, oracle);
                assert(parser@.config.level6 == Some(
                    BlockView::of_kind(
                        crate::blocks::BlockKind::Level6,
                        6,
                        seq![
                            max_luminance as u64,
                            min_luminance as u64,
                            max_cll as u64,
                            max_fall as u64,
                        ],
                    ),
                )) by {
                    assert(ExtMetadataBlock::Level6(level6)@.fields =~= seq![
                        max_luminance as u64,
                        min_luminance as u64,
                        max_cll as u64,
                        max_fall as u64,
                    ]);
                }
                assert(parser@.config.level5 == global);
            }
        }
        Ok(parser)
    }

    /// Reads the document that `s` holds. The numbers that are not whole
    /// are computed by `convert`.
    pub fn new<F: Fn(&NumberRequest) -> Option<Vec<i32>>>(
        s: String,
        opts: XmlParserOpts,
        convert: &F,
    ) -> (r: Result<CmXmlParser, XmlError>)
        requires
            answers_all(convert),
        ensures
            forall|oracle: Oracle|
                answers_as(convert, oracle) ==> parser_outcome(r) == #[trigger] spec_new(
                    s@,
                    opts,
                    oracle,
                ),
    {
        match XmlTree::parse(s.as_str()) {
            Some(tree) => {
                let r = CmXmlParser::from_tree(&tree, opts, convert);
                assert forall|oracle: Oracle| answers_as(convert, oracle) implies parser_outcome(r)
                    == #[trigger] spec_new(s@, opts, oracle) by {
                    assert(parser_outcome(r) == spec_from_nodes(tree.nodes@, opts, oracle));
                }
                r
            },
            None => Err(XmlError::Malformed),
        }
    }
}


/// Whether neither the blocks of `shot` nor those of its frame edits are
/// of level 8 or of level 9.
pub open spec fn shot_without_levels_8_and_9(shot: VideoShotView) -> bool {
    &&& without_levels_8_and_9(shot.blocks)
    &&& forall|i: int|
        0 <= i < shot.frame_edits.len() ==> without_levels_8_and_9(
            (#[trigger] shot.frame_edits[i]).blocks,
        )
}

/// The frame edits of a document that is not of version 4 have no block of
/// level 8 or of level 9.
pub proof fn lemma_version_29_frame_edits(
    nodes: Seq<XmlNode>,
    found: Seq<usize>,
    ctx: TrimContext,
    oracle: Oracle,
)
    requires
        !ctx.cmv4,
        spec_frame_edits_of(nodes, found, ctx, oracle) is Ok,
    ensures
        forall|i: int|
            0 <= i < spec_frame_edits_of(nodes, found, ctx, oracle)->Ok_0.len()
                ==> without_levels_8_and_9(
                (#[trigger] spec_frame_edits_of(nodes, found, ctx, oracle)->Ok_0[i]).blocks,
            ),
    decreases found.len(),
{
    if found.len() > 0 {
        lemma_version_29_frame_edits(nodes, found.drop_last(), ctx, oracle);
        let frame = found.last() as int;
        lemma_version_29_has_no_level_8_or_9(nodes, spec_trim_nodes(nodes, frame, ctx), ctx, oracle);
        let front = spec_frame_edits_of(nodes, found.drop_last(), ctx, oracle)->Ok_0;
        let all = spec_frame_edits_of(nodes, found, ctx, oracle)->Ok_0;
        assert forall|i: int| 0 <= i < all.len() implies without_levels_8_and_9(
            (#[trigger] all[i]).blocks,
        ) by {
            if i < front.len() {
                assert(all[i] == front[i]);
            }
        }
    }
}

/// The shots of a document that is not of version 4 have no block of
/// level 8 or of level 9, neither of their own nor in a frame edit.
pub proof fn lemma_version_29_shots(
    nodes: Seq<XmlNode>,
    found: Seq<usize>,
    ctx: TrimContext,
    oracle: Oracle,
)
    requires
        !ctx.cmv4,
        spec_shots_of(nodes, found, ctx, oracle) is Ok,
    ensures
        forall|i: int|
            0 <= i < spec_shots_of(nodes, found, ctx, oracle)->Ok_0.len()
                ==> shot_without_levels_8_and_9(
                #[trigger] spec_shots_of(nodes, found, ctx, oracle)->Ok_0[i],
            ),
    decreases found.len(),
{
    if found.len() > 0 {
        lemma_version_29_shots(nodes, found.drop_last(), ctx, oracle);
        let shot = found.last() as int;
        lemma_version_29_has_no_level_8_or_9(nodes, spec_trim_nodes(nodes, shot, ctx), ctx, oracle);
        lemma_version_29_frame_edits(
            nodes,
            spec_children(nodes, shot, NodeTest::Tag("Frame"), nodes.len() as int),
            ctx,
            oracle,
        );
        let front = spec_shots_of(nodes, found.drop_last(), ctx, oracle)->Ok_0;
        let all = spec_shots_of(nodes, found, ctx, oracle)->Ok_0;
        assert forall|i: int| 0 <= i < all.len() implies shot_without_levels_8_and_9(
            #[trigger] all[i],
        ) by {
            if i < front.len() {
                assert(all[i] == front[i]);
            }
        }
    }
}

/// What is read from a document that is not of version 4 of the colour
/// management has no block of level 8 or of level 9 in any shot.
pub proof fn lemma_version_29_gives_no_level_8_or_9(
    nodes: Seq<XmlNode>,
    opts: XmlParserOpts,
    oracle: Oracle,
)
    requires
        spec_from_nodes(nodes, opts, oracle) is Ok,
        spec_from_nodes(nodes, opts, oracle)->Ok_0.cm_version != "4.0.2"@,
    ensures
        spec_from_nodes(nodes, opts, oracle)->Ok_0.config.cm_version == CmVersion::V29,
        forall|i: int|
            0 <= i < spec_from_nodes(nodes, opts, oracle)->Ok_0.config.shots.len()
                ==> shot_without_levels_8_and_9(
                #[trigger] spec_from_nodes(nodes, opts, oracle)->Ok_0.config.shots[i],
            ),
{
    broadcast use vstd::seq_lib::group_to_multiset_ensures;

    let parser = spec_from_nodes(nodes, opts, oracle)->Ok_0;
    let cm_version = spec_cm_version(nodes)->Ok_0;
    let output = spec_find_descendant(nodes, 0, NodeTest::Tag("Output"), 0)->Some_0;
    let video = spec_find_descendant(nodes, output, NodeTest::Tag("Video"), output)->Some_0;
    let target_displays = spec_target_displays(nodes, video)->Ok_0;
    let ctx = TrimContext {
        cmv4: cm_version == "4.0.2"@,
        separator: separator_for(cm_version),
        displays: target_displays,
        canvas_width: opts.canvas_width,
        canvas_height: opts.canvas_height,
    };
    let found = spec_descendants(nodes, video, NodeTest::Tag("Shot"), nodes.len() as int);
    lemma_version_29_shots(nodes, found, ctx, oracle);
    let unsorted = spec_shots_of(nodes, found, ctx, oracle)->Ok_0;
    let sorted = sorted_shots(unsorted);
    lemma_shot_le_total_preorder();
    lemma_stable_sort_properties(unsorted, shot_le());
    assert(parser.config.shots == sorted);
    assert forall|i: int| 0 <= i < sorted.len() implies shot_without_levels_8_and_9(
        #[trigger] sorted[i],
    ) by {
        assert(sorted.to_multiset().contains(sorted[i]));
        assert(unsorted.to_multiset().contains(sorted[i]));
        let k = choose|k: int| 0 <= k < unsorted.len() && unsorted[k] == sorted[i];
        assert(shot_without_levels_8_and_9(unsorted[k]));
    }
}

} // verus!
