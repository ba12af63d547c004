//! Reading a metadata document: the trims of a shot or of a frame.

use vstd::prelude::*;
use crate::block_order::block_views;
use crate::blocks::{BlockKind, BlockView, ExtMetadataBlock, ExtMetadataBlockLevel1, ExtMetadataBlockLevel2,
    ExtMetadataBlockLevel3, ExtMetadataBlockLevel5, ExtMetadataBlockLevel8, ExtMetadataBlockLevel9};
use crate::error::{XmlError, XmlErrorView, XmlPath};
use crate::text::{split, spec_split, str_eq, string_views};
use crate::xml_numbers::{answers_all, answers_as, ask, level1_of, level2_of, level3_of, level5_of,
    level8_of, level9_of, usable_answer, Formula, NumberRequest, NumberRequestView, Oracle};
use crate::xml_parser::{child_text, spec_child_text, spec_find_target, spec_whole_number,
    target_display_views, whole_number, CmXmlParser};
use crate::xml_tree::{spec_attribute, spec_children, spec_find_descendant, NodeTest, XmlNode,
    XmlTree};

verus! {

/// What the reading of a trim depends on besides the document.
pub struct TrimContext {
    /// Whether the document is of version 4 of the colour management.
    pub cmv4: bool,
    /// What stands between the numbers of a list.
    pub separator: char,
    /// The target displays, with their peaks in nits.
    pub displays: Seq<(Seq<char>, u16)>,
    pub canvas_width: Option<u16>,
    pub canvas_height: Option<u16>,
}

impl CmXmlParser {
    /// What the reading of a trim depends on besides the document.
    pub open spec fn context(&self) -> TrimContext {
        TrimContext {
            cmv4: self.cm_version@ == "4.0.2"@,
            separator: self.separator,
            displays: target_display_views(self.target_displays@),
            canvas_width: self.opts.canvas_width,
            canvas_height: self.opts.canvas_height,
        }
    }
}

/// A request for `formula` with the given numbers and nothing else.
pub open spec fn plain_request(formula: Formula, values: Seq<Seq<char>>) -> NumberRequestView {
    NumberRequestView { formula, values, peak_nits: 0, canvas_width: 0, canvas_height: 0 }
}

/// The numbers of the list in the child named `tag` of the node at `node`,
/// which have to be `count`, and the text they stand in.
pub open spec fn spec_number_list(
    nodes: Seq<XmlNode>,
    node: int,
    tag: &str,
    path: XmlPath,
    separator: char,
    count: nat,
) -> Result<(Seq<Seq<char>>, Seq<char>), XmlErrorView> {
    match spec_child_text(nodes, node, tag, path) {
        Err(e) => Err(e),
        Ok(text) => if spec_split(text, separator).len() == count {
            Ok((spec_split(text, separator), text))
        } else {
            Err(XmlErrorView::XmlBadNumber(path, text))
        },
    }
}

/// The level 1 block of the element at `node`: from the three numbers `min,
/// avg, max` of its `ImageCharacter`.
pub open spec fn spec_level1_trim(nodes: Seq<XmlNode>, node: int, ctx: TrimContext, oracle: Oracle) -> Result<
    BlockView,
    XmlErrorView,
> {
    match spec_number_list(nodes, node, "ImageCharacter", XmlPath::ImageCharacter, ctx.separator, 3) {
        Err(e) => Err(e),
        Ok((values, text)) => match usable_answer(oracle, plain_request(Formula::Level1, values)) {
            Some(numbers) => Ok(level1_of(numbers)),
            None => Err(XmlErrorView::XmlBadNumber(XmlPath::ImageCharacter, text)),
        },
    }
}

/// The target display that the `TID` of the element at `node` names.
pub open spec fn spec_trim_target(nodes: Seq<XmlNode>, node: int, ctx: TrimContext) -> Result<
    (Seq<char>, u16),
    XmlErrorView,
> {
    match spec_child_text(nodes, node, "TID", XmlPath::Tid) {
        Err(e) => Err(e),
        Ok(id) => match spec_find_target(ctx.displays, id) {
            Some(at) => Ok(ctx.displays[at]),
            None => Err(XmlErrorView::XmlMissingNode(XmlPath::TargetDisplay)),
        },
    }
}

/// The level 2 block of the element at `node`: for the target display that
/// its `TID` names, from the last six of the nine numbers of its `Trim`.
pub open spec fn spec_level2_trim(nodes: Seq<XmlNode>, node: int, ctx: TrimContext, oracle: Oracle) -> Result<
    BlockView,
    XmlErrorView,
> {
    match spec_child_text(nodes, node, "TID", XmlPath::Tid) {
        Err(e) => Err(e),
        Ok(_) => match spec_child_text(nodes, node, "Trim", XmlPath::Trim) {
            Err(e) => Err(e),
            Ok(_) => match spec_trim_target(nodes, node, ctx) {
                Err(e) => Err(e),
                Ok(target) => match spec_number_list(
                    nodes,
                    node,
                    "Trim",
                    XmlPath::Trim,
                    ctx.separator,
                    9,
                ) {
                    Err(e) => Err(e),
                    Ok((values, text)) => match usable_answer(
                        oracle,
                        NumberRequestView {
                            formula: Formula::Level2,
                            values: values.skip(3),
                            peak_nits: target.1,
                            canvas_width: 0,
                            canvas_height: 0,
                        },
                    ) {
                        Some(numbers) => Ok(level2_of(numbers)),
                        None => Err(XmlErrorView::XmlBadNumber(XmlPath::Trim, text)),
                    },
                },
            },
        },
    }
}

/// The level 3 block of the element at `node`: from the three numbers `min,
/// avg, max` of its `L1Offset`.
pub open spec fn spec_level3_trim(nodes: Seq<XmlNode>, node: int, ctx: TrimContext, oracle: Oracle) -> Result<
    BlockView,
    XmlErrorView,
> {
    match spec_number_list(nodes, node, "L1Offset", XmlPath::L1Offset, ctx.separator, 3) {
        Err(e) => Err(e),
        Ok((values, text)) => match usable_answer(oracle, plain_request(Formula::Level3, values)) {
            Some(numbers) => Ok(level3_of(numbers)),
            None => Err(XmlErrorView::XmlBadNumber(XmlPath::L1Offset, text)),
        },
    }
}

/// The level 5 block of the element at `node`: from the two aspect ratios
/// of its `AspectRatios`, canvas and image, and the size of the canvas,
/// which has to be known.
pub open spec fn spec_level5_trim(nodes: Seq<XmlNode>, node: int, ctx: TrimContext, oracle: Oracle) -> Result<
    BlockView,
    XmlErrorView,
> {
    match spec_number_list(nodes, node, "AspectRatios", XmlPath::AspectRatios, ctx.separator, 2) {
        Err(e) => Err(e),
        Ok((values, text)) => match (ctx.canvas_width, ctx.canvas_height) {
            (Some(width), Some(height)) => match usable_answer(
                oracle,
                NumberRequestView {
                    formula: Formula::Level5,
                    values,
                    peak_nits: 0,
                    canvas_width: width,
                    canvas_height: height,
                },
            ) {
                Some(numbers) => Ok(level5_of(numbers)),
                None => Err(XmlErrorView::XmlBadNumber(XmlPath::AspectRatios, text)),
            },
            _ => Err(XmlErrorView::XmlMissingCanvas),
        },
    }
}

/// The level 8 block of the element at `node`: for the target display that
/// its `TID` names, whose id has to be a number of at most 255, from the
/// six numbers of its `L8Trim`.
pub open spec fn spec_level8_trim(nodes: Seq<XmlNode>, node: int, ctx: TrimContext, oracle: Oracle) -> Result<
    BlockView,
    XmlErrorView,
> {
    match spec_child_text(nodes, node, "TID", XmlPath::Tid) {
        Err(e) => Err(e),
        Ok(_) => match spec_child_text(nodes, node, "L8Trim", XmlPath::L8Trim) {
            Err(e) => Err(e),
            Ok(_) => match spec_trim_target(nodes, node, ctx) {
                Err(e) => Err(e),
                Ok(target) => match spec_number_list(
                    nodes,
                    node,
                    "L8Trim",
                    XmlPath::L8Trim,
                    ctx.separator,
                    6,
                ) {
                    Err(e) => Err(e),
                    Ok((values, text)) => match spec_whole_number(
                        target.0,
                        255,
                        XmlPath::TargetDisplayId,
                    ) {
                        Err(e) => Err(e),
                        Ok(index) => match usable_answer(
                            oracle,
                            plain_request(Formula::Level8, values),
                        ) {
                            Some(numbers) => Ok(level8_of(index as u8, numbers)),
                            None => Err(XmlErrorView::XmlBadNumber(XmlPath::L8Trim, text)),
                        },
                    },
                },
            },
        },
    }
}

/// The level 9 block of the element at `node`: from the number of at most
/// 255 in its `SourceColorModel`.
pub open spec fn spec_level9_trim(nodes: Seq<XmlNode>, node: int) -> Result<BlockView, XmlErrorView> {
    match spec_child_text(nodes, node, "SourceColorModel", XmlPath::SourceColorModel) {
        Err(e) => Err(e),
        Ok(text) => match spec_whole_number(text, 255, XmlPath::SourceColorModel) {
            Err(e) => Err(e),
            Ok(index) => Ok(level9_of(index as u8)),
        },
    }
}

/// The block of the element at `node`, which announces `level`: one for
/// the levels 1, 2, 3 and 5, and in a document of version 4 also for the
/// levels 8 and 9; none for every other level.
pub open spec fn spec_trim_block(
    nodes: Seq<XmlNode>,
    node: int,
    level: Seq<char>,
    ctx: TrimContext,
    oracle: Oracle,
) -> Result<Option<BlockView>, XmlErrorView> {
    let block = if level == "1"@ {
        Some(spec_level1_trim(nodes, node, ctx, oracle))
    } else if level == "2"@ {
        Some(spec_level2_trim(nodes, node, ctx, oracle))
    } else if level == "3"@ {
        Some(spec_level3_trim(nodes, node, ctx, oracle))
    } else if level == "5"@ {
        Some(spec_level5_trim(nodes, node, ctx, oracle))
    } else if level == "8"@ && ctx.cmv4 {
        Some(spec_level8_trim(nodes, node, ctx, oracle))
    } else if level == "9"@ && ctx.cmv4 {
        Some(spec_level9_trim(nodes, node))
    } else {
        None
    };
    match block {
        Some(Ok(block)) => Ok(Some(block)),
        Some(Err(e)) => Err(e),
        None => Ok(None),
    }
}

/// `blocks` with the block of the element at `node`, which announces
/// `level`, behind them, if that level has one.
pub open spec fn spec_push_trim(
    blocks: Seq<BlockView>,
    nodes: Seq<XmlNode>,
    node: int,
    level: Seq<char>,
    ctx: TrimContext,
    oracle: Oracle,
) -> Result<Seq<BlockView>, XmlErrorView> {
    match spec_trim_block(nodes, node, level, ctx, oracle) {
        Err(e) => Err(e),
        Ok(Some(block)) => Ok(blocks.push(block)),
        Ok(None) => Ok(blocks),
    }
}

/// The blocks of the elements at `found`, in that order, or the error of
/// the first that has none where it should.
pub open spec fn spec_trims_of(
    nodes: Seq<XmlNode>,
    found: Seq<usize>,
    ctx: TrimContext,
    oracle: Oracle,
) -> Result<Seq<BlockView>, XmlErrorView>
    decreases found.len(),
{
    if found.len() == 0 {
        Ok(Seq::empty())
    } else {
        match spec_trims_of(nodes, found.drop_last(), ctx, oracle) {
            Err(e) => Err(e),
            Ok(blocks) => match spec_attribute(nodes[found.last() as int], "level"@) {
                None => Ok(blocks),
                Some(level) => spec_push_trim(blocks, nodes, found.last() as int, level, ctx, oracle),
            },
        }
    }
}

/// The elements that hold the trims below the node at `node`: in a document
/// of version 4 the children with a `level` of the first `DVDynamicData`,
/// else the `DolbyEDR` children with a `level` of the first `PluginNode`.
pub open spec fn spec_trim_nodes(nodes: Seq<XmlNode>, node: int, ctx: TrimContext) -> Seq<usize> {
    if ctx.cmv4 {
        match spec_find_descendant(nodes, node, NodeTest::Tag("DVDynamicData"), node) {
            Some(holder) => spec_children(
                nodes,
                holder,
                NodeTest::Attribute("level"),
                nodes.len() as int,
            ),
            None => Seq::empty(),
        }
    } else {
        match spec_find_descendant(nodes, node, NodeTest::Tag("PluginNode"), node) {
            Some(holder) => spec_children(
                nodes,
                holder,
                NodeTest::TagWithAttribute("DolbyEDR", "level"),
                nodes.len() as int,
            ),
            None => Seq::empty(),
        }
    }
}

/// The blocks of the trims below the node at `node`, in document order.
pub open spec fn spec_shot_trims(nodes: Seq<XmlNode>, node: int, ctx: TrimContext, oracle: Oracle) -> Result<
    Seq<BlockView>,
    XmlErrorView,
> {
    spec_trims_of(nodes, spec_trim_nodes(nodes, node, ctx), ctx, oracle)
}

/// An error for the first of `found` is the error for all of them.
pub proof fn lemma_trims_prefix_error(
    nodes: Seq<XmlNode>,
    found: Seq<usize>,
    ctx: TrimContext,
    oracle: Oracle,
    n: int,
)
    requires
        0 <= n <= found.len(),
    ensures
        spec_trims_of(nodes, found.take(n), ctx, oracle) is Err ==> spec_trims_of(
            nodes,
            found,
            ctx,
            oracle,
        ) == Err::<Seq<BlockView>, _>(spec_trims_of(nodes, found.take(n), ctx, oracle)->Err_0),
    decreases found.len() - n,
{
    if n < found.len() {
        assert(found.take(n + 1).drop_last() =~= found.take(n));
        lemma_trims_prefix_error(nodes, found, ctx, oracle, n + 1);
    } else {
        assert(found.take(n) =~= found);
    }
}

/// The numbers of the list in the child named `tag` of the node at `node`,
/// which have to be `count`, and the text they stand in.
pub fn number_list<'a>(
    tree: &'a XmlTree,
    node: usize,
    tag: &str,
    path: XmlPath,
    separator: char,
    count: usize,
) -> (r: Result<(Vec<String>, &'a String), XmlError>)
    ensures
        match r {
            Ok((values, text)) => spec_number_list(
                tree.nodes@,
                node as int,
                tag,
                path,
                separator,
                count as nat,
            ) == Ok::<_, XmlErrorView>((string_views(values@), text@)) && values@.len() == count,
            Err(e) => spec_number_list(tree.nodes@, node as int, tag, path, separator, count as nat)
                == Err::<(Seq<Seq<char>>, Seq<char>), _>(e@),
        },
{
    let text = match child_text(tree, node, tag, path) {
        Ok(text) => text,
        Err(e) => {
            return Err(e);
        },
    };
    let values = split(text.as_str(), separator);
    if values.len() != count {
        return Err(XmlError::XmlBadNumber(path, text.clone()));
    }
    Ok((values, text))
}

impl CmXmlParser {
    /// The level 1 block of the element at `node`.
    pub fn parse_level1_trim<F: Fn(&NumberRequest) -> Option<Vec<i32>>>(
        &self,
        tree: &XmlTree,
        node: usize,
        convert: &F,
    ) -> (r: Result<ExtMetadataBlockLevel1, XmlError>)
        requires
            answers_all(convert),
        ensures
            forall|oracle: Oracle|
                answers_as(convert, oracle) ==> (match r {
                    Ok(block) => Ok(ExtMetadataBlock::Level1(block)@),
                    Err(e) => Err(e@),
                }) == #[trigger] spec_level1_trim(tree.nodes@, node as int, self.context(), oracle),
    {
        let (values, text) = match number_list(
            tree,
            node,
            "ImageCharacter",
            XmlPath::ImageCharacter,
            self.separator,
            3,
        ) {
            Ok(list) => list,
            Err(e) => {
                return Err(e);
            },
        };
        let request = NumberRequest {
            formula: Formula::Level1,
            values,
            peak_nits: 0,
            canvas_width: 0,
            canvas_height: 0,
        };
        match ask(convert, &request) {
            Some(numbers) => Ok(ExtMetadataBlockLevel1::from_numbers(&numbers)),
            None => Err(XmlError::XmlBadNumber(XmlPath::ImageCharacter, text.clone())),
        }
    }

    /// The target display that the `TID` of the element at `node` names.
    pub fn trim_target<'a>(&'a self, tree: &XmlTree, node: usize) -> (r: Result<
        &'a crate::xml_parser::TargetDisplay,
        XmlError,
    >)
        ensures
            match r {
                Ok(display) => spec_trim_target(tree.nodes@, node as int, self.context()) == Ok::<
                    _,
                    XmlErrorView,
                >((display.id@, display.peak_nits)),
                Err(e) => spec_trim_target(tree.nodes@, node as int, self.context()) == Err::<
                    (Seq<char>, u16),
                    _,
                >(e@),
            },
    {
        let id = match child_text(tree, node, "TID", XmlPath::Tid) {
            Ok(text) => text,
            Err(e) => {
                return Err(e);
            },
        };
        match CmXmlParser::find_target(&self.target_displays, id.as_str()) {
            Some(display) => {
                proof {
                    let views = target_display_views(self.target_displays@);
                    let at = spec_find_target(views, id@)->Some_0;
                    crate::xml_parser::lemma_find_target_in_range(views, id@);
                    assert(views[at] == (display.id@, display.peak_nits));
                }
                Ok(display)
            },
            None => Err(XmlError::XmlMissingNode(XmlPath::TargetDisplay)),
        }
    }

    /// The level 2 block of the element at `node`.
    pub fn parse_level2_trim<F: Fn(&NumberRequest) -> Option<Vec<i32>>>(
        &self,
        tree: &XmlTree,
        node: usize,
        convert: &F,
    ) -> (r: Result<ExtMetadataBlockLevel2, XmlError>)
        requires
            answers_all(convert),
        ensures
            forall|oracle: Oracle|
                answers_as(convert, oracle) ==> (match r {
                    Ok(block) => Ok(ExtMetadataBlock::Level2(block)@),
                    Err(e) => Err(e@),
                }) == #[trigger] spec_level2_trim(tree.nodes@, node as int, self.context(), oracle),
    {
        if let Err(e) = child_text(tree, node, "TID", XmlPath::Tid) {
            return Err(e);
        }
        if let Err(e) = child_text(tree, node, "Trim", XmlPath::Trim) {
            return Err(e);
        }
        let target = match self.trim_target(tree, node) {
            Ok(target) => target,
            Err(e) => {
                return Err(e);
            },
        };
        let (mut values, text) = match number_list(
            tree,
            node,
            "Trim",
            XmlPath::Trim,
            self.separator,
            9,
        ) {
            Ok(list) => list,
            Err(e) => {
                return Err(e);
            },
        };
        let ghost all = string_views(values@);
        values.remove(0);
        values.remove(0);
        values.remove(0);
        assert(string_views(values@) =~= all.skip(3));
        let request = NumberRequest {
            formula: Formula::Level2,
            values,
            peak_nits: target.peak_nits,
            canvas_width: 0,
            canvas_height: 0,
        };
        match ask(convert, &request) {
            Some(numbers) => Ok(ExtMetadataBlockLevel2::from_numbers(&numbers)),
            None => Err(XmlError::XmlBadNumber(XmlPath::Trim, text.clone())),
        }
    }

    /// The level 3 block of the element at `node`.
    pub fn parse_level3_trim<F: Fn(&NumberRequest) -> Option<Vec<i32>>>(
        &self,
        tree: &XmlTree,
        node: usize,
        convert: &F,
    ) -> (r: Result<ExtMetadataBlockLevel3, XmlError>)
        requires
            answers_all(convert),
        ensures
            forall|oracle: Oracle|
                answers_as(convert, oracle) ==> (match r {
                    Ok(block) => Ok(ExtMetadataBlock::Level3(block)@),
                    Err(e) => Err(e@),
                }) == #[trigger] spec_level3_trim(tree.nodes@, node as int, self.context(), oracle),
    {
        let (values, text) = match number_list(
            tree,
            node,
            "L1Offset",
            XmlPath::L1Offset,
            self.separator,
            3,
        ) {
            Ok(list) => list,
            Err(e) => {
                return Err(e);
            },
        };
        let request = NumberRequest {
            formula: Formula::Level3,
            values,
            peak_nits: 0,
            canvas_width: 0,
            canvas_height: 0,
        };
        match ask(convert, &request) {
            Some(numbers) => Ok(ExtMetadataBlockLevel3::from_numbers(&numbers)),
            None => Err(XmlError::XmlBadNumber(XmlPath::L1Offset, text.clone())),
        }
    }

    /// The level 5 block of the element at `node`.
    pub fn parse_level5_trim<F: Fn(&NumberRequest) -> Option<Vec<i32>>>(
        &self,
        tree: &XmlTree,
        node: usize,
        convert: &F,
    ) -> (r: Result<ExtMetadataBlockLevel5, XmlError>)
        requires
            answers_all(convert),
        ensures
            forall|oracle: Oracle|
                answers_as(convert, oracle) ==> (match r {
                    Ok(block) => Ok(ExtMetadataBlock::Level5(block)@),
                    Err(e) => Err(e@),
                }) == #[trigger] spec_level5_trim(tree.nodes@, node as int, self.context(), oracle),
    {
        let (values, text) = match number_list(
            tree,
            node,
            "AspectRatios",
            XmlPath::AspectRatios,
            self.separator,
            2,
        ) {
            Ok(list) => list,
            Err(e) => {
                return Err(e);
            },
        };
        let (width, height) = match (self.opts.canvas_width, self.opts.canvas_height) {
            (Some(width), Some(height)) => (width, height),
            _ => {
                return Err(XmlError::XmlMissingCanvas);
            },
        };
        let request = NumberRequest {
            formula: Formula::Level5,
            values,
            peak_nits: 0,
            canvas_width: width,
            canvas_height: height,
        };
        match ask(convert, &request) {
            Some(numbers) => Ok(ExtMetadataBlockLevel5::from_numbers(&numbers)),
            None => Err(XmlError::XmlBadNumber(XmlPath::AspectRatios, text.clone())),
        }
    }

    /// The level 8 block of the element at `node`.
    pub fn parse_level8_trim<F: Fn(&NumberRequest) -> Option<Vec<i32>>>(
        &self,
        tree: &XmlTree,
        node: usize,
        convert: &F,
    ) -> (r: Result<ExtMetadataBlockLevel8, XmlError>)
        requires
            answers_all(convert),
        ensures
            forall|oracle: Oracle|
                answers_as(convert, oracle) ==> (match r {
                    Ok(block) => Ok(ExtMetadataBlock::Level8(block)@),
                    Err(e) => Err(e@),
                }) == #[trigger] spec_level8_trim(tree.nodes@, node as int, self.context(), oracle),
    {
        if let Err(e) = child_text(tree, node, "TID", XmlPath::Tid) {
            return Err(e);
        }
        if let Err(e) = child_text(tree, node, "L8Trim", XmlPath::L8Trim) {
            return Err(e);
        }
        let target = match self.trim_target(tree, node) {
            Ok(target) => target,
            Err(e) => {
                return Err(e);
            },
        };
        let (values, text) = match number_list(
            tree,
            node,
            "L8Trim",
            XmlPath::L8Trim,
            self.separator,
            6,
        ) {
            Ok(list) => list,
            Err(e) => {
                return Err(e);
            },
        };
        let index = match whole_number(&target.id, 255, XmlPath::TargetDisplayId) {
            Ok(index) => index as u8,
            Err(e) => {
                return Err(e);
            },
        };
        let request = NumberRequest {
            formula: Formula::Level8,
            values,
            peak_nits: 0,
            canvas_width: 0,
            canvas_height: 0,
        };
        match ask(convert, &request) {
            Some(numbers) => Ok(ExtMetadataBlockLevel8::from_numbers(index, &numbers)),
            None => Err(XmlError::XmlBadNumber(XmlPath::L8Trim, text.clone())),
        }
    }

    /// The level 9 block of the element at `node`.
    pub fn parse_level9_trim(&self, tree: &XmlTree, node: usize) -> (r: Result<
        ExtMetadataBlockLevel9,
        XmlError,
    >)
        ensures
            match r {
                Ok(block) => spec_level9_trim(tree.nodes@, node as int) == Ok::<_, XmlErrorView>(
                    ExtMetadataBlock::Level9(block)@,
                ),
                Err(e) => spec_level9_trim(tree.nodes@, node as int) == Err::<BlockView, _>(e@),
            },
    {
        let text = match child_text(tree, node, "SourceColorModel", XmlPath::SourceColorModel) {
            Ok(text) => text,
            Err(e) => {
                return Err(e);
            },
        };
        let index = match whole_number(text, 255, XmlPath::SourceColorModel) {
            Ok(index) => index as u8,
            Err(e) => {
                return Err(e);
            },
        };
        let block = ExtMetadataBlockLevel9::from_index(index);
        assert(ExtMetadataBlock::Level9(block)@.fields =~= level9_of(index).fields);
        Ok(block)
    }
}


/// What `r` is as a result over views.
pub open spec fn blocks_outcome(r: Result<(), XmlError>, blocks: Seq<ExtMetadataBlock>) -> Result<
    Seq<BlockView>,
    XmlErrorView,
> {
    match r {
        Ok(()) => Ok(block_views(blocks)),
        Err(e) => Err(e@),
    }
}

/// What `r` is as a result over views.
pub open spec fn block_list_outcome(r: Result<Vec<ExtMetadataBlock>, XmlError>) -> Result<
    Seq<BlockView>,
    XmlErrorView,
> {
    match r {
        Ok(blocks) => Ok(block_views(blocks@)),
        Err(e) => Err(e@),
    }
}

impl CmXmlParser {
    /// Appends to `metadata_blocks` the block of the element at `node`,
    /// which announces `level`, if that level has one.
    pub fn parse_trim_levels<F: Fn(&NumberRequest) -> Option<Vec<i32>>>(
        &self,
        tree: &XmlTree,
        node: usize,
        level: &str,
        metadata_blocks: &mut Vec<ExtMetadataBlock>,
        convert: &F,
    ) -> (r: Result<(), XmlError>)
        requires
            answers_all(convert),
        ensures
            forall|oracle: Oracle|
                answers_as(convert, oracle) ==> blocks_outcome(r, final(metadata_blocks)@)
                    == #[trigger] spec_push_trim(
                    block_views(old(metadata_blocks)@),
                    tree.nodes@,
                    node as int,
                    level@,
                    self.context(),
                    oracle,
                ),
    {
        let ghost before = block_views(metadata_blocks@);
        let cmv4 = self.is_cmv4();
        if str_eq(level, "1") {
            match self.parse_level1_trim(tree, node, convert) {
                Ok(block) => {
                    metadata_blocks.push(ExtMetadataBlock::Level1(block));
                    assert(block_views(metadata_blocks@) =~= before.push(
                        ExtMetadataBlock::Level1(block)@,
                    ));
                },
                Err(e) => {
                    return Err(e);
                },
            }
        } else if str_eq(level, "2") {
            match self.parse_level2_trim(tree, node, convert) {
                Ok(block) => {
                    metadata_blocks.push(ExtMetadataBlock::Level2(block));
                    assert(block_views(metadata_blocks@) =~= before.push(
                        ExtMetadataBlock::Level2(block)@,
                    ));
                },
                Err(e) => {
                    return Err(e);
                },
            }
        } else if str_eq(level, "3") {
            match self.parse_level3_trim(tree, node, convert) {
                Ok(block) => {
                    metadata_blocks.push(ExtMetadataBlock::Level3(block));
                    assert(block_views(metadata_blocks@) =~= before.push(
                        ExtMetadataBlock::Level3(block)@,
                    ));
                },
                Err(e) => {
                    return Err(e);
                },
            }
        } else if str_eq(level, "5") {
            match self.parse_level5_trim(tree, node, convert) {
                Ok(block) => {
                    metadata_blocks.push(ExtMetadataBlock::Level5(block));
                    assert(block_views(metadata_blocks@) =~= before.push(
                        ExtMetadataBlock::Level5(block)@,
                    ));
                },
                Err(e) => {
                    return Err(e);
                },
            }
        } else if str_eq(level, "8") && cmv4 {
            match self.parse_level8_trim(tree, node, convert) {
                Ok(block) => {
                    metadata_blocks.push(ExtMetadataBlock::Level8(block));
                    assert(block_views(metadata_blocks@) =~= before.push(
                        ExtMetadataBlock::Level8(block)@,
                    ));
                },
                Err(e) => {
                    return Err(e);
                },
            }
        } else if str_eq(level, "9") && cmv4 {
            match self.parse_level9_trim(tree, node) {
                Ok(block) => {
                    metadata_blocks.push(ExtMetadataBlock::Level9(block));
                    assert(block_views(metadata_blocks@) =~= before.push(
                        ExtMetadataBlock::Level9(block)@,
                    ));
                },
                Err(e) => {
                    return Err(e);
                },
            }
        }
        Ok(())
    }

    /// The elements that hold the trims below the node at `node`.
    pub fn trim_nodes(&self, tree: &XmlTree, node: usize) -> (found: Vec<usize>)
        ensures
            found@ == spec_trim_nodes(tree.nodes@, node as int, self.context()),
            forall|k: int| 0 <= k < found@.len() ==> (#[trigger] found@[k]) < tree.nodes@.len(),
    {
        if self.is_cmv4() {
            match tree.find_descendant(node, &NodeTest::Tag("DVDynamicData")) {
                Some(holder) => tree.children(holder, &NodeTest::Attribute("level")),
                None => Vec::new(),
            }
        } else {
            match tree.find_descendant(node, &NodeTest::Tag("PluginNode")) {
                Some(holder) => tree.children(
                    holder,
                    &NodeTest::TagWithAttribute("DolbyEDR", "level"),
                ),
                None => Vec::new(),
            }
        }
    }

    /// The blocks of the trims below the node at `node`, in document order.
    pub fn parse_shot_trims<F: Fn(&NumberRequest) -> Option<Vec<i32>>>(
        &self,
        tree: &XmlTree,
        node: usize,
        convert: &F,
    ) -> (r: Result<Vec<ExtMetadataBlock>, XmlError>)
        requires
            answers_all(convert),
        ensures
            forall|oracle: Oracle|
                answers_as(convert, oracle) ==> block_list_outcome(r) == #[trigger] spec_shot_trims(
                    tree.nodes@,
                    node as int,
                    self.context(),
                    oracle,
                ),
    {
        let found = self.trim_nodes(tree, node);
        let mut blocks: Vec<ExtMetadataBlock> = Vec::new();
        let mut i: usize = 0;
        let ghost nodes = tree.nodes@;
        let ghost ctx = self.context();
        proof {
            assert(found@.take(0) =~= Seq::<usize>::empty());
            assert(block_views(blocks@) =~= Seq::<BlockView>::empty());
        }
        while i < found.len()
            invariant
                i <= found.len(),
                answers_all(convert),
                nodes == tree.nodes@,
                ctx == self.context(),
                found@ == spec_trim_nodes(nodes, node as int, ctx),
                forall|k: int| 0 <= k < found@.len() ==> (#[trigger] found@[k]) < nodes.len(),
                forall|oracle: Oracle|
                    answers_as(convert, oracle) ==> #[trigger] spec_trims_of(
                        nodes,
                        found@.take(i as int),
                        ctx,
                        oracle,
                    ) == Ok::<_, XmlErrorView>(block_views(blocks@)),
            decreases found.len() - i,
        {
            let at = found[i];
            let ghost before = block_views(blocks@);
            proof {
                assert(found@.take(i + 1).drop_last() =~= found@.take(i as int));
                assert(found@.take(i + 1).last() == at);
            }
            match tree.attribute(at, "level") {
                None => {
                    assert forall|oracle: Oracle| answers_as(convert, oracle) implies #[trigger] spec_trims_of(
                        nodes,
                        found@.take(i + 1),
                        ctx,
                        oracle,
                    ) == Ok::<_, XmlErrorView>(block_views(blocks@)) by {
                        assert(spec_trims_of(nodes, found@.take(i as int), ctx, oracle) == Ok::<
                            _,
                            XmlErrorView,
                        >(before));
                    }
                },
                Some(level) => {
                    let r = self.parse_trim_levels(tree, at, level.as_str(), &mut blocks, convert);
                    match r {
                        Ok(()) => {
                            assert forall|oracle: Oracle| answers_as(convert, oracle) implies #[trigger] spec_trims_of(
                                nodes,
                                found@.take(i + 1),
                                ctx,
                                oracle,
                            ) == Ok::<_, XmlErrorView>(block_views(blocks@)) by {
                                assert(spec_trims_of(nodes, found@.take(i as int), ctx, oracle)
                                    == Ok::<_, XmlErrorView>(before));
                                assert(blocks_outcome(r, blocks@) == spec_push_trim(
                                    before,
                                    nodes,
                                    at as int,
                                    level@,
                                    ctx,
                                    oracle,
                                ));
                            }
                        },
                        Err(e) => {
                            assert forall|oracle: Oracle| answers_as(convert, oracle) implies block_list_outcome(
                                Err(e),
                            ) == #[trigger] spec_shot_trims(nodes, node as int, ctx, oracle) by {
                                assert(spec_trims_of(nodes, found@.take(i as int), ctx, oracle)
                                    == Ok::<_, XmlErrorView>(before));
                                assert(blocks_outcome(r, blocks@) == spec_push_trim(
                                    before,
                                    nodes,
                                    at as int,
                                    level@,
                                    ctx,
                                    oracle,
                                ));
                                lemma_trims_prefix_error(nodes, found@, ctx, oracle, i + 1);
                            }
                            return Err(e);
                        },
                    }
                },
            }
            i += 1;
        }
        proof {
            assert(found@.take(i as int) =~= found@);
            assert forall|oracle: Oracle| answers_as(convert, oracle) implies block_list_outcome(
                Ok(blocks),
            ) == #[trigger] spec_shot_trims(nodes, node as int, ctx, oracle) by {
                assert(spec_trims_of(nodes, found@.take(i as int), ctx, oracle) == Ok::<
                    _,
                    XmlErrorView,
                >(block_views(blocks@)));
            }
        }
        Ok(blocks)
    }
}


/// Whether none of `blocks` is of level 8 or of level 9.
pub open spec fn without_levels_8_and_9(blocks: Seq<BlockView>) -> bool {
    forall|i: int|
        0 <= i < blocks.len() ==> (#[trigger] blocks[i]).kind != BlockKind::Level8 && blocks[i].kind
            != BlockKind::Level9
}

/// A document that is not of version 4 of the colour management gives no
/// block of level 8 or of level 9, whatever its trims announce.
pub proof fn lemma_version_29_has_no_level_8_or_9(
    nodes: Seq<XmlNode>,
    found: Seq<usize>,
    ctx: TrimContext,
    oracle: Oracle,
)
    requires
        !ctx.cmv4,
        spec_trims_of(nodes, found, ctx, oracle) is Ok,
    ensures
        without_levels_8_and_9(spec_trims_of(nodes, found, ctx, oracle)->Ok_0),
    decreases found.len(),
{
    if found.len() > 0 {
        lemma_version_29_has_no_level_8_or_9(nodes, found.drop_last(), ctx, oracle);
        let front = spec_trims_of(nodes, found.drop_last(), ctx, oracle)->Ok_0;
        let all = spec_trims_of(nodes, found, ctx, oracle)->Ok_0;
        assert forall|i: int| 0 <= i < all.len() implies (#[trigger] all[i]).kind
            != BlockKind::Level8 && all[i].kind != BlockKind::Level9 by {
            if i < front.len() {
                assert(all[i] == front[i]);
            }
        }
    }
}

} // verus!
