//! Reading a metadata document: the version of the colour management, the
//! light levels, and the target displays.

use vstd::prelude::*;
use vstd::string::StringExecFns;
use crate::error::{XmlError, XmlErrorView, XmlPath};
use crate::generate::GenerateConfig;
use crate::text::{parse_unsigned, spec_parse_unsigned, str_contains, str_eq};
use crate::xml_numbers::{answers_all, answers_as, ask, clamp, spec_clamp, usable_answer, Formula,
    NumberRequest, NumberRequestView, Oracle};
use crate::xml_tree::{spec_attribute, spec_descendants, spec_find_child, spec_find_descendant,
    spec_text, NodeTest, XmlNode, XmlTree};

verus! {

/// What the caller knows of the picture beyond the document.
#[derive(Clone, Copy, Debug, PartialEq, Eq)]
pub struct XmlParserOpts {
    pub canvas_width: Option<u16>,
    pub canvas_height: Option<u16>,
}

/// A display that trims aim at.
#[derive(Clone, Debug, PartialEq, Eq)]
pub struct TargetDisplay {
    pub id: String,
    /// The peak luminance in nits.
    pub peak_nits: u16,
}

/// What was read from a metadata document.
#[derive(Clone, Debug, PartialEq, Eq)]
pub struct CmXmlParser {
    pub opts: XmlParserOpts,
    pub cm_version: String,
    /// What stands between the numbers of a list.
    pub separator: char,
    /// The target displays in document order.
    pub target_displays: Vec<TargetDisplay>,
    pub config: GenerateConfig,
}

/// The text of the first child of the node at `parent` that is an element
/// named `tag`; the child and its text have to be there.
pub open spec fn spec_child_text(nodes: Seq<XmlNode>, parent: int, tag: &str, path: XmlPath) -> Result<
    Seq<char>,
    XmlErrorView,
> {
    match spec_find_child(nodes, parent, NodeTest::Tag(tag), 0) {
        Some(child) => match spec_text(nodes[child]) {
            Some(text) => Ok(text),
            None => Err(XmlErrorView::XmlMissingNode(path)),
        },
        None => Err(XmlErrorView::XmlMissingNode(path)),
    }
}

/// The whole number of at most `max` that `text` spells.
pub open spec fn spec_whole_number(text: Seq<char>, max: nat, path: XmlPath) -> Result<
    nat,
    XmlErrorView,
> {
    match spec_parse_unsigned(text, max) {
        Some(value) => Ok(value),
        None => Err(XmlErrorView::XmlBadNumber(path, text)),
    }
}

/// The whole number of at most `max` in the first child of the node at
/// `parent` that is an element named `tag`; zero where there is no such
/// child or it has no text.
pub open spec fn spec_optional_number(
    nodes: Seq<XmlNode>,
    parent: int,
    tag: &str,
    max: nat,
    path: XmlPath,
) -> Result<nat, XmlErrorView> {
    match spec_find_child(nodes, parent, NodeTest::Tag(tag), 0) {
        Some(child) => match spec_text(nodes[child]) {
            Some(text) => spec_whole_number(text, max, path),
            None => Ok(0),
        },
        None => Ok(0),
    }
}

/// The version of the colour management that the document names: `4.0.2`
/// where an element `Level254` below the root element has a `CMVersion`
/// with a `4` in it; else the text of the `Version` child of the root
/// element; else the `version` attribute of the root element.
pub open spec fn spec_cm_version(nodes: Seq<XmlNode>) -> Result<Seq<char>, XmlErrorView> {
    match spec_find_descendant(nodes, 0, NodeTest::Tag("DolbyLabsMDF"), 0) {
        None => Err(XmlErrorView::XmlMissingNode(XmlPath::Root)),
        Some(root) => {
            let marked = match spec_find_descendant(nodes, root, NodeTest::Tag("Level254"), root) {
                Some(level254) => match spec_child_text(
                    nodes,
                    level254,
                    "CMVersion",
                    XmlPath::CmVersion,
                ) {
                    Ok(text) => Ok(text.contains('4')),
                    Err(e) => Err(e),
                },
                None => Ok(false),
            };
            match marked {
                Err(e) => Err(e),
                Ok(true) => Ok("4.0.2"@),
                Ok(false) => {
                    let version = match spec_find_child(nodes, root, NodeTest::Tag("Version"), 0) {
                        Some(child) => spec_text(nodes[child]),
                        None => None,
                    };
                    match version {
                        Some(text) => Ok(text),
                        None => match spec_attribute(nodes[root], "version"@) {
                            Some(text) => Ok(text),
                            None => Err(XmlErrorView::NoCmVersion),
                        },
                    }
                },
            }
        },
    }
}

/// The light levels of the content, `(MaxFALL, MaxCLL)`, from the first
/// `Level6` element below the node at `video`; zero for what is not there.
pub open spec fn spec_level6(nodes: Seq<XmlNode>, video: int) -> Result<(u16, u16), XmlErrorView> {
    match spec_find_descendant(nodes, video, NodeTest::Tag("Level6"), video) {
        None => Ok((0, 0)),
        Some(node) => match spec_optional_number(nodes, node, "MaxFALL", 65535, XmlPath::MaxFall) {
            Err(e) => Err(e),
            Ok(max_fall) => match spec_optional_number(
                nodes,
                node,
                "MaxCLL",
                65535,
                XmlPath::MaxCll,
            ) {
                Err(e) => Err(e),
                Ok(max_cll) => Ok((max_fall as u16, max_cll as u16)),
            },
        },
    }
}

/// What is asked for a minimum brightness given as `text`.
pub open spec fn minimum_brightness_request(text: Seq<char>) -> NumberRequestView {
    NumberRequestView {
        formula: Formula::MinimumBrightness,
        values: seq![text],
        peak_nits: 0,
        canvas_width: 0,
        canvas_height: 0,
    }
}

/// The luminance range of the mastering display, `(minimum, maximum)`, from
/// the first `MasteringDisplay` element below the node at `video`: the
/// minimum in units of 0.0001 nits, the maximum in nits; zero for what is
/// not there.
pub open spec fn spec_mastering_display(nodes: Seq<XmlNode>, video: int, oracle: Oracle) -> Result<
    (u16, u16),
    XmlErrorView,
> {
    match spec_find_descendant(nodes, video, NodeTest::Tag("MasteringDisplay"), video) {
        None => Ok((0, 0)),
        Some(node) => {
            let text = match spec_find_child(nodes, node, NodeTest::Tag("MinimumBrightness"), 0) {
                Some(child) => spec_text(nodes[child]),
                None => None,
            };
            let min = match text {
                None => Ok(0u16),
                Some(text) => match usable_answer(oracle, minimum_brightness_request(text)) {
                    Some(numbers) => Ok(spec_clamp(numbers[0], 65535)),
                    None => Err(XmlErrorView::XmlBadNumber(XmlPath::MinimumBrightness, text)),
                },
            };
            match min {
                Err(e) => Err(e),
                Ok(min) => match spec_optional_number(
                    nodes,
                    node,
                    "PeakBrightness",
                    65535,
                    XmlPath::PeakBrightness,
                ) {
                    Err(e) => Err(e),
                    Ok(max) => Ok((min, max as u16)),
                },
            }
        },
    }
}

/// The target display that the element at `node` describes.
pub open spec fn spec_target_display(nodes: Seq<XmlNode>, node: int) -> Result<
    (Seq<char>, u16),
    XmlErrorView,
> {
    match spec_child_text(nodes, node, "ID", XmlPath::TargetDisplayId) {
        Err(e) => Err(e),
        Ok(id) => match spec_child_text(nodes, node, "PeakBrightness", XmlPath::TargetDisplayPeak) {
            Err(e) => Err(e),
            Ok(text) => match spec_whole_number(text, 65535, XmlPath::TargetDisplayPeak) {
                Err(e) => Err(e),
                Ok(peak) => Ok((id, peak as u16)),
            },
        },
    }
}

/// The target displays that the elements at `found` describe, in that
/// order, or the error of the first that describes none.
pub open spec fn spec_target_displays_of(nodes: Seq<XmlNode>, found: Seq<usize>) -> Result<
    Seq<(Seq<char>, u16)>,
    XmlErrorView,
>
    decreases found.len(),
{
    if found.len() == 0 {
        Ok(Seq::empty())
    } else {
        match spec_target_displays_of(nodes, found.drop_last()) {
            Err(e) => Err(e),
            Ok(displays) => match spec_target_display(nodes, found.last() as int) {
                Err(e) => Err(e),
                Ok(display) => Ok(displays.push(display)),
            },
        }
    }
}

/// The target displays of the document: one for each `TargetDisplay`
/// element below the node at `video`, in document order.
pub open spec fn spec_target_displays(nodes: Seq<XmlNode>, video: int) -> Result<
    Seq<(Seq<char>, u16)>,
    XmlErrorView,
> {
    spec_target_displays_of(
        nodes,
        spec_descendants(nodes, video, NodeTest::Tag("TargetDisplay"), nodes.len() as int),
    )
}

/// An error for the first of `found` is the error for all of them.
pub proof fn lemma_target_displays_prefix_error(nodes: Seq<XmlNode>, found: Seq<usize>, n: int)
    requires
        0 <= n <= found.len(),
    ensures
        spec_target_displays_of(nodes, found.take(n)) is Err ==> spec_target_displays_of(
            nodes,
            found,
        ) == Err::<Seq<(Seq<char>, u16)>, _>(spec_target_displays_of(nodes, found.take(n))->Err_0),
    decreases found.len() - n,
{
    if n < found.len() {
        assert(found.take(n + 1).drop_last() =~= found.take(n));
        lemma_target_displays_prefix_error(nodes, found, n + 1);
    } else {
        assert(found.take(n) =~= found);
    }
}

/// The views of `displays`.
pub open spec fn target_display_views(displays: Seq<TargetDisplay>) -> Seq<(Seq<char>, u16)> {
    displays.map_values(|d: TargetDisplay| (d.id@, d.peak_nits))
}

/// The place of the last of `displays` with the given id.
pub open spec fn spec_find_target(displays: Seq<(Seq<char>, u16)>, id: Seq<char>) -> Option<int>
    decreases displays.len(),
{
    if displays.len() == 0 {
        None
    } else if displays.last().0 == id {
        Some(displays.len() - 1)
    } else {
        spec_find_target(displays.drop_last(), id)
    }
}

/// The place that `spec_find_target` gives is the place of a display with the given id.
pub proof fn lemma_find_target_in_range(displays: Seq<(Seq<char>, u16)>, id: Seq<char>)
    ensures
        spec_find_target(displays, id) is Some ==> 0 <= spec_find_target(displays, id)->Some_0
            < displays.len() && displays[spec_find_target(displays, id)->Some_0].0 == id,
    decreases displays.len(),
{
    if displays.len() > 0 && displays.last().0 != id {
        lemma_find_target_in_range(displays.drop_last(), id);
    }
}

/// The text of the first child of the node at `parent` that is an element
/// named `tag`; the child and its text have to be there.
pub fn child_text<'a>(tree: &'a XmlTree, parent: usize, tag: &str, path: XmlPath) -> (r: Result<
    &'a String,
    XmlError,
>)
    ensures
        match r {
            Ok(text) => spec_child_text(tree.nodes@, parent as int, tag, path) == Ok::<
                _,
                XmlErrorView,
            >(text@),
            Err(e) => spec_child_text(tree.nodes@, parent as int, tag, path) == Err::<Seq<char>, _>(
                e@,
            ),
        },
{
    match tree.find_child(parent, &NodeTest::Tag(tag)) {
        Some(child) => match tree.text(child) {
            Some(text) => Ok(text),
            None => Err(XmlError::XmlMissingNode(path)),
        },
        None => Err(XmlError::XmlMissingNode(path)),
    }
}

/// The whole number of at most `max` that `text` spells.
pub fn whole_number(text: &String, max: u64, path: XmlPath) -> (r: Result<u64, XmlError>)
    ensures
        match r {
            Ok(value) => spec_whole_number(text@, max as nat, path) == Ok::<_, XmlErrorView>(
                value as nat,
            ) && value <= max,
            Err(e) => spec_whole_number(text@, max as nat, path) == Err::<nat, _>(e@),
        },
{
    match parse_unsigned(text.as_str(), max) {
        Some(value) => Ok(value),
        None => Err(XmlError::XmlBadNumber(path, text.clone())),
    }
}

/// The whole number of at most `max` in the first child of the node at
/// `parent` that is an element named `tag`; zero where there is no such
/// child or it has no text.
pub fn optional_number(tree: &XmlTree, parent: usize, tag: &str, max: u64, path: XmlPath) -> (r:
    Result<u64, XmlError>)
    ensures
        match r {
            Ok(value) => spec_optional_number(tree.nodes@, parent as int, tag, max as nat, path)
                == Ok::<_, XmlErrorView>(value as nat) && value <= max,
            Err(e) => spec_optional_number(tree.nodes@, parent as int, tag, max as nat, path)
                == Err::<nat, _>(e@),
        },
{
    match tree.find_child(parent, &NodeTest::Tag(tag)) {
        Some(child) => match tree.text(child) {
            Some(text) => whole_number(text, max, path),
            None => Ok(0),
        },
        None => Ok(0),
    }
}

impl CmXmlParser {
    /// The version of the colour management that the document names.
    pub fn parse_cm_version(tree: &XmlTree) -> (r: Result<String, XmlError>)
        ensures
            match r {
                Ok(version) => spec_cm_version(tree.nodes@) == Ok::<_, XmlErrorView>(version@),
                Err(e) => spec_cm_version(tree.nodes@) == Err::<Seq<char>, _>(e@),
            },
    {
        let root = match tree.find_descendant(0, &NodeTest::Tag("DolbyLabsMDF")) {
            Some(root) => root,
            None => {
                return Err(XmlError::XmlMissingNode(XmlPath::Root));
            },
        };
        if let Some(level254) = tree.find_descendant(root, &NodeTest::Tag("Level254")) {
            let text = match child_text(tree, level254, "CMVersion", XmlPath::CmVersion) {
                Ok(text) => text,
                Err(e) => {
                    return Err(e);
                },
            };
            if str_contains(text.as_str(), '4') {
                return Ok(String::from_str("4.0.2"));
            }
        }
        if let Some(child) = tree.find_child(root, &NodeTest::Tag("Version")) {
            if let Some(text) = tree.text(child) {
                return Ok(text.clone());
            }
        }
        match tree.attribute(root, "version") {
            Some(text) => Ok(text.clone()),
            None => Err(XmlError::NoCmVersion),
        }
    }

    /// Whether the document is of version 4 of the colour management.
    pub fn is_cmv4(&self) -> (r: bool)
        ensures
            r == (self.cm_version@ == "4.0.2"@),
    {
        str_eq(self.cm_version.as_str(), "4.0.2")
    }

    /// The light levels of the content, `(MaxFALL, MaxCLL)`.
    pub fn parse_level6(tree: &XmlTree, video: usize) -> (r: Result<(u16, u16), XmlError>)
        ensures
            match r {
                Ok(levels) => spec_level6(tree.nodes@, video as int) == Ok::<_, XmlErrorView>(
                    levels,
                ),
                Err(e) => spec_level6(tree.nodes@, video as int) == Err::<(u16, u16), _>(e@),
            },
    {
        match tree.find_descendant(video, &NodeTest::Tag("Level6")) {
            None => Ok((0, 0)),
            Some(node) => {
                let max_fall = match optional_number(tree, node, "MaxFALL", 65535, XmlPath::MaxFall) {
                    Ok(v) => v,
                    Err(e) => {
                        return Err(e);
                    },
                };
                let max_cll = match optional_number(tree, node, "MaxCLL", 65535, XmlPath::MaxCll) {
                    Ok(v) => v,
                    Err(e) => {
                        return Err(e);
                    },
                };
                Ok((max_fall as u16, max_cll as u16))
            },
        }
    }

    /// The luminance range of the mastering display, `(minimum, maximum)`:
    /// the minimum in units of 0.0001 nits, as `convert` computes it, the
    /// maximum in nits.
    pub fn parse_mastering_display_metadata<F: Fn(&NumberRequest) -> Option<Vec<i32>>>(
        tree: &XmlTree,
        video: usize,
        convert: &F,
    ) -> (r: Result<(u16, u16), XmlError>)
        requires
            answers_all(convert),
        ensures
            forall|oracle: Oracle|
                answers_as(convert, oracle) ==> (match r {
                    Ok(range) => Ok(range),
                    Err(e) => Err(e@),
                }) == #[trigger] spec_mastering_display(tree.nodes@, video as int, oracle),
    {
        let node = match tree.find_descendant(video, &NodeTest::Tag("MasteringDisplay")) {
            None => {
                return Ok((0, 0));
            },
            Some(node) => node,
        };
        let text = match tree.find_child(node, &NodeTest::Tag("MinimumBrightness")) {
            Some(child) => tree.text(child),
            None => None,
        };
        let min = match text {
            None => 0,
            Some(text) => {
                let request = NumberRequest {
                    formula: Formula::MinimumBrightness,
                    values: vec![text.clone()],
                    peak_nits: 0,
                    canvas_width: 0,
                    canvas_height: 0,
                };
                assert(request@.values =~= seq![text@]);
                match ask(convert, &request) {
                    Some(numbers) => clamp(numbers[0], 65535),
                    None => {
                        return Err(XmlError::XmlBadNumber(XmlPath::MinimumBrightness, text.clone()));
                    },
                }
            },
        };
        let max = match optional_number(tree, node, "PeakBrightness", 65535, XmlPath::PeakBrightness) {
            Ok(v) => v,
            Err(e) => {
                return Err(e);
            },
        };
        Ok((min, max as u16))
    }

    /// The target display that the element at `node` describes.
    pub fn parse_target_display(tree: &XmlTree, node: usize) -> (r: Result<TargetDisplay, XmlError>)
        ensures
            match r {
                Ok(display) => spec_target_display(tree.nodes@, node as int) == Ok::<
                    _,
                    XmlErrorView,
                >((display.id@, display.peak_nits)),
                Err(e) => spec_target_display(tree.nodes@, node as int) == Err::<
                    (Seq<char>, u16),
                    _,
                >(e@),
            },
    {
        let id = match child_text(tree, node, "ID", XmlPath::TargetDisplayId) {
            Ok(text) => text,
            Err(e) => {
                return Err(e);
            },
        };
        let text = match child_text(tree, node, "PeakBrightness", XmlPath::TargetDisplayPeak) {
            Ok(text) => text,
            Err(e) => {
                return Err(e);
            },
        };
        let peak = match whole_number(text, 65535, XmlPath::TargetDisplayPeak) {
            Ok(v) => v,
            Err(e) => {
                return Err(e);
            },
        };
        Ok(TargetDisplay { id: id.clone(), peak_nits: peak as u16 })
    }

    /// The target displays of the document, in document order.
    pub fn parse_target_displays(tree: &XmlTree, video: usize) -> (r: Result<
        Vec<TargetDisplay>,
        XmlError,
    >)
        ensures
            match r {
                Ok(displays) => spec_target_displays(tree.nodes@, video as int) == Ok::<
                    _,
                    XmlErrorView,
                >(target_display_views(displays@)),
                Err(e) => spec_target_displays(tree.nodes@, video as int) == Err::<
                    Seq<(Seq<char>, u16)>,
                    _,
                >(e@),
            },
    {
        let found = tree.descendants(video, &NodeTest::Tag("TargetDisplay"));
        let mut displays: Vec<TargetDisplay> = Vec::new();
        let mut i: usize = 0;
        assert(found@.take(0) =~= Seq::<usize>::empty());
        assert(target_display_views(displays@) =~= Seq::empty());
        while i < found.len()
            invariant
                i <= found.len(),
                found@ == spec_descendants(
                    tree.nodes@,
                    video as int,
                    NodeTest::Tag("TargetDisplay"),
                    tree.nodes@.len() as int,
                ),
                spec_target_displays_of(tree.nodes@, found@.take(i as int)) == Ok::<
                    _,
                    XmlErrorView,
                >(target_display_views(displays@)),
            decreases found.len() - i,
        {
            proof {
                assert(found@.take(i + 1).drop_last() =~= found@.take(i as int));
                lemma_target_displays_prefix_error(tree.nodes@, found@, i + 1);
            }
            let display = match CmXmlParser::parse_target_display(tree, found[i]) {
                Ok(display) => display,
                Err(e) => {
                    return Err(e);
                },
            };
            let ghost before = target_display_views(displays@);
            displays.push(display);
            assert(target_display_views(displays@) =~= before.push(
                (display.id@, display.peak_nits),
            ));
            i += 1;
        }
        assert(found@.take(i as int) =~= found@);
        Ok(displays)
    }

    /// The last of `displays` with the given id.
    pub fn find_target<'a>(displays: &'a Vec<TargetDisplay>, id: &str) -> (r: Option<
        &'a TargetDisplay,
    >)
        ensures
            match r {
                Some(display) => spec_find_target(target_display_views(displays@), id@) is Some
                    && spec_find_target(target_display_views(displays@), id@)->Some_0
                    < displays@.len() && *display == displays@[spec_find_target(
                    target_display_views(displays@),
                    id@,
                )->Some_0],
                None => spec_find_target(target_display_views(displays@), id@) is None,
            },
    {
        let mut i: usize = displays.len();
        let ghost views = target_display_views(displays@);
        assert(views.take(i as int) =~= views);
        while i > 0
            invariant
                i <= displays.len(),
                views == target_display_views(displays@),
                spec_find_target(views, id@) == spec_find_target(views.take(i as int), id@),
            decreases i,
        {
            proof {
                assert(views.take(i as int).drop_last() =~= views.take(i - 1));
                assert(views.take(i as int).last() == views[i - 1]);
            }
            if str_eq(displays[i - 1].id.as_str(), id) {
                return Some(&displays[i - 1]);
            }
            i -= 1;
        }
        None
    }
}

} // verus!
