//! An XML document as a list of nodes in document order.

use vstd::prelude::*;
use crate::text::str_eq;

verus! {

/// The error of `roxmltree`, of which nothing is looked at.
#[verifier::external_type_specification]
#[verifier::external_body]
pub struct ExXmlSyntaxError(roxmltree::Error);

/// An attribute of an element.
#[derive(Clone, Debug, PartialEq, Eq)]
pub struct XmlAttribute {
    /// The URI of the namespace of the name, if it has one.
    pub namespace: Option<String>,
    /// The name, without a prefix.
    pub name: String,
    pub value: String,
}

/// A node of a document: the root, an element, a text, a comment or a
/// processing instruction.
#[derive(Clone, Debug, PartialEq, Eq)]
pub struct XmlNode {
    /// Whether the node is an element.
    pub element: bool,
    /// The name of an element, without a prefix; empty for every other node.
    pub name: String,
    /// For an element, the text it starts with; for a text or a comment, its own.
    pub text: Option<String>,
    /// The attributes of an element, in document order.
    pub attributes: Vec<XmlAttribute>,
    /// The place of the parent in the list of nodes; the root has none.
    pub parent: Option<usize>,
}

/// The nodes that `roxmltree` finds in a text, in document order, the root
/// first; none where the text is no document.
pub uninterp spec fn xml_document_nodes(text: Seq<char>) -> Option<Seq<XmlNode>>;

/// Calls `roxmltree::Document::parse` and lists the nodes of the document
/// in the order of `Document::descendants`, which is the order of their ids.
/// Of each node it keeps what `Node::is_element`, `Node::tag_name`,
/// `Node::text`, `Node::attributes` and `Node::parent` return. The same
/// text always gives the same nodes, which is all that is claimed.
#[verifier::external_body]
fn parse_document(text: &str) -> (r: Result<Vec<XmlNode>, roxmltree::Error>)
    ensures
        match r {
            Ok(nodes) => xml_document_nodes(text@) == Some(nodes@),
            Err(_) => xml_document_nodes(text@) is None,
        },
{
    let doc = roxmltree::Document::parse(text)?;
    Ok(doc.descendants().map(|n| XmlNode {
        element: n.is_element(),
        name: n.tag_name().name().to_string(),
        text: n.text().map(|t| t.to_string()),
        attributes: n.attributes().iter().map(|a| XmlAttribute {
            namespace: a.namespace().map(|u| u.to_string()),
            name: a.name().to_string(),
            value: a.value().to_string(),
        }).collect(),
        parent: n.parent().map(|p| p.id().get_usize()),
    }).collect())
}

/// What a node is looked for by.
pub enum NodeTest<'a> {
    /// An element of the given name.
    Tag(&'a str),
    /// A node with an attribute of the given name.
    Attribute(&'a str),
    /// An element of the given name with an attribute of the given name.
    TagWithAttribute(&'a str, &'a str),
}

/// Whether `node` is an element of the given name.
pub open spec fn spec_has_tag_name(node: XmlNode, name: Seq<char>) -> bool {
    node.element && node.name@ == name
}

/// The place of the first attribute of `node` from `from` on that has the
/// given name and no namespace.
pub open spec fn spec_attribute_index(node: XmlNode, name: Seq<char>, from: int) -> Option<int>
    decreases node.attributes@.len() - from,
{
    if from < 0 || from >= node.attributes@.len() {
        None
    } else if node.attributes@[from].namespace is None && node.attributes@[from].name@ == name {
        Some(from)
    } else {
        spec_attribute_index(node, name, from + 1)
    }
}

/// The value of the first attribute of `node` that has the given name and no namespace.
pub open spec fn spec_attribute(node: XmlNode, name: Seq<char>) -> Option<Seq<char>> {
    match spec_attribute_index(node, name, 0) {
        Some(i) => Some(node.attributes@[i].value@),
        None => None,
    }
}

/// The text of `node`.
pub open spec fn spec_text(node: XmlNode) -> Option<Seq<char>> {
    match node.text {
        Some(t) => Some(t@),
        None => None,
    }
}

impl<'a> NodeTest<'a> {
    /// Whether `node` is what is looked for.
    pub open spec fn matches(self, node: XmlNode) -> bool {
        match self {
            NodeTest::Tag(name) => spec_has_tag_name(node, name@),
            NodeTest::Attribute(attribute) => spec_attribute(node, attribute@) is Some,
            NodeTest::TagWithAttribute(name, attribute) => spec_has_tag_name(node, name@)
                && spec_attribute(node, attribute@) is Some,
        }
    }
}

/// Whether the node at `node` is the node at `top` or lies below it.
pub open spec fn spec_in_subtree(nodes: Seq<XmlNode>, top: int, node: int) -> bool
    decreases node,
{
    if node == top {
        true
    } else if 0 <= node < nodes.len() {
        match nodes[node].parent {
            Some(p) => p < node && spec_in_subtree(nodes, top, p as int),
            None => false,
        }
    } else {
        false
    }
}

/// Whether the node at `node` is a child of the node at `parent`.
pub open spec fn spec_is_child(nodes: Seq<XmlNode>, parent: int, node: int) -> bool {
    0 <= node < nodes.len() && nodes[node].parent == Some(parent as usize)
}

/// The place of the first node from `from` on, in document order, that is
/// the node at `top` or lies below it, and that `test` matches.
pub open spec fn spec_find_descendant(nodes: Seq<XmlNode>, top: int, test: NodeTest, from: int) -> Option<
    int,
>
    decreases nodes.len() - from,
{
    if from < 0 || from >= nodes.len() {
        None
    } else if spec_in_subtree(nodes, top, from) && test.matches(nodes[from]) {
        Some(from)
    } else {
        spec_find_descendant(nodes, top, test, from + 1)
    }
}

/// The place of the first child of the node at `parent` from `from` on, in
/// document order, that `test` matches.
pub open spec fn spec_find_child(nodes: Seq<XmlNode>, parent: int, test: NodeTest, from: int) -> Option<
    int,
>
    decreases nodes.len() - from,
{
    if from < 0 || from >= nodes.len() {
        None
    } else if spec_is_child(nodes, parent, from) && test.matches(nodes[from]) {
        Some(from)
    } else {
        spec_find_child(nodes, parent, test, from + 1)
    }
}

/// The places of the nodes in front of `upto` that are the node at `top` or
/// lie below it, and that `test` matches, in document order.
pub open spec fn spec_descendants(nodes: Seq<XmlNode>, top: int, test: NodeTest, upto: int) -> Seq<
    usize,
>
    decreases upto,
{
    if upto <= 0 || upto > nodes.len() {
        Seq::empty()
    } else {
        let front = spec_descendants(nodes, top, test, upto - 1);
        if spec_in_subtree(nodes, top, upto - 1) && test.matches(nodes[upto - 1]) {
            front.push((upto - 1) as usize)
        } else {
            front
        }
    }
}

/// The places of the children of the node at `parent` in front of `upto`
/// that `test` matches, in document order.
pub open spec fn spec_children(nodes: Seq<XmlNode>, parent: int, test: NodeTest, upto: int) -> Seq<
    usize,
>
    decreases upto,
{
    if upto <= 0 || upto > nodes.len() {
        Seq::empty()
    } else {
        let front = spec_children(nodes, parent, test, upto - 1);
        if spec_is_child(nodes, parent, upto - 1) && test.matches(nodes[upto - 1]) {
            front.push((upto - 1) as usize)
        } else {
            front
        }
    }
}

/// Every place that `spec_descendants` lists is a place of a node.
pub proof fn lemma_descendants_in_range(nodes: Seq<XmlNode>, top: int, test: NodeTest, upto: int)
    requires
        nodes.len() <= usize::MAX,
    ensures
        forall|k: int|
            0 <= k < spec_descendants(nodes, top, test, upto).len() ==> (#[trigger] spec_descendants(
                nodes,
                top,
                test,
                upto,
            )[k]) < nodes.len(),
    decreases upto,
{
    if !(upto <= 0 || upto > nodes.len()) {
        lemma_descendants_in_range(nodes, top, test, upto - 1);
        let front = spec_descendants(nodes, top, test, upto - 1);
        let all = spec_descendants(nodes, top, test, upto);
        assert forall|k: int| 0 <= k < all.len() implies (#[trigger] all[k]) < nodes.len() by {
            if k < front.len() {
                assert(all[k] == front[k]);
            }
        }
    }
}

/// Every place that `spec_children` lists is a place of a node.
pub proof fn lemma_children_in_range(nodes: Seq<XmlNode>, parent: int, test: NodeTest, upto: int)
    requires
        nodes.len() <= usize::MAX,
    ensures
        forall|k: int|
            0 <= k < spec_children(nodes, parent, test, upto).len() ==> (#[trigger] spec_children(
                nodes,
                parent,
                test,
                upto,
            )[k]) < nodes.len(),
    decreases upto,
{
    if !(upto <= 0 || upto > nodes.len()) {
        lemma_children_in_range(nodes, parent, test, upto - 1);
        let front = spec_children(nodes, parent, test, upto - 1);
        let all = spec_children(nodes, parent, test, upto);
        assert forall|k: int| 0 <= k < all.len() implies (#[trigger] all[k]) < nodes.len() by {
            if k < front.len() {
                assert(all[k] == front[k]);
            }
        }
    }
}

/// A document: its nodes in document order, the root first.
#[derive(Clone, Debug, PartialEq, Eq)]
pub struct XmlTree {
    pub nodes: Vec<XmlNode>,
}

impl XmlTree {
    /// The document that `text` holds, or none where it holds no document.
    pub fn parse(text: &str) -> (r: Option<XmlTree>)
        ensures
            match r {
                Some(tree) => xml_document_nodes(text@) == Some(tree.nodes@),
                None => xml_document_nodes(text@) is None,
            },
    {
        match parse_document(text) {
            Ok(nodes) => Some(XmlTree { nodes }),
            Err(_) => None,
        }
    }

    /// Whether the node at `node` is an element of the given name.
    pub fn has_tag_name(&self, node: usize, name: &str) -> (r: bool)
        requires
            node < self.nodes@.len(),
        ensures
            r == spec_has_tag_name(self.nodes@[node as int], name@),
    {
        self.nodes[node].element && str_eq(self.nodes[node].name.as_str(), name)
    }

    /// The value of the first attribute of the node at `node` that has the
    /// given name and no namespace.
    pub fn attribute(&self, node: usize, name: &str) -> (r: Option<&String>)
        requires
            node < self.nodes@.len(),
        ensures
            match r {
                Some(value) => spec_attribute(self.nodes@[node as int], name@) == Some(value@),
                None => spec_attribute(self.nodes@[node as int], name@) is None,
            },
    {
        let attributes = &self.nodes[node].attributes;
        let mut i: usize = 0;
        while i < attributes.len()
            invariant
                node < self.nodes@.len(),
                attributes == &self.nodes@[node as int].attributes,
                i <= attributes.len(),
                spec_attribute_index(self.nodes@[node as int], name@, 0) == spec_attribute_index(
                    self.nodes@[node as int],
                    name@,
                    i as int,
                ),
            decreases attributes.len() - i,
        {
            if attributes[i].namespace.is_none() && str_eq(attributes[i].name.as_str(), name) {
                return Some(&attributes[i].value);
            }
            i += 1;
        }
        None
    }

    /// The text of the node at `node`.
    pub fn text(&self, node: usize) -> (r: Option<&String>)
        requires
            node < self.nodes@.len(),
        ensures
            match r {
                Some(t) => spec_text(self.nodes@[node as int]) == Some(t@),
                None => spec_text(self.nodes@[node as int]) is None,
            },
    {
        self.nodes[node].text.as_ref()
    }

    /// Whether `test` matches the node at `node`.
    pub fn matches(&self, node: usize, test: &NodeTest) -> (r: bool)
        requires
            node < self.nodes@.len(),
        ensures
            r == test.matches(self.nodes@[node as int]),
    {
        match test {
            NodeTest::Tag(name) => self.has_tag_name(node, name),
            NodeTest::Attribute(attribute) => self.attribute(node, attribute).is_some(),
            NodeTest::TagWithAttribute(name, attribute) => self.has_tag_name(node, name)
                && self.attribute(node, attribute).is_some(),
        }
    }

    /// Whether the node at `node` is the node at `top` or lies below it.
    pub fn in_subtree(&self, top: usize, node: usize) -> (r: bool)
        ensures
            r == spec_in_subtree(self.nodes@, top as int, node as int),
    {
        let mut at: usize = node;
        while at != top
            invariant
                spec_in_subtree(self.nodes@, top as int, node as int) == spec_in_subtree(
                    self.nodes@,
                    top as int,
                    at as int,
                ),
            decreases at,
        {
            if at >= self.nodes.len() {
                return false;
            }
            match self.nodes[at].parent {
                Some(p) => {
                    if p >= at {
                        return false;
                    }
                    at = p;
                },
                None => {
                    return false;
                },
            }
        }
        true
    }

    /// The first node, in document order, that is the node at `top` or lies
    /// below it, and that `test` matches.
    pub fn find_descendant(&self, top: usize, test: &NodeTest) -> (r: Option<usize>)
        ensures
            match r {
                Some(i) => spec_find_descendant(self.nodes@, top as int, *test, top as int) == Some(
                    i as int,
                ) && i < self.nodes@.len(),
                None => spec_find_descendant(self.nodes@, top as int, *test, top as int) is None,
            },
    {
        let mut i: usize = top;
        while i < self.nodes.len()
            invariant
                top <= i,
                spec_find_descendant(self.nodes@, top as int, *test, top as int)
                    == spec_find_descendant(self.nodes@, top as int, *test, i as int),
            decreases self.nodes.len() - i,
        {
            if self.in_subtree(top, i) && self.matches(i, test) {
                return Some(i);
            }
            i += 1;
        }
        None
    }

    /// The first child of the node at `parent`, in document order, that `test` matches.
    pub fn find_child(&self, parent: usize, test: &NodeTest) -> (r: Option<usize>)
        ensures
            match r {
                Some(i) => spec_find_child(self.nodes@, parent as int, *test, 0) == Some(i as int)
                    && i < self.nodes@.len(),
                None => spec_find_child(self.nodes@, parent as int, *test, 0) is None,
            },
    {
        let mut i: usize = 0;
        while i < self.nodes.len()
            invariant
                spec_find_child(self.nodes@, parent as int, *test, 0) == spec_find_child(
                    self.nodes@,
                    parent as int,
                    *test,
                    i as int,
                ),
            decreases self.nodes.len() - i,
        {
            if self.is_child(parent, i) && self.matches(i, test) {
                return Some(i);
            }
            i += 1;
        }
        None
    }

    /// Whether the node at `node` is a child of the node at `parent`.
    pub fn is_child(&self, parent: usize, node: usize) -> (r: bool)
        requires
            node < self.nodes@.len(),
        ensures
            r == spec_is_child(self.nodes@, parent as int, node as int),
    {
        match self.nodes[node].parent {
            Some(p) => p == parent,
            None => false,
        }
    }

    /// The nodes that are the node at `top` or lie below it, and that `test`
    /// matches, in document order.
    pub fn descendants(&self, top: usize, test: &NodeTest) -> (found: Vec<usize>)
        ensures
            found@ == spec_descendants(self.nodes@, top as int, *test, self.nodes@.len() as int),
            forall|k: int| 0 <= k < found@.len() ==> (#[trigger] found@[k]) < self.nodes@.len(),
    {
        let mut found: Vec<usize> = Vec::new();
        let mut i: usize = 0;
        while i < self.nodes.len()
            invariant
                i <= self.nodes.len(),
                found@ == spec_descendants(self.nodes@, top as int, *test, i as int),
            decreases self.nodes.len() - i,
        {
            if self.in_subtree(top, i) && self.matches(i, test) {
                found.push(i);
            }
            i += 1;
        }
        proof {
            lemma_descendants_in_range(self.nodes@, top as int, *test, self.nodes@.len() as int);
        }
        found
    }

    /// The children of the node at `parent` that `test` matches, in document order.
    pub fn children(&self, parent: usize, test: &NodeTest) -> (found: Vec<usize>)
        ensures
            found@ == spec_children(self.nodes@, parent as int, *test, self.nodes@.len() as int),
            forall|k: int| 0 <= k < found@.len() ==> (#[trigger] found@[k]) < self.nodes@.len(),
    {
        let mut found: Vec<usize> = Vec::new();
        let mut i: usize = 0;
        while i < self.nodes.len()
            invariant
                i <= self.nodes.len(),
                found@ == spec_children(self.nodes@, parent as int, *test, i as int),
            decreases self.nodes.len() - i,
        {
            if self.is_child(parent, i) && self.matches(i, test) {
                found.push(i);
            }
            i += 1;
        }
        proof {
            lemma_children_in_range(self.nodes@, parent as int, *test, self.nodes@.len() as int);
        }
        found
    }
}

} // verus!
