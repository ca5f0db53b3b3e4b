//! The document tree as the handlers read it.
//!
//! A [`Node`] holds, as plain values, what a handler looks at in one element of
//! the parsed document: the element's name, its attributes in document order,
//! the literal text of a text node, and the children. Contracts speak of a
//! node by its view, a [`NodeView`].
use crate::text::str_eq;
use vstd::prelude::*;

verus! {

/// One attribute of an element.
pub struct Attribute {
    pub name: String,
    pub value: String,
}

/// What kind of node this is, with the data that belongs to the kind.
pub enum NodeKind {
    /// An element with its name and its attributes in document order.
    Element { name: String, attrs: Vec<Attribute> },
    /// A run of literal text.
    Text { contents: String },
    /// Anything else: the document itself, a comment, a doctype.
    Other,
}

/// One node of the document tree.
pub struct Node {
    pub kind: NodeKind,
    pub children: Vec<Node>,
}

/// An attribute as a pair of texts.
pub struct AttributeView {
    pub name: Seq<char>,
    pub value: Seq<char>,
}

/// The kind of a node, with texts and sequences in the place of strings and
/// vectors.
pub enum NodeKindView {
    Element { name: Seq<char>, attrs: Seq<AttributeView> },
    Text { contents: Seq<char> },
    Other,
}

/// A node as a mathematical tree.
pub struct NodeView {
    pub kind: NodeKindView,
    pub children: Seq<NodeView>,
}

/// The value of the first attribute in `attrs` that is called `name`.
pub open spec fn first_attr(attrs: Seq<AttributeView>, name: Seq<char>) -> Option<Seq<char>>
    decreases attrs.len(),
{
    if attrs.len() == 0 {
        None
    } else if attrs[0].name == name {
        Some(attrs[0].value)
    } else {
        first_attr(attrs.drop_first(), name)
    }
}

impl NodeView {
    /// The element's name; `None` for a node that is no element.
    pub open spec fn tag_name(self) -> Option<Seq<char>> {
        match self.kind {
            NodeKindView::Element { name, .. } => Some(name),
            _ => None,
        }
    }

    /// The value of the element's first attribute called `name`; `None` where
    /// there is no such attribute or the node is no element.
    pub open spec fn attr(self, name: Seq<char>) -> Option<Seq<char>> {
        match self.kind {
            NodeKindView::Element { attrs, .. } => first_attr(attrs, name),
            _ => None,
        }
    }

    /// Whether the node is an element called `name`.
    pub open spec fn is_element(self, name: Seq<char>) -> bool {
        self.tag_name() == Some(name)
    }
}

impl View for Attribute {
    type V = AttributeView;

    open spec fn view(&self) -> AttributeView {
        AttributeView { name: self.name@, value: self.value@ }
    }
}

impl View for NodeKind {
    type V = NodeKindView;

    open spec fn view(&self) -> NodeKindView {
        match self {
            NodeKind::Element { name, attrs } => NodeKindView::Element {
                name: name@,
                attrs: attrs@.map_values(|attr: Attribute| attr@),
            },
            NodeKind::Text { contents } => NodeKindView::Text { contents: contents@ },
            NodeKind::Other => NodeKindView::Other,
        }
    }
}

impl View for Node {
    type V = NodeView;

    open spec fn view(&self) -> NodeView {
        self.tree()
    }
}

impl Attribute {
    /// The attribute called `name` with the value `value`.
    pub fn new(name: String, value: String) -> (attr: Attribute)
        ensures
            attr@ == (AttributeView { name: name@, value: value@ }),
    {
        Attribute { name, value }
    }
}

impl Node {
    /// The node with everything below it, as a mathematical tree.
    pub open spec fn tree(self) -> NodeView
        decreases self,
    {
        NodeView { kind: self.kind@, children: Self::trees(self.children@) }
    }

    /// The trees of several nodes, in their order.
    pub open spec fn trees(nodes: Seq<Node>) -> Seq<NodeView>
        decreases nodes,
    {
        if nodes.len() == 0 {
            Seq::empty()
        } else {
            Self::trees(nodes.drop_last()).push(nodes.last().tree())
        }
    }

    /// The trees of several nodes are the nodes' views, one for one.
    pub proof fn lemma_trees(nodes: Seq<Node>)
        ensures
            Self::trees(nodes).len() == nodes.len(),
            forall|i: int| 0 <= i < nodes.len() ==> (#[trigger] Self::trees(nodes)[i]) == nodes[i]@,
        decreases nodes.len(),
    {
        if nodes.len() > 0 {
            Self::lemma_trees(nodes.drop_last());
        }
    }

    /// The children of a node's view are the views of its children.
    pub proof fn lemma_children(&self)
        ensures
            self@.children.len() == self.children@.len(),
            forall|i: int|
                0 <= i < self.children@.len() ==> (#[trigger] self@.children[i])
                    == self.children@[i]@,
    {
        Self::lemma_trees(self.children@);
    }

    /// The element called `name` with the given attributes and children.
    pub fn element(name: String, attrs: Vec<Attribute>, children: Vec<Node>) -> (node: Node)
        ensures
            node@ == (NodeView {
                kind: NodeKindView::Element {
                    name: name@,
                    attrs: attrs@.map_values(|attr: Attribute| attr@),
                },
                children: Self::trees(children@),
            }),
    {
        Node { kind: NodeKind::Element { name, attrs }, children }
    }

    /// The text node that holds `contents`.
    pub fn text(contents: String) -> (node: Node)
        ensures
            node@ == (NodeView {
                kind: NodeKindView::Text { contents: contents@ },
                children: Seq::empty(),
            }),
    {
        Node { kind: NodeKind::Text { contents }, children: Vec::new() }
    }

    /// A node that is neither an element nor text, with the given children.
    pub fn other(children: Vec<Node>) -> (node: Node)
        ensures
            node@ == (NodeView { kind: NodeKindView::Other, children: Self::trees(children@) }),
    {
        Node { kind: NodeKind::Other, children }
    }

    /// Tells whether the node is an element called `name`.
    pub fn has_tag_name(&self, name: &str) -> (r: bool)
        ensures
            r == self@.is_element(name@),
    {
        match &self.kind {
            NodeKind::Element { name: own, .. } => str_eq(own.as_str(), name),
            _ => false,
        }
    }
}

/// Looks up an attribute of an element by name. Where several attributes carry
/// the name, the first one counts.
pub fn get_tag_attr(tag: &Node, attr_name: &str) -> (value: Option<String>)
    ensures
        match value {
            Some(v) => tag@.attr(attr_name@) == Some(v@),
            None => tag@.attr(attr_name@) is None,
        },
{
    match &tag.kind {
        NodeKind::Element { attrs, .. } => {
            let ghost views = attrs@.map_values(|attr: Attribute| attr@);
            let mut i: usize = 0;
            assert(views.skip(0) =~= views);
            while i < attrs.len()
                invariant
                    i <= attrs.len(),
                    views == attrs@.map_values(|attr: Attribute| attr@),
                    tag@.attr(attr_name@) == first_attr(views.skip(i as int), attr_name@),
                decreases attrs.len() - i,
            {
                assert(views.skip(i as int)[0] == attrs@[i as int]@);
                assert(views.skip(i as int).drop_first() == views.skip(i as int + 1));
                if str_eq(attrs[i].name.as_str(), attr_name) {
                    return Some(attrs[i].value.clone());
                }
                i = i + 1;
            }
            None
        },
        _ => None,
    }
}

} // verus!
