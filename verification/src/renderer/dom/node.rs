//! The nodes of a document and the arena that holds them.
//!
//! A `Dom` owns every node of one document. A node is named by its index in
//! the arena, which never changes; a node's children are the chain that starts
//! at its first child and goes on from sibling to sibling. Links only ever
//! point from a node to one that was made later, so every chain ends.

use vstd::prelude::*;

verus! {

/// One `name="value"` pair of an element.
#[derive(Debug, Clone, PartialEq, Eq)]
pub struct Attribute {
    name: String,
    value: String,
}

/// What an `Attribute` stands for.
pub ghost struct AttributeView {
    pub name: Seq<char>,
    pub value: Seq<char>,
}

impl View for Attribute {
    type V = AttributeView;

    closed spec fn view(&self) -> AttributeView {
        AttributeView { name: self.name@, value: self.value@ }
    }
}

impl Attribute {
    pub fn new(name: String, value: String) -> (attribute: Self)
        ensures
            attribute@ == (AttributeView { name: name@, value: value@ }),
    {
        Self { name, value }
    }

    pub fn name(&self) -> (name: &String)
        ensures
            name@ == self@.name,
    {
        &self.name
    }

    pub fn value(&self) -> (value: &String)
        ensures
            value@ == self@.value,
    {
        &self.value
    }
}

/// An element: its tag and its attributes in source order.
#[derive(Debug, Clone, PartialEq, Eq)]
pub struct Element {
    tag: String,
    attributes: Vec<Attribute>,
}

/// What an `Element` stands for.
pub ghost struct ElementView {
    pub tag: Seq<char>,
    pub attributes: Seq<AttributeView>,
}

impl View for Element {
    type V = ElementView;

    closed spec fn view(&self) -> ElementView {
        ElementView {
            tag: self.tag@,
            attributes: Seq::new(self.attributes@.len(), |i: int| self.attributes@[i]@),
        }
    }
}

impl Element {
    pub fn new(tag: String, attributes: Vec<Attribute>) -> (element: Self)
        ensures
            element@.tag == tag@,
            element@.attributes.len() == attributes@.len(),
            forall|i: int|
                0 <= i < attributes@.len() ==> element@.attributes[i] == (#[trigger] attributes@[i])@,
    {
        Self { tag, attributes }
    }

    pub fn tag(&self) -> (tag: &String)
        ensures
            tag@ == self@.tag,
    {
        &self.tag
    }

    pub fn attributes(&self) -> (attributes: &Vec<Attribute>)
        ensures
            attributes@.len() == self@.attributes.len(),
            forall|i: int|
                0 <= i < attributes@.len() ==> (#[trigger] attributes@[i])@ == self@.attributes[i],
    {
        &self.attributes
    }
}

/// The kinds of node.
#[derive(Debug, Clone, PartialEq, Eq)]
pub enum NodeKind {
    /// The root of a document.
    Document,
    /// An element with its tag and attributes.
    Element(Element),
    /// A run of text.
    Text(String),
}

/// What a `NodeKind` stands for.
pub ghost enum NodeKindView {
    Document,
    Element(ElementView),
    Text(Seq<char>),
}

impl View for NodeKind {
    type V = NodeKindView;

    open spec fn view(&self) -> NodeKindView {
        match self {
            NodeKind::Document => NodeKindView::Document,
            NodeKind::Element(e) => NodeKindView::Element(e@),
            NodeKind::Text(t) => NodeKindView::Text(t@),
        }
    }
}

/// A node in the arena: what it is and where its children and siblings start.
#[derive(Debug, Clone, PartialEq, Eq)]
struct Slot {
    kind: NodeKind,
    first_child: Option<usize>,
    next_sibling: Option<usize>,
}

/// What a node of the arena stands for.
pub ghost struct NodeView {
    pub kind: NodeKindView,
    pub first_child: Option<nat>,
    pub next_sibling: Option<nat>,
}

/// The view of an index that may be absent.
pub open spec fn link_view(link: Option<usize>) -> Option<nat> {
    match link {
        Some(i) => Some(i as nat),
        None => None,
    }
}

/// A text node that is linked to nothing.
pub open spec fn text_node(text: Seq<char>) -> NodeView {
    NodeView { kind: NodeKindView::Text(text), first_child: None, next_sibling: None }
}

/// Whether every link of `dom` points to a later node of `dom`.
pub open spec fn links_forward(dom: Seq<NodeView>) -> bool {
    forall|i: int|
        0 <= i < dom.len() ==> {
            &&& (#[trigger] dom[i]).first_child matches Some(c) ==> i < c < dom.len()
            &&& dom[i].next_sibling matches Some(n) ==> i < n < dom.len()
        }
}

/// The last node of the chain of siblings that starts at `node`.
pub open spec fn last_sibling(dom: Seq<NodeView>, node: nat) -> nat
    decreases dom.len() - node,
    when links_forward(dom) && node < dom.len()
{
    match dom[node as int].next_sibling {
        Some(next) => last_sibling(dom, next),
        None => node,
    }
}

/// `dom` with the node `child` added at its end as the last child of `parent`.
pub open spec fn with_child(dom: Seq<NodeView>, parent: nat, child: NodeKindView) -> Seq<NodeView>
    recommends
        links_forward(dom),
        parent < dom.len(),
{
    let node = NodeView { kind: child, first_child: None, next_sibling: None };
    match dom[parent as int].first_child {
        None => dom.update(
            parent as int,
            NodeView { first_child: Some(dom.len()), ..dom[parent as int] },
        ).push(node),
        Some(first) => {
            let last = last_sibling(dom, first);
            dom.update(
                last as int,
                NodeView { next_sibling: Some(dom.len()), ..dom[last as int] },
            ).push(node)
        },
    }
}

/// `dom` with a new text node at its end that is the first and only child of
/// `node`. What `node` had for children stays in the arena, out of the tree.
/// A `node` that `dom` does not hold changes nothing.
pub open spec fn with_text_child(dom: Seq<NodeView>, node: nat, text: Seq<char>) -> Seq<NodeView> {
    if node < dom.len() {
        dom.update(node as int, NodeView { first_child: Some(dom.len()), ..dom[node as int] }).push(
            text_node(text),
        )
    } else {
        dom
    }
}

/// The chain of siblings that starts at `node` ends in the arena.
pub proof fn lemma_last_sibling(dom: Seq<NodeView>, node: nat)
    requires
        links_forward(dom),
        node < dom.len(),
    ensures
        node <= last_sibling(dom, node) < dom.len(),
        dom[last_sibling(dom, node) as int].next_sibling is None,
    decreases dom.len() - node,
{
    match dom[node as int].next_sibling {
        Some(next) => {
            lemma_last_sibling(dom, next);
        },
        None => {},
    }
}

/// A document: an arena of nodes whose node 0 is the root.
#[derive(Debug, Clone, PartialEq, Eq)]
pub struct Dom {
    nodes: Vec<Slot>,
}

impl View for Dom {
    type V = Seq<NodeView>;

    closed spec fn view(&self) -> Seq<NodeView> {
        Seq::new(
            self.nodes@.len(),
            |i: int|
                NodeView {
                    kind: self.nodes@[i].kind@,
                    first_child: link_view(self.nodes@[i].first_child),
                    next_sibling: link_view(self.nodes@[i].next_sibling),
                },
        )
    }
}

impl Dom {
    /// A document has a root, and its links point forward.
    pub open spec fn wf(&self) -> bool {
        self@.len() > 0 && links_forward(self@)
    }

    /// A document that holds its root and nothing else.
    pub fn new(root: NodeKind) -> (dom: Self)
        ensures
            dom.wf(),
            dom@ == seq![NodeView { kind: root@, first_child: None, next_sibling: None }],
    {
        let mut nodes: Vec<Slot> = Vec::new();
        nodes.push(Slot { kind: root, first_child: None, next_sibling: None });
        let dom = Self { nodes };
        assert(dom@ =~= seq![NodeView { kind: root@, first_child: None, next_sibling: None }]);
        dom
    }

    /// Whether the document is well formed. Every document that this module
    /// hands out is; the test is for callers that cannot know it otherwise.
    pub fn is_well_formed(&self) -> (ok: bool)
        ensures
            ok == self.wf(),
    {
        let len = self.nodes.len();
        if len == 0 {
            return false;
        }
        let mut i: usize = 0;
        while i < len
            invariant
                i <= len,
                len == self.nodes@.len(),
                len == self@.len(),
                forall|j: int|
                    0 <= j < i ==> {
                        &&& (#[trigger] self@[j]).first_child matches Some(c) ==> j < c < len
                        &&& self@[j].next_sibling matches Some(n) ==> j < n < len
                    },
            decreases len - i,
        {
            let ghost node = self@[i as int];
            assert(node.first_child == link_view(self.nodes@[i as int].first_child));
            assert(node.next_sibling == link_view(self.nodes@[i as int].next_sibling));
            let down = match self.nodes[i].first_child {
                Some(c) => i < c && c < len,
                None => true,
            };
            let along = match self.nodes[i].next_sibling {
                Some(n) => i < n && n < len,
                None => true,
            };
            if !(down && along) {
                return false;
            }
            i += 1;
        }
        true
    }

    /// The root of the document.
    pub fn root(&self) -> (root: usize)
        ensures
            root == 0,
    {
        0
    }

    /// The number of nodes that the arena holds, in the tree or out of it.
    pub fn len(&self) -> (len: usize)
        ensures
            len == self@.len(),
    {
        self.nodes.len()
    }

    /// What the node is; `None` where the arena has no such node.
    pub fn kind(&self, node: usize) -> (kind: Option<&NodeKind>)
        ensures
            node < self@.len() ==> (kind matches Some(k) && k@ == self@[node as int].kind),
            node >= self@.len() ==> kind is None,
    {
        if node < self.nodes.len() {
            Some(&self.nodes[node].kind)
        } else {
            None
        }
    }

    /// The first child of the node, if it has children.
    pub fn first_child(&self, node: usize) -> (child: Option<usize>)
        ensures
            node < self@.len() ==> link_view(child) == self@[node as int].first_child,
            node >= self@.len() ==> child is None,
            self.wf() ==> (child matches Some(c) ==> node < c < self@.len()),
    {
        if node < self.nodes.len() {
            assert(self@[node as int].first_child == link_view(self.nodes@[node as int].first_child));
            self.nodes[node].first_child
        } else {
            None
        }
    }

    /// The sibling that follows the node, if there is one.
    pub fn next_sibling(&self, node: usize) -> (sibling: Option<usize>)
        ensures
            node < self@.len() ==> link_view(sibling) == self@[node as int].next_sibling,
            node >= self@.len() ==> sibling is None,
            self.wf() ==> (sibling matches Some(s) ==> node < s < self@.len()),
    {
        if node < self.nodes.len() {
            assert(self@[node as int].next_sibling == link_view(
                self.nodes@[node as int].next_sibling,
            ));
            self.nodes[node].next_sibling
        } else {
            None
        }
    }

    /// Adds a node of the given kind as the last child of `parent` and returns
    /// its index. Where the arena has no node `parent`, nothing changes and the
    /// result is `None`.
    pub fn append_child(&mut self, parent: usize, kind: NodeKind) -> (child: Option<usize>)
        requires
            old(self).wf(),
        ensures
            final(self).wf(),
            parent < old(self)@.len() ==> child == Some(old(self)@.len() as usize) && final(self)@
                == with_child(old(self)@, parent as nat, kind@),
            parent >= old(self)@.len() ==> child is None && final(self)@ == old(self)@,
    {
        let len = self.nodes.len();
        if parent >= len {
            return None;
        }
        let ghost before = self@;
        let ghost node = NodeView { kind: kind@, first_child: None, next_sibling: None };
        match self.nodes[parent].first_child {
            None => {
                assert(before[parent as int].first_child is None);
                self.nodes.push(Slot { kind, first_child: None, next_sibling: None });
                assert(self@ =~= before.push(node));
                self.nodes[parent].first_child = Some(len);
                assert(self@ =~= with_child(before, parent as nat, kind@));
            },
            Some(first) => {
                assert(before[parent as int].first_child == Some(first as nat));
                let mut last: usize = first;
                proof {
                    lemma_last_sibling(before, first as nat);
                }
                loop
                    invariant
                        self@ == before,
                        links_forward(before),
                        last < before.len(),
                        self.nodes@.len() == before.len(),
                        last_sibling(before, last as nat) == last_sibling(before, first as nat),
                    ensures
                        last == last_sibling(before, first as nat),
                        self@ == before,
                        last < self.nodes@.len(),
                    decreases before.len() - last,
                {
                    assert(before[last as int].next_sibling == link_view(
                        self.nodes@[last as int].next_sibling,
                    ));
                    match self.nodes[last].next_sibling {
                        Some(next) => {
                            last = next;
                        },
                        None => {
                            break ;
                        },
                    }
                }
                self.nodes.push(Slot { kind, first_child: None, next_sibling: None });
                assert(self@ =~= before.push(node));
                self.nodes[last].next_sibling = Some(len);
                assert(self@ =~= with_child(before, parent as nat, kind@));
            },
        }
        Some(len)
    }

    /// Makes a new text node the first and only child of `node`. Where the
    /// arena has no node `node`, nothing changes.
    pub fn set_text_child(&mut self, node: usize, text: String)
        requires
            old(self).wf(),
        ensures
            final(self).wf(),
            final(self)@ == with_text_child(old(self)@, node as nat, text@),
    {
        let len = self.nodes.len();
        if node >= len {
            return ;
        }
        let ghost before = self@;
        self.nodes.push(Slot { kind: NodeKind::Text(text), first_child: None, next_sibling: None });
        assert(self@ =~= before.push(text_node(text@)));
        self.nodes[node].first_child = Some(len);
        assert(self@ =~= with_text_child(before, node as nat, text@));
    }
}

} // verus!
