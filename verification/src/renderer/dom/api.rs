//! Queries on a document.

use crate::renderer::dom::node::{
    link_view, links_forward, Dom, Element, ElementView, NodeKind, NodeKindView, NodeView,
};
use vstd::prelude::*;

verus! {

/// Whether one of the element's attributes is `id` with the value `id`.
pub open spec fn element_has_id(element: ElementView, id: Seq<char>) -> bool {
    exists|i: int|
        0 <= i < element.attributes.len() && (#[trigger] element.attributes[i]).name == "id"@
            && element.attributes[i].value == id
}

/// Whether the node is an element that carries the identifier `id`.
pub open spec fn has_id(node: NodeView, id: Seq<char>) -> bool {
    node.kind matches NodeKindView::Element(e) && element_has_id(e, id)
}

/// The first node with the identifier `id` among `node`, what is below it and
/// the siblings after it with what is below them, in document order.
pub open spec fn find_from(dom: Seq<NodeView>, node: nat, id: Seq<char>) -> Option<nat>
    decreases dom.len() - node,
    when links_forward(dom) && node < dom.len()
{
    if has_id(dom[node as int], id) {
        Some(node)
    } else {
        let below = match dom[node as int].first_child {
            Some(child) => find_from(dom, child, id),
            None => None,
        };
        if below is Some {
            below
        } else {
            match dom[node as int].next_sibling {
                Some(next) => find_from(dom, next, id),
                None => None,
            }
        }
    }
}

/// The same search from a node that may be absent or unknown to the document;
/// from such a node nothing is found.
pub open spec fn find_by_id(dom: Seq<NodeView>, node: Option<nat>, id: Seq<char>) -> Option<nat> {
    match node {
        Some(n) => if n < dom.len() {
            find_from(dom, n, id)
        } else {
            None
        },
        None => None,
    }
}

/// What the search finds is a node of the document that carries the identifier.
pub proof fn lemma_find_from_has_id(dom: Seq<NodeView>, node: nat, id: Seq<char>)
    requires
        links_forward(dom),
        node < dom.len(),
    ensures
        find_from(dom, node, id) matches Some(found) ==> node <= found < dom.len() && has_id(
            dom[found as int],
            id,
        ),
    decreases dom.len() - node,
{
    if !has_id(dom[node as int], id) {
        match dom[node as int].first_child {
            Some(child) => {
                lemma_find_from_has_id(dom, child, id);
            },
            None => {},
        }
        match dom[node as int].next_sibling {
            Some(next) => {
                lemma_find_from_has_id(dom, next, id);
            },
            None => {},
        }
    }
}

/// The nodes from `node` on in document order: the node, what is below it,
/// then the siblings after it, each with what is below it.
pub open spec fn order_from(dom: Seq<NodeView>, node: nat) -> Seq<nat>
    decreases dom.len() - node,
    when links_forward(dom) && node < dom.len()
{
    let below = match dom[node as int].first_child {
        Some(child) => order_from(dom, child),
        None => Seq::empty(),
    };
    let after = match dom[node as int].next_sibling {
        Some(next) => order_from(dom, next),
        None => Seq::empty(),
    };
    seq![node] + below + after
}

/// The first of `nodes` that carries the identifier `id`.
pub open spec fn first_with_id(dom: Seq<NodeView>, nodes: Seq<nat>, id: Seq<char>) -> Option<nat>
    decreases nodes.len(),
{
    if nodes.len() == 0 {
        None
    } else if has_id(dom[nodes[0] as int], id) {
        Some(nodes[0])
    } else {
        first_with_id(dom, nodes.drop_first(), id)
    }
}

/// The first of two lists, one after the other, is the first of the first
/// list or, if that has none, the first of the second.
pub proof fn lemma_first_with_id_of_two(
    dom: Seq<NodeView>,
    a: Seq<nat>,
    b: Seq<nat>,
    id: Seq<char>,
)
    ensures
        first_with_id(dom, a + b, id) == (if first_with_id(dom, a, id) is Some {
            first_with_id(dom, a, id)
        } else {
            first_with_id(dom, b, id)
        }),
    decreases a.len(),
{
    if a.len() == 0 {
        assert(a + b =~= b);
    } else {
        assert((a + b)[0] == a[0]);
        assert((a + b).drop_first() =~= a.drop_first() + b);
        lemma_first_with_id_of_two(dom, a.drop_first(), b, id);
    }
}

/// The search finds the first node in document order that carries the
/// identifier, and nothing only where no node in that order carries it.
pub proof fn lemma_find_from_is_first(dom: Seq<NodeView>, node: nat, id: Seq<char>)
    requires
        links_forward(dom),
        node < dom.len(),
    ensures
        find_from(dom, node, id) == first_with_id(dom, order_from(dom, node), id),
    decreases dom.len() - node,
{
    let below = match dom[node as int].first_child {
        Some(child) => order_from(dom, child),
        None => Seq::empty(),
    };
    let after = match dom[node as int].next_sibling {
        Some(next) => order_from(dom, next),
        None => Seq::empty(),
    };
    let order = order_from(dom, node);
    assert(order[0] == node);
    assert(order.drop_first() =~= below + after);
    lemma_first_with_id_of_two(dom, below, after, id);
    match dom[node as int].first_child {
        Some(child) => {
            lemma_find_from_is_first(dom, child, id);
        },
        None => {},
    }
    match dom[node as int].next_sibling {
        Some(next) => {
            lemma_find_from_is_first(dom, next, id);
        },
        None => {},
    }
}

/// Whether the element carries the identifier.
fn element_carries(element: &Element, id_name: &String) -> (found: bool)
    ensures
        found == element_has_id(element@, id_name@),
{
    let attributes = element.attributes();
    let key = String::from_str("id");
    let mut i: usize = 0;
    while i < attributes.len()
        invariant
            i <= attributes@.len(),
            attributes@.len() == element@.attributes.len(),
            key@ == "id"@,
            forall|j: int|
                0 <= j < attributes@.len() ==> (#[trigger] attributes@[j])@
                    == element@.attributes[j],
            forall|j: int|
                0 <= j < i ==> !((#[trigger] element@.attributes[j]).name == "id"@
                    && element@.attributes[j].value == id_name@),
        decreases attributes.len() - i,
    {
        let attribute = &attributes[i];
        assert(attribute@ == element@.attributes[i as int]);
        if *attribute.name() == key && *attribute.value() == *id_name {
            return true;
        }
        i += 1;
    }
    false
}

/// The search from a node of the document.
fn find(dom: &Dom, node: usize, id_name: &String) -> (found: Option<usize>)
    requires
        dom.wf(),
        node < dom@.len(),
    ensures
        link_view(found) == find_from(dom@, node as nat, id_name@),
    decreases dom@.len() - node,
{
    let carries = match dom.kind(node) {
        Some(NodeKind::Element(element)) => element_carries(element, id_name),
        _ => false,
    };
    if carries {
        return Some(node);
    }
    let below = match dom.first_child(node) {
        Some(child) => find(dom, child, id_name),
        None => None,
    };
    if below.is_some() {
        return below;
    }
    match dom.next_sibling(node) {
        Some(next) => find(dom, next, id_name),
        None => None,
    }
}

/// The first node, in document order from `node`, that is an element with the
/// attribute `id` equal to `id_name`; `None` where there is none, and where
/// `node` is absent or no node of the document.
pub fn get_element_by_id(dom: &Dom, node: Option<usize>, id_name: &String) -> (found: Option<usize>)
    requires
        dom.wf(),
    ensures
        link_view(found) == find_by_id(dom@, link_view(node), id_name@),
        found matches Some(n) ==> n < dom@.len() && has_id(dom@[n as int], id_name@),
        node matches Some(n) ==> n < dom@.len() ==> link_view(found) == first_with_id(
            dom@,
            order_from(dom@, n as nat),
            id_name@,
        ),
{
    match node {
        Some(n) => {
            if n < dom.len() {
                proof {
                    lemma_find_from_has_id(dom@, n as nat, id_name@);
                    lemma_find_from_is_first(dom@, n as nat, id_name@);
                }
                find(dom, n, id_name)
            } else {
                None
            }
        },
        None => None,
    }
}

} // verus!
