use saba_core::renderer::dom::api::get_element_by_id;
use saba_core::renderer::dom::node::{Attribute, Dom, Element, NodeKind};
use saba_core::text::{chars_of, quote, run_end, string_of, u64_to_string, CharClass};

fn element(tag: &str, id: Option<&str>) -> NodeKind {
    let mut attributes = vec![Attribute::new("class".to_string(), "c".to_string())];
    if let Some(id) = id {
        attributes.push(Attribute::new("id".to_string(), id.to_string()));
    }
    NodeKind::Element(Element::new(tag.to_string(), attributes))
}

#[test]
fn new_document_holds_its_root() {
    let dom = Dom::new(NodeKind::Document);
    assert_eq!(dom.len(), 1);
    assert_eq!(dom.root(), 0);
    assert_eq!(dom.kind(0), Some(&NodeKind::Document));
    assert_eq!(dom.first_child(0), None);
    assert_eq!(dom.next_sibling(0), None);
    assert_eq!(dom.kind(1), None);
}

#[test]
fn children_are_chained_in_the_order_they_were_added() {
    let mut dom = Dom::new(NodeKind::Document);
    let a = dom.append_child(0, element("a", None)).unwrap();
    let b = dom.append_child(0, element("b", None)).unwrap();
    let a1 = dom.append_child(a, NodeKind::Text("x".to_string())).unwrap();
    let c = dom.append_child(0, element("c", None)).unwrap();
    assert_eq!((a, b, a1, c), (1, 2, 3, 4));
    assert_eq!(dom.first_child(0), Some(a));
    assert_eq!(dom.next_sibling(a), Some(b));
    assert_eq!(dom.next_sibling(b), Some(c));
    assert_eq!(dom.next_sibling(c), None);
    assert_eq!(dom.first_child(a), Some(a1));
    assert_eq!(dom.first_child(b), None);
    assert_eq!(dom.kind(a1), Some(&NodeKind::Text("x".to_string())));
}

#[test]
fn append_to_unknown_parent_changes_nothing() {
    let mut dom = Dom::new(NodeKind::Document);
    let before = dom.clone();
    assert_eq!(dom.append_child(5, element("a", None)), None);
    assert_eq!(dom, before);
    dom.set_text_child(5, "x".to_string());
    assert_eq!(dom, before);
}

#[test]
fn text_child_replaces_the_children() {
    let mut dom = Dom::new(NodeKind::Document);
    let a = dom.append_child(0, element("a", None)).unwrap();
    let old = dom.append_child(a, NodeKind::Text("old".to_string())).unwrap();
    let b = dom.append_child(0, element("b", None)).unwrap();
    dom.set_text_child(a, "new".to_string());
    let fresh = dom.first_child(a).unwrap();
    assert_eq!(fresh, 4);
    assert_eq!(dom.kind(fresh), Some(&NodeKind::Text("new".to_string())));
    assert_eq!(dom.next_sibling(fresh), None);
    assert_eq!(dom.next_sibling(a), Some(b));
    assert_eq!(dom.kind(old), Some(&NodeKind::Text("old".to_string())));
}

#[test]
fn search_finds_the_first_element_in_document_order() {
    let mut dom = Dom::new(NodeKind::Document);
    let a = dom.append_child(0, element("a", None)).unwrap();
    let b = dom.append_child(0, element("b", Some("x"))).unwrap();
    let a1 = dom.append_child(a, element("a1", Some("y"))).unwrap();
    let a2 = dom.append_child(a, element("a2", Some("x"))).unwrap();
    let _t = dom.append_child(a1, NodeKind::Text("x".to_string())).unwrap();
    assert_eq!(get_element_by_id(&dom, Some(0), &"x".to_string()), Some(a2));
    assert_eq!(get_element_by_id(&dom, Some(0), &"y".to_string()), Some(a1));
    assert_eq!(get_element_by_id(&dom, Some(0), &"c".to_string()), None);
    assert_eq!(get_element_by_id(&dom, Some(0), &"".to_string()), None);
    // From a node, the search covers what is below it and the siblings after it.
    assert_eq!(get_element_by_id(&dom, Some(b), &"x".to_string()), Some(b));
    assert_eq!(get_element_by_id(&dom, Some(a2), &"y".to_string()), None);
    assert_eq!(get_element_by_id(&dom, Some(a1), &"x".to_string()), Some(a2));
    assert_eq!(get_element_by_id(&dom, None, &"x".to_string()), None);
    assert_eq!(get_element_by_id(&dom, Some(99), &"x".to_string()), None);
}

#[test]
fn search_skips_what_was_taken_out_of_the_tree() {
    let mut dom = Dom::new(NodeKind::Document);
    let a = dom.append_child(0, element("a", None)).unwrap();
    let _gone = dom.append_child(a, element("p", Some("x"))).unwrap();
    assert!(get_element_by_id(&dom, Some(0), &"x".to_string()).is_some());
    dom.set_text_child(a, "t".to_string());
    assert_eq!(get_element_by_id(&dom, Some(0), &"x".to_string()), None);
}

#[test]
fn element_accessors() {
    let e = Element::new(
        "p".to_string(),
        vec![Attribute::new("id".to_string(), "x".to_string())],
    );
    assert_eq!(e.tag(), "p");
    assert_eq!(e.attributes().len(), 1);
    assert_eq!(e.attributes()[0].name(), "id");
    assert_eq!(e.attributes()[0].value(), "x");
}

#[test]
fn decimal_numerals() {
    assert_eq!(u64_to_string(0), "0");
    assert_eq!(u64_to_string(9), "9");
    assert_eq!(u64_to_string(10), "10");
    assert_eq!(u64_to_string(1234567890), "1234567890");
    assert_eq!(u64_to_string(u64::MAX), "18446744073709551615");
}

#[test]
fn text_between_quotes() {
    assert_eq!(quote(&"abc".to_string()), "\"abc\"");
    assert_eq!(quote(&"a\"b".to_string()), "'a\"b'");
    assert_eq!(quote(&"".to_string()), "\"\"");
}

#[test]
fn runs_of_characters() {
    let text = chars_of(&"  12ab-c_d e".to_string());
    assert_eq!(text.len(), 12);
    assert_eq!(run_end(&text, 0, CharClass::Space), 2);
    assert_eq!(run_end(&text, 2, CharClass::Digit), 4);
    assert_eq!(run_end(&text, 2, CharClass::Word), 6);
    assert_eq!(run_end(&text, 2, CharClass::Name), 10);
    assert_eq!(run_end(&text, 2, CharClass::Numeric), 4);
    assert_eq!(run_end(&text, 0, CharClass::Except('e')), 11);
    assert_eq!(run_end(&text, 12, CharClass::Space), 12);
    assert_eq!(string_of(&text, 4, 10), "ab-c_d");
}
