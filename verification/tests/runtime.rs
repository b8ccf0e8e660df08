use saba_core::renderer::dom::node::{Attribute, Dom, Element, NodeKind as DomNodeKind};
use saba_core::renderer::js::ast::{JsParser, Node, Program};
use saba_core::renderer::js::runtime::{Environment, JsRuntime, RuntimeError, RuntimeValue};
use saba_core::renderer::js::token::JsLexer;
use std::rc::Rc;

fn parse(input: &str) -> Program {
    let lexer = JsLexer::new(input.to_string());
    let mut parser = JsParser::new(lexer);
    parser.parse_ast().unwrap()
}

/// Evaluates each top-level statement and collects what it yields.
fn results(runtime: &mut JsRuntime, input: &str) -> Vec<Result<Option<RuntimeValue>, RuntimeError>> {
    let ast = parse(input);
    let mut out = Vec::new();
    for node in ast.body() {
        out.push(runtime.eval(&Some(node.clone())));
    }
    out
}

fn evaluate(input: &str) -> Vec<Result<Option<RuntimeValue>, RuntimeError>> {
    let mut runtime = JsRuntime::new(Dom::new(DomNodeKind::Document));
    results(&mut runtime, input)
}

fn text(s: &str) -> RuntimeValue {
    RuntimeValue::StringLiteral(s.to_string())
}

#[test]
fn runtime_test_num() {
    let dom = Dom::new(DomNodeKind::Document);
    let input = "42".to_string();
    let lexer = JsLexer::new(input);
    let mut parser = JsParser::new(lexer);
    let ast = parser.parse_ast().unwrap();
    let mut runtime = JsRuntime::new(dom);
    let expected = [Some(RuntimeValue::Number(42))];
    let mut i = 0;

    for node in ast.body() {
        let result = runtime.eval(&Some(node.clone()));
        assert_eq!(Ok(expected[i].clone()), result);
        i += 1;
    }
    assert_eq!(i, expected.len());
}

#[test]
fn runtime_test_add_nums() {
    let dom = Dom::new(DomNodeKind::Document);

    let input = "1 + 2".to_string();
    let lexer = JsLexer::new(input);
    let mut parser = JsParser::new(lexer);
    let ast = parser.parse_ast().unwrap();
    let mut runtime = JsRuntime::new(dom);
    let expected = [Some(RuntimeValue::Number(3))];
    let mut i = 0;

    for node in ast.body() {
        let result = runtime.eval(&Some(node.clone()));
        assert_eq!(Ok(expected[i].clone()), result);
        i += 1;
    }
    assert_eq!(i, expected.len());
}

#[test]
fn test_sub_nums() {
    let dom = Dom::new(DomNodeKind::Document);
    let input = "2 - 1".to_string();
    let lexer = JsLexer::new(input);
    let mut parser = JsParser::new(lexer);
    let ast = parser.parse_ast().unwrap();
    let mut runtime = JsRuntime::new(dom);
    let expected = [Some(RuntimeValue::Number(1))];
    let mut i = 0;

    for node in ast.body() {
        let result = runtime.eval(&Some(node.clone()));
        assert_eq!(Ok(expected[i].clone()), result);
        i += 1;
    }
    assert_eq!(i, expected.len());
}

#[test]
fn test_assign_variable() {
    let dom = Dom::new(DomNodeKind::Document);
    let input = "var foo=42;".to_string();
    let lexer = JsLexer::new(input);
    let mut parser = JsParser::new(lexer);
    let ast = parser.parse_ast().unwrap();
    let mut runtime = JsRuntime::new(dom);
    let expected: [Option<RuntimeValue>; 1] = [None];
    let mut i = 0;

    for node in ast.body() {
        let result = runtime.eval(&Some(node.clone()));
        assert_eq!(Ok(expected[i].clone()), result);
        i += 1;
    }
    assert_eq!(i, expected.len());
}

#[test]
fn test_add_variable_and_num() {
    let dom = Dom::new(DomNodeKind::Document);
    let input = "var foo=42; foo+1".to_string();
    let lexer = JsLexer::new(input);
    let mut parser = JsParser::new(lexer);
    let ast = parser.parse_ast().unwrap();
    let mut runtime = JsRuntime::new(dom);
    let expected = [None, Some(RuntimeValue::Number(43))];
    let mut i = 0;

    for node in ast.body() {
        let result = runtime.eval(&Some(node.clone()));
        assert_eq!(Ok(expected[i].clone()), result);
        i += 1;
    }
    assert_eq!(i, expected.len());
}

#[test]
fn test_reassign_variable() {
    let dom = Dom::new(DomNodeKind::Document);
    let input = "var foo=42; foo=1; foo".to_string();
    let lexer = JsLexer::new(input);
    let mut parser = JsParser::new(lexer);
    let ast = parser.parse_ast().unwrap();
    let mut runtime = JsRuntime::new(dom);
    let expected = [None, None, Some(RuntimeValue::Number(1))];
    let mut i = 0;

    for node in ast.body() {
        let result = runtime.eval(&Some(node.clone()));
        assert_eq!(Ok(expected[i].clone()), result);
        i += 1;
    }
    assert_eq!(i, expected.len());
}

#[test]
fn test_add_function_add_num() {
    let dom = Dom::new(DomNodeKind::Document);
    let input = "function foo() { return 42; } foo()+1;".to_string();
    let lexer = JsLexer::new(input);
    let mut parser = JsParser::new(lexer);
    let ast = parser.parse_ast().unwrap();
    let mut runtime = JsRuntime::new(dom);
    let expected = [None, Some(RuntimeValue::Number(43))];
    let mut i = 0;

    for node in ast.body() {
        let result = runtime.eval(&Some(node.clone()));
        assert_eq!(Ok(expected[i].clone()), result);
        i += 1;
    }
    assert_eq!(i, expected.len());
}

#[test]
fn test_local_variable() {
    let dom = Dom::new(DomNodeKind::Document);
    let input = "var a=42; function foo() { var a=1; return a; } foo()+a".to_string();
    let lexer = JsLexer::new(input);
    let mut parser = JsParser::new(lexer);
    let ast = parser.parse_ast().unwrap();
    let mut runtime = JsRuntime::new(dom);

    let expected = [None, None, Some(RuntimeValue::Number(43))];
    let mut i = 0;

    for node in ast.body() {
        let result = runtime.eval(&Some(node.clone()));
        assert_eq!(Ok(expected[i].clone()), result);
        i += 1;
    }
    assert_eq!(i, expected.len());
}

#[test]
fn empty_slot_yields_nothing() {
    let mut runtime = JsRuntime::new(Dom::new(DomNodeKind::Document));
    assert_eq!(Ok(None), runtime.eval(&None));
}

#[test]
fn subtraction_chain_groups_to_the_right_and_wraps() {
    assert_eq!(evaluate("1 - 2 - 3"), vec![Ok(Some(RuntimeValue::Number(2)))]);
    assert_eq!(evaluate("10 - 4 + 3"), vec![Ok(Some(RuntimeValue::Number(3)))]);
    assert_eq!(evaluate("0 - 1"), vec![Ok(Some(RuntimeValue::Number(u64::MAX)))]);
    assert_eq!(evaluate("18446744073709551615 + 1"), vec![Ok(Some(RuntimeValue::Number(0)))]);
}

#[test]
fn plus_on_text_concatenates_display_forms() {
    assert_eq!(evaluate("'a' + 1"), vec![Ok(Some(text("a1")))]);
    assert_eq!(evaluate("1 + \"b\""), vec![Ok(Some(text("1b")))]);
    assert_eq!(evaluate("'it' + \"'s\""), vec![Ok(Some(text("it's")))]);
    assert_eq!(evaluate("120 + 'px'"), vec![Ok(Some(text("120px")))]);
}

#[test]
fn minus_on_text_is_zero() {
    assert_eq!(evaluate("'a' - 1"), vec![Ok(Some(RuntimeValue::Number(0)))]);
    assert_eq!(evaluate("5 - 'a'"), vec![Ok(Some(RuntimeValue::Number(0)))]);
}

#[test]
fn unknown_identifier_is_its_own_name() {
    assert_eq!(evaluate("foo"), vec![Ok(Some(text("foo")))]);
    assert_eq!(evaluate("document.getElementById"), vec![Ok(Some(text("document.getElementById")))]);
    assert_eq!(evaluate("a.b.c"), vec![Ok(Some(text("a.b.c")))]);
}

#[test]
fn variable_without_value_reads_as_its_name() {
    assert_eq!(evaluate("var a; a"), vec![Ok(None), Ok(Some(text("a")))]);
}

#[test]
fn assignment_to_unknown_name_changes_nothing() {
    assert_eq!(evaluate("foo = 1; foo"), vec![Ok(None), Ok(Some(text("foo")))]);
}

#[test]
fn assignment_inside_a_function_does_not_reach_outer_scope() {
    assert_eq!(
        evaluate("var a=1; function f() { a=2; return a; } f(); a"),
        vec![Ok(None), Ok(None), Ok(Some(RuntimeValue::Number(1))), Ok(Some(RuntimeValue::Number(1)))]
    );
}

#[test]
fn first_binding_in_a_scope_wins_the_lookup() {
    assert_eq!(
        evaluate("var a=1; var a=2; a"),
        vec![Ok(None), Ok(None), Ok(Some(RuntimeValue::Number(1)))]
    );
    // The assignment takes the first binding out, so the second is found.
    assert_eq!(
        evaluate("var a=1; var a=2; a=3; a"),
        vec![Ok(None), Ok(None), Ok(None), Ok(Some(RuntimeValue::Number(2)))]
    );
}

#[test]
fn parameters_are_bound_in_the_scope_of_the_call() {
    assert_eq!(
        evaluate("function add(x, y) { return x + y; } add(1, 2) + 4; x"),
        vec![Ok(None), Ok(Some(RuntimeValue::Number(7))), Ok(Some(text("x")))]
    );
}

#[test]
fn block_yields_its_last_statement() {
    assert_eq!(
        evaluate("function f() { return 1; 2; } f()"),
        vec![Ok(None), Ok(Some(RuntimeValue::Number(2)))]
    );
    assert_eq!(evaluate("function f() { } f()"), vec![Ok(None), Ok(None)]);
}

#[test]
fn later_declaration_shadows_earlier_one() {
    assert_eq!(
        evaluate("function f() { return 1; } function f() { return 2; } f()"),
        vec![Ok(None), Ok(None), Ok(Some(RuntimeValue::Number(2)))]
    );
}

#[test]
fn undefined_function_is_an_error_that_names_the_callee() {
    assert_eq!(
        evaluate("foo()"),
        vec![Err(RuntimeError::UndefinedFunction("foo".to_string()))]
    );
    assert_eq!(
        evaluate("a.b(1)"),
        vec![Err(RuntimeError::UndefinedFunction("a.b".to_string()))]
    );
}

#[test]
fn arity_mismatch_is_an_error() {
    assert_eq!(
        evaluate("function f(a) { return a; } f(); f(1, 2); f(3)"),
        vec![
            Ok(None),
            Err(RuntimeError::ArityMismatch),
            Err(RuntimeError::ArityMismatch),
            Ok(Some(RuntimeValue::Number(3)))
        ]
    );
}

#[test]
fn runaway_recursion_is_an_error() {
    assert_eq!(
        evaluate("function f() { return f(); } f(); 1"),
        vec![Ok(None), Err(RuntimeError::CallDepthExceeded), Ok(Some(RuntimeValue::Number(1)))]
    );
}

#[test]
fn scope_is_closed_after_a_failed_call() {
    assert_eq!(
        evaluate("var a=1; function f(x) { return g(); } f(2); x; a"),
        vec![
            Ok(None),
            Ok(None),
            Err(RuntimeError::UndefinedFunction("g".to_string())),
            Ok(Some(text("x"))),
            Ok(Some(RuntimeValue::Number(1)))
        ]
    );
}

fn document_with_target() -> (Dom, usize, usize) {
    let mut dom = Dom::new(DomNodeKind::Document);
    let body = dom
        .append_child(0, DomNodeKind::Element(Element::new("body".to_string(), vec![])))
        .unwrap();
    let _first = dom
        .append_child(
            body,
            DomNodeKind::Element(Element::new(
                "p".to_string(),
                vec![Attribute::new("class".to_string(), "target".to_string())],
            )),
        )
        .unwrap();
    let target = dom
        .append_child(
            body,
            DomNodeKind::Element(Element::new(
                "p".to_string(),
                vec![
                    Attribute::new("class".to_string(), "x".to_string()),
                    Attribute::new("id".to_string(), "target".to_string()),
                ],
            )),
        )
        .unwrap();
    let old_text = dom.append_child(target, DomNodeKind::Text("old".to_string())).unwrap();
    (dom, target, old_text)
}

#[test]
fn get_element_by_id_yields_the_element() {
    let (dom, target, _) = document_with_target();
    let mut runtime = JsRuntime::new(dom);
    assert_eq!(
        results(&mut runtime, "document.getElementById('target'); document.getElementById('none')"),
        vec![Ok(Some(RuntimeValue::HtmlElement { object: target, property: None })), Ok(None)]
    );
}

#[test]
fn get_element_by_id_needs_an_argument() {
    assert_eq!(evaluate("document.getElementById()"), vec![Err(RuntimeError::MissingArgument)]);
}

#[test]
fn member_on_an_element_is_a_pending_property() {
    let (dom, target, _) = document_with_target();
    let mut runtime = JsRuntime::new(dom);
    assert_eq!(
        results(&mut runtime, "var t = document.getElementById('target'); t.textContent; t.a.b"),
        vec![
            Ok(None),
            Ok(Some(RuntimeValue::HtmlElement {
                object: target,
                property: Some("textContent".to_string())
            })),
            Ok(Some(text(&format!("HtmlElement: {}.b", target)))),
        ]
    );
}

#[test]
fn text_content_assignment_replaces_the_first_child() {
    let (dom, target, old_text) = document_with_target();
    let before = dom.len();
    let mut runtime = JsRuntime::new(dom);
    let program = parse("var t = document.getElementById('target'); t.textContent = 'n' + 1 + 2;");
    assert_eq!(Ok(()), runtime.execute(&program));
    let dom = runtime.dom();
    assert_eq!(dom.len(), before + 1);
    assert_eq!(dom.first_child(target), Some(before));
    assert_eq!(dom.kind(before), Some(&DomNodeKind::Text("n3".to_string())));
    assert_eq!(dom.first_child(before), None);
    assert_eq!(dom.next_sibling(before), None);
    // The old text node stays in the arena, out of the tree.
    assert_eq!(dom.kind(old_text), Some(&DomNodeKind::Text("old".to_string())));
}

#[test]
fn assignment_to_unknown_property_is_ignored() {
    let (dom, _, _) = document_with_target();
    let expected = dom.clone();
    let mut runtime = JsRuntime::new(dom);
    let program = parse("var t = document.getElementById('target'); t.foo = 1; 5 = 6; 'a'.b = 2;");
    assert_eq!(Ok(()), runtime.execute(&program));
    assert_eq!(*runtime.dom(), expected);
}

#[test]
fn execute_stops_at_the_first_error() {
    let mut runtime = JsRuntime::new(Dom::new(DomNodeKind::Document));
    let program = parse("var a = 1; nope(); var b = 2;");
    assert_eq!(
        Err(RuntimeError::UndefinedFunction("nope".to_string())),
        runtime.execute(&program)
    );
    assert_eq!(runtime.env().get_variable("a".to_string()), Some(RuntimeValue::Number(1)));
    assert_eq!(runtime.env().get_variable("b".to_string()), None);
}

#[test]
fn operator_other_than_plus_and_minus_yields_nothing() {
    let mut runtime = JsRuntime::new(Dom::new(DomNodeKind::Document));
    let node = Node::new_additive_expression(
        '*',
        Node::new_numeric_literal(2),
        Node::new_numeric_literal(3),
    );
    assert_eq!(Ok(None), runtime.eval(&node));
    let node = Node::new_assignment_expression(
        '+',
        Some(Rc::new(Node::Identifier("a".to_string()))),
        Node::new_numeric_literal(3),
    );
    assert_eq!(Ok(None), runtime.eval(&node));
}

#[test]
fn display_forms() {
    assert_eq!(RuntimeValue::Number(0).to_string(), "0");
    assert_eq!(RuntimeValue::Number(1234567890).to_string(), "1234567890");
    assert_eq!(RuntimeValue::Number(u64::MAX).to_string(), "18446744073709551615");
    assert_eq!(text("a b").to_string(), "a b");
    assert_eq!(
        RuntimeValue::HtmlElement { object: 12, property: Some("x".to_string()) }.to_string(),
        "HtmlElement: 12"
    );
}

#[test]
fn value_arithmetic() {
    assert_eq!(RuntimeValue::Number(2).add(RuntimeValue::Number(3)), RuntimeValue::Number(5));
    assert_eq!(RuntimeValue::Number(2).sub(RuntimeValue::Number(3)), RuntimeValue::Number(u64::MAX));
    assert_eq!(RuntimeValue::Number(2).add(text("x")), text("2x"));
    assert_eq!(text("x").sub(text("x")), RuntimeValue::Number(0));
    assert_eq!(text("x").duplicate(), text("x"));
}

#[test]
fn environment_lookup_walks_outward() {
    let mut outer = Environment::new(None);
    outer.add_variable("a".to_string(), Some(RuntimeValue::Number(1)));
    outer.add_variable("b".to_string(), Some(RuntimeValue::Number(2)));
    let mut inner = Environment::new(Some(Box::new(outer)));
    inner.add_variable("a".to_string(), Some(RuntimeValue::Number(10)));
    inner.add_variable("c".to_string(), None);
    assert_eq!(inner.get_variable("a".to_string()), Some(RuntimeValue::Number(10)));
    assert_eq!(inner.get_variable("b".to_string()), Some(RuntimeValue::Number(2)));
    assert_eq!(inner.get_variable("c".to_string()), None);
    assert_eq!(inner.get_variable("d".to_string()), None);
}

#[test]
fn environment_update_of_undefined_name_changes_no_lookup() {
    let mut outer = Environment::new(None);
    outer.add_variable("b".to_string(), Some(RuntimeValue::Number(2)));
    let mut env = Environment::new(Some(Box::new(outer)));
    env.add_variable("a".to_string(), Some(RuntimeValue::Number(1)));
    env.update_variable("zzz".to_string(), Some(RuntimeValue::Number(9)));
    assert_eq!(env.get_variable("zzz".to_string()), None);
    assert_eq!(env.get_variable("a".to_string()), Some(RuntimeValue::Number(1)));
    assert_eq!(env.get_variable("b".to_string()), Some(RuntimeValue::Number(2)));
    // A name that only an outer scope binds is not reached either.
    env.update_variable("b".to_string(), Some(RuntimeValue::Number(9)));
    assert_eq!(env.get_variable("b".to_string()), Some(RuntimeValue::Number(2)));
}

#[test]
fn environment_update_rebinds_in_its_own_scope() {
    let mut env = Environment::new(None);
    env.add_variable("a".to_string(), Some(RuntimeValue::Number(1)));
    env.add_variable("b".to_string(), Some(RuntimeValue::Number(2)));
    env.update_variable("a".to_string(), Some(text("x")));
    assert_eq!(env.get_variable("a".to_string()), Some(text("x")));
    assert_eq!(env.get_variable("b".to_string()), Some(RuntimeValue::Number(2)));
}
