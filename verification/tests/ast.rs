use saba_core::renderer::js::ast::{JsParser, Node, ParseError, Program};
use saba_core::renderer::js::token::{JsLexer, LexError};
use std::rc::Rc;

fn parse(input: &str) -> Result<Program, ParseError> {
    let lexer = JsLexer::new(input.to_string());
    let mut parser = JsParser::new(lexer);
    parser.parse_ast()
}

fn number(value: u64) -> Option<Rc<Node>> {
    Some(Rc::new(Node::NumberLiteral(value)))
}

fn identifier(name: &str) -> Option<Rc<Node>> {
    Some(Rc::new(Node::Identifier(name.to_string())))
}

fn program_of(statements: Vec<Node>) -> Program {
    let mut program = Program::new();
    let mut body = Vec::new();
    for statement in statements {
        body.push(Rc::new(statement));
    }
    program.set_body(body);
    program
}

#[test]
fn test_empty() {
    let input = "".to_string();
    let lexer = JsLexer::new(input);
    let mut parser = JsParser::new(lexer);
    let expected = Program::new();
    assert_eq!(Ok(expected), parser.parse_ast());
}

#[test]
fn ast_test_num() {
    let input = "42".to_string();
    let lexer = JsLexer::new(input);
    let mut parser = JsParser::new(lexer);
    let mut expected = Program::new();
    let mut body = Vec::new();
    body.push(Rc::new(Node::ExpressionStatement(Some(Rc::new(
        Node::NumberLiteral(42),
    )))));
    expected.set_body(body);
    assert_eq!(Ok(expected), parser.parse_ast());
}

#[test]
fn ast_test_add_nums() {
    let input = "1 + 2".to_string();
    let lexer = JsLexer::new(input);
    let mut parser = JsParser::new(lexer);
    let mut expected = Program::new();
    let mut body = Vec::new();
    body.push(Rc::new(Node::ExpressionStatement(Some(Rc::new(
        Node::AdditiveExpression {
            operator: '+',
            left: Some(Rc::new(Node::NumberLiteral(1))),
            right: Some(Rc::new(Node::NumberLiteral(2))),
        },
    )))));
    expected.set_body(body);
    assert_eq!(Ok(expected), parser.parse_ast());
}

#[test]
fn white_space_only_is_the_empty_program() {
    assert_eq!(Ok(Program::new()), parse("  \n \n"));
}

#[test]
fn additive_operators_group_to_the_right() {
    let expected = program_of(vec![Node::ExpressionStatement(Some(Rc::new(
        Node::AdditiveExpression {
            operator: '-',
            left: number(1),
            right: Some(Rc::new(Node::AdditiveExpression {
                operator: '-',
                left: number(2),
                right: number(3),
            })),
        },
    )))]);
    assert_eq!(Ok(expected), parse("1 - 2 - 3"));
}

#[test]
fn variable_statement_with_two_declarators() {
    let expected = program_of(vec![Node::VariableDeclaration {
        declarators: vec![
            Some(Rc::new(Node::VariableDeclarator {
                id: identifier("a"),
                init: number(1),
            })),
            Some(Rc::new(Node::VariableDeclarator {
                id: identifier("b"),
                init: None,
            })),
        ],
    }]);
    assert_eq!(Ok(expected), parse("var a = 1, b;"));
}

#[test]
fn assignment_is_right_associative() {
    let expected = program_of(vec![Node::ExpressionStatement(Some(Rc::new(
        Node::AssignmentExpression {
            operator: '=',
            left: identifier("a"),
            right: Some(Rc::new(Node::AssignmentExpression {
                operator: '=',
                left: identifier("b"),
                right: number(3),
            })),
        },
    )))]);
    assert_eq!(Ok(expected), parse("a = b = 3"));
}

#[test]
fn member_chain_nests_to_the_left() {
    let expected = program_of(vec![Node::ExpressionStatement(Some(Rc::new(
        Node::MemberExpression {
            object: Some(Rc::new(Node::MemberExpression {
                object: identifier("a"),
                property: identifier("b"),
            })),
            property: identifier("c"),
        },
    )))]);
    assert_eq!(Ok(expected), parse("a.b.c"));
}

#[test]
fn call_with_arguments() {
    let expected = program_of(vec![Node::ExpressionStatement(Some(Rc::new(
        Node::CallExpression {
            callee: Some(Rc::new(Node::MemberExpression {
                object: identifier("document"),
                property: identifier("getElementById"),
            })),
            arguments: vec![Some(Rc::new(Node::StringLiteral("target".to_string()))), number(2)],
        },
    )))]);
    assert_eq!(Ok(expected), parse("document.getElementById('target', 2);"));
}

#[test]
fn function_declaration_with_parameters_and_body() {
    let expected = program_of(vec![Node::FunctionDeclaration {
        id: identifier("add"),
        params: vec![identifier("a"), identifier("b")],
        body: Some(Rc::new(Node::BlockStatement {
            body: vec![Some(Rc::new(Node::ReturnStatement {
                argument: Some(Rc::new(Node::AdditiveExpression {
                    operator: '+',
                    left: identifier("a"),
                    right: identifier("b"),
                })),
            }))],
        })),
    }]);
    assert_eq!(Ok(expected), parse("function add(a, b) { return a + b; }"));
}

#[test]
fn return_without_argument() {
    let expected = program_of(vec![Node::FunctionDeclaration {
        id: identifier("f"),
        params: vec![],
        body: Some(Rc::new(Node::BlockStatement {
            body: vec![Some(Rc::new(Node::ReturnStatement { argument: None }))],
        })),
    }]);
    assert_eq!(Ok(expected), parse("function f() { return }"));
}

#[test]
fn statements_need_no_semicolon() {
    let expected = program_of(vec![
        Node::ExpressionStatement(number(1)),
        Node::ExpressionStatement(number(2)),
    ]);
    assert_eq!(Ok(expected), parse("1 2"));
}

#[test]
fn unexpected_token_is_an_error() {
    assert_eq!(Err(ParseError::UnexpectedToken), parse("1 )"));
    assert_eq!(Err(ParseError::UnexpectedToken), parse("* 2"));
    assert_eq!(Err(ParseError::UnexpectedToken), parse("f(1 2)"));
    assert_eq!(Err(ParseError::UnexpectedToken), parse("var return"));
    assert_eq!(Err(ParseError::UnexpectedToken), parse("function f(a,) {}"));
    assert_eq!(Err(ParseError::UnexpectedToken), parse("a.1"));
}

#[test]
fn unexpected_end_is_an_error() {
    assert_eq!(Err(ParseError::UnexpectedEnd), parse("1 +"));
    assert_eq!(Err(ParseError::UnexpectedEnd), parse("var"));
    assert_eq!(Err(ParseError::UnexpectedEnd), parse("f(1"));
    assert_eq!(Err(ParseError::UnexpectedEnd), parse("function f() { return 1;"));
    assert_eq!(Err(ParseError::UnexpectedEnd), parse("a."));
}

#[test]
fn lexical_error_reaches_the_caller() {
    assert_eq!(Err(ParseError::Lex(LexError::UnexpectedChar('%'))), parse("1 % 2"));
    assert_eq!(Err(ParseError::Lex(LexError::UnexpectedChar('#'))), parse("var a = #"));
    assert_eq!(
        Err(ParseError::Lex(LexError::NumberTooLarge)),
        parse("18446744073709551616")
    );
}

#[test]
fn source_element_reads_one_statement_at_a_time() {
    let mut parser = JsParser::new(JsLexer::new("1; foo".to_string()));
    assert_eq!(
        Ok(Some(Rc::new(Node::ExpressionStatement(number(1))))),
        parser.source_element()
    );
    assert_eq!(
        Ok(Some(Rc::new(Node::ExpressionStatement(identifier("foo"))))),
        parser.source_element()
    );
    assert_eq!(Ok(None), parser.source_element());
    assert_eq!(Ok(None), parser.source_element());
}

#[test]
fn parsing_is_deterministic() {
    let source = "var a=42; function foo(b) { var a=1; return a + b; } foo(2)+a";
    assert_eq!(parse(source), parse(source));
}

#[test]
fn constructors_build_the_variants() {
    assert_eq!(
        Node::new_expression_statement(number(1)),
        Some(Rc::new(Node::ExpressionStatement(number(1))))
    );
    assert_eq!(
        Node::new_additive_expression('+', number(1), number(2)),
        Some(Rc::new(Node::AdditiveExpression { operator: '+', left: number(1), right: number(2) }))
    );
    assert_eq!(
        Node::new_assignment_expression('=', identifier("a"), number(2)),
        Some(Rc::new(Node::AssignmentExpression {
            operator: '=',
            left: identifier("a"),
            right: number(2)
        }))
    );
    assert_eq!(
        Node::new_member_expression(identifier("a"), identifier("b")),
        Some(Rc::new(Node::MemberExpression { object: identifier("a"), property: identifier("b") }))
    );
    assert_eq!(Node::new_numeric_literal(7), number(7));
}

#[test]
fn program_body_is_what_was_set() {
    let mut program = Program::new();
    assert!(program.body().is_empty());
    program.set_body(vec![Rc::new(Node::NumberLiteral(1))]);
    assert_eq!(program.body().len(), 1);
    assert_eq!(*program.body()[0], Node::NumberLiteral(1));
}
