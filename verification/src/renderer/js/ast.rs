//! The syntax tree of the JavaScript subset and its recursive-descent parser.
//!
//! The grammar is written down once, as the functions `parse_*` over a stream
//! of tokens; `JsParser` reads the tokens one at a time from a scanner and is
//! proved to build exactly the tree that the grammar gives.
//!
//! ```text
//! Program             := SourceElement*
//! SourceElement       := FunctionDeclaration | Statement
//! FunctionDeclaration := 'function' Identifier '(' ParamList? ')' Block
//! ParamList           := Identifier ( ',' Identifier )*
//! Block               := '{' SourceElement* '}'
//! Statement           := 'var' Declarator ( ',' Declarator )* ';'?
//!                      | 'return' Assignment? ';'?
//!                      | Assignment ';'?
//! Declarator          := Identifier ( '=' Assignment )?
//! Assignment          := Additive ( '=' Assignment )?
//! Additive            := LeftHandSide ( ('+'|'-') Assignment )?
//! LeftHandSide        := Member ( '(' ArgumentList? ')' )?
//! Member              := Primary ( '.' Identifier )*
//! Primary             := Number | String | Identifier
//! ArgumentList        := Assignment ( ',' Assignment )*
//! ```

use crate::renderer::js::token::{
    head, tail, tokens, JsLexer, LexError, Token, TokenStream, TokenView,
};
use std::rc::Rc;
use vstd::prelude::*;

verus! {

/// A node of the syntax tree. Every child slot may be empty.
#[derive(Debug, Clone, PartialEq, Eq)]
#[allow(inconsistent_fields)]
pub enum Node {
    ExpressionStatement(Option<Rc<Node>>),
    AdditiveExpression { operator: char, left: Option<Rc<Node>>, right: Option<Rc<Node>> },
    AssignmentExpression { operator: char, left: Option<Rc<Node>>, right: Option<Rc<Node>> },
    MemberExpression { object: Option<Rc<Node>>, property: Option<Rc<Node>> },
    NumberLiteral(u64),
    StringLiteral(String),
    Identifier(String),
    VariableDeclaration { declarators: Vec<Option<Rc<Node>>> },
    VariableDeclarator { id: Option<Rc<Node>>, init: Option<Rc<Node>> },
    BlockStatement { body: Vec<Option<Rc<Node>>> },
    ReturnStatement { argument: Option<Rc<Node>> },
    FunctionDeclaration { id: Option<Rc<Node>>, params: Vec<Option<Rc<Node>>>, body: Option<Rc<Node>> },
    CallExpression { callee: Option<Rc<Node>>, arguments: Vec<Option<Rc<Node>>> },
}

/// A place for a child in the tree: a node, or nothing.
pub type Child = Option<Box<NodeView>>;

/// The tree that a `Node` stands for: text as sequences of characters, lists
/// as sequences, children held directly.
#[allow(inconsistent_fields)]
pub ghost enum NodeView {
    ExpressionStatement(Child),
    AdditiveExpression { operator: char, left: Child, right: Child },
    AssignmentExpression { operator: char, left: Child, right: Child },
    MemberExpression { object: Child, property: Child },
    NumberLiteral(u64),
    StringLiteral(Seq<char>),
    Identifier(Seq<char>),
    VariableDeclaration { declarators: Seq<Child> },
    VariableDeclarator { id: Child, init: Child },
    BlockStatement { body: Seq<Child> },
    ReturnStatement { argument: Child },
    FunctionDeclaration { id: Child, params: Seq<Child>, body: Child },
    CallExpression { callee: Child, arguments: Seq<Child> },
}

/// The view of a child slot.
pub open spec fn child_view(slot: Option<Rc<Node>>) -> Child
    decreases slot,
{
    match slot {
        Some(node) => Some(Box::new(node_view(*node))),
        None => None,
    }
}

/// The views of a list of child slots.
pub open spec fn slots_view(slots: Seq<Option<Rc<Node>>>) -> Seq<Child>
    decreases slots,
{
    Seq::new(
        slots.len(),
        |i: int|
            if 0 <= i < slots.len() {
                child_view(slots[i])
            } else {
                None
            },
    )
}

/// The view of a node.
pub open spec fn node_view(node: Node) -> NodeView
    decreases node,
{
    match node {
        Node::ExpressionStatement(e) => NodeView::ExpressionStatement(child_view(e)),
        Node::AdditiveExpression { operator, left, right } => NodeView::AdditiveExpression {
            operator,
            left: child_view(left),
            right: child_view(right),
        },
        Node::AssignmentExpression { operator, left, right } => NodeView::AssignmentExpression {
            operator,
            left: child_view(left),
            right: child_view(right),
        },
        Node::MemberExpression { object, property } => NodeView::MemberExpression {
            object: child_view(object),
            property: child_view(property),
        },
        Node::NumberLiteral(value) => NodeView::NumberLiteral(value),
        Node::StringLiteral(value) => NodeView::StringLiteral(value@),
        Node::Identifier(name) => NodeView::Identifier(name@),
        Node::VariableDeclaration { declarators } => NodeView::VariableDeclaration {
            declarators: slots_view(declarators@),
        },
        Node::VariableDeclarator { id, init } => NodeView::VariableDeclarator {
            id: child_view(id),
            init: child_view(init),
        },
        Node::BlockStatement { body } => NodeView::BlockStatement { body: slots_view(body@) },
        Node::ReturnStatement { argument } => NodeView::ReturnStatement {
            argument: child_view(argument),
        },
        Node::FunctionDeclaration { id, params, body } => NodeView::FunctionDeclaration {
            id: child_view(id),
            params: slots_view(params@),
            body: child_view(body),
        },
        Node::CallExpression { callee, arguments } => NodeView::CallExpression {
            callee: child_view(callee),
            arguments: slots_view(arguments@),
        },
    }
}

impl View for Node {
    type V = NodeView;

    open spec fn view(&self) -> NodeView {
        node_view(*self)
    }
}


/// Why a stream of tokens is not a program.
#[derive(Debug, Clone, Copy, PartialEq, Eq)]
pub enum ParseError {
    /// The scanner could not read the next token.
    Lex(LexError),
    /// A token stands where the grammar has no use for it.
    UnexpectedToken,
    /// The text ends where the grammar asks for more.
    UnexpectedEnd,
}

/// The outcome of a grammar rule: what it built and the tokens after it, or
/// the reason why the rule does not apply.
pub ghost enum Parsed<T> {
    Done { value: T, rest: TokenStream },
    Failed(ParseError),
}

/// The error that a rule reports when it cannot use what is at the front of `s`.
pub open spec fn stop(s: TokenStream) -> ParseError {
    match head(s) {
        Ok(Some(_)) => ParseError::UnexpectedToken,
        Ok(None) => ParseError::UnexpectedEnd,
        Err(e) => ParseError::Lex(e),
    }
}

/// Whether the front of `s` is the punctuator `c`.
pub open spec fn at_punctuator(s: TokenStream, c: char) -> bool {
    head(s) == Ok::<Option<TokenView>, LexError>(Some(TokenView::Punctuator(c)))
}

/// Whether the front of `s` is the reserved word `word`.
pub open spec fn at_keyword(s: TokenStream, word: Seq<char>) -> bool {
    head(s) == Ok::<Option<TokenView>, LexError>(Some(TokenView::Keyword(word)))
}

/// Whether `rest` is shorter than `s`. Every rule that succeeds takes at
/// least one token (the lemmas `lemma_*_progress`), so the rules below, which ask
/// for this before they go on, never fail on it; it is there to show that
/// they end.
pub open spec fn shorter(rest: TokenStream, s: TokenStream) -> bool {
    rest.tokens.len() < s.tokens.len()
}

/// `Identifier`
pub open spec fn parse_identifier(s: TokenStream) -> Parsed<NodeView> {
    match head(s) {
        Ok(Some(TokenView::Identifier(name))) => Parsed::Done {
            value: NodeView::Identifier(name),
            rest: tail(s),
        },
        _ => Parsed::Failed(stop(s)),
    }
}

/// `Primary := Number | String | Identifier`
pub open spec fn parse_primary(s: TokenStream) -> Parsed<NodeView> {
    match head(s) {
        Ok(Some(TokenView::Number(value))) => Parsed::Done {
            value: NodeView::NumberLiteral(value),
            rest: tail(s),
        },
        Ok(Some(TokenView::StringLiteral(value))) => Parsed::Done {
            value: NodeView::StringLiteral(value),
            rest: tail(s),
        },
        Ok(Some(TokenView::Identifier(name))) => Parsed::Done {
            value: NodeView::Identifier(name),
            rest: tail(s),
        },
        _ => Parsed::Failed(stop(s)),
    }
}

/// `( '.' Identifier )*` after `object`: each property wraps what stands before it.
pub open spec fn parse_member_tail(object: NodeView, s: TokenStream) -> Parsed<NodeView>
    decreases s.tokens.len(),
{
    if at_punctuator(s, '.') {
        match parse_identifier(tail(s)) {
            Parsed::Done { value: property, rest } => parse_member_tail(
                NodeView::MemberExpression {
                    object: Some(Box::new(object)),
                    property: Some(Box::new(property)),
                },
                rest,
            ),
            Parsed::Failed(e) => Parsed::Failed(e),
        }
    } else if head(s) is Err {
        Parsed::Failed(stop(s))
    } else {
        Parsed::Done { value: object, rest: s }
    }
}

/// `Member := Primary ( '.' Identifier )*`
pub open spec fn parse_member(s: TokenStream) -> Parsed<NodeView> {
    match parse_primary(s) {
        Parsed::Done { value, rest } => parse_member_tail(value, rest),
        Parsed::Failed(e) => Parsed::Failed(e),
    }
}

/// `ArgumentList? ')'`, after the opening bracket.
pub open spec fn parse_arguments(s: TokenStream) -> Parsed<Seq<Child>>
    decreases s.tokens.len(), 5nat,
{
    if at_punctuator(s, ')') {
        Parsed::Done { value: Seq::empty(), rest: tail(s) }
    } else {
        parse_argument_list(Seq::empty(), s)
    }
}

/// `Assignment ( ',' Assignment )* ')'`, added to the arguments in `before`.
pub open spec fn parse_argument_list(before: Seq<Child>, s: TokenStream) -> Parsed<
    Seq<Child>,
>
    decreases s.tokens.len(), 4nat,
{
    match parse_assignment(s) {
        Parsed::Done { value, rest } => {
            let arguments = before.push(Some(Box::new(value)));
            if at_punctuator(rest, ')') {
                Parsed::Done { value: arguments, rest: tail(rest) }
            } else if at_punctuator(rest, ',') && shorter(rest, s) {
                parse_argument_list(arguments, tail(rest))
            } else {
                Parsed::Failed(stop(rest))
            }
        },
        Parsed::Failed(e) => Parsed::Failed(e),
    }
}

/// `LeftHandSide := Member ( '(' ArgumentList? ')' )?`
pub open spec fn parse_left_hand_side(s: TokenStream) -> Parsed<NodeView>
    decreases s.tokens.len(), 1nat,
{
    match parse_member(s) {
        Parsed::Done { value: callee, rest } => {
            if at_punctuator(rest, '(') && shorter(rest, s) {
                match parse_arguments(tail(rest)) {
                    Parsed::Done { value: arguments, rest: after } => Parsed::Done {
                        value: NodeView::CallExpression {
                            callee: Some(Box::new(callee)),
                            arguments,
                        },
                        rest: after,
                    },
                    Parsed::Failed(e) => Parsed::Failed(e),
                }
            } else if head(rest) is Err {
                Parsed::Failed(stop(rest))
            } else {
                Parsed::Done { value: callee, rest }
            }
        },
        Parsed::Failed(e) => Parsed::Failed(e),
    }
}

/// `Additive := LeftHandSide ( ('+'|'-') Assignment )?`: the right operand is a
/// whole assignment expression, so a chain of operators groups to the right.
pub open spec fn parse_additive(s: TokenStream) -> Parsed<NodeView>
    decreases s.tokens.len(), 2nat,
{
    match parse_left_hand_side(s) {
        Parsed::Done { value: left, rest } => {
            if (at_punctuator(rest, '+') || at_punctuator(rest, '-')) && shorter(rest, s) {
                match parse_assignment(tail(rest)) {
                    Parsed::Done { value: right, rest: after } => Parsed::Done {
                        value: NodeView::AdditiveExpression {
                            operator: rest.tokens[0]->Punctuator_0,
                            left: Some(Box::new(left)),
                            right: Some(Box::new(right)),
                        },
                        rest: after,
                    },
                    Parsed::Failed(e) => Parsed::Failed(e),
                }
            } else if head(rest) is Err {
                Parsed::Failed(stop(rest))
            } else {
                Parsed::Done { value: left, rest }
            }
        },
        Parsed::Failed(e) => Parsed::Failed(e),
    }
}

/// `Assignment := Additive ( '=' Assignment )?`
pub open spec fn parse_assignment(s: TokenStream) -> Parsed<NodeView>
    decreases s.tokens.len(), 3nat,
{
    match parse_additive(s) {
        Parsed::Done { value: left, rest } => {
            if at_punctuator(rest, '=') && shorter(rest, s) {
                match parse_assignment(tail(rest)) {
                    Parsed::Done { value: right, rest: after } => Parsed::Done {
                        value: NodeView::AssignmentExpression {
                            operator: '=',
                            left: Some(Box::new(left)),
                            right: Some(Box::new(right)),
                        },
                        rest: after,
                    },
                    Parsed::Failed(e) => Parsed::Failed(e),
                }
            } else if head(rest) is Err {
                Parsed::Failed(stop(rest))
            } else {
                Parsed::Done { value: left, rest }
            }
        },
        Parsed::Failed(e) => Parsed::Failed(e),
    }
}

/// `Declarator := Identifier ( '=' Assignment )?`
pub open spec fn parse_declarator(s: TokenStream) -> Parsed<NodeView> {
    match parse_identifier(s) {
        Parsed::Done { value: id, rest } => {
            if at_punctuator(rest, '=') {
                match parse_assignment(tail(rest)) {
                    Parsed::Done { value: init, rest: after } => Parsed::Done {
                        value: NodeView::VariableDeclarator {
                            id: Some(Box::new(id)),
                            init: Some(Box::new(init)),
                        },
                        rest: after,
                    },
                    Parsed::Failed(e) => Parsed::Failed(e),
                }
            } else if head(rest) is Err {
                Parsed::Failed(stop(rest))
            } else {
                Parsed::Done {
                    value: NodeView::VariableDeclarator { id: Some(Box::new(id)), init: None },
                    rest,
                }
            }
        },
        Parsed::Failed(e) => Parsed::Failed(e),
    }
}

/// `Declarator ( ',' Declarator )*`, added to the declarators in `before`.
pub open spec fn parse_declarators(before: Seq<Child>, s: TokenStream) -> Parsed<
    Seq<Child>,
>
    decreases s.tokens.len(),
{
    match parse_declarator(s) {
        Parsed::Done { value, rest } => {
            let declarators = before.push(Some(Box::new(value)));
            if at_punctuator(rest, ',') && shorter(rest, s) {
                parse_declarators(declarators, tail(rest))
            } else {
                Parsed::Done { value: declarators, rest }
            }
        },
        Parsed::Failed(e) => Parsed::Failed(e),
    }
}

/// `';'?` after the statement `value`.
pub open spec fn parse_semicolon(value: NodeView, s: TokenStream) -> Parsed<NodeView> {
    if at_punctuator(s, ';') {
        Parsed::Done { value, rest: tail(s) }
    } else if head(s) is Err {
        Parsed::Failed(stop(s))
    } else {
        Parsed::Done { value, rest: s }
    }
}

/// Whether the front of `s` can start an expression.
pub open spec fn at_expression(s: TokenStream) -> bool {
    head(s) matches Ok(Some(t)) && (t is Number || t is StringLiteral || t is Identifier)
}

/// `Statement`, without what follows the last expression.
pub open spec fn parse_statement_body(s: TokenStream) -> Parsed<NodeView> {
    if at_keyword(s, "var"@) {
        match parse_declarators(Seq::empty(), tail(s)) {
            Parsed::Done { value: declarators, rest } => Parsed::Done {
                value: NodeView::VariableDeclaration { declarators },
                rest,
            },
            Parsed::Failed(e) => Parsed::Failed(e),
        }
    } else if at_keyword(s, "return"@) {
        if at_expression(tail(s)) {
            match parse_assignment(tail(s)) {
                Parsed::Done { value: argument, rest } => Parsed::Done {
                    value: NodeView::ReturnStatement { argument: Some(Box::new(argument)) },
                    rest,
                },
                Parsed::Failed(e) => Parsed::Failed(e),
            }
        } else {
            Parsed::Done { value: NodeView::ReturnStatement { argument: None }, rest: tail(s) }
        }
    } else {
        match parse_assignment(s) {
            Parsed::Done { value: expression, rest } => Parsed::Done {
                value: NodeView::ExpressionStatement(Some(Box::new(expression))),
                rest,
            },
            Parsed::Failed(e) => Parsed::Failed(e),
        }
    }
}

/// `Statement := 'var' Declarator ( ',' Declarator )* ';'? | 'return' Assignment? ';'? | Assignment ';'?`
pub open spec fn parse_statement(s: TokenStream) -> Parsed<NodeView> {
    match parse_statement_body(s) {
        Parsed::Done { value, rest } => parse_semicolon(value, rest),
        Parsed::Failed(e) => Parsed::Failed(e),
    }
}

/// `( Identifier ( ',' Identifier )* )? ')'`, after the opening bracket.
pub open spec fn parse_parameters(s: TokenStream) -> Parsed<Seq<Child>> {
    if at_punctuator(s, ')') {
        Parsed::Done { value: Seq::empty(), rest: tail(s) }
    } else {
        parse_parameter_list(Seq::empty(), s)
    }
}

/// `Identifier ( ',' Identifier )* ')'`, added to the parameters in `before`.
pub open spec fn parse_parameter_list(before: Seq<Child>, s: TokenStream) -> Parsed<
    Seq<Child>,
>
    decreases s.tokens.len(),
{
    match parse_identifier(s) {
        Parsed::Done { value, rest } => {
            let parameters = before.push(Some(Box::new(value)));
            if at_punctuator(rest, ')') {
                Parsed::Done { value: parameters, rest: tail(rest) }
            } else if at_punctuator(rest, ',') {
                parse_parameter_list(parameters, tail(rest))
            } else {
                Parsed::Failed(stop(rest))
            }
        },
        Parsed::Failed(e) => Parsed::Failed(e),
    }
}

/// `FunctionDeclaration`, after the word `function`.
pub open spec fn parse_function(s: TokenStream) -> Parsed<NodeView>
    decreases s.tokens.len(), 0nat,
{
    match parse_identifier(s) {
        Parsed::Done { value: id, rest } => {
            if at_punctuator(rest, '(') {
                match parse_parameters(tail(rest)) {
                    Parsed::Done { value: params, rest: after } => {
                        if at_punctuator(after, '{') && shorter(after, s) {
                            match parse_block_items(Seq::empty(), tail(after)) {
                                Parsed::Done { value: body, rest: end } => Parsed::Done {
                                    value: NodeView::FunctionDeclaration {
                                        id: Some(Box::new(id)),
                                        params,
                                        body: Some(Box::new(NodeView::BlockStatement { body })),
                                    },
                                    rest: end,
                                },
                                Parsed::Failed(e) => Parsed::Failed(e),
                            }
                        } else {
                            Parsed::Failed(stop(after))
                        }
                    },
                    Parsed::Failed(e) => Parsed::Failed(e),
                }
            } else {
                Parsed::Failed(stop(rest))
            }
        },
        Parsed::Failed(e) => Parsed::Failed(e),
    }
}

/// `SourceElement* '}'`, added to the elements in `before`.
pub open spec fn parse_block_items(before: Seq<Child>, s: TokenStream) -> Parsed<
    Seq<Child>,
>
    decreases s.tokens.len(), 2nat,
{
    if at_punctuator(s, '}') {
        Parsed::Done { value: before, rest: tail(s) }
    } else {
        match parse_source_element(s) {
            Parsed::Done { value, rest } => {
                if shorter(rest, s) {
                    parse_block_items(before.push(Some(Box::new(value))), rest)
                } else {
                    Parsed::Failed(stop(rest))
                }
            },
            Parsed::Failed(e) => Parsed::Failed(e),
        }
    }
}

/// `SourceElement := FunctionDeclaration | Statement`
pub open spec fn parse_source_element(s: TokenStream) -> Parsed<NodeView>
    decreases s.tokens.len(), 1nat,
{
    if at_keyword(s, "function"@) {
        parse_function(tail(s))
    } else {
        parse_statement(s)
    }
}

/// `SourceElement*` up to the end of the text, added to the elements in `before`.
pub open spec fn parse_elements(before: Seq<NodeView>, s: TokenStream) -> Result<
    Seq<NodeView>,
    ParseError,
>
    decreases s.tokens.len(),
{
    if head(s) == Ok::<Option<TokenView>, LexError>(None) {
        Ok(before)
    } else {
        match parse_source_element(s) {
            Parsed::Done { value, rest } => {
                if shorter(rest, s) {
                    parse_elements(before.push(value), rest)
                } else {
                    Err(stop(rest))
                }
            },
            Parsed::Failed(e) => Err(e),
        }
    }
}

/// `Program := SourceElement*`: the statements of a whole text, or the first
/// error in it.
pub open spec fn parse_program(s: TokenStream) -> Result<Seq<NodeView>, ParseError> {
    parse_elements(Seq::empty(), s)
}


/// A member chain that succeeds leaves no more tokens than it found.
pub proof fn lemma_member_tail_progress(object: NodeView, s: TokenStream)
    ensures
        parse_member_tail(object, s) matches Parsed::Done { rest, .. } ==> rest.tokens.len()
            <= s.tokens.len(),
    decreases s.tokens.len(),
{
    if at_punctuator(s, '.') {
        match parse_identifier(tail(s)) {
            Parsed::Done { value: property, rest } => {
                lemma_member_tail_progress(
                    NodeView::MemberExpression {
                        object: Some(Box::new(object)),
                        property: Some(Box::new(property)),
                    },
                    rest,
                );
            },
            Parsed::Failed(_) => {},
        }
    }
}

/// An argument list that succeeds takes at least its closing bracket.
pub proof fn lemma_arguments_progress(s: TokenStream)
    ensures
        parse_arguments(s) matches Parsed::Done { rest, .. } ==> shorter(rest, s),
    decreases s.tokens.len(), 5nat,
{
    if !at_punctuator(s, ')') {
        lemma_argument_list_progress(Seq::empty(), s);
    }
}

/// The arguments after the first take at least one token as well.
pub proof fn lemma_argument_list_progress(before: Seq<Child>, s: TokenStream)
    ensures
        parse_argument_list(before, s) matches Parsed::Done { rest, .. } ==> shorter(rest, s),
    decreases s.tokens.len(), 4nat,
{
    lemma_assignment_progress(s);
    match parse_assignment(s) {
        Parsed::Done { value, rest } => {
            if !at_punctuator(rest, ')') && at_punctuator(rest, ',') {
                lemma_argument_list_progress(before.push(Some(Box::new(value))), tail(rest));
            }
        },
        Parsed::Failed(_) => {},
    }
}

/// A left-hand side that succeeds takes at least one token.
pub proof fn lemma_left_hand_side_progress(s: TokenStream)
    ensures
        parse_left_hand_side(s) matches Parsed::Done { rest, .. } ==> shorter(rest, s),
    decreases s.tokens.len(), 1nat,
{
    match parse_primary(s) {
        Parsed::Done { value, rest } => {
            lemma_member_tail_progress(value, rest);
        },
        Parsed::Failed(_) => {},
    }
    match parse_member(s) {
        Parsed::Done { value, rest } => {
            if at_punctuator(rest, '(') {
                lemma_arguments_progress(tail(rest));
            }
        },
        Parsed::Failed(_) => {},
    }
}

/// An additive expression that succeeds takes at least one token.
pub proof fn lemma_additive_progress(s: TokenStream)
    ensures
        parse_additive(s) matches Parsed::Done { rest, .. } ==> shorter(rest, s),
    decreases s.tokens.len(), 2nat,
{
    lemma_left_hand_side_progress(s);
    match parse_left_hand_side(s) {
        Parsed::Done { value, rest } => {
            if at_punctuator(rest, '+') || at_punctuator(rest, '-') {
                lemma_assignment_progress(tail(rest));
            }
        },
        Parsed::Failed(_) => {},
    }
}

/// An assignment expression that succeeds takes at least one token.
pub proof fn lemma_assignment_progress(s: TokenStream)
    ensures
        parse_assignment(s) matches Parsed::Done { rest, .. } ==> shorter(rest, s),
    decreases s.tokens.len(), 3nat,
{
    lemma_additive_progress(s);
    match parse_additive(s) {
        Parsed::Done { value, rest } => {
            if at_punctuator(rest, '=') {
                lemma_assignment_progress(tail(rest));
            }
        },
        Parsed::Failed(_) => {},
    }
}

/// A declarator that succeeds takes at least its name.
pub proof fn lemma_declarator_progress(s: TokenStream)
    ensures
        parse_declarator(s) matches Parsed::Done { rest, .. } ==> shorter(rest, s),
{
    match parse_identifier(s) {
        Parsed::Done { value, rest } => {
            if at_punctuator(rest, '=') {
                lemma_assignment_progress(tail(rest));
            }
        },
        Parsed::Failed(_) => {},
    }
}

/// A list of declarators that succeeds takes at least one token.
pub proof fn lemma_declarators_progress(before: Seq<Child>, s: TokenStream)
    ensures
        parse_declarators(before, s) matches Parsed::Done { rest, .. } ==> shorter(rest, s),
    decreases s.tokens.len(),
{
    lemma_declarator_progress(s);
    match parse_declarator(s) {
        Parsed::Done { value, rest } => {
            if at_punctuator(rest, ',') {
                lemma_declarators_progress(before.push(Some(Box::new(value))), tail(rest));
            }
        },
        Parsed::Failed(_) => {},
    }
}

/// A statement that succeeds takes at least one token.
pub proof fn lemma_statement_progress(s: TokenStream)
    ensures
        parse_statement_body(s) matches Parsed::Done { rest, .. } ==> shorter(rest, s),
        parse_statement(s) matches Parsed::Done { rest, .. } ==> shorter(rest, s),
{
    if at_keyword(s, "var"@) {
        lemma_declarators_progress(Seq::empty(), tail(s));
    } else if at_keyword(s, "return"@) {
        if at_expression(tail(s)) {
            lemma_assignment_progress(tail(s));
        }
    } else {
        lemma_assignment_progress(s);
    }
}

/// A parameter list that succeeds takes at least its closing bracket.
pub proof fn lemma_parameter_list_progress(before: Seq<Child>, s: TokenStream)
    ensures
        parse_parameter_list(before, s) matches Parsed::Done { rest, .. } ==> shorter(rest, s),
    decreases s.tokens.len(),
{
    match parse_identifier(s) {
        Parsed::Done { value, rest } => {
            if !at_punctuator(rest, ')') && at_punctuator(rest, ',') {
                lemma_parameter_list_progress(before.push(Some(Box::new(value))), tail(rest));
            }
        },
        Parsed::Failed(_) => {},
    }
}

/// A function declaration that succeeds takes at least one token.
pub proof fn lemma_function_progress(s: TokenStream)
    ensures
        parse_function(s) matches Parsed::Done { rest, .. } ==> shorter(rest, s),
    decreases s.tokens.len(), 0nat,
{
    match parse_identifier(s) {
        Parsed::Done { value: id, rest } => {
            if at_punctuator(rest, '(') {
                if !at_punctuator(tail(rest), ')') {
                    lemma_parameter_list_progress(Seq::empty(), tail(rest));
                }
                match parse_parameters(tail(rest)) {
                    Parsed::Done { value: params, rest: after } => {
                        if at_punctuator(after, '{') {
                            lemma_block_items_progress(Seq::empty(), tail(after));
                        }
                    },
                    Parsed::Failed(_) => {},
                }
            }
        },
        Parsed::Failed(_) => {},
    }
}

/// The inside of a block, if it succeeds, takes at least the closing bracket.
pub proof fn lemma_block_items_progress(before: Seq<Child>, s: TokenStream)
    ensures
        parse_block_items(before, s) matches Parsed::Done { rest, .. } ==> shorter(rest, s),
    decreases s.tokens.len(), 2nat,
{
    if !at_punctuator(s, '}') {
        lemma_source_element_progress(s);
        match parse_source_element(s) {
            Parsed::Done { value, rest } => {
                lemma_block_items_progress(before.push(Some(Box::new(value))), rest);
            },
            Parsed::Failed(_) => {},
        }
    }
}

/// A source element that succeeds takes at least one token.
pub proof fn lemma_source_element_progress(s: TokenStream)
    ensures
        parse_source_element(s) matches Parsed::Done { rest, .. } ==> shorter(rest, s),
    decreases s.tokens.len(), 1nat,
{
    if at_keyword(s, "function"@) {
        lemma_function_progress(tail(s));
    } else {
        lemma_statement_progress(s);
    }
}


/// Whether the slot holds an identifier.
pub open spec fn holds_identifier(slot: Child) -> bool {
    slot matches Some(node) && *node is Identifier
}

/// Whether the slot holds a node that is whole.
pub open spec fn whole_child(slot: Child) -> bool
    decreases slot,
{
    match slot {
        Some(node) => whole(*node),
        None => false,
    }
}

/// Whether every slot of the list holds a node that is whole.
pub open spec fn whole_list(list: Seq<Child>) -> bool
    decreases list,
{
    forall|i: int| 0 <= i < list.len() ==> whole_child(#[trigger] list[i])
}

/// Whether a tree is whole, as the parser builds it: every slot in it holds a
/// node, but for the value of a declarator and the argument of a `return`,
/// which are empty where the text has none; names stand where the grammar
/// asks for names, and an operator is one that the grammar knows.
pub open spec fn whole(node: NodeView) -> bool
    decreases node,
{
    match node {
        NodeView::ExpressionStatement(expression) => whole_child(expression),
        NodeView::AdditiveExpression { operator, left, right } => {
            &&& operator == '+' || operator == '-'
            &&& whole_child(left)
            &&& whole_child(right)
        },
        NodeView::AssignmentExpression { operator, left, right } => {
            &&& operator == '='
            &&& whole_child(left)
            &&& whole_child(right)
        },
        NodeView::MemberExpression { object, property } => {
            &&& whole_child(object)
            &&& holds_identifier(property)
        },
        NodeView::NumberLiteral(_) => true,
        NodeView::StringLiteral(_) => true,
        NodeView::Identifier(_) => true,
        NodeView::VariableDeclaration { declarators } => {
            &&& declarators.len() > 0
            &&& whole_list(declarators)
            &&& holds_declarators(declarators)
        },
        NodeView::VariableDeclarator { id, init } => {
            &&& holds_identifier(id)
            &&& init is Some ==> whole_child(init)
        },
        NodeView::BlockStatement { body } => whole_list(body),
        NodeView::ReturnStatement { argument } => argument is Some ==> whole_child(argument),
        NodeView::FunctionDeclaration { id, params, body } => {
            &&& holds_identifier(id)
            &&& holds_identifiers(params)
            &&& body matches Some(block) && *block is BlockStatement
            &&& whole_child(body)
        },
        NodeView::CallExpression { callee, arguments } => {
            &&& whole_child(callee)
            &&& whole_list(arguments)
        },
    }
}

/// A whole list with a whole node added is whole.
pub proof fn lemma_whole_push(list: Seq<Child>, node: NodeView)
    requires
        whole_list(list),
        whole(node),
    ensures
        whole_list(list.push(Some(Box::new(node)))),
{
    let longer = list.push(Some(Box::new(node)));
    assert forall|i: int| 0 <= i < longer.len() implies whole_child(#[trigger] longer[i]) by {
        if i < list.len() {
            assert(longer[i] == list[i]);
        }
    }
}

/// A member chain on a whole object is whole.
pub proof fn lemma_member_tail_whole(object: NodeView, s: TokenStream)
    requires
        whole(object),
    ensures
        parse_member_tail(object, s) matches Parsed::Done { value, .. } ==> whole(value),
    decreases s.tokens.len(),
{
    if at_punctuator(s, '.') {
        match parse_identifier(tail(s)) {
            Parsed::Done { value: property, rest } => {
                lemma_member_tail_whole(
                    NodeView::MemberExpression {
                        object: Some(Box::new(object)),
                        property: Some(Box::new(property)),
                    },
                    rest,
                );
            },
            Parsed::Failed(_) => {},
        }
    }
}

/// The arguments that the parser reads are whole.
pub proof fn lemma_arguments_whole(s: TokenStream)
    ensures
        parse_arguments(s) matches Parsed::Done { value, .. } ==> whole_list(value),
    decreases s.tokens.len(), 5nat,
{
    if !at_punctuator(s, ')') {
        lemma_argument_list_whole(Seq::empty(), s);
    }
}

/// Whole arguments stay whole as more are read.
pub proof fn lemma_argument_list_whole(before: Seq<Child>, s: TokenStream)
    requires
        whole_list(before),
    ensures
        parse_argument_list(before, s) matches Parsed::Done { value, .. } ==> whole_list(value),
    decreases s.tokens.len(), 4nat,
{
    lemma_assignment_whole(s);
    match parse_assignment(s) {
        Parsed::Done { value, rest } => {
            lemma_whole_push(before, value);
            if !at_punctuator(rest, ')') && at_punctuator(rest, ',') && shorter(rest, s) {
                lemma_argument_list_whole(before.push(Some(Box::new(value))), tail(rest));
            }
        },
        Parsed::Failed(_) => {},
    }
}

/// The left-hand side that the parser reads is whole.
pub proof fn lemma_left_hand_side_whole(s: TokenStream)
    ensures
        parse_left_hand_side(s) matches Parsed::Done { value, .. } ==> whole(value),
    decreases s.tokens.len(), 1nat,
{
    match parse_primary(s) {
        Parsed::Done { value, rest } => {
            lemma_member_tail_whole(value, rest);
        },
        Parsed::Failed(_) => {},
    }
    match parse_member(s) {
        Parsed::Done { value, rest } => {
            if at_punctuator(rest, '(') && shorter(rest, s) {
                lemma_arguments_whole(tail(rest));
            }
        },
        Parsed::Failed(_) => {},
    }
}

/// The additive expression that the parser reads is whole.
pub proof fn lemma_additive_whole(s: TokenStream)
    ensures
        parse_additive(s) matches Parsed::Done { value, .. } ==> whole(value),
    decreases s.tokens.len(), 2nat,
{
    lemma_left_hand_side_whole(s);
    match parse_left_hand_side(s) {
        Parsed::Done { value, rest } => {
            if (at_punctuator(rest, '+') || at_punctuator(rest, '-')) && shorter(rest, s) {
                lemma_assignment_whole(tail(rest));
            }
        },
        Parsed::Failed(_) => {},
    }
}

/// The assignment expression that the parser reads is whole.
pub proof fn lemma_assignment_whole(s: TokenStream)
    ensures
        parse_assignment(s) matches Parsed::Done { value, .. } ==> whole(value),
    decreases s.tokens.len(), 3nat,
{
    lemma_additive_whole(s);
    match parse_additive(s) {
        Parsed::Done { value, rest } => {
            if at_punctuator(rest, '=') && shorter(rest, s) {
                lemma_assignment_whole(tail(rest));
            }
        },
        Parsed::Failed(_) => {},
    }
}

/// The declarator that the parser reads is whole.
pub proof fn lemma_declarator_whole(s: TokenStream)
    ensures
        parse_declarator(s) matches Parsed::Done { value, .. } ==> whole(value)
            && value is VariableDeclarator,
{
    match parse_identifier(s) {
        Parsed::Done { value, rest } => {
            if at_punctuator(rest, '=') {
                lemma_assignment_whole(tail(rest));
            }
        },
        Parsed::Failed(_) => {},
    }
}

/// Whether the slot holds a declarator.
pub open spec fn holds_declarator(slot: Child) -> bool {
    slot matches Some(node) && *node is VariableDeclarator
}

/// Whether every slot of the list holds a declarator.
pub open spec fn holds_declarators(list: Seq<Child>) -> bool {
    forall|i: int| 0 <= i < list.len() ==> holds_declarator(#[trigger] list[i])
}

/// The declarators that the parser reads are whole, and there is at least one.
pub proof fn lemma_declarators_whole(before: Seq<Child>, s: TokenStream)
    requires
        whole_list(before),
        holds_declarators(before),
    ensures
        parse_declarators(before, s) matches Parsed::Done { value, .. } ==> whole_list(value)
            && holds_declarators(value) && value.len() > 0,
    decreases s.tokens.len(),
{
    lemma_declarator_whole(s);
    match parse_declarator(s) {
        Parsed::Done { value, rest } => {
            lemma_whole_push(before, value);
            let longer = before.push(Some(Box::new(value)));
            assert forall|i: int| 0 <= i < longer.len() implies holds_declarator(
                #[trigger] longer[i],
            ) by {
                if i < before.len() {
                    assert(longer[i] == before[i]);
                }
            }
            if at_punctuator(rest, ',') && shorter(rest, s) {
                lemma_declarators_whole(longer, tail(rest));
            }
        },
        Parsed::Failed(_) => {},
    }
}

/// The statement that the parser reads is whole.
pub proof fn lemma_statement_whole(s: TokenStream)
    ensures
        parse_statement(s) matches Parsed::Done { value, .. } ==> whole(value),
{
    if at_keyword(s, "var"@) {
        lemma_declarators_whole(Seq::empty(), tail(s));
    } else if at_keyword(s, "return"@) {
        if at_expression(tail(s)) {
            lemma_assignment_whole(tail(s));
        }
    } else {
        lemma_assignment_whole(s);
    }
}

/// Whether every slot of the list holds an identifier.
pub open spec fn holds_identifiers(list: Seq<Child>) -> bool {
    forall|i: int| 0 <= i < list.len() ==> holds_identifier(#[trigger] list[i])
}

/// The parameters that the parser reads are names.
pub proof fn lemma_parameter_list_names(before: Seq<Child>, s: TokenStream)
    requires
        holds_identifiers(before),
    ensures
        parse_parameter_list(before, s) matches Parsed::Done { value, .. } ==> holds_identifiers(
            value,
        ),
    decreases s.tokens.len(),
{
    match parse_identifier(s) {
        Parsed::Done { value, rest } => {
            let longer = before.push(Some(Box::new(value)));
            assert forall|i: int| 0 <= i < longer.len() implies holds_identifier(
                #[trigger] longer[i],
            ) by {
                if i < before.len() {
                    assert(longer[i] == before[i]);
                }
            }
            if !at_punctuator(rest, ')') && at_punctuator(rest, ',') {
                lemma_parameter_list_names(longer, tail(rest));
            }
        },
        Parsed::Failed(_) => {},
    }
}

/// The function declaration that the parser reads is whole.
pub proof fn lemma_function_whole(s: TokenStream)
    ensures
        parse_function(s) matches Parsed::Done { value, .. } ==> whole(value),
    decreases s.tokens.len(), 0nat,
{
    reveal_with_fuel(whole, 2);
    match parse_identifier(s) {
        Parsed::Done { value: id, rest } => {
            if at_punctuator(rest, '(') {
                if !at_punctuator(tail(rest), ')') {
                    lemma_parameter_list_names(Seq::empty(), tail(rest));
                }
                match parse_parameters(tail(rest)) {
                    Parsed::Done { value: params, rest: after } => {
                        if at_punctuator(after, '{') && shorter(after, s) {
                            lemma_block_items_whole(Seq::empty(), tail(after));
                        }
                    },
                    Parsed::Failed(_) => {},
                }
            }
        },
        Parsed::Failed(_) => {},
    }
}

/// The inside of a block that the parser reads is whole.
pub proof fn lemma_block_items_whole(before: Seq<Child>, s: TokenStream)
    requires
        whole_list(before),
    ensures
        parse_block_items(before, s) matches Parsed::Done { value, .. } ==> whole_list(value),
    decreases s.tokens.len(), 2nat,
{
    if !at_punctuator(s, '}') {
        lemma_source_element_whole(s);
        match parse_source_element(s) {
            Parsed::Done { value, rest } => {
                if shorter(rest, s) {
                    lemma_whole_push(before, value);
                    lemma_block_items_whole(before.push(Some(Box::new(value))), rest);
                }
            },
            Parsed::Failed(_) => {},
        }
    }
}

/// The source element that the parser reads is whole.
pub proof fn lemma_source_element_whole(s: TokenStream)
    ensures
        parse_source_element(s) matches Parsed::Done { value, .. } ==> whole(value),
    decreases s.tokens.len(), 1nat,
{
    if at_keyword(s, "function"@) {
        lemma_function_whole(tail(s));
    } else {
        lemma_statement_whole(s);
    }
}

/// Whole statements stay whole as more are read.
pub proof fn lemma_elements_whole(before: Seq<NodeView>, s: TokenStream)
    requires
        forall|i: int| 0 <= i < before.len() ==> whole(#[trigger] before[i]),
    ensures
        parse_elements(before, s) matches Ok(body) ==> forall|i: int|
            0 <= i < body.len() ==> whole(#[trigger] body[i]),
    decreases s.tokens.len(),
{
    if head(s) != Ok::<Option<TokenView>, LexError>(None) {
        lemma_source_element_whole(s);
        match parse_source_element(s) {
            Parsed::Done { value, rest } => {
                if shorter(rest, s) {
                    let longer = before.push(value);
                    assert forall|i: int| 0 <= i < longer.len() implies whole(
                        #[trigger] longer[i],
                    ) by {
                        if i < before.len() {
                            assert(longer[i] == before[i]);
                        }
                    }
                    lemma_elements_whole(longer, rest);
                }
            },
            Parsed::Failed(_) => {},
        }
    }
}

/// Every statement of a program that the parser reads is whole: the parser
/// leaves no slot empty but where the text leaves something out that the
/// grammar lets it leave out.
pub proof fn lemma_program_whole(s: TokenStream)
    ensures
        parse_program(s) matches Ok(body) ==> forall|i: int|
            0 <= i < body.len() ==> whole(#[trigger] body[i]),
{
    lemma_elements_whole(Seq::empty(), s);
}

impl Node {
    pub fn new_expression_statement(expression: Option<Rc<Self>>) -> (node: Option<Rc<Self>>)
        ensures
            node matches Some(n) && *n == Node::ExpressionStatement(expression),
    {
        Some(Rc::new(Node::ExpressionStatement(expression)))
    }

    pub fn new_additive_expression(
        operator: char,
        left: Option<Rc<Self>>,
        right: Option<Rc<Self>>,
    ) -> (node: Option<Rc<Self>>)
        ensures
            node matches Some(n) && *n == (Node::AdditiveExpression { operator, left, right }),
    {
        Some(Rc::new(Node::AdditiveExpression { operator, left, right }))
    }

    pub fn new_assignment_expression(
        operator: char,
        left: Option<Rc<Self>>,
        right: Option<Rc<Self>>,
    ) -> (node: Option<Rc<Self>>)
        ensures
            node matches Some(n) && *n == (Node::AssignmentExpression { operator, left, right }),
    {
        Some(Rc::new(Node::AssignmentExpression { operator, left, right }))
    }

    pub fn new_member_expression(object: Option<Rc<Self>>, property: Option<Rc<Self>>) -> (node:
        Option<Rc<Self>>)
        ensures
            node matches Some(n) && *n == (Node::MemberExpression { object, property }),
    {
        Some(Rc::new(Node::MemberExpression { object, property }))
    }

    pub fn new_numeric_literal(value: u64) -> (node: Option<Rc<Self>>)
        ensures
            node matches Some(n) && *n == Node::NumberLiteral(value),
    {
        Some(Rc::new(Node::NumberLiteral(value)))
    }

    pub fn new_string_literal(value: String) -> (node: Option<Rc<Self>>)
        ensures
            node matches Some(n) && *n == Node::StringLiteral(value),
    {
        Some(Rc::new(Node::StringLiteral(value)))
    }

    pub fn new_identifier(name: String) -> (node: Option<Rc<Self>>)
        ensures
            node matches Some(n) && *n == Node::Identifier(name),
    {
        Some(Rc::new(Node::Identifier(name)))
    }

    pub fn new_variable_declaration(declarators: Vec<Option<Rc<Self>>>) -> (node: Option<Rc<Self>>)
        ensures
            node matches Some(n) && *n == (Node::VariableDeclaration { declarators }),
    {
        Some(Rc::new(Node::VariableDeclaration { declarators }))
    }

    pub fn new_variable_declarator(id: Option<Rc<Self>>, init: Option<Rc<Self>>) -> (node: Option<
        Rc<Self>,
    >)
        ensures
            node matches Some(n) && *n == (Node::VariableDeclarator { id, init }),
    {
        Some(Rc::new(Node::VariableDeclarator { id, init }))
    }

    pub fn new_block_statement(body: Vec<Option<Rc<Self>>>) -> (node: Option<Rc<Self>>)
        ensures
            node matches Some(n) && *n == (Node::BlockStatement { body }),
    {
        Some(Rc::new(Node::BlockStatement { body }))
    }

    pub fn new_return_statement(argument: Option<Rc<Self>>) -> (node: Option<Rc<Self>>)
        ensures
            node matches Some(n) && *n == (Node::ReturnStatement { argument }),
    {
        Some(Rc::new(Node::ReturnStatement { argument }))
    }

    pub fn new_function_declaration(
        id: Option<Rc<Self>>,
        params: Vec<Option<Rc<Self>>>,
        body: Option<Rc<Self>>,
    ) -> (node: Option<Rc<Self>>)
        ensures
            node matches Some(n) && *n == (Node::FunctionDeclaration { id, params, body }),
    {
        Some(Rc::new(Node::FunctionDeclaration { id, params, body }))
    }

    pub fn new_call_expression(callee: Option<Rc<Self>>, arguments: Vec<Option<Rc<Self>>>) -> (node:
        Option<Rc<Self>>)
        ensures
            node matches Some(n) && *n == (Node::CallExpression { callee, arguments }),
    {
        Some(Rc::new(Node::CallExpression { callee, arguments }))
    }
}

/// A parsed text: its top-level statements in source order.
#[derive(Debug, Clone, PartialEq, Eq)]
pub struct Program {
    body: Vec<Rc<Node>>,
}

impl View for Program {
    type V = Seq<NodeView>;

    closed spec fn view(&self) -> Seq<NodeView> {
        Seq::new(self.body@.len(), |i: int| node_view(*self.body@[i]))
    }
}

impl Program {
    /// The statements as they are held.
    pub closed spec fn nodes(&self) -> Seq<Rc<Node>> {
        self.body@
    }

    /// The view is the view of each statement.
    pub proof fn lemma_view(&self)
        ensures
            self@.len() == self.nodes().len(),
            forall|i: int| 0 <= i < self.nodes().len() ==> self@[i] == node_view(*self.nodes()[i]),
    {
    }

    pub fn new() -> (program: Self)
        ensures
            program@ == Seq::<NodeView>::empty(),
            program.nodes() == Seq::<Rc<Node>>::empty(),
    {
        let program = Self { body: Vec::new() };
        assert(program@ =~= Seq::<NodeView>::empty());
        program
    }

    pub fn set_body(&mut self, body: Vec<Rc<Node>>)
        ensures
            final(self).nodes() == body@,
    {
        self.body = body
    }

    pub fn body(&self) -> (body: &Vec<Rc<Node>>)
        ensures
            body@ == self.nodes(),
    {
        &self.body
    }
}

/// Whether `r` is what the rule's outcome `expected` asks for, with `left`
/// the tokens that the parser has not read.
pub open spec fn produces(
    r: Result<Option<Rc<Node>>, ParseError>,
    expected: Parsed<NodeView>,
    left: TokenStream,
) -> bool {
    match expected {
        Parsed::Done { value, rest } => r matches Ok(node) && child_view(node) == Some(Box::new(value)) && left
            == rest,
        Parsed::Failed(e) => r matches Err(x) && x == e,
    }
}

/// The same for a rule that builds a list.
pub open spec fn produces_list(
    r: Result<Vec<Option<Rc<Node>>>, ParseError>,
    expected: Parsed<Seq<Child>>,
    left: TokenStream,
) -> bool {
    match expected {
        Parsed::Done { value, rest } => r matches Ok(list) && slots_view(list@) == value && left
            == rest,
        Parsed::Failed(e) => r matches Err(x) && x == e,
    }
}

/// The view of what `parse_ast` hands back.
pub open spec fn outcome_view(r: Result<Program, ParseError>) -> Result<Seq<NodeView>, ParseError> {
    match r {
        Ok(program) => Ok(program@),
        Err(e) => Err(e),
    }
}

/// Parsing is a function of the text: whatever two runs of the parser on the
/// same text hand back, it is the same program or the same error.
pub proof fn lemma_parse_deterministic(
    source: Seq<char>,
    first: Result<Program, ParseError>,
    second: Result<Program, ParseError>,
)
    requires
        outcome_view(first) == parse_program(tokens(source)),
        outcome_view(second) == parse_program(tokens(source)),
    ensures
        outcome_view(first) == outcome_view(second),
{
}

/// A parser over the tokens of a scanner.
#[derive(Debug)]
pub struct JsParser {
    t: JsLexer,
}

impl JsParser {
    /// The tokens that the parser has not read.
    pub closed spec fn stream(&self) -> TokenStream {
        self.t.stream()
    }

    pub fn new(t: JsLexer) -> (parser: Self)
        ensures
            parser.stream() == t.stream(),
    {
        Self { t }
    }

    /// Whether the next token is the punctuator `c`.
    fn at(&self, c: char) -> (r: Result<bool, ParseError>)
        ensures
            match head(self.stream()) {
                Err(e) => r matches Err(x) && x == ParseError::Lex(e),
                _ => r matches Ok(b) && b == at_punctuator(self.stream(), c),
            },
    {
        match self.t.peek() {
            Ok(Some(Token::Punctuator(p))) => Ok(p == c),
            Ok(_) => Ok(false),
            Err(e) => Err(ParseError::Lex(e)),
        }
    }

    /// The error for a token that cannot be used.
    fn refuse(&self) -> (e: ParseError)
        ensures
            e == stop(self.stream()),
    {
        match self.t.peek() {
            Ok(Some(_)) => ParseError::UnexpectedToken,
            Ok(None) => ParseError::UnexpectedEnd,
            Err(e) => ParseError::Lex(e),
        }
    }

    /// Reads the token that was just looked at.
    fn advance(&mut self)
        requires
            head(old(self).stream()) matches Ok(Some(_)),
        ensures
            final(self).stream() == tail(old(self).stream()),
    {
        let _ = self.t.next();
    }

    fn identifier(&mut self) -> (r: Result<Option<Rc<Node>>, ParseError>)
        ensures
            produces(r, parse_identifier(old(self).stream()), final(self).stream()),
    {
        match self.t.next() {
            Ok(Some(Token::Identifier(name))) => Ok(Node::new_identifier(name)),
            Ok(Some(_)) => Err(ParseError::UnexpectedToken),
            Ok(None) => Err(ParseError::UnexpectedEnd),
            Err(e) => Err(ParseError::Lex(e)),
        }
    }

    fn primary_expression(&mut self) -> (r: Result<Option<Rc<Node>>, ParseError>)
        ensures
            produces(r, parse_primary(old(self).stream()), final(self).stream()),
    {
        match self.t.next() {
            Ok(Some(Token::Number(value))) => Ok(Node::new_numeric_literal(value)),
            Ok(Some(Token::StringLiteral(value))) => Ok(Node::new_string_literal(value)),
            Ok(Some(Token::Identifier(name))) => Ok(Node::new_identifier(name)),
            Ok(Some(_)) => Err(ParseError::UnexpectedToken),
            Ok(None) => Err(ParseError::UnexpectedEnd),
            Err(e) => Err(ParseError::Lex(e)),
        }
    }

    #[verifier::loop_isolation(false)]
    fn member_expression(&mut self) -> (r: Result<Option<Rc<Node>>, ParseError>)
        ensures
            produces(r, parse_member(old(self).stream()), final(self).stream()),
    {
        let ghost start = self.stream();
        let mut expr = match self.primary_expression() {
            Ok(e) => e,
            Err(e) => {
                return Err(e);
            },
        };
        loop
            invariant
                child_view(expr) matches Some(object) && parse_member(start) == parse_member_tail(
                    *object,
                    self.stream(),
                ),
            decreases self.stream().tokens.len(),
        {
            match self.at('.') {
                Ok(true) => {
                    self.advance();
                    let property = match self.identifier() {
                        Ok(p) => p,
                        Err(e) => {
                            return Err(e);
                        },
                    };
                    expr = Node::new_member_expression(expr, property);
                },
                Ok(false) => {
                    return Ok(expr);
                },
                Err(e) => {
                    return Err(e);
                },
            }
        }
    }

    #[verifier::loop_isolation(false)]
    fn arguments(&mut self) -> (r: Result<Vec<Option<Rc<Node>>>, ParseError>)
        ensures
            produces_list(r, parse_arguments(old(self).stream()), final(self).stream()),
        decreases old(self).stream().tokens.len(), 5nat,
    {
        let ghost start = self.stream();
        let mut arguments: Vec<Option<Rc<Node>>> = Vec::new();
        match self.at(')') {
            Ok(true) => {
                self.advance();
                assert(slots_view(arguments@) =~= Seq::empty());
                return Ok(arguments);
            },
            Ok(false) => {},
            Err(_) => {},
        }
        assert(slots_view(arguments@) =~= Seq::empty());
        loop
            invariant
                parse_arguments(start) == parse_argument_list(
                    slots_view(arguments@),
                    self.stream(),
                ),
                self.stream().tokens.len() <= start.tokens.len(),
            decreases self.stream().tokens.len(),
        {
            let ghost here = self.stream();
            let ghost before = slots_view(arguments@);
            let argument = match self.assignment_expression() {
                Ok(a) => a,
                Err(e) => {
                    return Err(e);
                },
            };
            proof {
                lemma_assignment_progress(here);
            }
            arguments.push(argument);
            assert(slots_view(arguments@) =~= before.push(child_view(argument)));
            match self.at(')') {
                Ok(true) => {
                    self.advance();
                    return Ok(arguments);
                },
                Ok(false) => {},
                Err(e) => {
                    return Err(e);
                },
            }
            match self.at(',') {
                Ok(true) => {
                    self.advance();
                },
                _ => {
                    return Err(self.refuse());
                },
            }
        }
    }

    fn left_hand_side_expression(&mut self) -> (r: Result<Option<Rc<Node>>, ParseError>)
        ensures
            produces(r, parse_left_hand_side(old(self).stream()), final(self).stream()),
        decreases old(self).stream().tokens.len(), 1nat,
    {
        let ghost start = self.stream();
        let callee = match self.member_expression() {
            Ok(e) => e,
            Err(e) => {
                return Err(e);
            },
        };
        proof {
            lemma_left_hand_side_progress(start);
            match parse_primary(start) {
                Parsed::Done { value, rest } => {
                    lemma_member_tail_progress(value, rest);
                },
                Parsed::Failed(_) => {},
            }
        }
        match self.at('(') {
            Ok(true) => {
                self.advance();
                match self.arguments() {
                    Ok(arguments) => Ok(Node::new_call_expression(callee, arguments)),
                    Err(e) => Err(e),
                }
            },
            Ok(false) => Ok(callee),
            Err(e) => Err(e),
        }
    }

    fn additive_expression(&mut self) -> (r: Result<Option<Rc<Node>>, ParseError>)
        ensures
            produces(r, parse_additive(old(self).stream()), final(self).stream()),
        decreases old(self).stream().tokens.len(), 2nat,
    {
        let ghost start = self.stream();
        let left = match self.left_hand_side_expression() {
            Ok(e) => e,
            Err(e) => {
                return Err(e);
            },
        };
        proof {
            lemma_left_hand_side_progress(start);
        }
        let operator = match self.t.peek() {
            Ok(Some(Token::Punctuator(c))) => {
                if c == '+' || c == '-' {
                    c
                } else {
                    return Ok(left);
                }
            },
            Ok(_) => {
                return Ok(left);
            },
            Err(e) => {
                return Err(ParseError::Lex(e));
            },
        };
        self.advance();
        match self.assignment_expression() {
            Ok(right) => Ok(Node::new_additive_expression(operator, left, right)),
            Err(e) => Err(e),
        }
    }

    fn assignment_expression(&mut self) -> (r: Result<Option<Rc<Node>>, ParseError>)
        ensures
            produces(r, parse_assignment(old(self).stream()), final(self).stream()),
        decreases old(self).stream().tokens.len(), 3nat,
    {
        let ghost start = self.stream();
        let left = match self.additive_expression() {
            Ok(e) => e,
            Err(e) => {
                return Err(e);
            },
        };
        proof {
            lemma_additive_progress(start);
        }
        match self.at('=') {
            Ok(true) => {
                self.advance();
                match self.assignment_expression() {
                    Ok(right) => Ok(Node::new_assignment_expression('=', left, right)),
                    Err(e) => Err(e),
                }
            },
            Ok(false) => Ok(left),
            Err(e) => Err(e),
        }
    }

    fn variable_declarator(&mut self) -> (r: Result<Option<Rc<Node>>, ParseError>)
        ensures
            produces(r, parse_declarator(old(self).stream()), final(self).stream()),
    {
        proof {
            reveal_with_fuel(child_view, 2);
        }
        let id = match self.identifier() {
            Ok(id) => id,
            Err(e) => {
                return Err(e);
            },
        };
        match self.at('=') {
            Ok(true) => {
                self.advance();
                match self.assignment_expression() {
                    Ok(init) => Ok(Node::new_variable_declarator(id, init)),
                    Err(e) => Err(e),
                }
            },
            Ok(false) => Ok(Node::new_variable_declarator(id, None)),
            Err(e) => Err(e),
        }
    }

    #[verifier::loop_isolation(false)]
    fn variable_declaration(&mut self) -> (r: Result<Option<Rc<Node>>, ParseError>)
        ensures
            match parse_declarators(Seq::empty(), old(self).stream()) {
                Parsed::Done { value, rest } => produces(
                    r,
                    Parsed::Done { value: NodeView::VariableDeclaration { declarators: value }, rest },
                    final(self).stream(),
                ),
                Parsed::Failed(e) => r matches Err(x) && x == e,
            },
    {
        let ghost start = self.stream();
        let mut declarators: Vec<Option<Rc<Node>>> = Vec::new();
        assert(slots_view(declarators@) =~= Seq::empty());
        loop
            invariant
                parse_declarators(Seq::empty(), start) == parse_declarators(
                    slots_view(declarators@),
                    self.stream(),
                ),
            decreases self.stream().tokens.len(),
        {
            let ghost here = self.stream();
            let ghost before = slots_view(declarators@);
            let declarator = match self.variable_declarator() {
                Ok(d) => d,
                Err(e) => {
                    return Err(e);
                },
            };
            proof {
                lemma_declarator_progress(here);
            }
            declarators.push(declarator);
            assert(slots_view(declarators@) =~= before.push(child_view(declarator)));
            match self.at(',') {
                Ok(true) => {
                    self.advance();
                },
                _ => {
                    return Ok(Node::new_variable_declaration(declarators));
                },
            }
        }
    }

    /// Reads the semicolon after a statement, if there is one.
    fn end_statement(&mut self, node: Option<Rc<Node>>) -> (r: Result<Option<Rc<Node>>, ParseError>)
        requires
            node is Some,
        ensures
            produces(
                r,
                parse_semicolon(*child_view(node)->0, old(self).stream()),
                final(self).stream(),
            ),
    {
        match self.at(';') {
            Ok(true) => {
                self.advance();
                Ok(node)
            },
            Ok(false) => Ok(node),
            Err(e) => Err(e),
        }
    }

    fn statement(&mut self) -> (r: Result<Option<Rc<Node>>, ParseError>)
        ensures
            produces(r, parse_statement(old(self).stream()), final(self).stream()),
    {
        proof {
            reveal_with_fuel(child_view, 2);
        }
        let ghost start = self.stream();
        let mut is_var = false;
        let mut is_return = false;
        match self.t.peek() {
            Ok(Some(Token::Keyword(word))) => {
                is_var = word == String::from_str("var");
                is_return = word == String::from_str("return");
            },
            _ => {},
        }
        let node = if is_var {
            self.advance();
            self.variable_declaration()
        } else if is_return {
            self.advance();
            let starts = match self.t.peek() {
                Ok(Some(Token::Number(_))) => true,
                Ok(Some(Token::StringLiteral(_))) => true,
                Ok(Some(Token::Identifier(_))) => true,
                _ => false,
            };
            if starts {
                match self.assignment_expression() {
                    Ok(argument) => Ok(Node::new_return_statement(argument)),
                    Err(e) => Err(e),
                }
            } else {
                Ok(Node::new_return_statement(None))
            }
        } else {
            match self.assignment_expression() {
                Ok(expression) => Ok(Node::new_expression_statement(expression)),
                Err(e) => Err(e),
            }
        };
        match node {
            Ok(n) => self.end_statement(n),
            Err(e) => Err(e),
        }
    }

    #[verifier::loop_isolation(false)]
    fn parameter_list(&mut self) -> (r: Result<Vec<Option<Rc<Node>>>, ParseError>)
        ensures
            produces_list(r, parse_parameters(old(self).stream()), final(self).stream()),
    {
        let ghost start = self.stream();
        let mut params: Vec<Option<Rc<Node>>> = Vec::new();
        match self.at(')') {
            Ok(true) => {
                self.advance();
                assert(slots_view(params@) =~= Seq::empty());
                return Ok(params);
            },
            Ok(false) => {},
            Err(_) => {},
        }
        assert(slots_view(params@) =~= Seq::empty());
        loop
            invariant
                parse_parameters(start) == parse_parameter_list(slots_view(params@), self.stream()),
            decreases self.stream().tokens.len(),
        {
            let ghost before = slots_view(params@);
            let param = match self.identifier() {
                Ok(p) => p,
                Err(e) => {
                    return Err(e);
                },
            };
            params.push(param);
            assert(slots_view(params@) =~= before.push(child_view(param)));
            match self.at(')') {
                Ok(true) => {
                    self.advance();
                    return Ok(params);
                },
                Ok(false) => {},
                Err(e) => {
                    return Err(e);
                },
            }
            match self.at(',') {
                Ok(true) => {
                    self.advance();
                },
                _ => {
                    return Err(self.refuse());
                },
            }
        }
    }

    #[verifier::loop_isolation(false)]
    fn function_body(&mut self) -> (r: Result<Option<Rc<Node>>, ParseError>)
        requires
            at_punctuator(old(self).stream(), '{'),
        ensures
            match parse_block_items(Seq::empty(), tail(old(self).stream())) {
                Parsed::Done { value, rest } => produces(
                    r,
                    Parsed::Done { value: NodeView::BlockStatement { body: value }, rest },
                    final(self).stream(),
                ),
                Parsed::Failed(e) => r matches Err(x) && x == e,
            },
        decreases old(self).stream().tokens.len(), 0nat,
    {
        self.advance();
        let ghost start = self.stream();
        let mut body: Vec<Option<Rc<Node>>> = Vec::new();
        assert(slots_view(body@) =~= Seq::empty());
        loop
            invariant
                parse_block_items(Seq::empty(), start) == parse_block_items(
                    slots_view(body@),
                    self.stream(),
                ),
                self.stream().tokens.len() <= start.tokens.len(),
            decreases self.stream().tokens.len(),
        {
            match self.at('}') {
                Ok(true) => {
                    self.advance();
                    return Ok(Node::new_block_statement(body));
                },
                _ => {},
            }
            let ghost here = self.stream();
            let ghost before = slots_view(body@);
            let element = match self.element() {
                Ok(e) => e,
                Err(e) => {
                    return Err(e);
                },
            };
            proof {
                lemma_source_element_progress(here);
            }
            body.push(element);
            assert(slots_view(body@) =~= before.push(child_view(element)));
        }
    }

    fn function_declaration(&mut self) -> (r: Result<Option<Rc<Node>>, ParseError>)
        ensures
            produces(r, parse_function(old(self).stream()), final(self).stream()),
        decreases old(self).stream().tokens.len(), 1nat,
    {
        let ghost start = self.stream();
        let id = match self.identifier() {
            Ok(id) => id,
            Err(e) => {
                return Err(e);
            },
        };
        match self.at('(') {
            Ok(true) => {
                self.advance();
            },
            _ => {
                return Err(self.refuse());
            },
        }
        let ghost inside = self.stream();
        let params = match self.parameter_list() {
            Ok(p) => p,
            Err(e) => {
                return Err(e);
            },
        };
        proof {
            if !at_punctuator(inside, ')') {
                lemma_parameter_list_progress(Seq::empty(), inside);
            }
        }
        match self.at('{') {
            Ok(true) => {},
            _ => {
                return Err(self.refuse());
            },
        }
        match self.function_body() {
            Ok(body) => Ok(Node::new_function_declaration(id, params, body)),
            Err(e) => Err(e),
        }
    }

    /// Parses one source element where a token stands.
    fn element(&mut self) -> (r: Result<Option<Rc<Node>>, ParseError>)
        ensures
            produces(r, parse_source_element(old(self).stream()), final(self).stream()),
        decreases old(self).stream().tokens.len(), 2nat,
    {
        let is_function = match self.t.peek() {
            Ok(Some(Token::Keyword(word))) => word == String::from_str("function"),
            _ => false,
        };
        if is_function {
            self.advance();
            self.function_declaration()
        } else {
            self.statement()
        }
    }

    /// Parses the next source element: a function declaration or a statement.
    /// At the end of the text there is none, and the result is `Ok(None)`.
    pub fn source_element(&mut self) -> (r: Result<Option<Rc<Node>>, ParseError>)
        ensures
            head(old(self).stream()) == Ok::<Option<TokenView>, LexError>(None) ==> r == Ok::<
                Option<Rc<Node>>,
                ParseError,
            >(None) && final(self).stream() == old(self).stream(),
            head(old(self).stream()) != Ok::<Option<TokenView>, LexError>(None) ==> produces(
                r,
                parse_source_element(old(self).stream()),
                final(self).stream(),
            ),
    {
        match self.t.peek() {
            Ok(None) => Ok(None),
            _ => self.element(),
        }
    }

    /// Parses the rest of the text into a program: `Ok` with the statements in
    /// source order where the text follows the grammar, the first error where
    /// it does not. The empty text is the empty program.
    #[verifier::loop_isolation(false)]
    pub fn parse_ast(&mut self) -> (r: Result<Program, ParseError>)
        ensures
            outcome_view(r) == parse_program(old(self).stream()),
    {
        let ghost start = self.stream();
        let mut program = Program::new();
        let mut body: Vec<Rc<Node>> = Vec::new();
        let ghost mut built: Seq<NodeView> = Seq::empty();
        loop
            invariant
                parse_program(start) == parse_elements(built, self.stream()),
                built.len() == body@.len(),
                forall|i: int| 0 <= i < body@.len() ==> built[i] == node_view(*body@[i]),
            decreases self.stream().tokens.len(),
        {
            let ghost here = self.stream();
            match self.source_element() {
                Ok(Some(node)) => {
                    proof {
                        lemma_source_element_progress(here);
                        built = built.push((*node)@);
                    }
                    body.push(node);
                },
                Ok(None) => {
                    program.set_body(body);
                    proof {
                        program.lemma_view();
                        assert(program@ =~= built);
                    }
                    return Ok(program);
                },
                Err(e) => {
                    return Err(e);
                },
            }
        }
    }
}


/// Parses a whole text: the program that the grammar gives for its tokens, or
/// the first error in it.
pub fn parse(source: String) -> (r: Result<Program, ParseError>)
    ensures
        outcome_view(r) == parse_program(tokens(source@)),
{
    let mut parser = JsParser::new(JsLexer::new(source));
    parser.parse_ast()
}

} // verus!
