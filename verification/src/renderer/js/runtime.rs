//! The tree-walking interpreter.
//!
//! The function `eval` says what every node evaluates to and what it does to
//! the interpreter's state: the chain of environments, the registry of
//! functions and the document. `JsRuntime::eval` computes it.

use crate::renderer::dom::api::{find_by_id, get_element_by_id};
use crate::renderer::dom::node::{with_text_child, Dom, NodeView as DomNodeView};
use crate::renderer::js::ast::{
    child_view, node_view, slots_view, Child, Node, NodeView, Program,
};
use crate::text::{decimal_text, u64_to_string};
use std::rc::Rc;
use vstd::prelude::*;

verus! {

/// A value that evaluation yields.
#[derive(Debug, Clone, PartialEq, Eq)]
pub enum RuntimeValue {
    /// An unsigned number; arithmetic on it wraps at 64 bits.
    Number(u64),
    /// A text.
    StringLiteral(String),
    /// A node of the document, with the name of a property that was named on
    /// it and waits for an assignment.
    HtmlElement { object: usize, property: Option<String> },
}

/// What a `RuntimeValue` stands for.
pub ghost enum ValueView {
    Number(u64),
    StringLiteral(Seq<char>),
    HtmlElement { object: nat, property: Option<Seq<char>> },
}

/// The view of a text that may be absent.
pub open spec fn text_view(text: Option<String>) -> Option<Seq<char>> {
    match text {
        Some(t) => Some(t@),
        None => None,
    }
}

impl View for RuntimeValue {
    type V = ValueView;

    open spec fn view(&self) -> ValueView {
        match self {
            RuntimeValue::Number(n) => ValueView::Number(*n),
            RuntimeValue::StringLiteral(s) => ValueView::StringLiteral(s@),
            RuntimeValue::HtmlElement { object, property } => ValueView::HtmlElement {
                object: *object as nat,
                property: text_view(*property),
            },
        }
    }
}

/// The view of a value that may be absent.
pub open spec fn value_view(value: Option<RuntimeValue>) -> Option<ValueView> {
    match value {
        Some(v) => Some(v@),
        None => None,
    }
}

/// The display form of a value: a number in decimal, a text as it is, a node
/// of the document as `HtmlElement: ` and its index.
pub open spec fn display(value: ValueView) -> Seq<char> {
    match value {
        ValueView::Number(n) => decimal_text(n as nat),
        ValueView::StringLiteral(s) => s,
        ValueView::HtmlElement { object, .. } => "HtmlElement: "@ + decimal_text(object),
    }
}

/// `left + right`: the sum of two numbers, wrapped at 64 bits; of anything
/// else the two display forms, one after the other.
pub open spec fn sum(left: ValueView, right: ValueView) -> ValueView {
    match (left, right) {
        (ValueView::Number(l), ValueView::Number(r)) => ValueView::Number(l.wrapping_add(r)),
        _ => ValueView::StringLiteral(display(left) + display(right)),
    }
}

/// `left - right`: the difference of two numbers, wrapped at 64 bits; of
/// anything else zero, which stands for "not a number".
pub open spec fn difference(left: ValueView, right: ValueView) -> ValueView {
    match (left, right) {
        (ValueView::Number(l), ValueView::Number(r)) => ValueView::Number(l.wrapping_sub(r)),
        _ => ValueView::Number(0),
    }
}

impl RuntimeValue {
    /// A copy of the value.
    pub fn duplicate(&self) -> (copy: Self)
        ensures
            copy@ == self@,
    {
        match self {
            RuntimeValue::Number(n) => RuntimeValue::Number(*n),
            RuntimeValue::StringLiteral(s) => RuntimeValue::StringLiteral(s.clone()),
            RuntimeValue::HtmlElement { object, property } => RuntimeValue::HtmlElement {
                object: *object,
                property: match property {
                    Some(p) => Some(p.clone()),
                    None => None,
                },
            },
        }
    }

    /// The display form of the value.
    pub fn to_string(&self) -> (text: String)
        ensures
            text@ == display(self@),
    {
        match self {
            RuntimeValue::Number(n) => u64_to_string(*n),
            RuntimeValue::StringLiteral(s) => s.clone(),
            RuntimeValue::HtmlElement { object, property: _ } => {
                let index = u64_to_string(*object as u64);
                String::from_str("HtmlElement: ").concat(index.as_str())
            },
        }
    }

    /// `self + rhs`.
    pub fn add(self, rhs: RuntimeValue) -> (value: RuntimeValue)
        ensures
            value@ == sum(self@, rhs@),
    {
        if let RuntimeValue::Number(l) = &self {
            if let RuntimeValue::Number(r) = &rhs {
                return RuntimeValue::Number(l.wrapping_add(*r));
            }
        }
        let right = rhs.to_string();
        RuntimeValue::StringLiteral(self.to_string().concat(right.as_str()))
    }

    /// `self - rhs`.
    pub fn sub(self, rhs: RuntimeValue) -> (value: RuntimeValue)
        ensures
            value@ == difference(self@, rhs@),
    {
        if let RuntimeValue::Number(l) = &self {
            if let RuntimeValue::Number(r) = &rhs {
                return RuntimeValue::Number(l.wrapping_sub(*r));
            }
        }
        RuntimeValue::Number(0)
    }
}

/// A name with the value it is bound to; a variable that was declared without
/// a value has none.
pub type Binding = (Seq<char>, Option<ValueView>);

/// What an `Environment` stands for: the bindings of one scope in the order in
/// which they were made, and the scope around it.
pub ghost struct EnvView {
    pub variables: Seq<Binding>,
    pub outer: Option<Box<EnvView>>,
}

/// The index of the first binding of `name` in a scope.
pub open spec fn position(variables: Seq<Binding>, name: Seq<char>) -> Option<nat>
    decreases variables.len(),
{
    if variables.len() == 0 {
        None
    } else if variables[0].0 == name {
        Some(0)
    } else {
        match position(variables.drop_first(), name) {
            Some(i) => Some(i + 1),
            None => None,
        }
    }
}

/// What `name` is bound to: by the first binding in this scope, else in the
/// scopes around it. `None` where no scope binds it, and where the binding
/// that is found has no value.
pub open spec fn lookup(env: EnvView, name: Seq<char>) -> Option<ValueView>
    decreases env,
{
    match position(env.variables, name) {
        Some(i) => env.variables[i as int].1,
        None => match env.outer {
            Some(outer) => lookup(*outer, name),
            None => None,
        },
    }
}

/// The environment with one more binding at the end of its own scope.
pub open spec fn declare(env: EnvView, name: Seq<char>, value: Option<ValueView>) -> EnvView {
    EnvView { variables: env.variables.push((name, value)), outer: env.outer }
}

/// The environment after an assignment to `name`: the first binding of `name`
/// in its own scope leaves its place and a binding to `value` stands at the
/// end. Where its own scope does not bind `name`, nothing changes.
pub open spec fn assign(env: EnvView, name: Seq<char>, value: Option<ValueView>) -> EnvView {
    match position(env.variables, name) {
        Some(i) => EnvView {
            variables: env.variables.remove(i as int).push((name, value)),
            outer: env.outer,
        },
        None => env,
    }
}

/// `position` finds the first binding of the name, and `None` only where
/// there is none.
pub proof fn lemma_position(variables: Seq<Binding>, name: Seq<char>)
    ensures
        match position(variables, name) {
            Some(i) => i < variables.len() && variables[i as int].0 == name && forall|j: int|
                0 <= j < i ==> (#[trigger] variables[j]).0 != name,
            None => forall|j: int| 0 <= j < variables.len() ==> (#[trigger] variables[j]).0 != name,
        },
    decreases variables.len(),
{
    if variables.len() > 0 && variables[0].0 != name {
        let rest = variables.drop_first();
        lemma_position(rest, name);
        match position(rest, name) {
            Some(i) => {
                assert forall|j: int| 0 <= j < i + 1 implies (#[trigger] variables[j]).0 != name by {
                    if j > 0 {
                        assert(variables[j] == rest[j - 1]);
                    }
                }
            },
            None => {
                assert forall|j: int| 0 <= j < variables.len() implies (#[trigger] variables[j]).0
                    != name by {
                    if j > 0 {
                        assert(variables[j] == rest[j - 1]);
                    }
                }
            },
        }
    }
}

/// The first index at which the name is bound is its position.
pub proof fn lemma_position_is(variables: Seq<Binding>, name: Seq<char>, i: int)
    requires
        0 <= i < variables.len(),
        variables[i].0 == name,
        forall|j: int| 0 <= j < i ==> (#[trigger] variables[j]).0 != name,
    ensures
        position(variables, name) == Some(i as nat),
{
    lemma_position(variables, name);
}

/// Whether some scope of the environment binds `name`.
pub open spec fn defined(env: EnvView, name: Seq<char>) -> bool
    decreases env,
{
    position(env.variables, name) is Some || match env.outer {
        Some(outer) => defined(*outer, name),
        None => false,
    }
}

/// An assignment to a name that no scope binds leaves the environment as it
/// was, and with it every lookup.
pub proof fn lemma_assign_undefined(
    env: EnvView,
    name: Seq<char>,
    value: Option<ValueView>,
    other: Seq<char>,
)
    requires
        !defined(env, name),
    ensures
        assign(env, name, value) == env,
        lookup(assign(env, name, value), other) == lookup(env, other),
{
}

/// The same holds of a name that the innermost scope does not bind, whatever
/// the scopes around it do: an assignment does not reach them.
pub proof fn lemma_assign_unbound(
    env: EnvView,
    name: Seq<char>,
    value: Option<ValueView>,
    other: Seq<char>,
)
    requires
        position(env.variables, name) is None,
    ensures
        assign(env, name, value) == env,
        lookup(assign(env, name, value), other) == lookup(env, other),
{
}

/// A declaration of a name that the innermost scope does not bind yet is
/// found again, and every other name is looked up as before.
pub proof fn lemma_declare_fresh(
    env: EnvView,
    name: Seq<char>,
    value: Option<ValueView>,
    other: Seq<char>,
)
    requires
        position(env.variables, name) is None,
    ensures
        lookup(declare(env, name, value), name) == value,
        other != name ==> lookup(declare(env, name, value), other) == lookup(env, other),
{
    let after = env.variables.push((name, value));
    lemma_position(env.variables, name);
    lemma_position(env.variables, other);
    lemma_position(after, name);
    lemma_position(after, other);
    lemma_position_is(after, name, env.variables.len() as int);
    if other != name {
        match position(env.variables, other) {
            Some(i) => {
                lemma_position_is(after, other, i as int);
            },
            None => {},
        }
    }
}

/// After an assignment to a name that its own scope binds once, the name is
/// bound to the new value and every other name is looked up as before.
pub proof fn lemma_assign_bound(
    env: EnvView,
    name: Seq<char>,
    value: Option<ValueView>,
    other: Seq<char>,
)
    requires
        position(env.variables, name) matches Some(i) && forall|j: int|
            0 <= j < env.variables.len() && j != i ==> (#[trigger] env.variables[j]).0 != name,
    ensures
        lookup(assign(env, name, value), name) == value,
        other != name ==> lookup(assign(env, name, value), other) == lookup(env, other),
{
    let before = env.variables;
    let i = position(before, name)->0 as int;
    lemma_position(before, name);
    let removed = before.remove(i);
    let after = removed.push((name, value));
    assert forall|j: int| 0 <= j < removed.len() implies (#[trigger] after[j]).0 != name by {
        if j < i {
            assert(after[j] == before[j]);
        } else {
            assert(after[j] == before[j + 1]);
        }
    }
    lemma_position_is(after, name, removed.len() as int);
    if other != name {
        lemma_position(before, other);
        lemma_position(after, other);
        match position(before, other) {
            Some(k) => {
                let k2 = if k < i {
                    k as int
                } else {
                    k - 1
                };
                assert(after[k2] == before[k as int]);
                assert forall|j: int| 0 <= j < k2 implies (#[trigger] after[j]).0 != other by {
                    if j < i {
                        assert(after[j] == before[j]);
                    } else {
                        assert(after[j] == before[j + 1]);
                    }
                }
                lemma_position_is(after, other, k2);
            },
            None => {
                assert forall|j: int| 0 <= j < after.len() implies (#[trigger] after[j]).0
                    != other by {
                    if j < i {
                        assert(after[j] == before[j]);
                    } else if j < removed.len() {
                        assert(after[j] == before[j + 1]);
                    }
                }
            },
        }
    }
}

/// One scope of variables and the scope around it.
#[derive(Debug)]
pub struct Environment {
    variables: Vec<(String, Option<RuntimeValue>)>,
    outer: Option<Box<Environment>>,
}

/// The view of one binding.
pub open spec fn binding_view(binding: (String, Option<RuntimeValue>)) -> Binding {
    (binding.0@, value_view(binding.1))
}

impl Environment {
    /// The bindings of this scope.
    pub closed spec fn bindings(&self) -> Seq<Binding> {
        Seq::new(self.variables@.len(), |i: int| binding_view(self.variables@[i]))
    }

    /// The scope around this one.
    pub closed spec fn enclosing(&self) -> Option<Box<Environment>> {
        self.outer
    }

    /// The environment with the scopes around it.
    pub open spec fn chain(&self) -> EnvView
        decreases self,
    {
        EnvView {
            variables: self.bindings(),
            outer: match self.enclosing() {
                Some(outer) => Some(Box::new(outer.chain())),
                None => None,
            },
        }
    }
}

impl View for Environment {
    type V = EnvView;

    open spec fn view(&self) -> EnvView {
        self.chain()
    }
}

impl Environment {
    /// An empty scope inside `outer`.
    pub fn new(outer: Option<Box<Environment>>) -> (env: Self)
        ensures
            env.bindings() == Seq::<Binding>::empty(),
            env.enclosing() == outer,
    {
        let env = Self { variables: Vec::new(), outer };
        assert(env.bindings() =~= Seq::<Binding>::empty());
        env
    }

    /// The index of the first binding of `name` in this scope.
    fn find(&self, name: &String) -> (found: Option<usize>)
        ensures
            match found {
                Some(i) => position(self.bindings(), name@) == Some(i as nat) && i
                    < self.variables@.len(),
                None => position(self.bindings(), name@) is None,
            },
    {
        let mut i: usize = 0;
        proof {
            lemma_position(self.bindings(), name@);
        }
        while i < self.variables.len()
            invariant
                i <= self.variables@.len(),
                forall|j: int| 0 <= j < i ==> (#[trigger] self.bindings()[j]).0 != name@,
            decreases self.variables.len() - i,
        {
            assert(self.bindings()[i as int] == binding_view(self.variables@[i as int]));
            if self.variables[i].0 == *name {
                proof {
                    lemma_position_is(self.bindings(), name@, i as int);
                }
                return Some(i);
            }
            i += 1;
        }
        None
    }

    /// What `name` is bound to in this scope or, if this scope does not bind
    /// it, in the scopes around it.
    pub fn get_variable(&self, name: String) -> (value: Option<RuntimeValue>)
        ensures
            value_view(value) == lookup(self@, name@),
        decreases self,
    {
        match self.find(&name) {
            Some(i) => {
                assert(self.bindings()[i as int] == binding_view(self.variables@[i as int]));
                match &self.variables[i].1 {
                    Some(v) => Some(v.duplicate()),
                    None => None,
                }
            },
            None => match &self.outer {
                Some(env) => env.get_variable(name),
                None => None,
            },
        }
    }

    /// Binds `name` to `value` at the end of this scope.
    pub fn add_variable(&mut self, name: String, value: Option<RuntimeValue>)
        ensures
            final(self)@ == declare(old(self)@, name@, value_view(value)),
            final(self).enclosing() == old(self).enclosing(),
    {
        let ghost before = self.bindings();
        self.variables.push((name, value));
        assert(self.bindings() =~= before.push((name@, value_view(value))));
    }

    /// Assigns `value` to `name` in this scope: the first binding of `name`
    /// here is taken out and the new one put at the end. The scopes around
    /// this one are not searched, and where this scope does not bind `name`
    /// nothing changes.
    pub fn update_variable(&mut self, name: String, value: Option<RuntimeValue>)
        ensures
            final(self)@ == assign(old(self)@, name@, value_view(value)),
            final(self).enclosing() == old(self).enclosing(),
    {
        let ghost before = self.bindings();
        match self.find(&name) {
            Some(i) => {
                let _ = self.variables.remove(i);
                assert(self.bindings() =~= before.remove(i as int));
                self.variables.push((name, value));
                assert(self.bindings() =~= before.remove(i as int).push(
                    (name@, value_view(value)),
                ));
            },
            None => {},
        }
    }
}


/// Why evaluation stopped.
#[derive(Debug, Clone, PartialEq, Eq)]
pub enum RuntimeError {
    /// A call of a name that is neither a host function nor a declared
    /// function; it holds the display form of the callee.
    UndefinedFunction(String),
    /// A call with another number of arguments than the function has parameters.
    ArityMismatch,
    /// A call of a host function without the argument it needs.
    MissingArgument,
    /// More calls inside one another than the interpreter follows.
    CallDepthExceeded,
}

/// What a `RuntimeError` stands for.
pub ghost enum ErrorView {
    UndefinedFunction(Seq<char>),
    ArityMismatch,
    MissingArgument,
    CallDepthExceeded,
}

impl View for RuntimeError {
    type V = ErrorView;

    open spec fn view(&self) -> ErrorView {
        match self {
            RuntimeError::UndefinedFunction(name) => ErrorView::UndefinedFunction(name@),
            RuntimeError::ArityMismatch => ErrorView::ArityMismatch,
            RuntimeError::MissingArgument => ErrorView::MissingArgument,
            RuntimeError::CallDepthExceeded => ErrorView::CallDepthExceeded,
        }
    }
}

/// A declared function: its name, its parameters and its body.
#[derive(Debug, Clone, PartialEq, Eq)]
pub struct Function {
    id: String,
    params: Vec<Option<Rc<Node>>>,
    body: Option<Rc<Node>>,
}

/// What a `Function` stands for.
pub ghost struct FunctionView {
    pub id: Seq<char>,
    pub params: Seq<Child>,
    pub body: Child,
}

impl View for Function {
    type V = FunctionView;

    closed spec fn view(&self) -> FunctionView {
        FunctionView { id: self.id@, params: slots_view(self.params@), body: child_view(self.body) }
    }
}

impl Function {
    pub fn new(id: String, params: Vec<Option<Rc<Node>>>, body: Option<Rc<Node>>) -> (function: Self)
        ensures
            function@ == (FunctionView {
                id: id@,
                params: slots_view(params@),
                body: child_view(body),
            }),
    {
        Self { id, params, body }
    }
}

/// What the interpreter holds between two evaluations.
pub ghost struct State {
    /// The current environment, with the scopes around it.
    pub env: EnvView,
    /// The declared functions, oldest first.
    pub functions: Seq<FunctionView>,
    /// The document.
    pub dom: Seq<DomNodeView>,
}

/// What an evaluation yields and the state it leaves.
pub ghost struct Outcome {
    pub result: Result<Option<ValueView>, ErrorView>,
    pub state: State,
}

/// An evaluation that yields `value`.
pub open spec fn done(value: Option<ValueView>, state: State) -> Outcome {
    Outcome { result: Ok(value), state }
}

/// An evaluation that stops on `error`.
pub open spec fn failed(error: ErrorView, state: State) -> Outcome {
    Outcome { result: Err(error), state }
}

/// The state with a fresh scope inside the current one.
pub open spec fn enter(state: State) -> State {
    State {
        env: EnvView { variables: Seq::empty(), outer: Some(Box::new(state.env)) },
        ..state
    }
}

/// The state without its innermost scope; a state that has none around it stays.
pub open spec fn leave(state: State) -> State {
    match state.env.outer {
        Some(outer) => State { env: *outer, ..state },
        None => state,
    }
}

/// The function that a call of `name` reaches: the one declared last under that name.
pub open spec fn find_function(functions: Seq<FunctionView>, name: Seq<char>) -> Option<
    FunctionView,
>
    decreases functions.len(),
{
    if functions.len() == 0 {
        None
    } else if functions.last().id == name {
        Some(functions.last())
    } else {
        find_function(functions.drop_last(), name)
    }
}

/// What `object.property` is once both sides have a value: on a node of the
/// document with no property pending, that node with the property's display
/// form pending; on anything else the text `object.property`.
pub open spec fn member(object: ValueView, property: ValueView) -> ValueView {
    match object {
        ValueView::HtmlElement { object: node, property: None } => ValueView::HtmlElement {
            object: node,
            property: Some(display(property)),
        },
        _ => sum(sum(object, ValueView::StringLiteral("."@)), property),
    }
}

/// What `left operator right` is once both sides have a value.
pub open spec fn additive(operator: char, left: ValueView, right: ValueView) -> Option<ValueView> {
    if operator == '+' {
        Some(sum(left, right))
    } else if operator == '-' {
        Some(difference(left, right))
    } else {
        None
    }
}

/// The name that a slot holds, if it holds an identifier.
pub open spec fn identifier_name(slot: Child) -> Option<Seq<char>> {
    match slot {
        Some(node) => match *node {
            NodeView::Identifier(name) => Some(name),
            _ => None,
        },
        None => None,
    }
}

/// What evaluating `node` in `state` yields and does, with at most `depth`
/// calls of declared functions inside one another.
///
/// An empty slot yields nothing. Operands and arguments are evaluated from
/// left to right, and an error ends the evaluation where it occurs.
pub open spec fn eval(node: Child, state: State, depth: nat) -> Outcome
    decreases depth, node, 2nat, 0nat,
{
    match node {
        None => done(None, state),
        Some(n) => match *n {
            NodeView::ExpressionStatement(expression) => eval(expression, state, depth),
            NodeView::NumberLiteral(value) => done(Some(ValueView::Number(value)), state),
            NodeView::StringLiteral(value) => done(Some(ValueView::StringLiteral(value)), state),
            NodeView::Identifier(name) => match lookup(state.env, name) {
                Some(value) => done(Some(value), state),
                None => done(Some(ValueView::StringLiteral(name)), state),
            },
            NodeView::AdditiveExpression { operator, left, right } => {
                let l = eval(left, state, depth);
                match l.result {
                    Ok(Some(lv)) => {
                        let r = eval(right, l.state, depth);
                        match r.result {
                            Ok(Some(rv)) => done(additive(operator, lv, rv), r.state),
                            _ => r,
                        }
                    },
                    _ => l,
                }
            },
            NodeView::AssignmentExpression { operator, left, right } => {
                if operator != '=' {
                    done(None, state)
                } else if identifier_name(left) is Some {
                    let r = eval(right, state, depth);
                    match r.result {
                        Ok(value) => done(
                            None,
                            State {
                                env: assign(r.state.env, identifier_name(left)->0, value),
                                ..r.state
                            },
                        ),
                        Err(_) => r,
                    }
                } else {
                    let l = eval(left, state, depth);
                    match l.result {
                        Ok(Some(ValueView::HtmlElement { object, property: Some(p) })) => {
                            let r = eval(right, l.state, depth);
                            match r.result {
                                Ok(Some(rv)) => if p == "textContent"@ {
                                    done(
                                        None,
                                        State {
                                            dom: with_text_child(r.state.dom, object, display(rv)),
                                            ..r.state
                                        },
                                    )
                                } else {
                                    done(None, r.state)
                                },
                                _ => r,
                            }
                        },
                        Ok(_) => done(None, l.state),
                        Err(_) => l,
                    }
                }
            },
            NodeView::MemberExpression { object, property } => {
                let o = eval(object, state, depth);
                match o.result {
                    Ok(Some(ov)) => {
                        let p = eval(property, o.state, depth);
                        match p.result {
                            Ok(Some(pv)) => done(Some(member(ov, pv)), p.state),
                            Ok(None) => done(Some(ov), p.state),
                            Err(_) => p,
                        }
                    },
                    _ => o,
                }
            },
            NodeView::VariableDeclaration { declarators } => {
                let d = eval_each(declarators, 0, None, state, depth);
                match d.result {
                    Ok(_) => done(None, d.state),
                    Err(_) => d,
                }
            },
            NodeView::VariableDeclarator { id, init } => {
                if identifier_name(id) is Some {
                    let i = eval(init, state, depth);
                    match i.result {
                        Ok(value) => done(
                            None,
                            State {
                                env: declare(i.state.env, identifier_name(id)->0, value),
                                ..i.state
                            },
                        ),
                        Err(_) => i,
                    }
                } else {
                    done(None, state)
                }
            },
            NodeView::BlockStatement { body } => eval_each(body, 0, None, state, depth),
            NodeView::ReturnStatement { argument } => eval(argument, state, depth),
            NodeView::FunctionDeclaration { id, params, body } => {
                let i = eval(id, state, depth);
                match i.result {
                    Ok(Some(ValueView::StringLiteral(name))) => if body is Some {
                        done(
                            None,
                            State {
                                functions: i.state.functions.push(
                                    FunctionView { id: name, params, body },
                                ),
                                ..i.state
                            },
                        )
                    } else {
                        done(None, i.state)
                    },
                    Ok(_) => done(None, i.state),
                    Err(_) => i,
                }
            },
            NodeView::CallExpression { callee, arguments } => {
                let c = call(*n, enter(state), depth);
                Outcome { result: c.result, state: leave(c.state) }
            },
        },
    }
}

/// What evaluating the nodes from the one at `from` on, in order, yields and
/// does: the value of the last of them, or `last` where there is none.
pub open spec fn eval_each(
    nodes: Seq<Child>,
    from: nat,
    last: Option<ValueView>,
    state: State,
    depth: nat,
) -> Outcome
    decreases depth, nodes, 0nat, nodes.len() - from,
{
    if from >= nodes.len() {
        done(last, state)
    } else {
        let o = eval(nodes[from as int], state, depth);
        match o.result {
            Ok(value) => eval_each(nodes, from + 1, value, o.state, depth),
            Err(_) => o,
        }
    }
}

/// Whether a callee with this value is the host's search of the document.
pub open spec fn is_host_function(callee: ValueView) -> bool {
    callee == ValueView::StringLiteral("document.getElementById"@)
}

/// What the host's search of the document yields when it is called with
/// `arguments`: the first node, in document order from the root, whose
/// identifier is the display form of the first argument, with no property
/// pending; nothing where there is no such node or the argument has no value.
pub open spec fn host_call(arguments: Seq<Child>, state: State, depth: nat) -> Outcome
    decreases depth, arguments, 0nat, 0nat,
{
    if arguments.len() == 0 {
        failed(ErrorView::MissingArgument, state)
    } else {
        let a = eval(arguments[0], state, depth);
        match a.result {
            Ok(Some(id)) => match find_by_id(a.state.dom, Some(0), display(id)) {
                Some(found) => done(
                    Some(ValueView::HtmlElement { object: found, property: None }),
                    a.state,
                ),
                None => done(None, a.state),
            },
            _ => a,
        }
    }
}

/// What the call `node` yields and does inside the scope that was made for it.
///
/// A callee with the value `document.getElementById` is the host's: the call
/// yields the first node of the document, from its root, whose identifier is
/// the display form of the first argument. Any other callee names, by its
/// display form, the declared function that is called: its parameters are
/// bound in the new scope to the arguments and its body is evaluated there.
pub open spec fn call(node: NodeView, state: State, depth: nat) -> Outcome
    recommends
        node is CallExpression,
    decreases depth, node, 1nat, 0nat,
{
    match node {
        NodeView::CallExpression { callee, arguments } => {
            let c = eval(callee, state, depth);
            match c.result {
                Ok(Some(target)) => if is_host_function(target) {
                    host_call(arguments, c.state, depth)
                } else {
                    match find_function(c.state.functions, display(target)) {
                        None => failed(ErrorView::UndefinedFunction(display(target)), c.state),
                        Some(function) => if arguments.len() != function.params.len() {
                            failed(ErrorView::ArityMismatch, c.state)
                        } else if depth == 0 {
                            failed(ErrorView::CallDepthExceeded, c.state)
                        } else {
                            let b = bind_each(node, function.params, 0, c.state, depth);
                            match b.result {
                                Ok(_) => eval(function.body, b.state, (depth - 1) as nat),
                                Err(_) => b,
                            }
                        },
                    }
                },
                _ => c,
            }
        },
        _ => done(None, state),
    }
}

/// What binding the parameters from the one at `from` on to the arguments of
/// the call `node` yields and does. A parameter is evaluated for its name; one
/// that does not evaluate to a text binds nothing, and its argument is not
/// evaluated.
pub open spec fn bind_each(
    node: NodeView,
    params: Seq<Child>,
    from: nat,
    state: State,
    depth: nat,
) -> Outcome
    recommends
        node is CallExpression,
        depth > 0,
    decreases depth, node, 0nat, params.len() - from,
{
    match node {
        NodeView::CallExpression { callee, arguments } => {
            if from >= params.len() || from >= arguments.len() || depth == 0 {
                done(None, state)
            } else {
                let p = eval(params[from as int], state, (depth - 1) as nat);
                match p.result {
                    Ok(Some(ValueView::StringLiteral(name))) => {
                        let a = eval(arguments[from as int], p.state, depth);
                        match a.result {
                            Ok(value) => bind_each(
                                node,
                                params,
                                from + 1,
                                State { env: declare(a.state.env, name, value), ..a.state },
                                depth,
                            ),
                            Err(_) => a,
                        }
                    },
                    Ok(_) => bind_each(node, params, from + 1, p.state, depth),
                    Err(_) => p,
                }
            }
        },
        _ => done(None, state),
    }
}

/// What running the statements from the one at `from` on does: the state
/// after the last of them, or the first error and the state it left.
pub open spec fn run(body: Seq<NodeView>, from: nat, state: State, depth: nat) -> Outcome
    decreases body.len() - from,
{
    if from >= body.len() {
        done(None, state)
    } else {
        let o = eval(Some(Box::new(body[from as int])), state, depth);
        match o.result {
            Ok(_) => run(body, from + 1, o.state, depth),
            Err(_) => o,
        }
    }
}


/// The view of what an evaluation hands back.
pub open spec fn result_view(r: Result<Option<RuntimeValue>, RuntimeError>) -> Result<
    Option<ValueView>,
    ErrorView,
> {
    match r {
        Ok(value) => Ok(value_view(value)),
        Err(e) => Err(e@),
    }
}

/// Whether the result `r` and the state `state` are those of `outcome`.
pub open spec fn follows(
    r: Result<Option<RuntimeValue>, RuntimeError>,
    state: State,
    outcome: Outcome,
) -> bool {
    result_view(r) == outcome.result && state == outcome.state
}

/// A copy of a list of child slots; the nodes themselves are shared.
fn share(slots: &Vec<Option<Rc<Node>>>) -> (copy: Vec<Option<Rc<Node>>>)
    ensures
        copy@ == slots@,
{
    let mut copy: Vec<Option<Rc<Node>>> = Vec::new();
    let mut i: usize = 0;
    while i < slots.len()
        invariant
            i <= slots@.len(),
            copy@ == slots@.take(i as int),
        decreases slots.len() - i,
    {
        let slot = match &slots[i] {
            Some(node) => Some(node.clone()),
            None => None,
        };
        copy.push(slot);
        i += 1;
        assert(slots@.take(i as int) =~= slots@.take(i - 1).push(slots@[i - 1]));
    }
    assert(slots@.take(slots@.len() as int) =~= slots@);
    copy
}

/// How many calls of declared functions the interpreter follows inside one
/// another before it gives up.
pub const MAX_CALL_DEPTH: usize = 64;

/// An interpreter with its document.
#[derive(Debug)]
pub struct JsRuntime {
    dom: Dom,
    functions: Vec<Function>,
    env: Environment,
}

impl JsRuntime {
    /// What the interpreter holds.
    pub closed spec fn state(&self) -> State {
        State {
            env: self.env@,
            functions: Seq::new(self.functions@.len(), |i: int| self.functions@[i]@),
            dom: self.dom@,
        }
    }

    /// The document is well formed.
    pub closed spec fn wf(&self) -> bool {
        self.dom.wf()
    }

    /// An interpreter for the document `dom_root`, with no variables and no functions.
    pub fn new(dom_root: Dom) -> (runtime: Self)
        requires
            dom_root.wf(),
        ensures
            runtime.wf(),
            runtime.state() == (State {
                env: EnvView { variables: Seq::empty(), outer: None },
                functions: Seq::empty(),
                dom: dom_root@,
            }),
    {
        let runtime = Self { dom: dom_root, functions: Vec::new(), env: Environment::new(None) };
        assert(runtime.state().functions =~= Seq::<FunctionView>::empty());
        runtime
    }

    /// Whether the interpreter's document is well formed, as every public
    /// function here leaves it.
    pub fn is_well_formed(&self) -> (ok: bool)
        ensures
            ok == self.wf(),
    {
        self.dom.is_well_formed()
    }

    /// The document as the scripts have left it.
    pub fn dom(&self) -> (dom: &Dom)
        ensures
            dom@ == self.state().dom,
            self.wf() ==> dom.wf(),
    {
        &self.dom
    }

    /// Gives the document back and ends the interpreter.
    pub fn into_dom(self) -> (dom: Dom)
        ensures
            dom@ == self.state().dom,
            self.wf() ==> dom.wf(),
    {
        self.dom
    }

    /// The current environment.
    pub fn env(&self) -> (env: &Environment)
        ensures
            env@ == self.state().env,
    {
        &self.env
    }

    /// Opens a scope inside the current one.
    fn push_scope(&mut self)
        ensures
            final(self).state() == enter(old(self).state()),
            final(self).wf() == old(self).wf(),
    {
        let mut frame = Environment::new(None);
        core::mem::swap(&mut self.env, &mut frame);
        self.env.outer = Some(Box::new(frame));
    }

    /// Closes the innermost scope.
    fn pop_scope(&mut self)
        ensures
            final(self).state() == leave(old(self).state()),
            final(self).wf() == old(self).wf(),
    {
        let mut outer: Option<Box<Environment>> = None;
        core::mem::swap(&mut self.env.outer, &mut outer);
        if let Some(env) = outer {
            self.env = *env;
        }
    }

    /// The parameters and the body of the function declared last under `name`.
    fn find_function(&self, name: &String) -> (found: Option<
        (Vec<Option<Rc<Node>>>, Option<Rc<Node>>),
    >)
        ensures
            match found {
                Some((params, body)) => find_function(self.state().functions, name@) == Some(
                    FunctionView { id: name@, params: slots_view(params@), body: child_view(body) },
                ),
                None => find_function(self.state().functions, name@) is None,
            },
    {
        let ghost all = self.state().functions;
        let mut i: usize = self.functions.len();
        assert(all.take(i as int) =~= all);
        while i > 0
            invariant
                i <= self.functions@.len(),
                all == self.state().functions,
                find_function(all, name@) == find_function(all.take(i as int), name@),
            decreases i,
        {
            i -= 1;
            let function = &self.functions[i];
            assert(all.take(i + 1).last() == function@);
            assert(all.take(i + 1).drop_last() =~= all.take(i as int));
            if function.id == *name {
                let body = match &function.body {
                    Some(node) => Some(node.clone()),
                    None => None,
                };
                return Some((share(&function.params), body));
            }
        }
        None
    }

    /// Answers a call of a host function. The first part of the result says
    /// whether `func` names one; if it does not, nothing is evaluated.
    fn call_browser_api(
        &mut self,
        func: &RuntimeValue,
        arguments: &Vec<Option<Rc<Node>>>,
        depth: usize,
    ) -> (r: (bool, Result<Option<RuntimeValue>, RuntimeError>))
        requires
            old(self).wf(),
        ensures
            final(self).wf(),
            r.0 == is_host_function(func@),
            r.0 ==> follows(
                r.1,
                final(self).state(),
                host_call(slots_view(arguments@), old(self).state(), depth as nat),
            ),
            !r.0 ==> final(self).state() == old(self).state(),
        decreases depth, arguments, 0nat,
    {
        let claimed = match func {
            RuntimeValue::StringLiteral(name) => *name == String::from_str(
                "document.getElementById",
            ),
            _ => false,
        };
        if !claimed {
            return (false, Ok(None));
        }
        if arguments.len() == 0 {
            return (true, Err(RuntimeError::MissingArgument));
        }
        let arg = match self.eval_node(&arguments[0], depth) {
            Ok(Some(a)) => a,
            Ok(None) => {
                return (true, Ok(None));
            },
            Err(e) => {
                return (true, Err(e));
            },
        };
        let id = arg.to_string();
        let root = self.dom.root();
        match get_element_by_id(&self.dom, Some(root), &id) {
            Some(n) => (true, Ok(Some(RuntimeValue::HtmlElement { object: n, property: None }))),
            None => (true, Ok(None)),
        }
    }

    /// Evaluates the call `node` inside the scope that was opened for it.
    #[verifier::loop_isolation(false)]
    fn call(&mut self, node: &Node, depth: usize) -> (r: Result<
        Option<RuntimeValue>,
        RuntimeError,
    >)
        requires
            old(self).wf(),
            node is CallExpression,
        ensures
            final(self).wf(),
            follows(r, final(self).state(), call(node@, old(self).state(), depth as nat)),
        decreases depth, node, 1nat,
    {
        let ghost start = self.state();
        match node {
            Node::CallExpression { callee, arguments } => {
                let callee_value = match self.eval_node(callee, depth) {
                    Ok(Some(v)) => v,
                    Ok(None) => {
                        return Ok(None);
                    },
                    Err(e) => {
                        return Err(e);
                    },
                };
                let api = self.call_browser_api(&callee_value, arguments, depth);
                if api.0 {
                    return api.1;
                }
                let name = callee_value.to_string();
                let (params, body) = match self.find_function(&name) {
                    Some(function) => function,
                    None => {
                        return Err(RuntimeError::UndefinedFunction(name));
                    },
                };
                if arguments.len() != params.len() {
                    return Err(RuntimeError::ArityMismatch);
                }
                if depth == 0 {
                    return Err(RuntimeError::CallDepthExceeded);
                }
                let ghost bound = self.state();
                let mut i: usize = 0;
                while i < params.len()
                    invariant
                        self.wf(),
                        i <= params@.len(),
                        arguments@.len() == params@.len(),
                        depth > 0,
                        node is CallExpression,
                        node->arguments == *arguments,
                        bind_each(node@, slots_view(params@), 0, bound, depth as nat) == bind_each(
                            node@,
                            slots_view(params@),
                            i as nat,
                            self.state(),
                            depth as nat,
                        ),
                    decreases params.len() - i,
                {
                    match self.eval_node(&params[i], depth - 1) {
                        Ok(Some(RuntimeValue::StringLiteral(parameter))) => {
                            let value = match self.eval_node(&arguments[i], depth) {
                                Ok(v) => v,
                                Err(e) => {
                                    return Err(e);
                                },
                            };
                            self.env.add_variable(parameter, value);
                        },
                        Ok(_) => {},
                        Err(e) => {
                            return Err(e);
                        },
                    }
                    i += 1;
                }
                self.eval_node(&body, depth - 1)
            },
            _ => Ok(None),
        }
    }

    /// Evaluates `left operator right`.
    fn eval_additive(&mut self, node: &Node, depth: usize) -> (r: Result<
        Option<RuntimeValue>,
        RuntimeError,
    >)
        requires
            old(self).wf(),
            node is AdditiveExpression,
        ensures
            final(self).wf(),
            follows(
                r,
                final(self).state(),
                eval(Some(Box::new(node@)), old(self).state(), depth as nat),
            ),
        decreases depth, node, 1nat,
    {
        match node {
            Node::AdditiveExpression { operator, left, right } => {
                let left_value = match self.eval_node(left, depth) {
                    Ok(Some(value)) => value,
                    Ok(None) => {
                        return Ok(None);
                    },
                    Err(e) => {
                        return Err(e);
                    },
                };
                let right_value = match self.eval_node(right, depth) {
                    Ok(Some(value)) => value,
                    Ok(None) => {
                        return Ok(None);
                    },
                    Err(e) => {
                        return Err(e);
                    },
                };
                if *operator == '+' {
                    Ok(Some(left_value.add(right_value)))
                } else if *operator == '-' {
                    Ok(Some(left_value.sub(right_value)))
                } else {
                    Ok(None)
                }
            },
            _ => Ok(None),
        }
    }

    /// Evaluates `left = right`.
    fn eval_assignment(&mut self, node: &Node, depth: usize) -> (r: Result<
        Option<RuntimeValue>,
        RuntimeError,
    >)
        requires
            old(self).wf(),
            node is AssignmentExpression,
        ensures
            final(self).wf(),
            follows(
                r,
                final(self).state(),
                eval(Some(Box::new(node@)), old(self).state(), depth as nat),
            ),
        decreases depth, node, 1nat,
    {
        proof {
            reveal_with_fuel(child_view, 2);
            reveal_with_fuel(node_view, 2);
        }
        match node {
            Node::AssignmentExpression { operator, left, right } => {
                if *operator != '=' {
                    return Ok(None);
                }
                if let Some(target) = left {
                    if let Node::Identifier(id) = &**target {
                        let new_value = match self.eval_node(right, depth) {
                            Ok(value) => value,
                            Err(e) => {
                                return Err(e);
                            },
                        };
                        self.env.update_variable(id.clone(), new_value);
                        return Ok(None);
                    }
                }
                match self.eval_node(left, depth) {
                    Ok(Some(RuntimeValue::HtmlElement { object, property: Some(p) })) => {
                        let right_value = match self.eval_node(right, depth) {
                            Ok(Some(value)) => value,
                            Ok(None) => {
                                return Ok(None);
                            },
                            Err(e) => {
                                return Err(e);
                            },
                        };
                        if p == String::from_str("textContent") {
                            self.dom.set_text_child(object, right_value.to_string());
                        }
                        Ok(None)
                    },
                    Ok(_) => Ok(None),
                    Err(e) => Err(e),
                }
            },
            _ => Ok(None),
        }
    }

    /// Evaluates `object.property`.
    fn eval_member(&mut self, node: &Node, depth: usize) -> (r: Result<
        Option<RuntimeValue>,
        RuntimeError,
    >)
        requires
            old(self).wf(),
            node is MemberExpression,
        ensures
            final(self).wf(),
            follows(
                r,
                final(self).state(),
                eval(Some(Box::new(node@)), old(self).state(), depth as nat),
            ),
        decreases depth, node, 1nat,
    {
        match node {
            Node::MemberExpression { object, property } => {
                let object_value = match self.eval_node(object, depth) {
                    Ok(Some(value)) => value,
                    Ok(None) => {
                        return Ok(None);
                    },
                    Err(e) => {
                        return Err(e);
                    },
                };
                let property_value = match self.eval_node(property, depth) {
                    Ok(Some(value)) => value,
                    Ok(None) => {
                        return Ok(Some(object_value));
                    },
                    Err(e) => {
                        return Err(e);
                    },
                };
                if let RuntimeValue::HtmlElement { object, property: None } = &object_value {
                    return Ok(
                        Some(
                            RuntimeValue::HtmlElement {
                                object: *object,
                                property: Some(property_value.to_string()),
                            },
                        ),
                    );
                }
                let dot = RuntimeValue::StringLiteral(String::from_str("."));
                Ok(Some(object_value.add(dot).add(property_value)))
            },
            _ => Ok(None),
        }
    }

    /// Evaluates one declarator of a `var` statement.
    fn eval_declarator(&mut self, node: &Node, depth: usize) -> (r: Result<
        Option<RuntimeValue>,
        RuntimeError,
    >)
        requires
            old(self).wf(),
            node is VariableDeclarator,
        ensures
            final(self).wf(),
            follows(
                r,
                final(self).state(),
                eval(Some(Box::new(node@)), old(self).state(), depth as nat),
            ),
        decreases depth, node, 1nat,
    {
        proof {
            reveal_with_fuel(child_view, 2);
            reveal_with_fuel(node_view, 2);
        }
        match node {
            Node::VariableDeclarator { id, init } => {
                if let Some(target) = id {
                    if let Node::Identifier(name) = &**target {
                        let value = match self.eval_node(init, depth) {
                            Ok(value) => value,
                            Err(e) => {
                                return Err(e);
                            },
                        };
                        self.env.add_variable(name.clone(), value);
                    }
                }
                Ok(None)
            },
            _ => Ok(None),
        }
    }

    /// Evaluates a function declaration: the function joins the registry.
    fn eval_function(&mut self, node: &Node, depth: usize) -> (r: Result<
        Option<RuntimeValue>,
        RuntimeError,
    >)
        requires
            old(self).wf(),
            node is FunctionDeclaration,
        ensures
            final(self).wf(),
            follows(
                r,
                final(self).state(),
                eval(Some(Box::new(node@)), old(self).state(), depth as nat),
            ),
        decreases depth, node, 1nat,
    {
        match node {
            Node::FunctionDeclaration { id, params, body } => {
                match self.eval_node(id, depth) {
                    Ok(Some(RuntimeValue::StringLiteral(name))) => {
                        if let Some(b) = body {
                            let ghost before = self.state().functions;
                            let function = Function::new(name, share(params), Some(b.clone()));
                            self.functions.push(function);
                            assert(self.state().functions =~= before.push(function@));
                        }
                        Ok(None)
                    },
                    Ok(_) => Ok(None),
                    Err(e) => Err(e),
                }
            },
            _ => Ok(None),
        }
    }

    /// Evaluates `node` with at most `depth` calls of declared functions
    /// inside one another.
    pub fn eval_node(&mut self, node: &Option<Rc<Node>>, depth: usize) -> (r: Result<
        Option<RuntimeValue>,
        RuntimeError,
    >)
        requires
            old(self).wf(),
        ensures
            final(self).wf(),
            follows(r, final(self).state(), eval(child_view(*node), old(self).state(), depth as nat)),
        decreases depth, node, 2nat,
    {
        let node = match node {
            Some(n) => n,
            None => {
                return Ok(None);
            },
        };
        match &**node {
            Node::ExpressionStatement(expr) => self.eval_node(expr, depth),
            Node::AdditiveExpression { .. } => self.eval_additive(&**node, depth),
            Node::AssignmentExpression { .. } => self.eval_assignment(&**node, depth),
            Node::MemberExpression { .. } => self.eval_member(&**node, depth),
            Node::NumberLiteral(value) => Ok(Some(RuntimeValue::Number(*value))),
            Node::StringLiteral(value) => Ok(Some(RuntimeValue::StringLiteral(value.clone()))),
            Node::Identifier(name) => match self.env.get_variable(name.clone()) {
                Some(v) => Ok(Some(v)),
                None => Ok(Some(RuntimeValue::StringLiteral(name.clone()))),
            },
            Node::VariableDeclaration { declarators } => {
                match self.eval_list(declarators, depth) {
                    Ok(_) => Ok(None),
                    Err(e) => Err(e),
                }
            },
            Node::VariableDeclarator { .. } => self.eval_declarator(&**node, depth),
            Node::BlockStatement { body } => self.eval_list(body, depth),
            Node::ReturnStatement { argument } => self.eval_node(argument, depth),
            Node::FunctionDeclaration { .. } => self.eval_function(&**node, depth),
            Node::CallExpression { .. } => {
                self.push_scope();
                let r = self.call(&**node, depth);
                self.pop_scope();
                r
            },
        }
    }

    /// Evaluates the nodes of a list in order and yields the value of the last.
    #[verifier::loop_isolation(false)]
    fn eval_list(&mut self, nodes: &Vec<Option<Rc<Node>>>, depth: usize) -> (r: Result<
        Option<RuntimeValue>,
        RuntimeError,
    >)
        requires
            old(self).wf(),
        ensures
            final(self).wf(),
            follows(
                r,
                final(self).state(),
                eval_each(slots_view(nodes@), 0, None, old(self).state(), depth as nat),
            ),
        decreases depth, nodes, 0nat,
    {
        let ghost start = self.state();
        let mut result: Option<RuntimeValue> = None;
        let mut i: usize = 0;
        while i < nodes.len()
            invariant
                self.wf(),
                i <= nodes@.len(),
                eval_each(slots_view(nodes@), 0, None, start, depth as nat) == eval_each(
                    slots_view(nodes@),
                    i as nat,
                    value_view(result),
                    self.state(),
                    depth as nat,
                ),
            decreases nodes.len() - i,
        {
            result = match self.eval_node(&nodes[i], depth) {
                Ok(value) => value,
                Err(e) => {
                    return Err(e);
                },
            };
            i += 1;
        }
        Ok(result)
    }

    /// Evaluates `node` in the current state.
    pub fn eval(&mut self, node: &Option<Rc<Node>>) -> (r: Result<Option<RuntimeValue>, RuntimeError>)
        requires
            old(self).wf(),
        ensures
            final(self).wf(),
            follows(
                r,
                final(self).state(),
                eval(child_view(*node), old(self).state(), MAX_CALL_DEPTH as nat),
            ),
    {
        self.eval_node(node, MAX_CALL_DEPTH)
    }

    /// Runs the statements of `program` in order, up to the first that fails.
    #[verifier::loop_isolation(false)]
    pub fn execute(&mut self, program: &Program) -> (r: Result<(), RuntimeError>)
        requires
            old(self).wf(),
        ensures
            final(self).wf(),
            ({
                let outcome = run(program@, 0, old(self).state(), MAX_CALL_DEPTH as nat);
                &&& final(self).state() == outcome.state
                &&& match r {
                    Ok(_) => outcome.result is Ok,
                    Err(e) => outcome.result == Err::<Option<ValueView>, ErrorView>(e@),
                }
            }),
    {
        let ghost start = self.state();
        let body = program.body();
        proof {
            program.lemma_view();
        }
        let mut i: usize = 0;
        while i < body.len()
            invariant
                self.wf(),
                i <= body@.len(),
                body@.len() == program@.len(),
                forall|j: int| 0 <= j < body@.len() ==> program@[j] == node_view(*body@[j]),
                run(program@, 0, start, MAX_CALL_DEPTH as nat) == run(
                    program@,
                    i as nat,
                    self.state(),
                    MAX_CALL_DEPTH as nat,
                ),
            decreases body.len() - i,
        {
            let node = Some(body[i].clone());
            assert(child_view(node) == Some(Box::new(program@[i as int])));
            match self.eval_node(&node, MAX_CALL_DEPTH) {
                Ok(_) => {},
                Err(e) => {
                    return Err(e);
                },
            }
            i += 1;
        }
        Ok(())
    }
}

} // verus!
