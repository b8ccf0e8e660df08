//! What evaluation does to the scopes.
//!
//! A declaration and an assignment reach the innermost scope only, and a call
//! works in a scope of its own that ends with it. So evaluation leaves the
//! scopes around the innermost as they were, and a call leaves every scope of
//! its caller as it was.

use crate::renderer::js::ast::{Child, NodeView};
use crate::renderer::js::runtime::{
    bind_each, call, declare, enter, eval, eval_each, find_function, host_call, is_host_function,
    leave, display, State, ValueView,
};
use vstd::prelude::*;

verus! {

/// Evaluation leaves the scopes around the innermost as they were.
pub proof fn lemma_eval_keeps_outer(node: Child, state: State, depth: nat)
    ensures
        eval(node, state, depth).state.env.outer == state.env.outer,
    decreases depth, node, 2nat, 0nat,
{
    match node {
        None => {},
        Some(n) => match *n {
            NodeView::ExpressionStatement(expression) => {
                lemma_eval_keeps_outer(expression, state, depth);
            },
            NodeView::AdditiveExpression { operator, left, right } => {
                lemma_eval_keeps_outer(left, state, depth);
                lemma_eval_keeps_outer(right, eval(left, state, depth).state, depth);
            },
            NodeView::AssignmentExpression { operator, left, right } => {
                lemma_eval_keeps_outer(right, state, depth);
                lemma_eval_keeps_outer(left, state, depth);
                lemma_eval_keeps_outer(right, eval(left, state, depth).state, depth);
            },
            NodeView::MemberExpression { object, property } => {
                lemma_eval_keeps_outer(object, state, depth);
                lemma_eval_keeps_outer(property, eval(object, state, depth).state, depth);
            },
            NodeView::VariableDeclaration { declarators } => {
                lemma_eval_each_keeps_outer(declarators, 0, None, state, depth);
            },
            NodeView::VariableDeclarator { id, init } => {
                lemma_eval_keeps_outer(init, state, depth);
            },
            NodeView::BlockStatement { body } => {
                lemma_eval_each_keeps_outer(body, 0, None, state, depth);
            },
            NodeView::ReturnStatement { argument } => {
                lemma_eval_keeps_outer(argument, state, depth);
            },
            NodeView::FunctionDeclaration { id, params, body } => {
                lemma_eval_keeps_outer(id, state, depth);
            },
            NodeView::CallExpression { callee, arguments } => {
                lemma_call_keeps_outer(*n, enter(state), depth);
            },
            _ => {},
        },
    }
}

/// The same, of a list of nodes evaluated in order.
pub proof fn lemma_eval_each_keeps_outer(
    nodes: Seq<Child>,
    from: nat,
    last: Option<ValueView>,
    state: State,
    depth: nat,
)
    ensures
        eval_each(nodes, from, last, state, depth).state.env.outer == state.env.outer,
    decreases depth, nodes, 0nat, nodes.len() - from,
{
    if from < nodes.len() {
        lemma_eval_keeps_outer(nodes[from as int], state, depth);
        let o = eval(nodes[from as int], state, depth);
        match o.result {
            Ok(value) => {
                lemma_eval_each_keeps_outer(nodes, from + 1, value, o.state, depth);
            },
            Err(_) => {},
        }
    }
}

/// The same, of the host's search of the document.
pub proof fn lemma_host_call_keeps_outer(arguments: Seq<Child>, state: State, depth: nat)
    ensures
        host_call(arguments, state, depth).state.env.outer == state.env.outer,
    decreases depth, arguments, 0nat, 0nat,
{
    if arguments.len() > 0 {
        lemma_eval_keeps_outer(arguments[0], state, depth);
    }
}

/// The same, of a call inside the scope that was made for it.
pub proof fn lemma_call_keeps_outer(node: NodeView, state: State, depth: nat)
    ensures
        call(node, state, depth).state.env.outer == state.env.outer,
    decreases depth, node, 1nat, 0nat,
{
    match node {
        NodeView::CallExpression { callee, arguments } => {
            lemma_eval_keeps_outer(callee, state, depth);
            let c = eval(callee, state, depth);
            match c.result {
                Ok(Some(target)) => {
                    if is_host_function(target) {
                        lemma_host_call_keeps_outer(arguments, c.state, depth);
                    } else {
                        match find_function(c.state.functions, display(target)) {
                            Some(function) => {
                                if arguments.len() == function.params.len() && depth > 0 {
                                    lemma_bind_each_keeps_outer(
                                        node,
                                        function.params,
                                        0,
                                        c.state,
                                        depth,
                                    );
                                    let b = bind_each(node, function.params, 0, c.state, depth);
                                    if b.result is Ok {
                                        lemma_eval_keeps_outer(
                                            function.body,
                                            b.state,
                                            (depth - 1) as nat,
                                        );
                                    }
                                }
                            },
                            None => {},
                        }
                    }
                },
                _ => {},
            }
        },
        _ => {},
    }
}

/// The same, of the binding of parameters to arguments.
pub proof fn lemma_bind_each_keeps_outer(
    node: NodeView,
    params: Seq<Child>,
    from: nat,
    state: State,
    depth: nat,
)
    ensures
        bind_each(node, params, from, state, depth).state.env.outer == state.env.outer,
    decreases depth, node, 0nat, params.len() - from,
{
    match node {
        NodeView::CallExpression { callee, arguments } => {
            if from < params.len() && from < arguments.len() && depth > 0 {
                lemma_eval_keeps_outer(params[from as int], state, (depth - 1) as nat);
                let p = eval(params[from as int], state, (depth - 1) as nat);
                match p.result {
                    Ok(Some(ValueView::StringLiteral(name))) => {
                        lemma_eval_keeps_outer(arguments[from as int], p.state, depth);
                        let a = eval(arguments[from as int], p.state, depth);
                        match a.result {
                            Ok(value) => {
                                lemma_bind_each_keeps_outer(
                                    node,
                                    params,
                                    from + 1,
                                    State { env: declare(a.state.env, name, value), ..a.state },
                                    depth,
                                );
                            },
                            Err(_) => {},
                        }
                    },
                    Ok(_) => {
                        lemma_bind_each_keeps_outer(node, params, from + 1, p.state, depth);
                    },
                    Err(_) => {},
                }
            }
        },
        _ => {},
    }
}

/// A call, whether it ends with a value or with an error, leaves the
/// environment of its caller as it was: what it declares and assigns is gone
/// with its scope, and no assignment in it reaches a variable of the caller.
pub proof fn lemma_call_keeps_environment(node: NodeView, state: State, depth: nat)
    requires
        node is CallExpression,
    ensures
        eval(Some(Box::new(node)), state, depth).state.env == state.env,
{
    lemma_call_keeps_outer(node, enter(state), depth);
    let c = call(node, enter(state), depth);
    assert(c.state.env.outer == Some(Box::new(state.env)));
    assert(leave(c.state).env == state.env);
}

} // verus!
