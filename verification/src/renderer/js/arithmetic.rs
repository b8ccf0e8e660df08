//! Sums and differences of number literals, from text to value.
//!
//! A chain such as `1 - 2 - 3` is parsed with every operator taking all that
//! follows it as its right operand, so it stands for `1 - (2 - 3)`, which is
//! 2: numbers wrap at 64 bits on the way, and the end is what it is in the
//! integers. This module says so of the parser and of the interpreter together.

use crate::renderer::js::ast::{
    parse_additive, parse_assignment, parse_elements, parse_left_hand_side, parse_member,
    parse_member_tail, parse_primary, parse_program, parse_semicolon, parse_source_element,
    parse_statement, parse_statement_body, NodeView, ParseError, Parsed,
};
use crate::renderer::js::runtime::{done, eval, State, ValueView};
use crate::renderer::js::token::{
    lemma_render_scans_back, render, token_ok, tokens, TokenStream, TokenView,
};
use vstd::arithmetic::div_mod::{
    lemma_add_mod_noop_right, lemma_mod_bound, lemma_mod_multiples_vanish, lemma_small_mod,
    lemma_sub_mod_noop_right,
};
use vstd::prelude::*;

verus! {

/// One step of a chain: an operator and the literal after it.
pub ghost struct Step {
    pub operator: char,
    pub operand: u64,
}

/// Whether every operator of the chain is `+` or `-`.
pub open spec fn additive_steps(steps: Seq<Step>) -> bool {
    forall|i: int|
        0 <= i < steps.len() ==> (#[trigger] steps[i]).operator == '+' || steps[i].operator == '-'
}

/// The tokens of the chain that starts with the literal `first`.
pub open spec fn chain_tokens(first: u64, steps: Seq<Step>) -> Seq<TokenView>
    decreases steps.len(),
{
    if steps.len() == 0 {
        seq![TokenView::Number(first)]
    } else {
        seq![TokenView::Number(first), TokenView::Punctuator(steps[0].operator)] + chain_tokens(
            steps[0].operand,
            steps.drop_first(),
        )
    }
}

/// The value of the chain in the integers, grouped to the right.
pub open spec fn chain_value(first: u64, steps: Seq<Step>) -> int
    decreases steps.len(),
{
    if steps.len() == 0 {
        first as int
    } else if steps[0].operator == '+' {
        first + chain_value(steps[0].operand, steps.drop_first())
    } else {
        first - chain_value(steps[0].operand, steps.drop_first())
    }
}

/// The number that stands for `value` in 64 bits: its remainder modulo 2^64.
pub open spec fn wrapped(value: int) -> u64 {
    (value % 0x1_0000_0000_0000_0000) as u64
}

/// A value that fits in 64 bits stands for itself.
pub proof fn lemma_wrapped_fits(value: int)
    requires
        0 <= value <= u64::MAX,
    ensures
        wrapped(value) == value,
{
    lemma_small_mod(value as nat, 0x1_0000_0000_0000_0000);
}

/// Wrapping after every step is wrapping once at the end.
pub proof fn lemma_wrapped_step(first: u64, value: int)
    ensures
        first.wrapping_add(wrapped(value)) == wrapped(first + value),
        first.wrapping_sub(wrapped(value)) == wrapped(first - value),
{
    let m = 0x1_0000_0000_0000_0000int;
    let r = value % m;
    lemma_mod_bound(value, m);
    lemma_add_mod_noop_right(first as int, value, m);
    lemma_sub_mod_noop_right(first as int, value, m);
    if first + r > u64::MAX {
        lemma_mod_multiples_vanish(-1, first + r, m);
        lemma_small_mod((first + r - m) as nat, m as nat);
    } else {
        lemma_small_mod((first + r) as nat, m as nat);
    }
    if first - r < 0 {
        lemma_mod_multiples_vanish(1, first - r, m);
        lemma_small_mod((first - r + m) as nat, m as nat);
    } else {
        lemma_small_mod((first - r) as nat, m as nat);
    }
}

/// The tree of the chain: each operator holds the literal before it on the
/// left and the rest of the chain on the right.
pub open spec fn chain_tree(first: u64, steps: Seq<Step>) -> NodeView
    decreases steps.len(),
{
    if steps.len() == 0 {
        NodeView::NumberLiteral(first)
    } else {
        NodeView::AdditiveExpression {
            operator: steps[0].operator,
            left: Some(Box::new(NodeView::NumberLiteral(first))),
            right: Some(Box::new(chain_tree(steps[0].operand, steps.drop_first()))),
        }
    }
}

/// A text that is nothing but the chain.
pub open spec fn chain_stream(first: u64, steps: Seq<Step>) -> TokenStream {
    TokenStream { tokens: chain_tokens(first, steps), failure: None }
}

/// The end of a text.
pub open spec fn end_stream() -> TokenStream {
    TokenStream { tokens: Seq::empty(), failure: None }
}

/// The parser reads a chain as its tree and leaves nothing.
pub proof fn lemma_chain_parses(first: u64, steps: Seq<Step>)
    requires
        additive_steps(steps),
    ensures
        parse_assignment(chain_stream(first, steps)) == (Parsed::Done {
            value: chain_tree(first, steps),
            rest: end_stream(),
        }),
        parse_additive(chain_stream(first, steps)) == parse_assignment(chain_stream(first, steps)),
    decreases steps.len(),
{
    let s = chain_stream(first, steps);
    let number = NodeView::NumberLiteral(first);
    if steps.len() == 0 {
        let after = TokenStream { tokens: s.tokens.drop_first(), failure: None };
        assert(after.tokens =~= Seq::<TokenView>::empty());
        assert(parse_primary(s) == Parsed::Done { value: number, rest: after });
        assert(parse_member_tail(number, after) == Parsed::Done { value: number, rest: after });
        assert(parse_member(s) == Parsed::Done { value: number, rest: after });
        assert(parse_left_hand_side(s) == Parsed::Done { value: number, rest: after });
        assert(parse_additive(s) == Parsed::Done { value: number, rest: after });
    } else {
        let step = steps[0];
        let others = steps.drop_first();
        assert forall|i: int| 0 <= i < others.len() implies (#[trigger] others[i]).operator == '+'
            || others[i].operator == '-' by {
            assert(others[i] == steps[i + 1]);
        }
        lemma_chain_parses(step.operand, others);
        let inner = chain_stream(step.operand, others);
        let after = TokenStream { tokens: s.tokens.drop_first(), failure: None };
        assert(after.tokens[0] == TokenView::Punctuator(step.operator));
        assert(after.tokens.drop_first() =~= inner.tokens);
        assert(parse_primary(s) == Parsed::Done { value: number, rest: after });
        assert(parse_member_tail(number, after) == Parsed::Done { value: number, rest: after });
        assert(parse_member(s) == Parsed::Done { value: number, rest: after });
        assert(parse_left_hand_side(s) == Parsed::Done { value: number, rest: after });
        assert(parse_additive(s) == Parsed::Done {
            value: chain_tree(first, steps),
            rest: end_stream(),
        });
    }
}

/// The tree of a chain evaluates to the value of the chain, wrapped to 64
/// bits, and leaves the state as it was.
pub proof fn lemma_chain_evaluates(first: u64, steps: Seq<Step>, state: State, depth: nat)
    requires
        additive_steps(steps),
    ensures
        eval(Some(Box::new(chain_tree(first, steps))), state, depth) == done(
            Some(ValueView::Number(wrapped(chain_value(first, steps)))),
            state,
        ),
    decreases steps.len(),
{
    reveal_with_fuel(eval, 2);
    if steps.len() > 0 {
        let others = steps.drop_first();
        assert forall|i: int| 0 <= i < others.len() implies (#[trigger] others[i]).operator == '+'
            || others[i].operator == '-' by {
            assert(others[i] == steps[i + 1]);
        }
        lemma_chain_evaluates(steps[0].operand, others, state, depth);
        lemma_wrapped_step(first, chain_value(steps[0].operand, others));
    } else {
        lemma_wrapped_fits(first as int);
    }
}

/// The chain written out, one blank between two tokens, is a text whose
/// tokens are the chain.
pub proof fn lemma_chain_text(first: u64, steps: Seq<Step>)
    requires
        additive_steps(steps),
    ensures
        tokens(render(chain_tokens(first, steps))) == chain_stream(first, steps),
{
    lemma_chain_tokens_ok(first, steps);
    lemma_render_scans_back(chain_tokens(first, steps));
}

/// The tokens of a chain are tokens that scanning can yield.
pub proof fn lemma_chain_tokens_ok(first: u64, steps: Seq<Step>)
    requires
        additive_steps(steps),
    ensures
        forall|i: int|
            0 <= i < chain_tokens(first, steps).len() ==> token_ok(
                #[trigger] chain_tokens(first, steps)[i],
            ),
    decreases steps.len(),
{
    if steps.len() > 0 {
        let others = steps.drop_first();
        assert forall|i: int| 0 <= i < others.len() implies (#[trigger] others[i]).operator == '+'
            || others[i].operator == '-' by {
            assert(others[i] == steps[i + 1]);
        }
        lemma_chain_tokens_ok(steps[0].operand, others);
        let rest = chain_tokens(steps[0].operand, others);
        let all = chain_tokens(first, steps);
        assert forall|i: int| 0 <= i < all.len() implies token_ok(#[trigger] all[i]) by {
            if i >= 2 {
                assert(all[i] == rest[i - 2]);
            }
        }
    }
}

/// A text whose tokens are a chain of number literals joined by `+` and `-`
/// is a program of one statement, and that statement evaluates to the value
/// that the chain has in the integers when it is grouped to the right,
/// wrapped to 64 bits: to that value itself where it fits.
pub proof fn lemma_chain_of_literals(
    source: Seq<char>,
    first: u64,
    steps: Seq<Step>,
    state: State,
    depth: nat,
)
    requires
        tokens(source) == chain_stream(first, steps),
        additive_steps(steps),
    ensures
        parse_program(tokens(source)) == Ok::<Seq<NodeView>, ParseError>(
            seq![NodeView::ExpressionStatement(Some(Box::new(chain_tree(first, steps))))],
        ),
        eval(
            Some(
                Box::new(NodeView::ExpressionStatement(Some(Box::new(chain_tree(first, steps))))),
            ),
            state,
            depth,
        ) == done(Some(ValueView::Number(wrapped(chain_value(first, steps)))), state),
        0 <= chain_value(first, steps) <= u64::MAX ==> wrapped(chain_value(first, steps))
            == chain_value(first, steps),
{
    let s = chain_stream(first, steps);
    let statement = NodeView::ExpressionStatement(Some(Box::new(chain_tree(first, steps))));
    lemma_chain_parses(first, steps);
    lemma_chain_evaluates(first, steps, state, depth);
    if 0 <= chain_value(first, steps) <= u64::MAX {
        lemma_wrapped_fits(chain_value(first, steps));
    }
    reveal_with_fuel(eval, 2);
    reveal_with_fuel(parse_elements, 2);
    assert(s.tokens[0] == TokenView::Number(first));
    assert(parse_statement_body(s) == Parsed::Done { value: statement, rest: end_stream() });
    assert(parse_semicolon(statement, end_stream()) == Parsed::Done {
        value: statement,
        rest: end_stream(),
    });
    assert(parse_statement(s) == Parsed::Done { value: statement, rest: end_stream() });
    assert(parse_source_element(s) == Parsed::Done { value: statement, rest: end_stream() });
    assert(Seq::<NodeView>::empty().push(statement) =~= seq![statement]);
}

} // verus!
