//! Precedence climbing recognises the conventional grammar of operators.
//!
//! The conventional grammar has one rule for each level of precedence:
//!
//! ```text
//! comparison := sum  { ("==" | "!=" | "<" | "<=" | ">" | ">=") sum }
//! sum        := term { ("+" | "-") term }
//! term       := primary { ("*" | "/" | "%") primary }
//! ```
//!
//! each repetition grouping to the left. This module writes that grammar
//! down and proves that the parser's expressions are its expressions: for
//! every token sequence the two give the same tree, or the same failure.
use crate::common::ast::{ExprView, WithSpan};
use crate::common::token::{BinaryOperator, TokenView};
use crate::parser::grammar::{
    Parsed, Tokens, checked, parse_binary_rest, parse_expression, parse_primary, span_at,
    token_at,
};
use crate::parser::progress::{lemma_expression, lemma_primary};
use vstd::prelude::*;

verus! {

/// Whether the token is one of `*`, `/`, `%`.
pub open spec fn is_multiplicative(token: TokenView) -> bool {
    token == TokenView::BinaryOperator(BinaryOperator::Multiply) || token
        == TokenView::BinaryOperator(BinaryOperator::Divide) || token
        == TokenView::BinaryOperator(BinaryOperator::Modulo)
}

/// Whether the token is one of `+`, `-`.
pub open spec fn is_additive(token: TokenView) -> bool {
    token == TokenView::BinaryOperator(BinaryOperator::Add) || token == TokenView::BinaryOperator(
        BinaryOperator::Subtract,
    )
}

/// Whether the token is an equality or ordering operator.
pub open spec fn is_comparison(token: TokenView) -> bool {
    match token {
        TokenView::BinaryOperator(operator) => operator.is_comparison(),
        _ => false,
    }
}

/// The node of an operator between two operands that ends before the
/// token at `next`.
pub open spec fn binary(
    ts: Tokens,
    left: WithSpan<ExprView>,
    operator: BinaryOperator,
    right: WithSpan<ExprView>,
    next: int,
) -> WithSpan<ExprView> {
    WithSpan {
        node: ExprView::Binary { left: Box::new(left), operator, right: Box::new(right) },
        span: span_at(ts, next),
    }
}

/// `term := primary { ("*" | "/" | "%") primary }`
pub open spec fn term(ts: Tokens, pos: int) -> Parsed<WithSpan<ExprView>> {
    match checked(ts, pos, parse_primary(ts, pos)) {
        Ok((left, next)) => term_rest(ts, next, left),
        Err(failure) => Err(failure),
    }
}

/// The repetition of `term`, after the operands read so far.
pub open spec fn term_rest(ts: Tokens, pos: int, left: WithSpan<ExprView>) -> Parsed<
    WithSpan<ExprView>,
>
    decreases ts.len() - pos,
{
    match token_at(ts, pos) {
        TokenView::BinaryOperator(operator) => if is_multiplicative(token_at(ts, pos)) {
            match checked(ts, pos, parse_primary(ts, pos + 1)) {
                Ok((right, next)) => term_rest(ts, next, binary(ts, left, operator, right, next)),
                Err(failure) => Err(failure),
            }
        } else {
            Ok((left, pos))
        },
        _ => Ok((left, pos)),
    }
}

/// `sum := term { ("+" | "-") term }`
pub open spec fn sum(ts: Tokens, pos: int) -> Parsed<WithSpan<ExprView>> {
    match checked(ts, pos, term(ts, pos)) {
        Ok((left, next)) => sum_rest(ts, next, left),
        Err(failure) => Err(failure),
    }
}

/// The repetition of `sum`, after the operands read so far.
pub open spec fn sum_rest(ts: Tokens, pos: int, left: WithSpan<ExprView>) -> Parsed<
    WithSpan<ExprView>,
>
    decreases ts.len() - pos,
{
    match token_at(ts, pos) {
        TokenView::BinaryOperator(operator) => if is_additive(token_at(ts, pos)) {
            match checked(ts, pos, term(ts, pos + 1)) {
                Ok((right, next)) => sum_rest(ts, next, binary(ts, left, operator, right, next)),
                Err(failure) => Err(failure),
            }
        } else {
            Ok((left, pos))
        },
        _ => Ok((left, pos)),
    }
}

/// `comparison := sum { ("==" | "!=" | "<" | "<=" | ">" | ">=") sum }`
pub open spec fn comparison(ts: Tokens, pos: int) -> Parsed<WithSpan<ExprView>> {
    match checked(ts, pos, sum(ts, pos)) {
        Ok((left, next)) => comparison_rest(ts, next, left),
        Err(failure) => Err(failure),
    }
}

/// The repetition of `comparison`, after the operands read so far.
pub open spec fn comparison_rest(ts: Tokens, pos: int, left: WithSpan<ExprView>) -> Parsed<
    WithSpan<ExprView>,
>
    decreases ts.len() - pos,
{
    match token_at(ts, pos) {
        TokenView::BinaryOperator(operator) => if is_comparison(token_at(ts, pos)) {
            match checked(ts, pos, sum(ts, pos + 1)) {
                Ok((right, next)) => comparison_rest(
                    ts,
                    next,
                    binary(ts, left, operator, right, next),
                ),
                Err(failure) => Err(failure),
            }
        } else {
            Ok((left, pos))
        },
        _ => Ok((left, pos)),
    }
}

/// What follows a term in a sum.
pub open spec fn then_sum(ts: Tokens, r: Parsed<WithSpan<ExprView>>) -> Parsed<WithSpan<ExprView>> {
    match r {
        Ok((left, next)) => sum_rest(ts, next, left),
        Err(failure) => Err(failure),
    }
}

/// What follows a sum in a comparison.
pub open spec fn then_comparison(ts: Tokens, r: Parsed<WithSpan<ExprView>>) -> Parsed<
    WithSpan<ExprView>,
> {
    match r {
        Ok((left, next)) => comparison_rest(ts, next, left),
        Err(failure) => Err(failure),
    }
}

/// The result, if it is a success, ends at or after `pos`, within the
/// tokens, and before a token for which `more` is false.
pub open spec fn ends<T>(ts: Tokens, pos: int, r: Parsed<T>, more: spec_fn(TokenView) -> bool) -> bool {
    match r {
        Ok((_, next)) => pos <= next <= ts.len() && !more(token_at(ts, next)),
        Err(_) => true,
    }
}

/// With a threshold above every operator, an expression is a primary
/// expression.
proof fn lemma_climb_primary(ts: Tokens, pos: int, min_prec: int)
    requires
        0 <= pos <= ts.len(),
        min_prec > 10,
    ensures
        parse_expression(ts, pos, min_prec) == parse_primary(ts, pos),
{
    lemma_primary(ts, pos);
    match parse_primary(ts, pos) {
        Ok((left, next)) => {
            assert(parse_binary_rest(ts, next, min_prec, left) == Ok::<
                (WithSpan<ExprView>, int),
                crate::parser::grammar::Failure,
            >((left, next)));
        },
        Err(_) => {},
    }
}

/// A term ends before a token that is not multiplicative.
proof fn lemma_term_rest_ends(ts: Tokens, pos: int, left: WithSpan<ExprView>)
    requires
        0 <= pos <= ts.len(),
    ensures
        ends(ts, pos, term_rest(ts, pos, left), |t: TokenView| is_multiplicative(t)),
    decreases ts.len() - pos,
{
    if is_multiplicative(token_at(ts, pos)) {
        lemma_primary(ts, pos + 1);
        match parse_primary(ts, pos + 1) {
            Ok((right, next)) => {
                let operator = token_at(ts, pos)->BinaryOperator_0;
                lemma_term_rest_ends(ts, next, binary(ts, left, operator, right, next));
            },
            Err(_) => {},
        }
    }
}

proof fn lemma_term_ends(ts: Tokens, pos: int)
    requires
        0 <= pos <= ts.len(),
    ensures
        ends(ts, pos, term(ts, pos), |t: TokenView| is_multiplicative(t)),
        checked(ts, pos, term(ts, pos)) == term(ts, pos),
{
    lemma_primary(ts, pos);
    match parse_primary(ts, pos) {
        Ok((left, next)) => {
            lemma_term_rest_ends(ts, next, left);
        },
        Err(_) => {},
    }
}

/// A sum ends before a token that is neither additive nor multiplicative.
proof fn lemma_sum_rest_ends(ts: Tokens, pos: int, left: WithSpan<ExprView>)
    requires
        0 <= pos <= ts.len(),
        !is_multiplicative(token_at(ts, pos)),
    ensures
        ends(
            ts,
            pos,
            sum_rest(ts, pos, left),
            |t: TokenView| is_additive(t) || is_multiplicative(t),
        ),
    decreases ts.len() - pos,
{
    if is_additive(token_at(ts, pos)) {
        lemma_term_ends(ts, pos + 1);
        match term(ts, pos + 1) {
            Ok((right, next)) => {
                let operator = token_at(ts, pos)->BinaryOperator_0;
                lemma_sum_rest_ends(ts, next, binary(ts, left, operator, right, next));
            },
            Err(_) => {},
        }
    }
}

proof fn lemma_sum_ends(ts: Tokens, pos: int)
    requires
        0 <= pos <= ts.len(),
    ensures
        ends(ts, pos, sum(ts, pos), |t: TokenView| is_additive(t) || is_multiplicative(t)),
        checked(ts, pos, sum(ts, pos)) == sum(ts, pos),
{
    lemma_term_ends(ts, pos);
    match term(ts, pos) {
        Ok((left, next)) => {
            lemma_sum_rest_ends(ts, next, left);
        },
        Err(_) => {},
    }
}

/// With the threshold of the multiplicative operators, the continuation
/// of an expression is the repetition of a term.
proof fn lemma_climb_term_rest(ts: Tokens, pos: int, left: WithSpan<ExprView>)
    requires
        0 <= pos <= ts.len(),
    ensures
        parse_binary_rest(ts, pos, 10, left) == term_rest(ts, pos, left),
    decreases ts.len() - pos,
{
    match token_at(ts, pos) {
        TokenView::BinaryOperator(operator) => {
            if operator.precedence() >= 10 {
                assert(is_multiplicative(token_at(ts, pos)));
                lemma_climb_primary(ts, pos + 1, operator.precedence() + 1);
                lemma_primary(ts, pos + 1);
                match parse_primary(ts, pos + 1) {
                    Ok((right, next)) => {
                        lemma_climb_term_rest(ts, next, binary(ts, left, operator, right, next));
                    },
                    Err(_) => {},
                }
            } else {
                assert(!is_multiplicative(token_at(ts, pos)));
            }
        },
        _ => {},
    }
}

proof fn lemma_climb_term(ts: Tokens, pos: int)
    requires
        0 <= pos <= ts.len(),
    ensures
        parse_expression(ts, pos, 10) == term(ts, pos),
{
    lemma_primary(ts, pos);
    match parse_primary(ts, pos) {
        Ok((left, next)) => {
            lemma_climb_term_rest(ts, next, left);
        },
        Err(_) => {},
    }
}

/// With a threshold between the comparisons and the additive operators,
/// the continuation of an expression is the repetition of a term and then
/// that of a sum.
proof fn lemma_climb_sum_rest(ts: Tokens, pos: int, min_prec: int, left: WithSpan<ExprView>)
    requires
        0 <= pos <= ts.len(),
        1 < min_prec <= 9,
    ensures
        parse_binary_rest(ts, pos, min_prec, left) == then_sum(ts, term_rest(ts, pos, left)),
    decreases ts.len() - pos,
{
    match token_at(ts, pos) {
        TokenView::BinaryOperator(operator) => {
            if operator.precedence() == 10 {
                assert(is_multiplicative(token_at(ts, pos)));
                lemma_climb_primary(ts, pos + 1, 11);
                lemma_primary(ts, pos + 1);
                match parse_primary(ts, pos + 1) {
                    Ok((right, next)) => {
                        lemma_climb_sum_rest(
                            ts,
                            next,
                            min_prec,
                            binary(ts, left, operator, right, next),
                        );
                    },
                    Err(_) => {},
                }
            } else if operator.precedence() == 9 {
                assert(is_additive(token_at(ts, pos)));
                assert(!is_multiplicative(token_at(ts, pos)));
                lemma_climb_term(ts, pos + 1);
                lemma_term_ends(ts, pos + 1);
                lemma_expression(ts, pos + 1, 10);
                match term(ts, pos + 1) {
                    Ok((right, next)) => {
                        let joined = binary(ts, left, operator, right, next);
                        lemma_climb_sum_rest(ts, next, min_prec, joined);
                        assert(term_rest(ts, next, joined) == Ok::<
                            (WithSpan<ExprView>, int),
                            crate::parser::grammar::Failure,
                        >((joined, next)));
                    },
                    Err(_) => {},
                }
            } else {
                assert(!is_multiplicative(token_at(ts, pos)));
                assert(!is_additive(token_at(ts, pos)));
            }
        },
        _ => {},
    }
}

proof fn lemma_climb_sum(ts: Tokens, pos: int, min_prec: int)
    requires
        0 <= pos <= ts.len(),
        1 < min_prec <= 9,
    ensures
        parse_expression(ts, pos, min_prec) == sum(ts, pos),
{
    lemma_primary(ts, pos);
    lemma_term_ends(ts, pos);
    match parse_primary(ts, pos) {
        Ok((left, next)) => {
            lemma_climb_sum_rest(ts, next, min_prec, left);
        },
        Err(_) => {},
    }
}

/// With a threshold that admits every operator, the continuation of an
/// expression is the repetition of a term, then that of a sum, then that
/// of a comparison.
proof fn lemma_climb_comparison_rest(ts: Tokens, pos: int, min_prec: int, left: WithSpan<ExprView>)
    requires
        0 <= pos <= ts.len(),
        min_prec <= 1,
    ensures
        parse_binary_rest(ts, pos, min_prec, left) == then_comparison(
            ts,
            then_sum(ts, term_rest(ts, pos, left)),
        ),
    decreases ts.len() - pos,
{
    match token_at(ts, pos) {
        TokenView::BinaryOperator(operator) => {
            if operator.precedence() == 10 {
                assert(is_multiplicative(token_at(ts, pos)));
                lemma_climb_primary(ts, pos + 1, 11);
                lemma_primary(ts, pos + 1);
                match parse_primary(ts, pos + 1) {
                    Ok((right, next)) => {
                        lemma_climb_comparison_rest(
                            ts,
                            next,
                            min_prec,
                            binary(ts, left, operator, right, next),
                        );
                    },
                    Err(_) => {},
                }
            } else if operator.precedence() == 9 {
                assert(is_additive(token_at(ts, pos)));
                assert(!is_multiplicative(token_at(ts, pos)));
                lemma_climb_term(ts, pos + 1);
                lemma_term_ends(ts, pos + 1);
                lemma_expression(ts, pos + 1, 10);
                match term(ts, pos + 1) {
                    Ok((right, next)) => {
                        let joined = binary(ts, left, operator, right, next);
                        lemma_climb_comparison_rest(ts, next, min_prec, joined);
                        assert(term_rest(ts, next, joined) == Ok::<
                            (WithSpan<ExprView>, int),
                            crate::parser::grammar::Failure,
                        >((joined, next)));
                    },
                    Err(_) => {},
                }
            } else {
                assert(operator.precedence() == 1);
                assert(is_comparison(token_at(ts, pos)));
                assert(!is_multiplicative(token_at(ts, pos)));
                assert(!is_additive(token_at(ts, pos)));
                lemma_climb_sum(ts, pos + 1, 2);
                lemma_sum_ends(ts, pos + 1);
                lemma_expression(ts, pos + 1, 2);
                match sum(ts, pos + 1) {
                    Ok((right, next)) => {
                        let joined = binary(ts, left, operator, right, next);
                        lemma_climb_comparison_rest(ts, next, min_prec, joined);
                        assert(term_rest(ts, next, joined) == Ok::<
                            (WithSpan<ExprView>, int),
                            crate::parser::grammar::Failure,
                        >((joined, next)));
                        assert(sum_rest(ts, next, joined) == Ok::<
                            (WithSpan<ExprView>, int),
                            crate::parser::grammar::Failure,
                        >((joined, next)));
                    },
                    Err(_) => {},
                }
            }
        },
        _ => {},
    }
}

/// The parser's expressions are those of the conventional grammar.
///
/// At any index of any token sequence, parsing an expression with the
/// threshold at which the parser starts gives what `comparison` gives:
/// `*`, `/` and `%` bind more tightly than `+` and `-`, these more tightly
/// than the comparisons, and operators of one level group to the left.
/// With a threshold above the comparisons the parser gives a `sum`, with
/// that of the multiplicative operators a `term`, and above that a primary
/// expression.
pub proof fn law_precedence(ts: Tokens, pos: int, min_prec: int)
    requires
        0 <= pos <= ts.len(),
    ensures
        min_prec <= 1 ==> parse_expression(ts, pos, min_prec) == comparison(ts, pos),
        1 < min_prec <= 9 ==> parse_expression(ts, pos, min_prec) == sum(ts, pos),
        min_prec == 10 ==> parse_expression(ts, pos, min_prec) == term(ts, pos),
        min_prec > 10 ==> parse_expression(ts, pos, min_prec) == parse_primary(ts, pos),
{
    if min_prec <= 1 {
        lemma_primary(ts, pos);
        lemma_term_ends(ts, pos);
        lemma_sum_ends(ts, pos);
        match parse_primary(ts, pos) {
            Ok((left, next)) => {
                lemma_climb_comparison_rest(ts, next, min_prec, left);
            },
            Err(_) => {},
        }
    } else if min_prec <= 9 {
        lemma_climb_sum(ts, pos, min_prec);
    } else if min_prec == 10 {
        lemma_climb_term(ts, pos);
    } else {
        lemma_climb_primary(ts, pos, min_prec);
    }
}

} // verus!
