//! Every production that succeeds ends within the token sequence, and the
//! productions that must read a token end after where they began.
use crate::common::ast::{ExprView, StmtView, WithSpan};
use crate::common::token::TokenView;
use crate::parser::grammar::{
    Parsed, Tokens, checked, expect, parse_arguments, parse_binary_rest, parse_body,
    parse_body_rest, parse_condition, parse_else, parse_expression, parse_function,
    parse_function_call, parse_if, parse_loop, parse_more_arguments, parse_more_parameters,
    parse_name, parse_parameter, parse_primary, parse_return, parse_signature, parse_statement,
    parse_statements, parse_type, parse_variable_assignment, parse_variable_declaration,
    token_at,
};
use vstd::prelude::*;

verus! {

/// The result, if it is a success, ends after `pos` and within the tokens.
pub open spec fn advances<T>(ts: Tokens, pos: int, r: Parsed<T>) -> bool {
    match r {
        Ok((_, next)) => pos < next <= ts.len(),
        Err(_) => true,
    }
}

/// The result, if it is a success, ends at or after `pos` and within the
/// tokens.
pub open spec fn stays<T>(ts: Tokens, pos: int, r: Parsed<T>) -> bool {
    match r {
        Ok((_, next)) => pos <= next <= ts.len(),
        Err(_) => true,
    }
}

/// The failure, if there is one, arose at or after `pos` and within the
/// tokens.
pub open spec fn fails_within<T>(ts: Tokens, pos: int, r: Parsed<T>) -> bool {
    match r {
        Ok(_) => true,
        Err(failure) => pos <= failure.at <= ts.len(),
    }
}

/// A primary expression reads at least one token.
pub proof fn lemma_primary(ts: Tokens, pos: int)
    requires
        0 <= pos <= ts.len(),
    ensures
        advances(ts, pos, parse_primary(ts, pos)),
        fails_within(ts, pos, parse_primary(ts, pos)),
    decreases ts.len() - pos, 0int,
{
    match token_at(ts, pos) {
        TokenView::Identifier(name) => {
            if token_at(ts, pos + 1) == TokenView::LeftParen {
                lemma_arguments(ts, pos + 2);
            }
        },
        TokenView::LeftParen => {
            lemma_expression(ts, pos + 1, 0);
        },
        _ => {},
    }
}

/// Arguments end within the tokens.
pub proof fn lemma_arguments(ts: Tokens, pos: int)
    requires
        0 <= pos <= ts.len(),
    ensures
        stays(ts, pos, parse_arguments(ts, pos)),
        fails_within(ts, pos, parse_arguments(ts, pos)),
    decreases ts.len() - pos, 2int,
{
    if token_at(ts, pos) != TokenView::RightParen {
        lemma_expression(ts, pos, 0);
        match parse_expression(ts, pos, 0) {
            Ok((first, next)) => {
                lemma_more_arguments(ts, next, seq![first]);
            },
            Err(_) => {},
        }
    }
}

/// Further arguments end within the tokens.
pub proof fn lemma_more_arguments(ts: Tokens, pos: int, read: Seq<WithSpan<ExprView>>)
    requires
        0 <= pos <= ts.len(),
    ensures
        stays(ts, pos, parse_more_arguments(ts, pos, read)),
        fails_within(ts, pos, parse_more_arguments(ts, pos, read)),
    decreases ts.len() - pos, 0int,
{
    if token_at(ts, pos) == TokenView::Comma {
        lemma_expression(ts, pos + 1, 0);
        match parse_expression(ts, pos + 1, 0) {
            Ok((argument, next)) => {
                lemma_more_arguments(ts, next, read.push(argument));
            },
            Err(_) => {},
        }
    }
}

/// An expression reads at least one token.
pub proof fn lemma_expression(ts: Tokens, pos: int, min_prec: int)
    requires
        0 <= pos <= ts.len(),
    ensures
        advances(ts, pos, parse_expression(ts, pos, min_prec)),
        fails_within(ts, pos, parse_expression(ts, pos, min_prec)),
    decreases ts.len() - pos, 1int,
{
    lemma_primary(ts, pos);
    match parse_primary(ts, pos) {
        Ok((left, next)) => {
            lemma_binary_rest(ts, next, min_prec, left);
        },
        Err(_) => {},
    }
}

/// The continuation of an expression ends within the tokens.
pub proof fn lemma_binary_rest(ts: Tokens, pos: int, min_prec: int, left: WithSpan<ExprView>)
    requires
        0 <= pos <= ts.len(),
    ensures
        stays(ts, pos, parse_binary_rest(ts, pos, min_prec, left)),
        fails_within(ts, pos, parse_binary_rest(ts, pos, min_prec, left)),
    decreases ts.len() - pos, 0int,
{
    match token_at(ts, pos).binary_operator() {
        Some(operator) => {
            if operator.precedence() >= min_prec {
                lemma_expression(ts, pos + 1, operator.precedence() + 1);
                match parse_expression(ts, pos + 1, operator.precedence() + 1) {
                    Ok((right, next)) => {
                        lemma_binary_rest(
                            ts,
                            next,
                            min_prec,
                            WithSpan {
                                node: ExprView::Binary {
                                    left: Box::new(left),
                                    operator,
                                    right: Box::new(right),
                                },
                                span: crate::parser::grammar::span_at(ts, next),
                            },
                        );
                    },
                    Err(_) => {},
                }
            }
        },
        None => {},
    }
}

/// Further parameters end within the tokens.
pub proof fn lemma_more_parameters(
    ts: Tokens,
    pos: int,
    read: Seq<crate::common::ast::ParamView>,
)
    requires
        0 <= pos <= ts.len(),
    ensures
        stays(ts, pos, parse_more_parameters(ts, pos, read)),
        fails_within(ts, pos, parse_more_parameters(ts, pos, read)),
    decreases ts.len() - pos,
{
    if token_at(ts, pos) == TokenView::Comma {
        match parse_parameter(ts, pos + 1) {
            Ok((parameter, next)) => {
                lemma_more_parameters(ts, next, read.push(parameter));
            },
            Err(_) => {},
        }
    }
}

/// The head of a function reads at least one token.
pub proof fn lemma_signature(ts: Tokens, pos: int)
    requires
        0 <= pos <= ts.len(),
    ensures
        advances(ts, pos, parse_signature(ts, pos)),
        fails_within(ts, pos, parse_signature(ts, pos)),
{
    match parse_name(ts, pos) {
        Ok((name, after_name)) => match expect(ts, after_name, TokenView::LeftParen) {
            Ok(after_paren) => {
                if token_at(ts, after_paren) != TokenView::RightParen {
                    match parse_parameter(ts, after_paren) {
                        Ok((first, next)) => {
                            lemma_more_parameters(ts, next, seq![first]);
                        },
                        Err(_) => {},
                    }
                }
            },
            Err(_) => {},
        },
        Err(_) => {},
    }
}

/// A condition reads at least one token.
pub proof fn lemma_condition(ts: Tokens, pos: int)
    requires
        0 <= pos <= ts.len(),
    ensures
        advances(ts, pos, parse_condition(ts, pos)),
        fails_within(ts, pos, parse_condition(ts, pos)),
{
    if token_at(ts, pos) == TokenView::LeftParen {
        lemma_expression(ts, pos + 1, 0);
    }
}

/// A statement reads at least one token.
pub proof fn lemma_statement(ts: Tokens, pos: int)
    requires
        0 <= pos <= ts.len(),
    ensures
        advances(ts, pos, parse_statement(ts, pos)),
        fails_within(ts, pos, parse_statement(ts, pos)),
    decreases ts.len() - pos, 2int,
{
    match token_at(ts, pos) {
        TokenView::Identifier(name) => {
            if name == "var"@ {
                lemma_variable_declaration(ts, pos + 1);
            } else if name == "if"@ {
                lemma_if(ts, pos + 1);
            } else if name == "return"@ {
                lemma_return(ts, pos + 1);
            } else if name == "while"@ {
                lemma_loop(ts, pos + 1);
            } else if name == "func"@ {
                lemma_function(ts, pos + 1);
            } else {
                match token_at(ts, pos + 1) {
                    TokenView::LeftParen => {
                        lemma_function_call(ts, pos);
                    },
                    TokenView::Assign => {
                        lemma_variable_assignment(ts, pos);
                    },
                    _ => {},
                }
            }
        },
        _ => {},
    }
}

/// The rest of a declaration reads at least one token.
pub proof fn lemma_variable_declaration(ts: Tokens, pos: int)
    requires
        0 <= pos <= ts.len(),
    ensures
        advances(ts, pos, parse_variable_declaration(ts, pos)),
        fails_within(ts, pos, parse_variable_declaration(ts, pos)),
    decreases ts.len() - pos, 0int,
{
    match parse_name(ts, pos) {
        Ok((name, after_name)) => match expect(ts, after_name, TokenView::Colon) {
            Ok(after_colon) => match parse_type(
                ts,
                after_colon,
                crate::parser::grammar::expected_type_message(token_at(ts, after_colon)),
            ) {
                Ok((type_, after_type)) => match expect(ts, after_type, TokenView::Assign) {
                    Ok(after_assign) => {
                        lemma_expression(ts, after_assign, 0);
                    },
                    Err(_) => {},
                },
                Err(_) => {},
            },
            Err(_) => {},
        },
        Err(_) => {},
    }
}

/// An assignment reads at least one token.
pub proof fn lemma_variable_assignment(ts: Tokens, pos: int)
    requires
        0 <= pos <= ts.len(),
    ensures
        advances(ts, pos, parse_variable_assignment(ts, pos)),
        fails_within(ts, pos, parse_variable_assignment(ts, pos)),
    decreases ts.len() - pos, 0int,
{
    match parse_name(ts, pos) {
        Ok((name, after_name)) => match expect(ts, after_name, TokenView::Assign) {
            Ok(after_assign) => {
                lemma_expression(ts, after_assign, 0);
            },
            Err(_) => {},
        },
        Err(_) => {},
    }
}

/// A call statement reads at least one token.
pub proof fn lemma_function_call(ts: Tokens, pos: int)
    requires
        0 <= pos <= ts.len(),
    ensures
        advances(ts, pos, parse_function_call(ts, pos)),
        fails_within(ts, pos, parse_function_call(ts, pos)),
    decreases ts.len() - pos, 0int,
{
    match parse_name(ts, pos) {
        Ok((name, after_name)) => match expect(ts, after_name, TokenView::LeftParen) {
            Ok(after_paren) => {
                lemma_arguments(ts, after_paren);
            },
            Err(_) => {},
        },
        Err(_) => {},
    }
}

/// The rest of a `return` reads at least one token.
pub proof fn lemma_return(ts: Tokens, pos: int)
    requires
        0 <= pos <= ts.len(),
    ensures
        advances(ts, pos, parse_return(ts, pos)),
        fails_within(ts, pos, parse_return(ts, pos)),
    decreases ts.len() - pos, 0int,
{
    if token_at(ts, pos) != TokenView::Semicolon {
        lemma_expression(ts, pos, 0);
    }
}

/// The rest of a loop reads at least one token.
pub proof fn lemma_loop(ts: Tokens, pos: int)
    requires
        0 <= pos <= ts.len(),
    ensures
        advances(ts, pos, parse_loop(ts, pos)),
        fails_within(ts, pos, parse_loop(ts, pos)),
    decreases ts.len() - pos, 1int,
{
    lemma_condition(ts, pos);
    match parse_condition(ts, pos) {
        Ok((condition, after_brace)) => {
            lemma_body(ts, after_brace);
        },
        Err(_) => {},
    }
}

/// An `else` part ends within the tokens.
pub proof fn lemma_else(ts: Tokens, pos: int)
    requires
        0 <= pos <= ts.len(),
    ensures
        stays(ts, pos, parse_else(ts, pos)),
        fails_within(ts, pos, parse_else(ts, pos)),
    decreases ts.len() - pos, 0int,
{
    if crate::parser::grammar::word_at(ts, pos, "else"@) {
        if crate::parser::grammar::word_at(ts, pos + 1, "if"@) {
            lemma_if(ts, pos + 2);
        } else {
            match expect(ts, pos + 1, TokenView::LeftBrace) {
                Ok(after_brace) => {
                    lemma_body(ts, after_brace);
                },
                Err(_) => {},
            }
        }
    }
}

/// The rest of a conditional reads at least one token.
pub proof fn lemma_if(ts: Tokens, pos: int)
    requires
        0 <= pos <= ts.len(),
    ensures
        advances(ts, pos, parse_if(ts, pos)),
        fails_within(ts, pos, parse_if(ts, pos)),
    decreases ts.len() - pos, 1int,
{
    lemma_condition(ts, pos);
    match parse_condition(ts, pos) {
        Ok((condition, after_brace)) => {
            lemma_body(ts, after_brace);
            match parse_body(ts, after_brace) {
                Ok((then_body, after_body)) => {
                    lemma_else(ts, after_body);
                },
                Err(_) => {},
            }
        },
        Err(_) => {},
    }
}

/// The rest of a function declaration reads at least one token.
pub proof fn lemma_function(ts: Tokens, pos: int)
    requires
        0 <= pos <= ts.len(),
    ensures
        advances(ts, pos, parse_function(ts, pos)),
        fails_within(ts, pos, parse_function(ts, pos)),
    decreases ts.len() - pos, 0int,
{
    lemma_signature(ts, pos);
    match parse_signature(ts, pos) {
        Ok((signature, after_brace)) => {
            lemma_body(ts, after_brace);
        },
        Err(_) => {},
    }
}

/// A block ends within the tokens.
pub proof fn lemma_body(ts: Tokens, pos: int)
    requires
        0 <= pos <= ts.len(),
    ensures
        stays(ts, pos, parse_body(ts, pos)),
        fails_within(ts, pos, parse_body(ts, pos)),
    decreases ts.len() - pos, 4int,
{
    lemma_body_rest(ts, pos, Seq::empty());
}

/// The rest of a block ends within the tokens.
pub proof fn lemma_body_rest(ts: Tokens, pos: int, read: Seq<WithSpan<StmtView>>)
    requires
        0 <= pos <= ts.len(),
    ensures
        stays(ts, pos, parse_body_rest(ts, pos, read)),
        fails_within(ts, pos, parse_body_rest(ts, pos, read)),
    decreases ts.len() - pos, 3int,
{
    if token_at(ts, pos) == TokenView::EOF {
    } else if token_at(ts, pos) == TokenView::RightBrace {
    } else {
        lemma_statement(ts, pos);
        match parse_statement(ts, pos) {
            Ok((statement, next)) => {
                lemma_body_rest(ts, next, read.push(statement));
            },
            Err(_) => {},
        }
    }
}

/// A program that the parser accepts has been read up to an end marker:
/// no token before the marker is left unread.
pub proof fn law_program_reads_to_the_end(ts: Tokens, pos: int, read: Seq<WithSpan<StmtView>>)
    requires
        0 <= pos <= ts.len(),
    ensures
        match parse_statements(ts, pos, read) {
            Ok((_, next)) => pos <= next <= ts.len() && token_at(ts, next) == TokenView::EOF,
            Err(_) => true,
        },
    decreases ts.len() - pos,
{
    if token_at(ts, pos) != TokenView::EOF {
        lemma_statement(ts, pos);
        match parse_statement(ts, pos) {
            Ok((statement, next)) => {
                law_program_reads_to_the_end(ts, next, read.push(statement));
            },
            Err(_) => {},
        }
    }
}

/// The grammar's guard lets every result of a production through.
pub proof fn law_progress(ts: Tokens, pos: int, min_prec: int)
    requires
        0 <= pos <= ts.len(),
    ensures
        checked(ts, pos, parse_primary(ts, pos)) == parse_primary(ts, pos),
        checked(ts, pos, parse_expression(ts, pos, min_prec)) == parse_expression(
            ts,
            pos,
            min_prec,
        ),
        checked(ts, pos, parse_statement(ts, pos)) == parse_statement(ts, pos),
        checked(ts, pos, parse_condition(ts, pos)) == parse_condition(ts, pos),
        checked(ts, pos, parse_signature(ts, pos)) == parse_signature(ts, pos),
{
    lemma_primary(ts, pos);
    lemma_expression(ts, pos, min_prec);
    lemma_statement(ts, pos);
    lemma_condition(ts, pos);
    lemma_signature(ts, pos);
}

} // verus!
