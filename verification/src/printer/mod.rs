//! The printer: from the syntax tree back to source text.
//!
//! The text is the spelling of the tree's tokens, a space after each.
//! Tokenizing and parsing the text of a program gives the program back,
//! but for the positions of its nodes: see [`law_print_parse`].
pub mod printable;

use crate::common::ast::{
    Expression, FunctionDecl, IfStatement, LiteralValue, Parameter, Program, ReturnStatement,
    SpannedExpression, SpannedStatement, Span, Statement, StmtView, Type, VariableAssignment,
    VariableDecl, WithSpan, exprs_view, lemma_exprs_view_index, lemma_exprs_view_len,
    lemma_stmts_view_index, params_view, stmts_view,
};
use crate::common::text::decimal_string;
use crate::common::token::TokenView;
use crate::parser::grammar::{Tokens, parse_program};
use crate::parser::printing::{
    args_tokens, bare_stmts, body_tokens, expr_tokens, guarded_tokens, if_tokens,
    law_round_trip, lemma_spells_all, more_args_tokens, more_params_tokens, param_tokens,
    params_tokens, program_tokens, signature_tokens, stmt_tokens, value_token,
};
use crate::printer::printable::{lemma_printable_body, printable_body};
use crate::tokenizer::lexicon::tokens_of;
use crate::tokenizer::spelling::{
    law_tokens_round_trip, lemma_render_empty, lemma_render_first, lexeme, nodes, render,
};
use vstd::prelude::*;

verus! {

/// The source text of a program.
pub open spec fn source_text(program: Seq<WithSpan<StmtView>>) -> Seq<char> {
    render(body_tokens(program, 0))
}

/// Whether a program can be printed and read again: its names are spelled
/// as names are, its numbers are not negative, its strings hold no double
/// quote, and it has the shapes that the parser gives.
pub open spec fn printable(program: Seq<WithSpan<StmtView>>) -> bool {
    printable_body(program, 0)
}

/// The text of one token is its spelling and a space.
pub proof fn lemma_render_one(token: TokenView)
    ensures
        render(seq![token]) == lexeme(token) + " "@,
{
    lemma_render_first(seq![token]);
    lemma_render_empty();
    assert(seq![token].skip(1) =~= Seq::<TokenView>::empty());
    assert(render(seq![token]) =~= lexeme(token) + " "@);
}

/// The text of two token sequences in a row is their texts in a row.
pub proof fn lemma_render_concat(first: Seq<TokenView>, second: Seq<TokenView>)
    ensures
        render(first + second) == render(first) + render(second),
    decreases first.len(),
{
    if first.len() == 0 {
        lemma_render_empty();
        assert(first =~= Seq::<TokenView>::empty());
        assert(first + second =~= second);
        assert(render(first) + render(second) =~= render(second));
    } else {
        lemma_render_concat(first.skip(1), second);
        lemma_render_first(first);
        lemma_render_first(first + second);
        assert((first + second).skip(1) =~= first.skip(1) + second);
        assert(render(first + second) =~= render(first) + render(second));
    }
}

/// Writes the text of a token whose spelling is `text`.
fn write(out: &mut String, text: &str, Ghost(token): Ghost<TokenView>)
    requires
        lexeme(token) == text@,
    ensures
        final(out)@ == old(out)@ + render(seq![token]),
{
    proof {
        lemma_render_one(token);
    }
    out.append(text);
    out.append(" ");
    assert(out@ =~= old(out)@ + render(seq![token]));
}

/// Writes the text of a value.
fn write_value(out: &mut String, value: &LiteralValue)
    ensures
        final(out)@ == old(out)@ + render(seq![value_token(value@)]),
{
    match value {
        LiteralValue::String(text) => {
            proof {
                lemma_render_one(value_token(value@));
            }
            out.append("\"");
            out.append(text.as_str());
            out.append("\"");
            out.append(" ");
            assert(out@ =~= old(out)@ + render(seq![value_token(value@)]));
        },
        LiteralValue::Number(n) => {
            let digits = decimal_string(*n as i64);
            write(out, digits.as_str(), Ghost(value_token(value@)));
        },
        LiteralValue::Bool(b) => {
            if *b {
                write(out, "true", Ghost(value_token(value@)));
            } else {
                write(out, "false", Ghost(value_token(value@)));
            }
        },
        LiteralValue::Void => {
            proof {
                lemma_render_one(TokenView::EOF);
            }
            out.append(" ");
            assert(out@ =~= old(out)@ + render(seq![value_token(value@)]));
        },
    }
}

/// Writes the text of an expression.
fn write_expression(out: &mut String, expression: &SpannedExpression)
    ensures
        final(out)@ == old(out)@ + render(expr_tokens(expression@)),
    decreases expression, 1int,
{
    write_node(out, &expression.node, expression.span);
}

/// Writes the text of an expression that stands at `span`.
fn write_node(out: &mut String, expression: &Expression, span: Span)
    ensures
        final(out)@ == old(out)@ + render(expr_tokens(WithSpan { node: expression@, span })),
    decreases expression, 0int,
{
    let ghost goal = expr_tokens(WithSpan { node: expression@, span });
    match expression {
        Expression::Literal(literal) => {
            write_value(out, &literal.value);
        },
        Expression::VariableRef(reference) => {
            write(out, reference.name.as_str(), Ghost(TokenView::Identifier(reference.name@)));
        },
        Expression::FunctionCall(call) => {
            let ghost mut spelled = seq![TokenView::Identifier(call.callee@)];
            write(out, call.callee.as_str(), Ghost(TokenView::Identifier(call.callee@)));
            write(out, "(", Ghost(TokenView::LeftParen));
            proof {
                lemma_render_concat(spelled, seq![TokenView::LeftParen]);
                spelled = spelled + seq![TokenView::LeftParen];
            }
            write_arguments(out, &call.args);
            proof {
                lemma_render_concat(spelled, args_tokens(exprs_view(call.args)));
                spelled = spelled + args_tokens(exprs_view(call.args));
            }
            write(out, ")", Ghost(TokenView::RightParen));
            proof {
                lemma_render_concat(spelled, seq![TokenView::RightParen]);
                spelled = spelled + seq![TokenView::RightParen];
                assert(spelled =~= goal);
            }
            assert(out@ =~= old(out)@ + render(goal));
        },
        Expression::Binary(binary) => {
            let ghost mut spelled = seq![TokenView::LeftParen];
            write(out, "(", Ghost(TokenView::LeftParen));
            write_expression(out, &binary.left);
            proof {
                lemma_render_concat(spelled, expr_tokens(binary.left@));
                spelled = spelled + expr_tokens(binary.left@);
            }
            write(
                out,
                binary.operator.get_symbol(),
                Ghost(TokenView::BinaryOperator(binary.operator)),
            );
            proof {
                lemma_render_concat(spelled, seq![TokenView::BinaryOperator(binary.operator)]);
                spelled = spelled + seq![TokenView::BinaryOperator(binary.operator)];
            }
            write_expression(out, &binary.right);
            proof {
                lemma_render_concat(spelled, expr_tokens(binary.right@));
                spelled = spelled + expr_tokens(binary.right@);
            }
            write(out, ")", Ghost(TokenView::RightParen));
            proof {
                lemma_render_concat(spelled, seq![TokenView::RightParen]);
                spelled = spelled + seq![TokenView::RightParen];
                assert(spelled =~= goal);
            }
            assert(out@ =~= old(out)@ + render(goal));
        },
    }
}

/// Writes the text of the arguments of a call.
fn write_arguments(out: &mut String, args: &Vec<SpannedExpression>)
    ensures
        final(out)@ == old(out)@ + render(args_tokens(exprs_view(*args))),
    decreases args, 0int,
{
    let ghost view = exprs_view(*args);
    proof {
        lemma_exprs_view_len(*args);
    }
    if args.len() == 0 {
        proof {
            lemma_render_empty();
        }
        assert(render(args_tokens(view)) =~= Seq::<char>::empty());
        assert(out@ =~= old(out)@ + render(args_tokens(view)));
        return ;
    }
    proof {
        lemma_exprs_view_index(*args, 0);
        lemma_render_concat(expr_tokens(view[0]), more_args_tokens(view, 1));
    }
    write_expression(out, &args[0]);
    let mut i: usize = 1;
    while i < args.len()
        invariant
            1 <= i <= args.len(),
            view == exprs_view(*args),
            view.len() == args@.len(),
            out@ + render(more_args_tokens(view, i as int)) == old(out)@ + render(
                args_tokens(view),
            ),
        decreases args.len() - i,
    {
        let ghost before = out@;
        proof {
            lemma_exprs_view_index(*args, i as int);
            lemma_render_concat(
                seq![TokenView::Comma] + expr_tokens(view[i as int]),
                more_args_tokens(view, i + 1),
            );
            lemma_render_concat(seq![TokenView::Comma], expr_tokens(view[i as int]));
        }
        write(out, ",", Ghost(TokenView::Comma));
        write_expression(out, &args[i]);
        assert(out@ + render(more_args_tokens(view, i + 1)) =~= before + render(
            more_args_tokens(view, i as int),
        ));
        i = i + 1;
    }
    proof {
        lemma_render_empty();
    }
    assert(render(more_args_tokens(view, i as int)) =~= Seq::<char>::empty());
    assert(out@ =~= out@ + render(more_args_tokens(view, i as int)));
}

/// Writes the text of the parameters of a function.
fn write_parameters(out: &mut String, params: &Vec<Parameter>)
    ensures
        final(out)@ == old(out)@ + render(params_tokens(params_view(params@))),
{
    let ghost view = params_view(params@);
    if params.len() == 0 {
        proof {
            lemma_render_empty();
        }
        assert(render(params_tokens(view)) =~= Seq::<char>::empty());
        assert(out@ =~= old(out)@ + render(params_tokens(view)));
        return ;
    }
    proof {
        lemma_render_concat(param_tokens(view[0]), more_params_tokens(view, 1));
    }
    write_parameter(out, &params[0]);
    let mut i: usize = 1;
    while i < params.len()
        invariant
            1 <= i <= params.len(),
            view == params_view(params@),
            view.len() == params@.len(),
            out@ + render(more_params_tokens(view, i as int)) == old(out)@ + render(
                params_tokens(view),
            ),
        decreases params.len() - i,
    {
        let ghost before = out@;
        proof {
            lemma_render_concat(
                seq![TokenView::Comma] + param_tokens(view[i as int]),
                more_params_tokens(view, i + 1),
            );
            lemma_render_concat(seq![TokenView::Comma], param_tokens(view[i as int]));
        }
        write(out, ",", Ghost(TokenView::Comma));
        write_parameter(out, &params[i]);
        assert(out@ + render(more_params_tokens(view, i + 1)) =~= before + render(
            more_params_tokens(view, i as int),
        ));
        i = i + 1;
    }
    proof {
        lemma_render_empty();
    }
    assert(render(more_params_tokens(view, i as int)) =~= Seq::<char>::empty());
    assert(out@ =~= out@ + render(more_params_tokens(view, i as int)));
}

/// Writes the text of a parameter.
fn write_parameter(out: &mut String, parameter: &Parameter)
    ensures
        final(out)@ == old(out)@ + render(param_tokens(parameter@)),
{
    let ghost mut spelled = seq![TokenView::Identifier(parameter.name@)];
    write(out, parameter.name.as_str(), Ghost(TokenView::Identifier(parameter.name@)));
    write(out, ":", Ghost(TokenView::Colon));
    proof {
        lemma_render_concat(spelled, seq![TokenView::Colon]);
        spelled = spelled + seq![TokenView::Colon];
    }
    write_type(out, parameter.type_);
    proof {
        lemma_render_concat(spelled, seq![TokenView::Identifier(parameter.type_.name())]);
        spelled = spelled + seq![TokenView::Identifier(parameter.type_.name())];
        assert(spelled =~= param_tokens(parameter@));
    }
    assert(out@ =~= old(out)@ + render(param_tokens(parameter@)));
}

/// Writes the name of a type.
fn write_type(out: &mut String, type_: Type)
    ensures
        final(out)@ == old(out)@ + render(seq![TokenView::Identifier(type_.name())]),
{
    write(out, type_.get_name(), Ghost(TokenView::Identifier(type_.name())));
}

/// Writes a word of the language.
fn write_word(out: &mut String, word: &str)
    ensures
        final(out)@ == old(out)@ + render(seq![TokenView::Identifier(word@)]),
{
    write(out, word, Ghost(TokenView::Identifier(word@)));
}

/// Writes the text of the statements of a block.
fn write_body(out: &mut String, body: &Vec<SpannedStatement>)
    ensures
        final(out)@ == old(out)@ + render(body_tokens(stmts_view(*body), 0)),
    decreases body, 0int,
{
    let ghost view = stmts_view(*body);
    let mut i: usize = 0;
    assert(out@ + render(body_tokens(view, 0)) =~= old(out)@ + render(body_tokens(view, 0)));
    while i < body.len()
        invariant
            0 <= i <= body.len(),
            view == stmts_view(*body),
            view.len() == body@.len(),
            out@ + render(body_tokens(view, i as int)) == old(out)@ + render(
                body_tokens(view, 0),
            ),
        decreases body.len() - i,
    {
        let ghost before = out@;
        proof {
            lemma_stmts_view_index(*body, i as int);
            lemma_render_concat(stmt_tokens(view[i as int]), body_tokens(view, i + 1));
        }
        write_statement(out, &body[i]);
        assert(out@ + render(body_tokens(view, i + 1)) =~= before + render(
            body_tokens(view, i as int),
        ));
        i = i + 1;
    }
    proof {
        lemma_render_empty();
    }
    assert(render(body_tokens(view, i as int)) =~= Seq::<char>::empty());
    assert(out@ =~= out@ + render(body_tokens(view, i as int)));
}

/// Writes a condition and the block that it governs.
fn write_guarded(out: &mut String, condition: &SpannedExpression, body: &Vec<SpannedStatement>)
    ensures
        final(out)@ == old(out)@ + render(
            guarded_tokens(expr_tokens(condition@), body_tokens(stmts_view(*body), 0)),
        ),
    decreases body, 1int,
{
    let ghost goal = guarded_tokens(expr_tokens(condition@), body_tokens(stmts_view(*body), 0));
    let ghost mut spelled = seq![TokenView::LeftParen];
    write(out, "(", Ghost(TokenView::LeftParen));
    write_expression(out, condition);
    proof {
        lemma_render_concat(spelled, expr_tokens(condition@));
        spelled = spelled + expr_tokens(condition@);
    }
    write(out, ")", Ghost(TokenView::RightParen));
    proof {
        lemma_render_concat(spelled, seq![TokenView::RightParen]);
        spelled = spelled + seq![TokenView::RightParen];
    }
    write(out, "{", Ghost(TokenView::LeftBrace));
    proof {
        lemma_render_concat(spelled, seq![TokenView::LeftBrace]);
        spelled = spelled + seq![TokenView::LeftBrace];
    }
    write_body(out, body);
    proof {
        lemma_render_concat(spelled, body_tokens(stmts_view(*body), 0));
        spelled = spelled + body_tokens(stmts_view(*body), 0);
    }
    write(out, "}", Ghost(TokenView::RightBrace));
    proof {
        lemma_render_concat(spelled, seq![TokenView::RightBrace]);
        spelled = spelled + seq![TokenView::RightBrace];
        assert(spelled =~= goal);
    }
    assert(out@ =~= old(out)@ + render(goal));
}

/// Writes a conditional after the word `if`.
fn write_if(out: &mut String, conditional: &IfStatement)
    ensures
        final(out)@ == old(out)@ + render(if_tokens(conditional@)),
    decreases conditional, 0int,
{
    let ghost goal = if_tokens(conditional@);
    let ghost first = guarded_tokens(
        expr_tokens(conditional.condition@),
        body_tokens(stmts_view(conditional.then_body), 0),
    );
    write_guarded(out, &conditional.condition, &conditional.then_body);
    match &conditional.else_body {
        Some(next) => match &next.node {
            Statement::If(inner) => {
                let ghost words = seq![
                    TokenView::Identifier("else"@),
                    TokenView::Identifier("if"@),
                ];
                proof {
                    lemma_render_concat(seq![TokenView::Identifier("else"@)], seq![
                        TokenView::Identifier("if"@),
                    ]);
                    assert(seq![TokenView::Identifier("else"@)] + seq![
                        TokenView::Identifier("if"@),
                    ] =~= words);
                    lemma_render_concat(words, if_tokens(inner@));
                    lemma_render_concat(first, words + if_tokens(inner@));
                }
                write_word(out, "else");
                write_word(out, "if");
                write_if(out, inner);
                assert(goal == first + (words + if_tokens(inner@)));
                assert(out@ =~= old(out)@ + render(goal));
            },
            _ => {
                assert(goal =~= first);
            },
        },
        None => {
            assert(goal =~= first);
        },
    }
}

/// Writes the head and the body of a function after the word `func`.
fn write_function(out: &mut String, function: &FunctionDecl)
    ensures
        final(out)@ == old(out)@ + render(
            signature_tokens(function.name@, params_view(function.params@), function.type_)
                + body_tokens(stmts_view(function.body), 0) + seq![TokenView::RightBrace],
        ),
    decreases function, 0int,
{
    let ghost goal = signature_tokens(
        function.name@,
        params_view(function.params@),
        function.type_,
    ) + body_tokens(stmts_view(function.body), 0) + seq![TokenView::RightBrace];
    let ghost mut spelled = seq![TokenView::Identifier(function.name@)];
    write(out, function.name.as_str(), Ghost(TokenView::Identifier(function.name@)));
    write(out, "(", Ghost(TokenView::LeftParen));
    proof {
        lemma_render_concat(spelled, seq![TokenView::LeftParen]);
        spelled = spelled + seq![TokenView::LeftParen];
    }
    write_parameters(out, &function.params);
    proof {
        lemma_render_concat(spelled, params_tokens(params_view(function.params@)));
        spelled = spelled + params_tokens(params_view(function.params@));
    }
    write(out, ")", Ghost(TokenView::RightParen));
    proof {
        lemma_render_concat(spelled, seq![TokenView::RightParen]);
        spelled = spelled + seq![TokenView::RightParen];
    }
    write(out, ":", Ghost(TokenView::Colon));
    proof {
        lemma_render_concat(spelled, seq![TokenView::Colon]);
        spelled = spelled + seq![TokenView::Colon];
    }
    write_type(out, function.type_);
    proof {
        lemma_render_concat(spelled, seq![TokenView::Identifier(function.type_.name())]);
        spelled = spelled + seq![TokenView::Identifier(function.type_.name())];
    }
    write(out, "{", Ghost(TokenView::LeftBrace));
    proof {
        lemma_render_concat(spelled, seq![TokenView::LeftBrace]);
        spelled = spelled + seq![TokenView::LeftBrace];
    }
    write_body(out, &function.body);
    proof {
        lemma_render_concat(spelled, body_tokens(stmts_view(function.body), 0));
        spelled = spelled + body_tokens(stmts_view(function.body), 0);
    }
    write(out, "}", Ghost(TokenView::RightBrace));
    proof {
        lemma_render_concat(spelled, seq![TokenView::RightBrace]);
        spelled = spelled + seq![TokenView::RightBrace];
        assert(spelled =~= goal);
    }
    assert(out@ =~= old(out)@ + render(goal));
}

/// Writes the text of a variable declaration.
fn write_declaration(out: &mut String, declaration: &VariableDecl, Ghost(goal): Ghost<
    Seq<TokenView>,
>)
    requires
        goal == seq![
            TokenView::Identifier("var"@),
            TokenView::Identifier(declaration.name@),
            TokenView::Colon,
            TokenView::Identifier(declaration.type_.name()),
            TokenView::Assign,
        ] + expr_tokens(declaration.value@) + seq![TokenView::Semicolon],
    ensures
        final(out)@ == old(out)@ + render(goal),
{
    let ghost mut spelled = seq![TokenView::Identifier("var"@)];
    write_word(out, "var");
    write(out, declaration.name.as_str(), Ghost(TokenView::Identifier(declaration.name@)));
    proof {
        lemma_render_concat(spelled, seq![TokenView::Identifier(declaration.name@)]);
        spelled = spelled + seq![TokenView::Identifier(declaration.name@)];
    }
    write(out, ":", Ghost(TokenView::Colon));
    proof {
        lemma_render_concat(spelled, seq![TokenView::Colon]);
        spelled = spelled + seq![TokenView::Colon];
    }
    write_type(out, declaration.type_);
    proof {
        lemma_render_concat(spelled, seq![TokenView::Identifier(declaration.type_.name())]);
        spelled = spelled + seq![TokenView::Identifier(declaration.type_.name())];
    }
    write(out, "=", Ghost(TokenView::Assign));
    proof {
        lemma_render_concat(spelled, seq![TokenView::Assign]);
        spelled = spelled + seq![TokenView::Assign];
    }
    write_expression(out, &declaration.value);
    proof {
        lemma_render_concat(spelled, expr_tokens(declaration.value@));
        spelled = spelled + expr_tokens(declaration.value@);
    }
    write(out, ";", Ghost(TokenView::Semicolon));
    proof {
        lemma_render_concat(spelled, seq![TokenView::Semicolon]);
        spelled = spelled + seq![TokenView::Semicolon];
        assert(spelled =~= goal);
    }
    assert(out@ =~= old(out)@ + render(goal));
}

/// Writes the text of an assignment.
fn write_assignment(out: &mut String, assignment: &VariableAssignment, Ghost(goal): Ghost<
    Seq<TokenView>,
>)
    requires
        goal == seq![TokenView::Identifier(assignment.name@), TokenView::Assign] + expr_tokens(
            assignment.value@,
        ) + seq![TokenView::Semicolon],
    ensures
        final(out)@ == old(out)@ + render(goal),
{
    let ghost mut spelled = seq![TokenView::Identifier(assignment.name@)];
    write(out, assignment.name.as_str(), Ghost(TokenView::Identifier(assignment.name@)));
    write(out, "=", Ghost(TokenView::Assign));
    proof {
        lemma_render_concat(spelled, seq![TokenView::Assign]);
        spelled = spelled + seq![TokenView::Assign];
    }
    write_expression(out, &assignment.value);
    proof {
        lemma_render_concat(spelled, expr_tokens(assignment.value@));
        spelled = spelled + expr_tokens(assignment.value@);
    }
    write(out, ";", Ghost(TokenView::Semicolon));
    proof {
        lemma_render_concat(spelled, seq![TokenView::Semicolon]);
        spelled = spelled + seq![TokenView::Semicolon];
        assert(spelled =~= goal);
    }
    assert(out@ =~= old(out)@ + render(goal));
}

/// Writes the text of a `return`.
fn write_return(out: &mut String, returning: &ReturnStatement, Ghost(goal): Ghost<Seq<TokenView>>)
    requires
        goal == match returning.value {
            None => seq![TokenView::Identifier("return"@), TokenView::Semicolon],
            Some(value) => seq![TokenView::Identifier("return"@)] + expr_tokens(value@) + seq![
                TokenView::Semicolon,
            ],
        },
    ensures
        final(out)@ == old(out)@ + render(goal),
{
    match &returning.value {
        None => {
            proof {
                lemma_render_concat(
                    seq![TokenView::Identifier("return"@)],
                    seq![TokenView::Semicolon],
                );
                assert(goal =~= seq![TokenView::Identifier("return"@)] + seq![
                    TokenView::Semicolon,
                ]);
            }
            write_word(out, "return");
            write(out, ";", Ghost(TokenView::Semicolon));
            assert(out@ =~= old(out)@ + render(goal));
        },
        Some(value) => {
            let ghost mut spelled = seq![TokenView::Identifier("return"@)];
            write_word(out, "return");
            write_expression(out, value);
            proof {
                lemma_render_concat(spelled, expr_tokens(value@));
                spelled = spelled + expr_tokens(value@);
            }
            write(out, ";", Ghost(TokenView::Semicolon));
            proof {
                lemma_render_concat(spelled, seq![TokenView::Semicolon]);
                spelled = spelled + seq![TokenView::Semicolon];
                assert(spelled =~= goal);
            }
            assert(out@ =~= old(out)@ + render(goal));
        },
    }
}

/// Writes the text of a statement.
fn write_statement(out: &mut String, statement: &SpannedStatement)
    ensures
        final(out)@ == old(out)@ + render(stmt_tokens(statement@)),
    decreases statement, 0int,
{
    let ghost goal = stmt_tokens(statement@);
    match &statement.node {
        Statement::VarDecl(declaration) => {
            write_declaration(out, declaration, Ghost(goal));
        },
        Statement::VarAssignment(assignment) => {
            write_assignment(out, assignment, Ghost(goal));
        },
        Statement::Expr(expression) => {
            let ghost inner = expr_tokens(WithSpan { node: expression@, span: statement.span });
            write_node(out, expression, statement.span);
            write(out, ";", Ghost(TokenView::Semicolon));
            proof {
                lemma_render_concat(inner, seq![TokenView::Semicolon]);
            }
            assert(out@ =~= old(out)@ + render(goal));
        },
        Statement::If(conditional) => {
            proof {
                lemma_render_concat(seq![TokenView::Identifier("if"@)], if_tokens(conditional@));
            }
            write_word(out, "if");
            write_if(out, conditional);
            assert(out@ =~= old(out)@ + render(goal));
        },
        Statement::Loop(repeated) => {
            proof {
                lemma_render_concat(
                    seq![TokenView::Identifier("while"@)],
                    guarded_tokens(
                        expr_tokens(repeated.condition@),
                        body_tokens(stmts_view(repeated.body), 0),
                    ),
                );
            }
            write_word(out, "while");
            write_guarded(out, &repeated.condition, &repeated.body);
            assert(out@ =~= old(out)@ + render(goal));
        },
        Statement::Function(function) => {
            let ghost rest = signature_tokens(
                function.name@,
                params_view(function.params@),
                function.type_,
            ) + body_tokens(stmts_view(function.body), 0) + seq![TokenView::RightBrace];
            proof {
                lemma_render_concat(seq![TokenView::Identifier("func"@)], rest);
                assert(goal =~= seq![TokenView::Identifier("func"@)] + rest);
            }
            write_word(out, "func");
            write_function(out, function);
            assert(out@ =~= old(out)@ + render(goal));
        },
        Statement::Return(returning) => {
            write_return(out, returning, Ghost(goal));
        },
    }
}

/// The source text of a program.
pub fn print_program(program: &Program) -> (r: String)
    ensures
        r@ == source_text(program@),
{
    let mut out = String::new();
    write_body(&mut out, &program.body);
    assert(out@ =~= source_text(program@));
    out
}

/// Printing a program and reading the text again gives the program.
///
/// Let a program be printable, and its text short enough for its
/// positions to be counted. Then the tokenizer accepts the text, the
/// parser accepts the tokens, and the tree that the parser gives is the
/// program, but for the positions of its nodes.
pub proof fn law_print_parse(program: Seq<WithSpan<StmtView>>)
    requires
        printable(program),
        source_text(program).len() + 2 <= usize::MAX,
    ensures
        tokens_of(source_text(program)) is Tokens,
        parse_program(tokens_of(source_text(program))->Tokens_tokens) is Ok,
        bare_stmts(parse_program(tokens_of(source_text(program))->Tokens_tokens)->Ok_0.0)
            == bare_stmts(program),
{
    let spelling = body_tokens(program, 0);
    lemma_printable_body(program, 0);
    law_tokens_round_trip(spelling);
    let ts: Tokens = tokens_of(source_text(program))->Tokens_tokens;
    assert(nodes(ts) =~= program_tokens(program));
    assert forall|i: int| 0 <= i < program_tokens(program).len() implies (#[trigger] ts[0
        + i]).node == program_tokens(program)[i] by {
        assert(nodes(ts)[i] == ts[i].node);
    }
    lemma_spells_all(ts, 0, program_tokens(program));
    law_round_trip(program, ts);
}

} // verus!
