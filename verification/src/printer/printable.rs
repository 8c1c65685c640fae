//! Which programs can be printed and read again: those whose names are
//! spelled as names are, whose numbers are not negative and whose strings
//! hold no double quote, and which have the shapes that the parser gives.
use crate::common::ast::{ExprView, IfView, ParamView, StmtView, Type, ValueView, WithSpan};
use crate::common::token::TokenView;
use crate::parser::printing::{
    args_tokens, begins_statement, body_tokens, expr_tokens, guarded_tokens, if_tokens,
    more_args_tokens, more_params_tokens, param_tokens, params_tokens, signature_tokens,
    spellable_body, spellable_expr, spellable_exprs, spellable_if, spellable_stmt, stmt_tokens,
};
use crate::tokenizer::spelling::{all_lexable, is_name, lexable};
use vstd::prelude::*;

verus! {

/// Whether the expression can be printed and read again: its names are
/// spelled as names are, its numbers are not negative, its strings hold
/// no double quote, and it holds no `void` literal.
pub open spec fn printable_expr(e: WithSpan<ExprView>) -> bool
    decreases e, 0int,
{
    match e.node {
        ExprView::Literal(value) => match value {
            ValueView::String(text) => forall|i: int|
                0 <= i < text.len() ==> #[trigger] text[i] != '"',
            ValueView::Number(n) => n >= 0,
            ValueView::Bool(_) => true,
            ValueView::Void => false,
        },
        ExprView::Variable(name) => is_name(name),
        ExprView::Call { callee, args } => is_name(callee) && printable_exprs(args, 0),
        ExprView::Binary { left, operator, right } => printable_expr(*left) && printable_expr(
            *right,
        ),
    }
}

/// Whether the expressions from the `i`-th on can be printed and read
/// again.
pub open spec fn printable_exprs(es: Seq<WithSpan<ExprView>>, i: int) -> bool
    decreases es, es.len() - i,
{
    if 0 <= i < es.len() {
        printable_expr(es[i]) && printable_exprs(es, i + 1)
    } else {
        true
    }
}

/// Whether the parameters from the `i`-th on have names that are spelled
/// as names are.
pub open spec fn printable_params(params: Seq<ParamView>, i: int) -> bool
    decreases params.len() - i,
{
    if 0 <= i < params.len() {
        is_name(params[i].name) && printable_params(params, i + 1)
    } else {
        true
    }
}

/// Whether the statement can be printed and read again: its expressions
/// can; its names are spelled as names are; an expression that stands as
/// a statement is a call; an assignment or such a call begins with a name
/// that is no keyword; and what stands after `else` is a conditional.
pub open spec fn printable_stmt(s: WithSpan<StmtView>) -> bool
    decreases s, 0int,
{
    match s.node {
        StmtView::VarDecl { name, type_, value } => is_name(name) && printable_expr(value),
        StmtView::VarAssignment { name, value } => is_name(name) && begins_statement(name)
            && printable_expr(value),
        StmtView::Expr(e) => match e {
            ExprView::Call { callee, args } => is_name(callee) && begins_statement(callee)
                && printable_exprs(args, 0),
            _ => false,
        },
        StmtView::If(conditional) => printable_if(conditional),
        StmtView::Loop { condition, body } => printable_expr(condition) && printable_body(body, 0),
        StmtView::Function(f) => is_name(f.name) && printable_params(f.params, 0)
            && printable_body(f.body, 0),
        StmtView::Return { value } => match value {
            Some(value) => printable_expr(value),
            None => true,
        },
    }
}

/// Whether the conditional can be printed and read again.
pub open spec fn printable_if(conditional: IfView) -> bool
    decreases conditional, 0int,
{
    &&& printable_expr(conditional.condition)
    &&& printable_body(conditional.then_body, 0)
    &&& match conditional.else_body {
        Some(next) => match next.node {
            StmtView::If(inner) => printable_if(inner),
            _ => false,
        },
        None => true,
    }
}

/// Whether the statements of a block from the `i`-th on can be printed and
/// read again.
pub open spec fn printable_body(body: Seq<WithSpan<StmtView>>, i: int) -> bool
    decreases body, body.len() - i,
{
    if 0 <= i < body.len() {
        printable_stmt(body[i]) && printable_body(body, i + 1)
    } else {
        true
    }
}

/// The words of the language and the names of its types are spelled as
/// names are.
pub proof fn lemma_words_are_names()
    ensures
        is_name("var"@),
        is_name("if"@),
        is_name("else"@),
        is_name("while"@),
        is_name("func"@),
        is_name("return"@),
        forall|t: Type| is_name(#[trigger] t.name()),
{
    reveal_strlit("var");
    reveal_strlit("if");
    reveal_strlit("else");
    reveal_strlit("while");
    reveal_strlit("func");
    reveal_strlit("return");
    reveal_strlit("int");
    reveal_strlit("bool");
    reveal_strlit("string");
    reveal_strlit("void");
    reveal_strlit("true");
    reveal_strlit("false");
    assert("true"@.len() == 4);
    assert("false"@.len() == 5);
    assert("true"@[0] == 't');
    assert("var"@.len() == 3);
    assert("if"@.len() == 2);
    assert("else"@[0] == 'e');
    assert("while"@[0] == 'w');
    assert("func"@[1] == 'u');
    assert("return"@.len() == 6);
    assert("int"@.len() == 3);
    assert("bool"@[0] == 'b');
    assert("string"@.len() == 6);
    assert("void"@[0] == 'v');
    assert forall|t: Type| is_name(#[trigger] t.name()) by {
        match t {
            Type::Void => {},
            Type::Bool => {},
            Type::Int => {},
            Type::String => {},
        }
    }
}

/// Two sequences of lexable tokens in a row are a sequence of lexable
/// tokens.
pub proof fn lemma_lexable_concat(first: Seq<TokenView>, second: Seq<TokenView>)
    requires
        all_lexable(first),
        all_lexable(second),
    ensures
        all_lexable(first + second),
{
    assert forall|i: int| 0 <= i < (first + second).len() implies lexable(
        #[trigger] (first + second)[i],
    ) by {
        if i < first.len() {
            assert((first + second)[i] == first[i]);
        } else {
            assert((first + second)[i] == second[i - first.len()]);
        }
    }
}

/// A printable expression can be spelled, and in lexable tokens.
pub proof fn lemma_printable_expr(e: WithSpan<ExprView>)
    requires
        printable_expr(e),
    ensures
        spellable_expr(e),
        all_lexable(expr_tokens(e)),
    decreases e, 0int,
{
    match e.node {
        ExprView::Literal(value) => {},
        ExprView::Variable(name) => {},
        ExprView::Call { callee, args } => {
            lemma_printable_exprs(args, 0);
            lemma_printable_args(args);
            let head = seq![TokenView::Identifier(callee), TokenView::LeftParen];
            lemma_lexable_concat(head, args_tokens(args));
            lemma_lexable_concat(head + args_tokens(args), seq![TokenView::RightParen]);
        },
        ExprView::Binary { left, operator, right } => {
            lemma_printable_expr(*left);
            lemma_printable_expr(*right);
            let open = seq![TokenView::LeftParen];
            let op = seq![TokenView::BinaryOperator(operator)];
            let close = seq![TokenView::RightParen];
            lemma_lexable_concat(open, expr_tokens(*left));
            lemma_lexable_concat(open + expr_tokens(*left), op);
            lemma_lexable_concat(open + expr_tokens(*left) + op, expr_tokens(*right));
            lemma_lexable_concat(open + expr_tokens(*left) + op + expr_tokens(*right), close);
        },
    }
}

/// Printable expressions can be spelled.
pub proof fn lemma_printable_exprs(es: Seq<WithSpan<ExprView>>, i: int)
    requires
        printable_exprs(es, i),
    ensures
        spellable_exprs(es, i),
    decreases es, es.len() - i,
{
    if 0 <= i < es.len() {
        lemma_printable_expr(es[i]);
        lemma_printable_exprs(es, i + 1);
    }
}

/// Printable arguments are spelled in lexable tokens.
pub proof fn lemma_printable_args(args: Seq<WithSpan<ExprView>>)
    requires
        printable_exprs(args, 0),
    ensures
        all_lexable(args_tokens(args)),
    decreases args, args.len() + 1,
{
    if args.len() > 0 {
        lemma_printable_expr(args[0]);
        lemma_printable_more_args(args, 1);
        lemma_lexable_concat(expr_tokens(args[0]), more_args_tokens(args, 1));
    }
}

/// Further printable arguments are spelled in lexable tokens.
pub proof fn lemma_printable_more_args(args: Seq<WithSpan<ExprView>>, i: int)
    requires
        1 <= i,
        printable_exprs(args, i),
    ensures
        all_lexable(more_args_tokens(args, i)),
    decreases args, args.len() - i,
{
    if i < args.len() {
        lemma_printable_expr(args[i]);
        lemma_printable_more_args(args, i + 1);
        let comma = seq![TokenView::Comma];
        lemma_lexable_concat(comma, expr_tokens(args[i]));
        lemma_lexable_concat(comma + expr_tokens(args[i]), more_args_tokens(args, i + 1));
    }
}

/// Printable parameters are spelled in lexable tokens.
pub proof fn lemma_printable_params(params: Seq<ParamView>)
    requires
        printable_params(params, 0),
    ensures
        all_lexable(params_tokens(params)),
{
    lemma_words_are_names();
    if params.len() > 0 {
        lemma_printable_more_params(params, 1);
        assert(all_lexable(param_tokens(params[0])));
        lemma_lexable_concat(param_tokens(params[0]), more_params_tokens(params, 1));
    }
}

/// Further printable parameters are spelled in lexable tokens.
pub proof fn lemma_printable_more_params(params: Seq<ParamView>, i: int)
    requires
        1 <= i,
        printable_params(params, i),
    ensures
        all_lexable(more_params_tokens(params, i)),
    decreases params.len() - i,
{
    lemma_words_are_names();
    if i < params.len() {
        lemma_printable_more_params(params, i + 1);
        let comma = seq![TokenView::Comma];
        assert(all_lexable(param_tokens(params[i])));
        lemma_lexable_concat(comma, param_tokens(params[i]));
        lemma_lexable_concat(comma + param_tokens(params[i]), more_params_tokens(params, i + 1));
    }
}

/// A condition and a block that are spelled in lexable tokens are so
/// together.
proof fn lemma_lexable_guarded(condition: Seq<TokenView>, body: Seq<TokenView>)
    requires
        all_lexable(condition),
        all_lexable(body),
    ensures
        all_lexable(guarded_tokens(condition, body)),
{
    let open = seq![TokenView::LeftParen];
    let middle = seq![TokenView::RightParen, TokenView::LeftBrace];
    let close = seq![TokenView::RightBrace];
    lemma_lexable_concat(open, condition);
    lemma_lexable_concat(open + condition, middle);
    lemma_lexable_concat(open + condition + middle, body);
    lemma_lexable_concat(open + condition + middle + body, close);
}

/// A printable statement can be spelled, and in lexable tokens.
pub proof fn lemma_printable_stmt(s: WithSpan<StmtView>)
    requires
        printable_stmt(s),
    ensures
        spellable_stmt(s),
        all_lexable(stmt_tokens(s)),
    decreases s, 0int,
{
    lemma_words_are_names();
    match s.node {
        StmtView::VarDecl { name, type_, value } => {
            lemma_printable_expr(value);
            let head = seq![
                TokenView::Identifier("var"@),
                TokenView::Identifier(name),
                TokenView::Colon,
                TokenView::Identifier(type_.name()),
                TokenView::Assign,
            ];
            assert(all_lexable(head));
            lemma_lexable_concat(head, expr_tokens(value));
            lemma_lexable_concat(head + expr_tokens(value), seq![TokenView::Semicolon]);
        },
        StmtView::VarAssignment { name, value } => {
            lemma_printable_expr(value);
            let head = seq![TokenView::Identifier(name), TokenView::Assign];
            lemma_lexable_concat(head, expr_tokens(value));
            lemma_lexable_concat(head + expr_tokens(value), seq![TokenView::Semicolon]);
        },
        StmtView::Expr(e) => {
            lemma_printable_expr(WithSpan { node: e, span: s.span });
            lemma_lexable_concat(
                expr_tokens(WithSpan { node: e, span: s.span }),
                seq![TokenView::Semicolon],
            );
        },
        StmtView::If(conditional) => {
            lemma_printable_if(conditional);
            lemma_lexable_concat(seq![TokenView::Identifier("if"@)], if_tokens(conditional));
        },
        StmtView::Loop { condition, body } => {
            lemma_printable_expr(condition);
            lemma_printable_body(body, 0);
            lemma_lexable_guarded(expr_tokens(condition), body_tokens(body, 0));
            lemma_lexable_concat(
                seq![TokenView::Identifier("while"@)],
                guarded_tokens(expr_tokens(condition), body_tokens(body, 0)),
            );
        },
        StmtView::Function(f) => {
            lemma_printable_params(f.params);
            lemma_printable_body(f.body, 0);
            let head = seq![TokenView::Identifier(f.name), TokenView::LeftParen];
            let middle = seq![
                TokenView::RightParen,
                TokenView::Colon,
                TokenView::Identifier(f.type_.name()),
                TokenView::LeftBrace,
            ];
            assert(all_lexable(middle));
            lemma_lexable_concat(head, params_tokens(f.params));
            lemma_lexable_concat(head + params_tokens(f.params), middle);
            let signature = signature_tokens(f.name, f.params, f.type_);
            lemma_lexable_concat(seq![TokenView::Identifier("func"@)], signature);
            lemma_lexable_concat(
                seq![TokenView::Identifier("func"@)] + signature,
                body_tokens(f.body, 0),
            );
            lemma_lexable_concat(
                seq![TokenView::Identifier("func"@)] + signature + body_tokens(f.body, 0),
                seq![TokenView::RightBrace],
            );
        },
        StmtView::Return { value } => {
            match value {
                Some(value) => {
                    lemma_printable_expr(value);
                    lemma_lexable_concat(
                        seq![TokenView::Identifier("return"@)],
                        expr_tokens(value),
                    );
                    lemma_lexable_concat(
                        seq![TokenView::Identifier("return"@)] + expr_tokens(value),
                        seq![TokenView::Semicolon],
                    );
                },
                None => {},
            }
        },
    }
}

/// A printable conditional can be spelled, and in lexable tokens.
pub proof fn lemma_printable_if(conditional: IfView)
    requires
        printable_if(conditional),
    ensures
        spellable_if(conditional),
        all_lexable(if_tokens(conditional)),
    decreases conditional, 0int,
{
    lemma_words_are_names();
    lemma_printable_expr(conditional.condition);
    lemma_printable_body(conditional.then_body, 0);
    let first = guarded_tokens(
        expr_tokens(conditional.condition),
        body_tokens(conditional.then_body, 0),
    );
    lemma_lexable_guarded(
        expr_tokens(conditional.condition),
        body_tokens(conditional.then_body, 0),
    );
    match conditional.else_body {
        Some(next) => {
            let inner = next.node->If_0;
            lemma_printable_if(inner);
            let words = seq![TokenView::Identifier("else"@), TokenView::Identifier("if"@)];
            lemma_lexable_concat(words, if_tokens(inner));
            lemma_lexable_concat(first, words + if_tokens(inner));
        },
        None => {
            assert(if_tokens(conditional) =~= first);
        },
    }
}

/// A printable block can be spelled, and in lexable tokens.
pub proof fn lemma_printable_body(body: Seq<WithSpan<StmtView>>, i: int)
    requires
        printable_body(body, i),
    ensures
        spellable_body(body, i),
        all_lexable(body_tokens(body, i)),
    decreases body, body.len() - i,
{
    if 0 <= i < body.len() {
        lemma_printable_stmt(body[i]);
        lemma_printable_body(body, i + 1);
        lemma_lexable_concat(stmt_tokens(body[i]), body_tokens(body, i + 1));
    }
}

} // verus!
