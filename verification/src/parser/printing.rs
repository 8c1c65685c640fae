//! The grammar read backwards: the tokens that spell a syntax tree, and
//! the proof that parsing them gives the tree back.
//!
//! Operators are spelled with their operands in parentheses, so that the
//! spelling does not depend on precedence. A tree keeps no record of the
//! positions of the text that it is spelled in; trees are compared with
//! their positions left out.
use crate::common::ast::{
    ExprView, FunctionView, IfView, ParamView, Span, StmtView, Type, ValueView, WithSpan,
};
use crate::common::token::{BinaryOperator, TokenView};
use crate::parser::grammar::{
    Failure, Parsed, Tokens, parse_arguments, parse_binary_rest, parse_body_rest,
    parse_condition, parse_expression, parse_function, parse_function_call, parse_if,
    parse_loop, parse_more_arguments, parse_more_parameters, parse_parameter, parse_parameters,
    parse_primary, parse_program, parse_return, parse_statements, parse_signature, parse_statement,
    parse_variable_assignment, parse_variable_declaration, span_at, token_at,
};
use vstd::prelude::*;

verus! {

/// The position that stands for no position.
pub open spec fn nowhere() -> Span {
    Span { line: 0, column: 0 }
}

/// The expression with its positions left out.
pub open spec fn bare_expr(e: WithSpan<ExprView>) -> WithSpan<ExprView>
    decreases e,
{
    WithSpan {
        node: match e.node {
            ExprView::Literal(value) => ExprView::Literal(value),
            ExprView::Variable(name) => ExprView::Variable(name),
            ExprView::Call { callee, args } => ExprView::Call { callee, args: bare_exprs(args) },
            ExprView::Binary { left, operator, right } => ExprView::Binary {
                left: Box::new(bare_expr(*left)),
                operator,
                right: Box::new(bare_expr(*right)),
            },
        },
        span: nowhere(),
    }
}

/// The expressions with their positions left out.
pub open spec fn bare_exprs(es: Seq<WithSpan<ExprView>>) -> Seq<WithSpan<ExprView>>
    decreases es,
{
    Seq::new(
        es.len(),
        |i: int|
            if 0 <= i < es.len() {
                bare_expr(es[i])
            } else {
                arbitrary()
            },
    )
}

/// The token that spells a value. The value `void` has no spelling.
pub open spec fn value_token(value: ValueView) -> TokenView {
    match value {
        ValueView::String(text) => TokenView::StringLiteral(text),
        ValueView::Number(n) => TokenView::NumericLiteral(n),
        ValueView::Bool(b) => TokenView::BooleanLiteral(b),
        ValueView::Void => TokenView::EOF,
    }
}

/// The tokens that spell an expression.
pub open spec fn expr_tokens(e: WithSpan<ExprView>) -> Seq<TokenView>
    decreases e, 0int,
{
    match e.node {
        ExprView::Literal(value) => seq![value_token(value)],
        ExprView::Variable(name) => seq![TokenView::Identifier(name)],
        ExprView::Call { callee, args } => seq![TokenView::Identifier(callee), TokenView::LeftParen]
            + args_tokens(args) + seq![TokenView::RightParen],
        ExprView::Binary { left, operator, right } => seq![TokenView::LeftParen] + expr_tokens(
            *left,
        ) + seq![TokenView::BinaryOperator(operator)] + expr_tokens(*right)
            + seq![TokenView::RightParen],
    }
}

/// The tokens that spell the arguments of a call, between its
/// parentheses.
pub open spec fn args_tokens(args: Seq<WithSpan<ExprView>>) -> Seq<TokenView>
    decreases args, args.len() + 1,
{
    if args.len() == 0 {
        Seq::empty()
    } else {
        expr_tokens(args[0]) + more_args_tokens(args, 1)
    }
}

/// The tokens that spell the arguments from the `i`-th on, each after a
/// comma.
pub open spec fn more_args_tokens(args: Seq<WithSpan<ExprView>>, i: int) -> Seq<TokenView>
    decreases args, args.len() - i,
{
    if 0 <= i < args.len() {
        seq![TokenView::Comma] + expr_tokens(args[i]) + more_args_tokens(args, i + 1)
    } else {
        Seq::empty()
    }
}

/// Whether the expression can be spelled: it holds no `void` literal.
pub open spec fn spellable_expr(e: WithSpan<ExprView>) -> bool
    decreases e, 0int,
{
    match e.node {
        ExprView::Literal(value) => value != ValueView::Void,
        ExprView::Variable(name) => true,
        ExprView::Call { callee, args } => spellable_exprs(args, 0),
        ExprView::Binary { left, operator, right } => spellable_expr(*left) && spellable_expr(
            *right,
        ),
    }
}

/// Whether the expressions from the `i`-th on can be spelled.
pub open spec fn spellable_exprs(es: Seq<WithSpan<ExprView>>, i: int) -> bool
    decreases es, es.len() - i,
{
    if 0 <= i < es.len() {
        spellable_expr(es[i]) && spellable_exprs(es, i + 1)
    } else {
        true
    }
}

/// Whether the tokens from `pos` on begin with `spelling`.
#[verifier::opaque]
pub open spec fn spells(ts: Tokens, pos: int, spelling: Seq<TokenView>) -> bool {
    &&& 0 <= pos
    &&& pos + spelling.len() <= ts.len()
    &&& forall|i: int| 0 <= i < spelling.len() ==> (#[trigger] ts[pos + i]).node == spelling[i]
}

/// Tokens that begin with two spellings in a row begin with the first,
/// and go on with the second.
pub proof fn lemma_spells_both(ts: Tokens, pos: int, first: Seq<TokenView>, second: Seq<TokenView>)
    requires
        spells(ts, pos, first + second),
    ensures
        spells(ts, pos, first),
        spells(ts, pos + first.len(), second),
{
    reveal(spells);
    assert forall|i: int| 0 <= i < first.len() implies (#[trigger] ts[pos + i]).node == first[i] by {
        assert((first + second)[i] == first[i]);
    }
    assert forall|i: int| 0 <= i < second.len() implies (#[trigger] ts[pos + first.len() + i]).node
        == second[i] by {
        assert((first + second)[first.len() + i] == second[i]);
        assert(ts[pos + (first.len() + i)].node == (first + second)[first.len() + i]);
    }
}

/// Tokens that begin with a spelling hold the spelling's tokens.
pub proof fn lemma_spells_at(ts: Tokens, pos: int, spelling: Seq<TokenView>, k: int)
    requires
        spells(ts, pos, spelling),
        0 <= k < spelling.len(),
    ensures
        0 <= pos + k < ts.len(),
        token_at(ts, pos + k) == spelling[k],
{
    reveal(spells);
    assert(ts[pos + k].node == spelling[k]);
}

/// Tokens that hold the tokens of a spelling begin with the spelling.
pub proof fn lemma_spells_all(ts: Tokens, pos: int, spelling: Seq<TokenView>)
    requires
        0 <= pos,
        pos + spelling.len() <= ts.len(),
        forall|i: int| 0 <= i < spelling.len() ==> (#[trigger] ts[pos + i]).node == spelling[i],
    ensures
        spells(ts, pos, spelling),
{
    reveal(spells);
}

/// Tokens that begin with a spelling hold all of it.
pub proof fn lemma_spells_within(ts: Tokens, pos: int, spelling: Seq<TokenView>)
    requires
        spells(ts, pos, spelling),
    ensures
        0 <= pos,
        pos + spelling.len() <= ts.len(),
{
    reveal(spells);
}

/// Tokens that begin with a spelling of one token hold that token.
pub proof fn lemma_spells_one(ts: Tokens, pos: int, token: TokenView)
    requires
        spells(ts, pos, seq![token]),
    ensures
        token_at(ts, pos) == token,
        0 <= pos < ts.len(),
{
    reveal(spells);
    assert(ts[pos + 0].node == seq![token][0]);
}

/// Whether the token may stand after an expression: no operator that
/// would carry the expression on, and no parenthesis that would make a
/// call of a variable.
pub open spec fn ends_expression(token: TokenView) -> bool {
    token.binary_operator() is None && token != TokenView::LeftParen
}

/// What parsing gave is the expression, its positions left out, and ends
/// where the spelling ends.
pub open spec fn gives_expr(
    r: Parsed<WithSpan<ExprView>>,
    e: WithSpan<ExprView>,
    end: int,
) -> bool {
    match r {
        Ok((parsed, next)) => next == end && bare_expr(parsed) == bare_expr(e),
        Err(_) => false,
    }
}

/// What parsing gave are the expressions read before and the given ones,
/// positions left out, and ends where the spelling ends.
pub open spec fn gives_exprs(
    r: Parsed<Seq<WithSpan<ExprView>>>,
    read: Seq<WithSpan<ExprView>>,
    es: Seq<WithSpan<ExprView>>,
    end: int,
) -> bool {
    match r {
        Ok((parsed, next)) => next == end && bare_exprs(parsed) == bare_exprs(read) + bare_exprs(es),
        Err(_) => false,
    }
}

proof fn lemma_bare_exprs_push(es: Seq<WithSpan<ExprView>>, e: WithSpan<ExprView>)
    ensures
        bare_exprs(es.push(e)) == bare_exprs(es).push(bare_expr(e)),
{
    assert(bare_exprs(es.push(e)) =~= bare_exprs(es).push(bare_expr(e)));
}

/// A spelling is never empty.
proof fn lemma_expr_tokens_len(e: WithSpan<ExprView>)
    ensures
        expr_tokens(e).len() > 0,
{
}

/// Parsing the spelling of an expression as a primary expression gives
/// the expression.
pub proof fn lemma_primary_round_trip(ts: Tokens, pos: int, e: WithSpan<ExprView>)
    requires
        spellable_expr(e),
        spells(ts, pos, expr_tokens(e)),
        token_at(ts, pos + expr_tokens(e).len()) != TokenView::LeftParen,
    ensures
        gives_expr(parse_primary(ts, pos), e, pos + expr_tokens(e).len()),
    decreases e, 0int,
{
    match e.node {
        ExprView::Literal(value) => {
            lemma_spells_one(ts, pos, value_token(value));
        },
        ExprView::Variable(name) => {
            lemma_spells_one(ts, pos, TokenView::Identifier(name));
        },
        ExprView::Call { callee, args } => {
            let head = seq![TokenView::Identifier(callee), TokenView::LeftParen];
            let inner = args_tokens(args);
            let close = seq![TokenView::RightParen];
            lemma_spells_both(ts, pos, head + inner, close);
            lemma_spells_both(ts, pos, head, inner);
            lemma_spells_at(ts, pos, head, 0);
            lemma_spells_at(ts, pos, head, 1);
            lemma_spells_one(ts, pos + 2 + inner.len(), TokenView::RightParen);
            lemma_arguments_round_trip(ts, pos + 2, args);
            assert(bare_exprs(Seq::<WithSpan<ExprView>>::empty()) + bare_exprs(args) =~= bare_exprs(
                args,
            ));
        },
        ExprView::Binary { left, operator, right } => {
            let open = seq![TokenView::LeftParen];
            let l = expr_tokens(*left);
            let op = seq![TokenView::BinaryOperator(operator)];
            let r = expr_tokens(*right);
            let close = seq![TokenView::RightParen];
            lemma_spells_both(ts, pos, open + l + op + r, close);
            lemma_spells_both(ts, pos, open + l + op, r);
            lemma_spells_both(ts, pos, open + l, op);
            lemma_spells_both(ts, pos, open, l);
            lemma_spells_one(ts, pos, TokenView::LeftParen);
            let at_op = pos + 1 + l.len();
            lemma_spells_one(ts, at_op, TokenView::BinaryOperator(operator));
            let at_close = at_op + 1 + r.len();
            lemma_spells_one(ts, at_close, TokenView::RightParen);
            lemma_expr_tokens_len(*left);
            lemma_expr_tokens_len(*right);
            lemma_primary_round_trip(ts, pos + 1, *left);
            let first = parse_primary(ts, pos + 1)->Ok_0.0;
            lemma_expression_round_trip(ts, at_op + 1, *right, operator.precedence() + 1);
            let second = parse_expression(ts, at_op + 1, operator.precedence() + 1)->Ok_0.0;
            let joined = WithSpan {
                node: ExprView::Binary {
                    left: Box::new(first),
                    operator,
                    right: Box::new(second),
                },
                span: span_at(ts, at_close),
            };
            assert(parse_binary_rest(ts, at_close, 0, joined) == Ok::<
                (WithSpan<ExprView>, int),
                Failure,
            >((joined, at_close)));
            assert(parse_binary_rest(ts, at_op, 0, first) == Ok::<
                (WithSpan<ExprView>, int),
                Failure,
            >((joined, at_close)));
            assert(parse_expression(ts, pos + 1, 0) == Ok::<(WithSpan<ExprView>, int), Failure>(
                (joined, at_close),
            ));
        },
    }
}

/// Parsing the spelling of an expression, with any threshold, gives the
/// expression, if the token after it ends an expression.
pub proof fn lemma_expression_round_trip(ts: Tokens, pos: int, e: WithSpan<ExprView>, min_prec: int)
    requires
        spellable_expr(e),
        spells(ts, pos, expr_tokens(e)),
        ends_expression(token_at(ts, pos + expr_tokens(e).len())),
    ensures
        gives_expr(parse_expression(ts, pos, min_prec), e, pos + expr_tokens(e).len()),
    decreases e, 1int,
{
    lemma_expr_tokens_len(e);
    lemma_primary_round_trip(ts, pos, e);
}

/// Parsing the spelling of the arguments of a call gives the arguments.
pub proof fn lemma_arguments_round_trip(ts: Tokens, pos: int, args: Seq<WithSpan<ExprView>>)
    requires
        spellable_exprs(args, 0),
        spells(ts, pos, args_tokens(args)),
        token_at(ts, pos + args_tokens(args).len()) == TokenView::RightParen,
    ensures
        gives_exprs(parse_arguments(ts, pos), Seq::empty(), args, pos + args_tokens(args).len()),
    decreases args, args.len() + 1,
{
    if args.len() == 0 {
        assert(bare_exprs(Seq::<WithSpan<ExprView>>::empty()) + bare_exprs(args) =~= bare_exprs(
            Seq::<WithSpan<ExprView>>::empty(),
        ));
    } else {
        let first = expr_tokens(args[0]);
        let more = more_args_tokens(args, 1);
        lemma_spells_both(ts, pos, first, more);
        lemma_expr_tokens_len(args[0]);
        lemma_more_args_first(args, 1);
        if more.len() > 0 {
            lemma_spells_at(ts, pos + first.len(), more, 0);
        }
        assert(token_at(ts, pos) != TokenView::RightParen) by {
            lemma_first_token(args[0]);
            lemma_spells_at(ts, pos, first, 0);
        }
        lemma_expression_round_trip(ts, pos, args[0], 0);
        let parsed = parse_expression(ts, pos, 0)->Ok_0.0;
        lemma_spellable_from(args, 0, 1);
        lemma_more_arguments_round_trip(ts, pos + first.len(), args, 1, seq![parsed]);
        assert(bare_exprs(seq![parsed]) + bare_exprs(args.skip(1)) =~= bare_exprs(
            Seq::<WithSpan<ExprView>>::empty(),
        ) + bare_exprs(args)) by {
            assert(bare_expr(parsed) == bare_expr(args[0]));
            assert forall|j: int| 0 <= j < args.len() implies (bare_exprs(seq![parsed])
                + bare_exprs(args.skip(1)))[j] == bare_exprs(args)[j] by {
                if j > 0 {
                    assert(args.skip(1)[j - 1] == args[j]);
                }
            }
        }
    }
}

/// The spelling of an expression begins with a token that is neither a
/// closing parenthesis nor a comma nor a semicolon.
proof fn lemma_first_token(e: WithSpan<ExprView>)
    requires
        spellable_expr(e),
    ensures
        expr_tokens(e).len() > 0,
        expr_tokens(e)[0] != TokenView::RightParen,
        expr_tokens(e)[0] != TokenView::Semicolon,
        expr_tokens(e)[0] != TokenView::Comma,
{
}

/// The spelling of further arguments is empty or begins with a comma.
proof fn lemma_more_args_first(args: Seq<WithSpan<ExprView>>, i: int)
    ensures
        more_args_tokens(args, i).len() > 0 ==> more_args_tokens(args, i)[0] == TokenView::Comma,
        more_args_tokens(args, i).len() == 0 ==> !(0 <= i < args.len()),
{
}

proof fn lemma_spellable_from(es: Seq<WithSpan<ExprView>>, i: int, j: int)
    requires
        0 <= i <= j,
        spellable_exprs(es, i),
    ensures
        spellable_exprs(es, j),
    decreases j - i,
{
    if i < j && i < es.len() {
        lemma_spellable_from(es, i + 1, j);
    } else if i < j {
        assert(spellable_exprs(es, j));
    }
}

/// Parsing the spelling of further arguments gives those arguments, after
/// the ones read before.
pub proof fn lemma_more_arguments_round_trip(
    ts: Tokens,
    pos: int,
    args: Seq<WithSpan<ExprView>>,
    i: int,
    read: Seq<WithSpan<ExprView>>,
)
    requires
        0 <= i <= args.len(),
        spellable_exprs(args, i),
        spells(ts, pos, more_args_tokens(args, i)),
        token_at(ts, pos + more_args_tokens(args, i).len()) == TokenView::RightParen,
    ensures
        gives_exprs(
            parse_more_arguments(ts, pos, read),
            read,
            args.skip(i),
            pos + more_args_tokens(args, i).len(),
        ),
    decreases args, args.len() - i,
{
    if i < args.len() {
        let comma = seq![TokenView::Comma];
        let this = expr_tokens(args[i]);
        let more = more_args_tokens(args, i + 1);
        lemma_spells_both(ts, pos, comma + this, more);
        lemma_spells_both(ts, pos, comma, this);
        lemma_spells_one(ts, pos, TokenView::Comma);
        lemma_expr_tokens_len(args[i]);
        lemma_more_args_first(args, i + 1);
        if more.len() > 0 {
            lemma_spells_at(ts, pos + 1 + this.len(), more, 0);
        }
        lemma_expression_round_trip(ts, pos + 1, args[i], 0);
        let parsed = parse_expression(ts, pos + 1, 0)->Ok_0.0;
        lemma_more_arguments_round_trip(ts, pos + 1 + this.len(), args, i + 1, read.push(parsed));
        lemma_bare_exprs_push(read, parsed);
        assert(bare_exprs(read.push(parsed)) + bare_exprs(args.skip(i + 1)) =~= bare_exprs(read)
            + bare_exprs(args.skip(i))) by {
            assert(args.skip(i)[0] == args[i]);
            assert(args.skip(i + 1) =~= args.skip(i).skip(1));
        }
    } else {
        assert(args.skip(i) =~= Seq::empty());
        assert(bare_exprs(read) + bare_exprs(args.skip(i)) =~= bare_exprs(read));
    }
}

/// Whether the name is a word that begins a statement of its own kind.
pub open spec fn is_keyword(name: Seq<char>) -> bool {
    name == "var"@ || name == "if"@ || name == "return"@ || name == "while"@ || name == "func"@
}

/// Whether an assignment or a call can begin with the name: the name is
/// no keyword, and it is not `else`, which after a block would be taken
/// for the rest of a conditional.
pub open spec fn begins_statement(name: Seq<char>) -> bool {
    !is_keyword(name) && name != "else"@
}

/// The words of the language differ from one another.
pub proof fn lemma_words_differ()
    ensures
        "var"@ != "if"@,
        "var"@ != "return"@,
        "var"@ != "while"@,
        "var"@ != "func"@,
        "var"@ != "else"@,
        "if"@ != "return"@,
        "if"@ != "while"@,
        "if"@ != "func"@,
        "if"@ != "else"@,
        "return"@ != "while"@,
        "return"@ != "func"@,
        "return"@ != "else"@,
        "while"@ != "func"@,
        "while"@ != "else"@,
        "func"@ != "else"@,
{
    reveal_strlit("var");
    reveal_strlit("if");
    reveal_strlit("return");
    reveal_strlit("while");
    reveal_strlit("func");
    reveal_strlit("else");
    assert("var"@[0] == 'v');
    assert("if"@[0] == 'i');
    assert("return"@[0] == 'r');
    assert("while"@[0] == 'w');
    assert("func"@[0] == 'f');
    assert("else"@[0] == 'e');
}

/// A type's name denotes the type.
pub proof fn lemma_type_name(type_: Type)
    ensures
        Type::named(type_.name()) == Some(type_),
{
    reveal_strlit("int");
    reveal_strlit("bool");
    reveal_strlit("string");
    reveal_strlit("void");
    assert("int"@[0] == 'i');
    assert("bool"@[0] == 'b');
    assert("string"@[0] == 's');
    assert("void"@[0] == 'v');
}

/// The statement with its positions left out.
pub open spec fn bare_stmt(s: WithSpan<StmtView>) -> WithSpan<StmtView>
    decreases s, 0int,
{
    WithSpan {
        node: match s.node {
            StmtView::Function(f) => StmtView::Function(
                FunctionView {
                    name: f.name,
                    params: f.params,
                    type_: f.type_,
                    body: bare_stmts(f.body),
                },
            ),
            StmtView::VarAssignment { name, value } => StmtView::VarAssignment {
                name,
                value: bare_expr(value),
            },
            StmtView::VarDecl { name, type_, value } => StmtView::VarDecl {
                name,
                type_,
                value: bare_expr(value),
            },
            StmtView::If(conditional) => StmtView::If(bare_if(conditional)),
            StmtView::Loop { condition, body } => StmtView::Loop {
                condition: bare_expr(condition),
                body: bare_stmts(body),
            },
            StmtView::Return { value } => StmtView::Return {
                value: match value {
                    Some(value) => Some(bare_expr(value)),
                    None => None,
                },
            },
            StmtView::Expr(e) => StmtView::Expr(bare_expr(WithSpan { node: e, span: s.span }).node),
        },
        span: nowhere(),
    }
}

/// The conditional with its positions left out.
pub open spec fn bare_if(conditional: IfView) -> IfView
    decreases conditional, 0int,
{
    IfView {
        condition: bare_expr(conditional.condition),
        then_body: bare_stmts(conditional.then_body),
        else_body: match conditional.else_body {
            Some(next) => Some(Box::new(bare_stmt(*next))),
            None => None,
        },
    }
}

/// The statements with their positions left out.
pub open spec fn bare_stmts(body: Seq<WithSpan<StmtView>>) -> Seq<WithSpan<StmtView>>
    decreases body, body.len(),
{
    Seq::new(
        body.len(),
        |i: int|
            if 0 <= i < body.len() {
                bare_stmt(body[i])
            } else {
                arbitrary()
            },
    )
}

/// The tokens that spell a parameter.
pub open spec fn param_tokens(p: ParamView) -> Seq<TokenView> {
    seq![TokenView::Identifier(p.name), TokenView::Colon, TokenView::Identifier(p.type_.name())]
}

/// The tokens that spell the parameters of a function, between its
/// parentheses.
pub open spec fn params_tokens(params: Seq<ParamView>) -> Seq<TokenView> {
    if params.len() == 0 {
        Seq::empty()
    } else {
        param_tokens(params[0]) + more_params_tokens(params, 1)
    }
}

/// The tokens that spell the parameters from the `i`-th on, each after a
/// comma.
pub open spec fn more_params_tokens(params: Seq<ParamView>, i: int) -> Seq<TokenView>
    decreases params.len() - i,
{
    if 0 <= i < params.len() {
        seq![TokenView::Comma] + param_tokens(params[i]) + more_params_tokens(params, i + 1)
    } else {
        Seq::empty()
    }
}

/// The tokens that spell the head of a function after the word `func`,
/// through the opening brace of the body.
pub open spec fn signature_tokens(name: Seq<char>, params: Seq<ParamView>, type_: Type) -> Seq<
    TokenView,
> {
    seq![TokenView::Identifier(name), TokenView::LeftParen] + params_tokens(params) + seq![
        TokenView::RightParen,
        TokenView::Colon,
        TokenView::Identifier(type_.name()),
        TokenView::LeftBrace,
    ]
}

/// The tokens that spell a condition and the block that it governs:
/// `( condition ) { statements }`.
pub open spec fn guarded_tokens(condition: Seq<TokenView>, body: Seq<TokenView>) -> Seq<TokenView> {
    seq![TokenView::LeftParen] + condition + seq![TokenView::RightParen, TokenView::LeftBrace]
        + body + seq![TokenView::RightBrace]
}

/// The tokens that spell a statement.
pub open spec fn stmt_tokens(s: WithSpan<StmtView>) -> Seq<TokenView>
    decreases s, 0int,
{
    match s.node {
        StmtView::VarDecl { name, type_, value } => seq![
            TokenView::Identifier("var"@),
            TokenView::Identifier(name),
            TokenView::Colon,
            TokenView::Identifier(type_.name()),
            TokenView::Assign,
        ] + expr_tokens(value) + seq![TokenView::Semicolon],
        StmtView::VarAssignment { name, value } => seq![
            TokenView::Identifier(name),
            TokenView::Assign,
        ] + expr_tokens(value) + seq![TokenView::Semicolon],
        StmtView::Expr(e) => expr_tokens(WithSpan { node: e, span: s.span })
            + seq![TokenView::Semicolon],
        StmtView::If(conditional) => seq![TokenView::Identifier("if"@)] + if_tokens(conditional),
        StmtView::Loop { condition, body } => seq![TokenView::Identifier("while"@)]
            + guarded_tokens(expr_tokens(condition), body_tokens(body, 0)),
        StmtView::Function(f) => seq![TokenView::Identifier("func"@)] + signature_tokens(
            f.name,
            f.params,
            f.type_,
        ) + body_tokens(f.body, 0) + seq![TokenView::RightBrace],
        StmtView::Return { value } => match value {
            None => seq![TokenView::Identifier("return"@), TokenView::Semicolon],
            Some(value) => seq![TokenView::Identifier("return"@)] + expr_tokens(value)
                + seq![TokenView::Semicolon],
        },
    }
}

/// The tokens that spell a conditional after the word `if`. What stands
/// after `else` is spelled as `else if`.
pub open spec fn if_tokens(conditional: IfView) -> Seq<TokenView>
    decreases conditional, 0int,
{
    guarded_tokens(
        expr_tokens(conditional.condition),
        body_tokens(conditional.then_body, 0),
    ) + match conditional.else_body {
        Some(next) => match next.node {
            StmtView::If(inner) => seq![
                TokenView::Identifier("else"@),
                TokenView::Identifier("if"@),
            ] + if_tokens(inner),
            _ => Seq::empty(),
        },
        None => Seq::empty(),
    }
}

/// The tokens that spell the statements of a block from the `i`-th on.
pub open spec fn body_tokens(body: Seq<WithSpan<StmtView>>, i: int) -> Seq<TokenView>
    decreases body, body.len() - i,
{
    if 0 <= i < body.len() {
        stmt_tokens(body[i]) + body_tokens(body, i + 1)
    } else {
        Seq::empty()
    }
}

/// The tokens that spell a program: its statements and the end marker.
pub open spec fn program_tokens(program: Seq<WithSpan<StmtView>>) -> Seq<TokenView> {
    body_tokens(program, 0) + seq![TokenView::EOF]
}

/// Whether the statement can be spelled: its expressions can; an
/// expression that stands as a statement is a call; an assignment or such
/// a call begins with a name that can begin one; and what stands after
/// `else` is a conditional.
pub open spec fn spellable_stmt(s: WithSpan<StmtView>) -> bool
    decreases s, 0int,
{
    match s.node {
        StmtView::VarDecl { name, type_, value } => spellable_expr(value),
        StmtView::VarAssignment { name, value } => begins_statement(name) && spellable_expr(value),
        StmtView::Expr(e) => match e {
            ExprView::Call { callee, args } => begins_statement(callee) && spellable_exprs(args, 0),
            _ => false,
        },
        StmtView::If(conditional) => spellable_if(conditional),
        StmtView::Loop { condition, body } => spellable_expr(condition) && spellable_body(body, 0),
        StmtView::Function(f) => spellable_body(f.body, 0),
        StmtView::Return { value } => match value {
            Some(value) => spellable_expr(value),
            None => true,
        },
    }
}

/// Whether the conditional can be spelled.
pub open spec fn spellable_if(conditional: IfView) -> bool
    decreases conditional, 0int,
{
    &&& spellable_expr(conditional.condition)
    &&& spellable_body(conditional.then_body, 0)
    &&& match conditional.else_body {
        Some(next) => match next.node {
            StmtView::If(inner) => spellable_if(inner),
            _ => false,
        },
        None => true,
    }
}

/// Whether the statements of a block from the `i`-th on can be spelled.
pub open spec fn spellable_body(body: Seq<WithSpan<StmtView>>, i: int) -> bool
    decreases body, body.len() - i,
{
    if 0 <= i < body.len() {
        spellable_stmt(body[i]) && spellable_body(body, i + 1)
    } else {
        true
    }
}

/// What parsing gave is the statement, its positions left out, and ends
/// where the spelling ends.
pub open spec fn gives_stmt(r: Parsed<WithSpan<StmtView>>, s: WithSpan<StmtView>, end: int) -> bool {
    match r {
        Ok((parsed, next)) => next == end && bare_stmt(parsed) == bare_stmt(s),
        Err(_) => false,
    }
}

/// What parsing gave are the statements read before and the given ones,
/// positions left out, and ends where the spelling ends.
pub open spec fn gives_stmts(
    r: Parsed<Seq<WithSpan<StmtView>>>,
    read: Seq<WithSpan<StmtView>>,
    body: Seq<WithSpan<StmtView>>,
    end: int,
) -> bool {
    match r {
        Ok((parsed, next)) => next == end && bare_stmts(parsed) == bare_stmts(read) + bare_stmts(
            body,
        ),
        Err(_) => false,
    }
}

/// Whether the token may stand after a statement: it is not the word
/// `else`.
pub open spec fn ends_statement(token: TokenView) -> bool {
    token != TokenView::Identifier("else"@)
}

/// Whether the token ends a block: a closing brace or the end marker.
pub open spec fn ends_block(token: TokenView) -> bool {
    token == TokenView::RightBrace || token == TokenView::EOF
}

/// The index after a block that ends at `end`: a closing brace belongs to
/// the block, the end marker does not.
pub open spec fn after_block(ts: Tokens, end: int) -> int {
    if token_at(ts, end) == TokenView::RightBrace {
        end + 1
    } else {
        end
    }
}

/// The statements read before and the one read now, followed by those
/// still to read, are the statements read before followed by those that
/// were to read.
proof fn lemma_bare_stmts_step(
    read: Seq<WithSpan<StmtView>>,
    parsed: WithSpan<StmtView>,
    body: Seq<WithSpan<StmtView>>,
    i: int,
)
    requires
        0 <= i < body.len(),
        bare_stmt(parsed) == bare_stmt(body[i]),
    ensures
        bare_stmts(read.push(parsed)) + bare_stmts(body.skip(i + 1)) == bare_stmts(read)
            + bare_stmts(body.skip(i)),
{
    lemma_bare_stmts_push(read, parsed);
    assert(body.skip(i)[0] == body[i]);
    assert(body.skip(i + 1) =~= body.skip(i).skip(1));
    assert(bare_stmts(read.push(parsed)) + bare_stmts(body.skip(i + 1)) =~= bare_stmts(read)
        + bare_stmts(body.skip(i)));
}

/// With nothing left to read, what was read is all.
proof fn lemma_bare_stmts_done(read: Seq<WithSpan<StmtView>>, body: Seq<WithSpan<StmtView>>, i: int)
    requires
        i == body.len(),
    ensures
        bare_stmts(read) + bare_stmts(body.skip(i)) == bare_stmts(read),
{
    assert(body.skip(i) =~= Seq::empty());
    assert(bare_stmts(read) + bare_stmts(body.skip(i)) =~= bare_stmts(read));
}

/// The token after a statement of a block is not the word `else`: it
/// begins the next statement or ends the block.
proof fn lemma_after_statement(ts: Tokens, pos: int, body: Seq<WithSpan<StmtView>>, i: int)
    requires
        0 <= i < body.len(),
        spellable_body(body, i),
        spells(ts, pos, body_tokens(body, i)),
        ends_block(token_at(ts, pos + body_tokens(body, i).len())),
    ensures
        spellable_stmt(body[i]),
        spellable_body(body, i + 1),
        spells(ts, pos, stmt_tokens(body[i])),
        spells(ts, pos + stmt_tokens(body[i]).len(), body_tokens(body, i + 1)),
        body_tokens(body, i).len() == stmt_tokens(body[i]).len() + body_tokens(body, i + 1).len(),
        stmt_tokens(body[i]).len() > 0,
        0 <= pos,
        pos + stmt_tokens(body[i]).len() <= ts.len(),
        token_at(ts, pos) is Identifier,
        ends_statement(token_at(ts, pos + stmt_tokens(body[i]).len())),
{
    let this = stmt_tokens(body[i]);
    let more = body_tokens(body, i + 1);
    lemma_spells_both(ts, pos, this, more);
    lemma_spells_within(ts, pos, this);
    lemma_stmt_first_token(body[i]);
    lemma_spells_at(ts, pos, this, 0);
    assert(spellable_body(body, i + 1));
    if i + 1 < body.len() {
        assert(spellable_stmt(body[i + 1]));
        lemma_stmt_first_token(body[i + 1]);
        assert(more[0] == stmt_tokens(body[i + 1])[0]);
        lemma_spells_at(ts, pos + this.len(), more, 0);
    } else {
        assert(more.len() == 0);
    }
}

proof fn lemma_bare_stmts_push(body: Seq<WithSpan<StmtView>>, s: WithSpan<StmtView>)
    ensures
        bare_stmts(body.push(s)) == bare_stmts(body).push(bare_stmt(s)),
{
    assert(bare_stmts(body.push(s)) =~= bare_stmts(body).push(bare_stmt(s)));
}

/// The spelling of a statement begins with a name other than `else`.
proof fn lemma_stmt_first_token(s: WithSpan<StmtView>)
    requires
        spellable_stmt(s),
    ensures
        stmt_tokens(s).len() > 0,
        stmt_tokens(s)[0] is Identifier,
        stmt_tokens(s)[0] != TokenView::Identifier("else"@),
{
    lemma_words_differ();
}

/// Parsing the spelling of a parameter gives the parameter.
proof fn lemma_parameter_round_trip(ts: Tokens, pos: int, p: ParamView)
    requires
        spells(ts, pos, param_tokens(p)),
    ensures
        parse_parameter(ts, pos) == Ok::<(ParamView, int), Failure>((p, pos + 3)),
{
    let spelling = param_tokens(p);
    lemma_spells_at(ts, pos, spelling, 0);
    lemma_spells_at(ts, pos, spelling, 1);
    lemma_spells_at(ts, pos, spelling, 2);
    lemma_type_name(p.type_);
}

/// Parsing the spelling of further parameters gives those parameters,
/// after the ones read before.
proof fn lemma_more_parameters_round_trip(
    ts: Tokens,
    pos: int,
    params: Seq<ParamView>,
    i: int,
    read: Seq<ParamView>,
)
    requires
        0 <= i <= params.len(),
        spells(ts, pos, more_params_tokens(params, i)),
        token_at(ts, pos + more_params_tokens(params, i).len()) == TokenView::RightParen,
    ensures
        parse_more_parameters(ts, pos, read) == Ok::<(Seq<ParamView>, int), Failure>(
            (read + params.skip(i), pos + more_params_tokens(params, i).len()),
        ),
    decreases params.len() - i,
{
    if i < params.len() {
        let comma = seq![TokenView::Comma];
        let this = param_tokens(params[i]);
        let more = more_params_tokens(params, i + 1);
        lemma_spells_both(ts, pos, comma + this, more);
        lemma_spells_both(ts, pos, comma, this);
        lemma_spells_one(ts, pos, TokenView::Comma);
        lemma_parameter_round_trip(ts, pos + 1, params[i]);
        lemma_more_parameters_round_trip(ts, pos + 4, params, i + 1, read.push(params[i]));
        assert(read.push(params[i]) + params.skip(i + 1) =~= read + params.skip(i));
    } else {
        assert(read + params.skip(i) =~= read);
    }
}

/// Parsing the spelling of the parameters of a function gives the
/// parameters.
proof fn lemma_parameters_round_trip(ts: Tokens, pos: int, params: Seq<ParamView>)
    requires
        spells(ts, pos, params_tokens(params)),
        token_at(ts, pos + params_tokens(params).len()) == TokenView::RightParen,
    ensures
        parse_parameters(ts, pos) == Ok::<(Seq<ParamView>, int), Failure>(
            (params, pos + params_tokens(params).len()),
        ),
{
    if params.len() == 0 {
        assert(params =~= Seq::empty());
    } else {
        let first = param_tokens(params[0]);
        let more = more_params_tokens(params, 1);
        lemma_spells_both(ts, pos, first, more);
        lemma_spells_at(ts, pos, first, 0);
        lemma_parameter_round_trip(ts, pos, params[0]);
        lemma_more_parameters_round_trip(ts, pos + 3, params, 1, seq![params[0]]);
        assert(seq![params[0]] + params.skip(1) =~= params);
    }
}

/// Parsing the spelling of a condition and the opening brace after it
/// gives the condition.
proof fn lemma_condition_round_trip(ts: Tokens, pos: int, condition: WithSpan<ExprView>)
    requires
        spellable_expr(condition),
        spells(
            ts,
            pos,
            seq![TokenView::LeftParen] + expr_tokens(condition) + seq![
                TokenView::RightParen,
                TokenView::LeftBrace,
            ],
        ),
    ensures
        gives_expr(parse_condition(ts, pos), condition, pos + expr_tokens(condition).len() + 3),
{
    let open = seq![TokenView::LeftParen];
    let inner = expr_tokens(condition);
    let close = seq![TokenView::RightParen, TokenView::LeftBrace];
    lemma_spells_both(ts, pos, open + inner, close);
    lemma_spells_both(ts, pos, open, inner);
    lemma_spells_one(ts, pos, TokenView::LeftParen);
    let at_close = pos + 1 + inner.len();
    lemma_spells_at(ts, at_close, close, 0);
    lemma_spells_at(ts, at_close, close, 1);
    lemma_expression_round_trip(ts, pos + 1, condition, 0);
}

/// What parsing gave is the conditional, its positions left out, and ends
/// where the spelling ends.
pub open spec fn gives_if(r: Parsed<IfView>, conditional: IfView, end: int) -> bool {
    match r {
        Ok((parsed, next)) => next == end && bare_if(parsed) == bare_if(conditional),
        Err(_) => false,
    }
}

/// Parsing the spelling gives the statement back.
proof fn lemma_declaration_round_trip(ts: Tokens, pos: int, s: WithSpan<StmtView>)
    requires
        s.node is VarDecl,
        spellable_stmt(s),
        spells(ts, pos, stmt_tokens(s)),
        ends_statement(token_at(ts, pos + stmt_tokens(s).len())),
    ensures
        gives_stmt(parse_statement(ts, pos), s, pos + stmt_tokens(s).len()),
{
    lemma_words_differ();
    let name = s.node->VarDecl_name;
    let type_ = s.node->VarDecl_type_;
    let value = s.node->VarDecl_value;
    let head = seq![
        TokenView::Identifier("var"@),
        TokenView::Identifier(name),
        TokenView::Colon,
        TokenView::Identifier(type_.name()),
        TokenView::Assign,
    ];
    let inner = expr_tokens(value);
    let close = seq![TokenView::Semicolon];
    lemma_spells_both(ts, pos, head + inner, close);
    lemma_spells_both(ts, pos, head, inner);
    lemma_spells_at(ts, pos, head, 0);
    lemma_spells_at(ts, pos, head, 1);
    lemma_spells_at(ts, pos, head, 2);
    lemma_spells_at(ts, pos, head, 3);
    lemma_spells_at(ts, pos, head, 4);
    lemma_spells_one(ts, pos + 5 + inner.len(), TokenView::Semicolon);
    lemma_type_name(type_);
    lemma_expression_round_trip(ts, pos + 5, value, 0);
    assert(gives_stmt(
        parse_variable_declaration(ts, pos + 1),
        s,
        pos + stmt_tokens(s).len(),
    ));
}

/// Parsing the spelling gives the statement back.
proof fn lemma_assignment_round_trip(ts: Tokens, pos: int, s: WithSpan<StmtView>)
    requires
        s.node is VarAssignment,
        spellable_stmt(s),
        spells(ts, pos, stmt_tokens(s)),
        ends_statement(token_at(ts, pos + stmt_tokens(s).len())),
    ensures
        gives_stmt(parse_statement(ts, pos), s, pos + stmt_tokens(s).len()),
{
    lemma_words_differ();
    let name = s.node->VarAssignment_name;
    let value = s.node->VarAssignment_value;
    let head = seq![TokenView::Identifier(name), TokenView::Assign];
    let inner = expr_tokens(value);
    let close = seq![TokenView::Semicolon];
    lemma_spells_both(ts, pos, head + inner, close);
    lemma_spells_both(ts, pos, head, inner);
    lemma_spells_at(ts, pos, head, 0);
    lemma_spells_at(ts, pos, head, 1);
    lemma_spells_one(ts, pos + 2 + inner.len(), TokenView::Semicolon);
    lemma_expression_round_trip(ts, pos + 2, value, 0);
    assert(gives_stmt(
        parse_variable_assignment(ts, pos),
        s,
        pos + stmt_tokens(s).len(),
    ));
}

/// Parsing the spelling gives the statement back.
proof fn lemma_call_round_trip(ts: Tokens, pos: int, s: WithSpan<StmtView>)
    requires
        s.node is Expr,
        spellable_stmt(s),
        spells(ts, pos, stmt_tokens(s)),
        ends_statement(token_at(ts, pos + stmt_tokens(s).len())),
    ensures
        gives_stmt(parse_statement(ts, pos), s, pos + stmt_tokens(s).len()),
{
    lemma_words_differ();
    let e = s.node->Expr_0;
    let callee = e->Call_callee;
    let args = e->Call_args;
    let head = seq![TokenView::Identifier(callee), TokenView::LeftParen];
    let inner = args_tokens(args);
    let close = seq![TokenView::RightParen];
    let semicolon = seq![TokenView::Semicolon];
    lemma_spells_both(ts, pos, head + inner + close, semicolon);
    lemma_spells_both(ts, pos, head + inner, close);
    lemma_spells_both(ts, pos, head, inner);
    lemma_spells_at(ts, pos, head, 0);
    lemma_spells_at(ts, pos, head, 1);
    lemma_spells_one(ts, pos + 2 + inner.len(), TokenView::RightParen);
    lemma_spells_one(ts, pos + 3 + inner.len(), TokenView::Semicolon);
    lemma_arguments_round_trip(ts, pos + 2, args);
    assert(bare_exprs(Seq::<WithSpan<ExprView>>::empty()) + bare_exprs(args) =~= bare_exprs(
        args,
    ));
    assert(gives_stmt(parse_function_call(ts, pos), s, pos + stmt_tokens(s).len()));
}

/// Parsing the spelling gives the statement back.
proof fn lemma_return_round_trip(ts: Tokens, pos: int, s: WithSpan<StmtView>)
    requires
        s.node is Return,
        spellable_stmt(s),
        spells(ts, pos, stmt_tokens(s)),
        ends_statement(token_at(ts, pos + stmt_tokens(s).len())),
    ensures
        gives_stmt(parse_statement(ts, pos), s, pos + stmt_tokens(s).len()),
{
    lemma_words_differ();
    let value = s.node->Return_value;
    match value {
        None => {
            let spelling = seq![TokenView::Identifier("return"@), TokenView::Semicolon];
            lemma_spells_at(ts, pos, spelling, 0);
            lemma_spells_at(ts, pos, spelling, 1);
        },
        Some(value) => {
            let head = seq![TokenView::Identifier("return"@)];
            let inner = expr_tokens(value);
            let close = seq![TokenView::Semicolon];
            lemma_spells_both(ts, pos, head + inner, close);
            lemma_spells_both(ts, pos, head, inner);
            lemma_spells_one(ts, pos, TokenView::Identifier("return"@));
            lemma_spells_one(ts, pos + 1 + inner.len(), TokenView::Semicolon);
            lemma_first_token(value);
            lemma_spells_at(ts, pos + 1, inner, 0);
            lemma_expression_round_trip(ts, pos + 1, value, 0);
        },
    }
    assert(gives_stmt(parse_return(ts, pos + 1), s, pos + stmt_tokens(s).len()));
}

/// Parsing the spelling gives the statement back.
proof fn lemma_loop_round_trip(ts: Tokens, pos: int, s: WithSpan<StmtView>)
    requires
        s.node is Loop,
        spellable_stmt(s),
        spells(ts, pos, stmt_tokens(s)),
        ends_statement(token_at(ts, pos + stmt_tokens(s).len())),
    ensures
        gives_stmt(parse_statement(ts, pos), s, pos + stmt_tokens(s).len()),
    decreases s, 0int,
{
    lemma_words_differ();
    let condition = s.node->Loop_condition;
    let body = s.node->Loop_body;
    let head = seq![TokenView::Identifier("while"@)];
    let guard = seq![TokenView::LeftParen] + expr_tokens(condition) + seq![
        TokenView::RightParen,
        TokenView::LeftBrace,
    ];
    let block = body_tokens(body, 0);
    let close = seq![TokenView::RightBrace];
    assert(guarded_tokens(expr_tokens(condition), block) == guard + block + close);
    lemma_spells_both(ts, pos, head, guard + block + close);
    lemma_spells_one(ts, pos, TokenView::Identifier("while"@));
    lemma_spells_both(ts, pos + 1, guard + block, close);
    lemma_spells_both(ts, pos + 1, guard, block);
    lemma_condition_round_trip(ts, pos + 1, condition);
    let at_block = pos + 1 + guard.len();
    lemma_spells_one(ts, at_block + block.len(), TokenView::RightBrace);
    lemma_body_rest_round_trip(ts, at_block, body, 0, Seq::empty());
    assert(body.skip(0) =~= body);
    assert(bare_stmts(Seq::<WithSpan<StmtView>>::empty()) + bare_stmts(body) =~= bare_stmts(
        body,
    ));
    assert(gives_stmt(parse_loop(ts, pos + 1), s, pos + stmt_tokens(s).len()));
}

/// Parsing the spelling of the head of a function gives its name, its
/// parameters and its type.
proof fn lemma_signature_round_trip(ts: Tokens, pos: int, f: FunctionView)
    requires
        spells(ts, pos, signature_tokens(f.name, f.params, f.type_)),
    ensures
        parse_signature(ts, pos) == Ok::<((Seq<char>, Seq<ParamView>, Type), int), Failure>(
            ((f.name, f.params, f.type_), pos + signature_tokens(f.name, f.params, f.type_).len()),
        ),
{
    let head = seq![TokenView::Identifier(f.name), TokenView::LeftParen];
    let params = params_tokens(f.params);
    let middle = seq![
        TokenView::RightParen,
        TokenView::Colon,
        TokenView::Identifier(f.type_.name()),
        TokenView::LeftBrace,
    ];
    lemma_spells_both(ts, pos, head + params, middle);
    lemma_spells_both(ts, pos, head, params);
    lemma_spells_at(ts, pos, head, 0);
    lemma_spells_at(ts, pos, head, 1);
    let at_middle = pos + 2 + params.len();
    lemma_spells_at(ts, at_middle, middle, 0);
    lemma_spells_at(ts, at_middle, middle, 1);
    lemma_spells_at(ts, at_middle, middle, 2);
    lemma_spells_at(ts, at_middle, middle, 3);
    lemma_parameters_round_trip(ts, pos + 2, f.params);
    lemma_type_name(f.type_);
}

/// Parsing the spelling gives the statement back.
proof fn lemma_function_round_trip(ts: Tokens, pos: int, s: WithSpan<StmtView>)
    requires
        s.node is Function,
        spellable_stmt(s),
        spells(ts, pos, stmt_tokens(s)),
        ends_statement(token_at(ts, pos + stmt_tokens(s).len())),
    ensures
        gives_stmt(parse_statement(ts, pos), s, pos + stmt_tokens(s).len()),
    decreases s, 0int,
{
    lemma_words_differ();
    let f = s.node->Function_0;
    let head = seq![TokenView::Identifier("func"@)];
    let signature = signature_tokens(f.name, f.params, f.type_);
    let block = body_tokens(f.body, 0);
    let close = seq![TokenView::RightBrace];
    lemma_spells_both(ts, pos, head + signature + block, close);
    lemma_spells_both(ts, pos, head + signature, block);
    lemma_spells_both(ts, pos, head, signature);
    lemma_spells_one(ts, pos, TokenView::Identifier("func"@));
    lemma_signature_round_trip(ts, pos + 1, f);
    let at_block = pos + 1 + signature.len();
    lemma_spells_one(ts, at_block + block.len(), TokenView::RightBrace);
    lemma_body_rest_round_trip(ts, at_block, f.body, 0, Seq::empty());
    assert(f.body.skip(0) =~= f.body);
    assert(bare_stmts(Seq::<WithSpan<StmtView>>::empty()) + bare_stmts(f.body) =~= bare_stmts(
        f.body,
    ));
    assert(gives_stmt(parse_function(ts, pos + 1), s, pos + stmt_tokens(s).len()));
}

/// Parsing the spelling of a statement gives the statement, if the token
/// after it is not the word `else`.
pub proof fn lemma_statement_round_trip(ts: Tokens, pos: int, s: WithSpan<StmtView>)
    requires
        spellable_stmt(s),
        spells(ts, pos, stmt_tokens(s)),
        ends_statement(token_at(ts, pos + stmt_tokens(s).len())),
    ensures
        gives_stmt(parse_statement(ts, pos), s, pos + stmt_tokens(s).len()),
    decreases s, 1int,
{
    match s.node {
        StmtView::VarDecl { name, type_, value } => {
            lemma_declaration_round_trip(ts, pos, s);
        },
        StmtView::VarAssignment { name, value } => {
            lemma_assignment_round_trip(ts, pos, s);
        },
        StmtView::Expr(e) => {
            lemma_call_round_trip(ts, pos, s);
        },
        StmtView::Return { value } => {
            lemma_return_round_trip(ts, pos, s);
        },
        StmtView::If(conditional) => {
            lemma_words_differ();
            let head = seq![TokenView::Identifier("if"@)];
            lemma_spells_both(ts, pos, head, if_tokens(conditional));
            lemma_spells_one(ts, pos, TokenView::Identifier("if"@));
            lemma_if_round_trip(ts, pos + 1, conditional);
        },
        StmtView::Loop { condition, body } => {
            lemma_loop_round_trip(ts, pos, s);
        },
        StmtView::Function(f) => {
            lemma_function_round_trip(ts, pos, s);
        },
    }
}

/// Parsing the spelling of a conditional after the word `if` gives the
/// conditional, if the token after it is not the word `else`.
pub proof fn lemma_if_round_trip(ts: Tokens, pos: int, conditional: IfView)
    requires
        spellable_if(conditional),
        spells(ts, pos, if_tokens(conditional)),
        ends_statement(token_at(ts, pos + if_tokens(conditional).len())),
    ensures
        gives_if(parse_if(ts, pos), conditional, pos + if_tokens(conditional).len()),
    decreases conditional, 0int,
{
    lemma_words_differ();
    let guard = seq![TokenView::LeftParen] + expr_tokens(conditional.condition) + seq![
        TokenView::RightParen,
        TokenView::LeftBrace,
    ];
    let block = body_tokens(conditional.then_body, 0);
    let close = seq![TokenView::RightBrace];
    let first = guarded_tokens(expr_tokens(conditional.condition), block);
    assert(first == guard + block + close);
    let rest: Seq<TokenView> = match conditional.else_body {
        Some(next) => match next.node {
            StmtView::If(inner) => seq![
                TokenView::Identifier("else"@),
                TokenView::Identifier("if"@),
            ] + if_tokens(inner),
            _ => Seq::empty(),
        },
        None => Seq::empty(),
    };
    assert(if_tokens(conditional) == first + rest);
    lemma_spells_both(ts, pos, first, rest);
    lemma_spells_both(ts, pos, guard + block, close);
    lemma_spells_both(ts, pos, guard, block);
    lemma_condition_round_trip(ts, pos, conditional.condition);
    let at_block = pos + guard.len();
    lemma_spells_one(ts, at_block + block.len(), TokenView::RightBrace);
    lemma_body_rest_round_trip(ts, at_block, conditional.then_body, 0, Seq::empty());
    assert(conditional.then_body.skip(0) =~= conditional.then_body);
    assert(bare_stmts(Seq::<WithSpan<StmtView>>::empty()) + bare_stmts(conditional.then_body)
        =~= bare_stmts(conditional.then_body));
    let after_body = pos + first.len();
    match conditional.else_body {
        Some(next) => {
            let inner = next.node->If_0;
            let words = seq![TokenView::Identifier("else"@), TokenView::Identifier("if"@)];
            lemma_spells_both(ts, after_body, words, if_tokens(inner));
            lemma_spells_at(ts, after_body, words, 0);
            lemma_spells_at(ts, after_body, words, 1);
            lemma_if_round_trip(ts, after_body + 2, inner);
        },
        None => {},
    }
}

/// Parsing the spelling of the statements of a block from the `i`-th on,
/// up to the token that ends the block, gives those statements, after the
/// ones read before.
pub proof fn lemma_body_rest_round_trip(
    ts: Tokens,
    pos: int,
    body: Seq<WithSpan<StmtView>>,
    i: int,
    read: Seq<WithSpan<StmtView>>,
)
    requires
        0 <= i <= body.len(),
        spellable_body(body, i),
        spells(ts, pos, body_tokens(body, i)),
        ends_block(token_at(ts, pos + body_tokens(body, i).len())),
    ensures
        gives_stmts(
            parse_body_rest(ts, pos, read),
            read,
            body.skip(i),
            after_block(ts, pos + body_tokens(body, i).len()),
        ),
    decreases body, body.len() - i,
{
    if i < body.len() {
        lemma_after_statement(ts, pos, body, i);
        lemma_statement_round_trip(ts, pos, body[i]);
        let parsed = parse_statement(ts, pos)->Ok_0.0;
        let next = pos + stmt_tokens(body[i]).len();
        lemma_body_rest_round_trip(ts, next, body, i + 1, read.push(parsed));
        lemma_bare_stmts_step(read, parsed, body, i);
    } else {
        lemma_bare_stmts_done(read, body, i);
    }
}

/// Parsing the spelling of the statements of a program from the `i`-th
/// on, up to the end marker, gives those statements, after the ones read
/// before.
proof fn lemma_statements_round_trip(
    ts: Tokens,
    pos: int,
    body: Seq<WithSpan<StmtView>>,
    i: int,
    read: Seq<WithSpan<StmtView>>,
)
    requires
        0 <= i <= body.len(),
        spellable_body(body, i),
        spells(ts, pos, body_tokens(body, i)),
        token_at(ts, pos + body_tokens(body, i).len()) == TokenView::EOF,
    ensures
        gives_stmts(
            parse_statements(ts, pos, read),
            read,
            body.skip(i),
            pos + body_tokens(body, i).len(),
        ),
    decreases body.len() - i,
{
    if i < body.len() {
        lemma_after_statement(ts, pos, body, i);
        lemma_statement_round_trip(ts, pos, body[i]);
        let parsed = parse_statement(ts, pos)->Ok_0.0;
        let next = pos + stmt_tokens(body[i]).len();
        lemma_statements_round_trip(ts, next, body, i + 1, read.push(parsed));
        lemma_bare_stmts_step(read, parsed, body, i);
    } else {
        lemma_bare_stmts_done(read, body, i);
    }
}

/// Parsing the spelling of a program gives the program.
///
/// Let a program be one that can be spelled, and let a token sequence hold
/// the tokens that spell it, at whatever positions. Then the parser
/// accepts the tokens, and the tree that it gives is the program, the
/// positions left out: spelling a tree and parsing it again changes
/// nothing but where the nodes are said to stand.
pub proof fn law_round_trip(program: Seq<WithSpan<StmtView>>, ts: Tokens)
    requires
        spellable_body(program, 0),
        spells(ts, 0, program_tokens(program)),
    ensures
        parse_program(ts) is Ok,
        bare_stmts(parse_program(ts)->Ok_0.0) == bare_stmts(program),
{
    let block = body_tokens(program, 0);
    lemma_spells_both(ts, 0, block, seq![TokenView::EOF]);
    lemma_spells_one(ts, block.len() as int, TokenView::EOF);
    lemma_statements_round_trip(ts, 0, program, 0, Seq::empty());
    assert(program.skip(0) =~= program);
    assert(bare_stmts(Seq::<WithSpan<StmtView>>::empty()) + bare_stmts(program) =~= bare_stmts(
        program,
    ));
}

} // verus!
